use vstd::prelude::*;

use crate::error::AppError;
use crate::generate::{current_time, random_code};
use crate::listing::{
    is_response_listing, lemma_listing_permuted, lemma_response_listing_totals,
    lemma_responses_of_listing, shown_clicks,
};
use crate::model::{
    after_create, after_resolve, is_new_record, resolve_target, CODE_LENGTH, ID_LENGTH,
};
use crate::record::{Timestamp, Url, UrlView};
use crate::registry::Registry;
use crate::response::{response_of, AnalyticsResponse, UrlResponse};
use crate::sort::{is_sorted_descending, sort_descending, SortKey};
use crate::store::no_records;
use crate::tally::{
    lemma_total_clicks_insert, lemma_total_clicks_remove, total_clicks, Records,
};
use crate::validate::{is_valid_url, valid_url};

verus! {

/// The base URL that short URLs are built on when none is configured.
pub open spec fn default_base_url() -> Seq<char> {
    "http://localhost:3000"@
}

/// The page that is served when the start page could not be loaded.
pub open spec fn fallback_page() -> Seq<char> {
    "<h1>Failed to load index.html</h1>"@
}

/// The configured base URL, or the default where none is configured.
pub fn base_url_or_default(configured: Option<String>) -> (base_url: String)
    ensures
        base_url@ == match configured {
            Some(value) => value@,
            None => default_base_url(),
        },
{
    match configured {
        Some(value) => value,
        None => "http://localhost:3000".to_owned(),
    }
}

/// The start page as it was loaded, or the fallback page where it was not.
pub fn page_or_fallback(loaded: Option<String>) -> (page: String)
    ensures
        page@ == match loaded {
            Some(text) => text@,
            None => fallback_page(),
        },
{
    match loaded {
        Some(text) => text,
        None => "<h1>Failed to load index.html</h1>".to_owned(),
    }
}

/// Shows each record of `listed` as a client of the service at `base_url`
/// sees it, in the same order.
pub fn to_responses(listed: &Vec<Url>, base_url: &str) -> (responses: Vec<UrlResponse>)
    ensures
        responses.len() == listed.len(),
        forall|i: int|
            0 <= i < listed.len() ==> (#[trigger] responses[i])@ == response_of(
                listed[i]@,
                base_url@,
            ),
{
    let mut responses: Vec<UrlResponse> = Vec::new();
    let mut next: usize = 0;
    while next < listed.len()
        invariant
            next <= listed.len(),
            responses.len() == next,
            forall|i: int|
                0 <= i < next ==> (#[trigger] responses[i])@ == response_of(listed[i]@, base_url@),
        decreases listed.len() - next,
    {
        responses.push(UrlResponse::from_record(&listed[next], base_url));
        next += 1;
    }
    responses
}

/// The state of the service: the registry of all records and the start page.
pub struct AppState {
    urls: Registry,
    index_html: String,
}

impl AppState {
    /// The invariant of the state: that of its registry.
    pub closed spec fn wf(&self) -> bool {
        self.urls.wf()
    }

    /// The records of the registry, each under its short code.
    pub closed spec fn records(&self) -> Records {
        self.urls@
    }

    /// The text of the start page.
    pub closed spec fn page(&self) -> Seq<char> {
        self.index_html@
    }

    /// A service without records that serves `index_html` as its start page.
    pub fn new(index_html: String) -> (state: AppState)
        ensures
            state.wf(),
            state.records() == no_records(),
            state.page() == index_html@,
    {
        AppState { urls: Registry::new(), index_html }
    }

    /// The registry of the service, to look at.
    pub fn registry(&self) -> (registry: &Registry)
        ensures
            registry@ == self.records(),
            self.wf() ==> registry.wf(),
    {
        &self.urls
    }

    /// The start page.
    pub fn index_page(&self) -> (page: String)
        ensures
            page@ == self.page(),
    {
        self.index_html.clone()
    }

    /// The number of records.
    pub fn total_urls(&self) -> (n: usize)
        ensures
            n == self.records().dom().len(),
    {
        self.urls.count()
    }

    /// The number of successful resolves that the records have counted.
    pub fn total_clicks(&self) -> (n: i64)
        requires
            self.wf(),
        ensures
            n == total_clicks(self.records()),
    {
        self.urls.sum_access_counts()
    }

    /// Shortens `url`: checks it, gives it a random short code of six
    /// characters and a random id of ten, and stores it with the current
    /// time. An invalid URL is rejected and nothing is stored.
    pub fn create_short_url(&mut self, url: String, base_url: &str) -> (result: Result<
        UrlResponse,
        AppError,
    >)
        requires
            old(self).wf(),
        ensures
            final(self).wf(),
            final(self).page() == old(self).page(),
            match result {
                Ok(response) => {
                    &&& valid_url(url@)
                    &&& exists|record: UrlView|
                        {
                            &&& #[trigger] is_new_record(record, url@)
                            &&& final(self).records() == after_create(old(self).records(), record)
                            &&& response@ == response_of(record, base_url@)
                        }
                },
                Err(error) => {
                    &&& error == AppError::InvalidUrl
                    &&& !valid_url(url@)
                    &&& final(self).records() == old(self).records()
                },
            },
    {
        if !is_valid_url(url.as_str()) {
            return Err(AppError::InvalidUrl);
        }
        let short_code = random_code(CODE_LENGTH);
        let now = current_time();
        let id = random_code(ID_LENGTH);
        let ghost record = UrlView::fresh(id@, url@, short_code@, now);
        let result = self.create_short_url_with(url, short_code, id, now, base_url);
        proof {
            assert(is_new_record(record, url@));
        }
        result
    }

    /// Shortens `url` under a short code, an id and a creation time that are
    /// given. An invalid URL is rejected and nothing is stored. A record that
    /// stood under the same short code is replaced.
    pub fn create_short_url_with(
        &mut self,
        url: String,
        short_code: String,
        id: String,
        created_at: Timestamp,
        base_url: &str,
    ) -> (result: Result<UrlResponse, AppError>)
        requires
            old(self).wf(),
        ensures
            final(self).wf(),
            final(self).page() == old(self).page(),
            match result {
                Ok(response) => {
                    &&& valid_url(url@)
                    &&& final(self).records() == after_create(
                        old(self).records(),
                        UrlView::fresh(id@, url@, short_code@, created_at),
                    )
                    &&& response@ == response_of(
                        UrlView::fresh(id@, url@, short_code@, created_at),
                        base_url@,
                    )
                },
                Err(error) => {
                    &&& error == AppError::InvalidUrl
                    &&& !valid_url(url@)
                    &&& final(self).records() == old(self).records()
                },
            },
    {
        if !is_valid_url(url.as_str()) {
            return Err(AppError::InvalidUrl);
        }
        let record = Url::new(id, url, short_code, created_at);
        let response = UrlResponse::from_record(&record, base_url);
        proof {
            let before = self.urls@;
            let code = record@.short_code;
            self.urls.lemma_wf();
            lemma_total_clicks_insert(before, code, record@);
            if before.contains_key(code) {
                lemma_total_clicks_remove(before, code);
            } else {
                assert(before.remove(code) =~= before);
            }
        }
        self.urls.insert(record);
        Ok(response)
    }

    /// Resolves `short_code`: counts one access to its record and returns
    /// the URL that it stands for.
    pub fn redirect_to_original(&mut self, short_code: &str) -> (result: Result<String, AppError>)
        requires
            old(self).wf(),
            old(self).records().contains_key(short_code@) ==> total_clicks(old(self).records())
                < i64::MAX,
        ensures
            final(self).wf(),
            final(self).page() == old(self).page(),
            final(self).records() == after_resolve(old(self).records(), short_code@),
            match result {
                Ok(target) => resolve_target(old(self).records(), short_code@) == Some(target@),
                Err(error) => error == AppError::NotFound && resolve_target(
                    old(self).records(),
                    short_code@,
                ) is None,
            },
    {
        match self.urls.get_and_increment(short_code) {
            Ok(record) => Ok(record.original_url().to_owned()),
            Err(error) => Err(error),
        }
    }

    /// All records as responses, the newest first.
    pub fn get_all_urls(&self, base_url: &str) -> (list: Vec<UrlResponse>)
        requires
            self.wf(),
        ensures
            is_response_listing(list@, self.records(), base_url@),
            is_sorted_descending(list@, SortKey::CreatedAt),
            list.len() == self.records().dom().len(),
    {
        let listed = self.urls.list_all();
        let responses = to_responses(&listed, base_url);
        let sorted = sort_descending(responses, SortKey::CreatedAt);
        proof {
            lemma_responses_of_listing(listed@, responses@, self.records(), base_url@);
            lemma_listing_permuted(responses@, sorted@, self.records(), base_url@);
            lemma_response_listing_totals(sorted@, self.records(), base_url@);
        }
        sorted
    }

    /// The totals of the registry and all records as responses, the most
    /// clicked first.
    pub fn get_analytics(&self, base_url: &str) -> (report: AnalyticsResponse)
        requires
            self.wf(),
        ensures
            report.total_urls == self.records().dom().len(),
            report.total_clicks == total_clicks(self.records()),
            is_response_listing(report.urls@, self.records(), base_url@),
            is_sorted_descending(report.urls@, SortKey::AccessCount),
            report.urls.len() == report.total_urls,
            shown_clicks(report.urls@) == report.total_clicks,
    {
        let total_urls = self.urls.count();
        let total_clicks = self.urls.sum_access_counts();
        let listed = self.urls.list_all();
        let responses = to_responses(&listed, base_url);
        let urls = sort_descending(responses, SortKey::AccessCount);
        proof {
            lemma_responses_of_listing(listed@, responses@, self.records(), base_url@);
            lemma_listing_permuted(responses@, urls@, self.records(), base_url@);
            lemma_response_listing_totals(urls@, self.records(), base_url@);
        }
        AnalyticsResponse { total_urls, total_clicks, urls }
    }
}

} // verus!
