use vstd::prelude::*;

use crate::record::{Timestamp, Url, UrlView};

verus! {

/// What a response holds, as plain mathematical values.
pub struct UrlResponseView {
    pub original_url: Seq<char>,
    pub short_code: Seq<char>,
    pub short_url: Seq<char>,
    pub created_at: Timestamp,
    pub access_count: int,
}

/// A record as it is shown to a client: without its id, and with the full
/// short URL under which it can be reached.
#[derive(Debug, PartialEq, Eq)]
pub struct UrlResponse {
    pub original_url: String,
    pub short_code: String,
    pub short_url: String,
    pub created_at: Timestamp,
    pub access_count: i64,
}

impl View for UrlResponse {
    type V = UrlResponseView;

    open spec fn view(&self) -> UrlResponseView {
        UrlResponseView {
            original_url: self.original_url@,
            short_code: self.short_code@,
            short_url: self.short_url@,
            created_at: self.created_at,
            access_count: self.access_count as int,
        }
    }
}

impl Clone for UrlResponse {
    fn clone(&self) -> (copy: Self)
        ensures
            copy == *self,
    {
        UrlResponse {
            original_url: self.original_url.clone(),
            short_code: self.short_code.clone(),
            short_url: self.short_url.clone(),
            created_at: self.created_at,
            access_count: self.access_count,
        }
    }
}

/// The totals of the registry and all its records, most clicked first.
#[derive(Debug, PartialEq, Eq)]
pub struct AnalyticsResponse {
    pub total_urls: usize,
    pub total_clicks: i64,
    pub urls: Vec<UrlResponse>,
}

/// The address of a short code: the base URL, a slash, the code.
pub open spec fn short_url_of(base_url: Seq<char>, short_code: Seq<char>) -> Seq<char> {
    base_url + seq!['/'] + short_code
}

/// The response that shows `record` to a client of the service at `base_url`.
pub open spec fn response_of(record: UrlView, base_url: Seq<char>) -> UrlResponseView {
    UrlResponseView {
        original_url: record.original_url,
        short_code: record.short_code,
        short_url: short_url_of(base_url, record.short_code),
        created_at: record.created_at,
        access_count: record.access_count,
    }
}

/// The views of a sequence of responses.
pub open spec fn response_views(list: Seq<UrlResponse>) -> Seq<UrlResponseView> {
    list.map_values(|response: UrlResponse| response@)
}

/// Builds the address of a short code.
pub fn short_url(base_url: &str, short_code: &str) -> (address: String)
    ensures
        address@ == short_url_of(base_url@, short_code@),
{
    proof {
        reveal_strlit("/");
        assert("/"@ =~= seq!['/']);
    }
    let mut address = base_url.to_owned();
    address.append("/");
    address.append(short_code);
    address
}

impl UrlResponse {
    /// Shows `record` as a client of the service at `base_url` sees it.
    pub fn from_record(record: &Url, base_url: &str) -> (response: UrlResponse)
        ensures
            response@ == response_of(record@, base_url@),
    {
        UrlResponse {
            original_url: record.original_url().to_owned(),
            short_code: record.short_code().to_owned(),
            short_url: short_url(base_url, record.short_code()),
            created_at: record.created_at(),
            access_count: record.access_count(),
        }
    }
}

} // verus!
