use dashmap::DashMap;
use vstd::prelude::*;

use crate::error::AppError;
use crate::record::Url;
use crate::store::{
    no_records, store_get, store_insert, store_len, store_new, store_values, stored, value_keys,
};
use crate::tally::{
    is_listing, lemma_total_clicks_bounds, lemma_total_clicks_empty, lemma_total_clicks_insert,
    lemma_total_clicks_remove, record_views, total_clicks, well_formed_records, Records,
};

verus! {

/// The store of all records, keyed by short code. Records are added and
/// counted, never removed.
pub struct Registry {
    records: DashMap<String, Url>,
    clicks: i64,
}

impl View for Registry {
    type V = Records;

    closed spec fn view(&self) -> Records {
        stored(self.records)
    }
}

impl Registry {
    /// The invariant of the registry: its records are well formed, and the
    /// running click counter agrees with them.
    pub closed spec fn wf(&self) -> bool {
        &&& well_formed_records(self@)
        &&& self.clicks == total_clicks(self@)
    }

    /// What the invariant says of the contents.
    pub proof fn lemma_wf(&self)
        requires
            self.wf(),
        ensures
            well_formed_records(self@),
            0 <= total_clicks(self@) <= i64::MAX,
    {
        lemma_total_clicks_bounds(self@);
    }

    /// An empty registry.
    pub fn new() -> (registry: Registry)
        ensures
            registry.wf(),
            registry@ == no_records(),
    {
        proof {
            lemma_total_clicks_empty();
        }
        Registry { records: store_new(), clicks: 0 }
    }

    /// Stores `record` under its short code. A record that was stored under
    /// the same code is replaced.
    pub fn insert(&mut self, record: Url)
        requires
            old(self).wf(),
            total_clicks(old(self)@.insert(record@.short_code, record@)) <= i64::MAX,
        ensures
            final(self).wf(),
            final(self)@ == old(self)@.insert(record@.short_code, record@),
    {
        let key = record.short_code().to_owned();
        let added = record.access_count();
        let ghost before = self@;
        let ghost code = record@.short_code;
        let ghost view = record@;
        let previous = store_insert(&mut self.records, key, record);
        let removed = match previous {
            Some(replaced) => replaced.access_count(),
            None => 0,
        };
        proof {
            lemma_total_clicks_insert(before, code, view);
            if before.contains_key(code) {
                lemma_total_clicks_remove(before, code);
            } else {
                assert(before.remove(code) =~= before);
            }
            lemma_total_clicks_bounds(before.remove(code));
        }
        self.clicks = self.clicks - removed + added;
    }

    /// A copy of the record stored under `short_code`, if there is one. The
    /// access count is left as it is.
    pub fn get(&self, short_code: &str) -> (found: Option<Url>)
        ensures
            match found {
                Some(record) => self@.contains_key(short_code@) && record@ == self@[short_code@],
                None => !self@.contains_key(short_code@),
            },
    {
        store_get(&self.records, short_code)
    }

    /// Counts one access to the record stored under `short_code` and hands
    /// back the record as it stands after the count.
    pub fn get_and_increment(&mut self, short_code: &str) -> (result: Result<Url, AppError>)
        requires
            old(self).wf(),
            old(self)@.contains_key(short_code@) ==> total_clicks(old(self)@) < i64::MAX,
        ensures
            final(self).wf(),
            match result {
                Ok(record) => {
                    &&& old(self)@.contains_key(short_code@)
                    &&& record@ == old(self)@[short_code@].visited()
                    &&& final(self)@ == old(self)@.insert(short_code@, record@)
                },
                Err(error) => {
                    &&& error == AppError::NotFound
                    &&& !old(self)@.contains_key(short_code@)
                    &&& final(self)@ == old(self)@
                },
            },
    {
        let ghost before = self@;
        match store_get(&self.records, short_code) {
            None => Err(AppError::NotFound),
            Some(record) => {
                proof {
                    lemma_total_clicks_bounds(before);
                    lemma_total_clicks_remove(before, short_code@);
                    lemma_total_clicks_insert(before, short_code@, record@.visited());
                }
                let updated = record.visited();
                let returned = updated.clone();
                store_insert(&mut self.records, short_code.to_owned(), updated);
                self.clicks = self.clicks + 1;
                Ok(returned)
            },
        }
    }

    /// Every record once, in no particular order.
    pub fn list_all(&self) -> (list: Vec<Url>)
        requires
            self.wf(),
        ensures
            is_listing(record_views(list@), self@),
    {
        let list = store_values(&self.records);
        proof {
            let keys = choose|keys: Seq<Seq<char>>| #[trigger] value_keys(keys, list@, self@);
            let views = record_views(list@);
            assert forall|i: int| 0 <= i < views.len() implies (#[trigger] views[i]).short_code
                == keys[i] && self@.contains_key(keys[i]) && self@[keys[i]] == views[i] by {
                assert(self@.contains_key(keys[i]));
            }
            assert forall|code: Seq<char>| #[trigger] self@.contains_key(code) implies exists|
                i: int,
            |
                0 <= i < views.len() && (#[trigger] views[i]).short_code == code by {
                let i = choose|i: int| 0 <= i < keys.len() && #[trigger] keys[i] == code;
                assert(views[i].short_code == code);
            }
        }
        list
    }

    /// The number of records.
    pub fn count(&self) -> (n: usize)
        ensures
            n == self@.dom().len(),
    {
        store_len(&self.records)
    }

    /// The sum of the access counts of all records.
    pub fn sum_access_counts(&self) -> (sum: i64)
        requires
            self.wf(),
        ensures
            sum == total_clicks(self@),
    {
        self.clicks
    }
}

} // verus!
