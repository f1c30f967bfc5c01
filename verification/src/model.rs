use vstd::prelude::*;

use crate::generate::is_code;
use crate::record::UrlView;
use crate::tally::Records;

verus! {

/// The length of a generated short code.
pub const CODE_LENGTH: usize = 6;

/// The length of a generated record id.
pub const ID_LENGTH: usize = 10;

/// Whether `record` may be the record that was created for `url`: it holds
/// that URL, was never resolved, and its code and id are generated codes of
/// the lengths that the service uses.
pub open spec fn is_new_record(record: UrlView, url: Seq<char>) -> bool {
    &&& record.original_url == url
    &&& record.access_count == 0
    &&& is_code(record.short_code, CODE_LENGTH as nat)
    &&& is_code(record.id, ID_LENGTH as nat)
}

/// The records after `record` was created: it stands under its short code,
/// in place of whatever stood there.
pub open spec fn after_create(records: Records, record: UrlView) -> Records {
    records.insert(record.short_code, record)
}

/// The URL that resolving `short_code` leads to, if the code is known.
pub open spec fn resolve_target(records: Records, short_code: Seq<char>) -> Option<Seq<char>> {
    if records.contains_key(short_code) {
        Some(records[short_code].original_url)
    } else {
        None
    }
}

/// The records after `short_code` was resolved: a known code has one more
/// access, an unknown one changes nothing.
pub open spec fn after_resolve(records: Records, short_code: Seq<char>) -> Records {
    if records.contains_key(short_code) {
        records.insert(short_code, records[short_code].visited())
    } else {
        records
    }
}

/// The records after `short_code` was resolved `times` times in a row.
pub open spec fn after_resolves(records: Records, short_code: Seq<char>, times: nat) -> Records
    decreases times,
{
    if times == 0 {
        records
    } else {
        after_resolve(after_resolves(records, short_code, (times - 1) as nat), short_code)
    }
}

/// Something that changes the registry.
pub enum Event {
    /// A record was created.
    Created { record: UrlView },
    /// A short code was resolved.
    Resolved { short_code: Seq<char> },
}

/// The records after `event`.
pub open spec fn after_event(records: Records, event: Event) -> Records {
    match event {
        Event::Created { record } => after_create(records, record),
        Event::Resolved { short_code } => after_resolve(records, short_code),
    }
}

/// The records of a registry that started empty and saw `events` in turn.
pub open spec fn after_events(events: Seq<Event>) -> Records
    decreases events.len(),
{
    if events.len() == 0 {
        Map::empty()
    } else {
        after_event(after_events(events.drop_last()), events.last())
    }
}

} // verus!
