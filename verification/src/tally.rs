use vstd::prelude::*;

use crate::record::{Url, UrlView};

verus! {

/// The contents of a registry: each record under its short code.
pub type Records = Map<Seq<char>, UrlView>;

/// What holds of the contents of every registry: there are finitely many
/// records, each is stored under its own short code, and no access count is
/// negative.
pub open spec fn well_formed_records(records: Records) -> bool {
    &&& records.dom().finite()
    &&& forall|code: Seq<char>| #[trigger]
        records.contains_key(code) ==> records[code].short_code == code
            && records[code].access_count >= 0
}

/// The sum of the access counts of all records.
pub closed spec fn total_clicks(records: Records) -> int
    decreases records.dom().len(),
    when records.dom().finite()
    via total_clicks_terminates
{
    if records.dom().len() == 0 {
        0
    } else {
        let code = records.dom().choose();
        records[code].access_count + total_clicks(records.remove(code))
    }
}

#[via_fn]
proof fn total_clicks_terminates(records: Records) {
    if records.dom().len() != 0 {
        let code = records.dom().choose();
        assert(records.dom().contains(code));
        assert(records.remove(code).dom() == records.dom().remove(code));
    }
}

/// The views of a sequence of records.
pub open spec fn record_views(list: Seq<Url>) -> Seq<UrlView> {
    list.map_values(|record: Url| record@)
}

/// Whether `list` holds every record of `records` exactly once.
pub open spec fn is_listing(list: Seq<UrlView>, records: Records) -> bool {
    &&& forall|i: int|
        0 <= i < list.len() ==> records.contains_key((#[trigger] list[i]).short_code)
            && records[list[i].short_code] == list[i]
    &&& forall|i: int, j: int|
        0 <= i < j < list.len() ==> (#[trigger] list[i]).short_code != (
        #[trigger] list[j]).short_code
    &&& forall|code: Seq<char>| #[trigger]
        records.contains_key(code) ==> exists|i: int|
            0 <= i < list.len() && (#[trigger] list[i]).short_code == code
}

/// The sum of the access counts along a sequence of records.
pub open spec fn clicks_of(list: Seq<UrlView>) -> int
    decreases list.len(),
{
    if list.len() == 0 {
        0
    } else {
        clicks_of(list.drop_last()) + list.last().access_count
    }
}

/// With no records there are no clicks.
pub proof fn lemma_total_clicks_empty()
    ensures
        total_clicks(Map::empty()) == 0,
{
    assert(Map::<Seq<char>, UrlView>::empty().dom() =~= Set::empty());
}

/// The total is the access count of any one record plus the total of all
/// the others.
pub proof fn lemma_total_clicks_remove(records: Records, code: Seq<char>)
    requires
        records.dom().finite(),
        records.contains_key(code),
    ensures
        total_clicks(records) == records[code].access_count + total_clicks(records.remove(code)),
    decreases records.dom().len(),
{
    let chosen = records.dom().choose();
    assert(records.dom().contains(chosen));
    if chosen != code {
        let without_chosen = records.remove(chosen);
        let without_code = records.remove(code);
        lemma_total_clicks_remove(without_chosen, code);
        lemma_total_clicks_remove(without_code, chosen);
        assert(without_chosen.remove(code) =~= without_code.remove(chosen));
    }
}

/// Storing a record under a code replaces what that code contributed to the
/// total by the access count of the new record.
pub proof fn lemma_total_clicks_insert(records: Records, code: Seq<char>, record: UrlView)
    requires
        records.dom().finite(),
    ensures
        total_clicks(records.insert(code, record)) == total_clicks(records.remove(code))
            + record.access_count,
{
    let after = records.insert(code, record);
    lemma_total_clicks_remove(after, code);
    assert(after.remove(code) =~= records.remove(code));
}

/// The total is never negative, and no record has more clicks than the total.
pub proof fn lemma_total_clicks_bounds(records: Records)
    requires
        well_formed_records(records),
    ensures
        total_clicks(records) >= 0,
        forall|code: Seq<char>| #[trigger]
            records.contains_key(code) ==> records[code].access_count <= total_clicks(records),
    decreases records.dom().len(),
{
    if records.dom().len() != 0 {
        let chosen = records.dom().choose();
        assert(records.dom().contains(chosen));
        lemma_total_clicks_bounds(records.remove(chosen));
        assert forall|code: Seq<char>| #[trigger] records.contains_key(code) implies records[code].access_count
            <= total_clicks(records) by {
            if code != chosen {
                assert(records.remove(chosen).contains_key(code));
            }
        }
    }
}

/// A listing has as many entries as there are records, and its access counts
/// add up to the total.
pub proof fn lemma_listing_totals(list: Seq<UrlView>, records: Records)
    requires
        is_listing(list, records),
    ensures
        records.dom().finite(),
        list.len() == records.dom().len(),
        clicks_of(list) == total_clicks(records),
    decreases list.len(),
{
    if list.len() == 0 {
        assert(records.dom() =~= Set::empty());
    } else {
        let code = list.last().short_code;
        let others = records.remove(code);
        let front = list.drop_last();
        assert(is_listing(front, others)) by {
            assert forall|other: Seq<char>| #[trigger] others.contains_key(other) implies exists|
                i: int,
            |
                0 <= i < front.len() && (#[trigger] front[i]).short_code == other by {
                assert(records.contains_key(other));
                let i = choose|i: int| 0 <= i < list.len() && (#[trigger] list[i]).short_code == other;
                assert(front[i].short_code == other);
            }
        }
        lemma_listing_totals(front, others);
        assert(records.dom() =~= others.dom().insert(code));
        lemma_total_clicks_remove(records, code);
    }
}

} // verus!
