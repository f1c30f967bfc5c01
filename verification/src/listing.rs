use vstd::prelude::*;

use crate::record::{Url, UrlView};
use crate::response::{response_of, UrlResponse};
use crate::tally::{clicks_of, is_listing, lemma_listing_totals, record_views, total_clicks, Records};

verus! {

/// Whether `list` shows every record of `records` exactly once, each as a
/// client of the service at `base_url` sees it.
pub open spec fn is_response_listing(
    list: Seq<UrlResponse>,
    records: Records,
    base_url: Seq<char>,
) -> bool {
    &&& forall|i: int|
        0 <= i < list.len() ==> records.contains_key((#[trigger] list[i])@.short_code) && list[i]@
            == response_of(records[list[i]@.short_code], base_url)
    &&& forall|i: int, j: int|
        0 <= i < j < list.len() ==> (#[trigger] list[i])@.short_code != (
        #[trigger] list[j])@.short_code
    &&& forall|code: Seq<char>| #[trigger]
        records.contains_key(code) ==> exists|i: int|
            0 <= i < list.len() && (#[trigger] list[i])@.short_code == code
}

/// The sum of the access counts that a sequence of responses shows.
pub open spec fn shown_clicks(list: Seq<UrlResponse>) -> int
    decreases list.len(),
{
    if list.len() == 0 {
        0
    } else {
        shown_clicks(list.drop_last()) + list.last().access_count
    }
}

/// Responses made one by one from a listing of the records are a listing of
/// the responses.
pub proof fn lemma_responses_of_listing(
    listed: Seq<Url>,
    responses: Seq<UrlResponse>,
    records: Records,
    base_url: Seq<char>,
)
    requires
        is_listing(record_views(listed), records),
        responses.len() == listed.len(),
        forall|i: int|
            0 <= i < listed.len() ==> (#[trigger] responses[i])@ == response_of(
                listed[i]@,
                base_url,
            ),
    ensures
        is_response_listing(responses, records, base_url),
{
    let views = record_views(listed);
    assert forall|i: int| 0 <= i < responses.len() implies records.contains_key(
        (#[trigger] responses[i])@.short_code,
    ) && responses[i]@ == response_of(records[responses[i]@.short_code], base_url) by {
        assert(views[i].short_code == responses[i]@.short_code);
    }
    assert forall|i: int, j: int| 0 <= i < j < responses.len() implies (
    #[trigger] responses[i])@.short_code != (#[trigger] responses[j])@.short_code by {
        assert(views[i].short_code != views[j].short_code);
    }
    assert forall|code: Seq<char>| #[trigger] records.contains_key(code) implies exists|i: int|
        0 <= i < responses.len() && (#[trigger] responses[i])@.short_code == code by {
        let i = choose|i: int| 0 <= i < views.len() && (#[trigger] views[i]).short_code == code;
        assert(responses[i]@.short_code == code);
    }
}

/// A listing stays a listing when its responses are put in another order.
pub proof fn lemma_listing_permuted(
    list: Seq<UrlResponse>,
    other: Seq<UrlResponse>,
    records: Records,
    base_url: Seq<char>,
)
    requires
        is_response_listing(list, records, base_url),
        other.to_multiset() == list.to_multiset(),
    ensures
        is_response_listing(other, records, base_url),
{
    broadcast use vstd::seq_lib::to_multiset_contains;

    assert forall|i: int| 0 <= i < other.len() implies list.contains(#[trigger] other[i]) by {
        assert(other.contains(other[i]));
        assert(other.to_multiset().count(other[i]) > 0);
    }
    assert forall|i: int| 0 <= i < list.len() implies other.contains(#[trigger] list[i]) by {
        assert(list.contains(list[i]));
        assert(list.to_multiset().count(list[i]) > 0);
    }
    assert forall|i: int| 0 <= i < other.len() implies records.contains_key(
        (#[trigger] other[i])@.short_code,
    ) && other[i]@ == response_of(records[other[i]@.short_code], base_url) by {
        let j = choose|j: int| 0 <= j < list.len() && list[j] == other[i];
        assert(list[j]@.short_code == other[i]@.short_code);
    }
    assert(list.no_duplicates()) by {
        assert forall|i: int, j: int| 0 <= i < list.len() && 0 <= j < list.len() && i != j implies list[i]
            != list[j] by {
            if i < j {
                assert(list[i]@.short_code != list[j]@.short_code);
            } else {
                assert(list[j]@.short_code != list[i]@.short_code);
            }
        }
    }
    list.lemma_multiset_has_no_duplicates();
    other.lemma_multiset_has_no_duplicates_conv();
    assert forall|i: int, j: int| 0 <= i < j < other.len() implies (#[trigger] other[i])@.short_code
        != (#[trigger] other[j])@.short_code by {
        let a = choose|a: int| 0 <= a < list.len() && list[a] == other[i];
        let b = choose|b: int| 0 <= b < list.len() && list[b] == other[j];
        assert(other[i] != other[j]);
        if a < b {
            assert(list[a]@.short_code != list[b]@.short_code);
        } else if b < a {
            assert(list[b]@.short_code != list[a]@.short_code);
        }
    }
    assert forall|code: Seq<char>| #[trigger] records.contains_key(code) implies exists|i: int|
        0 <= i < other.len() && (#[trigger] other[i])@.short_code == code by {
        let j = choose|j: int| 0 <= j < list.len() && (#[trigger] list[j])@.short_code == code;
        assert(other.contains(list[j]));
        let i = choose|i: int| 0 <= i < other.len() && other[i] == list[j];
        assert(other[i]@.short_code == code);
    }
}

/// The records that the responses of a listing show, in the same order.
pub open spec fn shown_records(list: Seq<UrlResponse>, records: Records) -> Seq<UrlView> {
    Seq::new(list.len(), |i: int| records[list[i]@.short_code])
}

proof fn lemma_shown_clicks(list: Seq<UrlResponse>, records: Records, base_url: Seq<char>)
    requires
        forall|i: int|
            0 <= i < list.len() ==> (#[trigger] list[i])@ == response_of(
                records[list[i]@.short_code],
                base_url,
            ),
    ensures
        shown_clicks(list) == clicks_of(shown_records(list, records)),
    decreases list.len(),
{
    if list.len() != 0 {
        let front = list.drop_last();
        assert forall|i: int| 0 <= i < front.len() implies (#[trigger] front[i])@ == response_of(
            records[front[i]@.short_code],
            base_url,
        ) by {
            assert(front[i] == list[i]);
        }
        lemma_shown_clicks(front, records, base_url);
        assert(shown_records(list, records).drop_last() =~= shown_records(front, records));
        assert(list.last() == list[list.len() - 1]);
    }
}

/// A listing has as many responses as there are records, and the access
/// counts that it shows add up to the total of the registry.
pub proof fn lemma_response_listing_totals(
    list: Seq<UrlResponse>,
    records: Records,
    base_url: Seq<char>,
)
    requires
        is_response_listing(list, records, base_url),
    ensures
        records.dom().finite(),
        list.len() == records.dom().len(),
        shown_clicks(list) == total_clicks(records),
{
    let shown = shown_records(list, records);
    assert(is_listing(shown, records)) by {
        assert forall|i: int| 0 <= i < shown.len() implies records.contains_key(
            (#[trigger] shown[i]).short_code,
        ) && records[shown[i].short_code] == shown[i] by {
            assert(list[i]@.short_code == shown[i].short_code);
        }
        assert forall|i: int, j: int| 0 <= i < j < shown.len() implies (
        #[trigger] shown[i]).short_code != (#[trigger] shown[j]).short_code by {
            assert(list[i]@.short_code == shown[i].short_code);
            assert(list[j]@.short_code == shown[j].short_code);
        }
        assert forall|code: Seq<char>| #[trigger] records.contains_key(code) implies exists|i: int|
            0 <= i < shown.len() && (#[trigger] shown[i]).short_code == code by {
            let i = choose|i: int| 0 <= i < list.len() && (#[trigger] list[i])@.short_code == code;
            assert(shown[i].short_code == code);
        }
    }
    lemma_listing_totals(shown, records);
    lemma_shown_clicks(list, records, base_url);
}

} // verus!
