use vstd::prelude::*;

use crate::listing::is_response_listing;
use crate::model::{
    after_create, after_event, after_events, after_resolve, after_resolves, resolve_target, Event,
};
use crate::record::UrlView;
use crate::response::{response_of, UrlResponse};
use crate::sort::{is_sorted_descending, rank, SortKey};
use crate::tally::{
    lemma_total_clicks_insert, lemma_total_clicks_remove, total_clicks, well_formed_records,
    Records,
};

verus! {

/// Whether `event` is the creation of a record under `short_code`.
pub open spec fn creates(event: Event, short_code: Seq<char>) -> bool {
    event matches Event::Created { record } && record.short_code == short_code
}

/// Whatever was stored before: once a record was created for `url`, the
/// short code that the response to the creation shows resolves to exactly
/// `url`.
pub proof fn law_created_code_resolves(
    records: Records,
    record: UrlView,
    url: Seq<char>,
    base_url: Seq<char>,
)
    requires
        record.original_url == url,
    ensures
        resolve_target(after_create(records, record), response_of(record, base_url).short_code)
            == Some(url),
{
}

/// In a registry that started empty, a short code under which no record was
/// ever created is not known: resolving it finds nothing.
pub proof fn law_uncreated_code_not_found(events: Seq<Event>, short_code: Seq<char>)
    requires
        forall|i: int| 0 <= i < events.len() ==> !creates(#[trigger] events[i], short_code),
    ensures
        !after_events(events).contains_key(short_code),
        resolve_target(after_events(events), short_code) is None,
    decreases events.len(),
{
    if events.len() != 0 {
        let earlier = events.drop_last();
        assert forall|i: int| 0 <= i < earlier.len() implies !creates(
            #[trigger] earlier[i],
            short_code,
        ) by {
            assert(earlier[i] == events[i]);
        }
        law_uncreated_code_not_found(earlier, short_code);
        assert(!creates(events[events.len() - 1], short_code));
    }
}

/// Resolving a known short code `times` times raises the access count of
/// its record by exactly `times` and changes nothing else. Resolving an
/// unknown short code changes nothing at all.
pub proof fn law_resolves_add_up(records: Records, short_code: Seq<char>, times: nat)
    ensures
        after_resolves(records, short_code, times) == (if records.contains_key(short_code) {
            records.insert(
                short_code,
                UrlView {
                    access_count: records[short_code].access_count + times,
                    ..records[short_code]
                },
            )
        } else {
            records
        }),
    decreases times,
{
    if times == 0 {
        if records.contains_key(short_code) {
            assert(records.insert(
                short_code,
                UrlView {
                    access_count: records[short_code].access_count + 0,
                    ..records[short_code]
                },
            ) =~= records);
        }
    } else {
        law_resolves_add_up(records, short_code, (times - 1) as nat);
        if records.contains_key(short_code) {
            let earlier = after_resolves(records, short_code, (times - 1) as nat);
            assert(after_resolve(earlier, short_code) =~= records.insert(
                short_code,
                UrlView {
                    access_count: records[short_code].access_count + times,
                    ..records[short_code]
                },
            ));
        }
    }
}

/// Each successful resolve adds exactly one to the total of all clicks, and
/// a failed one adds nothing.
pub proof fn law_resolve_counts_one_click(records: Records, short_code: Seq<char>)
    requires
        records.dom().finite(),
    ensures
        total_clicks(after_resolve(records, short_code)) == total_clicks(records) + (
        if records.contains_key(short_code) {
            1int
        } else {
            0int
        }),
{
    if records.contains_key(short_code) {
        lemma_total_clicks_remove(records, short_code);
        lemma_total_clicks_insert(records, short_code, records[short_code].visited());
    }
}

/// No event removes a record, and no resolve lowers an access count.
pub proof fn law_records_are_kept(records: Records, event: Event, short_code: Seq<char>)
    requires
        records.contains_key(short_code),
    ensures
        after_event(records, event).contains_key(short_code),
        event is Resolved ==> after_event(records, event)[short_code].access_count
            >= records[short_code].access_count,
        !creates(event, short_code) ==> after_event(records, event)[short_code].original_url
            == records[short_code].original_url,
{
}

/// Every event leaves the records well formed, as long as no record is
/// created with a negative access count.
pub proof fn law_records_stay_well_formed(records: Records, event: Event)
    requires
        well_formed_records(records),
        event matches Event::Created { record } ==> record.access_count >= 0,
    ensures
        well_formed_records(after_event(records, event)),
{
}

/// In a sorted listing, a record of higher rank stands before every record
/// of lower rank. The positions of the two are returned.
pub proof fn law_higher_rank_listed_first(
    list: Seq<UrlResponse>,
    records: Records,
    base_url: Seq<char>,
    key: SortKey,
    higher: Seq<char>,
    lower: Seq<char>,
) -> (positions: (int, int))
    requires
        is_response_listing(list, records, base_url),
        is_sorted_descending(list, key),
        records.contains_key(higher),
        records.contains_key(lower),
        rank(response_of(records[higher], base_url), key) > rank(
            response_of(records[lower], base_url),
            key,
        ),
    ensures
        0 <= positions.0 < positions.1 < list.len(),
        list[positions.0]@.short_code == higher,
        list[positions.1]@.short_code == lower,
{
    let i = choose|i: int| 0 <= i < list.len() && (#[trigger] list[i])@.short_code == higher;
    let j = choose|j: int| 0 <= j < list.len() && (#[trigger] list[j])@.short_code == lower;
    if j < i {
        assert(rank(list[j]@, key) >= rank(list[i]@, key));
    }
    (i, j)
}

/// In a listing that is sorted by creation time, a record that was created
/// later stands before every record that was created earlier.
pub proof fn law_newer_listed_first(
    list: Seq<UrlResponse>,
    records: Records,
    base_url: Seq<char>,
    newer: Seq<char>,
    older: Seq<char>,
) -> (positions: (int, int))
    requires
        is_response_listing(list, records, base_url),
        is_sorted_descending(list, SortKey::CreatedAt),
        records.contains_key(newer),
        records.contains_key(older),
        records[older].created_at.is_before(records[newer].created_at),
    ensures
        0 <= positions.0 < positions.1 < list.len(),
        list[positions.0]@.short_code == newer,
        list[positions.1]@.short_code == older,
{
    records[older].created_at.lemma_ordinal_order(records[newer].created_at);
    law_higher_rank_listed_first(list, records, base_url, SortKey::CreatedAt, newer, older)
}

/// In a listing that is sorted by access count, a record with more clicks
/// stands before every record with fewer.
pub proof fn law_most_clicked_listed_first(
    list: Seq<UrlResponse>,
    records: Records,
    base_url: Seq<char>,
    busier: Seq<char>,
    quieter: Seq<char>,
) -> (positions: (int, int))
    requires
        is_response_listing(list, records, base_url),
        is_sorted_descending(list, SortKey::AccessCount),
        records.contains_key(busier),
        records.contains_key(quieter),
        records[quieter].access_count < records[busier].access_count,
    ensures
        0 <= positions.0 < positions.1 < list.len(),
        list[positions.0]@.short_code == busier,
        list[positions.1]@.short_code == quieter,
{
    law_higher_rank_listed_first(list, records, base_url, SortKey::AccessCount, busier, quieter)
}

} // verus!
