//! Totals and history, read off the ledger.

use crate::ledger::views_of;
use crate::session::{RecordView, SessionRecord};
use vstd::prelude::*;

verus! {

/// The seconds that the sessions of `area` among `records` add up to.
pub open spec fn total_for(records: Seq<RecordView>, area: Seq<char>) -> int
    decreases records.len(),
{
    if records.len() == 0 {
        0
    } else {
        total_for(records.drop_last(), area) + if records.last().area == area {
            records.last().seconds()
        } else {
            0
        }
    }
}

/// The seconds that all of `records` add up to.
pub open spec fn total_of_all(records: Seq<RecordView>) -> int
    decreases records.len(),
{
    if records.len() == 0 {
        0
    } else {
        total_of_all(records.drop_last()) + records.last().seconds()
    }
}

/// The areas of `records`, each once, in the order in which they first occur.
pub open spec fn areas_seen(records: Seq<RecordView>) -> Seq<Seq<char>>
    decreases records.len(),
{
    if records.len() == 0 {
        Seq::empty()
    } else {
        let before = areas_seen(records.drop_last());
        if before.contains(records.last().area) {
            before
        } else {
            before.push(records.last().area)
        }
    }
}

/// The totals of `areas` over `records`, added up.
pub open spec fn sum_over(records: Seq<RecordView>, areas: Seq<Seq<char>>) -> int
    decreases areas.len(),
{
    if areas.len() == 0 {
        0
    } else {
        sum_over(records, areas.drop_last()) + total_for(records, areas.last())
    }
}

/// The test that the sessions of `area` pass.
pub open spec fn spent_in(area: Seq<char>) -> spec_fn(RecordView) -> bool {
    |record: RecordView| record.area == area
}

/// The sessions among `records` that `filter` lets through, in their order:
/// those of the area it names, or all where it names none.
pub open spec fn history_of(records: Seq<RecordView>, filter: Option<Seq<char>>) -> Seq<RecordView> {
    match filter {
        Some(area) => records.filter(spent_in(area)),
        None => records,
    }
}

/// The time spent in one area.
#[derive(Debug, PartialEq, Eq)]
pub struct AreaTotal {
    pub area: String,
    pub seconds: u128,
}

/// The areas of a list of totals.
pub open spec fn areas_of(totals: Seq<AreaTotal>) -> Seq<Seq<char>> {
    totals.map_values(|total: AreaTotal| total.area@)
}

/// `areas_seen` lists no area twice, and lists exactly the areas that occur.
pub proof fn lemma_areas_seen(records: Seq<RecordView>)
    ensures
        areas_seen(records).no_duplicates(),
        forall|area: Seq<char>| #[trigger]
            areas_seen(records).contains(area) <==> exists|i: int|
                0 <= i < records.len() && (#[trigger] records[i]).area == area,
    decreases records.len(),
{
    if records.len() > 0 {
        let front = records.drop_last();
        let last = records.last();
        lemma_areas_seen(front);
        let before = areas_seen(front);
        let seen = areas_seen(records);
        assert forall|area: Seq<char>| #[trigger]
            seen.contains(area) <==> exists|i: int|
                0 <= i < records.len() && (#[trigger] records[i]).area == area by {
            if seen.contains(area) {
                if before.contains(area) {
                    let i = choose|i: int| 0 <= i < front.len() && (#[trigger] front[i]).area == area;
                    assert(records[i].area == area);
                } else {
                    let k = choose|k: int| 0 <= k < seen.len() && seen[k] == area;
                    assert(k == before.len());
                    assert(records[records.len() - 1].area == area);
                }
            }
            if exists|i: int| 0 <= i < records.len() && (#[trigger] records[i]).area == area {
                let i = choose|i: int| 0 <= i < records.len() && (#[trigger] records[i]).area == area;
                if i < front.len() {
                    assert(front[i].area == area);
                    assert(before.contains(area));
                    let k = choose|k: int| 0 <= k < before.len() && before[k] == area;
                    assert(seen[k] == area);
                } else {
                    if before.contains(area) {
                    } else {
                        assert(seen[before.len() as int] == area);
                    }
                }
            }
        }
    }
}

/// A total never falls below zero where no session ends before it starts,
/// and never exceeds what all sessions add up to.
pub proof fn lemma_total_bounds(records: Seq<RecordView>, area: Seq<char>)
    requires
        forall|i: int| 0 <= i < records.len() ==> (#[trigger] records[i]).wf(),
    ensures
        0 <= total_for(records, area) <= total_of_all(records),
    decreases records.len(),
{
    if records.len() > 0 {
        let front = records.drop_last();
        assert forall|i: int| 0 <= i < front.len() implies (#[trigger] front[i]).wf() by {
            assert(records[i].wf());
        }
        lemma_total_bounds(front, area);
        assert(records[records.len() - 1].wf());
    }
}

/// The total of an area that `areas` does not list plays no part in their
/// sum when a session of that area is added.
proof fn lemma_sum_over_push(records: Seq<RecordView>, record: RecordView, areas: Seq<Seq<char>>)
    requires
        areas.no_duplicates(),
    ensures
        sum_over(records.push(record), areas) == sum_over(records, areas) + if areas.contains(
            record.area,
        ) {
            record.seconds()
        } else {
            0
        },
    decreases areas.len(),
{
    let more = records.push(record);
    assert(more.drop_last() =~= records);
    assert(more.last() == record);
    if areas.len() > 0 {
        let front = areas.drop_last();
        let last = areas.last();
        assert forall|a: int, b: int|
            0 <= a < front.len() && 0 <= b < front.len() && a != b implies front[a] != front[b] by {
            assert(areas[a] != areas[b]);
        }
        lemma_sum_over_push(records, record, front);
        if last == record.area {
            if front.contains(record.area) {
                let k = choose|k: int| 0 <= k < front.len() && front[k] == record.area;
                assert(areas[k] == areas[areas.len() - 1]);
            }
            assert(areas.contains(record.area)) by {
                assert(areas[areas.len() - 1] == record.area);
            }
        } else {
            if areas.contains(record.area) {
                let k = choose|k: int| 0 <= k < areas.len() && areas[k] == record.area;
                assert(front[k] == record.area);
            }
            if front.contains(record.area) {
                let k = choose|k: int| 0 <= k < front.len() && front[k] == record.area;
                assert(areas[k] == record.area);
            }
        }
    }
}

/// No session of an area that does not occur adds to a total.
proof fn lemma_total_of_absent(records: Seq<RecordView>, area: Seq<char>)
    requires
        !areas_seen(records).contains(area),
    ensures
        total_for(records, area) == 0,
    decreases records.len(),
{
    if records.len() > 0 {
        let front = records.drop_last();
        let before = areas_seen(front);
        if before.contains(records.last().area) {
        } else {
            assert(before.push(records.last().area)[before.len() as int] == records.last().area);
            if before.contains(area) {
                let k = choose|k: int| 0 <= k < before.len() && before[k] == area;
                assert(before.push(records.last().area)[k] == area);
            }
        }
        if before.contains(area) {
            let k = choose|k: int| 0 <= k < before.len() && before[k] == area;
            assert(areas_seen(records)[k] == area);
        }
        lemma_total_of_absent(front, area);
    }
}

/// The totals of all areas add up to what all sessions add up to.
pub proof fn lemma_totals_add_up(records: Seq<RecordView>)
    ensures
        sum_over(records, areas_seen(records)) == total_of_all(records),
    decreases records.len(),
{
    if records.len() > 0 {
        let front = records.drop_last();
        let last = records.last();
        let before = areas_seen(front);
        lemma_totals_add_up(front);
        lemma_areas_seen(front);
        assert(records =~= front.push(last));
        lemma_sum_over_push(front, last, before);
        if before.contains(last.area) {
        } else {
            let seen = before.push(last.area);
            assert(seen.drop_last() =~= before);
            assert(seen.last() == last.area);
            lemma_total_of_absent(front, last.area);
        }
    }
}

/// Where `area` stands in `totals`.
fn position(totals: &Vec<AreaTotal>, area: &str) -> (place: Option<usize>)
    ensures
        match place {
            Some(k) => k < totals.len() && areas_of(totals@)[k as int] == area@,
            None => !areas_of(totals@).contains(area@),
        },
{
    let wanted = area.to_owned();
    let mut k: usize = 0;
    while k < totals.len()
        invariant
            k <= totals.len(),
            wanted@ == area@,
            forall|j: int| 0 <= j < k ==> areas_of(totals@)[j] != area@,
        decreases totals.len() - k,
    {
        if totals[k].area == wanted {
            return Some(k);
        }
        k += 1;
    }
    None
}

/// The time spent in each area: one total for each area that occurs in
/// `records`, in the order in which the areas first occur, each the sum of
/// the seconds of that area's sessions.
pub fn totals_by_area(records: &Vec<SessionRecord>) -> (totals: Vec<AreaTotal>)
    ensures
        areas_of(totals@) == areas_seen(views_of(records@)),
        forall|k: int|
            0 <= k < totals.len() ==> (#[trigger] totals[k]).seconds == total_for(
                views_of(records@),
                totals[k].area@,
            ),
{
    let ghost all = views_of(records@);
    let mut totals: Vec<AreaTotal> = Vec::new();
    let mut i: usize = 0;
    assert(areas_of(totals@) =~= areas_seen(all.take(0)));
    while i < records.len()
        invariant
            i <= records.len(),
            all == views_of(records@),
            areas_of(totals@) == areas_seen(all.take(i as int)),
            forall|k: int|
                0 <= k < totals.len() ==> (#[trigger] totals[k]).seconds == total_for(
                    all.take(i as int),
                    totals[k].area@,
                ),
            forall|k: int|
                0 <= k < totals.len() ==> (#[trigger] totals[k]).seconds <= i * u64::MAX,
        decreases records.len() - i,
    {
        let record = &records[i];
        let seconds = record.duration_seconds();
        let ghost done = all.take(i as int);
        let ghost next = all.take(i + 1);
        let ghost names = areas_of(totals@);
        proof {
            assert(next.drop_last() =~= done);
            assert(next.last() == record@);
            lemma_areas_seen(done);
        }
        match position(&totals, record.area()) {
            Some(place) => {
                let grown = AreaTotal {
                    area: totals[place].area.clone(),
                    seconds: totals[place].seconds + (seconds as u128),
                };
                let ghost earlier = totals@;
                totals.set(place, grown);
                proof {
                    assert(names.contains(record@.area)) by {
                        assert(names[place as int] == record@.area);
                    }
                    assert(areas_of(totals@) =~= names);
                    assert forall|k: int| 0 <= k < totals.len() implies (#[trigger] totals[k]).seconds
                        == total_for(next, totals[k].area@) by {
                        if k != place {
                            assert(totals[k] == earlier[k]);
                            assert(names[k] != names[place as int]);
                        }
                    }
                }
            },
            None => {
                let ghost earlier = totals@;
                totals.push(AreaTotal { area: record.area().to_owned(), seconds: seconds as u128 });
                proof {
                    assert(areas_of(totals@) =~= names.push(record@.area));
                    lemma_total_of_absent(done, record@.area);
                    assert forall|k: int| 0 <= k < totals.len() implies (#[trigger] totals[k]).seconds
                        == total_for(next, totals[k].area@) by {
                        if k < earlier.len() {
                            assert(totals[k] == earlier[k]);
                            assert(names[k] == earlier[k].area@);
                            assert(names.contains(names[k]));
                        }
                    }
                }
            },
        }
        i += 1;
    }
    assert(all.take(i as int) =~= all);
    totals
}

/// The sessions to show: those of `records` that were spent in the area that
/// `filter` names, or all of them where it names none, in ledger order.
pub fn history(records: &Vec<SessionRecord>, filter: Option<&str>) -> (shown: Vec<SessionRecord>)
    ensures
        views_of(shown@) == history_of(
            views_of(records@),
            match filter {
                Some(area) => Some(area@),
                None => None,
            },
        ),
{
    let ghost all = views_of(records@);
    let mut shown: Vec<SessionRecord> = Vec::new();
    let mut i: usize = 0;
    match filter {
        None => {
            while i < records.len()
                invariant
                    i <= records.len(),
                    all == views_of(records@),
                    views_of(shown@) == all.take(i as int),
                decreases records.len() - i,
            {
                let ghost shorter = views_of(shown@);
                shown.push(records[i].clone());
                assert(views_of(shown@) =~= shorter.push(all[i as int]));
                assert(all.take(i + 1) =~= shorter.push(all[i as int]));
                i += 1;
            }
            assert(all.take(i as int) =~= all);
        },
        Some(area) => {
            let wanted = area.to_owned();
            let ghost keep = spent_in(area@);
            proof {
                reveal(Seq::filter);
                assert(all.take(0).filter(keep) =~= Seq::<RecordView>::empty());
            }
            while i < records.len()
                invariant
                    i <= records.len(),
                    all == views_of(records@),
                    wanted@ == area@,
                    keep == spent_in(area@),
                    views_of(shown@) == all.take(i as int).filter(keep),
                decreases records.len() - i,
            {
                proof {
                    Seq::lemma_filter_push(all.take(i as int), all[i as int], keep);
                    assert(all.take(i + 1) =~= all.take(i as int).push(all[i as int]));
                }
                if records[i].area().to_owned() == wanted {
                    let ghost shorter = views_of(shown@);
                    shown.push(records[i].clone());
                    assert(views_of(shown@) =~= shorter.push(all[i as int]));
                }
                i += 1;
            }
            assert(all.take(i as int) =~= all);
        },
    }
    shown
}

/// Splits a duration into whole hours and the whole minutes past them.
/// Nothing is rounded up: 59 seconds are no minute yet.
pub fn hours_minutes(seconds: u128) -> (split: (u128, u8))
    ensures
        split.0 == seconds / 3600,
        split.1 == (seconds % 3600) / 60,
{
    (seconds / 3600, ((seconds % 3600) / 60) as u8)
}

} // verus!
