//! The normalized schedule returned for a query, and the ordering and
//! truncation of its events.
use vstd::prelude::*;
use crate::classify::VenueType;
use crate::clock::{instant_le, instant_le_exec, instant_lt, UtcInstant};

verus! {

/// Where a schedule came from.
#[derive(Debug)]
pub struct SourceMetadata {
    /// The source as given.
    pub requested: String,
    /// The path or URL that was read.
    pub resolved: String,
    /// "file" or "url".
    pub kind: String,
}

/// The filter a schedule was produced with.
#[derive(Debug)]
pub struct AppliedFilter {
    pub past_days: i64,
    pub lookahead_days: i64,
    pub limit: usize,
    pub mode: &'static str,
}

/// One event of a schedule.
#[derive(Debug)]
pub struct EventOutput {
    pub uid: String,
    /// The UID of the recurring event this is an occurrence of.
    pub recurrence_parent_uid: Option<String>,
    pub title: String,
    pub start_datetime: String,
    pub end_datetime: Option<String>,
    pub timezone: Option<String>,
    pub status: Option<String>,
    pub is_all_day: bool,
    pub location: Option<String>,
    pub description: Option<String>,
    pub event_type: String,
    pub venue_type: VenueType,
    pub opponent: Option<String>,
}

/// A normalized schedule.
#[derive(Debug)]
pub struct CalendarOutput {
    pub source: SourceMetadata,
    pub generated_at: String,
    pub applied_filter: AppliedFilter,
    pub display_timezone: Option<String>,
    pub calendar_name: Option<String>,
    pub calendar_timezone: Option<String>,
    pub events: Vec<EventOutput>,
}

/// An event together with the instants it starts and ends at; it is
/// ordered by its start.
#[derive(Debug)]
pub struct SortableEvent {
    pub sort_start: UtcInstant,
    pub sort_end: UtcInstant,
    pub output: EventOutput,
}

/// `x` inserted into `s` after every event that starts no later than it:
/// one step of a stable insertion sort.
pub open spec fn insert_by_start(s: Seq<SortableEvent>, x: SortableEvent) -> Seq<SortableEvent>
    decreases s.len(),
{
    if s.len() == 0 {
        seq![x]
    } else if instant_le(s.last().sort_start, x.sort_start) {
        s.push(x)
    } else {
        insert_by_start(s.drop_last(), x).push(s.last())
    }
}

/// The events ordered by start; events with equal starts keep their
/// relative order (what `sort_by_key` on the start gives).
pub open spec fn sort_by_start(s: Seq<SortableEvent>) -> Seq<SortableEvent>
    decreases s.len(),
{
    if s.len() == 0 {
        s
    } else {
        insert_by_start(sort_by_start(s.drop_last()), s.last())
    }
}

/// The events of a schedule: ordered by start, then cut to `limit`.
pub open spec fn select_events(s: Seq<SortableEvent>, limit: usize) -> Seq<SortableEvent> {
    let sorted = sort_by_start(s);
    if limit < sorted.len() {
        sorted.take(limit as int)
    } else {
        sorted
    }
}

pub open spec fn starts_sorted(s: Seq<SortableEvent>) -> bool {
    forall|i: int, j: int| 0 <= i <= j < s.len() ==> instant_le(s[i].sort_start, s[j].sort_start)
}

proof fn lemma_insert_at(s: Seq<SortableEvent>, x: SortableEvent, j: int)
    requires
        0 <= j <= s.len(),
        j == 0 || instant_le(s[j - 1].sort_start, x.sort_start),
        forall|k: int| j <= k < s.len() ==> instant_lt(x.sort_start, #[trigger] s[k].sort_start),
    ensures
        insert_by_start(s, x) == s.take(j).push(x) + s.skip(j),
    decreases s.len(),
{
    if s.len() == 0 {
        assert(s.take(j).push(x) + s.skip(j) =~= seq![x]);
    } else if j == s.len() {
        assert(s.take(j) =~= s);
        assert(s.take(j).push(x) + s.skip(j) =~= s.push(x));
    } else {
        let k = s.len() - 1;
        assert(instant_lt(x.sort_start, s[k].sort_start));
        lemma_insert_at(s.drop_last(), x, j);
        assert(s.drop_last().take(j) =~= s.take(j));
        assert((s.take(j).push(x) + s.drop_last().skip(j)).push(s.last()) =~= s.take(j).push(x)
            + s.skip(j));
    }
}

/// Orders events by start, keeping the order of events that start at the
/// same instant, and keeps the first `limit` of them.
pub fn sort_and_limit(events: Vec<SortableEvent>, limit: usize) -> (r: Vec<SortableEvent>)
    ensures
        r@ == select_events(events@, limit),
{
    let mut rest = events;
    let ghost all = rest@;
    let mut sorted: Vec<SortableEvent> = Vec::new();
    let n = rest.len();
    let mut i: usize = 0;
    while i < n
        invariant
            i <= n,
            n == all.len(),
            rest@ == all.skip(i as int),
            sorted@ == sort_by_start(all.take(i as int)),
        decreases n - i,
    {
        let x = rest.remove(0);
        proof {
            assert(all.take(i + 1).drop_last() =~= all.take(i as int));
            assert(all.take(i + 1).last() == x);
        }
        let mut j: usize = sorted.len();
        while j > 0 && !instant_le_exec(sorted[j - 1].sort_start, x.sort_start)
            invariant
                j <= sorted@.len(),
                forall|k: int| j <= k < sorted@.len() ==> instant_lt(x.sort_start, #[trigger] sorted@[k].sort_start),
            decreases j,
        {
            j = j - 1;
        }
        proof {
            lemma_insert_at(sorted@, x, j as int);
        }
        sorted.insert(j, x);
        proof {
            assert(sorted@ =~= insert_by_start(sort_by_start(all.take(i as int)), x));
            assert(all.skip(i as int).remove(0) =~= all.skip(i + 1));
        }
        i = i + 1;
    }
    assert(all.take(n as int) =~= all);
    if limit < sorted.len() {
        sorted.truncate(limit);
    }
    sorted
}

/// Where `insert_by_start` puts `x`: after the last event that starts no
/// later than `x` among the trailing events that start later.
pub open spec fn insert_pos(s: Seq<SortableEvent>, x: SortableEvent) -> int
    decreases s.len(),
{
    if s.len() == 0 {
        0
    } else if instant_le(s.last().sort_start, x.sort_start) {
        s.len() as int
    } else {
        insert_pos(s.drop_last(), x)
    }
}

proof fn lemma_insert_pos(s: Seq<SortableEvent>, x: SortableEvent)
    ensures
        0 <= insert_pos(s, x) <= s.len(),
        insert_pos(s, x) == 0 || instant_le(s[insert_pos(s, x) - 1].sort_start, x.sort_start),
        forall|k: int|
            insert_pos(s, x) <= k < s.len() ==> instant_lt(x.sort_start, #[trigger] s[k].sort_start),
        insert_by_start(s, x) == s.insert(insert_pos(s, x), x),
    decreases s.len(),
{
    if s.len() == 0 {
        assert(seq![x] =~= s.insert(0, x));
    } else if instant_le(s.last().sort_start, x.sort_start) {
        assert(s.push(x) =~= s.insert(s.len() as int, x));
    } else {
        lemma_insert_pos(s.drop_last(), x);
        let p = insert_pos(s.drop_last(), x);
        assert(s.drop_last().insert(p, x).push(s.last()) =~= s.insert(p, x));
        assert forall|k: int| p <= k < s.len() implies instant_lt(
            x.sort_start,
            #[trigger] s[k].sort_start,
        ) by {
            if k < s.len() - 1 {
                assert(s[k] == s.drop_last()[k]);
            }
        }
        if p > 0 {
            assert(s[p - 1] == s.drop_last()[p - 1]);
        }
    }
}

/// Sorting by start gives an ordered rearrangement of the events.
pub proof fn lemma_sort_by_start(s: Seq<SortableEvent>)
    ensures
        starts_sorted(sort_by_start(s)),
        sort_by_start(s).to_multiset() == s.to_multiset(),
        sort_by_start(s).len() == s.len(),
    decreases s.len(),
{
    broadcast use vstd::seq_lib::group_to_multiset_ensures;

    if s.len() > 0 {
        let r = sort_by_start(s.drop_last());
        let x = s.last();
        lemma_sort_by_start(s.drop_last());
        lemma_insert_pos(r, x);
        let p = insert_pos(r, x);
        let ins = r.insert(p, x);
        vstd::seq_lib::to_multiset_insert(r, p, x);
        assert(s =~= s.drop_last().push(x));
        assert forall|i: int, j: int| 0 <= i <= j < ins.len() implies instant_le(
            ins[i].sort_start,
            ins[j].sort_start,
        ) by {
            if i < p && j > p {
                assert(instant_le(r[i].sort_start, r[j - 1].sort_start));
            } else if i < p && j == p {
                assert(instant_le(r[i].sort_start, r[p - 1].sort_start));
            } else if i == p && j > p {
                assert(instant_lt(x.sort_start, r[j - 1].sort_start));
            } else if i > p {
                assert(instant_le(r[i - 1].sort_start, r[j - 1].sort_start));
            } else if j < p {
                assert(instant_le(r[i].sort_start, r[j].sort_start));
            }
        }
    }
}

/// The events of a schedule are ordered by start; there are as many as
/// the limit allows, at most all candidates; each is one of the
/// candidates; and none of the candidates left out starts before one that
/// was kept.
pub proof fn law_selected_events(events: Seq<SortableEvent>, limit: usize)
    ensures
        starts_sorted(select_events(events, limit)),
        select_events(events, limit).len() == if limit < events.len() {
            limit as int
        } else {
            events.len() as int
        },
        select_events(events, limit).to_multiset().subset_of(events.to_multiset()),
        forall|i: int, j: int|
            0 <= i < select_events(events, limit).len() <= j < events.len() ==> instant_le(
                #[trigger] select_events(events, limit)[i].sort_start,
                #[trigger] sort_by_start(events)[j].sort_start,
            ),
{
    let sorted = sort_by_start(events);
    lemma_sort_by_start(events);
    if limit < sorted.len() {
        let k = limit as int;
        vstd::seq_lib::lemma_multiset_commutative(sorted.take(k), sorted.skip(k));
        assert(sorted.take(k) + sorted.skip(k) =~= sorted);
        assert forall|i: int, j: int| 0 <= i <= j < sorted.take(k).len() implies instant_le(
            sorted.take(k)[i].sort_start,
            sorted.take(k)[j].sort_start,
        ) by {
            assert(sorted.take(k)[i] == sorted[i]);
            assert(sorted.take(k)[j] == sorted[j]);
        }
    }
}

/// Every event of a schedule was a candidate: whatever holds of all
/// candidates holds of the selected events; they are ordered by start and
/// there are at most `limit` of them.
pub proof fn law_selection_keeps_candidate_property(
    events: Seq<SortableEvent>,
    limit: usize,
    prop: spec_fn(SortableEvent) -> bool,
)
    requires
        forall|k: int| 0 <= k < events.len() ==> prop(#[trigger] events[k]),
    ensures
        forall|k: int|
            0 <= k < select_events(events, limit).len() ==> prop(#[trigger] select_events(events, limit)[k]),
        starts_sorted(select_events(events, limit)),
        select_events(events, limit).len() <= limit,
        select_events(events, limit).len() <= events.len(),
{
    broadcast use vstd::seq_lib::group_to_multiset_ensures;

    law_selected_events(events, limit);
    let sel = select_events(events, limit);
    assert forall|k: int| 0 <= k < sel.len() implies prop(#[trigger] sel[k]) by {
        let x = sel[k];
        assert(sel.contains(x));
        vstd::seq_lib::to_multiset_contains(sel, x);
        vstd::seq_lib::to_multiset_contains(events, x);
        assert(events.contains(x));
        let j = choose|j: int| 0 <= j < events.len() && events[j] == x;
        assert(prop(events[j]));
    }
}

/// Sorting keeps what holds of every event.
pub proof fn lemma_sort_keeps_property(s: Seq<SortableEvent>, prop: spec_fn(SortableEvent) -> bool)
    requires
        forall|k: int| 0 <= k < s.len() ==> prop(#[trigger] s[k]),
    ensures
        forall|k: int| 0 <= k < sort_by_start(s).len() ==> prop(#[trigger] sort_by_start(s)[k]),
{
    broadcast use vstd::seq_lib::group_to_multiset_ensures;

    lemma_sort_by_start(s);
    let r = sort_by_start(s);
    assert forall|k: int| 0 <= k < r.len() implies prop(#[trigger] r[k]) by {
        let x = r[k];
        assert(r.contains(x));
        vstd::seq_lib::to_multiset_contains(r, x);
        vstd::seq_lib::to_multiset_contains(s, x);
        let j = choose|j: int| 0 <= j < s.len() && s[j] == x;
        assert(prop(s[j]));
    }
}

/// Inserting an event in front of events that all start later leaves them
/// behind it.
pub proof fn lemma_insert_before_later(a: Seq<SortableEvent>, b: Seq<SortableEvent>, x: SortableEvent)
    requires
        forall|k: int| 0 <= k < b.len() ==> instant_lt(x.sort_start, #[trigger] b[k].sort_start),
    ensures
        insert_by_start(a + b, x) == insert_by_start(a, x) + b,
    decreases b.len(),
{
    if b.len() == 0 {
        assert(a + b =~= a);
        assert(insert_by_start(a, x) + b =~= insert_by_start(a, x));
    } else {
        let b2 = b.drop_last();
        assert((a + b).drop_last() =~= a + b2);
        assert((a + b).last() == b.last());
        assert forall|k: int| 0 <= k < b2.len() implies instant_lt(x.sort_start, #[trigger] b2[k].sort_start) by {
            assert(b2[k] == b[k]);
        }
        lemma_insert_before_later(a, b2, x);
        assert(instant_lt(x.sort_start, b[b.len() - 1].sort_start));
        assert((insert_by_start(a, x) + b2).push(b.last()) =~= insert_by_start(a, x) + b);
    }
}

/// Inserting an event behind events that all start no later than it
/// leaves them in front of it.
pub proof fn lemma_insert_after_earlier(a: Seq<SortableEvent>, b: Seq<SortableEvent>, x: SortableEvent)
    requires
        forall|k: int| 0 <= k < a.len() ==> instant_le(#[trigger] a[k].sort_start, x.sort_start),
    ensures
        insert_by_start(a + b, x) == a + insert_by_start(b, x),
    decreases b.len(),
{
    if b.len() == 0 {
        assert(a + b =~= a);
        if a.len() == 0 {
            assert(a + seq![x] =~= seq![x]);
        } else {
            assert(a.last() == a[a.len() - 1]);
            assert(a.push(x) =~= a + seq![x]);
        }
    } else {
        let b2 = b.drop_last();
        assert((a + b).drop_last() =~= a + b2);
        assert((a + b).last() == b.last());
        if instant_le(b.last().sort_start, x.sort_start) {
            assert((a + b).push(x) =~= a + b.push(x));
        } else {
            lemma_insert_after_earlier(a, b2, x);
            assert((a + insert_by_start(b2, x)).push(b.last()) =~= a + insert_by_start(b2, x).push(b.last()));
        }
    }
}

} // verus!
