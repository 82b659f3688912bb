//! What holds of every run of the synchroniser.

use vstd::prelude::*;
use crate::greader::{GreaderView, ReadingListView, SubscriptionView};
use crate::merge::{store_items, store_items_result, subscribe_all, subscribe_all_result};
use crate::model::DbState;
use crate::request;
use crate::sync::{sync_step, Step, SyncActionView, SyncEventView, SyncPhase, SyncStateView};

verus! {

/// An event, and the time at which it is reported.
pub struct Report {
    pub event: SyncEventView,
    pub now: i64,
}

/// What the reports, one after the other, make of the state `st` and the
/// store `db`, and what the last of them asks for.
pub open spec fn run(g: GreaderView, st: SyncStateView, db: DbState, reports: Seq<Report>) -> Step
    decreases reports.len(),
{
    if reports.len() == 0 {
        Step { state: st, db, action: SyncActionView::Rejected }
    } else {
        let before = run(g, st, db, reports.drop_last());
        sync_step(g, before.state, before.db, reports.last().event, reports.last().now)
    }
}

/// The store after whole pages were written through to it, one after the
/// other.
pub open spec fn store_pages(db: DbState, pages: Seq<ReadingListView>) -> DbState
    decreases pages.len(),
{
    if pages.len() == 0 {
        db
    } else {
        store_items(store_pages(db, pages.drop_last()), pages.last().items)
    }
}

/// The store takes every item of every page.
pub open spec fn pages_taken(db: DbState, pages: Seq<ReadingListView>) -> bool
    decreases pages.len(),
{
    pages.len() == 0 || (pages_taken(db, pages.drop_last()) && store_items_result(
        store_pages(db, pages.drop_last()),
        pages.last().items,
    ) is Ok)
}

/// The cycle is fetching or reconciling: it has asked the remote service
/// for something and has not handed out a watermark.
pub open spec fn in_flight(phase: SyncPhase) -> bool {
    phase == SyncPhase::FetchSubscriptions || phase == SyncPhase::FetchContentPage || phase
        == SyncPhase::ReconcileReadState
}

/// A run is the run of its reports but the last, and one step more.
pub proof fn lemma_run_take(
    g: GreaderView,
    st: SyncStateView,
    db: DbState,
    reports: Seq<Report>,
    k: int,
)
    requires
        0 <= k < reports.len(),
    ensures
        run(g, st, db, reports.take(k + 1)) == sync_step(
            g,
            run(g, st, db, reports.take(k)).state,
            run(g, st, db, reports.take(k)).db,
            reports[k].event,
            reports[k].now,
        ),
{
    assert(reports.take(k + 1).drop_last() =~= reports.take(k));
}

/// Pages that all carry a continuation token keep the cycle fetching: each
/// is written through, and the next page is asked for from its token, under
/// the watermark that the cycle began with.
pub proof fn lemma_pages_continue(
    g: GreaderView,
    st: SyncStateView,
    db: DbState,
    reports: Seq<Report>,
    pages: Seq<ReadingListView>,
)
    requires
        st.phase == SyncPhase::FetchContentPage,
        reports.len() == pages.len(),
        pages.len() > 0,
        forall|i: int|
            0 <= i < pages.len() ==> (#[trigger] reports[i]).event == SyncEventView::Page(pages[i]),
        forall|i: int| 0 <= i < pages.len() ==> (#[trigger] pages[i]).continuation is Some,
        pages_taken(db, pages),
    ensures
        run(g, st, db, reports) == (Step {
            state: st.moved(SyncPhase::FetchContentPage, pages.last().continuation),
            db: store_pages(db, pages),
            action: SyncActionView::Send(
                request::unread_content_request(
                    g.api_url,
                    g.cltoken,
                    pages.last().continuation,
                    st.last_synced,
                ),
            ),
        }),
    decreases pages.len(),
{
    if pages.len() > 1 {
        lemma_pages_continue(g, st, db, reports.drop_last(), pages.drop_last());
    } else {
        assert(run(g, st, db, reports.drop_last()).state == st);
    }
}

/// Pagination ends: where every page but the last carries a continuation
/// token and the store takes them all, the cycle writes each page through
/// once, in order, and on the last page turns to reconciliation, asking for
/// the unread identifiers.
pub proof fn lemma_pagination_ends(
    g: GreaderView,
    st: SyncStateView,
    db: DbState,
    reports: Seq<Report>,
    pages: Seq<ReadingListView>,
)
    requires
        st.phase == SyncPhase::FetchContentPage,
        reports.len() == pages.len(),
        pages.len() > 0,
        forall|i: int|
            0 <= i < pages.len() ==> (#[trigger] reports[i]).event == SyncEventView::Page(pages[i]),
        forall|i: int| 0 <= i < pages.len() - 1 ==> (#[trigger] pages[i]).continuation is Some,
        pages.last().continuation is None,
        pages_taken(db, pages),
    ensures
        run(g, st, db, reports) == (Step {
            state: st.moved(SyncPhase::ReconcileReadState, None),
            db: store_pages(db, pages),
            action: SyncActionView::Send(request::unread_ids_request(g.api_url, g.cltoken)),
        }),
{
    assert(reports.last() == reports[reports.len() - 1]);
    if pages.len() > 1 {
        lemma_pages_continue(g, st, db, reports.drop_last(), pages.drop_last());
    }
}

/// One cycle at a time: a request for a cycle while one is under way is
/// rejected and changes nothing.
pub proof fn lemma_single_flight(g: GreaderView, st: SyncStateView, db: DbState, now: i64)
    requires
        st.phase != SyncPhase::Idle,
    ensures
        sync_step(g, st, db, SyncEventView::Start, now) == (Step {
            state: st,
            db,
            action: SyncActionView::Rejected,
        }),
{
}

/// A step changes the watermark only when it hears that the watermark is
/// stored, and hands a watermark out only when a reconciliation went
/// through; a step that ends in flight does neither.
pub proof fn lemma_step_watermark(
    g: GreaderView,
    st: SyncStateView,
    db: DbState,
    report: Report,
)
    ensures
        sync_step(g, st, db, report.event, report.now).state.last_synced != st.last_synced ==> (
        st.phase is CommitWatermark) && report.event == SyncEventView::WatermarkStored,
        sync_step(g, st, db, report.event, report.now).action is StoreWatermark ==> st.phase
            == SyncPhase::ReconcileReadState && report.event is UnreadIds && sync_step(
            g,
            st,
            db,
            report.event,
            report.now,
        ).state.phase is CommitWatermark,
        in_flight(sync_step(g, st, db, report.event, report.now).state.phase) ==> sync_step(
            g,
            st,
            db,
            report.event,
            report.now,
        ).state.last_synced == st.last_synced && (in_flight(st.phase) || report.event
            == SyncEventView::Start),
{
}

/// Without a request for a cycle, a run that is not in flight does not come
/// to be in flight.
proof fn lemma_stays_out_of_flight(
    g: GreaderView,
    st: SyncStateView,
    db: DbState,
    reports: Seq<Report>,
    j: int,
    k: int,
)
    requires
        1 <= j <= k <= reports.len(),
        forall|i: int| 0 < i < reports.len() ==> !((#[trigger] reports[i]).event is Start),
        !in_flight(run(g, st, db, reports.take(j)).state.phase),
    ensures
        !in_flight(run(g, st, db, reports.take(k)).state.phase),
    decreases k - j,
{
    if j < k {
        lemma_run_take(g, st, db, reports, j);
        lemma_stays_out_of_flight(g, st, db, reports, j + 1, k);
    }
}

/// Up to a point where a run is in flight, it has kept the watermark and has
/// handed none out.
proof fn lemma_in_flight_so_far(
    g: GreaderView,
    st: SyncStateView,
    db: DbState,
    reports: Seq<Report>,
    k: int,
    j: int,
)
    requires
        st.phase == SyncPhase::Idle,
        0 <= j <= k <= reports.len(),
        forall|i: int| 0 < i < reports.len() ==> !((#[trigger] reports[i]).event is Start),
        in_flight(run(g, st, db, reports.take(k)).state.phase),
    ensures
        run(g, st, db, reports.take(j)).state.last_synced == st.last_synced,
        !(run(g, st, db, reports.take(j)).action is StoreWatermark),
    decreases j,
{
    if j > 0 {
        lemma_in_flight_so_far(g, st, db, reports, k, j - 1);
        lemma_run_take(g, st, db, reports, j - 1);
        if !in_flight(run(g, st, db, reports.take(j)).state.phase) {
            lemma_stays_out_of_flight(g, st, db, reports, j, k);
        }
    }
}

/// Once a step has given up the cycle, the run rests: it keeps the watermark
/// and hands none out.
proof fn lemma_rest_after_failure(
    g: GreaderView,
    st: SyncStateView,
    db: DbState,
    reports: Seq<Report>,
    k: int,
    j: int,
)
    requires
        st.phase == SyncPhase::Idle,
        0 <= k < j <= reports.len(),
        in_flight(run(g, st, db, reports.take(k)).state.phase),
        run(g, st, db, reports.take(k + 1)).action is Abort,
        forall|i: int| 0 < i < reports.len() ==> !((#[trigger] reports[i]).event is Start),
    ensures
        run(g, st, db, reports.take(j)).state.phase == SyncPhase::Idle,
        run(g, st, db, reports.take(j)).state.last_synced == st.last_synced,
        !(run(g, st, db, reports.take(j)).action is StoreWatermark),
    decreases j,
{
    lemma_run_take(g, st, db, reports, j - 1);
    if j == k + 1 {
        lemma_in_flight_so_far(g, st, db, reports, k, k);
    } else {
        lemma_rest_after_failure(g, st, db, reports, k, j - 1);
    }
}

/// A cycle that fails keeps the watermark. In a run from rest that no second
/// request for a cycle interrupts, a step that gives up while the cycle is in
/// flight (a failure was reported, or the store refused what came) ends it:
/// at no point of the run is a watermark handed out to be stored, and at its
/// end the synchroniser rests with the watermark that it began with.
pub proof fn lemma_failed_cycle_keeps_watermark(
    g: GreaderView,
    st: SyncStateView,
    db: DbState,
    reports: Seq<Report>,
    k: int,
)
    requires
        st.phase == SyncPhase::Idle,
        0 <= k < reports.len(),
        in_flight(run(g, st, db, reports.take(k)).state.phase),
        run(g, st, db, reports.take(k + 1)).action is Abort,
        forall|i: int| 0 < i < reports.len() ==> !((#[trigger] reports[i]).event is Start),
    ensures
        run(g, st, db, reports).state.phase == SyncPhase::Idle,
        run(g, st, db, reports).state.last_synced == st.last_synced,
        forall|j: int|
            0 <= j <= reports.len() ==> !(#[trigger] run(
                g,
                st,
                db,
                reports.take(j),
            ).action is StoreWatermark),
{
    assert(reports.take(reports.len() as int) =~= reports);
    lemma_rest_after_failure(g, st, db, reports, k, reports.len() as int);
    assert forall|j: int| 0 <= j <= reports.len() implies !(#[trigger] run(
        g,
        st,
        db,
        reports.take(j),
    ).action is StoreWatermark) by {
        if j <= k {
            lemma_in_flight_so_far(g, st, db, reports, k, j);
        } else {
            lemma_rest_after_failure(g, st, db, reports, k, j);
        }
    }
}

/// A run of two parts is the run of the second part from where the first
/// part ends.
pub proof fn lemma_run_split(
    g: GreaderView,
    st: SyncStateView,
    db: DbState,
    first: Seq<Report>,
    second: Seq<Report>,
)
    requires
        second.len() > 0,
    ensures
        run(g, st, db, first + second) == run(
            g,
            run(g, st, db, first).state,
            run(g, st, db, first).db,
            second,
        ),
    decreases second.len(),
{
    assert((first + second).drop_last() =~= first + second.drop_last());
    if second.len() > 1 {
        lemma_run_split(g, st, db, first, second.drop_last());
    } else {
        let mid = run(g, st, db, first);
        assert(run(g, mid.state, mid.db, second.drop_last()).state == mid.state);
    }
}

/// A cycle that nothing disturbs runs to its end. From rest, the request
/// for a cycle, the subscription list, the pages of unread content (every
/// page but the last with a continuation token), the unread identifiers and
/// the word that the watermark is stored, each taken by the store, leave the
/// synchroniser at rest with the time of the reconciliation as its
/// watermark. The store then holds the subscriptions and the pages, written
/// through in that order, reconciled with the unread identifiers.
pub proof fn lemma_cycle_completes(
    g: GreaderView,
    st: SyncStateView,
    db: DbState,
    subs: Seq<SubscriptionView>,
    pages: Seq<ReadingListView>,
    ids: Seq<Seq<char>>,
    reports: Seq<Report>,
)
    requires
        st.phase == SyncPhase::Idle,
        pages.len() > 0,
        reports.len() == pages.len() + 4,
        reports[0].event == SyncEventView::Start,
        reports[1].event == SyncEventView::Subscriptions(subs),
        forall|i: int| 0 <= i < pages.len() ==> (#[trigger] reports[i + 2]).event
            == SyncEventView::Page(pages[i]),
        reports[pages.len() as int + 2].event == SyncEventView::UnreadIds(ids),
        reports[pages.len() as int + 3].event == SyncEventView::WatermarkStored,
        forall|i: int| 0 <= i < pages.len() - 1 ==> (#[trigger] pages[i]).continuation is Some,
        pages.last().continuation is None,
        subscribe_all_result(db, subs) is Ok,
        pages_taken(subscribe_all(db, subs), pages),
        store_pages(subscribe_all(db, subs), pages).reconcile_result(ids) is Ok,
    ensures
        run(g, st, db, reports) == (Step {
            state: SyncStateView {
                phase: SyncPhase::Idle,
                continuation: None,
                last_synced: Some(reports[pages.len() as int + 2].now),
            },
            db: store_pages(subscribe_all(db, subs), pages).reconcile(ids),
            action: SyncActionView::Done,
        }),
{
    let n = pages.len() as int;
    let opening = reports.take(2);
    let fetching = reports.subrange(2, n + 2);
    lemma_run_take(g, st, db, reports, 0);
    lemma_run_take(g, st, db, reports, 1);
    let begun = run(g, st, db, opening);
    lemma_pagination_ends(g, begun.state, begun.db, fetching, pages);
    lemma_run_split(g, st, db, opening, fetching);
    assert(opening + fetching =~= reports.take(n + 2));
    lemma_run_take(g, st, db, reports, n + 2);
}

} // verus!
