//! One synchronisation cycle, step by step: the caller sends what a step
//! asks for and hands back what came of it.

use vstd::prelude::*;
use crate::db::DB;
use crate::error::SyncError;
use crate::greader::{
    Greader, GreaderView, ReadingList, ReadingListView, SubscriptionView, Subscriptions,
    UnreadItemIds,
};
use crate::merge::{store_items, store_items_result, subscribe_all, subscribe_all_result};
use crate::model::DbState;
use crate::request;
use crate::request::{Request, RequestView};
use crate::text::{
    chars_of, decimal, lemma_decimal, lemma_trim_nothing, parse_number, parsed_number,
    push_signed_decimal, signed_decimal, trim, trim_range,
};
use crate::utils::current_timestamp;
use crate::views::opt_view;

verus! {

/// Where a cycle stands.
#[derive(Clone, Copy, Debug, PartialEq, Eq, Structural)]
pub enum SyncPhase {
    /// No cycle is under way.
    Idle,
    /// The subscription list has been asked for.
    FetchSubscriptions,
    /// A page of unread content has been asked for.
    FetchContentPage,
    /// The identifiers of the unread articles have been asked for.
    ReconcileReadState,
    /// The new watermark has been handed out and is being stored.
    CommitWatermark(i64),
}

/// Where the next page begins, and when the last complete cycle ended.
#[derive(Debug)]
pub struct SyncCursor {
    /// The continuation token of the cycle under way.
    pub continuation: Option<String>,
    /// The watermark: the end of the last complete cycle, in seconds since
    /// the epoch.
    pub last_synced: Option<i64>,
}

/// The state of the synchroniser.
#[derive(Debug)]
pub struct SyncState {
    pub phase: SyncPhase,
    pub cursor: SyncCursor,
}

/// What the state of the synchroniser holds, as plain values.
pub struct SyncStateView {
    pub phase: SyncPhase,
    pub continuation: Option<Seq<char>>,
    pub last_synced: Option<i64>,
}

impl View for SyncState {
    type V = SyncStateView;

    open spec fn view(&self) -> SyncStateView {
        SyncStateView {
            phase: self.phase,
            continuation: opt_view(self.cursor.continuation),
            last_synced: self.cursor.last_synced,
        }
    }
}

impl SyncStateView {
    /// This state once the cycle is over without a new watermark.
    pub open spec fn at_rest(self) -> SyncStateView {
        SyncStateView { phase: SyncPhase::Idle, continuation: None, last_synced: self.last_synced }
    }

    /// This state in the phase `phase`, at the continuation token
    /// `continuation`.
    pub open spec fn moved(
        self,
        phase: SyncPhase,
        continuation: Option<Seq<char>>,
    ) -> SyncStateView {
        SyncStateView { phase, continuation, last_synced: self.last_synced }
    }
}

/// What the caller reports to the synchroniser.
#[derive(Debug)]
pub enum SyncEvent {
    /// A cycle is asked for.
    Start,
    /// The subscription list has come.
    Subscriptions(Subscriptions),
    /// A page of unread content has come.
    Page(ReadingList),
    /// The identifiers of the unread articles have come.
    UnreadIds(UnreadItemIds),
    /// The watermark has been stored.
    WatermarkStored,
    /// What was asked for could not be done.
    Failed(SyncError),
}

/// What an event holds, as plain values.
pub enum SyncEventView {
    Start,
    Subscriptions(Seq<SubscriptionView>),
    Page(ReadingListView),
    UnreadIds(Seq<Seq<char>>),
    WatermarkStored,
    Failed(SyncError),
}

impl View for SyncEvent {
    type V = SyncEventView;

    open spec fn view(&self) -> SyncEventView {
        match *self {
            SyncEvent::Start => SyncEventView::Start,
            SyncEvent::Subscriptions(subs) => SyncEventView::Subscriptions(subs@),
            SyncEvent::Page(page) => SyncEventView::Page(page@),
            SyncEvent::UnreadIds(ids) => SyncEventView::UnreadIds(ids@),
            SyncEvent::WatermarkStored => SyncEventView::WatermarkStored,
            SyncEvent::Failed(e) => SyncEventView::Failed(e),
        }
    }
}

/// What the synchroniser asks of the caller.
#[derive(Debug)]
pub enum SyncAction {
    /// Send this request and report its answer.
    Send(Request),
    /// Store this watermark and report that it is stored.
    StoreWatermark(i64),
    /// The cycle is complete.
    Done,
    /// The cycle is given up.
    Abort(SyncError),
    /// The event does not answer what was asked for; nothing has changed.
    Rejected,
}

/// What an action holds, as plain values.
pub enum SyncActionView {
    Send(RequestView),
    StoreWatermark(i64),
    Done,
    Abort(SyncError),
    Rejected,
}

impl View for SyncAction {
    type V = SyncActionView;

    open spec fn view(&self) -> SyncActionView {
        match *self {
            SyncAction::Send(q) => SyncActionView::Send(q@),
            SyncAction::StoreWatermark(t) => SyncActionView::StoreWatermark(t),
            SyncAction::Done => SyncActionView::Done,
            SyncAction::Abort(e) => SyncActionView::Abort(e),
            SyncAction::Rejected => SyncActionView::Rejected,
        }
    }
}

/// What a step comes to: the state and the store behind it, and what it asks
/// of the caller.
pub struct Step {
    pub state: SyncStateView,
    pub db: DbState,
    pub action: SyncActionView,
}

/// The step that begins a cycle.
pub open spec fn step_start(g: GreaderView, st: SyncStateView, db: DbState) -> Step {
    Step {
        state: st.moved(SyncPhase::FetchSubscriptions, None),
        db,
        action: SyncActionView::Send(request::subscription_list_request(g.api_url, g.cltoken)),
    }
}

/// The step on the subscription list: it is written through to the store,
/// and the first page of unread content is asked for.
pub open spec fn step_subscriptions(
    g: GreaderView,
    st: SyncStateView,
    db: DbState,
    subs: Seq<SubscriptionView>,
) -> Step {
    match subscribe_all_result(db, subs) {
        Ok(_) => Step {
            state: st.moved(SyncPhase::FetchContentPage, None),
            db: subscribe_all(db, subs),
            action: SyncActionView::Send(
                request::unread_content_request(g.api_url, g.cltoken, None, st.last_synced),
            ),
        },
        Err(e) => Step {
            state: st.at_rest(),
            db: subscribe_all(db, subs),
            action: SyncActionView::Abort(e),
        },
    }
}

/// The step on a page of unread content: it is written through to the
/// store; a continuation token asks for the next page under the same
/// watermark, and a page without one asks for the unread identifiers.
pub open spec fn step_page(
    g: GreaderView,
    st: SyncStateView,
    db: DbState,
    page: ReadingListView,
) -> Step {
    match store_items_result(db, page.items) {
        Ok(_) => match page.continuation {
            Some(c) => Step {
                state: st.moved(SyncPhase::FetchContentPage, Some(c)),
                db: store_items(db, page.items),
                action: SyncActionView::Send(
                    request::unread_content_request(
                        g.api_url,
                        g.cltoken,
                        Some(c),
                        st.last_synced,
                    ),
                ),
            },
            None => Step {
                state: st.moved(SyncPhase::ReconcileReadState, None),
                db: store_items(db, page.items),
                action: SyncActionView::Send(
                    request::unread_ids_request(g.api_url, g.cltoken),
                ),
            },
        },
        Err(e) => Step {
            state: st.at_rest(),
            db: store_items(db, page.items),
            action: SyncActionView::Abort(e),
        },
    }
}

/// The step on the unread identifiers: the store is reconciled with them,
/// and the time `now` is handed out as the new watermark.
pub open spec fn step_unread_ids(
    st: SyncStateView,
    db: DbState,
    ids: Seq<Seq<char>>,
    now: i64,
) -> Step {
    match db.reconcile_result(ids) {
        Ok(_) => Step {
            state: st.moved(SyncPhase::CommitWatermark(now), None),
            db: db.reconcile(ids),
            action: SyncActionView::StoreWatermark(now),
        },
        Err(e) => Step {
            state: st.at_rest(),
            db: db.reconcile(ids),
            action: SyncActionView::Abort(e),
        },
    }
}

/// One step of the synchroniser: what the event `ev`, at the time `now`,
/// makes of the state `st` and the store `db`. An event that does not answer
/// what the phase has asked for is rejected and changes nothing: so is a
/// request for a cycle while one is under way. A failure ends the cycle
/// where it stands, and the watermark stays as it was.
pub open spec fn sync_step(
    g: GreaderView,
    st: SyncStateView,
    db: DbState,
    ev: SyncEventView,
    now: i64,
) -> Step {
    match (st.phase, ev) {
        (SyncPhase::Idle, SyncEventView::Start) => step_start(g, st, db),
        (SyncPhase::FetchSubscriptions, SyncEventView::Subscriptions(subs)) => step_subscriptions(
            g,
            st,
            db,
            subs,
        ),
        (SyncPhase::FetchContentPage, SyncEventView::Page(page)) => step_page(g, st, db, page),
        (SyncPhase::ReconcileReadState, SyncEventView::UnreadIds(ids)) => step_unread_ids(
            st,
            db,
            ids,
            now,
        ),
        (SyncPhase::CommitWatermark(t), SyncEventView::WatermarkStored) => Step {
            state: SyncStateView {
                phase: SyncPhase::Idle,
                continuation: None,
                last_synced: Some(t),
            },
            db,
            action: SyncActionView::Done,
        },
        (SyncPhase::FetchSubscriptions, SyncEventView::Failed(e)) => Step {
            state: st.at_rest(),
            db,
            action: SyncActionView::Abort(e),
        },
        (SyncPhase::FetchContentPage, SyncEventView::Failed(e)) => Step {
            state: st.at_rest(),
            db,
            action: SyncActionView::Abort(e),
        },
        (SyncPhase::ReconcileReadState, SyncEventView::Failed(e)) => Step {
            state: st.at_rest(),
            db,
            action: SyncActionView::Abort(e),
        },
        (SyncPhase::CommitWatermark(_), SyncEventView::Failed(e)) => Step {
            state: st.at_rest(),
            db,
            action: SyncActionView::Abort(e),
        },
        _ => Step { state: st, db, action: SyncActionView::Rejected },
    }
}

impl SyncState {
    /// The synchroniser at rest, with the watermark `last_synced`.
    pub fn new(last_synced: Option<i64>) -> (r: Self)
        ensures
            r@ == (SyncStateView { phase: SyncPhase::Idle, continuation: None, last_synced }),
    {
        SyncState { phase: SyncPhase::Idle, cursor: SyncCursor { continuation: None, last_synced } }
    }

    /// Ends the cycle without a new watermark.
    fn rest(&mut self)
        ensures
            final(self)@ == old(self)@.at_rest(),
    {
        self.phase = SyncPhase::Idle;
        self.cursor.continuation = None;
    }

    /// Moves on to `phase`, at the continuation token `continuation`.
    fn move_to(&mut self, phase: SyncPhase, continuation: Option<String>)
        ensures
            final(self)@ == old(self)@.moved(phase, opt_view(continuation)),
    {
        self.phase = phase;
        self.cursor.continuation = continuation;
    }
}

impl Greader {
    /// One step of the synchroniser at the time `now`: see `sync_step`.
    pub fn sync_at(
        &self,
        state: &mut SyncState,
        db: &mut DB,
        event: SyncEvent,
        now: i64,
    ) -> (r: SyncAction)
        requires
            old(db).wf(),
        ensures
            final(db).wf(),
            sync_step(self@, old(state)@, old(db)@, event@, now) == (Step {
                state: final(state)@,
                db: final(db)@,
                action: r@,
            }),
    {
        match event {
            SyncEvent::Start => {
                match state.phase {
                    SyncPhase::Idle => {
                        state.move_to(SyncPhase::FetchSubscriptions, None);
                        SyncAction::Send(self.subscription_list_request())
                    },
                    _ => SyncAction::Rejected,
                }
            },
            SyncEvent::Subscriptions(subs) => {
                match state.phase {
                    SyncPhase::FetchSubscriptions => {
                        match self.get_subscription_list(db, &subs) {
                            Ok(_) => {
                                let q = self.unread_content_request(
                                    &None,
                                    state.cursor.last_synced,
                                );
                                state.move_to(SyncPhase::FetchContentPage, None);
                                SyncAction::Send(q)
                            },
                            Err(e) => {
                                state.rest();
                                SyncAction::Abort(e)
                            },
                        }
                    },
                    _ => SyncAction::Rejected,
                }
            },
            SyncEvent::Page(page) => {
                match state.phase {
                    SyncPhase::FetchContentPage => {
                        match self.get_unred_articles_content(db, &page) {
                            Ok(next) => {
                                match next {
                                    Some(c) => {
                                        let token: Option<String> = Some(c);
                                        let q = self.unread_content_request(
                                            &token,
                                            state.cursor.last_synced,
                                        );
                                        state.move_to(SyncPhase::FetchContentPage, token);
                                        SyncAction::Send(q)
                                    },
                                    None => {
                                        state.move_to(SyncPhase::ReconcileReadState, None);
                                        SyncAction::Send(self.unread_ids_request())
                                    },
                                }
                            },
                            Err(e) => {
                                state.rest();
                                SyncAction::Abort(e)
                            },
                        }
                    },
                    _ => SyncAction::Rejected,
                }
            },
            SyncEvent::UnreadIds(ids) => {
                match state.phase {
                    SyncPhase::ReconcileReadState => {
                        match self.mark_articles_as_read_except(db, &ids) {
                            Ok(_) => {
                                state.move_to(SyncPhase::CommitWatermark(now), None);
                                SyncAction::StoreWatermark(now)
                            },
                            Err(e) => {
                                state.rest();
                                SyncAction::Abort(e)
                            },
                        }
                    },
                    _ => SyncAction::Rejected,
                }
            },
            SyncEvent::WatermarkStored => {
                match state.phase {
                    SyncPhase::CommitWatermark(t) => {
                        state.phase = SyncPhase::Idle;
                        state.cursor.continuation = None;
                        state.cursor.last_synced = Some(t);
                        SyncAction::Done
                    },
                    _ => SyncAction::Rejected,
                }
            },
            SyncEvent::Failed(e) => {
                match state.phase {
                    SyncPhase::Idle => SyncAction::Rejected,
                    _ => {
                        state.rest();
                        SyncAction::Abort(e)
                    },
                }
            },
        }
    }

    /// One step of the synchroniser, at the time that the clock shows: the
    /// step of `sync_step` for that time.
    pub fn sync(&self, state: &mut SyncState, db: &mut DB, event: SyncEvent) -> (r: SyncAction)
        requires
            old(db).wf(),
        ensures
            final(db).wf(),
            exists|now: i64|
                sync_step(self@, old(state)@, old(db)@, event@, now) == (Step {
                    state: final(state)@,
                    db: final(db)@,
                    action: r@,
                }),
    {
        let now: i64 = current_timestamp();
        self.sync_at(state, db, event, now)
    }
}

/// The watermark that a text holds: a decimal number of seconds, with a
/// minus sign before it where it is negative and with any white space around
/// it. A text that holds no such number, or one that is out of range, holds
/// no watermark.
pub open spec fn watermark_of_text(text: Seq<char>) -> Option<i64> {
    let t = trim(text);
    if t.len() > 0 && t[0] == '-' {
        match parsed_number(t.skip(1), 10, 0x8000_0000_0000_0000) {
            Some(n) => Some((-n) as i64),
            None => None,
        }
    } else {
        match parsed_number(t, 10, 0x7fff_ffff_ffff_ffff) {
            Some(n) => Some(n as i64),
            None => None,
        }
    }
}

/// Reads the watermark out of the text that was stored for it.
pub fn read_last_sync_time(text: &str) -> (r: Option<i64>)
    ensures
        r == watermark_of_text(text@),
{
    let v: Vec<char> = chars_of(text);
    let (a, b) = trim_range(&v, 0, v.len());
    assert(v@.subrange(0, v@.len() as int) =~= v@);
    let ghost t = v@.subrange(a as int, b as int);
    if a < b && v[a] == '-' {
        assert(t.skip(1) =~= v@.subrange(a + 1, b as int));
        match parse_number(&v, a + 1, b, 10, 0x8000_0000_0000_0000) {
            Some(n) => {
                if n == 0x8000_0000_0000_0000 {
                    Some(i64::MIN)
                } else {
                    Some(-(n as i64))
                }
            },
            None => None,
        }
    } else {
        match parse_number(&v, a, b, 10, 0x7fff_ffff_ffff_ffff) {
            Some(n) => Some(n as i64),
            None => None,
        }
    }
}

/// The text that is stored for the watermark `t`: its decimal digits.
pub fn last_sync_time_text(t: i64) -> (r: String)
    ensures
        r@ == signed_decimal(t as int),
{
    let mut r = String::new();
    push_signed_decimal(&mut r, t);
    r
}

/// The text that is stored for a watermark reads back as that watermark.
pub proof fn lemma_watermark_round_trip(t: i64)
    ensures
        watermark_of_text(signed_decimal(t as int)) == Some(t),
{
    let text = signed_decimal(t as int);
    if t < 0 {
        let digits = decimal((-t) as nat);
        lemma_decimal((-t) as nat);
        lemma_trim_nothing(text);
        assert(text.skip(1) =~= digits);
    } else {
        lemma_decimal(t as nat);
        lemma_trim_nothing(text);
    }
}

} // verus!
