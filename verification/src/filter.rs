//! The choice of the events to show: all of them, or the sessions of users.

use crate::entry::{views, LogonEntry, LogonEntryView, LogonType};
use vstd::prelude::*;

verus! {

/// The event belongs to a user's session.
pub open spec fn is_user_session(e: LogonEntryView) -> bool {
    e.category == LogonType::UserProcess
}

/// The events of users' sessions among `events`, in their order.
pub open spec fn user_sessions(events: Seq<LogonEntryView>) -> Seq<LogonEntryView> {
    events.filter(|e: LogonEntryView| is_user_session(e))
}

/// The events to show: all of `events`, or the sessions of users among them.
pub open spec fn shown(events: Seq<LogonEntryView>, include_all: bool) -> Seq<LogonEntryView> {
    if include_all {
        events
    } else {
        user_sessions(events)
    }
}

/// Every event that is shown without `include_all` belongs to a user's
/// session, each of them is one of `events`, and none of those is left out.
pub proof fn law_user_sessions(events: Seq<LogonEntryView>)
    ensures
        user_sessions(events).len() <= events.len(),
        forall|i: int|
            0 <= i < user_sessions(events).len() ==> is_user_session(
                #[trigger] user_sessions(events)[i],
            ) && events.contains(user_sessions(events)[i]),
        forall|i: int|
            0 <= i < events.len() && is_user_session(events[i]) ==> user_sessions(events).contains(
                #[trigger] events[i],
            ),
{
    let pred = |e: LogonEntryView| is_user_session(e);
    events.lemma_filter_len(pred);
    assert forall|i: int| 0 <= i < user_sessions(events).len() implies is_user_session(
        #[trigger] user_sessions(events)[i],
    ) && events.contains(user_sessions(events)[i]) by {
        let e = user_sessions(events)[i];
        events.lemma_filter_pred(pred, i);
        assert(events.filter(pred).contains(e));
        events.lemma_filter_contains_rev(pred, e);
    }
    assert forall|i: int| 0 <= i < events.len() && is_user_session(events[i]) implies user_sessions(
        events,
    ).contains(#[trigger] events[i]) by {
        events.lemma_filter_contains(pred, i);
    }
}

/// Showing keeps the order of the events: what is shown of a list in two
/// parts is what is shown of the first part, then what is shown of the
/// second. Showing what is shown changes nothing.
pub proof fn law_shown_keeps_order(
    first: Seq<LogonEntryView>,
    second: Seq<LogonEntryView>,
    include_all: bool,
)
    ensures
        shown(first + second, include_all) == shown(first, include_all) + shown(
            second,
            include_all,
        ),
        shown(shown(first, include_all), include_all) == shown(first, include_all),
{
    let pred = |e: LogonEntryView| is_user_session(e);
    Seq::filter_distributes_over_add(first, second, pred);
    lemma_user_sessions_of_user_sessions(first);
}

/// Among the sessions of users, every event is the session of a user.
proof fn lemma_user_sessions_of_user_sessions(events: Seq<LogonEntryView>)
    ensures
        user_sessions(user_sessions(events)) == user_sessions(events),
    decreases events.len(),
{
    let pred = |e: LogonEntryView| is_user_session(e);
    reveal(Seq::filter);
    if events.len() > 0 {
        lemma_user_sessions_of_user_sessions(events.drop_last());
        let sub = events.drop_last().filter(pred);
        if pred(events.last()) {
            sub.lemma_filter_push(events.last(), pred);
        }
    }
}

/// The events to show, in their order: all of `events` where `include_all` is
/// set, else the sessions of users among them.
pub fn filter_events(events: Vec<LogonEntry>, include_all: bool) -> (kept: Vec<LogonEntry>)
    ensures
        views(kept@) == shown(views(events@), include_all),
{
    if include_all {
        return events;
    }
    let ghost all = events@;
    let ghost pred = |e: LogonEntryView| is_user_session(e);
    let mut kept: Vec<LogonEntry> = Vec::new();
    proof {
        reveal(Seq::filter);
        assert(views(all.take(0)) =~= Seq::<LogonEntryView>::empty());
        assert(views(kept@) =~= Seq::<LogonEntryView>::empty());
    }
    for e in it: events
        invariant
            it.seq() == all,
            pred == (|e: LogonEntryView| is_user_session(e)),
            views(kept@) == views(all.take(it.index() as int)).filter(pred),
    {
        proof {
            let i = it.index() as int;
            let before = views(all.take(i));
            assert(views(all.take(i + 1)) =~= before.push(e@));
            before.lemma_filter_push(e@, pred);
            if pred(e@) {
                assert(views(kept@.push(e)) =~= views(kept@).push(e@));
            }
        }
        if e.category.is_user_process() {
            kept.push(e);
        }
    }
    proof {
        assert(all.take(all.len() as int) =~= all);
    }
    kept
}

} // verus!
