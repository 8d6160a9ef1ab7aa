//! How the events of the file watcher turn into reloads.

use vstd::prelude::*;

use crate::watcher::WatchAction;
use crate::watcher::WatchEvent;

verus! {

/// A change of the file is what is modified or created. It leads to a reload after a pause of
/// 150 milliseconds where none is waiting, and to nothing where one is. A failed watch is
/// reported, and nothing is done about anything else, whether or not a reload is waiting.
pub proof fn law_changes_are_reloaded_and_failures_reported(pending: bool, event: WatchEvent)
    ensures
        event.is_change() <==> event is Modified || event is Created,
        event is Modified || event is Created ==> crate::watcher::reaction(false, event)
            == WatchAction::ReloadAfter(150),
        event is Modified || event is Created ==> crate::watcher::reaction(true, event)
            == WatchAction::Ignore,
        event is Failed ==> crate::watcher::reaction(pending, event) == WatchAction::Report,
        event is Other ==> crate::watcher::reaction(pending, event) == WatchAction::Ignore,
{
}

/// Whether a reload is waiting after a series of events, none of which has let it start.
pub open spec fn pending_after(pending: bool, events: Seq<WatchEvent>) -> bool
    decreases events.len(),
{
    if events.len() == 0 {
        pending
    } else {
        pending_after(pending, events.drop_last()) || events.last().is_change()
    }
}

/// How many of the events in a series are answered with a reload.
pub open spec fn reloads(pending: bool, events: Seq<WatchEvent>) -> nat
    decreases events.len(),
{
    if events.len() == 0 {
        0
    } else {
        let before = events.drop_last();
        let action = crate::watcher::reaction(pending_after(pending, before), events.last());
        reloads(pending, before) + if action is ReloadAfter {
            1nat
        } else {
            0nat
        }
    }
}

/// Some event in the series is a change.
pub open spec fn has_change(events: Seq<WatchEvent>) -> bool {
    exists|i: int| 0 <= i < events.len() && (#[trigger] events[i]).is_change()
}

/// One save is one reload: from one reload to the next, any number of changes is answered
/// with exactly one reload, and no changes with none. Once a reload is waiting, nothing is
/// answered with another.
pub proof fn law_a_burst_is_reloaded_once(events: Seq<WatchEvent>)
    ensures
        reloads(false, events) == if has_change(events) {
            1nat
        } else {
            0nat
        },
        pending_after(false, events) == has_change(events),
        reloads(true, events) == 0,
        pending_after(true, events),
    decreases events.len(),
{
    if events.len() > 0 {
        let before = events.drop_last();
        law_a_burst_is_reloaded_once(before);
        if has_change(before) {
            let i = choose|i: int| 0 <= i < before.len() && (#[trigger] before[i]).is_change();
            assert(events[i].is_change());
        }
        if has_change(events) && !events.last().is_change() {
            let i = choose|i: int| 0 <= i < events.len() && (#[trigger] events[i]).is_change();
            assert(before[i].is_change());
        }
        if events.last().is_change() {
            assert(events[events.len() - 1].is_change());
        }
    }
}

} // verus!
