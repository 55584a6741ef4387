//! The decision rules of the two schedulers. The looping scheduler runs one
//! task per updater: try the guard without blocking, run one update cycle,
//! wait the chosen interval while racing the termination signal. The notify
//! scheduler runs one task that races the signal against the notification
//! channel and triggers every updater on a notification. The waiting, the
//! channels and the tasks themselves run outside the library; each task
//! feeds what happened into the step functions here and performs the action
//! they return, so that every decision the schedulers take is fixed by the
//! contracts below.

use vstd::prelude::*;

verus! {

/// The kinds of external notification that trigger an immediate refresh.
#[derive(Debug, Clone, Copy, PartialEq, Eq, Hash)]
pub enum NotifyKind {
    OsSuspendResume,
}

/// What ended a timed wait: the termination signal, or the sleep running
/// out.
#[derive(Debug, Clone, Copy)]
pub enum WaitOutcome {
    Signalled,
    Elapsed,
}

/// One thing that happens to a looping task.
#[derive(Debug, Clone, Copy)]
pub enum LoopEvent {
    /// The guard was busy: the updater is presumed handling a concurrent
    /// notify-triggered update, and the cycle is skipped.
    GuardUnavailable,
    /// One update cycle finished, well or badly.
    UpdateFinished { succeeded: bool },
    /// The race of the interval sleep against the termination signal ended.
    WaitEnded { outcome: WaitOutcome },
}

/// What a looping task does next.
#[derive(Debug, Clone, Copy)]
pub enum LoopAction {
    /// Try the guard without blocking and run one update cycle.
    TryUpdate,
    /// Sleep this many seconds, racing the termination signal.
    Wait { seconds: u64 },
    /// Leave the loop.
    Stop,
}

/// The looping task's decision rule: a busy guard means an immediate retry;
/// a finished cycle chooses the refresh interval on success and the retry
/// interval on failure; an elapsed wait starts the next cycle; the signal
/// ends the task.
pub open spec fn spec_looping_action(ev: LoopEvent, refresh: u64, retry: u64) -> LoopAction {
    match ev {
        LoopEvent::GuardUnavailable => LoopAction::TryUpdate,
        LoopEvent::UpdateFinished { succeeded } => LoopAction::Wait {
            seconds: if succeeded {
                refresh
            } else {
                retry
            },
        },
        LoopEvent::WaitEnded { outcome } => match outcome {
            WaitOutcome::Signalled => LoopAction::Stop,
            WaitOutcome::Elapsed => LoopAction::TryUpdate,
        },
    }
}

/// Decides what a looping task does next.
pub fn looping_action(ev: &LoopEvent, refresh: u64, retry: u64) -> (a: LoopAction)
    ensures
        a == spec_looping_action(*ev, refresh, retry),
{
    match ev {
        LoopEvent::GuardUnavailable => LoopAction::TryUpdate,
        LoopEvent::UpdateFinished { succeeded } => LoopAction::Wait {
            seconds: if *succeeded {
                refresh
            } else {
                retry
            },
        },
        LoopEvent::WaitEnded { outcome } => match outcome {
            WaitOutcome::Signalled => LoopAction::Stop,
            WaitOutcome::Elapsed => LoopAction::TryUpdate,
        },
    }
}

/// The actions a looping task takes on a row of events: one per event, and
/// none after the first Stop.
pub open spec fn looping_trace(events: Seq<LoopEvent>, refresh: u64, retry: u64) -> Seq<
    LoopAction,
>
    decreases events.len(),
{
    if events.len() == 0 {
        Seq::empty()
    } else {
        let a = spec_looping_action(events[0], refresh, retry);
        if a is Stop {
            seq![a]
        } else {
            seq![a] + looping_trace(events.skip(1), refresh, retry)
        }
    }
}

/// Whether an event is the termination signal ending a wait.
pub open spec fn is_termination_event(ev: LoopEvent) -> bool {
    ev matches LoopEvent::WaitEnded { outcome: WaitOutcome::Signalled }
}

/// Law: shutdown propagation, looping side. When event `n` is the first
/// signalled wait, the task acts exactly `n + 1` times, the last action is
/// Stop, and no update attempt follows the signal.
pub proof fn lemma_shutdown_stops_loop(
    events: Seq<LoopEvent>,
    refresh: u64,
    retry: u64,
    n: int,
)
    requires
        0 <= n < events.len(),
        is_termination_event(events[n]),
        forall|k: int| 0 <= k < n ==> !is_termination_event(#[trigger] events[k]),
    ensures
        looping_trace(events, refresh, retry).len() == n + 1,
        looping_trace(events, refresh, retry)[n] is Stop,
        forall|k: int| 0 <= k < n ==> !(#[trigger] looping_trace(events, refresh, retry)[k]
            is Stop),
    decreases n,
{
    if n == 0 {
    } else {
        assert(!is_termination_event(events[0]));
        assert(!(spec_looping_action(events[0], refresh, retry) is Stop));
        assert(events.skip(1)[n - 1] == events[n]);
        assert(forall|k: int| 0 <= k < n - 1 ==> events.skip(1)[k] == events[k + 1]);
        lemma_shutdown_stops_loop(events.skip(1), refresh, retry, n - 1);
    }
}

/// What the race of the termination signal against the notification channel
/// reported to the notify task.
#[derive(Debug, Clone, Copy)]
pub enum NotifyEvent {
    /// The termination signal fired.
    Terminated,
    /// A notification arrived.
    Notification(NotifyKind),
    /// The channel reported that the receiver fell behind; the dropped
    /// notifications are treated as a no-op trigger.
    Lagged,
    /// The channel closed: every sender is gone, treated as termination.
    Closed,
}

/// What the notify task does next.
#[derive(Debug, Clone, Copy)]
pub enum NotifyAction {
    /// Trigger one concurrent, non-blocking update attempt per updater, and
    /// wait for all of them before listening again.
    TriggerAll,
    /// Listen again without triggering anything.
    Continue,
    /// Leave the loop.
    Stop,
}

/// Whether an event ends the notify task: the signal and the closed channel
/// are treated identically.
pub open spec fn notify_stops(ev: NotifyEvent) -> bool {
    ev is Terminated || ev is Closed
}

/// The notify task's decision rule: a notification triggers every updater;
/// a lagging channel is a no-op trigger, never fatal; the signal or a
/// closed channel ends the task, and nothing else ever does.
pub open spec fn spec_notify_action(ev: NotifyEvent) -> NotifyAction {
    if notify_stops(ev) {
        NotifyAction::Stop
    } else if ev is Lagged {
        NotifyAction::Continue
    } else {
        NotifyAction::TriggerAll
    }
}

/// Decides what the notify task does next.
pub fn notify_action(ev: &NotifyEvent) -> (a: NotifyAction)
    ensures
        a == spec_notify_action(*ev),
{
    match ev {
        NotifyEvent::Terminated => NotifyAction::Stop,
        NotifyEvent::Closed => NotifyAction::Stop,
        NotifyEvent::Notification(_) => NotifyAction::TriggerAll,
        NotifyEvent::Lagged => NotifyAction::Continue,
    }
}

/// The actions the notify task takes on a row of events: one per event, and
/// none after the first Stop.
pub open spec fn notify_trace(events: Seq<NotifyEvent>) -> Seq<NotifyAction>
    decreases events.len(),
{
    if events.len() == 0 {
        Seq::empty()
    } else {
        let a = spec_notify_action(events[0]);
        if a is Stop {
            seq![a]
        } else {
            seq![a] + notify_trace(events.skip(1))
        }
    }
}

/// Law: shutdown propagation, notify side. When event `n` is the first
/// stopping event, the task acts exactly `n + 1` times, the last action is
/// Stop, and no trigger follows it.
pub proof fn lemma_shutdown_stops_notify(events: Seq<NotifyEvent>, n: int)
    requires
        0 <= n < events.len(),
        notify_stops(events[n]),
        forall|k: int| 0 <= k < n ==> !notify_stops(#[trigger] events[k]),
    ensures
        notify_trace(events).len() == n + 1,
        notify_trace(events)[n] is Stop,
        forall|k: int| 0 <= k < n ==> !(#[trigger] notify_trace(events)[k] is Stop),
    decreases n,
{
    if n == 0 {
    } else {
        assert(!notify_stops(events[0]));
        assert(events.skip(1)[n - 1] == events[n]);
        assert(forall|k: int| 0 <= k < n - 1 ==> events.skip(1)[k] == events[k + 1]);
        lemma_shutdown_stops_notify(events.skip(1), n - 1);
    }
}

} // verus!
