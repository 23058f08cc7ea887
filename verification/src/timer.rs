//! Waiting for the next epoch before joining the network: the countdown text
//! and the decisions of the waiting loop.

use crate::text::{decimal_two, push_char, push_decimal_two};
use vstd::prelude::*;
use vstd::string::StringExecFns;

verus! {

/// The text of a countdown of `secs` seconds: hours, minutes and seconds,
/// each at least two digits wide, separated by colons.
pub open spec fn timer_text(secs: nat) -> Seq<char> {
    decimal_two(secs / 3600).push(':').add(decimal_two((secs / 60) % 60)).push(':').add(
        decimal_two(secs % 60),
    )
}

/// Formats a duration of `secs` whole seconds as `HH:MM:SS`.
pub fn get_timer(secs: u64) -> (text: String)
    ensures
        text@ == timer_text(secs as nat),
{
    let s: u64 = secs % 60;
    let m: u64 = (secs / 60) % 60;
    let h: u64 = (secs / 60) / 60;
    assert(h == secs / 3600) by (nonlinear_arith)
        requires
            h == (secs / 60) / 60,
    ;
    let mut text = String::new();
    push_decimal_two(&mut text, h);
    push_char(&mut text, ':');
    push_decimal_two(&mut text, m);
    push_char(&mut text, ':');
    push_decimal_two(&mut text, s);
    assert(text@ =~= timer_text(secs as nat));
    text
}

/// Milliseconds between two looks at the clock while the epoch runs.
pub const COUNTDOWN_PAUSE_MS: u64 = 100;

/// Milliseconds between two questions to the bootstrap nodes once the epoch
/// is over.
pub const POLL_PAUSE_MS: u64 = 2000;

/// What a node that waits for the next epoch does next.
#[derive(Clone, Debug, PartialEq, Eq)]
pub enum WaitStep {
    /// The epoch is over by the clock: ask the bootstrap nodes which epoch
    /// it is.
    Poll,
    /// The epoch still runs: show the line and look again after the pause.
    Countdown { line: String, pause_ms: u64 },
}

/// What a node does with the answer of the bootstrap nodes.
#[derive(Clone, Copy, Debug, PartialEq, Eq)]
pub enum PollStep {
    /// The next epoch has begun: start the node.
    Start,
    /// It has not: ask again after the pause.
    Retry { pause_ms: u64 },
}

/// The milliseconds that are left of an epoch that ends at `epoch_end`.
pub open spec fn time_left(epoch_end: u64, now: u64) -> nat {
    if now > epoch_end {
        0
    } else {
        (epoch_end - now) as nat
    }
}

/// The line that is shown while a node waits.
pub open spec fn countdown_line(epoch_end: u64, now: u64) -> Seq<char> {
    "\rWaiting for new epoch to start. Joining the network in "@.add(
        timer_text(time_left(epoch_end, now) / 1000),
    ).add("..."@)
}

/// Decides what a waiting node does at the time `now`, in milliseconds, when
/// the epoch that it waits out ends at `epoch_end`.
pub fn wait_step(epoch_end: u64, now: u64) -> (step: WaitStep)
    ensures
        now > epoch_end ==> step == WaitStep::Poll,
        now <= epoch_end ==> (step matches WaitStep::Countdown { line, pause_ms } && line@
            == countdown_line(epoch_end, now) && pause_ms == COUNTDOWN_PAUSE_MS),
{
    if now > epoch_end {
        return WaitStep::Poll;
    }
    let delta: u64 = epoch_end - now;
    let timer = get_timer(delta / 1000);
    let mut line = String::from_str("\rWaiting for new epoch to start. Joining the network in ");
    line.append(timer.as_str());
    line.append("...");
    WaitStep::Countdown { line, pause_ms: COUNTDOWN_PAUSE_MS }
}

/// Decides what a waiting node does once the bootstrap nodes have said that
/// it is `new_epoch`, when the node waits out `epoch`.
pub fn after_poll(epoch: u64, new_epoch: u64) -> (step: PollStep)
    ensures
        step == (if new_epoch > epoch {
            PollStep::Start
        } else {
            PollStep::Retry { pause_ms: POLL_PAUSE_MS }
        }),
{
    if new_epoch > epoch {
        PollStep::Start
    } else {
        PollStep::Retry { pause_ms: POLL_PAUSE_MS }
    }
}

} // verus!
