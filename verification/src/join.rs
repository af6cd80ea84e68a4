//! Joining the stored network at boot: start the Thread stack, bring OpenThread
//! up with the stored dataset, then run the range probe.
//!
//! Each [`JoinStep`] says what to print and what to do next; what comes of that
//! is handed to [`JoinState::step`].

use vstd::prelude::*;
use crate::config::Config;
use crate::ot::Arg;
use crate::ot::Ask;
use crate::ot::OtCall;
use crate::ot::Request;
use crate::ot::ask;
use crate::ot::ask_set_active_tlvs;
use crate::ot::init;
use crate::ot::set_active_tlvs;
use crate::ot::up;
use crate::ot_text::autostart_line;
use crate::ot_text::autostart_text;
use crate::text::Say;
use crate::wpan_text::thread_autostart_line;
use crate::wpan_text::thread_autostart_text;

verus! {

/// The calls that bring the stack up with a stored dataset, in order.
pub open spec fn autostart_asks(tlvs: Seq<u8>) -> Seq<Ask> {
    seq![
        ask(OtCall::InstanceInitSingle, None),
        ask(OtCall::SetStateChangedCallback, Some(Arg::Word(0))),
        ask_set_active_tlvs(tlvs),
        ask(OtCall::Ip6SetEnabled, Some(Arg::Word(1))),
        ask(OtCall::ThreadSetEnabled, Some(Arg::Word(1))),
    ]
}

/// Bring the stack up with a stored dataset: the `k`-th call to make, if there
/// are that many. What they return goes into [`join_status`], all but the first.
pub fn autostart(cfg: &Config, k: usize) -> (r: Option<Request>)
    ensures
        r is Some <==> k < autostart_asks(cfg.used()).len(),
        r matches Some(q) ==> q@ == autostart_asks(cfg.used())[k as int],
{
    if k == 0 {
        Some(init().0)
    } else if k == 1 {
        Some(init().1)
    } else if k == 2 {
        Some(set_active_tlvs(cfg.tlvs()))
    } else if k == 3 {
        Some(up().0)
    } else if k == 4 {
        Some(up().1)
    } else {
        None
    }
}

/// The status of a join attempt, from those of the callback registration, the
/// dataset, IPv6 and Thread: the first that is no success, or success.
pub open spec fn joined_as(cb: u32, r: u32, r1: u32, r2: u32) -> u32 {
    if cb != 0 {
        cb
    } else if r != 0 {
        r
    } else if r1 != 0 {
        r1
    } else {
        r2
    }
}

/// The status of a join attempt: zero when all went well.
pub fn join_status(cb: u32, r: u32, r1: u32, r2: u32) -> (s: u32)
    ensures
        s == joined_as(cb, r, r1, r2),
        s == 0 <==> cb == 0 && r == 0 && r1 == 0 && r2 == 0,
{
    if cb != 0 {
        cb
    } else if r != 0 {
        r
    } else if r1 != 0 {
        r1
    } else {
        r2
    }
}

/// Where a join stands: what it waits for, and what the calls returned.
#[derive(Clone, Copy, PartialEq, Eq, Structural)]
pub enum JoinState {
    Thread,
    Instance,
    Callback,
    Dataset { cb: u32 },
    Ip6 { cb: u32, r: u32 },
    Enable { cb: u32, r: u32, r1: u32 },
    Finished,
}

/// What came of a step.
pub enum JoinEvent<'a> {
    /// The outcome of starting the Thread stack, as printed.
    Started(&'a str),
    /// What a call returned.
    Returned(u32),
}

/// What to do next.
pub enum JoinNext {
    /// Start the Thread stack.
    StartThread,
    /// Make a call.
    Call(Request),
    /// Nothing: this is the status of the attempt.
    Done(u32),
}

/// The contents of [`JoinNext`].
pub ghost enum JoinGo {
    StartThread,
    Call(Ask),
    Done(u32),
}

impl View for JoinNext {
    type V = JoinGo;

    open spec fn view(&self) -> JoinGo {
        match *self {
            JoinNext::StartThread => JoinGo::StartThread,
            JoinNext::Call(q) => JoinGo::Call(q@),
            JoinNext::Done(s) => JoinGo::Done(s),
        }
    }
}

/// One step of a join. The printing comes first, the switch last.
pub struct JoinStep {
    pub state: JoinState,
    pub say: Say,
    /// Turn range mode on or off.
    pub range: Option<bool>,
    pub next: JoinNext,
}

/// The contents of [`JoinStep`].
pub ghost struct JoinTurn {
    pub state: JoinState,
    pub says: Seq<Seq<char>>,
    pub range: Option<bool>,
    pub next: JoinGo,
}

impl View for JoinStep {
    type V = JoinTurn;

    open spec fn view(&self) -> JoinTurn {
        JoinTurn { state: self.state, says: self.say@, range: self.range, next: self.next@ }
    }
}

/// The first step: start the Thread stack.
pub open spec fn join_begins() -> JoinTurn {
    JoinTurn {
        state: JoinState::Thread,
        says: Seq::empty(),
        range: None,
        next: JoinGo::StartThread,
    }
}

/// A step that makes the `k`-th call of the autostart.
pub open spec fn join_calls(state: JoinState, tlvs: Seq<u8>, k: int) -> JoinTurn {
    JoinTurn {
        state,
        says: Seq::empty(),
        range: None,
        next: JoinGo::Call(autostart_asks(tlvs)[k]),
    }
}

/// Whether an event is what a state waits for.
pub open spec fn join_awaits(state: JoinState, event: JoinEvent) -> bool {
    match state {
        JoinState::Thread => event is Started,
        JoinState::Finished => false,
        _ => event is Returned,
    }
}

/// The step that follows an event, with the stored dataset `tlvs`. The stack is
/// brought up whatever came of starting it, and range mode turned on whatever
/// came of the calls.
pub open spec fn join_follows(state: JoinState, tlvs: Seq<u8>, event: JoinEvent) -> JoinTurn {
    match event {
        JoinEvent::Started(outcome) => JoinTurn {
            says: seq![thread_autostart_text(outcome@)],
            ..join_calls(JoinState::Instance, tlvs, 0)
        },
        JoinEvent::Returned(v) => match state {
            JoinState::Instance => join_calls(JoinState::Callback, tlvs, 1),
            JoinState::Callback => join_calls(JoinState::Dataset { cb: v }, tlvs, 2),
            JoinState::Dataset { cb } => join_calls(JoinState::Ip6 { cb, r: v }, tlvs, 3),
            JoinState::Ip6 { cb, r } => join_calls(JoinState::Enable { cb, r, r1: v }, tlvs, 4),
            JoinState::Enable { cb, r, r1 } => JoinTurn {
                state: JoinState::Finished,
                says: seq![autostart_text(cb, r, r1, v)],
                range: Some(true),
                next: JoinGo::Done(joined_as(cb, r, r1, v)),
            },
            _ => JoinTurn {
                state,
                says: Seq::empty(),
                range: None,
                next: JoinGo::Done(0),
            },
        },
    }
}

/// Begins to join the stored network.
pub fn join() -> (r: JoinStep)
    ensures
        r@ == join_begins(),
{
    JoinStep {
        state: JoinState::Thread,
        say: Say::Nothing,
        range: None,
        next: JoinNext::StartThread,
    }
}

fn calling(state: JoinState, cfg: &Config, k: usize) -> (r: JoinStep)
    requires
        k < 5,
    ensures
        r@ == join_calls(state, cfg.used(), k as int),
{
    let next = match autostart(cfg, k) {
        Some(q) => JoinNext::Call(q),
        None => JoinNext::Done(0),
    };
    JoinStep { state, say: Say::Nothing, range: None, next }
}

impl JoinState {
    /// The step that follows what the last one asked for.
    pub fn step(self, cfg: &Config, event: JoinEvent) -> (r: JoinStep)
        requires
            join_awaits(self, event),
        ensures
            r@ == join_follows(self, cfg.used(), event),
    {
        match event {
            JoinEvent::Started(outcome) => {
                let mut step = calling(JoinState::Instance, cfg, 0);
                step.say = Say::Line(thread_autostart_line(outcome));
                step
            },
            JoinEvent::Returned(v) => match self {
                JoinState::Instance => calling(JoinState::Callback, cfg, 1),
                JoinState::Callback => calling(JoinState::Dataset { cb: v }, cfg, 2),
                JoinState::Dataset { cb } => calling(JoinState::Ip6 { cb, r: v }, cfg, 3),
                JoinState::Ip6 { cb, r } => calling(JoinState::Enable { cb, r, r1: v }, cfg, 4),
                JoinState::Enable { cb, r, r1 } => JoinStep {
                    state: JoinState::Finished,
                    say: Say::Line(autostart_line(cb, r, r1, v)),
                    range: Some(true),
                    next: JoinNext::Done(join_status(cb, r, r1, v)),
                },
                _ => JoinStep {
                    state: self,
                    say: Say::Nothing,
                    range: None,
                    next: JoinNext::Done(0),
                },
            },
        }
    }
}

// ---- laws ----

/// The states of a join, in order.
pub open spec fn join_place(state: JoinState) -> int {
    match state {
        JoinState::Thread => 0,
        JoinState::Instance => 1,
        JoinState::Callback => 2,
        JoinState::Dataset { .. } => 3,
        JoinState::Ip6 { .. } => 4,
        JoinState::Enable { .. } => 5,
        JoinState::Finished => 6,
    }
}

/// A join goes through its states in order and one by one, so it ends; it makes
/// the calls of the autostart in order; and range mode goes on at its end and
/// not before.
pub proof fn law_join_in_order(state: JoinState, tlvs: Seq<u8>, event: JoinEvent)
    requires
        join_awaits(state, event),
    ensures
        join_place(join_follows(state, tlvs, event).state) == join_place(state) + 1,
        join_place(state) < 5 ==> join_follows(state, tlvs, event).next == JoinGo::Call(
            autostart_asks(tlvs)[join_place(state)],
        ),
        join_follows(state, tlvs, event).next is Done <==> join_follows(state, tlvs, event).state
            is Finished,
        join_follows(state, tlvs, event).range == (if join_follows(state, tlvs, event).state
            is Finished {
            Some(true)
        } else {
            None
        }),
{
}

/// The status of a join tells success from failure: zero exactly when each of
/// the four calls after the first returned zero.
pub proof fn law_join_status(tlvs: Seq<u8>, inst: u32, cb: u32, r: u32, r1: u32, r2: u32)
    ensures
        ({
            let callback = join_follows(JoinState::Instance, tlvs, JoinEvent::Returned(inst)).state;
            let dataset = join_follows(callback, tlvs, JoinEvent::Returned(cb)).state;
            let ip6 = join_follows(dataset, tlvs, JoinEvent::Returned(r)).state;
            let enable = join_follows(ip6, tlvs, JoinEvent::Returned(r1)).state;
            let end = join_follows(enable, tlvs, JoinEvent::Returned(r2));
            end.next matches JoinGo::Done(s) && (s == 0 <==> cb == 0 && r == 0 && r1 == 0 && r2
                == 0)
        }),
{
}

} // verus!
