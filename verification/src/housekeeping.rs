//! LED, button and DFU requests, looked after every 20 ms.
//!
//! The LED is a heartbeat normally. In range mode it shows the link: fast blink
//! when detached, a short flash every two seconds when attached without a
//! reply, and on when replies come in, with a short off-pulse for each.

use vstd::prelude::*;

verus! {

/// Seconds for which the button is to be held to ask for DFU.
pub const HOLD_SECS: u64 = 2;

/// What to do with the LED.
#[derive(Clone, Copy, PartialEq, Eq, Structural)]
pub enum Led {
    Keep,
    Toggle,
    On,
    Off,
}

/// What is seen at a tick. Times are in ticks of the clock.
#[derive(Clone, Copy)]
pub struct Seen {
    pub range_mode: bool,
    pub link: u8,
    /// A pulse was asked for; to be looked at when [`wants_pulse`] says so.
    pub pulse: bool,
    /// The button is down.
    pub pressed: bool,
    pub now: u64,
    /// DFU was asked for, from the console or by the host.
    pub dfu: bool,
}

/// What to do at a tick.
#[derive(Clone, Copy)]
pub struct Chores {
    pub led: Led,
    /// The button asks for DFU.
    pub request_dfu: bool,
    /// Turn the LED on, let writes under way finish, and reboot into the
    /// bootloader.
    pub reboot: bool,
}

/// What is kept from tick to tick.
#[derive(Clone, Copy)]
pub struct Housekeeping {
    pub tick: u32,
    /// Ticks of the LED pulse that are left.
    pub pulse: u8,
    /// When the button went down, while it is.
    pub held_since: Option<u64>,
}

/// Whether the LED shows replies.
pub open spec fn shows_replies(range_mode: bool, link: u8) -> bool {
    range_mode && link >= 2
}

/// Whether a request for a pulse is to be taken at this tick.
pub fn wants_pulse(range_mode: bool, link: u8) -> (r: bool)
    ensures
        r == shows_replies(range_mode, link),
{
    range_mode && link >= 2
}

/// The pulse at hand: a new one when asked for.
pub open spec fn pulse_at_hand(pulse: int, asked: bool) -> int {
    if asked {
        4
    } else {
        pulse
    }
}

/// The LED at tick `tick`, with `pulse` ticks of a pulse at hand.
pub open spec fn led_at(range_mode: bool, link: u8, tick: int, pulse: int) -> Led {
    if !range_mode {
        if tick % 25 == 0 {
            Led::Toggle
        } else {
            Led::Keep
        }
    } else if link == 0 {
        if tick % 5 == 0 {
            Led::Toggle
        } else {
            Led::Keep
        }
    } else if link == 1 {
        if tick % 100 < 3 {
            Led::On
        } else {
            Led::Off
        }
    } else if pulse > 0 {
        Led::Off
    } else {
        Led::On
    }
}

/// Since when the button is down.
pub open spec fn held(since: Option<u64>, pressed: bool, now: u64) -> Option<u64> {
    if !pressed {
        None
    } else if since is Some {
        since
    } else {
        Some(now)
    }
}

/// Whether the button has been down for two seconds of a clock with `hz` ticks
/// a second.
pub open spec fn held_long(since: Option<u64>, pressed: bool, now: u64, hz: u64) -> bool {
    pressed && now - held(since, pressed, now)->0 >= HOLD_SECS * hz
}

/// At startup.
pub fn watchdog_housekeeping() -> (r: Housekeeping)
    ensures
        r.tick == 0,
        r.pulse == 0,
        r.held_since is None,
{
    Housekeeping { tick: 0, pulse: 0, held_since: None }
}

impl Housekeeping {
    /// The clock has not gone back since the button went down.
    pub open spec fn in_order(self, now: u64) -> bool {
        self.held_since matches Some(t) ==> t <= now
    }

    /// What is kept after a tick.
    pub open spec fn after(self, seen: Seen) -> Housekeeping {
        let hand = pulse_at_hand(self.pulse as int, seen.pulse);
        Housekeeping {
            tick: if self.tick == u32::MAX {
                0
            } else {
                (self.tick + 1) as u32
            },
            pulse: if !shows_replies(seen.range_mode, seen.link) {
                self.pulse
            } else if hand > 0 {
                (hand - 1) as u8
            } else {
                0
            },
            held_since: held(self.held_since, seen.pressed, seen.now),
        }
    }

    /// What is to be done at a tick, by a clock with `hz` ticks a second.
    pub open spec fn chores(self, seen: Seen, hz: u64) -> Chores {
        let request_dfu = held_long(self.held_since, seen.pressed, seen.now, hz);
        Chores {
            led: led_at(
                seen.range_mode,
                seen.link,
                self.after(seen).tick as int,
                pulse_at_hand(self.pulse as int, seen.pulse),
            ),
            request_dfu,
            reboot: request_dfu || seen.dfu,
        }
    }

    /// Goes through one tick.
    pub fn step(&mut self, seen: &Seen, hz: u64) -> (r: Chores)
        requires
            old(self).in_order(seen.now),
            HOLD_SECS * hz <= u64::MAX,
        ensures
            *final(self) == old(self).after(*seen),
            r == old(self).chores(*seen, hz),
            final(self).in_order(seen.now),
    {
        self.tick = self.tick.wrapping_add(1);
        let led = if !seen.range_mode {
            if self.tick % 25 == 0 {
                Led::Toggle
            } else {
                Led::Keep
            }
        } else {
            match seen.link {
                0 => {
                    if self.tick % 5 == 0 {
                        Led::Toggle
                    } else {
                        Led::Keep
                    }
                },
                1 => {
                    if self.tick % 100 < 3 {
                        Led::On
                    } else {
                        Led::Off
                    }
                },
                _ => {
                    if seen.pulse {
                        self.pulse = 4;
                    }
                    if self.pulse > 0 {
                        self.pulse = self.pulse - 1;
                        Led::Off
                    } else {
                        Led::On
                    }
                },
            }
        };
        let mut request_dfu = false;
        if seen.pressed {
            let since: u64 = match self.held_since {
                Some(t) => t,
                None => seen.now,
            };
            self.held_since = Some(since);
            request_dfu = seen.now - since >= HOLD_SECS * hz;
        } else {
            self.held_since = None;
        }
        Chores { led, request_dfu, reboot: request_dfu || seen.dfu }
    }
}

// ---- laws ----

impl Housekeeping {
    /// What is kept after a run of ticks.
    pub open spec fn after_all(self, run: Seq<Seen>) -> Housekeeping
        decreases run.len(),
    {
        if run.len() == 0 {
            self
        } else {
            self.after_all(run.drop_last()).after(run.last())
        }
    }
}

/// A button that stays down asks for DFU exactly once it has been down for two
/// seconds, counted from the first tick that saw it down.
pub proof fn law_held_button_asks_for_dfu(start: Housekeeping, run: Seq<Seen>, hz: u64)
    requires
        start.held_since is None,
        run.len() > 0,
        forall|i: int| 0 <= i < run.len() ==> (#[trigger] run[i]).pressed,
    ensures
        start.after_all(run).held_since == Some(run[0].now),
        start.after_all(run.drop_last()).chores(run.last(), hz).request_dfu <==> run.last().now
            - run[0].now >= 2 * hz,
    decreases run.len(),
{
    let before = run.drop_last();
    if run.len() == 1 {
        assert(before.len() == 0);
    } else {
        assert(forall|i: int| 0 <= i < before.len() ==> #[trigger] before[i] == run[i]);
        law_held_button_asks_for_dfu(start, before, hz);
    }
}

/// A button that is let go starts over, and an idle board without a request
/// never reboots.
pub proof fn law_released_button_asks_for_nothing(h: Housekeeping, seen: Seen, hz: u64)
    requires
        !seen.pressed,
    ensures
        h.after(seen).held_since is None,
        !h.chores(seen, hz).request_dfu,
        h.chores(seen, hz).reboot <==> seen.dfu,
{
}

/// A reply turns the LED off for four ticks, the one that sees it included,
/// and then it is on again, as long as replies are shown and no other comes.
pub proof fn law_pulse_lasts_four_ticks(start: Housekeeping, run: Seq<Seen>, hz: u64)
    requires
        run.len() > 0,
        run[0].pulse,
        forall|i: int| 1 <= i < run.len() ==> !(#[trigger] run[i]).pulse,
        forall|i: int|
            0 <= i < run.len() ==> shows_replies(
                (#[trigger] run[i]).range_mode,
                run[i].link,
            ),
    ensures
        start.after_all(run).pulse == (if run.len() < 4 {
            4 - run.len()
        } else {
            0
        }),
        start.after_all(run.drop_last()).chores(run.last(), hz).led == (if run.len() <= 4 {
            Led::Off
        } else {
            Led::On
        }),
    decreases run.len(),
{
    let before = run.drop_last();
    if run.len() == 1 {
        assert(before.len() == 0);
        assert(run.last() == run[0]);
    } else {
        assert(forall|i: int| 0 <= i < before.len() ==> #[trigger] before[i] == run[i]);
        assert(!run[run.len() - 1].pulse);
        law_pulse_lasts_four_ticks(start, before, hz);
    }
}

/// How often the LED changes: every 25 ticks (half a second) as a heartbeat,
/// every 5 (a tenth) when detached; and when attached without a reply it is on
/// for 3 ticks of every 100 (two seconds).
pub proof fn law_blink_rates(h: Housekeeping, seen: Seen, hz: u64)
    ensures
        !seen.range_mode ==> (h.chores(seen, hz).led is Toggle <==> h.after(seen).tick % 25 == 0),
        seen.range_mode && seen.link == 0 ==> (h.chores(seen, hz).led is Toggle <==> h.after(
            seen,
        ).tick % 5 == 0),
        seen.range_mode && seen.link == 1 ==> (h.chores(seen, hz).led is On <==> h.after(
            seen,
        ).tick % 100 < 3) && (h.chores(seen, hz).led is Off <==> h.after(seen).tick % 100 >= 3),
{
}

/// Between the ticks that change it the LED is left alone; with replies shown and
/// no pulse under way it is on; a pulse that is under way is kept while replies
/// are not shown; and ticks are counted one by one, around at the end.
pub proof fn law_led_between_changes(h: Housekeeping, seen: Seen, hz: u64)
    ensures
        !seen.range_mode && h.after(seen).tick % 25 != 0 ==> h.chores(seen, hz).led is Keep,
        seen.range_mode && seen.link == 0 && h.after(seen).tick % 5 != 0 ==> h.chores(
            seen,
            hz,
        ).led is Keep,
        seen.range_mode && seen.link >= 2 && h.pulse == 0 && !seen.pulse ==> h.chores(
            seen,
            hz,
        ).led is On && h.after(seen).pulse == 0,
        seen.range_mode && seen.link >= 2 && (h.pulse > 0 || seen.pulse) ==> h.chores(
            seen,
            hz,
        ).led is Off,
        seen.range_mode && seen.link >= 2 && h.pulse > 0 && !seen.pulse ==> h.after(seen).pulse
            == h.pulse - 1,
        !(seen.range_mode && seen.link >= 2) ==> h.after(seen).pulse == h.pulse,
        (h.after(seen).tick - h.tick - 1) % 0x1_0000_0000 == 0,
        h.chores(seen, hz).reboot <==> seen.dfu || h.chores(seen, hz).request_dfu,
        h.chores(seen, hz).request_dfu ==> seen.pressed,
{
}

} // verus!
