//! CPU2 (wireless coprocessor) control from the console.
//!
//! - `wpan info`: what runs on CPU2 (FUS or a wireless stack) and versions.
//! - `wpan snapshot | sem5 [lock | release] | clk48 [fix] | reinit`: debugging.
//! - `fus state | upgrade [src] [dst] | start | delete`: FUS commands, used
//!   to install the CPU2 firmware. The image itself is written into flash by
//!   the host over DFU beforehand (`dfu-util -s <install address>`).
//! - `thread init`: start the Thread stack after CPU2 reports it running.
//! - `ot ...`: see [`ot_command`](crate::ot_command).

use vstd::prelude::*;
use crate::config::Config;
use crate::config::find_prefix;
use crate::dfu::BUSY_MAGIC;
use crate::dfu::fus_busy;
use crate::dfu::is_fus_busy;
use crate::text::Say;
use crate::text::digit;
use crate::text::digits;
use crate::words::Parts;
use crate::words::Sep;
use crate::words::is_word;
use crate::words::law_number_read_back;
use crate::words::law_words;
use crate::words::lemma_digits_plain;
use crate::words::lemma_next_word;
use crate::words::lemma_no_runs;
use crate::words::parse_unsigned;
use crate::words::solid;
use crate::words::unsigned;
use crate::words::value;
use crate::words::word;
use crate::words::words;
use crate::wpan_lines::law_stack_names;
use crate::wpan_text::FUS_TABLE_KEYWORD;
use crate::wpan_text::cpu2_ready_line;
use crate::wpan_text::cpu2_ready_text;
use crate::wpan_text::delete_line;
use crate::wpan_text::delete_text;
use crate::wpan_text::fus_state_line;
use crate::wpan_text::fus_state_text;
use crate::wpan_text::locked_line;
use crate::wpan_text::locked_text;
use crate::wpan_text::ready_line;
use crate::wpan_text::ready_text;
use crate::wpan_text::reinit_line;
use crate::wpan_text::reinit_text;
use crate::wpan_text::stack_text;
use crate::wpan_text::start_line;
use crate::wpan_text::start_text;
use crate::wpan_text::thread_init_line;
use crate::wpan_text::thread_init_text;
use crate::wpan_text::upgrade_line;
use crate::wpan_text::upgrade_text;
use crate::wpan_text::upgrading_line;
use crate::wpan_text::upgrading_text;

verus! {

// ---- lines ----

/// A line handed from the console to the CPU2 task.
pub type Line = heapless::String<512>;

/// Whether a line belongs to this module, by its first word.
pub open spec fn owned(s: Seq<char>) -> bool {
    let w = word(s, 0);
    w == Some("wpan"@) || w == Some("fus"@) || w == Some("thread"@) || w == Some("ot"@)
}

/// True for console lines that belong to this module.
pub fn owns(line: &str) -> (r: bool)
    ensures
        r == owned(line@),
{
    let mut words = Parts::words(line);
    let w = words.next();
    is_word(w, "wpan") || is_word(w, "fus") || is_word(w, "thread") || is_word(w, "ot")
}

/// The number that an optional word spells in hexadecimal, with or without
/// `0x` in front; zero if there is none or it is no number of 32 bits.
pub open spec fn hex_arg(w: Option<Seq<char>>) -> u32 {
    match w {
        Some(s) => {
            let body = if s.len() >= 2 && s[0] == '0' && (s[1] == 'x' || s[1] == 'X') {
                s.skip(2)
            } else {
                s
            };
            match unsigned(body, 16, 0xFFFF_FFFF) {
                Some(v) => v as u32,
                None => 0,
            }
        },
        None => 0,
    }
}

pub fn parse_hex(s: Option<&str>) -> (r: u32)
    ensures
        r == hex_arg(
            match s {
                Some(s) => Some(s@),
                None => None,
            },
        ),
{
    match s {
        Some(s) => {
            let n: usize = s.unicode_len();
            let body = if n >= 2 && s.get_char(0) == '0' && (s.get_char(1) == 'x' || s.get_char(
                1,
            ) == 'X') {
                s.substring_char(2, n)
            } else {
                s
            };
            assert(s@.skip(2) =~= s@.subrange(2, n as int) || n < 2);
            match parse_unsigned(body, 16, 0xFFFF_FFFF) {
                Some(v) => v as u32,
                None => 0,
            }
        },
        None => 0,
    }
}

/// What to do with the semaphore of the 48 MHz clock.
#[derive(Clone, Copy, PartialEq, Eq, Structural)]
pub enum Sem5 {
    Release,
    Lock,
    Keep,
}

/// A parsed line.
#[derive(Clone, Copy, PartialEq, Eq, Structural)]
pub enum WpanCommand {
    Snapshot,
    Sem5(Sem5),
    Clk48 { fix: bool },
    Reinit,
    Info,
    FusState,
    FusUpgrade { src: u32, dst: u32 },
    FusStart,
    FusDelete,
    ThreadInit,
    /// An `ot` command.
    Ot,
    Unknown,
}

/// The command on a line.
pub open spec fn wpan_command(s: Seq<char>) -> WpanCommand {
    let first = word(s, 0);
    let second = word(s, 1);
    if first == Some("wpan"@) {
        if second == Some("snapshot"@) {
            WpanCommand::Snapshot
        } else if second == Some("sem5"@) {
            WpanCommand::Sem5(
                if word(s, 2) == Some("release"@) {
                    Sem5::Release
                } else if word(s, 2) == Some("lock"@) {
                    Sem5::Lock
                } else {
                    Sem5::Keep
                },
            )
        } else if second == Some("clk48"@) {
            WpanCommand::Clk48 { fix: word(s, 2) == Some("fix"@) }
        } else if second == Some("reinit"@) {
            WpanCommand::Reinit
        } else {
            WpanCommand::Info
        }
    } else if first == Some("fus"@) && second == Some("state"@) {
        WpanCommand::FusState
    } else if first == Some("fus"@) && second == Some("upgrade"@) {
        WpanCommand::FusUpgrade { src: hex_arg(word(s, 2)), dst: hex_arg(word(s, 3)) }
    } else if first == Some("fus"@) && second == Some("start"@) {
        WpanCommand::FusStart
    } else if first == Some("fus"@) && second == Some("delete"@) {
        WpanCommand::FusDelete
    } else if first == Some("thread"@) && second == Some("init"@) {
        WpanCommand::ThreadInit
    } else if first == Some("ot"@) {
        WpanCommand::Ot
    } else {
        WpanCommand::Unknown
    }
}

proof fn lemma_first_words_differ()
    ensures
        "wpan"@ != "fus"@,
        "wpan"@ != "thread"@,
        "wpan"@ != "ot"@,
        "fus"@ != "thread"@,
        "fus"@ != "ot"@,
        "thread"@ != "ot"@,
{
    reveal_strlit("wpan");
    reveal_strlit("fus");
    reveal_strlit("thread");
    reveal_strlit("ot");
    assert("wpan"@.len() == 4 && "fus"@.len() == 3 && "thread"@.len() == 6 && "ot"@.len() == 2);
}

/// Reads the command on a line.
pub fn parse_line(line: &str) -> (r: WpanCommand)
    ensures
        r == wpan_command(line@),
{
    let mut words = Parts::words(line);
    let first = words.next();
    let second = words.next();
    let third = words.next();
    let fourth = words.next();
    proof {
        lemma_first_words_differ();
    }
    if is_word(first, "wpan") {
        if is_word(second, "snapshot") {
            WpanCommand::Snapshot
        } else if is_word(second, "sem5") {
            if is_word(third, "release") {
                WpanCommand::Sem5(Sem5::Release)
            } else if is_word(third, "lock") {
                WpanCommand::Sem5(Sem5::Lock)
            } else {
                WpanCommand::Sem5(Sem5::Keep)
            }
        } else if is_word(second, "clk48") {
            WpanCommand::Clk48 { fix: is_word(third, "fix") }
        } else if is_word(second, "reinit") {
            WpanCommand::Reinit
        } else {
            WpanCommand::Info
        }
    } else if is_word(first, "fus") {
        if is_word(second, "state") {
            WpanCommand::FusState
        } else if is_word(second, "upgrade") {
            let src = parse_hex(third);
            let dst = parse_hex(fourth);
            WpanCommand::FusUpgrade { src, dst }
        } else if is_word(second, "start") {
            WpanCommand::FusStart
        } else if is_word(second, "delete") {
            WpanCommand::FusDelete
        } else {
            WpanCommand::Unknown
        }
    } else if is_word(first, "thread") && is_word(second, "init") {
        WpanCommand::ThreadInit
    } else if is_word(first, "ot") {
        WpanCommand::Ot
    } else {
        WpanCommand::Unknown
    }
}

// ---- commands ----

/// How a command starts: print, then mark whether a CPU2 firmware operation is
/// in progress, then carry the command out.
pub struct WpanStep {
    pub say: Say,
    /// The word to store as the busy marker, if it changes.
    pub mark: Option<u32>,
}

/// What is printed before a command is carried out.
pub open spec fn begin_says(cmd: WpanCommand) -> Seq<Seq<char>> {
    match cmd {
        WpanCommand::FusUpgrade { src, dst } => seq![upgrading_text(src, dst)],
        WpanCommand::Unknown => seq!["wpan: unknown command\r\n"@],
        _ => Seq::empty(),
    }
}

/// Whether a command starts a CPU2 firmware operation.
pub open spec fn hands_over(cmd: WpanCommand) -> bool {
    cmd is FusUpgrade || cmd is FusStart || cmd is FusDelete
}

/// The busy marker from a command on, where it changes.
pub open spec fn begin_mark(cmd: WpanCommand) -> Option<u32> {
    if hands_over(cmd) {
        Some(BUSY_MAGIC)
    } else {
        None
    }
}

/// Starts a command.
pub fn begin(cmd: WpanCommand) -> (r: WpanStep)
    ensures
        r.say@ == begin_says(cmd),
        r.mark == begin_mark(cmd),
{
    match cmd {
        WpanCommand::FusUpgrade { src, dst } => WpanStep {
            say: Say::Line(upgrading_line(src, dst)),
            mark: Some(fus_busy(true)),
        },
        WpanCommand::FusStart | WpanCommand::FusDelete => WpanStep {
            say: Say::Nothing,
            mark: Some(fus_busy(true)),
        },
        WpanCommand::Unknown => WpanStep {
            say: Say::Fixed("wpan: unknown command\r\n"),
            mark: None,
        },
        _ => WpanStep { say: Say::Nothing, mark: None },
    }
}

/// What is printed of the outcome of a system command.
pub open spec fn end_says(cmd: WpanCommand, outcome: Seq<char>) -> Seq<Seq<char>> {
    match cmd {
        WpanCommand::FusUpgrade { .. } => seq![upgrade_text(outcome)],
        WpanCommand::FusStart => seq![start_text(outcome)],
        WpanCommand::FusDelete => seq![delete_text(outcome)],
        WpanCommand::ThreadInit => seq![thread_init_text(outcome)],
        _ => Seq::empty(),
    }
}

/// Reports the outcome of a system command.
pub fn end(cmd: WpanCommand, outcome: &str) -> (r: Say)
    ensures
        r@ == end_says(cmd, outcome@),
{
    match cmd {
        WpanCommand::FusUpgrade { .. } => Say::Line(upgrade_line(outcome)),
        WpanCommand::FusStart => Say::Line(start_line(outcome)),
        WpanCommand::FusDelete => Say::Line(delete_line(outcome)),
        WpanCommand::ThreadInit => Say::Line(thread_init_line(outcome)),
        _ => Say::Nothing,
    }
}

/// Whether the state of FUS means that the operation marked is over.
pub open spec fn over(state: u8, marker: u32) -> bool {
    state == 0 && marker == BUSY_MAGIC
}

/// The busy marker after a report, where it changes.
pub open spec fn report_mark(state: u8, marker: u32) -> Option<u32> {
    if over(state, marker) {
        Some(0)
    } else {
        None
    }
}

/// Reports the state of FUS. When it is idle, a busy marker is cleared.
pub fn fus_reported(state: u8, err: u8, marker: u32) -> (r: WpanStep)
    ensures
        r.say@ == (if over(state, marker) {
            seq![fus_state_text(state, err), "fus: idle, busy marker cleared\r\n"@]
        } else {
            seq![fus_state_text(state, err)]
        }),
        r.mark == report_mark(state, marker),
{
    let l = fus_state_line(state, err);
    if state == 0x00 && is_fus_busy(marker) {
        WpanStep {
            say: Say::Then(l, "fus: idle, busy marker cleared\r\n"),
            mark: Some(fus_busy(false)),
        }
    } else {
        WpanStep { say: Say::Line(l), mark: None }
    }
}

// ---- bring-up ----

/// The ready event as one byte: 0 wireless firmware, 1 FUS, 0xFE unknown
/// value, 0xFF none.
pub open spec fn ready_byte(ready: Option<Result<u8, ()>>) -> u8 {
    match ready {
        None => 0xFF,
        Some(Err(_)) => 0xFE,
        Some(Ok(r)) => r,
    }
}

pub fn ready_code(ready: Option<Result<u8, ()>>) -> (r: u8)
    ensures
        r == ready_byte(ready),
{
    match ready {
        None => 0xFF,
        Some(Err(_)) => 0xFE,
        Some(Ok(r)) => r,
    }
}

/// Where the bring-up of CPU2 is.
#[derive(Clone, Copy, PartialEq, Eq, Structural)]
pub enum Cpu2Stage {
    /// Locking the semaphore of the 48 MHz clock.
    Locking,
    /// CPU2 boots. It sends its ready event once. A reset of CPU1 alone leaves
    /// it running, so this does not last forever.
    Booting,
    /// Asking a running CPU2 to start over, at boot or by command.
    Asking { boot: bool },
    /// Waiting for it to have started over.
    Restarting { boot: bool },
    /// The ready event of boot has been seen, or not.
    Settling,
    /// Over.
    Running,
}

/// What to do next in the bring-up.
#[derive(Clone, Copy, PartialEq, Eq, Structural)]
pub enum Cpu2Next {
    /// Boot CPU2 and wait at most this many seconds for its ready event.
    Boot(u64),
    /// Ask CPU2 to start over (REINIT), then send it an event (SEV).
    Reinit,
    /// Wait at most this many seconds for the ready event.
    WaitReady(u64),
    /// Hand in the last ready event again.
    Settle,
    Done,
}

/// What came of it.
pub enum Cpu2Event<'a> {
    /// Whether the semaphore was locked.
    Locked(bool),
    /// The ready event or its absence, and how it is printed.
    Ready(Option<Result<u8, ()>>, &'a str),
    /// The outcome of asking CPU2 to start over, as printed.
    Asked(&'a str),
}

/// One step of the bring-up.
pub struct Cpu2Step {
    pub stage: Cpu2Stage,
    /// The new state of the CPU2 task: 1 booting, 2 running.
    pub state: Option<u8>,
    /// The new ready byte.
    pub ready: Option<u8>,
    pub say: Say,
    pub next: Cpu2Next,
}

/// The contents of [`Cpu2Step`].
pub ghost struct Cpu2Turn {
    pub stage: Cpu2Stage,
    pub state: Option<u8>,
    pub ready: Option<u8>,
    pub says: Seq<Seq<char>>,
    pub next: Cpu2Next,
}

impl View for Cpu2Step {
    type V = Cpu2Turn;

    open spec fn view(&self) -> Cpu2Turn {
        Cpu2Turn {
            stage: self.stage,
            state: self.state,
            ready: self.ready,
            says: self.say@,
            next: self.next,
        }
    }
}

/// Whether an event is what a stage waits for.
pub open spec fn cpu2_awaits(stage: Cpu2Stage, event: Cpu2Event) -> bool {
    match stage {
        Cpu2Stage::Locking => event is Locked,
        Cpu2Stage::Booting | Cpu2Stage::Restarting { .. } | Cpu2Stage::Settling => event is Ready,
        Cpu2Stage::Asking { .. } => event is Asked,
        Cpu2Stage::Running => false,
    }
}

/// The end of the bring-up: the task runs and the ready event is reported.
pub open spec fn settled(ready: Option<Result<u8, ()>>, text: Seq<char>) -> Cpu2Turn {
    Cpu2Turn {
        stage: Cpu2Stage::Running,
        state: Some(2),
        ready: Some(ready_byte(ready)),
        says: seq![cpu2_ready_text(text)],
        next: Cpu2Next::Done,
    }
}

/// The step that follows an event.
pub open spec fn cpu2_follows(stage: Cpu2Stage, event: Cpu2Event) -> Cpu2Turn {
    match event {
        Cpu2Event::Locked(sem) => Cpu2Turn {
            stage: Cpu2Stage::Booting,
            state: Some(1),
            ready: None,
            says: seq![locked_text(sem), "wpan: booting CPU2\r\n"@],
            next: Cpu2Next::Boot(2),
        },
        Cpu2Event::Ready(ready, text) => match stage {
            Cpu2Stage::Restarting { boot } => Cpu2Turn {
                stage: if boot {
                    Cpu2Stage::Settling
                } else {
                    Cpu2Stage::Running
                },
                state: None,
                ready: Some(ready_byte(ready)),
                says: seq![ready_text(text@)],
                next: if boot {
                    Cpu2Next::Settle
                } else {
                    Cpu2Next::Done
                },
            },
            Cpu2Stage::Booting => if ready is None {
                Cpu2Turn {
                    stage: Cpu2Stage::Asking { boot: true },
                    state: None,
                    ready: None,
                    says: seq!["wpan: no ready event, "@],
                    next: Cpu2Next::Reinit,
                }
            } else {
                settled(ready, text@)
            },
            _ => settled(ready, text@),
        },
        Cpu2Event::Asked(outcome) => Cpu2Turn {
            stage: Cpu2Stage::Restarting {
                boot: match stage {
                    Cpu2Stage::Asking { boot } => boot,
                    _ => false,
                },
            },
            state: None,
            ready: None,
            says: seq![reinit_text(outcome@)],
            next: Cpu2Next::WaitReady(3),
        },
    }
}

/// The bring-up of CPU2, from the start.
pub fn wpan_task() -> (r: Cpu2Stage)
    ensures
        r == Cpu2Stage::Locking,
{
    Cpu2Stage::Locking
}

/// "Fake a C2BOOT when it has already been set" (ST's words): REINIT followed
/// by a SEV instruction makes CPU2 restart its firmware, re-read the reference
/// table and send its ready event again. The first thing to do is to ask.
pub fn reinit() -> (r: Cpu2Stage)
    ensures
        r == (Cpu2Stage::Asking { boot: false }),
{
    Cpu2Stage::Asking { boot: false }
}

fn settle(ready: Option<Result<u8, ()>>, text: &str) -> (r: Cpu2Step)
    ensures
        r@ == settled(ready, text@),
{
    Cpu2Step {
        stage: Cpu2Stage::Running,
        state: Some(2),
        ready: Some(ready_code(ready)),
        say: Say::Line(cpu2_ready_line(text)),
        next: Cpu2Next::Done,
    }
}

impl Cpu2Stage {
    /// The step that follows what the last one asked for.
    pub fn step(self, event: Cpu2Event) -> (r: Cpu2Step)
        requires
            cpu2_awaits(self, event),
        ensures
            r@ == cpu2_follows(self, event),
    {
        match event {
            Cpu2Event::Locked(sem) => Cpu2Step {
                stage: Cpu2Stage::Booting,
                state: Some(1),
                ready: None,
                say: Say::Then(locked_line(sem), "wpan: booting CPU2\r\n"),
                next: Cpu2Next::Boot(2),
            },
            Cpu2Event::Ready(ready, text) => match self {
                Cpu2Stage::Restarting { boot } => Cpu2Step {
                    stage: if boot {
                        Cpu2Stage::Settling
                    } else {
                        Cpu2Stage::Running
                    },
                    state: None,
                    ready: Some(ready_code(ready)),
                    say: Say::Line(ready_line(text)),
                    next: if boot {
                        Cpu2Next::Settle
                    } else {
                        Cpu2Next::Done
                    },
                },
                Cpu2Stage::Booting => if ready.is_none() {
                    Cpu2Step {
                        stage: Cpu2Stage::Asking { boot: true },
                        state: None,
                        ready: None,
                        say: Say::Fixed("wpan: no ready event, "),
                        next: Cpu2Next::Reinit,
                    }
                } else {
                    settle(ready, text)
                },
                _ => settle(ready, text),
            },
            Cpu2Event::Asked(outcome) => {
                let boot = match self {
                    Cpu2Stage::Asking { boot } => boot,
                    _ => false,
                };
                Cpu2Step {
                    stage: Cpu2Stage::Restarting { boot },
                    state: None,
                    ready: None,
                    say: Say::Line(reinit_line(outcome)),
                    next: Cpu2Next::WaitReady(3),
                }
            },
        }
    }
}

/// Whether an info word names a Thread stack, FTD or MTD. BLE and Thread in one
/// is another stack: it is not started by the Thread command alone.
pub open spec fn is_thread(info: u32) -> bool {
    info % 0x100 == 0x10 || info % 0x100 == 0x11
}

/// True when CPU2 reports a running Thread stack (not FUS, not another stack):
/// `first` is the first word of the device info table, `info` the info word of
/// the wireless firmware, if it reports itself.
pub fn thread_stack_running(first: u32, info: Option<u32>) -> (r: bool)
    ensures
        r == (first != FUS_TABLE_KEYWORD && info is Some && is_thread(info->0)),
{
    first != FUS_TABLE_KEYWORD && match info {
        Some(i) => i % 0x100 == 0x10 || i % 0x100 == 0x11,
        None => false,
    }
}

/// What to do with the stored configuration at boot.
pub struct BootPlan {
    /// The mesh-local prefix to probe.
    pub prefix: Option<[u8; 8]>,
    /// The keep-alive load of the relay.
    pub relay: Option<bool>,
    /// Join the network now, then turn range mode on.
    pub join: bool,
}

/// The contents of [`BootPlan`].
pub ghost struct Plan {
    pub prefix: Option<Seq<u8>>,
    pub relay: Option<bool>,
    pub join: bool,
}

impl View for BootPlan {
    type V = Plan;

    open spec fn view(&self) -> Plan {
        Plan {
            prefix: match self.prefix {
                Some(p) => Some(p@),
                None => None,
            },
            relay: self.relay,
            join: self.join,
        }
    }
}

/// What the stored configuration means at boot.
pub open spec fn plan_of(cfg: Option<Config>, thread_running: bool) -> Plan {
    match cfg {
        Some(c) => Plan {
            prefix: find_prefix(c.used()),
            relay: Some(c.flags / 2 % 2 == 1),
            join: c.flags % 2 == 1 && thread_running,
        },
        None => Plan { prefix: None, relay: None, join: false },
    }
}

/// A stored dataset with the autostart flag, and a Thread stack on CPU2, means
/// join the network now and run the range probe.
pub fn boot_plan(cfg: &Option<Config>, thread_running: bool) -> (r: BootPlan)
    ensures
        r@ == plan_of(*cfg, thread_running),
        r.prefix is Some <==> *cfg is Some && find_prefix(cfg->0.used()) is Some,
        r.prefix matches Some(p) ==> Some(p@) == find_prefix(cfg->0.used()),
        r.relay == (match *cfg {
            Some(c) => Some(c.flags / 2 % 2 == 1),
            None => None,
        }),
        r.join == (*cfg is Some && cfg->0.flags % 2 == 1 && thread_running),
{
    match cfg {
        Some(c) => BootPlan {
            prefix: c.mesh_local_prefix(),
            relay: Some(c.keepalive()),
            join: c.autostart() && thread_running,
        },
        None => BootPlan { prefix: None, relay: None, join: false },
    }
}

// ---- laws ----

/// The board joins exactly when a configuration is stored, its autostart flag is
/// set, and a Thread stack runs; the relay follows the keep-alive flag; without a
/// configuration nothing happens.
pub proof fn law_boot_plan(c: Config, running: bool)
    ensures
        plan_of(Some(c), running).join <==> c.flags & 1 != 0 && running,
        plan_of(Some(c), running).relay == Some(c.flags & 2 != 0),
        plan_of(Some(c), running).prefix == find_prefix(c.used()),
        plan_of(None, running) == (Plan { prefix: None, relay: None, join: false }),
{
    let f = c.flags;
    assert((f & 1u32 != 0) == (f % 2 == 1) && (f & 2u32 != 0) == (f / 2 % 2 == 1)) by (bit_vector);
}

/// A Thread stack is one that is told as such.
pub proof fn law_thread_stacks_are_named(info: u32)
    ensures
        is_thread(info) <==> stack_text(info) == "Thread FTD"@ || stack_text(info)
            == "Thread MTD"@,
{
    law_stack_names(info, info);
}

/// A hexadecimal argument is read as it is written, with and without `0x` or `0X`
/// in front; what is no number of 32 bits counts as zero.
pub proof fn law_hex_argument(v: u32, big: nat)
    requires
        0xFFFF_FFFF < big,
    ensures
        hex_arg(Some(digits(v as nat, 16))) == v,
        hex_arg(Some(seq!['0', 'x'] + digits(v as nat, 16))) == v,
        hex_arg(Some(seq!['0', 'X'] + digits(v as nat, 16))) == v,
        hex_arg(Some(digits(big, 16))) == 0,
        hex_arg(Some(seq!['0', 'x'] + digits(big, 16))) == 0,
        hex_arg(Some(Seq::empty())) == 0,
        hex_arg(None) == 0,
{
    let d = digits(v as nat, 16);
    let e = digits(big, 16);
    law_number_read_back(v as nat, 16, 0xFFFF_FFFF);
    law_number_read_back(big, 16, big);
    lemma_digits_plain(v as nat, 16);
    lemma_digits_plain(big, 16);
    assert(d[0] != '+' && e[0] != '+');
    lemma_no_x(v as nat);
    lemma_no_x(big);
    assert((seq!['0', 'x'] + d).skip(2) =~= d);
    assert((seq!['0', 'X'] + d).skip(2) =~= d);
    assert((seq!['0', 'x'] + e).skip(2) =~= e);
    assert(value(Seq::<char>::empty(), 16) == Some(0nat));
}

/// No digit is an `x`.
proof fn lemma_no_x(v: nat)
    ensures
        forall|i: int|
            0 <= i < digits(v, 16).len() ==> #[trigger] digits(v, 16)[i] != 'x' && digits(v, 16)[i]
                != 'X',
    decreases v,
{
    let d = digits(v, 16);
    if v >= 16 {
        lemma_no_x(v / 16);
        let e = digits(v / 16, 16);
        assert(d == e.push(digit((v % 16) as int)));
        assert forall|i: int| 0 <= i < d.len() implies #[trigger] d[i] != 'x' && d[i] != 'X' by {
            if i < e.len() {
                assert(d[i] == e[i]);
            }
        }
    } else {
        assert(d =~= seq![digit(v as int)]);
    }
}

/// A `fus` line with three words behind it.
pub open spec fn fus_line(w: Seq<char>, a: Seq<char>, b: Seq<char>) -> Seq<char> {
    "fus"@ + (seq![' '] + w + (seq![' '] + a + (seq![' '] + b + Seq::empty())))
}

proof fn lemma_fus_words(w: Seq<char>, a: Seq<char>, b: Seq<char>)
    requires
        w.len() > 0 && a.len() > 0 && b.len() > 0,
        solid(w) && solid(a) && solid(b),
    ensures
        word(fus_line(w, a, b), 0) == Some("fus"@),
        word(fus_line(w, a, b), 1) == Some(w),
        word(fus_line(w, a, b), 2) == Some(a),
        word(fus_line(w, a, b), 3) == Some(b),
{
    let none = Seq::<char>::empty();
    let fourth = seq![' '] + b + none;
    let third = seq![' '] + a + fourth;
    let second = seq![' '] + w + third;
    assert(words(fourth) == seq![b]) by {
        lemma_no_runs(Sep::White);
        lemma_next_word(b, none);
        assert(seq![b] + Seq::<Seq<char>>::empty() =~= seq![b]);
    }
    assert(words(third) == seq![a, b]) by {
        lemma_next_word(a, fourth);
        assert(seq![a] + seq![b] =~= seq![a, b]);
    }
    assert(words(second) == seq![w, a, b]) by {
        lemma_next_word(w, third);
        assert(seq![w] + seq![a, b] =~= seq![w, a, b]);
    }
    assert(words(fus_line(w, a, b)) == seq!["fus"@, w, a, b]) by {
        reveal_strlit("fus");
        assert("fus"@.len() == 3);
        assert(solid("fus"@));
        law_words(none, "fus"@, second);
        assert(none + "fus"@ + second =~= fus_line(w, a, b));
        assert(seq!["fus"@] + seq![w, a, b] =~= seq!["fus"@, w, a, b]);
    }
}

/// `fus upgrade` takes the two addresses as they are written, the source first.
pub proof fn law_upgrade_arguments(src: u32, dst: u32)
    ensures
        wpan_command(fus_line("upgrade"@, digits(src as nat, 16), digits(dst as nat, 16))) == (
        WpanCommand::FusUpgrade { src, dst }),
{
    reveal_strlit("upgrade");
    reveal_strlit("state");
    lemma_digits_plain(src as nat, 16);
    lemma_digits_plain(dst as nat, 16);
    lemma_first_words_differ();
    assert("upgrade"@.len() == 7 && "state"@.len() == 5);
    assert(solid("upgrade"@));
    lemma_fus_words("upgrade"@, digits(src as nat, 16), digits(dst as nat, 16));
    law_hex_argument(src, 0x1_0000_0000);
    law_hex_argument(dst, 0x1_0000_0000);
}

/// A ready event is told by its own value, an unknown one by 0xFE, and none by
/// 0xFF.
pub proof fn law_ready_byte(v: u8)
    ensures
        ready_byte(Some(Ok(v))) == v,
        ready_byte(Some(Err(()))) == 0xFE,
        ready_byte(None) == 0xFF,
{
}

/// The bring-up in order: whatever the semaphore, CPU2 is booted and given two
/// seconds; when it says nothing it is asked to start over and given three; a
/// restart by command ends there, and at boot the event is then reported.
pub proof fn law_bring_up_in_order(
    sem: bool,
    ready: Option<Result<u8, ()>>,
    text: &str,
    outcome: &str,
    boot: bool,
)
    ensures
        cpu2_follows(Cpu2Stage::Locking, Cpu2Event::Locked(sem)).next == Cpu2Next::Boot(2),
        cpu2_follows(Cpu2Stage::Locking, Cpu2Event::Locked(sem)).state == Some(1u8),
        ready is None ==> cpu2_follows(Cpu2Stage::Booting, Cpu2Event::Ready(ready, text)).next
            == Cpu2Next::Reinit,
        ready is Some ==> cpu2_follows(Cpu2Stage::Booting, Cpu2Event::Ready(ready, text)).next
            == Cpu2Next::Done,
        cpu2_follows(Cpu2Stage::Asking { boot }, Cpu2Event::Asked(outcome)).next
            == Cpu2Next::WaitReady(3),
        cpu2_follows(Cpu2Stage::Asking { boot }, Cpu2Event::Asked(outcome)).stage
            == (Cpu2Stage::Restarting { boot }),
        cpu2_follows(Cpu2Stage::Restarting { boot }, Cpu2Event::Ready(ready, text)).next == (
        if boot {
            Cpu2Next::Settle
        } else {
            Cpu2Next::Done
        }),
        cpu2_follows(Cpu2Stage::Restarting { boot }, Cpu2Event::Ready(ready, text)).ready == Some(
            ready_byte(ready),
        ),
        cpu2_follows(Cpu2Stage::Settling, Cpu2Event::Ready(ready, text)).next == Cpu2Next::Done,
        cpu2_follows(Cpu2Stage::Settling, Cpu2Event::Ready(ready, text)).state == Some(2u8),
        cpu2_follows(Cpu2Stage::Locking, Cpu2Event::Locked(sem)).says == seq![
            locked_text(sem),
            "wpan: booting CPU2\r\n"@,
        ],
        ready is None ==> cpu2_follows(Cpu2Stage::Booting, Cpu2Event::Ready(ready, text)).says
            == seq!["wpan: no ready event, "@],
        ready is Some ==> cpu2_follows(Cpu2Stage::Booting, Cpu2Event::Ready(ready, text)).says
            == seq![cpu2_ready_text(text@)],
        cpu2_follows(Cpu2Stage::Asking { boot }, Cpu2Event::Asked(outcome)).says == seq![
            reinit_text(outcome@),
        ],
        cpu2_follows(Cpu2Stage::Restarting { boot }, Cpu2Event::Ready(ready, text)).says == seq![
            ready_text(text@),
        ],
        cpu2_follows(Cpu2Stage::Settling, Cpu2Event::Ready(ready, text)).says == seq![
            cpu2_ready_text(text@),
        ],
        cpu2_follows(Cpu2Stage::Settling, Cpu2Event::Ready(ready, text)).ready == Some(
            ready_byte(ready),
        ),
{
}

/// The outcome of a system command is reported under the name of that command,
/// and `fus state` clears the busy marker exactly when FUS is idle.
pub proof fn law_outcomes_are_reported(
    src: u32,
    dst: u32,
    outcome: Seq<char>,
    state: u8,
    marker: u32,
)
    ensures
        end_says(WpanCommand::FusUpgrade { src, dst }, outcome) == seq![upgrade_text(outcome)],
        end_says(WpanCommand::FusStart, outcome) == seq![start_text(outcome)],
        end_says(WpanCommand::FusDelete, outcome) == seq![delete_text(outcome)],
        end_says(WpanCommand::ThreadInit, outcome) == seq![thread_init_text(outcome)],
        begin_says(WpanCommand::FusUpgrade { src, dst }) == seq![upgrading_text(src, dst)],
        begin_says(WpanCommand::FusStart).len() == 0,
        begin_says(WpanCommand::FusDelete).len() == 0,
        begin_says(WpanCommand::ThreadInit).len() == 0,
        begin_says(WpanCommand::Unknown) == seq!["wpan: unknown command\r\n"@],
        begin_mark(WpanCommand::FusUpgrade { src, dst }) == Some(0xF05B_0511u32),
        begin_mark(WpanCommand::FusStart) == Some(0xF05B_0511u32),
        begin_mark(WpanCommand::FusDelete) == Some(0xF05B_0511u32),
        begin_mark(WpanCommand::ThreadInit) is None,
        report_mark(state, marker) == (if state == 0 && marker == 0xF05B_0511 {
            Some(0u32)
        } else {
            None
        }),
{
}

/// Lines of this module reach a command, and others reach none: the answer is
/// "unknown command" exactly for lines that are not owned, and for `fus` and
/// `thread` with a second word that they do not know.
pub proof fn law_owned_lines_are_known(s: Seq<char>)
    ensures
        wpan_command(s) is Unknown <==> !owned(s) || (word(s, 0) == Some("fus"@) && word(s, 1)
            != Some("state"@) && word(s, 1) != Some("upgrade"@) && word(s, 1) != Some("start"@)
            && word(s, 1) != Some("delete"@)) || (word(s, 0) == Some("thread"@) && word(s, 1)
            != Some("init"@)),
        wpan_command(s) is Ot <==> word(s, 0) == Some("ot"@),
{
    lemma_first_words_differ();
}

/// The bring-up takes at most five events, and a restart by command two.
pub open spec fn cpu2_events_left(stage: Cpu2Stage) -> int {
    match stage {
        Cpu2Stage::Locking => 5,
        Cpu2Stage::Booting => 4,
        Cpu2Stage::Asking { .. } => 3,
        Cpu2Stage::Restarting { .. } => 2,
        Cpu2Stage::Settling => 1,
        Cpu2Stage::Running => 0,
    }
}

/// The bring-up ends, whether CPU2 answers or not; with the task running, and
/// with the ready event last seen in the ready byte.
pub proof fn law_bring_up_ends(stage: Cpu2Stage, event: Cpu2Event)
    requires
        cpu2_awaits(stage, event),
    ensures
        0 <= cpu2_events_left(cpu2_follows(stage, event).stage) < cpu2_events_left(stage),
        cpu2_follows(stage, event).next is Done <==> cpu2_follows(stage, event).stage is Running,
        cpu2_follows(stage, event).stage is Running ==> event is Ready && cpu2_follows(
            stage,
            event,
        ).ready == Some(ready_byte(event->Ready_0)),
        stage != (Cpu2Stage::Restarting { boot: false }) && cpu2_follows(stage, event).stage
            is Running ==> cpu2_follows(stage, event).state == Some(2u8),
{
}

/// A `wpan` line goes by its second word, and by its third where that matters;
/// without a second word that is known it tells what runs on CPU2.
pub proof fn law_wpan_words(s: Seq<char>)
    requires
        word(s, 0) == Some("wpan"@),
    ensures
        word(s, 1) == Some("snapshot"@) ==> wpan_command(s) is Snapshot,
        word(s, 1) == Some("reinit"@) ==> wpan_command(s) is Reinit,
        word(s, 1) == Some("clk48"@) ==> wpan_command(s) == (WpanCommand::Clk48 {
            fix: word(s, 2) == Some("fix"@),
        }),
        word(s, 1) == Some("sem5"@) && word(s, 2) == Some("release"@) ==> wpan_command(s)
            == WpanCommand::Sem5(Sem5::Release),
        word(s, 1) == Some("sem5"@) && word(s, 2) == Some("lock"@) ==> wpan_command(s)
            == WpanCommand::Sem5(Sem5::Lock),
        word(s, 1) == Some("sem5"@) && word(s, 2) != Some("release"@) && word(s, 2) != Some(
            "lock"@,
        ) ==> wpan_command(s) == WpanCommand::Sem5(Sem5::Keep),
        wpan_command(s) is Info <==> word(s, 1) != Some("snapshot"@) && word(s, 1) != Some(
            "reinit"@,
        ) && word(s, 1) != Some("clk48"@) && word(s, 1) != Some("sem5"@),
{
    reveal_strlit("snapshot");
    reveal_strlit("reinit");
    reveal_strlit("clk48");
    reveal_strlit("sem5");
    reveal_strlit("release");
    reveal_strlit("lock");
    assert("snapshot"@.len() == 8 && "reinit"@.len() == 6 && "clk48"@.len() == 5 && "sem5"@.len()
        == 4 && "release"@.len() == 7 && "lock"@.len() == 4);
}

/// `fus`, `thread` and `ot` lines go by their words.
pub proof fn law_fus_words(s: Seq<char>)
    ensures
        word(s, 0) == Some("fus"@) && word(s, 1) == Some("state"@) ==> wpan_command(s) is FusState,
        word(s, 0) == Some("fus"@) && word(s, 1) == Some("upgrade"@) ==> wpan_command(s) == (
        WpanCommand::FusUpgrade { src: hex_arg(word(s, 2)), dst: hex_arg(word(s, 3)) }),
        word(s, 0) == Some("fus"@) && word(s, 1) == Some("start"@) ==> wpan_command(s) is FusStart,
        word(s, 0) == Some("fus"@) && word(s, 1) == Some("delete"@) ==> wpan_command(s)
            is FusDelete,
        word(s, 0) == Some("thread"@) && word(s, 1) == Some("init"@) ==> wpan_command(s)
            is ThreadInit,
        word(s, 0) == Some("ot"@) ==> wpan_command(s) is Ot,
{
    lemma_first_words_differ();
    reveal_strlit("state");
    reveal_strlit("upgrade");
    reveal_strlit("start");
    reveal_strlit("delete");
    assert("state"@[3] == 't' && "start"@[3] == 'r');
    assert("state"@.len() == 5 && "upgrade"@.len() == 7 && "start"@.len() == 5 && "delete"@.len()
        == 6);
}

} // verus!
