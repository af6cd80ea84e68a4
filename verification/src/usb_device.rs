//! The USB console: command lines put together from what is typed, and the
//! reports that the board prints by itself.

use vstd::prelude::*;
use crate::text::Out;
use crate::text::Text;
use crate::text::as_str;
use crate::text::byte_len;
use crate::text::clear;
use crate::text::fits;
use crate::text::lemma_ascii_byte_len;
use crate::text::lemma_bytes_of_join;
use crate::text::new_beat;
use crate::text::new_command;
use crate::text::push;
use crate::text::push_str;
use crate::text::put;
use crate::text::put_dec0;
use crate::text::put_dec;
use crate::text::put_flag;
use crate::text::wrote;
use crate::words::Sep;
use crate::words::law_words;
use crate::words::lemma_no_runs;
use crate::words::same;
use crate::words::solid;
use crate::words::trim;
use crate::words::trimmed;
use crate::words::word;
use crate::wpan::Line;
use crate::wpan::owned;
use crate::wpan::owns;

verus! {

// ---- commands ----

/// What a command asks for.
pub enum ConsoleCommand {
    /// Reboot into DFU.
    Dfu,
    /// Deliberate hang to exercise the watchdog -> DFU path.
    Hang,
    /// Print the two status lines.
    Status,
    /// Hand a line to the CPU2 task.
    Forward(Line),
    /// Nothing that is known.
    Unknown,
}

/// The contents of [`ConsoleCommand`].
pub ghost enum Wish {
    Dfu,
    Hang,
    Status,
    Forward(Seq<char>),
    Unknown,
}

impl View for ConsoleCommand {
    type V = Wish;

    open spec fn view(&self) -> Wish {
        match *self {
            ConsoleCommand::Dfu => Wish::Dfu,
            ConsoleCommand::Hang => Wish::Hang,
            ConsoleCommand::Status => Wish::Status,
            ConsoleCommand::Forward(l) => Wish::Forward(l.text()),
            ConsoleCommand::Unknown => Wish::Unknown,
        }
    }
}

/// What a command line asks for. A line that is too long for the CPU2 task
/// reaches it empty.
pub open spec fn wish(s: Seq<char>) -> Wish {
    if s == "dfu"@ {
        Wish::Dfu
    } else if s == "hang"@ {
        Wish::Hang
    } else if s == "status"@ {
        Wish::Status
    } else if owned(s) {
        Wish::Forward(
            if byte_len(s) <= 512 {
                s
            } else {
                Seq::empty()
            },
        )
    } else {
        Wish::Unknown
    }
}

/// Console commands: those of the board itself; the rest go to the CPU2 task.
pub fn handle_command(cmd: &str) -> (r: ConsoleCommand)
    ensures
        r@ == wish(cmd@),
{
    if same(cmd, "dfu") {
        ConsoleCommand::Dfu
    } else if same(cmd, "hang") {
        ConsoleCommand::Hang
    } else if same(cmd, "status") {
        ConsoleCommand::Status
    } else if owns(cmd) {
        let mut l = new_command();
        proof {
            lemma_ascii_byte_len(Seq::empty());
            assert(l.text() + cmd@ =~= cmd@);
        }
        let _ = push_str(&mut l, cmd);
        ConsoleCommand::Forward(l)
    } else {
        ConsoleCommand::Unknown
    }
}

/// The answer to a command, if it has one of its own. `busy` tells that the
/// CPU2 task did not take the line.
pub open spec fn answer_text(w: Wish, busy: bool) -> Option<Seq<char>> {
    match w {
        Wish::Dfu => Some("\r\nrebooting into DFU\r\n"@),
        Wish::Hang => Some("\r\nhanging; watchdog should fire in 4 s\r\n"@),
        Wish::Status => None,
        Wish::Forward(_) => if busy {
            Some("wpan: busy\r\n"@)
        } else {
            None
        },
        Wish::Unknown => Some("? (dfu, hang, wpan info, fus ..., thread init, ot <cli>)\r\n"@),
    }
}

impl ConsoleCommand {
    /// The answer to a command, if it has one of its own.
    pub fn answer(&self, busy: bool) -> (r: Option<&'static str>)
        ensures
            r is Some <==> answer_text(self@, busy) is Some,
            r matches Some(s) ==> Some(s@) == answer_text(self@, busy),
    {
        match self {
            ConsoleCommand::Dfu => Some("\r\nrebooting into DFU\r\n"),
            ConsoleCommand::Hang => Some("\r\nhanging; watchdog should fire in 4 s\r\n"),
            ConsoleCommand::Status => None,
            ConsoleCommand::Forward(_) => if busy {
                Some("wpan: busy\r\n")
            } else {
                None
            },
            ConsoleCommand::Unknown => Some(
                "? (dfu, hang, wpan info, fus ..., thread init, ot <cli>)\r\n",
            ),
        }
    }
}

// ---- typing ----

/// Whether a byte ends a line.
pub open spec fn ends_line(b: u8) -> bool {
    b == 0x0d || b == 0x0a
}

/// The line after a byte was typed: empty after its end, and as it was when a
/// character has no room.
pub open spec fn typed(line: Seq<char>, b: u8) -> Seq<char> {
    if ends_line(b) {
        Seq::empty()
    } else if fits(line, seq![b as char], 512) {
        line + seq![b as char]
    } else {
        line
    }
}

/// What a byte typed after `line` asks for: at the end of a line that is not
/// blank, what it asks for without the white space around it.
pub open spec fn typed_wish(line: Seq<char>, b: u8) -> Option<Wish> {
    if ends_line(b) && trimmed(line).len() > 0 {
        Some(wish(trimmed(line)))
    } else {
        None
    }
}

/// The command line being typed.
pub struct Console {
    pub line: heapless::String<512>,
}

impl Console {
    /// An empty command line.
    pub fn new() -> (r: Console)
        ensures
            r.line.text() == Seq::<char>::empty(),
    {
        Console { line: new_command() }
    }

    /// Takes in a byte typed.
    pub fn feed(&mut self, b: u8) -> (r: Option<ConsoleCommand>)
        ensures
            final(self).line.text() == typed(old(self).line.text(), b),
            r is Some <==> typed_wish(old(self).line.text(), b) is Some,
            r matches Some(c) ==> Some(c@) == typed_wish(old(self).line.text(), b),
    {
        if b == 0x0d || b == 0x0a {
            let cmd = trim(as_str(&self.line));
            let r = if cmd.unicode_len() > 0 {
                Some(handle_command(cmd))
            } else {
                None
            };
            clear(&mut self.line);
            r
        } else {
            let _ = push(&mut self.line, b as char);
            None
        }
    }
}

/// The line after a run of bytes was typed.
pub open spec fn typed_all(line: Seq<char>, bytes: Seq<u8>) -> Seq<char>
    decreases bytes.len(),
{
    if bytes.len() == 0 {
        line
    } else {
        typed(typed_all(line, bytes.drop_last()), bytes.last())
    }
}

/// Bytes as the characters that they are typed as.
pub open spec fn as_typed(bytes: Seq<u8>) -> Seq<char> {
    bytes.map_values(|b: u8| b as char)
}

/// A line that takes up to 512 bytes, typed on an empty line, is what its end
/// acts on, and leaves an empty line behind.
pub proof fn law_typed_line_is_obeyed(bytes: Seq<u8>, end: u8)
    requires
        byte_len(as_typed(bytes)) <= 512,
        forall|i: int| 0 <= i < bytes.len() ==> !ends_line(#[trigger] bytes[i]),
        ends_line(end),
    ensures
        typed_all(Seq::empty(), bytes) == as_typed(bytes),
        typed_all(Seq::empty(), bytes.push(end)) == Seq::<char>::empty(),
        typed_wish(typed_all(Seq::empty(), bytes), end) == (if trimmed(as_typed(bytes)).len() > 0 {
            Some(wish(trimmed(as_typed(bytes))))
        } else {
            None
        }),
    decreases bytes.len(),
{
    assert(bytes.push(end).drop_last() =~= bytes);
    if bytes.len() == 0 {
        assert(as_typed(bytes) =~= Seq::<char>::empty());
    } else {
        let t = bytes.drop_last();
        let c = bytes.last() as char;
        assert(forall|i: int| 0 <= i < t.len() ==> #[trigger] t[i] == bytes[i]);
        assert(as_typed(bytes) =~= as_typed(t) + seq![c]);
        lemma_bytes_of_join(as_typed(t), seq![c]);
        law_typed_line_is_obeyed(t, end);
    }
}

// ---- reports ----

/// Seconds from heartbeat to heartbeat.
pub const BEAT_SECS: u64 = 2;

/// When the next heartbeat is due, in ticks of a clock with `hz` ticks a second.
/// What is typed or printed in between does not put it off.
#[derive(Clone, Copy)]
pub struct Pacer {
    pub due: u64,
    pub hz: u64,
}

impl Pacer {
    /// Two seconds, in ticks.
    pub open spec fn period(self) -> int {
        BEAT_SECS * self.hz
    }

    /// Whether a heartbeat is due.
    pub open spec fn is_due(self, now: u64) -> bool {
        now >= self.due
    }

    /// When the next heartbeat is due after a look at the clock: two seconds
    /// after it was due, or after now when that is past too.
    pub open spec fn due_after(self, now: u64) -> int {
        if now < self.due {
            self.due as int
        } else if self.due + self.period() > now {
            self.due + self.period()
        } else {
            now + self.period()
        }
    }

    /// The first heartbeat is due two seconds from now.
    pub fn new(now: u64, hz: u64) -> (r: Pacer)
        requires
            now + BEAT_SECS * hz <= u64::MAX,
        ensures
            r.due == now + BEAT_SECS * hz,
            r.hz == hz,
    {
        assert(BEAT_SECS * hz <= u64::MAX);
        Pacer { due: now + BEAT_SECS * hz, hz }
    }

    /// Looks at the clock: whether a heartbeat is due.
    pub fn beat(&mut self, now: u64) -> (r: bool)
        requires
            now + old(self).period() <= u64::MAX,
        ensures
            r == old(self).is_due(now),
            r == (now >= old(self).due),
            final(self).due == old(self).due_after(now),
            final(self).hz == old(self).hz,
    {
        if now < self.due {
            return false;
        }
        let period: u64 = BEAT_SECS * self.hz;
        self.due = if now - self.due < period {
            self.due + period
        } else {
            now + period
        };
        true
    }
}

/// The next heartbeat is never more than two seconds away, and a look at the
/// clock before it is due, whatever it was that led to it, leaves it where it
/// is. Looks at the time due give heartbeats two seconds apart.
pub proof fn law_heartbeat_every_two_seconds(p: Pacer, now: u64)
    requires
        p.due <= now + 2 * p.hz,
        p.hz > 0,
    ensures
        now < p.due_after(now) <= now + 2 * p.hz,
        now < p.due ==> p.due_after(now) == p.due,
        now == p.due ==> p.due_after(now) == p.due + 2 * p.hz,
        p.is_due(now) <==> p.due <= now,
        p.is_due(now) <==> p.due_after(now) != p.due,
{
}

/// What the heartbeat tells: milliseconds since the start, the time of day if
/// the clock has one, its subsecond counter (counting down from 255), and the
/// button.
#[derive(Clone, Copy)]
pub struct Beat {
    pub uptime_ms: u64,
    pub time: Option<(u8, u8, u8)>,
    pub ss: u32,
    pub pressed: bool,
}

/// Milliseconds into the second.
pub open spec fn subsecond_ms(ss: u32) -> nat {
    if ss <= 255 {
        ((255 - ss) * 1000 / 256) as nat
    } else {
        0
    }
}

fn subsecond(ss: u32) -> (ms: u32)
    ensures
        ms == subsecond_ms(ss),
        ms < 1000,
{
    255u32.saturating_sub(ss) * 1000 / 256
}

/// Hour, minute and second; 99 each when the clock has no time.
pub open spec fn shown_time(time: Option<(u8, u8, u8)>) -> (u8, u8, u8) {
    match time {
        Some(t) => t,
        None => (99, 99, 99),
    }
}

/// An empty heartbeat line.
pub open spec fn beat_line() -> Out {
    Out { room: 192, text: Seq::empty(), ok: true }
}

/// The heartbeat, with when the firmware was built.
pub open spec fn heartbeat_text(stamp: Seq<char>, b: Beat) -> Seq<char> {
    let (h, m, s) = shown_time(b.time);
    beat_line().put("sensor-board (built "@).put(stamp).put(") alive: uptime "@)
        .dec(b.uptime_ms as nat).put("ms rtc "@).dec0(h as nat, 2).put(":"@).dec0(m as nat, 2)
        .put(":"@).dec0(s as nat, 2).put("."@).dec0(subsecond_ms(b.ss), 3).put(" button "@).put(
        if b.pressed {
            "down"@
        } else {
            "up"@
        },
    ).put("\r\n"@).text
}

pub fn heartbeat(stamp: &str, b: &Beat) -> (l: heapless::String<192>)
    ensures
        l.text() == heartbeat_text(stamp@, *b),
{
    let (h, m, s): (u8, u8, u8) = match b.time {
        Some(t) => t,
        None => (99, 99, 99),
    };
    let ms = subsecond(b.ss);
    let mut l = new_beat();
    let w = put(&mut l, true, "sensor-board (built ");
    let w = put(&mut l, w, stamp);
    let w = put(&mut l, w, ") alive: uptime ");
    let w = put_dec(&mut l, w, b.uptime_ms as u64);
    let w = put(&mut l, w, "ms rtc ");
    let w = put_dec0(&mut l, w, h as u64, 2);
    let w = put(&mut l, w, ":");
    let w = put_dec0(&mut l, w, m as u64, 2);
    let w = put(&mut l, w, ":");
    let w = put_dec0(&mut l, w, s as u64, 2);
    let w = put(&mut l, w, ".");
    let w = put_dec0(&mut l, w, ms as u64, 3);
    let w = put(&mut l, w, " button ");
    let w = put(
        &mut l,
        w,
        if b.pressed {
            "down"
        } else {
            "up"
        },
    );
    let _ = put(&mut l, w, "\r\n");
    l
}

/// Where the clocks come from, as the registers say; and the watchdog's
/// prescaler and reload value.
#[derive(Clone, Copy)]
pub struct Clocks {
    pub sws: u8,
    pub pllsrc: u8,
    pub clk48sel: u8,
    pub rtcsel: u8,
    pub hse_rdy: bool,
    pub lse_rdy: bool,
    pub msi_on: bool,
    pub hsi16_on: bool,
    pub hsi48_on: bool,
    pub pr: u8,
    pub rl: u16,
}

/// The source of the system clock.
pub open spec fn sysclk_text(v: u8) -> Seq<char> {
    if v == 0 {
        "MSI"@
    } else if v == 1 {
        "HSI16"@
    } else if v == 2 {
        "HSE"@
    } else {
        "PLL"@
    }
}

fn sysclk_name(v: u8) -> (s: &'static str)
    ensures
        s@ == sysclk_text(v),
{
    match v {
        0 => "MSI",
        1 => "HSI16",
        2 => "HSE",
        _ => "PLL",
    }
}

/// The source of the PLL.
pub open spec fn pllsrc_text(v: u8) -> Seq<char> {
    if v == 1 {
        "MSI"@
    } else if v == 2 {
        "HSI16"@
    } else if v == 3 {
        "HSE"@
    } else {
        "none"@
    }
}

fn pllsrc_name(v: u8) -> (s: &'static str)
    ensures
        s@ == pllsrc_text(v),
{
    match v {
        1 => "MSI",
        2 => "HSI16",
        3 => "HSE",
        _ => "none",
    }
}

/// The source of the 48 MHz clock.
pub open spec fn usb48_text(v: u8) -> Seq<char> {
    if v == 0 {
        "HSI48"@
    } else if v == 1 {
        "PLLSAI1Q"@
    } else if v == 2 {
        "PLLQ"@
    } else {
        "MSI"@
    }
}

fn usb48_name(v: u8) -> (s: &'static str)
    ensures
        s@ == usb48_text(v),
{
    match v {
        0 => "HSI48",
        1 => "PLLSAI1Q",
        2 => "PLLQ",
        _ => "MSI",
    }
}

/// The source of the RTC clock.
pub open spec fn rtcsel_text(v: u8) -> Seq<char> {
    if v == 1 {
        "LSE"@
    } else if v == 2 {
        "LSI"@
    } else if v == 3 {
        "HSE/32"@
    } else {
        "none"@
    }
}

fn rtcsel_name(v: u8) -> (s: &'static str)
    ensures
        s@ == rtcsel_text(v),
{
    match v {
        1 => "LSE",
        2 => "LSI",
        3 => "HSE/32",
        _ => "none",
    }
}

/// Where the clocks come from, in one write.
pub open spec fn clocks_out(o: Out, c: Clocks) -> Out {
    o.again().put("clocks: sysclk="@).put(sysclk_text(c.sws)).put(" pllsrc="@)
        .put(pllsrc_text(c.pllsrc)).put(" usb48="@).put(usb48_text(c.clk48sel)).put(" rtc="@)
        .put(rtcsel_text(c.rtcsel)).put(" hse_rdy="@).flag(c.hse_rdy).put(" lse_rdy="@)
        .flag(c.lse_rdy).put(" msi_on="@).flag(c.msi_on).put(" hsi16_on="@).flag(c.hsi16_on)
        .put(" hsi48_on="@).flag(c.hsi48_on).put(" iwdg pr="@).dec(c.pr as nat).put(" rl="@)
        .dec(c.rl as nat).put("\r\n"@)
}

/// Appends one line describing where the clocks actually come from.
pub fn clock_report(c: &Clocks, l: &mut heapless::String<192>)
    ensures
        wrote(*final(l), true) == clocks_out(wrote(*old(l), true), *c).again(),
{
    let w = put(l, true, "clocks: sysclk=");
    let w = put(l, w, sysclk_name(c.sws));
    let w = put(l, w, " pllsrc=");
    let w = put(l, w, pllsrc_name(c.pllsrc));
    let w = put(l, w, " usb48=");
    let w = put(l, w, usb48_name(c.clk48sel));
    let w = put(l, w, " rtc=");
    let w = put(l, w, rtcsel_name(c.rtcsel));
    let w = put(l, w, " hse_rdy=");
    let w = put_flag(l, w, c.hse_rdy);
    let w = put(l, w, " lse_rdy=");
    let w = put_flag(l, w, c.lse_rdy);
    let w = put(l, w, " msi_on=");
    let w = put_flag(l, w, c.msi_on);
    let w = put(l, w, " hsi16_on=");
    let w = put_flag(l, w, c.hsi16_on);
    let w = put(l, w, " hsi48_on=");
    let w = put_flag(l, w, c.hsi48_on);
    let w = put(l, w, " iwdg pr=");
    let w = put_dec(l, w, c.pr as u64);
    let w = put(l, w, " rl=");
    let w = put_dec(l, w, c.rl as u64);
    let _ = put(l, w, "\r\n");
}

// ---- laws on commands ----

/// A line ends at a carriage return or a line feed, and at nothing else; a byte
/// that has no room leaves the line as it is.
pub proof fn law_line_ends(line: Seq<char>, b: u8)
    ensures
        ends_line(b) <==> b == 13 || b == 10,
        b == 13 || b == 10 ==> typed(line, b).len() == 0,
        b != 13 && b != 10 ==> typed_wish(line, b) is None,
        b != 13 && b != 10 && byte_len(line) + byte_len(seq![b as char]) <= 512 ==> typed(line, b)
            == line.push(b as char),
        b != 13 && b != 10 && byte_len(line) + byte_len(seq![b as char]) > 512 ==> typed(line, b)
            == line,
{
    assert(line + seq![b as char] =~= line.push(b as char));
}

/// A command is one of three words, or a line for the CPU2 task, which gets it as
/// it is; what is neither is unknown.
pub proof fn law_commands_are_told_apart(s: Seq<char>)
    ensures
        wish(s) is Dfu <==> s == "dfu"@,
        wish(s) is Hang <==> s == "hang"@,
        wish(s) is Status <==> s == "status"@,
        wish(s) matches Wish::Forward(t) ==> byte_len(s) <= 512 ==> t == s,
        word(s, 0) == Some("wpan"@) || word(s, 0) == Some("fus"@) || word(s, 0) == Some(
            "thread"@,
        ) || word(s, 0) == Some("ot"@) ==> wish(s) is Forward,
        wish(s) is Forward ==> word(s, 0) == Some("wpan"@) || word(s, 0) == Some("fus"@) || word(
            s,
            0,
        ) == Some("thread"@) || word(s, 0) == Some("ot"@),
{
    reveal_strlit("dfu");
    reveal_strlit("hang");
    reveal_strlit("status");
    reveal_strlit("wpan");
    reveal_strlit("fus");
    reveal_strlit("thread");
    reveal_strlit("ot");
    assert("dfu"@.len() == 3 && "hang"@.len() == 4 && "status"@.len() == 6 && "wpan"@.len() == 4
        && "fus"@.len() == 3 && "thread"@.len() == 6 && "ot"@.len() == 2);
    assert("dfu"@[0] == 'd' && "fus"@[0] == 'f' && "hang"@[0] == 'h' && "wpan"@[0] == 'w'
        && "status"@[0] == 's' && "thread"@[0] == 't');
    lemma_one_word("dfu"@);
    lemma_one_word("hang"@);
    lemma_one_word("status"@);
}

proof fn lemma_one_word(w: Seq<char>)
    requires
        w.len() > 0,
        solid(w),
    ensures
        word(w, 0) == Some(w),
{
    let none = Seq::<char>::empty();
    law_words(none, w, none);
    assert(none + w + none =~= w);
    lemma_no_runs(Sep::White);
}

/// A command that the board carries out is answered, whatever the CPU2 task does;
/// a line for that task is answered only when the task did not take it.
pub proof fn law_answers(line: Seq<char>, busy: bool)
    ensures
        answer_text(Wish::Dfu, busy) == Some("\r\nrebooting into DFU\r\n"@),
        answer_text(Wish::Hang, busy) == Some("\r\nhanging; watchdog should fire in 4 s\r\n"@),
        answer_text(Wish::Status, busy) is None,
        answer_text(Wish::Unknown, busy) == Some(
            "? (dfu, hang, wpan info, fus ..., thread init, ot <cli>)\r\n"@,
        ),
        answer_text(Wish::Forward(line), busy) == (if busy {
            Some("wpan: busy\r\n"@)
        } else {
            None
        }),
{
}

} // verus!
