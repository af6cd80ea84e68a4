//! What the CPU2 console commands, the heartbeat and the clock report print, as
//! plain text.

use vstd::prelude::*;
use crate::reports::lemma_source_names;
use crate::spelling::flag_text;
use crate::spelling::lemma_flag;
use crate::spelling::lemma_number;
use crate::spelling::lemma_powers;
use crate::spelling::lemma_put;
use crate::spelling::number_text;
use crate::text::Out;
use crate::text::byte_len;
use crate::text::digits;
use crate::text::lemma_ascii_byte_len;
use crate::text::line;
use crate::usb_device::Beat;
use crate::usb_device::Clocks;
use crate::usb_device::beat_line;
use crate::usb_device::clocks_out;
use crate::usb_device::heartbeat_text;
use crate::usb_device::pllsrc_text;
use crate::usb_device::rtcsel_text;
use crate::usb_device::subsecond_ms;
use crate::usb_device::sysclk_text;
use crate::usb_device::usb48_text;
use crate::wpan_text::Clk48;
use crate::wpan_text::DeviceInfo;
use crate::wpan_text::FUS_TABLE_KEYWORD;
use crate::wpan_text::FusTable;
use crate::wpan_text::Status2;
use crate::wpan_text::Status;
use crate::wpan_text::clk48_out;
use crate::wpan_text::cpu2_ready_text;
use crate::wpan_text::delete_text;
use crate::wpan_text::first_at;
use crate::wpan_text::fus_at_boot_text;
use crate::wpan_text::fus_info_text;
use crate::wpan_text::fus_running_text;
use crate::wpan_text::fus_state_text;
use crate::wpan_text::fus_table_at;
use crate::wpan_text::info_says;
use crate::wpan_text::locked_text;
use crate::wpan_text::locks_out;
use crate::wpan_text::ready_text;
use crate::wpan_text::registers_out;
use crate::wpan_text::reinit_text;
use crate::wpan_text::row_text;
use crate::wpan_text::stack_info_text;
use crate::wpan_text::stack_text;
use crate::wpan_text::start_text;
use crate::wpan_text::status2_out;
use crate::wpan_text::status_out;
use crate::wpan_text::table_says;
use crate::wpan_text::thread_autostart_text;
use crate::wpan_text::thread_init_text;
use crate::wpan_text::upgrade_text;
use crate::wpan_text::upgrading_text;
use crate::wpan_text::version_of;
use crate::wpan_text::version_out;
use crate::wpan_text::words_out;

verus! {

// ---- bring-up and commands ----

/// Whether the semaphore was locked.
pub proof fn law_locked_line(sem: bool)
    ensures
        locked_text(sem) == (
            "wpan: CLK48 semaphore locked: "@ + flag_text(sem) + "\r\n"@
        ),
{
    reveal_strlit("wpan: CLK48 semaphore locked: ");
    reveal_strlit("\r\n");
    lemma_ascii_byte_len(Seq::empty());
    lemma_ascii_byte_len("wpan: CLK48 semaphore locked: "@);
    lemma_ascii_byte_len("\r\n"@);
    lemma_powers();
    let o0 = line();
    lemma_put(o0, "wpan: CLK48 semaphore locked: "@);
    let o1 = o0.put("wpan: CLK48 semaphore locked: "@);
    assert(o1.text =~= "wpan: CLK48 semaphore locked: "@);
    lemma_flag(o1, sem);
    let o2 = o1.flag(sem);
    lemma_put(o2, "\r\n"@);
    let o3 = o2.put("\r\n"@);
}

/// The ready event after boot.
pub proof fn law_cpu2_ready_line(outcome: Seq<char>)
    requires
        byte_len(outcome) <= 100,
    ensures
        cpu2_ready_text(outcome) == (
            "wpan: CPU2 ready event: "@ + outcome + "\r\n"@
        ),
{
    reveal_strlit("wpan: CPU2 ready event: ");
    reveal_strlit("\r\n");
    lemma_ascii_byte_len(Seq::empty());
    lemma_ascii_byte_len("wpan: CPU2 ready event: "@);
    lemma_ascii_byte_len("\r\n"@);
    lemma_powers();
    let o0 = line();
    lemma_put(o0, "wpan: CPU2 ready event: "@);
    let o1 = o0.put("wpan: CPU2 ready event: "@);
    assert(o1.text =~= "wpan: CPU2 ready event: "@);
    lemma_put(o1, outcome);
    let o2 = o1.put(outcome);
    lemma_put(o2, "\r\n"@);
    let o3 = o2.put("\r\n"@);
}

/// The outcome of the restart request.
pub proof fn law_reinit_line(outcome: Seq<char>)
    requires
        byte_len(outcome) <= 100,
    ensures
        reinit_text(outcome) == (
            "wpan: REINIT -> "@ + outcome + ", SEV sent, waiting for ready\r\n"@
        ),
{
    reveal_strlit("wpan: REINIT -> ");
    reveal_strlit(", SEV sent, waiting for ready\r\n");
    lemma_ascii_byte_len(Seq::empty());
    lemma_ascii_byte_len("wpan: REINIT -> "@);
    lemma_ascii_byte_len(", SEV sent, waiting for ready\r\n"@);
    lemma_powers();
    let o0 = line();
    lemma_put(o0, "wpan: REINIT -> "@);
    let o1 = o0.put("wpan: REINIT -> "@);
    assert(o1.text =~= "wpan: REINIT -> "@);
    lemma_put(o1, outcome);
    let o2 = o1.put(outcome);
    lemma_put(o2, ", SEV sent, waiting for ready\r\n"@);
    let o3 = o2.put(", SEV sent, waiting for ready\r\n"@);
}

/// The ready event after a restart.
pub proof fn law_ready_line(outcome: Seq<char>)
    requires
        byte_len(outcome) <= 100,
    ensures
        ready_text(outcome) == (
            "wpan: ready event: "@ + outcome + "\r\n"@
        ),
{
    reveal_strlit("wpan: ready event: ");
    reveal_strlit("\r\n");
    lemma_ascii_byte_len(Seq::empty());
    lemma_ascii_byte_len("wpan: ready event: "@);
    lemma_ascii_byte_len("\r\n"@);
    lemma_powers();
    let o0 = line();
    lemma_put(o0, "wpan: ready event: "@);
    let o1 = o0.put("wpan: ready event: "@);
    assert(o1.text =~= "wpan: ready event: "@);
    lemma_put(o1, outcome);
    let o2 = o1.put(outcome);
    lemma_put(o2, "\r\n"@);
    let o3 = o2.put("\r\n"@);
}

/// The outcome of starting the Thread stack at boot.
pub proof fn law_thread_autostart_line(outcome: Seq<char>)
    requires
        byte_len(outcome) <= 100,
    ensures
        thread_autostart_text(outcome) == (
            "wpan: autostart: thread init -> "@ + outcome + "\r\n"@
        ),
{
    reveal_strlit("wpan: autostart: thread init -> ");
    reveal_strlit("\r\n");
    lemma_ascii_byte_len(Seq::empty());
    lemma_ascii_byte_len("wpan: autostart: thread init -> "@);
    lemma_ascii_byte_len("\r\n"@);
    lemma_powers();
    let o0 = line();
    lemma_put(o0, "wpan: autostart: thread init -> "@);
    let o1 = o0.put("wpan: autostart: thread init -> "@);
    assert(o1.text =~= "wpan: autostart: thread init -> "@);
    lemma_put(o1, outcome);
    let o2 = o1.put(outcome);
    lemma_put(o2, "\r\n"@);
    let o3 = o2.put("\r\n"@);
}

/// The outcome of an upgrade request.
pub proof fn law_upgrade_line(outcome: Seq<char>)
    requires
        byte_len(outcome) <= 100,
    ensures
        upgrade_text(outcome) == (
            "fus: fw_upgrade -> "@ + outcome + "\r\n"@
        ),
{
    reveal_strlit("fus: fw_upgrade -> ");
    reveal_strlit("\r\n");
    lemma_ascii_byte_len(Seq::empty());
    lemma_ascii_byte_len("fus: fw_upgrade -> "@);
    lemma_ascii_byte_len("\r\n"@);
    lemma_powers();
    let o0 = line();
    lemma_put(o0, "fus: fw_upgrade -> "@);
    let o1 = o0.put("fus: fw_upgrade -> "@);
    assert(o1.text =~= "fus: fw_upgrade -> "@);
    lemma_put(o1, outcome);
    let o2 = o1.put(outcome);
    lemma_put(o2, "\r\n"@);
    let o3 = o2.put("\r\n"@);
}

/// The outcome of starting the wireless stack.
pub proof fn law_start_line(outcome: Seq<char>)
    requires
        byte_len(outcome) <= 100,
    ensures
        start_text(outcome) == (
            "fus: start_ws -> "@ + outcome + "\r\n"@
        ),
{
    reveal_strlit("fus: start_ws -> ");
    reveal_strlit("\r\n");
    lemma_ascii_byte_len(Seq::empty());
    lemma_ascii_byte_len("fus: start_ws -> "@);
    lemma_ascii_byte_len("\r\n"@);
    lemma_powers();
    let o0 = line();
    lemma_put(o0, "fus: start_ws -> "@);
    let o1 = o0.put("fus: start_ws -> "@);
    assert(o1.text =~= "fus: start_ws -> "@);
    lemma_put(o1, outcome);
    let o2 = o1.put(outcome);
    lemma_put(o2, "\r\n"@);
    let o3 = o2.put("\r\n"@);
}

/// The outcome of deleting the wireless stack.
pub proof fn law_delete_line(outcome: Seq<char>)
    requires
        byte_len(outcome) <= 100,
    ensures
        delete_text(outcome) == (
            "fus: fw_delete -> "@ + outcome + "\r\n"@
        ),
{
    reveal_strlit("fus: fw_delete -> ");
    reveal_strlit("\r\n");
    lemma_ascii_byte_len(Seq::empty());
    lemma_ascii_byte_len("fus: fw_delete -> "@);
    lemma_ascii_byte_len("\r\n"@);
    lemma_powers();
    let o0 = line();
    lemma_put(o0, "fus: fw_delete -> "@);
    let o1 = o0.put("fus: fw_delete -> "@);
    assert(o1.text =~= "fus: fw_delete -> "@);
    lemma_put(o1, outcome);
    let o2 = o1.put(outcome);
    lemma_put(o2, "\r\n"@);
    let o3 = o2.put("\r\n"@);
}

/// The outcome of starting the Thread stack.
pub proof fn law_thread_init_line(outcome: Seq<char>)
    requires
        byte_len(outcome) <= 100,
    ensures
        thread_init_text(outcome) == (
            "thread: init -> "@ + outcome + "\r\n"@
        ),
{
    reveal_strlit("thread: init -> ");
    reveal_strlit("\r\n");
    lemma_ascii_byte_len(Seq::empty());
    lemma_ascii_byte_len("thread: init -> "@);
    lemma_ascii_byte_len("\r\n"@);
    lemma_powers();
    let o0 = line();
    lemma_put(o0, "thread: init -> "@);
    let o1 = o0.put("thread: init -> "@);
    assert(o1.text =~= "thread: init -> "@);
    lemma_put(o1, outcome);
    let o2 = o1.put(outcome);
    lemma_put(o2, "\r\n"@);
    let o3 = o2.put("\r\n"@);
}

/// The state of FUS first, its error code second.
pub proof fn law_fus_state_line(state: u8, err: u8)
    ensures
        fus_state_text(state, err) == (
            "fus: state 0x"@ + number_text(state as nat, 16, 2) + " error 0x"@
                + number_text(err as nat, 16, 2) + "\r\n"@
        ),
{
    reveal_strlit("fus: state 0x");
    reveal_strlit(" error 0x");
    reveal_strlit("\r\n");
    lemma_ascii_byte_len(Seq::empty());
    lemma_ascii_byte_len("fus: state 0x"@);
    lemma_ascii_byte_len(" error 0x"@);
    lemma_ascii_byte_len("\r\n"@);
    lemma_powers();
    let o0 = line();
    lemma_put(o0, "fus: state 0x"@);
    let o1 = o0.put("fus: state 0x"@);
    assert(o1.text =~= "fus: state 0x"@);
    lemma_number(o1, state as nat, 16, 2, 2);
    let o2 = o1.hex(state as nat, 2);
    lemma_put(o2, " error 0x"@);
    let o3 = o2.put(" error 0x"@);
    lemma_number(o3, err as nat, 16, 2, 2);
    let o4 = o3.hex(err as nat, 2);
    lemma_put(o4, "\r\n"@);
    let o5 = o4.put("\r\n"@);
}

/// Where the image lies, and where it is to go.
pub proof fn law_upgrading_line(src: u32, dst: u32)
    ensures
        upgrading_text(src, dst) == (
            "fus: fw_upgrade src 0x"@ + number_text(src as nat, 16, 8) + " dst 0x"@
                + number_text(dst as nat, 16, 8) + "\r\n"@
        ),
{
    reveal_strlit("fus: fw_upgrade src 0x");
    reveal_strlit(" dst 0x");
    reveal_strlit("\r\n");
    lemma_ascii_byte_len(Seq::empty());
    lemma_ascii_byte_len("fus: fw_upgrade src 0x"@);
    lemma_ascii_byte_len(" dst 0x"@);
    lemma_ascii_byte_len("\r\n"@);
    lemma_powers();
    let o0 = line();
    lemma_put(o0, "fus: fw_upgrade src 0x"@);
    let o1 = o0.put("fus: fw_upgrade src 0x"@);
    assert(o1.text =~= "fus: fw_upgrade src 0x"@);
    lemma_number(o1, src as nat, 16, 8, 8);
    let o2 = o1.hex(src as nat, 8);
    lemma_put(o2, " dst 0x"@);
    let o3 = o2.put(" dst 0x"@);
    lemma_number(o3, dst as nat, 16, 8, 8);
    let o4 = o3.hex(dst as nat, 8);
    lemma_put(o4, "\r\n"@);
    let o5 = o4.put("\r\n"@);
}

// ---- device info ----

/// A version word, byte by byte from the top: major, minor, sub.
pub proof fn law_version(v: u32)
    ensures
        version_of(v).0 == v >> 24,
        version_of(v).1 == (v >> 16) & 0xff,
        version_of(v).2 == (v >> 8) & 0xff,
{
    assert(v >> 24 == v / 0x100_0000 && (v >> 16) & 0xff == v / 0x1_0000 % 0x100 && (v >> 8) & 0xff
        == v / 0x100 % 0x100) by (bit_vector);
}

/// A version as `major.minor.sub`.
pub open spec fn version_words(v: u32) -> Seq<char> {
    digits((v >> 24) as nat, 10) + "."@ + digits(((v >> 16) & 0xff) as nat, 10) + "."@ + digits(
        ((v >> 8) & 0xff) as nat,
        10,
    )
}

proof fn lemma_version(o: Out, v: u32)
    requires
        o.ok,
        byte_len(o.text) + 11 <= o.room,
    ensures
        version_out(o, v) == (Out { text: o.text + version_words(v), ..o }),
        byte_len(o.text + version_words(v)) <= byte_len(o.text) + 11,
{
    reveal_strlit(".");
    lemma_ascii_byte_len("."@);
    lemma_powers();
    law_version(v);
    let (a, b, c) = version_of(v);
    lemma_number(o, a as nat, 10, 0, 3);
    let p = o.dec(a as nat);
    lemma_put(p, "."@);
    let q = p.put("."@);
    lemma_number(q, b as nat, 10, 0, 3);
    let r = q.dec(b as nat);
    lemma_put(r, "."@);
    let s = r.put("."@);
    lemma_number(s, c as nat, 10, 0, 3);
    let x = digits(a as nat, 10);
    let y = digits(b as nat, 10);
    let z = digits(c as nat, 10);
    assert(o.text + x + "."@ + y + "."@ + z =~= o.text + version_words(v));
}

proof fn lemma_states(x: u32)
    ensures
        x as int / 0x100_0000 == x >> 24,
        x as int / 0x100 % 0x100 == (x >> 8) & 0xff,
        x as int / 0x1_0000 % 0x100 == (x >> 16) & 0xff,
{
    law_version(x);
    assert(x >> 24 == x / 0x100_0000 && (x >> 16) & 0xff == x / 0x1_0000 % 0x100 && (x >> 8) & 0xff
        == x / 0x100 % 0x100) by (bit_vector);
}

/// FUS and the stack installed: versions, memory, and the states in their bytes.
pub proof fn law_fus_running_line(t: FusTable)
    ensures
        fus_running_text(t) == (
            "wpan: FUS running: FUS v"@ + version_words(t.fus_version) + " (0x"@
                + number_text(t.fus_version as nat, 16, 8) + ") mem 0x"@
                + number_text(t.fus_memory as nat, 16, 8) + " | installed stack v"@
                + version_words(t.stack_version) + " (0x"@
                + number_text(t.stack_version as nat, 16, 8) + ") mem 0x"@
                + number_text(t.stack_memory as nat, 16, 8) + " type 0x"@
                + number_text((t.states >> 24) as nat, 16, 2) + " thread_info 0x"@
                + number_text(t.thread_info as nat, 16, 8) + " | last fus state 0x"@
                + number_text(((t.states >> 8) & 0xff) as nat, 16, 2) + " last stack state 0x"@
                + number_text(((t.states >> 16) & 0xff) as nat, 16, 2) + "\r\n"@
        ),
{
    reveal_strlit("wpan: FUS running: FUS v");
    reveal_strlit(" (0x");
    reveal_strlit(") mem 0x");
    reveal_strlit(" | installed stack v");
    reveal_strlit(" type 0x");
    reveal_strlit(" thread_info 0x");
    reveal_strlit(" | last fus state 0x");
    reveal_strlit(" last stack state 0x");
    reveal_strlit("\r\n");
    lemma_ascii_byte_len(Seq::empty());
    lemma_ascii_byte_len("wpan: FUS running: FUS v"@);
    lemma_ascii_byte_len(" (0x"@);
    lemma_ascii_byte_len(") mem 0x"@);
    lemma_ascii_byte_len(" | installed stack v"@);
    lemma_ascii_byte_len(" type 0x"@);
    lemma_ascii_byte_len(" thread_info 0x"@);
    lemma_ascii_byte_len(" | last fus state 0x"@);
    lemma_ascii_byte_len(" last stack state 0x"@);
    lemma_ascii_byte_len("\r\n"@);
    lemma_powers();
    lemma_states(t.states);
    let o0 = line();
    lemma_put(o0, "wpan: FUS running: FUS v"@);
    let o1 = o0.put("wpan: FUS running: FUS v"@);
    assert(o1.text =~= "wpan: FUS running: FUS v"@);
    lemma_version(o1, t.fus_version);
    let o2 = version_out(o1, t.fus_version);
    lemma_put(o2, " (0x"@);
    let o3 = o2.put(" (0x"@);
    lemma_number(o3, t.fus_version as nat, 16, 8, 8);
    let o4 = o3.hex(t.fus_version as nat, 8);
    lemma_put(o4, ") mem 0x"@);
    let o5 = o4.put(") mem 0x"@);
    lemma_number(o5, t.fus_memory as nat, 16, 8, 8);
    let o6 = o5.hex(t.fus_memory as nat, 8);
    lemma_put(o6, " | installed stack v"@);
    let o7 = o6.put(" | installed stack v"@);
    lemma_version(o7, t.stack_version);
    let o8 = version_out(o7, t.stack_version);
    lemma_put(o8, " (0x"@);
    let o9 = o8.put(" (0x"@);
    lemma_number(o9, t.stack_version as nat, 16, 8, 8);
    let o10 = o9.hex(t.stack_version as nat, 8);
    lemma_put(o10, ") mem 0x"@);
    let o11 = o10.put(") mem 0x"@);
    lemma_number(o11, t.stack_memory as nat, 16, 8, 8);
    let o12 = o11.hex(t.stack_memory as nat, 8);
    lemma_put(o12, " type 0x"@);
    let o13 = o12.put(" type 0x"@);
    lemma_number(o13, (t.states as int / 0x100_0000) as nat, 16, 2, 2);
    let o14 = o13.hex((t.states as int / 0x100_0000) as nat, 2);
    lemma_put(o14, " thread_info 0x"@);
    let o15 = o14.put(" thread_info 0x"@);
    lemma_number(o15, t.thread_info as nat, 16, 8, 8);
    let o16 = o15.hex(t.thread_info as nat, 8);
    lemma_put(o16, " | last fus state 0x"@);
    let o17 = o16.put(" | last fus state 0x"@);
    lemma_number(o17, (t.states as int / 0x100 % 0x100) as nat, 16, 2, 2);
    let o18 = o17.hex((t.states as int / 0x100 % 0x100) as nat, 2);
    lemma_put(o18, " last stack state 0x"@);
    let o19 = o18.put(" last stack state 0x"@);
    lemma_number(o19, (t.states as int / 0x1_0000 % 0x100) as nat, 16, 2, 2);
    let o20 = o19.hex((t.states as int / 0x1_0000 % 0x100) as nat, 2);
    lemma_put(o20, "\r\n"@);
    let o21 = o20.put("\r\n"@);
}

/// The table that FUS left: where it lies, versions, memory, and the states in their
/// bytes.
pub proof fn law_fus_at_boot_line(at: u32, t: FusTable)
    ensures
        fus_at_boot_text(at, t) == (
            "wpan: FUS table at boot (+0x"@ + number_text(at as nat, 16, 0) + "): FUS v"@
                + version_words(t.fus_version) + " mem 0x"@
                + number_text(t.fus_memory as nat, 16, 8) + " | stack v"@
                + version_words(t.stack_version) + " mem 0x"@
                + number_text(t.stack_memory as nat, 16, 8) + " type 0x"@
                + number_text((t.states >> 24) as nat, 16, 2) + " thread_info 0x"@
                + number_text(t.thread_info as nat, 16, 8) + " | last fus state 0x"@
                + number_text(((t.states >> 8) & 0xff) as nat, 16, 2) + " last stack state 0x"@
                + number_text(((t.states >> 16) & 0xff) as nat, 16, 2) + "\r\n"@
        ),
{
    reveal_strlit("wpan: FUS table at boot (+0x");
    reveal_strlit("): FUS v");
    reveal_strlit(" mem 0x");
    reveal_strlit(" | stack v");
    reveal_strlit(" type 0x");
    reveal_strlit(" thread_info 0x");
    reveal_strlit(" | last fus state 0x");
    reveal_strlit(" last stack state 0x");
    reveal_strlit("\r\n");
    lemma_ascii_byte_len(Seq::empty());
    lemma_ascii_byte_len("wpan: FUS table at boot (+0x"@);
    lemma_ascii_byte_len("): FUS v"@);
    lemma_ascii_byte_len(" mem 0x"@);
    lemma_ascii_byte_len(" | stack v"@);
    lemma_ascii_byte_len(" type 0x"@);
    lemma_ascii_byte_len(" thread_info 0x"@);
    lemma_ascii_byte_len(" | last fus state 0x"@);
    lemma_ascii_byte_len(" last stack state 0x"@);
    lemma_ascii_byte_len("\r\n"@);
    lemma_powers();
    lemma_states(t.states);
    let o0 = line();
    lemma_put(o0, "wpan: FUS table at boot (+0x"@);
    let o1 = o0.put("wpan: FUS table at boot (+0x"@);
    assert(o1.text =~= "wpan: FUS table at boot (+0x"@);
    lemma_number(o1, at as nat, 16, 0, 8);
    let o2 = o1.hex(at as nat, 0);
    lemma_put(o2, "): FUS v"@);
    let o3 = o2.put("): FUS v"@);
    lemma_version(o3, t.fus_version);
    let o4 = version_out(o3, t.fus_version);
    lemma_put(o4, " mem 0x"@);
    let o5 = o4.put(" mem 0x"@);
    lemma_number(o5, t.fus_memory as nat, 16, 8, 8);
    let o6 = o5.hex(t.fus_memory as nat, 8);
    lemma_put(o6, " | stack v"@);
    let o7 = o6.put(" | stack v"@);
    lemma_version(o7, t.stack_version);
    let o8 = version_out(o7, t.stack_version);
    lemma_put(o8, " mem 0x"@);
    let o9 = o8.put(" mem 0x"@);
    lemma_number(o9, t.stack_memory as nat, 16, 8, 8);
    let o10 = o9.hex(t.stack_memory as nat, 8);
    lemma_put(o10, " type 0x"@);
    let o11 = o10.put(" type 0x"@);
    lemma_number(o11, (t.states as int / 0x100_0000) as nat, 16, 2, 2);
    let o12 = o11.hex((t.states as int / 0x100_0000) as nat, 2);
    lemma_put(o12, " thread_info 0x"@);
    let o13 = o12.put(" thread_info 0x"@);
    lemma_number(o13, t.thread_info as nat, 16, 8, 8);
    let o14 = o13.hex(t.thread_info as nat, 8);
    lemma_put(o14, " | last fus state 0x"@);
    let o15 = o14.put(" | last fus state 0x"@);
    lemma_number(o15, (t.states as int / 0x100 % 0x100) as nat, 16, 2, 2);
    let o16 = o15.hex((t.states as int / 0x100 % 0x100) as nat, 2);
    lemma_put(o16, " last stack state 0x"@);
    let o17 = o16.put(" last stack state 0x"@);
    lemma_number(o17, (t.states as int / 0x1_0000 % 0x100) as nat, 16, 2, 2);
    let o18 = o17.hex((t.states as int / 0x1_0000 % 0x100) as nat, 2);
    lemma_put(o18, "\r\n"@);
    let o19 = o18.put("\r\n"@);
}

/// FUS as the wireless firmware reports it.
pub proof fn law_fus_info_line(v: u32, mem: u32)
    ensures
        fus_info_text(v, mem) == (
            "wpan: FUS v"@ + version_words(v) + " (0x"@ + number_text(v as nat, 16, 8)
                + ") mem 0x"@ + number_text(mem as nat, 16, 8) + "\r\n"@
        ),
{
    reveal_strlit("wpan: FUS v");
    reveal_strlit(" (0x");
    reveal_strlit(") mem 0x");
    reveal_strlit("\r\n");
    lemma_ascii_byte_len(Seq::empty());
    lemma_ascii_byte_len("wpan: FUS v"@);
    lemma_ascii_byte_len(" (0x"@);
    lemma_ascii_byte_len(") mem 0x"@);
    lemma_ascii_byte_len("\r\n"@);
    lemma_powers();
    let o0 = line();
    lemma_put(o0, "wpan: FUS v"@);
    let o1 = o0.put("wpan: FUS v"@);
    assert(o1.text =~= "wpan: FUS v"@);
    lemma_version(o1, v);
    let o2 = version_out(o1, v);
    lemma_put(o2, " (0x"@);
    let o3 = o2.put(" (0x"@);
    lemma_number(o3, v as nat, 16, 8, 8);
    let o4 = o3.hex(v as nat, 8);
    lemma_put(o4, ") mem 0x"@);
    let o5 = o4.put(") mem 0x"@);
    lemma_number(o5, mem as nat, 16, 8, 8);
    let o6 = o5.hex(mem as nat, 8);
    lemma_put(o6, "\r\n"@);
    let o7 = o6.put("\r\n"@);
}

/// The stack that an info word names, by its low byte alone; the names differ.
pub proof fn law_stack_names(a: u32, b: u32)
    ensures
        a % 0x100 == b % 0x100 ==> stack_text(a) == stack_text(b),
        stack_text(a) == "Thread FTD"@ <==> a % 0x100 == 0x10,
        stack_text(a) == "Thread MTD"@ <==> a % 0x100 == 0x11,
        stack_text(a) == "none"@ <==> a % 0x100 == 0,
        stack_text(a) == "BLE full"@ <==> a % 0x100 == 1,
        stack_text(a) == "BLE HCI"@ <==> a % 0x100 == 2,
        stack_text(a) == "802.15.4 MAC"@ <==> a % 0x100 == 0x40,
        stack_text(a) == "BLE+Thread static"@ <==> a % 0x100 == 0x50,
        byte_len(stack_text(a)) <= 17,
{
    reveal_strlit("none");
    reveal_strlit("BLE full");
    reveal_strlit("BLE HCI");
    reveal_strlit("Thread FTD");
    reveal_strlit("Thread MTD");
    reveal_strlit("802.15.4 MAC");
    reveal_strlit("BLE+Thread static");
    reveal_strlit("?");
    assert("Thread FTD"@[7] == 'F' && "Thread MTD"@[7] == 'M');
    assert("none"@.len() == 4 && "BLE full"@.len() == 8 && "BLE HCI"@.len() == 7
        && "Thread FTD"@.len() == 10 && "Thread MTD"@.len() == 10 && "802.15.4 MAC"@.len() == 12
        && "BLE+Thread static"@.len() == 17 && "?"@.len() == 1);
    lemma_ascii_byte_len(stack_text(a));
}

/// The wireless stack as it reports itself.
pub proof fn law_stack_info_line(v: u32, mem: u32, info: u32)
    ensures
        stack_info_text(v, mem, info) == (
            "wpan: stack v"@ + version_words(v) + " (0x"@ + number_text(v as nat, 16, 8)
                + ") mem 0x"@ + number_text(mem as nat, 16, 8) + " info 0x"@
                + number_text(info as nat, 16, 8) + " = "@ + stack_text(info) + "\r\n"@
        ),
{
    reveal_strlit("wpan: stack v");
    reveal_strlit(" (0x");
    reveal_strlit(") mem 0x");
    reveal_strlit(" info 0x");
    reveal_strlit(" = ");
    reveal_strlit("\r\n");
    lemma_ascii_byte_len(Seq::empty());
    lemma_ascii_byte_len("wpan: stack v"@);
    lemma_ascii_byte_len(" (0x"@);
    lemma_ascii_byte_len(") mem 0x"@);
    lemma_ascii_byte_len(" info 0x"@);
    lemma_ascii_byte_len(" = "@);
    lemma_ascii_byte_len("\r\n"@);
    lemma_powers();
    law_stack_names(info, info);
    let o0 = line();
    lemma_put(o0, "wpan: stack v"@);
    let o1 = o0.put("wpan: stack v"@);
    assert(o1.text =~= "wpan: stack v"@);
    lemma_version(o1, v);
    let o2 = version_out(o1, v);
    lemma_put(o2, " (0x"@);
    let o3 = o2.put(" (0x"@);
    lemma_number(o3, v as nat, 16, 8, 8);
    let o4 = o3.hex(v as nat, 8);
    lemma_put(o4, ") mem 0x"@);
    let o5 = o4.put(") mem 0x"@);
    lemma_number(o5, mem as nat, 16, 8, 8);
    let o6 = o5.hex(mem as nat, 8);
    lemma_put(o6, " info 0x"@);
    let o7 = o6.put(" info 0x"@);
    lemma_number(o7, info as nat, 16, 8, 8);
    let o8 = o7.hex(info as nat, 8);
    lemma_put(o8, " = "@);
    let o9 = o8.put(" = "@);
    lemma_put(o9, stack_text(info));
    let o10 = o9.put(stack_text(info));
    lemma_put(o10, "\r\n"@);
    let o11 = o10.put("\r\n"@);
}

/// A table of FUS, word by word from its keyword on.
pub proof fn law_fus_table(s: Seq<u32>, k: int)
    ensures
        fus_table_at(s, k).states == s[k + 1],
        fus_table_at(s, k).fus_version == s[k + 3],
        fus_table_at(s, k).fus_memory == s[k + 4],
        fus_table_at(s, k).stack_version == s[k + 5],
        fus_table_at(s, k).stack_memory == s[k + 6],
        fus_table_at(s, k).thread_info == s[k + 8],
{
}

/// What runs on CPU2 is told by the first word of its table: FUS when it is the
/// keyword, and otherwise what the wireless firmware reports.
pub proof fn law_info(raw: Seq<u32>, info: DeviceInfo)
    ensures
        raw[0] == 0xA946_56B9 ==> info_says(raw, info) == seq![
            fus_running_text(fus_table_at(raw, 0)),
        ],
        raw[0] != 0xA946_56B9 ==> info_says(raw, info) == seq![
            fus_info_text(info.fus_version, info.fus_memory),
            stack_info_text(info.stack_version, info.stack_memory, info.thread_info),
        ],
{
}

proof fn lemma_first_at(s: Seq<u32>, w: u32, i: int)
    requires
        0 <= i <= s.len(),
    ensures
        match first_at(s, w, i) {
            Some(k) => i <= k < s.len() && s[k] == w && forall|j: int|
                i <= j < k ==> #[trigger] s[j] != w,
            None => forall|j: int| i <= j < s.len() ==> #[trigger] s[j] != w,
        },
    decreases s.len() - i,
{
    if i < s.len() && s[i] != w {
        lemma_first_at(s, w, i + 1);
    }
}

/// The table in the snapshot is the one at the first keyword, told by where it
/// lies in bytes, when all of it lies in the snapshot; without a keyword that is
/// said.
pub proof fn law_snapshot_table(s: Seq<u32>, k: int)
    requires
        s.len() == 64,
        0 <= k < 64,
        forall|j: int| 0 <= j < k ==> #[trigger] s[j] != 0xA946_56B9,
    ensures
        s[k] == 0xA946_56B9 && k <= 54 ==> table_says(s) == seq![
            fus_at_boot_text((4 * k) as u32, fus_table_at(s, k)),
        ],
        s[k] == 0xA946_56B9 && k > 54 ==> table_says(s).len() == 0,
        k == 63 && s[63] != 0xA946_56B9 ==> table_says(s) == seq![
            "wpan: no FUS table keyword in the boot snapshot\r\n"@,
        ],
{
    lemma_first_at(s, FUS_TABLE_KEYWORD, 0);
    match first_at(s, FUS_TABLE_KEYWORD, 0) {
        Some(f) => {
            if f < k {
                assert(s[f] != 0xA946_56B9);
            }
        },
        None => {},
    }
}

/// The first `k` words of a row: a colon before the first, a blank before each.
pub open spec fn row_words(w: Seq<u32>, k: nat) -> Seq<char>
    decreases k,
{
    if k == 0 {
        ":"@
    } else {
        row_words(w, (k - 1) as nat) + " "@ + number_text(w[k - 1] as nat, 16, 8)
    }
}

proof fn lemma_row(o: Out, w: Seq<u32>, k: nat)
    requires
        o.ok,
        1 <= k <= 8,
        byte_len(o.text) + 1 + 9 * k <= o.room,
    ensures
        words_out(o, w, k) == (Out { text: o.text + row_words(w, k), ..o }),
        byte_len(o.text + row_words(w, k)) <= byte_len(o.text) + 1 + 9 * k,
    decreases k,
{
    reveal_strlit(": ");
    reveal_strlit(":");
    reveal_strlit(" ");
    lemma_ascii_byte_len(": "@);
    lemma_ascii_byte_len(" "@);
    lemma_powers();
    let n = number_text(w[k - 1] as nat, 16, 8);
    if k == 1 {
        lemma_put(o, ": "@);
        lemma_number(o.put(": "@), w[0] as nat, 16, 8, 8);
        assert(row_words(w, 0) == ":"@);
        assert(o.text + ": "@ + n =~= o.text + row_words(w, 1));
    } else {
        let m = (k - 1) as nat;
        lemma_row(o, w, m);
        let p = words_out(o, w, m);
        lemma_put(p, " "@);
        lemma_number(p.put(" "@), w[k - 1] as nat, 16, 8, 8);
        assert(o.text + row_words(w, m) + " "@ + n =~= o.text + row_words(w, k));
    }
}

/// A row of the snapshot tells where it starts, in bytes, and its eight words.
pub proof fn law_row_line(row: int, w: Seq<u32>)
    requires
        0 <= row < 8,
    ensures
        row_text(row, w) == "wpan: sram2a+"@ + number_text((row * 32) as nat, 16, 3) + row_words(
            w,
            8,
        ) + "\r\n"@,
{
    reveal_strlit("wpan: sram2a+");
    reveal_strlit("\r\n");
    lemma_ascii_byte_len(Seq::empty());
    lemma_ascii_byte_len("wpan: sram2a+"@);
    lemma_ascii_byte_len("\r\n"@);
    lemma_powers();
    lemma_put(line(), "wpan: sram2a+"@);
    let a = line().put("wpan: sram2a+"@);
    assert(a.text =~= "wpan: sram2a+"@);
    lemma_number(a, (row * 32) as nat, 16, 3, 3);
    let b = a.hex((row * 32) as nat, 3);
    lemma_row(b, w, 8);
    lemma_put(words_out(b, w, 8), "\r\n"@);
}

// ---- status ----

/// The first half of the status behind a text.
pub open spec fn status_front(text: Seq<char>, s: Status) -> Seq<char> {
    text + "wpan: state "@ + digits(s.state as nat, 10) + " ready 0x"@
        + number_text(s.ready as nat, 16, 2) + " hsem5 "@ + flag_text(s.hsem5) + " fus_busy "@
        + flag_text(s.fus_busy) + " sfr 0x"@ + number_text(s.sfr as nat, 16, 8) + " srrvr 0x"@
        + number_text(s.srrvr as nat, 16, 8) + " c2boot "@ + flag_text(s.c2boot) + " ipccdba 0x"@
        + number_text(s.ipccdba as nat, 16, 0)
}

/// The first half of the status on a line with room for it.
#[verifier::rlimit(60)]
proof fn lemma_status_front(o: Out, s: Status)
    requires
        o.ok,
        byte_len(o.text) + 160 <= o.room,
    ensures
        (o.again().put("wpan: state "@).dec(s.state as nat).put(" ready 0x"@)
            .hex(s.ready as nat, 2).put(" hsem5 "@).flag(s.hsem5).put(" fus_busy "@)
            .flag(s.fus_busy).put(" sfr 0x"@).hex(s.sfr as nat, 8).put(" srrvr 0x"@)
            .hex(s.srrvr as nat, 8).put(" c2boot "@).flag(s.c2boot).put(" ipccdba 0x"@)
            .hex(s.ipccdba as nat, 0)) == (Out { text: status_front(o.text, s), ..o }),
        byte_len(status_front(o.text, s)) <= byte_len(o.text) + 160,
{
    reveal_strlit("wpan: state ");
    reveal_strlit(" ready 0x");
    reveal_strlit(" hsem5 ");
    reveal_strlit(" fus_busy ");
    reveal_strlit(" sfr 0x");
    reveal_strlit(" srrvr 0x");
    reveal_strlit(" c2boot ");
    reveal_strlit(" ipccdba 0x");
    lemma_ascii_byte_len(Seq::empty());
    lemma_ascii_byte_len("wpan: state "@);
    lemma_ascii_byte_len(" ready 0x"@);
    lemma_ascii_byte_len(" hsem5 "@);
    lemma_ascii_byte_len(" fus_busy "@);
    lemma_ascii_byte_len(" sfr 0x"@);
    lemma_ascii_byte_len(" srrvr 0x"@);
    lemma_ascii_byte_len(" c2boot "@);
    lemma_ascii_byte_len(" ipccdba 0x"@);
    lemma_powers();
    let o0 = o.again();
    lemma_put(o0, "wpan: state "@);
    let o1 = o0.put("wpan: state "@);
    lemma_number(o1, s.state as nat, 10, 0, 3);
    let o2 = o1.dec(s.state as nat);
    lemma_put(o2, " ready 0x"@);
    let o3 = o2.put(" ready 0x"@);
    lemma_number(o3, s.ready as nat, 16, 2, 2);
    let o4 = o3.hex(s.ready as nat, 2);
    lemma_put(o4, " hsem5 "@);
    let o5 = o4.put(" hsem5 "@);
    lemma_flag(o5, s.hsem5);
    let o6 = o5.flag(s.hsem5);
    lemma_put(o6, " fus_busy "@);
    let o7 = o6.put(" fus_busy "@);
    lemma_flag(o7, s.fus_busy);
    let o8 = o7.flag(s.fus_busy);
    lemma_put(o8, " sfr 0x"@);
    let o9 = o8.put(" sfr 0x"@);
    lemma_number(o9, s.sfr as nat, 16, 8, 8);
    let o10 = o9.hex(s.sfr as nat, 8);
    lemma_put(o10, " srrvr 0x"@);
    let o11 = o10.put(" srrvr 0x"@);
    lemma_number(o11, s.srrvr as nat, 16, 8, 8);
    let o12 = o11.hex(s.srrvr as nat, 8);
    lemma_put(o12, " c2boot "@);
    let o13 = o12.put(" c2boot "@);
    lemma_flag(o13, s.c2boot);
    let o14 = o13.flag(s.c2boot);
    lemma_put(o14, " ipccdba 0x"@);
    let o15 = o14.put(" ipccdba 0x"@);
    lemma_number(o15, s.ipccdba as nat, 16, 0, 8);
    let o16 = o15.hex(s.ipccdba as nat, 0);
    assert(byte_len(o16.text) <= byte_len(o.text) + 160);
}

/// The status on a line with room for it; on a shorter one, as many pieces as fit.
#[verifier::rlimit(60)]
pub proof fn law_status_line(o: Out, s: Status)
    requires
        o.ok,
        byte_len(o.text) + 400 <= o.room,
    ensures
        status_out(o, s).text == (
            status_front(o.text, s) + " c1.sr 0x"@ + number_text(s.c1_sr as nat, 16, 3)
                + " c1.mr 0x"@ + number_text(s.c1_mr as nat, 16, 8) + " c2.sr 0x"@
                + number_text(s.c2_sr as nat, 16, 3) + " | ref "@
                + number_text(s.ref0 as nat, 16, 8) + " "@ + number_text(s.ref1 as nat, 16, 8)
                + " "@ + number_text(s.ref2 as nat, 16, 8) + " | devinfo "@
                + number_text(s.info0 as nat, 16, 8) + " "@ + number_text(s.info1 as nat, 16, 8)
                + " "@ + number_text(s.info2 as nat, 16, 8) + " "@
                + number_text(s.info3 as nat, 16, 8) + " "@ + number_text(s.info4 as nat, 16, 8)
                + " "@ + number_text(s.info5 as nat, 16, 8) + "\r\n"@
        ),
{
    reveal_strlit(" c1.sr 0x");
    reveal_strlit(" c1.mr 0x");
    reveal_strlit(" c2.sr 0x");
    reveal_strlit(" | ref ");
    reveal_strlit(" ");
    reveal_strlit(" | devinfo ");
    reveal_strlit("\r\n");
    lemma_ascii_byte_len(Seq::empty());
    lemma_ascii_byte_len(" c1.sr 0x"@);
    lemma_ascii_byte_len(" c1.mr 0x"@);
    lemma_ascii_byte_len(" c2.sr 0x"@);
    lemma_ascii_byte_len(" | ref "@);
    lemma_ascii_byte_len(" "@);
    lemma_ascii_byte_len(" | devinfo "@);
    lemma_ascii_byte_len("\r\n"@);
    lemma_powers();
    lemma_status_front(o, s);
    let o0 = o.again().put("wpan: state "@).dec(s.state as nat).put(" ready 0x"@)
        .hex(s.ready as nat, 2).put(" hsem5 "@).flag(s.hsem5).put(" fus_busy "@)
        .flag(s.fus_busy).put(" sfr 0x"@).hex(s.sfr as nat, 8).put(" srrvr 0x"@)
        .hex(s.srrvr as nat, 8).put(" c2boot "@).flag(s.c2boot).put(" ipccdba 0x"@)
        .hex(s.ipccdba as nat, 0);
    lemma_put(o0, " c1.sr 0x"@);
    let o1 = o0.put(" c1.sr 0x"@);
    lemma_number(o1, s.c1_sr as nat, 16, 3, 8);
    let o2 = o1.hex(s.c1_sr as nat, 3);
    lemma_put(o2, " c1.mr 0x"@);
    let o3 = o2.put(" c1.mr 0x"@);
    lemma_number(o3, s.c1_mr as nat, 16, 8, 8);
    let o4 = o3.hex(s.c1_mr as nat, 8);
    lemma_put(o4, " c2.sr 0x"@);
    let o5 = o4.put(" c2.sr 0x"@);
    lemma_number(o5, s.c2_sr as nat, 16, 3, 8);
    let o6 = o5.hex(s.c2_sr as nat, 3);
    lemma_put(o6, " | ref "@);
    let o7 = o6.put(" | ref "@);
    lemma_number(o7, s.ref0 as nat, 16, 8, 8);
    let o8 = o7.hex(s.ref0 as nat, 8);
    lemma_put(o8, " "@);
    let o9 = o8.put(" "@);
    lemma_number(o9, s.ref1 as nat, 16, 8, 8);
    let o10 = o9.hex(s.ref1 as nat, 8);
    lemma_put(o10, " "@);
    let o11 = o10.put(" "@);
    lemma_number(o11, s.ref2 as nat, 16, 8, 8);
    let o12 = o11.hex(s.ref2 as nat, 8);
    lemma_put(o12, " | devinfo "@);
    let o13 = o12.put(" | devinfo "@);
    lemma_number(o13, s.info0 as nat, 16, 8, 8);
    let o14 = o13.hex(s.info0 as nat, 8);
    lemma_put(o14, " "@);
    let o15 = o14.put(" "@);
    lemma_number(o15, s.info1 as nat, 16, 8, 8);
    let o16 = o15.hex(s.info1 as nat, 8);
    lemma_put(o16, " "@);
    let o17 = o16.put(" "@);
    lemma_number(o17, s.info2 as nat, 16, 8, 8);
    let o18 = o17.hex(s.info2 as nat, 8);
    lemma_put(o18, " "@);
    let o19 = o18.put(" "@);
    lemma_number(o19, s.info3 as nat, 16, 8, 8);
    let o20 = o19.hex(s.info3 as nat, 8);
    lemma_put(o20, " "@);
    let o21 = o20.put(" "@);
    lemma_number(o21, s.info4 as nat, 16, 8, 8);
    let o22 = o21.hex(s.info4 as nat, 8);
    lemma_put(o22, " "@);
    let o23 = o22.put(" "@);
    lemma_number(o23, s.info5 as nat, 16, 8, 8);
    let o24 = o23.hex(s.info5 as nat, 8);
    lemma_put(o24, "\r\n"@);
    let o25 = o24.put("\r\n"@);
}

/// The registers of the second status line, in their order.
pub proof fn law_registers_line(s: Status2)
    ensures
        registers_out(line(), s).text == (
            "wpan: flash cr 0x"@ + number_text(s.cr as nat, 16, 8) + " sr 0x"@
                + number_text(s.sr as nat, 16, 8) + " c2cr 0x"@
                + number_text(s.c2cr as nat, 16, 8) + " c2sr 0x"@
                + number_text(s.c2sr as nat, 16, 8) + " acr 0x"@
                + number_text(s.acr as nat, 16, 8) + " c2acr 0x"@
                + number_text(s.c2acr as nat, 16, 8) + " | ccipr 0x"@
                + number_text(s.ccipr as nat, 16, 8) + " crrcr 0x"@
                + number_text(s.crrcr as nat, 16, 8) + " extcfgr 0x"@
                + number_text(s.extcfgr as nat, 16, 8) + " cr 0x"@
                + number_text(s.rcc_cr as nat, 16, 8) + " | hsem"@
        ),
{
    reveal_strlit("wpan: flash cr 0x");
    reveal_strlit(" sr 0x");
    reveal_strlit(" c2cr 0x");
    reveal_strlit(" c2sr 0x");
    reveal_strlit(" acr 0x");
    reveal_strlit(" c2acr 0x");
    reveal_strlit(" | ccipr 0x");
    reveal_strlit(" crrcr 0x");
    reveal_strlit(" extcfgr 0x");
    reveal_strlit(" cr 0x");
    reveal_strlit(" | hsem");
    lemma_ascii_byte_len(Seq::empty());
    lemma_ascii_byte_len("wpan: flash cr 0x"@);
    lemma_ascii_byte_len(" sr 0x"@);
    lemma_ascii_byte_len(" c2cr 0x"@);
    lemma_ascii_byte_len(" c2sr 0x"@);
    lemma_ascii_byte_len(" acr 0x"@);
    lemma_ascii_byte_len(" c2acr 0x"@);
    lemma_ascii_byte_len(" | ccipr 0x"@);
    lemma_ascii_byte_len(" crrcr 0x"@);
    lemma_ascii_byte_len(" extcfgr 0x"@);
    lemma_ascii_byte_len(" cr 0x"@);
    lemma_ascii_byte_len(" | hsem"@);
    lemma_powers();
    let o0 = line().again();
    lemma_put(o0, "wpan: flash cr 0x"@);
    let o1 = o0.put("wpan: flash cr 0x"@);
    assert(o1.text =~= "wpan: flash cr 0x"@);
    lemma_number(o1, s.cr as nat, 16, 8, 8);
    let o2 = o1.hex(s.cr as nat, 8);
    lemma_put(o2, " sr 0x"@);
    let o3 = o2.put(" sr 0x"@);
    lemma_number(o3, s.sr as nat, 16, 8, 8);
    let o4 = o3.hex(s.sr as nat, 8);
    lemma_put(o4, " c2cr 0x"@);
    let o5 = o4.put(" c2cr 0x"@);
    lemma_number(o5, s.c2cr as nat, 16, 8, 8);
    let o6 = o5.hex(s.c2cr as nat, 8);
    lemma_put(o6, " c2sr 0x"@);
    let o7 = o6.put(" c2sr 0x"@);
    lemma_number(o7, s.c2sr as nat, 16, 8, 8);
    let o8 = o7.hex(s.c2sr as nat, 8);
    lemma_put(o8, " acr 0x"@);
    let o9 = o8.put(" acr 0x"@);
    lemma_number(o9, s.acr as nat, 16, 8, 8);
    let o10 = o9.hex(s.acr as nat, 8);
    lemma_put(o10, " c2acr 0x"@);
    let o11 = o10.put(" c2acr 0x"@);
    lemma_number(o11, s.c2acr as nat, 16, 8, 8);
    let o12 = o11.hex(s.c2acr as nat, 8);
    lemma_put(o12, " | ccipr 0x"@);
    let o13 = o12.put(" | ccipr 0x"@);
    lemma_number(o13, s.ccipr as nat, 16, 8, 8);
    let o14 = o13.hex(s.ccipr as nat, 8);
    lemma_put(o14, " crrcr 0x"@);
    let o15 = o14.put(" crrcr 0x"@);
    lemma_number(o15, s.crrcr as nat, 16, 8, 8);
    let o16 = o15.hex(s.crrcr as nat, 8);
    lemma_put(o16, " extcfgr 0x"@);
    let o17 = o16.put(" extcfgr 0x"@);
    lemma_number(o17, s.extcfgr as nat, 16, 8, 8);
    let o18 = o17.hex(s.extcfgr as nat, 8);
    lemma_put(o18, " cr 0x"@);
    let o19 = o18.put(" cr 0x"@);
    lemma_number(o19, s.rcc_cr as nat, 16, 8, 8);
    let o20 = o19.hex(s.rcc_cr as nat, 8);
    lemma_put(o20, " | hsem"@);
    let o21 = o20.put(" | hsem"@);
}

/// Every semaphore that is locked is named with the core that holds it, in order,
/// and no other.
pub open spec fn locks_text(locks: Seq<Option<u8>>, k: nat) -> Seq<char>
    decreases k,
{
    if k == 0 {
        Seq::empty()
    } else {
        locks_text(locks, (k - 1) as nat) + (match locks[k - 1] {
            Some(core) => " "@ + digits((k - 1) as nat, 10) + ":c"@ + digits(core as nat, 10),
            None => Seq::empty(),
        })
    }
}

/// The locks on a line with room for them.
pub proof fn law_locks_line(o: Out, locks: Seq<Option<u8>>, k: nat)
    requires
        k <= 10,
        byte_len(o.text) + 7 * k <= o.room,
    ensures
        locks_out(o, locks, k) == (Out { text: o.text + locks_text(locks, k), ok: true, ..o }),
        byte_len(o.text + locks_text(locks, k)) <= byte_len(o.text) + 7 * k,
    decreases k,
{
    reveal_strlit(" ");
    reveal_strlit(":c");
    lemma_ascii_byte_len(" "@);
    lemma_ascii_byte_len(":c"@);
    lemma_powers();
    if k == 0 {
        assert(o.text + locks_text(locks, 0) =~= o.text);
    } else {
        let m = (k - 1) as nat;
        law_locks_line(o, locks, m);
        let p = locks_out(o, locks, m);
        match locks[k - 1] {
            Some(core) => {
                lemma_put(p, " "@);
                let a = p.put(" "@);
                lemma_number(a, m, 10, 0, 1);
                let b = a.dec(m);
                lemma_put(b, ":c"@);
                let c = b.put(":c"@);
                lemma_number(c, core as nat, 10, 0, 3);
                assert(o.text + locks_text(locks, m) + " "@ + digits(m, 10) + ":c"@ + digits(
                    core as nat,
                    10,
                ) =~= o.text + locks_text(locks, k));
            },
            None => {
                assert(o.text + locks_text(locks, m) =~= o.text + locks_text(locks, k));
            },
        }
    }
}

/// The second status line: the registers, the locks, the line end.
pub proof fn law_status2(o: Out, s: Status2, locks: Seq<Option<u8>>)
    ensures
        status2_out(o, s, locks) == locks_out(registers_out(o, s), locks, 10).put("\r\n"@),
{
}

/// The 48 MHz clock.
pub proof fn law_clk48_line(c: Clk48)
    ensures
        clk48_out(line(), c).text == (
            "wpan: clk48sel "@ + digits(c.sel as nat, 10) + " hsi48on "@ + flag_text(c.hsi48on)
                + " hsi48rdy "@ + flag_text(c.hsi48rdy) + " pllon "@ + flag_text(c.pllon)
                + " pllrdy "@ + flag_text(c.pllrdy) + " hsem5 "@ + flag_text(c.hsem5) + "\r\n"@
        ),
{
    reveal_strlit("wpan: clk48sel ");
    reveal_strlit(" hsi48on ");
    reveal_strlit(" hsi48rdy ");
    reveal_strlit(" pllon ");
    reveal_strlit(" pllrdy ");
    reveal_strlit(" hsem5 ");
    reveal_strlit("\r\n");
    lemma_ascii_byte_len(Seq::empty());
    lemma_ascii_byte_len("wpan: clk48sel "@);
    lemma_ascii_byte_len(" hsi48on "@);
    lemma_ascii_byte_len(" hsi48rdy "@);
    lemma_ascii_byte_len(" pllon "@);
    lemma_ascii_byte_len(" pllrdy "@);
    lemma_ascii_byte_len(" hsem5 "@);
    lemma_ascii_byte_len("\r\n"@);
    lemma_powers();
    let o0 = line().again();
    lemma_put(o0, "wpan: clk48sel "@);
    let o1 = o0.put("wpan: clk48sel "@);
    assert(o1.text =~= "wpan: clk48sel "@);
    lemma_number(o1, c.sel as nat, 10, 0, 3);
    let o2 = o1.dec(c.sel as nat);
    lemma_put(o2, " hsi48on "@);
    let o3 = o2.put(" hsi48on "@);
    lemma_flag(o3, c.hsi48on);
    let o4 = o3.flag(c.hsi48on);
    lemma_put(o4, " hsi48rdy "@);
    let o5 = o4.put(" hsi48rdy "@);
    lemma_flag(o5, c.hsi48rdy);
    let o6 = o5.flag(c.hsi48rdy);
    lemma_put(o6, " pllon "@);
    let o7 = o6.put(" pllon "@);
    lemma_flag(o7, c.pllon);
    let o8 = o7.flag(c.pllon);
    lemma_put(o8, " pllrdy "@);
    let o9 = o8.put(" pllrdy "@);
    lemma_flag(o9, c.pllrdy);
    let o10 = o9.flag(c.pllrdy);
    lemma_put(o10, " hsem5 "@);
    let o11 = o10.put(" hsem5 "@);
    lemma_flag(o11, c.hsem5);
    let o12 = o11.flag(c.hsem5);
    lemma_put(o12, "\r\n"@);
    let o13 = o12.put("\r\n"@);
}

// ---- heartbeat and clocks ----

/// The heartbeat: when the firmware was built, the time since the start, the time of
/// day, and the button.
pub proof fn law_heartbeat_line(stamp: Seq<char>, b: Beat, h: u8, m: u8, s: u8)
    requires
        byte_len(stamp) <= 60,
        b.time == Some((h, m, s)),
    ensures
        heartbeat_text(stamp, b) == (
            "sensor-board (built "@ + stamp + ") alive: uptime "@
                + digits(b.uptime_ms as nat, 10) + "ms rtc "@ + number_text(h as nat, 10, 2)
                + ":"@ + number_text(m as nat, 10, 2) + ":"@ + number_text(s as nat, 10, 2)
                + "."@ + number_text(subsecond_ms(b.ss), 10, 3) + " button "@
                + (if b.pressed { "down"@ } else { "up"@ }) + "\r\n"@
        ),
{
    reveal_strlit("sensor-board (built ");
    reveal_strlit(") alive: uptime ");
    reveal_strlit("ms rtc ");
    reveal_strlit(":");
    reveal_strlit(".");
    reveal_strlit(" button ");
    reveal_strlit("down");
    reveal_strlit("up");
    reveal_strlit("\r\n");
    lemma_ascii_byte_len(Seq::empty());
    lemma_ascii_byte_len("sensor-board (built "@);
    lemma_ascii_byte_len(") alive: uptime "@);
    lemma_ascii_byte_len("ms rtc "@);
    lemma_ascii_byte_len(":"@);
    lemma_ascii_byte_len("."@);
    lemma_ascii_byte_len(" button "@);
    lemma_ascii_byte_len("down"@);
    lemma_ascii_byte_len("up"@);
    lemma_ascii_byte_len("\r\n"@);
    lemma_powers();
    law_subsecond(b.ss);
    let o0 = beat_line();
    lemma_put(o0, "sensor-board (built "@);
    let o1 = o0.put("sensor-board (built "@);
    assert(o1.text =~= "sensor-board (built "@);
    lemma_put(o1, stamp);
    let o2 = o1.put(stamp);
    lemma_put(o2, ") alive: uptime "@);
    let o3 = o2.put(") alive: uptime "@);
    lemma_number(o3, b.uptime_ms as nat, 10, 0, 20);
    let o4 = o3.dec(b.uptime_ms as nat);
    lemma_put(o4, "ms rtc "@);
    let o5 = o4.put("ms rtc "@);
    lemma_number(o5, h as nat, 10, 2, 3);
    let o6 = o5.dec0(h as nat, 2);
    lemma_put(o6, ":"@);
    let o7 = o6.put(":"@);
    lemma_number(o7, m as nat, 10, 2, 3);
    let o8 = o7.dec0(m as nat, 2);
    lemma_put(o8, ":"@);
    let o9 = o8.put(":"@);
    lemma_number(o9, s as nat, 10, 2, 3);
    let o10 = o9.dec0(s as nat, 2);
    lemma_put(o10, "."@);
    let o11 = o10.put("."@);
    lemma_number(o11, subsecond_ms(b.ss), 10, 3, 3);
    let o12 = o11.dec0(subsecond_ms(b.ss), 3);
    lemma_put(o12, " button "@);
    let o13 = o12.put(" button "@);
    lemma_put(o13, if b.pressed { "down"@ } else { "up"@ });
    let o14 = o13.put(if b.pressed { "down"@ } else { "up"@ });
    lemma_put(o14, "\r\n"@);
    let o15 = o14.put("\r\n"@);
}

/// Without a time of day, the heartbeat says 99:99:99.
pub proof fn law_heartbeat_without_time(stamp: Seq<char>, b: Beat)
    requires
        b.time is None,
    ensures
        heartbeat_text(stamp, b) == heartbeat_text(
            stamp,
            (Beat { time: Some((99u8, 99u8, 99u8)), ..b }),
        ),
{
}

/// The subsecond counter counts down from 255 in 256ths of a second: the
/// milliseconds are those past, rounded down.
pub proof fn law_subsecond(ss: u32)
    ensures
        subsecond_ms(ss) < 1000,
        ss <= 255 ==> subsecond_ms(ss) * 256 <= (255 - ss) * 1000 < (subsecond_ms(ss) + 1) * 256,
        ss > 255 ==> subsecond_ms(ss) == 0,
{
}

/// Clock sources, each by its number.
pub proof fn law_clock_sources(v: u8)
    ensures
        sysclk_text(v) == (if v == 0 {
            "MSI"@
        } else if v == 1 {
            "HSI16"@
        } else if v == 2 {
            "HSE"@
        } else {
            "PLL"@
        }),
        pllsrc_text(v) == (if v == 1 {
            "MSI"@
        } else if v == 2 {
            "HSI16"@
        } else if v == 3 {
            "HSE"@
        } else {
            "none"@
        }),
        usb48_text(v) == (if v == 0 {
            "HSI48"@
        } else if v == 1 {
            "PLLSAI1Q"@
        } else if v == 2 {
            "PLLQ"@
        } else {
            "MSI"@
        }),
        rtcsel_text(v) == (if v == 1 {
            "LSE"@
        } else if v == 2 {
            "LSI"@
        } else if v == 3 {
            "HSE/32"@
        } else {
            "none"@
        }),
{
}

/// The clock report tells each source and flag under its own name.
#[verifier::rlimit(80)]
pub proof fn law_clock_line(c: Clocks)
    ensures
        clocks_out(beat_line(), c).text == (
            "clocks: sysclk="@ + sysclk_text(c.sws) + " pllsrc="@ + pllsrc_text(c.pllsrc)
                + " usb48="@ + usb48_text(c.clk48sel) + " rtc="@ + rtcsel_text(c.rtcsel)
                + " hse_rdy="@ + flag_text(c.hse_rdy) + " lse_rdy="@ + flag_text(c.lse_rdy)
                + " msi_on="@ + flag_text(c.msi_on) + " hsi16_on="@ + flag_text(c.hsi16_on)
                + " hsi48_on="@ + flag_text(c.hsi48_on) + " iwdg pr="@ + digits(c.pr as nat, 10)
                + " rl="@ + digits(c.rl as nat, 10) + "\r\n"@
        ),
{
    reveal_strlit("clocks: sysclk=");
    reveal_strlit(" pllsrc=");
    reveal_strlit(" usb48=");
    reveal_strlit(" rtc=");
    reveal_strlit(" hse_rdy=");
    reveal_strlit(" lse_rdy=");
    reveal_strlit(" msi_on=");
    reveal_strlit(" hsi16_on=");
    reveal_strlit(" hsi48_on=");
    reveal_strlit(" iwdg pr=");
    reveal_strlit(" rl=");
    reveal_strlit("\r\n");
    lemma_ascii_byte_len(Seq::empty());
    lemma_ascii_byte_len("clocks: sysclk="@);
    lemma_ascii_byte_len(" pllsrc="@);
    lemma_ascii_byte_len(" usb48="@);
    lemma_ascii_byte_len(" rtc="@);
    lemma_ascii_byte_len(" hse_rdy="@);
    lemma_ascii_byte_len(" lse_rdy="@);
    lemma_ascii_byte_len(" msi_on="@);
    lemma_ascii_byte_len(" hsi16_on="@);
    lemma_ascii_byte_len(" hsi48_on="@);
    lemma_ascii_byte_len(" iwdg pr="@);
    lemma_ascii_byte_len(" rl="@);
    lemma_ascii_byte_len("\r\n"@);
    lemma_powers();
    lemma_source_names(c);
    let o0 = beat_line().again();
    lemma_put(o0, "clocks: sysclk="@);
    let o1 = o0.put("clocks: sysclk="@);
    assert(o1.text =~= "clocks: sysclk="@);
    lemma_put(o1, sysclk_text(c.sws));
    let o2 = o1.put(sysclk_text(c.sws));
    lemma_put(o2, " pllsrc="@);
    let o3 = o2.put(" pllsrc="@);
    lemma_put(o3, pllsrc_text(c.pllsrc));
    let o4 = o3.put(pllsrc_text(c.pllsrc));
    lemma_put(o4, " usb48="@);
    let o5 = o4.put(" usb48="@);
    lemma_put(o5, usb48_text(c.clk48sel));
    let o6 = o5.put(usb48_text(c.clk48sel));
    lemma_put(o6, " rtc="@);
    let o7 = o6.put(" rtc="@);
    lemma_put(o7, rtcsel_text(c.rtcsel));
    let o8 = o7.put(rtcsel_text(c.rtcsel));
    lemma_put(o8, " hse_rdy="@);
    let o9 = o8.put(" hse_rdy="@);
    lemma_flag(o9, c.hse_rdy);
    let o10 = o9.flag(c.hse_rdy);
    lemma_put(o10, " lse_rdy="@);
    let o11 = o10.put(" lse_rdy="@);
    lemma_flag(o11, c.lse_rdy);
    let o12 = o11.flag(c.lse_rdy);
    lemma_put(o12, " msi_on="@);
    let o13 = o12.put(" msi_on="@);
    lemma_flag(o13, c.msi_on);
    let o14 = o13.flag(c.msi_on);
    lemma_put(o14, " hsi16_on="@);
    let o15 = o14.put(" hsi16_on="@);
    lemma_flag(o15, c.hsi16_on);
    let o16 = o15.flag(c.hsi16_on);
    lemma_put(o16, " hsi48_on="@);
    let o17 = o16.put(" hsi48_on="@);
    lemma_flag(o17, c.hsi48_on);
    let o18 = o17.flag(c.hsi48_on);
    lemma_put(o18, " iwdg pr="@);
    let o19 = o18.put(" iwdg pr="@);
    lemma_number(o19, c.pr as nat, 10, 0, 3);
    let o20 = o19.dec(c.pr as nat);
    lemma_put(o20, " rl="@);
    let o21 = o20.put(" rl="@);
    lemma_number(o21, c.rl as nat, 10, 0, 5);
    let o22 = o21.dec(c.rl as nat);
    lemma_put(o22, "\r\n"@);
    let o23 = o22.put("\r\n"@);
}

} // verus!
