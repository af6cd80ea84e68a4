//! What the CPU2 console commands print.

use vstd::prelude::*;
use crate::text::Out;
use crate::text::Say;
use crate::text::Text;
use crate::text::line;
use crate::text::new_line;
use crate::text::put;
use crate::text::put_dec;
use crate::text::put_flag;
use crate::text::put_hex;
use crate::text::wrote;

verus! {

// ---- status ----

/// A register-level view of CPU2 bring-up.
#[derive(Clone, Copy)]
pub struct Status {
    /// Where the CPU2 task is: 0 not started, 1 booting CPU2, 2 running.
    pub state: u8,
    /// Ready event value: 0 wireless firmware, 1 FUS, 0xFE unknown, 0xFF none.
    pub ready: u8,
    /// The semaphore of the 48 MHz clock is taken.
    pub hsem5: bool,
    pub fus_busy: bool,
    pub sfr: u32,
    pub srrvr: u32,
    pub c2boot: bool,
    pub ipccdba: u32,
    pub c1_sr: u32,
    pub c1_mr: u32,
    pub c2_sr: u32,
    /// The first words of the reference table.
    pub ref0: u32,
    pub ref1: u32,
    pub ref2: u32,
    /// The first words of the device info table.
    pub info0: u32,
    pub info1: u32,
    pub info2: u32,
    pub info3: u32,
    pub info4: u32,
    pub info5: u32,
}

/// The view as one write: what does not fit is left off, the line end included.
pub open spec fn status_out(o: Out, s: Status) -> Out {
    o.again().put("wpan: state "@).dec(s.state as nat).put(" ready 0x"@).hex(s.ready as nat, 2)
        .put(" hsem5 "@).flag(s.hsem5).put(" fus_busy "@).flag(s.fus_busy).put(" sfr 0x"@)
        .hex(s.sfr as nat, 8).put(" srrvr 0x"@).hex(s.srrvr as nat, 8).put(" c2boot "@)
        .flag(s.c2boot).put(" ipccdba 0x"@).hex(s.ipccdba as nat, 0).put(" c1.sr 0x"@)
        .hex(s.c1_sr as nat, 3).put(" c1.mr 0x"@).hex(s.c1_mr as nat, 8).put(" c2.sr 0x"@)
        .hex(s.c2_sr as nat, 3).put(" | ref "@).hex(s.ref0 as nat, 8).put(" "@)
        .hex(s.ref1 as nat, 8).put(" "@).hex(s.ref2 as nat, 8).put(" | devinfo "@)
        .hex(s.info0 as nat, 8).put(" "@).hex(s.info1 as nat, 8).put(" "@)
        .hex(s.info2 as nat, 8).put(" "@).hex(s.info3 as nat, 8).put(" "@)
        .hex(s.info4 as nat, 8).put(" "@).hex(s.info5 as nat, 8).put("\r\n"@)
}

/// Appends the register-level view of CPU2 bring-up, usable even while the CPU2
/// task is blocked.
pub fn status_line(s: &Status, l: &mut heapless::String<224>)
    ensures
        wrote(*final(l), true) == status_out(wrote(*old(l), true), *s).again(),
{
    let w = put(l, true, "wpan: state ");
    let w = put_dec(l, w, s.state as u64);
    let w = put(l, w, " ready 0x");
    let w = put_hex(l, w, s.ready as u32, 2);
    let w = put(l, w, " hsem5 ");
    let w = put_flag(l, w, s.hsem5);
    let w = put(l, w, " fus_busy ");
    let w = put_flag(l, w, s.fus_busy);
    let w = put(l, w, " sfr 0x");
    let w = put_hex(l, w, s.sfr, 8);
    let w = put(l, w, " srrvr 0x");
    let w = put_hex(l, w, s.srrvr, 8);
    let w = put(l, w, " c2boot ");
    let w = put_flag(l, w, s.c2boot);
    let w = put(l, w, " ipccdba 0x");
    let w = put_hex(l, w, s.ipccdba, 0);
    let w = put(l, w, " c1.sr 0x");
    let w = put_hex(l, w, s.c1_sr, 3);
    let w = put(l, w, " c1.mr 0x");
    let w = put_hex(l, w, s.c1_mr, 8);
    let w = put(l, w, " c2.sr 0x");
    let w = put_hex(l, w, s.c2_sr, 3);
    let w = put(l, w, " | ref ");
    let w = put_hex(l, w, s.ref0, 8);
    let w = put(l, w, " ");
    let w = put_hex(l, w, s.ref1, 8);
    let w = put(l, w, " ");
    let w = put_hex(l, w, s.ref2, 8);
    let w = put(l, w, " | devinfo ");
    let w = put_hex(l, w, s.info0, 8);
    let w = put(l, w, " ");
    let w = put_hex(l, w, s.info1, 8);
    let w = put(l, w, " ");
    let w = put_hex(l, w, s.info2, 8);
    let w = put(l, w, " ");
    let w = put_hex(l, w, s.info3, 8);
    let w = put(l, w, " ");
    let w = put_hex(l, w, s.info4, 8);
    let w = put(l, w, " ");
    let w = put_hex(l, w, s.info5, 8);
    let _ = put(l, w, "\r\n");
}

/// The flash controller of both cores, the clock registers, and the hardware
/// semaphores: for each that is locked, the core that holds it.
#[derive(Clone, Copy)]
pub struct Status2 {
    pub cr: u32,
    pub sr: u32,
    pub c2cr: u32,
    pub c2sr: u32,
    pub acr: u32,
    pub c2acr: u32,
    pub ccipr: u32,
    pub crrcr: u32,
    pub extcfgr: u32,
    pub rcc_cr: u32,
}

/// The registers as one write.
pub open spec fn registers_out(o: Out, s: Status2) -> Out {
    o.again().put("wpan: flash cr 0x"@).hex(s.cr as nat, 8).put(" sr 0x"@).hex(s.sr as nat, 8)
        .put(" c2cr 0x"@).hex(s.c2cr as nat, 8).put(" c2sr 0x"@).hex(s.c2sr as nat, 8)
        .put(" acr 0x"@).hex(s.acr as nat, 8).put(" c2acr 0x"@).hex(s.c2acr as nat, 8)
        .put(" | ccipr 0x"@).hex(s.ccipr as nat, 8).put(" crrcr 0x"@).hex(s.crrcr as nat, 8)
        .put(" extcfgr 0x"@).hex(s.extcfgr as nat, 8).put(" cr 0x"@).hex(s.rcc_cr as nat, 8)
        .put(" | hsem"@)
}

/// The first `k` semaphores: each that is locked with the core that holds it,
/// as a write of its own.
pub open spec fn locks_out(o: Out, locks: Seq<Option<u8>>, k: nat) -> Out
    decreases k,
{
    if k == 0 {
        o.again()
    } else {
        let p = locks_out(o, locks, (k - 1) as nat);
        match locks[k - 1] {
            Some(core) => p.put(" "@).dec((k - 1) as nat).put(":c"@).dec(core as nat).again(),
            None => p,
        }
    }
}

/// The registers, the semaphores and the line end.
pub open spec fn status2_out(o: Out, s: Status2, locks: Seq<Option<u8>>) -> Out {
    locks_out(registers_out(o, s), locks, 10).put("\r\n"@)
}

/// Appends the flash controller (both cores) and the hardware semaphores, for
/// debugging a CPU2 that stops answering. `locks` holds the core that holds
/// each semaphore.
pub fn status2_line(s: &Status2, locks: &[Option<u8>; 10], l: &mut heapless::String<224>)
    ensures
        wrote(*final(l), true) == status2_out(wrote(*old(l), true), *s, locks@).again(),
{
    let ghost start = wrote(*l, true);
    let w = put(l, true, "wpan: flash cr 0x");
    let w = put_hex(l, w, s.cr, 8);
    let w = put(l, w, " sr 0x");
    let w = put_hex(l, w, s.sr, 8);
    let w = put(l, w, " c2cr 0x");
    let w = put_hex(l, w, s.c2cr, 8);
    let w = put(l, w, " c2sr 0x");
    let w = put_hex(l, w, s.c2sr, 8);
    let w = put(l, w, " acr 0x");
    let w = put_hex(l, w, s.acr, 8);
    let w = put(l, w, " c2acr 0x");
    let w = put_hex(l, w, s.c2acr, 8);
    let w = put(l, w, " | ccipr 0x");
    let w = put_hex(l, w, s.ccipr, 8);
    let w = put(l, w, " crrcr 0x");
    let w = put_hex(l, w, s.crrcr, 8);
    let w = put(l, w, " extcfgr 0x");
    let w = put_hex(l, w, s.extcfgr, 8);
    let w = put(l, w, " cr 0x");
    let w = put_hex(l, w, s.rcc_cr, 8);
    let _ = put(l, w, " | hsem");
    let ghost o = registers_out(start, *s);
    let mut i: usize = 0;
    while i < 10
        invariant
            i <= 10,
            wrote(*l, true) == locks_out(o, locks@, i as nat),
        decreases 10 - i,
    {
        if let Some(core) = locks[i] {
            let w = put(l, true, " ");
            let w = put_dec(l, w, i as u64);
            let w = put(l, w, ":c");
            let _ = put_dec(l, w, core as u64);
        }
        i = i + 1;
    }
    let _ = put(l, true, "\r\n");
}

/// The 48 MHz clock: its source and what it could come from.
#[derive(Clone, Copy)]
pub struct Clk48 {
    pub sel: u8,
    pub hsi48on: bool,
    pub hsi48rdy: bool,
    pub pllon: bool,
    pub pllrdy: bool,
    /// Its semaphore is taken.
    pub hsem5: bool,
}

/// The state of the 48 MHz clock as one write.
pub open spec fn clk48_out(o: Out, c: Clk48) -> Out {
    o.again().put("wpan: clk48sel "@).dec(c.sel as nat).put(" hsi48on "@).flag(c.hsi48on)
        .put(" hsi48rdy "@).flag(c.hsi48rdy).put(" pllon "@).flag(c.pllon).put(" pllrdy "@)
        .flag(c.pllrdy).put(" hsem5 "@).flag(c.hsem5).put("\r\n"@)
}

/// Appends the state of the 48 MHz clock.
pub fn clk48_line(c: &Clk48, l: &mut heapless::String<224>)
    ensures
        wrote(*final(l), true) == clk48_out(wrote(*old(l), true), *c).again(),
{
    let w = put(l, true, "wpan: clk48sel ");
    let w = put_dec(l, w, c.sel as u64);
    let w = put(l, w, " hsi48on ");
    let w = put_flag(l, w, c.hsi48on);
    let w = put(l, w, " hsi48rdy ");
    let w = put_flag(l, w, c.hsi48rdy);
    let w = put(l, w, " pllon ");
    let w = put_flag(l, w, c.pllon);
    let w = put(l, w, " pllrdy ");
    let w = put_flag(l, w, c.pllrdy);
    let w = put(l, w, " hsem5 ");
    let w = put_flag(l, w, c.hsem5);
    let _ = put(l, w, "\r\n");
}

// ---- bring-up ----

/// Whether the semaphore of the 48 MHz clock was locked.
pub open spec fn locked_text(sem: bool) -> Seq<char> {
    line().put("wpan: CLK48 semaphore locked: "@).flag(sem).put("\r\n"@).text
}

pub fn locked_line(sem: bool) -> (l: heapless::String<224>)
    ensures
        l.text() == locked_text(sem),
{
    let mut l = new_line();
    let w = put(&mut l, true, "wpan: CLK48 semaphore locked: ");
    let w = put_flag(&mut l, w, sem);
    let _ = put(&mut l, w, "\r\n");
    l
}

/// The ready event after boot.
pub open spec fn cpu2_ready_text(ready: Seq<char>) -> Seq<char> {
    line().put("wpan: CPU2 ready event: "@).put(ready).put("\r\n"@).text
}

pub fn cpu2_ready_line(ready: &str) -> (l: heapless::String<224>)
    ensures
        l.text() == cpu2_ready_text(ready@),
{
    let mut l = new_line();
    let w = put(&mut l, true, "wpan: CPU2 ready event: ");
    let w = put(&mut l, w, ready);
    let _ = put(&mut l, w, "\r\n");
    l
}

/// The outcome of the restart request.
pub open spec fn reinit_text(outcome: Seq<char>) -> Seq<char> {
    line().put("wpan: REINIT -> "@).put(outcome).put(", SEV sent, waiting for ready\r\n"@).text
}

pub fn reinit_line(outcome: &str) -> (l: heapless::String<224>)
    ensures
        l.text() == reinit_text(outcome@),
{
    let mut l = new_line();
    let w = put(&mut l, true, "wpan: REINIT -> ");
    let w = put(&mut l, w, outcome);
    let _ = put(&mut l, w, ", SEV sent, waiting for ready\r\n");
    l
}

/// The ready event after a restart.
pub open spec fn ready_text(ready: Seq<char>) -> Seq<char> {
    line().put("wpan: ready event: "@).put(ready).put("\r\n"@).text
}

pub fn ready_line(ready: &str) -> (l: heapless::String<224>)
    ensures
        l.text() == ready_text(ready@),
{
    let mut l = new_line();
    let w = put(&mut l, true, "wpan: ready event: ");
    let w = put(&mut l, w, ready);
    let _ = put(&mut l, w, "\r\n");
    l
}

/// The outcome of starting the Thread stack at boot.
pub open spec fn thread_autostart_text(outcome: Seq<char>) -> Seq<char> {
    line().put("wpan: autostart: thread init -> "@).put(outcome).put("\r\n"@).text
}

pub fn thread_autostart_line(outcome: &str) -> (l: heapless::String<224>)
    ensures
        l.text() == thread_autostart_text(outcome@),
{
    let mut l = new_line();
    let w = put(&mut l, true, "wpan: autostart: thread init -> ");
    let w = put(&mut l, w, outcome);
    let _ = put(&mut l, w, "\r\n");
    l
}

// ---- commands ----

/// The state of FUS and its error code.
pub open spec fn fus_state_text(state: u8, err: u8) -> Seq<char> {
    line().put("fus: state 0x"@).hex(state as nat, 2).put(" error 0x"@).hex(err as nat, 2)
        .put("\r\n"@).text
}

pub fn fus_state_line(state: u8, err: u8) -> (l: heapless::String<224>)
    ensures
        l.text() == fus_state_text(state, err),
{
    let mut l = new_line();
    let w = put(&mut l, true, "fus: state 0x");
    let w = put_hex(&mut l, w, state as u32, 2);
    let w = put(&mut l, w, " error 0x");
    let w = put_hex(&mut l, w, err as u32, 2);
    let _ = put(&mut l, w, "\r\n");
    l
}

/// The upgrade about to be asked for.
pub open spec fn upgrading_text(src: u32, dst: u32) -> Seq<char> {
    line().put("fus: fw_upgrade src 0x"@).hex(src as nat, 8).put(" dst 0x"@).hex(dst as nat, 8)
        .put("\r\n"@).text
}

pub fn upgrading_line(src: u32, dst: u32) -> (l: heapless::String<224>)
    ensures
        l.text() == upgrading_text(src, dst),
{
    let mut l = new_line();
    let w = put(&mut l, true, "fus: fw_upgrade src 0x");
    let w = put_hex(&mut l, w, src, 8);
    let w = put(&mut l, w, " dst 0x");
    let w = put_hex(&mut l, w, dst, 8);
    let _ = put(&mut l, w, "\r\n");
    l
}

/// The outcome of an upgrade request.
pub open spec fn upgrade_text(outcome: Seq<char>) -> Seq<char> {
    line().put("fus: fw_upgrade -> "@).put(outcome).put("\r\n"@).text
}

pub fn upgrade_line(outcome: &str) -> (l: heapless::String<224>)
    ensures
        l.text() == upgrade_text(outcome@),
{
    let mut l = new_line();
    let w = put(&mut l, true, "fus: fw_upgrade -> ");
    let w = put(&mut l, w, outcome);
    let _ = put(&mut l, w, "\r\n");
    l
}

/// The outcome of starting the wireless stack.
pub open spec fn start_text(outcome: Seq<char>) -> Seq<char> {
    line().put("fus: start_ws -> "@).put(outcome).put("\r\n"@).text
}

pub fn start_line(outcome: &str) -> (l: heapless::String<224>)
    ensures
        l.text() == start_text(outcome@),
{
    let mut l = new_line();
    let w = put(&mut l, true, "fus: start_ws -> ");
    let w = put(&mut l, w, outcome);
    let _ = put(&mut l, w, "\r\n");
    l
}

/// The outcome of deleting the wireless stack.
pub open spec fn delete_text(outcome: Seq<char>) -> Seq<char> {
    line().put("fus: fw_delete -> "@).put(outcome).put("\r\n"@).text
}

pub fn delete_line(outcome: &str) -> (l: heapless::String<224>)
    ensures
        l.text() == delete_text(outcome@),
{
    let mut l = new_line();
    let w = put(&mut l, true, "fus: fw_delete -> ");
    let w = put(&mut l, w, outcome);
    let _ = put(&mut l, w, "\r\n");
    l
}

/// The outcome of starting the Thread stack.
pub open spec fn thread_init_text(outcome: Seq<char>) -> Seq<char> {
    line().put("thread: init -> "@).put(outcome).put("\r\n"@).text
}

pub fn thread_init_line(outcome: &str) -> (l: heapless::String<224>)
    ensures
        l.text() == thread_init_text(outcome@),
{
    let mut l = new_line();
    let w = put(&mut l, true, "thread: init -> ");
    let w = put(&mut l, w, outcome);
    let _ = put(&mut l, w, "\r\n");
    l
}

// ---- device info ----

/// A version word taken apart: major, minor, sub.
pub open spec fn version_of(v: u32) -> (u8, u8, u8) {
    (
        (v as int / 0x100_0000) as u8,
        (v as int / 0x1_0000 % 0x100) as u8,
        (v as int / 0x100 % 0x100) as u8,
    )
}

pub fn version(v: u32) -> (r: (u8, u8, u8))
    ensures
        r == version_of(v),
{
    ((v / 0x100_0000) as u8, (v / 0x1_0000 % 0x100) as u8, (v / 0x100 % 0x100) as u8)
}

/// The device info table as FUS writes it.
#[derive(Clone, Copy)]
pub struct FusTable {
    /// Last FUS state, last stack state and stack type, from the second byte
    /// up.
    pub states: u32,
    pub fus_version: u32,
    pub fus_memory: u32,
    pub stack_version: u32,
    pub stack_memory: u32,
    pub thread_info: u32,
}

/// A version as `major.minor.sub`.
pub open spec fn version_out(o: Out, v: u32) -> Out {
    o.dec(version_of(v).0 as nat).put("."@).dec(version_of(v).1 as nat).put("."@).dec(
        version_of(v).2 as nat,
    )
}

fn put_version(l: &mut heapless::String<224>, ok: bool, v: u32) -> (r: bool)
    ensures
        wrote(*final(l), r) == version_out(wrote(*old(l), ok), v),
{
    let (a, b, c) = version(v);
    let w = put_dec(l, ok, a as u64);
    let w = put(l, w, ".");
    let w = put_dec(l, w, b as u64);
    let w = put(l, w, ".");
    put_dec(l, w, c as u64)
}

/// The device info when FUS is running.
pub open spec fn fus_running_text(t: FusTable) -> Seq<char> {
    let fus = version_out(line().put("wpan: FUS running: FUS v"@), t.fus_version);
    let mem = fus.put(" (0x"@).hex(t.fus_version as nat, 8).put(") mem 0x"@)
        .hex(t.fus_memory as nat, 8);
    version_out(mem.put(" | installed stack v"@), t.stack_version)
        .put(" (0x"@).hex(t.stack_version as nat, 8).put(") mem 0x"@)
        .hex(t.stack_memory as nat, 8).put(" type 0x"@)
        .hex((t.states as int / 0x100_0000) as nat, 2).put(" thread_info 0x"@)
        .hex(t.thread_info as nat, 8).put(" | last fus state 0x"@)
        .hex((t.states as int / 0x100 % 0x100) as nat, 2).put(" last stack state 0x"@)
        .hex((t.states as int / 0x1_0000 % 0x100) as nat, 2).put("\r\n"@).text
}

pub fn fus_running_line(t: &FusTable) -> (l: heapless::String<224>)
    ensures
        l.text() == fus_running_text(*t),
{
    let mut l = new_line();
    let w = put(&mut l, true, "wpan: FUS running: FUS v");
    let w = put_version(&mut l, w, t.fus_version);
    let w = put(&mut l, w, " (0x");
    let w = put_hex(&mut l, w, t.fus_version, 8);
    let w = put(&mut l, w, ") mem 0x");
    let w = put_hex(&mut l, w, t.fus_memory, 8);
    let w = put(&mut l, w, " | installed stack v");
    let w = put_version(&mut l, w, t.stack_version);
    let w = put(&mut l, w, " (0x");
    let w = put_hex(&mut l, w, t.stack_version, 8);
    let w = put(&mut l, w, ") mem 0x");
    let w = put_hex(&mut l, w, t.stack_memory, 8);
    let w = put(&mut l, w, " type 0x");
    let w = put_hex(&mut l, w, t.states / 0x100_0000, 2);
    let w = put(&mut l, w, " thread_info 0x");
    let w = put_hex(&mut l, w, t.thread_info, 8);
    let w = put(&mut l, w, " | last fus state 0x");
    let w = put_hex(&mut l, w, t.states / 0x100 % 0x100, 2);
    let w = put(&mut l, w, " last stack state 0x");
    let w = put_hex(&mut l, w, t.states / 0x1_0000 % 0x100, 2);
    let _ = put(&mut l, w, "\r\n");
    l
}

/// The table that FUS left before boot, `at` bytes into the snapshot.
pub open spec fn fus_at_boot_text(at: u32, t: FusTable) -> Seq<char> {
    let start = line().put("wpan: FUS table at boot (+0x"@).hex(at as nat, 0);
    let fus = version_out(start.put("): FUS v"@), t.fus_version);
    let mem = fus.put(" mem 0x"@).hex(t.fus_memory as nat, 8);
    version_out(mem.put(" | stack v"@), t.stack_version)
        .put(" mem 0x"@).hex(t.stack_memory as nat, 8).put(" type 0x"@)
        .hex((t.states as int / 0x100_0000) as nat, 2).put(" thread_info 0x"@)
        .hex(t.thread_info as nat, 8).put(" | last fus state 0x"@)
        .hex((t.states as int / 0x100 % 0x100) as nat, 2).put(" last stack state 0x"@)
        .hex((t.states as int / 0x1_0000 % 0x100) as nat, 2).put("\r\n"@).text
}

pub fn fus_at_boot_line(at: u32, t: &FusTable) -> (l: heapless::String<224>)
    ensures
        l.text() == fus_at_boot_text(at, *t),
{
    let mut l = new_line();
    let w = put(&mut l, true, "wpan: FUS table at boot (+0x");
    let w = put_hex(&mut l, w, at, 0);
    let w = put(&mut l, w, "): FUS v");
    let w = put_version(&mut l, w, t.fus_version);
    let w = put(&mut l, w, " mem 0x");
    let w = put_hex(&mut l, w, t.fus_memory, 8);
    let w = put(&mut l, w, " | stack v");
    let w = put_version(&mut l, w, t.stack_version);
    let w = put(&mut l, w, " mem 0x");
    let w = put_hex(&mut l, w, t.stack_memory, 8);
    let w = put(&mut l, w, " type 0x");
    let w = put_hex(&mut l, w, t.states / 0x100_0000, 2);
    let w = put(&mut l, w, " thread_info 0x");
    let w = put_hex(&mut l, w, t.thread_info, 8);
    let w = put(&mut l, w, " | last fus state 0x");
    let w = put_hex(&mut l, w, t.states / 0x100 % 0x100, 2);
    let w = put(&mut l, w, " last stack state 0x");
    let w = put_hex(&mut l, w, t.states / 0x1_0000 % 0x100, 2);
    let _ = put(&mut l, w, "\r\n");
    l
}

/// FUS as the wireless firmware reports it.
pub open spec fn fus_info_text(v: u32, mem: u32) -> Seq<char> {
    version_out(line().put("wpan: FUS v"@), v).put(" (0x"@).hex(v as nat, 8).put(") mem 0x"@)
        .hex(mem as nat, 8).put("\r\n"@).text
}

pub fn fus_info_line(v: u32, mem: u32) -> (l: heapless::String<224>)
    ensures
        l.text() == fus_info_text(v, mem),
{
    let mut l = new_line();
    let w = put(&mut l, true, "wpan: FUS v");
    let w = put_version(&mut l, w, v);
    let w = put(&mut l, w, " (0x");
    let w = put_hex(&mut l, w, v, 8);
    let w = put(&mut l, w, ") mem 0x");
    let w = put_hex(&mut l, w, mem, 8);
    let _ = put(&mut l, w, "\r\n");
    l
}

/// The wireless stack that an info word names.
pub open spec fn stack_text(info: u32) -> Seq<char> {
    let k = info % 0x100;
    if k == 0x00 {
        "none"@
    } else if k == 0x01 {
        "BLE full"@
    } else if k == 0x02 {
        "BLE HCI"@
    } else if k == 0x10 {
        "Thread FTD"@
    } else if k == 0x11 {
        "Thread MTD"@
    } else if k == 0x40 {
        "802.15.4 MAC"@
    } else if k == 0x50 {
        "BLE+Thread static"@
    } else {
        "?"@
    }
}

pub fn stack_name(info: u32) -> (s: &'static str)
    ensures
        s@ == stack_text(info),
{
    match info % 0x100 {
        0x00 => "none",
        0x01 => "BLE full",
        0x02 => "BLE HCI",
        0x10 => "Thread FTD",
        0x11 => "Thread MTD",
        0x40 => "802.15.4 MAC",
        0x50 => "BLE+Thread static",
        _ => "?",
    }
}

/// The wireless stack as it reports itself.
pub open spec fn stack_info_text(v: u32, mem: u32, info: u32) -> Seq<char> {
    version_out(line().put("wpan: stack v"@), v).put(" (0x"@).hex(v as nat, 8).put(") mem 0x"@)
        .hex(mem as nat, 8).put(" info 0x"@).hex(info as nat, 8).put(" = "@)
        .put(stack_text(info)).put("\r\n"@).text
}

pub fn stack_info_line(v: u32, mem: u32, info: u32) -> (l: heapless::String<224>)
    ensures
        l.text() == stack_info_text(v, mem, info),
{
    let mut l = new_line();
    let w = put(&mut l, true, "wpan: stack v");
    let w = put_version(&mut l, w, v);
    let w = put(&mut l, w, " (0x");
    let w = put_hex(&mut l, w, v, 8);
    let w = put(&mut l, w, ") mem 0x");
    let w = put_hex(&mut l, w, mem, 8);
    let w = put(&mut l, w, " info 0x");
    let w = put_hex(&mut l, w, info, 8);
    let w = put(&mut l, w, " = ");
    let w = put(&mut l, w, stack_name(info));
    let _ = put(&mut l, w, "\r\n");
    l
}

// ---- snapshot ----

/// Word 0 of the device info table when FUS is the one running; the table then
/// has the layout of [`FusTable`] instead of the wireless firmware's.
pub const FUS_TABLE_KEYWORD: u32 = 0xA946_56B9;

/// The first `k` words of a row, in hexadecimal.
pub open spec fn words_out(o: Out, w: Seq<u32>, k: nat) -> Out
    decreases k,
{
    if k == 0 {
        o
    } else if k == 1 {
        o.put(": "@).hex(w[0] as nat, 8)
    } else {
        words_out(o, w, (k - 1) as nat).put(" "@).hex(w[k - 1] as nat, 8)
    }
}

/// A row of the snapshot: where it starts, in bytes, and its eight words.
pub open spec fn row_text(row: int, w: Seq<u32>) -> Seq<char> {
    words_out(line().put("wpan: sram2a+"@).hex((row * 32) as nat, 3), w, 8).put("\r\n"@).text
}

/// A row of the snapshot of shared SRAM2a as found at boot.
pub fn snapshot_row(snap: &[u32; 64], row: usize) -> (l: heapless::String<224>)
    requires
        row < 8,
    ensures
        l.text() == row_text(row as int, snap@.subrange(row * 8, row * 8 + 8)),
{
    let ghost words = snap@.subrange(row * 8, row * 8 + 8);
    let mut l = new_line();
    let w = put(&mut l, true, "wpan: sram2a+");
    let mut ok = put_hex(&mut l, w, (row * 32) as u32, 3);
    let ghost start = wrote(l, ok);
    let mut i: usize = 0;
    while i < 8
        invariant
            row < 8,
            i <= 8,
            words == snap@.subrange(row * 8, row * 8 + 8),
            wrote(l, ok) == words_out(start, words, i as nat),
        decreases 8 - i,
    {
        assert(words[i as int] == snap@[row * 8 + i]);
        let w = put(
            &mut l,
            ok,
            if i == 0 {
                ": "
            } else {
                " "
            },
        );
        ok = put_hex(&mut l, w, snap[row * 8 + i], 8);
        i = i + 1;
    }
    let _ = put(&mut l, ok, "\r\n");
    l
}

/// The first place from `i` on where `w` stands.
pub open spec fn first_at(s: Seq<u32>, w: u32, i: int) -> Option<int>
    decreases s.len() - i,
{
    if i < 0 || i >= s.len() {
        None
    } else if s[i] == w {
        Some(i)
    } else {
        first_at(s, w, i + 1)
    }
}

/// The table of FUS that starts at word `k`.
pub open spec fn fus_table_at(s: Seq<u32>, k: int) -> FusTable {
    FusTable {
        states: s[k + 1],
        fus_version: s[k + 3],
        fus_memory: s[k + 4],
        stack_version: s[k + 5],
        stack_memory: s[k + 6],
        thread_info: s[k + 8],
    }
}

/// What is printed of the table that FUS left in the snapshot: nothing when it
/// starts too close to the end.
pub open spec fn table_says(s: Seq<u32>) -> Seq<Seq<char>> {
    match first_at(s, FUS_TABLE_KEYWORD, 0) {
        Some(k) => if k + 9 < s.len() {
            seq![fus_at_boot_text((k * 4) as u32, fus_table_at(s, k))]
        } else {
            Seq::empty()
        },
        None => seq!["wpan: no FUS table keyword in the boot snapshot\r\n"@],
    }
}

/// The table that FUS left in shared SRAM2a before boot.
pub fn snapshot_table(snap: &[u32; 64]) -> (r: Say)
    ensures
        r@ == table_says(snap@),
{
    let mut k: usize = 0;
    while k < 64
        invariant
            k <= 64,
            first_at(snap@, FUS_TABLE_KEYWORD, 0) == first_at(snap@, FUS_TABLE_KEYWORD, k as int),
        decreases 64 - k,
    {
        if snap[k] == FUS_TABLE_KEYWORD {
            if k + 9 < 64 {
                let t = fus_table_of(snap.as_slice(), k);
                return Say::Line(fus_at_boot_line((k * 4) as u32, &t));
            }
            return Say::Nothing;
        }
        k = k + 1;
    }
    Say::Fixed("wpan: no FUS table keyword in the boot snapshot\r\n")
}

fn fus_table_of(s: &[u32], k: usize) -> (t: FusTable)
    requires
        k + 9 <= s@.len() <= 64,
    ensures
        t == fus_table_at(s@, k as int),
{
    FusTable {
        states: s[k + 1],
        fus_version: s[k + 3],
        fus_memory: s[k + 4],
        stack_version: s[k + 5],
        stack_memory: s[k + 6],
        thread_info: s[k + 8],
    }
}

/// The device info table in the layout of the wireless firmware.
#[derive(Clone, Copy)]
pub struct DeviceInfo {
    pub fus_version: u32,
    pub fus_memory: u32,
    pub stack_version: u32,
    pub stack_memory: u32,
    pub thread_info: u32,
}

/// What runs on CPU2: FUS when the first word of the table says so, and
/// otherwise FUS and the stack as the wireless firmware reports them.
pub open spec fn info_says(raw: Seq<u32>, info: DeviceInfo) -> Seq<Seq<char>> {
    if raw[0] == FUS_TABLE_KEYWORD {
        seq![fus_running_text(fus_table_at(raw, 0))]
    } else {
        seq![
            fus_info_text(info.fus_version, info.fus_memory),
            stack_info_text(info.stack_version, info.stack_memory, info.thread_info),
        ]
    }
}

/// What runs on CPU2, from the device info table in both layouts.
pub fn print_info(raw: &[u32; 16], info: &DeviceInfo) -> (r: Say)
    ensures
        r@ == info_says(raw@, *info),
{
    if raw[0] == FUS_TABLE_KEYWORD {
        Say::Line(fus_running_line(&fus_table_of(raw.as_slice(), 0)))
    } else {
        Say::Two(
            fus_info_line(info.fus_version, info.fus_memory),
            stack_info_line(info.stack_version, info.stack_memory, info.thread_info),
        )
    }
}

} // verus!
