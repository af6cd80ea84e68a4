//! Getting back into the ROM bootloader (USB DFU) from the app.
//!
//! The app never jumps into the bootloader from running code. It writes a
//! magic word into a RAM word that survives a system reset, resets, and the
//! first thing it does after reset is check for that word and jump into system
//! memory while the chip is still in its reset state.

use vstd::prelude::*;

verus! {

/// Marks the next boot for the ROM bootloader.
pub const MAGIC: u32 = 0xB007_10AD;

/// Marks a CPU2 firmware operation in progress. It stalls and resets CPU1, so
/// a watchdog reset then is no crash.
pub const BUSY_MAGIC: u32 = 0xF05B_0511;

/// System memory (ROM bootloader) base.
pub const SYSTEM_MEMORY: u32 = 0x1FFF_0000;

/// First word of shared SRAM2a when the ROM bootloader ran before the app.
pub const BOOTLOADER_DEVICE_INFO_PTR: u32 = 0x2003_0024;

/// Frequency of the watchdog's clock.
pub const LSI_HZ: u32 = 32_000;

/// Watchdog period.
pub const PERIOD_MS: u32 = 4_000;

/// Polls of the watchdog's update flags before going on without them.
pub const UPDATE_SPINS: u32 = 200_000;

/// The word to store when a CPU2 firmware operation starts or is over.
pub fn fus_busy(busy: bool) -> (word: u32)
    ensures
        word == (if busy {
            BUSY_MAGIC
        } else {
            0
        }),
{
    if busy {
        BUSY_MAGIC
    } else {
        0
    }
}

/// Whether the stored word marks a CPU2 firmware operation in progress.
pub fn is_fus_busy(word: u32) -> (r: bool)
    ensures
        r == (word == BUSY_MAGIC),
{
    word == BUSY_MAGIC
}

/// What to do first thing after reset.
pub struct Boot {
    /// Jump to the ROM bootloader.
    pub jump: bool,
    /// What to leave in the word that requests it.
    pub flag: u32,
}

/// Whether a boot goes to the bootloader: the previous boot asked for it, or
/// ended in a watchdog reset while no CPU2 firmware operation was going on.
pub open spec fn boots_to_bootloader(watchdog_reset: bool, busy: u32, flag: u32) -> bool {
    flag == MAGIC || (watchdog_reset && busy != BUSY_MAGIC)
}

/// Decides whether to jump to the ROM bootloader from the watchdog's reset
/// flag, the busy word and the request word, which is used up.
pub fn enter_bootloader_if_requested(watchdog_reset: bool, busy: u32, flag: u32) -> (r: Boot)
    ensures
        r.jump == boots_to_bootloader(watchdog_reset, busy, flag),
        r.flag == 0,
{
    let crashed = watchdog_reset && !is_fus_busy(busy);
    let requested = flag == MAGIC;
    Boot { jump: requested || crashed, flag: 0 }
}

/// Whether the ROM bootloader ran before the app, given the first word of
/// shared SRAM2a. If so, the result is the word to leave there before taking a
/// real reset.
pub fn reset_if_launched_by_bootloader(word: u32) -> (r: Option<u32>)
    ensures
        r == (if word == BOOTLOADER_DEVICE_INFO_PTR {
            Some(0u32)
        } else {
            None
        }),
{
    if word == BOOTLOADER_DEVICE_INFO_PTR {
        Some(0)
    } else {
        None
    }
}

/// The word to store before a reset that is to end in the ROM bootloader.
pub fn reboot_into_bootloader() -> (flag: u32)
    ensures
        flag == MAGIC,
{
    MAGIC
}

// ---- watchdog ----

/// The factor by which the watchdog divides its clock, by prescaler setting.
pub open spec fn divider(pr: nat) -> nat
    decreases pr,
{
    if pr == 0 {
        4
    } else {
        2 * divider((pr - 1) as nat)
    }
}

/// The reload value for a prescaler setting: the period in ticks, less one, as
/// far as the register can hold it.
pub open spec fn reload_for(pr: nat) -> int {
    let ticks = PERIOD_MS * (LSI_HZ / divider(pr) as u32) / 1000;
    if ticks - 1 < 0xFFF {
        ticks - 1
    } else {
        0xFFF
    }
}

proof fn lemma_dividers()
    ensures
        divider(0) == 4,
        divider(1) == 8,
        divider(2) == 16,
        divider(3) == 32,
        divider(4) == 64,
        divider(5) == 128,
        divider(6) == 256,
        divider(7) == 512,
{
    reveal_with_fuel(divider, 8);
}

proof fn lemma_rate(by: u32)
    by (nonlinear_arith)
    requires
        by == 4 || by == 8 || by == 16 || by == 32 || by == 64 || by == 128 || by == 256 || by
            == 512,
    ensures
        LSI_HZ / by == (if by == 4 {
            8000u32
        } else if by == 8 {
            4000
        } else if by == 16 {
            2000
        } else if by == 32 {
            1000
        } else if by == 64 {
            500
        } else if by == 128 {
            250
        } else if by == 256 {
            125
        } else {
            62
        }),
{
}

/// The reload value for the prescaler setting in effect.
pub fn watchdog_reload(pr: u8) -> (r: u16)
    requires
        pr < 8,
    ensures
        r == reload_for(pr as nat),
{
    assert(4u32 << 0u32 == 4 && 4u32 << 1u32 == 8 && 4u32 << 2u32 == 16 && 4u32 << 3u32 == 32
        && 4u32 << 4u32 == 64 && 4u32 << 5u32 == 128 && 4u32 << 6u32 == 256 && 4u32 << 7u32 == 512)
        by (bit_vector);
    proof {
        lemma_dividers();
    }
    let by: u32 = 4u32 << (pr as u32);
    assert(by == divider(pr as nat));
    proof {
        lemma_rate(by);
    }
    let rate: u32 = LSI_HZ / by;
    let ticks: u32 = PERIOD_MS * rate / 1000;
    if ticks - 1 < 0xFFF {
        (ticks - 1) as u16
    } else {
        0xFFF
    }
}

/// Where the start of the watchdog is.
#[derive(Clone, Copy)]
pub enum WatchdogStage {
    Start,
    UnlockPrescaler,
    Prescaler,
    WaitPrescaler { spins: u32 },
    ReadPrescaler,
    UnlockReload { reload: u16 },
    Reload { reload: u16 },
    WaitReload { spins: u32 },
    Feed,
    Done,
}

/// What the start of the watchdog wants done.
#[derive(Clone, Copy)]
pub enum WatchdogAction {
    /// Write the start key.
    Start,
    /// Write the key that unlocks the registers.
    Unlock,
    /// Ask for division by 32.
    DivideBy32,
    /// Read whether a register update is under way.
    ReadUpdating,
    /// Read the prescaler setting back.
    ReadPrescaler,
    /// Write the reload value.
    Reload(u16),
    /// Feed the watchdog.
    Feed,
    /// Nothing more.
    Finish,
}

/// What came of an action.
#[derive(Clone, Copy)]
pub enum WatchdogEvent {
    Done,
    Updating(bool),
    Prescaler(u8),
}

/// The action of a stage.
pub open spec fn watchdog_action(stage: WatchdogStage) -> WatchdogAction {
    match stage {
        WatchdogStage::Start => WatchdogAction::Start,
        WatchdogStage::UnlockPrescaler => WatchdogAction::Unlock,
        WatchdogStage::Prescaler => WatchdogAction::DivideBy32,
        WatchdogStage::WaitPrescaler { .. } => WatchdogAction::ReadUpdating,
        WatchdogStage::ReadPrescaler => WatchdogAction::ReadPrescaler,
        WatchdogStage::UnlockReload { .. } => WatchdogAction::Unlock,
        WatchdogStage::Reload { reload } => WatchdogAction::Reload(reload),
        WatchdogStage::WaitReload { .. } => WatchdogAction::ReadUpdating,
        WatchdogStage::Feed => WatchdogAction::Feed,
        WatchdogStage::Done => WatchdogAction::Finish,
    }
}

/// Whether an event can come of an action.
pub open spec fn watchdog_answers(action: WatchdogAction, event: WatchdogEvent) -> bool {
    match action {
        WatchdogAction::ReadUpdating => event is Updating,
        WatchdogAction::ReadPrescaler => event matches WatchdogEvent::Prescaler(pr) && pr < 8,
        WatchdogAction::Finish => false,
        _ => event is Done,
    }
}

/// The stage after an event. The prescaler is programmed first, and the reload
/// value is derived from the setting that reads back.
pub open spec fn watchdog_next(stage: WatchdogStage, event: WatchdogEvent) -> WatchdogStage {
    let updating = event == WatchdogEvent::Updating(true);
    match stage {
        WatchdogStage::Start => WatchdogStage::UnlockPrescaler,
        WatchdogStage::UnlockPrescaler => WatchdogStage::Prescaler,
        WatchdogStage::Prescaler => WatchdogStage::WaitPrescaler { spins: 0 },
        WatchdogStage::WaitPrescaler { spins } => if updating && spins < UPDATE_SPINS {
            WatchdogStage::WaitPrescaler { spins: (spins + 1) as u32 }
        } else {
            WatchdogStage::ReadPrescaler
        },
        WatchdogStage::ReadPrescaler => WatchdogStage::UnlockReload {
            reload: reload_for(event->Prescaler_0 as nat) as u16,
        },
        WatchdogStage::UnlockReload { reload } => WatchdogStage::Reload { reload },
        WatchdogStage::Reload { .. } => WatchdogStage::WaitReload { spins: 0 },
        WatchdogStage::WaitReload { spins } => if updating && spins < UPDATE_SPINS {
            WatchdogStage::WaitReload { spins: (spins + 1) as u32 }
        } else {
            WatchdogStage::Feed
        },
        WatchdogStage::Feed => WatchdogStage::Done,
        WatchdogStage::Done => WatchdogStage::Done,
    }
}

/// Starts the independent watchdog: start first, then program the prescaler
/// and the reload value one at a time, each followed by a wait for its update
/// flag.
pub fn start_watchdog() -> (stage: WatchdogStage)
    ensures
        stage == WatchdogStage::Start,
{
    WatchdogStage::Start
}

impl WatchdogStage {
    /// What to do next.
    pub fn action(self) -> (r: WatchdogAction)
        ensures
            r == watchdog_action(self),
    {
        match self {
            WatchdogStage::Start => WatchdogAction::Start,
            WatchdogStage::UnlockPrescaler => WatchdogAction::Unlock,
            WatchdogStage::Prescaler => WatchdogAction::DivideBy32,
            WatchdogStage::WaitPrescaler { .. } => WatchdogAction::ReadUpdating,
            WatchdogStage::ReadPrescaler => WatchdogAction::ReadPrescaler,
            WatchdogStage::UnlockReload { .. } => WatchdogAction::Unlock,
            WatchdogStage::Reload { reload } => WatchdogAction::Reload(reload),
            WatchdogStage::WaitReload { .. } => WatchdogAction::ReadUpdating,
            WatchdogStage::Feed => WatchdogAction::Feed,
            WatchdogStage::Done => WatchdogAction::Finish,
        }
    }

    /// Takes what came of the action.
    pub fn step(self, event: WatchdogEvent) -> (r: WatchdogStage)
        requires
            watchdog_answers(watchdog_action(self), event),
        ensures
            r == watchdog_next(self, event),
    {
        let updating = match event {
            WatchdogEvent::Updating(b) => b,
            _ => false,
        };
        match self {
            WatchdogStage::Start => WatchdogStage::UnlockPrescaler,
            WatchdogStage::UnlockPrescaler => WatchdogStage::Prescaler,
            WatchdogStage::Prescaler => WatchdogStage::WaitPrescaler { spins: 0 },
            WatchdogStage::WaitPrescaler { spins } => if updating && spins < UPDATE_SPINS {
                WatchdogStage::WaitPrescaler { spins: spins + 1 }
            } else {
                WatchdogStage::ReadPrescaler
            },
            WatchdogStage::ReadPrescaler => match event {
                WatchdogEvent::Prescaler(pr) => WatchdogStage::UnlockReload {
                    reload: watchdog_reload(pr),
                },
                _ => WatchdogStage::ReadPrescaler,
            },
            WatchdogStage::UnlockReload { reload } => WatchdogStage::Reload { reload },
            WatchdogStage::Reload { .. } => WatchdogStage::WaitReload { spins: 0 },
            WatchdogStage::WaitReload { spins } => if updating && spins < UPDATE_SPINS {
                WatchdogStage::WaitReload { spins: spins + 1 }
            } else {
                WatchdogStage::Feed
            },
            WatchdogStage::Feed => WatchdogStage::Done,
            WatchdogStage::Done => WatchdogStage::Done,
        }
    }
}

// ---- laws ----

/// A reboot request is honoured at the next boot, whatever else that boot
/// finds, and only there: the request is used up, so the boot after it goes to
/// the bootloader only after a crash.
pub proof fn law_reboot_request_honoured_once(watchdog_reset: bool, busy: u32)
    ensures
        boots_to_bootloader(watchdog_reset, busy, MAGIC),
        boots_to_bootloader(watchdog_reset, busy, 0) == (watchdog_reset && busy != BUSY_MAGIC),
{
}

/// A watchdog reset ends in the bootloader, except during a CPU2 firmware
/// operation, where only a request does.
pub proof fn law_watchdog_reset_ends_in_bootloader(busy: u32, flag: u32)
    ensures
        busy != BUSY_MAGIC ==> boots_to_bootloader(true, busy, flag),
        boots_to_bootloader(true, BUSY_MAGIC, flag) == (flag == MAGIC),
        !boots_to_bootloader(false, busy, 0),
{
}

/// The watchdog fires after four seconds at the prescaler settings from /32
/// to /256, and never later at any setting.
pub proof fn law_watchdog_period(pr: nat)
    requires
        pr < 8,
    ensures
        0 <= reload_for(pr) <= 0xFFF,
        (reload_for(pr) + 1) * divider(pr) * 1000 <= PERIOD_MS * LSI_HZ,
        3 <= pr <= 6 ==> (reload_for(pr) + 1) * divider(pr) * 1000 == PERIOD_MS * LSI_HZ,
{
    lemma_dividers();
    lemma_rate(divider(pr) as u32);
    let d = divider(pr) as int;
    let n = reload_for(pr) + 1;
    assert(n * d * 1000 <= 128_000_000 && (32 <= d <= 256 ==> n * d * 1000 == 128_000_000))
        by (nonlinear_arith)
        requires
            d == 4 && n == 4096 || d == 8 && n == 4096 || d == 16 && n == 4096 || d == 32 && n
                == 4000 || d == 64 && n == 2000 || d == 128 && n == 1000 || d == 256 && n == 500
                || d == 512 && n == 248,
    ;
}

/// Waiting for a register update ends: each poll either leaves the wait or
/// uses up one of the polls allowed.
pub proof fn law_watchdog_waits_end(spins: u32, event: WatchdogEvent)
    requires
        spins <= UPDATE_SPINS,
        event is Updating,
    ensures
        match watchdog_next(WatchdogStage::WaitPrescaler { spins }, event) {
            WatchdogStage::WaitPrescaler { spins: n } => n == spins + 1 && n <= UPDATE_SPINS,
            next => next == WatchdogStage::ReadPrescaler,
        },
        match watchdog_next(WatchdogStage::WaitReload { spins }, event) {
            WatchdogStage::WaitReload { spins: n } => n == spins + 1 && n <= UPDATE_SPINS,
            next => next == WatchdogStage::Feed,
        },
{
}

/// The reload value is the most that keeps the period within four seconds and
/// the register: one more tick would be too long, or not fit.
pub proof fn law_watchdog_reload_is_the_most(pr: nat)
    requires
        pr < 8,
    ensures
        reload_for(pr) == 0xFFF || (reload_for(pr) + 2) * divider(pr) * 1000 > 4000 * 32000 || pr
            == 7,
        pr <= 2 ==> reload_for(pr) == 0xFFF,
        pr == 7 ==> reload_for(pr) == 247,
{
    lemma_dividers();
    lemma_rate(divider(pr) as u32);
    let d = divider(pr) as int;
    let n = reload_for(pr) + 1;
    assert(n == 4096 || (n + 1) * d * 1000 > 128_000_000 || d == 512) by (nonlinear_arith)
        requires
            d == 4 && n == 4096 || d == 8 && n == 4096 || d == 16 && n == 4096 || d == 32 && n
                == 4000 || d == 64 && n == 2000 || d == 128 && n == 1000 || d == 256 && n == 500
                || d == 512 && n == 248,
    ;
}

/// The start of the watchdog, in order: start it, unlock and ask for division by
/// 32, wait, read the prescaler back, unlock and write the reload value for what
/// was read, wait, feed it.
pub proof fn law_watchdog_start_in_order(pr: u8, spins: u32, idle: WatchdogEvent)
    requires
        pr < 8,
        idle is Updating,
        idle != WatchdogEvent::Updating(true),
    ensures
        ({
            let done = WatchdogEvent::Done;
            let a = WatchdogStage::Start;
            let b = watchdog_next(a, done);
            let c = watchdog_next(b, done);
            let d = watchdog_next(c, done);
            let e = watchdog_next(WatchdogStage::WaitPrescaler { spins }, idle);
            let f = watchdog_next(e, WatchdogEvent::Prescaler(pr));
            let g = watchdog_next(f, done);
            let h = watchdog_next(g, done);
            let i = watchdog_next(WatchdogStage::WaitReload { spins }, idle);
            let j = watchdog_next(i, done);
            &&& watchdog_action(a) is Start
            &&& watchdog_action(b) is Unlock
            &&& watchdog_action(c) is DivideBy32
            &&& d == (WatchdogStage::WaitPrescaler { spins: 0 }) && watchdog_action(d)
                is ReadUpdating
            &&& watchdog_action(e) is ReadPrescaler
            &&& watchdog_action(f) is Unlock
            &&& watchdog_action(g) == WatchdogAction::Reload(reload_for(pr as nat) as u16)
            &&& h == (WatchdogStage::WaitReload { spins: 0 }) && watchdog_action(h) is ReadUpdating
            &&& watchdog_action(i) is Feed
            &&& watchdog_action(j) is Finish
        }),
{
}

/// The words that are kept across a reset: only the one word marks an operation
/// as busy, and only the bootloader's pointer asks for a reset, which wipes it.
pub proof fn law_kept_words(word: u32, busy: bool, wiped: Option<u32>)
    requires
        call_ensures(is_fus_busy, (word,), busy),
        call_ensures(reset_if_launched_by_bootloader, (word,), wiped),
    ensures
        busy <==> word == 0xF05B_0511,
        wiped is Some <==> word == 0x2003_0024,
        wiped matches Some(w) ==> w == 0,
{
}

/// What is stored is what is looked for: a marker that was set reads as busy and
/// one that was cleared does not, and a request is honoured.
pub proof fn law_words_are_recognised(on: bool, word: u32, read: bool, flag: u32, boot: Boot)
    requires
        call_ensures(fus_busy, (on,), word),
        call_ensures(is_fus_busy, (word,), read),
        call_ensures(reboot_into_bootloader, (), flag),
        call_ensures(enter_bootloader_if_requested, (false, word, flag), boot),
    ensures
        read == on,
        boot.jump,
        boot.flag != flag,
{
}

} // verus!
