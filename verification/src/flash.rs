//! Flash access while the radio stack runs.
//!
//! Hold hardware semaphore 2 for the whole operation, tell CPU2 about erase
//! activity, and hold semaphore 7 around each erase or program step (CPU2
//! takes 7 to keep CPU1 out during its own flash use). The operation is a
//! state machine: [`FlashOp::action`] says what to do next, and
//! [`FlashOp::step`] takes what came of it.

use vstd::prelude::*;
use crate::config::PAGE_ADDR;
use crate::config::PAGE_OFFSET;

verus! {

/// Semaphore held for the whole operation.
pub const SEM_FLASH: usize = 2;

/// Semaphore held around each erase or program step.
pub const SEM_BLOCK_BY_CPU2: usize = 7;

/// CPU1 in the semaphore registers.
pub const CPU1: u8 = 4;

/// Reads of a semaphore before giving up on it.
pub const SEM_TRIES: u32 = 2_000_000;

/// Bytes of a flash page.
pub const PAGE_LEN: u32 = 4096;

/// What the flash controller, or the wait for it, ended in.
#[derive(Clone, Copy, PartialEq, Eq, Structural)]
pub enum FlashError {
    Prog,
    Size,
    Miss,
    Sequence,
    Protected,
    /// Also stands for "CPU2 holds the flash".
    Unaligned,
    Parallelism,
}

/// A step done under semaphore 7.
#[derive(Clone, Copy, PartialEq, Eq, Structural)]
pub enum FlashStep {
    Erase,
    Write,
}

/// Where a flash operation is.
#[derive(Clone, Copy)]
pub enum Stage {
    /// Waiting for semaphore 2.
    TakeFlash { tries: u32 },
    /// About to tell CPU2 that flash activity starts.
    Announce,
    /// Waiting for semaphore 7.
    Take { step: FlashStep, tries: u32 },
    /// Waiting until flash operations are not suspended.
    Settle { step: FlashStep },
    /// Erasing or writing.
    Run { step: FlashStep },
    /// About to release semaphore 7.
    Free { step: FlashStep, result: Result<(), FlashError> },
    /// About to tell CPU2 that flash activity is over.
    Retract { result: Result<(), FlashError> },
    /// About to release semaphore 2.
    Release { result: Result<(), FlashError> },
    /// Finished.
    Done { result: Result<(), FlashError> },
}

/// What a flash operation wants done.
#[derive(Clone, Copy)]
pub enum FlashAction {
    /// Read the lock register of a semaphore once.
    TrySemaphore(usize),
    /// Tell CPU2 that flash activity starts or ends.
    Activity(bool),
    /// Read whether flash operations are suspended.
    ReadSuspended,
    /// Erase flash between two offsets.
    Erase { from: u32, to: u32 },
    /// Write the image at an offset.
    Write { at: u32 },
    /// Release a semaphore.
    FreeSemaphore(usize),
    /// Nothing more; this is the result.
    Finish(Result<(), FlashError>),
}

/// What came of an action.
#[derive(Clone, Copy)]
pub enum FlashEvent {
    /// The lock register read back.
    Semaphore { lock: bool, core: u8 },
    /// Done; nothing to report.
    Done,
    /// Whether flash operations are suspended.
    Suspended(bool),
    /// The controller's verdict on an erase or a write.
    Flashed(Result<(), FlashError>),
}

/// The action of a stage.
pub open spec fn action_of(stage: Stage) -> FlashAction {
    match stage {
        Stage::TakeFlash { .. } => FlashAction::TrySemaphore(SEM_FLASH),
        Stage::Announce => FlashAction::Activity(true),
        Stage::Take { .. } => FlashAction::TrySemaphore(SEM_BLOCK_BY_CPU2),
        Stage::Settle { .. } => FlashAction::ReadSuspended,
        Stage::Run { step: FlashStep::Erase } => FlashAction::Erase {
            from: PAGE_OFFSET,
            to: (PAGE_OFFSET + PAGE_LEN) as u32,
        },
        Stage::Run { step: FlashStep::Write } => FlashAction::Write { at: PAGE_OFFSET },
        Stage::Free { .. } => FlashAction::FreeSemaphore(SEM_BLOCK_BY_CPU2),
        Stage::Retract { .. } => FlashAction::Activity(false),
        Stage::Release { .. } => FlashAction::FreeSemaphore(SEM_FLASH),
        Stage::Done { result } => FlashAction::Finish(result),
    }
}

/// Whether an event can come of an action.
pub open spec fn answers(action: FlashAction, event: FlashEvent) -> bool {
    match action {
        FlashAction::TrySemaphore(_) => event is Semaphore,
        FlashAction::Activity(_) => event is Done,
        FlashAction::ReadSuspended => event is Suspended,
        FlashAction::Erase { .. } => event is Flashed,
        FlashAction::Write { .. } => event is Flashed,
        FlashAction::FreeSemaphore(_) => event is Done,
        FlashAction::Finish(_) => false,
    }
}

/// Whether a read of a semaphore's lock register shows it locked by CPU1.
pub open spec fn took(event: FlashEvent) -> bool {
    event == (FlashEvent::Semaphore { lock: true, core: CPU1 })
}

/// The stage after an event; `saves` tells a write follows the erase.
pub open spec fn next_stage(saves: bool, stage: Stage, event: FlashEvent) -> Stage {
    let blocked: Result<(), FlashError> = Err(FlashError::Unaligned);
    match stage {
        Stage::TakeFlash { tries } => if took(event) {
            Stage::Announce
        } else if tries + 1 < SEM_TRIES {
            Stage::TakeFlash { tries: (tries + 1) as u32 }
        } else {
            Stage::Done { result: blocked }
        },
        Stage::Announce => Stage::Take { step: FlashStep::Erase, tries: 0 },
        Stage::Take { step, tries } => if took(event) {
            Stage::Settle { step }
        } else if tries + 1 < SEM_TRIES {
            Stage::Take { step, tries: (tries + 1) as u32 }
        } else {
            Stage::Retract { result: blocked }
        },
        Stage::Settle { step } => if event == FlashEvent::Suspended(true) {
            stage
        } else {
            Stage::Run { step }
        },
        Stage::Run { step } => Stage::Free { step, result: event->Flashed_0 },
        Stage::Free { step, result } => if step == FlashStep::Erase && result is Ok && saves {
            Stage::Take { step: FlashStep::Write, tries: 0 }
        } else {
            Stage::Retract { result }
        },
        Stage::Retract { result } => Stage::Release { result },
        Stage::Release { result } => Stage::Done { result },
        Stage::Done { .. } => stage,
    }
}

/// A flash operation under way.
pub struct FlashOp {
    pub stage: Stage,
    /// What to write after the erase, if anything.
    pub image: Option<[u8; 272]>,
}

impl FlashOp {
    /// What to do next.
    pub fn action(&self) -> (r: FlashAction)
        ensures
            r == action_of(self.stage),
    {
        match self.stage {
            Stage::TakeFlash { .. } => FlashAction::TrySemaphore(SEM_FLASH),
            Stage::Announce => FlashAction::Activity(true),
            Stage::Take { .. } => FlashAction::TrySemaphore(SEM_BLOCK_BY_CPU2),
            Stage::Settle { .. } => FlashAction::ReadSuspended,
            Stage::Run { step: FlashStep::Erase } => FlashAction::Erase {
                from: PAGE_OFFSET,
                to: PAGE_OFFSET + PAGE_LEN,
            },
            Stage::Run { step: FlashStep::Write } => FlashAction::Write { at: PAGE_OFFSET },
            Stage::Free { .. } => FlashAction::FreeSemaphore(SEM_BLOCK_BY_CPU2),
            Stage::Retract { .. } => FlashAction::Activity(false),
            Stage::Release { .. } => FlashAction::FreeSemaphore(SEM_FLASH),
            Stage::Done { result } => FlashAction::Finish(result),
        }
    }

    /// Takes what came of the action.
    pub fn step(&mut self, event: FlashEvent)
        requires
            answers(action_of(old(self).stage), event),
        ensures
            final(self).stage == next_stage(old(self).image is Some, old(self).stage, event),
            final(self).image == old(self).image,
    {
        let blocked: Result<(), FlashError> = Err(FlashError::Unaligned);
        let got = match event {
            FlashEvent::Semaphore { lock, core } => lock && core == CPU1,
            _ => false,
        };
        let next = match self.stage {
            Stage::TakeFlash { tries } => if got {
                Stage::Announce
            } else if tries < SEM_TRIES - 1 {
                Stage::TakeFlash { tries: tries + 1 }
            } else {
                Stage::Done { result: blocked }
            },
            Stage::Announce => Stage::Take { step: FlashStep::Erase, tries: 0 },
            Stage::Take { step, tries } => if got {
                Stage::Settle { step }
            } else if tries < SEM_TRIES - 1 {
                Stage::Take { step, tries: tries + 1 }
            } else {
                Stage::Retract { result: blocked }
            },
            Stage::Settle { step } => match event {
                FlashEvent::Suspended(true) => Stage::Settle { step },
                _ => Stage::Run { step },
            },
            Stage::Run { step } => match event {
                FlashEvent::Flashed(result) => Stage::Free { step, result },
                _ => Stage::Run { step },
            },
            Stage::Free { step, result } => {
                let whole = match result {
                    Ok(_) => true,
                    Err(_) => false,
                };
                if step == FlashStep::Erase && whole && self.image.is_some() {
                    Stage::Take { step: FlashStep::Write, tries: 0 }
                } else {
                    Stage::Retract { result }
                }
            },
            Stage::Retract { result } => Stage::Release { result },
            Stage::Release { result } => Stage::Done { result },
            Stage::Done { result } => Stage::Done { result },
        };
        self.stage = next;
    }
}

// ---- laws ----

/// What the rest of the board sees of a flash operation.
pub ghost struct FlashWorld {
    /// CPU1 holds semaphore 2.
    pub flash_held: bool,
    /// CPU1 holds semaphore 7.
    pub block_held: bool,
    /// CPU2 has been told of flash activity and not yet that it is over.
    pub announced: bool,
    /// The page has been erased.
    pub erased: bool,
    /// The image has been written.
    pub written: bool,
}

impl FlashWorld {
    /// Before any operation.
    pub open spec fn idle() -> FlashWorld {
        FlashWorld {
            flash_held: false,
            block_held: false,
            announced: false,
            erased: false,
            written: false,
        }
    }

    /// After an action that came out as `event` tells.
    pub open spec fn after(self, action: FlashAction, event: FlashEvent) -> FlashWorld {
        match action {
            FlashAction::TrySemaphore(i) => if !took(event) {
                self
            } else if i == SEM_FLASH {
                FlashWorld { flash_held: true, ..self }
            } else {
                FlashWorld { block_held: true, ..self }
            },
            FlashAction::Activity(on) => FlashWorld { announced: on, ..self },
            FlashAction::Erase { .. } => FlashWorld {
                erased: event->Flashed_0 is Ok,
                ..self
            },
            FlashAction::Write { .. } => FlashWorld {
                written: event->Flashed_0 is Ok,
                ..self
            },
            FlashAction::FreeSemaphore(i) => if i == SEM_FLASH {
                FlashWorld { flash_held: false, ..self }
            } else {
                FlashWorld { block_held: false, ..self }
            },
            _ => self,
        }
    }
}

/// How the world stands at each stage of an operation.
pub open spec fn in_step(saves: bool, stage: Stage, w: FlashWorld) -> bool {
    &&& w.flash_held == !(stage is TakeFlash || stage is Done)
    &&& w.block_held == (stage is Settle || stage is Run || stage is Free)
    &&& w.announced == !(stage is TakeFlash || stage is Announce || stage is Release
        || stage is Done)
    &&& match stage {
        Stage::Take { step: FlashStep::Write, .. } => saves && w.erased,
        Stage::Settle { step: FlashStep::Write } => saves && w.erased,
        Stage::Run { step: FlashStep::Write } => saves && w.erased,
        Stage::Free { step: FlashStep::Write, result } => saves && w.erased && (result is Ok
            ==> w.written),
        Stage::Free { step: FlashStep::Erase, result } => result is Ok ==> w.erased,
        Stage::Retract { result } => result is Ok ==> w.erased && (saves ==> w.written),
        Stage::Release { result } => result is Ok ==> w.erased && (saves ==> w.written),
        Stage::Done { result } => result is Ok ==> w.erased && (saves ==> w.written),
        _ => true,
    }
}

/// Every operation starts in step with an idle world and each event keeps it
/// in step.
pub proof fn law_flash_stays_in_step(saves: bool, stage: Stage, w: FlashWorld, event: FlashEvent)
    requires
        in_step(saves, stage, w),
        answers(action_of(stage), event),
    ensures
        in_step(saves, Stage::TakeFlash { tries: 0 }, FlashWorld::idle()),
        in_step(saves, next_stage(saves, stage, event), w.after(action_of(stage), event)),
{
}

/// Flash is erased or written only while both semaphores are held and CPU2
/// has been warned, and written only after it was erased.
pub proof fn law_flash_touched_only_when_guarded(saves: bool, stage: Stage, w: FlashWorld)
    requires
        in_step(saves, stage, w),
        action_of(stage) is Erase || action_of(stage) is Write,
    ensures
        w.flash_held && w.block_held && w.announced,
        action_of(stage) is Write ==> saves && w.erased,
{
}

/// A finished operation, whatever its result, holds no semaphore and has told
/// CPU2 that it is over; one that succeeded has done its work.
pub proof fn law_flash_ends_clean(saves: bool, stage: Stage, w: FlashWorld)
    requires
        in_step(saves, stage, w),
        stage is Done,
    ensures
        !w.flash_held && !w.block_held && !w.announced,
        stage->Done_result is Ok ==> w.erased && (saves ==> w.written),
{
}

/// How many more reads of the semaphore a stage may take before it gives up.
pub open spec fn tries_left(stage: Stage) -> int {
    match stage {
        Stage::TakeFlash { tries } => SEM_TRIES - tries,
        Stage::Take { tries, .. } => SEM_TRIES - tries,
        _ => 0,
    }
}

/// A semaphore that cannot be had is given up: each read in vain uses up one
/// of the tries, and when none is left the operation moves on to its end with
/// an error.
pub proof fn law_waiting_for_a_semaphore_ends(saves: bool, stage: Stage, event: FlashEvent)
    requires
        action_of(stage) is TrySemaphore,
        answers(action_of(stage), event),
        !took(event),
    ensures
        tries_left(stage) > 1 ==> tries_left(next_stage(saves, stage, event)) == tries_left(stage)
            - 1,
        tries_left(stage) <= 1 ==> match next_stage(saves, stage, event) {
            Stage::Done { result } => stage is TakeFlash && result is Err,
            Stage::Retract { result } => stage is Take && result is Err,
            _ => false,
        },
{
}

/// The write goes where the erase went: to the page that is loaded, and no
/// further than it.
pub proof fn law_flash_touches_the_page(stage: Stage)
    ensures
        action_of(stage) matches FlashAction::Erase { from, to } ==> from == 0x3F000 && to == from
            + 4096 && PAGE_ADDR == 0x0800_0000 + from,
        action_of(stage) matches FlashAction::Write { at } ==> at == 0x3F000 && PAGE_ADDR
            == 0x0800_0000 + at,
        PAGE_OFFSET + 272 <= PAGE_OFFSET + PAGE_LEN,
{
}

/// The outcome of a stage that has one.
pub open spec fn outcome_of(stage: Stage) -> Option<Result<(), FlashError>> {
    match stage {
        Stage::Free { result, .. } => Some(result),
        Stage::Retract { result } => Some(result),
        Stage::Release { result } => Some(result),
        Stage::Done { result } => Some(result),
        _ => None,
    }
}

/// What the controller says of an erase or a write is what the operation ends
/// with, unless a write follows a good erase.
pub proof fn law_flash_reports_its_outcome(saves: bool, stage: Stage, event: FlashEvent)
    requires
        answers(action_of(stage), event),
    ensures
        stage is Run ==> outcome_of(next_stage(saves, stage, event)) == Some(event->Flashed_0),
        outcome_of(stage) matches Some(r) ==> (outcome_of(next_stage(saves, stage, event)) == Some(
            r,
        ) || (saves && r is Ok && stage is Free && next_stage(saves, stage, event) == (Stage::Take {
            step: FlashStep::Write,
            tries: 0,
        }))),
        stage matches Stage::Free { step: FlashStep::Erase, result } ==> (result is Ok && saves
            ==> next_stage(saves, stage, event) is Take),
{
}

/// A semaphore counts as held only when its register says that CPU1 holds it;
/// and while flash operations are suspended nothing is erased or written.
pub proof fn law_flash_waits_its_turn(saves: bool, stage: Stage, event: FlashEvent)
    requires
        answers(action_of(stage), event),
    ensures
        took(event) <==> event == (FlashEvent::Semaphore { lock: true, core: 4 }),
        action_of(stage) is TrySemaphore && !(event == (FlashEvent::Semaphore {
            lock: true,
            core: 4,
        })) ==> !(next_stage(saves, stage, event) is Announce) && !(next_stage(
            saves,
            stage,
            event,
        ) is Settle),
        stage is Settle && event == FlashEvent::Suspended(true) ==> next_stage(saves, stage, event)
            == stage,
        stage is Settle && event == FlashEvent::Suspended(false) ==> next_stage(
            saves,
            stage,
            event,
        ) is Run,
        next_stage(saves, stage, event) is Run ==> stage is Settle && event
            == FlashEvent::Suspended(false),
        stage is TakeFlash ==> action_of(stage) == FlashAction::TrySemaphore(2),
        stage is Take ==> action_of(stage) == FlashAction::TrySemaphore(7),
        stage is Free ==> action_of(stage) == FlashAction::FreeSemaphore(7),
        stage is Release ==> action_of(stage) == FlashAction::FreeSemaphore(2),
{
}

/// A semaphore is tried two million times before it is given up.
pub proof fn law_semaphore_tries(step: FlashStep)
    ensures
        tries_left(Stage::TakeFlash { tries: 0 }) == 2_000_000,
        tries_left(Stage::Take { step, tries: 0 }) == 2_000_000,
{
}

} // verus!
