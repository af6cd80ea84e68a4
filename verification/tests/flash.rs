use sensor_board::config::{erase, save, Config};
use sensor_board::flash::{FlashAction, FlashError, FlashEvent, FlashOp, SEM_TRIES};

const FREE: FlashEvent = FlashEvent::Semaphore { lock: true, core: 4 };

/// Runs an operation and notes what it does.
fn run(mut op: FlashOp, mut answer: impl FnMut(FlashAction) -> FlashEvent) -> (String, Result<(), FlashError>) {
    let mut log = String::new();
    loop {
        let a = op.action();
        match a {
            FlashAction::TrySemaphore(i) => log.push_str(&format!("try{i} ")),
            FlashAction::Activity(on) => log.push_str(&format!("activity:{on} ")),
            FlashAction::ReadSuspended => log.push_str("pesd "),
            FlashAction::Erase { from, to } => log.push_str(&format!("erase:{from:x}-{to:x} ")),
            FlashAction::Write { at } => log.push_str(&format!("write:{at:x} ")),
            FlashAction::FreeSemaphore(i) => log.push_str(&format!("free{i} ")),
            FlashAction::Finish(r) => return (log, r),
        }
        op.step(answer(a));
    }
}

fn happy(a: FlashAction) -> FlashEvent {
    match a {
        FlashAction::TrySemaphore(_) => FREE,
        FlashAction::ReadSuspended => FlashEvent::Suspended(false),
        FlashAction::Erase { .. } | FlashAction::Write { .. } => FlashEvent::Flashed(Ok(())),
        _ => FlashEvent::Done,
    }
}

#[test]
fn save_erases_and_writes_under_both_semaphores() {
    let (log, r) = run(save(&Config::new(&[1], 1)), happy);
    assert_eq!(
        log,
        "try2 activity:true try7 pesd erase:3f000-40000 free7 try7 pesd write:3f000 free7 activity:false free2 "
    );
    assert!(r.is_ok());
}

#[test]
fn erase_only_erases() {
    let (log, r) = run(erase(), happy);
    assert_eq!(log, "try2 activity:true try7 pesd erase:3f000-40000 free7 activity:false free2 ");
    assert!(r.is_ok());
}

#[test]
fn failed_erase_is_not_followed_by_a_write() {
    let (log, r) = run(save(&Config::new(&[1], 1)), |a| match a {
        FlashAction::Erase { .. } => FlashEvent::Flashed(Err(FlashError::Protected)),
        _ => happy(a),
    });
    assert_eq!(log, "try2 activity:true try7 pesd erase:3f000-40000 free7 activity:false free2 ");
    assert!(r == Err(FlashError::Protected));
}

#[test]
fn failed_write_is_reported() {
    let (_, r) = run(save(&Config::new(&[1], 1)), |a| match a {
        FlashAction::Write { .. } => FlashEvent::Flashed(Err(FlashError::Prog)),
        _ => happy(a),
    });
    assert!(r == Err(FlashError::Prog));
}

#[test]
fn suspension_is_waited_for() {
    let mut left = 3;
    let (log, r) = run(erase(), |a| match a {
        FlashAction::ReadSuspended => {
            left -= 1;
            FlashEvent::Suspended(left > 0)
        }
        _ => happy(a),
    });
    assert_eq!(log, "try2 activity:true try7 pesd pesd pesd erase:3f000-40000 free7 activity:false free2 ");
    assert!(r.is_ok());
}

#[test]
fn flash_held_by_cpu2_is_given_up() {
    let mut op = erase();
    let mut n = 0u32;
    while let FlashAction::TrySemaphore(i) = op.action() {
        assert_eq!(i, 2);
        n += 1;
        op.step(FlashEvent::Semaphore { lock: true, core: 8 });
    }
    assert_eq!(n, SEM_TRIES);
    assert!(matches!(op.action(), FlashAction::Finish(Err(FlashError::Unaligned))));
}

#[test]
fn step_blocked_by_cpu2_still_lets_go_of_the_flash() {
    let (log, r) = run(erase(), |a| match a {
        FlashAction::TrySemaphore(7) => FlashEvent::Semaphore { lock: false, core: 4 },
        _ => happy(a),
    });
    assert!(log.starts_with("try2 activity:true try7 try7 "));
    assert!(log.ends_with("try7 activity:false free2 "));
    assert!(r == Err(FlashError::Unaligned));
}
