use sensor_board::config::Config;
use sensor_board::dfu::{enter_bootloader_if_requested, fus_busy};
use sensor_board::text::Say;
use sensor_board::traces::traces_loop;
use sensor_board::wpan::{
    begin, boot_plan, end, fus_reported, owns, parse_hex, parse_line, ready_code, reinit, thread_stack_running,
    wpan_task, Cpu2Event, Cpu2Next, Sem5, WpanCommand,
};
use sensor_board::wpan_text::{
    clk48_line, print_info, snapshot_row, snapshot_table, stack_name, status2_line, status_line,
    thread_autostart_line, version, Clk48, DeviceInfo, Status, Status2, FUS_TABLE_KEYWORD,
};

fn texts(say: &Say) -> Vec<String> {
    match say {
        Say::Nothing => vec![],
        Say::Fixed(s) => vec![s.to_string()],
        Say::Line(l) => vec![l.as_str().to_string()],
        Say::Then(l, s) => vec![l.as_str().to_string(), s.to_string()],
        Say::Two(a, b) => vec![a.as_str().to_string(), b.as_str().to_string()],
        Say::Long(a, b) => vec![a.as_str().to_string(), b.as_str().to_string()],
    }
}

#[test]
fn owned_lines() {
    for s in ["wpan", "wpan info", "fus state", "thread", "ot ping", "  ot"] {
        assert!(owns(s), "{s}");
    }
    for s in ["", " ", "wpans", "dfu", "otter", "WPAN"] {
        assert!(!owns(s), "{s}");
    }
}

#[test]
fn lines_are_parsed() {
    let cases = [
        ("wpan", WpanCommand::Info),
        ("wpan info", WpanCommand::Info),
        ("wpan snapshot", WpanCommand::Snapshot),
        ("wpan sem5", WpanCommand::Sem5(Sem5::Keep)),
        ("wpan sem5 lock", WpanCommand::Sem5(Sem5::Lock)),
        ("wpan sem5 release", WpanCommand::Sem5(Sem5::Release)),
        ("wpan clk48", WpanCommand::Clk48 { fix: false }),
        ("wpan clk48 fix", WpanCommand::Clk48 { fix: true }),
        ("wpan reinit", WpanCommand::Reinit),
        ("fus state", WpanCommand::FusState),
        ("fus upgrade", WpanCommand::FusUpgrade { src: 0, dst: 0 }),
        ("fus upgrade 0x08050000 80a0000", WpanCommand::FusUpgrade { src: 0x0805_0000, dst: 0x080a_0000 }),
        ("fus start", WpanCommand::FusStart),
        ("fus delete", WpanCommand::FusDelete),
        ("thread init", WpanCommand::ThreadInit),
        ("ot", WpanCommand::Ot),
        ("ot init", WpanCommand::Ot),
        ("fus", WpanCommand::Unknown),
        ("fus explode", WpanCommand::Unknown),
        ("thread start", WpanCommand::Unknown),
        ("dfu", WpanCommand::Unknown),
    ];
    for (line, want) in cases {
        assert!(parse_line(line) == want, "{line}");
    }
}

#[test]
fn hexadecimal_arguments() {
    assert_eq!(parse_hex(None), 0);
    assert_eq!(parse_hex(Some("0x1F")), 0x1f);
    assert_eq!(parse_hex(Some("0X1f")), 0x1f);
    assert_eq!(parse_hex(Some("ffffffff")), 0xffff_ffff);
    assert_eq!(parse_hex(Some("100000000")), 0);
    assert_eq!(parse_hex(Some("0x")), 0);
    assert_eq!(parse_hex(Some("0x0x1")), 0);
    assert_eq!(parse_hex(Some("zz")), 0);
    assert_eq!(parse_hex(Some("")), 0);
    assert_eq!(parse_hex(Some("0x+5")), 5);
}

#[test]
fn upgrade_marks_busy_and_reports() {
    let cmd = parse_line("fus upgrade 8050000");
    let s = begin(cmd);
    assert_eq!(texts(&s.say), ["fus: fw_upgrade src 0x08050000 dst 0x00000000\r\n"]);
    assert_eq!(s.mark, Some(fus_busy(true)));
    assert_eq!(texts(&end(cmd, "Ok(ShciSuccess)")), ["fus: fw_upgrade -> Ok(ShciSuccess)\r\n"]);
}

#[test]
fn other_system_commands() {
    let s = begin(WpanCommand::FusStart);
    assert!(texts(&s.say).is_empty());
    assert_eq!(s.mark, Some(fus_busy(true)));
    assert_eq!(texts(&end(WpanCommand::FusStart, "Err(())")), ["fus: start_ws -> Err(())\r\n"]);
    assert_eq!(begin(WpanCommand::FusDelete).mark, Some(fus_busy(true)));
    assert_eq!(texts(&end(WpanCommand::FusDelete, "x")), ["fus: fw_delete -> x\r\n"]);
    assert!(begin(WpanCommand::ThreadInit).mark.is_none());
    assert_eq!(texts(&end(WpanCommand::ThreadInit, "x")), ["thread: init -> x\r\n"]);
    assert_eq!(texts(&begin(WpanCommand::Unknown).say), ["wpan: unknown command\r\n"]);
    assert!(texts(&end(WpanCommand::Info, "x")).is_empty());
}

#[test]
fn idle_fus_clears_the_busy_marker() {
    let s = fus_reported(0, 0, fus_busy(true));
    assert_eq!(texts(&s.say), ["fus: state 0x00 error 0x00\r\n", "fus: idle, busy marker cleared\r\n"]);
    assert_eq!(s.mark, Some(0));
    let s = fus_reported(0x10, 0xfe, fus_busy(true));
    assert_eq!(texts(&s.say), ["fus: state 0x10 error 0xfe\r\n"]);
    assert!(s.mark.is_none());
    let s = fus_reported(0, 0, 0);
    assert_eq!(texts(&s.say), ["fus: state 0x00 error 0x00\r\n"]);
    assert!(s.mark.is_none());
}

#[test]
fn busy_marker_holds_off_the_bootloader() {
    for cmd in [WpanCommand::FusUpgrade { src: 1, dst: 2 }, WpanCommand::FusStart, WpanCommand::FusDelete] {
        let m = begin(cmd).mark.unwrap();
        assert!(!enter_bootloader_if_requested(true, m, 0).jump);
        let m = fus_reported(0, 0, m).mark.unwrap();
        assert!(enter_bootloader_if_requested(true, m, 0).jump);
    }
}

#[test]
fn ready_event_codes() {
    assert_eq!(ready_code(None), 0xFF);
    assert_eq!(ready_code(Some(Err(()))), 0xFE);
    assert_eq!(ready_code(Some(Ok(0))), 0);
    assert_eq!(ready_code(Some(Ok(1))), 1);
}

#[test]
fn bring_up_with_a_ready_event() {
    let s = wpan_task().step(Cpu2Event::Locked(true));
    assert_eq!(texts(&s.say), ["wpan: CLK48 semaphore locked: true\r\n", "wpan: booting CPU2\r\n"]);
    assert_eq!(s.state, Some(1));
    assert!(s.ready.is_none());
    assert!(s.next == Cpu2Next::Boot(2));
    let s = s.stage.step(Cpu2Event::Ready(Some(Ok(0)), "Some(Ok(WirelessFwRunning))"));
    assert_eq!(texts(&s.say), ["wpan: CPU2 ready event: Some(Ok(WirelessFwRunning))\r\n"]);
    assert_eq!((s.state, s.ready), (Some(2), Some(0)));
    assert!(s.next == Cpu2Next::Done);
}

#[test]
fn bring_up_of_a_running_cpu2() {
    let s = wpan_task().step(Cpu2Event::Locked(false));
    assert_eq!(texts(&s.say)[0], "wpan: CLK48 semaphore locked: false\r\n");
    let s = s.stage.step(Cpu2Event::Ready(None, "None"));
    assert_eq!(texts(&s.say), ["wpan: no ready event, "]);
    assert!(s.next == Cpu2Next::Reinit && s.state.is_none() && s.ready.is_none());
    let s = s.stage.step(Cpu2Event::Asked("Ok(ShciSuccess)"));
    assert_eq!(texts(&s.say), ["wpan: REINIT -> Ok(ShciSuccess), SEV sent, waiting for ready\r\n"]);
    assert!(s.next == Cpu2Next::WaitReady(3));
    let s = s.stage.step(Cpu2Event::Ready(Some(Err(())), "Some(Err(()))"));
    assert_eq!(texts(&s.say), ["wpan: ready event: Some(Err(()))\r\n"]);
    assert_eq!((s.state, s.ready), (None, Some(0xFE)));
    assert!(s.next == Cpu2Next::Settle);
    let s = s.stage.step(Cpu2Event::Ready(Some(Err(())), "Some(Err(()))"));
    assert_eq!(texts(&s.say), ["wpan: CPU2 ready event: Some(Err(()))\r\n"]);
    assert_eq!((s.state, s.ready), (Some(2), Some(0xFE)));
    assert!(s.next == Cpu2Next::Done);
}

#[test]
fn restart_by_command() {
    let s = reinit().step(Cpu2Event::Asked("Err(())"));
    assert_eq!(texts(&s.say), ["wpan: REINIT -> Err(()), SEV sent, waiting for ready\r\n"]);
    let s = s.stage.step(Cpu2Event::Ready(None, "None"));
    assert_eq!(texts(&s.say), ["wpan: ready event: None\r\n"]);
    assert_eq!((s.state, s.ready), (None, Some(0xFF)));
    assert!(s.next == Cpu2Next::Done);
}

#[test]
fn thread_stack_is_recognised() {
    assert!(thread_stack_running(0, Some(0x10)));
    assert!(thread_stack_running(0, Some(0xABCD_EF10)));
    assert!(thread_stack_running(0, Some(0x11)));
    for other in [0x00, 0x01, 0x02, 0x12, 0x40, 0x50] {
        assert!(!thread_stack_running(0, Some(other)));
    }
    assert!(!thread_stack_running(FUS_TABLE_KEYWORD, Some(0x11)));
    assert!(!thread_stack_running(0, None));
    assert!(!thread_stack_running(FUS_TABLE_KEYWORD, Some(0x10)));
}

#[test]
fn stored_network_is_joined_at_boot() {
    let t = [7, 8, 1, 2, 3, 4, 5, 6, 7, 8];
    let p = boot_plan(&Some(Config::new(&t, 3)), true);
    assert_eq!(p.prefix, Some([1, 2, 3, 4, 5, 6, 7, 8]));
    assert_eq!(p.relay, Some(true));
    assert!(p.join);
    let p = boot_plan(&Some(Config::new(&t, 1)), false);
    assert_eq!(p.relay, Some(false));
    assert!(!p.join);
    assert!(!boot_plan(&Some(Config::new(&t, 2)), true).join);
    let p = boot_plan(&None, true);
    assert!(p.prefix.is_none() && p.relay.is_none() && !p.join);
    assert_eq!(thread_autostart_line("Ok(x)").as_str(), "wpan: autostart: thread init -> Ok(x)\r\n");
}

fn status() -> Status {
    Status {
        state: 2,
        ready: 0xff,
        hsem5: true,
        fus_busy: false,
        sfr: 0x1234_abcd,
        srrvr: 1,
        c2boot: true,
        ipccdba: 0,
        c1_sr: 0x3f,
        c1_mr: 0xffff_ffff,
        c2_sr: 0x1000,
        ref0: 1,
        ref1: 2,
        ref2: 3,
        info0: 4,
        info1: 5,
        info2: 6,
        info3: 7,
        info4: 8,
        info5: 9,
    }
}

#[test]
fn status_is_cut_where_a_piece_does_not_fit() {
    let mut l = heapless::String::new();
    status_line(&status(), &mut l);
    let whole = "wpan: state 2 ready 0xff hsem5 true fus_busy false sfr 0x1234abcd srrvr 0x00000001 c2boot true ipccdba 0x0 c1.sr 0x03f c1.mr 0xffffffff c2.sr 0x1000 | ref 00000001 00000002 00000003 | devinfo 00000004 00000005 00000006 00000007 00000008 00000009\r\n";
    assert!(whole.len() > 224);
    assert_eq!(l.as_str(), &whole[..224]);
}

#[test]
fn status_appends() {
    let mut l: heapless::String<224> = heapless::String::new();
    l.push_str("x ").unwrap();
    status_line(&status(), &mut l);
    assert!(l.as_str().starts_with("x wpan: state 2 ready 0xff"));
}

#[test]
fn second_status_names_the_locks() {
    let s = Status2 {
        cr: 0xc000_0000,
        sr: 1,
        c2cr: 2,
        c2sr: 3,
        acr: 4,
        c2acr: 5,
        ccipr: 6,
        crrcr: 7,
        extcfgr: 8,
        rcc_cr: 9,
    };
    let mut locks = [None; 10];
    locks[2] = Some(8);
    locks[5] = Some(4);
    let mut l = heapless::String::new();
    status2_line(&s, &locks, &mut l);
    assert_eq!(
        l.as_str(),
        "wpan: flash cr 0xc0000000 sr 0x00000001 c2cr 0x00000002 c2sr 0x00000003 acr 0x00000004 c2acr 0x00000005 | ccipr 0x00000006 crrcr 0x00000007 extcfgr 0x00000008 cr 0x00000009 | hsem 2:c8 5:c4\r\n"
    );
}

#[test]
fn clk48_state() {
    let mut l = heapless::String::new();
    clk48_line(
        &Clk48 { sel: 2, hsi48on: false, hsi48rdy: false, pllon: true, pllrdy: true, hsem5: true },
        &mut l,
    );
    assert_eq!(
        l.as_str(),
        "wpan: clk48sel 2 hsi48on false hsi48rdy false pllon true pllrdy true hsem5 true\r\n"
    );
}

#[test]
fn versions() {
    assert_eq!(version(0x0102_0304), (1, 2, 3));
    assert_eq!(version(0xFFFE_FDFC), (255, 254, 253));
}

#[test]
fn stack_names() {
    for (k, name) in [
        (0x00, "none"),
        (0x01, "BLE full"),
        (0x02, "BLE HCI"),
        (0x10, "Thread FTD"),
        (0x11, "Thread MTD"),
        (0x40, "802.15.4 MAC"),
        (0x50, "BLE+Thread static"),
        (0x51, "?"),
    ] {
        assert_eq!(stack_name(k + 0x100), name);
    }
}

#[test]
fn wireless_firmware_info() {
    let info = DeviceInfo {
        fus_version: 0x0102_0000,
        fus_memory: 0x0500_0001,
        stack_version: 0x010d_0004,
        stack_memory: 0x2c,
        thread_info: 0x10,
    };
    assert_eq!(
        texts(&print_info(&[0; 16], &info)),
        [
            "wpan: FUS v1.2.0 (0x01020000) mem 0x05000001\r\n",
            "wpan: stack v1.13.0 (0x010d0004) mem 0x0000002c info 0x00000010 = Thread FTD\r\n"
        ]
    );
}

fn fus_words() -> [u32; 9] {
    [FUS_TABLE_KEYWORD, 0x1133_2200, 0, 0x0102_0000, 0xA, 0x010d_0000, 0xB, 0, 0x10]
}

#[test]
fn running_fus_info() {
    let mut raw = [0u32; 16];
    raw[..9].copy_from_slice(&fus_words());
    let info = DeviceInfo { fus_version: 0, fus_memory: 0, stack_version: 0, stack_memory: 0, thread_info: 0 };
    let whole = "wpan: FUS running: FUS v1.2.0 (0x01020000) mem 0x0000000a | installed stack v1.13.0 (0x010d0000) mem 0x0000000b type 0x11 thread_info 0x00000010 | last fus state 0x22 last stack state 0x33\r\n";
    assert_eq!(texts(&print_info(&raw, &info)), [whole]);
}

#[test]
fn snapshot_rows() {
    let mut snap = [0u32; 64];
    for (i, w) in snap.iter_mut().enumerate() {
        *w = i as u32;
    }
    assert_eq!(
        snapshot_row(&snap, 1).as_str(),
        "wpan: sram2a+020: 00000008 00000009 0000000a 0000000b 0000000c 0000000d 0000000e 0000000f\r\n"
    );
    assert!(snapshot_row(&snap, 7).as_str().starts_with("wpan: sram2a+0e0: 00000038 "));
}

#[test]
fn snapshot_tables() {
    let mut snap = [0u32; 64];
    assert_eq!(texts(&snapshot_table(&snap)), ["wpan: no FUS table keyword in the boot snapshot\r\n"]);
    snap[9..18].copy_from_slice(&fus_words());
    assert_eq!(
        texts(&snapshot_table(&snap)),
        ["wpan: FUS table at boot (+0x24): FUS v1.2.0 mem 0x0000000a | stack v1.13.0 mem 0x0000000b type 0x11 thread_info 0x00000010 | last fus state 0x22 last stack state 0x33\r\n"]
    );
    let mut late = [0u32; 64];
    late[54] = FUS_TABLE_KEYWORD;
    assert_eq!(texts(&snapshot_table(&late)).len(), 1);
    late[54] = 0;
    late[55] = FUS_TABLE_KEYWORD;
    assert!(texts(&snapshot_table(&late)).is_empty());
}

fn trace(payload: &[u8]) -> Vec<String> {
    let mut stage = traces_loop();
    let mut out = vec![];
    while !stage.is_done() {
        out.extend(texts(&stage.next(payload)));
    }
    assert!(texts(&stage.next(payload)).is_empty());
    out
}

#[test]
fn traces_are_shown_whole() {
    let payload: Vec<u8> = (0..200u32).map(|i| i as u8).collect();
    let out = trace(&payload);
    let sizes: Vec<usize> = out.iter().map(|t| t.len()).collect();
    assert_eq!(sizes, [6, 64, 64, 64, 8, 2]);
    assert_eq!(out[0], "cpu2: ");
    assert_eq!(out[5], "\r\n");
    for (b, c) in payload.iter().zip(out[1..5].concat().chars()) {
        let plain = (0x20..0x7f).contains(b) || *b == b'\n' || *b == b'\r';
        assert_eq!(c, if plain { *b as char } else { '.' });
    }
}

#[test]
fn empty_trace_is_an_empty_line() {
    assert_eq!(trace(&[]), ["cpu2: ", "\r\n"]);
    assert_eq!(trace(&[b'x'; 64]).len(), 3);
}
