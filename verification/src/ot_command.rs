//! The `ot` commands: `ot init | new | tlvs | settlvs <hex> | up | down | info
//! | neighbors | parent | ping <ipv6> [n] | save | forget | config | range
//! [off] | keepalive [off] | txpower [dBm]`.
//!
//! A command is a conversation with CPU2 and the flash. Each [`OtStep`] says
//! what to switch, what to print and what to do next; what comes of that is
//! handed to [`OtState::step`], which gives the next step.

use vstd::prelude::*;
use vstd::slice::slice_subrange;
use crate::bounded::dataset_slice;
use crate::bytes::extend;
use crate::bytes::extended;
use crate::bytes::i8_of;
use crate::bytes::signed8;
use crate::config::Config;
use crate::config::FLAG_AUTOSTART;
use crate::config::Stored;
use crate::config::at_most;
use crate::config::fresh;
use crate::config::keepalive_flags;
use crate::flash::FlashError;
use crate::ip6::ip6_of;
use crate::ip6::parse_ip6;
use crate::ot::Arg;
use crate::ot::Ask;
use crate::ot::Block;
use crate::ot::Held;
use crate::ot::HexBytes;
use crate::ot::OtCall;
use crate::ot::Reply;
use crate::ot::Request;
use crate::ot::ask;
use crate::ot::ask_get_active_tlvs;
use crate::ot::ask_iter;
use crate::ot::ask_next_neighbor;
use crate::ot::ask_ping;
use crate::ot::ask_set_active_tlvs;
use crate::ot::block_tlvs;
use crate::ot::down;
use crate::ot::four;
use crate::ot::get_active_tlvs;
use crate::ot::hex_bytes;
use crate::ot::init;
use crate::ot::next_neighbor;
use crate::ot::parent_rssi;
use crate::ot::parent_rssi_of;
use crate::ot::parse_hex_bytes;
use crate::ot::ping;
use crate::ot::readable;
use crate::ot::replies_to;
use crate::ot::request;
use crate::ot::request_active_tlvs;
use crate::ot::request_iter;
use crate::ot::role;
use crate::ot::rssi_pair;
use crate::ot::set_active_tlvs;
use crate::ot::up;
use crate::ot_text::config_line;
use crate::ot_text::config_text;
use crate::ot_text::count_line;
use crate::ot_text::count_text;
use crate::ot_text::down_line;
use crate::ot_text::down_text;
use crate::ot_text::erased_line;
use crate::ot_text::erased_text;
use crate::ot_text::info_line;
use crate::ot_text::info_text;
use crate::ot_text::init_line;
use crate::ot_text::init_text;
use crate::ot_text::keepalive_line;
use crate::ot_text::keepalive_text;
use crate::ot_text::neighbor_in;
use crate::ot_text::neighbor_line;
use crate::ot_text::neighbor_of;
use crate::ot_text::neighbor_text;
use crate::ot_text::new_network_line;
use crate::ot_text::new_network_text;
use crate::ot_text::no_dataset_line;
use crate::ot_text::no_dataset_text;
use crate::ot_text::ottlvs_line;
use crate::ot_text::ottlvs_text;
use crate::ot_text::parent_line;
use crate::ot_text::parent_text;
use crate::ot_text::ping_line;
use crate::ot_text::ping_text;
use crate::ot_text::power_line;
use crate::ot_text::power_set_line;
use crate::ot_text::power_set_text;
use crate::ot_text::power_text;
use crate::ot_text::range_line;
use crate::ot_text::range_text;
use crate::ot_text::saved_line;
use crate::ot_text::saved_text;
use crate::ot_text::set_tlvs_line;
use crate::ot_text::set_tlvs_text;
use crate::ot_text::tlvs_error_line;
use crate::ot_text::tlvs_error_text;
use crate::ot_text::tlvs_line;
use crate::ot_text::tlvs_text;
use crate::ot_text::up_line;
use crate::ot_text::up_text;
use crate::text::Say;
use crate::words::Parts;
use crate::words::is_word;
use crate::words::parse_signed_byte;
use crate::words::parse_unsigned;
use crate::words::signed_byte;
use crate::words::unsigned;
use crate::words::word;

verus! {

// ---- commands ----

/// A parsed `ot` command.
pub enum OtCommand {
    Init,
    Save,
    Keepalive { on: bool },
    TxPower { set: Option<i8> },
    Forget,
    Show,
    Range { on: bool },
    New,
    Tlvs,
    SetTlvs { tlvs: HexBytes },
    Up,
    Down,
    Info,
    Neighbors,
    Parent,
    Ping { dst: [u8; 16], count: u16 },
    PingUsage,
    Help,
}

/// The contents of [`OtCommand`].
pub ghost enum OtCmd {
    Init,
    Save,
    Keepalive(bool),
    TxPower(Option<i8>),
    Forget,
    Show,
    Range(bool),
    New,
    Tlvs,
    SetTlvs(Seq<u8>),
    Up,
    Down,
    Info,
    Neighbors,
    Parent,
    Ping(Seq<u8>, u16),
    PingUsage,
    Help,
}

impl View for OtCommand {
    type V = OtCmd;

    open spec fn view(&self) -> OtCmd {
        match *self {
            OtCommand::Init => OtCmd::Init,
            OtCommand::Save => OtCmd::Save,
            OtCommand::Keepalive { on } => OtCmd::Keepalive(on),
            OtCommand::TxPower { set } => OtCmd::TxPower(set),
            OtCommand::Forget => OtCmd::Forget,
            OtCommand::Show => OtCmd::Show,
            OtCommand::Range { on } => OtCmd::Range(on),
            OtCommand::New => OtCmd::New,
            OtCommand::Tlvs => OtCmd::Tlvs,
            OtCommand::SetTlvs { tlvs } => OtCmd::SetTlvs(tlvs.spelled()),
            OtCommand::Up => OtCmd::Up,
            OtCommand::Down => OtCmd::Down,
            OtCommand::Info => OtCmd::Info,
            OtCommand::Neighbors => OtCmd::Neighbors,
            OtCommand::Parent => OtCmd::Parent,
            OtCommand::Ping { dst, count } => OtCmd::Ping(dst@, count),
            OtCommand::PingUsage => OtCmd::PingUsage,
            OtCommand::Help => OtCmd::Help,
        }
    }
}

/// The power given, if there is one and it is a number of eight bits.
pub open spec fn power_arg(w: Option<Seq<char>>) -> Option<i8> {
    match w {
        Some(s) => match signed_byte(s) {
            Some(v) => Some(v as i8),
            None => None,
        },
        None => None,
    }
}

/// At most 254 bytes given in hexadecimal.
pub open spec fn tlvs_arg(w: Option<Seq<char>>) -> Seq<u8> {
    match w {
        Some(s) => {
            let all = hex_bytes(vstd::utf8::encode_utf8(s));
            all.take(at_most(all.len() as int, 254))
        },
        None => Seq::empty(),
    }
}

/// The number of pings given; three if there is none or it is no number of 16
/// bits.
pub open spec fn count_arg(w: Option<Seq<char>>) -> u16 {
    match w {
        Some(s) => match unsigned(s, 10, 0xFFFF) {
            Some(v) => v as u16,
            None => 3,
        },
        None => 3,
    }
}

/// The command on a line whose first word is `ot`, and which is told by its
/// second.
pub open spec fn ot_command(s: Seq<char>) -> OtCmd {
    let w = word(s, 1);
    if w == Some("init"@) {
        OtCmd::Init
    } else if w == Some("save"@) {
        OtCmd::Save
    } else if w == Some("keepalive"@) {
        OtCmd::Keepalive(word(s, 2) != Some("off"@))
    } else if w == Some("txpower"@) {
        OtCmd::TxPower(power_arg(word(s, 2)))
    } else if w == Some("forget"@) {
        OtCmd::Forget
    } else if w == Some("config"@) {
        OtCmd::Show
    } else if w == Some("range"@) {
        OtCmd::Range(word(s, 2) != Some("off"@))
    } else if w == Some("new"@) {
        OtCmd::New
    } else if w == Some("tlvs"@) {
        OtCmd::Tlvs
    } else if w == Some("settlvs"@) {
        OtCmd::SetTlvs(tlvs_arg(word(s, 2)))
    } else if w == Some("up"@) {
        OtCmd::Up
    } else if w == Some("down"@) {
        OtCmd::Down
    } else if w == Some("info"@) || w == Some("role"@) {
        OtCmd::Info
    } else if w == Some("neighbors"@) {
        OtCmd::Neighbors
    } else if w == Some("parent"@) {
        OtCmd::Parent
    } else if w == Some("ping"@) {
        match word(s, 2) {
            Some(a) => match ip6_of(a) {
                Some(dst) => OtCmd::Ping(dst, count_arg(word(s, 3))),
                None => OtCmd::PingUsage,
            },
            None => OtCmd::PingUsage,
        }
    } else {
        OtCmd::Help
    }
}

/// Reads the command on a line.
pub fn parse_command(s: &str) -> (r: OtCommand)
    ensures
        r@ == ot_command(s@),
        r matches OtCommand::SetTlvs { tlvs } ==> tlvs.n <= 254,
{
    let mut words = Parts::words(s);
    let _ = words.next();
    let w = words.next();
    let a = words.next();
    let b = words.next();
    if is_word(w, "init") {
        OtCommand::Init
    } else if is_word(w, "save") {
        OtCommand::Save
    } else if is_word(w, "keepalive") {
        OtCommand::Keepalive { on: !is_word(a, "off") }
    } else if is_word(w, "txpower") {
        let set = match a {
            Some(v) => parse_signed_byte(v),
            None => None,
        };
        OtCommand::TxPower { set }
    } else if is_word(w, "forget") {
        OtCommand::Forget
    } else if is_word(w, "config") {
        OtCommand::Show
    } else if is_word(w, "range") {
        OtCommand::Range { on: !is_word(a, "off") }
    } else if is_word(w, "new") {
        OtCommand::New
    } else if is_word(w, "tlvs") {
        OtCommand::Tlvs
    } else if is_word(w, "settlvs") {
        let tlvs = match a {
            Some(hex) => parse_hex_bytes(hex.as_bytes()),
            None => HexBytes { bytes: [0; 254], n: 0 },
        };
        assert(a is None ==> tlvs.spelled() =~= Seq::<u8>::empty());
        OtCommand::SetTlvs { tlvs }
    } else if is_word(w, "up") {
        OtCommand::Up
    } else if is_word(w, "down") {
        OtCommand::Down
    } else if is_word(w, "info") || is_word(w, "role") {
        OtCommand::Info
    } else if is_word(w, "neighbors") {
        OtCommand::Neighbors
    } else if is_word(w, "parent") {
        OtCommand::Parent
    } else if is_word(w, "ping") {
        let dst = match a {
            Some(t) => parse_ip6(t),
            None => None,
        };
        match dst {
            Some(dst) => {
                let given = match b {
                    Some(t) => parse_unsigned(t, 10, 0xFFFF),
                    None => None,
                };
                let count: u16 = match given {
                    Some(n) => n as u16,
                    None => 3,
                };
                OtCommand::Ping { dst, count }
            },
            None => OtCommand::PingUsage,
        }
    } else {
        OtCommand::Help
    }
}

// ---- steps ----

/// Where a command stands: what it waits for, and what it has learned.
#[derive(Clone, Copy)]
pub enum OtState {
    InitInstance,
    InitCallback { inst: u32 },
    SaveDataset,
    Saving { n: usize },
    KeepaliveLoad { on: bool },
    KeepaliveSave { on: bool },
    PowerSet { v: i8 },
    PowerGet,
    Forgetting,
    Showing,
    NewCreate,
    NewActivate { r1: u32 },
    TlvsGet,
    TlvsSet { n: usize },
    UpIp6,
    UpThread { r1: u32 },
    DownThread,
    DownIp6 { r1: u32 },
    InfoRole,
    InfoRloc { role: u32 },
    InfoChannel { role: u32, rloc: u32 },
    InfoPan { role: u32, rloc: u32, ch: u32 },
    InfoCommissioned { role: u32, rloc: u32, ch: u32, pan: u32 },
    InfoEid { role: u32, rloc: u32, ch: u32, pan: u32, comm: u32 },
    InfoAddress { role: u32, rloc: u32, ch: u32, pan: u32, comm: u32, eid: u32 },
    Neighbors { count: u32 },
    ParentAverage,
    ParentLast { r1: u32, avg: u8 },
    Pinging { times: u16 },
    Finished,
}

/// What came of a step.
pub enum OtEvent {
    /// The reply to a call.
    Reply(Reply),
    /// The 16 bytes at an address.
    Memory([u8; 16]),
    /// The stored configuration.
    Loaded(Option<Config>),
    /// The outcome of a flash operation.
    Flashed(Result<(), FlashError>),
}

/// What to do next.
pub enum OtNext {
    /// Make a call.
    Call(Request),
    /// Read 16 bytes at this address.
    Read(u32),
    /// Load the stored configuration.
    Load,
    /// Store a configuration.
    Save(Config),
    /// Erase the stored configuration.
    Erase,
    /// Nothing: the command is over.
    Done,
}

/// The contents of [`OtNext`].
pub ghost enum Next {
    Call(Ask),
    Read(u32),
    Load,
    Save(Stored),
    Erase,
    Done,
}

impl View for OtNext {
    type V = Next;

    open spec fn view(&self) -> Next {
        match *self {
            OtNext::Call(r) => Next::Call(r@),
            OtNext::Read(p) => Next::Read(p),
            OtNext::Load => Next::Load,
            OtNext::Save(c) => Next::Save(c.contents()),
            OtNext::Erase => Next::Erase,
            OtNext::Done => Next::Done,
        }
    }
}

/// One step of a command. The switches come first, the printing next.
pub struct OtStep {
    pub state: OtState,
    /// Turn the keep-alive load of the relay on or off.
    pub relay: Option<bool>,
    /// Turn range mode on or off.
    pub range: Option<bool>,
    pub say: Say,
    pub next: OtNext,
}

/// The contents of [`OtStep`].
pub ghost struct Turn {
    pub state: OtState,
    pub relay: Option<bool>,
    pub range: Option<bool>,
    pub says: Seq<Seq<char>>,
    pub next: Next,
}

impl View for OtStep {
    type V = Turn;

    open spec fn view(&self) -> Turn {
        Turn {
            state: self.state,
            relay: self.relay,
            range: self.range,
            says: self.say@,
            next: self.next@,
        }
    }
}

/// A step that does something and prints nothing.
pub open spec fn goes(state: OtState, next: Next) -> Turn {
    Turn { state, relay: None, range: None, says: Seq::empty(), next }
}

/// A step that ends a command with what it prints.
pub open spec fn ends(says: Seq<Seq<char>>) -> Turn {
    Turn { state: OtState::Finished, relay: None, range: None, says, next: Next::Done }
}

fn going(state: OtState, next: OtNext) -> (r: OtStep)
    ensures
        r@ == goes(state, next@),
        r.next == next,
{
    OtStep { state, relay: None, range: None, say: Say::Nothing, next }
}

fn ending(say: Say) -> (r: OtStep)
    ensures
        r@ == ends(say@),
        r.next is Done,
{
    OtStep { state: OtState::Finished, relay: None, range: None, say, next: OtNext::Done }
}

impl OtState {
    /// The count of neighbors stays within what is printed.
    pub open spec fn wf(self) -> bool {
        match self {
            OtState::Neighbors { count } => count <= 16,
            _ => true,
        }
    }
}

/// Whether an event is what a state waits for.
pub open spec fn awaits(state: OtState, event: OtEvent) -> bool {
    match state {
        OtState::KeepaliveLoad { .. } | OtState::Showing => {
            &&& event is Loaded
            &&& event->Loaded_0 matches Some(c) ==> c.valid()
        },
        OtState::Saving { .. } | OtState::KeepaliveSave { .. } | OtState::Forgetting => {
            event is Flashed
        },
        OtState::InfoAddress { .. } => event is Memory,
        OtState::SaveDataset | OtState::TlvsGet => {
            event is Reply && event->Reply_0.held is Tlvs
        },
        OtState::PowerGet | OtState::ParentAverage | OtState::ParentLast { .. } => {
            event is Reply && event->Reply_0.held is Iter
        },
        OtState::Neighbors { .. } => event is Reply && event->Reply_0.held is Neighbor,
        OtState::Finished => false,
        _ => event is Reply,
    }
}

/// Whether an event can come of an action.
pub open spec fn comes_of(next: Next, event: OtEvent) -> bool {
    match next {
        Next::Call(a) => event is Reply && replies_to(a.read, event->Reply_0),
        Next::Read(_) => event is Memory,
        Next::Load => {
            &&& event is Loaded
            &&& event->Loaded_0 matches Some(c) ==> c.valid()
        },
        Next::Save(_) | Next::Erase => event is Flashed,
        Next::Done => false,
    }
}

pub open spec fn help_text() -> Seq<char> {
    "ot: init | new | tlvs | settlvs <hex> | up | down | info | neighbors | parent | ping <ipv6> [n] | save | forget | config | range [off] | keepalive [off] | txpower [dBm]\r\n"@
}

/// The step that asks for the transmit power.
pub open spec fn ask_power(says: Seq<Seq<char>>) -> Turn {
    Turn {
        state: OtState::PowerGet,
        relay: None,
        range: None,
        says,
        next: Next::Call(ask_iter(OtCall::RadioGetTransmitPower, Some(four(0x7f)))),
    }
}

/// The first step of a command.
pub open spec fn begins(cmd: OtCmd) -> Turn {
    match cmd {
        OtCmd::Init => goes(
            OtState::InitInstance,
            Next::Call(ask(OtCall::InstanceInitSingle, None)),
        ),
        OtCmd::Save => goes(OtState::SaveDataset, Next::Call(ask_get_active_tlvs())),
        OtCmd::Keepalive(on) => goes(OtState::KeepaliveLoad { on }, Next::Load),
        OtCmd::TxPower(Some(v)) => goes(
            OtState::PowerSet { v },
            Next::Call(
                ask(OtCall::RadioSetTransmitPower, Some(Arg::Word(extended(v) as u32))),
            ),
        ),
        OtCmd::TxPower(None) => ask_power(Seq::empty()),
        OtCmd::Forget => goes(OtState::Forgetting, Next::Erase),
        OtCmd::Show => goes(OtState::Showing, Next::Load),
        OtCmd::Range(on) => Turn { range: Some(on), ..ends(seq![range_text(on)]) },
        OtCmd::New => goes(
            OtState::NewCreate,
            Next::Call(ask(OtCall::DatasetCreateNewNetwork, Some(Arg::At(Block::Dataset)))),
        ),
        OtCmd::Tlvs => goes(OtState::TlvsGet, Next::Call(ask_get_active_tlvs())),
        OtCmd::SetTlvs(t) => goes(
            OtState::TlvsSet { n: t.len() as usize },
            Next::Call(ask_set_active_tlvs(t)),
        ),
        OtCmd::Up => goes(
            OtState::UpIp6,
            Next::Call(ask(OtCall::Ip6SetEnabled, Some(Arg::Word(1)))),
        ),
        OtCmd::Down => goes(
            OtState::DownThread,
            Next::Call(ask(OtCall::ThreadSetEnabled, Some(Arg::Word(0)))),
        ),
        OtCmd::Info => goes(
            OtState::InfoRole,
            Next::Call(ask(OtCall::ThreadGetDeviceRole, None)),
        ),
        OtCmd::Neighbors => goes(
            OtState::Neighbors { count: 0 },
            Next::Call(ask_next_neighbor(true)),
        ),
        OtCmd::Parent => goes(
            OtState::ParentAverage,
            Next::Call(ask_iter(OtCall::ThreadGetParentAverageRssi, Some(four(0)))),
        ),
        OtCmd::Ping(dst, count) => goes(
            OtState::Pinging { times: count },
            Next::Call(ask_ping(dst, count, 0)),
        ),
        OtCmd::PingUsage => ends(seq!["ot: ping <ipv6>\r\n"@]),
        OtCmd::Help => ends(seq![help_text()]),
    }
}

/// The step that follows a reply of CPU2.
pub open spec fn follows_reply(state: OtState, value: u32, held: Held) -> Turn {
    match state {
        OtState::InitInstance => goes(
            OtState::InitCallback { inst: value },
            Next::Call(ask(OtCall::SetStateChangedCallback, Some(Arg::Word(0)))),
        ),
        OtState::InitCallback { inst } => ends(seq![init_text(inst, value)]),
        OtState::SaveDataset => if value == 0 {
            let tlvs = block_tlvs(held->Tlvs_0@);
            goes(
                OtState::Saving { n: tlvs.len() as usize },
                Next::Save(fresh(tlvs, FLAG_AUTOSTART)),
            )
        } else {
            ends(seq![no_dataset_text(value)])
        },
        OtState::PowerSet { v } => ask_power(seq![power_set_text(v, value)]),
        OtState::PowerGet => ends(
            seq![power_text(signed8(held->Iter_0@[0]) as i8, value)],
        ),
        OtState::NewCreate => goes(
            OtState::NewActivate { r1: value },
            Next::Call(ask(OtCall::DatasetSetActive, Some(Arg::At(Block::Dataset)))),
        ),
        OtState::NewActivate { r1 } => ends(seq![new_network_text(r1, value)]),
        OtState::TlvsGet => if value == 0 {
            let tlvs = block_tlvs(held->Tlvs_0@);
            ends(seq![tlvs_text(tlvs.len() as usize), ottlvs_text(tlvs)])
        } else {
            ends(seq![tlvs_error_text(value)])
        },
        OtState::TlvsSet { n } => ends(seq![set_tlvs_text(n, value)]),
        OtState::UpIp6 => goes(
            OtState::UpThread { r1: value },
            Next::Call(ask(OtCall::ThreadSetEnabled, Some(Arg::Word(1)))),
        ),
        OtState::UpThread { r1 } => ends(seq![up_text(r1, value)]),
        OtState::DownThread => goes(
            OtState::DownIp6 { r1: value },
            Next::Call(ask(OtCall::Ip6SetEnabled, Some(Arg::Word(0)))),
        ),
        OtState::DownIp6 { r1 } => ends(seq![down_text(r1, value)]),
        OtState::InfoRole => goes(
            OtState::InfoRloc { role: value },
            Next::Call(ask(OtCall::ThreadGetRloc16, None)),
        ),
        OtState::InfoRloc { role } => goes(
            OtState::InfoChannel { role, rloc: value },
            Next::Call(ask(OtCall::LinkGetChannel, None)),
        ),
        OtState::InfoChannel { role, rloc } => goes(
            OtState::InfoPan { role, rloc, ch: value },
            Next::Call(ask(OtCall::LinkGetPanid, None)),
        ),
        OtState::InfoPan { role, rloc, ch } => goes(
            OtState::InfoCommissioned { role, rloc, ch, pan: value },
            Next::Call(ask(OtCall::DatasetIsCommissioned, None)),
        ),
        OtState::InfoCommissioned { role, rloc, ch, pan } => goes(
            OtState::InfoEid { role, rloc, ch, pan, comm: value },
            Next::Call(ask(OtCall::ThreadGetMeshLocalEid, None)),
        ),
        OtState::InfoEid { role, rloc, ch, pan, comm } => if 0x2000_0000 <= value < 0x2004_0000 {
            goes(
                OtState::InfoAddress { role, rloc, ch, pan, comm, eid: value },
                Next::Read(value),
            )
        } else {
            ends(seq![info_text(role, rloc, ch, pan, comm, value, None)])
        },
        OtState::Neighbors { count } => if value != 0 {
            ends(seq![count_text(count)])
        } else {
            let says = neighbor_text(neighbor_in(held->Neighbor_0@));
            if count >= 16 {
                ends(seq![says, count_text((count + 1) as u32)])
            } else {
                Turn {
                    says: seq![says],
                    ..goes(
                        OtState::Neighbors { count: (count + 1) as u32 },
                        Next::Call(ask_next_neighbor(false)),
                    )
                }
            }
        },
        OtState::ParentAverage => goes(
            OtState::ParentLast { r1: value, avg: held->Iter_0@[0] },
            Next::Call(ask_iter(OtCall::ThreadGetParentLastRssi, None)),
        ),
        OtState::ParentLast { r1, avg } => match rssi_pair(r1, avg, value, held->Iter_0@[0]) {
            Some(p) => ends(seq![parent_text(p.0 as i8, p.1 as i8)]),
            None => ends(seq!["ot: no parent\r\n"@]),
        },
        OtState::Pinging { times } => ends(seq![ping_text(times, value)]),
        _ => ends(Seq::empty()),
    }
}

/// The step that follows an event.
pub open spec fn follows(state: OtState, event: OtEvent) -> Turn {
    match event {
        OtEvent::Reply(r) => follows_reply(state, r.value, r.held),
        OtEvent::Memory(a) => match state {
            OtState::InfoAddress { role, rloc, ch, pan, comm, eid } => ends(
                seq![info_text(role, rloc, ch, pan, comm, eid, Some(a@))],
            ),
            _ => ends(Seq::empty()),
        },
        OtEvent::Loaded(c) => match (state, c) {
            (OtState::KeepaliveLoad { on }, Some(c)) => goes(
                OtState::KeepaliveSave { on },
                Next::Save(
                    Stored {
                        flags: keepalive_flags(c.flags, on) as int,
                        ..c.contents()
                    },
                ),
            ),
            (OtState::KeepaliveLoad { .. }, None) => ends(
                seq!["ot: no config stored; run `ot save` first\r\n"@],
            ),
            (OtState::Showing, Some(c)) => ends(seq![config_text(c)]),
            (OtState::Showing, None) => ends(seq!["ot: no config stored\r\n"@]),
            _ => ends(Seq::empty()),
        },
        OtEvent::Flashed(r) => match state {
            OtState::Saving { n } => ends(seq![saved_text(n, r)]),
            OtState::KeepaliveSave { on } => Turn {
                relay: Some(on),
                ..ends(seq![keepalive_text(on, r)])
            },
            OtState::Forgetting => Turn { range: Some(false), ..ends(seq![erased_text(r)]) },
            _ => ends(Seq::empty()),
        },
    }
}

/// A configuration handed out to be stored is one that can be loaded.
pub open spec fn saves_valid(next: OtNext) -> bool {
    next matches OtNext::Save(c) ==> c.valid()
}

/// Begins the command on a line whose first word is `ot`.
pub fn command(line: &str) -> (r: OtStep)
    ensures
        r@ == begins(ot_command(line@)),
        r.state.wf(),
        saves_valid(r.next),
{
    match parse_command(line) {
        OtCommand::Init => going(OtState::InitInstance, OtNext::Call(init().0)),
        OtCommand::Save => going(OtState::SaveDataset, OtNext::Call(request_active_tlvs())),
        OtCommand::Keepalive { on } => going(OtState::KeepaliveLoad { on }, OtNext::Load),
        OtCommand::TxPower { set } => match set {
            Some(v) => going(
                OtState::PowerSet { v },
                OtNext::Call(
                    request(OtCall::RadioSetTransmitPower, Some(Arg::Word(extend(v)))),
                ),
            ),
            None => asking_power(Say::Nothing),
        },
        OtCommand::Forget => going(OtState::Forgetting, OtNext::Erase),
        OtCommand::Show => going(OtState::Showing, OtNext::Load),
        OtCommand::Range { on } => {
            let mut r = ending(Say::Line(range_line(on)));
            r.range = Some(on);
            r
        },
        OtCommand::New => going(
            OtState::NewCreate,
            OtNext::Call(
                request(OtCall::DatasetCreateNewNetwork, Some(Arg::At(Block::Dataset))),
            ),
        ),
        OtCommand::Tlvs => going(OtState::TlvsGet, OtNext::Call(request_active_tlvs())),
        OtCommand::SetTlvs { tlvs } => {
            let given = slice_subrange(tlvs.bytes.as_slice(), 0, tlvs.n);
            assert(given@ =~= tlvs.spelled());
            going(OtState::TlvsSet { n: tlvs.n }, OtNext::Call(set_active_tlvs(given)))
        },
        OtCommand::Up => going(OtState::UpIp6, OtNext::Call(up().0)),
        OtCommand::Down => going(OtState::DownThread, OtNext::Call(down().0)),
        OtCommand::Info => going(OtState::InfoRole, OtNext::Call(role())),
        OtCommand::Neighbors => going(
            OtState::Neighbors { count: 0 },
            OtNext::Call(next_neighbor(true)),
        ),
        OtCommand::Parent => going(OtState::ParentAverage, OtNext::Call(parent_rssi().0)),
        OtCommand::Ping { dst, count } => going(
            OtState::Pinging { times: count },
            OtNext::Call(ping(&dst, count, 0)),
        ),
        OtCommand::PingUsage => ending(Say::Fixed("ot: ping <ipv6>\r\n")),
        OtCommand::Help => ending(
            Say::Fixed(
                "ot: init | new | tlvs | settlvs <hex> | up | down | info | neighbors | parent | ping <ipv6> [n] | save | forget | config | range [off] | keepalive [off] | txpower [dBm]\r\n",
            ),
        ),
    }
}

fn asking_power(say: Say) -> (r: OtStep)
    ensures
        r@ == ask_power(say@),
        !(r.next is Save),
{
    let marks: [u8; 4] = [0x7f; 4];
    assert(marks@ =~= four(0x7f));
    OtStep {
        state: OtState::PowerGet,
        relay: None,
        range: None,
        say,
        next: OtNext::Call(request_iter(OtCall::RadioGetTransmitPower, Some(marks))),
    }
}

impl OtState {
    /// The step that follows a reply of CPU2.
    fn step_reply(self, reply: Reply) -> (r: OtStep)
        requires
            self.wf(),
            awaits(self, OtEvent::Reply(reply)),
        ensures
            r@ == follows_reply(self, reply.value, reply.held),
            r.state.wf(),
            saves_valid(r.next),
    {
        let value = reply.value;
        match self {
            OtState::InitInstance => going(
                OtState::InitCallback { inst: value },
                OtNext::Call(init().1),
            ),
            OtState::InitCallback { inst } => ending(Say::Line(init_line(inst, value))),
            OtState::SaveDataset => step_save(value, reply.held),
            OtState::PowerSet { v } => asking_power(Say::Line(power_set_line(v, value))),
            OtState::PowerGet => match reply.held {
                Held::Iter(b) => ending(Say::Line(power_line(i8_of(b[0]), value))),
                _ => ending(Say::Nothing),
            },
            OtState::NewCreate => going(
                OtState::NewActivate { r1: value },
                OtNext::Call(request(OtCall::DatasetSetActive, Some(Arg::At(Block::Dataset)))),
            ),
            OtState::NewActivate { r1 } => ending(Say::Line(new_network_line(r1, value))),
            OtState::TlvsGet => step_tlvs(value, reply.held),
            OtState::TlvsSet { n } => ending(Say::Line(set_tlvs_line(n, value))),
            OtState::UpIp6 => going(OtState::UpThread { r1: value }, OtNext::Call(up().1)),
            OtState::UpThread { r1 } => ending(Say::Line(up_line(r1, value))),
            OtState::DownThread => going(OtState::DownIp6 { r1: value }, OtNext::Call(down().1)),
            OtState::DownIp6 { r1 } => ending(Say::Line(down_line(r1, value))),
            OtState::InfoRole => going(
                OtState::InfoRloc { role: value },
                OtNext::Call(request(OtCall::ThreadGetRloc16, None)),
            ),
            OtState::InfoRloc { role } => going(
                OtState::InfoChannel { role, rloc: value },
                OtNext::Call(request(OtCall::LinkGetChannel, None)),
            ),
            OtState::InfoChannel { role, rloc } => going(
                OtState::InfoPan { role, rloc, ch: value },
                OtNext::Call(request(OtCall::LinkGetPanid, None)),
            ),
            OtState::InfoPan { role, rloc, ch } => going(
                OtState::InfoCommissioned { role, rloc, ch, pan: value },
                OtNext::Call(request(OtCall::DatasetIsCommissioned, None)),
            ),
            OtState::InfoCommissioned { role, rloc, ch, pan } => going(
                OtState::InfoEid { role, rloc, ch, pan, comm: value },
                OtNext::Call(request(OtCall::ThreadGetMeshLocalEid, None)),
            ),
            OtState::InfoEid { role, rloc, ch, pan, comm } => if readable(value) {
                going(
                    OtState::InfoAddress { role, rloc, ch, pan, comm, eid: value },
                    OtNext::Read(value),
                )
            } else {
                ending(Say::Line(info_line(role, rloc, ch, pan, comm, value, None)))
            },
            OtState::Neighbors { count } => step_neighbor(count, value, reply.held),
            OtState::ParentAverage => match reply.held {
                Held::Iter(b) => going(
                    OtState::ParentLast { r1: value, avg: b[0] },
                    OtNext::Call(parent_rssi().1),
                ),
                _ => ending(Say::Nothing),
            },
            OtState::ParentLast { r1, avg } => match reply.held {
                Held::Iter(b) => match parent_rssi_of(r1, avg, value, b[0]) {
                    Some((avg, last)) => ending(Say::Line(parent_line(avg, last))),
                    None => ending(Say::Fixed("ot: no parent\r\n")),
                },
                _ => ending(Say::Nothing),
            },
            OtState::Pinging { times } => ending(Say::Line(ping_line(times, value))),
            _ => ending(Say::Nothing),
        }
    }

    /// The step that follows what the last one asked for.
    pub fn step(self, event: OtEvent) -> (r: OtStep)
        requires
            self.wf(),
            awaits(self, event),
        ensures
            r@ == follows(self, event),
            r.state.wf(),
            saves_valid(r.next),
    {
        match event {
            OtEvent::Reply(reply) => self.step_reply(reply),
            OtEvent::Memory(a) => match self {
                OtState::InfoAddress { role, rloc, ch, pan, comm, eid } => ending(
                    Say::Line(info_line(role, rloc, ch, pan, comm, eid, Some(a))),
                ),
                _ => ending(Say::Nothing),
            },
            OtEvent::Loaded(c) => match (self, c) {
                (OtState::KeepaliveLoad { on }, Some(c)) => {
                    let mut d = c;
                    d.set_keepalive(on);
                    going(OtState::KeepaliveSave { on }, OtNext::Save(d))
                },
                (OtState::KeepaliveLoad { .. }, None) => ending(
                    Say::Fixed("ot: no config stored; run `ot save` first\r\n"),
                ),
                (OtState::Showing, Some(c)) => ending(Say::Line(config_line(&c))),
                (OtState::Showing, None) => ending(Say::Fixed("ot: no config stored\r\n")),
                _ => ending(Say::Nothing),
            },
            OtEvent::Flashed(outcome) => match self {
                OtState::Saving { n } => ending(Say::Line(saved_line(n, outcome))),
                OtState::KeepaliveSave { on } => {
                    let mut r = ending(Say::Line(keepalive_line(on, outcome)));
                    r.relay = Some(on);
                    r
                },
                OtState::Forgetting => {
                    let mut r = ending(Say::Line(erased_line(outcome)));
                    r.range = Some(false);
                    r
                },
                _ => ending(Say::Nothing),
            },
        }
    }
}

fn step_save(value: u32, held: Held) -> (r: OtStep)
    requires
        held is Tlvs,
    ensures
        r@ == follows_reply(OtState::SaveDataset, value, held),
        r.state.wf(),
        saves_valid(r.next),
{
    match held {
        Held::Tlvs(b) => match get_active_tlvs(value, &b) {
            Ok(v) => {
                let tlvs = dataset_slice(&v);
                assert(tlvs@.take(tlvs@.len() as int) =~= tlvs@);
                going(
                    OtState::Saving { n: tlvs.len() },
                    OtNext::Save(Config::new(tlvs, FLAG_AUTOSTART)),
                )
            },
            Err(e) => ending(Say::Line(no_dataset_line(e))),
        },
        _ => ending(Say::Nothing),
    }
}

fn step_tlvs(value: u32, held: Held) -> (r: OtStep)
    requires
        held is Tlvs,
    ensures
        r@ == follows_reply(OtState::TlvsGet, value, held),
        r.state.wf(),
        saves_valid(r.next),
{
    match held {
        Held::Tlvs(b) => match get_active_tlvs(value, &b) {
            Ok(v) => ending(
                Say::Long(tlvs_line(dataset_slice(&v).len()), ottlvs_line(&v)),
            ),
            Err(e) => ending(Say::Line(tlvs_error_line(e))),
        },
        _ => ending(Say::Nothing),
    }
}

fn step_neighbor(count: u32, value: u32, held: Held) -> (r: OtStep)
    requires
        count <= 16,
        held is Neighbor,
    ensures
        r@ == follows_reply(OtState::Neighbors { count }, value, held),
        r.state.wf(),
        saves_valid(r.next),
{
    if value != 0 {
        return ending(Say::Line(count_line(count)));
    }
    match held {
        Held::Neighbor(n) => {
            let l = neighbor_line(&neighbor_of(&n));
            if count >= 16 {
                ending(Say::Two(l, count_line(count + 1)))
            } else {
                let mut r = going(
                    OtState::Neighbors { count: count + 1 },
                    OtNext::Call(next_neighbor(false)),
                );
                r.say = Say::Line(l);
                r
            }
        },
        _ => ending(Say::Nothing),
    }
}

// ---- laws ----

/// How many more events a command can take at most.
pub open spec fn events_left(state: OtState) -> int {
    match state {
        OtState::Finished => 0,
        OtState::Neighbors { count } => 17 - count,
        OtState::InfoRole => 7,
        OtState::InfoRloc { .. } => 6,
        OtState::InfoChannel { .. } => 5,
        OtState::InfoPan { .. } => 4,
        OtState::InfoCommissioned { .. } => 3,
        OtState::InfoEid { .. } => 2,
        OtState::InitInstance
        | OtState::SaveDataset
        | OtState::KeepaliveLoad { .. }
        | OtState::PowerSet { .. }
        | OtState::NewCreate
        | OtState::UpIp6
        | OtState::DownThread
        | OtState::ParentAverage => 2,
        _ => 1,
    }
}

/// Whatever can come of the action of a first step is what its state waits for.
pub proof fn law_first_step_is_answered(cmd: OtCmd, event: OtEvent)
    requires
        comes_of(begins(cmd).next, event),
    ensures
        awaits(begins(cmd).state, event),
        begins(cmd).state.wf(),
{
}

/// Whatever can come of the action of a later step is what its state waits for.
pub proof fn law_each_step_is_answered(state: OtState, event: OtEvent, answer: OtEvent)
    requires
        state.wf(),
        awaits(state, event),
        comes_of(follows(state, event).next, answer),
    ensures
        awaits(follows(state, event).state, answer),
        follows(state, event).state.wf(),
{
}

/// A command ends: each event leaves fewer to come, 17 at most follow its
/// first step, and it is over exactly when nothing is left to do.
pub proof fn law_commands_end(cmd: OtCmd, state: OtState, event: OtEvent)
    requires
        state.wf(),
        awaits(state, event),
    ensures
        0 <= events_left(begins(cmd).state) <= 17,
        0 <= events_left(follows(state, event).state) < events_left(state),
        begins(cmd).next is Done <==> events_left(begins(cmd).state) == 0,
        follows(state, event).next is Done <==> events_left(follows(state, event).state) == 0,
{
}

/// Nothing but `ot range`, `ot forget` and `ot keepalive` touches a switch, and
/// the last two only once the flash operation is over, whatever came of it.
pub proof fn law_switches(cmd: OtCmd, state: OtState, event: OtEvent)
    requires
        state.wf(),
        awaits(state, event),
    ensures
        begins(cmd).relay is None,
        begins(cmd).range == (match cmd {
            OtCmd::Range(on) => Some(on),
            _ => None,
        }),
        follows(state, event).relay == (match state {
            OtState::KeepaliveSave { on } => Some(on),
            _ => None,
        }),
        follows(state, event).range == (if state is Forgetting {
            Some(false)
        } else {
            None
        }),
{
}

/// Every command that has run its course has printed something last.
pub proof fn law_commands_answer(cmd: OtCmd, state: OtState, event: OtEvent)
    requires
        state.wf(),
        awaits(state, event),
    ensures
        begins(cmd).next is Done ==> begins(cmd).says.len() > 0,
        follows(state, event).next is Done ==> follows(state, event).says.len() > 0,
{
}

/// What `ot save` stores is counted in its report, whatever came of it; and
/// `ot forget`, `ot keepalive` and `ot config` tell what they did or found.
pub proof fn law_stored_configuration_is_told(
    block: [u8; 256],
    n: usize,
    on: bool,
    r: Result<(), FlashError>,
    c: Config,
)
    ensures
        ({
            let saving = follows_reply(OtState::SaveDataset, 0, Held::Tlvs(block));
            saving.state == (OtState::Saving { n: block_tlvs(block@).len() as usize })
                && saving.says.len() == 0 && saving.next is Save
        }),
        follows(OtState::Saving { n }, OtEvent::Flashed(r)).says == seq![saved_text(n, r)],
        follows(OtState::KeepaliveSave { on }, OtEvent::Flashed(r)).says == seq![
            keepalive_text(on, r),
        ],
        follows(OtState::Forgetting, OtEvent::Flashed(r)).says == seq![erased_text(r)],
        follows(OtState::Showing, OtEvent::Loaded(Some(c))).says == seq![config_text(c)],
        follows(OtState::Showing, OtEvent::Loaded(None)).says == seq!["ot: no config stored\r\n"@],
        follows(OtState::KeepaliveLoad { on }, OtEvent::Loaded(None)).says == seq![
            "ot: no config stored; run `ot save` first\r\n"@,
        ],
        follows(OtState::KeepaliveLoad { on }, OtEvent::Loaded(Some(c))).state == (
        OtState::KeepaliveSave { on }),
        follows(OtState::KeepaliveLoad { on }, OtEvent::Loaded(Some(c))).next is Save,
        begins(OtCmd::Keepalive(on)).state == (OtState::KeepaliveLoad { on }),
        begins(OtCmd::Keepalive(on)).next is Load,
        begins(OtCmd::Show).next is Load,
        begins(OtCmd::Forget).next is Erase,
        begins(OtCmd::Range(on)) == (Turn { range: Some(on), ..ends(seq![range_text(on)]) }),
        follows(OtState::Forgetting, OtEvent::Flashed(r)).next is Done,
        follows(OtState::Saving { n }, OtEvent::Flashed(r)).next is Done,
        follows(OtState::KeepaliveSave { on }, OtEvent::Flashed(r)).next is Done,
{
}

/// Errors of CPU2 are passed on as they are: each command tells what each of its
/// calls returned, whatever it was.
pub proof fn law_errors_are_told(value: u32, r1: u32, n: usize, v: i8, times: u16, held: Held)
    requires
        value != 0,
    ensures
        follows_reply(OtState::InitCallback { inst: r1 }, value, held).says == seq![
            init_text(r1, value),
        ],
        follows_reply(OtState::SaveDataset, value, held) == ends(seq![no_dataset_text(value)]),
        follows_reply(OtState::TlvsGet, value, held) == ends(seq![tlvs_error_text(value)]),
        follows_reply(OtState::TlvsSet { n }, value, held) == ends(seq![set_tlvs_text(n, value)]),
        follows_reply(OtState::NewActivate { r1 }, value, held) == ends(
            seq![new_network_text(r1, value)],
        ),
        follows_reply(OtState::NewCreate, value, held).state == (OtState::NewActivate {
            r1: value,
        }),
        follows_reply(OtState::UpIp6, value, held).state == (OtState::UpThread { r1: value }),
        follows_reply(OtState::UpThread { r1 }, value, held) == ends(seq![up_text(r1, value)]),
        follows_reply(OtState::DownThread, value, held).state == (OtState::DownIp6 { r1: value }),
        follows_reply(OtState::DownIp6 { r1 }, value, held) == ends(seq![down_text(r1, value)]),
        follows_reply(OtState::PowerSet { v }, value, held).says == seq![power_set_text(v, value)],
        follows_reply(OtState::Pinging { times }, value, held) == ends(
            seq![ping_text(times, value)],
        ),
        held matches Held::Iter(b) ==> follows_reply(OtState::PowerGet, value, held).says == seq![
            power_text(signed8(b@[0]) as i8, value),
        ],
{
}

/// A command of several calls makes them all, whatever the first returned; a list
/// of neighbors ends with its count at the first call that fails; and the parent
/// is told only when both calls went well.
pub proof fn law_calls_are_made_anyway(reply: Reply, count: u32, r1: u32, avg: u8)
    ensures
        follows(OtState::InitInstance, OtEvent::Reply(reply)) == goes(
            OtState::InitCallback { inst: reply.value },
            Next::Call(ask(OtCall::SetStateChangedCallback, Some(Arg::Word(0)))),
        ),
        follows(OtState::NewCreate, OtEvent::Reply(reply)).next is Call,
        follows(OtState::UpIp6, OtEvent::Reply(reply)) == goes(
            OtState::UpThread { r1: reply.value },
            Next::Call(ask(OtCall::ThreadSetEnabled, Some(Arg::Word(1)))),
        ),
        follows(OtState::DownThread, OtEvent::Reply(reply)) == goes(
            OtState::DownIp6 { r1: reply.value },
            Next::Call(ask(OtCall::Ip6SetEnabled, Some(Arg::Word(0)))),
        ),
        reply.held is Iter ==> follows(OtState::ParentAverage, OtEvent::Reply(reply)) == goes(
            OtState::ParentLast { r1: reply.value, avg: reply.held->Iter_0@[0] },
            Next::Call(ask_iter(OtCall::ThreadGetParentLastRssi, None)),
        ),
        reply.value != 0 ==> follows(OtState::Neighbors { count }, OtEvent::Reply(reply)) == ends(
            seq![count_text(count)],
        ),
        r1 != 0 || reply.value != 0 ==> follows(
            OtState::ParentLast { r1, avg },
            OtEvent::Reply(reply),
        ) == ends(seq!["ot: no parent\r\n"@]),
{
}

/// Help names every command.
pub proof fn law_help()
    ensures
        begins(OtCmd::Help) == ends(
            seq![
                "ot: init | new | tlvs | settlvs <hex> | up | down | info | neighbors | parent | ping <ipv6> [n] | save | forget | config | range [off] | keepalive [off] | txpower [dBm]\r\n"@,
            ],
        ),
{
}

/// A command goes by its second word alone; what is none of the commands is
/// answered with help.
pub proof fn law_keywords(s: Seq<char>)
    ensures
        word(s, 1) == Some("init"@) ==> ot_command(s) is Init,
        word(s, 1) == Some("save"@) ==> ot_command(s) is Save,
        word(s, 1) == Some("keepalive"@) ==> ot_command(s) is Keepalive,
        word(s, 1) == Some("txpower"@) ==> ot_command(s) is TxPower,
        word(s, 1) == Some("forget"@) ==> ot_command(s) is Forget,
        word(s, 1) == Some("config"@) ==> ot_command(s) is Show,
        word(s, 1) == Some("range"@) ==> ot_command(s) is Range,
        word(s, 1) == Some("new"@) ==> ot_command(s) is New,
        word(s, 1) == Some("tlvs"@) ==> ot_command(s) is Tlvs,
        word(s, 1) == Some("settlvs"@) ==> ot_command(s) is SetTlvs,
        word(s, 1) == Some("up"@) ==> ot_command(s) is Up,
        word(s, 1) == Some("down"@) ==> ot_command(s) is Down,
        word(s, 1) == Some("info"@) ==> ot_command(s) is Info,
        word(s, 1) == Some("role"@) ==> ot_command(s) is Info,
        word(s, 1) == Some("neighbors"@) ==> ot_command(s) is Neighbors,
        word(s, 1) == Some("parent"@) ==> ot_command(s) is Parent,
        word(s, 1) == Some("ping"@) ==> ot_command(s) is Ping || ot_command(s) is PingUsage,
        ot_command(s) is Help <==> word(s, 1) != Some("init"@) && word(s, 1) != Some("save"@)
            && word(s, 1) != Some("keepalive"@) && word(s, 1) != Some("txpower"@) && word(s, 1)
            != Some("forget"@) && word(s, 1) != Some("config"@) && word(s, 1) != Some("range"@)
            && word(s, 1) != Some("new"@) && word(s, 1) != Some("tlvs"@) && word(s, 1) != Some(
            "settlvs"@,
        ) && word(s, 1) != Some("up"@) && word(s, 1) != Some("down"@) && word(s, 1) != Some(
            "info"@,
        ) && word(s, 1) != Some("role"@) && word(s, 1) != Some("neighbors"@) && word(s, 1) != Some(
            "parent"@,
        ) && word(s, 1) != Some("ping"@),
        word(s, 1) == Some("ping"@) && word(s, 2) is None ==> ot_command(s) is PingUsage,
        word(s, 1) == Some("ping"@) && word(s, 2) is Some && ip6_of(word(s, 2)->0) is None
            ==> ot_command(s) is PingUsage,
        word(s, 1) == Some("keepalive"@) && word(s, 2) is None ==> ot_command(s)
            == OtCmd::Keepalive(true),
        word(s, 1) == Some("range"@) && word(s, 2) is None ==> ot_command(s) == OtCmd::Range(true),
        word(s, 1) == Some("txpower"@) && word(s, 2) is None ==> ot_command(s) == OtCmd::TxPower(
            None,
        ),
        begins(OtCmd::PingUsage) == ends(seq!["ot: ping <ipv6>\r\n"@]),
{
    reveal_strlit("init");
    reveal_strlit("save");
    reveal_strlit("keepalive");
    reveal_strlit("txpower");
    reveal_strlit("forget");
    reveal_strlit("config");
    reveal_strlit("range");
    reveal_strlit("new");
    reveal_strlit("tlvs");
    reveal_strlit("settlvs");
    reveal_strlit("up");
    reveal_strlit("down");
    reveal_strlit("info");
    reveal_strlit("role");
    reveal_strlit("neighbors");
    reveal_strlit("parent");
    reveal_strlit("ping");
    assert("keepalive"@.len() == 9 && "init"@.len() == 4 && "save"@.len() == 4 && "txpower"@.len()
        == 7 && "range"@.len() == 5 && "forget"@.len() == 6 && "config"@.len() == 6
        && "ping"@.len() == 4 && "new"@.len() == 3 && "tlvs"@.len() == 4 && "settlvs"@.len() == 7
        && "up"@.len() == 2 && "down"@.len() == 4 && "info"@.len() == 4 && "role"@.len() == 4
        && "neighbors"@.len() == 9 && "parent"@.len() == 6);
    assert("ping"@[0] == 'p' && "init"@[0] == 'i' && "save"@[0] == 's' && "tlvs"@[0] == 't'
        && "down"@[0] == 'd' && "info"@[0] == 'i' && "role"@[0] == 'r' && "keepalive"@[0] == 'k'
        && "neighbors"@[0] == 'n' && "txpower"@[0] == 't' && "settlvs"@[0] == 's' && "forget"@[0]
        == 'f' && "config"@[0] == 'c' && "parent"@[0] == 'p');
    assert("init"@[2] == 'i' && "info"@[2] == 'f');
}

} // verus!
