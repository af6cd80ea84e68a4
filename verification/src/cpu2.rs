//! What the commands are for: a model of the OpenThread stack on CPU2, and what
//! the conversations of the board with it lead to.
//!
//! The model knows the calls by what they do and nothing of the commands. A
//! call that passes what it cannot use leaves it confused.

use vstd::prelude::*;
use crate::bytes::extended;
use crate::bytes::signed8;
use crate::ip6::colons;
use crate::ip6::holds;
use crate::ip6::ip6_of;
use crate::ip6::law_groups_are_read_in_order;
use crate::join::JoinEvent;
use crate::join::JoinGo;
use crate::join::JoinState;
use crate::join::JoinTurn;
use crate::join::join_begins;
use crate::join::join_follows;
use crate::laws::law_dataset_block_read_back;
use crate::laws::law_printed_dataset_read_back;
use crate::ot::Arg;
use crate::ot::Ask;
use crate::ot::Block;
use crate::ot::Held;
use crate::ot::OtCall;
use crate::ot::Reply;
use crate::ot::aloc;
use crate::ot::ask_next_neighbor;
use crate::ot::block_tlvs;
use crate::ot::four;
use crate::ot::law_leader_address;
use crate::ot::law_ping_block;
use crate::ot::tlvs_block;
use crate::ot_command::Next;
use crate::ot_command::OtCmd;
use crate::ot_command::OtEvent;
use crate::ot_command::OtState;
use crate::ot_command::Turn;
use crate::ot_command::begins;
use crate::ot_command::count_arg;
use crate::ot_command::ends;
use crate::ot_command::follows;
use crate::ot_command::ot_command;
use crate::ot_command::tlvs_arg;
use crate::ot_text::count_text;
use crate::ot_text::down_text;
use crate::ot_text::info_text;
use crate::ot_text::init_text;
use crate::ot_text::neighbor_in;
use crate::ot_text::neighbor_text;
use crate::ot_text::new_network_text;
use crate::ot_text::ottlvs_text;
use crate::ot_text::parent_text;
use crate::ot_text::ping_text;
use crate::ot_text::power_set_text;
use crate::ot_text::power_text;
use crate::ot_text::set_tlvs_text;
use crate::ot_text::tlvs_text;
use crate::ot_text::up_text;
use crate::range::ProbeView;
use crate::range::RangeEvent;
use crate::range::range_awaits;
use crate::range::range_follows;
use crate::spelling::signed_text;
use crate::text::digits;
use crate::words::Sep;
use crate::words::is_white;
use crate::words::law_number_read_back;
use crate::words::law_signed_byte_read_back;
use crate::words::law_words;
use crate::words::lemma_digits_plain;
use crate::words::lemma_next_word;
use crate::words::lemma_no_runs;
use crate::words::solid;
use crate::words::word;
use crate::words::words;

verus! {

// ---- the model ----

/// The memory that the board shares with CPU2.
pub ghost struct Blocks {
    pub dataset: Seq<u8>,
    pub tlvs: Seq<u8>,
    pub ping: Seq<u8>,
    pub neighbor: Seq<u8>,
    pub iter: Seq<u8>,
}

impl Blocks {
    /// What a block holds.
    pub open spec fn get(self, b: Block) -> Seq<u8> {
        match b {
            Block::Dataset => self.dataset,
            Block::Tlvs => self.tlvs,
            Block::Ping => self.ping,
            Block::Neighbor => self.neighbor,
            Block::Iter => self.iter,
        }
    }

    /// The blocks with another content of one.
    pub open spec fn set(self, b: Block, s: Seq<u8>) -> Blocks {
        match b {
            Block::Dataset => Blocks { dataset: s, ..self },
            Block::Tlvs => Blocks { tlvs: s, ..self },
            Block::Ping => Blocks { ping: s, ..self },
            Block::Neighbor => Blocks { neighbor: s, ..self },
            Block::Iter => Blocks { iter: s, ..self },
        }
    }
}

/// The active dataset: none, a block in CPU2's own layout, or TLVs.
pub ghost enum Active {
    Nothing,
    Own(Seq<u8>),
    Tlvs(Seq<u8>),
}

/// What the ping sender was asked for.
pub ghost struct Sent {
    pub dst: Seq<u8>,
    /// Replies are forwarded.
    pub replies: bool,
    /// Statistics are forwarded.
    pub statistics: bool,
    pub count: int,
    pub interval_ms: int,
    pub timeout_ms: int,
}

/// The stack on CPU2.
pub ghost struct Cpu2 {
    pub blocks: Blocks,
    /// The instance has been made; its handle.
    pub made: bool,
    pub handle: u32,
    /// State changes are reported.
    pub reports: bool,
    pub ip6: bool,
    pub thread: bool,
    pub active: Active,
    /// The network that would be created next.
    pub network: Seq<u8>,
    pub sent: Option<Sent>,
    pub power: i8,
    pub parent: Option<(i8, i8)>,
    pub neighbors: Seq<Seq<u8>>,
    pub role: u32,
    pub rloc: u32,
    pub channel: u32,
    pub pan: u32,
    pub commissioned: u32,
    pub eid: u32,
    /// A call passed what it cannot use.
    pub confused: bool,
}

/// A byte that stands for a signed number.
pub open spec fn byte_of(v: i8) -> u8 {
    (v as int % 256) as u8
}

/// A little-endian number of two bytes.
pub open spec fn two(s: Seq<u8>, at: int) -> int {
    s[at] + 0x100 * s[at + 1]
}

/// A little-endian number of four bytes.
pub open spec fn quad(s: Seq<u8>, at: int) -> int {
    two(s, at) + 0x1_0000 * two(s, at + 2)
}

/// What a ping sender block asks for.
pub open spec fn asked_of(b: Seq<u8>) -> Sent {
    Sent {
        dst: b.subrange(16, 32),
        replies: quad(b, 32) != 0,
        statistics: quad(b, 36) != 0,
        count: two(b, 46),
        interval_ms: quad(b, 48),
        timeout_ms: two(b, 52),
    }
}

/// A TLV block that holds a dataset.
pub open spec fn holding(tlvs: Seq<u8>) -> Seq<u8> {
    Seq::new(
        256,
        |i: int|
            if i < tlvs.len() {
                tlvs[i]
            } else if i == 254 {
                tlvs.len() as u8
            } else {
                0u8
            },
    )
}

/// Whether the stack is in order: a dataset of TLVs has up to 254 bytes, a
/// neighbor 48, and the iterator block four.
pub open spec fn in_order(c: Cpu2) -> bool {
    &&& !c.confused
    &&& c.active matches Active::Tlvs(t) ==> t.len() <= 254
    &&& c.neighbors.len() < 0x8000
    &&& forall|i: int| 0 <= i < c.neighbors.len() ==> (#[trigger] c.neighbors[i]).len() == 48
    &&& c.blocks.iter.len() == 4
}

/// The stack confused by a call.
pub open spec fn puzzled(c: Cpu2) -> (Cpu2, u32) {
    (Cpu2 { confused: true, ..c }, 7)
}

/// The stack with the first byte of a block written.
pub open spec fn noted(c: Cpu2, at: Block, v: i8) -> Cpu2 {
    Cpu2 { blocks: c.blocks.set(at, c.blocks.get(at).update(0, byte_of(v))), ..c }
}

/// What a call does and what it returns, the block filled before.
pub open spec fn answered(c: Cpu2, call: OtCall, first: Option<Arg>, second: Option<Arg>) -> (
    Cpu2,
    u32,
) {
    match (call, first, second) {
        (OtCall::InstanceInitSingle, None, None) => (Cpu2 { made: true, ..c }, c.handle),
        (OtCall::SetStateChangedCallback, Some(Arg::Word(_)), None) => (
            Cpu2 { reports: true, ..c },
            0,
        ),
        (OtCall::Ip6SetEnabled, Some(Arg::Word(w)), None) => (Cpu2 { ip6: w != 0, ..c }, 0),
        (OtCall::ThreadSetEnabled, Some(Arg::Word(w)), None) => if w != 0 && !c.ip6 {
            (c, 13)
        } else {
            (Cpu2 { thread: w != 0, ..c }, 0)
        },
        (OtCall::DatasetCreateNewNetwork, Some(Arg::At(b)), None) => (
            Cpu2 { blocks: c.blocks.set(b, c.network), ..c },
            0,
        ),
        (OtCall::DatasetSetActive, Some(Arg::At(b)), None) => (
            Cpu2 { active: Active::Own(c.blocks.get(b)), ..c },
            0,
        ),
        (OtCall::DatasetSetActiveTlvs, Some(Arg::At(b)), None) => {
            let s = c.blocks.get(b);
            if s.len() == 256 && s[254] <= 254 {
                (Cpu2 { active: Active::Tlvs(s.take(s[254] as int)), ..c }, 0)
            } else {
                puzzled(c)
            }
        },
        (OtCall::DatasetGetActiveTlvs, Some(Arg::At(b)), None) => match c.active {
            Active::Tlvs(t) => (Cpu2 { blocks: c.blocks.set(b, holding(t)), ..c }, 0),
            _ => (c, 23),
        },
        (OtCall::PingSenderPing, Some(Arg::At(b)), None) => if c.blocks.get(b).len() == 64 {
            (Cpu2 { sent: Some(asked_of(c.blocks.get(b))), ..c }, 0)
        } else {
            puzzled(c)
        },
        (OtCall::RadioSetTransmitPower, Some(Arg::Word(w)), None) => {
            let low = w as int % 256;
            let v = if low < 128 {
                low
            } else {
                low - 256
            };
            (Cpu2 { power: v as i8, ..c }, 0)
        },
        (OtCall::RadioGetTransmitPower, Some(Arg::At(b)), None) => (noted(c, b, c.power), 0),
        (OtCall::ThreadGetParentAverageRssi, Some(Arg::At(b)), None) => match c.parent {
            Some(p) => (noted(c, b, p.0), 0),
            None => (c, 1),
        },
        (OtCall::ThreadGetParentLastRssi, Some(Arg::At(b)), None) => match c.parent {
            Some(p) => (noted(c, b, p.1), 0),
            None => (c, 1),
        },
        (OtCall::ThreadGetNextNeighborInfo, Some(Arg::At(it)), Some(Arg::At(b))) => {
            let i = two(c.blocks.get(it), 0);
            if i < c.neighbors.len() {
                let next = seq![((i + 1) % 256) as u8, ((i + 1) / 256) as u8, 0u8, 0u8];
                (
                    Cpu2 { blocks: c.blocks.set(b, c.neighbors[i]).set(it, next), ..c },
                    0,
                )
            } else {
                (c, 23)
            }
        },
        (OtCall::ThreadGetDeviceRole, None, None) => (c, c.role),
        (OtCall::ThreadGetRloc16, None, None) => (c, c.rloc),
        (OtCall::ThreadGetMeshLocalEid, None, None) => (c, c.eid),
        (OtCall::LinkGetChannel, None, None) => (c, c.channel),
        (OtCall::LinkGetPanid, None, None) => (c, c.pan),
        (OtCall::DatasetIsCommissioned, None, None) => (c, c.commissioned),
        _ => puzzled(c),
    }
}

/// What a request does and what it returns.
pub open spec fn served(c: Cpu2, a: Ask) -> (Cpu2, u32) {
    let filled = match a.fill {
        Some(f) => Cpu2 { blocks: c.blocks.set(f.0, f.1), ..c },
        None => c,
    };
    answered(filled, a.call, a.first, a.second)
}

/// Whether a reply is what CPU2 gives to a request: the value, and what the block
/// asked for holds then.
pub open spec fn honest(c: Cpu2, a: Ask, reply: Reply) -> bool {
    let (d, v) = served(c, a);
    &&& reply.value == v
    &&& match a.read {
        Some(Block::Tlvs) => reply.held matches Held::Tlvs(s) && s@ == d.blocks.tlvs,
        Some(Block::Neighbor) => reply.held matches Held::Neighbor(s) && s@ == d.blocks.neighbor,
        Some(Block::Iter) => reply.held matches Held::Iter(s) && s@ == d.blocks.iter,
        _ => true,
    }
}

// ---- conversations ----

/// Whether each call of a command is answered as CPU2 does.
pub open spec fn fair(t: Turn, c: Cpu2, replies: Seq<Reply>) -> bool
    decreases replies.len(),
{
    replies.len() > 0 && t.next is Call ==> {
        let a = t.next->Call_0;
        let q = replies[0];
        honest(c, a, q) && fair(
            follows(t.state, OtEvent::Reply(q)),
            served(c, a).0,
            replies.drop_first(),
        )
    }
}

/// Where a command stands after replies.
pub open spec fn ran(t: Turn, c: Cpu2, replies: Seq<Reply>) -> (Turn, Cpu2)
    decreases replies.len(),
{
    if replies.len() > 0 && t.next is Call {
        ran(
            follows(t.state, OtEvent::Reply(replies[0])),
            served(c, t.next->Call_0).0,
            replies.drop_first(),
        )
    } else {
        (t, c)
    }
}

/// What a command prints up to there.
pub open spec fn said_by(t: Turn, c: Cpu2, replies: Seq<Reply>) -> Seq<Seq<char>>
    decreases replies.len(),
{
    if replies.len() > 0 && t.next is Call {
        t.says + said_by(
            follows(t.state, OtEvent::Reply(replies[0])),
            served(c, t.next->Call_0).0,
            replies.drop_first(),
        )
    } else {
        t.says
    }
}

/// `ot init` makes the instance and has state changes reported, and changes
/// nothing else.
pub proof fn law_init_makes_an_instance(c: Cpu2, replies: Seq<Reply>)
    requires
        in_order(c),
        replies.len() == 2,
        fair(begins(OtCmd::Init), c, replies),
    ensures
        ran(begins(OtCmd::Init), c, replies).0.next is Done,
        ran(begins(OtCmd::Init), c, replies).1 == (Cpu2 { made: true, reports: true, ..c }),
        said_by(begins(OtCmd::Init), c, replies) == seq![init_text(c.handle, 0)],
{
    reveal_with_fuel(fair, 3);
    reveal_with_fuel(ran, 3);
    reveal_with_fuel(said_by, 3);
    assert(replies.drop_first().drop_first().len() == 0);
}

/// `ot new` makes the network active that it created.
pub proof fn law_new_network_is_the_active_one(c: Cpu2, replies: Seq<Reply>)
    requires
        in_order(c),
        replies.len() == 2,
        fair(begins(OtCmd::New), c, replies),
    ensures
        ran(begins(OtCmd::New), c, replies).0.next is Done,
        ran(begins(OtCmd::New), c, replies).1.active == Active::Own(c.network),
        !ran(begins(OtCmd::New), c, replies).1.confused,
        ran(begins(OtCmd::New), c, replies).1.ip6 == c.ip6,
        ran(begins(OtCmd::New), c, replies).1.thread == c.thread,
        said_by(begins(OtCmd::New), c, replies) == seq![new_network_text(0, 0)],
{
    reveal_with_fuel(fair, 3);
    reveal_with_fuel(ran, 3);
    reveal_with_fuel(said_by, 3);
    assert(replies.drop_first().drop_first().len() == 0);
}

/// Whatever CPU2 answers, `ot new` makes active the very block that it had a
/// network created in, and fills none in between.
pub proof fn law_new_network_keeps_to_its_block(reply: Reply)
    ensures
        begins(OtCmd::New).next matches Next::Call(a) && a.call is DatasetCreateNewNetwork && a.first
            is Some && a.fill is None && (follows(
            begins(OtCmd::New).state,
            OtEvent::Reply(reply),
        ).next matches Next::Call(b) && b.call is DatasetSetActive && b.first == a.first && b.fill
            is None),
{
}

/// `ot up` starts IPv6 and Thread, and changes nothing else.
pub proof fn law_up_starts_the_network(c: Cpu2, replies: Seq<Reply>)
    requires
        in_order(c),
        replies.len() == 2,
        fair(begins(OtCmd::Up), c, replies),
    ensures
        ran(begins(OtCmd::Up), c, replies).0.next is Done,
        ran(begins(OtCmd::Up), c, replies).1 == (Cpu2 { ip6: true, thread: true, ..c }),
        said_by(begins(OtCmd::Up), c, replies) == seq![up_text(0, 0)],
{
    reveal_with_fuel(fair, 3);
    reveal_with_fuel(ran, 3);
    reveal_with_fuel(said_by, 3);
    assert(replies.drop_first().drop_first().len() == 0);
}

/// `ot down` stops Thread and IPv6, and changes nothing else; Thread is stopped
/// while IPv6 is still up.
pub proof fn law_down_stops_the_network(c: Cpu2, replies: Seq<Reply>)
    requires
        in_order(c),
        replies.len() == 2,
        fair(begins(OtCmd::Down), c, replies),
    ensures
        ran(begins(OtCmd::Down), c, replies).0.next is Done,
        ran(begins(OtCmd::Down), c, replies).1 == (Cpu2 { ip6: false, thread: false, ..c }),
        ran(begins(OtCmd::Down), c, replies.take(1)).1 == (Cpu2 { thread: false, ..c }),
        said_by(begins(OtCmd::Down), c, replies) == seq![down_text(0, 0)],
{
    reveal_with_fuel(fair, 3);
    reveal_with_fuel(ran, 3);
    reveal_with_fuel(said_by, 3);
    assert(replies.drop_first().drop_first().len() == 0);
    assert(replies.take(1).drop_first().len() == 0);
}

/// `ot settlvs` makes the dataset given the active one.
pub proof fn law_given_dataset_is_the_active_one(c: Cpu2, tlvs: Seq<u8>, replies: Seq<Reply>)
    requires
        in_order(c),
        tlvs.len() <= 254,
        replies.len() == 1,
        fair(begins(OtCmd::SetTlvs(tlvs)), c, replies),
    ensures
        ran(begins(OtCmd::SetTlvs(tlvs)), c, replies).0.next is Done,
        ran(begins(OtCmd::SetTlvs(tlvs)), c, replies).1.active == Active::Tlvs(tlvs),
        !ran(begins(OtCmd::SetTlvs(tlvs)), c, replies).1.confused,
        said_by(begins(OtCmd::SetTlvs(tlvs)), c, replies) == seq![
            set_tlvs_text(tlvs.len() as usize, 0),
        ],
{
    reveal_with_fuel(fair, 2);
    reveal_with_fuel(ran, 2);
    reveal_with_fuel(said_by, 2);
    assert(replies.drop_first().len() == 0);
    law_dataset_block_read_back(tlvs);
    assert(tlvs.take(tlvs.len() as int) =~= tlvs);
    assert(tlvs_block(tlvs)[254] == tlvs.len() as u8);
    assert(tlvs_block(tlvs).take(tlvs.len() as int) =~= tlvs);
}

/// `ot tlvs` prints the active dataset, and changes nothing of it.
pub proof fn law_active_dataset_is_printed(c: Cpu2, tlvs: Seq<u8>, replies: Seq<Reply>)
    requires
        in_order(c),
        c.active == Active::Tlvs(tlvs),
        replies.len() == 1,
        fair(begins(OtCmd::Tlvs), c, replies),
    ensures
        ran(begins(OtCmd::Tlvs), c, replies).0.next is Done,
        ran(begins(OtCmd::Tlvs), c, replies).1.active == c.active,
        !ran(begins(OtCmd::Tlvs), c, replies).1.confused,
        said_by(begins(OtCmd::Tlvs), c, replies) == seq![
            tlvs_text(tlvs.len() as usize),
            ottlvs_text(tlvs),
        ],
{
    reveal_with_fuel(fair, 2);
    reveal_with_fuel(ran, 2);
    reveal_with_fuel(said_by, 2);
    assert(replies.drop_first().len() == 0);
    let s = holding(tlvs);
    assert(s[254] == tlvs.len() as u8);
    assert(block_tlvs(s) =~= tlvs);
}

/// A dataset of up to 252 bytes moves between boards: what one prints with
/// `ot tlvs` is what `ot settlvs` makes active on another.
#[verifier::rlimit(40)]
pub proof fn law_dataset_moves_between_boards(
    from: Cpu2,
    to: Cpu2,
    tlvs: Seq<u8>,
    printed: Seq<Reply>,
    given: Seq<Reply>,
)
    requires
        in_order(from),
        in_order(to),
        from.active == Active::Tlvs(tlvs),
        tlvs.len() <= 252,
        printed.len() == 1,
        given.len() == 1,
        fair(begins(OtCmd::Tlvs), from, printed),
    ensures
        ({
            let line = said_by(begins(OtCmd::Tlvs), from, printed)[1];
            let cmd = OtCmd::SetTlvs(tlvs_arg(word(line, 1)));
            fair(begins(cmd), to, given) ==> ran(begins(cmd), to, given).1.active == from.active
        }),
{
    law_active_dataset_is_printed(from, tlvs, printed);
    law_printed_dataset_read_back(tlvs);
    if fair(begins(OtCmd::SetTlvs(tlvs)), to, given) {
        law_given_dataset_is_the_active_one(to, tlvs, given);
    }
}

/// `ot txpower` with a power sets it, and then tells the power in effect.
pub proof fn law_power_is_set_and_told(c: Cpu2, v: i8, replies: Seq<Reply>)
    requires
        in_order(c),
        replies.len() == 2,
        fair(begins(OtCmd::TxPower(Some(v))), c, replies),
    ensures
        ran(begins(OtCmd::TxPower(Some(v))), c, replies).0.next is Done,
        ran(begins(OtCmd::TxPower(Some(v))), c, replies).1.power == v,
        !ran(begins(OtCmd::TxPower(Some(v))), c, replies).1.confused,
        said_by(begins(OtCmd::TxPower(Some(v))), c, replies) == seq![
            power_set_text(v, 0),
            power_text(v, 0),
        ],
{
    reveal_with_fuel(fair, 3);
    reveal_with_fuel(ran, 3);
    reveal_with_fuel(said_by, 3);
    assert(replies.drop_first().drop_first().len() == 0);
    assert(extended(v) % 256 == v as int % 256);
    assert(signed8(byte_of(v)) == v);
    assert(four(0x7f).update(0, byte_of(v))[0] == byte_of(v));
}

/// `ot txpower` alone tells the power, and leaves it as it is.
pub proof fn law_power_is_told(c: Cpu2, replies: Seq<Reply>)
    requires
        in_order(c),
        replies.len() == 1,
        fair(begins(OtCmd::TxPower(None)), c, replies),
    ensures
        ran(begins(OtCmd::TxPower(None)), c, replies).0.next is Done,
        ran(begins(OtCmd::TxPower(None)), c, replies).1.power == c.power,
        !ran(begins(OtCmd::TxPower(None)), c, replies).1.confused,
        said_by(begins(OtCmd::TxPower(None)), c, replies) == seq![power_text(c.power, 0)],
{
    reveal_with_fuel(fair, 2);
    reveal_with_fuel(ran, 2);
    reveal_with_fuel(said_by, 2);
    assert(replies.drop_first().len() == 0);
    assert(signed8(byte_of(c.power)) == c.power);
    assert(four(0x7f).update(0, byte_of(c.power))[0] == byte_of(c.power));
}

/// `ot parent` tells the average and the last signal strength of the parent, if
/// there is one, and changes nothing but the block they are read from.
pub proof fn law_parent_is_told(c: Cpu2, replies: Seq<Reply>)
    requires
        in_order(c),
        replies.len() == 2,
        fair(begins(OtCmd::Parent), c, replies),
    ensures
        ran(begins(OtCmd::Parent), c, replies).0.next is Done,
        ran(begins(OtCmd::Parent), c, replies).1 == (Cpu2 {
            blocks: ran(begins(OtCmd::Parent), c, replies).1.blocks,
            ..c
        }),
        said_by(begins(OtCmd::Parent), c, replies) == (match c.parent {
            Some(p) => seq![parent_text(p.0, p.1)],
            None => seq!["ot: no parent\r\n"@],
        }),
{
    reveal_with_fuel(fair, 3);
    reveal_with_fuel(ran, 3);
    reveal_with_fuel(said_by, 3);
    assert(replies.drop_first().drop_first().len() == 0);
    if let Some(p) = c.parent {
        assert(signed8(byte_of(p.0)) == p.0);
        assert(signed8(byte_of(p.1)) == p.1);
        assert(four(0).update(0, byte_of(p.0))[0] == byte_of(p.0));
    }
}

/// `ot ping` sends that many pings to that address, a second apart, with the
/// replies and the statistics forwarded.
pub proof fn law_ping_is_sent(c: Cpu2, dst: Seq<u8>, count: u16, replies: Seq<Reply>)
    requires
        in_order(c),
        dst.len() == 16,
        replies.len() == 1,
        fair(begins(OtCmd::Ping(dst, count)), c, replies),
    ensures
        ran(begins(OtCmd::Ping(dst, count)), c, replies).0.next is Done,
        ran(begins(OtCmd::Ping(dst, count)), c, replies).1.sent == Some(
            Sent {
                dst,
                replies: true,
                statistics: true,
                count: count as int,
                interval_ms: 1000,
                timeout_ms: 0,
            },
        ),
        !ran(begins(OtCmd::Ping(dst, count)), c, replies).1.confused,
        said_by(begins(OtCmd::Ping(dst, count)), c, replies) == seq![ping_text(count, 0)],
{
    reveal_with_fuel(fair, 2);
    reveal_with_fuel(ran, 2);
    reveal_with_fuel(said_by, 2);
    assert(replies.drop_first().len() == 0);
    law_ping_block(dst, count, 0);
}

/// The probe's ping goes to the leader's anycast address under the prefix, once,
/// with the reply forwarded.
pub proof fn law_probe_pings_the_leader(c: Cpu2, probe: ProbeView, event: RangeEvent)
    requires
        in_order(c),
        probe.wf(),
        range_awaits(probe.stage, event),
        range_follows(probe, event).next is Ping,
    ensures
        ({
            let prefix = range_follows(probe, event).probe.prefix;
            let d = served(c, range_follows(probe, event).next->Ping_0).0;
            &&& !d.confused
            &&& prefix is Some
            &&& d.sent matches Some(s) && s.dst.len() == 16 && s.dst.take(8) == prefix->0
                && s.replies && s.count == 1 && s.timeout_ms == 900 && s.interval_ms == 1000
            &&& two_up(d.sent->0.dst, 8) == 0 && two_up(d.sent->0.dst, 10) == 0xff && two_up(
                d.sent->0.dst,
                12,
            ) == 0xfe00 && two_up(d.sent->0.dst, 14) == 0xfc00
            &&& event matches RangeEvent::Memory(a) ==> prefix->0 == a@.take(8)
        }),
{
    let p = range_follows(probe, event).probe.prefix->0;
    assert(p.len() == 8) by {
        if let RangeEvent::Memory(a) = event {
            assert(a@.take(8).len() == 8);
        }
    }
    law_ping_block(aloc(p), 1, 900);
    law_leader_address(p, 0);
    law_leader_address(p, 1);
    law_leader_address(p, 2);
    law_leader_address(p, 3);
}

/// A number of two bytes, most significant first.
pub open spec fn two_up(s: Seq<u8>, at: int) -> int {
    0x100 * s[at] + s[at + 1]
}

/// `ot info` tells what CPU2 says of the device, each number under its name, and
/// reads the address where CPU1 may, at the place that CPU2 gives.
pub proof fn law_info_tells_the_device(c: Cpu2, replies: Seq<Reply>, a: [u8; 16])
    requires
        in_order(c),
        replies.len() == 6,
        fair(begins(OtCmd::Info), c, replies),
    ensures
        ({
            let (t, d) = ran(begins(OtCmd::Info), c, replies);
            &&& d == c
            &&& 0x2000_0000 <= c.eid <= 0x2003_ffff ==> t.next == Next::Read(c.eid) && t.says.len()
                == 0 && follows(t.state, OtEvent::Memory(a)) == ends(
                seq![
                    info_text(c.role, c.rloc, c.channel, c.pan, c.commissioned, c.eid, Some(a@)),
                ],
            )
            &&& !(0x2000_0000 <= c.eid <= 0x2003_ffff) ==> t == ends(
                seq![info_text(c.role, c.rloc, c.channel, c.pan, c.commissioned, c.eid, None)],
            )
        }),
{
    let t0 = begins(OtCmd::Info);
    let r1 = lemma_one_call(t0, c, replies);
    let t1 = follows(t0.state, OtEvent::Reply(replies[0]));
    assert(t1.state == (OtState::InfoRloc { role: c.role }));
    let r2 = lemma_one_call(t1, c, r1);
    let t2 = follows(t1.state, OtEvent::Reply(r1[0]));
    assert(t2.state == (OtState::InfoChannel { role: c.role, rloc: c.rloc }));
    let r3 = lemma_one_call(t2, c, r2);
    let t3 = follows(t2.state, OtEvent::Reply(r2[0]));
    assert(t3.state == (OtState::InfoPan { role: c.role, rloc: c.rloc, ch: c.channel }));
    let r4 = lemma_one_call(t3, c, r3);
    let t4 = follows(t3.state, OtEvent::Reply(r3[0]));
    assert(t4.state == (OtState::InfoCommissioned {
        role: c.role,
        rloc: c.rloc,
        ch: c.channel,
        pan: c.pan,
    }));
    let r5 = lemma_one_call(t4, c, r4);
    let t5 = follows(t4.state, OtEvent::Reply(r4[0]));
    assert(t5.state == (OtState::InfoEid {
        role: c.role,
        rloc: c.rloc,
        ch: c.channel,
        pan: c.pan,
        comm: c.commissioned,
    }));
    let r6 = lemma_one_call(t5, c, r5);
    let t6 = follows(t5.state, OtEvent::Reply(r5[0]));
    assert(r6.len() == 0);
    assert(ran(t6, c, r6) == (t6, c));
}

/// One call of a conversation.
proof fn lemma_one_call(t: Turn, c: Cpu2, replies: Seq<Reply>) -> (rest: Seq<Reply>)
    requires
        replies.len() > 0,
        t.next is Call,
        fair(t, c, replies),
    ensures
        rest == replies.drop_first(),
        rest.len() == replies.len() - 1,
        honest(c, t.next->Call_0, replies[0]),
        ({
            let next = follows(t.state, OtEvent::Reply(replies[0]));
            let d = served(c, t.next->Call_0).0;
            &&& fair(next, d, rest)
            &&& ran(t, c, replies) == ran(next, d, rest)
            &&& said_by(t, c, replies) == t.says + said_by(next, d, rest)
        }),
{
    replies.drop_first()
}

// ---- neighbors ----

/// The stack with the neighbor iterator at `i`.
pub open spec fn iterates(c: Cpu2, i: int) -> bool {
    c.blocks.iter.len() == 4 && two(c.blocks.iter, 0) == i
}

/// The lines for the neighbors from number `i` to number `end`.
pub open spec fn neighbor_lines(c: Cpu2, i: int, end: int) -> Seq<Seq<char>>
    decreases end - i,
{
    if i >= end {
        Seq::empty()
    } else {
        seq![neighbor_text(neighbor_in(c.neighbors[i]))] + neighbor_lines(c, i + 1, end)
    }
}

proof fn lemma_neighbors_from(t: Turn, c: Cpu2, n: Seq<Seq<u8>>, i: int, replies: Seq<Reply>)
    requires
        0 <= i <= n.len() <= 16,
        c.neighbors == n,
        t.state == (OtState::Neighbors { count: i as u32 }),
        t.next == Next::Call(ask_next_neighbor(i == 0)),
        i > 0 ==> iterates(c, i),
        replies.len() == n.len() - i + 1,
        fair(t, c, replies),
    ensures
        ran(t, c, replies).0.next is Done,
        ran(t, c, replies).1 == (Cpu2 { blocks: ran(t, c, replies).1.blocks, ..c }),
        said_by(t, c, replies) == t.says + (neighbor_lines(c, i, n.len() as int) + seq![
            count_text(n.len() as u32),
        ]),
    decreases n.len() - i,
{
    let rest = lemma_one_call(t, c, replies);
    let q = replies[0];
    let a = t.next->Call_0;
    let d = served(c, a).0;
    let next = follows(t.state, OtEvent::Reply(q));
    assert(two(four(0), 0) == 0);
    if i < n.len() {
        assert(q.value == 0);
        assert(d.blocks.neighbor == n[i]);
        assert(iterates(d, i + 1)) by {
            assert((i + 1) % 256 + 0x100 * ((i + 1) / 256) == i + 1);
        }
        assert(next.says =~= seq![neighbor_text(neighbor_in(n[i]))]);
        lemma_neighbors_from(next, d, n, i + 1, rest);
        lemma_same_lines(c, d, i + 1, n.len() as int);
        let tail = neighbor_lines(c, i + 1, n.len() as int);
        let end = seq![count_text(n.len() as u32)];
        assert(next.says + (tail + end) =~= neighbor_lines(c, i, n.len() as int) + end);
    } else {
        assert(q.value == 23);
        assert(rest.len() == 0);
        assert(neighbor_lines(c, i, n.len() as int) =~= Seq::<Seq<char>>::empty());
        assert(neighbor_lines(c, i, n.len() as int) + seq![count_text(n.len() as u32)] =~= next.says);
    }
}

proof fn lemma_same_lines(c: Cpu2, d: Cpu2, i: int, end: int)
    requires
        c.neighbors == d.neighbors,
    ensures
        neighbor_lines(c, i, end) == neighbor_lines(d, i, end),
    decreases end - i,
{
    if i < end {
        lemma_same_lines(c, d, i + 1, end);
    }
}

/// `ot neighbors` lists up to sixteen neighbors, each once and in the order that
/// CPU2 has them, and then tells how many there are. Nothing on CPU2 changes but
/// the blocks that they are read from.
pub proof fn law_neighbors_are_listed(c: Cpu2, replies: Seq<Reply>)
    requires
        in_order(c),
        c.neighbors.len() <= 16,
        replies.len() == c.neighbors.len() + 1,
        fair(begins(OtCmd::Neighbors), c, replies),
    ensures
        ran(begins(OtCmd::Neighbors), c, replies).0.next is Done,
        ran(begins(OtCmd::Neighbors), c, replies).1 == (Cpu2 {
            blocks: ran(begins(OtCmd::Neighbors), c, replies).1.blocks,
            ..c
        }),
        said_by(begins(OtCmd::Neighbors), c, replies) == neighbor_lines(
            c,
            0,
            c.neighbors.len() as int,
        ) + seq![count_text(c.neighbors.len() as u32)],
{
    let t = begins(OtCmd::Neighbors);
    lemma_neighbors_from(t, c, c.neighbors, 0, replies);
    let all = neighbor_lines(c, 0, c.neighbors.len() as int) + seq![
        count_text(c.neighbors.len() as u32),
    ];
    assert(t.says + all =~= all);
}

// ---- joining ----

/// Whether each call of a join is answered as CPU2 does.
pub open spec fn join_fair(t: JoinTurn, tlvs: Seq<u8>, c: Cpu2, replies: Seq<Reply>) -> bool
    decreases replies.len(),
{
    replies.len() > 0 && t.next is Call ==> {
        let a = t.next->Call_0;
        let q = replies[0];
        honest(c, a, q) && join_fair(
            join_follows(t.state, tlvs, JoinEvent::Returned(q.value)),
            tlvs,
            served(c, a).0,
            replies.drop_first(),
        )
    }
}

/// Where a join stands after replies.
pub open spec fn join_ran(t: JoinTurn, tlvs: Seq<u8>, c: Cpu2, replies: Seq<Reply>) -> (
    JoinTurn,
    Cpu2,
)
    decreases replies.len(),
{
    if replies.len() > 0 && t.next is Call {
        join_ran(
            join_follows(t.state, tlvs, JoinEvent::Returned(replies[0].value)),
            tlvs,
            served(c, t.next->Call_0).0,
            replies.drop_first(),
        )
    } else {
        (t, c)
    }
}

proof fn lemma_one_join_call(t: JoinTurn, tlvs: Seq<u8>, c: Cpu2, replies: Seq<Reply>) -> (rest:
    Seq<Reply>)
    requires
        replies.len() > 0,
        t.next is Call,
        join_fair(t, tlvs, c, replies),
    ensures
        rest == replies.drop_first(),
        rest.len() == replies.len() - 1,
        honest(c, t.next->Call_0, replies[0]),
        ({
            let next = join_follows(t.state, tlvs, JoinEvent::Returned(replies[0].value));
            let d = served(c, t.next->Call_0).0;
            join_fair(next, tlvs, d, rest) && join_ran(t, tlvs, c, replies) == join_ran(
                next,
                tlvs,
                d,
                rest,
            )
        }),
{
    replies.drop_first()
}

/// A join, once the Thread stack was started, makes the stored dataset the active
/// one, has state changes reported, and starts IPv6 and Thread; it succeeds, and
/// turns range mode on.
pub proof fn law_join_brings_the_network_up(
    c: Cpu2,
    tlvs: Seq<u8>,
    outcome: &str,
    replies: Seq<Reply>,
)
    requires
        in_order(c),
        tlvs.len() <= 254,
        replies.len() == 5,
        join_fair(
            join_follows(JoinState::Thread, tlvs, JoinEvent::Started(outcome)),
            tlvs,
            c,
            replies,
        ),
    ensures
        join_begins().next is StartThread,
        join_begins().state == JoinState::Thread,
        ({
            let (t, d) = join_ran(
                join_follows(JoinState::Thread, tlvs, JoinEvent::Started(outcome)),
                tlvs,
                c,
                replies,
            );
            &&& t.next == JoinGo::Done(0)
            &&& t.range == Some(true)
            &&& d.made && d.reports && d.ip6 && d.thread && !d.confused
            &&& d.active == Active::Tlvs(tlvs)
        }),
{
    let t0 = join_follows(JoinState::Thread, tlvs, JoinEvent::Started(outcome));
    let r1 = lemma_one_join_call(t0, tlvs, c, replies);
    let c1 = served(c, t0.next->Call_0).0;
    let t1 = join_follows(t0.state, tlvs, JoinEvent::Returned(replies[0].value));
    assert(c1 == (Cpu2 { made: true, ..c }));
    let r2 = lemma_one_join_call(t1, tlvs, c1, r1);
    let c2 = served(c1, t1.next->Call_0).0;
    let t2 = join_follows(t1.state, tlvs, JoinEvent::Returned(r1[0].value));
    assert(c2 == (Cpu2 { reports: true, ..c1 }) && r1[0].value == 0);
    let r3 = lemma_one_join_call(t2, tlvs, c2, r2);
    law_dataset_block_read_back(tlvs);
    assert(tlvs.take(tlvs.len() as int) =~= tlvs);
    assert(tlvs_block(tlvs)[254] == tlvs.len() as u8);
    assert(tlvs_block(tlvs).take(tlvs.len() as int) =~= tlvs);
    let c3 = served(c2, t2.next->Call_0).0;
    let t3 = join_follows(t2.state, tlvs, JoinEvent::Returned(r2[0].value));
    assert(c3.active == Active::Tlvs(tlvs) && r2[0].value == 0);
    let r4 = lemma_one_join_call(t3, tlvs, c3, r3);
    let c4 = served(c3, t3.next->Call_0).0;
    let t4 = join_follows(t3.state, tlvs, JoinEvent::Returned(r3[0].value));
    assert(c4 == (Cpu2 { ip6: true, ..c3 }) && r3[0].value == 0);
    let r5 = lemma_one_join_call(t4, tlvs, c4, r4);
    let c5 = served(c4, t4.next->Call_0).0;
    let t5 = join_follows(t4.state, tlvs, JoinEvent::Returned(r4[0].value));
    assert(c5 == (Cpu2 { thread: true, ..c4 }) && r4[0].value == 0);
    assert(r5.len() == 0);
    assert(join_ran(t5, tlvs, c5, r5) == (t5, c5));
}

// ---- arguments ----

proof fn lemma_three(kw: Seq<char>, arg: Seq<char>, rest: Seq<char>)
    requires
        kw.len() > 0,
        solid(kw),
        arg.len() > 0,
        solid(arg),
        rest.len() > 0 ==> is_white(rest[0]),
    ensures
        words("ot "@ + kw + " "@ + arg + rest) == seq!["ot"@, kw, arg] + words(rest),
{
    let none = Seq::<char>::empty();
    let third = seq![' '] + arg + rest;
    let second = seq![' '] + kw + third;
    assert(words(third) == seq![arg] + words(rest)) by {
        lemma_next_word(arg, rest);
    }
    assert(words(second) == seq![kw] + words(third)) by {
        lemma_next_word(kw, third);
    }
    assert(words("ot "@ + kw + " "@ + arg + rest) == seq!["ot"@] + words(second)) by {
        reveal_strlit("ot ");
        reveal_strlit("ot");
        reveal_strlit(" ");
        assert("ot "@ =~= "ot"@ + seq![' ']);
        assert(" "@ =~= seq![' ']);
        assert("ot "@ + kw + " "@ + arg + rest =~= none + "ot"@ + second);
        assert("ot"@[0] == 'o' && "ot"@[1] == 't' && "ot"@.len() == 2);
        law_words(none, "ot"@, second);
    }
    let more = words(rest);
    assert(seq!["ot"@] + (seq![kw] + (seq![arg] + more)) =~= seq!["ot"@, kw, arg] + more);
}

/// The keywords of commands with an argument differ from those tried before them.
proof fn lemma_keywords()
    ensures
        "keepalive"@ != "init"@,
        "keepalive"@ != "save"@,
        "txpower"@ != "init"@,
        "txpower"@ != "save"@,
        "txpower"@ != "keepalive"@,
        "range"@ != "init"@,
        "range"@ != "save"@,
        "range"@ != "keepalive"@,
        "range"@ != "txpower"@,
        "range"@ != "forget"@,
        "range"@ != "config"@,
        "ping"@ != "init"@,
        "ping"@ != "save"@,
        "ping"@ != "keepalive"@,
        "ping"@ != "txpower"@,
        "ping"@ != "forget"@,
        "ping"@ != "config"@,
        "ping"@ != "range"@,
        "ping"@ != "new"@,
        "ping"@ != "tlvs"@,
        "ping"@ != "settlvs"@,
        "ping"@ != "up"@,
        "ping"@ != "down"@,
        "ping"@ != "info"@,
        "ping"@ != "role"@,
        "ping"@ != "neighbors"@,
        "ping"@ != "parent"@,
        solid("keepalive"@) && solid("txpower"@) && solid("range"@) && solid("ping"@),
        "keepalive"@.len() > 0 && "txpower"@.len() > 0 && "range"@.len() > 0 && "ping"@.len() > 0,
{
    reveal_strlit("init");
    reveal_strlit("save");
    reveal_strlit("keepalive");
    reveal_strlit("txpower");
    reveal_strlit("forget");
    reveal_strlit("config");
    reveal_strlit("range");
    reveal_strlit("new");
    reveal_strlit("tlvs");
    reveal_strlit("settlvs");
    reveal_strlit("up");
    reveal_strlit("down");
    reveal_strlit("info");
    reveal_strlit("role");
    reveal_strlit("neighbors");
    reveal_strlit("parent");
    reveal_strlit("ping");
    assert("keepalive"@.len() == 9 && "init"@.len() == 4 && "save"@.len() == 4 && "txpower"@.len()
        == 7 && "range"@.len() == 5 && "forget"@.len() == 6 && "config"@.len() == 6
        && "ping"@.len() == 4 && "new"@.len() == 3 && "tlvs"@.len() == 4 && "settlvs"@.len() == 7
        && "up"@.len() == 2 && "down"@.len() == 4 && "info"@.len() == 4 && "role"@.len() == 4
        && "neighbors"@.len() == 9 && "parent"@.len() == 6);
    assert("ping"@[0] == 'p' && "init"@[0] == 'i' && "save"@[0] == 's' && "tlvs"@[0] == 't'
        && "down"@[0] == 'd' && "info"@[0] == 'i' && "role"@[0] == 'r');
}

proof fn lemma_digits_solid(v: nat, base: nat)
    requires
        2 <= base <= 16,
    ensures
        digits(v, base).len() > 0,
        solid(digits(v, base)),
{
    lemma_digits_plain(v, base);
}

/// `ot txpower` takes any power of eight bits as it is written; what is no such
/// number only asks for the power.
pub proof fn law_power_argument(v: i8, other: nat)
    requires
        127 < other <= 0xFFFF,
    ensures
        ot_command("ot "@ + "txpower"@ + " "@ + signed_text(v as int) + Seq::empty())
            == OtCmd::TxPower(Some(v)),
        ot_command("ot "@ + "txpower"@ + " "@ + digits(other, 10) + Seq::empty())
            == OtCmd::TxPower(None),
{
    lemma_keywords();
    lemma_no_runs(Sep::White);
    let none = Seq::<char>::empty();
    let arg = signed_text(v as int);
    let n: nat = if v < 0 {
        (-v) as nat
    } else {
        v as nat
    };
    lemma_digits_solid(n, 10);
    lemma_digits_solid(other, 10);
    assert(solid(arg)) by {
        assert forall|i: int| 0 <= i < arg.len() implies !is_white(#[trigger] arg[i]) by {
            if v < 0 && i > 0 {
                assert(arg[i] == digits(n, 10)[i - 1]);
            }
        }
    }
    lemma_three("txpower"@, arg, none);
    lemma_three("txpower"@, digits(other, 10), none);
    law_signed_byte_read_back(v as int, other);
    assert(word("ot "@ + "txpower"@ + " "@ + arg + none, 1) == Some("txpower"@));
    assert(word("ot "@ + "txpower"@ + " "@ + arg + none, 2) == Some(arg));
    assert(word("ot "@ + "txpower"@ + " "@ + digits(other, 10) + none, 1) == Some("txpower"@));
    assert(word("ot "@ + "txpower"@ + " "@ + digits(other, 10) + none, 2) == Some(
        digits(other, 10),
    ));
}

/// `ot keepalive` and `ot range` are off exactly when the word behind them is
/// `off`.
pub proof fn law_off_turns_off(arg: Seq<char>)
    requires
        arg.len() > 0,
        solid(arg),
    ensures
        ot_command("ot "@ + "keepalive"@ + " "@ + arg + Seq::empty()) == OtCmd::Keepalive(
            arg != "off"@,
        ),
        ot_command("ot "@ + "range"@ + " "@ + arg + Seq::empty()) == OtCmd::Range(arg != "off"@),
{
    lemma_keywords();
    lemma_no_runs(Sep::White);
    let none = Seq::<char>::empty();
    lemma_three("keepalive"@, arg, none);
    lemma_three("range"@, arg, none);
    assert(word("ot "@ + "keepalive"@ + " "@ + arg + none, 1) == Some("keepalive"@));
    assert(word("ot "@ + "keepalive"@ + " "@ + arg + none, 2) == Some(arg));
    assert(word("ot "@ + "range"@ + " "@ + arg + none, 1) == Some("range"@));
    assert(word("ot "@ + "range"@ + " "@ + arg + none, 2) == Some(arg));
}

proof fn lemma_colons_solid(w: Seq<u16>)
    ensures
        solid(colons(w)),
        w.len() > 0 ==> colons(w).len() > 0,
    decreases w.len(),
{
    if w.len() > 0 {
        let d = digits(w[0] as nat, 16);
        lemma_digits_solid(w[0] as nat, 16);
        if w.len() > 1 {
            let t = colons(w.drop_first());
            lemma_colons_solid(w.drop_first());
            assert forall|i: int| 0 <= i < colons(w).len() implies !is_white(
                #[trigger] colons(w)[i],
            ) by {
                if i < d.len() {
                    assert(colons(w)[i] == d[i]);
                } else if i > d.len() {
                    assert(colons(w)[i] == t[i - d.len() - 1]);
                }
            }
        }
    }
}

proof fn lemma_ping_command(s: Seq<char>, a: Seq<char>, dst: Seq<u8>)
    requires
        word(s, 1) == Some("ping"@),
        word(s, 2) == Some(a),
        ip6_of(a) == Some(dst),
    ensures
        ot_command(s) == OtCmd::Ping(dst, count_arg(word(s, 3))),
{
    lemma_keywords();
}

proof fn lemma_ping_words(a: Seq<char>, d: Seq<char>)
    requires
        a.len() > 0,
        solid(a),
        d.len() > 0,
        solid(d),
    ensures
        ({
            let s = "ot "@ + "ping"@ + " "@ + a + Seq::empty();
            word(s, 1) == Some("ping"@) && word(s, 2) == Some(a) && word(s, 3) is None
        }),
        ({
            let t = "ot "@ + "ping"@ + " "@ + a + (seq![' '] + d);
            word(t, 1) == Some("ping"@) && word(t, 2) == Some(a) && word(t, 3) == Some(d)
        }),
{
    let none = Seq::<char>::empty();
    let rest = seq![' '] + d;
    lemma_keywords();
    assert(words(none).len() == 0) by {
        lemma_no_runs(Sep::White);
    }
    assert(words(rest) == seq![d]) by {
        lemma_next_word(d, none);
        assert(seq![' '] + d + none =~= rest);
        assert(seq![d] + words(none) =~= seq![d]);
    }
    lemma_three("ping"@, a, none);
    lemma_three("ping"@, a, rest);
    assert(seq!["ot"@, "ping"@, a] + words(none) =~= seq!["ot"@, "ping"@, a]);
    assert(seq!["ot"@, "ping"@, a] + seq![d] =~= seq!["ot"@, "ping"@, a, d]);
}

/// `ot ping` takes the address as it is written in eight groups, and the number
/// of pings behind it; three when there is none, or more than 65535 are asked
/// for.
pub proof fn law_ping_arguments(w: Seq<u16>, n: nat)
    requires
        w.len() == 8,
        n <= 0xF_FFFF,
    ensures
        ot_command("ot "@ + "ping"@ + " "@ + colons(w) + Seq::empty()) matches OtCmd::Ping(
            dst,
            count,
        ) && holds(dst, w) && count == 3,
        ot_command("ot "@ + "ping"@ + " "@ + colons(w) + (seq![' '] + digits(n, 10)))
            matches OtCmd::Ping(dst, count) && holds(dst, w) && (n <= 0xFFFF ==> count == n) && (n
            > 0xFFFF ==> count == 3),
{
    let a = colons(w);
    let d = digits(n, 10);
    lemma_colons_solid(w);
    lemma_digits_solid(n, 10);
    lemma_ping_words(a, d);
    law_groups_are_read_in_order(w);
    law_number_read_back(n, 10, n);
    lemma_digits_plain(n, 10);
    assert(d[0] != '+');
    let dst = ip6_of(a)->0;
    lemma_ping_command("ot "@ + "ping"@ + " "@ + a + Seq::empty(), a, dst);
    lemma_ping_command("ot "@ + "ping"@ + " "@ + a + (seq![' '] + d), a, dst);
    assert(count_arg(None) == 3);
    assert(count_arg(Some(d)) == (if n <= 0xFFFF {
        n as u16
    } else {
        3u16
    }));
}

} // verus!
