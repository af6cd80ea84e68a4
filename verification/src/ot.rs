//! OpenThread control through ST's API mirror on CPU2: the calls, the blocks
//! of memory that go with them, and what comes back.

use vstd::prelude::*;
use vstd::slice::slice_subrange;
use crate::bounded::dataset_of;
use crate::bounded::extend_dataset;
use crate::bounded::no_dataset;
use crate::bytes::i8_of;
use crate::bytes::le16;
use crate::bytes::le32;
use crate::bytes::signed8;
use crate::bytes::u16_bytes;
use crate::bytes::u32_bytes;
use crate::config::at_most;

verus! {

// ---- names ----

/// The name of a device role.
pub open spec fn role_text(r: u32) -> Seq<char> {
    match r {
        0 => "disabled"@,
        1 => "detached"@,
        2 => "child"@,
        3 => "router"@,
        4 => "leader"@,
        _ => "?"@,
    }
}

pub fn role_name(r: u32) -> (s: &'static str)
    ensures
        s@ == role_text(r),
{
    match r {
        0 => "disabled",
        1 => "detached",
        2 => "child",
        3 => "router",
        4 => "leader",
        _ => "?",
    }
}

/// The name of an OpenThread error.
pub open spec fn err_text(e: u32) -> Seq<char> {
    match e {
        0 => "ok"@,
        1 => "failed"@,
        2 => "drop"@,
        3 => "no-bufs"@,
        4 => "no-route"@,
        5 => "busy"@,
        6 => "parse"@,
        7 => "invalid-args"@,
        8 => "security"@,
        11 => "abort"@,
        12 => "not-implemented"@,
        13 => "invalid-state"@,
        14 => "no-ack"@,
        16 => "detached"@,
        23 => "not-found"@,
        24 => "already"@,
        _ => "error"@,
    }
}

pub fn err_name(e: u32) -> (s: &'static str)
    ensures
        s@ == err_text(e),
{
    match e {
        0 => "ok",
        1 => "failed",
        2 => "drop",
        3 => "no-bufs",
        4 => "no-route",
        5 => "busy",
        6 => "parse",
        7 => "invalid-args",
        8 => "security",
        11 => "abort",
        12 => "not-implemented",
        13 => "invalid-state",
        14 => "no-ack",
        16 => "detached",
        23 => "not-found",
        24 => "already",
        _ => "error",
    }
}

// ---- calls ----

/// The mirrored functions that the board calls.
#[derive(Clone, Copy, PartialEq, Eq, Structural)]
pub enum OtCall {
    InstanceInitSingle,
    SetStateChangedCallback,
    ThreadGetDeviceRole,
    ThreadGetRloc16,
    ThreadGetMeshLocalEid,
    ThreadSetEnabled,
    ThreadGetParentAverageRssi,
    ThreadGetParentLastRssi,
    ThreadGetNextNeighborInfo,
    Ip6SetEnabled,
    LinkGetChannel,
    LinkGetPanid,
    DatasetIsCommissioned,
    DatasetCreateNewNetwork,
    DatasetSetActive,
    DatasetSetActiveTlvs,
    DatasetGetActiveTlvs,
    PingSenderPing,
    RadioSetTransmitPower,
    RadioGetTransmitPower,
}

/// Blocks of memory that CPU2 reads and writes directly.
#[derive(Clone, Copy, PartialEq, Eq, Structural)]
pub enum Block {
    /// The operational dataset, 256 bytes.
    Dataset,
    /// The dataset as TLVs, 256 bytes: 254 of TLVs, then their length.
    Tlvs,
    /// The configuration of the ping sender, 64 bytes.
    Ping,
    /// One neighbor, 48 bytes.
    Neighbor,
    /// The neighbor iterator, 4 bytes; also takes single values.
    Iter,
}

/// An argument of a call.
#[derive(Clone, Copy, PartialEq, Eq, Structural)]
pub enum Arg {
    /// A number.
    Word(u32),
    /// The address of a block.
    At(Block),
}

/// What to put into a block before a call.
#[derive(Clone, Copy)]
pub enum Fill {
    Nothing,
    Tlvs([u8; 256]),
    Ping([u8; 64]),
    Iter([u8; 4]),
}

/// A call to make: fill the block, pass the arguments, read the block back.
#[derive(Clone, Copy)]
pub struct Request {
    pub call: OtCall,
    pub fill: Fill,
    pub first: Option<Arg>,
    pub second: Option<Arg>,
    pub read: Option<Block>,
}

/// What a block held after a call, when it was to be read back.
#[derive(Clone, Copy)]
pub enum Held {
    Nothing,
    Tlvs([u8; 256]),
    Neighbor([u8; 48]),
    Iter([u8; 4]),
}

/// What came back of a call.
#[derive(Clone, Copy)]
pub struct Reply {
    pub value: u32,
    pub held: Held,
}

/// The contents of a request.
pub ghost struct Ask {
    pub call: OtCall,
    pub fill: Option<(Block, Seq<u8>)>,
    pub first: Option<Arg>,
    pub second: Option<Arg>,
    pub read: Option<Block>,
}

impl View for Request {
    type V = Ask;

    open spec fn view(&self) -> Ask {
        Ask {
            call: self.call,
            fill: match self.fill {
                Fill::Nothing => None,
                Fill::Tlvs(b) => Some((Block::Tlvs, b@)),
                Fill::Ping(b) => Some((Block::Ping, b@)),
                Fill::Iter(b) => Some((Block::Iter, b@)),
            },
            first: self.first,
            second: self.second,
            read: self.read,
        }
    }
}

/// Whether a reply can come of a request: the block asked for was read back.
pub open spec fn replies_to(read: Option<Block>, reply: Reply) -> bool {
    match read {
        Some(Block::Tlvs) => reply.held is Tlvs,
        Some(Block::Neighbor) => reply.held is Neighbor,
        Some(Block::Iter) => reply.held is Iter,
        _ => true,
    }
}

/// A call with at most one number to pass and nothing to read back.
pub open spec fn ask(call: OtCall, first: Option<Arg>) -> Ask {
    Ask { call, fill: None, first, second: None, read: None }
}

/// A call with at most one argument and nothing to read back.
pub fn request(call: OtCall, first: Option<Arg>) -> (r: Request)
    ensures
        r@ == ask(call, first),
{
    Request { call, fill: Fill::Nothing, first, second: None, read: None }
}

/// The calls that bring up the OpenThread instance: make it, then ask for
/// state changes to be reported.
pub fn init() -> (r: (Request, Request))
    ensures
        r.0@ == ask(OtCall::InstanceInitSingle, None),
        r.1@ == ask(OtCall::SetStateChangedCallback, Some(Arg::Word(0))),
{
    (
        request(OtCall::InstanceInitSingle, None),
        request(OtCall::SetStateChangedCallback, Some(Arg::Word(0))),
    )
}

/// The call for the device role.
pub fn role() -> (r: Request)
    ensures
        r@ == ask(OtCall::ThreadGetDeviceRole, None),
{
    request(OtCall::ThreadGetDeviceRole, None)
}

/// The calls that start the network: IPv6 first, then Thread.
pub fn up() -> (r: (Request, Request))
    ensures
        r.0@ == ask(OtCall::Ip6SetEnabled, Some(Arg::Word(1))),
        r.1@ == ask(OtCall::ThreadSetEnabled, Some(Arg::Word(1))),
{
    (
        request(OtCall::Ip6SetEnabled, Some(Arg::Word(1))),
        request(OtCall::ThreadSetEnabled, Some(Arg::Word(1))),
    )
}

/// The calls that stop the network: Thread first, then IPv6.
pub fn down() -> (r: (Request, Request))
    ensures
        r.0@ == ask(OtCall::ThreadSetEnabled, Some(Arg::Word(0))),
        r.1@ == ask(OtCall::Ip6SetEnabled, Some(Arg::Word(0))),
{
    (
        request(OtCall::ThreadSetEnabled, Some(Arg::Word(0))),
        request(OtCall::Ip6SetEnabled, Some(Arg::Word(0))),
    )
}

// ---- datasets ----

/// A dataset in its block: at most 254 bytes, zeros up to there, then the
/// length, then a zero.
pub open spec fn tlvs_block(tlvs: Seq<u8>) -> Seq<u8> {
    let n = at_most(tlvs.len() as int, 254);
    tlvs.take(n) + Seq::new((254 - n) as nat, |i: int| 0u8) + seq![n as u8, 0u8]
}

/// The call that makes a dataset the active one.
pub open spec fn ask_set_active_tlvs(tlvs: Seq<u8>) -> Ask {
    Ask {
        call: OtCall::DatasetSetActiveTlvs,
        fill: Some((Block::Tlvs, tlvs_block(tlvs))),
        first: Some(Arg::At(Block::Tlvs)),
        second: None,
        read: None,
    }
}

pub fn set_active_tlvs(tlvs: &[u8]) -> (r: Request)
    ensures
        r@ == ask_set_active_tlvs(tlvs@),
{
    let n: usize = if tlvs.len() < 254 {
        tlvs.len()
    } else {
        254
    };
    let mut b: [u8; 256] = [0; 256];
    let mut i: usize = 0;
    while i < n
        invariant
            i <= n <= 254,
            n <= tlvs@.len(),
            forall|k: int| 0 <= k < i ==> b@[k] == tlvs@[k],
            forall|k: int| i <= k < 256 ==> b@[k] == 0,
        decreases n - i,
    {
        b[i] = tlvs[i];
        i = i + 1;
    }
    b[254] = n as u8;
    assert(b@ =~= tlvs_block(tlvs@));
    Request {
        call: OtCall::DatasetSetActiveTlvs,
        fill: Fill::Tlvs(b),
        first: Some(Arg::At(Block::Tlvs)),
        second: None,
        read: None,
    }
}

/// The call that fetches the active dataset.
pub open spec fn ask_get_active_tlvs() -> Ask {
    Ask {
        call: OtCall::DatasetGetActiveTlvs,
        fill: None,
        first: Some(Arg::At(Block::Tlvs)),
        second: None,
        read: Some(Block::Tlvs),
    }
}

pub fn request_active_tlvs() -> (r: Request)
    ensures
        r@ == ask_get_active_tlvs(),
{
    Request {
        call: OtCall::DatasetGetActiveTlvs,
        fill: Fill::Nothing,
        first: Some(Arg::At(Block::Tlvs)),
        second: None,
        read: Some(Block::Tlvs),
    }
}

/// The dataset in a block: as many bytes as the length says, 254 at most.
pub open spec fn block_tlvs(block: Seq<u8>) -> Seq<u8> {
    block.take(at_most(block[254] as int, 254))
}

/// Active dataset TLVs from CPU2, or the OpenThread error.
pub fn get_active_tlvs(value: u32, block: &[u8; 256]) -> (r: Result<heapless::Vec<u8, 254>, u32>)
    ensures
        r is Ok <==> value == 0,
        r is Ok ==> dataset_of(r->Ok_0) == block_tlvs(block@),
        r is Err ==> r->Err_0 == value,
{
    if value != 0 {
        return Err(value);
    }
    let len: usize = if block[254] < 254 {
        block[254] as usize
    } else {
        254
    };
    let mut v = no_dataset();
    let part = slice_subrange(block.as_slice(), 0, len);
    let _ = extend_dataset(&mut v, part);
    assert(dataset_of(v) =~= block_tlvs(block@));
    Ok(v)
}

// ---- ping ----

/// The configuration of the ping sender: source (16 bytes), destination (16),
/// reply and statistics callbacks, context, size, count, interval, timeout.
/// CPU2 forwards the callbacks as notifications when they are not null.
pub open spec fn ping_block(dst: Seq<u8>, count: u16, timeout_ms: u16) -> Seq<u8> {
    Seq::new(16, |i: int| 0u8) + dst + le32(1) + le32(1) + le32(0) + le16(0) + le16(count) + le32(
        1000,
    ) + le16(timeout_ms) + Seq::new(10, |i: int| 0u8)
}

/// The call that sends pings.
pub open spec fn ask_ping(dst: Seq<u8>, count: u16, timeout_ms: u16) -> Ask {
    Ask {
        call: OtCall::PingSenderPing,
        fill: Some((Block::Ping, ping_block(dst, count, timeout_ms))),
        first: Some(Arg::At(Block::Ping)),
        second: None,
        read: None,
    }
}

/// Send `count` pings; replies and statistics come back as notifications.
pub fn ping(dst: &[u8; 16], count: u16, timeout_ms: u16) -> (r: Request)
    ensures
        r@ == ask_ping(dst@, count, timeout_ms),
{
    let one = u32_bytes(1);
    let interval = u32_bytes(1000);
    let n = u16_bytes(count);
    let t = u16_bytes(timeout_ms);
    let mut c: [u8; 64] = [0; 64];
    let mut i: usize = 0;
    while i < 16
        invariant
            i <= 16,
            forall|k: int| 0 <= k < i ==> c@[16 + k] == dst@[k],
            forall|k: int| 0 <= k < 16 ==> c@[k] == 0,
            forall|k: int| 16 + i <= k < 64 ==> c@[k] == 0,
        decreases 16 - i,
    {
        c[16 + i] = dst[i];
        i = i + 1;
    }
    c[32] = one[0];
    c[33] = one[1];
    c[34] = one[2];
    c[35] = one[3];
    c[36] = one[0];
    c[37] = one[1];
    c[38] = one[2];
    c[39] = one[3];
    c[46] = n[0];
    c[47] = n[1];
    c[48] = interval[0];
    c[49] = interval[1];
    c[50] = interval[2];
    c[51] = interval[3];
    c[52] = t[0];
    c[53] = t[1];
    proof {
        let s = ping_block(dst@, count, timeout_ms);
        assert forall|k: int| 0 <= k < 64 implies c@[k] == s[k] by {
            if 16 <= k < 32 {
                assert(c@[16 + (k - 16)] == dst@[k - 16]);
            }
        }
        assert(c@ =~= s);
    }
    Request {
        call: OtCall::PingSenderPing,
        fill: Fill::Ping(c),
        first: Some(Arg::At(Block::Ping)),
        second: None,
        read: None,
    }
}

// ---- neighbors ----

/// A call that leaves a value in the iterator block, which may be filled
/// first.
pub open spec fn ask_iter(call: OtCall, fill: Option<Seq<u8>>) -> Ask {
    Ask {
        call,
        fill: match fill {
            Some(b) => Some((Block::Iter, b)),
            None => None,
        },
        first: Some(Arg::At(Block::Iter)),
        second: None,
        read: Some(Block::Iter),
    }
}

pub fn request_iter(call: OtCall, fill: Option<[u8; 4]>) -> (r: Request)
    ensures
        r@ == ask_iter(
            call,
            match fill {
                Some(b) => Some(b@),
                None => None,
            },
        ),
{
    Request {
        call,
        fill: match fill {
            Some(b) => Fill::Iter(b),
            None => Fill::Nothing,
        },
        first: Some(Arg::At(Block::Iter)),
        second: None,
        read: Some(Block::Iter),
    }
}

/// Four bytes of the same value.
pub open spec fn four(b: u8) -> Seq<u8> {
    seq![b, b, b, b]
}

/// The calls for the RSSI of the parent link: the average, then the last. The
/// block is cleared before the first.
pub fn parent_rssi() -> (r: (Request, Request))
    ensures
        r.0@ == ask_iter(OtCall::ThreadGetParentAverageRssi, Some(four(0))),
        r.1@ == ask_iter(OtCall::ThreadGetParentLastRssi, None),
{
    let zeros: [u8; 4] = [0; 4];
    assert(zeros@ =~= four(0));
    (
        request_iter(OtCall::ThreadGetParentAverageRssi, Some(zeros)),
        request_iter(OtCall::ThreadGetParentLastRssi, None),
    )
}

/// (average, last) RSSI of the parent link in dBm, for a child: what the two
/// calls left in the block, when both succeeded.
pub open spec fn rssi_pair(r1: u32, avg: u8, r2: u32, last: u8) -> Option<(int, int)> {
    if r1 == 0 && r2 == 0 {
        Some((signed8(avg), signed8(last)))
    } else {
        None
    }
}

pub fn parent_rssi_of(r1: u32, avg: u8, r2: u32, last: u8) -> (r: Option<(i8, i8)>)
    ensures
        r matches Some(p) ==> rssi_pair(r1, avg, r2, last) == Some((p.0 as int, p.1 as int)),
        r is None ==> rssi_pair(r1, avg, r2, last) is None,
{
    if r1 == 0 && r2 == 0 {
        Some((i8_of(avg), i8_of(last)))
    } else {
        None
    }
}

/// The call for the next neighbor; `restart` puts the iterator back to the
/// first.
pub open spec fn ask_next_neighbor(restart: bool) -> Ask {
    Ask {
        call: OtCall::ThreadGetNextNeighborInfo,
        fill: if restart {
            Some((Block::Iter, four(0)))
        } else {
            None
        },
        first: Some(Arg::At(Block::Iter)),
        second: Some(Arg::At(Block::Neighbor)),
        read: Some(Block::Neighbor),
    }
}

pub fn next_neighbor(restart: bool) -> (r: Request)
    ensures
        r@ == ask_next_neighbor(restart),
{
    let zeros: [u8; 4] = [0; 4];
    assert(zeros@ =~= four(0));
    Request {
        call: OtCall::ThreadGetNextNeighborInfo,
        fill: if restart {
            Fill::Iter(zeros)
        } else {
            Fill::Nothing
        },
        first: Some(Arg::At(Block::Iter)),
        second: Some(Arg::At(Block::Neighbor)),
        read: Some(Block::Neighbor),
    }
}

// ---- addresses ----

/// True when `p` points into SRAM CPU1 may read (SRAM1, SRAM2a, SRAM2b).
pub fn readable(p: u32) -> (r: bool)
    ensures
        r == (0x2000_0000 <= p < 0x2004_0000),
{
    0x2000_0000 <= p && p < 0x2004_0000
}

/// The leader's anycast address: mesh-local prefix + ::ff:fe00:fc00.
pub open spec fn aloc(prefix: Seq<u8>) -> Seq<u8> {
    prefix + seq![0u8, 0, 0, 0xff, 0xfe, 0, 0xfc, 0]
}

pub fn leader_aloc(prefix: &[u8; 8]) -> (a: [u8; 16])
    ensures
        a@ == aloc(prefix@),
{
    let a: [u8; 16] = [
        prefix[0],
        prefix[1],
        prefix[2],
        prefix[3],
        prefix[4],
        prefix[5],
        prefix[6],
        prefix[7],
        0,
        0,
        0,
        0xff,
        0xfe,
        0,
        0xfc,
        0,
    ];
    assert(a@ =~= aloc(prefix@));
    a
}

// ---- hexadecimal ----

/// The value of a hexadecimal digit.
pub open spec fn nibble(c: u8) -> Option<u8> {
    if 48 <= c <= 57 {
        Some((c - 48) as u8)
    } else if 97 <= c <= 102 {
        Some((c - 87) as u8)
    } else if 65 <= c <= 70 {
        Some((c - 55) as u8)
    } else {
        None
    }
}

pub fn hex_nibble(c: u8) -> (r: Option<u8>)
    ensures
        r == nibble(c),
{
    if 48 <= c && c <= 57 {
        Some(c - 48)
    } else if 97 <= c && c <= 102 {
        Some(c - 97 + 10)
    } else if 65 <= c && c <= 70 {
        Some(c - 65 + 10)
    } else {
        None
    }
}

/// The bytes that pairs of hexadecimal digits spell, up to the first pair that
/// is not one.
pub open spec fn hex_bytes(s: Seq<u8>) -> Seq<u8>
    decreases s.len(),
{
    if s.len() >= 2 && nibble(s[0]) is Some && nibble(s[1]) is Some {
        seq![(16 * nibble(s[0])->0 + nibble(s[1])->0) as u8] + hex_bytes(s.skip(2))
    } else {
        Seq::empty()
    }
}

/// A dataset spelled in hexadecimal.
pub struct HexBytes {
    pub bytes: [u8; 254],
    pub n: usize,
}

impl HexBytes {
    /// The bytes spelled.
    pub open spec fn spelled(&self) -> Seq<u8> {
        self.bytes@.take(self.n as int)
    }
}

/// Reads at most 254 bytes in hexadecimal.
pub fn parse_hex_bytes(hex: &[u8]) -> (r: HexBytes)
    ensures
        r.n <= 254,
        r.spelled() == hex_bytes(hex@).take(at_most(hex_bytes(hex@).len() as int, 254)),
{
    let mut bytes: [u8; 254] = [0; 254];
    let mut n: usize = 0;
    let ghost all = hex_bytes(hex@);
    assert(hex@.skip(0) =~= hex@);
    assert(Seq::<u8>::empty() + all =~= all);
    assert(bytes@.take(0) =~= Seq::<u8>::empty());
    loop
        invariant
            n <= 254,
            2 * n <= hex@.len(),
            all == hex_bytes(hex@),
            all == bytes@.take(n as int) + hex_bytes(hex@.skip(2 * n)),
        ensures
            n == 254 || hex_bytes(hex@.skip(2 * n)).len() == 0,
        decreases 254 - n,
    {
        let ghost s = hex@.skip(2 * n);
        if n >= 254 || hex.len() - 2 * n < 2 {
            break ;
        }
        assert(s[0] == hex@[2 * n] && s[1] == hex@[2 * n + 1]);
        match (hex_nibble(hex[2 * n]), hex_nibble(hex[2 * n + 1])) {
            (Some(a), Some(b)) => {
                let ghost before = bytes@.take(n as int);
                let ghost x = (16 * a + b) as u8;
                bytes[n] = 16 * a + b;
                proof {
                    assert(s.skip(2) =~= hex@.skip(2 * (n + 1)));
                    assert(bytes@.take(n + 1) =~= before + seq![x]);
                    assert(before + (seq![x] + hex_bytes(s.skip(2))) =~= before + seq![x]
                        + hex_bytes(s.skip(2)));
                }
                n = n + 1;
            },
            _ => {
                break ;
            },
        }
    }
    let r = HexBytes { bytes, n };
    assert(r.spelled() =~= all.take(at_most(all.len() as int, 254)));
    r
}

// ---- laws ----

/// The ping sender block, field by field: the destination; both callbacks asked
/// for, so that CPU2 forwards replies and statistics; the count, an interval of
/// one second and the timeout; and zeros in everything else.
pub proof fn law_ping_block(dst: Seq<u8>, count: u16, timeout_ms: u16)
    requires
        dst.len() == 16,
    ensures
        ({
            let b = ping_block(dst, count, timeout_ms);
            &&& b.len() == 64
            &&& b.subrange(16, 32) == dst
            &&& b[32] + 0x100 * b[33] + 0x1_0000 * b[34] + 0x100_0000 * b[35] != 0
            &&& b[36] + 0x100 * b[37] + 0x1_0000 * b[38] + 0x100_0000 * b[39] != 0
            &&& b[46] + 0x100 * b[47] == count
            &&& b[48] + 0x100 * b[49] + 0x1_0000 * b[50] + 0x100_0000 * b[51] == 1000
            &&& b[52] + 0x100 * b[53] == timeout_ms
            &&& forall|k: int|
                0 <= k < 16 || 40 <= k < 46 || 54 <= k < 64 ==> #[trigger] b[k] == 0
        }),
        ask_ping(dst, count, timeout_ms) == (Ask {
            call: OtCall::PingSenderPing,
            fill: Some((Block::Ping, ping_block(dst, count, timeout_ms))),
            first: Some(Arg::At(Block::Ping)),
            second: None,
            read: None,
        }),
{
    let b = ping_block(dst, count, timeout_ms);
    assert(b.subrange(16, 32) =~= dst);
}

/// A dataset in its block: its bytes first, its length at byte 254, and zeros in
/// everything else; of more than 254 bytes, the first 254.
pub proof fn law_dataset_block(tlvs: Seq<u8>, k: int)
    requires
        0 <= k < 256,
    ensures
        tlvs_block(tlvs).len() == 256,
        tlvs_block(tlvs)[k] == (if k < 254 && k < tlvs.len() {
            tlvs[k]
        } else if k == 254 && tlvs.len() <= 254 {
            tlvs.len() as u8
        } else if k == 254 {
            254u8
        } else {
            0u8
        }),
{
}

/// The dataset read from a block is as many of its bytes as byte 254 says, and
/// never more than there are.
pub proof fn law_dataset_read(block: Seq<u8>, k: int)
    requires
        block.len() == 256,
    ensures
        block_tlvs(block).len() <= 254,
        block[254] <= 254 ==> block_tlvs(block).len() == block[254],
        block[254] == 255 ==> block_tlvs(block).len() == 254,
        0 <= k < block_tlvs(block).len() ==> block_tlvs(block)[k] == block[k],
{
}

/// The error names, each for one number: no two numbers share a name, but for
/// `error`, which stands for all that have none.
pub proof fn law_errors_have_their_own_names(a: u32, b: u32)
    ensures
        err_text(a) == err_text(b) <==> a == b || (err_text(a) == "error"@ && err_text(b)
            == "error"@),
        err_text(a) == "error"@ <==> a == 9 || a == 10 || a == 15 || 17 <= a <= 22 || a >= 25,
        err_text(a) == "ok"@ <==> a == 0,
{
    lemma_error_names(a);
    lemma_error_names(b);
}

/// A number for each error name, made from its length and its first letters.
spec fn fingerprint(s: Seq<char>) -> int {
    s.len() * 0x100_0000 + (s[0] as u32) * 0x1_0000 + (if s.len() > 1 {
        (s[1] as u32) * 0x100
    } else {
        0
    }) + (if s.len() > 3 {
        s[3] as u32
    } else {
        0
    })
}

spec fn error_mark(e: u32) -> int {
    match e {
        0 => 1,
        1 => 2,
        2 => 3,
        3 => 4,
        4 => 5,
        5 => 6,
        6 => 7,
        7 => 8,
        8 => 9,
        11 => 10,
        12 => 11,
        13 => 12,
        14 => 13,
        16 => 14,
        23 => 15,
        24 => 16,
        _ => 0,
    }
}

spec fn mark_print(m: int) -> int {
    if m == 1 {
        fingerprint("ok"@)
    } else if m == 2 {
        fingerprint("failed"@)
    } else if m == 3 {
        fingerprint("drop"@)
    } else if m == 4 {
        fingerprint("no-bufs"@)
    } else if m == 5 {
        fingerprint("no-route"@)
    } else if m == 6 {
        fingerprint("busy"@)
    } else if m == 7 {
        fingerprint("parse"@)
    } else if m == 8 {
        fingerprint("invalid-args"@)
    } else if m == 9 {
        fingerprint("security"@)
    } else if m == 10 {
        fingerprint("abort"@)
    } else if m == 11 {
        fingerprint("not-implemented"@)
    } else if m == 12 {
        fingerprint("invalid-state"@)
    } else if m == 13 {
        fingerprint("no-ack"@)
    } else if m == 14 {
        fingerprint("detached"@)
    } else if m == 15 {
        fingerprint("not-found"@)
    } else if m == 16 {
        fingerprint("already"@)
    } else {
        fingerprint("error"@)
    }
}

proof fn lemma_error_names(e: u32)
    ensures
        fingerprint(err_text(e)) == mark_print(error_mark(e)),
        forall|m: int, n: int|
            0 <= m <= 16 && 0 <= n <= 16 && #[trigger] mark_print(m) == #[trigger] mark_print(n)
                ==> m == n,
        error_mark(e) == 0 ==> err_text(e) == "error"@,
        error_mark(e) != 0 ==> err_text(e) != "error"@,
        mark_print(1) == fingerprint("ok"@),
{
    reveal_strlit("ok");
    reveal_strlit("failed");
    reveal_strlit("drop");
    reveal_strlit("no-bufs");
    reveal_strlit("no-route");
    reveal_strlit("busy");
    reveal_strlit("parse");
    reveal_strlit("invalid-args");
    reveal_strlit("security");
    reveal_strlit("abort");
    reveal_strlit("not-implemented");
    reveal_strlit("invalid-state");
    reveal_strlit("no-ack");
    reveal_strlit("detached");
    reveal_strlit("not-found");
    reveal_strlit("already");
    reveal_strlit("error");
    assert(mark_print(error_mark(e)) == mark_print(0) ==> error_mark(e) == 0);
}

/// The role names, each for one number, and a question mark for all others.
pub proof fn law_roles_have_their_own_names(a: u32, b: u32)
    ensures
        role_text(a) == role_text(b) <==> a == b || (a > 4 && b > 4),
        role_text(a) == "?"@ <==> a > 4,
{
    reveal_strlit("disabled");
    reveal_strlit("detached");
    reveal_strlit("child");
    reveal_strlit("router");
    reveal_strlit("leader");
    reveal_strlit("?");
    assert("disabled"@[1] == 'i' && "detached"@[1] == 'e');
    assert("router"@[0] == 'r' && "leader"@[0] == 'l');
    assert("disabled"@.len() == 8 && "detached"@.len() == 8 && "child"@.len() == 5
        && "router"@.len() == 6 && "leader"@.len() == 6 && "?"@.len() == 1);
}

/// The leader's anycast address ends in ::ff:fe00:fc00 whatever the prefix.
pub proof fn law_leader_address(p: Seq<u8>, k: int)
    requires
        p.len() == 8,
        0 <= k < 4,
    ensures
        aloc(p).len() == 16,
        aloc(p).take(8) == p,
        0x100 * aloc(p)[8 + 2 * k] + aloc(p)[9 + 2 * k] == (if k == 0 {
            0int
        } else if k == 1 {
            0xff
        } else if k == 2 {
            0xfe00
        } else {
            0xfc00
        }),
{
    assert(aloc(p).take(8) =~= p);
}

/// Two signal strengths are told apart: the average first, the last second, and
/// only when both calls went well.
pub proof fn law_parent_strengths(r1: u32, avg: u8, r2: u32, last: u8)
    ensures
        rssi_pair(r1, avg, r2, last) is Some <==> r1 == 0 && r2 == 0,
        rssi_pair(r1, avg, r2, last) matches Some(p) ==> (p.0 - avg) % 256 == 0 && (p.1 - last)
            % 256 == 0 && -128 <= p.0 <= 127 && -128 <= p.1 <= 127,
{
}

} // verus!
