//! Persistent configuration in the last 4 KB page of the app's flash region:
//! the Thread operational dataset and an autostart flag, so that a board
//! rejoins its network by itself at power-up.

use vstd::prelude::*;
use vstd::slice::slice_subrange;
use crate::bytes::from_le32;
use crate::bytes::le32;
use crate::bytes::lemma_le32_back;
use crate::bytes::lemma_le32_only;
use crate::bytes::u32_bytes;
use crate::bytes::u32_le;
use crate::flash::FlashOp;
use crate::flash::Stage;
use crate::words::word;

verus! {

/// Offset of the page from the start of flash.
pub const PAGE_OFFSET: u32 = 0x3F000;

/// Address of the page.
pub const PAGE_ADDR: u32 = 0x0803_F000;

/// First word of a stored configuration, "SBCF".
pub const MAGIC: u32 = 0x5342_4346;

/// Second word of a stored configuration.
pub const VERSION: u32 = 1;

/// Join the network at power-up.
pub const FLAG_AUTOSTART: u32 = 1;

/// Energise the relay coil while running, as a load that keeps USB power banks
/// from switching off.
pub const FLAG_KEEPALIVE: u32 = 2;

/// A configuration: four words and the dataset, in the order in which they lie
/// in flash.
#[derive(Clone, Copy)]
pub struct Config {
    pub magic: u32,
    pub version: u32,
    pub flags: u32,
    pub dataset_len: u32,
    pub dataset: [u8; 256],
}

/// The lesser of two numbers.
pub open spec fn at_most(n: int, limit: int) -> int {
    if n < limit {
        n
    } else {
        limit
    }
}

/// A value of a dataset with its type and length in front.
pub open spec fn tlv(ty: u8, v: Seq<u8>) -> Seq<u8> {
    seq![ty, v.len() as u8] + v
}

/// The value of the first Mesh-Local Prefix entry (type 7, eight bytes) of a
/// dataset, walking it entry by entry.
pub open spec fn find_prefix(t: Seq<u8>) -> Option<Seq<u8>>
    decreases t.len(),
{
    if t.len() < 2 {
        None
    } else if t[0] == 7 && t[1] == 8 && t.len() >= 10 {
        Some(t.subrange(2, 10))
    } else if 2 + t[1] <= t.len() {
        find_prefix(t.skip(2 + t[1]))
    } else {
        None
    }
}

/// The flags with the keep-alive bit set or cleared and the others kept.
pub open spec fn keepalive_flags(flags: u32, on: bool) -> u32 {
    if on {
        flags | FLAG_KEEPALIVE
    } else {
        flags & !FLAG_KEEPALIVE
    }
}

/// What a configuration made from `tlvs` holds: at most 254 bytes of them, and
/// the value of erased flash in the rest of the dataset.
pub open spec fn fresh(tlvs: Seq<u8>, flags: u32) -> Stored {
    let n = at_most(tlvs.len() as int, 254);
    Stored {
        flags: flags as int,
        dataset_len: n,
        dataset: tlvs.take(n) + Seq::new((256 - n) as nat, |i: int| 0xffu8),
    }
}

/// What 272 bytes of flash hold, if it is a configuration.
pub open spec fn stored(page: Seq<u8>) -> Option<Stored> {
    let word = |i: int| from_le32(page[i], page[i + 1], page[i + 2], page[i + 3]);
    if word(0) == MAGIC && word(4) == VERSION && word(12) <= 254 {
        Some(
            Stored { flags: word(8), dataset_len: word(12), dataset: page.subrange(16, 272) },
        )
    } else {
        None
    }
}

/// The contents of a stored configuration.
pub ghost struct Stored {
    pub flags: int,
    pub dataset_len: int,
    pub dataset: Seq<u8>,
}

impl Config {
    /// Marked as a configuration of this version, with a length in bounds.
    pub open spec fn valid(self) -> bool {
        &&& self.magic == MAGIC
        &&& self.version == VERSION
        &&& self.dataset_len <= 254
    }

    /// The dataset in use.
    pub open spec fn used(self) -> Seq<u8> {
        self.dataset@.take(at_most(self.dataset_len as int, 254))
    }

    /// The contents apart from the two marks.
    pub open spec fn contents(self) -> Stored {
        Stored {
            flags: self.flags as int,
            dataset_len: self.dataset_len as int,
            dataset: self.dataset@,
        }
    }

    /// The bytes as they lie in flash.
    pub open spec fn image(self) -> Seq<u8> {
        le32(self.magic) + le32(self.version) + le32(self.flags) + le32(self.dataset_len)
            + self.dataset@
    }

    /// A configuration with at most 254 bytes of `tlvs`; the rest of the
    /// dataset keeps the value of erased flash.
    pub fn new(tlvs: &[u8], flags: u32) -> (r: Self)
        ensures
            r.valid(),
            r.contents() == fresh(tlvs@, flags),
            r.used() == tlvs@.take(at_most(tlvs@.len() as int, 254)),
    {
        let n: usize = if tlvs.len() < 254 {
            tlvs.len()
        } else {
            254
        };
        let mut dataset: [u8; 256] = [0xff; 256];
        let mut i: usize = 0;
        while i < n
            invariant
                i <= n <= 254,
                n <= tlvs@.len(),
                forall|k: int| 0 <= k < i ==> dataset@[k] == tlvs@[k],
                forall|k: int| i <= k < 256 ==> dataset@[k] == 0xff,
            decreases n - i,
        {
            dataset[i] = tlvs[i];
            i = i + 1;
        }
        let r = Config {
            magic: MAGIC,
            version: VERSION,
            flags,
            dataset_len: n as u32,
            dataset,
        };
        assert(r.used() =~= tlvs@.take(n as int));
        assert(r.dataset@ =~= fresh(tlvs@, flags).dataset);
        r
    }

    /// The dataset in use.
    pub fn tlvs(&self) -> (r: &[u8])
        ensures
            r@ == self.used(),
    {
        let n: usize = if self.dataset_len < 254 {
            self.dataset_len as usize
        } else {
            254
        };
        let r = slice_subrange(self.dataset.as_slice(), 0, n);
        assert(r@ =~= self.used());
        r
    }

    /// Whether to join the network at power-up.
    pub fn autostart(&self) -> (r: bool)
        ensures
            r == (self.flags & FLAG_AUTOSTART != 0),
            r == (self.flags % 2 == 1),
    {
        let f = self.flags;
        assert((f & 1u32 != 0) == (f % 2 == 1)) by (bit_vector);
        self.flags & FLAG_AUTOSTART != 0
    }

    /// Whether to energise the relay while running.
    pub fn keepalive(&self) -> (r: bool)
        ensures
            r == (self.flags & FLAG_KEEPALIVE != 0),
            r == (self.flags / 2 % 2 == 1),
    {
        let f = self.flags;
        assert((f & 2u32 != 0) == (f / 2 % 2 == 1)) by (bit_vector);
        self.flags & FLAG_KEEPALIVE != 0
    }

    /// Mesh-Local Prefix TLV (type 7) from the dataset.
    pub fn mesh_local_prefix(&self) -> (r: Option<[u8; 8]>)
        ensures
            r is Some <==> find_prefix(self.used()) is Some,
            r is Some ==> r->0@ == find_prefix(self.used())->0,
    {
        let t = self.tlvs();
        let mut i: usize = 0;
        assert(t@.skip(0) =~= t@);
        while i + 2 <= t.len()
            invariant
                t@ == self.used(),
                t@.len() <= 254,
                i <= t@.len() + 255,
                i <= t@.len() ==> find_prefix(t@) == find_prefix(t@.skip(i as int)),
                i > t@.len() ==> find_prefix(t@) is None,
            decreases t@.len() + 255 - i,
        {
            let ghost s = t@.skip(i as int);
            let ty = t[i];
            let n: usize = t[i + 1] as usize;
            assert(s[0] == ty && s[1] == t@[i + 1]);
            if ty == 7 && n == 8 && i + 2 + 8 <= t.len() {
                let mut p: [u8; 8] = [0; 8];
                let mut k: usize = 0;
                while k < 8
                    invariant
                        k <= 8,
                        i + 10 <= t@.len(),
                        t@.len() <= 254,
                        forall|j: int| 0 <= j < k ==> p@[j] == t@[i + 2 + j],
                    decreases 8 - k,
                {
                    p[k] = t[i + 2 + k];
                    k = k + 1;
                }
                assert(p@ =~= s.subrange(2, 10));
                return Some(p);
            }
            proof {
                if i + 2 + n <= t@.len() {
                    assert(s.skip(2 + s[1]) =~= t@.skip(i + 2 + n));
                }
            }
            i = i + 2 + n;
        }
        None
    }

    /// The same configuration with the keep-alive flag set or cleared.
    pub fn set_keepalive(&mut self, on: bool)
        ensures
            final(self).flags == keepalive_flags(old(self).flags, on),
            final(self).magic == old(self).magic,
            final(self).version == old(self).version,
            final(self).dataset_len == old(self).dataset_len,
            final(self).dataset == old(self).dataset,
    {
        if on {
            self.flags = self.flags | FLAG_KEEPALIVE;
        } else {
            self.flags = self.flags & !FLAG_KEEPALIVE;
        }
    }

    /// The bytes to put into flash.
    pub fn to_image(&self) -> (r: [u8; 272])
        ensures
            r@ == self.image(),
    {
        let a = u32_bytes(self.magic);
        let b = u32_bytes(self.version);
        let c = u32_bytes(self.flags);
        let d = u32_bytes(self.dataset_len);
        let mut r: [u8; 272] = [0; 272];
        let mut i: usize = 0;
        while i < 4
            invariant
                i <= 4,
                forall|k: int| 0 <= k < i ==> r@[k] == a@[k],
                forall|k: int| 0 <= k < i ==> r@[k + 4] == b@[k],
                forall|k: int| 0 <= k < i ==> r@[k + 8] == c@[k],
                forall|k: int| 0 <= k < i ==> r@[k + 12] == d@[k],
            decreases 4 - i,
        {
            r[i] = a[i];
            r[i + 4] = b[i];
            r[i + 8] = c[i];
            r[i + 12] = d[i];
            i = i + 1;
        }
        let mut j: usize = 0;
        while j < 256
            invariant
                j <= 256,
                forall|k: int| 0 <= k < 4 ==> r@[k] == a@[k],
                forall|k: int| 0 <= k < 4 ==> r@[k + 4] == b@[k],
                forall|k: int| 0 <= k < 4 ==> r@[k + 8] == c@[k],
                forall|k: int| 0 <= k < 4 ==> r@[k + 12] == d@[k],
                forall|k: int| 0 <= k < j ==> r@[k + 16] == self.dataset@[k],
            decreases 256 - j,
        {
            r[j + 16] = self.dataset[j];
            j = j + 1;
        }
        proof {
            let s = self.image();
            assert forall|k: int| 0 <= k < 272 implies r@[k] == s[k] by {
                if k < 4 {
                } else if k < 8 {
                    assert(r@[(k - 4) + 4] == b@[k - 4]);
                } else if k < 12 {
                    assert(r@[(k - 8) + 8] == c@[k - 8]);
                } else if k < 16 {
                    assert(r@[(k - 12) + 12] == d@[k - 12]);
                } else {
                    assert(r@[(k - 16) + 16] == self.dataset@[k - 16]);
                }
            }
            assert(r@ =~= s);
        }
        r
    }
}

/// The configuration in the given bytes of flash, if they hold one.
pub fn load(page: &[u8; 272]) -> (r: Option<Config>)
    ensures
        r is Some <==> stored(page@) is Some,
        r is Some ==> r->0.valid() && r->0.contents() == stored(page@)->0,
{
    let magic = u32_le(page[0], page[1], page[2], page[3]);
    let version = u32_le(page[4], page[5], page[6], page[7]);
    let flags = u32_le(page[8], page[9], page[10], page[11]);
    let dataset_len = u32_le(page[12], page[13], page[14], page[15]);
    let mut dataset: [u8; 256] = [0; 256];
    let mut j: usize = 0;
    while j < 256
        invariant
            j <= 256,
            forall|k: int| 0 <= k < j ==> dataset@[k] == page@[k + 16],
        decreases 256 - j,
    {
        dataset[j] = page[j + 16];
        j = j + 1;
    }
    assert(dataset@ =~= page@.subrange(16, 272));
    if magic == MAGIC && version == VERSION && dataset_len <= 254 {
        Some(Config { magic, version, flags, dataset_len, dataset })
    } else {
        None
    }
}

/// Starts storing a configuration: the page is erased, then the image
/// written.
pub fn save(cfg: &Config) -> (r: FlashOp)
    ensures
        r.stage == (Stage::TakeFlash { tries: 0 }),
        r.image is Some,
        r.image->0@ == cfg.image(),
{
    FlashOp { stage: Stage::TakeFlash { tries: 0 }, image: Some(cfg.to_image()) }
}

/// Starts erasing the page.
pub fn erase() -> (r: FlashOp)
    ensures
        r.stage == (Stage::TakeFlash { tries: 0 }),
        r.image is None,
{
    FlashOp { stage: Stage::TakeFlash { tries: 0 }, image: None }
}

// ---- laws ----

/// Reading back what was written gives the configuration that was written.
pub proof fn law_load_gives_back_what_was_saved(c: Config)
    requires
        c.valid(),
    ensures
        stored(c.image()) == Some(c.contents()),
{
    lemma_le32_back(c.magic);
    lemma_le32_back(c.version);
    lemma_le32_back(c.flags);
    lemma_le32_back(c.dataset_len);
    let s = c.image();
    assert(s.subrange(16, 272) =~= c.dataset@);
}

/// Erased flash holds no configuration.
pub proof fn law_erased_flash_holds_none(page: Seq<u8>)
    requires
        page.len() == 272,
        forall|i: int| 0 <= i < 272 ==> page[i] == 0xff,
    ensures
        stored(page) is None,
{
}

/// Setting or clearing keep-alive does just that: it is read back as set, and
/// autostart and all other flags stay as they were.
pub proof fn law_keepalive_flag(flags: u32, on: bool)
    ensures
        (keepalive_flags(flags, on) & FLAG_KEEPALIVE != 0) == on,
        keepalive_flags(flags, on) & FLAG_AUTOSTART == flags & FLAG_AUTOSTART,
        keepalive_flags(flags, on) & !FLAG_KEEPALIVE == flags & !FLAG_KEEPALIVE,
        FLAG_AUTOSTART == 1 && FLAG_KEEPALIVE == 2,
{
    assert((flags | 2u32) & !2u32 == flags & !2u32) by (bit_vector);
    assert((flags & !2u32) & !2u32 == flags & !2u32) by (bit_vector);
    assert((flags | 2u32) & 2u32 != 0) by (bit_vector);
    assert((flags & !2u32) & 2u32 == 0) by (bit_vector);
    assert((flags | 2u32) & 1u32 == flags & 1u32) by (bit_vector);
    assert((flags & !2u32) & 1u32 == flags & 1u32) by (bit_vector);
}

/// The prefix is found behind any other entries: an entry of another type or
/// length is stepped over whole.
pub proof fn law_prefix_found_past_other_entries(ty: u8, v: Seq<u8>, rest: Seq<u8>)
    requires
        v.len() <= 255,
    ensures
        find_prefix(tlv(ty, v) + rest) == (if ty == 7 && v.len() == 8 {
            Some(v)
        } else {
            find_prefix(rest)
        }),
{
    let t = tlv(ty, v) + rest;
    assert(t.skip(2 + v.len() as int) =~= rest);
    if v.len() == 8 {
        assert(t.subrange(2, 10) =~= v);
    }
}

/// The image, word by word: two marks that every image shares, the flags, the
/// length, and the dataset behind them.
pub proof fn law_image_layout(c: Config, k: int)
    requires
        c.valid(),
    ensures
        c.image().len() == 272,
        from_le32(c.image()[0], c.image()[1], c.image()[2], c.image()[3]) == 0x5342_4346,
        from_le32(c.image()[4], c.image()[5], c.image()[6], c.image()[7]) == 1,
        from_le32(c.image()[8], c.image()[9], c.image()[10], c.image()[11]) == c.flags,
        from_le32(c.image()[12], c.image()[13], c.image()[14], c.image()[15]) == c.dataset_len,
        0 <= k < 256 ==> c.image()[16 + k] == c.dataset@[k],
{
    lemma_le32_back(c.magic);
    lemma_le32_back(c.version);
    lemma_le32_back(c.flags);
    lemma_le32_back(c.dataset_len);
}

/// Whatever is taken for a configuration has the same eight bytes in front as
/// one that was stored, and a length that fits.
pub proof fn law_only_marked_pages_are_loaded(page: Seq<u8>, c: Config, k: int)
    requires
        page.len() == 272,
        c.valid(),
        stored(page) is Some,
        0 <= k < 8,
    ensures
        page[k] == c.image()[k],
        from_le32(page[12], page[13], page[14], page[15]) <= 254,
        stored(page)->0.dataset.len() == 256,
        stored(page)->0.dataset_len <= 254,
{
    lemma_le32_only(page[0], page[1], page[2], page[3], MAGIC);
    lemma_le32_only(page[4], page[5], page[6], page[7], VERSION);
    let front = le32(MAGIC) + le32(VERSION);
    assert(c.image().take(8) =~= front);
    assert(page.take(8) =~= front);
    assert(c.image()[k] == c.image().take(8)[k]);
    assert(page[k] == page.take(8)[k]);
}

/// A page with the right marks and a length that fits is loaded, as it is.
pub proof fn law_marked_pages_are_loaded(page: Seq<u8>, c: Config, k: int)
    requires
        page.len() == 272,
        c.valid(),
        forall|i: int| 0 <= i < 8 ==> #[trigger] page[i] == c.image()[i],
        from_le32(page[12], page[13], page[14], page[15]) <= 254,
        0 <= k < 256,
    ensures
        stored(page) matches Some(s) && s.flags == from_le32(page[8], page[9], page[10], page[11])
            && s.dataset_len == from_le32(page[12], page[13], page[14], page[15]) && s.dataset[k]
            == page[16 + k],
{
    lemma_le32_back(c.magic);
    lemma_le32_back(c.version);
    assert(page[0] == c.image()[0] && page[1] == c.image()[1] && page[2] == c.image()[2]
        && page[3] == c.image()[3] && page[4] == c.image()[4] && page[5] == c.image()[5]
        && page[6] == c.image()[6] && page[7] == c.image()[7]);
}

/// A new configuration holds its dataset, as much of it as fits, and nothing
/// else; the flags are those given.
pub proof fn law_new_config_holds_the_dataset(tlvs: Seq<u8>, flags: u32, c: Config, k: int)
    requires
        c.contents() == fresh(tlvs, flags),
        0 <= k < 256,
    ensures
        c.flags == flags,
        tlvs.len() <= 254 ==> c.used() == tlvs,
        tlvs.len() > 254 ==> c.used() == tlvs.take(254),
        c.dataset@[k] == (if k < tlvs.len() && k < 254 {
            tlvs[k]
        } else {
            0xffu8
        }),
{
    assert(tlvs.len() <= 254 ==> c.used() =~= tlvs);
    assert(tlvs.len() > 254 ==> c.used() =~= tlvs.take(254));
}

/// The prefix is eight bytes behind a type 7 and a length 8, and an entry that
/// is cut short holds none.
pub proof fn law_prefix_is_whole(t: Seq<u8>, v: Seq<u8>)
    requires
        v.len() < 8,
    ensures
        find_prefix(seq![7u8, 8u8] + v) is None,
        find_prefix(Seq::empty()) is None,
        find_prefix(t) matches Some(p) ==> p.len() == 8,
    decreases t.len(),
{
    if t.len() >= 2 && !(t[0] == 7 && t[1] == 8 && t.len() >= 10) && 2 + t[1] <= t.len() {
        law_prefix_is_whole(t.skip(2 + t[1]), v);
    }
}

} // verus!
