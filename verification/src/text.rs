//! Console text: fixed-capacity lines, the pieces that go into them, and the
//! digits of numbers.
//!
//! A line is a `heapless::String`. Appending to it is all or nothing: a piece
//! that does not fit leaves the line as it was. A formatted write is a run of
//! pieces that stops at the first one that does not fit, so a long line is cut
//! between two pieces, and a later write may still add a shorter one.

use vstd::prelude::*;
use vstd::utf8::encode_scalar;
use vstd::utf8::encode_utf8;

verus! {

/// `heapless::String`, opaque: its contents are named below.
#[verifier::external_type_specification]
#[verifier::external_body]
pub struct ExHeaplessString<const N: usize>(heapless::String<N>);

/// The characters in a console line.
pub uninterp spec fn line_text(s: heapless::String<224>) -> Seq<char>;

/// The characters in a command line.
pub uninterp spec fn command_text(s: heapless::String<512>) -> Seq<char>;

/// The characters in a heartbeat line.
pub uninterp spec fn beat_text(s: heapless::String<192>) -> Seq<char>;

/// A fixed-capacity string with named contents.
pub trait Text: Sized {
    /// The characters held.
    spec fn text(&self) -> Seq<char>;
}

impl Text for heapless::String<224> {
    open spec fn text(&self) -> Seq<char> {
        line_text(*self)
    }
}

impl Text for heapless::String<512> {
    open spec fn text(&self) -> Seq<char> {
        command_text(*self)
    }
}

impl Text for heapless::String<192> {
    open spec fn text(&self) -> Seq<char> {
        beat_text(*self)
    }
}

/// Bytes that `s` takes in UTF-8.
pub open spec fn byte_len(s: Seq<char>) -> nat {
    encode_utf8(s).len()
}

/// Whether `more` can follow `text` in `room` bytes.
pub open spec fn fits(text: Seq<char>, more: Seq<char>, room: nat) -> bool {
    byte_len(text) + byte_len(more) <= room
}

/// `heapless::String::new` at the size of a console line: an empty string.
#[verifier::external_body]
pub(crate) fn new_line() -> (s: heapless::String<224>)
    ensures
        line_text(s) == Seq::<char>::empty(),
{
    heapless::String::new()
}

/// `heapless::String::new` at the size of a command line: an empty string.
#[verifier::external_body]
pub(crate) fn new_command() -> (s: heapless::String<512>)
    ensures
        command_text(s) == Seq::<char>::empty(),
{
    heapless::String::new()
}

/// `heapless::String::new` at the size of a heartbeat line: an empty string.
#[verifier::external_body]
pub(crate) fn new_beat() -> (s: heapless::String<192>)
    ensures
        beat_text(s) == Seq::<char>::empty(),
{
    heapless::String::new()
}

/// `heapless::String::push_str`: appends `more` when its UTF-8 bytes fit in
/// what is left of the `N` bytes, and otherwise fails and changes nothing.
#[verifier::external_body]
pub(crate) fn push_str<const N: usize>(s: &mut heapless::String<N>, more: &str) -> (r: Result<
    (),
    (),
>) where heapless::String<N>: Text
    ensures
        r is Ok <==> fits(old(s).text(), more@, N as nat),
        final(s).text() == (if r is Ok {
            old(s).text() + more@
        } else {
            old(s).text()
        }),
{
    s.push_str(more)
}

/// `heapless::String::push`: appends one character when its UTF-8 bytes fit in
/// what is left of the `N` bytes, and otherwise fails and changes nothing.
#[verifier::external_body]
pub(crate) fn push<const N: usize>(s: &mut heapless::String<N>, c: char) -> (r: Result<(), ()>)
    where heapless::String<N>: Text
    ensures
        r is Ok <==> fits(old(s).text(), seq![c], N as nat),
        final(s).text() == (if r is Ok {
            old(s).text() + seq![c]
        } else {
            old(s).text()
        }),
{
    s.push(c)
}

/// `heapless::String::len`, by way of `str`: the number of UTF-8 bytes held.
#[verifier::external_body]
pub(crate) fn len<const N: usize>(s: &heapless::String<N>) -> (r: usize) where
    heapless::String<N>: Text
    ensures
        r == byte_len(s.text()),
{
    s.len()
}

/// `heapless::String::as_str`: the characters held.
#[verifier::external_body]
pub(crate) fn as_str<const N: usize>(s: &heapless::String<N>) -> (r: &str) where
    heapless::String<N>: Text
    ensures
        r@ == s.text(),
{
    s.as_str()
}

/// `heapless::String::clear`: leaves the string empty.
#[verifier::external_body]
pub(crate) fn clear<const N: usize>(s: &mut heapless::String<N>) where heapless::String<N>: Text
    ensures
        final(s).text() == Seq::<char>::empty(),
{
    s.clear()
}

// ---- pieces ----

/// A line under construction: what it holds, how many bytes it can hold, and
/// whether every piece of the current write has fitted so far.
pub struct Out {
    pub room: nat,
    pub text: Seq<char>,
    pub ok: bool,
}

impl Out {
    /// The next piece of a write: kept whole or not at all, and not at all
    /// once a piece of this write has been left out.
    #[verifier::opaque]
    pub open spec fn put(self, piece: Seq<char>) -> Out {
        if self.ok && fits(self.text, piece, self.room) {
            Out { text: self.text + piece, ..self }
        } else {
            Out { ok: false, ..self }
        }
    }

    /// The start of another write to the same line.
    pub open spec fn again(self) -> Out {
        Out { ok: true, ..self }
    }

    /// `n` zeros, a piece each.
    pub open spec fn zeros(self, n: nat) -> Out
        decreases n,
    {
        if n == 0 {
            self
        } else {
            self.zeros((n - 1) as nat).put(seq!['0'])
        }
    }

    /// A number in `base`, zero-padded on the left to `width` digits.
    #[verifier::opaque]
    pub open spec fn padded(self, v: nat, base: nat, width: nat) -> Out {
        let d = digits(v, base);
        if d.len() < width {
            self.zeros((width - d.len()) as nat).put(d)
        } else {
            self.put(d)
        }
    }

    /// A number in lower-case hexadecimal, zero-padded to `width` digits.
    pub open spec fn hex(self, v: nat, width: nat) -> Out {
        self.padded(v, 16, width)
    }

    /// A number in decimal.
    pub open spec fn dec(self, v: nat) -> Out {
        self.padded(v, 10, 0)
    }

    /// A number in decimal, zero-padded to `width` digits.
    pub open spec fn dec0(self, v: nat, width: nat) -> Out {
        self.padded(v, 10, width)
    }

    /// A signed number in decimal: the sign, when negative, is its own piece.
    pub open spec fn signed(self, v: int) -> Out {
        if v < 0 {
            self.put(seq!['-']).dec((-v) as nat)
        } else {
            self.dec(v as nat)
        }
    }

    /// `true` or `false`.
    pub open spec fn flag(self, b: bool) -> Out {
        self.put(if b { "true"@ } else { "false"@ })
    }
}

/// The line `l` under construction, `ok` telling whether the current write is
/// whole so far.
pub open spec fn wrote<const N: usize>(l: heapless::String<N>, ok: bool) -> Out where
    heapless::String<N>: Text
 {
    Out { room: N as nat, text: l.text(), ok }
}

/// An empty console line at the start of its first write.
pub open spec fn line() -> Out {
    Out { room: 224, text: Seq::empty(), ok: true }
}

/// The digit for `d`, lower case from ten up.
pub open spec fn digit(d: int) -> char {
    if d < 10 {
        (48 + d) as char
    } else {
        (87 + d) as char
    }
}

/// The digits of `v` in `base`, most significant first, without leading
/// zeros; zero is a single `0`.
pub open spec fn digits(v: nat, base: nat) -> Seq<char>
    decreases v,
{
    if base < 2 || v < base {
        seq![digit(v as int)]
    } else {
        proof {
            assert(v / base < v) by (nonlinear_arith)
                requires
                    2 <= base <= v,
            ;
        }
        digits(v / base, base).push(digit((v % base) as int))
    }
}

// ---- lemmas on bytes and digits ----

/// The bytes of two strings, one after the other.
pub proof fn lemma_bytes_of_join(a: Seq<char>, b: Seq<char>)
    ensures
        encode_utf8(a + b) == encode_utf8(a) + encode_utf8(b),
        byte_len(a + b) == byte_len(a) + byte_len(b),
    decreases a.len(),
{
    if a.len() == 0 {
        assert(a + b =~= b);
        assert(encode_utf8(a) =~= Seq::<u8>::empty());
    } else {
        lemma_bytes_of_join(a.drop_first(), b);
        assert((a + b).drop_first() =~= a.drop_first() + b);
        assert((a + b)[0] == a[0]);
        assert(encode_utf8(a + b) =~= encode_utf8(a) + encode_utf8(b));
    }
}

/// Whether every character of `s` is ASCII.
pub open spec fn ascii(s: Seq<char>) -> bool {
    forall|i: int| 0 <= i < s.len() ==> (#[trigger] s[i] as u32) < 128
}

/// An ASCII string takes a byte per character.
pub proof fn lemma_ascii_byte_len(s: Seq<char>)
    requires
        ascii(s),
    ensures
        byte_len(s) == s.len(),
    decreases s.len(),
{
    if s.len() > 0 {
        let t = s.drop_first();
        assert forall|i: int| 0 <= i < t.len() implies (#[trigger] t[i] as u32) < 128 by {
            assert(t[i] == s[i + 1]);
        }
        lemma_ascii_byte_len(t);
        assert((s[0] as u32) < 128);
        assert(encode_scalar(s[0] as u32).len() == 1);
    }
}

/// Digits are ASCII and there is at least one.
pub proof fn lemma_digits_ascii(v: nat, base: nat)
    requires
        2 <= base <= 16,
    ensures
        ascii(digits(v, base)),
        digits(v, base).len() >= 1,
        byte_len(digits(v, base)) == digits(v, base).len(),
    decreases v,
{
    if v >= base {
        assert(v / base < v) by (nonlinear_arith)
            requires
                2 <= base <= v,
        ;
        lemma_digits_ascii(v / base, base);
        assert(0 <= v % base < base) by (nonlinear_arith)
            requires
                2 <= base,
        ;
    }
    lemma_ascii_byte_len(digits(v, base));
}

// ---- writing pieces ----

/// The digit for `d`, lower case from ten up.
fn digit_char(d: u8) -> (c: char)
    requires
        d < 16,
    ensures
        c == digit(d as int),
{
    if d < 10 {
        (48 + d) as char
    } else {
        (87 + d) as char
    }
}

/// How many digits `v` has in `base`.
fn digit_count(v: u64, base: u64) -> (n: u64)
    requires
        2 <= base <= 16,
    ensures
        n == digits(v as nat, base as nat).len(),
{
    let mut n: u64 = 1;
    let mut rest: u64 = v;
    while rest >= base
        invariant
            2 <= base <= 16,
            1 <= n,
            n + rest <= v + 1,
            n - 1 + digits(rest as nat, base as nat).len() == digits(v as nat, base as nat).len(),
        decreases rest,
    {
        assert(rest / base < rest) by (nonlinear_arith)
            requires
                2 <= base <= rest,
        ;
        rest = rest / base;
        n = n + 1;
    }
    n
}

/// Appends the digits of `v`, which fit.
fn push_digits<const N: usize>(l: &mut heapless::String<N>, v: u64, base: u64) where
    heapless::String<N>: Text
    requires
        2 <= base <= 16,
        fits(old(l).text(), digits(v as nat, base as nat), N as nat),
    ensures
        final(l).text() == old(l).text() + digits(v as nat, base as nat),
    decreases v,
{
    let ghost before = l.text();
    let ghost d = digits(v as nat, base as nat);
    proof {
        lemma_digits_ascii(v as nat, base as nat);
    }
    if v >= base {
        assert(v / base < v && 0 <= v % base < base) by (nonlinear_arith)
            requires
                2 <= base <= v,
        ;
        proof {
            lemma_digits_ascii((v / base) as nat, base as nat);
        }
        push_digits(l, v / base, base);
        let c = digit_char((v % base) as u8);
        proof {
            lemma_bytes_of_join(before, digits((v / base) as nat, base as nat));
            lemma_ascii_byte_len(seq![c]);
        }
        let _ = push(l, c);
        assert(l.text() =~= before + d);
    } else {
        let _ = push(l, digit_char(v as u8));
        assert(d =~= seq![digit(v as int)]);
    }
}

/// One piece of a write; the result tells whether the write is whole so far.
pub fn put<const N: usize>(l: &mut heapless::String<N>, ok: bool, piece: &str) -> (r: bool) where
    heapless::String<N>: Text
    ensures
        wrote(*final(l), r) == wrote(*old(l), ok).put(piece@),
{
    proof {
        reveal(Out::put);
    }
    if ok {
        match push_str(l, piece) {
            Ok(_) => true,
            Err(_) => false,
        }
    } else {
        false
    }
}

/// One character as a piece of a write.
pub fn put_char<const N: usize>(l: &mut heapless::String<N>, ok: bool, c: char) -> (r: bool) where
    heapless::String<N>: Text
    ensures
        wrote(*final(l), r) == wrote(*old(l), ok).put(seq![c]),
{
    proof {
        reveal(Out::put);
    }
    if ok {
        match push(l, c) {
            Ok(_) => true,
            Err(_) => false,
        }
    } else {
        false
    }
}

/// A number in `base`, zero-padded on the left to `width` digits.
pub fn put_padded<const N: usize>(
    l: &mut heapless::String<N>,
    ok: bool,
    v: u64,
    base: u64,
    width: u64,
) -> (r: bool) where heapless::String<N>: Text
    requires
        2 <= base <= 16,
    ensures
        wrote(*final(l), r) == wrote(*old(l), ok).padded(v as nat, base as nat, width as nat),
{
    let ghost start = wrote(*l, ok);
    proof {
        reveal(Out::put);
        reveal(Out::padded);
    }
    let n = digit_count(v, base);
    let mut w: bool = ok;
    let mut z: u64 = 0;
    while n < width && z < width - n
        invariant
            wrote(*l, w) == start.zeros(z as nat),
            n < width ==> z <= width - n,
            n >= width ==> z == 0,
        decreases width - z,
    {
        w = put_char(l, w, '0');
        z = z + 1;
    }
    if !w {
        return false;
    }
    let used = len(l);
    proof {
        lemma_digits_ascii(v as nat, base as nat);
    }
    if n <= N as u64 && used as u64 <= N as u64 - n {
        push_digits(l, v, base);
        true
    } else {
        false
    }
}

/// A number in lower-case hexadecimal, zero-padded to `width` digits.
pub fn put_hex<const N: usize>(l: &mut heapless::String<N>, ok: bool, v: u32, width: u64) -> (r: bool)
    where heapless::String<N>: Text
    ensures
        wrote(*final(l), r) == wrote(*old(l), ok).hex(v as nat, width as nat),
{
    put_padded(l, ok, v as u64, 16, width)
}

/// A number in decimal.
pub fn put_dec<const N: usize>(l: &mut heapless::String<N>, ok: bool, v: u64) -> (r: bool) where
    heapless::String<N>: Text
    ensures
        wrote(*final(l), r) == wrote(*old(l), ok).dec(v as nat),
{
    put_padded(l, ok, v, 10, 0)
}

/// A number in decimal, zero-padded to `width` digits.
pub fn put_dec0<const N: usize>(l: &mut heapless::String<N>, ok: bool, v: u64, width: u64) -> (r: bool)
    where heapless::String<N>: Text
    ensures
        wrote(*final(l), r) == wrote(*old(l), ok).dec0(v as nat, width as nat),
{
    put_padded(l, ok, v, 10, width)
}

/// A signed number in decimal.
pub fn put_signed<const N: usize>(l: &mut heapless::String<N>, ok: bool, v: i8) -> (r: bool) where
    heapless::String<N>: Text
    ensures
        wrote(*final(l), r) == wrote(*old(l), ok).signed(v as int),
{
    let wide: i64 = v as i64;
    if wide < 0 {
        let w = put_char(l, ok, '-');
        put_dec(l, w, (-wide) as u64)
    } else {
        put_dec(l, ok, wide as u64)
    }
}

/// `true` or `false`.
pub fn put_flag<const N: usize>(l: &mut heapless::String<N>, ok: bool, b: bool) -> (r: bool) where
    heapless::String<N>: Text
    ensures
        wrote(*final(l), r) == wrote(*old(l), ok).flag(b),
{
    if b {
        put(l, ok, "true")
    } else {
        put(l, ok, "false")
    }
}

// ---- what to print ----

/// What to print, one text after the other.
pub enum Say {
    Nothing,
    Fixed(&'static str),
    Line(heapless::String<224>),
    /// A line, and a fixed text after it.
    Then(heapless::String<224>, &'static str),
    Two(heapless::String<224>, heapless::String<224>),
    Long(heapless::String<224>, heapless::String<512>),
}

impl View for Say {
    type V = Seq<Seq<char>>;

    open spec fn view(&self) -> Seq<Seq<char>> {
        match *self {
            Say::Nothing => Seq::empty(),
            Say::Fixed(s) => seq![s@],
            Say::Line(l) => seq![l.text()],
            Say::Then(l, s) => seq![l.text(), s@],
            Say::Two(a, b) => seq![a.text(), b.text()],
            Say::Long(a, b) => seq![a.text(), b.text()],
        }
    }
}

/// A run of texts, one after the other.
pub open spec fn run_on(texts: Seq<Seq<char>>) -> Seq<char>
    decreases texts.len(),
{
    if texts.len() == 0 {
        Seq::empty()
    } else {
        texts[0] + run_on(texts.drop_first())
    }
}

} // verus!
