//! Words of a command line and the numbers in them.

use vstd::prelude::*;
use vstd::utf8::encode_utf8;
use vstd::utf8::encode_utf8_decode_utf8;
use crate::text::digit;
use crate::text::digits;

verus! {

// ---- white space ----

/// White space, as Unicode lists it.
pub open spec fn is_white(c: char) -> bool {
    let u = c as u32;
    ||| 9 <= u <= 13
    ||| u == 0x20
    ||| u == 0x85
    ||| u == 0xA0
    ||| u == 0x1680
    ||| 0x2000 <= u <= 0x200A
    ||| u == 0x2028
    ||| u == 0x2029
    ||| u == 0x202F
    ||| u == 0x205F
    ||| u == 0x3000
}

/// Whether `c` is white space.
pub fn white(c: char) -> (r: bool)
    ensures
        r == is_white(c),
{
    let u: u32 = c as u32;
    (9 <= u && u <= 13) || u == 0x20 || u == 0x85 || u == 0xA0 || u == 0x1680 || (0x2000 <= u && u
        <= 0x200A) || u == 0x2028 || u == 0x2029 || u == 0x202F || u == 0x205F || u == 0x3000
}

/// What keeps the parts of a string apart.
#[derive(Clone, Copy, PartialEq, Eq, Structural)]
pub enum Sep {
    White,
    Colon,
}

/// Whether `c` separates.
pub open spec fn separates(k: Sep, c: char) -> bool {
    match k {
        Sep::White => is_white(c),
        Sep::Colon => c == ':',
    }
}

/// Whether `c` separates.
fn separator(k: Sep, c: char) -> (r: bool)
    ensures
        r == separates(k, c),
{
    match k {
        Sep::White => white(c),
        Sep::Colon => c == ':',
    }
}

/// How many characters at the start of `s` separate.
pub open spec fn sep_prefix(k: Sep, s: Seq<char>) -> nat
    decreases s.len(),
{
    if s.len() > 0 && separates(k, s[0]) {
        1 + sep_prefix(k, s.drop_first())
    } else {
        0
    }
}

/// How many characters at the start of `s` do not separate.
pub open spec fn run_prefix(k: Sep, s: Seq<char>) -> nat
    decreases s.len(),
{
    if s.len() > 0 && !separates(k, s[0]) {
        1 + run_prefix(k, s.drop_first())
    } else {
        0
    }
}

/// The longest runs of characters of `s` that do not separate.
pub open spec fn runs(k: Sep, s: Seq<char>) -> Seq<Seq<char>>
    decreases s.len(),
{
    let n = sep_prefix(k, s);
    let t = s.skip(n as int);
    let m = run_prefix(k, t);
    if n <= s.len() && 0 < m <= t.len() {
        seq![t.take(m as int)] + runs(k, t.skip(m as int))
    } else {
        Seq::empty()
    }
}

/// The words of `s`: its longest runs of characters that are not white space.
pub open spec fn words(s: Seq<char>) -> Seq<Seq<char>> {
    runs(Sep::White, s)
}

/// The word number `i` of `s`, if there are that many.
pub open spec fn word(s: Seq<char>, i: int) -> Option<Seq<char>> {
    if 0 <= i < words(s).len() {
        Some(words(s)[i])
    } else {
        None
    }
}

/// `s` without the white space at its end.
pub open spec fn trim_end(s: Seq<char>) -> Seq<char>
    decreases s.len(),
{
    if s.len() > 0 && is_white(s.last()) {
        trim_end(s.drop_last())
    } else {
        s
    }
}

/// `s` without the white space at its start and its end.
pub open spec fn trimmed(s: Seq<char>) -> Seq<char> {
    trim_end(s.skip(sep_prefix(Sep::White, s) as int))
}

pub proof fn lemma_sep_prefix_is(k: Sep, s: Seq<char>, n: nat)
    requires
        n <= s.len(),
        forall|i: int| 0 <= i < n ==> separates(k, #[trigger] s[i]),
        n < s.len() ==> !separates(k, s[n as int]),
    ensures
        sep_prefix(k, s) == n,
    decreases s.len(),
{
    if n > 0 {
        let t = s.drop_first();
        assert(separates(k, s[0]));
        assert forall|i: int| 0 <= i < n - 1 implies separates(k, #[trigger] t[i]) by {
            assert(t[i] == s[i + 1]);
        }
        lemma_sep_prefix_is(k, t, (n - 1) as nat);
    }
}

pub proof fn lemma_run_prefix_is(k: Sep, s: Seq<char>, n: nat)
    requires
        n <= s.len(),
        forall|i: int| 0 <= i < n ==> !separates(k, #[trigger] s[i]),
        n < s.len() ==> separates(k, s[n as int]),
    ensures
        run_prefix(k, s) == n,
    decreases s.len(),
{
    if n > 0 {
        let t = s.drop_first();
        assert(!separates(k, s[0]));
        assert forall|i: int| 0 <= i < n - 1 implies !separates(k, #[trigger] t[i]) by {
            assert(t[i] == s[i + 1]);
        }
        lemma_run_prefix_is(k, t, (n - 1) as nat);
    }
}

/// No more characters separate than there are.
pub proof fn lemma_sep_prefix_bound(k: Sep, s: Seq<char>)
    ensures
        sep_prefix(k, s) <= s.len(),
    decreases s.len(),
{
    if s.len() > 0 && separates(k, s[0]) {
        lemma_sep_prefix_bound(k, s.drop_first());
    }
}

/// A run at the start of a string, up to a separator or the end, is its first.
pub proof fn lemma_first_run(k: Sep, w: Seq<char>, rest: Seq<char>)
    requires
        w.len() > 0,
        forall|i: int| 0 <= i < w.len() ==> !separates(k, #[trigger] w[i]),
        rest.len() > 0 ==> separates(k, rest[0]),
    ensures
        runs(k, w + rest) == seq![w] + runs(k, rest),
{
    let s = w + rest;
    assert(s[0] == w[0]);
    lemma_sep_prefix_is(k, s, 0);
    assert(s.skip(0) =~= s);
    assert forall|i: int| 0 <= i < w.len() implies !separates(k, #[trigger] s[i]) by {
        assert(s[i] == w[i]);
    }
    if rest.len() > 0 {
        assert(s[w.len() as int] == rest[0]);
    }
    lemma_run_prefix_is(k, s, w.len());
    assert(s.take(w.len() as int) =~= w);
    assert(s.skip(w.len() as int) =~= rest);
}

/// A separator at the start of a string adds nothing to its runs.
pub proof fn lemma_leading_separator(k: Sep, c: char, rest: Seq<char>)
    requires
        separates(k, c),
    ensures
        runs(k, seq![c] + rest) == runs(k, rest),
{
    let s = seq![c] + rest;
    assert(s.drop_first() =~= rest);
    let n = sep_prefix(k, rest);
    lemma_sep_prefix_bound(k, rest);
    assert(sep_prefix(k, s) == 1 + n);
    assert(s.skip(1 + n as int) =~= rest.skip(n as int));
    assert(rest.len() + 1 == s.len());
}

/// Nothing holds no runs.
pub proof fn lemma_no_runs(k: Sep)
    ensures
        runs(k, Seq::<char>::empty()) == Seq::<Seq<char>>::empty(),
{
    let s = Seq::<char>::empty();
    assert(s.skip(0) =~= s);
}

/// A string read part by part.
pub struct Parts<'a> {
    sep: Sep,
    rest: &'a str,
}

impl<'a> Parts<'a> {
    /// The parts still to come.
    pub closed spec fn left(&self) -> Seq<Seq<char>> {
        runs(self.sep, self.rest@)
    }

    /// How many characters are still to be read.
    pub closed spec fn size(&self) -> nat {
        self.rest@.len()
    }

    /// The parts of `s`, from the first.
    pub fn of(sep: Sep, s: &'a str) -> (r: Parts<'a>)
        ensures
            r.left() == runs(sep, s@),
    {
        Parts { sep, rest: s }
    }

    /// The words of `s`, from the first.
    pub fn words(s: &'a str) -> (r: Parts<'a>)
        ensures
            r.left() == words(s@),
    {
        Parts { sep: Sep::White, rest: s }
    }

    /// The next part, if there is one.
    pub fn next(&mut self) -> (r: Option<&'a str>)
        ensures
            old(self).left().len() == 0 ==> r is None && final(self).left() == old(self).left(),
            old(self).left().len() > 0 ==> r is Some && r->0@ == old(self).left()[0]
                && final(self).left() == old(self).left().drop_first() && final(self).size() < old(
                self,
            ).size(),
    {
        let sep = self.sep;
        let s: &'a str = self.rest;
        let n: usize = s.unicode_len();
        let mut i: usize = 0;
        while i < n && separator(sep, s.get_char(i))
            invariant
                n == s@.len(),
                i <= n,
                forall|k: int| 0 <= k < i ==> separates(sep, #[trigger] s@[k]),
            decreases n - i,
        {
            i = i + 1;
        }
        proof {
            lemma_sep_prefix_is(sep, s@, i as nat);
        }
        let ghost t = s@.skip(i as int);
        let mut j: usize = i;
        while j < n && !separator(sep, s.get_char(j))
            invariant
                n == s@.len(),
                i <= j <= n,
                forall|k: int| i <= k < j ==> !separates(sep, #[trigger] s@[k]),
            decreases n - j,
        {
            j = j + 1;
        }
        proof {
            assert forall|k: int| 0 <= k < j - i implies !separates(sep, #[trigger] t[k]) by {
                assert(t[k] == s@[i + k]);
            }
            if j < n {
                assert(t[j - i] == s@[j as int]);
            }
            lemma_run_prefix_is(sep, t, (j - i) as nat);
        }
        if i == j {
            return None;
        }
        let w: &'a str = s.substring_char(i, j);
        let rest: &'a str = s.substring_char(j, n);
        proof {
            assert(w@ =~= t.take(j - i));
            assert(rest@ =~= t.skip(j - i));
            assert(runs(sep, s@) =~= seq![w@] + runs(sep, rest@));
            assert(runs(sep, s@).drop_first() =~= runs(sep, rest@));
        }
        self.rest = rest;
        Some(w)
    }
}

/// `s` without the white space at its start and its end.
pub fn trim<'a>(s: &'a str) -> (r: &'a str)
    ensures
        r@ == trimmed(s@),
{
    let n: usize = s.unicode_len();
    let mut i: usize = 0;
    while i < n && white(s.get_char(i))
        invariant
            n == s@.len(),
            i <= n,
            forall|k: int| 0 <= k < i ==> separates(Sep::White, #[trigger] s@[k]),
        decreases n - i,
    {
        i = i + 1;
    }
    proof {
        lemma_sep_prefix_is(Sep::White, s@, i as nat);
    }
    let ghost t = s@.skip(i as int);
    let mut j: usize = n;
    assert(t.take(n - i) =~= t);
    while i < j && white(s.get_char(j - 1))
        invariant
            n == s@.len(),
            i <= j <= n,
            t == s@.skip(i as int),
            trim_end(t.take(j - i)) == trim_end(t),
        decreases j,
    {
        assert(t.take(j - i).last() == s@[j - 1]);
        assert(t.take(j - i).drop_last() =~= t.take(j - 1 - i));
        j = j - 1;
    }
    proof {
        if i < j {
            assert(t.take(j - i).last() == s@[j - 1]);
        }
        assert(t.take(j - i) =~= s@.subrange(i as int, j as int));
    }
    s.substring_char(i, j)
}

/// Whether two strings are the same.
pub fn same(a: &str, b: &str) -> (r: bool)
    ensures
        r == (a@ == b@),
{
    let x: &[u8] = a.as_bytes();
    let y: &[u8] = b.as_bytes();
    proof {
        encode_utf8_decode_utf8(a@);
        encode_utf8_decode_utf8(b@);
    }
    if x.len() != y.len() {
        return false;
    }
    let mut i: usize = 0;
    while i < x.len()
        invariant
            x@.len() == y@.len(),
            i <= x@.len(),
            forall|k: int| 0 <= k < i ==> x@[k] == y@[k],
            x@ == encode_utf8(a@),
            y@ == encode_utf8(b@),
        decreases x.len() - i,
    {
        if x[i] != y[i] {
            return false;
        }
        i = i + 1;
    }
    assert(x@ =~= y@);
    true
}

/// Whether an optional word is the given one.
pub fn is_word(w: Option<&str>, want: &str) -> (r: bool)
    ensures
        r == (w is Some && w->0@ == want@),
{
    match w {
        Some(s) => same(s, want),
        None => false,
    }
}

// ---- numbers ----

/// The value of a digit in `base`; letters of either case count from ten up.
pub open spec fn digit_value(c: char, base: nat) -> Option<nat> {
    let u = c as u32;
    let v: int = if 48 <= u <= 57 {
        u - 48
    } else if 97 <= u <= 122 {
        u - 87
    } else if 65 <= u <= 90 {
        u - 55
    } else {
        99
    };
    if v < base {
        Some(v as nat)
    } else {
        None
    }
}

/// The number that `s` spells in `base`, when all of it is digits.
pub open spec fn value(s: Seq<char>, base: nat) -> Option<nat>
    decreases s.len(),
{
    if s.len() == 0 {
        Some(0)
    } else {
        match (value(s.drop_last(), base), digit_value(s.last(), base)) {
            (Some(v), Some(d)) => Some(v * base + d),
            _ => None,
        }
    }
}

/// An unsigned number up to `max`: at least one digit, with an optional plus
/// sign in front.
pub open spec fn unsigned(s: Seq<char>, base: nat, max: nat) -> Option<nat> {
    let body = if s.len() > 0 && s[0] == '+' {
        s.skip(1)
    } else {
        s
    };
    match value(body, base) {
        Some(v) if body.len() > 0 && v <= max => Some(v),
        _ => None,
    }
}

/// A signed decimal number of eight bits: at least one digit, with an
/// optional sign in front.
pub open spec fn signed_byte(s: Seq<char>) -> Option<int> {
    if s.len() > 0 && s[0] == '-' {
        match value(s.skip(1), 10) {
            Some(v) if s.len() > 1 && v <= 128 => Some(-(v as int)),
            _ => None,
        }
    } else {
        match unsigned(s, 10, 127) {
            Some(v) => Some(v as int),
            None => None,
        }
    }
}

/// More digits never make a number smaller.
proof fn lemma_value_grows(s: Seq<char>, i: int, base: nat)
    requires
        0 <= i <= s.len(),
        1 <= base,
        value(s, base) is Some,
    ensures
        value(s.take(i), base) is Some,
        value(s.take(i), base)->0 <= value(s, base)->0,
    decreases s.len() - i,
{
    if i < s.len() {
        lemma_value_grows(s, i + 1, base);
        let t = s.take(i + 1);
        assert(t.drop_last() =~= s.take(i));
        let v = value(s.take(i), base)->0;
        assert(v <= v * base) by (nonlinear_arith)
            requires
                1 <= base,
        ;
    } else {
        assert(s.take(i) =~= s);
    }
}

/// The number spelled by the characters of `s` from `from` on, if there are
/// any, all of them are digits and the number is at most `max`.
fn parse_digits(s: &str, from: usize, base: u64, max: u64) -> (r: Option<u64>)
    requires
        from <= s@.len(),
        2 <= base <= 16,
        max <= 0xFFFF_FFFF,
    ensures
        ({
            let body = s@.skip(from as int);
            r == match value(body, base as nat) {
                Some(v) if body.len() > 0 && v <= max => Some(v as u64),
                _ => None,
            }
        }),
{
    let ghost body = s@.skip(from as int);
    let n: usize = s.unicode_len();
    if from == n {
        return None;
    }
    let mut acc: u64 = 0;
    let mut i: usize = from;
    assert(body.take(0) =~= Seq::<char>::empty());
    while i < n
        invariant
            n == s@.len(),
            from <= i <= n,
            body == s@.skip(from as int),
            2 <= base <= 16,
            acc <= max <= 0xFFFF_FFFF,
            value(body.take(i - from), base as nat) == Some(acc as nat),
        decreases n - i,
    {
        let c: char = s.get_char(i);
        let u: u32 = c as u32;
        let d: u64 = if 48 <= u && u <= 57 {
            u as u64 - 48
        } else if 97 <= u && u <= 122 {
            u as u64 - 87
        } else if 65 <= u && u <= 90 {
            u as u64 - 55
        } else {
            99
        };
        proof {
            let t = body.take(i + 1 - from);
            assert(t.drop_last() =~= body.take(i - from));
            assert(t.last() == c);
            if value(body, base as nat) is Some {
                lemma_value_grows(body, i + 1 - from, base as nat);
            }
        }
        if d >= base {
            return None;
        }
        assert(acc * base + d <= 0xFFFF_FFFF * 16 + 16) by (nonlinear_arith)
            requires
                0 <= acc <= 0xFFFF_FFFF,
                2 <= base <= 16,
                d < base,
        ;
        assert(0 <= acc * base) by (nonlinear_arith)
            requires
                0 <= acc,
                2 <= base,
        ;
        let next: u64 = acc * base + d;
        if next > max {
            return None;
        }
        acc = next;
        i = i + 1;
    }
    assert(body.take(n - from) =~= body);
    Some(acc)
}

/// Reads an unsigned number up to `max`.
pub fn parse_unsigned(s: &str, base: u64, max: u64) -> (r: Option<u64>)
    requires
        2 <= base <= 16,
        max <= 0xFFFF_FFFF,
    ensures
        r == match unsigned(s@, base as nat, max as nat) {
            Some(v) => Some(v as u64),
            None => None,
        },
{
    let n: usize = s.unicode_len();
    assert(s@.skip(0) =~= s@);
    if n > 0 && s.get_char(0) == '+' {
        parse_digits(s, 1, base, max)
    } else {
        parse_digits(s, 0, base, max)
    }
}

/// Reads a signed decimal number of eight bits.
pub fn parse_signed_byte(s: &str) -> (r: Option<i8>)
    ensures
        r == match signed_byte(s@) {
            Some(v) => Some(v as i8),
            None => None,
        },
{
    let n: usize = s.unicode_len();
    if n > 0 && s.get_char(0) == '-' {
        match parse_digits(s, 1, 10, 128) {
            Some(v) => {
                let m: i64 = -(v as i64);
                Some(m as i8)
            },
            None => None,
        }
    } else {
        match parse_unsigned(s, 10, 127) {
            Some(v) => Some(v as i8),
            None => None,
        }
    }
}

// ---- laws ----

/// What a digit stands for is what it was made from.
proof fn lemma_digit_back(d: int, base: nat)
    requires
        0 <= d < base <= 16,
    ensures
        digit_value(digit(d), base) == Some(d as nat),
        digit(d) != '+',
        digit(d) != '-',
        digit(d) != ':',
        !is_white(digit(d)),
{
}

/// Every digit of a number is a plain character: neither a sign nor a colon
/// nor white space.
pub proof fn lemma_digits_plain(v: nat, base: nat)
    requires
        2 <= base <= 16,
    ensures
        digits(v, base).len() > 0,
        forall|i: int|
            0 <= i < digits(v, base).len() ==> {
                let c = #[trigger] digits(v, base)[i];
                c != '+' && c != '-' && c != ':' && !is_white(c)
            },
    decreases v,
{
    if v < base {
        lemma_digit_back(v as int, base);
    } else {
        assert(v / base < v && 0 <= v % base < base) by (nonlinear_arith)
            requires
                2 <= base <= v,
        ;
        lemma_digits_plain(v / base, base);
        lemma_digit_back((v % base) as int, base);
    }
}

/// A number written out is read back.
pub proof fn law_number_read_back(v: nat, base: nat, max: nat)
    requires
        2 <= base <= 16,
        v <= max,
    ensures
        value(digits(v, base), base) == Some(v),
        unsigned(digits(v, base), base, max) == Some(v),
    decreases v,
{
    let d = digits(v, base);
    lemma_digits_plain(v, base);
    if v < base {
        lemma_digit_back(v as int, base);
        assert(d.drop_last() =~= Seq::<char>::empty());
        assert(value(d.drop_last(), base) == Some(0nat));
        assert(d.last() == digit(v as int));
        assert(0nat * base == 0) by (nonlinear_arith);
    } else {
        assert(v / base < v && 0 <= v % base < base && v == (v / base) * base + v % base)
            by (nonlinear_arith)
            requires
                2 <= base <= v,
        ;
        law_number_read_back(v / base, base, max);
        lemma_digit_back((v % base) as int, base);
        assert(d.drop_last() =~= digits(v / base, base));
        assert(value(d.drop_last(), base) == Some(v / base));
        assert(d.last() == digit((v % base) as int));
    }
}

/// Letters count alike in either case, from ten up; digits count from zero; and
/// nothing else is a digit.
pub proof fn law_digits_in_either_case(k: u32, c: char, base: nat)
    requires
        base <= 36,
    ensures
        k < 10 && k < base ==> digit_value((48 + k) as char, base) == Some(k as nat),
        k < 26 && 10 + k < base ==> digit_value((97 + k) as char, base) == Some((10 + k) as nat),
        k < 26 && 10 + k < base ==> digit_value((65 + k) as char, base) == Some((10 + k) as nat),
        digit_value(c, base) matches Some(v) ==> v < base && (c as u32 == 48 + v || c as u32 == 87
            + v || c as u32 == 55 + v) && (v >= 10 <==> c as u32 > 57),
{
}

/// A number with one more digit behind it is `base` times as much and the digit.
pub proof fn law_digits_weigh_by_place(s: Seq<char>, c: char, base: nat)
    ensures
        value(s.push(c), base) == (match (value(s, base), digit_value(c, base)) {
            (Some(v), Some(d)) => Some((v * base + d) as nat),
            _ => None,
        }),
        value(Seq::empty(), base) == Some(0nat),
{
    assert(s.push(c).drop_last() =~= s);
}

/// Leading zeros do not change a number.
pub proof fn law_leading_zero(s: Seq<char>, base: nat)
    requires
        2 <= base <= 36,
    ensures
        value(seq!['0'] + s, base) == value(s, base),
    decreases s.len(),
{
    let t = seq!['0'] + s;
    if s.len() == 0 {
        assert(t.drop_last() =~= Seq::<char>::empty());
        assert(t.last() == '0');
        assert(value(t.drop_last(), base) == Some(0nat));
        assert(0nat * base == 0) by (nonlinear_arith);
    } else {
        law_leading_zero(s.drop_last(), base);
        assert(t.drop_last() =~= seq!['0'] + s.drop_last());
        assert(t.last() == s.last());
    }
}

/// An unsigned number is read exactly when there is one, up to the limit; one
/// plus sign in front changes nothing, and a minus sign is no digit.
pub proof fn law_unsigned_numbers(s: Seq<char>, base: nat, max: nat)
    requires
        2 <= base <= 36,
    ensures
        s.len() > 0 && s[0] != '+' ==> unsigned(s, base, max) == (match value(s, base) {
            Some(v) => if v <= max {
                Some(v)
            } else {
                None
            },
            None => None,
        }),
        s.len() > 0 && s[0] != '+' ==> unsigned(seq!['+'] + s, base, max) == unsigned(s, base, max),
        unsigned(Seq::empty(), base, max) is None,
        unsigned(seq!['+'], base, max) is None,
        unsigned(seq!['-'] + s, base, max) is None,
{
    assert((seq!['+'] + s).skip(1) =~= s);
    assert(seq!['+'].skip(1) =~= Seq::<char>::empty());
    if value(seq!['-'] + s, base) is Some {
        lemma_first_is_digit(seq!['-'] + s, base);
    }
}

/// The first character of a number is a digit.
proof fn lemma_first_is_digit(s: Seq<char>, base: nat)
    requires
        s.len() > 0,
        value(s, base) is Some,
    ensures
        digit_value(s[0], base) is Some,
    decreases s.len(),
{
    if s.len() > 1 {
        lemma_first_is_digit(s.drop_last(), base);
    }
}

/// Signed bytes are read from what they are written as, with a minus sign for
/// those below zero; what is out of range is refused.
pub proof fn law_signed_byte_read_back(v: int, w: nat)
    requires
        w <= 0xFFFF,
    ensures
        0 <= v <= 127 ==> signed_byte(digits(v as nat, 10)) == Some(v),
        -128 <= v < 0 ==> signed_byte(seq!['-'] + digits((-v) as nat, 10)) == Some(v),
        w > 127 ==> signed_byte(digits(w, 10)) is None,
        w > 128 ==> signed_byte(seq!['-'] + digits(w, 10)) is None,
        signed_byte(Seq::empty()) is None,
        signed_byte(seq!['-']) is None,
{
    let n: nat = if v < 0 {
        (-v) as nat
    } else {
        v as nat
    };
    law_number_read_back(w, 10, 0xFFFF);
    law_number_read_back(n, 10, n);
    lemma_digits_plain(w, 10);
    lemma_digits_plain(n, 10);
    assert(digits(n, 10)[0] != '-' && digits(n, 10)[0] != '+');
    assert(digits(w, 10)[0] != '-' && digits(w, 10)[0] != '+');
    assert((seq!['-'] + digits(n, 10)).skip(1) =~= digits(n, 10));
    assert((seq!['-'] + digits(w, 10)).skip(1) =~= digits(w, 10));
}

/// Whether all of `s` is white space.
pub open spec fn blank(s: Seq<char>) -> bool {
    forall|i: int| 0 <= i < s.len() ==> is_white(#[trigger] s[i])
}

/// Whether none of `s` is white space.
pub open spec fn solid(s: Seq<char>) -> bool {
    forall|i: int| 0 <= i < s.len() ==> !is_white(#[trigger] s[i])
}

/// White space in front adds no words; a word and what follows it behind white
/// space are that word first and then the words of the rest.
pub proof fn law_words(front: Seq<char>, w: Seq<char>, rest: Seq<char>)
    requires
        blank(front),
        w.len() > 0,
        solid(w),
        rest.len() > 0 ==> is_white(rest[0]),
    ensures
        words(front + w + rest) == seq![w] + words(rest),
        words(front).len() == 0,
    decreases front.len(),
{
    lemma_first_run(Sep::White, w, rest);
    if front.len() == 0 {
        assert(front + w + rest =~= w + rest);
        assert(front =~= Seq::<char>::empty());
        lemma_no_runs(Sep::White);
    } else {
        let t = front.drop_first();
        assert(forall|i: int| 0 <= i < t.len() ==> #[trigger] t[i] == front[i + 1]);
        law_words(t, w, rest);
        assert(front + w + rest =~= seq![front[0]] + (t + w + rest));
        lemma_leading_separator(Sep::White, front[0], t + w + rest);
        assert(front =~= seq![front[0]] + t);
        lemma_leading_separator(Sep::White, front[0], t);
    }
}

/// Trimming takes the white space at both ends and nothing else.
pub proof fn law_trimming(front: Seq<char>, s: Seq<char>, back: Seq<char>)
    requires
        blank(front),
        blank(back),
        s.len() > 0 ==> !is_white(s[0]) && !is_white(s.last()),
    ensures
        trimmed(front + s + back) == s,
{
    let all = front + s + back;
    if s.len() > 0 {
        assert forall|i: int| 0 <= i < front.len() implies separates(Sep::White, #[trigger] all[i]) by {
            assert(all[i] == front[i]);
        }
        assert(all[front.len() as int] == s[0]);
        lemma_sep_prefix_is(Sep::White, all, front.len());
        assert(all.skip(front.len() as int) =~= s + back);
        lemma_trim_end_takes(s, back);
    } else {
        assert forall|i: int| 0 <= i < all.len() implies separates(Sep::White, #[trigger] all[i]) by {
            if i < front.len() {
                assert(all[i] == front[i]);
            } else {
                assert(all[i] == back[i - front.len()]);
            }
        }
        lemma_sep_prefix_is(Sep::White, all, all.len());
        assert(all.skip(all.len() as int) =~= s);
    }
}

proof fn lemma_trim_end_takes(s: Seq<char>, back: Seq<char>)
    requires
        s.len() > 0,
        !is_white(s.last()),
        blank(back),
    ensures
        trim_end(s + back) == s,
    decreases back.len(),
{
    let all = s + back;
    if back.len() == 0 {
        assert(all =~= s);
    } else {
        assert(all.last() == back[back.len() - 1]);
        let t = back.drop_last();
        assert(forall|i: int| 0 <= i < t.len() ==> #[trigger] t[i] == back[i]);
        lemma_trim_end_takes(s, t);
        assert(all.drop_last() =~= s + t);
    }
}

/// White space is what Unicode says: tab to carriage return, blank, and the
/// blanks beyond ASCII. No letter, digit or punctuation of ASCII is any.
pub proof fn law_white_space(c: char)
    ensures
        (c as u32) < 128 ==> (is_white(c) <==> c == ' ' || c == '\t' || c == '\n' || c == '\r' || c
            as u32 == 0x0b || c as u32 == 0x0c),
        (c as u32) >= 128 ==> (is_white(c) <==> c as u32 == 0x85 || c as u32 == 0xa0 || c as u32
            == 0x1680 || 0x2000 <= c as u32 <= 0x200a || 0x2028 <= c as u32 <= 0x2029 || c as u32
            == 0x202f || c as u32 == 0x205f || c as u32 == 0x3000),
{
}

/// A blank and a word are that word first and then the words of the rest.
pub proof fn lemma_next_word(w: Seq<char>, rest: Seq<char>)
    requires
        w.len() > 0,
        solid(w),
        rest.len() > 0 ==> is_white(rest[0]),
    ensures
        words(seq![' '] + w + rest) == seq![w] + words(rest),
{
    law_words(seq![' '], w, rest);
}

} // verus!
