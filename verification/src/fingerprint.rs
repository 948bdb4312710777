//! Fingerprints: a 64-bit FNV-1a hash over the characters of a few texts,
//! written as sixteen hexadecimal digits. The texts are kept apart by a unit
//! that no character has, so that two different lists of texts never hash
//! the same units.

use vstd::prelude::*;
use crate::text::{every, lemma_run_unique, lemma_scalar_injective, string_of};

verus! {

/// The state from which hashing starts.
pub const OFFSET_BASIS: u64 = 0xcbf2_9ce4_8422_2325;

/// The factor of each step.
pub const PRIME: u64 = 0x0000_0100_0000_01b3;

/// The unit that stands between two texts. It is one more than the greatest
/// scalar value, so no character has it.
pub const SEPARATOR: u32 = 0x0011_0000;

/// One step of the hash: the unit is folded into the low bits of the state,
/// and the state multiplied by the prime, modulo 2^64.
pub open spec fn step(state: u64, unit: u32) -> u64 {
    (state ^ (unit as u64)).wrapping_mul(PRIME)
}

/// The state after the units of `units`, taken in order from `state`.
pub open spec fn fold(state: u64, units: Seq<u32>) -> u64
    decreases units.len(),
{
    if units.len() == 0 {
        state
    } else {
        step(fold(state, units.drop_last()), units.last())
    }
}

/// The hash of `units`.
pub open spec fn fnv1a(units: Seq<u32>) -> u64 {
    fold(OFFSET_BASIS, units)
}

/// The units of a text: the scalar values of its characters.
pub open spec fn units(s: Seq<char>) -> Seq<u32> {
    Seq::new(s.len(), |i: int| s[i] as u32)
}

/// The units of a list of two texts.
pub open spec fn pair_units(a: Seq<char>, b: Seq<char>) -> Seq<u32> {
    units(a) + seq![SEPARATOR] + units(b)
}

/// The units of a list of three texts.
pub open spec fn triple_units(a: Seq<char>, b: Seq<char>, c: Seq<char>) -> Seq<u32> {
    units(a) + seq![SEPARATOR] + units(b) + seq![SEPARATOR] + units(c)
}

/// The hexadecimal digit for `d`, for `d` below sixteen.
pub open spec fn hex_char(d: nat) -> char {
    if d == 0 {
        '0'
    } else if d == 1 {
        '1'
    } else if d == 2 {
        '2'
    } else if d == 3 {
        '3'
    } else if d == 4 {
        '4'
    } else if d == 5 {
        '5'
    } else if d == 6 {
        '6'
    } else if d == 7 {
        '7'
    } else if d == 8 {
        '8'
    } else if d == 9 {
        '9'
    } else if d == 10 {
        'a'
    } else if d == 11 {
        'b'
    } else if d == 12 {
        'c'
    } else if d == 13 {
        'd'
    } else if d == 14 {
        'e'
    } else {
        'f'
    }
}

/// The lowest `width` hexadecimal digits of `n`, the most significant first.
pub open spec fn hex(n: nat, width: nat) -> Seq<char>
    decreases width,
{
    if width == 0 {
        Seq::empty()
    } else {
        hex(n / 16, (width - 1) as nat).push(hex_char(n % 16))
    }
}

/// The token for a hash: its sixteen hexadecimal digits.
pub open spec fn token(h: u64) -> Seq<char> {
    hex(h as nat, 16)
}

/// The token of the hash of an earlier token and a further text.
pub open spec fn mixed(digest: Seq<char>, extra: Seq<char>) -> Seq<char> {
    token(fnv1a(pair_units(digest, extra)))
}

/// The units of a run of bytes: the bytes themselves.
pub open spec fn byte_units(b: Seq<u8>) -> Seq<u32> {
    Seq::new(b.len(), |i: int| b[i] as u32)
}

/// The token of the hash of an earlier token and a further run of bytes.
pub open spec fn mixed_bytes(digest: Seq<char>, extra: Seq<u8>) -> Seq<char> {
    token(fnv1a(units(digest) + seq![SEPARATOR] + byte_units(extra)))
}

/// The text that carries a token in a file name: a hyphen, then the token.
pub open spec fn suffix_of(digest: Seq<char>) -> Seq<char> {
    seq!['-'] + digest
}

/// Hashing two runs of units one after the other is hashing them joined.
pub proof fn lemma_fold_join(state: u64, a: Seq<u32>, b: Seq<u32>)
    ensures
        fold(state, a + b) == fold(fold(state, a), b),
    decreases b.len(),
{
    if b.len() == 0 {
        assert(a + b =~= a);
    } else {
        lemma_fold_join(state, a, b.drop_last());
        assert((a + b).drop_last() =~= a + b.drop_last());
        assert((a + b).last() == b.last());
    }
}

/// Two texts with the same units are the same text.
pub proof fn lemma_units_injective(a: Seq<char>, b: Seq<char>)
    requires
        units(a) == units(b),
    ensures
        a == b,
{
    assert(a.len() == units(a).len());
    assert(b.len() == units(b).len());
    assert forall|i: int| 0 <= i < a.len() implies a[i] == b[i] by {
        assert(units(a)[i] == a[i] as u32);
        assert(units(b)[i] == b[i] as u32);
        lemma_scalar_injective(a[i], b[i]);
    }
    assert(a =~= b);
}

/// No unit of a text is the separator.
pub proof fn lemma_units_apart(a: Seq<char>)
    ensures
        every(units(a), |u: u32| u != SEPARATOR),
{
    assert forall|i: int| 0 <= i < units(a).len() implies #[trigger] units(a)[i] != SEPARATOR by {
        vstd::utf8::char_is_scalar(a[i]);
    }
}

/// Two lists of two texts with the same units are the same list.
pub proof fn lemma_pair_units_injective(a: Seq<char>, b: Seq<char>, c: Seq<char>, d: Seq<char>)
    requires
        pair_units(a, b) == pair_units(c, d),
    ensures
        a == c,
        b == d,
{
    let apart = |u: u32| u != SEPARATOR;
    let mark = seq![SEPARATOR];
    lemma_units_apart(a);
    lemma_units_apart(c);
    assert(pair_units(a, b) =~= units(a) + (mark + units(b)));
    assert(pair_units(c, d) =~= units(c) + (mark + units(d)));
    assert((mark + units(b))[0] == SEPARATOR);
    assert((mark + units(d))[0] == SEPARATOR);
    lemma_run_unique(units(a), mark + units(b), units(c), mark + units(d), apart);
    assert(units(b) =~= (mark + units(b)).drop_first());
    assert(units(d) =~= (mark + units(d)).drop_first());
    lemma_units_injective(a, c);
    lemma_units_injective(b, d);
}

/// Mixing different context into one token, or the same context into
/// different tokens, hashes different units; the new tokens are the same
/// only where the hash itself gives one value for the two.
pub proof fn lemma_mixed_apart(d1: Seq<char>, e1: Seq<char>, d2: Seq<char>, e2: Seq<char>)
    requires
        d1 != d2 || e1 != e2,
    ensures
        pair_units(d1, e1) != pair_units(d2, e2),
        mixed(d1, e1) == mixed(d2, e2) <==> fnv1a(pair_units(d1, e1)) == fnv1a(
            pair_units(d2, e2),
        ),
{
    if pair_units(d1, e1) == pair_units(d2, e2) {
        lemma_pair_units_injective(d1, e1, d2, e2);
    }
    if mixed(d1, e1) == mixed(d2, e2) {
        lemma_token_injective(fnv1a(pair_units(d1, e1)), fnv1a(pair_units(d2, e2)));
    }
}

/// Two lists of three texts with the same units are the same list: what is
/// hashed for an identity tells its name, its version and its origin apart.
pub proof fn lemma_triple_units_injective(
    a: Seq<char>,
    b: Seq<char>,
    c: Seq<char>,
    d: Seq<char>,
    e: Seq<char>,
    f: Seq<char>,
)
    requires
        triple_units(a, b, c) == triple_units(d, e, f),
    ensures
        a == d,
        b == e,
        c == f,
{
    let apart = |u: u32| u != SEPARATOR;
    let mark = seq![SEPARATOR];
    lemma_units_apart(a);
    lemma_units_apart(d);
    lemma_units_apart(b);
    lemma_units_apart(e);
    let rest1 = units(b) + (mark + units(c));
    let rest2 = units(e) + (mark + units(f));
    assert(triple_units(a, b, c) =~= units(a) + (mark + rest1));
    assert(triple_units(d, e, f) =~= units(d) + (mark + rest2));
    assert((mark + rest1)[0] == SEPARATOR);
    assert((mark + rest2)[0] == SEPARATOR);
    lemma_run_unique(units(a), mark + rest1, units(d), mark + rest2, apart);
    assert(rest1 =~= (mark + rest1).drop_first());
    assert(rest2 =~= (mark + rest2).drop_first());
    assert((mark + units(c))[0] == SEPARATOR);
    assert((mark + units(f))[0] == SEPARATOR);
    lemma_run_unique(units(b), mark + units(c), units(e), mark + units(f), apart);
    assert(units(c) =~= (mark + units(c)).drop_first());
    assert(units(f) =~= (mark + units(f)).drop_first());
    lemma_units_injective(a, d);
    lemma_units_injective(b, e);
    lemma_units_injective(c, f);
}

/// Sixteen to the power `width`.
pub open spec fn pow16(width: nat) -> nat
    decreases width,
{
    if width == 0 {
        1
    } else {
        16 * pow16((width - 1) as nat)
    }
}

/// The digit that the hexadecimal character `c` stands for; zero for what is
/// none.
pub open spec fn hex_value_of(c: char) -> nat {
    if c == '1' {
        1
    } else if c == '2' {
        2
    } else if c == '3' {
        3
    } else if c == '4' {
        4
    } else if c == '5' {
        5
    } else if c == '6' {
        6
    } else if c == '7' {
        7
    } else if c == '8' {
        8
    } else if c == '9' {
        9
    } else if c == 'a' {
        10
    } else if c == 'b' {
        11
    } else if c == 'c' {
        12
    } else if c == 'd' {
        13
    } else if c == 'e' {
        14
    } else if c == 'f' {
        15
    } else {
        0
    }
}

/// The number that the hexadecimal digits of `s` spell.
pub open spec fn hex_value(s: Seq<char>) -> nat
    decreases s.len(),
{
    if s.len() == 0 {
        0
    } else {
        hex_value(s.drop_last()) * 16 + hex_value_of(s.last())
    }
}

/// The digits of `n` spell `n` again, as far as `width` digits can.
pub proof fn lemma_hex_value(n: nat, width: nat)
    ensures
        hex_value(hex(n, width)) == n % pow16(width),
    decreases width,
{
    if width == 0 {
        assert(hex(n, width).len() == 0);
    } else {
        let rest = (width - 1) as nat;
        lemma_hex_value(n / 16, rest);
        lemma_pow16_positive(rest);
        let s = hex(n, width);
        assert(s.drop_last() =~= hex(n / 16, rest));
        assert(s.last() == hex_char(n % 16));
        assert(hex_value_of(hex_char(n % 16)) == n % 16);
        vstd::arithmetic::div_mod::lemma_breakdown(n as int, 16, pow16(rest) as int);
    }
}

/// A power of sixteen is not zero.
pub proof fn lemma_pow16_positive(width: nat)
    ensures
        pow16(width) > 0,
    decreases width,
{
    if width > 0 {
        lemma_pow16_positive((width - 1) as nat);
    }
}

/// Sixteen digits hold every 64-bit number.
pub proof fn lemma_pow16_sixteen()
    ensures
        pow16(16) == 0x1_0000_0000_0000_0000,
{
    assert(pow16(0) == 1);
    assert(pow16(1) == 0x10);
    assert(pow16(2) == 0x100);
    assert(pow16(3) == 0x1000);
    assert(pow16(4) == 0x1_0000);
    assert(pow16(5) == 0x10_0000);
    assert(pow16(6) == 0x100_0000);
    assert(pow16(7) == 0x1000_0000);
    assert(pow16(8) == 0x1_0000_0000);
    assert(pow16(9) == 0x10_0000_0000);
    assert(pow16(10) == 0x100_0000_0000);
    assert(pow16(11) == 0x1000_0000_0000);
    assert(pow16(12) == 0x1_0000_0000_0000);
    assert(pow16(13) == 0x10_0000_0000_0000);
    assert(pow16(14) == 0x100_0000_0000_0000);
    assert(pow16(15) == 0x1000_0000_0000_0000);
}

/// Two hashes with the same token are the same hash.
pub proof fn lemma_token_injective(g: u64, h: u64)
    requires
        token(g) == token(h),
    ensures
        g == h,
{
    lemma_hex_value(g as nat, 16);
    lemma_hex_value(h as nat, 16);
    lemma_pow16_sixteen();
}

/// `c` is a hexadecimal digit: one of `0` to `9` or of `a` to `f`.
pub open spec fn is_hex_char(c: char) -> bool {
    '0' <= c <= '9' || 'a' <= c <= 'f'
}

/// `width` hexadecimal digits are `width` characters, each of them a digit
/// or a small letter.
pub proof fn lemma_hex_shape(n: nat, width: nat)
    ensures
        hex(n, width).len() == width,
        every(hex(n, width), |c: char| is_hex_char(c)),
    decreases width,
{
    if width > 0 {
        lemma_hex_shape(n / 16, (width - 1) as nat);
    }
}

/// A token is sixteen characters, each of them a digit or a small letter:
/// it can stand in a file name.
pub proof fn lemma_token_shape(h: u64)
    ensures
        token(h).len() == 16,
        every(token(h), |c: char| is_hex_char(c)),
{
    lemma_hex_shape(h as nat, 16);
}

/// The state after one more unit.
fn absorb_unit(state: u64, unit: u32) -> (r: u64)
    ensures
        r == step(state, unit),
        r == fold(state, seq![unit]),
{
    proof {
        let one = seq![unit];
        assert(one.drop_last() =~= Seq::<u32>::empty());
        assert(fold(state, one.drop_last()) == state);
        assert(one.last() == unit);
    }
    (state ^ (unit as u64)).wrapping_mul(PRIME)
}

/// The state after the characters of `s`.
fn absorb(state: u64, s: &str) -> (r: u64)
    ensures
        r == fold(state, units(s@)),
{
    let mut h: u64 = state;
    for c in it: s.chars()
        invariant
            it.seq() == s@,
            h == fold(state, units(s@.take(it.index()))),
    {
        proof {
            let before = units(s@.take(it.index()));
            let after = units(s@.take(it.index() + 1));
            assert(after.drop_last() =~= before);
            assert(after.last() == c as u32);
        }
        h = (h ^ (c as u32 as u64)).wrapping_mul(PRIME);
    }
    assert(s@.take(s@.len() as int) =~= s@);
    h
}

/// The state after the bytes of `b`.
fn absorb_bytes(state: u64, b: &[u8]) -> (r: u64)
    ensures
        r == fold(state, byte_units(b@)),
{
    let mut h: u64 = state;
    let mut i: usize = 0;
    while i < b.len()
        invariant
            i <= b.len(),
            h == fold(state, byte_units(b@.take(i as int))),
        decreases b.len() - i,
    {
        proof {
            let before = byte_units(b@.take(i as int));
            let after = byte_units(b@.take(i + 1));
            assert(after.drop_last() =~= before);
            assert(after.last() == b@[i as int] as u32);
        }
        h = (h ^ (b[i] as u64)).wrapping_mul(PRIME);
        i += 1;
    }
    assert(b@.take(b@.len() as int) =~= b@);
    h
}

/// The hash of the list of the two texts.
pub fn hash_pair(a: &str, b: &str) -> (r: u64)
    ensures
        r == fnv1a(pair_units(a@, b@)),
{
    let h = absorb(OFFSET_BASIS, a);
    let h = absorb_unit(h, SEPARATOR);
    let h = absorb(h, b);
    proof {
        lemma_fold_join(OFFSET_BASIS, units(a@), seq![SEPARATOR]);
        lemma_fold_join(OFFSET_BASIS, units(a@) + seq![SEPARATOR], units(b@));
    }
    h
}

/// The hash of the list of the three texts.
pub fn hash_triple(a: &str, b: &str, c: &str) -> (r: u64)
    ensures
        r == fnv1a(triple_units(a@, b@, c@)),
{
    let h = hash_pair(a, b);
    let h = absorb_unit(h, SEPARATOR);
    let h = absorb(h, c);
    proof {
        lemma_fold_join(OFFSET_BASIS, pair_units(a@, b@), seq![SEPARATOR]);
        lemma_fold_join(OFFSET_BASIS, pair_units(a@, b@) + seq![SEPARATOR], units(c@));
    }
    h
}

/// The hexadecimal digit for `d`.
fn hex_digit(d: u64) -> (c: char)
    requires
        d < 16,
    ensures
        c == hex_char(d as nat),
{
    if d == 0 {
        '0'
    } else if d == 1 {
        '1'
    } else if d == 2 {
        '2'
    } else if d == 3 {
        '3'
    } else if d == 4 {
        '4'
    } else if d == 5 {
        '5'
    } else if d == 6 {
        '6'
    } else if d == 7 {
        '7'
    } else if d == 8 {
        '8'
    } else if d == 9 {
        '9'
    } else if d == 10 {
        'a'
    } else if d == 11 {
        'b'
    } else if d == 12 {
        'c'
    } else if d == 13 {
        'd'
    } else if d == 14 {
        'e'
    } else {
        'f'
    }
}

/// Appends the lowest `width` hexadecimal digits of `n` to `buf`.
fn push_hex(buf: &mut Vec<char>, n: u64, width: u8)
    ensures
        final(buf)@ == old(buf)@ + hex(n as nat, width as nat),
    decreases width,
{
    if width == 0 {
        assert(buf@ =~= old(buf)@ + hex(n as nat, 0));
    } else {
        push_hex(buf, n / 16, width - 1);
        buf.push(hex_digit(n % 16));
        assert(buf@ =~= old(buf)@ + hex(n as nat, width as nat));
    }
}

/// The token for the hash `h`.
pub fn token_of(h: u64) -> (r: String)
    ensures
        r@ == token(h),
{
    let mut buf: Vec<char> = Vec::new();
    push_hex(&mut buf, h, 16);
    assert(buf@ =~= token(h));
    string_of(&buf)
}

/// A build fingerprint: a token, and the text that carries it in the name
/// of a build artifact.
#[derive(Clone, Debug, PartialEq, Eq, Hash)]
pub struct Metadata {
    /// The token.
    pub metadata: String,
    /// A hyphen and the token.
    pub extra_filename: String,
}

impl Metadata {
    /// The fingerprint with the token for the hash `h`.
    pub fn of_hash(h: u64) -> (r: Metadata)
        ensures
            r.metadata@ == token(h),
            r.metadata@.len() == 16,
            r.extra_filename@ == suffix_of(token(h)),
    {
        proof {
            lemma_token_shape(h);
        }
        let metadata = token_of(h);
        let mut extra_filename = String::new();
        extra_filename.append("-");
        extra_filename.append(metadata.as_str());
        proof {
            reveal_strlit("-");
            assert("-"@ =~= seq!['-']);
            assert(extra_filename@ =~= suffix_of(token(h)));
        }
        Metadata { metadata, extra_filename }
    }

    /// Folds further context into the fingerprint: the new token is that of
    /// the hash of the old token and `extra`, and the file-name text follows
    /// it. What `extra` was is not kept: mixing the same texts in another
    /// order gives another hash.
    pub fn mix(&mut self, extra: &str)
        ensures
            final(self).metadata@ == mixed(old(self).metadata@, extra@),
            final(self).extra_filename@ == suffix_of(final(self).metadata@),
    {
        let h = hash_pair(self.metadata.as_str(), extra);
        *self = Metadata::of_hash(h);
    }

    /// Folds further context into the fingerprint, given as bytes: the new
    /// token is that of the hash of the old token and `extra`. For bytes
    /// below 128 it is what `mix` gives for the text that they spell.
    pub fn mix_bytes(&mut self, extra: &[u8])
        ensures
            final(self).metadata@ == mixed_bytes(old(self).metadata@, extra@),
            final(self).extra_filename@ == suffix_of(final(self).metadata@),
    {
        let h = absorb(OFFSET_BASIS, self.metadata.as_str());
        let h = absorb_unit(h, SEPARATOR);
        let h = absorb_bytes(h, extra);
        proof {
            let head = units(old(self).metadata@);
            lemma_fold_join(OFFSET_BASIS, head, seq![SEPARATOR]);
            lemma_fold_join(OFFSET_BASIS, head + seq![SEPARATOR], byte_units(extra@));
        }
        *self = Metadata::of_hash(h);
    }
}

} // verus!
