//! Character sequences: reading a string's characters, building a string
//! from characters, and the fact on which every unambiguous text format in
//! this crate rests.

use vstd::prelude::*;

verus! {

/// Every element of `s` satisfies `p`.
pub open spec fn every<T>(s: Seq<T>, p: spec_fn(T) -> bool) -> bool {
    forall|i: int| 0 <= i < s.len() ==> p(#[trigger] s[i])
}

/// `c` occurs nowhere in `s`.
pub open spec fn lacks(s: Seq<char>, c: char) -> bool {
    forall|i: int| 0 <= i < s.len() ==> #[trigger] s[i] != c
}

/// `t` is empty or begins with an element that does not satisfy `p`.
pub open spec fn stops<T>(t: Seq<T>, p: spec_fn(T) -> bool) -> bool {
    t.len() > 0 ==> !p(t[0])
}

/// The scalar value of a character, by which characters are ordered.
pub open spec fn scalar(c: char) -> int {
    c as u32 as int
}

/// Two characters with the same scalar value are the same character.
pub proof fn lemma_scalar_injective(c: char, d: char)
    requires
        scalar(c) == scalar(d),
    ensures
        c == d,
{
    let u = c as u32;
    assert(u as char == c);
    assert(u as char == d);
}

/// A run of elements that satisfy `p`, followed by a rest that is empty or
/// begins with one that does not, can be cut in one way only.
pub proof fn lemma_run_unique<T>(
    a1: Seq<T>,
    t1: Seq<T>,
    a2: Seq<T>,
    t2: Seq<T>,
    p: spec_fn(T) -> bool,
)
    requires
        a1 + t1 == a2 + t2,
        every(a1, p),
        every(a2, p),
        stops(t1, p),
        stops(t2, p),
    ensures
        a1 == a2,
        t1 == t2,
{
    let s = a1 + t1;
    assert(s.len() == a1.len() + t1.len());
    assert(s.len() == a2.len() + t2.len());
    if a1.len() < a2.len() {
        assert(s[a1.len() as int] == t1[0]);
        assert(s[a1.len() as int] == a2[a1.len() as int]);
        assert(p(a2[a1.len() as int]));
        assert(false);
    }
    if a2.len() < a1.len() {
        assert(s[a2.len() as int] == t2[0]);
        assert(s[a2.len() as int] == a1[a2.len() as int]);
        assert(p(a1[a2.len() as int]));
        assert(false);
    }
    assert forall|i: int| 0 <= i < a1.len() implies a1[i] == a2[i] by {
        assert(s[i] == a1[i]);
        assert(s[i] == a2[i]);
    }
    assert(a1 =~= a2);
    assert forall|i: int| 0 <= i < t1.len() implies t1[i] == t2[i] by {
        assert(s[a1.len() + i] == t1[i]);
        assert(s[a2.len() + i] == t2[i]);
    }
    assert(t1 =~= t2);
}

/// The characters of `s`, in order.
pub fn chars_of(s: &str) -> (out: Vec<char>)
    ensures
        out@ == s@,
{
    let mut out: Vec<char> = Vec::new();
    for c in it: s.chars()
        invariant
            out@ == it.seq().take(it.index()),
            it.seq() == s@,
    {
        out.push(c);
    }
    out
}

/// `String::push` of std: appends the one character `c` to `s`.
#[verifier::external_body]
fn push_char(s: &mut String, c: char)
    ensures
        final(s)@ == old(s)@.push(c),
{
    s.push(c);
}

/// The string made of the characters `chars[from..to]`.
pub fn string_of_range(chars: &Vec<char>, from: usize, to: usize) -> (out: String)
    requires
        from <= to <= chars.len(),
    ensures
        out@ == chars@.subrange(from as int, to as int),
{
    let mut out = String::new();
    let mut i: usize = from;
    while i < to
        invariant
            from <= i <= to <= chars.len(),
            out@ == chars@.subrange(from as int, i as int),
        decreases to - i,
    {
        push_char(&mut out, chars[i]);
        i += 1;
        assert(chars@.subrange(from as int, i as int) == chars@.subrange(
            from as int,
            i as int - 1,
        ).push(chars@[i as int - 1]));
    }
    out
}

/// The string made of all of `chars`.
pub fn string_of(chars: &Vec<char>) -> (out: String)
    ensures
        out@ == chars@,
{
    let out = string_of_range(chars, 0, chars.len());
    assert(chars@.subrange(0, chars.len() as int) == chars@);
    out
}

/// Appends the characters of `s` to `buf`.
pub fn push_str(buf: &mut Vec<char>, s: &str)
    ensures
        final(buf)@ == old(buf)@ + s@,
{
    let ghost before = buf@;
    for c in it: s.chars()
        invariant
            buf@ == before + it.seq().take(it.index()),
            it.seq() == s@,
    {
        buf.push(c);
        assert(it.seq().take(it.index() + 1) == it.seq().take(it.index()).push(c));
    }
}

/// Whether two strings hold the same characters.
pub fn same_text(a: &str, b: &str) -> (r: bool)
    ensures
        r == (a@ == b@),
{
    let x = chars_of(a);
    let y = chars_of(b);
    if x.len() != y.len() {
        return false;
    }
    let mut i: usize = 0;
    while i < x.len()
        invariant
            x@ == a@,
            y@ == b@,
            x.len() == y.len(),
            i <= x.len(),
            forall|k: int| 0 <= k < i ==> x@[k] == y@[k],
        decreases x.len() - i,
    {
        if x[i] != y[i] {
            assert(x@[i as int] != y@[i as int]);
            return false;
        }
        i += 1;
    }
    assert(x@ =~= y@);
    true
}

/// The position `n` as a mathematical integer.
pub open spec fn position(n: usize) -> int {
    n as int
}

/// `n` is where `a` and `b` first differ: they agree before `n`, and at `n`
/// one of them ends or they hold different characters.
pub open spec fn first_difference(a: Seq<char>, b: Seq<char>, n: int) -> bool {
    &&& 0 <= n <= a.len()
    &&& n <= b.len()
    &&& forall|k: int| 0 <= k < n ==> a[k] == b[k]
    &&& n < a.len() && n < b.len() ==> a[n] != b[n]
}

/// Where `a` and `b` first differ.
pub fn find_difference(a: &Vec<char>, b: &Vec<char>) -> (n: usize)
    ensures
        first_difference(a@, b@, position(n)),
        n < a.len() && n < b.len() ==> a@[position(n)] == a[n as int] && b@[position(n)]
            == b[n as int],
{
    let mut i: usize = 0;
    while i < a.len() && i < b.len()
        invariant
            i <= a.len(),
            i <= b.len(),
            forall|k: int| 0 <= k < i ==> a@[k] == b@[k],
        decreases a.len() - i,
    {
        if a[i] != b[i] {
            return i;
        }
        i += 1;
    }
    i
}

/// Whether `c` comes before `d` by scalar value.
pub fn char_lt(c: char, d: char) -> (b: bool)
    ensures
        b == (scalar(c) < scalar(d)),
{
    (c as u32) < (d as u32)
}

} // verus!
