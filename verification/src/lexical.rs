//! The order of texts: character by character, by scalar value, a proper
//! prefix before what it is a prefix of. It is the order that std gives to
//! strings.

use std::cmp::Ordering;
use vstd::prelude::*;
use crate::text::{
    char_lt, chars_of, find_difference, first_difference, lemma_scalar_injective, position, scalar,
};

verus! {

/// The order of two texts.
pub open spec fn text_order(a: Seq<char>, b: Seq<char>) -> Ordering
    decreases a.len(),
{
    if a.len() == 0 {
        if b.len() == 0 {
            Ordering::Equal
        } else {
            Ordering::Less
        }
    } else if b.len() == 0 {
        Ordering::Greater
    } else if scalar(a[0]) < scalar(b[0]) {
        Ordering::Less
    } else if scalar(a[0]) > scalar(b[0]) {
        Ordering::Greater
    } else {
        text_order(a.drop_first(), b.drop_first())
    }
}

/// Two texts are in order `Equal` exactly when they are the same text.
pub proof fn lemma_text_order_equal(a: Seq<char>, b: Seq<char>)
    ensures
        text_order(a, b) == Ordering::Equal <==> a == b,
    decreases a.len(),
{
    if a.len() == 0 || b.len() == 0 {
        if a.len() == 0 && b.len() == 0 {
            assert(a =~= b);
        }
    } else {
        lemma_text_order_equal(a.drop_first(), b.drop_first());
        if scalar(a[0]) == scalar(b[0]) {
            lemma_scalar_injective(a[0], b[0]);
            if a.drop_first() == b.drop_first() {
                assert(a =~= seq![a[0]] + a.drop_first());
                assert(b =~= seq![b[0]] + b.drop_first());
            }
        }
    }
}

/// Turning two texts round turns their order round.
pub proof fn lemma_text_order_converse(a: Seq<char>, b: Seq<char>)
    ensures
        text_order(a, b) == Ordering::Less <==> text_order(b, a) == Ordering::Greater,
        text_order(a, b) == Ordering::Greater <==> text_order(b, a) == Ordering::Less,
    decreases a.len(),
{
    if a.len() > 0 && b.len() > 0 {
        lemma_text_order_converse(a.drop_first(), b.drop_first());
    }
}

/// What comes before something that comes before a third text comes before
/// the third.
pub proof fn lemma_text_order_transitive(a: Seq<char>, b: Seq<char>, c: Seq<char>)
    requires
        text_order(a, b) == Ordering::Less,
        text_order(b, c) == Ordering::Less,
    ensures
        text_order(a, c) == Ordering::Less,
    decreases a.len(),
{
    if a.len() > 0 && b.len() > 0 && c.len() > 0 {
        if scalar(a[0]) == scalar(b[0]) && scalar(b[0]) == scalar(c[0]) {
            lemma_text_order_transitive(a.drop_first(), b.drop_first(), c.drop_first());
        }
    }
}

/// The order that the first difference of two texts decides.
pub open spec fn order_at(a: Seq<char>, b: Seq<char>, n: int) -> Ordering {
    if n == a.len() {
        if n == b.len() {
            Ordering::Equal
        } else {
            Ordering::Less
        }
    } else if n == b.len() {
        Ordering::Greater
    } else if scalar(a[n]) < scalar(b[n]) {
        Ordering::Less
    } else {
        Ordering::Greater
    }
}

/// The order of two texts is decided where they first differ.
pub proof fn lemma_text_order_at(a: Seq<char>, b: Seq<char>, n: int)
    requires
        first_difference(a, b, n),
    ensures
        text_order(a, b) == order_at(a, b, n),
    decreases n,
{
    if n > 0 {
        assert(a[0] == b[0]);
        assert forall|k: int| 0 <= k < n - 1 implies a.drop_first()[k] == b.drop_first()[k] by {
            assert(a[k + 1] == b[k + 1]);
        }
        lemma_text_order_at(a.drop_first(), b.drop_first(), n - 1);
    } else if n < a.len() && n < b.len() {
        if scalar(a[0]) == scalar(b[0]) {
            lemma_scalar_injective(a[0], b[0]);
        }
    }
}

/// Compares two texts.
pub fn order_text(a: &str, b: &str) -> (r: Ordering)
    ensures
        r == text_order(a@, b@),
{
    let x = chars_of(a);
    let y = chars_of(b);
    let n = find_difference(&x, &y);
    proof {
        lemma_text_order_at(x@, y@, position(n));
    }
    if n == x.len() {
        if n == y.len() {
            Ordering::Equal
        } else {
            Ordering::Less
        }
    } else if n == y.len() {
        Ordering::Greater
    } else if char_lt(x[n], y[n]) {
        Ordering::Less
    } else {
        Ordering::Greater
    }
}

} // verus!
