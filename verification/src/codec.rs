//! The canonical one-line form of an identity, `name version (location)`,
//! as a grammar on characters: how a text is put together from its three
//! parts, and how it is taken apart again.

use vstd::prelude::*;
use crate::text::lacks;

verus! {

/// `s` can stand as a name or as a version: it is not empty and holds no
/// space.
pub open spec fn is_token(s: Seq<char>) -> bool {
    s.len() > 0 && lacks(s, ' ')
}

/// `s` can stand between the brackets: it is not empty and holds no closing
/// bracket.
pub open spec fn is_location(s: Seq<char>) -> bool {
    s.len() > 0 && lacks(s, ')')
}

/// The three parts joined: the name, a space, the version, a space, and the
/// location in round brackets.
pub open spec fn canonical(name: Seq<char>, version: Seq<char>, location: Seq<char>) -> Seq<char> {
    name + seq![' '] + version + seq![' ', '('] + location + seq![')']
}

/// `text` is the canonical form of the three parts, each of them fit for its
/// place.
pub open spec fn is_canonical(
    text: Seq<char>,
    name: Seq<char>,
    version: Seq<char>,
    location: Seq<char>,
) -> bool {
    &&& is_token(name)
    &&& is_token(version)
    &&& is_location(location)
    &&& text == canonical(name, version, location)
}

/// `text` is the canonical form of some three parts.
pub open spec fn matches_grammar(text: Seq<char>) -> bool {
    exists|name: Seq<char>, version: Seq<char>, location: Seq<char>|
        is_canonical(text, name, version, location)
}

/// `text` has its two separating spaces at `i` and `j`: the name lies before
/// `i`, the version between them, and the location from `j + 2` to the last
/// character, which closes the bracket that opens at `j + 1`.
pub open spec fn cut_at(text: Seq<char>, i: int, j: int) -> bool {
    &&& 0 < i
    &&& i + 1 < j
    &&& j + 3 < text.len()
    &&& forall|k: int| 0 <= k < i ==> #[trigger] text[k] != ' '
    &&& text[i] == ' '
    &&& forall|k: int| i < k < j ==> #[trigger] text[k] != ' '
    &&& text[j] == ' '
    &&& text[j + 1] == '('
    &&& text[text.len() - 1] == ')'
    &&& forall|k: int| j + 2 <= k < text.len() - 1 ==> #[trigger] text[k] != ')'
}

/// The name of a text cut at `i`.
pub open spec fn name_part(text: Seq<char>, i: int) -> Seq<char> {
    text.subrange(0, i)
}

/// The version of a text cut at `i` and `j`.
pub open spec fn version_part(text: Seq<char>, i: int, j: int) -> Seq<char> {
    text.subrange(i + 1, j)
}

/// The location of a text cut at `j`.
pub open spec fn location_part(text: Seq<char>, j: int) -> Seq<char> {
    text.subrange(j + 2, text.len() - 1)
}

/// Where the name ends in a canonical form.
pub open spec fn first_cut(name: Seq<char>) -> int {
    name.len() as int
}

/// Where the version ends in a canonical form.
pub open spec fn second_cut(name: Seq<char>, version: Seq<char>) -> int {
    (name.len() + 1 + version.len()) as int
}

/// A canonical form is cut where its name and its version end, and the cuts
/// give its parts back.
pub proof fn lemma_canonical_cut(
    text: Seq<char>,
    name: Seq<char>,
    version: Seq<char>,
    location: Seq<char>,
)
    requires
        is_canonical(text, name, version, location),
    ensures
        cut_at(text, first_cut(name), second_cut(name, version)),
        name_part(text, first_cut(name)) == name,
        version_part(text, first_cut(name), second_cut(name, version)) == version,
        location_part(text, second_cut(name, version)) == location,
{
    let i = first_cut(name);
    let j = second_cut(name, version);
    let a = name + seq![' '];
    let b = a + version;
    let c = b + seq![' ', '('];
    let d = c + location;
    assert(text == d + seq![')']);
    assert(text.len() == j + 3 + location.len());
    assert forall|k: int| 0 <= k < i implies #[trigger] text[k] == name[k] by {
        assert(a[k] == name[k]);
        assert(b[k] == a[k]);
        assert(c[k] == b[k]);
        assert(d[k] == c[k]);
    }
    assert(text[i] == ' ') by {
        assert(a[i] == ' ');
        assert(b[i] == a[i]);
        assert(c[i] == b[i]);
        assert(d[i] == c[i]);
    }
    assert forall|k: int| i < k < j implies #[trigger] text[k] == version[k - i - 1] by {
        assert(b[k] == version[k - i - 1]);
        assert(c[k] == b[k]);
        assert(d[k] == c[k]);
    }
    assert(text[j] == ' ' && text[j + 1] == '(') by {
        assert(c[j] == ' ');
        assert(c[j + 1] == '(');
        assert(d[j] == c[j]);
        assert(d[j + 1] == c[j + 1]);
    }
    assert forall|k: int| j + 2 <= k < text.len() - 1 implies #[trigger] text[k] == location[k - j
        - 2] by {
        assert(d[k] == location[k - j - 2]);
    }
    assert(name_part(text, i) =~= name);
    assert(version_part(text, i, j) =~= version);
    assert(location_part(text, j) =~= location);
}

/// A text that is cut at `i` and `j` is the canonical form of its parts.
pub proof fn lemma_cut_canonical(text: Seq<char>, i: int, j: int)
    requires
        cut_at(text, i, j),
    ensures
        is_canonical(
            text,
            name_part(text, i),
            version_part(text, i, j),
            location_part(text, j),
        ),
{
    let name = name_part(text, i);
    let version = version_part(text, i, j);
    let location = location_part(text, j);
    assert(text =~= canonical(name, version, location));
}

/// A text can be cut in one way at most.
pub proof fn lemma_cut_unique(text: Seq<char>, i: int, j: int, k: int, l: int)
    requires
        cut_at(text, i, j),
        cut_at(text, k, l),
    ensures
        i == k,
        j == l,
{
    if i < k {
        assert(text[i] == ' ');
    }
    if k < i {
        assert(text[k] == ' ');
    }
    if j < l {
        assert(text[j] == ' ');
    }
    if l < j {
        assert(text[l] == ' ');
    }
}

/// A text is the canonical form of one triple of parts at most.
pub proof fn lemma_canonical_unique(
    text: Seq<char>,
    n1: Seq<char>,
    v1: Seq<char>,
    l1: Seq<char>,
    n2: Seq<char>,
    v2: Seq<char>,
    l2: Seq<char>,
)
    requires
        is_canonical(text, n1, v1, l1),
        is_canonical(text, n2, v2, l2),
    ensures
        n1 == n2,
        v1 == v2,
        l1 == l2,
{
    lemma_canonical_cut(text, n1, v1, l1);
    lemma_canonical_cut(text, n2, v2, l2);
    lemma_cut_unique(
        text,
        first_cut(n1),
        second_cut(n1, v1),
        first_cut(n2),
        second_cut(n2, v2),
    );
}

/// The position of the first `c` in `text` at or after `from`, or the length
/// of `text` where there is none.
fn find(text: &Vec<char>, from: usize, c: char) -> (at: usize)
    requires
        from <= text.len(),
    ensures
        from <= at <= text.len(),
        forall|k: int| from <= k < at ==> #[trigger] text@[k] != c,
        at < text.len() ==> text@[at as int] == c,
{
    let mut at: usize = from;
    while at < text.len()
        invariant
            from <= at <= text.len(),
            forall|k: int| from <= k < at ==> #[trigger] text@[k] != c,
        decreases text.len() - at,
    {
        if text[at] == c {
            return at;
        }
        at += 1;
    }
    at
}

/// Where `text` is cut: the positions of its two separating spaces. `None`
/// where `text` does not match the grammar.
pub fn cut(text: &Vec<char>) -> (r: Option<(usize, usize)>)
    ensures
        r is Some <==> matches_grammar(text@),
        r matches Some((i, j)) ==> cut_at(text@, i as int, j as int),
{
    let len = text.len();
    let i = find(text, 0, ' ');
    if i == 0 || i == len {
        proof {
            lemma_no_name(text@, i as int);
        }
        return None;
    }
    let j = find(text, i + 1, ' ');
    if j == i + 1 || j == len || len - j < 4 {
        proof {
            lemma_no_cut(text@, i as int, j as int);
        }
        return None;
    }
    if text[j + 1] != '(' || text[len - 1] != ')' {
        proof {
            lemma_no_cut(text@, i as int, j as int);
        }
        return None;
    }
    let end = find(text, j + 2, ')');
    if end != len - 1 {
        proof {
            lemma_no_cut(text@, i as int, j as int);
        }
        return None;
    }
    proof {
        lemma_cut_canonical(text@, i as int, j as int);
    }
    Some((i, j))
}

/// Where `text` begins with a space or holds none, it does not match the
/// grammar.
proof fn lemma_no_name(text: Seq<char>, i: int)
    requires
        0 <= i <= text.len(),
        forall|k: int| 0 <= k < i ==> #[trigger] text[k] != ' ',
        i < text.len() ==> text[i] == ' ',
        i == 0 || i == text.len(),
    ensures
        !matches_grammar(text),
{
    if matches_grammar(text) {
        let (name, version, location) = choose|name: Seq<char>, version: Seq<char>, location: Seq<char>|
            is_canonical(text, name, version, location);
        lemma_canonical_cut(text, name, version, location);
        let k = first_cut(name);
        if i == 0 {
            assert(text[0] != ' ');
        } else {
            assert(text[k] == ' ');
        }
    }
}

/// Where `i` and `j` are the places of the first two spaces of `text` (or
/// `j` is its length, for want of a second), and `text` is not cut there,
/// it does not match the grammar.
proof fn lemma_no_cut(text: Seq<char>, i: int, j: int)
    requires
        0 <= i <= text.len(),
        forall|k: int| 0 <= k < i ==> #[trigger] text[k] != ' ',
        i < text.len() ==> text[i] == ' ',
        i < text.len() ==> {
            &&& i < j <= text.len()
            &&& forall|k: int| i < k < j ==> #[trigger] text[k] != ' '
            &&& j < text.len() ==> text[j] == ' '
        },
        !cut_at(text, i, j),
    ensures
        !matches_grammar(text),
{
    if matches_grammar(text) {
        let (name, version, location) = choose|name: Seq<char>, version: Seq<char>, location: Seq<char>|
            is_canonical(text, name, version, location);
        lemma_canonical_cut(text, name, version, location);
        let k = first_cut(name);
        let l = second_cut(name, version);
        assert(cut_at(text, k, l));
        if i < k {
            assert(text[i] != ' ');
        }
        if k < i {
            assert(text[k] != ' ');
        }
        assert(i == k);
        if j < l {
            assert(text[j] != ' ');
        }
        if l < j {
            assert(text[l] != ' ');
        }
        assert(j == l);
    }
}

} // verus!
