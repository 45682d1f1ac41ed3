//! Byte strings: the comparisons and cuts the rest of the crate is built from.
//!
//! Everything the proxy handles (request paths, header values, file names,
//! pkt-lines) is a string of bytes, viewed in contracts as a `Seq<u8>`.

use vstd::prelude::*;
use vstd::slice::{slice_subrange, slice_to_vec};

verus! {

/// `/`, the separator of URL paths and of file names.
pub const SLASH: u8 = 0x2f;

/// `.`
pub const DOT: u8 = 0x2e;

/// The space that separates the fields of a pkt-line.
pub const SP: u8 = 0x20;

/// The line feed that ends a pkt-line.
pub const LF: u8 = 0x0a;

/// The NUL byte between a ref name and the capability list.
pub const NUL: u8 = 0x00;

/// `:`, which would introduce a port or a password in an authority.
pub const COLON: u8 = 0x3a;

/// `@`, which would end the user information in an authority.
pub const AT: u8 = 0x40;

/// `s` begins with `prefix`.
pub open spec fn has_prefix(s: Seq<u8>, prefix: Seq<u8>) -> bool {
    prefix.len() <= s.len() && s.take(prefix.len() as int) == prefix
}

/// `s` ends with `suffix`.
pub open spec fn has_suffix(s: Seq<u8>, suffix: Seq<u8>) -> bool {
    suffix.len() <= s.len() && s.skip(s.len() - suffix.len()) == suffix
}

/// The pieces of `s` between occurrences of `sep`, in order. There is always
/// one piece more than there are separators, so a leading, trailing or doubled
/// separator shows as an empty piece.
pub open spec fn pieces(s: Seq<u8>, sep: u8) -> Seq<Seq<u8>>
    decreases s.len(),
{
    if s.len() == 0 {
        seq![Seq::<u8>::empty()]
    } else {
        let before = pieces(s.drop_last(), sep);
        if s.last() == sep {
            before.push(Seq::<u8>::empty())
        } else {
            before.drop_last().push(before.last().push(s.last()))
        }
    }
}

/// The views of a list of slices.
pub open spec fn views(list: Seq<&[u8]>) -> Seq<Seq<u8>> {
    Seq::new(list.len(), |k: int| list[k]@)
}

/// The views of a list of byte strings.
pub open spec fn rows(list: Seq<Vec<u8>>) -> Seq<Seq<u8>> {
    Seq::new(list.len(), |k: int| list[k]@)
}

/// The bytes that an optional byte string holds.
pub open spec fn bytes_of(v: Option<Vec<u8>>) -> Option<Seq<u8>> {
    match v {
        Some(bytes) => Some(bytes@),
        None => None,
    }
}

/// The index of the first `byte` in `s`, if there is one.
pub open spec fn position(s: Seq<u8>, byte: u8) -> Option<int>
    decreases s.len(),
{
    if s.len() == 0 {
        None
    } else {
        match position(s.drop_last(), byte) {
            Some(i) => Some(i),
            None => if s.last() == byte {
                Some(s.len() - 1)
            } else {
                None
            },
        }
    }
}

/// `position` finds the first occurrence, and only fails where there is none.
pub proof fn lemma_position(s: Seq<u8>, byte: u8)
    ensures
        match position(s, byte) {
            Some(i) => 0 <= i < s.len() && s[i] == byte && forall|j: int|
                0 <= j < i ==> s[j] != byte,
            None => forall|j: int| 0 <= j < s.len() ==> s[j] != byte,
        },
    decreases s.len(),
{
    if s.len() > 0 {
        let front = s.drop_last();
        lemma_position(front, byte);
        assert forall|j: int| 0 <= j < front.len() implies front[j] == s[j] by {}
        match position(front, byte) {
            Some(i) => {
                assert(front[i] == s[i]);
            },
            None => {
                assert forall|j: int| 0 <= j < s.len() - 1 implies s[j] != byte by {
                    assert(front[j] == s[j]);
                }
            },
        }
    }
}

/// There is always at least one piece.
pub proof fn lemma_pieces_nonempty(s: Seq<u8>, sep: u8)
    ensures
        pieces(s, sep).len() >= 1,
    decreases s.len(),
{
    if s.len() > 0 {
        lemma_pieces_nonempty(s.drop_last(), sep);
    }
}

/// A string without the separator is its own single piece.
pub proof fn lemma_pieces_of_one(s: Seq<u8>, sep: u8)
    requires
        !s.contains(sep),
    ensures
        pieces(s, sep) == seq![s],
    decreases s.len(),
{
    if s.len() == 0 {
        assert(s =~= Seq::<u8>::empty());
    } else {
        assert(s[s.len() - 1] == s.last());
        assert forall|j: int| 0 <= j < s.drop_last().len() implies s.drop_last()[j] != sep by {
            assert(s[j] == s.drop_last()[j]);
        }
        lemma_pieces_of_one(s.drop_last(), sep);
        assert(s.drop_last().push(s.last()) =~= s);
        assert(pieces(s, sep) =~= seq![s]);
    }
}

/// Cutting at a separator cuts the list of pieces: the pieces of
/// `a + [sep] + b` are those of `a` followed by those of `b`.
pub proof fn lemma_pieces_join(a: Seq<u8>, b: Seq<u8>, sep: u8)
    ensures
        pieces(a + seq![sep] + b, sep) == pieces(a, sep) + pieces(b, sep),
    decreases b.len(),
{
    let whole = a + seq![sep] + b;
    if b.len() == 0 {
        assert(whole.drop_last() =~= a);
        assert(pieces(whole, sep) =~= pieces(a, sep) + pieces(b, sep));
    } else {
        lemma_pieces_join(a, b.drop_last(), sep);
        lemma_pieces_nonempty(b.drop_last(), sep);
        assert(whole.drop_last() =~= a + seq![sep] + b.drop_last());
        assert(whole.last() == b.last());
        assert(pieces(whole, sep) =~= pieces(a, sep) + pieces(b, sep));
    }
}

/// The strings of a list, joined by `sep`.
pub open spec fn joined(list: Seq<Seq<u8>>, sep: u8) -> Seq<u8>
    decreases list.len(),
{
    if list.len() == 0 {
        Seq::empty()
    } else if list.len() == 1 {
        list[0]
    } else {
        joined(list.drop_last(), sep) + seq![sep] + list.last()
    }
}

/// Cutting gives back what was joined: the pieces of a joined list of
/// strings that do not hold the separator are the strings of the list.
pub proof fn lemma_joined_pieces(list: Seq<Seq<u8>>, sep: u8)
    requires
        list.len() >= 1,
        forall|k: int| 0 <= k < list.len() ==> !(#[trigger] list[k]).contains(sep),
    ensures
        pieces(joined(list, sep), sep) == list,
    decreases list.len(),
{
    if list.len() == 1 {
        lemma_pieces_of_one(list[0], sep);
        assert(seq![list[0]] =~= list);
    } else {
        let front = list.drop_last();
        assert forall|k: int| 0 <= k < front.len() implies !(#[trigger] front[k]).contains(
            sep,
        ) by {
            assert(front[k] == list[k]);
        }
        lemma_joined_pieces(front, sep);
        assert(!list[list.len() - 1].contains(sep));
        lemma_pieces_of_one(list.last(), sep);
        lemma_pieces_join(joined(front, sep), list.last(), sep);
        assert(front + seq![list.last()] =~= list);
    }
}

/// Whether two byte strings are equal.
pub fn equal(a: &[u8], b: &[u8]) -> (r: bool)
    ensures
        r == (a@ == b@),
{
    if a.len() != b.len() {
        return false;
    }
    let mut i: usize = 0;
    while i < a.len()
        invariant
            i <= a.len(),
            a.len() == b.len(),
            a@.take(i as int) == b@.take(i as int),
        decreases a.len() - i,
    {
        if a[i] != b[i] {
            return false;
        }
        proof {
            assert(a@.take(i + 1) =~= a@.take(i as int).push(a@[i as int]));
            assert(b@.take(i + 1) =~= b@.take(i as int).push(b@[i as int]));
        }
        i = i + 1;
    }
    proof {
        assert(a@.take(a.len() as int) =~= a@);
        assert(b@.take(b.len() as int) =~= b@);
    }
    true
}

/// A copy of an optional byte string.
pub fn copy_of(v: &Option<Vec<u8>>) -> (r: Option<Vec<u8>>)
    ensures
        bytes_of(r) == bytes_of(*v),
{
    match v {
        Some(bytes) => Some(slice_to_vec(bytes.as_slice())),
        None => None,
    }
}

/// The bytes of `a` followed by those of `b`.
pub fn concat(a: &[u8], b: &[u8]) -> (r: Vec<u8>)
    ensures
        r@ == a@ + b@,
{
    let mut out = slice_to_vec(a);
    out.extend_from_slice(b);
    out
}

/// Whether `s` begins with `prefix`.
pub fn starts_with(s: &[u8], prefix: &[u8]) -> (r: bool)
    ensures
        r == has_prefix(s@, prefix@),
{
    if prefix.len() > s.len() {
        return false;
    }
    equal(slice_subrange(s, 0, prefix.len()), prefix)
}

/// Whether `s` ends with `suffix`.
pub fn ends_with(s: &[u8], suffix: &[u8]) -> (r: bool)
    ensures
        r == has_suffix(s@, suffix@),
{
    if suffix.len() > s.len() {
        return false;
    }
    equal(slice_subrange(s, s.len() - suffix.len(), s.len()), suffix)
}

/// The index of the first `byte` in `s`.
pub fn find(s: &[u8], byte: u8) -> (r: Option<usize>)
    ensures
        match r {
            Some(i) => position(s@, byte) == Some(i as int),
            None => position(s@, byte) is None,
        },
{
    let mut i: usize = 0;
    while i < s.len()
        invariant
            i <= s.len(),
            position(s@.take(i as int), byte) is None,
        decreases s.len() - i,
    {
        proof {
            assert(s@.take(i + 1).drop_last() =~= s@.take(i as int));
        }
        if s[i] == byte {
            proof {
                lemma_position_extends(s@, byte, i + 1);
            }
            return Some(i);
        }
        i = i + 1;
    }
    proof {
        assert(s@.take(s.len() as int) =~= s@);
    }
    None
}

/// Once a prefix of `s` holds `byte`, the first occurrence in `s` is the one
/// in the prefix.
pub proof fn lemma_position_extends(s: Seq<u8>, byte: u8, n: int)
    requires
        0 <= n <= s.len(),
        position(s.take(n), byte) is Some,
    ensures
        position(s, byte) == position(s.take(n), byte),
    decreases s.len() - n,
{
    if n < s.len() {
        assert(s.take(n + 1).drop_last() =~= s.take(n));
        lemma_position_extends(s, byte, n + 1);
    } else {
        assert(s.take(n) =~= s);
    }
}

/// Cuts `s` at every `sep`.
pub fn split<'a>(s: &'a [u8], sep: u8) -> (r: Vec<&'a [u8]>)
    ensures
        views(r@) == pieces(s@, sep),
{
    let mut out: Vec<&'a [u8]> = Vec::new();
    let mut start: usize = 0;
    let mut i: usize = 0;
    proof {
        assert(s@.take(0) =~= Seq::<u8>::empty());
        assert(s@.subrange(0, 0) =~= Seq::<u8>::empty());
        assert(views(out@).push(s@.subrange(0, 0)) =~= pieces(s@.take(0), sep));
    }
    while i < s.len()
        invariant
            start <= i <= s.len(),
            views(out@).push(s@.subrange(start as int, i as int)) == pieces(s@.take(i as int), sep),
        decreases s.len() - i,
    {
        let ghost before = pieces(s@.take(i as int), sep);
        let ghost done = views(out@);
        let ghost begun = start as int;
        proof {
            assert(s@.take(i + 1).drop_last() =~= s@.take(i as int));
            assert(s@.take(i + 1).last() == s@[i as int]);
        }
        if s[i] == sep {
            out.push(slice_subrange(s, start, i));
            start = i + 1;
            proof {
                assert(views(out@) =~= done.push(s@.subrange(begun, i as int)));
                assert(s@.subrange(start as int, i + 1) =~= Seq::<u8>::empty());
            }
        } else {
            proof {
                assert(before.drop_last() =~= done);
                assert(s@.subrange(start as int, i + 1) =~= s@.subrange(
                    start as int,
                    i as int,
                ).push(s@[i as int]));
            }
        }
        i = i + 1;
    }
    out.push(slice_subrange(s, start, s.len()));
    proof {
        assert(s@.take(s.len() as int) =~= s@);
        assert(views(out@) =~= pieces(s@, sep));
    }
    out
}

} // verus!
