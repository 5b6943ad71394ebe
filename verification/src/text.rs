//! Text helpers shared by the wire codecs and the ledger serialization:
//! locating a delimiter, splitting on it, joining with it, and comparing
//! strings, each tied to one mathematical definition.

use vstd::prelude::*;
use vstd::string::StrSliceExecFns;

verus! {

/// Index of the first occurrence of `d` in `s`, or -1 when `s` has none.
pub open spec fn find_char(s: Seq<char>, d: char) -> int
    decreases s.len(),
{
    if s.len() == 0 {
        -1
    } else if s[0] == d {
        0
    } else {
        let r = find_char(s.drop_first(), d);
        if r < 0 {
            -1
        } else {
            r + 1
        }
    }
}

pub proof fn lemma_find_char(s: Seq<char>, d: char)
    ensures
        find_char(s, d) < 0 ==> forall|i: int| 0 <= i < s.len() ==> s[i] != d,
        find_char(s, d) >= 0 ==> {
            &&& find_char(s, d) < s.len()
            &&& s[find_char(s, d)] == d
            &&& forall|i: int| 0 <= i < find_char(s, d) ==> s[i] != d
        },
    decreases s.len(),
{
    if s.len() > 0 && s[0] != d {
        lemma_find_char(s.drop_first(), d);
        let r = find_char(s.drop_first(), d);
        if r < 0 {
            assert forall|i: int| 0 <= i < s.len() implies s[i] != d by {
                if i >= 1 {
                    assert(s.drop_first()[i - 1] == s[i]);
                    assert(s.drop_first()[i - 1] != d);
                }
            }
        } else {
            assert(s[r + 1] == s.drop_first()[r]);
            assert forall|i: int| 0 <= i < r + 1 implies s[i] != d by {
                if i >= 1 {
                    assert(s.drop_first()[i - 1] == s[i]);
                    assert(s.drop_first()[i - 1] != d);
                }
            }
        }
    }
}

/// `find_char` returns exactly the first position that holds `d`.
pub proof fn lemma_find_char_is_first(s: Seq<char>, d: char, k: int)
    requires
        0 <= k < s.len(),
        s[k] == d,
        forall|i: int| 0 <= i < k ==> s[i] != d,
    ensures
        find_char(s, d) == k,
{
    lemma_find_char(s, d);
    let f = find_char(s, d);
    if f < 0 {
        assert(s[k] != d);
    } else if f < k {
        assert(s[f] != d);
    } else if f > k {
        assert(s[k] != d);
    }
}

pub proof fn lemma_find_char_none(s: Seq<char>, d: char)
    requires
        forall|i: int| 0 <= i < s.len() ==> s[i] != d,
    ensures
        find_char(s, d) < 0,
{
    lemma_find_char(s, d);
    let f = find_char(s, d);
    if f >= 0 {
        assert(s[f] != d);
    }
}

/// Pieces of `s` between occurrences of the delimiter `d`, in order.  A
/// string without the delimiter is one piece; every delimiter ends a piece,
/// so a trailing delimiter yields a trailing empty piece.
pub open spec fn spec_split(s: Seq<char>, d: char) -> Seq<Seq<char>>
    decreases s.len(),
    via spec_split_decreases
{
    let i = find_char(s, d);
    if i < 0 {
        seq![s]
    } else {
        seq![s.subrange(0, i)] + spec_split(s.subrange(i + 1, s.len() as int), d)
    }
}

#[via_fn]
proof fn spec_split_decreases(s: Seq<char>, d: char) {
    lemma_find_char(s, d);
}

/// The pieces interleaved with the delimiter, undoing `spec_split`.
pub open spec fn spec_join(parts: Seq<Seq<char>>, d: char) -> Seq<char>
    decreases parts.len(),
{
    if parts.len() == 0 {
        Seq::empty()
    } else if parts.len() == 1 {
        parts[0]
    } else {
        parts[0] + seq![d] + spec_join(parts.drop_first(), d)
    }
}

pub proof fn lemma_split_nonempty(s: Seq<char>, d: char)
    ensures
        spec_split(s, d).len() >= 1,
{
    lemma_find_char(s, d);
}

/// Joining the pieces of a split restores the string.
pub proof fn lemma_join_split(s: Seq<char>, d: char)
    ensures
        spec_join(spec_split(s, d), d) == s,
    decreases s.len(),
{
    lemma_find_char(s, d);
    let i = find_char(s, d);
    if i < 0 {
        assert(spec_join(seq![s], d) == s);
    } else {
        let head = s.subrange(0, i);
        let rest = s.subrange(i + 1, s.len() as int);
        lemma_join_split(rest, d);
        lemma_split_nonempty(rest, d);
        let parts = spec_split(s, d);
        assert(parts.drop_first() =~= spec_split(rest, d));
        assert(parts[0] == head);
        assert(spec_join(parts, d) == head + seq![d] + spec_join(spec_split(rest, d), d));
        assert(head + seq![d] + rest =~= s);
    }
}

/// Splitting a join restores the pieces, as long as no piece contains the
/// delimiter.
pub proof fn lemma_split_join(parts: Seq<Seq<char>>, d: char)
    requires
        parts.len() >= 1,
        forall|k: int| 0 <= k < parts.len() ==> !(#[trigger] parts[k]).contains(d),
    ensures
        spec_split(spec_join(parts, d), d) == parts,
    decreases parts.len(),
{
    if parts.len() == 1 {
        let t = spec_join(parts, d);
        assert(t == parts[0]);
        assert(forall|i: int| 0 <= i < t.len() ==> t[i] != d) by {
            assert(!parts[0].contains(d));
        }
        lemma_find_char_none(t, d);
        assert(spec_split(t, d) =~= parts);
    } else {
        let head = parts[0];
        let rest = parts.drop_first();
        let t = spec_join(parts, d);
        let tr = spec_join(rest, d);
        assert(t == head + seq![d] + tr);
        assert(t[head.len() as int] == d);
        assert(forall|i: int| 0 <= i < head.len() ==> t[i] != d) by {
            assert(!head.contains(d));
            assert(forall|i: int| 0 <= i < head.len() ==> t[i] == #[trigger] head[i]);
        }
        lemma_find_char_is_first(t, d, head.len() as int);
        assert(t.subrange(0, head.len() as int) =~= head);
        assert(t.subrange(head.len() as int + 1, t.len() as int) =~= tr);
        assert(forall|k: int| 0 <= k < rest.len() ==> !(#[trigger] rest[k]).contains(d)) by {
            assert(forall|k: int|
                0 <= k < rest.len() ==> rest[k] == #[trigger] parts[k + 1]);
        }
        lemma_split_join(rest, d);
        assert(spec_split(t, d) =~= seq![head] + spec_split(tr, d));
        assert(seq![head] + rest =~= parts);
    }
}

/// Joining one more piece appends a delimiter and the piece.
pub proof fn lemma_join_push_chunk(parts: Seq<Seq<char>>, p: Seq<char>, d: char)
    requires
        parts.len() >= 1,
    ensures
        spec_join(parts.push(p), d) == spec_join(parts, d) + seq![d] + p,
    decreases parts.len(),
{
    let q = parts.push(p);
    assert(q[0] == parts[0]);
    if parts.len() == 1 {
        assert(q.drop_first() =~= seq![p]);
        assert(spec_join(q.drop_first(), d) == p);
    } else {
        assert(q.drop_first() =~= parts.drop_first().push(p));
        lemma_join_push_chunk(parts.drop_first(), p, d);
        assert(parts[0] + seq![d] + (spec_join(parts.drop_first(), d) + seq![d] + p) =~= (parts[0]
            + seq![d] + spec_join(parts.drop_first(), d)) + seq![d] + p);
    }
}

/// Views of the strings in a vector.
pub open spec fn views_of(parts: Seq<String>) -> Seq<Seq<char>> {
    parts.map_values(|p: String| p@)
}

/// Whether two strings hold the same characters.
pub fn str_eq(a: &str, b: &str) -> (r: bool)
    ensures
        r == (a@ == b@),
{
    let alen = a.unicode_len();
    let blen = b.unicode_len();
    if alen != blen {
        return false;
    }
    let mut i: usize = 0;
    while i < alen
        invariant
            0 <= i <= alen,
            alen == a@.len() == b@.len(),
            forall|k: int| 0 <= k < i ==> a@[k] == b@[k],
        decreases alen - i,
    {
        if a.get_char(i) != b.get_char(i) {
            return false;
        }
        i = i + 1;
    }
    proof {
        assert(a@ =~= b@);
    }
    true
}

/// The pieces of `s` between occurrences of `d`.
pub fn split_str(s: &str, d: char) -> (parts: Vec<String>)
    ensures
        views_of(parts@) == spec_split(s@, d),
        parts@.len() >= 1,
{
    let len = s.unicode_len();
    let mut parts: Vec<String> = Vec::new();
    proof {
        assert(s@.subrange(0, len as int) =~= s@);
        assert(views_of(parts@) =~= Seq::<Seq<char>>::empty());
        assert(Seq::<Seq<char>>::empty() + spec_split(s@, d) =~= spec_split(s@, d));
    }
    let mut start: usize = 0;
    let mut i: usize = 0;
    while i < len
        invariant
            0 <= start <= i <= len,
            len == s@.len(),
            forall|k: int| start <= k < i ==> s@[k] != d,
            spec_split(s@, d) == views_of(parts@) + spec_split(
                s@.subrange(start as int, len as int),
                d,
            ),
        decreases len - i,
    {
        let c = s.get_char(i);
        if c == d {
            let ghost tail = s@.subrange(start as int, len as int);
            let piece = s.substring_char(start, i).to_owned();
            proof {
                assert(tail[i - start] == d);
                assert(forall|k: int| 0 <= k < i - start ==> tail[k] != d) by {
                    assert(forall|k: int|
                        0 <= k < tail.len() ==> tail[k] == #[trigger] s@[k + start]);
                }
                lemma_find_char_is_first(tail, d, i - start);
                assert(tail.subrange(0, i - start) =~= s@.subrange(start as int, i as int));
                assert(tail.subrange(i - start + 1, tail.len() as int) =~= s@.subrange(
                    i as int + 1,
                    len as int,
                ));
                assert(views_of(parts@ + seq![piece]) =~= views_of(parts@) + seq![piece@]);
                assert((views_of(parts@) + seq![piece@]) + spec_split(
                    s@.subrange(i as int + 1, len as int),
                    d,
                ) =~= views_of(parts@) + (seq![piece@] + spec_split(
                    s@.subrange(i as int + 1, len as int),
                    d,
                )));
            }
            parts.push(piece);
            start = i + 1;
        }
        i = i + 1;
    }
    let ghost tail = s@.subrange(start as int, len as int);
    let piece = s.substring_char(start, len).to_owned();
    proof {
        assert(forall|k: int| 0 <= k < tail.len() ==> tail[k] != d) by {
            assert(forall|k: int| 0 <= k < tail.len() ==> tail[k] == #[trigger] s@[k + start]);
        }
        lemma_find_char_none(tail, d);
        assert(spec_split(tail, d) == seq![tail]);
        assert(views_of(parts@ + seq![piece]) =~= views_of(parts@) + seq![piece@]);
        assert(views_of(parts@) + seq![tail] =~= spec_split(s@, d));
    }
    parts.push(piece);
    parts
}

} // verus!
