//! Searching, splitting and comparing texts.

use vstd::prelude::*;
use vstd::string::StrSliceExecFns;
use vstd::string::StringSliceAdditionalSpecFns;
use vstd::utf8::encode_utf8;
use vstd::utf8::encode_utf8_decode_utf8;

verus! {

/// Index of the first `c` in `s`, or `s.len()` where it holds none.
pub open spec fn first_of(s: Seq<char>, c: char) -> int
    decreases s.len(),
{
    if s.len() == 0 {
        0
    } else if s[0] == c {
        0
    } else {
        1 + first_of(s.drop_first(), c)
    }
}

/// `first_of` is the least index that holds `c`.
pub proof fn lemma_first_of(s: Seq<char>, c: char)
    ensures
        0 <= first_of(s, c) <= s.len(),
        forall|j: int| 0 <= j < first_of(s, c) ==> s[j] != c,
        first_of(s, c) < s.len() ==> s[first_of(s, c)] == c,
    decreases s.len(),
{
    if s.len() != 0 && s[0] != c {
        let t = s.drop_first();
        lemma_first_of(t, c);
        assert forall|j: int| 0 <= j < first_of(s, c) implies s[j] != c by {
            if j > 0 {
                assert(s[j] == t[j - 1]);
            }
        }
    }
}

/// An index that holds `c` and has none before it is `first_of`.
pub proof fn lemma_first_of_unique(s: Seq<char>, c: char, i: int)
    requires
        0 <= i <= s.len(),
        forall|j: int| 0 <= j < i ==> s[j] != c,
        i < s.len() ==> s[i] == c,
    ensures
        first_of(s, c) == i,
{
    lemma_first_of(s, c);
}

/// The pieces of `s` between the occurrences of `sep`: one piece more than
/// there are occurrences, so one empty piece for the empty text.
pub open spec fn split_spec(s: Seq<char>, sep: char) -> Seq<Seq<char>>
    decreases s.len(),
{
    let i = first_of(s, sep);
    if 0 <= i < s.len() {
        seq![s.subrange(0, i)] + split_spec(s.subrange(i + 1, s.len() as int), sep)
    } else {
        seq![s]
    }
}

/// The pieces joined again, `sep` between them.
pub open spec fn join_spec(pieces: Seq<Seq<char>>, sep: char) -> Seq<char>
    decreases pieces.len(),
{
    if pieces.len() == 0 {
        Seq::empty()
    } else if pieces.len() == 1 {
        pieces[0]
    } else {
        pieces[0] + seq![sep] + join_spec(pieces.drop_first(), sep)
    }
}

/// Splitting loses nothing: no piece holds the separator, and the pieces
/// joined by the separator are the text.
pub proof fn lemma_split_join(s: Seq<char>, sep: char)
    ensures
        split_spec(s, sep).len() >= 1,
        forall|k: int, j: int|
            0 <= k < split_spec(s, sep).len() && 0 <= j < split_spec(s, sep)[k].len()
                ==> #[trigger] split_spec(s, sep)[k][j] != sep,
        join_spec(split_spec(s, sep), sep) == s,
    decreases s.len(),
{
    lemma_first_of(s, sep);
    let i = first_of(s, sep);
    if i < s.len() {
        let head = s.subrange(0, i);
        let rest = s.subrange(i + 1, s.len() as int);
        lemma_split_join(rest, sep);
        let pieces = split_spec(s, sep);
        let tail = split_spec(rest, sep);
        assert(pieces == seq![head] + tail);
        assert(pieces.drop_first() =~= tail);
        assert forall|k: int, j: int|
            0 <= k < pieces.len() && 0 <= j < pieces[k].len() implies #[trigger] pieces[k][j]
            != sep by {
            if k == 0 {
                assert(pieces[0][j] == s[j]);
            } else {
                assert(pieces[k] == tail[k - 1]);
            }
        }
        assert(join_spec(pieces, sep) =~= s);
    }
}

/// Two texts with the same encoding are the same text.
pub proof fn lemma_encode_injective(a: Seq<char>, b: Seq<char>)
    requires
        encode_utf8(a) == encode_utf8(b),
    ensures
        a == b,
{
    encode_utf8_decode_utf8(a);
    encode_utf8_decode_utf8(b);
}

/// The views of a list of texts.
pub open spec fn text_views(texts: Seq<String>) -> Seq<Seq<char>> {
    Seq::new(texts.len(), |i: int| texts[i]@)
}

/// Index of the first `c` in `s`, or the number of characters of `s` where
/// it holds none.
pub fn find_char(s: &str, c: char) -> (i: usize)
    ensures
        i == first_of(s@, c),
        i <= s@.len(),
{
    let n = s.unicode_len();
    let mut idx: usize = 0;
    for x in it: s.chars()
        invariant
            idx == it.index(),
            it.seq() == s@,
            n == s@.len(),
            forall|j: int| 0 <= j < idx ==> s@[j] != c,
    {
        if x == c {
            proof {
                lemma_first_of_unique(s@, c, idx as int);
            }
            return idx;
        }
        idx += 1;
    }
    proof {
        lemma_first_of_unique(s@, c, idx as int);
    }
    idx
}

/// The pieces of `s` between the occurrences of `sep`.
pub fn split(s: &str, sep: char) -> (pieces: Vec<String>)
    ensures
        text_views(pieces@) == split_spec(s@, sep),
{
    let n = s.unicode_len();
    let mut pieces: Vec<String> = Vec::new();
    let mut start: usize = 0;
    let mut idx: usize = 0;
    proof {
        assert(s@.subrange(0, n as int) =~= s@);
        assert(text_views(pieces@) + split_spec(s@, sep) =~= split_spec(s@, sep));
    }
    for x in it: s.chars()
        invariant
            idx == it.index(),
            it.seq() == s@,
            n == s@.len(),
            start <= idx,
            forall|j: int| start <= j < idx ==> s@[j] != sep,
            text_views(pieces@) + split_spec(s@.subrange(start as int, n as int), sep) == split_spec(
                s@,
                sep,
            ),
    {
        if x == sep {
            let piece = s.substring_char(start, idx).to_owned();
            proof {
                let rest = s@.subrange(start as int, n as int);
                assert forall|j: int| 0 <= j < idx - start implies rest[j] != sep by {
                    assert(rest[j] == s@[start + j]);
                }
                assert(rest[idx - start] == sep);
                lemma_first_of_unique(rest, sep, idx - start);
                assert(rest.subrange(0, idx - start) =~= piece@);
                assert(rest.subrange(idx - start + 1, rest.len() as int) =~= s@.subrange(
                    idx + 1,
                    n as int,
                ));
                assert(text_views(pieces@.push(piece)) =~= text_views(pieces@) + seq![piece@]);
                assert((text_views(pieces@) + seq![piece@]) + split_spec(
                    s@.subrange(idx + 1, n as int),
                    sep,
                ) =~= text_views(pieces@) + (seq![piece@] + split_spec(
                    s@.subrange(idx + 1, n as int),
                    sep,
                )));
            }
            pieces.push(piece);
            start = idx + 1;
        }
        idx += 1;
    }
    let piece = s.substring_char(start, n).to_owned();
    proof {
        let rest = s@.subrange(start as int, n as int);
        assert forall|j: int| 0 <= j < rest.len() implies rest[j] != sep by {
            assert(rest[j] == s@[start + j]);
        }
        lemma_first_of_unique(rest, sep, rest.len() as int);
        assert(text_views(pieces@.push(piece)) =~= text_views(pieces@) + seq![piece@]);
    }
    pieces.push(piece);
    pieces
}

/// Whether two texts are the same.
pub fn str_eq(a: &str, b: &str) -> (equal: bool)
    ensures
        equal == (a@ == b@),
{
    let x = a.as_bytes();
    let y = b.as_bytes();
    if x.len() != y.len() {
        return false;
    }
    let mut i: usize = 0;
    while i < x.len()
        invariant
            i <= x@.len(),
            x@.len() == y@.len(),
            x@ == encode_utf8(a@),
            y@ == encode_utf8(b@),
            forall|j: int| 0 <= j < i ==> x@[j] == y@[j],
        decreases x@.len() - i,
    {
        if x[i] != y[i] {
            assert(encode_utf8(a@)[i as int] != encode_utf8(b@)[i as int]);
            return false;
        }
        i += 1;
    }
    proof {
        assert(x@ =~= y@);
        lemma_encode_injective(a@, b@);
    }
    true
}

} // verus!
