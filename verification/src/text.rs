//! Character-sequence primitives shared by the codec: first occurrence of a
//! delimiter, splitting on a delimiter, joining pieces back, and their
//! executable counterparts on `&str`.

use vstd::prelude::*;
use vstd::string::StrSliceExecFns;
use vstd::string::StringExecFns;

verus! {

/// Index of the first occurrence of `c` in `s`; `s.len()` when `c` does not occur.
pub open spec fn first_index_of(s: Seq<char>, c: char) -> int
    decreases s.len(),
{
    if s.len() == 0 {
        0
    } else if s[0] == c {
        0
    } else {
        1 + first_index_of(s.skip(1), c)
    }
}

pub proof fn lemma_first_index_of(s: Seq<char>, c: char)
    ensures
        0 <= first_index_of(s, c) <= s.len(),
        first_index_of(s, c) < s.len() ==> s[first_index_of(s, c)] == c,
        forall|j: int| 0 <= j < first_index_of(s, c) ==> s[j] != c,
    decreases s.len(),
{
    if s.len() == 0 {
    } else if s[0] == c {
    } else {
        lemma_first_index_of(s.skip(1), c);
        assert forall|j: int| 0 <= j < first_index_of(s, c) implies s[j] != c by {
            if j > 0 {
                assert(s.skip(1)[j - 1] == s[j]);
            }
        }
        if first_index_of(s, c) < s.len() {
            assert(s.skip(1)[first_index_of(s, c) - 1] == s[first_index_of(s, c)]);
        }
    }
}

/// The characterization of `first_index_of`: any index below which `c` is
/// absent, and at which `c` stands (unless it is the length), is the first index.
pub proof fn lemma_first_index_of_is(s: Seq<char>, c: char, i: int)
    requires
        0 <= i <= s.len(),
        forall|j: int| 0 <= j < i ==> s[j] != c,
        i < s.len() ==> s[i] == c,
    ensures
        first_index_of(s, c) == i,
    decreases s.len(),
{
    if s.len() == 0 {
    } else if s[0] == c {
        assert(i == 0);
    } else {
        assert(i > 0) by {
            assert(0 < s.len() ==> s[0] != c || i > 0);
        }
        assert forall|j: int| 0 <= j < i - 1 implies s.skip(1)[j] != c by {
            assert(s.skip(1)[j] == s[j + 1]);
        }
        if i - 1 < s.skip(1).len() {
            assert(s.skip(1)[i - 1] == s[i]);
        }
        lemma_first_index_of_is(s.skip(1), c, i - 1);
    }
}

pub proof fn lemma_first_index_contains(s: Seq<char>, c: char)
    ensures
        first_index_of(s, c) < s.len() <==> s.contains(c),
{
    lemma_first_index_of(s, c);
    if s.contains(c) {
        let w = choose|w: int| 0 <= w < s.len() && s[w] == c;
        if first_index_of(s, c) == s.len() {
            assert(s[w] != c);
        }
    }
}

/// Index of the first occurrence of the two-character marker `c0 c1` in `s`;
/// `s.len()` when the marker does not occur.
pub open spec fn first_marker_index(s: Seq<char>, c0: char, c1: char) -> int
    decreases s.len(),
{
    if s.len() < 2 {
        s.len() as int
    } else if s[0] == c0 && s[1] == c1 {
        0
    } else {
        1 + first_marker_index(s.skip(1), c0, c1)
    }
}

pub proof fn lemma_first_marker_index(s: Seq<char>, c0: char, c1: char)
    ensures
        0 <= first_marker_index(s, c0, c1) <= s.len(),
        first_marker_index(s, c0, c1) < s.len() ==> first_marker_index(s, c0, c1) + 1 < s.len()
            && s[first_marker_index(s, c0, c1)] == c0 && s[first_marker_index(s, c0, c1) + 1]
            == c1,
        forall|j: int|
            0 <= j < first_marker_index(s, c0, c1) && j + 1 < s.len() ==> !(#[trigger] s[j] == c0
                && s[j + 1] == c1),
    decreases s.len(),
{
    if s.len() < 2 {
    } else if s[0] == c0 && s[1] == c1 {
    } else {
        lemma_first_marker_index(s.skip(1), c0, c1);
        let m = first_marker_index(s, c0, c1);
        assert forall|j: int| 0 <= j < m && j + 1 < s.len() implies !(#[trigger] s[j] == c0 && s[j
            + 1] == c1) by {
            if j > 0 {
                assert(s.skip(1)[j - 1] == s[j]);
                assert(s.skip(1)[j] == s[j + 1]);
            }
        }
        if m < s.len() {
            assert(s.skip(1)[m - 1] == s[m]);
            assert(s.skip(1)[m] == s[m + 1]);
        }
    }
}

pub proof fn lemma_first_marker_index_is(s: Seq<char>, c0: char, c1: char, i: int)
    requires
        0 <= i <= s.len(),
        forall|j: int|
            0 <= j < i && j + 1 < s.len() ==> !(#[trigger] s[j] == c0 && s[j + 1] == c1),
        i < s.len() ==> i + 1 < s.len() && s[i] == c0 && s[i + 1] == c1,
    ensures
        first_marker_index(s, c0, c1) == i,
    decreases s.len(),
{
    if s.len() < 2 {
        assert(i == s.len());
    } else if s[0] == c0 && s[1] == c1 {
        assert(i == 0);
    } else {
        assert(i > 0) by {
            if i == 0 {
                assert(s[0] == c0 && s[1] == c1);
            }
        }
        assert forall|j: int| 0 <= j < i - 1 && j + 1 < s.skip(1).len() implies !(#[trigger] s.skip(
            1,
        )[j] == c0 && s.skip(1)[j + 1] == c1) by {
            assert(s.skip(1)[j] == s[j + 1]);
            assert(s.skip(1)[j + 1] == s[j + 2]);
        }
        if i - 1 < s.skip(1).len() {
            assert(s.skip(1)[i - 1] == s[i]);
            assert(s.skip(1)[i] == s[i + 1]);
        }
        lemma_first_marker_index_is(s.skip(1), c0, c1, i - 1);
    }
}

/// The pieces of `s` between occurrences of `c`: always at least one piece,
/// and an empty `s` yields one empty piece.
pub open spec fn split_all(s: Seq<char>, c: char) -> Seq<Seq<char>>
    decreases s.len(),
    via split_all_decreases
{
    let i = first_index_of(s, c);
    if i >= s.len() {
        seq![s]
    } else {
        seq![s.take(i)] + split_all(s.skip(i + 1), c)
    }
}

#[via_fn]
proof fn split_all_decreases(s: Seq<char>, c: char) {
    lemma_first_index_of(s, c);
}

pub proof fn lemma_split_all_len(s: Seq<char>, c: char)
    ensures
        split_all(s, c).len() >= 1,
    decreases s.len(),
{
    lemma_first_index_of(s, c);
}

/// The pieces joined with `c` between them.
pub open spec fn join_with(pieces: Seq<Seq<char>>, c: char) -> Seq<char>
    decreases pieces.len(),
{
    if pieces.len() == 0 {
        Seq::empty()
    } else if pieces.len() == 1 {
        pieces[0]
    } else {
        pieces[0] + seq![c] + join_with(pieces.skip(1), c)
    }
}

/// Splitting and rejoining restores the text.
pub proof fn lemma_join_split(s: Seq<char>, c: char)
    ensures
        join_with(split_all(s, c), c) == s,
    decreases s.len(),
{
    lemma_first_index_of(s, c);
    let i = first_index_of(s, c);
    if i >= s.len() {
    } else {
        lemma_join_split(s.skip(i + 1), c);
        lemma_split_all_len(s.skip(i + 1), c);
        let rest = split_all(s.skip(i + 1), c);
        let pieces = seq![s.take(i)] + rest;
        assert(pieces[0] == s.take(i));
        assert(pieces.skip(1) =~= rest);
        assert(join_with(pieces, c) == s.take(i) + seq![c] + s.skip(i + 1));
        assert(s.take(i) + seq![c] + s.skip(i + 1) =~= s);
    }
}

/// No piece of a split contains the delimiter.
pub proof fn lemma_split_all_no_sep(s: Seq<char>, c: char)
    ensures
        forall|k: int|
            0 <= k < split_all(s, c).len() ==> !(#[trigger] split_all(s, c)[k]).contains(c),
    decreases s.len(),
{
    lemma_first_index_of(s, c);
    let i = first_index_of(s, c);
    if i >= s.len() {
        assert forall|k: int| 0 <= k < split_all(s, c).len() implies !(#[trigger] split_all(
            s,
            c,
        )[k]).contains(c) by {
            assert(split_all(s, c)[k] == s);
            if s.contains(c) {
                lemma_first_index_contains(s, c);
            }
        }
    } else {
        lemma_split_all_no_sep(s.skip(i + 1), c);
        let rest = split_all(s.skip(i + 1), c);
        assert forall|k: int| 0 <= k < split_all(s, c).len() implies !(#[trigger] split_all(
            s,
            c,
        )[k]).contains(c) by {
            if k == 0 {
                assert(split_all(s, c)[0] == s.take(i));
                if s.take(i).contains(c) {
                    let w = choose|w: int| 0 <= w < i && s.take(i)[w] == c;
                    assert(s[w] == c);
                }
            } else {
                assert(split_all(s, c)[k] == rest[k - 1]);
            }
        }
    }
}

/// Appending one more piece to a join appends a delimiter and the piece.
pub proof fn lemma_join_push(pieces: Seq<Seq<char>>, x: Seq<char>, c: char)
    requires
        pieces.len() >= 1,
    ensures
        join_with(pieces.push(x), c) == join_with(pieces, c) + seq![c] + x,
    decreases pieces.len(),
{
    if pieces.len() == 1 {
        let p = pieces.push(x);
        assert(p.len() == 2);
        assert(p[0] == pieces[0]);
        assert(p.skip(1) =~= seq![x]);
        assert(join_with(seq![x], c) == x);
        assert(join_with(p, c) == pieces[0] + seq![c] + x);
    } else {
        lemma_join_push(pieces.skip(1), x, c);
        let p = pieces.push(x);
        assert(p[0] == pieces[0]);
        assert(p.skip(1) =~= pieces.skip(1).push(x));
        assert(join_with(p, c) == p[0] + seq![c] + join_with(pieces.skip(1).push(x), c));
    }
}

/// First index of `c` in `s`, or the character length of `s` when absent.
pub fn find_char(s: &str, c: char) -> (i: usize)
    ensures
        i as int == first_index_of(s@, c),
        i <= s@.len(),
{
    let n = s.unicode_len();
    let mut i: usize = 0;
    while i < n
        invariant
            i <= n,
            n == s@.len(),
            forall|j: int| 0 <= j < i ==> s@[j] != c,
        decreases n - i,
    {
        if s.get_char(i) == c {
            proof {
                lemma_first_index_of_is(s@, c, i as int);
            }
            return i;
        }
        i = i + 1;
    }
    proof {
        lemma_first_index_of_is(s@, c, n as int);
    }
    n
}

/// First index of the two-character marker `c0 c1` in `s`, or the character
/// length of `s` when absent.
pub fn find_marker(s: &str, c0: char, c1: char) -> (i: usize)
    ensures
        i as int == first_marker_index(s@, c0, c1),
        i <= s@.len(),
{
    let n = s.unicode_len();
    if n < 2 {
        return n;
    }
    let mut i: usize = 0;
    while i < n - 1
        invariant
            i <= n - 1,
            2 <= n == s@.len(),
            forall|j: int| 0 <= j < i && j + 1 < s@.len() ==> !(#[trigger] s@[j] == c0 && s@[j + 1] == c1),
        decreases n - i,
    {
        if s.get_char(i) == c0 && s.get_char(i + 1) == c1 {
            proof {
                lemma_first_marker_index_is(s@, c0, c1, i as int);
            }
            return i;
        }
        i = i + 1;
    }
    proof {
        lemma_first_marker_index_is(s@, c0, c1, n as int);
    }
    n
}

/// Whether two strings hold the same characters.
pub fn str_eq_value(a: &str, b: &str) -> (r: bool)
    ensures
        r == (a@ == b@),
{
    let n = a.unicode_len();
    if n != b.unicode_len() {
        return false;
    }
    let mut i: usize = 0;
    while i < n
        invariant
            i <= n,
            n == a@.len() == b@.len(),
            forall|j: int| 0 <= j < i ==> a@[j] == b@[j],
        decreases n - i,
    {
        if a.get_char(i) != b.get_char(i) {
            return false;
        }
        i = i + 1;
    }
    proof {
        assert(a@ =~= b@);
    }
    true
}

/// Whether `c` occurs in `s`.
pub fn contains_char(s: &str, c: char) -> (r: bool)
    ensures
        r == s@.contains(c),
{
    let n = s.unicode_len();
    let i = find_char(s, c);
    proof {
        lemma_first_index_contains(s@, c);
    }
    i < n
}

/// The pieces of `s` between occurrences of `c`, as owned strings.
pub fn split_on_char(s: &str, c: char) -> (r: Vec<String>)
    ensures
        r.deep_view() == split_all(s@, c),
{
    let mut pieces: Vec<String> = Vec::new();
    let mut rest: &str = s;
    let ghost whole = s@;
    loop
        invariant_except_break
            split_all(whole, c) == pieces.deep_view() + split_all(rest@, c),
        ensures
            split_all(whole, c) == pieces.deep_view(),
        decreases rest@.len(),
    {
        let n = rest.unicode_len();
        let i = find_char(rest, c);
        let ghost prev = pieces.deep_view();
        proof {
            lemma_first_index_of(rest@, c);
        }
        if i == n {
            pieces.push(rest.to_owned());
            proof {
                assert(pieces.deep_view() =~= prev.push(rest@));
                assert(split_all(rest@, c) == seq![rest@]);
                assert(prev + seq![rest@] =~= prev.push(rest@));
            }
            break;
        } else {
            let piece = rest.substring_char(0, i);
            let next = rest.substring_char(i + 1, n);
            pieces.push(piece.to_owned());
            rest = next;
            proof {
                assert(pieces.deep_view() =~= prev.push(piece@));
                assert(split_all(whole, c) == prev + (seq![piece@] + split_all(rest@, c)));
                assert(prev + (seq![piece@] + split_all(rest@, c)) =~= prev.push(piece@)
                    + split_all(rest@, c));
            }
        }
    }
    pieces
}

} // verus!
