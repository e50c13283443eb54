//! Lexicographic comparison of rendered texts and of item paths.
//!
//! Public items are ordered lexicographically over their rendered text, and
//! the diff engine matches items over their path; both orders are defined
//! here, each as a spec-level three-way comparison mirrored by an executable
//! comparator.

use vstd::prelude::*;

verus! {

/// The result of a three-way comparison.
#[derive(Clone, Copy, Debug, PartialEq, Eq, Structural)]
pub enum Cmp {
    Less,
    Equal,
    Greater,
}

/// Three-way lexicographic comparison of two character sequences, by code
/// point.
pub open spec fn chars_cmp(a: Seq<char>, b: Seq<char>) -> Cmp
    decreases a.len(),
{
    if a.len() == 0 && b.len() == 0 {
        Cmp::Equal
    } else if a.len() == 0 {
        Cmp::Less
    } else if b.len() == 0 {
        Cmp::Greater
    } else if (a[0] as int) < (b[0] as int) {
        Cmp::Less
    } else if (a[0] as int) > (b[0] as int) {
        Cmp::Greater
    } else {
        chars_cmp(a.drop_first(), b.drop_first())
    }
}

/// Two character sequences compare equal exactly when they are equal.
pub proof fn lemma_chars_cmp_equal(a: Seq<char>, b: Seq<char>)
    ensures
        (chars_cmp(a, b) == Cmp::Equal) <==> (a == b),
    decreases a.len(),
{
    if a.len() != 0 && b.len() != 0 && a[0] == b[0] {
        lemma_chars_cmp_equal(a.drop_first(), b.drop_first());
        if a.drop_first() == b.drop_first() {
            assert forall|i: int| 0 <= i < a.len() implies a[i] == b[i] by {
                if i > 0 {
                    assert(a[i] == a.drop_first()[i - 1]);
                    assert(b[i] == b.drop_first()[i - 1]);
                }
            }
            assert(a =~= b);
        }
        if a == b {
            assert(a.drop_first() =~= b.drop_first());
        }
    } else {
        if a.len() == 0 && b.len() == 0 {
            assert(a =~= b);
        }
        if a == b && a.len() != 0 {
            assert(a[0] == b[0]);
        }
    }
}

/// Compares two strings from position `i` on.
fn str_cmp_from(a: &str, b: &str, i: usize, alen: usize, blen: usize) -> (r: Cmp)
    requires
        alen == a@.len(),
        blen == b@.len(),
        i <= alen,
        i <= blen,
    ensures
        r == chars_cmp(a@.skip(i as int), b@.skip(i as int)),
    decreases alen - i,
{
    if i == alen && i == blen {
        Cmp::Equal
    } else if i == alen {
        Cmp::Less
    } else if i == blen {
        Cmp::Greater
    } else {
        let ca = a.get_char(i);
        let cb = b.get_char(i);
        proof {
            assert(a@.skip(i as int)[0] == a@[i as int]);
            assert(b@.skip(i as int)[0] == b@[i as int]);
        }
        if (ca as u32) < (cb as u32) {
            Cmp::Less
        } else if (ca as u32) > (cb as u32) {
            Cmp::Greater
        } else {
            proof {
                assert(a@.skip(i as int).drop_first() =~= a@.skip(i + 1int));
                assert(b@.skip(i as int).drop_first() =~= b@.skip(i + 1int));
            }
            str_cmp_from(a, b, i + 1, alen, blen)
        }
    }
}

/// Three-way comparison of two strings, lexicographic by code point.
pub fn str_cmp(a: &str, b: &str) -> (r: Cmp)
    ensures
        r == chars_cmp(a@, b@),
{
    let alen = a.unicode_len();
    let blen = b.unicode_len();
    let r = str_cmp_from(a, b, 0, alen, blen);
    proof {
        assert(a@.skip(0) =~= a@);
        assert(b@.skip(0) =~= b@);
    }
    r
}

/// Whether two strings have equal contents.
pub fn str_eq(a: &str, b: &str) -> (r: bool)
    ensures
        r == (a@ == b@),
{
    let r = str_cmp(a, b);
    proof {
        lemma_chars_cmp_equal(a@, b@);
    }
    match r {
        Cmp::Equal => true,
        _ => false,
    }
}

/// The character sequences of a sequence of strings.
pub open spec fn strs_view(v: Seq<String>) -> Seq<Seq<char>> {
    v.map_values(|s: String| s@)
}

/// Three-way lexicographic comparison of two paths (sequences of segment
/// names): segment by segment, shorter prefix first.
pub open spec fn path_cmp(a: Seq<Seq<char>>, b: Seq<Seq<char>>) -> Cmp
    decreases a.len(),
{
    if a.len() == 0 && b.len() == 0 {
        Cmp::Equal
    } else if a.len() == 0 {
        Cmp::Less
    } else if b.len() == 0 {
        Cmp::Greater
    } else if chars_cmp(a[0], b[0]) == Cmp::Equal {
        path_cmp(a.drop_first(), b.drop_first())
    } else {
        chars_cmp(a[0], b[0])
    }
}

/// Two paths compare equal exactly when they are equal.
pub proof fn lemma_path_cmp_equal(a: Seq<Seq<char>>, b: Seq<Seq<char>>)
    ensures
        (path_cmp(a, b) == Cmp::Equal) <==> (a == b),
    decreases a.len(),
{
    if a.len() != 0 && b.len() != 0 {
        lemma_chars_cmp_equal(a[0], b[0]);
        if chars_cmp(a[0], b[0]) == Cmp::Equal {
            lemma_path_cmp_equal(a.drop_first(), b.drop_first());
            if a.drop_first() == b.drop_first() {
                assert forall|i: int| 0 <= i < a.len() implies a[i] == b[i] by {
                    if i > 0 {
                        assert(a[i] == a.drop_first()[i - 1]);
                        assert(b[i] == b.drop_first()[i - 1]);
                    }
                }
                assert(a =~= b);
            }
            if a == b {
                assert(a.drop_first() =~= b.drop_first());
            }
        } else {
            if a == b {
                assert(a[0] == b[0]);
            }
        }
    } else {
        if a.len() == 0 && b.len() == 0 {
            assert(a =~= b);
        }
    }
}

/// Character comparison is antisymmetric: swapping the sides swaps the
/// outcome.
pub proof fn lemma_chars_cmp_flip(a: Seq<char>, b: Seq<char>)
    ensures
        (chars_cmp(a, b) == Cmp::Less) <==> (chars_cmp(b, a) == Cmp::Greater),
    decreases a.len(),
{
    if a.len() != 0 && b.len() != 0 && a[0] == b[0] {
        lemma_chars_cmp_flip(a.drop_first(), b.drop_first());
    }
}

/// Character comparison is transitive.
pub proof fn lemma_chars_cmp_trans(a: Seq<char>, b: Seq<char>, c: Seq<char>)
    requires
        chars_cmp(a, b) == Cmp::Less,
        chars_cmp(b, c) == Cmp::Less,
    ensures
        chars_cmp(a, c) == Cmp::Less,
    decreases a.len(),
{
    if a.len() != 0 {
        if a[0] == b[0] && b[0] == c[0] {
            lemma_chars_cmp_trans(a.drop_first(), b.drop_first(), c.drop_first());
        }
    }
}

/// Path comparison is antisymmetric: swapping the sides swaps the outcome.
pub proof fn lemma_path_cmp_flip(a: Seq<Seq<char>>, b: Seq<Seq<char>>)
    ensures
        (path_cmp(a, b) == Cmp::Less) <==> (path_cmp(b, a) == Cmp::Greater),
    decreases a.len(),
{
    if a.len() != 0 && b.len() != 0 {
        lemma_chars_cmp_flip(a[0], b[0]);
        lemma_chars_cmp_flip(b[0], a[0]);
        lemma_chars_cmp_equal(a[0], b[0]);
        lemma_chars_cmp_equal(b[0], a[0]);
        if chars_cmp(a[0], b[0]) == Cmp::Equal {
            lemma_path_cmp_flip(a.drop_first(), b.drop_first());
        }
    }
}

/// Path comparison is transitive.
pub proof fn lemma_path_cmp_trans(a: Seq<Seq<char>>, b: Seq<Seq<char>>, c: Seq<Seq<char>>)
    requires
        path_cmp(a, b) == Cmp::Less,
        path_cmp(b, c) == Cmp::Less,
    ensures
        path_cmp(a, c) == Cmp::Less,
    decreases a.len(),
{
    if a.len() != 0 && b.len() != 0 && c.len() != 0 {
        lemma_chars_cmp_equal(a[0], b[0]);
        lemma_chars_cmp_equal(b[0], c[0]);
        lemma_chars_cmp_equal(a[0], c[0]);
        if a[0] == b[0] && b[0] == c[0] {
            lemma_path_cmp_trans(a.drop_first(), b.drop_first(), c.drop_first());
        } else if a[0] == b[0] {
            assert(chars_cmp(b[0], c[0]) == Cmp::Less);
            assert(chars_cmp(a[0], c[0]) == Cmp::Less);
        } else if b[0] == c[0] {
            assert(chars_cmp(a[0], b[0]) == Cmp::Less);
            assert(chars_cmp(a[0], c[0]) == Cmp::Less);
        } else {
            lemma_chars_cmp_trans(a[0], b[0], c[0]);
        }
    }
}

/// Compares two paths from segment `i` on.
fn paths_cmp_from(a: &Vec<String>, b: &Vec<String>, i: usize) -> (r: Cmp)
    requires
        i <= a@.len(),
        i <= b@.len(),
    ensures
        r == path_cmp(strs_view(a@).skip(i as int), strs_view(b@).skip(i as int)),
    decreases a@.len() - i,
{
    if i == a.len() && i == b.len() {
        Cmp::Equal
    } else if i == a.len() {
        Cmp::Less
    } else if i == b.len() {
        Cmp::Greater
    } else {
        let c = str_cmp(a[i].as_str(), b[i].as_str());
        proof {
            assert(strs_view(a@).skip(i as int)[0] == a@[i as int]@);
            assert(strs_view(b@).skip(i as int)[0] == b@[i as int]@);
            assert(strs_view(a@).skip(i as int).drop_first() =~= strs_view(a@).skip(i + 1int));
            assert(strs_view(b@).skip(i as int).drop_first() =~= strs_view(b@).skip(i + 1int));
        }
        match c {
            Cmp::Equal => paths_cmp_from(a, b, i + 1),
            _ => c,
        }
    }
}

/// Three-way comparison of two paths.
pub fn paths_cmp(a: &Vec<String>, b: &Vec<String>) -> (r: Cmp)
    ensures
        r == path_cmp(strs_view(a@), strs_view(b@)),
{
    let r = paths_cmp_from(a, b, 0);
    proof {
        assert(strs_view(a@).skip(0) =~= strs_view(a@));
        assert(strs_view(b@).skip(0) =~= strs_view(b@));
    }
    r
}

} // verus!
