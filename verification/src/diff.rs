//! The diff engine: given two collections of public items, computes the
//! removed, changed and added buckets, and aligns the token sequences of a
//! changed pair for position-accurate highlighting.
//!
//! The identity key for matching is the item's path, not its full text: two
//! items at the same path with different signatures are one changed entry,
//! never one removed plus one added. Matching is a two-pointer merge over
//! both collections sorted by path (ties broken by rendered text), so the
//! buckets come out in ascending path order.

use vstd::prelude::*;

use crate::item_iterator::{items_view, text_le, PublicItem, PublicItemV};
use crate::ordering::{chars_cmp, path_cmp, strs_view, Cmp};
use crate::tokens::{toks, Token, TokenV};

verus! {

/// One changed public item: the item as it was, and as it is.
#[derive(Debug)]
pub struct ChangedPublicItem {
    /// The item in the first (earlier) collection.
    pub old_item: PublicItem,
    /// The item in the second (later) collection.
    pub new_item: PublicItem,
}

/// The values of a sequence of changed pairs.
pub open spec fn pairs_view(s: Seq<ChangedPublicItem>) -> Seq<(PublicItemV, PublicItemV)> {
    s.map_values(|c: ChangedPublicItem| (c.old_item@, c.new_item@))
}

/// Whether an item sorts at or before another under the diff key: by path,
/// ties broken by rendered text.
pub open spec fn key_le(a: PublicItemV, b: PublicItemV) -> bool {
    match path_cmp(a.path, b.path) {
        Cmp::Less => true,
        Cmp::Equal => text_le(a, b),
        Cmp::Greater => false,
    }
}

/// Inserting an item into a key-sorted sequence: before the first item it
/// sorts at or before.
pub open spec fn spec_insert_by_key(x: PublicItemV, s: Seq<PublicItemV>) -> Seq<PublicItemV>
    decreases s.len(),
{
    if s.len() == 0 {
        seq![x]
    } else if key_le(x, s[0]) {
        seq![x] + s
    } else {
        seq![s[0]] + spec_insert_by_key(x, s.drop_first())
    }
}

/// Sorting a sequence of items by the diff key: insertion sort, which keeps
/// items of equal key in their original order.
pub open spec fn spec_sort_by_key(s: Seq<PublicItemV>) -> Seq<PublicItemV>
    decreases s.len(),
{
    if s.len() == 0 {
        Seq::empty()
    } else {
        spec_insert_by_key(s[0], spec_sort_by_key(s.drop_first()))
    }
}

/// Inserting at the position found by a linear scan is the specified
/// insertion.
proof fn lemma_insert_by_key_at(x: PublicItemV, s: Seq<PublicItemV>, j: int)
    requires
        0 <= j <= s.len(),
        forall|k: int| 0 <= k < j ==> !key_le(x, #[trigger] s[k]),
        j < s.len() ==> key_le(x, s[j]),
    ensures
        spec_insert_by_key(x, s) == s.take(j) + seq![x] + s.skip(j),
    decreases j,
{
    if j == 0 {
        if s.len() == 0 {
            assert(spec_insert_by_key(x, s) =~= s.take(0) + seq![x] + s.skip(0));
        } else {
            assert(spec_insert_by_key(x, s) =~= s.take(0) + seq![x] + s.skip(0));
        }
    } else {
        assert forall|k: int|
            0 <= k < j - 1 implies !key_le(x, #[trigger] s.drop_first()[k]) by {
            assert(s.drop_first()[k] == s[k + 1]);
        }
        if j - 1 < s.drop_first().len() {
            assert(s.drop_first()[j - 1] == s[j]);
        }
        lemma_insert_by_key_at(x, s.drop_first(), j - 1);
        assert(spec_insert_by_key(x, s) =~= s.take(j) + seq![x] + s.skip(j));
    }
}

/// Whether an item sorts at or before another under the diff key.
fn key_le_exec(a: &PublicItem, b: &PublicItem) -> (r: bool)
    ensures
        r == key_le(a@, b@),
{
    match crate::ordering::paths_cmp(&a.path, &b.path) {
        Cmp::Less => true,
        Cmp::Equal => {
            match crate::ordering::str_cmp(a.text.as_str(), b.text.as_str()) {
                Cmp::Greater => false,
                _ => true,
            }
        },
        Cmp::Greater => false,
    }
}

/// Inserts an item into a key-sorted vector.
fn insert_by_key(x: PublicItem, sorted: &mut Vec<PublicItem>)
    ensures
        items_view(final(sorted)@) == spec_insert_by_key(x@, items_view(old(sorted)@)),
{
    let ghost xv = x@;
    let ghost s = items_view(sorted@);
    let mut j: usize = 0;
    while j < sorted.len()
        invariant_except_break
            xv == x@,
            j <= sorted@.len(),
            s == items_view(sorted@),
            forall|k: int| 0 <= k < j ==> !key_le(xv, #[trigger] s[k]),
        ensures
            xv == x@,
            j <= sorted@.len(),
            s == items_view(sorted@),
            forall|k: int| 0 <= k < j ==> !key_le(xv, #[trigger] s[k]),
            j < sorted@.len() ==> key_le(xv, s[j as int]),
        decreases sorted@.len() - j,
    {
        proof {
            assert(s[j as int] == sorted@[j as int]@);
        }
        if key_le_exec(&x, &sorted[j]) {
            break ;
        }
        j = j + 1;
    }
    proof {
        lemma_insert_by_key_at(xv, s, j as int);
    }
    sorted.insert(j, x);
    proof {
        assert(items_view(sorted@) =~= s.take(j as int) + seq![xv] + s.skip(j as int));
    }
}

/// Sorts the items by the diff key; items of equal key keep their original
/// order.
fn sort_by_key(items: Vec<PublicItem>) -> (r: Vec<PublicItem>)
    ensures
        items_view(r@) == spec_sort_by_key(items_view(items@)),
{
    let mut rest = items;
    let ghost full = items_view(rest@);
    let mut acc: Vec<PublicItem> = Vec::new();
    proof {
        assert(items_view(acc@) =~= Seq::<PublicItemV>::empty());
        assert(full.skip(full.len() as int) =~= Seq::<PublicItemV>::empty());
    }
    while rest.len() > 0
        invariant
            rest@.len() <= full.len(),
            items_view(rest@) == full.take(rest@.len() as int),
            items_view(acc@) == spec_sort_by_key(full.skip(rest@.len() as int)),
        decreases rest@.len(),
    {
        let ghost n = rest@.len() as int;
        let x = match rest.pop() {
            Option::Some(x) => x,
            Option::None => {
                proof {
                    assert(false);
                }
                unreached()
            },
        };
        proof {
            assert(x@ == full.take(n)[n - 1]);
            assert(full.take(n)[n - 1] == full[n - 1]);
            assert(items_view(rest@) =~= full.take(n - 1));
            assert(full.skip(n - 1)[0] == full[n - 1]);
            assert(full.skip(n - 1).drop_first() =~= full.skip(n));
        }
        insert_by_key(x, &mut acc);
    }
    proof {
        assert(full.skip(0) =~= full);
    }
    acc
}

/// Whether a collection is sorted by the diff key.
pub open spec fn sorted_by_key(s: Seq<PublicItemV>) -> bool {
    forall|i: int, j: int| 0 <= i < j < s.len() ==> key_le(#[trigger] s[i], #[trigger] s[j])
}

/// The diff key order is total.
proof fn lemma_key_le_total(a: PublicItemV, b: PublicItemV)
    ensures
        key_le(a, b) || key_le(b, a),
{
    crate::ordering::lemma_path_cmp_flip(a.path, b.path);
    crate::ordering::lemma_path_cmp_flip(b.path, a.path);
    crate::ordering::lemma_path_cmp_equal(a.path, b.path);
    crate::ordering::lemma_path_cmp_equal(b.path, a.path);
    crate::ordering::lemma_chars_cmp_flip(a.text, b.text);
    crate::ordering::lemma_chars_cmp_flip(b.text, a.text);
}

/// The diff key order is transitive.
proof fn lemma_key_le_trans(a: PublicItemV, b: PublicItemV, c: PublicItemV)
    requires
        key_le(a, b),
        key_le(b, c),
    ensures
        key_le(a, c),
{
    crate::ordering::lemma_path_cmp_equal(a.path, b.path);
    crate::ordering::lemma_path_cmp_equal(b.path, c.path);
    crate::ordering::lemma_path_cmp_equal(a.path, c.path);
    if path_cmp(a.path, b.path) == Cmp::Less && path_cmp(b.path, c.path) == Cmp::Less {
        crate::ordering::lemma_path_cmp_trans(a.path, b.path, c.path);
    } else if path_cmp(a.path, b.path) == Cmp::Equal && path_cmp(b.path, c.path) == Cmp::Equal {
        crate::ordering::lemma_chars_cmp_equal(a.text, b.text);
        crate::ordering::lemma_chars_cmp_equal(b.text, c.text);
        crate::ordering::lemma_chars_cmp_equal(a.text, c.text);
        if chars_cmp(a.text, b.text) == Cmp::Less && chars_cmp(b.text, c.text) == Cmp::Less {
            crate::ordering::lemma_chars_cmp_trans(a.text, b.text, c.text);
        }
    }
}

/// Insertion adds exactly the inserted item to the collection's contents.
proof fn lemma_insert_by_key_multiset(x: PublicItemV, s: Seq<PublicItemV>)
    ensures
        spec_insert_by_key(x, s).to_multiset() == s.to_multiset().insert(x),
    decreases s.len(),
{
    broadcast use vstd::seq_lib::group_to_multiset_ensures;

    if s.len() == 0 {
        assert(seq![x] =~= Seq::<PublicItemV>::empty().push(x));
        assert(spec_insert_by_key(x, s).to_multiset() =~= s.to_multiset().insert(x));
    } else if key_le(x, s[0]) {
        vstd::seq_lib::lemma_multiset_commutative(seq![x], s);
        assert(seq![x].to_multiset() =~= vstd::multiset::Multiset::<PublicItemV>::empty().insert(x)) by {
            assert(seq![x] =~= Seq::<PublicItemV>::empty().push(x));
        }
        assert(spec_insert_by_key(x, s).to_multiset() =~= s.to_multiset().insert(x));
    } else {
        lemma_insert_by_key_multiset(x, s.drop_first());
        vstd::seq_lib::lemma_multiset_commutative(
            seq![s[0]],
            spec_insert_by_key(x, s.drop_first()),
        );
        vstd::seq_lib::lemma_multiset_commutative(seq![s[0]], s.drop_first());
        assert(s =~= seq![s[0]] + s.drop_first());
        assert(seq![s[0]].to_multiset() =~= vstd::multiset::Multiset::<PublicItemV>::empty().insert(s[0])) by {
            assert(seq![s[0]] =~= Seq::<PublicItemV>::empty().push(s[0]));
        }
        assert(spec_insert_by_key(x, s).to_multiset() =~= s.to_multiset().insert(x));
    }
}

/// Insertion into a key-sorted collection keeps it key-sorted.
proof fn lemma_insert_by_key_keeps_sorted(x: PublicItemV, s: Seq<PublicItemV>)
    requires
        sorted_by_key(s),
    ensures
        sorted_by_key(spec_insert_by_key(x, s)),
    decreases s.len(),
{
    let t = spec_insert_by_key(x, s);
    if s.len() == 0 {
    } else if key_le(x, s[0]) {
        assert forall|i: int, j: int|
            0 <= i < j < t.len() implies key_le(#[trigger] t[i], #[trigger] t[j]) by {
            if i == 0 {
                if j > 0 {
                    assert(t[j] == s[j - 1]);
                    if j > 1 {
                        lemma_key_le_trans(x, s[0], s[j - 1]);
                    }
                }
            } else {
                assert(t[i] == s[i - 1]);
                assert(t[j] == s[j - 1]);
            }
        }
    } else {
        lemma_key_le_total(x, s[0]);
        assert(sorted_by_key(s.drop_first())) by {
            assert forall|i: int, j: int|
                0 <= i < j < s.drop_first().len() implies key_le(
                #[trigger] s.drop_first()[i],
                #[trigger] s.drop_first()[j],
            ) by {
                assert(s.drop_first()[i] == s[i + 1]);
                assert(s.drop_first()[j] == s[j + 1]);
            }
        }
        lemma_insert_by_key_keeps_sorted(x, s.drop_first());
        let rest = spec_insert_by_key(x, s.drop_first());
        broadcast use vstd::seq_lib::group_to_multiset_ensures;

        lemma_insert_by_key_multiset(x, s.drop_first());
        assert forall|k: int| 0 <= k < rest.len() implies key_le(s[0], #[trigger] rest[k]) by {
            assert(rest.contains(rest[k]));
            assert(rest.to_multiset().count(rest[k]) > 0);
            if rest[k] == x {
                assert(key_le(s[0], x));
            } else {
                assert(s.drop_first().to_multiset().count(rest[k]) > 0);
                assert(s.drop_first().contains(rest[k]));
                let m = choose|m: int|
                    0 <= m < s.drop_first().len() && s.drop_first()[m] == rest[k];
                assert(s[m + 1] == rest[k]);
            }
        }
        assert forall|i: int, j: int|
            0 <= i < j < t.len() implies key_le(#[trigger] t[i], #[trigger] t[j]) by {
            if i == 0 {
                assert(t[j] == rest[j - 1]);
            } else {
                assert(t[i] == rest[i - 1]);
                assert(t[j] == rest[j - 1]);
            }
        }
    }
}

/// Sorting by the diff key keeps exactly the collection's contents.
pub proof fn lemma_sort_by_key_permutes(s: Seq<PublicItemV>)
    ensures
        spec_sort_by_key(s).to_multiset() == s.to_multiset(),
    decreases s.len(),
{
    broadcast use vstd::seq_lib::group_to_multiset_ensures;

    if s.len() > 0 {
        lemma_sort_by_key_permutes(s.drop_first());
        lemma_insert_by_key_multiset(s[0], spec_sort_by_key(s.drop_first()));
        vstd::seq_lib::lemma_multiset_commutative(seq![s[0]], s.drop_first());
        assert(s =~= seq![s[0]] + s.drop_first());
        assert(seq![s[0]].to_multiset() =~= vstd::multiset::Multiset::<PublicItemV>::empty().insert(s[0])) by {
            assert(seq![s[0]] =~= Seq::<PublicItemV>::empty().push(s[0]));
        }
        assert(spec_sort_by_key(s).to_multiset() =~= s.to_multiset());
    }
}

/// Sorting by the diff key sorts.
pub proof fn lemma_sort_by_key_sorts(s: Seq<PublicItemV>)
    ensures
        sorted_by_key(spec_sort_by_key(s)),
    decreases s.len(),
{
    if s.len() > 0 {
        lemma_sort_by_key_sorts(s.drop_first());
        lemma_insert_by_key_keeps_sorted(s[0], spec_sort_by_key(s.drop_first()));
    }
}

/// Whether no two items of the collection share a path.
pub open spec fn pairwise_distinct_paths(s: Seq<PublicItemV>) -> bool {
    forall|i: int, j: int|
        0 <= i < j < s.len() ==> (#[trigger] s[i]).path != (#[trigger] s[j]).path
}

/// Sorting a collection of pairwise distinct paths by the diff key makes it
/// strictly path-sorted, with the same contents.
pub proof fn lemma_sort_by_key_strict(s: Seq<PublicItemV>)
    requires
        pairwise_distinct_paths(s),
    ensures
        strictly_path_sorted(spec_sort_by_key(s)),
        forall|x: PublicItemV|
            #[trigger] spec_sort_by_key(s).contains(x) <==> s.contains(x),
{
    broadcast use vstd::seq_lib::group_to_multiset_ensures;

    let t = spec_sort_by_key(s);
    lemma_sort_by_key_permutes(s);
    lemma_sort_by_key_sorts(s);
    assert(s.no_duplicates()) by {
        assert forall|i: int, j: int|
            0 <= i < j < s.len() implies s[i] != s[j] by {}
    }
    s.lemma_multiset_has_no_duplicates();
    assert forall|x: PublicItemV| t.to_multiset().contains(x) implies t.to_multiset().count(x)
        == 1 by {
        assert(s.to_multiset().count(x) == 1) by {
            assert(s.to_multiset().contains(x));
            assert(s.contains(x));
        }
    }
    t.lemma_multiset_has_no_duplicates_conv();
    assert forall|x: PublicItemV| #[trigger] t.contains(x) <==> s.contains(x) by {
        if t.contains(x) {
            assert(t.to_multiset().count(x) > 0);
            assert(s.to_multiset().count(x) > 0);
        }
        if s.contains(x) {
            assert(s.to_multiset().count(x) > 0);
            assert(t.to_multiset().count(x) > 0);
        }
    }
    assert forall|i: int, j: int|
        0 <= i < j < t.len() implies path_cmp((#[trigger] t[i]).path, (#[trigger] t[j]).path)
        == Cmp::Less by {
        assert(key_le(t[i], t[j]));
        crate::ordering::lemma_path_cmp_equal(t[i].path, t[j].path);
        if t[i].path == t[j].path {
            assert(t[i] != t[j]);
            assert(t.contains(t[i]) && t.contains(t[j]));
            assert(s.contains(t[i]) && s.contains(t[j]));
            let a = choose|a: int| 0 <= a < s.len() && s[a] == t[i];
            let b = choose|b: int| 0 <= b < s.len() && s[b] == t[j];
            assert(a != b);
            assert(s[a].path == s[b].path);
            if a < b {
                assert((s[a]).path != (s[b]).path);
            } else {
                assert((s[b]).path != (s[a]).path);
            }
        }
    }
}

/// Diff completeness for whole collections: with every path at most once in
/// each input, the removed bucket of the computed diff holds exactly the old
/// items whose path has no counterpart among the new ones, the added bucket
/// exactly the new items whose path has no counterpart among the old ones,
/// and the changed bucket exactly the pairs sharing a path with differing
/// rendered text.
pub proof fn lemma_between_completeness(o: Seq<PublicItemV>, n: Seq<PublicItemV>)
    requires
        pairwise_distinct_paths(o),
        pairwise_distinct_paths(n),
    ensures
        forall|x: PublicItemV|
            #[trigger] spec_diff(o, n).0.contains(x) <==> (o.contains(x) && !has_path(n, x.path)),
        forall|x: PublicItemV|
            #[trigger] spec_diff(o, n).2.contains(x) <==> (n.contains(x) && !has_path(o, x.path)),
        forall|pr: (PublicItemV, PublicItemV)|
            #[trigger] spec_diff(o, n).1.contains(pr) <==> (o.contains(pr.0) && n.contains(pr.1)
                && pr.0.path == pr.1.path && pr.0.text != pr.1.text),
{
    let so = spec_sort_by_key(o);
    let sn = spec_sort_by_key(n);
    lemma_sort_by_key_strict(o);
    lemma_sort_by_key_strict(n);
    lemma_diff_completeness(so, sn);
    assert forall|p: Seq<Seq<char>>| #[trigger] has_path(so, p) <==> has_path(o, p) by {
        if has_path(so, p) {
            let i = choose|i: int| 0 <= i < so.len() && so[i].path == p;
            assert(so.contains(so[i]));
            assert(o.contains(so[i]));
            let m = choose|m: int| 0 <= m < o.len() && o[m] == so[i];
        }
        if has_path(o, p) {
            let i = choose|i: int| 0 <= i < o.len() && o[i].path == p;
            assert(o.contains(o[i]));
            assert(so.contains(o[i]));
            let m = choose|m: int| 0 <= m < so.len() && so[m] == o[i];
        }
    }
    assert forall|p: Seq<Seq<char>>| #[trigger] has_path(sn, p) <==> has_path(n, p) by {
        if has_path(sn, p) {
            let i = choose|i: int| 0 <= i < sn.len() && sn[i].path == p;
            assert(sn.contains(sn[i]));
            assert(n.contains(sn[i]));
            let m = choose|m: int| 0 <= m < n.len() && n[m] == sn[i];
        }
        if has_path(n, p) {
            let i = choose|i: int| 0 <= i < n.len() && n[i].path == p;
            assert(n.contains(n[i]));
            assert(sn.contains(n[i]));
            let m = choose|m: int| 0 <= m < sn.len() && sn[m] == n[i];
        }
    }
}

/// Diff identity for whole collections: with every path at most once in each
/// input, a path present in both with identical rendered text appears in
/// none of the three buckets of the computed diff.
pub proof fn lemma_between_identity(
    o: Seq<PublicItemV>,
    n: Seq<PublicItemV>,
    x: PublicItemV,
    y: PublicItemV,
)
    requires
        pairwise_distinct_paths(o),
        pairwise_distinct_paths(n),
        o.contains(x),
        n.contains(y),
        x.path == y.path,
        x.text == y.text,
    ensures
        !spec_diff(o, n).0.contains(x),
        !spec_diff(o, n).2.contains(y),
        forall|pr: (PublicItemV, PublicItemV)|
            #[trigger] spec_diff(o, n).1.contains(pr) ==> pr.0.path != x.path,
{
    let so = spec_sort_by_key(o);
    let sn = spec_sort_by_key(n);
    lemma_sort_by_key_strict(o);
    lemma_sort_by_key_strict(n);
    lemma_diff_identity(so, sn, x, y);
}

/// What merging two key-sorted collections yields: the removed, changed and
/// added buckets. Items whose path exists in both collections with identical
/// rendered text are dropped silently.
pub open spec fn spec_diff_merge(o: Seq<PublicItemV>, n: Seq<PublicItemV>) -> (
    Seq<PublicItemV>,
    Seq<(PublicItemV, PublicItemV)>,
    Seq<PublicItemV>,
)
    decreases o.len() + n.len(),
{
    if o.len() == 0 && n.len() == 0 {
        (Seq::empty(), Seq::empty(), Seq::empty())
    } else if n.len() == 0 {
        let rest = spec_diff_merge(o.drop_first(), n);
        (seq![o[0]] + rest.0, rest.1, rest.2)
    } else if o.len() == 0 {
        let rest = spec_diff_merge(o, n.drop_first());
        (rest.0, rest.1, seq![n[0]] + rest.2)
    } else {
        match path_cmp(o[0].path, n[0].path) {
            Cmp::Less => {
                let rest = spec_diff_merge(o.drop_first(), n);
                (seq![o[0]] + rest.0, rest.1, rest.2)
            },
            Cmp::Greater => {
                let rest = spec_diff_merge(o, n.drop_first());
                (rest.0, rest.1, seq![n[0]] + rest.2)
            },
            Cmp::Equal => {
                let rest = spec_diff_merge(o.drop_first(), n.drop_first());
                if o[0].text == n[0].text {
                    rest
                } else {
                    (rest.0, seq![(o[0], n[0])] + rest.1, rest.2)
                }
            },
        }
    }
}

/// What diffing two collections of public items yields: both are sorted by
/// the diff key, then merged.
pub open spec fn spec_diff(o: Seq<PublicItemV>, n: Seq<PublicItemV>) -> (
    Seq<PublicItemV>,
    Seq<(PublicItemV, PublicItemV)>,
    Seq<PublicItemV>,
) {
    spec_diff_merge(spec_sort_by_key(o), spec_sort_by_key(n))
}

/// Copies a vector of strings.
fn copy_strings(v: &Vec<String>) -> (r: Vec<String>)
    ensures
        strs_view(r@) == strs_view(v@),
{
    let mut r: Vec<String> = Vec::new();
    let mut i: usize = 0;
    while i < v.len()
        invariant
            i <= v@.len(),
            r@.len() == i,
            forall|k: int| 0 <= k < i ==> r@[k]@ == v@[k]@,
        decreases v@.len() - i,
    {
        r.push(v[i].clone());
        i = i + 1;
    }
    proof {
        assert(strs_view(r@) =~= strs_view(v@));
    }
    r
}

/// Copies one token; the copy has the same value.
pub fn copy_token(t: &Token) -> (r: Token)
    ensures
        r@ == t@,
{
    Token { kind: t.kind, text: t.text.clone() }
}

/// Copies a vector of tokens.
fn copy_tokens(v: &Vec<Token>) -> (r: Vec<Token>)
    ensures
        toks(r@) == toks(v@),
{
    let mut r: Vec<Token> = Vec::new();
    let mut i: usize = 0;
    while i < v.len()
        invariant
            i <= v@.len(),
            r@.len() == i,
            forall|k: int| 0 <= k < i ==> r@[k]@ == v@[k]@,
        decreases v@.len() - i,
    {
        r.push(copy_token(&v[i]));
        i = i + 1;
    }
    proof {
        assert(toks(r@) =~= toks(v@));
    }
    r
}

/// Copies one public item; the copy has the same value.
pub fn copy_public_item(p: &PublicItem) -> (r: PublicItem)
    ensures
        r@ == p@,
{
    PublicItem { path: copy_strings(&p.path), tokens: copy_tokens(&p.tokens), text: p.text.clone() }
}

/// The three disjoint buckets of an API diff between two collections of
/// public items.
#[derive(Debug)]
pub struct PublicItemsDiff {
    /// Items present in the first collection whose path has no counterpart
    /// in the second.
    pub removed: Vec<PublicItem>,
    /// Pairs of items whose path exists in both collections but whose
    /// rendered text differs.
    pub changed: Vec<ChangedPublicItem>,
    /// Items present in the second collection whose path has no counterpart
    /// in the first.
    pub added: Vec<PublicItem>,
}

/// Merges two key-sorted collections from positions `i` and `j` on,
/// appending to the three buckets.
fn merge_from(
    olds: &Vec<PublicItem>,
    news: &Vec<PublicItem>,
    i: usize,
    j: usize,
    removed: &mut Vec<PublicItem>,
    changed: &mut Vec<ChangedPublicItem>,
    added: &mut Vec<PublicItem>,
)
    requires
        i <= olds@.len(),
        j <= news@.len(),
    ensures
        items_view(final(removed)@) == items_view(old(removed)@) + spec_diff_merge(
            items_view(olds@).skip(i as int),
            items_view(news@).skip(j as int),
        ).0,
        pairs_view(final(changed)@) == pairs_view(old(changed)@) + spec_diff_merge(
            items_view(olds@).skip(i as int),
            items_view(news@).skip(j as int),
        ).1,
        items_view(final(added)@) == items_view(old(added)@) + spec_diff_merge(
            items_view(olds@).skip(i as int),
            items_view(news@).skip(j as int),
        ).2,
    decreases olds@.len() - i + news@.len() - j,
{
    let ghost os = items_view(olds@).skip(i as int);
    let ghost ns = items_view(news@).skip(j as int);
    proof {
        if i < olds@.len() {
            assert(os[0] == olds@[i as int]@);
            assert(os.drop_first() =~= items_view(olds@).skip(i + 1int));
        }
        if j < news@.len() {
            assert(ns[0] == news@[j as int]@);
            assert(ns.drop_first() =~= items_view(news@).skip(j + 1int));
        }
    }
    if i == olds.len() && j == news.len() {
        proof {
            assert(items_view(removed@) =~= items_view(old(removed)@) + Seq::<
                PublicItemV,
            >::empty());
            assert(pairs_view(changed@) =~= pairs_view(old(changed)@) + Seq::<
                (PublicItemV, PublicItemV),
            >::empty());
            assert(items_view(added@) =~= items_view(old(added)@) + Seq::<PublicItemV>::empty());
        }
    } else if j == news.len() {
        let ghost before = items_view(removed@);
        removed.push(copy_public_item(&olds[i]));
        proof {
            assert(items_view(removed@) =~= before.push(os[0]));
        }
        merge_from(olds, news, i + 1, j, removed, changed, added);
        proof {
            assert(items_view(removed@) =~= items_view(old(removed)@) + spec_diff_merge(
                os,
                ns,
            ).0);
        }
    } else if i == olds.len() {
        let ghost before = items_view(added@);
        added.push(copy_public_item(&news[j]));
        proof {
            assert(items_view(added@) =~= before.push(ns[0]));
        }
        merge_from(olds, news, i, j + 1, removed, changed, added);
        proof {
            assert(items_view(added@) =~= items_view(old(added)@) + spec_diff_merge(os, ns).2);
        }
    } else {
        match crate::ordering::paths_cmp(&olds[i].path, &news[j].path) {
            Cmp::Less => {
                let ghost before = items_view(removed@);
                removed.push(copy_public_item(&olds[i]));
                proof {
                    assert(items_view(removed@) =~= before.push(os[0]));
                }
                merge_from(olds, news, i + 1, j, removed, changed, added);
                proof {
                    assert(items_view(removed@) =~= items_view(old(removed)@) + spec_diff_merge(
                        os,
                        ns,
                    ).0);
                }
            },
            Cmp::Greater => {
                let ghost before = items_view(added@);
                added.push(copy_public_item(&news[j]));
                proof {
                    assert(items_view(added@) =~= before.push(ns[0]));
                }
                merge_from(olds, news, i, j + 1, removed, changed, added);
                proof {
                    assert(items_view(added@) =~= items_view(old(added)@) + spec_diff_merge(
                        os,
                        ns,
                    ).2);
                }
            },
            Cmp::Equal => {
                if crate::ordering::str_eq(olds[i].text.as_str(), news[j].text.as_str()) {
                    merge_from(olds, news, i + 1, j + 1, removed, changed, added);
                } else {
                    let ghost before = pairs_view(changed@);
                    changed.push(
                        ChangedPublicItem {
                            old_item: copy_public_item(&olds[i]),
                            new_item: copy_public_item(&news[j]),
                        },
                    );
                    proof {
                        assert(pairs_view(changed@) =~= before.push((os[0], ns[0])));
                    }
                    merge_from(olds, news, i + 1, j + 1, removed, changed, added);
                    proof {
                        assert(pairs_view(changed@) =~= pairs_view(old(changed)@)
                            + spec_diff_merge(os, ns).1);
                    }
                }
            },
        }
    }
}

impl PublicItemsDiff {
    /// Computes the difference between two collections of public items: each
    /// is sorted by path (ties broken by rendered text), then matched path
    /// against path.
    pub fn between(old_items: Vec<PublicItem>, new_items: Vec<PublicItem>) -> (r:
        PublicItemsDiff)
        ensures
            items_view(r.removed@) == spec_diff(
                items_view(old_items@),
                items_view(new_items@),
            ).0,
            pairs_view(r.changed@) == spec_diff(items_view(old_items@), items_view(new_items@)).1,
            items_view(r.added@) == spec_diff(items_view(old_items@), items_view(new_items@)).2,
    {
        let olds = sort_by_key(old_items);
        let news = sort_by_key(new_items);
        let mut removed: Vec<PublicItem> = Vec::new();
        let mut changed: Vec<ChangedPublicItem> = Vec::new();
        let mut added: Vec<PublicItem> = Vec::new();
        proof {
            assert(items_view(removed@) =~= Seq::<PublicItemV>::empty());
            assert(pairs_view(changed@) =~= Seq::<(PublicItemV, PublicItemV)>::empty());
            assert(items_view(added@) =~= Seq::<PublicItemV>::empty());
        }
        merge_from(&olds, &news, 0, 0, &mut removed, &mut changed, &mut added);
        proof {
            assert(items_view(olds@).skip(0) =~= items_view(olds@));
            assert(items_view(news@).skip(0) =~= items_view(news@));
        }
        PublicItemsDiff { removed, changed, added }
    }
}

/// Whether any item of the collection has the given path.
pub open spec fn has_path(s: Seq<PublicItemV>, p: Seq<Seq<char>>) -> bool {
    exists|i: int| 0 <= i < s.len() && s[i].path == p
}

/// Whether the collection's paths are strictly ascending: sorted by path,
/// every path at most once.
pub open spec fn strictly_path_sorted(s: Seq<PublicItemV>) -> bool {
    forall|i: int, j: int|
        0 <= i < j < s.len() ==> path_cmp(#[trigger] s[i].path, #[trigger] s[j].path) == Cmp::Less
}

/// In a strictly path-sorted collection, a path determines its item.
pub proof fn lemma_sorted_unique(s: Seq<PublicItemV>, x: PublicItemV, y: PublicItemV)
    requires
        strictly_path_sorted(s),
        s.contains(x),
        s.contains(y),
        x.path == y.path,
    ensures
        x == y,
{
    let i = choose|i: int| 0 <= i < s.len() && s[i] == x;
    let j = choose|j: int| 0 <= j < s.len() && s[j] == y;
    if i != j {
        if i < j {
            crate::ordering::lemma_path_cmp_equal(s[i].path, s[j].path);
        } else {
            crate::ordering::lemma_path_cmp_equal(s[j].path, s[i].path);
        }
    }
}

/// An item whose path sorts strictly before every path of a strictly sorted
/// collection's head has no counterpart in the collection.
proof fn lemma_less_not_in(p: Seq<Seq<char>>, n: Seq<PublicItemV>)
    requires
        strictly_path_sorted(n),
        n.len() > 0,
        path_cmp(p, n[0].path) == Cmp::Less,
    ensures
        !has_path(n, p),
{
    assert forall|j: int| 0 <= j < n.len() implies n[j].path != p by {
        if j > 0 {
            crate::ordering::lemma_path_cmp_trans(p, n[0].path, n[j].path);
        }
        crate::ordering::lemma_path_cmp_equal(p, n[j].path);
    }
}

/// A nonempty collection has a path exactly when its head has it or its
/// tail does.
proof fn lemma_has_path_cons(s: Seq<PublicItemV>, p: Seq<Seq<char>>)
    requires
        s.len() > 0,
    ensures
        has_path(s, p) <==> (s[0].path == p || has_path(s.drop_first(), p)),
{
    if has_path(s, p) {
        let i = choose|i: int| 0 <= i < s.len() && s[i].path == p;
        if i > 0 {
            assert(s.drop_first()[i - 1] == s[i]);
        }
    }
    if has_path(s.drop_first(), p) {
        let i = choose|i: int| 0 <= i < s.drop_first().len() && s.drop_first()[i].path == p;
        assert(s[i + 1] == s.drop_first()[i]);
    }
}

/// A nonempty sequence contains an element exactly when it is the head or
/// the tail contains it.
proof fn lemma_contains_cons<T>(s: Seq<T>, x: T)
    requires
        s.len() > 0,
    ensures
        s.contains(x) <==> (x == s[0] || s.drop_first().contains(x)),
{
    if s.contains(x) {
        let i = choose|i: int| 0 <= i < s.len() && s[i] == x;
        if i > 0 {
            assert(s.drop_first()[i - 1] == s[i]);
        }
    }
    if s.drop_first().contains(x) {
        let i = choose|i: int| 0 <= i < s.drop_first().len() && s.drop_first()[i] == x;
        assert(s[i + 1] == s.drop_first()[i]);
    }
}

/// A sequence with an element put in front contains exactly that element and
/// the sequence's own.
proof fn lemma_contains_push_front<T>(x: T, s: Seq<T>, y: T)
    ensures
        (seq![x] + s).contains(y) <==> (y == x || s.contains(y)),
{
    let c = seq![x] + s;
    if c.contains(y) {
        let i = choose|i: int| 0 <= i < c.len() && c[i] == y;
        if i > 0 {
            assert(s[i - 1] == c[i]);
        }
    }
    if y == x {
        assert(c[0] == y);
    }
    if s.contains(y) {
        let i = choose|i: int| 0 <= i < s.len() && s[i] == y;
        assert(c[i + 1] == y);
    }
}

/// Dropping the head keeps a collection strictly path-sorted.
proof fn lemma_sorted_drop_first(s: Seq<PublicItemV>)
    requires
        strictly_path_sorted(s),
        s.len() > 0,
    ensures
        strictly_path_sorted(s.drop_first()),
{
    assert forall|i: int, j: int|
        0 <= i < j < s.drop_first().len() implies path_cmp(
        (#[trigger] s.drop_first()[i]).path,
        (#[trigger] s.drop_first()[j]).path,
    ) == Cmp::Less by {
        assert(s.drop_first()[i] == s[i + 1]);
        assert(s.drop_first()[j] == s[j + 1]);
    }
}

/// Diff completeness and exclusivity: over two strictly path-sorted
/// collections, the removed bucket holds exactly the old items whose path
/// has no counterpart in the new collection; the added bucket exactly the
/// new items whose path has no counterpart in the old one; and the changed
/// bucket exactly the pairs, one item from each side, sharing a path but
/// differing in rendered text. The three conditions are exhaustive over the
/// inputs and mutually exclusive.
#[verifier::rlimit(100)]
pub proof fn lemma_diff_completeness(o: Seq<PublicItemV>, n: Seq<PublicItemV>)
    requires
        strictly_path_sorted(o),
        strictly_path_sorted(n),
    ensures
        forall|x: PublicItemV|
            #[trigger] spec_diff_merge(o, n).0.contains(x) <==> (o.contains(x) && !has_path(
                n,
                x.path,
            )),
        forall|x: PublicItemV|
            #[trigger] spec_diff_merge(o, n).2.contains(x) <==> (n.contains(x) && !has_path(
                o,
                x.path,
            )),
        forall|pr: (PublicItemV, PublicItemV)|
            #[trigger] spec_diff_merge(o, n).1.contains(pr) <==> (o.contains(pr.0) && n.contains(
                pr.1,
            ) && pr.0.path == pr.1.path && pr.0.text != pr.1.text),
    decreases o.len() + n.len(),
{
    let m = spec_diff_merge(o, n);
    if o.len() == 0 && n.len() == 0 {
        assert forall|x: PublicItemV| !(#[trigger] m.0.contains(x)) by {}
        assert forall|x: PublicItemV| !(#[trigger] m.2.contains(x)) by {}
        assert forall|pr: (PublicItemV, PublicItemV)| !(#[trigger] m.1.contains(pr)) by {}
    } else if n.len() == 0 {
        lemma_sorted_drop_first(o);
        lemma_diff_completeness(o.drop_first(), n);
        let rest = spec_diff_merge(o.drop_first(), n);
        assert forall|x: PublicItemV|
            #[trigger] m.0.contains(x) <==> (o.contains(x) && !has_path(n, x.path)) by {
            lemma_contains_push_front(o[0], rest.0, x);
            lemma_contains_cons(o, x);
        }
    } else if o.len() == 0 {
        lemma_sorted_drop_first(n);
        lemma_diff_completeness(o, n.drop_first());
        let rest = spec_diff_merge(o, n.drop_first());
        assert forall|x: PublicItemV|
            #[trigger] m.2.contains(x) <==> (n.contains(x) && !has_path(o, x.path)) by {
            lemma_contains_push_front(n[0], rest.2, x);
            lemma_contains_cons(n, x);
        }
    } else {
        lemma_sorted_drop_first(o);
        lemma_sorted_drop_first(n);
        match path_cmp(o[0].path, n[0].path) {
            Cmp::Less => {
                lemma_diff_completeness(o.drop_first(), n);
                lemma_less_not_in(o[0].path, n);
                let rest = spec_diff_merge(o.drop_first(), n);
                assert forall|x: PublicItemV|
                    #[trigger] m.0.contains(x) <==> (o.contains(x) && !has_path(n, x.path)) by {
                    lemma_contains_push_front(o[0], rest.0, x);
                    lemma_contains_cons(o, x);
                }
                assert forall|x: PublicItemV|
                    #[trigger] m.2.contains(x) <==> (n.contains(x) && !has_path(o, x.path)) by {
                    lemma_contains_cons(o, x);
                    lemma_has_path_cons(o, x.path);
                    if n.contains(x) {
                        let i = choose|i: int| 0 <= i < n.len() && n[i] == x;
                        assert(!has_path(n, o[0].path));
                        assert(n[i].path != o[0].path);
                    }
                }
                assert forall|pr: (PublicItemV, PublicItemV)|
                    #[trigger] m.1.contains(pr) <==> (o.contains(pr.0) && n.contains(pr.1)
                    && pr.0.path == pr.1.path && pr.0.text != pr.1.text) by {
                    lemma_contains_cons(o, pr.0);
                    if n.contains(pr.1) && pr.0 == o[0] && pr.0.path == pr.1.path {
                        let i = choose|i: int| 0 <= i < n.len() && n[i] == pr.1;
                        assert(!has_path(n, o[0].path));
                        assert(n[i].path != o[0].path);
                    }
                }
            },
            Cmp::Greater => {
                lemma_diff_completeness(o, n.drop_first());
                crate::ordering::lemma_path_cmp_flip(n[0].path, o[0].path);
                lemma_less_not_in(n[0].path, o);
                let rest = spec_diff_merge(o, n.drop_first());
                assert forall|x: PublicItemV|
                    #[trigger] m.2.contains(x) <==> (n.contains(x) && !has_path(o, x.path)) by {
                    lemma_contains_push_front(n[0], rest.2, x);
                    lemma_contains_cons(n, x);
                }
                assert forall|x: PublicItemV|
                    #[trigger] m.0.contains(x) <==> (o.contains(x) && !has_path(n, x.path)) by {
                    lemma_contains_cons(n, x);
                    lemma_has_path_cons(n, x.path);
                    if o.contains(x) {
                        let i = choose|i: int| 0 <= i < o.len() && o[i] == x;
                        assert(!has_path(o, n[0].path));
                        assert(o[i].path != n[0].path);
                    }
                }
                assert forall|pr: (PublicItemV, PublicItemV)|
                    #[trigger] m.1.contains(pr) <==> (o.contains(pr.0) && n.contains(pr.1)
                    && pr.0.path == pr.1.path && pr.0.text != pr.1.text) by {
                    lemma_contains_cons(n, pr.1);
                    if o.contains(pr.0) && pr.1 == n[0] && pr.0.path == pr.1.path {
                        let i = choose|i: int| 0 <= i < o.len() && o[i] == pr.0;
                        assert(!has_path(o, n[0].path));
                        assert(o[i].path != n[0].path);
                    }
                }
            },
            Cmp::Equal => {
                lemma_diff_completeness(o.drop_first(), n.drop_first());
                crate::ordering::lemma_path_cmp_equal(o[0].path, n[0].path);
                let rest = spec_diff_merge(o.drop_first(), n.drop_first());
                assert forall|j: int|
                    1 <= j < o.len() implies (#[trigger] o[j]).path != o[0].path by {
                    crate::ordering::lemma_path_cmp_equal(o[0].path, o[j].path);
                }
                assert forall|j: int|
                    1 <= j < n.len() implies (#[trigger] n[j]).path != n[0].path by {
                    crate::ordering::lemma_path_cmp_equal(n[0].path, n[j].path);
                }
                assert forall|x: PublicItemV|
                    #[trigger] m.0.contains(x) <==> (o.contains(x) && !has_path(n, x.path)) by {
                    lemma_contains_cons(o, x);
                    lemma_has_path_cons(n, x.path);
                    if rest.0.contains(x) {
                        let i = choose|i: int|
                            0 <= i < o.drop_first().len() && o.drop_first()[i] == x;
                        assert(o[i + 1] == x);
                    }
                    if o.contains(x) && x != o[0] {
                        let i = choose|i: int| 0 <= i < o.len() && o[i] == x;
                        assert(x.path != o[0].path);
                    }
                }
                assert forall|x: PublicItemV|
                    #[trigger] m.2.contains(x) <==> (n.contains(x) && !has_path(o, x.path)) by {
                    lemma_contains_cons(n, x);
                    lemma_has_path_cons(o, x.path);
                    if rest.2.contains(x) {
                        let i = choose|i: int|
                            0 <= i < n.drop_first().len() && n.drop_first()[i] == x;
                        assert(n[i + 1] == x);
                    }
                    if n.contains(x) && x != n[0] {
                        let i = choose|i: int| 0 <= i < n.len() && n[i] == x;
                        assert(x.path != n[0].path);
                    }
                }
                assert forall|pr: (PublicItemV, PublicItemV)|
                    #[trigger] m.1.contains(pr) <==> (o.contains(pr.0) && n.contains(pr.1)
                    && pr.0.path == pr.1.path && pr.0.text != pr.1.text) by {
                    lemma_contains_cons(o, pr.0);
                    lemma_contains_cons(n, pr.1);
                    if o[0].text != n[0].text {
                        lemma_contains_push_front((o[0], n[0]), rest.1, pr);
                    }
                    if pr.0 == o[0] && n.contains(pr.1) && pr.0.path == pr.1.path && pr.1 != n[0] {
                        let i = choose|i: int| 0 <= i < n.len() && n[i] == pr.1;
                        assert(n[i].path != n[0].path);
                    }
                    if pr.1 == n[0] && o.contains(pr.0) && pr.0.path == pr.1.path && pr.0 != o[0] {
                        let i = choose|i: int| 0 <= i < o.len() && o[i] == pr.0;
                        assert(o[i].path != o[0].path);
                    }
                }
            },
        }
    }
}

/// Diff identity: a path present in both snapshots with identical rendered
/// text appears in none of the three buckets.
pub proof fn lemma_diff_identity(
    o: Seq<PublicItemV>,
    n: Seq<PublicItemV>,
    x: PublicItemV,
    y: PublicItemV,
)
    requires
        strictly_path_sorted(o),
        strictly_path_sorted(n),
        o.contains(x),
        n.contains(y),
        x.path == y.path,
        x.text == y.text,
    ensures
        !spec_diff_merge(o, n).0.contains(x),
        !spec_diff_merge(o, n).2.contains(y),
        forall|pr: (PublicItemV, PublicItemV)|
            #[trigger] spec_diff_merge(o, n).1.contains(pr) ==> pr.0.path != x.path,
{
    lemma_diff_completeness(o, n);
    assert forall|pr: (PublicItemV, PublicItemV)|
        #[trigger] spec_diff_merge(o, n).1.contains(pr) implies pr.0.path != x.path by {
        if pr.0.path == x.path {
            lemma_sorted_unique(o, pr.0, x);
            lemma_sorted_unique(n, pr.1, y);
        }
    }
}

/// One position of an aligned pair of token sequences: a token only in the
/// old sequence, a token common to both, or a token only in the new one.
#[derive(Debug)]
pub enum TokenDiff {
    /// Only in the old sequence: render as removed.
    Left(Token),
    /// Common to both sequences: render unstyled.
    Both(Token, Token),
    /// Only in the new sequence: render as added.
    Right(Token),
}

/// The mathematical value of a [`TokenDiff`].
pub ghost enum TokenDiffV {
    Left(TokenV),
    Both(TokenV, TokenV),
    Right(TokenV),
}

impl View for TokenDiff {
    type V = TokenDiffV;

    open spec fn view(&self) -> TokenDiffV {
        match self {
            TokenDiff::Left(t) => TokenDiffV::Left(t@),
            TokenDiff::Both(a, b) => TokenDiffV::Both(a@, b@),
            TokenDiff::Right(t) => TokenDiffV::Right(t@),
        }
    }
}

/// The values of an alignment.
pub open spec fn tdiffs_view(s: Seq<TokenDiff>) -> Seq<TokenDiffV> {
    s.map_values(|d: TokenDiff| d@)
}

/// The length of a longest common subsequence of two token sequences.
pub open spec fn lcs_len(a: Seq<TokenV>, b: Seq<TokenV>) -> nat
    decreases a.len() + b.len(),
{
    if a.len() == 0 || b.len() == 0 {
        0
    } else if a.last() == b.last() {
        lcs_len(a.drop_last(), b.drop_last()) + 1
    } else {
        let da = lcs_len(a.drop_last(), b);
        let db = lcs_len(a, b.drop_last());
        if da >= db {
            da
        } else {
            db
        }
    }
}

/// A longest common subsequence is no longer than either sequence.
pub proof fn lemma_lcs_len_bound(a: Seq<TokenV>, b: Seq<TokenV>)
    ensures
        lcs_len(a, b) <= a.len(),
        lcs_len(a, b) <= b.len(),
    decreases a.len() + b.len(),
{
    if a.len() != 0 && b.len() != 0 {
        lemma_lcs_len_bound(a.drop_last(), b.drop_last());
        lemma_lcs_len_bound(a.drop_last(), b);
        lemma_lcs_len_bound(a, b.drop_last());
    }
}

/// The canonical alignment of two token sequences along a longest common
/// subsequence: positions only in the old sequence, only in the new one, or
/// common to both. When removing the last of either sequence preserves a
/// longest common subsequence equally well, the old sequence's token is
/// taken first.
pub open spec fn spec_align(a: Seq<TokenV>, b: Seq<TokenV>) -> Seq<TokenDiffV>
    decreases a.len() + b.len(),
{
    if a.len() == 0 && b.len() == 0 {
        Seq::empty()
    } else if a.len() == 0 {
        spec_align(a, b.drop_last()).push(TokenDiffV::Right(b.last()))
    } else if b.len() == 0 {
        spec_align(a.drop_last(), b).push(TokenDiffV::Left(a.last()))
    } else if a.last() == b.last() {
        spec_align(a.drop_last(), b.drop_last()).push(TokenDiffV::Both(a.last(), b.last()))
    } else if lcs_len(a.drop_last(), b) >= lcs_len(a, b.drop_last()) {
        spec_align(a.drop_last(), b).push(TokenDiffV::Left(a.last()))
    } else {
        spec_align(a, b.drop_last()).push(TokenDiffV::Right(b.last()))
    }
}

/// Every sequence is its own longest common subsequence.
pub proof fn lemma_lcs_refl(s: Seq<TokenV>)
    ensures
        lcs_len(s, s) == s.len(),
    decreases s.len(),
{
    if s.len() > 0 {
        lemma_lcs_refl(s.drop_last());
    }
}

/// Appending a token that occurs nowhere in a sequence does not lengthen the
/// common subsequence with that sequence.
pub proof fn lemma_lcs_push_fresh(s: Seq<TokenV>, y: TokenV)
    requires
        !s.contains(y),
    ensures
        lcs_len(s, s.push(y)) == s.len(),
    decreases s.len(),
{
    if s.len() == 0 {
    } else {
        assert(s.push(y).last() == y);
        assert(s.last() != y) by {
            assert(s[s.len() - 1] == s.last());
        }
        assert(s.push(y).drop_last() =~= s);
        lemma_lcs_refl(s);
        lemma_lcs_len_bound(s.drop_last(), s.push(y));
        assert(lcs_len(s, s.push(y).drop_last()) == s.len());
    }
}

/// A sequence aligned with itself is common throughout.
pub proof fn lemma_align_refl(s: Seq<TokenV>)
    ensures
        spec_align(s, s) == s.map_values(|t: TokenV| TokenDiffV::Both(t, t)),
    decreases s.len(),
{
    if s.len() == 0 {
        assert(spec_align(s, s) =~= s.map_values(|t: TokenV| TokenDiffV::Both(t, t)));
    } else {
        lemma_align_refl(s.drop_last());
        assert(spec_align(s, s) =~= s.map_values(|t: TokenV| TokenDiffV::Both(t, t)));
    }
}

/// Token alignment correctness: when two token sequences differ in exactly
/// one position — the same prefix, one differing token, the same suffix —
/// the alignment marks exactly the two differing tokens, one as only-in-old
/// and one as only-in-new, and every other position as common. (The new
/// token must not already occur in the common prefix; where it does, the
/// alignment is still minimal but may shift which occurrence it marks.)
pub proof fn lemma_align_single_change(
    prefix: Seq<TokenV>,
    x: TokenV,
    y: TokenV,
    suffix: Seq<TokenV>,
)
    requires
        x != y,
        !prefix.contains(y),
    ensures
        spec_align(prefix + seq![x] + suffix, prefix + seq![y] + suffix) == prefix.map_values(
            |t: TokenV| TokenDiffV::Both(t, t),
        ) + seq![TokenDiffV::Right(y), TokenDiffV::Left(x)] + suffix.map_values(
            |t: TokenV| TokenDiffV::Both(t, t),
        ),
    decreases suffix.len(),
{
    let a = prefix + seq![x] + suffix;
    let b = prefix + seq![y] + suffix;
    let boths = |t: TokenV| TokenDiffV::Both(t, t);
    if suffix.len() > 0 {
        assert(a.last() == suffix.last());
        assert(b.last() == suffix.last());
        assert(a.drop_last() =~= prefix + seq![x] + suffix.drop_last());
        assert(b.drop_last() =~= prefix + seq![y] + suffix.drop_last());
        lemma_align_single_change(prefix, x, y, suffix.drop_last());
        assert(spec_align(a, b) =~= prefix.map_values(boths) + seq![
            TokenDiffV::Right(y),
            TokenDiffV::Left(x),
        ] + suffix.map_values(boths));
    } else {
        assert(a =~= prefix.push(x));
        assert(b =~= prefix.push(y));
        assert(a.last() == x && b.last() == y);
        assert(a.drop_last() =~= prefix);
        assert(b.drop_last() =~= prefix);
        // removing x leaves the longest possible common subsequence, so the
        // old token is set aside first
        lemma_lcs_push_fresh(prefix, y);
        lemma_lcs_len_bound(a, prefix);
        assert(lcs_len(a.drop_last(), b) >= lcs_len(a, b.drop_last()));
        assert(spec_align(a, b) == spec_align(prefix, b).push(TokenDiffV::Left(x)));
        // then the new token is set aside
        if prefix.len() > 0 {
            assert(b.last() == y);
            assert(prefix.last() != y) by {
                assert(prefix[prefix.len() - 1] == prefix.last());
            }
            lemma_lcs_refl(prefix);
            lemma_lcs_len_bound(prefix.drop_last(), b);
            assert(lcs_len(prefix, b.drop_last()) > lcs_len(prefix.drop_last(), b));
            assert(spec_align(prefix, b) == spec_align(prefix, prefix).push(
                TokenDiffV::Right(y),
            ));
        } else {
            assert(spec_align(prefix, b) =~= spec_align(prefix, prefix).push(
                TokenDiffV::Right(y),
            ));
        }
        lemma_align_refl(prefix);
        assert(suffix.map_values(boths) =~= Seq::<TokenDiffV>::empty());
        assert(spec_align(a, b) =~= prefix.map_values(boths) + seq![
            TokenDiffV::Right(y),
            TokenDiffV::Left(x),
        ] + suffix.map_values(boths));
    }
}

/// Whether two tokens are equal: same kind and same text.
fn token_eq(a: &Token, b: &Token) -> (r: bool)
    ensures
        r == (a@ == b@),
{
    a.kind == b.kind && crate::ordering::str_eq(a.text.as_str(), b.text.as_str())
}

/// Whether a table holds the lengths of the longest common subsequences of
/// all prefix pairs of the two token sequences.
pub open spec fn lcs_table_wf(
    table: Seq<Vec<usize>>,
    a: Seq<TokenV>,
    b: Seq<TokenV>,
) -> bool {
    table.len() == a.len() + 1 && (forall|r: int|
        0 <= r < table.len() ==> (#[trigger] table[r])@.len() == b.len() + 1) && (forall|
        r: int,
        c: int,
    |
        0 <= r < table.len() && 0 <= c < b.len() + 1 ==> (#[trigger] table[r]@[c]) as nat
            == lcs_len(a.take(r), b.take(c)))
}

/// Builds the table of the longest-common-subsequence lengths of all prefix
/// pairs.
fn build_lcs_table(a: &Vec<Token>, b: &Vec<Token>) -> (table: Vec<Vec<usize>>)
    ensures
        lcs_table_wf(table@, toks(a@), toks(b@)),
{
    let ghost av = toks(a@);
    let ghost bv = toks(b@);
    let n = a.len();
    let m = b.len();
    let mut table: Vec<Vec<usize>> = Vec::new();
    let mut r: usize = 0;
    loop
        invariant_except_break
            av == toks(a@),
            bv == toks(b@),
            n == a@.len(),
            m == b@.len(),
            r <= n,
            table@.len() == r,
            forall|k: int| 0 <= k < r ==> (#[trigger] table@[k])@.len() == m + 1,
            forall|k: int, c: int|
                0 <= k < r && 0 <= c < m + 1 ==> (#[trigger] table@[k]@[c]) as nat == lcs_len(
                    av.take(k),
                    bv.take(c),
                ),
        ensures
            lcs_table_wf(table@, av, bv),
            av == toks(a@),
            bv == toks(b@),
        decreases n - r,
    {
        let mut row: Vec<usize> = Vec::new();
        let mut c: usize = 0;
        loop
            invariant_except_break
                av == toks(a@),
                bv == toks(b@),
                n == a@.len(),
                m == b@.len(),
                r <= n,
                c <= m,
                row@.len() == c,
                table@.len() == r,
                forall|k: int| 0 <= k < r ==> (#[trigger] table@[k])@.len() == m + 1,
                forall|k: int, cc: int|
                    0 <= k < r && 0 <= cc < m + 1 ==> (#[trigger] table@[k]@[cc]) as nat
                        == lcs_len(av.take(k), bv.take(cc)),
                forall|cc: int|
                    0 <= cc < c ==> (#[trigger] row@[cc]) as nat == lcs_len(
                        av.take(r as int),
                        bv.take(cc),
                    ),
            ensures
                av == toks(a@),
                bv == toks(b@),
                n == a@.len(),
                m == b@.len(),
                r <= n,
                table@.len() == r,
                row@.len() == m + 1,
                forall|k: int| 0 <= k < r ==> (#[trigger] table@[k])@.len() == m + 1,
                forall|k: int, cc: int|
                    0 <= k < r && 0 <= cc < m + 1 ==> (#[trigger] table@[k]@[cc]) as nat
                        == lcs_len(av.take(k), bv.take(cc)),
                forall|cc: int|
                    0 <= cc < m + 1 ==> (#[trigger] row@[cc]) as nat == lcs_len(
                        av.take(r as int),
                        bv.take(cc),
                    ),
            decreases m - c,
        {
            let v: usize;
            if r == 0 || c == 0 {
                v = 0;
                proof {
                    assert(av.take(r as int).len() == 0 || bv.take(c as int).len() == 0);
                }
            } else {
                proof {
                    assert(av.take(r as int).last() == av[r - 1int]);
                    assert(bv.take(c as int).last() == bv[c - 1int]);
                    assert(av.take(r as int).drop_last() =~= av.take(r - 1int));
                    assert(bv.take(c as int).drop_last() =~= bv.take(c - 1int));
                    assert(av[r - 1int] == a@[r - 1int]@);
                    assert(bv[c - 1int] == b@[c - 1int]@);
                    lemma_lcs_len_bound(av.take(r - 1int), bv.take(c - 1int));
                }
                if token_eq(&a[r - 1], &b[c - 1]) {
                    v = table[r - 1][c - 1] + 1;
                    proof {
                        assert(av.take(r as int).last() == bv.take(c as int).last());
                        assert((table@[r - 1int]@[c - 1int]) as nat == lcs_len(
                            av.take(r - 1int),
                            bv.take(c - 1int),
                        ));
                        assert(v as nat == lcs_len(av.take(r as int), bv.take(c as int)));
                    }
                } else {
                    let up = table[r - 1][c];
                    let left = row[c - 1];
                    v = if up >= left {
                        up
                    } else {
                        left
                    };
                    proof {
                        assert(av.take(r as int).last() != bv.take(c as int).last());
                        assert(up as nat == lcs_len(av.take(r - 1int), bv.take(c as int)));
                        assert(left as nat == lcs_len(av.take(r as int), bv.take(c - 1int)));
                        assert(v as nat == lcs_len(av.take(r as int), bv.take(c as int)));
                    }
                }
            }
            proof {
                assert(v as nat == lcs_len(av.take(r as int), bv.take(c as int)));
            }
            row.push(v);
            if c == m {
                break ;
            }
            c = c + 1;
        }
        table.push(row);
        if r == n {
            break ;
        }
        r = r + 1;
    }
    table
}

/// Aligns the prefixes of lengths `i` and `j` by backtracking through the
/// table.
fn align_from(
    a: &Vec<Token>,
    b: &Vec<Token>,
    i: usize,
    j: usize,
    table: &Vec<Vec<usize>>,
) -> (r: Vec<TokenDiff>)
    requires
        i <= a@.len(),
        j <= b@.len(),
        lcs_table_wf(table@, toks(a@), toks(b@)),
    ensures
        tdiffs_view(r@) == spec_align(toks(a@).take(i as int), toks(b@).take(j as int)),
    decreases i + j,
{
    let ghost av = toks(a@);
    let ghost bv = toks(b@);
    proof {
        if i > 0 {
            assert(av.take(i as int).last() == av[i - 1int]);
            assert(av.take(i as int).drop_last() =~= av.take(i - 1int));
            assert(av[i - 1int] == a@[i - 1int]@);
        }
        if j > 0 {
            assert(bv.take(j as int).last() == bv[j - 1int]);
            assert(bv.take(j as int).drop_last() =~= bv.take(j - 1int));
            assert(bv[j - 1int] == b@[j - 1int]@);
        }
    }
    if i == 0 && j == 0 {
        let r: Vec<TokenDiff> = Vec::new();
        proof {
            assert(tdiffs_view(r@) =~= spec_align(av.take(0), bv.take(0)));
        }
        r
    } else if i == 0 {
        let mut r = align_from(a, b, i, j - 1, table);
        let ghost before = tdiffs_view(r@);
        r.push(TokenDiff::Right(copy_token(&b[j - 1])));
        proof {
            assert(tdiffs_view(r@) =~= before.push(TokenDiffV::Right(bv[j - 1int])));
        }
        r
    } else if j == 0 {
        let mut r = align_from(a, b, i - 1, j, table);
        let ghost before = tdiffs_view(r@);
        r.push(TokenDiff::Left(copy_token(&a[i - 1])));
        proof {
            assert(tdiffs_view(r@) =~= before.push(TokenDiffV::Left(av[i - 1int])));
        }
        r
    } else if token_eq(&a[i - 1], &b[j - 1]) {
        let mut r = align_from(a, b, i - 1, j - 1, table);
        let ghost before = tdiffs_view(r@);
        r.push(TokenDiff::Both(copy_token(&a[i - 1]), copy_token(&b[j - 1])));
        proof {
            assert(tdiffs_view(r@) =~= before.push(
                TokenDiffV::Both(av[i - 1int], bv[j - 1int]),
            ));
        }
        r
    } else if table[i - 1][j] >= table[i][j - 1] {
        let mut r = align_from(a, b, i - 1, j, table);
        let ghost before = tdiffs_view(r@);
        r.push(TokenDiff::Left(copy_token(&a[i - 1])));
        proof {
            assert(tdiffs_view(r@) =~= before.push(TokenDiffV::Left(av[i - 1int])));
        }
        r
    } else {
        let mut r = align_from(a, b, i, j - 1, table);
        let ghost before = tdiffs_view(r@);
        r.push(TokenDiff::Right(copy_token(&b[j - 1])));
        proof {
            assert(tdiffs_view(r@) =~= before.push(TokenDiffV::Right(bv[j - 1int])));
        }
        r
    }
}

/// Aligns two token sequences along a longest common subsequence, classifying
/// each position as only-in-old, common, or only-in-new. The result is
/// minimal, position-accurate highlighting of exactly the tokens that
/// changed.
pub fn token_diff(old_tokens: &Vec<Token>, new_tokens: &Vec<Token>) -> (r: Vec<TokenDiff>)
    ensures
        tdiffs_view(r@) == spec_align(toks(old_tokens@), toks(new_tokens@)),
{
    let table = build_lcs_table(old_tokens, new_tokens);
    let r = align_from(old_tokens, new_tokens, old_tokens.len(), new_tokens.len(), &table);
    proof {
        assert(toks(old_tokens@).take(old_tokens@.len() as int) =~= toks(old_tokens@));
        assert(toks(new_tokens@).take(new_tokens@.len() as int) =~= toks(new_tokens@));
    }
    r
}

} // verus!
