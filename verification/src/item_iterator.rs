//! The graph walker: traverses the item index from the root, producing the
//! public items reachable from it and the set of referenced-but-missing
//! identifiers encountered along the way.
//!
//! The traversal is depth first, in the order children are recorded. A
//! re-export is followed into its target, which is emitted under the
//! re-export's effective name and under the importing module's path. Before
//! descending into any item, the walker verifies that the item does not
//! already appear among the current ancestors (by walking the ancestor
//! chain): a subtree that would revisit an ancestor is skipped, so traversal
//! terminates on every index, cyclic re-exports included. Dangling references
//! are recorded and skipped; they never abort a pass.

use vstd::prelude::*;

use crate::intermediate_public_item::{
    arena_wf, chain_ids, chain_names, lemma_chain_stable, parent_ok, IntermediatePublicItem,
};
use crate::item_index::{
    fields_view, spec_find, CompositeForm, ItemIndex, ItemKind, ItemKindV, RawItem, RawItemV,
    TypeExpr, TypeV, Visibility,
};
use crate::ordering::strs_view;
use crate::render::{spec_fields_tokens, spec_render_item};
use crate::tokens::{text_of, toks, Token, TokenV};
use crate::Options;

verus! {

/// One public item of a crate: its path and the token sequence of its full
/// signature. The rendered text is the concatenation of the token texts.
#[derive(Debug)]
pub struct PublicItem {
    /// The path to the item: display names, root first.
    pub path: Vec<String>,
    /// The tokens of the item's rendered signature.
    pub tokens: Vec<Token>,
    /// The rendered signature: the concatenated token texts.
    pub text: String,
}

/// The mathematical value of a [`PublicItem`].
pub ghost struct PublicItemV {
    pub path: Seq<Seq<char>>,
    pub tokens: Seq<TokenV>,
    pub text: Seq<char>,
}

impl View for PublicItem {
    type V = PublicItemV;

    open spec fn view(&self) -> PublicItemV {
        PublicItemV { path: strs_view(self.path@), tokens: toks(self.tokens@), text: self.text@ }
    }
}

/// The values of a sequence of public items.
pub open spec fn items_view(s: Seq<PublicItem>) -> Seq<PublicItemV> {
    s.map_values(|p: PublicItem| p@)
}

impl PartialEq for PublicItem {
    /// Two public items are equal exactly when their rendered texts are.
    fn eq(&self, other: &PublicItem) -> (r: bool) {
        crate::ordering::str_eq(self.text.as_str(), other.text.as_str())
    }
}

impl vstd::std_specs::cmp::PartialEqSpecImpl for PublicItem {
    open spec fn obeys_eq_spec() -> bool {
        true
    }

    open spec fn eq_spec(&self, other: &PublicItem) -> bool {
        self.text@ == other.text@
    }
}

impl PartialOrd for PublicItem {
    /// Public items are ordered lexicographically over their rendered text.
    fn partial_cmp(&self, other: &PublicItem) -> (r: Option<core::cmp::Ordering>) {
        proof {
            crate::ordering::lemma_chars_cmp_equal(self.text@, other.text@);
        }
        match crate::ordering::str_cmp(self.text.as_str(), other.text.as_str()) {
            crate::ordering::Cmp::Less => Option::Some(core::cmp::Ordering::Less),
            crate::ordering::Cmp::Equal => Option::Some(core::cmp::Ordering::Equal),
            crate::ordering::Cmp::Greater => Option::Some(core::cmp::Ordering::Greater),
        }
    }
}

impl vstd::std_specs::cmp::PartialOrdSpecImpl for PublicItem {
    open spec fn obeys_partial_cmp_spec() -> bool {
        true
    }

    open spec fn partial_cmp_spec(&self, other: &PublicItem) -> Option<core::cmp::Ordering> {
        match crate::ordering::chars_cmp(self.text@, other.text@) {
            crate::ordering::Cmp::Less => Option::Some(core::cmp::Ordering::Less),
            crate::ordering::Cmp::Equal => Option::Some(core::cmp::Ordering::Equal),
            crate::ordering::Cmp::Greater => Option::Some(core::cmp::Ordering::Greater),
        }
    }
}

/// Whether a raw item belongs to the public surface: declared `pub`, or of
/// inherited (default) visibility as enum variants and associated items are.
pub open spec fn spec_visible(item: RawItemV) -> bool {
    item.visibility == Visibility::Public || item.visibility == Visibility::Default
}

/// The identifiers of the children that are walked as public items of their
/// own. The fields of a tuple-shaped composite are not among them: they are
/// pre-resolved into the parent's own signature.
pub open spec fn spec_direct_children(kind: ItemKindV) -> Seq<Seq<char>> {
    match kind {
        ItemKindV::Module { children } => children,
        ItemKindV::Struct { form, fields, .. } => if form == CompositeForm::Tuple {
            Seq::empty()
        } else {
            fields
        },
        ItemKindV::Enum { variants, .. } => variants,
        ItemKindV::Variant { form, fields } => if form == CompositeForm::Tuple {
            Seq::empty()
        } else {
            fields
        },
        ItemKindV::Trait { items } => items,
        _ => Seq::empty(),
    }
}

/// The identifiers of an item's implementation blocks.
pub open spec fn spec_impl_ids(kind: ItemKindV) -> Seq<Seq<char>> {
    match kind {
        ItemKindV::Struct { impls, .. } => impls,
        ItemKindV::Enum { impls, .. } => impls,
        _ => Seq::empty(),
    }
}

/// The identifiers of the fields of a tuple-shaped composite, to be
/// pre-resolved in place.
pub open spec fn spec_tuple_fields(kind: ItemKindV) -> Seq<Seq<char>> {
    match kind {
        ItemKindV::Struct { form, fields, .. } => if form == CompositeForm::Tuple {
            fields
        } else {
            Seq::empty()
        },
        ItemKindV::Variant { form, fields } => if form == CompositeForm::Tuple {
            fields
        } else {
            Seq::empty()
        },
        _ => Seq::empty(),
    }
}

/// What pre-resolving a list of field identifiers yields: the field types in
/// declaration order — with a `None` placeholder wherever the reference does
/// not lead to a field, keeping the index-to-field mapping stable — and the
/// identifiers that were referenced but missing from the index.
pub open spec fn spec_prefields(
    items: Seq<(Seq<char>, RawItemV)>,
    fids: Seq<Seq<char>>,
) -> (Seq<Option<TypeV>>, Seq<Seq<char>>)
    decreases fids.len(),
{
    if fids.len() == 0 {
        (Seq::empty(), Seq::empty())
    } else {
        let rest = spec_prefields(items, fids.drop_first());
        match spec_find(items, fids[0]) {
            Option::None => (seq![Option::<TypeV>::None] + rest.0, seq![fids[0]] + rest.1),
            Option::Some(item) => match item.kind {
                ItemKindV::StructField { ty } => (seq![Option::Some(ty)] + rest.0, rest.1),
                _ => (seq![Option::<TypeV>::None] + rest.0, rest.1),
            },
        }
    }
}

/// What flattening a list of implementation-block identifiers yields: the
/// associated items of the implementations that are kept, in order, and the
/// identifiers that were referenced but missing. A blanket implementation is
/// kept only when the configuration asks for blanket implementations.
pub open spec fn spec_flatten_impls(
    items: Seq<(Seq<char>, RawItemV)>,
    opts: Options,
    iids: Seq<Seq<char>>,
) -> (Seq<Seq<char>>, Seq<Seq<char>>)
    decreases iids.len(),
{
    if iids.len() == 0 {
        (Seq::empty(), Seq::empty())
    } else {
        let rest = spec_flatten_impls(items, opts, iids.drop_first());
        match spec_find(items, iids[0]) {
            Option::None => (rest.0, seq![iids[0]] + rest.1),
            Option::Some(item) => match item.kind {
                ItemKindV::Impl { items: assoc, blanket } => if blanket
                    && !opts.with_blanket_implementations {
                    rest
                } else {
                    (assoc + rest.0, rest.1)
                },
                _ => rest,
            },
        }
    }
}

/// The outcome of resolving a re-export target, following chains of
/// re-exports: the first concrete item reached, or the identifier that was
/// missing, or nothing (a cycle of re-exports, a targetless or non-public
/// re-export).
pub ghost enum ResolvedTarget {
    Found(Seq<char>, RawItemV),
    Missing(Seq<char>),
    Dead,
}

/// Identifiers that are all found in the index and distinct number at most
/// as many as the index has entries.
pub proof fn lemma_found_distinct_bound(
    items: Seq<(Seq<char>, RawItemV)>,
    ids: Seq<Seq<char>>,
)
    requires
        ids.no_duplicates(),
        forall|j: int| 0 <= j < ids.len() ==> spec_find(items, #[trigger] ids[j]) is Some,
    ensures
        ids.len() <= items.len(),
{
    broadcast use vstd::seq_lib::seq_to_set_is_finite;

    let keys = items.map_values(|e: (Seq<char>, RawItemV)| e.0);
    assert forall|j: int| 0 <= j < ids.len() implies keys.to_set().contains(#[trigger] ids[j]) by {
        lemma_find_in_keys(items, ids[j]);
        let n = choose|n: int| 0 <= n < keys.len() && keys[n] == ids[j];
        assert(keys.to_set().contains(keys[n]));
    }
    assert(ids.to_set().subset_of(keys.to_set()));
    ids.unique_seq_to_set();
    keys.lemma_cardinality_of_set();
    vstd::set_lib::lemma_len_subset(ids.to_set(), keys.to_set());
}

/// A found identifier is among the index's keys.
proof fn lemma_find_in_keys(items: Seq<(Seq<char>, RawItemV)>, x: Seq<char>)
    requires
        spec_find(items, x) is Some,
    ensures
        items.map_values(|e: (Seq<char>, RawItemV)| e.0).contains(x),
    decreases items.len(),
{
    let keys = items.map_values(|e: (Seq<char>, RawItemV)| e.0);
    if items[0].0 == x {
        assert(keys[0] == x);
    } else {
        lemma_find_in_keys(items.drop_first(), x);
        let keys2 = items.drop_first().map_values(|e: (Seq<char>, RawItemV)| e.0);
        let n = choose|n: int| 0 <= n < keys2.len() && keys2[n] == x;
        assert(keys[n + 1] == x);
    }
}

/// The precondition of target resolution: the identifiers seen so far are
/// distinct and all found in the index, and the next one is new.
pub open spec fn resolve_pre(
    items: Seq<(Seq<char>, RawItemV)>,
    t: Seq<char>,
    seen: Seq<Seq<char>>,
) -> bool {
    seen.no_duplicates() && (forall|j: int|
        0 <= j < seen.len() ==> spec_find(items, #[trigger] seen[j]) is Some)
        && !seen.contains(t)
}

/// What resolving a re-export target yields.
pub open spec fn spec_resolve_target(
    items: Seq<(Seq<char>, RawItemV)>,
    t: Seq<char>,
    seen: Seq<Seq<char>>,
) -> ResolvedTarget
    decreases items.len() - seen.len(),
        when resolve_pre(items, t, seen)
{
    match spec_find(items, t) {
        Option::None => ResolvedTarget::Missing(t),
        Option::Some(item) => match item.kind {
            ItemKindV::Import { name: _, target } => {
                if !spec_visible(item) {
                    ResolvedTarget::Dead
                } else {
                    match target {
                        Option::None => ResolvedTarget::Dead,
                        Option::Some(t2) => if seen.push(t).contains(t2) {
                            ResolvedTarget::Dead
                        } else {
                            proof {
                                lemma_found_distinct_bound(items, seen.push(t));
                            }
                            spec_resolve_target(items, t2, seen.push(t))
                        },
                    }
                }
            },
            _ => ResolvedTarget::Found(t, item),
        },
    }
}

/// The precondition of walking: the ancestor identifiers are distinct and
/// all found in the index.
pub open spec fn walk_pre(items: Seq<(Seq<char>, RawItemV)>, anc: Seq<Seq<char>>) -> bool {
    anc.no_duplicates() && (forall|j: int|
        0 <= j < anc.len() ==> spec_find(items, #[trigger] anc[j]) is Some)
}

/// What walking one concrete item emits: the item itself — rendered under
/// the given display name at the end of the given path — followed by its
/// walked children, together with the missing identifiers encountered: those
/// of unresolved tuple fields, then of missing implementation blocks, then
/// those met below.
pub open spec fn spec_walk_item(
    items: Seq<(Seq<char>, RawItemV)>,
    opts: Options,
    id: Seq<char>,
    item: RawItemV,
    name: Seq<char>,
    anc: Seq<Seq<char>>,
    path: Seq<Seq<char>>,
) -> (Seq<PublicItemV>, Seq<Seq<char>>)
    decreases items.len() - anc.len(), 0int, 0int,
        when walk_pre(items, anc) && spec_find(items, id) == Option::Some(item) && !anc.contains(
        id,
    )
{
    let newpath = path.push(name);
    let newanc = anc.push(id);
    let pf = spec_prefields(items, spec_tuple_fields(item.kind));
    let self_tokens = spec_render_item(item, newpath, spec_fields_tokens(pf.0));
    let self_item = PublicItemV { path: newpath, tokens: self_tokens, text: text_of(self_tokens) };
    let fl = spec_flatten_impls(items, opts, spec_impl_ids(item.kind));
    let rec = {
        proof {
            lemma_found_distinct_bound(items, newanc);
        }
        spec_walk_children(items, opts, spec_direct_children(item.kind) + fl.0, newanc, newpath)
    };
    (seq![self_item] + rec.0, pf.1 + fl.1 + rec.1)
}

/// What walking one child reference emits. A reference that is missing from
/// the index is recorded and skipped; a non-public child, a stray
/// implementation block, an unnamed item, a targetless or cyclic re-export,
/// and a child that already appears among the ancestors are skipped
/// silently.
pub open spec fn spec_walk_child(
    items: Seq<(Seq<char>, RawItemV)>,
    opts: Options,
    c: Seq<char>,
    anc: Seq<Seq<char>>,
    path: Seq<Seq<char>>,
) -> (Seq<PublicItemV>, Seq<Seq<char>>)
    decreases items.len() - anc.len(), 1int, 0int,
        when walk_pre(items, anc)
{
    match spec_find(items, c) {
        Option::None => (Seq::empty(), seq![c]),
        Option::Some(citem) => match citem.kind {
            ItemKindV::Import { name: iname, target } => {
                if !spec_visible(citem) {
                    (Seq::empty(), Seq::empty())
                } else {
                    match target {
                        Option::None => (Seq::empty(), Seq::empty()),
                        Option::Some(t) => if t == c {
                            (Seq::empty(), Seq::empty())
                        } else {
                            match spec_resolve_target(items, t, seq![c]) {
                                ResolvedTarget::Missing(m) => (Seq::empty(), seq![m]),
                                ResolvedTarget::Dead => (Seq::empty(), Seq::empty()),
                                ResolvedTarget::Found(fid, fitem) => {
                                    if anc.contains(fid) || fitem.kind is Impl || fitem.kind
                                        is Import {
                                        (Seq::empty(), Seq::empty())
                                    } else {
                                        proof {
                                            lemma_resolve_target_found(items, t, seq![c]);
                                        }
                                        spec_walk_item(items, opts, fid, fitem, iname, anc, path)
                                    }
                                },
                            }
                        },
                    }
                }
            },
            ItemKindV::Impl { .. } => (Seq::empty(), Seq::empty()),
            _ => {
                if !spec_visible(citem) || anc.contains(c) {
                    (Seq::empty(), Seq::empty())
                } else {
                    match citem.name {
                        Option::Some(n) => spec_walk_item(items, opts, c, citem, n, anc, path),
                        Option::None => (Seq::empty(), Seq::empty()),
                    }
                }
            },
        },
    }
}

/// A resolved target was found in the index, concrete.
pub proof fn lemma_resolve_target_found(
    items: Seq<(Seq<char>, RawItemV)>,
    t: Seq<char>,
    seen: Seq<Seq<char>>,
)
    requires
        resolve_pre(items, t, seen),
    ensures
        spec_resolve_target(items, t, seen) matches ResolvedTarget::Found(fid, fitem) ==> (
        spec_find(items, fid) == Option::Some(fitem) && !(fitem.kind is Import)),
    decreases items.len() - seen.len(),
{
    match spec_find(items, t) {
        Option::None => {},
        Option::Some(item) => match item.kind {
            ItemKindV::Import { name: _, target } => {
                if spec_visible(item) {
                    match target {
                        Option::None => {},
                        Option::Some(t2) => {
                            if !seen.push(t).contains(t2) {
                                lemma_found_distinct_bound(items, seen.push(t));
                                lemma_resolve_target_found(items, t2, seen.push(t));
                            }
                        },
                    }
                }
            },
            _ => {},
        },
    }
}

/// What walking a list of child references emits, in order.
pub open spec fn spec_walk_children(
    items: Seq<(Seq<char>, RawItemV)>,
    opts: Options,
    list: Seq<Seq<char>>,
    anc: Seq<Seq<char>>,
    path: Seq<Seq<char>>,
) -> (Seq<PublicItemV>, Seq<Seq<char>>)
    decreases items.len() - anc.len(), 2int, list.len(),
        when walk_pre(items, anc)
{
    if list.len() == 0 {
        (Seq::empty(), Seq::empty())
    } else {
        let first = spec_walk_child(items, opts, list[0], anc, path);
        let rest = spec_walk_children(items, opts, list.drop_first(), anc, path);
        (first.0 + rest.0, first.1 + rest.1)
    }
}

/// Pushing a fresh element keeps a sequence free of duplicates.
pub proof fn lemma_push_distinct(s: Seq<Seq<char>>, x: Seq<char>)
    requires
        s.no_duplicates(),
        !s.contains(x),
    ensures
        s.push(x).no_duplicates(),
{
    assert forall|i: int, j: int|
        0 <= i < j < s.push(x).len() implies s.push(x)[i] != s.push(x)[j] by {
        if j == s.len() {
            assert(s.push(x)[i] == s[i]);
        }
    }
}

/// Whether a string occurs in a vector of strings.
fn vec_contains_str(v: &Vec<String>, s: &str) -> (r: bool)
    ensures
        r == strs_view(v@).contains(s@),
{
    let mut i: usize = 0;
    while i < v.len()
        invariant
            i <= v@.len(),
            forall|j: int| 0 <= j < i ==> strs_view(v@)[j] != s@,
        decreases v@.len() - i,
    {
        if crate::ordering::str_eq(v[i].as_str(), s) {
            proof {
                assert(strs_view(v@)[i as int] == s@);
            }
            return true;
        }
        i = i + 1;
    }
    false
}

/// Appends clones of all strings of `src` to `dst`.
fn append_clones(dst: &mut Vec<String>, src: &Vec<String>)
    ensures
        strs_view(final(dst)@) == strs_view(old(dst)@) + strs_view(src@),
{
    proof {
        assert(strs_view(dst@) =~= strs_view(old(dst)@) + strs_view(src@).take(0));
    }
    let mut i: usize = 0;
    while i < src.len()
        invariant
            i <= src@.len(),
            strs_view(dst@) == strs_view(old(dst)@) + strs_view(src@).take(i as int),
        decreases src@.len() - i,
    {
        let ghost before = dst@;
        dst.push(src[i].clone());
        proof {
            assert(dst@ == before.push(dst@[before.len() as int]));
            assert(dst@[before.len() as int]@ == src@[i as int]@);
            assert(strs_view(dst@) =~= strs_view(before).push(src@[i as int]@));
            assert(strs_view(src@).take(i + 1int) =~= strs_view(src@).take(i as int).push(
                src@[i as int]@,
            ));
            assert(strs_view(dst@) =~= strs_view(old(dst)@) + strs_view(src@).take(i + 1int));
        }
        i = i + 1;
    }
    proof {
        assert(strs_view(src@).take(src@.len() as int) =~= strs_view(src@));
        assert(strs_view(Seq::<String>::empty()) =~= Seq::<Seq<char>>::empty());
    }
}

/// Pre-resolves a list of field identifiers, from position `i` on, recording
/// missing references.
fn resolve_fields(
    index: &ItemIndex,
    fids: &Vec<String>,
    i: usize,
    missing: &mut Vec<String>,
) -> (r: Vec<Option<TypeExpr>>)
    requires
        i <= fids@.len(),
    ensures
        fields_view(r@) == spec_prefields(index@.items, strs_view(fids@).skip(i as int)).0,
        strs_view(final(missing)@) == strs_view(old(missing)@) + spec_prefields(
            index@.items,
            strs_view(fids@).skip(i as int),
        ).1,
    decreases fids@.len() - i,
{
    if i == fids.len() {
        proof {
            assert(strs_view(fids@).skip(i as int) =~= Seq::<Seq<char>>::empty());
            assert(fields_view(Seq::<Option<TypeExpr>>::empty()) =~= Seq::<
                Option<TypeV>,
            >::empty());
            assert(strs_view(missing@) =~= strs_view(old(missing)@) + Seq::<Seq<char>>::empty());
        }
        Vec::new()
    } else {
        proof {
            assert(strs_view(fids@).skip(i as int)[0] == fids@[i as int]@);
            assert(strs_view(fids@).skip(i as int).drop_first() =~= strs_view(fids@).skip(
                i + 1int,
            ));
        }
        let head: Option<TypeExpr> = match index.find(fids[i].as_str()) {
            Option::None => {
                missing.push(fids[i].clone());
                proof {
                    assert(strs_view(missing@) =~= strs_view(old(missing)@) + seq![
                        fids@[i as int]@,
                    ]);
                }
                Option::None
            },
            Option::Some(item) => match &item.kind {
                ItemKind::StructField { ty } => Option::Some(crate::render::copy_type(ty)),
                _ => Option::None,
            },
        };
        let ghost head_view = match &head {
            Option::Some(t) => Option::Some(t@),
            Option::None => Option::<TypeV>::None,
        };
        let mut rest = resolve_fields(index, fids, i + 1, missing);
        let ghost prev = rest@;
        rest.insert(0, head);
        proof {
            assert(fields_view(rest@) =~= seq![head_view] + fields_view(prev));
            assert(strs_view(missing@) =~= strs_view(old(missing)@) + spec_prefields(
                index@.items,
                strs_view(fids@).skip(i as int),
            ).1);
        }
        rest
    }
}

/// Flattens a list of implementation-block identifiers, from position `i`
/// on: appends the kept associated items to `acc` and records missing
/// references.
fn flatten_impls(
    index: &ItemIndex,
    opts: Options,
    iids: &Vec<String>,
    i: usize,
    acc: &mut Vec<String>,
    missing: &mut Vec<String>,
)
    requires
        i <= iids@.len(),
    ensures
        strs_view(final(acc)@) == strs_view(old(acc)@) + spec_flatten_impls(
            index@.items,
            opts,
            strs_view(iids@).skip(i as int),
        ).0,
        strs_view(final(missing)@) == strs_view(old(missing)@) + spec_flatten_impls(
            index@.items,
            opts,
            strs_view(iids@).skip(i as int),
        ).1,
    decreases iids@.len() - i,
{
    if i == iids.len() {
        proof {
            assert(strs_view(iids@).skip(i as int) =~= Seq::<Seq<char>>::empty());
            assert(strs_view(acc@) =~= strs_view(old(acc)@) + Seq::<Seq<char>>::empty());
            assert(strs_view(missing@) =~= strs_view(old(missing)@) + Seq::<Seq<char>>::empty());
        }
    } else {
        proof {
            assert(strs_view(iids@).skip(i as int)[0] == iids@[i as int]@);
            assert(strs_view(iids@).skip(i as int).drop_first() =~= strs_view(iids@).skip(
                i + 1int,
            ));
        }
        match index.find(iids[i].as_str()) {
            Option::None => {
                missing.push(iids[i].clone());
                proof {
                    assert(strs_view(missing@) =~= strs_view(old(missing)@) + seq![
                        iids@[i as int]@,
                    ]);
                }
            },
            Option::Some(item) => match &item.kind {
                ItemKind::Impl { items: assoc, blanket } => {
                    if *blanket && !opts.with_blanket_implementations {
                    } else {
                        append_clones(acc, assoc);
                    }
                },
                _ => {},
            },
        }
        flatten_impls(index, opts, iids, i + 1, acc, missing);
        proof {
            assert(strs_view(acc@) =~= strs_view(old(acc)@) + spec_flatten_impls(
                index@.items,
                opts,
                strs_view(iids@).skip(i as int),
            ).0);
            assert(strs_view(missing@) =~= strs_view(old(missing)@) + spec_flatten_impls(
                index@.items,
                opts,
                strs_view(iids@).skip(i as int),
            ).1);
        }
    }
}

/// The outcome of resolving a re-export target, in executable form.
enum TargetResolution<'a> {
    Found(String, &'a RawItem),
    Missing(String),
    Dead,
}

/// Resolves a re-export target, following chains of re-exports.
fn resolve_target<'a>(index: &'a ItemIndex, t: &String, seen: Vec<String>) -> (r:
    TargetResolution<'a>)
    requires
        resolve_pre(index@.items, t@, strs_view(seen@)),
    ensures
        match r {
            TargetResolution::Found(fid, fitem) => spec_resolve_target(
                index@.items,
                t@,
                strs_view(seen@),
            ) == ResolvedTarget::Found(fid@, fitem@),
            TargetResolution::Missing(m) => spec_resolve_target(index@.items, t@, strs_view(seen@))
                == ResolvedTarget::Missing(m@),
            TargetResolution::Dead => spec_resolve_target(index@.items, t@, strs_view(seen@))
                == ResolvedTarget::Dead,
        },
    decreases index@.items.len() - seen@.len(),
{
    proof {
        lemma_found_distinct_bound(index@.items, strs_view(seen@));
    }
    match index.find(t.as_str()) {
        Option::None => TargetResolution::Missing(t.clone()),
        Option::Some(item) => match &item.kind {
            ItemKind::Import { name: _, target } => {
                if item.visibility != Visibility::Public && item.visibility != Visibility::Default {
                    TargetResolution::Dead
                } else {
                    match target {
                        Option::None => TargetResolution::Dead,
                        Option::Some(t2) => {
                            let mut seen2 = seen;
                            let ghost seen_view = strs_view(seen2@);
                            seen2.push(t.clone());
                            proof {
                                assert(strs_view(seen2@) =~= seen_view.push(t@));
                                lemma_push_distinct(seen_view, t@);
                                lemma_found_distinct_bound(index@.items, strs_view(seen2@));
                            }
                            if vec_contains_str(&seen2, t2.as_str()) {
                                TargetResolution::Dead
                            } else {
                                resolve_target(index, t2, seen2)
                            }
                        },
                    }
                }
            },
            _ => TargetResolution::Found(t.clone(), item),
        },
    }
}

/// The ancestor identifiers that a parent link stands for.
pub open spec fn anc_of(arena: Seq<IntermediatePublicItem>, parent: Option<usize>) -> Seq<
    Seq<char>,
> {
    match parent {
        Option::Some(p) => chain_ids(arena, p as int),
        Option::None => Seq::empty(),
    }
}

/// The path that a parent link stands for.
pub open spec fn path_of(arena: Seq<IntermediatePublicItem>, parent: Option<usize>) -> Seq<
    Seq<char>,
> {
    match parent {
        Option::Some(p) => chain_names(arena, p as int),
        Option::None => Seq::empty(),
    }
}

/// Walks one concrete item: emits the item itself, then its children, with
/// the fresh resolved item appended to the arena.
#[verifier::rlimit(100)]
fn walk_item(
    index: &ItemIndex,
    opts: Options,
    id: &String,
    item: &RawItem,
    name: &String,
    parent: Option<usize>,
    arena: &mut Vec<IntermediatePublicItem>,
    out: &mut Vec<PublicItem>,
    missing: &mut Vec<String>,
)
    requires
        arena_wf(old(arena)@),
        match parent {
            Option::Some(p) => (p as int) < old(arena)@.len(),
            Option::None => true,
        },
        walk_pre(index@.items, anc_of(old(arena)@, parent)),
        spec_find(index@.items, id@) == Option::Some(item@),
        !anc_of(old(arena)@, parent).contains(id@),
    ensures
        arena_wf(final(arena)@),
        old(arena)@.len() <= final(arena)@.len(),
        forall|j: int| 0 <= j < old(arena)@.len() ==> final(arena)@[j] == old(arena)@[j],
        items_view(final(out)@) == items_view(old(out)@) + spec_walk_item(
            index@.items,
            opts,
            id@,
            item@,
            name@,
            anc_of(old(arena)@, parent),
            path_of(old(arena)@, parent),
        ).0,
        strs_view(final(missing)@) == strs_view(old(missing)@) + spec_walk_item(
            index@.items,
            opts,
            id@,
            item@,
            name@,
            anc_of(old(arena)@, parent),
            path_of(old(arena)@, parent),
        ).1,
    decreases index@.items.len() - anc_of(arena@, parent).len(), 0int, 0int,
{
    let ghost anc = anc_of(arena@, parent);
    let ghost path = path_of(arena@, parent);
    let ghost w = spec_walk_item(index@.items, opts, id@, item@, name@, anc, path);

    // pre-resolve the fields of a tuple-shaped composite
    let empty_ids: Vec<String> = Vec::new();
    let fids: &Vec<String> = match &item.kind {
        ItemKind::Struct { form, fields, .. } => if *form == CompositeForm::Tuple {
            fields
        } else {
            &empty_ids
        },
        ItemKind::Variant { form, fields } => if *form == CompositeForm::Tuple {
            fields
        } else {
            &empty_ids
        },
        _ => &empty_ids,
    };
    proof {
        assert(strs_view(Seq::<String>::empty()) =~= Seq::<Seq<char>>::empty());
        assert(strs_view(fids@) == spec_tuple_fields(item@.kind));
    }
    let prefields = resolve_fields(index, fids, 0, missing);
    proof {
        assert(strs_view(fids@).skip(0) =~= strs_view(fids@));
    }

    // append the resolved item to the arena and emit it
    let node_idx = arena.len();
    arena.push(
        IntermediatePublicItem::new(id.clone(), name.clone(), prefields, parent),
    );
    proof {
        assert forall|k: int| 0 <= k < arena@.len() implies parent_ok(#[trigger] arena@[k], k) by {
            if k < node_idx {
                assert(arena@[k] == old(arena)@[k]);
                assert(parent_ok(old(arena)@[k], k));
            }
        }
        if parent is Some {
            let p = parent->0;
            lemma_chain_stable(old(arena)@, arena@, p as int);
        }
        assert(chain_ids(arena@, node_idx as int) == anc.push(id@));
        assert(chain_names(arena@, node_idx as int) == path.push(name@));
        lemma_push_distinct(anc, id@);
        lemma_found_distinct_bound(index@.items, anc.push(id@));
    }
    let tokens = IntermediatePublicItem::render_token_stream(arena, node_idx, index);
    let text = crate::tokens::tokens_to_string(&tokens);
    let pathv = IntermediatePublicItem::path(arena, node_idx);
    let ghost out_before = items_view(out@);
    out.push(PublicItem { path: pathv, tokens, text });
    proof {
        assert(items_view(out@) =~= out_before.push(out@[out@.len() - 1]@));
    }

    // collect the children: direct children, then the kept associated items
    // of the implementation blocks
    let direct: &Vec<String> = match &item.kind {
        ItemKind::Module { children } => children,
        ItemKind::Struct { form, fields, .. } => if *form == CompositeForm::Tuple {
            &empty_ids
        } else {
            fields
        },
        ItemKind::Enum { variants, .. } => variants,
        ItemKind::Variant { form, fields } => if *form == CompositeForm::Tuple {
            &empty_ids
        } else {
            fields
        },
        ItemKind::Trait { items } => items,
        _ => &empty_ids,
    };
    let iids: &Vec<String> = match &item.kind {
        ItemKind::Struct { impls, .. } => impls,
        ItemKind::Enum { impls, .. } => impls,
        _ => &empty_ids,
    };
    proof {
        assert(strs_view(direct@) == spec_direct_children(item@.kind));
        assert(strs_view(iids@) == spec_impl_ids(item@.kind));
    }
    let mut all_children: Vec<String> = Vec::new();
    append_clones(&mut all_children, direct);
    flatten_impls(index, opts, iids, 0, &mut all_children, missing);
    proof {
        assert(strs_view(iids@).skip(0) =~= strs_view(iids@));
        assert(strs_view(Seq::<String>::empty()) =~= Seq::<Seq<char>>::empty());
    }

    walk_children(index, opts, &all_children, 0, node_idx, arena, out, missing);
    proof {
        assert(strs_view(all_children@).skip(0) =~= strs_view(all_children@));
        assert(items_view(out@) =~= items_view(old(out)@) + w.0);
        assert(strs_view(missing@) =~= strs_view(old(missing)@) + w.1);
    }
}

/// Walks a list of child references, from position `i` on.
fn walk_children(
    index: &ItemIndex,
    opts: Options,
    list: &Vec<String>,
    i: usize,
    parent: usize,
    arena: &mut Vec<IntermediatePublicItem>,
    out: &mut Vec<PublicItem>,
    missing: &mut Vec<String>,
)
    requires
        arena_wf(old(arena)@),
        (parent as int) < old(arena)@.len(),
        i <= list@.len(),
        walk_pre(index@.items, chain_ids(old(arena)@, parent as int)),
    ensures
        arena_wf(final(arena)@),
        old(arena)@.len() <= final(arena)@.len(),
        forall|j: int| 0 <= j < old(arena)@.len() ==> final(arena)@[j] == old(arena)@[j],
        items_view(final(out)@) == items_view(old(out)@) + spec_walk_children(
            index@.items,
            opts,
            strs_view(list@).skip(i as int),
            chain_ids(old(arena)@, parent as int),
            chain_names(old(arena)@, parent as int),
        ).0,
        strs_view(final(missing)@) == strs_view(old(missing)@) + spec_walk_children(
            index@.items,
            opts,
            strs_view(list@).skip(i as int),
            chain_ids(old(arena)@, parent as int),
            chain_names(old(arena)@, parent as int),
        ).1,
    decreases index@.items.len() - chain_ids(arena@, parent as int).len(), 2int, list@.len() - i,
{
    let ghost anc = chain_ids(arena@, parent as int);
    let ghost path = chain_names(arena@, parent as int);
    if i == list.len() {
        proof {
            assert(strs_view(list@).skip(i as int) =~= Seq::<Seq<char>>::empty());
            assert(items_view(out@) =~= items_view(old(out)@) + Seq::<PublicItemV>::empty());
            assert(strs_view(missing@) =~= strs_view(old(missing)@) + Seq::<Seq<char>>::empty());
        }
    } else {
        proof {
            assert(strs_view(list@).skip(i as int)[0] == list@[i as int]@);
            assert(strs_view(list@).skip(i as int).drop_first() =~= strs_view(list@).skip(
                i + 1int,
            ));
        }
        walk_child(index, opts, &list[i], parent, arena, out, missing);
        proof {
            lemma_chain_stable(old(arena)@, arena@, parent as int);
        }
        walk_children(index, opts, list, i + 1, parent, arena, out, missing);
        proof {
            assert(items_view(out@) =~= items_view(old(out)@) + spec_walk_children(
                index@.items,
                opts,
                strs_view(list@).skip(i as int),
                anc,
                path,
            ).0);
            assert(strs_view(missing@) =~= strs_view(old(missing)@) + spec_walk_children(
                index@.items,
                opts,
                strs_view(list@).skip(i as int),
                anc,
                path,
            ).1);
        }
    }
}

/// Walks one child reference: looks it up, resolves a re-export, applies the
/// visibility and cycle checks, and descends.
#[verifier::rlimit(100)]
fn walk_child(
    index: &ItemIndex,
    opts: Options,
    c: &String,
    parent: usize,
    arena: &mut Vec<IntermediatePublicItem>,
    out: &mut Vec<PublicItem>,
    missing: &mut Vec<String>,
)
    requires
        arena_wf(old(arena)@),
        (parent as int) < old(arena)@.len(),
        walk_pre(index@.items, chain_ids(old(arena)@, parent as int)),
    ensures
        arena_wf(final(arena)@),
        old(arena)@.len() <= final(arena)@.len(),
        forall|j: int| 0 <= j < old(arena)@.len() ==> final(arena)@[j] == old(arena)@[j],
        items_view(final(out)@) == items_view(old(out)@) + spec_walk_child(
            index@.items,
            opts,
            c@,
            chain_ids(old(arena)@, parent as int),
            chain_names(old(arena)@, parent as int),
        ).0,
        strs_view(final(missing)@) == strs_view(old(missing)@) + spec_walk_child(
            index@.items,
            opts,
            c@,
            chain_ids(old(arena)@, parent as int),
            chain_names(old(arena)@, parent as int),
        ).1,
    decreases index@.items.len() - chain_ids(arena@, parent as int).len(), 1int, 0int,
{
    let ghost anc = chain_ids(arena@, parent as int);
    let ghost path = chain_names(arena@, parent as int);
    let ghost w = spec_walk_child(index@.items, opts, c@, anc, path);
    match index.find(c.as_str()) {
        Option::None => {
            missing.push(c.clone());
            proof {
                assert(items_view(out@) =~= items_view(old(out)@) + w.0);
                assert(strs_view(missing@) =~= strs_view(old(missing)@) + w.1);
            }
        },
        Option::Some(citem) => {
            let visible = citem.visibility == Visibility::Public || citem.visibility
                == Visibility::Default;
            match &citem.kind {
                ItemKind::Import { name: iname, target } => {
                    if !visible {
                        proof {
                            assert(items_view(out@) =~= items_view(old(out)@) + w.0);
                            assert(strs_view(missing@) =~= strs_view(old(missing)@) + w.1);
                        }
                    } else {
                        match target {
                            Option::None => {
                                proof {
                                    assert(items_view(out@) =~= items_view(old(out)@) + w.0);
                                    assert(strs_view(missing@) =~= strs_view(old(missing)@)
                                        + w.1);
                                }
                            },
                            Option::Some(t) => {
                                if crate::ordering::str_eq(t.as_str(), c.as_str()) {
                                    proof {
                                        assert(items_view(out@) =~= items_view(old(out)@) + w.0);
                                        assert(strs_view(missing@) =~= strs_view(old(missing)@)
                                            + w.1);
                                    }
                                } else {
                                    let mut seen: Vec<String> = Vec::new();
                                    seen.push(c.clone());
                                    proof {
                                        assert(strs_view(seen@) =~= seq![c@]);
                                        assert(seq![c@].no_duplicates());
                                        assert(resolve_pre(index@.items, t@, strs_view(seen@)));
                                    }
                                    match resolve_target(index, t, seen) {
                                        TargetResolution::Missing(m) => {
                                            missing.push(m);
                                            proof {
                                                assert(items_view(out@) =~= items_view(
                                                    old(out)@,
                                                ) + w.0);
                                                assert(strs_view(missing@) =~= strs_view(
                                                    old(missing)@,
                                                ) + w.1);
                                            }
                                        },
                                        TargetResolution::Dead => {
                                            proof {
                                                assert(items_view(out@) =~= items_view(
                                                    old(out)@,
                                                ) + w.0);
                                                assert(strs_view(missing@) =~= strs_view(
                                                    old(missing)@,
                                                ) + w.1);
                                            }
                                        },
                                        TargetResolution::Found(fid, fitem) => {
                                            let cyc = IntermediatePublicItem::path_contains_id(
                                                arena,
                                                parent,
                                                fid.as_str(),
                                            );
                                            let is_impl = match &fitem.kind {
                                                ItemKind::Impl { .. } => true,
                                                _ => false,
                                            };
                                            let is_import = match &fitem.kind {
                                                ItemKind::Import { .. } => true,
                                                _ => false,
                                            };
                                            if cyc || is_impl || is_import {
                                                proof {
                                                    assert(items_view(out@) =~= items_view(
                                                        old(out)@,
                                                    ) + w.0);
                                                    assert(strs_view(missing@) =~= strs_view(
                                                        old(missing)@,
                                                    ) + w.1);
                                                }
                                            } else {
                                                proof {
                                                    lemma_resolve_target_found(
                                                        index@.items,
                                                        t@,
                                                        seq![c@],
                                                    );
                                                }
                                                walk_item(
                                                    index,
                                                    opts,
                                                    &fid,
                                                    fitem,
                                                    iname,
                                                    Option::Some(parent),
                                                    arena,
                                                    out,
                                                    missing,
                                                );
                                            }
                                        },
                                    }
                                }
                            },
                        }
                    }
                },
                ItemKind::Impl { .. } => {
                    proof {
                        assert(items_view(out@) =~= items_view(old(out)@) + w.0);
                        assert(strs_view(missing@) =~= strs_view(old(missing)@) + w.1);
                    }
                },
                _ => {
                    if visible {
                        let cyc = IntermediatePublicItem::path_contains_id(
                            arena,
                            parent,
                            c.as_str(),
                        );
                        if !cyc {
                            match &citem.name {
                                Option::Some(n) => {
                                    walk_item(
                                        index,
                                        opts,
                                        c,
                                        citem,
                                        n,
                                        Option::Some(parent),
                                        arena,
                                        out,
                                        missing,
                                    );
                                },
                                Option::None => {
                                    proof {
                                        assert(items_view(out@) =~= items_view(old(out)@) + w.0);
                                        assert(strs_view(missing@) =~= strs_view(old(missing)@)
                                            + w.1);
                                    }
                                },
                            }
                        } else {
                            proof {
                                assert(items_view(out@) =~= items_view(old(out)@) + w.0);
                                assert(strs_view(missing@) =~= strs_view(old(missing)@) + w.1);
                            }
                        }
                    } else {
                        proof {
                            assert(items_view(out@) =~= items_view(old(out)@) + w.0);
                            assert(strs_view(missing@) =~= strs_view(old(missing)@) + w.1);
                        }
                    }
                },
            }
        },
    }
}

/// What one extraction pass over an index emits: the items reachable from
/// the root, and the referenced-but-missing identifiers. A missing root is
/// itself recorded; a root that is not a walkable, named, public item yields
/// an empty surface.
pub open spec fn spec_extract(ix: crate::item_index::IndexV, opts: Options) -> (
    Seq<PublicItemV>,
    Seq<Seq<char>>,
) {
    match spec_find(ix.items, ix.root) {
        Option::None => (Seq::empty(), seq![ix.root]),
        Option::Some(rootitem) => {
            if spec_visible(rootitem) && !(rootitem.kind is Import) && !(rootitem.kind is Impl) {
                match rootitem.name {
                    Option::Some(n) => spec_walk_item(
                        ix.items,
                        opts,
                        ix.root,
                        rootitem,
                        n,
                        Seq::empty(),
                        Seq::empty(),
                    ),
                    Option::None => (Seq::empty(), Seq::empty()),
                }
            } else {
                (Seq::empty(), Seq::empty())
            }
        },
    }
}

/// Every item emitted by walking one item lies strictly under the walk path,
/// with the item's effective display name as the next segment.
pub proof fn lemma_walk_item_paths(
    items: Seq<(Seq<char>, RawItemV)>,
    opts: Options,
    id: Seq<char>,
    item: RawItemV,
    name: Seq<char>,
    anc: Seq<Seq<char>>,
    path: Seq<Seq<char>>,
)
    requires
        walk_pre(items, anc),
        spec_find(items, id) == Option::Some(item),
        !anc.contains(id),
    ensures
        forall|k: int|
            0 <= k < spec_walk_item(items, opts, id, item, name, anc, path).0.len() ==> {
                let p = (#[trigger] spec_walk_item(items, opts, id, item, name, anc, path).0[k]).path;
                p.len() > path.len() && p.take(path.len() as int + 1) == path.push(name)
            },
    decreases items.len() - anc.len(), 0int, 0int,
{
    let newpath = path.push(name);
    let newanc = anc.push(id);
    let w = spec_walk_item(items, opts, id, item, name, anc, path);
    lemma_push_distinct(anc, id);
    lemma_found_distinct_bound(items, newanc);
    let fl = spec_flatten_impls(items, opts, spec_impl_ids(item.kind));
    lemma_walk_children_paths(
        items,
        opts,
        spec_direct_children(item.kind) + fl.0,
        newanc,
        newpath,
    );
    assert(w.0[0].path == newpath);
    assert(w.0[0].path.take(path.len() as int + 1) =~= path.push(name));
    assert forall|k: int| 0 <= k < w.0.len() implies {
        let p = (#[trigger] w.0[k]).path;
        p.len() > path.len() && p.take(path.len() as int + 1) == path.push(name)
    } by {
        if k > 0 {
            let rec = spec_walk_children(
                items,
                opts,
                spec_direct_children(item.kind) + fl.0,
                newanc,
                newpath,
            );
            assert(w.0[k] == rec.0[k - 1]);
            let p = rec.0[k - 1].path;
            assert(p.take(newpath.len() as int) == newpath);
            assert(p.take(path.len() as int + 1) =~= p.take(newpath.len() as int).take(path.len() as int + 1));
            assert(newpath.take(path.len() as int + 1) =~= newpath);
        }
    }
}

/// Every item emitted by walking one child reference lies strictly under the
/// walk path.
pub proof fn lemma_walk_child_paths(
    items: Seq<(Seq<char>, RawItemV)>,
    opts: Options,
    c: Seq<char>,
    anc: Seq<Seq<char>>,
    path: Seq<Seq<char>>,
)
    requires
        walk_pre(items, anc),
    ensures
        forall|k: int|
            0 <= k < spec_walk_child(items, opts, c, anc, path).0.len() ==> {
                let p = (#[trigger] spec_walk_child(items, opts, c, anc, path).0[k]).path;
                p.len() > path.len() && p.take(path.len() as int) == path
            },
    decreases items.len() - anc.len(), 1int, 0int,
{
    match spec_find(items, c) {
        Option::None => {},
        Option::Some(citem) => match citem.kind {
            ItemKindV::Import { name: iname, target } => {
                if spec_visible(citem) {
                    match target {
                        Option::None => {},
                        Option::Some(t) => {
                            if t != c {
                                match spec_resolve_target(items, t, seq![c]) {
                                    ResolvedTarget::Found(fid, fitem) => {
                                        if !anc.contains(fid) && !(fitem.kind is Impl) && !(
                                        fitem.kind is Import) {
                                            lemma_resolve_target_found(items, t, seq![c]);
                                            lemma_walk_item_paths(
                                                items,
                                                opts,
                                                fid,
                                                fitem,
                                                iname,
                                                anc,
                                                path,
                                            );
                                            assert(spec_walk_child(items, opts, c, anc, path)
                                                == spec_walk_item(
                                                items,
                                                opts,
                                                fid,
                                                fitem,
                                                iname,
                                                anc,
                                                path,
                                            ));
                                            assert forall|k: int|
                                                0 <= k < spec_walk_child(
                                                    items,
                                                    opts,
                                                    c,
                                                    anc,
                                                    path,
                                                ).0.len() implies {
                                                let p = (#[trigger] spec_walk_child(
                                                    items,
                                                    opts,
                                                    c,
                                                    anc,
                                                    path,
                                                ).0[k]).path;
                                                p.len() > path.len() && p.take(path.len() as int)
                                                    == path
                                            } by {
                                                let p = spec_walk_child(
                                                    items,
                                                    opts,
                                                    c,
                                                    anc,
                                                    path,
                                                ).0[k].path;
                                                assert(p == (spec_walk_item(
                                                    items,
                                                    opts,
                                                    fid,
                                                    fitem,
                                                    iname,
                                                    anc,
                                                    path,
                                                ).0[k]).path);
                                                assert(p.take(path.len() as int + 1) == path.push(
                                                    iname,
                                                ));
                                                assert(p.take(path.len() as int) =~= p.take(
                                                    path.len() as int + 1,
                                                ).take(path.len() as int));
                                                assert(path.push(iname).take(path.len() as int)
                                                    =~= path);
                                            }
                                        }
                                    },
                                    _ => {},
                                }
                            }
                        },
                    }
                }
            },
            ItemKindV::Impl { .. } => {},
            _ => {
                if spec_visible(citem) && !anc.contains(c) {
                    match citem.name {
                        Option::Some(nm) => {
                            lemma_walk_item_paths(items, opts, c, citem, nm, anc, path);
                            assert(spec_walk_child(items, opts, c, anc, path) == spec_walk_item(
                                items,
                                opts,
                                c,
                                citem,
                                nm,
                                anc,
                                path,
                            ));
                            assert forall|k: int|
                                0 <= k < spec_walk_child(items, opts, c, anc, path).0.len() implies {
                                let p = (#[trigger] spec_walk_child(
                                    items,
                                    opts,
                                    c,
                                    anc,
                                    path,
                                ).0[k]).path;
                                p.len() > path.len() && p.take(path.len() as int) == path
                            } by {
                                let p = spec_walk_child(items, opts, c, anc, path).0[k].path;
                                assert(p == spec_walk_item(
                                    items,
                                    opts,
                                    c,
                                    citem,
                                    nm,
                                    anc,
                                    path,
                                ).0[k].path);
                                assert(p.take(path.len() as int + 1) == path.push(nm));
                                assert(p.take(path.len() as int) =~= p.take(path.len() as int + 1).take(
                                    path.len() as int,
                                ));
                                assert(path.push(nm).take(path.len() as int) =~= path);
                            }
                        },
                        Option::None => {},
                    }
                }
            },
        },
    }
}

/// Every item emitted by walking a list of children lies strictly under the
/// walk path.
pub proof fn lemma_walk_children_paths(
    items: Seq<(Seq<char>, RawItemV)>,
    opts: Options,
    list: Seq<Seq<char>>,
    anc: Seq<Seq<char>>,
    path: Seq<Seq<char>>,
)
    requires
        walk_pre(items, anc),
    ensures
        forall|k: int|
            0 <= k < spec_walk_children(items, opts, list, anc, path).0.len() ==> {
                let p = (#[trigger] spec_walk_children(items, opts, list, anc, path).0[k]).path;
                p.len() > path.len() && p.take(path.len() as int) == path
            },
    decreases items.len() - anc.len(), 2int, list.len(),
{
    if list.len() > 0 {
        lemma_walk_child_paths(items, opts, list[0], anc, path);
        lemma_walk_children_paths(items, opts, list.drop_first(), anc, path);
        let first = spec_walk_child(items, opts, list[0], anc, path);
        let rest = spec_walk_children(items, opts, list.drop_first(), anc, path);
        assert forall|k: int|
            0 <= k < spec_walk_children(items, opts, list, anc, path).0.len() implies {
            let p = (#[trigger] spec_walk_children(items, opts, list, anc, path).0[k]).path;
            p.len() > path.len() && p.take(path.len() as int) == path
        } by {
            if k < first.0.len() {
                assert(spec_walk_children(items, opts, list, anc, path).0[k] == first.0[k]);
            } else {
                assert(spec_walk_children(items, opts, list, anc, path).0[k] == rest.0[k
                    - first.0.len()]);
            }
        }
    }
}

/// Path stability under a renaming re-export: walking a re-export reference
/// walks its resolved target under the re-export's effective name — the
/// emitted subtree is exactly the target's, and every emitted item carries
/// the effective name, not the target's own, at the re-export's position.
pub proof fn lemma_rename_reexport(
    items: Seq<(Seq<char>, RawItemV)>,
    opts: Options,
    c: Seq<char>,
    citem: RawItemV,
    iname: Seq<char>,
    t: Seq<char>,
    fid: Seq<char>,
    fitem: RawItemV,
    anc: Seq<Seq<char>>,
    path: Seq<Seq<char>>,
)
    requires
        walk_pre(items, anc),
        spec_find(items, c) == Option::Some(citem),
        citem.kind == (ItemKindV::Import { name: iname, target: Option::Some(t) }),
        spec_visible(citem),
        t != c,
        spec_resolve_target(items, t, seq![c]) == ResolvedTarget::Found(fid, fitem),
        !anc.contains(fid),
        !(fitem.kind is Impl),
        !(fitem.kind is Import),
    ensures
        spec_walk_child(items, opts, c, anc, path) == spec_walk_item(
            items,
            opts,
            fid,
            fitem,
            iname,
            anc,
            path,
        ),
        forall|k: int|
            0 <= k < spec_walk_child(items, opts, c, anc, path).0.len() ==> (
            #[trigger] spec_walk_child(items, opts, c, anc, path).0[k]).path[path.len() as int]
                == iname,
{
    lemma_resolve_target_found(items, t, seq![c]);
    lemma_walk_item_paths(items, opts, fid, fitem, iname, anc, path);
    assert(spec_walk_child(items, opts, c, anc, path) == spec_walk_item(
        items,
        opts,
        fid,
        fitem,
        iname,
        anc,
        path,
    ));
    assert forall|k: int|
        0 <= k < spec_walk_child(items, opts, c, anc, path).0.len() implies (
    #[trigger] spec_walk_child(items, opts, c, anc, path).0[k]).path[path.len() as int]
        == iname by {
        let p = spec_walk_child(items, opts, c, anc, path).0[k].path;
        assert(p == spec_walk_item(items, opts, fid, fitem, iname, anc, path).0[k].path);
        assert(p.take(path.len() as int + 1) == path.push(iname));
        assert(p.take(path.len() as int + 1)[path.len() as int] == p[path.len() as int]);
        assert(path.push(iname)[path.len() as int] == iname);
    }
}

/// Cycle safety: a re-export whose target chain reaches an ancestor of the
/// importing module is skipped: it emits nothing and records nothing, and
/// the rest of the walk is unaffected. (That the walk terminates on every
/// index, cyclic re-exports included, holds by construction: the walk
/// functions are total, their recursion bounded by the ancestors not yet
/// visited.)
pub proof fn lemma_cycle_skipped(
    items: Seq<(Seq<char>, RawItemV)>,
    opts: Options,
    c: Seq<char>,
    citem: RawItemV,
    iname: Seq<char>,
    t: Seq<char>,
    fid: Seq<char>,
    fitem: RawItemV,
    anc: Seq<Seq<char>>,
    path: Seq<Seq<char>>,
)
    requires
        walk_pre(items, anc),
        spec_find(items, c) == Option::Some(citem),
        citem.kind == (ItemKindV::Import { name: iname, target: Option::Some(t) }),
        spec_visible(citem),
        t != c,
        spec_resolve_target(items, t, seq![c]) == ResolvedTarget::Found(fid, fitem),
        anc.contains(fid),
    ensures
        spec_walk_child(items, opts, c, anc, path) == (
            Seq::<PublicItemV>::empty(),
            Seq::<Seq<char>>::empty(),
        ),
{
}

/// Tuple-field suppression: a tuple-shaped composite with no implementation
/// blocks produces exactly one public item — not one per field — and that
/// item's token sequence renders the full field list, each field's type in
/// declaration order, inside the item's own signature.
pub proof fn lemma_tuple_field_suppression(
    items: Seq<(Seq<char>, RawItemV)>,
    opts: Options,
    id: Seq<char>,
    item: RawItemV,
    name: Seq<char>,
    anc: Seq<Seq<char>>,
    path: Seq<Seq<char>>,
    fields: Seq<Seq<char>>,
)
    requires
        walk_pre(items, anc),
        spec_find(items, id) == Option::Some(item),
        !anc.contains(id),
        item.kind == (ItemKindV::Struct {
            form: CompositeForm::Tuple,
            fields: fields,
            impls: Seq::<Seq<char>>::empty(),
        }),
    ensures
        spec_walk_item(items, opts, id, item, name, anc, path).0.len() == 1,
        spec_walk_item(items, opts, id, item, name, anc, path).0[0].path == path.push(name),
        spec_walk_item(items, opts, id, item, name, anc, path).0[0].tokens == spec_render_item(
            item,
            path.push(name),
            spec_fields_tokens(spec_prefields(items, fields).0),
        ),
{
    let newanc = anc.push(id);
    lemma_push_distinct(anc, id);
    lemma_found_distinct_bound(items, newanc);
    assert(spec_impl_ids(item.kind) =~= Seq::<Seq<char>>::empty());
    assert(spec_direct_children(item.kind) =~= Seq::<Seq<char>>::empty());
    assert(spec_direct_children(item.kind) + spec_flatten_impls(
        items,
        opts,
        spec_impl_ids(item.kind),
    ).0 =~= Seq::<Seq<char>>::empty());
    assert(spec_tuple_fields(item.kind) == fields);
}

/// Walks the index from its root, producing the public items in traversal
/// order and the referenced-but-missing identifiers.
pub fn public_api_in_index(index: &ItemIndex, options: Options) -> (r: (
    Vec<PublicItem>,
    Vec<String>,
))
    ensures
        items_view(r.0@) == spec_extract(index@, options).0,
        strs_view(r.1@) == spec_extract(index@, options).1,
{
    let mut out: Vec<PublicItem> = Vec::new();
    let mut missing: Vec<String> = Vec::new();
    let mut arena: Vec<IntermediatePublicItem> = Vec::new();
    proof {
        assert(items_view(out@) =~= Seq::<PublicItemV>::empty());
        assert(strs_view(missing@) =~= Seq::<Seq<char>>::empty());
    }
    match index.find(index.root.as_str()) {
        Option::None => {
            missing.push(index.root.clone());
            proof {
                assert(strs_view(missing@) =~= seq![index.root@]);
            }
        },
        Option::Some(rootitem) => {
            let visible = rootitem.visibility == Visibility::Public || rootitem.visibility
                == Visibility::Default;
            let walkable = match &rootitem.kind {
                ItemKind::Import { .. } => false,
                ItemKind::Impl { .. } => false,
                _ => true,
            };
            if visible && walkable {
                match &rootitem.name {
                    Option::Some(n) => {
                        proof {
                            assert(anc_of(arena@, Option::None) =~= Seq::<Seq<char>>::empty());
                            assert(path_of(arena@, Option::None) =~= Seq::<Seq<char>>::empty());
                        }
                        walk_item(
                            index,
                            options,
                            &index.root,
                            rootitem,
                            n,
                            Option::None,
                            &mut arena,
                            &mut out,
                            &mut missing,
                        );
                    },
                    Option::None => {},
                }
            }
        },
    }
    (out, missing)
}

/// Whether an item sorts at or before another: lexicographically by rendered
/// text.
pub open spec fn text_le(a: PublicItemV, b: PublicItemV) -> bool {
    crate::ordering::chars_cmp(a.text, b.text) != crate::ordering::Cmp::Greater
}

/// Inserting an item into a text-sorted sequence: before the first item it
/// sorts at or before.
pub open spec fn spec_insert_item(x: PublicItemV, s: Seq<PublicItemV>) -> Seq<PublicItemV>
    decreases s.len(),
{
    if s.len() == 0 {
        seq![x]
    } else if text_le(x, s[0]) {
        seq![x] + s
    } else {
        seq![s[0]] + spec_insert_item(x, s.drop_first())
    }
}

/// Sorting a sequence of items by rendered text: insertion sort, which keeps
/// items of equal text in their original order.
pub open spec fn spec_sort_items(s: Seq<PublicItemV>) -> Seq<PublicItemV>
    decreases s.len(),
{
    if s.len() == 0 {
        Seq::empty()
    } else {
        spec_insert_item(s[0], spec_sort_items(s.drop_first()))
    }
}

/// Inserting at the position found by a linear scan is the specified
/// insertion.
proof fn lemma_insert_item_at(x: PublicItemV, s: Seq<PublicItemV>, j: int)
    requires
        0 <= j <= s.len(),
        forall|k: int| 0 <= k < j ==> !text_le(x, #[trigger] s[k]),
        j < s.len() ==> text_le(x, s[j]),
    ensures
        spec_insert_item(x, s) == s.take(j) + seq![x] + s.skip(j),
    decreases j,
{
    if j == 0 {
        if s.len() == 0 {
            assert(spec_insert_item(x, s) =~= s.take(0) + seq![x] + s.skip(0));
        } else {
            assert(text_le(x, s[0]));
            assert(spec_insert_item(x, s) =~= s.take(0) + seq![x] + s.skip(0));
        }
    } else {
        assert(!text_le(x, s[0]));
        assert forall|k: int| 0 <= k < j - 1 implies !text_le(x, #[trigger] s.drop_first()[k]) by {
            assert(s.drop_first()[k] == s[k + 1]);
        }
        if j - 1 < s.drop_first().len() {
            assert(s.drop_first()[j - 1] == s[j]);
        }
        lemma_insert_item_at(x, s.drop_first(), j - 1);
        assert(spec_insert_item(x, s) =~= s.take(j) + seq![x] + s.skip(j));
    }
}

/// Inserts an item into a text-sorted vector.
fn insert_item(x: PublicItem, sorted: &mut Vec<PublicItem>)
    ensures
        items_view(final(sorted)@) == spec_insert_item(x@, items_view(old(sorted)@)),
{
    let ghost xv = x@;
    let ghost s = items_view(sorted@);
    let mut j: usize = 0;
    while j < sorted.len()
        invariant_except_break
            xv == x@,
            j <= sorted@.len(),
            s == items_view(sorted@),
            forall|k: int| 0 <= k < j ==> !text_le(xv, #[trigger] s[k]),
        ensures
            xv == x@,
            j <= sorted@.len(),
            s == items_view(sorted@),
            forall|k: int| 0 <= k < j ==> !text_le(xv, #[trigger] s[k]),
            j < sorted@.len() ==> text_le(xv, s[j as int]),
        decreases sorted@.len() - j,
    {
        proof {
            assert(s[j as int] == sorted@[j as int]@);
        }
        let c = crate::ordering::str_cmp(x.text.as_str(), sorted[j].text.as_str());
        match c {
            crate::ordering::Cmp::Greater => {},
            _ => {
                break ;
            },
        }
        j = j + 1;
    }
    proof {
        lemma_insert_item_at(xv, s, j as int);
    }
    sorted.insert(j, x);
    proof {
        assert(items_view(sorted@) =~= s.take(j as int) + seq![xv] + s.skip(j as int));
    }
}

/// Whether a collection is sorted lexicographically by rendered text.
pub open spec fn sorted_by_text(s: Seq<PublicItemV>) -> bool {
    forall|i: int, j: int| 0 <= i < j < s.len() ==> text_le(#[trigger] s[i], #[trigger] s[j])
}

/// The text order is total.
proof fn lemma_text_le_total(a: PublicItemV, b: PublicItemV)
    ensures
        text_le(a, b) || text_le(b, a),
{
    crate::ordering::lemma_chars_cmp_flip(a.text, b.text);
    crate::ordering::lemma_chars_cmp_flip(b.text, a.text);
}

/// The text order is transitive.
proof fn lemma_text_le_trans(a: PublicItemV, b: PublicItemV, c: PublicItemV)
    requires
        text_le(a, b),
        text_le(b, c),
    ensures
        text_le(a, c),
{
    crate::ordering::lemma_chars_cmp_equal(a.text, b.text);
    crate::ordering::lemma_chars_cmp_equal(b.text, c.text);
    crate::ordering::lemma_chars_cmp_equal(a.text, c.text);
    if crate::ordering::chars_cmp(a.text, b.text) == crate::ordering::Cmp::Less
        && crate::ordering::chars_cmp(b.text, c.text) == crate::ordering::Cmp::Less {
        crate::ordering::lemma_chars_cmp_trans(a.text, b.text, c.text);
    }
}

/// Insertion into a text-sorted collection keeps it text-sorted.
proof fn lemma_insert_item_keeps_sorted(x: PublicItemV, s: Seq<PublicItemV>)
    requires
        sorted_by_text(s),
    ensures
        sorted_by_text(spec_insert_item(x, s)),
    decreases s.len(),
{
    let t = spec_insert_item(x, s);
    if s.len() == 0 {
    } else if text_le(x, s[0]) {
        assert forall|i: int, j: int|
            0 <= i < j < t.len() implies text_le(#[trigger] t[i], #[trigger] t[j]) by {
            if i == 0 {
                if j > 0 {
                    assert(t[j] == s[j - 1]);
                    if j > 1 {
                        lemma_text_le_trans(x, s[0], s[j - 1]);
                    }
                }
            } else {
                assert(t[i] == s[i - 1]);
                assert(t[j] == s[j - 1]);
            }
        }
    } else {
        lemma_text_le_total(x, s[0]);
        assert(sorted_by_text(s.drop_first())) by {
            assert forall|i: int, j: int|
                0 <= i < j < s.drop_first().len() implies text_le(
                #[trigger] s.drop_first()[i],
                #[trigger] s.drop_first()[j],
            ) by {
                assert(s.drop_first()[i] == s[i + 1]);
                assert(s.drop_first()[j] == s[j + 1]);
            }
        }
        lemma_insert_item_keeps_sorted(x, s.drop_first());
        let rest = spec_insert_item(x, s.drop_first());
        lemma_insert_item_contains(x, s.drop_first());
        assert forall|k: int| 0 <= k < rest.len() implies text_le(s[0], #[trigger] rest[k]) by {
            assert(rest.contains(rest[k]));
            if rest[k] == x {
            } else {
                assert(s.drop_first().contains(rest[k]));
                let m = choose|m: int|
                    0 <= m < s.drop_first().len() && s.drop_first()[m] == rest[k];
                assert(s[m + 1] == rest[k]);
            }
        }
        assert forall|i: int, j: int|
            0 <= i < j < t.len() implies text_le(#[trigger] t[i], #[trigger] t[j]) by {
            if i == 0 {
                assert(t[j] == rest[j - 1]);
            } else {
                assert(t[i] == rest[i - 1]);
                assert(t[j] == rest[j - 1]);
            }
        }
    }
}

/// Insertion adds exactly the inserted item to the collection's contents.
proof fn lemma_insert_item_contains(x: PublicItemV, s: Seq<PublicItemV>)
    ensures
        forall|y: PublicItemV|
            #[trigger] spec_insert_item(x, s).contains(y) <==> (y == x || s.contains(y)),
    decreases s.len(),
{
    broadcast use vstd::seq_lib::lemma_seq_concat_contains_all_elements;
    broadcast use vstd::seq_lib::lemma_seq_empty_contains_nothing;

    let t = spec_insert_item(x, s);
    if s.len() == 0 {
        assert forall|y: PublicItemV| #[trigger] t.contains(y) <==> (y == x || s.contains(y)) by {
            if y == x {
                assert(t[0] == y);
            }
            if t.contains(y) {
                let i = choose|i: int| 0 <= i < t.len() && t[i] == y;
            }
        }
    } else if text_le(x, s[0]) {
        assert forall|y: PublicItemV| #[trigger] t.contains(y) <==> (y == x || s.contains(y)) by {
            if y == x {
                assert((seq![x] + s)[0] == y);
            }
            if t.contains(y) {
                let i = choose|i: int| 0 <= i < t.len() && t[i] == y;
                if i > 0 {
                    assert(s[i - 1] == y);
                }
            }
        }
    } else {
        lemma_insert_item_contains(x, s.drop_first());
        let rest = spec_insert_item(x, s.drop_first());
        assert forall|y: PublicItemV| #[trigger] t.contains(y) <==> (y == x || s.contains(y)) by {
            if t.contains(y) {
                let i = choose|i: int| 0 <= i < t.len() && t[i] == y;
                if i > 0 {
                    assert(rest[i - 1] == y);
                    assert(rest.contains(y));
                    if y != x {
                        let m = choose|m: int|
                            0 <= m < s.drop_first().len() && s.drop_first()[m] == y;
                        assert(s[m + 1] == y);
                    }
                } else {
                    assert(y == s[0]);
                }
            }
            if y == x {
                assert(rest.contains(x));
                let m = choose|m: int| 0 <= m < rest.len() && rest[m] == x;
                assert(t[m + 1] == x);
            } else if s.contains(y) {
                let m = choose|m: int| 0 <= m < s.len() && s[m] == y;
                if m == 0 {
                    assert(t[0] == y);
                } else {
                    assert(s.drop_first()[m - 1] == y);
                    assert(rest.contains(y));
                    let k = choose|k: int| 0 <= k < rest.len() && rest[k] == y;
                    assert(t[k + 1] == y);
                }
            }
        }
    }
}

/// Sorting by rendered text sorts: the output a sorted configuration asks
/// for is lexicographically ascending.
pub proof fn lemma_sort_items_sorts(s: Seq<PublicItemV>)
    ensures
        sorted_by_text(spec_sort_items(s)),
    decreases s.len(),
{
    if s.len() > 0 {
        lemma_sort_items_sorts(s.drop_first());
        lemma_insert_item_keeps_sorted(s[0], spec_sort_items(s.drop_first()));
    }
}

/// Sorts the items lexicographically by rendered text; items of equal text
/// keep their original order.
pub fn sort_public_items(items: Vec<PublicItem>) -> (r: Vec<PublicItem>)
    ensures
        items_view(r@) == spec_sort_items(items_view(items@)),
{
    let mut rest = items;
    let ghost full = items_view(rest@);
    let mut acc: Vec<PublicItem> = Vec::new();
    proof {
        assert(items_view(acc@) =~= Seq::<PublicItemV>::empty());
        assert(full.skip(full.len() as int) =~= Seq::<PublicItemV>::empty());
    }
    while rest.len() > 0
        invariant
            rest@.len() <= full.len(),
            items_view(rest@) == full.take(rest@.len() as int),
            items_view(acc@) == spec_sort_items(full.skip(rest@.len() as int)),
        decreases rest@.len(),
    {
        let ghost n = rest@.len() as int;
        let x = match rest.pop() {
            Option::Some(x) => x,
            Option::None => {
                proof {
                    assert(false);
                }
                unreached()
            },
        };
        proof {
            assert(x@ == full.take(n)[n - 1]);
            assert(full.take(n)[n - 1] == full[n - 1]);
            assert(items_view(rest@) =~= full.take(n - 1));
            assert(full.skip(n - 1)[0] == full[n - 1]);
            assert(full.skip(n - 1).drop_first() =~= full.skip(n));
        }
        insert_item(x, &mut acc);
    }
    proof {
        assert(full.skip(0) =~= full);
    }
    acc
}

} // verus!
