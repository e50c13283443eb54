//! The intermediate form of one public item: a raw item reference plus its
//! effective display name, its pre-resolved tuple fields, and a link to its
//! parent.
//!
//! Resolved items live in an arena (a growable indexed store); the parent
//! link is an index into the arena, so many siblings share one parent without
//! owning it. An item's path is not stored: it is computed on demand by
//! following parent links back to the root.

use vstd::prelude::*;

use crate::item_index::{ItemIndex, RawItem, TypeExpr, spec_find, fields_view};
use crate::ordering::strs_view;
use crate::render::{spec_fields_tokens, spec_render_item};
use crate::tokens::{toks, Token};

verus! {

/// One resolved public item, in intermediate form.
#[derive(Debug)]
pub struct IntermediatePublicItem {
    /// The identifier of the raw item this wraps.
    pub id: String,
    /// The effective display name: the raw item's own name, or the new name
    /// when the item was reached via a renaming re-export.
    pub name: String,
    /// The pre-resolved types of a tuple-shaped composite's fields, in
    /// declaration order, with `None` for a field whose type could not be
    /// resolved. Such fields are rendered inside this item's own signature
    /// and never become public items of their own.
    pub pre_resolved_fields: Vec<Option<TypeExpr>>,
    /// The arena index of the parent resolved item.
    pub parent: Option<usize>,
}

/// A node's parent stands strictly earlier in the arena.
pub open spec fn parent_ok(n: IntermediatePublicItem, k: int) -> bool {
    match n.parent {
        Option::Some(p) => (p as int) < k,
        Option::None => true,
    }
}

/// Every node's parent stands strictly earlier in the arena.
pub open spec fn arena_wf(arena: Seq<IntermediatePublicItem>) -> bool {
    forall|k: int| 0 <= k < arena.len() ==> parent_ok(#[trigger] arena[k], k)
}

/// The identifiers along the parent chain of a node, root first, the node's
/// own identifier last.
pub open spec fn chain_ids(arena: Seq<IntermediatePublicItem>, k: int) -> Seq<Seq<char>>
    recommends
        0 <= k < arena.len(),
    decreases k,
{
    match arena[k].parent {
        Option::Some(p) => if (p as int) < k {
            chain_ids(arena, p as int).push(arena[k].id@)
        } else {
            seq![arena[k].id@]
        },
        Option::None => seq![arena[k].id@],
    }
}

/// The display names along the parent chain of a node, root first, the
/// node's own name last: the node's path.
pub open spec fn chain_names(arena: Seq<IntermediatePublicItem>, k: int) -> Seq<Seq<char>>
    recommends
        0 <= k < arena.len(),
    decreases k,
{
    match arena[k].parent {
        Option::Some(p) => if (p as int) < k {
            chain_names(arena, p as int).push(arena[k].name@)
        } else {
            seq![arena[k].name@]
        },
        Option::None => seq![arena[k].name@],
    }
}

/// Chains only read the arena up to their node, so extending the arena
/// changes no existing chain.
pub proof fn lemma_chain_stable(
    arena1: Seq<IntermediatePublicItem>,
    arena2: Seq<IntermediatePublicItem>,
    k: int,
)
    requires
        0 <= k < arena1.len(),
        arena1.len() <= arena2.len(),
        forall|j: int| 0 <= j < arena1.len() ==> arena1[j] == #[trigger] arena2[j],
    ensures
        chain_ids(arena2, k) == chain_ids(arena1, k),
        chain_names(arena2, k) == chain_names(arena1, k),
    decreases k,
{
    match arena1[k].parent {
        Option::Some(p) => {
            if (p as int) < k {
                lemma_chain_stable(arena1, arena2, p as int);
            }
        },
        Option::None => {},
    }
}

impl IntermediatePublicItem {
    /// Makes a resolved item from its parts.
    pub fn new(
        id: String,
        name: String,
        pre_resolved_fields: Vec<Option<TypeExpr>>,
        parent: Option<usize>,
    ) -> (r: Self)
        ensures
            r.id == id,
            r.name == name,
            r.pre_resolved_fields == pre_resolved_fields,
            r.parent == parent,
    {
        IntermediatePublicItem { id, name, pre_resolved_fields, parent }
    }

    /// The path to the node at `k`: the display names along its parent
    /// chain, root first.
    pub fn path(arena: &Vec<IntermediatePublicItem>, k: usize) -> (r: Vec<String>)
        requires
            arena_wf(arena@),
            k < arena@.len(),
        ensures
            strs_view(r@) == chain_names(arena@, k as int),
        decreases k,
    {
        let node = &arena[k];
        match node.parent {
            Option::Some(p) => {
                proof {
                    assert(parent_ok(arena@[k as int], k as int));
                }
                let mut r = Self::path(arena, p);
                r.push(node.name.clone());
                proof {
                    assert(strs_view(r@) =~= chain_names(arena@, k as int));
                }
                r
            },
            Option::None => {
                let mut r: Vec<String> = Vec::new();
                r.push(node.name.clone());
                proof {
                    assert(strs_view(r@) =~= chain_names(arena@, k as int));
                }
                r
            },
        }
    }

    /// Whether the given identifier appears along the parent chain of the
    /// node at `k`. This is the cycle guard: its cost is proportional to the
    /// path depth.
    pub fn path_contains_id(arena: &Vec<IntermediatePublicItem>, k: usize, id: &str) -> (r: bool)
        requires
            arena_wf(arena@),
            k < arena@.len(),
        ensures
            r == chain_ids(arena@, k as int).contains(id@),
        decreases k,
    {
        let node = &arena[k];
        let here = crate::ordering::str_eq(node.id.as_str(), id);
        match node.parent {
            Option::Some(p) => {
                proof {
                    assert(parent_ok(arena@[k as int], k as int));
                }
                let up = Self::path_contains_id(arena, p, id);
                proof {
                    let c = chain_ids(arena@, k as int);
                    assert(c == chain_ids(arena@, p as int).push(arena@[k as int].id@));
                    if here || up {
                        if here {
                            assert(c[c.len() - 1] == id@);
                        } else {
                            let j = choose|j: int|
                                0 <= j < chain_ids(arena@, p as int).len() && chain_ids(
                                    arena@,
                                    p as int,
                                )[j] == id@;
                            assert(c[j] == id@);
                        }
                    } else {
                        assert forall|j: int| 0 <= j < c.len() implies c[j] != id@ by {
                            if j < c.len() - 1 {
                                assert(chain_ids(arena@, p as int)[j] == c[j]);
                                assert(!chain_ids(arena@, p as int).contains(id@));
                            }
                        }
                    }
                }
                here || up
            },
            Option::None => {
                proof {
                    let c = chain_ids(arena@, k as int);
                    assert(c == seq![arena@[k as int].id@]);
                    if here {
                        assert(c[0] == id@);
                    }
                }
                here
            },
        }
    }

    /// Renders the node at `k` into its canonical token sequence, looking
    /// its raw item up in the given index. A node whose item is no longer
    /// found renders to nothing.
    pub fn render_token_stream(
        arena: &Vec<IntermediatePublicItem>,
        k: usize,
        index: &ItemIndex,
    ) -> (r: Vec<Token>)
        requires
            arena_wf(arena@),
            k < arena@.len(),
        ensures
            match spec_find(index@.items, arena@[k as int].id@) {
                Option::Some(item) => toks(r@) == spec_render_item(
                    item,
                    chain_names(arena@, k as int),
                    spec_fields_tokens(fields_view(arena@[k as int].pre_resolved_fields@)),
                ),
                Option::None => toks(r@) == Seq::<crate::tokens::TokenV>::empty(),
            },
    {
        let names = Self::path(arena, k);
        match index.find(arena[k].id.as_str()) {
            Option::Some(item) => crate::render::render_item(
                item,
                &names,
                &arena[k].pre_resolved_fields,
            ),
            Option::None => {
                let r: Vec<Token> = Vec::new();
                proof {
                    assert(toks(r@) =~= Seq::<crate::tokens::TokenV>::empty());
                }
                r
            },
        }
    }
}

} // verus!
