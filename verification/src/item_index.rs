//! The item index: an immutable mapping from opaque identifiers to raw item
//! records, as decoded from the input document, together with the type
//! expressions that item signatures carry.
//!
//! Each executable type has a ghost mirror (its mathematical value) so that
//! the whole extraction pipeline can be stated as spec functions.

use vstd::prelude::*;

verus! {

/// A type expression as it appears in an item signature.
#[derive(Debug)]
pub enum TypeExpr {
    /// A primitive type, e.g. `bool`.
    Primitive(String),
    /// A generic parameter, e.g. `T`.
    Generic(String),
    /// A named (resolved-path) type with its generic arguments.
    Path(String, Vec<TypeExpr>),
    /// A tuple type.
    Tuple(Vec<TypeExpr>),
    /// A slice type.
    Slice(Box<TypeExpr>),
    /// A reference: optional lifetime, mutability, referent.
    Ref(Option<String>, bool, Box<TypeExpr>),
}

/// The mathematical value of a [`TypeExpr`].
pub ghost enum TypeV {
    Primitive(Seq<char>),
    Generic(Seq<char>),
    Path(Seq<char>, Seq<TypeV>),
    Tuple(Seq<TypeV>),
    Slice(Box<TypeV>),
    Ref(Option<Seq<char>>, bool, Box<TypeV>),
}

/// The value of a type expression.
pub open spec fn tview(t: TypeExpr) -> TypeV
    decreases t,
{
    match t {
        TypeExpr::Primitive(s) => TypeV::Primitive(s@),
        TypeExpr::Generic(s) => TypeV::Generic(s@),
        TypeExpr::Path(name, args) => TypeV::Path(name@, tview_list(args@)),
        TypeExpr::Tuple(ts) => TypeV::Tuple(tview_list(ts@)),
        TypeExpr::Slice(inner) => TypeV::Slice(Box::new(tview(*inner))),
        TypeExpr::Ref(lifetime, mutable, inner) => TypeV::Ref(
            match lifetime {
                Option::Some(l) => Option::Some(l@),
                Option::None => Option::None,
            },
            mutable,
            Box::new(tview(*inner)),
        ),
    }
}

/// The values of a sequence of type expressions.
pub open spec fn tview_list(ts: Seq<TypeExpr>) -> Seq<TypeV>
    decreases ts,
{
    if ts.len() == 0 {
        Seq::empty()
    } else {
        tview_list(ts.drop_last()).push(tview(ts.last()))
    }
}

/// The values of a sequence of type expressions are its elements' values,
/// pointwise.
pub proof fn lemma_tview_list(ts: Seq<TypeExpr>)
    ensures
        tview_list(ts).len() == ts.len(),
        forall|i: int| 0 <= i < ts.len() ==> tview_list(ts)[i] == tview(ts[i]),
    decreases ts.len(),
{
    if ts.len() > 0 {
        lemma_tview_list(ts.drop_last());
    }
}

impl View for TypeExpr {
    type V = TypeV;

    open spec fn view(&self) -> TypeV {
        tview(*self)
    }
}

/// The values of a sequence of optional (pre-resolved field) types.
pub open spec fn fields_view(fs: Seq<Option<TypeExpr>>) -> Seq<Option<TypeV>> {
    fs.map_values(
        |f: Option<TypeExpr>|
            match f {
                Option::Some(t) => Option::Some(tview(t)),
                Option::None => Option::<TypeV>::None,
            },
    )
}

/// One parameter of a callable item.
#[derive(Debug)]
pub struct Param {
    /// The parameter's name.
    pub name: String,
    /// The parameter's declared type.
    pub ty: TypeExpr,
}

/// The mathematical value of a [`Param`].
pub ghost struct ParamV {
    pub name: Seq<char>,
    pub ty: TypeV,
}

impl View for Param {
    type V = ParamV;

    open spec fn view(&self) -> ParamV {
        ParamV { name: self.name@, ty: self.ty@ }
    }
}

/// The values of a parameter list.
pub open spec fn params_view(ps: Seq<Param>) -> Seq<ParamV> {
    ps.map_values(|p: Param| p@)
}

/// Whether a composite item is record-like, tuple-like, or empty.
#[derive(Clone, Copy, Debug, PartialEq, Eq, Structural)]
pub enum CompositeForm {
    Plain,
    Tuple,
    Unit,
}

/// The declared visibility of a raw item.
#[derive(Clone, Copy, Debug, PartialEq, Eq, Structural)]
pub enum Visibility {
    /// Declared `pub`.
    Public,
    /// Inherited, e.g. an enum variant or an associated item.
    Default,
    /// Anything else; such items are not part of the public surface.
    Other,
}

/// The kind discriminant and kind-specific payload of a raw item. Child and
/// target references are by opaque identifier; an identifier may be
/// referenced without being present in the index.
#[derive(Debug)]
pub enum ItemKind {
    /// A module with its child identifiers.
    Module { children: Vec<String> },
    /// A re-export: the effective name and the target identifier (absent for
    /// e.g. glob imports, which carry no single target).
    Import { name: String, target: Option<String> },
    /// A function: generic parameter names, parameters, return type.
    Function { generics: Vec<String>, inputs: Vec<Param>, output: Option<TypeExpr> },
    /// A struct with its field and implementation identifiers.
    Struct { form: CompositeForm, fields: Vec<String>, impls: Vec<String> },
    /// One field of a record-like composite.
    StructField { ty: TypeExpr },
    /// An enum with its variant and implementation identifiers.
    Enum { variants: Vec<String>, impls: Vec<String> },
    /// One variant of an enum.
    Variant { form: CompositeForm, fields: Vec<String> },
    /// An implementation block: its associated items, and whether it is a
    /// blanket implementation.
    Impl { items: Vec<String>, blanket: bool },
    /// A constant.
    Constant { ty: TypeExpr },
    /// A type alias.
    TypeAlias { ty: TypeExpr },
    /// A trait with its associated item identifiers.
    Trait { items: Vec<String> },
}

/// The mathematical value of an [`ItemKind`].
pub ghost enum ItemKindV {
    Module { children: Seq<Seq<char>> },
    Import { name: Seq<char>, target: Option<Seq<char>> },
    Function { generics: Seq<Seq<char>>, inputs: Seq<ParamV>, output: Option<TypeV> },
    Struct { form: CompositeForm, fields: Seq<Seq<char>>, impls: Seq<Seq<char>> },
    StructField { ty: TypeV },
    Enum { variants: Seq<Seq<char>>, impls: Seq<Seq<char>> },
    Variant { form: CompositeForm, fields: Seq<Seq<char>> },
    Impl { items: Seq<Seq<char>>, blanket: bool },
    Constant { ty: TypeV },
    TypeAlias { ty: TypeV },
    Trait { items: Seq<Seq<char>> },
}

impl View for ItemKind {
    type V = ItemKindV;

    open spec fn view(&self) -> ItemKindV {
        match *self {
            ItemKind::Module { children } => ItemKindV::Module {
                children: crate::ordering::strs_view(children@),
            },
            ItemKind::Import { name, target } => ItemKindV::Import {
                name: name@,
                target: match target {
                    Option::Some(t) => Option::Some(t@),
                    Option::None => Option::None,
                },
            },
            ItemKind::Function { generics, inputs, output } => ItemKindV::Function {
                generics: crate::ordering::strs_view(generics@),
                inputs: params_view(inputs@),
                output: match output {
                    Option::Some(t) => Option::Some(tview(t)),
                    Option::None => Option::None,
                },
            },
            ItemKind::Struct { form, fields, impls } => ItemKindV::Struct {
                form,
                fields: crate::ordering::strs_view(fields@),
                impls: crate::ordering::strs_view(impls@),
            },
            ItemKind::StructField { ty } => ItemKindV::StructField { ty: tview(ty) },
            ItemKind::Enum { variants, impls } => ItemKindV::Enum {
                variants: crate::ordering::strs_view(variants@),
                impls: crate::ordering::strs_view(impls@),
            },
            ItemKind::Variant { form, fields } => ItemKindV::Variant {
                form,
                fields: crate::ordering::strs_view(fields@),
            },
            ItemKind::Impl { items, blanket } => ItemKindV::Impl {
                items: crate::ordering::strs_view(items@),
                blanket,
            },
            ItemKind::Constant { ty } => ItemKindV::Constant { ty: tview(ty) },
            ItemKind::TypeAlias { ty } => ItemKindV::TypeAlias { ty: tview(ty) },
            ItemKind::Trait { items } => ItemKindV::Trait {
                items: crate::ordering::strs_view(items@),
            },
        }
    }
}

/// One raw item record of the input document.
#[derive(Debug)]
pub struct RawItem {
    /// The declared name. Some kinds (imports, implementations) are
    /// anonymous.
    pub name: Option<String>,
    /// The declared visibility.
    pub visibility: Visibility,
    /// The kind discriminant and payload.
    pub kind: ItemKind,
}

/// The mathematical value of a [`RawItem`].
pub ghost struct RawItemV {
    pub name: Option<Seq<char>>,
    pub visibility: Visibility,
    pub kind: ItemKindV,
}

impl View for RawItem {
    type V = RawItemV;

    open spec fn view(&self) -> RawItemV {
        RawItemV {
            name: match self.name {
                Option::Some(n) => Option::Some(n@),
                Option::None => Option::None,
            },
            visibility: self.visibility,
            kind: self.kind@,
        }
    }
}

/// An immutable mapping from identifiers to raw item records, plus the
/// identifier of the root module. Lookups take the first matching entry.
#[derive(Debug)]
pub struct ItemIndex {
    /// The identifier of the root module of the crate.
    pub root: String,
    /// The identifier-to-record mapping, in document order.
    pub items: Vec<(String, RawItem)>,
}

/// The mathematical value of an [`ItemIndex`].
pub ghost struct IndexV {
    pub root: Seq<char>,
    pub items: Seq<(Seq<char>, RawItemV)>,
}

/// The values of the entries of an index.
pub open spec fn entries_view(entries: Seq<(String, RawItem)>) -> Seq<(Seq<char>, RawItemV)> {
    entries.map_values(|e: (String, RawItem)| (e.0@, e.1@))
}

impl View for ItemIndex {
    type V = IndexV;

    open spec fn view(&self) -> IndexV {
        IndexV { root: self.root@, items: entries_view(self.items@) }
    }
}

/// What looking an identifier up in the index yields: the first entry with
/// that identifier, if any.
pub open spec fn spec_find(entries: Seq<(Seq<char>, RawItemV)>, id: Seq<char>) -> Option<RawItemV>
    decreases entries.len(),
{
    if entries.len() == 0 {
        Option::None
    } else if entries[0].0 == id {
        Option::Some(entries[0].1)
    } else {
        spec_find(entries.drop_first(), id)
    }
}

/// Looks an identifier up among the entries, from position `i` on.
fn find_from<'a>(entries: &'a Vec<(String, RawItem)>, id: &str, i: usize) -> (r: Option<
    &'a RawItem,
>)
    requires
        i <= entries@.len(),
    ensures
        match r {
            Option::Some(it) => spec_find(entries_view(entries@).skip(i as int), id@)
                == Option::Some(it@),
            Option::None => spec_find(entries_view(entries@).skip(i as int), id@) is None,
        },
    decreases entries@.len() - i,
{
    if i == entries.len() {
        proof {
            assert(entries_view(entries@).skip(i as int) =~= Seq::empty());
        }
        Option::None
    } else {
        proof {
            assert(entries_view(entries@).skip(i as int)[0] == (
                entries@[i as int].0@,
                entries@[i as int].1@,
            ));
            assert(entries_view(entries@).skip(i as int).drop_first() =~= entries_view(
                entries@,
            ).skip(i + 1int));
        }
        if crate::ordering::str_eq(entries[i].0.as_str(), id) {
            Option::Some(&entries[i].1)
        } else {
            find_from(entries, id, i + 1)
        }
    }
}

impl ItemIndex {
    /// Looks an identifier up in the index.
    pub fn find<'a>(&'a self, id: &str) -> (r: Option<&'a RawItem>)
        ensures
            match r {
                Option::Some(it) => spec_find(self@.items, id@) == Option::Some(it@),
                Option::None => spec_find(self@.items, id@) is None,
            },
    {
        let r = find_from(&self.items, id, 0);
        proof {
            assert(entries_view(self.items@).skip(0) =~= entries_view(self.items@));
        }
        r
    }
}

} // verus!
