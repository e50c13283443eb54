//! The token renderer: converts one resolved item into the ordered token
//! sequence that represents its full public signature.
//!
//! Every rendering rule is stated as a spec function over the values of the
//! raw item and of the item's path; the executable renderer is proved to
//! produce exactly those tokens.

use vstd::prelude::*;

use crate::item_index::{
    fields_view, params_view, tview, tview_list, lemma_tview_list, CompositeForm, ItemKind,
    ItemKindV, Param, ParamV, RawItem, RawItemV, TypeExpr, TypeV,
};
use crate::ordering::strs_view;
use crate::tokens::{toks, Token, TokenKind, TokenV};

verus! {

/// The token of the given kind with the given text.
pub open spec fn tok(kind: TokenKind, text: Seq<char>) -> TokenV {
    TokenV { kind, text }
}

/// A punctuation token.
pub open spec fn sym(text: Seq<char>) -> TokenV {
    tok(TokenKind::Symbol, text)
}

/// The single-space whitespace token.
pub open spec fn ws() -> TokenV {
    tok(TokenKind::Whitespace, " "@)
}

/// The two tokens every rendered item starts with: `pub` and a space.
pub open spec fn qual_tokens() -> Seq<TokenV> {
    seq![tok(TokenKind::Qualifier, "pub"@), ws()]
}

/// An item-kind label followed by a space.
pub open spec fn kind_tokens(label: Seq<char>) -> Seq<TokenV> {
    seq![tok(TokenKind::Kind, label), ws()]
}

/// The tokens of one type expression.
pub open spec fn spec_type_tokens(t: TypeV) -> Seq<TokenV>
    decreases t,
{
    match t {
        TypeV::Primitive(s) => seq![tok(TokenKind::Primitive, s)],
        TypeV::Generic(s) => seq![tok(TokenKind::Generic, s)],
        TypeV::Path(name, args) => seq![tok(TokenKind::Type, name)] + (if args.len() == 0 {
            Seq::<TokenV>::empty()
        } else {
            seq![sym("<"@)] + spec_type_list_tokens(args) + seq![sym(">"@)]
        }),
        TypeV::Tuple(ts) => seq![sym("("@)] + spec_type_list_tokens(ts) + seq![sym(")"@)],
        TypeV::Slice(inner) => seq![sym("["@)] + spec_type_tokens(*inner) + seq![sym("]"@)],
        TypeV::Ref(lifetime, mutable, inner) => seq![sym("&"@)] + (match lifetime {
            Option::Some(l) => seq![tok(TokenKind::Lifetime, l), ws()],
            Option::None => Seq::<TokenV>::empty(),
        }) + (if mutable {
            seq![tok(TokenKind::Keyword, "mut"@), ws()]
        } else {
            Seq::<TokenV>::empty()
        }) + spec_type_tokens(*inner),
    }
}

/// The tokens of a comma-separated list of type expressions.
pub open spec fn spec_type_list_tokens(ts: Seq<TypeV>) -> Seq<TokenV>
    decreases ts,
{
    if ts.len() == 0 {
        Seq::empty()
    } else if ts.len() == 1 {
        spec_type_tokens(ts[0])
    } else {
        spec_type_tokens(ts[0]) + seq![sym(","@), ws()] + spec_type_list_tokens(ts.drop_first())
    }
}

/// The tokens of one pre-resolved field: its type, or a placeholder for a
/// field whose type could not be resolved.
pub open spec fn spec_field_tokens(f: Option<TypeV>) -> Seq<TokenV> {
    match f {
        Option::Some(t) => spec_type_tokens(t),
        Option::None => seq![tok(TokenKind::Identifier, "_"@)],
    }
}

/// The tokens of a comma-separated list of pre-resolved fields.
pub open spec fn spec_fields_tokens(fs: Seq<Option<TypeV>>) -> Seq<TokenV>
    decreases fs.len(),
{
    if fs.len() == 0 {
        Seq::empty()
    } else if fs.len() == 1 {
        spec_field_tokens(fs[0])
    } else {
        spec_field_tokens(fs[0]) + seq![sym(","@), ws()] + spec_fields_tokens(fs.drop_first())
    }
}

/// The tokens of an item path: the segments separated by `::`, every segment
/// a plain identifier but the last, which carries the given kind.
pub open spec fn spec_path_tokens(path: Seq<Seq<char>>, last_kind: TokenKind) -> Seq<TokenV>
    decreases path.len(),
{
    if path.len() == 0 {
        Seq::empty()
    } else if path.len() == 1 {
        seq![tok(last_kind, path[0])]
    } else {
        seq![tok(TokenKind::Identifier, path[0]), sym("::"@)] + spec_path_tokens(
            path.drop_first(),
            last_kind,
        )
    }
}

/// The tokens of a generic parameter list, empty when there are no
/// parameters.
pub open spec fn spec_generics_tokens(generics: Seq<Seq<char>>) -> Seq<TokenV> {
    if generics.len() == 0 {
        Seq::empty()
    } else {
        seq![sym("<"@)] + spec_generic_names_tokens(generics) + seq![sym(">"@)]
    }
}

/// The tokens of a comma-separated list of generic parameter names.
pub open spec fn spec_generic_names_tokens(generics: Seq<Seq<char>>) -> Seq<TokenV>
    decreases generics.len(),
{
    if generics.len() == 0 {
        Seq::empty()
    } else if generics.len() == 1 {
        seq![tok(TokenKind::Generic, generics[0])]
    } else {
        seq![tok(TokenKind::Generic, generics[0]), sym(","@), ws()] + spec_generic_names_tokens(
            generics.drop_first(),
        )
    }
}

/// The tokens of one parameter: name, colon, space, type.
pub open spec fn spec_param_tokens(p: ParamV) -> Seq<TokenV> {
    seq![tok(TokenKind::Identifier, p.name), sym(":"@), ws()] + spec_type_tokens(p.ty)
}

/// The tokens of a comma-separated parameter list.
pub open spec fn spec_params_tokens(ps: Seq<ParamV>) -> Seq<TokenV>
    decreases ps.len(),
{
    if ps.len() == 0 {
        Seq::empty()
    } else if ps.len() == 1 {
        spec_param_tokens(ps[0])
    } else {
        spec_param_tokens(ps[0]) + seq![sym(","@), ws()] + spec_params_tokens(ps.drop_first())
    }
}

/// The tokens of a return type: nothing, or an arrow and the type.
pub open spec fn spec_return_tokens(output: Option<TypeV>) -> Seq<TokenV> {
    match output {
        Option::Some(t) => seq![ws(), sym("->"@), ws()] + spec_type_tokens(t),
        Option::None => Seq::<TokenV>::empty(),
    }
}

/// The canonical token sequence of one resolved item: the item's raw record,
/// its full path (display names, root first), and — for tuple-shaped
/// composites — the already rendered contents of its parenthesized field
/// list.
pub open spec fn spec_render_item(
    item: RawItemV,
    path: Seq<Seq<char>>,
    fields_toks: Seq<TokenV>,
) -> Seq<TokenV> {
    match item.kind {
        ItemKindV::Module { .. } => qual_tokens() + kind_tokens("mod"@) + spec_path_tokens(
            path,
            TokenKind::Identifier,
        ),
        ItemKindV::Import { .. } => Seq::<TokenV>::empty(),
        ItemKindV::Function { generics, inputs, output } => qual_tokens() + kind_tokens("fn"@)
            + spec_path_tokens(path, TokenKind::Function) + spec_generics_tokens(generics) + seq![
            sym("("@),
        ] + spec_params_tokens(inputs) + seq![sym(")"@)] + spec_return_tokens(output),
        ItemKindV::Struct { form, .. } => qual_tokens() + kind_tokens("struct"@)
            + spec_path_tokens(path, TokenKind::Type) + (if form == CompositeForm::Tuple {
            seq![sym("("@)] + fields_toks + seq![sym(")"@)]
        } else {
            Seq::<TokenV>::empty()
        }),
        ItemKindV::StructField { ty } => qual_tokens() + kind_tokens("struct"@) + kind_tokens(
            "field"@,
        ) + spec_path_tokens(path, TokenKind::Identifier) + seq![sym(":"@), ws()]
            + spec_type_tokens(ty),
        ItemKindV::Enum { .. } => qual_tokens() + kind_tokens("enum"@) + spec_path_tokens(
            path,
            TokenKind::Type,
        ),
        ItemKindV::Variant { form, .. } => qual_tokens() + kind_tokens("enum"@) + kind_tokens(
            "variant"@,
        ) + spec_path_tokens(path, TokenKind::Type) + (if form == CompositeForm::Tuple {
            seq![sym("("@)] + fields_toks + seq![sym(")"@)]
        } else {
            Seq::<TokenV>::empty()
        }),
        ItemKindV::Impl { .. } => Seq::<TokenV>::empty(),
        ItemKindV::Constant { ty } => qual_tokens() + kind_tokens("const"@) + spec_path_tokens(
            path,
            TokenKind::Identifier,
        ) + seq![sym(":"@), ws()] + spec_type_tokens(ty),
        ItemKindV::TypeAlias { ty } => qual_tokens() + kind_tokens("type"@) + spec_path_tokens(
            path,
            TokenKind::Type,
        ) + seq![ws(), sym("="@), ws()] + spec_type_tokens(ty),
        ItemKindV::Trait { .. } => qual_tokens() + kind_tokens("trait"@) + spec_path_tokens(
            path,
            TokenKind::Type,
        ),
    }
}

/// Appends one token.
fn push_tok(out: &mut Vec<Token>, kind: TokenKind, text: &str)
    ensures
        toks(final(out)@) == toks(old(out)@).push(tok(kind, text@)),
{
    out.push(Token::new(kind, text));
    proof {
        assert(toks(out@) =~= toks(old(out)@).push(tok(kind, text@)));
    }
}

/// Renders one type expression.
fn render_type(out: &mut Vec<Token>, t: &TypeExpr)
    ensures
        toks(final(out)@) == toks(old(out)@) + spec_type_tokens(t@),
    decreases *t,
{
    match t {
        TypeExpr::Primitive(s) => {
            push_tok(out, TokenKind::Primitive, s.as_str());
            proof {
                assert(toks(out@) =~= toks(old(out)@) + spec_type_tokens(t@));
            }
        },
        TypeExpr::Generic(s) => {
            push_tok(out, TokenKind::Generic, s.as_str());
            proof {
                assert(toks(out@) =~= toks(old(out)@) + spec_type_tokens(t@));
            }
        },
        TypeExpr::Path(name, args) => {
            push_tok(out, TokenKind::Type, name.as_str());
            proof {
                lemma_tview_list(args@);
            }
            if args.len() > 0 {
                push_tok(out, TokenKind::Symbol, "<");
                render_type_list(out, args);
                push_tok(out, TokenKind::Symbol, ">");
            }
            proof {
                assert(toks(out@) =~= toks(old(out)@) + spec_type_tokens(t@));
            }
        },
        TypeExpr::Tuple(ts) => {
            push_tok(out, TokenKind::Symbol, "(");
            render_type_list(out, ts);
            push_tok(out, TokenKind::Symbol, ")");
            proof {
                assert(toks(out@) =~= toks(old(out)@) + spec_type_tokens(t@));
            }
        },
        TypeExpr::Slice(inner) => {
            push_tok(out, TokenKind::Symbol, "[");
            render_type(out, &*inner);
            push_tok(out, TokenKind::Symbol, "]");
            proof {
                assert(toks(out@) =~= toks(old(out)@) + spec_type_tokens(t@));
            }
        },
        TypeExpr::Ref(lifetime, mutable, inner) => {
            push_tok(out, TokenKind::Symbol, "&");
            match lifetime {
                Option::Some(l) => {
                    push_tok(out, TokenKind::Lifetime, l.as_str());
                    push_tok(out, TokenKind::Whitespace, " ");
                },
                Option::None => {},
            }
            if *mutable {
                push_tok(out, TokenKind::Keyword, "mut");
                push_tok(out, TokenKind::Whitespace, " ");
            }
            render_type(out, &*inner);
            proof {
                assert(toks(out@) =~= toks(old(out)@) + spec_type_tokens(t@));
            }
        },
    }
}

/// Renders a comma-separated list of type expressions, from position `i` on.
fn render_type_list_from(out: &mut Vec<Token>, ts: &Vec<TypeExpr>, i: usize)
    requires
        i <= ts@.len(),
    ensures
        toks(final(out)@) == toks(old(out)@) + spec_type_list_tokens(
            tview_list(ts@).skip(i as int),
        ),
    decreases *ts, ts@.len() - i,
{
    proof {
        lemma_tview_list(ts@);
    }
    if i == ts.len() {
        proof {
            assert(toks(out@) =~= toks(old(out)@) + spec_type_list_tokens(
                tview_list(ts@).skip(i as int),
            ));
        }
    } else {
        proof {
            assert(tview_list(ts@).skip(i as int)[0] == tview(ts@[i as int]));
            assert(tview_list(ts@).skip(i as int).drop_first() =~= tview_list(ts@).skip(i + 1int));
        }
        render_type(out, &ts[i]);
        if i + 1 < ts.len() {
            push_tok(out, TokenKind::Symbol, ",");
            push_tok(out, TokenKind::Whitespace, " ");
            render_type_list_from(out, ts, i + 1);
        }
        proof {
            assert(toks(out@) =~= toks(old(out)@) + spec_type_list_tokens(
                tview_list(ts@).skip(i as int),
            ));
        }
    }
}

/// Renders a comma-separated list of type expressions.
fn render_type_list(out: &mut Vec<Token>, ts: &Vec<TypeExpr>)
    ensures
        toks(final(out)@) == toks(old(out)@) + spec_type_list_tokens(tview_list(ts@)),
    decreases *ts,
{
    render_type_list_from(out, ts, 0);
    proof {
        assert(tview_list(ts@).skip(0) =~= tview_list(ts@));
    }
}

/// Renders a comma-separated list of pre-resolved fields, from position `i`
/// on.
fn render_fields_from(out: &mut Vec<Token>, fs: &Vec<Option<TypeExpr>>, i: usize)
    requires
        i <= fs@.len(),
    ensures
        toks(final(out)@) == toks(old(out)@) + spec_fields_tokens(
            fields_view(fs@).skip(i as int),
        ),
    decreases fs@.len() - i,
{
    if i == fs.len() {
        proof {
            assert(toks(out@) =~= toks(old(out)@) + spec_fields_tokens(
                fields_view(fs@).skip(i as int),
            ));
        }
    } else {
        proof {
            assert(fields_view(fs@).skip(i as int)[0] == fields_view(fs@)[i as int]);
            assert(fields_view(fs@).skip(i as int).drop_first() =~= fields_view(fs@).skip(
                i + 1int,
            ));
        }
        match &fs[i] {
            Option::Some(t) => render_type(out, t),
            Option::None => push_tok(out, TokenKind::Identifier, "_"),
        }
        if i + 1 < fs.len() {
            push_tok(out, TokenKind::Symbol, ",");
            push_tok(out, TokenKind::Whitespace, " ");
            render_fields_from(out, fs, i + 1);
        }
        proof {
            assert(toks(out@) =~= toks(old(out)@) + spec_fields_tokens(
                fields_view(fs@).skip(i as int),
            ));
        }
    }
}

/// Renders the parenthesized field list of a tuple-shaped composite.
fn render_tuple_fields(out: &mut Vec<Token>, fs: &Vec<Option<TypeExpr>>)
    ensures
        toks(final(out)@) == toks(old(out)@) + seq![sym("("@)] + spec_fields_tokens(
            fields_view(fs@),
        ) + seq![sym(")"@)],
{
    push_tok(out, TokenKind::Symbol, "(");
    render_fields_from(out, fs, 0);
    push_tok(out, TokenKind::Symbol, ")");
    proof {
        assert(fields_view(fs@).skip(0) =~= fields_view(fs@));
        assert(toks(out@) =~= toks(old(out)@) + seq![sym("("@)] + spec_fields_tokens(
            fields_view(fs@),
        ) + seq![sym(")"@)]);
    }
}

/// Renders an item path, from segment `i` on.
fn render_path_from(out: &mut Vec<Token>, path: &Vec<String>, i: usize, last_kind: TokenKind)
    requires
        i <= path@.len(),
    ensures
        toks(final(out)@) == toks(old(out)@) + spec_path_tokens(
            strs_view(path@).skip(i as int),
            last_kind,
        ),
    decreases path@.len() - i,
{
    if i == path.len() {
        proof {
            assert(toks(out@) =~= toks(old(out)@) + spec_path_tokens(
                strs_view(path@).skip(i as int),
                last_kind,
            ));
        }
    } else {
        proof {
            assert(strs_view(path@).skip(i as int)[0] == path@[i as int]@);
            assert(strs_view(path@).skip(i as int).drop_first() =~= strs_view(path@).skip(
                i + 1int,
            ));
        }
        if i + 1 == path.len() {
            push_tok(out, last_kind, path[i].as_str());
        } else {
            push_tok(out, TokenKind::Identifier, path[i].as_str());
            push_tok(out, TokenKind::Symbol, "::");
            render_path_from(out, path, i + 1, last_kind);
        }
        proof {
            assert(toks(out@) =~= toks(old(out)@) + spec_path_tokens(
                strs_view(path@).skip(i as int),
                last_kind,
            ));
        }
    }
}

/// Renders an item path.
fn render_path(out: &mut Vec<Token>, path: &Vec<String>, last_kind: TokenKind)
    ensures
        toks(final(out)@) == toks(old(out)@) + spec_path_tokens(strs_view(path@), last_kind),
{
    render_path_from(out, path, 0, last_kind);
    proof {
        assert(strs_view(path@).skip(0) =~= strs_view(path@));
    }
}

/// Renders a comma-separated list of generic parameter names, from position
/// `i` on.
fn render_generic_names_from(out: &mut Vec<Token>, generics: &Vec<String>, i: usize)
    requires
        i <= generics@.len(),
    ensures
        toks(final(out)@) == toks(old(out)@) + spec_generic_names_tokens(
            strs_view(generics@).skip(i as int),
        ),
    decreases generics@.len() - i,
{
    if i == generics.len() {
        proof {
            assert(toks(out@) =~= toks(old(out)@) + spec_generic_names_tokens(
                strs_view(generics@).skip(i as int),
            ));
        }
    } else {
        proof {
            assert(strs_view(generics@).skip(i as int)[0] == generics@[i as int]@);
            assert(strs_view(generics@).skip(i as int).drop_first() =~= strs_view(
                generics@,
            ).skip(i + 1int));
        }
        push_tok(out, TokenKind::Generic, generics[i].as_str());
        if i + 1 < generics.len() {
            push_tok(out, TokenKind::Symbol, ",");
            push_tok(out, TokenKind::Whitespace, " ");
            render_generic_names_from(out, generics, i + 1);
        }
        proof {
            assert(toks(out@) =~= toks(old(out)@) + spec_generic_names_tokens(
                strs_view(generics@).skip(i as int),
            ));
        }
    }
}

/// Renders a generic parameter list.
fn render_generics(out: &mut Vec<Token>, generics: &Vec<String>)
    ensures
        toks(final(out)@) == toks(old(out)@) + spec_generics_tokens(strs_view(generics@)),
{
    if generics.len() > 0 {
        push_tok(out, TokenKind::Symbol, "<");
        render_generic_names_from(out, generics, 0);
        push_tok(out, TokenKind::Symbol, ">");
    }
    proof {
        assert(strs_view(generics@).skip(0) =~= strs_view(generics@));
        assert(toks(out@) =~= toks(old(out)@) + spec_generics_tokens(strs_view(generics@)));
    }
}

/// Renders a comma-separated parameter list, from position `i` on.
fn render_params_from(out: &mut Vec<Token>, ps: &Vec<Param>, i: usize)
    requires
        i <= ps@.len(),
    ensures
        toks(final(out)@) == toks(old(out)@) + spec_params_tokens(
            params_view(ps@).skip(i as int),
        ),
    decreases ps@.len() - i,
{
    if i == ps.len() {
        proof {
            assert(toks(out@) =~= toks(old(out)@) + spec_params_tokens(
                params_view(ps@).skip(i as int),
            ));
        }
    } else {
        proof {
            assert(params_view(ps@).skip(i as int)[0] == ps@[i as int]@);
            assert(params_view(ps@).skip(i as int).drop_first() =~= params_view(ps@).skip(
                i + 1int,
            ));
        }
        push_tok(out, TokenKind::Identifier, ps[i].name.as_str());
        push_tok(out, TokenKind::Symbol, ":");
        push_tok(out, TokenKind::Whitespace, " ");
        render_type(out, &ps[i].ty);
        if i + 1 < ps.len() {
            push_tok(out, TokenKind::Symbol, ",");
            push_tok(out, TokenKind::Whitespace, " ");
            render_params_from(out, ps, i + 1);
        }
        proof {
            assert(toks(out@) =~= toks(old(out)@) + spec_params_tokens(
                params_view(ps@).skip(i as int),
            ));
        }
    }
}

/// Renders one resolved item into its canonical token sequence.
#[verifier::rlimit(50)]
pub fn render_item(item: &RawItem, path: &Vec<String>, prefields: &Vec<Option<TypeExpr>>) -> (r:
    Vec<Token>)
    ensures
        toks(r@) == spec_render_item(
            item@,
            strs_view(path@),
            spec_fields_tokens(fields_view(prefields@)),
        ),
{
    let mut out: Vec<Token> = Vec::new();
    proof {
        assert(toks(out@) =~= Seq::<TokenV>::empty());
    }
    match &item.kind {
        ItemKind::Module { .. } => {
            push_tok(&mut out, TokenKind::Qualifier, "pub");
            push_tok(&mut out, TokenKind::Whitespace, " ");
            push_tok(&mut out, TokenKind::Kind, "mod");
            push_tok(&mut out, TokenKind::Whitespace, " ");
            render_path(&mut out, path, TokenKind::Identifier);
            proof {
                assert(toks(out@) =~= spec_render_item(
                    item@,
                    strs_view(path@),
                    spec_fields_tokens(fields_view(prefields@)),
                ));
            }
        },
        ItemKind::Import { .. } => {
            proof {
                assert(toks(out@) =~= spec_render_item(
                    item@,
                    strs_view(path@),
                    spec_fields_tokens(fields_view(prefields@)),
                ));
            }
        },
        ItemKind::Function { generics, inputs, output } => {
            push_tok(&mut out, TokenKind::Qualifier, "pub");
            push_tok(&mut out, TokenKind::Whitespace, " ");
            push_tok(&mut out, TokenKind::Kind, "fn");
            push_tok(&mut out, TokenKind::Whitespace, " ");
            render_path(&mut out, path, TokenKind::Function);
            render_generics(&mut out, generics);
            push_tok(&mut out, TokenKind::Symbol, "(");
            render_params_from(&mut out, inputs, 0);
            proof {
                assert(params_view(inputs@).skip(0) =~= params_view(inputs@));
            }
            push_tok(&mut out, TokenKind::Symbol, ")");
            match output {
                Option::Some(t) => {
                    push_tok(&mut out, TokenKind::Whitespace, " ");
                    push_tok(&mut out, TokenKind::Symbol, "->");
                    push_tok(&mut out, TokenKind::Whitespace, " ");
                    render_type(&mut out, t);
                },
                Option::None => {},
            }
            proof {
                assert(toks(out@) =~= spec_render_item(
                    item@,
                    strs_view(path@),
                    spec_fields_tokens(fields_view(prefields@)),
                ));
            }
        },
        ItemKind::Struct { form, .. } => {
            push_tok(&mut out, TokenKind::Qualifier, "pub");
            push_tok(&mut out, TokenKind::Whitespace, " ");
            push_tok(&mut out, TokenKind::Kind, "struct");
            push_tok(&mut out, TokenKind::Whitespace, " ");
            render_path(&mut out, path, TokenKind::Type);
            if *form == CompositeForm::Tuple {
                render_tuple_fields(&mut out, prefields);
            }
            proof {
                assert(toks(out@) =~= spec_render_item(
                    item@,
                    strs_view(path@),
                    spec_fields_tokens(fields_view(prefields@)),
                ));
            }
        },
        ItemKind::StructField { ty } => {
            push_tok(&mut out, TokenKind::Qualifier, "pub");
            push_tok(&mut out, TokenKind::Whitespace, " ");
            push_tok(&mut out, TokenKind::Kind, "struct");
            push_tok(&mut out, TokenKind::Whitespace, " ");
            push_tok(&mut out, TokenKind::Kind, "field");
            push_tok(&mut out, TokenKind::Whitespace, " ");
            render_path(&mut out, path, TokenKind::Identifier);
            push_tok(&mut out, TokenKind::Symbol, ":");
            push_tok(&mut out, TokenKind::Whitespace, " ");
            render_type(&mut out, ty);
            proof {
                assert(toks(out@) =~= spec_render_item(
                    item@,
                    strs_view(path@),
                    spec_fields_tokens(fields_view(prefields@)),
                ));
            }
        },
        ItemKind::Enum { .. } => {
            push_tok(&mut out, TokenKind::Qualifier, "pub");
            push_tok(&mut out, TokenKind::Whitespace, " ");
            push_tok(&mut out, TokenKind::Kind, "enum");
            push_tok(&mut out, TokenKind::Whitespace, " ");
            render_path(&mut out, path, TokenKind::Type);
            proof {
                assert(toks(out@) =~= spec_render_item(
                    item@,
                    strs_view(path@),
                    spec_fields_tokens(fields_view(prefields@)),
                ));
            }
        },
        ItemKind::Variant { form, .. } => {
            push_tok(&mut out, TokenKind::Qualifier, "pub");
            push_tok(&mut out, TokenKind::Whitespace, " ");
            push_tok(&mut out, TokenKind::Kind, "enum");
            push_tok(&mut out, TokenKind::Whitespace, " ");
            push_tok(&mut out, TokenKind::Kind, "variant");
            push_tok(&mut out, TokenKind::Whitespace, " ");
            render_path(&mut out, path, TokenKind::Type);
            if *form == CompositeForm::Tuple {
                render_tuple_fields(&mut out, prefields);
            }
            proof {
                assert(toks(out@) =~= spec_render_item(
                    item@,
                    strs_view(path@),
                    spec_fields_tokens(fields_view(prefields@)),
                ));
            }
        },
        ItemKind::Impl { .. } => {
            proof {
                assert(toks(out@) =~= spec_render_item(
                    item@,
                    strs_view(path@),
                    spec_fields_tokens(fields_view(prefields@)),
                ));
            }
        },
        ItemKind::Constant { ty } => {
            push_tok(&mut out, TokenKind::Qualifier, "pub");
            push_tok(&mut out, TokenKind::Whitespace, " ");
            push_tok(&mut out, TokenKind::Kind, "const");
            push_tok(&mut out, TokenKind::Whitespace, " ");
            render_path(&mut out, path, TokenKind::Identifier);
            push_tok(&mut out, TokenKind::Symbol, ":");
            push_tok(&mut out, TokenKind::Whitespace, " ");
            render_type(&mut out, ty);
            proof {
                assert(toks(out@) =~= spec_render_item(
                    item@,
                    strs_view(path@),
                    spec_fields_tokens(fields_view(prefields@)),
                ));
            }
        },
        ItemKind::TypeAlias { ty } => {
            push_tok(&mut out, TokenKind::Qualifier, "pub");
            push_tok(&mut out, TokenKind::Whitespace, " ");
            push_tok(&mut out, TokenKind::Kind, "type");
            push_tok(&mut out, TokenKind::Whitespace, " ");
            render_path(&mut out, path, TokenKind::Type);
            push_tok(&mut out, TokenKind::Whitespace, " ");
            push_tok(&mut out, TokenKind::Symbol, "=");
            push_tok(&mut out, TokenKind::Whitespace, " ");
            render_type(&mut out, ty);
            proof {
                assert(toks(out@) =~= spec_render_item(
                    item@,
                    strs_view(path@),
                    spec_fields_tokens(fields_view(prefields@)),
                ));
            }
        },
        ItemKind::Trait { .. } => {
            push_tok(&mut out, TokenKind::Qualifier, "pub");
            push_tok(&mut out, TokenKind::Whitespace, " ");
            push_tok(&mut out, TokenKind::Kind, "trait");
            push_tok(&mut out, TokenKind::Whitespace, " ");
            render_path(&mut out, path, TokenKind::Type);
            proof {
                assert(toks(out@) =~= spec_render_item(
                    item@,
                    strs_view(path@),
                    spec_fields_tokens(fields_view(prefields@)),
                ));
            }
        },
    }
    out
}

/// Copies one type expression; the copy has the same value.
pub fn copy_type(t: &TypeExpr) -> (r: TypeExpr)
    ensures
        r@ == t@,
    decreases *t,
{
    match t {
        TypeExpr::Primitive(s) => TypeExpr::Primitive(s.clone()),
        TypeExpr::Generic(s) => TypeExpr::Generic(s.clone()),
        TypeExpr::Path(name, args) => {
            let new_args = copy_type_list(args);
            TypeExpr::Path(name.clone(), new_args)
        },
        TypeExpr::Tuple(ts) => {
            let new_ts = copy_type_list(ts);
            TypeExpr::Tuple(new_ts)
        },
        TypeExpr::Slice(inner) => {
            let new_inner = copy_type(&*inner);
            TypeExpr::Slice(Box::new(new_inner))
        },
        TypeExpr::Ref(lifetime, mutable, inner) => {
            let new_lifetime = match lifetime {
                Option::Some(l) => Option::Some(l.clone()),
                Option::None => Option::None,
            };
            let new_inner = copy_type(&*inner);
            TypeExpr::Ref(new_lifetime, *mutable, Box::new(new_inner))
        },
    }
}

/// Copies a list of type expressions; the copies have the same values.
fn copy_type_list(ts: &Vec<TypeExpr>) -> (r: Vec<TypeExpr>)
    ensures
        r@.len() == ts@.len(),
        tview_list(r@) == tview_list(ts@),
    decreases *ts,
{
    let mut r: Vec<TypeExpr> = Vec::new();
    let mut i: usize = 0;
    while i < ts.len()
        invariant
            i <= ts@.len(),
            r@.len() == i,
            forall|k: int| 0 <= k < i ==> tview(r@[k]) == tview(ts@[k]),
        decreases ts@.len() - i,
    {
        let c = copy_type(&ts[i]);
        r.push(c);
        i = i + 1;
    }
    proof {
        lemma_tview_list(r@);
        lemma_tview_list(ts@);
        assert(tview_list(r@) =~= tview_list(ts@));
    }
    r
}

} // verus!
