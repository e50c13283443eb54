//! The plain-text report renderer: lists of public items and API diffs as
//! text, one item per line, optionally syntax colored for a terminal. The
//! caller writes the returned text out; nothing here does I/O.
//!
//! The theme colors tokens by their semantic kind and uses the terminal's
//! own palette; a changed pair is aligned token by token, and exactly the
//! tokens that changed are highlighted.

use vstd::prelude::*;

use crate::diff::{pairs_view, PublicItemsDiff, TokenDiff, TokenDiffV, tdiffs_view};
use crate::item_iterator::{items_view, PublicItem, PublicItemV};
use crate::tokens::{toks, Token, TokenKind, TokenV};

verus! {

/// What painting a text in a style yields: the text wrapped in the ANSI
/// escape codes of the style (a fixed-palette foreground, a fixed-palette
/// background, boldness). A function of the arguments alone.
pub uninterp spec fn painted(
    fg: Option<u8>,
    bg: Option<u8>,
    bold: bool,
    text: Seq<char>,
) -> Seq<char>;

/// Relies on nu_ansi_term::Style::paint (and the style constructors
/// Style::fg, Style::on, Style::bold): wraps the text in the ANSI escape
/// codes of the given style. The result depends on the arguments alone.
#[verifier::external_body]
fn paint_text(fg: Option<u8>, bg: Option<u8>, bold: bool, text: &str) -> (r: String)
    ensures
        r@ == painted(fg, bg, bold, text@),
{
    let mut style = nu_ansi_term::Style::new();
    if let Some(c) = fg {
        style = style.fg(nu_ansi_term::Color::Fixed(c));
    }
    if let Some(c) = bg {
        style = style.on(nu_ansi_term::Color::Fixed(c));
    }
    if bold {
        style = style.bold();
    }
    style.paint(text).to_string()
}

/// The palette index a token kind is colored with, if any: keywords and
/// labels blue, identifiers cyan, function names yellow, type-like names
/// green; punctuation, annotations and whitespace stay unstyled.
pub open spec fn spec_token_color(kind: TokenKind) -> Option<u8> {
    match kind {
        TokenKind::Symbol => Option::None,
        TokenKind::Annotation => Option::None,
        TokenKind::Whitespace => Option::None,
        TokenKind::Qualifier => Option::Some(4u8),
        TokenKind::Kind => Option::Some(4u8),
        TokenKind::SelfRef => Option::Some(4u8),
        TokenKind::Lifetime => Option::Some(4u8),
        TokenKind::Keyword => Option::Some(4u8),
        TokenKind::Identifier => Option::Some(6u8),
        TokenKind::Function => Option::Some(3u8),
        TokenKind::Generic => Option::Some(2u8),
        TokenKind::Primitive => Option::Some(2u8),
        TokenKind::Type => Option::Some(2u8),
    }
}

/// One token rendered with syntax coloring: its text, painted in its kind's
/// color, or bare when its kind is unstyled.
pub open spec fn spec_color_token(t: TokenV) -> Seq<char> {
    match spec_token_color(t.kind) {
        Option::Some(c) => painted(Option::Some(c), Option::None, false, t.text),
        Option::None => t.text,
    }
}

/// A token sequence rendered with syntax coloring.
pub open spec fn spec_color_tokens(ts: Seq<TokenV>) -> Seq<char>
    decreases ts.len(),
{
    if ts.len() == 0 {
        Seq::empty()
    } else {
        spec_color_tokens(ts.drop_last()) + spec_color_token(ts.last())
    }
}

/// Colors one token to render it with a nice syntax highlighting. The theme
/// uses the terminal's own palette, to stay readable and consistent.
fn color_item_token(t: &Token) -> (r: String)
    ensures
        r@ == spec_color_token(t@),
{
    match t.kind {
        TokenKind::Symbol => t.text.clone(),
        TokenKind::Annotation => t.text.clone(),
        TokenKind::Whitespace => t.text.clone(),
        TokenKind::Qualifier => paint_text(Option::Some(4u8), Option::None, false, t.text.as_str()),
        TokenKind::Kind => paint_text(Option::Some(4u8), Option::None, false, t.text.as_str()),
        TokenKind::SelfRef => paint_text(Option::Some(4u8), Option::None, false, t.text.as_str()),
        TokenKind::Lifetime => paint_text(Option::Some(4u8), Option::None, false, t.text.as_str()),
        TokenKind::Keyword => paint_text(Option::Some(4u8), Option::None, false, t.text.as_str()),
        TokenKind::Identifier => paint_text(
            Option::Some(6u8),
            Option::None,
            false,
            t.text.as_str(),
        ),
        TokenKind::Function => paint_text(Option::Some(3u8), Option::None, false, t.text.as_str()),
        TokenKind::Generic => paint_text(Option::Some(2u8), Option::None, false, t.text.as_str()),
        TokenKind::Primitive => paint_text(
            Option::Some(2u8),
            Option::None,
            false,
            t.text.as_str(),
        ),
        TokenKind::Type => paint_text(Option::Some(2u8), Option::None, false, t.text.as_str()),
    }
}

/// Renders a token sequence with syntax coloring.
fn color_token_stream(tokens: &Vec<Token>) -> (r: String)
    ensures
        r@ == spec_color_tokens(toks(tokens@)),
{
    let mut r = String::new();
    let mut i: usize = 0;
    while i < tokens.len()
        invariant
            i <= tokens@.len(),
            r@ == spec_color_tokens(toks(tokens@).take(i as int)),
        decreases tokens@.len() - i,
    {
        let piece = color_item_token(&tokens[i]);
        r.append(piece.as_str());
        proof {
            assert(toks(tokens@).take(i + 1int).drop_last() =~= toks(tokens@).take(i as int));
            assert(toks(tokens@).take(i + 1int).last() == tokens@[i as int]@);
        }
        i = i + 1;
    }
    proof {
        assert(toks(tokens@).take(tokens@.len() as int) =~= toks(tokens@));
    }
    r
}

/// Renders one public item with syntax coloring.
pub fn color_item(item: &PublicItem) -> (r: String)
    ensures
        r@ == spec_color_tokens(item@.tokens),
{
    color_token_stream(&item.tokens)
}

/// One line of a listed item: the item colored or bare, under an optional
/// one-character prefix, ended by a line break.
pub open spec fn spec_item_line(item: PublicItemV, prefix: Seq<char>, color: bool) -> Seq<char> {
    prefix + (if color {
        spec_color_tokens(item.tokens)
    } else {
        item.text
    }) + "\n"@
}

/// The lines of a list of items.
pub open spec fn spec_item_lines(
    items: Seq<PublicItemV>,
    prefix: Seq<char>,
    color: bool,
) -> Seq<char>
    decreases items.len(),
{
    if items.len() == 0 {
        Seq::empty()
    } else {
        spec_item_lines(items.drop_last(), prefix, color) + spec_item_line(
            items.last(),
            prefix,
            color,
        )
    }
}

/// A section of the report: the header line, then the item lines — or a
/// `(none)` line where the section is empty — then a blank line.
pub open spec fn spec_section(header: Seq<char>, body: Seq<char>, empty: bool) -> Seq<char> {
    header + "\n"@ + (if empty {
        "(none)\n"@
    } else {
        body
    }) + "\n"@
}

/// One position of an aligned changed pair, rendered for one side: a token
/// only on this side is highlighted, a common token is syntax colored, and a
/// token only on the other side is omitted.
pub open spec fn spec_diff_token(d: TokenDiffV, is_old_item: bool) -> Seq<char> {
    match d {
        TokenDiffV::Left(t) => if is_old_item {
            painted(Option::Some(9u8), Option::Some(52u8), true, t.text)
        } else {
            Seq::empty()
        },
        TokenDiffV::Both(t, _) => spec_color_token(t),
        TokenDiffV::Right(t) => if is_old_item {
            Seq::empty()
        } else {
            painted(Option::Some(10u8), Option::Some(22u8), true, t.text)
        },
    }
}

/// An aligned changed pair, rendered for one side.
pub open spec fn spec_color_with_diff(ds: Seq<TokenDiffV>, is_old_item: bool) -> Seq<char>
    decreases ds.len(),
{
    if ds.len() == 0 {
        Seq::empty()
    } else {
        spec_color_with_diff(ds.drop_last(), is_old_item) + spec_diff_token(
            ds.last(),
            is_old_item,
        )
    }
}

/// Renders one side of an aligned changed pair: whole tokens are highlighted
/// when they contain a difference.
pub fn color_item_with_diff(diff_slice: &Vec<TokenDiff>, is_old_item: bool) -> (r: String)
    ensures
        r@ == spec_color_with_diff(tdiffs_view(diff_slice@), is_old_item),
{
    let mut r = String::new();
    let mut i: usize = 0;
    while i < diff_slice.len()
        invariant
            i <= diff_slice@.len(),
            r@ == spec_color_with_diff(tdiffs_view(diff_slice@).take(i as int), is_old_item),
        decreases diff_slice@.len() - i,
    {
        let piece: String = match &diff_slice[i] {
            TokenDiff::Left(t) => {
                if is_old_item {
                    paint_text(Option::Some(9u8), Option::Some(52u8), true, t.text.as_str())
                } else {
                    String::new()
                }
            },
            TokenDiff::Both(t, _) => color_item_token(t),
            TokenDiff::Right(t) => {
                if is_old_item {
                    String::new()
                } else {
                    paint_text(Option::Some(10u8), Option::Some(22u8), true, t.text.as_str())
                }
            },
        };
        r.append(piece.as_str());
        proof {
            assert(tdiffs_view(diff_slice@).take(i + 1int).drop_last() =~= tdiffs_view(
                diff_slice@,
            ).take(i as int));
            assert(tdiffs_view(diff_slice@).take(i + 1int).last() == diff_slice@[i as int]@);
        }
        i = i + 1;
    }
    proof {
        assert(tdiffs_view(diff_slice@).take(diff_slice@.len() as int) =~= tdiffs_view(
            diff_slice@,
        ));
    }
    r
}

/// The lines of the changed bucket: for each pair, the old item under `-`
/// and the new under `+`; with color, the pair is aligned token by token and
/// only the tokens that changed are highlighted.
pub open spec fn spec_changed_lines(
    pairs: Seq<(PublicItemV, PublicItemV)>,
    color: bool,
) -> Seq<char>
    decreases pairs.len(),
{
    if pairs.len() == 0 {
        Seq::empty()
    } else {
        spec_changed_lines(pairs.drop_last(), color) + spec_changed_line(pairs.last(), color)
    }
}

/// The two lines of one changed pair.
pub open spec fn spec_changed_line(pair: (PublicItemV, PublicItemV), color: bool) -> Seq<char> {
    if color {
        let ds = crate::diff::spec_align(pair.0.tokens, pair.1.tokens);
        "-"@ + spec_color_with_diff(ds, true) + "\n"@ + "+"@ + spec_color_with_diff(ds, false)
            + "\n"@
    } else {
        "-"@ + pair.0.text + "\n"@ + "+"@ + pair.1.text + "\n"@
    }
}

/// Appends the lines of a list of items, each under the given prefix.
fn append_item_lines(
    w: &mut String,
    items: &Vec<PublicItem>,
    prefix: &str,
    use_color: bool,
)
    ensures
        final(w)@ == old(w)@ + spec_item_lines(items_view(items@), prefix@, use_color),
{
    let mut i: usize = 0;
    while i < items.len()
        invariant
            i <= items@.len(),
            w@ == old(w)@ + spec_item_lines(items_view(items@).take(i as int), prefix@, use_color),
        decreases items@.len() - i,
    {
        w.append(prefix);
        if use_color {
            let line = color_item(&items[i]);
            w.append(line.as_str());
        } else {
            w.append(items[i].text.as_str());
        }
        w.append("\n");
        proof {
            assert(items_view(items@).take(i + 1int).drop_last() =~= items_view(items@).take(
                i as int,
            ));
            assert(items_view(items@).take(i + 1int).last() == items@[i as int]@);
        }
        i = i + 1;
    }
    proof {
        assert(items_view(items@).take(items@.len() as int) =~= items_view(items@));
        assert(spec_item_lines(Seq::<PublicItemV>::empty(), prefix@, use_color) =~= Seq::<
            char,
        >::empty());
    }
}

/// Prints a header, the given item lines under it — `(none)` where the list
/// is empty — and a closing blank line.
pub fn print_items_with_header(
    w: &mut String,
    header: &str,
    items: &Vec<PublicItem>,
    prefix: &str,
    use_color: bool,
)
    ensures
        final(w)@ == old(w)@ + spec_section(
            header@,
            spec_item_lines(items_view(items@), prefix@, use_color),
            items@.len() == 0,
        ),
{
    w.append(header);
    w.append("\n");
    if items.len() == 0 {
        w.append("(none)\n");
    } else {
        append_item_lines(w, items, prefix, use_color);
    }
    w.append("\n");
}

/// The plain-text report renderer.
pub struct Plain;

impl Plain {
    /// Renders a list of public items, one per line, optionally colored,
    /// appending to `w`.
    pub fn print_items(w: &mut String, use_color: bool, items: &Vec<PublicItem>)
        ensures
            final(w)@ == old(w)@ + spec_item_lines(items_view(items@), Seq::empty(), use_color),
    {
        append_item_lines(w, items, "", use_color);
        proof {
            reveal_strlit("");
            assert(""@ =~= Seq::<char>::empty());
        }
    }

    /// Renders an API diff: the removed, changed and added buckets, each
    /// under a labeled header, `-` before removed lines and the old half of
    /// a changed pair, `+` before added lines and the new half.
    pub fn print_diff(w: &mut String, use_color: bool, diff: &PublicItemsDiff)
        ensures
            final(w)@ == old(w)@ + spec_section(
                "Removed items from the public API\n================================="@,
                spec_item_lines(items_view(diff.removed@), "-"@, use_color),
                diff.removed@.len() == 0,
            ) + spec_section(
                "Changed items in the public API\n==============================="@,
                spec_changed_lines(pairs_view(diff.changed@), use_color),
                diff.changed@.len() == 0,
            ) + spec_section(
                "Added items to the public API\n============================="@,
                spec_item_lines(items_view(diff.added@), "+"@, use_color),
                diff.added@.len() == 0,
            ),
    {
        print_items_with_header(
            w,
            "Removed items from the public API\n=================================",
            &diff.removed,
            "-",
            use_color,
        );
        w.append("Changed items in the public API\n===============================");
        w.append("\n");
        if diff.changed.len() == 0 {
            w.append("(none)\n");
        } else {
            let ghost mid = w@;
            let mut i: usize = 0;
            while i < diff.changed.len()
                invariant
                    i <= diff.changed@.len(),
                    w@ == mid + spec_changed_lines(
                        pairs_view(diff.changed@).take(i as int),
                        use_color,
                    ),
                decreases diff.changed@.len() - i,
            {
                if use_color {
                    let ds = crate::diff::token_diff(
                        &diff.changed[i].old_item.tokens,
                        &diff.changed[i].new_item.tokens,
                    );
                    w.append("-");
                    let old_line = color_item_with_diff(&ds, true);
                    w.append(old_line.as_str());
                    w.append("\n");
                    w.append("+");
                    let new_line = color_item_with_diff(&ds, false);
                    w.append(new_line.as_str());
                    w.append("\n");
                } else {
                    w.append("-");
                    w.append(diff.changed[i].old_item.text.as_str());
                    w.append("\n");
                    w.append("+");
                    w.append(diff.changed[i].new_item.text.as_str());
                    w.append("\n");
                }
                proof {
                    assert(pairs_view(diff.changed@).take(i + 1int).drop_last() =~= pairs_view(
                        diff.changed@,
                    ).take(i as int));
                    assert(pairs_view(diff.changed@).take(i + 1int).last() == (
                        diff.changed@[i as int].old_item@,
                        diff.changed@[i as int].new_item@,
                    ));
                }
                i = i + 1;
            }
            proof {
                assert(pairs_view(diff.changed@).take(diff.changed@.len() as int) =~= pairs_view(
                    diff.changed@,
                ));
            }
        }
        w.append("\n");
        print_items_with_header(
            w,
            "Added items to the public API\n=============================",
            &diff.added,
            "+",
            use_color,
        );
    }
}

} // verus!
