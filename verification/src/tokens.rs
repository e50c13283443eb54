//! The semantically tagged fragments that make up one rendered public item.
//!
//! A [`Token`] is an immutable (kind, text) pair. Concatenating the texts of
//! an item's token sequence reproduces the item's canonical rendered
//! signature exactly.

use vstd::prelude::*;

verus! {

/// The semantic category of one token of a rendered item signature.
#[derive(Clone, Copy, Debug, PartialEq, Eq, Structural)]
pub enum TokenKind {
    /// Punctuation such as `(`, `::` or `->`.
    Symbol,
    /// A visibility qualifier such as `pub`.
    Qualifier,
    /// An item-kind label such as `fn` or `struct`.
    Kind,
    /// A single space.
    Whitespace,
    /// A plain identifier, e.g. a path segment or a parameter name.
    Identifier,
    /// An annotation attached to an item.
    Annotation,
    /// A reference to `self`.
    SelfRef,
    /// The name of a function.
    Function,
    /// A lifetime name.
    Lifetime,
    /// A language keyword such as `mut`.
    Keyword,
    /// The name of a generic parameter.
    Generic,
    /// The name of a primitive type.
    Primitive,
    /// The name of a non-primitive type.
    Type,
}

/// The mathematical value of one [`Token`]: its kind and its text.
pub ghost struct TokenV {
    pub kind: TokenKind,
    pub text: Seq<char>,
}

/// One semantically tagged fragment of a rendered item signature.
#[derive(Debug)]
pub struct Token {
    /// The semantic category of this token.
    pub kind: TokenKind,
    /// The text of this token; rendering an item is concatenating these.
    pub text: String,
}

impl View for Token {
    type V = TokenV;

    open spec fn view(&self) -> TokenV {
        TokenV { kind: self.kind, text: self.text@ }
    }
}

impl Token {
    /// Makes the token of the given kind with the given text.
    pub fn new(kind: TokenKind, text: &str) -> (r: Token)
        ensures
            r@ == (TokenV { kind: kind, text: text@ }),
    {
        Token { kind, text: text.to_owned() }
    }

    /// The single-space whitespace token.
    pub fn whitespace() -> (r: Token)
        ensures
            r@ == (TokenV { kind: TokenKind::Whitespace, text: " "@ }),
    {
        Token { kind: TokenKind::Whitespace, text: " ".to_owned() }
    }

    /// The text of this token.
    pub fn text(&self) -> (r: &String)
        ensures
            r@ == self@.text,
    {
        &self.text
    }
}

/// The values of a sequence of tokens.
pub open spec fn toks(v: Seq<Token>) -> Seq<TokenV> {
    v.map_values(|t: Token| t@)
}

/// The text that a sequence of tokens renders to: the concatenation of the
/// texts of its tokens.
pub open spec fn text_of(s: Seq<TokenV>) -> Seq<char>
    decreases s.len(),
{
    if s.len() == 0 {
        Seq::empty()
    } else {
        text_of(s.drop_last()) + s.last().text
    }
}

/// Renders a token sequence to its text.
pub fn tokens_to_string(v: &Vec<Token>) -> (r: String)
    ensures
        r@ == text_of(toks(v@)),
{
    let mut r = String::new();
    let mut i: usize = 0;
    while i < v.len()
        invariant
            i <= v.len(),
            r@ == text_of(toks(v@.take(i as int))),
        decreases v.len() - i,
    {
        r.append(v[i].text.as_str());
        proof {
            assert(toks(v@.take(i + 1int)).drop_last() =~= toks(v@.take(i as int)));
            assert(toks(v@.take(i + 1int)).last() == v@[i as int]@);
        }
        i = i + 1;
    }
    proof {
        assert(v@.take(v@.len() as int) =~= v@);
    }
    r
}

} // verus!
