//! A flat token model of a source file.
//!
//! The recognizer in `resolve` only needs to see identifiers, punctuation
//! marks with their "isolated or glued to the next mark" flag, and a
//! catch-all for every other token. Lexing a text into that flat sequence
//! is the work of an outside parser; its result is given the name `lexed`.

use vstd::prelude::*;

verus! {

/// One token of a source text, as the recognizer sees it.
#[derive(Debug, Clone)]
pub enum Token {
    /// An identifier or keyword, by its text.
    Ident(String),
    /// A punctuation character; the flag is true when the mark is isolated,
    /// not glued to an adjacent punctuation character.
    Punct(char, bool),
    /// Any other token: a literal or a bracketed group.
    Other,
}

/// The mathematical value of a `Token`.
pub enum Tok {
    Ident(Seq<char>),
    Punct(char, bool),
    Other,
}

impl View for Token {
    type V = Tok;

    open spec fn view(&self) -> Tok {
        match self {
            Token::Ident(s) => Tok::Ident(s@),
            Token::Punct(c, alone) => Tok::Punct(*c, *alone),
            Token::Other => Tok::Other,
        }
    }
}

pub open spec fn toks_view(v: Seq<Token>) -> Seq<Tok> {
    v.map_values(|t: Token| t@)
}

/// The flat token sequence that the outside lexer produces for a text, or
/// `None` where the text does not lex as source code. The result depends on
/// the text alone.
pub uninterp spec fn lexed(s: Seq<char>) -> Option<Seq<Tok>>;

/// Relies on `syn::parse_str::<proc_macro2::TokenStream>`: it lexes a text
/// into a token stream, depending on the text alone, and fails exactly on
/// texts that are not lexable source code. Each top-level token tree is
/// taken over one for one: identifiers by their text, punctuation marks
/// with their spacing flag, everything else as `Other`.
#[verifier::external_body]
pub(crate) fn tokenize(text: &str) -> (r: Option<Vec<Token>>)
    ensures
        match r {
            Some(v) => lexed(text@) == Some(toks_view(v@)),
            None => lexed(text@) is None,
        },
{
    let stream: proc_macro2::TokenStream = match syn::parse_str(text) {
        Ok(s) => s,
        Err(_) => return None,
    };
    Some(stream.into_iter().map(|tree| match tree {
        proc_macro2::TokenTree::Ident(i) => Token::Ident(i.to_string()),
        proc_macro2::TokenTree::Punct(p) => Token::Punct(
            p.as_char(),
            p.spacing() == proc_macro2::Spacing::Alone,
        ),
        _ => Token::Other,
    }).collect())
}

} // verus!
