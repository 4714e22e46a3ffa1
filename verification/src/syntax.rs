//! Access to the reader of the language's own syntax.
//!
//! How a text is read depends on where that happens: within the compiler its own
//! lexer is used, elsewhere another. So nothing is said of the answers here. What
//! is said is what was asked: each function adds the text, with the answer, to
//! the record of the exchange. An error is handed on as the text that it
//! displays.
use proc_macro2::{Spacing, TokenStream, TokenTree};
use quote::ToTokens;
use std::str::FromStr;
use vstd::prelude::*;

verus! {

/// What kind of token it is.
#[derive(Clone, Copy, Debug, PartialEq, Eq, Structural)]
pub enum TokenKind {
    /// A word, which may be a keyword.
    Word,
    /// A character of punctuation.
    Punct,
    /// A literal.
    Literal,
    /// Tokens in brackets.
    Group,
}

/// A token.
pub struct AttrToken {
    pub kind: TokenKind,
    pub text: String,
    /// Whether the next token belongs to the same operator.
    pub joint: bool,
}

/// A function, by its pieces.
pub struct BridgeFn {
    pub attrs: Vec<String>,
    pub vis: String,
    pub sig: String,
    pub name: String,
    pub body: String,
}

/// A text that was read, and the answer to it.
pub enum SyntaxStep {
    /// A text was read as tokens.
    Tokens(Seq<char>, Result<Seq<AttrToken>, String>),
    /// A text was read as an identifier.
    Ident(Seq<char>, Result<(), String>),
    /// A text was read as a path.
    Path(Seq<char>, Result<(), String>),
    /// A text was read as a function.
    Function(Seq<char>, Result<BridgeFn, String>),
}

/// A reader of texts, with what it has read.
///
/// The record is for proofs; at run time there is none.
pub struct Lexer {
    record: Ghost<Seq<SyntaxStep>>,
}

impl View for Lexer {
    type V = Seq<SyntaxStep>;

    closed spec fn view(&self) -> Seq<SyntaxStep> {
        self.record@
    }
}

impl Lexer {
    /// Nothing has been read.
    pub fn new() -> (lexer: Lexer)
        ensures
            lexer@ == Seq::<SyntaxStep>::empty(),
    {
        Lexer { record: Ghost(Seq::empty()) }
    }
}

/// An answer with the tokens as a sequence.
pub open spec fn token_answer(answer: Result<Vec<AttrToken>, String>) -> Result<
    Seq<AttrToken>,
    String,
> {
    match answer {
        Ok(tokens) => Ok(tokens@),
        Err(reason) => Err(reason),
    }
}

/// Reads a text as tokens: `proc_macro2::TokenStream::from_str`, with each
/// `TokenTree` taken by its kind, its text and, for punctuation, its spacing.
#[verifier::external_body]
pub(crate) fn read_tokens(lexer: &mut Lexer, text: &str) -> (answer: Result<Vec<AttrToken>, String>)
    ensures
        final(lexer)@ == old(lexer)@.push(SyntaxStep::Tokens(text@, token_answer(answer))),
{
    let stream = TokenStream::from_str(text).map_err(|e| e.to_string())?;
    let token = |kind, tree: &TokenTree, joint| AttrToken { kind, text: tree.to_string(), joint };
    let convert = |tree: TokenTree| match &tree {
        TokenTree::Ident(_) => token(TokenKind::Word, &tree, false),
        TokenTree::Literal(_) => token(TokenKind::Literal, &tree, false),
        TokenTree::Group(_) => token(TokenKind::Group, &tree, false),
        TokenTree::Punct(punct) => match punct.spacing() {
            Spacing::Joint => token(TokenKind::Punct, &tree, true),
            Spacing::Alone => token(TokenKind::Punct, &tree, false),
        },
    };
    Ok(stream.into_iter().map(convert).collect())
}

/// Reads a text as an identifier: `syn::parse_str::<syn::Ident>`.
#[verifier::external_body]
pub(crate) fn read_ident(lexer: &mut Lexer, text: &str) -> (answer: Result<(), String>)
    ensures
        final(lexer)@ == old(lexer)@.push(SyntaxStep::Ident(text@, answer)),
{
    syn::parse_str::<syn::Ident>(text).map(|_| ()).map_err(|e| e.to_string())
}

/// Reads a text as a path: `syn::parse_str::<syn::Path>`.
#[verifier::external_body]
pub(crate) fn read_path(lexer: &mut Lexer, text: &str) -> (answer: Result<(), String>)
    ensures
        final(lexer)@ == old(lexer)@.push(SyntaxStep::Path(text@, answer)),
{
    syn::parse_str::<syn::Path>(text).map(|_| ()).map_err(|e| e.to_string())
}

/// Reads a text as a function: `syn::parse_str::<syn::ItemFn>`, with its pieces
/// as texts.
#[verifier::external_body]
pub(crate) fn read_function(lexer: &mut Lexer, text: &str) -> (answer: Result<BridgeFn, String>)
    ensures
        final(lexer)@ == old(lexer)@.push(SyntaxStep::Function(text@, answer)),
{
    let item = syn::parse_str::<syn::ItemFn>(text).map_err(|e| e.to_string())?;
    Ok(BridgeFn {
        attrs: item.attrs.iter().map(|attr| attr.to_token_stream().to_string()).collect(),
        vis: item.vis.to_token_stream().to_string(),
        sig: item.sig.to_token_stream().to_string(),
        name: item.sig.ident.to_string(),
        body: item.block.to_token_stream().to_string(),
    })
}

} // verus!
