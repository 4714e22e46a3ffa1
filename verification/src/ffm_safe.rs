//! Expansion of functions that are called from outside the language.
//!
//! The body of such a function gives a number or a message. The expanded
//! function binds the thread to a plugin, if the attribute names one, and hands
//! the body to a wrapper that turns messages and panics into error pointers.
use crate::syntax;
use crate::syntax::{AttrToken, BridgeFn, Lexer, SyntaxStep, TokenKind};
use crate::text;
use vstd::prelude::*;
use vstd::string::*;

verus! {

/// The attribute, either empty or `plugin = path`. The path leads to the handle
/// of the plugin.
pub struct FfmSafeAttr {
    pub plugin_path: Option<String>,
}

/// The texts of tokens from `first` on, with spaces between them but for the
/// parts of an operator.
pub open spec fn joined(tokens: Seq<AttrToken>, first: int) -> Seq<char>
    decreases tokens.len() - first,
{
    if first >= tokens.len() {
        seq![]
    } else if first == tokens.len() - 1 {
        tokens[first].text@
    } else {
        tokens[first].text@ + (if tokens[first].joint {
            seq![]
        } else {
            " "@
        }) + joined(tokens, first + 1)
    }
}

/// The attribute starts with a word.
pub open spec fn starts_with_word(tokens: Seq<AttrToken>) -> bool {
    tokens.len() > 0 && tokens[0].kind == TokenKind::Word
}

/// The attribute starts with `plugin =`, where `ident` says whether the word is
/// an identifier.
pub open spec fn names_plugin(tokens: Seq<AttrToken>, ident: Result<(), String>) -> bool {
    &&& starts_with_word(tokens)
    &&& ident is Ok
    &&& tokens[0].text@ == "plugin"@
    &&& tokens.len() >= 2
    &&& tokens[1].kind == TokenKind::Punct
    &&& tokens[1].text@ == "="@
}

/// The path in an attribute, if there is one, or why the attribute cannot be
/// used. `ident` says whether its first word is an identifier, `path` whether
/// what stands behind the `=` is a path.
pub open spec fn attr_of(
    tokens: Seq<AttrToken>,
    ident: Result<(), String>,
    path: Result<(), String>,
) -> Result<Option<Seq<char>>, Seq<char>> {
    if tokens.len() == 0 {
        Ok(None)
    } else if !starts_with_word(tokens) {
        Err("expected identifier"@)
    } else if ident is Err {
        Err(ident->Err_0@)
    } else if tokens[0].text@ != "plugin"@ {
        Err("expected `plugin`"@)
    } else if !names_plugin(tokens, ident) {
        Err("expected `=`"@)
    } else {
        match path {
            Err(reason) => Err(reason@),
            Ok(_) => Ok(Some(joined(tokens, 2))),
        }
    }
}

/// `parsed` is what is said of an attribute.
pub open spec fn parsed_as(
    parsed: Result<FfmSafeAttr, String>,
    expected: Result<Option<Seq<char>>, Seq<char>>,
) -> bool {
    match expected {
        Err(message) => parsed is Err && parsed->Err_0@ == message,
        Ok(path) => parsed is Ok && path_of(parsed->Ok_0) == path,
    }
}

/// The path in an attribute.
pub open spec fn path_of(attr: FfmSafeAttr) -> Option<Seq<char>> {
    match attr.plugin_path {
        Some(path) => Some(path@),
        None => None,
    }
}

/// Joins the texts of tokens from `first` on.
fn join_tokens(tokens: &Vec<AttrToken>, first: usize) -> (text: String)
    ensures
        text@ == joined(tokens@, first as int),
{
    let mut text = String::new();
    let mut i: usize = first;
    while i < tokens.len()
        invariant
            first <= i,
            i <= tokens@.len() || i == first,
            text@ + joined(tokens@, i as int) == joined(tokens@, first as int),
        decreases tokens@.len() - i,
    {
        let ghost before = text@;
        text.append(tokens[i].text.as_str());
        if i + 1 < tokens.len() && !tokens[i].joint {
            text.append(" ");
        }
        i += 1;
        assert(text@ + joined(tokens@, i as int) =~= before + joined(tokens@, i - 1));
    }
    assert(text@ + joined(tokens@, i as int) =~= text@);
    text
}

/// Says whether the attribute starts with `plugin =`.
fn has_plugin(tokens: &Vec<AttrToken>, ident: &Result<(), String>) -> (has: bool)
    ensures
        has == names_plugin(tokens@, *ident),
{
    tokens.len() >= 2 && tokens[0].kind == TokenKind::Word && ident.is_ok() && text::same_text(
        tokens[0].text.as_str(),
        "plugin",
    ) && tokens[1].kind == TokenKind::Punct && text::same_text(tokens[1].text.as_str(), "=")
}

/// What is read of an attribute: its tokens, whether the first word is an
/// identifier, and whether what stands behind the `=` is a path.
pub open spec fn attr_steps(
    attr: Seq<char>,
    tokens: Result<Seq<AttrToken>, String>,
    ident: Result<(), String>,
    path: Result<(), String>,
) -> Seq<SyntaxStep> {
    let read = seq![SyntaxStep::Tokens(attr, tokens)];
    match tokens {
        Err(_) => read,
        Ok(found) => if !starts_with_word(found) {
            read
        } else {
            let named = read.push(SyntaxStep::Ident(found[0].text@, ident));
            if names_plugin(found, ident) {
                named.push(SyntaxStep::Path(joined(found, 2), path))
            } else {
                named
            }
        },
    }
}

/// What is said of an attribute that is read so.
pub open spec fn attr_result(
    tokens: Result<Seq<AttrToken>, String>,
    ident: Result<(), String>,
    path: Result<(), String>,
) -> Result<Option<Seq<char>>, Seq<char>> {
    match tokens {
        Err(reason) => Err(reason@),
        Ok(found) => attr_of(found, ident, path),
    }
}

/// `parsed` is what an attribute comes to that is read in `steps`.
pub open spec fn attr_read(
    attr: Seq<char>,
    steps: Seq<SyntaxStep>,
    parsed: Result<FfmSafeAttr, String>,
) -> bool {
    exists|
        tokens: Result<Seq<AttrToken>, String>,
        ident: Result<(), String>,
        path: Result<(), String>,
    |
        steps == #[trigger] attr_steps(attr, tokens, ident, path) && parsed_as(
            parsed,
            attr_result(tokens, ident, path),
        )
}

impl FfmSafeAttr {
    /// Makes the attribute out of its tokens, from whether its first word is an
    /// identifier and whether what stands behind the `=` is a path.
    pub fn settle(
        tokens: &Vec<AttrToken>,
        ident: &Result<(), String>,
        path: &Result<(), String>,
    ) -> (parsed: Result<FfmSafeAttr, String>)
        ensures
            parsed_as(parsed, attr_of(tokens@, *ident, *path)),
    {
        if tokens.len() == 0 {
            return Ok(FfmSafeAttr { plugin_path: None });
        }
        if tokens[0].kind != TokenKind::Word {
            return Err("expected identifier".to_owned());
        }
        if let Err(reason) = ident {
            return Err(reason.clone());
        }
        if !text::same_text(tokens[0].text.as_str(), "plugin") {
            return Err("expected `plugin`".to_owned());
        }
        if !has_plugin(tokens, ident) {
            return Err("expected `=`".to_owned());
        }
        match path {
            Err(reason) => Err(reason.clone()),
            Ok(_) => Ok(FfmSafeAttr { plugin_path: Some(join_tokens(tokens, 2)) }),
        }
    }

    /// Reads the attribute.
    pub fn parse(lexer: &mut Lexer, attr: &str) -> (parsed: Result<FfmSafeAttr, String>)
        ensures
            old(lexer)@.is_prefix_of(final(lexer)@),
            attr_read(attr@, final(lexer)@.skip(old(lexer)@.len() as int), parsed),
    {
        let ghost before = lexer@;
        let ghost fine = Ok::<(), String>(());
        let answer = syntax::read_tokens(lexer, attr);
        let ghost found = syntax::token_answer(answer);
        let tokens = match answer {
            Ok(tokens) => tokens,
            Err(reason) => {
                assert(lexer@.skip(before.len() as int) =~= attr_steps(attr@, found, fine, fine));
                return Err(reason);
            },
        };
        let ident = if tokens.len() > 0 && tokens[0].kind == TokenKind::Word {
            syntax::read_ident(lexer, tokens[0].text.as_str())
        } else {
            Ok(())
        };
        let path = if has_plugin(&tokens, &ident) {
            syntax::read_path(lexer, join_tokens(&tokens, 2).as_str())
        } else {
            Ok(())
        };
        assert(lexer@.skip(before.len() as int) =~= attr_steps(attr@, found, ident, path));
        FfmSafeAttr::settle(&tokens, &ident, &path)
    }
}

/// The call that binds the thread, if there is a path to a plugin.
pub open spec fn bind_text(path: Option<Seq<char>>) -> Seq<char> {
    match path {
        None => seq![],
        Some(path) => "native_bridge_common::allocator::bind_thread("@ + path
            + ".get().expect(\"plugin not registered: ensure init is called first\")); "@,
    }
}

/// Attributes one after the other, each with a space behind it.
pub open spec fn attrs_text(attrs: Seq<String>) -> Seq<char>
    decreases attrs.len(),
{
    if attrs.len() == 0 {
        seq![]
    } else {
        attrs_text(attrs.drop_last()) + attrs.last()@ + " "@
    }
}

/// What stands in front of the body in the expanded function.
pub open spec fn opening(item: BridgeFn, path: Option<Seq<char>>) -> Seq<char> {
    attrs_text(item.attrs@) + item.vis@ + " "@ + item.sig@ + " { "@ + bind_text(path)
        + "native_bridge_common::error::ffm_wrap(\""@ + item.name@
        + "\", ::std::panic::AssertUnwindSafe(|| -> ::std::result::Result<i64, ::std::string::String> "@
}

/// The expanded function.
pub open spec fn expansion(item: BridgeFn, path: Option<Seq<char>>) -> Seq<char> {
    opening(item, path) + item.body@ + "),) }"@
}

/// Spells the expanded function.
pub fn expand(attr: &FfmSafeAttr, item: &BridgeFn) -> (expanded: String)
    ensures
        expanded@ == expansion(*item, path_of(*attr)),
{
    let mut expanded = String::new();
    let mut i: usize = 0;
    while i < item.attrs.len()
        invariant
            i <= item.attrs@.len(),
            expanded@ == attrs_text(item.attrs@.take(i as int)),
        decreases item.attrs@.len() - i,
    {
        expanded.append(item.attrs[i].as_str());
        expanded.append(" ");
        i += 1;
        assert(item.attrs@.take(i as int).drop_last() =~= item.attrs@.take(i - 1));
    }
    assert(item.attrs@.take(i as int) =~= item.attrs@);
    expanded.append(item.vis.as_str());
    expanded.append(" ");
    expanded.append(item.sig.as_str());
    expanded.append(" { ");
    let ghost opened = expanded@;
    if let Some(path) = &attr.plugin_path {
        expanded.append("native_bridge_common::allocator::bind_thread(");
        expanded.append(path.as_str());
        expanded.append(".get().expect(\"plugin not registered: ensure init is called first\")); ");
    }
    assert(expanded@ =~= opened + bind_text(path_of(*attr)));
    expanded.append("native_bridge_common::error::ffm_wrap(\"");
    expanded.append(item.name.as_str());
    expanded.append(
        "\", ::std::panic::AssertUnwindSafe(|| -> ::std::result::Result<i64, ::std::string::String> ",
    );
    assert(expanded@ =~= opening(*item, path_of(*attr)));
    expanded.append(item.body.as_str());
    expanded.append("),) }");
    expanded
}

/// What is read of an attribute and of the function under it, which is read if
/// the attribute can be used.
pub open spec fn expansion_steps(
    attr: Seq<char>,
    item: Seq<char>,
    tokens: Result<Seq<AttrToken>, String>,
    ident: Result<(), String>,
    path: Result<(), String>,
    function: Result<BridgeFn, String>,
) -> Seq<SyntaxStep> {
    let read = attr_steps(attr, tokens, ident, path);
    match attr_result(tokens, ident, path) {
        Err(_) => read,
        Ok(_) => read.push(SyntaxStep::Function(item, function)),
    }
}

/// `expanded` is what is said of an attribute and of the function under it.
pub open spec fn expanded_as(
    attr: Result<Option<Seq<char>>, Seq<char>>,
    function: Result<BridgeFn, String>,
    expanded: Result<String, String>,
) -> bool {
    match attr {
        Err(message) => expanded is Err && expanded->Err_0@ == message,
        Ok(path) => match function {
            Err(reason) => expanded is Err && expanded->Err_0@ == reason@,
            Ok(item) => expanded is Ok && expanded->Ok_0@ == expansion(item, path),
        },
    }
}

/// `expanded` is what an attribute and the function under it come to that are
/// read in `steps`.
pub open spec fn expansion_read(
    attr: Seq<char>,
    item: Seq<char>,
    steps: Seq<SyntaxStep>,
    expanded: Result<String, String>,
) -> bool {
    exists|
        tokens: Result<Seq<AttrToken>, String>,
        ident: Result<(), String>,
        path: Result<(), String>,
        function: Result<BridgeFn, String>,
    |
        steps == #[trigger] expansion_steps(attr, item, tokens, ident, path, function)
            && expanded_as(attr_result(tokens, ident, path), function, expanded)
}

/// Makes the expanded function out of an attribute and what the function under
/// it is read as.
pub fn settle_expansion(attr: FfmSafeAttr, function: Result<BridgeFn, String>) -> (expanded: Result<
    String,
    String,
>)
    ensures
        expanded_as(Ok(path_of(attr)), function, expanded),
{
    match function {
        Err(reason) => Err(reason),
        Ok(item) => Ok(expand(&attr, &item)),
    }
}

/// Expands a function under an attribute. The attribute is read first.
pub fn ffm_safe(lexer: &mut Lexer, attr: &str, item: &str) -> (expanded: Result<String, String>)
    ensures
        old(lexer)@.is_prefix_of(final(lexer)@),
        expansion_read(attr@, item@, final(lexer)@.skip(old(lexer)@.len() as int), expanded),
{
    let ghost before = lexer@;
    let parsed = FfmSafeAttr::parse(lexer, attr);
    let ghost middle = lexer@;
    let ghost (tokens, ident, path) = choose|
        tokens: Result<Seq<AttrToken>, String>,
        ident: Result<(), String>,
        path: Result<(), String>,
    |
        middle.skip(before.len() as int) == #[trigger] attr_steps(attr@, tokens, ident, path)
            && parsed_as(parsed, attr_result(tokens, ident, path));
    match parsed {
        Err(message) => {
            assert(lexer@.skip(before.len() as int) =~= expansion_steps(
                attr@,
                item@,
                tokens,
                ident,
                path,
                Err(message),
            ));
            Err(message)
        },
        Ok(parsed) => {
            let function = syntax::read_function(lexer, item);
            assert(lexer@.skip(before.len() as int) =~= middle.skip(before.len() as int).push(
                SyntaxStep::Function(item@, function),
            ));
            assert(lexer@.skip(before.len() as int) =~= expansion_steps(
                attr@,
                item@,
                tokens,
                ident,
                path,
                function,
            ));
            settle_expansion(parsed, function)
        },
    }
}

/// The body of a function stands in its expansion as it is, between what opens
/// and what closes it, whatever the attribute says.
pub proof fn law_body_is_kept(item: BridgeFn, path: Option<Seq<char>>)
    ensures
        ({
            let start = opening(item, path).len() as int;
            expansion(item, path).subrange(start, start + item.body@.len()) == item.body@
        }),
{
    let start = opening(item, path).len() as int;
    assert(expansion(item, path).subrange(start, start + item.body@.len()) =~= item.body@);
}

/// A function is not read under an attribute that cannot be used.
pub proof fn law_attribute_comes_first(
    attr: Seq<char>,
    item: Seq<char>,
    tokens: Result<Seq<AttrToken>, String>,
    ident: Result<(), String>,
    path: Result<(), String>,
    function: Result<BridgeFn, String>,
)
    requires
        attr_result(tokens, ident, path) is Err,
    ensures
        forall|i: int|
            0 <= i < expansion_steps(attr, item, tokens, ident, path, function).len()
                ==> #[trigger] expansion_steps(
                attr,
                item,
                tokens,
                ident,
                path,
                function,
            )[i] !is Function,
{
}

/// The text of tokens is that of the first one, a space unless the next token
/// belongs to the same operator, and that of the tokens behind it.
pub proof fn law_tokens_are_joined_in_order(tokens: Seq<AttrToken>, first: int)
    requires
        0 <= first <= tokens.len(),
    ensures
        first == tokens.len() ==> joined(tokens, first).len() == 0,
        first == tokens.len() - 1 ==> joined(tokens, first) == tokens[first].text@,
        first < tokens.len() - 1 ==> joined(tokens, first) == tokens[first].text@ + (
        if tokens[first].joint {
            joined(tokens, first + 1)
        } else {
            " "@ + joined(tokens, first + 1)
        }),
{
    if first < tokens.len() - 1 {
        let rest = joined(tokens, first + 1);
        assert(tokens[first].text@ + seq![] + rest =~= tokens[first].text@ + rest);
        assert(tokens[first].text@ + " "@ + rest =~= tokens[first].text@ + (" "@ + rest));
    }
}

/// An attribute is read as tokens once. It names no plugin exactly if there are
/// none. It names one exactly if its first token was read as an identifier and is
/// `plugin`, a `=` follows, and what follows that was read as a path; the path is
/// the text that was read so.
pub proof fn law_attribute_is_what_is_read(
    attr: Seq<char>,
    steps: Seq<SyntaxStep>,
    parsed: Result<FfmSafeAttr, String>,
)
    requires
        attr_read(attr, steps, parsed),
    ensures
        1 <= steps.len() <= 3,
        steps[0] matches SyntaxStep::Tokens(text, answer) && text == attr && match answer {
            Err(reason) => steps.len() == 1 && parsed is Err && parsed->Err_0@ == reason@,
            Ok(tokens) => {
                &&& (parsed is Ok && parsed->Ok_0.plugin_path is None) <==> tokens.len() == 0
                &&& steps.len() > 1 ==> tokens.len() > 0 && (steps[1] matches SyntaxStep::Ident(
                    word,
                    _,
                ) && word == tokens[0].text@)
                &&& steps.len() > 2 ==> tokens.len() >= 2 && tokens[0].text@ == "plugin"@
                    && tokens[1].text@ == "="@ && (steps[2] matches SyntaxStep::Path(rest, _) && rest
                    == joined(tokens, 2))
            },
        },
        parsed matches Ok(given) ==> (given.plugin_path matches Some(path) ==> {
            &&& steps.len() == 3
            &&& steps[1] matches SyntaxStep::Ident(word, answer) && word == "plugin"@
                && answer is Ok
            &&& steps[2] matches SyntaxStep::Path(rest, answer) && rest == path@ && answer is Ok
        }),
        steps.len() == 3 ==> (steps[2] matches SyntaxStep::Path(_, answer) && (parsed is Ok
            <==> answer is Ok)),
{
    let (tokens, ident, path) = choose|
        tokens: Result<Seq<AttrToken>, String>,
        ident: Result<(), String>,
        path: Result<(), String>,
    |
        steps == #[trigger] attr_steps(attr, tokens, ident, path) && parsed_as(
            parsed,
            attr_result(tokens, ident, path),
        );
    assert(steps[0] == SyntaxStep::Tokens(attr, tokens));
    if tokens is Ok && starts_with_word(tokens->Ok_0) {
        let found = tokens->Ok_0;
        assert(steps[1] == SyntaxStep::Ident(found[0].text@, ident));
        if names_plugin(found, ident) {
            assert(steps[2] == SyntaxStep::Path(joined(found, 2), path));
        }
    }
}

/// All attributes of a function are kept, in order.
pub proof fn law_attributes_are_kept(attrs: Seq<String>, more: String)
    ensures
        attrs.len() == 0 ==> attrs_text(attrs).len() == 0,
        attrs_text(attrs.push(more)) == attrs_text(attrs) + more@ + " "@,
{
    assert(attrs.push(more).drop_last() =~= attrs);
}

/// Naming a plugin adds the call that binds the thread, in front of the wrapper,
/// and changes nothing else. The signature stands unchanged in front of it, and
/// the wrapper is told the name of the function.
pub proof fn law_plugin_adds_the_binding(item: BridgeFn, path: Seq<char>)
    ensures
        ({
            let head = attrs_text(item.attrs@) + item.vis@ + " "@ + item.sig@ + " { "@;
            let call = "native_bridge_common::allocator::bind_thread("@ + path
                + ".get().expect(\"plugin not registered: ensure init is called first\")); "@;
            let tail = "native_bridge_common::error::ffm_wrap(\""@ + item.name@
                + "\", ::std::panic::AssertUnwindSafe(|| -> ::std::result::Result<i64, ::std::string::String> "@
                + item.body@ + "),) }"@;
            &&& expansion(item, None) == head + tail
            &&& expansion(item, Some(path)) == head + call + tail
        }),
{
    let head = attrs_text(item.attrs@) + item.vis@ + " "@ + item.sig@ + " { "@;
    let call = "native_bridge_common::allocator::bind_thread("@ + path
        + ".get().expect(\"plugin not registered: ensure init is called first\")); "@;
    let tail = "native_bridge_common::error::ffm_wrap(\""@ + item.name@
        + "\", ::std::panic::AssertUnwindSafe(|| -> ::std::result::Result<i64, ::std::string::String> "@
        + item.body@ + "),) }"@;
    assert(expansion(item, None) =~= head + tail);
    assert(expansion(item, Some(path)) =~= head + call + tail);
}

/// A function is expanded exactly if its attribute can be used and it was read as a
/// function, which is the last thing that is read. Otherwise the error is that of
/// the attribute, or of the reading.
pub proof fn law_function_is_read_last(
    attr: Seq<char>,
    item: Seq<char>,
    steps: Seq<SyntaxStep>,
    expanded: Result<String, String>,
)
    requires
        expansion_read(attr, item, steps, expanded),
    ensures
        steps.len() > 0,
        expanded is Ok ==> (steps.last() matches SyntaxStep::Function(text, answer) && text == item
            && answer is Ok),
        steps.last() matches SyntaxStep::Function(text, answer) ==> text == item && match answer {
            Ok(function) => expanded is Ok && (expanded->Ok_0@ == expansion(function, None)
                || exists|path: Seq<char>|
                expanded->Ok_0@ == #[trigger] expansion(function, Some(path))),
            Err(reason) => expanded is Err && expanded->Err_0@ == reason@,
        },
        forall|i: int| 0 <= i < steps.len() - 1 ==> #[trigger] steps[i] !is Function,
{
    let (tokens, ident, path, function) = choose|
        tokens: Result<Seq<AttrToken>, String>,
        ident: Result<(), String>,
        path: Result<(), String>,
        function: Result<BridgeFn, String>,
    |
        steps == #[trigger] expansion_steps(attr, item, tokens, ident, path, function)
            && expanded_as(attr_result(tokens, ident, path), function, expanded);
    let read = attr_steps(attr, tokens, ident, path);
    assert forall|i: int| 0 <= i < read.len() implies #[trigger] read[i] !is Function by {}
    if attr_result(tokens, ident, path) is Ok {
        assert(steps.last() == SyntaxStep::Function(item, function));
        assert(steps.drop_last() =~= read);
        assert forall|i: int| 0 <= i < steps.len() - 1 implies #[trigger] steps[i] !is Function by {
            assert(steps[i] == read[i]);
        }
        if let Some(given) = attr_result(tokens, ident, path)->Ok_0 {
            if let Ok(item) = function {
                assert(expanded->Ok_0@ == expansion(item, Some(given)));
            }
        }
    }
}

} // verus!
