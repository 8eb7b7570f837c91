use crate::diag::{parser_error_at, ParserErrorView};
use crate::lexer::{holds, Lexeme};
use crate::parser::{
    argument_list, body_capture, invalid_type_message, macro_after_name, macro_definition,
    single_argument, BodyOutcome, ListOutcome, MacroOutcome,
};
use crate::token::{ArgumentType, FullArgument, MacroView, TokenKind};
use vstd::prelude::*;

verus! {

/// That the item is a readable token other than a brace.
pub open spec fn plain(item: Lexeme) -> bool {
    item.0 matches Ok(t) && !(t is LeftBrace) && !(t is RightBrace)
}

/// The tokens of a stream of readable items.
pub open spec fn tokens_of(s: Seq<Lexeme>) -> Seq<TokenKind> {
    s.map_values(|item: Lexeme| item.0->Ok_0)
}

/// That `s` begins with the declaration of `args` in its plain form: for each
/// argument its name, a colon and the name of its type, a comma between two
/// arguments, and a closing parenthesis at the end.
pub open spec fn declares(s: Seq<Lexeme>, args: Seq<FullArgument>) -> bool
    decreases args.len(),
{
    if args.len() == 0 {
        s.len() >= 1 && holds(s[0], TokenKind::RightParen)
    } else {
        &&& s.len() >= 4
        &&& holds(s[0], TokenKind::Ident(args[0].name))
        &&& holds(s[1], TokenKind::Colon)
        &&& s[2].0 matches Ok(TokenKind::Ident(ty))
        &&& ArgumentType::spec_from_string(ty@) == Some(args[0].arg_type)
        &&& if args.len() == 1 {
            holds(s[3], TokenKind::RightParen)
        } else {
            holds(s[3], TokenKind::Comma) && declares(s.skip(4), args.skip(1))
        }
    }
}

/// The number of items that the plain declaration of `args` takes, its
/// closing parenthesis included.
pub open spec fn declaration_len(args: Seq<FullArgument>) -> int {
    if args.len() == 0 {
        1
    } else {
        4 * (args.len() as int)
    }
}

/// That the first `n` items of `s` are readable tokens other than braces and
/// the item after them is a closing brace.
pub open spec fn plain_body(s: Seq<Lexeme>, n: int) -> bool {
    &&& 0 <= n < s.len()
    &&& holds(s[n], TokenKind::RightBrace)
    &&& forall|j: int| 0 <= j < n ==> plain(#[trigger] s[j])
}

/// A well-formed argument list is read whole: the arguments come out in the
/// order of their declaration, nothing is reported, and the stream is left
/// just after the closing parenthesis.
pub proof fn lemma_declared_arguments(input: Seq<char>, s: Seq<Lexeme>, args: Seq<FullArgument>)
    requires
        declares(s, args),
    ensures
        declaration_len(args) <= s.len(),
        argument_list(input, s) == (ListOutcome {
            args,
            errors: seq![],
            rest: s.skip(declaration_len(args)),
            ended: false,
        }),
    decreases args.len(),
{
    if args.len() == 0 {
        assert(args =~= seq![]);
    } else {
        let first = single_argument(input, args[0].name, s.skip(1));
        assert(first.rest == s.skip(3));
        let others = argument_list(input, s.skip(3));
        assert(s.skip(3).skip(1) =~= s.skip(4));
        if args.len() == 1 {
            assert(seq![args[0]] + others.args =~= args);
        } else {
            lemma_declared_arguments(input, s.skip(4), args.skip(1));
            assert(seq![args[0]] + args.skip(1) =~= args);
            assert(s.skip(4).skip(declaration_len(args.skip(1))) =~= s.skip(
                declaration_len(args),
            ));
        }
    }
}

/// An argument whose type name names no type is reported and dropped, and
/// the arguments after it are read as if it had not been there.
pub proof fn lemma_unknown_type_is_dropped(input: Seq<char>, s: Seq<Lexeme>)
    requires
        s.len() >= 3,
        s[0].0 matches Ok(TokenKind::Ident(_)),
        holds(s[1], TokenKind::Colon),
        s[2].0 matches Ok(TokenKind::Ident(ty)) && ArgumentType::spec_from_string(ty@) is None,
    ensures
        ({
            let ty = s[2].0->Ok_0->Ident_0;
            let others = argument_list(input, s.skip(3));
            argument_list(input, s) == ListOutcome {
                args: others.args,
                errors: seq![parser_error_at(input, invalid_type_message(ty@), s[2].1)]
                    + others.errors,
                rest: others.rest,
                ended: others.ended,
            }
        }),
{
    assert(s.skip(1).skip(2) =~= s.skip(3));
}

/// An argument name that is not followed by a colon ends the argument list:
/// the item found in the colon's place is reported, and the list is given up
/// just after it with the arguments read before.
pub proof fn lemma_missing_colon_ends_list(input: Seq<char>, s: Seq<Lexeme>)
    requires
        s.len() >= 2,
        s[0].0 matches Ok(TokenKind::Ident(_)),
        !holds(s[1], TokenKind::Colon),
    ensures
        argument_list(input, s) == (ListOutcome {
            args: seq![],
            errors: seq![
                parser_error_at(
                    input,
                    "expected a colon after argument name to denote type"@,
                    s[1].1,
                ),
            ],
            rest: s.skip(2),
            ended: false,
        }),
{
    assert(s.skip(1).skip(1) =~= s.skip(2));
}

/// A colon that is not followed by a type name ends the argument list: the
/// item found in the type's place is reported, and the list is given up just
/// after it with the arguments read before.
pub proof fn lemma_missing_type_ends_list(input: Seq<char>, s: Seq<Lexeme>)
    requires
        s.len() >= 3,
        s[0].0 matches Ok(TokenKind::Ident(_)),
        holds(s[1], TokenKind::Colon),
        !(s[2].0 matches Ok(TokenKind::Ident(_))),
    ensures
        argument_list(input, s) == (ListOutcome {
            args: seq![],
            errors: seq![
                parser_error_at(input, "did not find argument type after colon"@, s[2].1),
            ],
            rest: s.skip(3),
            ended: false,
        }),
{
    assert(s.skip(1).skip(2) =~= s.skip(3));
}

/// Plain tokens at the front of a body are kept as they are, at any depth,
/// and capture goes on behind them.
pub proof fn lemma_plain_prefix(input: Seq<char>, s: Seq<Lexeme>, n: int, depth: nat)
    requires
        0 <= n <= s.len(),
        forall|j: int| 0 <= j < n ==> plain(#[trigger] s[j]),
    ensures
        body_capture(input, s, depth) == (BodyOutcome {
            tokens: tokens_of(s.take(n)) + body_capture(input, s.skip(n), depth).tokens,
            errors: body_capture(input, s.skip(n), depth).errors,
            rest: body_capture(input, s.skip(n), depth).rest,
        }),
    decreases n,
{
    if n == 0 {
        assert(s.skip(0) =~= s);
    } else {
        lemma_plain_prefix(input, s.skip(1), n - 1, depth);
        assert(s.skip(1).skip(n - 1) =~= s.skip(n));
        let then = body_capture(input, s.skip(n), depth);
        assert(seq![s[0].0->Ok_0] + (tokens_of(s.skip(1).take(n - 1)) + then.tokens) =~= tokens_of(
            s.take(n),
        ) + then.tokens);
    }
}

/// No brace is ever kept in a captured body, at whatever depth it stood.
pub proof fn lemma_body_holds_no_brace(input: Seq<char>, s: Seq<Lexeme>, depth: nat)
    ensures
        forall|k: int|
            0 <= k < body_capture(input, s, depth).tokens.len() ==> {
                let t = #[trigger] body_capture(input, s, depth).tokens[k];
                !(t is LeftBrace) && !(t is RightBrace)
            },
    decreases s.len(),
{
    if s.len() > 0 {
        match s[0].0 {
            Ok(TokenKind::LeftBrace) => {
                lemma_body_holds_no_brace(input, s.skip(1), depth + 1);
            },
            Ok(TokenKind::RightBrace) => {
                if depth > 1 {
                    lemma_body_holds_no_brace(input, s.skip(1), (depth - 1) as nat);
                }
            },
            _ => {
                lemma_body_holds_no_brace(input, s.skip(1), depth);
            },
        }
    }
}

/// A body without inner braces is captured exactly: the tokens between the
/// braces in their order, nothing reported, the stream left just after the
/// closing brace.
pub proof fn lemma_plain_body(input: Seq<char>, s: Seq<Lexeme>, n: int)
    requires
        plain_body(s, n),
    ensures
        body_capture(input, s, 1) == (BodyOutcome {
            tokens: tokens_of(s.take(n)),
            errors: seq![],
            rest: s.skip(n + 1),
        }),
{
    lemma_plain_prefix(input, s, n, 1);
    assert(s.skip(n).skip(1) =~= s.skip(n + 1));
}

/// One more opening brace in front of a body takes capture past the closing
/// brace that was meant to end it: that brace only brings the depth back to
/// one, and capture goes on behind it until a closing brace at depth one or
/// the end of input.
pub proof fn lemma_extra_opening_brace(
    input: Seq<char>,
    open: Lexeme,
    s: Seq<Lexeme>,
    n: int,
)
    requires
        holds(open, TokenKind::LeftBrace),
        plain_body(s, n),
    ensures
        body_capture(input, s, 1).rest == s.skip(n + 1),
        body_capture(input, seq![open] + s, 1) == (BodyOutcome {
            tokens: tokens_of(s.take(n)) + body_capture(input, s.skip(n + 1), 1).tokens,
            errors: body_capture(input, s.skip(n + 1), 1).errors,
            rest: body_capture(input, s.skip(n + 1), 1).rest,
        }),
{
    lemma_plain_body(input, s, n);
    assert((seq![open] + s).skip(1) =~= s);
    lemma_plain_prefix(input, s, n, 2);
    assert(s.skip(n).skip(1) =~= s.skip(n + 1));
}

/// The depth of open braces after the item, where it was `depth` before.
pub open spec fn depth_past(item: Lexeme, depth: int) -> int {
    if holds(item, TokenKind::LeftBrace) {
        depth + 1
    } else if holds(item, TokenKind::RightBrace) {
        depth - 1
    } else {
        depth
    }
}

/// The depth of open braces after the items of `s`, where it was `depth`
/// before them.
pub open spec fn depth_after(s: Seq<Lexeme>, depth: int) -> int
    decreases s.len(),
{
    if s.len() == 0 {
        depth
    } else {
        depth_after(s.skip(1), depth_past(s[0], depth))
    }
}

/// That every item of `s` is a readable token and that, with `depth` braces
/// open before `s`, at least one brace stays open after each item.
pub open spec fn stays_open(s: Seq<Lexeme>, depth: int) -> bool
    decreases s.len(),
{
    s.len() == 0 || (s[0].0 is Ok && depth_past(s[0], depth) >= 1 && stays_open(
        s.skip(1),
        depth_past(s[0], depth),
    ))
}

/// The tokens of `ts` that are no braces, in their order.
pub open spec fn without_braces(ts: Seq<TokenKind>) -> Seq<TokenKind> {
    ts.filter(|t: TokenKind| !(t is LeftBrace) && !(t is RightBrace))
}

/// Inner braces are counted and left out: of a stretch of readable tokens
/// within which the body stays open, the tokens other than braces are kept in
/// their order, and capture goes on behind the stretch at the depth reached.
pub proof fn lemma_inner_braces(
    input: Seq<char>,
    body: Seq<Lexeme>,
    tail: Seq<Lexeme>,
    depth: nat,
)
    requires
        depth >= 1,
        stays_open(body, depth as int),
    ensures
        depth_after(body, depth as int) >= 1,
        ({
            let then = body_capture(input, tail, depth_after(body, depth as int) as nat);
            body_capture(input, body + tail, depth) == BodyOutcome {
                tokens: without_braces(tokens_of(body)) + then.tokens,
                errors: then.errors,
                rest: then.rest,
            }
        }),
    decreases body.len(),
{
    let keep = |t: TokenKind| !(t is LeftBrace) && !(t is RightBrace);
    if body.len() == 0 {
        assert(without_braces(tokens_of(body)) =~= seq![]) by {
            reveal(Seq::filter);
        }
    } else {
        let next = depth_past(body[0], depth as int);
        lemma_inner_braces(input, body.skip(1), tail, next as nat);
        assert((body + tail).skip(1) =~= body.skip(1) + tail);
        let t = body[0].0->Ok_0;
        assert(tokens_of(body) =~= seq![t] + tokens_of(body.skip(1)));
        Seq::filter_distributes_over_add(seq![t], tokens_of(body.skip(1)), keep);
        assert(seq![t].filter(keep) =~= if keep(t) {
            seq![t]
        } else {
            seq![]
        }) by {
            reveal_with_fuel(Seq::filter, 2);
        }
        let then = body_capture(input, tail, depth_after(body, depth as int) as nat);
        let inner = without_braces(tokens_of(body.skip(1)));
        assert(seq![t].filter(keep) + (inner + then.tokens) =~= (seq![t].filter(keep) + inner)
            + then.tokens);
    }
}

/// A body whose inner braces are balanced is captured up to its own closing
/// brace: the tokens between the outer braces are kept in their order, the
/// braces among them left out, nothing is reported, and the stream is left
/// just after the closing brace.
pub proof fn lemma_balanced_body(
    input: Seq<char>,
    body: Seq<Lexeme>,
    close: Lexeme,
    rest: Seq<Lexeme>,
)
    requires
        stays_open(body, 1),
        depth_after(body, 1) == 1,
        holds(close, TokenKind::RightBrace),
    ensures
        body_capture(input, body + seq![close] + rest, 1) == (BodyOutcome {
            tokens: without_braces(tokens_of(body)),
            errors: seq![],
            rest,
        }),
{
    let tail = seq![close] + rest;
    lemma_inner_braces(input, body, tail, 1);
    assert(tail.skip(1) =~= rest);
    assert(body + seq![close] + rest =~= body + tail);
}

/// A well-formed macro definition `name(a: t, ...){ body }` whose body holds
/// no braces yields exactly one macro: its name is `name`, its arguments are
/// the declared ones in order, its body is the token sequence between the
/// braces, nothing is reported, and the stream is left just after the closing
/// brace.
pub proof fn lemma_well_formed_macro(
    input: Seq<char>,
    s: Seq<Lexeme>,
    name: String,
    args: Seq<FullArgument>,
    n: int,
)
    requires
        s.len() >= 2,
        holds(s[0], TokenKind::Ident(name)),
        holds(s[1], TokenKind::LeftParen),
        declares(s.skip(2), args),
        2 + declaration_len(args) < s.len(),
        holds(s[2 + declaration_len(args)], TokenKind::LeftBrace),
        plain_body(s.skip(3 + declaration_len(args)), n),
    ensures
        macro_definition(input, s) == (MacroOutcome {
            result: Some(
                MacroView {
                    name,
                    args,
                    tokens: tokens_of(
                        s.subrange(
                            3 + declaration_len(args),
                            3 + declaration_len(args) + n,
                        ),
                    ),
                },
            ),
            errors: seq![],
            rest: s.skip(4 + declaration_len(args) + n),
        }),
{
    let d = declaration_len(args);
    lemma_declared_arguments(input, s.skip(2), args);
    let list = argument_list(input, s.skip(2));
    assert(list.rest.skip(1) =~= s.skip(3 + d));
    lemma_plain_body(input, s.skip(3 + d), n);
    assert(s.skip(3 + d).take(n) =~= s.subrange(3 + d, 3 + d + n));
    assert(s.skip(3 + d).skip(n + 1) =~= s.skip(4 + d + n));
}

/// A well-formed macro definition whose body holds balanced inner braces
/// yields exactly one macro as well: its body is the token sequence between
/// the outer braces with the inner braces left out.
pub proof fn lemma_well_formed_macro_with_inner_braces(
    input: Seq<char>,
    s: Seq<Lexeme>,
    name: String,
    args: Seq<FullArgument>,
    open: Lexeme,
    body: Seq<Lexeme>,
    close: Lexeme,
    rest: Seq<Lexeme>,
)
    requires
        s.len() >= 2,
        holds(s[0], TokenKind::Ident(name)),
        holds(s[1], TokenKind::LeftParen),
        declares(s.skip(2), args),
        s.skip(2 + declaration_len(args)) == seq![open] + body + seq![close] + rest,
        holds(open, TokenKind::LeftBrace),
        stays_open(body, 1),
        depth_after(body, 1) == 1,
        holds(close, TokenKind::RightBrace),
    ensures
        macro_definition(input, s) == (MacroOutcome {
            result: Some(MacroView { name, args, tokens: without_braces(tokens_of(body)) }),
            errors: seq![],
            rest,
        }),
{
    let d = declaration_len(args);
    lemma_declared_arguments(input, s.skip(2), args);
    assert(s.skip(2).skip(d) =~= s.skip(2 + d));
    let after = seq![open] + body + seq![close] + rest;
    assert(after.skip(1) =~= body + seq![close] + rest);
    lemma_balanced_body(input, body, close, rest);
}

} // verus!
