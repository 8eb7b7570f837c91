use crate::diag::{error_views, parser_error_at, ParserError, ParserErrorView};
use crate::lexer::{holds, Lexeme, Lexer};
use crate::token::{ArgumentType, FullArgument, MacroContent, MacroView, TokenKind};
use std::ops::Range;
use vstd::prelude::*;

verus! {

/// The macro-definition parser: the source text (kept for diagnostics), the
/// token stream positioned just after the macro keyword, and the diagnostics
/// recorded so far.
pub struct Parser<'a> {
    pub input: &'a str,
    pub lexer: Lexer,
    pub errors: Vec<ParserError>,
}

/// What reading one argument after its name does: the arguments gained (one
/// or none), the diagnostics recorded, the stream that is left, and whether
/// the argument list is given up.
pub struct ArgumentOutcome {
    pub args: Seq<FullArgument>,
    pub errors: Seq<ParserErrorView>,
    pub rest: Seq<Lexeme>,
    pub aborted: bool,
}

/// The message for a type name that names no type.
pub open spec fn invalid_type_message(ty: Seq<char>) -> Seq<char> {
    "argument type: "@ + ty + " is not valid"@
}

/// Reading `: TYPE` after the argument name `name` from the stream `s`.
///
/// A missing colon or a missing type name is reported at the offending token
/// and gives the argument list up. A type name that names no type is
/// reported and only this argument is dropped. At the end of input nothing is
/// reported.
pub open spec fn single_argument(input: Seq<char>, name: String, s: Seq<Lexeme>) -> ArgumentOutcome {
    if s.len() == 0 {
        ArgumentOutcome { args: seq![], errors: seq![], rest: s, aborted: false }
    } else if !holds(s[0], TokenKind::Colon) {
        ArgumentOutcome {
            args: seq![],
            errors: seq![
                parser_error_at(
                    input,
                    "expected a colon after argument name to denote type"@,
                    s[0].1,
                ),
            ],
            rest: s.skip(1),
            aborted: true,
        }
    } else if s.len() == 1 {
        ArgumentOutcome { args: seq![], errors: seq![], rest: s.skip(1), aborted: false }
    } else {
        match s[1].0 {
            Ok(TokenKind::Ident(ty)) => match ArgumentType::spec_from_string(ty@) {
                Some(arg_type) => ArgumentOutcome {
                    args: seq![FullArgument { name, arg_type }],
                    errors: seq![],
                    rest: s.skip(2),
                    aborted: false,
                },
                None => ArgumentOutcome {
                    args: seq![],
                    errors: seq![
                        parser_error_at(input, invalid_type_message(ty@), s[1].1),
                    ],
                    rest: s.skip(2),
                    aborted: false,
                },
            },
            _ => ArgumentOutcome {
                args: seq![],
                errors: seq![
                    parser_error_at(input, "did not find argument type after colon"@, s[1].1),
                ],
                rest: s.skip(2),
                aborted: true,
            },
        }
    }
}

/// What reading an argument list does: the arguments in declaration order,
/// the diagnostics recorded, the stream that is left, and whether the input
/// ran out before the list ended.
pub struct ListOutcome {
    pub args: Seq<FullArgument>,
    pub errors: Seq<ParserErrorView>,
    pub rest: Seq<Lexeme>,
    pub ended: bool,
}

/// Reading the argument list from the stream `s`, which starts just after
/// the opening parenthesis.
///
/// Whitespace, tabs and commas are skipped. An identifier starts an argument.
/// A closing parenthesis ends the list, and so does an argument that gives
/// the list up. Any other item is reported and skipped.
pub open spec fn argument_list(input: Seq<char>, s: Seq<Lexeme>) -> ListOutcome
    decreases s.len(),
{
    if s.len() == 0 {
        ListOutcome { args: seq![], errors: seq![], rest: s, ended: true }
    } else {
        match s[0].0 {
            Ok(TokenKind::Tab) | Ok(TokenKind::Whitespace) | Ok(TokenKind::Comma) => argument_list(
                input,
                s.skip(1),
            ),
            Ok(TokenKind::RightParen) => ListOutcome {
                args: seq![],
                errors: seq![],
                rest: s.skip(1),
                ended: false,
            },
            Ok(TokenKind::Ident(name)) => {
                let first = single_argument(input, name, s.skip(1));
                if first.aborted {
                    ListOutcome {
                        args: first.args,
                        errors: first.errors,
                        rest: first.rest,
                        ended: false,
                    }
                } else {
                    let others = argument_list(input, first.rest);
                    ListOutcome {
                        args: first.args + others.args,
                        errors: first.errors + others.errors,
                        rest: others.rest,
                        ended: others.ended,
                    }
                }
            },
            _ => {
                let others = argument_list(input, s.skip(1));
                ListOutcome {
                    args: others.args,
                    errors: seq![
                        parser_error_at(
                            input,
                            "expected a macro argument here, did not find"@,
                            s[0].1,
                        ),
                    ] + others.errors,
                    rest: others.rest,
                    ended: others.ended,
                }
            },
        }
    }
}

/// What capturing a macro body does: the tokens kept, the diagnostics
/// recorded, and the stream that is left.
pub struct BodyOutcome {
    pub tokens: Seq<TokenKind>,
    pub errors: Seq<ParserErrorView>,
    pub rest: Seq<Lexeme>,
}

/// Capturing a macro body from the stream `s` with `depth` braces open.
///
/// An opening brace adds one to the depth and a closing brace takes one off;
/// the closing brace that brings the depth to zero ends the body. Neither
/// kind of brace is kept. Every other token is kept as it is, an unreadable
/// item is reported and skipped, and the end of input ends the body with
/// nothing reported.
pub open spec fn body_capture(input: Seq<char>, s: Seq<Lexeme>, depth: nat) -> BodyOutcome
    decreases s.len(),
{
    if s.len() == 0 {
        BodyOutcome { tokens: seq![], errors: seq![], rest: s }
    } else {
        match s[0].0 {
            Ok(TokenKind::LeftBrace) => body_capture(input, s.skip(1), depth + 1),
            Ok(TokenKind::RightBrace) => if depth <= 1 {
                BodyOutcome { tokens: seq![], errors: seq![], rest: s.skip(1) }
            } else {
                body_capture(input, s.skip(1), (depth - 1) as nat)
            },
            Ok(token) => {
                let others = body_capture(input, s.skip(1), depth);
                BodyOutcome {
                    tokens: seq![token] + others.tokens,
                    errors: others.errors,
                    rest: others.rest,
                }
            },
            Err(_) => {
                let others = body_capture(input, s.skip(1), depth);
                BodyOutcome {
                    tokens: others.tokens,
                    errors: seq![
                        parser_error_at(input, "error/reached EOF in macro body"@, s[0].1),
                    ] + others.errors,
                    rest: others.rest,
                }
            },
        }
    }
}

/// What parsing a macro definition does: the macro, if one is emitted, the
/// diagnostics recorded, and the stream that is left.
pub struct MacroOutcome {
    pub result: Option<MacroView>,
    pub errors: Seq<ParserErrorView>,
    pub rest: Seq<Lexeme>,
}

/// Parsing `arglist ')' '{' body '}'` for the macro `name` from the stream
/// `s`, which starts just after the opening parenthesis.
///
/// The item after the argument list must be an opening brace; anything else
/// is reported and no macro is emitted. If the input runs out before the
/// brace, no macro is emitted and nothing more is reported.
pub open spec fn macro_after_name(input: Seq<char>, name: String, s: Seq<Lexeme>) -> MacroOutcome {
    let list = argument_list(input, s);
    if list.ended || list.rest.len() == 0 {
        MacroOutcome { result: None, errors: list.errors, rest: list.rest }
    } else if holds(list.rest[0], TokenKind::LeftBrace) {
        let body = body_capture(input, list.rest.skip(1), 1);
        MacroOutcome {
            result: Some(MacroView { name, args: list.args, tokens: body.tokens }),
            errors: list.errors + body.errors,
            rest: body.rest,
        }
    } else {
        MacroOutcome {
            result: None,
            errors: list.errors + seq![
                parser_error_at(
                    input,
                    "did not find open brace to start macro body"@,
                    list.rest[0].1,
                ),
            ],
            rest: list.rest.skip(1),
        }
    }
}

/// Parsing `IDENT '(' arglist ')' '{' body '}'` from the stream `s`, which
/// starts just after the macro keyword.
///
/// A first item that is no identifier, or a second that is no opening
/// parenthesis, is reported and no macro is emitted.
pub open spec fn macro_definition(input: Seq<char>, s: Seq<Lexeme>) -> MacroOutcome {
    if s.len() == 0 {
        MacroOutcome { result: None, errors: seq![], rest: s }
    } else {
        match s[0].0 {
            Ok(TokenKind::Ident(name)) => if s.len() == 1 {
                MacroOutcome { result: None, errors: seq![], rest: s.skip(1) }
            } else if holds(s[1], TokenKind::LeftParen) {
                macro_after_name(input, name, s.skip(2))
            } else {
                MacroOutcome {
                    result: None,
                    errors: seq![
                        parser_error_at(
                            input,
                            "didn't find open parantheses after macro name"@,
                            s[1].1,
                        ),
                    ],
                    rest: s.skip(2),
                }
            },
            _ => MacroOutcome {
                result: None,
                errors: seq![parser_error_at(input, "the macro needs a name"@, s[0].1)],
                rest: s.skip(1),
            },
        }
    }
}

/// That the returned tokens are exactly what `result` says: nothing, or the
/// one macro token.
pub open spec fn emits(tokens: Seq<TokenKind>, result: Option<MacroView>) -> bool {
    match result {
        None => tokens.len() == 0,
        Some(m) => tokens.len() == 1 && (tokens[0] matches TokenKind::Macro(c) && c@ == m),
    }
}

impl<'a> Parser<'a> {
    /// A parser for `input` whose tokens after the macro keyword are `lexer`.
    pub fn new(input: &'a str, lexer: Lexer) -> (parser: Parser<'a>)
        ensures
            parser.input == input,
            parser.lexer == lexer,
            parser.errors@ == Seq::<ParserError>::empty(),
    {
        Parser { input, lexer, errors: Vec::new() }
    }

    /// That `self` came from `before` by going from the stream `before.lexer`
    /// to `rest` and recording `errors` after the diagnostics already there.
    pub open spec fn advanced_from(
        &self,
        before: &Parser<'a>,
        rest: Seq<Lexeme>,
        errors: Seq<ParserErrorView>,
    ) -> bool {
        &&& self.input == before.input
        &&& self.lexer.remaining() == rest
        &&& self.errors@.len() == before.errors@.len() + errors.len()
        &&& self.errors@.take(before.errors@.len() as int) == before.errors@
        &&& error_views(self.errors@.skip(before.errors@.len() as int)) == errors
    }

    fn report(&mut self, message: String, span: &Range<usize>)
        ensures
            final(self).advanced_from(
                old(self),
                old(self).lexer.remaining(),
                seq![parser_error_at(old(self).input@, message@, *span)],
            ),
    {
        let error = ParserError {
            input: self.input.to_owned(),
            message,
            line: span.start,
            column: span.end,
        };
        self.errors.push(error);
        proof {
            let n = old(self).errors@.len() as int;
            assert(self.errors@.take(n) =~= old(self).errors@);
            assert(error_views(self.errors@.skip(n)) =~= seq![
                parser_error_at(old(self).input@, message@, *span),
            ]);
        }
    }

    /// Reads `: TYPE` after an argument's name. Returns the argument, if it
    /// was read, and whether the argument list is given up.
    pub fn parse_single_macro_argument(&mut self, arg_name: String) -> (r: (
        Vec<FullArgument>,
        bool,
    ))
        ensures
            ({
                let out = single_argument(old(self).input@, arg_name, old(self).lexer.remaining());
                &&& final(self).advanced_from(old(self), out.rest, out.errors)
                &&& r.0@ == out.args
                &&& r.1 == out.aborted
            }),
    {
        let mut args: Vec<FullArgument> = Vec::new();
        let (val, loc) = match self.lexer.next() {
            Some((v, l)) => (v, l),
            None => {
                proof {
                    self.lemma_unchanged();
                }
                return (args, false);
            },
        };
        match val {
            Ok(TokenKind::Colon) => {
                let (val, loc) = match self.lexer.next() {
                    Some((v, l)) => (v, l),
                    None => {
                        proof {
                            self.lemma_unchanged();
                        }
                        return (args, false);
                    },
                };
                assert(old(self).lexer.remaining().skip(1).skip(1) =~= old(
                    self,
                ).lexer.remaining().skip(2));
                match val {
                    Ok(TokenKind::Ident(arg_type_str)) => {
                        match ArgumentType::from_string(arg_type_str.as_str()) {
                            Some(arg_type) => {
                                args.push(FullArgument { name: arg_name, arg_type });
                                proof {
                                    self.lemma_unchanged();
                                }
                                (args, false)
                            },
                            None => {
                                let message = "argument type: ".to_owned().concat(
                                    arg_type_str.as_str(),
                                ).concat(" is not valid");
                                self.report(message, &loc);
                                (args, false)
                            },
                        }
                    },
                    _ => {
                        self.report("did not find argument type after colon".to_owned(), &loc);
                        (args, true)
                    },
                }
            },
            _ => {
                self.report(
                    "expected a colon after argument name to denote type".to_owned(),
                    &loc,
                );
                (args, true)
            },
        }
    }

    /// Reads the argument list, the opening brace and the body of the macro
    /// `name`, from just after the opening parenthesis. Returns the macro
    /// token, or nothing where the definition is given up.
    pub fn parse_macro_arguments(&mut self, name: String) -> (tokens: Vec<TokenKind>)
        ensures
            ({
                let out = macro_after_name(old(self).input@, name, old(self).lexer.remaining());
                &&& final(self).advanced_from(old(self), out.rest, out.errors)
                &&& emits(tokens@, out.result)
            }),
    {
        let mut tokens: Vec<TokenKind> = Vec::new();
        let mut args: Vec<FullArgument> = Vec::new();
        let ghost input = self.input@;
        let ghost start = self.lexer.remaining();
        let ghost n0 = self.errors@.len() as int;
        proof {
            self.lemma_unchanged();
        }
        loop
            invariant_except_break
                self.input == old(self).input,
                start == old(self).lexer.remaining(),
                n0 == old(self).errors@.len(),
                n0 <= self.errors@.len(),
                self.errors@.take(n0) == old(self).errors@,
                input == self.input@,
                tokens@.len() == 0,
                ({
                    let r = argument_list(input, self.lexer.remaining());
                    argument_list(input, start) == ListOutcome {
                        args: args@ + r.args,
                        errors: error_views(self.errors@.skip(n0)) + r.errors,
                        rest: r.rest,
                        ended: r.ended,
                    }
                }),
            ensures
                self.input == old(self).input,
                n0 == old(self).errors@.len(),
                n0 <= self.errors@.len(),
                self.errors@.take(n0) == old(self).errors@,
                input == self.input@,
                tokens@.len() == 0,
                argument_list(input, start) == (ListOutcome {
                    args: args@,
                    errors: error_views(self.errors@.skip(n0)),
                    rest: self.lexer.remaining(),
                    ended: false,
                }),
            decreases self.lexer.remaining().len(),
        {
            let ghost here = self.lexer.remaining();
            let ghost seen = error_views(self.errors@.skip(n0));
            let ghost mid = self.errors@;
            let (val, l) = match self.lexer.next() {
                Some((v, l)) => (v, l),
                None => {
                    return tokens;
                },
            };
            match val {
                Ok(TokenKind::Tab) | Ok(TokenKind::Whitespace) | Ok(TokenKind::Comma) => {},
                Ok(TokenKind::Ident(arg_name)) => {
                    let ghost first = single_argument(input, arg_name, here.skip(1));
                    let (mut found, aborted) = self.parse_single_macro_argument(arg_name);
                    let ghost before = args@;
                    args.append(&mut found);
                    proof {
                        lemma_errors_extend(mid, self.errors@, n0, first.errors);
                        if !aborted {
                            let others = argument_list(input, first.rest);
                            assert(args@ + others.args =~= before + (first.args + others.args));
                            assert((seen + first.errors) + others.errors =~= seen + (first.errors
                                + others.errors));
                        }
                    }
                    if aborted {
                        break ;
                    }
                },
                Ok(TokenKind::RightParen) => {
                    break ;
                },
                _ => {
                    let ghost stray = parser_error_at(
                        input,
                        "expected a macro argument here, did not find"@,
                        l,
                    );
                    self.report("expected a macro argument here, did not find".to_owned(), &l);
                    proof {
                        lemma_errors_extend(mid, self.errors@, n0, seq![stray]);
                        let others = argument_list(input, here.skip(1));
                        assert((seen + seq![stray]) + others.errors =~= seen + (seq![stray]
                            + others.errors));
                    }
                },
            }
        }
        let ghost listed = self.errors@;
        proof {
            self.lexer.lemma_remaining_bounded();
        }
        let (val, loc) = match self.lexer.next() {
            Some((v, l)) => (v, l),
            None => {
                return tokens;
            },
        };
        match val {
            Ok(TokenKind::LeftBrace) => {
                let ghost opened = self.lexer.remaining();
                let mut brace_count: usize = 1;
                let mut macro_tokens: Vec<TokenKind> = Vec::new();
                loop
                    invariant_except_break
                        self.input == old(self).input,
                        n0 == old(self).errors@.len(),
                        n0 <= self.errors@.len(),
                        self.errors@.take(n0) == old(self).errors@,
                        input == self.input@,
                        brace_count >= 1,
                        brace_count + self.lexer.remaining().len() <= opened.len() + 1,
                        opened.len() < usize::MAX,
                        ({
                            let r = body_capture(
                                input,
                                self.lexer.remaining(),
                                brace_count as nat,
                            );
                            body_capture(input, opened, 1) == BodyOutcome {
                                tokens: macro_tokens@ + r.tokens,
                                errors: error_views(self.errors@.skip(listed.len() as int))
                                    + r.errors,
                                rest: r.rest,
                            }
                        }),
                        listed.len() <= self.errors@.len(),
                        self.errors@.take(listed.len() as int) == listed,
                    ensures
                        self.input == old(self).input,
                        n0 <= self.errors@.len(),
                        self.errors@.take(n0) == old(self).errors@,
                        listed.len() <= self.errors@.len(),
                        self.errors@.take(listed.len() as int) == listed,
                        body_capture(input, opened, 1) == (BodyOutcome {
                            tokens: macro_tokens@,
                            errors: error_views(self.errors@.skip(listed.len() as int)),
                            rest: self.lexer.remaining(),
                        }),
                    decreases self.lexer.remaining().len(),
                {
                    let ghost here = self.lexer.remaining();
                    let ghost seen = error_views(self.errors@.skip(listed.len() as int));
                    let ghost mid = self.errors@;
                    let ghost kept = macro_tokens@;
                    let (tok, span) = match self.lexer.next() {
                        Some((t, s)) => (t, s),
                        None => {
                            break ;
                        },
                    };
                    match tok {
                        Ok(TokenKind::LeftBrace) => {
                            brace_count += 1;
                        },
                        Ok(TokenKind::RightBrace) => {
                            brace_count -= 1;
                            if brace_count == 0 {
                                break ;
                            }
                        },
                        Ok(t) => {
                            macro_tokens.push(t);
                            proof {
                                let others = body_capture(input, here.skip(1), brace_count as nat);
                                assert(macro_tokens@ + others.tokens =~= kept + (seq![t]
                                    + others.tokens));
                            }
                        },
                        _ => {
                            let ghost bad = parser_error_at(
                                input,
                                "error/reached EOF in macro body"@,
                                span,
                            );
                            self.report("error/reached EOF in macro body".to_owned(), &span);
                            proof {
                                lemma_errors_extend(
                                    mid,
                                    self.errors@,
                                    listed.len() as int,
                                    seq![bad],
                                );
                                lemma_errors_extend(mid, self.errors@, n0, seq![bad]);
                                let others = body_capture(input, here.skip(1), brace_count as nat);
                                assert((seen + seq![bad]) + others.errors =~= seen + (seq![bad]
                                    + others.errors));
                            }
                        },
                    }
                }
                proof {
                    let body = body_capture(input, opened, 1);
                    lemma_errors_extend(listed, self.errors@, n0, body.errors);
                }
                tokens.push(TokenKind::Macro(MacroContent { name, args, tokens: macro_tokens }));
            },
            _ => {
                let ghost missing = parser_error_at(
                    input,
                    "did not find open brace to start macro body"@,
                    loc,
                );
                self.report("did not find open brace to start macro body".to_owned(), &loc);
                proof {
                    lemma_errors_extend(listed, self.errors@, n0, seq![missing]);
                }
            },
        }
        tokens
    }

    /// Parses one macro definition from just after the macro keyword.
    ///
    /// Returns the macro token, or nothing where the definition is given up;
    /// every malformed construct met on the way is recorded in `errors`.
    pub fn parse_single_macro(&mut self) -> (tokens: Vec<TokenKind>)
        ensures
            ({
                let out = macro_definition(old(self).input@, old(self).lexer.remaining());
                &&& final(self).advanced_from(old(self), out.rest, out.errors)
                &&& emits(tokens@, out.result)
            }),
    {
        let tokens: Vec<TokenKind> = Vec::new();
        proof {
            self.lemma_unchanged();
        }
        let (val, loc) = match self.lexer.next() {
            Some((v, l)) => (v, l),
            None => {
                return tokens;
            },
        };
        let name = if let Ok(TokenKind::Ident(v)) = val {
            v
        } else {
            self.report("the macro needs a name".to_owned(), &loc);
            return tokens;
        };
        let (val, loc) = match self.lexer.next() {
            Some((v, l)) => (v, l),
            None => {
                return tokens;
            },
        };
        assert(old(self).lexer.remaining().skip(1).skip(1) =~= old(self).lexer.remaining().skip(
            2,
        ));
        match val {
            Ok(TokenKind::LeftParen) => self.parse_macro_arguments(name),
            _ => {
                self.report("didn't find open parantheses after macro name".to_owned(), &loc);
                tokens
            },
        }
    }

    proof fn lemma_unchanged(&self)
        ensures
            self.errors@.take(self.errors@.len() as int) == self.errors@,
            error_views(self.errors@.skip(self.errors@.len() as int)) == Seq::<
                ParserErrorView,
            >::empty(),
    {
    }
}

/// Diagnostics recorded after `mid` extend what was recorded after any
/// earlier point `n0` of `mid`.
proof fn lemma_errors_extend(
    mid: Seq<ParserError>,
    now: Seq<ParserError>,
    n0: int,
    added: Seq<ParserErrorView>,
)
    requires
        0 <= n0 <= mid.len() <= now.len(),
        now.take(mid.len() as int) == mid,
        error_views(now.skip(mid.len() as int)) == added,
    ensures
        now.take(n0) == mid.take(n0),
        error_views(now.skip(n0)) == error_views(mid.skip(n0)) + added,
{
    assert(now.skip(n0) =~= mid.skip(n0) + now.skip(mid.len() as int));
}

} // verus!
