use asm_frontend::diag::DirectiveError;
use asm_frontend::directive_proc::{
    can_process_directives, can_process_start, directive_of, locate_start, process_directives,
    process_start, step_at, try_process_directives, try_process_start, DirectiveKind, Step,
    Token, DEFAULT_START,
};
use asm_frontend::labels::{LabelEntry, LabelTable};
use asm_frontend::token::TokenKind;

/// Token `k` of the unit comes from `unit.s` and covers `10 * k .. 10 * k + 3`.
fn unit(tokens: Vec<TokenKind>) -> Vec<Token> {
    let mut out = Vec::new();
    let mut k = 0usize;
    for t in tokens {
        out.push(("unit.s".to_string(), t, 10 * k..10 * k + 3));
        k += 1;
    }
    out
}

fn dir(name: &str) -> TokenKind {
    TokenKind::Directive(name.to_string())
}

fn label(name: &str) -> TokenKind {
    TokenKind::Label(name.to_string())
}

fn instr(name: &str) -> TokenKind {
    TokenKind::Instruction(name.to_string())
}

fn error(message: &str, k: usize) -> DirectiveError {
    DirectiveError {
        filename: "unit.s".to_string(),
        span: 10 * k..10 * k + 3,
        message: message.to_string(),
    }
}

fn address(table: &LabelTable, name: &str) -> Option<usize> {
    table.get(name).map(|e| e.address)
}

fn kinds(toks: &Vec<Token>) -> Vec<&TokenKind> {
    toks.iter().map(|t| &t.1).collect()
}

struct Run {
    toks: Vec<Token>,
    errors: Vec<DirectiveError>,
    count: i32,
    table: LabelTable,
}

fn run(tokens: Vec<TokenKind>) -> Run {
    let mut toks = unit(tokens);
    let mut count = 0;
    let mut table = LabelTable::new();
    assert!(can_process_start(&toks, count, &table));
    let errors = process_start(&mut toks, &mut count, &mut table);
    Run { toks, errors, count, table }
}

#[test]
fn start_sets_the_address_of_the_first_label() {
    let r = run(vec![
        dir("start"),
        TokenKind::IntLit(200),
        label("entry"),
        instr("nop"),
        label("next"),
        instr("hlt"),
    ]);
    assert_eq!(r.errors, vec![]);
    assert_eq!(r.count, 0);
    assert_eq!(address(&r.table, "entry"), Some(200));
    assert_eq!(address(&r.table, "next"), Some(201));
    assert_eq!(r.table.len(), 2);
}

#[test]
fn base_address_defaults_to_one_hundred() {
    assert_eq!(DEFAULT_START, 100);
    let r = run(vec![label("a"), instr("nop"), TokenKind::Newline, instr("nop"), label("b")]);
    assert_eq!(r.errors, vec![]);
    assert_eq!(address(&r.table, "a"), Some(100));
    assert_eq!(address(&r.table, "b"), Some(102));
}

#[test]
fn second_start_is_reported_and_first_value_stands() {
    let r = run(vec![
        dir("start"),
        TokenKind::IntLit(300),
        label("a"),
        instr("nop"),
        dir("start"),
        TokenKind::IntLit(500),
        label("b"),
    ]);
    assert_eq!(r.errors, vec![error(".start directive can only be declared once", 4)]);
    assert_eq!(r.count, 1);
    assert_eq!(address(&r.table, "a"), Some(300));
    assert_eq!(address(&r.table, "b"), Some(301));
}

#[test]
fn third_start_is_never_reached() {
    let r = run(vec![
        dir("start"),
        TokenKind::IntLit(1),
        dir("start"),
        TokenKind::IntLit(2),
        dir("start"),
        TokenKind::IntLit(3),
        label("a"),
    ]);
    assert_eq!(r.errors, vec![error(".start directive can only be declared once", 2)]);
    assert_eq!(r.count, 1);
    assert_eq!(address(&r.table, "a"), Some(1));
}

#[test]
fn start_without_integer_is_reported_and_default_stands() {
    let r = run(vec![dir("start"), TokenKind::Newline, label("a"), instr("nop"), label("b")]);
    assert_eq!(
        r.errors,
        vec![error(".start directive must be succeeded by integer literal", 0)]
    );
    assert_eq!(r.count, 1);
    assert_eq!(address(&r.table, "a"), Some(100));
    assert_eq!(address(&r.table, "b"), Some(101));
}

#[test]
fn start_at_the_end_of_the_unit_is_reported() {
    let r = run(vec![label("a"), dir("start")]);
    assert_eq!(
        r.errors,
        vec![error(".start directive must be succeeded by integer literal", 1)]
    );
    assert_eq!(address(&r.table, "a"), Some(100));
}

#[test]
fn start_may_stand_anywhere_in_the_unit() {
    let r = run(vec![label("a"), instr("nop"), dir("start"), TokenKind::IntLit(40), label("b")]);
    assert_eq!(r.errors, vec![]);
    assert_eq!(address(&r.table, "a"), Some(40));
    assert_eq!(address(&r.table, "b"), Some(41));
}

#[test]
fn pad_then_word_advance_by_four_then_one() {
    let r = run(vec![
        label("base"),
        dir("pad"),
        TokenKind::IntLit(4),
        label("after_pad"),
        dir("word"),
        TokenKind::Ident("x".to_string()),
        label("after_word"),
    ]);
    assert_eq!(r.errors, vec![]);
    assert_eq!(address(&r.table, "base"), Some(100));
    assert_eq!(address(&r.table, "after_pad"), Some(104));
    assert_eq!(address(&r.table, "after_word"), Some(105));
}

#[test]
fn word_takes_an_integer_literal_too() {
    let r = run(vec![dir("word"), TokenKind::IntLit(70000), label("a")]);
    assert_eq!(r.errors, vec![]);
    assert_eq!(address(&r.table, "a"), Some(101));
}

#[test]
fn asciiz_advances_by_the_length_of_the_string() {
    let r = run(vec![
        dir("asciiz"),
        TokenKind::StringLit("hi".to_string()),
        label("a"),
        dir("asciiz"),
        TokenKind::StringLit(String::new()),
        label("b"),
        dir("asciiz"),
        TokenKind::StringLit("h\u{e9}llo".to_string()),
        label("c"),
    ]);
    assert_eq!(r.errors, vec![]);
    assert_eq!(address(&r.table, "a"), Some(102));
    assert_eq!(address(&r.table, "b"), Some(102));
    assert_eq!(address(&r.table, "c"), Some(108));
}

#[test]
fn malformed_pad_halts_the_layout_pass() {
    let r = run(vec![
        label("before"),
        instr("nop"),
        dir("pad"),
        TokenKind::Ident("four".to_string()),
        label("after"),
        instr("nop"),
        label("last"),
    ]);
    assert_eq!(r.errors, vec![error(".pad directive must be succeeded by literal", 2)]);
    assert_eq!(r.count, 1);
    assert_eq!(address(&r.table, "before"), Some(100));
    assert_eq!(address(&r.table, "after"), None);
    assert_eq!(address(&r.table, "last"), None);
    assert_eq!(r.table.len(), 1);
}

#[test]
fn pad_at_the_end_of_the_unit_is_malformed() {
    let r = run(vec![label("a"), dir("pad")]);
    assert_eq!(r.errors, vec![error(".pad directive must be succeeded by literal", 1)]);
    assert_eq!(address(&r.table, "a"), Some(100));
}

#[test]
fn malformed_word_halts_the_layout_pass() {
    let r = run(vec![dir("word"), TokenKind::StringLit("x".to_string()), label("a")]);
    assert_eq!(r.errors, vec![error(".word directive must be succeeded by literal", 0)]);
    assert_eq!(r.count, 1);
    assert_eq!(address(&r.table, "a"), None);
}

#[test]
fn malformed_asciiz_halts_the_layout_pass() {
    let r = run(vec![dir("asciiz"), TokenKind::IntLit(3), label("a")]);
    assert_eq!(r.errors, vec![error(".asciiz directive must be succeeded by string", 0)]);
    assert_eq!(r.count, 1);
    assert_eq!(address(&r.table, "a"), None);
}

#[test]
fn unrecognized_directive_halts_the_layout_pass() {
    let r = run(vec![label("a"), dir("align"), TokenKind::IntLit(4), label("b")]);
    assert_eq!(r.errors, vec![error("unrecognized directive align", 1)]);
    assert_eq!(r.count, 1);
    assert_eq!(address(&r.table, "a"), Some(100));
    assert_eq!(address(&r.table, "b"), None);
}

#[test]
fn unrecognized_token_halts_the_layout_pass() {
    let r = run(vec![label("a"), instr("nop"), TokenKind::Comma, label("b")]);
    assert_eq!(r.errors, vec![error("unrecognized token", 2)]);
    assert_eq!(r.count, 1);
    assert_eq!(address(&r.table, "b"), None);
    let r = run(vec![TokenKind::IntLit(4)]);
    assert_eq!(r.errors, vec![error("unrecognized token", 0)]);
}

#[test]
fn both_passes_can_report() {
    let r = run(vec![
        dir("start"),
        TokenKind::IntLit(10),
        dir("start"),
        label("a"),
        TokenKind::Colon,
        label("b"),
    ]);
    assert_eq!(
        r.errors,
        vec![
            error(".start directive can only be declared once", 2),
            error("unrecognized token", 4),
        ]
    );
    assert_eq!(r.count, 2);
    assert_eq!(address(&r.table, "a"), Some(10));
    assert_eq!(address(&r.table, "b"), None);
}

#[test]
fn directive_names_are_trimmed_in_the_layout_pass() {
    let r = run(vec![
        dir(" pad\t"),
        TokenKind::IntLit(3),
        label("a"),
        dir("word "),
        TokenKind::IntLit(0),
        label("b"),
        dir("\nasciiz"),
        TokenKind::StringLit("abc".to_string()),
        label("c"),
    ]);
    assert_eq!(r.errors, vec![]);
    assert_eq!(address(&r.table, "a"), Some(103));
    assert_eq!(address(&r.table, "b"), Some(104));
    assert_eq!(address(&r.table, "c"), Some(107));
}

#[test]
fn start_is_matched_literally_when_the_base_address_is_sought() {
    // " start" is no `.start` for the search, but the layout pass knows it
    // and passes over its literal.
    let r = run(vec![dir(" start"), TokenKind::IntLit(7), label("a")]);
    assert_eq!(r.errors, vec![]);
    assert_eq!(address(&r.table, "a"), Some(100));
}

#[test]
fn unrecognized_directive_message_keeps_the_name_untrimmed() {
    let r = run(vec![dir(" org ")]);
    assert_eq!(r.errors, vec![error("unrecognized directive  org ", 0)]);
}

#[test]
fn integer_after_a_lone_start_is_not_skipped_twice() {
    // `.start` takes the literal behind it and nothing more.
    let r = run(vec![dir("start"), TokenKind::IntLit(5), TokenKind::IntLit(6), label("a")]);
    assert_eq!(r.errors, vec![error("unrecognized token", 2)]);
    assert_eq!(address(&r.table, "a"), None);
}

#[test]
fn label_tokens_are_stripped_and_the_rest_keeps_its_order() {
    let r = run(vec![
        label("a"),
        dir("start"),
        TokenKind::IntLit(1),
        label("b"),
        label("c"),
        instr("nop"),
        TokenKind::Newline,
        label("d"),
    ]);
    assert_eq!(
        kinds(&r.toks),
        vec![&dir("start"), &TokenKind::IntLit(1), &instr("nop"), &TokenKind::Newline]
    );
    assert_eq!(r.toks[0].2, 10..13);
    assert_eq!(r.toks[2].2, 50..53);
    assert_eq!(r.toks[2].0, "unit.s");
}

#[test]
fn label_tokens_are_stripped_after_a_halt_too() {
    let r = run(vec![label("a"), TokenKind::Comma, label("b"), instr("nop"), label("c")]);
    assert_eq!(r.errors.len(), 1);
    assert_eq!(kinds(&r.toks), vec![&TokenKind::Comma, &instr("nop")]);
    assert!(r.toks.iter().all(|t| !matches!(t.1, TokenKind::Label(_))));
    assert_eq!(address(&r.table, "a"), Some(100));
    assert_eq!(address(&r.table, "b"), None);
}

#[test]
fn empty_unit() {
    let r = run(vec![]);
    assert_eq!(r.errors, vec![]);
    assert_eq!(r.count, 0);
    assert_eq!(r.toks.len(), 0);
    assert_eq!(r.table.len(), 0);
}

#[test]
fn later_definition_of_a_label_replaces_the_earlier() {
    let r = run(vec![label("a"), instr("nop"), instr("nop"), label("a")]);
    assert_eq!(r.errors, vec![]);
    assert_eq!(r.table.len(), 1);
    assert_eq!(
        r.table.get("a"),
        Some(&LabelEntry { filename: "unit.s".to_string(), span: 30..33, address: 102 })
    );
}

#[test]
fn table_persists_across_units_until_cleared() {
    let mut table = LabelTable::new();
    let mut count = 0;
    let mut first = unit(vec![label("a"), instr("nop")]);
    process_start(&mut first, &mut count, &mut table);
    let mut second = unit(vec![dir("start"), TokenKind::IntLit(7), instr("nop"), label("b")]);
    process_start(&mut second, &mut count, &mut table);
    assert_eq!(address(&table, "a"), Some(100));
    assert_eq!(address(&table, "b"), Some(8));
    assert_eq!(table.len(), 2);
    table.clear();
    assert_eq!(table.len(), 0);
    assert_eq!(address(&table, "a"), None);
}

#[test]
fn error_count_is_added_to() {
    let mut toks = unit(vec![dir("start"), TokenKind::Comma]);
    let mut count = 40;
    let mut table = LabelTable::new();
    assert!(can_process_start(&toks, count, &table));
    let errors = process_start(&mut toks, &mut count, &mut table);
    assert_eq!(errors.len(), 2);
    assert_eq!(count, 42);
}

#[test]
fn process_directives_lays_out_from_the_given_address() {
    let toks = unit(vec![
        dir("start"),
        TokenKind::IntLit(900),
        label("a"),
        dir("pad"),
        TokenKind::IntLit(-3),
        label("b"),
        dir("bogus"),
        label("c"),
    ]);
    let mut count = 5;
    let mut table = LabelTable::new();
    assert!(can_process_directives(&toks, count, 20, &table));
    let errors = process_directives(&toks, &mut count, 20, &mut table);
    assert_eq!(errors, vec![error("unrecognized directive bogus", 6)]);
    assert_eq!(count, 6);
    assert_eq!(address(&table, "a"), Some(20));
    assert_eq!(address(&table, "b"), Some(17));
    assert_eq!(address(&table, "c"), None);
    assert_eq!(toks.len(), 8);
}

#[test]
fn layout_that_does_not_fit_is_refused() {
    let table = LabelTable::new();
    // the counter would pass the largest i64
    let toks = unit(vec![dir("pad"), TokenKind::IntLit(i64::MAX), instr("nop")]);
    assert!(!can_process_start(&toks, 0, &table));
    let toks = unit(vec![dir("start"), TokenKind::IntLit(i64::MAX), dir("word"), TokenKind::IntLit(1)]);
    assert!(!can_process_start(&toks, 0, &table));
    let toks = unit(vec![dir("start"), TokenKind::IntLit(i64::MAX - 1), dir("asciiz"), TokenKind::StringLit("ab".to_string())]);
    assert!(!can_process_start(&toks, 0, &table));
    let toks = unit(vec![dir("start"), TokenKind::IntLit(i64::MIN), dir("pad"), TokenKind::IntLit(-1)]);
    assert!(!can_process_start(&toks, 0, &table));
    // a label at a negative address
    let toks = unit(vec![dir("start"), TokenKind::IntLit(-1), label("a")]);
    assert!(!can_process_start(&toks, 0, &table));
    assert!(!can_process_directives(&toks, 0, -1, &table));
    // the same units fit without the offending token
    let toks = unit(vec![dir("pad"), TokenKind::IntLit(i64::MAX - 100)]);
    assert!(can_process_start(&toks, 0, &table));
    let toks = unit(vec![dir("start"), TokenKind::IntLit(-1), instr("nop"), label("a")]);
    assert!(can_process_start(&toks, 0, &table));
    // a halt before the offending token
    let toks = unit(vec![TokenKind::Comma, dir("pad"), TokenKind::IntLit(i64::MAX)]);
    assert!(can_process_start(&toks, 0, &table));
}

#[test]
fn full_error_count_is_refused_only_where_something_is_reported() {
    let table = LabelTable::new();
    let clean = unit(vec![label("a"), instr("nop")]);
    assert!(can_process_start(&clean, i32::MAX, &table));
    let one = unit(vec![TokenKind::Comma]);
    assert!(!can_process_start(&one, i32::MAX, &table));
    assert!(can_process_start(&one, i32::MAX - 1, &table));
    let two = unit(vec![dir("start"), TokenKind::Comma]);
    assert!(!can_process_start(&two, i32::MAX - 1, &table));
    assert!(can_process_start(&two, i32::MAX - 2, &table));
    assert!(!can_process_directives(&one, i32::MAX, 0, &table));
    assert!(can_process_directives(&clean, i32::MAX, 0, &table));
}

#[test]
fn label_table_operations() {
    let mut table = LabelTable::new();
    assert_eq!(table.len(), 0);
    assert_eq!(table.get("a"), None);
    table.insert(
        "a".to_string(),
        LabelEntry { filename: "x.s".to_string(), span: 1..2, address: 5 },
    );
    table.insert(
        "b".to_string(),
        LabelEntry { filename: "x.s".to_string(), span: 3..4, address: 6 },
    );
    table.insert(
        "a".to_string(),
        LabelEntry { filename: "y.s".to_string(), span: 7..8, address: 9 },
    );
    assert_eq!(table.len(), 2);
    assert_eq!(
        table.get("a"),
        Some(&LabelEntry { filename: "y.s".to_string(), span: 7..8, address: 9 })
    );
    assert_eq!(address(&table, "b"), Some(6));
    table.clear();
    assert_eq!(table.len(), 0);
}

#[test]
fn try_process_start_runs_where_the_layout_fits() {
    let mut toks = unit(vec![label("a"), dir("pad"), TokenKind::IntLit(2), label("b"), dir("x")]);
    let mut count = 3;
    let mut table = LabelTable::new();
    let errors = try_process_start(&mut toks, &mut count, &mut table);
    assert_eq!(errors, Some(vec![error("unrecognized directive x", 4)]));
    assert_eq!(count, 4);
    assert_eq!(address(&table, "a"), Some(100));
    assert_eq!(address(&table, "b"), Some(102));
    assert_eq!(kinds(&toks), vec![&dir("pad"), &TokenKind::IntLit(2), &dir("x")]);
}

#[test]
fn try_process_start_leaves_everything_where_the_layout_does_not_fit() {
    let mut toks = unit(vec![label("a"), dir("pad"), TokenKind::IntLit(i64::MAX), label("b")]);
    let mut count = 3;
    let mut table = LabelTable::new();
    assert_eq!(try_process_start(&mut toks, &mut count, &mut table), None);
    assert_eq!(count, 3);
    assert_eq!(table.len(), 0);
    assert_eq!(
        kinds(&toks),
        vec![&label("a"), &dir("pad"), &TokenKind::IntLit(i64::MAX), &label("b")]
    );
}

#[test]
fn try_process_directives_runs_or_leaves_everything() {
    let toks = unit(vec![instr("nop"), label("a")]);
    let mut count = 0;
    let mut table = LabelTable::new();
    assert_eq!(try_process_directives(&toks, &mut count, i64::MAX, &mut table), None);
    assert_eq!(try_process_directives(&toks, &mut count, -1, &mut table), Some(vec![]));
    assert_eq!(address(&table, "a"), Some(0));
    assert_eq!(try_process_directives(&toks, &mut count, -2, &mut table), None);
    assert_eq!(address(&table, "a"), Some(0));
    assert_eq!(count, 0);
}

#[test]
fn directive_names() {
    assert_eq!(directive_of("start"), DirectiveKind::Start);
    assert_eq!(directive_of("pad"), DirectiveKind::Pad);
    assert_eq!(directive_of("word"), DirectiveKind::Word);
    assert_eq!(directive_of("asciiz"), DirectiveKind::Asciiz);
    assert_eq!(directive_of("ascii"), DirectiveKind::Unknown);
    assert_eq!(directive_of("Pad"), DirectiveKind::Unknown);
    assert_eq!(directive_of(" pad"), DirectiveKind::Unknown);
    assert_eq!(directive_of(""), DirectiveKind::Unknown);
}

#[test]
fn step_of_each_token() {
    let toks = unit(vec![
        label("a"),
        TokenKind::Newline,
        instr("nop"),
        dir("start"),
        TokenKind::IntLit(9),
        dir("start"),
        dir("pad"),
        TokenKind::IntLit(-7),
        dir("word"),
        TokenKind::Ident("x".to_string()),
        dir("asciiz"),
        TokenKind::StringLit("abcd".to_string()),
        dir("pad"),
        dir("nope"),
        TokenKind::LeftBrace,
    ]);
    let advance = |size: i128, operand: bool| Step::Advance { size, operand };
    let halt = |message: &str| Step::Halt { message: message.to_string() };
    assert_eq!(step_at(&toks, 0), advance(0, false));
    assert_eq!(step_at(&toks, 1), advance(0, false));
    assert_eq!(step_at(&toks, 2), advance(1, false));
    assert_eq!(step_at(&toks, 3), advance(0, true));
    assert_eq!(step_at(&toks, 4), halt("unrecognized token"));
    assert_eq!(step_at(&toks, 5), advance(0, false));
    assert_eq!(step_at(&toks, 6), advance(-7, true));
    assert_eq!(step_at(&toks, 8), advance(1, true));
    assert_eq!(step_at(&toks, 9), halt("unrecognized token"));
    assert_eq!(step_at(&toks, 10), advance(4, true));
    assert_eq!(step_at(&toks, 11), halt("unrecognized token"));
    assert_eq!(step_at(&toks, 12), halt(".pad directive must be succeeded by literal"));
    assert_eq!(step_at(&toks, 13), halt("unrecognized directive nope"));
    assert_eq!(step_at(&toks, 14), halt("unrecognized token"));
}

#[test]
fn locate_start_finds_the_base_address() {
    assert_eq!(locate_start(&unit(vec![])), (100, None));
    assert_eq!(locate_start(&unit(vec![instr("nop"), label("a")])), (100, None));
    assert_eq!(
        locate_start(&unit(vec![instr("nop"), dir("start"), TokenKind::IntLit(-4)])),
        (-4, None)
    );
    assert_eq!(
        locate_start(&unit(vec![dir("start"), TokenKind::StringLit("4".to_string())])),
        (100, Some(error(".start directive must be succeeded by integer literal", 0)))
    );
    assert_eq!(
        locate_start(&unit(vec![
            dir("start"),
            TokenKind::IntLit(8),
            instr("nop"),
            dir("start"),
            TokenKind::IntLit(9),
        ])),
        (8, Some(error(".start directive can only be declared once", 3)))
    );
}
