use crate::diag::{directive_error_views, DirectiveError, DirectiveErrorView};
use crate::labels::{LabelEntry, LabelTable};
use crate::layout_lemmas::lemma_layout_ignores_labels;
use crate::text::{str_eq, trim, trimmed};
use crate::token::TokenKind;
use std::ops::Range;
use vstd::prelude::*;
use vstd::utf8::encode_utf8;

verus! {

/// One token of a compilation unit: the file it came from, the token, and
/// the span of source text that it covers.
pub type Token = (String, TokenKind, Range<usize>);

/// The base address of a unit that has no `.start` directive.
pub const DEFAULT_START: i64 = 100;

/// The diagnostic that the directive pass records at the token `at`.
pub open spec fn directive_error_at(at: Token, message: Seq<char>) -> DirectiveErrorView {
    DirectiveErrorView { filename: at.0@, span: at.2, message }
}

/// That `toks[i]` exists and is an integer literal.
pub open spec fn int_at(toks: Seq<Token>, i: int) -> bool {
    0 <= i < toks.len() && toks[i].1 is IntLit
}

/// That `toks[i]` exists and is a directive literally named `start`.
pub open spec fn start_at(toks: Seq<Token>, i: int) -> bool {
    0 <= i < toks.len() && (toks[i].1 matches TokenKind::Directive(d) && d@ == "start"@)
}

/// What the search for the base address gives: the address, and the
/// diagnostic where the search was stopped by one.
pub struct StartOutcome {
    pub address: i64,
    pub errors: Seq<DirectiveErrorView>,
}

/// The search for the base address from `toks[i]` on, where `seen` says
/// whether a `.start` was met before and `address` is the base address so far.
///
/// The first `.start` must be followed by an integer literal, which becomes
/// the base address. A `.start` without one, or a second `.start`, is
/// reported and stops the search, and the address found up to there stands.
pub open spec fn find_start(toks: Seq<Token>, i: int, seen: bool, address: i64) -> StartOutcome
    decreases toks.len() - i,
{
    if i < 0 || i >= toks.len() {
        StartOutcome { address, errors: seq![] }
    } else if !start_at(toks, i) {
        find_start(toks, i + 1, seen, address)
    } else if seen {
        StartOutcome {
            address,
            errors: seq![directive_error_at(toks[i], ".start directive can only be declared once"@)],
        }
    } else if int_at(toks, i + 1) {
        find_start(toks, i + 1, true, toks[i + 1].1->IntLit_0)
    } else {
        StartOutcome {
            address,
            errors: seq![
                directive_error_at(
                    toks[i],
                    ".start directive must be succeeded by integer literal"@,
                ),
            ],
        }
    }
}

/// The base address of the unit `toks`, with the diagnostic of the search.
pub open spec fn resolve_start(toks: Seq<Token>) -> StartOutcome {
    find_start(toks, 0, false, DEFAULT_START)
}

/// The directives that the layout pass knows, and `Unknown` for all others.
#[derive(Clone, Copy, Debug, PartialEq, Eq, Structural)]
pub enum DirectiveKind {
    Start,
    Pad,
    Word,
    Asciiz,
    Unknown,
}

/// The directive that the name `name` stands for: `start`, `pad`, `word` and
/// `asciiz` for themselves, every other name for `Unknown`.
pub open spec fn directive_kind(name: Seq<char>) -> DirectiveKind {
    if name == "start"@ {
        DirectiveKind::Start
    } else if name == "pad"@ {
        DirectiveKind::Pad
    } else if name == "word"@ {
        DirectiveKind::Word
    } else if name == "asciiz"@ {
        DirectiveKind::Asciiz
    } else {
        DirectiveKind::Unknown
    }
}

/// The directive that a name stands for, once the whitespace around the
/// name has been taken off.
pub fn directive_of(name: &str) -> (kind: DirectiveKind)
    ensures
        kind == directive_kind(name@),
{
    if str_eq(name, "start") {
        DirectiveKind::Start
    } else if str_eq(name, "pad") {
        DirectiveKind::Pad
    } else if str_eq(name, "word") {
        DirectiveKind::Word
    } else if str_eq(name, "asciiz") {
        DirectiveKind::Asciiz
    } else {
        DirectiveKind::Unknown
    }
}

/// What a token does to the layout.
pub enum Effect {
    /// The location counter moves by `size`. With `operand`, the token takes
    /// the token after it as its operand, and the pass goes on behind that.
    Advance { size: int, operand: bool },
    /// The token cannot be sized: `message` is reported and the pass stops.
    Halt { message: Seq<char> },
}

/// The length in bytes of the string with the characters `s`, as `str::len`
/// gives it.
pub open spec fn byte_len(s: Seq<char>) -> usize {
    encode_utf8(s).len() as usize
}

/// The message for a directive whose name the layout pass does not know.
pub open spec fn unrecognized_directive_message(name: Seq<char>) -> Seq<char> {
    "unrecognized directive "@ + name
}

/// What the directive `kind`, written as `name`, does to the layout when the
/// token after it is `next`, or when no token is after it.
///
/// `.start` moves nothing and takes an integer literal as its operand if one
/// is there. `.pad` needs an integer literal and moves the counter by it.
/// `.word` needs an identifier or an integer literal and moves the counter
/// by one. `.asciiz` needs a string literal and moves the counter by its
/// length in bytes. A directive of another name halts the pass.
pub open spec fn directive_effect(
    kind: DirectiveKind,
    name: Seq<char>,
    next: Option<TokenKind>,
) -> Effect {
    match kind {
        DirectiveKind::Start => Effect::Advance {
            size: 0,
            operand: next matches Some(TokenKind::IntLit(_)),
        },
        DirectiveKind::Pad => match next {
            Some(TokenKind::IntLit(value)) => Effect::Advance { size: value as int, operand: true },
            _ => Effect::Halt { message: ".pad directive must be succeeded by literal"@ },
        },
        DirectiveKind::Word => match next {
            Some(TokenKind::Ident(_)) | Some(TokenKind::IntLit(_)) => Effect::Advance {
                size: 1,
                operand: true,
            },
            _ => Effect::Halt { message: ".word directive must be succeeded by literal"@ },
        },
        DirectiveKind::Asciiz => match next {
            Some(TokenKind::StringLit(s)) => Effect::Advance {
                size: byte_len(s@) as int,
                operand: true,
            },
            _ => Effect::Halt { message: ".asciiz directive must be succeeded by string"@ },
        },
        DirectiveKind::Unknown => Effect::Halt { message: unrecognized_directive_message(name) },
    }
}

/// The token after `toks[i]`, if there is one.
pub open spec fn next_token(toks: Seq<Token>, i: int) -> Option<TokenKind> {
    if 0 <= i + 1 < toks.len() {
        Some(toks[i + 1].1)
    } else {
        None
    }
}

/// What `toks[i]` does to the layout.
///
/// A label and a newline move nothing. An instruction moves the counter by
/// one. A directive is known by its name without the whitespace around it,
/// and does what [`directive_effect`] says. Any other token halts the pass.
pub open spec fn effect_at(toks: Seq<Token>, i: int) -> Effect {
    match toks[i].1 {
        TokenKind::Label(_) => Effect::Advance { size: 0, operand: false },
        TokenKind::Newline => Effect::Advance { size: 0, operand: false },
        TokenKind::Instruction(_) => Effect::Advance { size: 1, operand: false },
        TokenKind::Directive(data) => directive_effect(
            directive_kind(trimmed(data@)),
            data@,
            next_token(toks, i),
        ),
        _ => Effect::Halt { message: "unrecognized token"@ },
    }
}

/// The entry that binds a label at the token `at` to the address `counter`.
pub open spec fn label_entry(at: Token, counter: int) -> LabelEntry {
    LabelEntry { filename: at.0, span: at.2, address: counter as usize }
}

/// The table after the token `at` was passed with the counter at `counter`:
/// a label is bound to the counter, replacing an earlier binding of its name;
/// any other token leaves the table as it is.
pub open spec fn bound(
    labels: Map<Seq<char>, LabelEntry>,
    at: Token,
    counter: int,
) -> Map<Seq<char>, LabelEntry> {
    match at.1 {
        TokenKind::Label(name) => labels.insert(name@, label_entry(at, counter)),
        _ => labels,
    }
}

/// That passing the token `at` with the counter at `counter` and moving the
/// counter by `size` stays within what can be held: the moved counter in an
/// `i64`, and the address of a label in a `usize`.
pub open spec fn held(at: Token, counter: int, size: int) -> bool {
    &&& i64::MIN <= counter + size <= i64::MAX
    &&& at.1 is Label ==> 0 <= counter <= usize::MAX
}

/// What the layout pass gives: the label table, the location counter where
/// the pass ended, the diagnostic where the pass was stopped by one, and
/// whether every counter value on the way could be held.
pub struct LayoutOutcome {
    pub labels: Map<Seq<char>, LabelEntry>,
    pub counter: int,
    pub errors: Seq<DirectiveErrorView>,
    pub fits: bool,
}

/// The layout pass from `toks[i]` on, with the location counter at `counter`
/// and the table holding `labels`.
///
/// Each token has its effect: the counter moves by the token's size, a label
/// is bound to the counter as it stands before the label, and the pass goes
/// on behind the token and its operand. The pass ends at the end of the unit,
/// or at the first token that halts it, whose message is the one diagnostic.
pub open spec fn layout(
    toks: Seq<Token>,
    i: int,
    counter: int,
    labels: Map<Seq<char>, LabelEntry>,
) -> LayoutOutcome
    decreases toks.len() - i,
{
    if i < 0 || i >= toks.len() {
        LayoutOutcome { labels, counter, errors: seq![], fits: true }
    } else {
        match effect_at(toks, i) {
            Effect::Advance { size, operand } => {
                let next = if operand {
                    i + 2
                } else {
                    i + 1
                };
                let then = layout(toks, next, counter + size, bound(labels, toks[i], counter));
                LayoutOutcome { fits: then.fits && held(toks[i], counter, size), ..then }
            },
            Effect::Halt { message } => LayoutOutcome {
                labels,
                counter,
                errors: seq![directive_error_at(toks[i], message)],
                fits: true,
            },
        }
    }
}

/// That the layout pass can run over `toks` from `start_addr`: the layout
/// fits, and the error count can take the diagnostic.
pub open spec fn layout_accepts(
    toks: Seq<Token>,
    error_count: i32,
    start_addr: i64,
    labels: Map<Seq<char>, LabelEntry>,
) -> bool {
    let laid = layout(toks, 0, start_addr as int, labels);
    laid.fits && error_count + laid.errors.len() <= i32::MAX
}

/// That the directives of `toks` can be processed: the layout from the
/// unit's base address fits, and the error count can take the diagnostics.
pub open spec fn accepts(
    toks: Seq<Token>,
    error_count: i32,
    labels: Map<Seq<char>, LabelEntry>,
) -> bool {
    let found = resolve_start(toks);
    let laid = layout(toks, 0, found.address as int, labels);
    laid.fits && error_count + found.errors.len() + laid.errors.len() <= i32::MAX
}

/// That a token is kept when labels are stripped: it is no label.
pub open spec fn kept(t: Token) -> bool {
    !(t.1 is Label)
}

/// The tokens of `s` that are no labels, in their order.
pub open spec fn strip_labels(s: Seq<Token>) -> Seq<Token> {
    s.filter(|t: Token| kept(t))
}

/// What a token does to the layout, as [`step_at`] computes it.
#[derive(Debug, PartialEq, Eq)]
pub enum Step {
    Advance { size: i128, operand: bool },
    Halt { message: String },
}

impl View for Step {
    type V = Effect;

    open spec fn view(&self) -> Effect {
        match self {
            Step::Advance { size, operand } => Effect::Advance {
                size: *size as int,
                operand: *operand,
            },
            Step::Halt { message } => Effect::Halt { message: message@ },
        }
    }
}

/// What the token `toks[i]` does to the layout.
pub fn step_at(toks: &[Token], i: usize) -> (step: Step)
    requires
        i < toks.len(),
    ensures
        step@ == effect_at(toks@, i as int),
{
    match &toks[i].1 {
        TokenKind::Label(_) => Step::Advance { size: 0, operand: false },
        TokenKind::Newline => Step::Advance { size: 0, operand: false },
        TokenKind::Instruction(_) => Step::Advance { size: 1, operand: false },
        TokenKind::Directive(data) => {
            let kind = directive_of(trim(data.as_str()));
            let next = if i + 1 < toks.len() {
                Some(&toks[i + 1].1)
            } else {
                None
            };
            match kind {
                DirectiveKind::Start => match next {
                    Some(TokenKind::IntLit(_)) => Step::Advance { size: 0, operand: true },
                    _ => Step::Advance { size: 0, operand: false },
                },
                DirectiveKind::Pad => match next {
                    Some(TokenKind::IntLit(value)) => Step::Advance {
                        size: *value as i128,
                        operand: true,
                    },
                    _ => Step::Halt {
                        message: ".pad directive must be succeeded by literal".to_owned(),
                    },
                },
                DirectiveKind::Word => match next {
                    Some(TokenKind::Ident(_)) | Some(TokenKind::IntLit(_)) => Step::Advance {
                        size: 1,
                        operand: true,
                    },
                    _ => Step::Halt {
                        message: ".word directive must be succeeded by literal".to_owned(),
                    },
                },
                DirectiveKind::Asciiz => match next {
                    Some(TokenKind::StringLit(s)) => Step::Advance {
                        size: s.as_str().len() as i128,
                        operand: true,
                    },
                    _ => Step::Halt {
                        message: ".asciiz directive must be succeeded by string".to_owned(),
                    },
                },
                DirectiveKind::Unknown => Step::Halt {
                    message: "unrecognized directive ".to_owned().concat(data.as_str()),
                },
            }
        },
        _ => Step::Halt { message: "unrecognized token".to_owned() },
    }
}

/// The diagnostic at the token `at`.
fn error_at(at: &Token, message: String) -> (error: DirectiveError)
    ensures
        error@ == directive_error_at(*at, message@),
{
    DirectiveError {
        filename: at.0.clone(),
        span: Range { start: at.2.start, end: at.2.end },
        message,
    }
}

/// The search for the base address of the unit `toks`: the address, and the
/// diagnostic if the search was stopped by one.
pub fn locate_start(toks: &[Token]) -> (found: (i64, Option<DirectiveError>))
    ensures
        found.0 == resolve_start(toks@).address,
        match found.1 {
            Some(error) => resolve_start(toks@).errors == seq![error@],
            None => resolve_start(toks@).errors == Seq::<DirectiveErrorView>::empty(),
        },
{
    let mut start_addr: i64 = DEFAULT_START;
    let mut seen_start = false;
    let mut i: usize = 0;
    while i < toks.len()
        invariant
            i <= toks.len(),
            find_start(toks@, i as int, seen_start, start_addr) == resolve_start(toks@),
        decreases toks.len() - i,
    {
        let at = &toks[i];
        if is_start(&at.1) {
            if seen_start {
                let message = ".start directive can only be declared once".to_owned();
                return (start_addr, Some(error_at(at, message)));
            }
            if i + 1 < toks.len() && is_int(&toks[i + 1].1) {
                start_addr = int_value(&toks[i + 1].1);
                seen_start = true;
            } else {
                let message = ".start directive must be succeeded by integer literal".to_owned();
                return (start_addr, Some(error_at(at, message)));
            }
        }
        i += 1;
    }
    (start_addr, None)
}

/// The layout pass over the unit `toks` from the base address `start_addr`:
/// binds each label it passes to the location counter's value in `labels`,
/// and stops at the first token that it cannot size, which it returns as a
/// diagnostic and counts in `error_count`.
pub fn process_directives(
    toks: &[Token],
    error_count: &mut i32,
    start_addr: i64,
    labels: &mut LabelTable,
) -> (errors: Vec<DirectiveError>)
    requires
        layout_accepts(toks@, *old(error_count), start_addr, old(labels)@),
    ensures
        final(labels)@ == layout(toks@, 0, start_addr as int, old(labels)@).labels,
        directive_error_views(errors@) == layout(
            toks@,
            0,
            start_addr as int,
            old(labels)@,
        ).errors,
        *final(error_count) == *old(error_count) + errors@.len(),
{
    let mut errors: Vec<DirectiveError> = Vec::new();
    let mut loc_counter: i64 = start_addr;
    let mut i: usize = 0;
    let ghost whole = layout(toks@, 0, start_addr as int, labels@);
    while i < toks.len()
        invariant_except_break
            i <= toks.len(),
            errors@.len() == 0,
            *error_count == *old(error_count),
            layout(toks@, i as int, loc_counter as int, labels@).labels == whole.labels,
            layout(toks@, i as int, loc_counter as int, labels@).errors == whole.errors,
            layout(toks@, i as int, loc_counter as int, labels@).fits,
            *error_count + whole.errors.len() <= i32::MAX,
        ensures
            labels@ == whole.labels,
            directive_error_views(errors@) == whole.errors,
            *error_count == *old(error_count) + errors@.len(),
        decreases toks.len() - i,
    {
        let at = &toks[i];
        match step_at(toks, i) {
            Step::Advance { size, operand } => {
                if let TokenKind::Label(name) = &at.1 {
                    let entry = LabelEntry {
                        filename: at.0.clone(),
                        span: Range { start: at.2.start, end: at.2.end },
                        address: loc_counter as usize,
                    };
                    labels.insert(name.clone(), entry);
                }
                loc_counter = (loc_counter as i128 + size) as i64;
                i += if operand {
                    2
                } else {
                    1
                };
            },
            Step::Halt { message } => {
                errors.push(error_at(at, message));
                *error_count = *error_count + 1;
                break ;
            },
        }
    }
    errors
}

/// Processes the directives of the unit `toks`.
///
/// First the base address is found: that of the `.start` directive, or
/// [`DEFAULT_START`]. Then the layout pass runs from that address and binds
/// the unit's labels in `labels`; it runs also where the search for the base
/// address ended in a diagnostic. At the end every label token is taken out of
/// `toks`, the other tokens staying in their order. The diagnostics of both
/// passes are returned in order, and each is counted in `error_count`.
pub fn process_start(
    toks: &mut Vec<Token>,
    error_count: &mut i32,
    labels: &mut LabelTable,
) -> (errors: Vec<DirectiveError>)
    requires
        accepts(old(toks)@, *old(error_count), old(labels)@),
    ensures
        ({
            let found = resolve_start(old(toks)@);
            let laid = layout(old(toks)@, 0, found.address as int, old(labels)@);
            &&& final(labels)@ == laid.labels
            &&& directive_error_views(errors@) == found.errors + laid.errors
            &&& *final(error_count) == *old(error_count) + errors@.len()
        }),
        final(toks)@ == strip_labels(old(toks)@),
        forall|k: int| 0 <= k < final(toks)@.len() ==> !(#[trigger] final(toks)@[k].1 is Label),
{
    let mut errors: Vec<DirectiveError> = Vec::new();
    let (start_addr, stopped) = locate_start(toks.as_slice());
    if let Some(error) = stopped {
        errors.push(error);
        *error_count = *error_count + 1;
    }
    let mut later = process_directives(toks.as_slice(), error_count, start_addr, labels);
    errors.append(&mut later);
    let mut all: Vec<Token> = Vec::new();
    std::mem::swap(toks, &mut all);
    for tok in it: all
        invariant
            toks@ == strip_labels(it.seq().take(it.index() as int)),
            it.seq() == old(toks)@,
    {
        proof {
            lemma_strip_step(it.seq(), it.index() as int);
        }
        if !is_label(&tok.1) {
            toks.push(tok);
        }
    }
    proof {
        assert(old(toks)@.take(old(toks)@.len() as int) =~= old(toks)@);
        lemma_stripped_holds_no_label(old(toks)@);
    }
    errors
}

/// Stripping the labels of the first `i + 1` tokens is stripping those of the
/// first `i` and then keeping `s[i]` unless it is a label.
proof fn lemma_strip_step(s: Seq<Token>, i: int)
    requires
        0 <= i < s.len(),
    ensures
        strip_labels(s.take(i + 1)) == if kept(s[i]) {
            strip_labels(s.take(i)).push(s[i])
        } else {
            strip_labels(s.take(i))
        },
{
    reveal(Seq::filter);
    assert(s.take(i + 1).drop_last() =~= s.take(i));
}

/// Label-token filtering is total: whatever the unit holds, no label token is
/// left among its tokens once the labels are stripped.
pub proof fn lemma_stripped_holds_no_label(s: Seq<Token>)
    ensures
        forall|k: int|
            0 <= k < strip_labels(s).len() ==> !(#[trigger] strip_labels(s)[k].1 is Label),
{
    let pred = |t: Token| kept(t);
    assert forall|k: int| 0 <= k < strip_labels(s).len() implies !(#[trigger] strip_labels(
        s,
    )[k].1 is Label) by {
        s.lemma_filter_pred(pred, k);
    }
}

/// Whether [`process_directives`] can run on these arguments: whether the
/// layout fits and the error count can take the diagnostic.
pub fn can_process_directives(
    toks: &[Token],
    error_count: i32,
    start_addr: i64,
    labels: &LabelTable,
) -> (ok: bool)
    ensures
        ok == layout_accepts(toks@, error_count, start_addr, labels@),
{
    let mut loc_counter: i64 = start_addr;
    let mut i: usize = 0;
    let ghost whole = layout(toks@, 0, start_addr as int, labels@);
    while i < toks.len()
        invariant
            i <= toks.len(),
            whole == layout(toks@, 0, start_addr as int, labels@),
            layout(toks@, i as int, loc_counter as int, labels@).errors.len()
                == whole.errors.len(),
            layout(toks@, i as int, loc_counter as int, labels@).fits == whole.fits,
        decreases toks.len() - i,
    {
        match step_at(toks, i) {
            Step::Advance { size, operand } => {
                proof {
                    lemma_layout_ignores_labels(
                        toks@,
                        if operand {
                            i + 2
                        } else {
                            i + 1
                        },
                        loc_counter + size,
                        bound(labels@, toks@[i as int], loc_counter as int),
                        labels@,
                    );
                }
                if is_label(&toks[i].1) && (loc_counter < 0 || loc_counter as u64
                    > usize::MAX as u64) {
                    return false;
                }
                let moved = loc_counter as i128 + size;
                if moved < i64::MIN as i128 || moved > i64::MAX as i128 {
                    return false;
                }
                loc_counter = moved as i64;
                i += if operand {
                    2
                } else {
                    1
                };
            },
            Step::Halt { message: _ } => {
                return error_count < i32::MAX;
            },
        }
    }
    true
}

/// Whether [`process_start`] can run on these arguments: whether the layout
/// from the unit's base address fits and the error count can take the
/// diagnostics.
pub fn can_process_start(toks: &Vec<Token>, error_count: i32, labels: &LabelTable) -> (ok: bool)
    ensures
        ok == accepts(toks@, error_count, labels@),
{
    let (start_addr, stopped) = locate_start(toks.as_slice());
    if stopped.is_some() {
        error_count < i32::MAX && can_process_directives(
            toks.as_slice(),
            error_count + 1,
            start_addr,
            labels,
        )
    } else {
        can_process_directives(toks.as_slice(), error_count, start_addr, labels)
    }
}

/// [`process_start`] where it can run, and nothing where it cannot: then
/// `None` is returned and the unit, the error count and the table stay as
/// they are.
pub fn try_process_start(
    toks: &mut Vec<Token>,
    error_count: &mut i32,
    labels: &mut LabelTable,
) -> (errors: Option<Vec<DirectiveError>>)
    ensures
        errors is Some <==> accepts(old(toks)@, *old(error_count), old(labels)@),
        errors is None ==> final(toks)@ == old(toks)@ && *final(error_count) == *old(error_count)
            && final(labels)@ == old(labels)@,
        errors matches Some(errors) ==> {
            let found = resolve_start(old(toks)@);
            let laid = layout(old(toks)@, 0, found.address as int, old(labels)@);
            &&& final(labels)@ == laid.labels
            &&& directive_error_views(errors@) == found.errors + laid.errors
            &&& *final(error_count) == *old(error_count) + errors@.len()
            &&& final(toks)@ == strip_labels(old(toks)@)
        },
{
    if can_process_start(toks, *error_count, labels) {
        Some(process_start(toks, error_count, labels))
    } else {
        None
    }
}

/// [`process_directives`] where it can run, and nothing where it cannot:
/// then `None` is returned and the error count and the table stay as they
/// are.
pub fn try_process_directives(
    toks: &[Token],
    error_count: &mut i32,
    start_addr: i64,
    labels: &mut LabelTable,
) -> (errors: Option<Vec<DirectiveError>>)
    ensures
        errors is Some <==> layout_accepts(toks@, *old(error_count), start_addr, old(labels)@),
        errors is None ==> *final(error_count) == *old(error_count) && final(labels)@ == old(
            labels,
        )@,
        errors matches Some(errors) ==> {
            let laid = layout(toks@, 0, start_addr as int, old(labels)@);
            &&& final(labels)@ == laid.labels
            &&& directive_error_views(errors@) == laid.errors
            &&& *final(error_count) == *old(error_count) + errors@.len()
        },
{
    if can_process_directives(toks, *error_count, start_addr, labels) {
        Some(process_directives(toks, error_count, start_addr, labels))
    } else {
        None
    }
}

/// Whether the token is a directive literally named `start`.
fn is_start(token: &TokenKind) -> (b: bool)
    ensures
        b == (token matches TokenKind::Directive(d) && d@ == "start"@),
{
    match token {
        TokenKind::Directive(data) => str_eq(data.as_str(), "start"),
        _ => false,
    }
}

/// Whether the token is a label.
fn is_label(token: &TokenKind) -> (b: bool)
    ensures
        b == (token is Label),
{
    match token {
        TokenKind::Label(_) => true,
        _ => false,
    }
}

/// Whether the token is an integer literal.
fn is_int(token: &TokenKind) -> (b: bool)
    ensures
        b == (token is IntLit),
{
    match token {
        TokenKind::IntLit(_) => true,
        _ => false,
    }
}

/// The value of an integer literal.
fn int_value(token: &TokenKind) -> (v: i64)
    requires
        token is IntLit,
    ensures
        v == token->IntLit_0,
{
    match token {
        TokenKind::IntLit(v) => *v,
        _ => 0,
    }
}

} // verus!
