use crate::directive_proc::{
    bound, directive_kind, effect_at, find_start, int_at, layout, resolve_start, start_at,
    DirectiveKind, Effect, Token, DEFAULT_START,
};
use crate::labels::LabelEntry;
use crate::text::trimmed;
use crate::token::TokenKind;
use vstd::prelude::*;

verus! {

/// The search for the base address reports at most one thing.
pub proof fn lemma_find_start_reports_once(toks: Seq<Token>, i: int, seen: bool, address: i64)
    ensures
        find_start(toks, i, seen, address).errors.len() <= 1,
    decreases toks.len() - i,
{
    if 0 <= i < toks.len() {
        if !start_at(toks, i) {
            lemma_find_start_reports_once(toks, i + 1, seen, address);
        } else if !seen && int_at(toks, i + 1) {
            lemma_find_start_reports_once(toks, i + 1, true, toks[i + 1].1->IntLit_0);
        }
    }
}

/// Where no `.start` follows, the search for the base address reports nothing
/// and the address found so far stands. For a unit without `.start` that is
/// the default.
pub proof fn lemma_no_start(toks: Seq<Token>, i: int, seen: bool, address: i64)
    requires
        forall|k: int| i <= k < toks.len() ==> !start_at(toks, k),
    ensures
        find_start(toks, i, seen, address).address == address,
        find_start(toks, i, seen, address).errors.len() == 0,
    decreases toks.len() - i,
{
    if 0 <= i < toks.len() {
        lemma_no_start(toks, i + 1, seen, address);
    }
}

/// Once a `.start` has been seen, another one further on stops the search
/// with exactly one diagnostic, and the address found so far stands.
pub proof fn lemma_start_after_start(toks: Seq<Token>, i: int, j: int, address: i64)
    requires
        0 <= i <= j,
        start_at(toks, j),
    ensures
        find_start(toks, i, true, address).address == address,
        find_start(toks, i, true, address).errors.len() == 1,
    decreases j - i,
{
    if !start_at(toks, i) {
        lemma_start_after_start(toks, i + 1, j, address);
    }
}

/// Tokens that are no `.start` are passed over by the search.
pub proof fn lemma_start_passes_over(toks: Seq<Token>, i: int, j: int, seen: bool, address: i64)
    requires
        0 <= i <= j <= toks.len(),
        forall|k: int| i <= k < j ==> !start_at(toks, k),
    ensures
        find_start(toks, i, seen, address) == find_start(toks, j, seen, address),
    decreases j - i,
{
    if i < j {
        lemma_start_passes_over(toks, i + 1, j, seen, address);
    }
}

/// Two `.start` directives in one unit give exactly one diagnostic, wherever
/// they stand. Where the first is followed by an integer literal, that
/// literal is the base address, although the second stops the search; where
/// it is not, the base address is the default.
pub proof fn lemma_two_starts(toks: Seq<Token>, i: int, j: int)
    requires
        start_at(toks, i),
        start_at(toks, j),
        i < j,
        forall|k: int| 0 <= k < i ==> !start_at(toks, k),
    ensures
        resolve_start(toks).errors.len() == 1,
        int_at(toks, i + 1) ==> resolve_start(toks).address == toks[i + 1].1->IntLit_0,
        !int_at(toks, i + 1) ==> resolve_start(toks).address == DEFAULT_START,
{
    lemma_start_passes_over(toks, 0, i, false, DEFAULT_START);
    if int_at(toks, i + 1) {
        lemma_start_after_start(toks, i + 1, j, toks[i + 1].1->IntLit_0);
    }
}

/// The index of the token behind `toks[i]` and its operand.
pub open spec fn behind(toks: Seq<Token>, i: int) -> int {
    if effect_at(toks, i) matches Effect::Advance { operand: true, .. } {
        i + 2
    } else {
        i + 1
    }
}

/// The layout pass reports at most one thing.
pub proof fn lemma_layout_reports_once(
    toks: Seq<Token>,
    i: int,
    counter: int,
    labels: Map<Seq<char>, LabelEntry>,
)
    ensures
        layout(toks, i, counter, labels).errors.len() <= 1,
    decreases toks.len() - i,
{
    if 0 <= i < toks.len() {
        if let Effect::Advance { size, operand } = effect_at(toks, i) {
            lemma_layout_reports_once(
                toks,
                behind(toks, i),
                counter + size,
                bound(labels, toks[i], counter),
            );
        }
    }
}

/// That no integer literal of the unit is negative.
pub open spec fn no_negative_literal(toks: Seq<Token>) -> bool {
    forall|k: int|
        0 <= k < toks.len() ==> (#[trigger] toks[k].1 matches TokenKind::IntLit(v) ==> v >= 0)
}

/// The location counter never goes back, unless a `.pad` is given a negative
/// literal: the pass ends with the counter no lower than it set out.
pub proof fn lemma_counter_never_goes_back(
    toks: Seq<Token>,
    i: int,
    counter: int,
    labels: Map<Seq<char>, LabelEntry>,
)
    requires
        no_negative_literal(toks),
    ensures
        layout(toks, i, counter, labels).counter >= counter,
    decreases toks.len() - i,
{
    if 0 <= i < toks.len() {
        if let Effect::Advance { size, operand } = effect_at(toks, i) {
            if operand {
                assert(toks[i + 1].1 is IntLit ==> toks[i + 1].1->IntLit_0 >= 0);
            }
            assert(size >= 0);
            lemma_counter_never_goes_back(
                toks,
                behind(toks, i),
                counter + size,
                bound(labels, toks[i], counter),
            );
        }
    }
}

/// What is in the table when the layout pass sets out has no part in where
/// the counter goes, in what is reported, or in whether the layout fits.
pub proof fn lemma_layout_ignores_labels(
    toks: Seq<Token>,
    i: int,
    counter: int,
    a: Map<Seq<char>, LabelEntry>,
    b: Map<Seq<char>, LabelEntry>,
)
    ensures
        layout(toks, i, counter, a).counter == layout(toks, i, counter, b).counter,
        layout(toks, i, counter, a).errors == layout(toks, i, counter, b).errors,
        layout(toks, i, counter, a).fits == layout(toks, i, counter, b).fits,
    decreases toks.len() - i,
{
    if 0 <= i < toks.len() {
        if let Effect::Advance { size, operand } = effect_at(toks, i) {
            lemma_layout_ignores_labels(
                toks,
                behind(toks, i),
                counter + size,
                bound(a, toks[i], counter),
                bound(b, toks[i], counter),
            );
        }
    }
}

/// That `toks[p]` is a `.pad` directive without the integer literal it needs.
pub open spec fn malformed_pad_at(toks: Seq<Token>, p: int) -> bool {
    &&& 0 <= p < toks.len()
    &&& toks[p].1 matches TokenKind::Directive(d)
    &&& directive_kind(trimmed(d@)) == DirectiveKind::Pad
    &&& !int_at(toks, p + 1)
}

/// A `.pad` without its integer literal halts the layout pass: from wherever
/// before it the pass sets out, exactly one diagnostic is recorded, and the
/// outcome is that of the unit cut off just after the `.pad`, so no label
/// that stands after it is bound.
pub proof fn lemma_malformed_pad_halts(
    toks: Seq<Token>,
    p: int,
    i: int,
    counter: int,
    labels: Map<Seq<char>, LabelEntry>,
)
    requires
        malformed_pad_at(toks, p),
        0 <= i <= p,
    ensures
        layout(toks, i, counter, labels).errors.len() == 1,
        layout(toks, i, counter, labels) == layout(toks.take(p + 1), i, counter, labels),
    decreases p - i,
{
    let cut = toks.take(p + 1);
    if i < p {
        if let Effect::Advance { size, operand } = effect_at(toks, i) {
            lemma_malformed_pad_halts(
                toks,
                p,
                behind(toks, i),
                counter + size,
                bound(labels, toks[i], counter),
            );
        }
    }
}

} // verus!
