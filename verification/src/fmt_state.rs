//! The formatting state of the encoder: compact output, or pretty-printed
//! output with a current indentation and an indent step.

use vstd::prelude::*;

verus! {

/// Layout choice for the emitted JSON text.
///
/// `Compact` inserts no whitespace beyond the mandatory separators.
/// `Pretty` tracks the current indentation in spaces (`curr_indent`) and the
/// number of spaces added per nesting level (`indent`); `curr_indent` grows by
/// `indent` when a non-empty composite is entered and shrinks by `indent` when
/// it is left.
#[derive(Clone, Copy)]
pub enum EncodingFormat {
    Compact,
    Pretty { curr_indent: u32, indent: u32 },
}

/// Whether the format is the indented layout.
pub open spec fn is_pretty(f: EncodingFormat) -> bool {
    f matches EncodingFormat::Pretty { .. }
}

/// The current indentation in spaces (0 in compact mode).
pub open spec fn cur_of(f: EncodingFormat) -> int {
    match f {
        EncodingFormat::Compact => 0,
        EncodingFormat::Pretty { curr_indent, .. } => curr_indent as int,
    }
}

/// The number of spaces added per nesting level (0 in compact mode).
pub open spec fn step_of(f: EncodingFormat) -> int {
    match f {
        EncodingFormat::Compact => 0,
        EncodingFormat::Pretty { indent, .. } => indent as int,
    }
}

/// The format state after entering one non-empty composite.
pub open spec fn entered(f: EncodingFormat) -> EncodingFormat {
    match f {
        EncodingFormat::Compact => EncodingFormat::Compact,
        EncodingFormat::Pretty { curr_indent, indent } => EncodingFormat::Pretty {
            curr_indent: (curr_indent + indent) as u32,
            indent,
        },
    }
}

/// The format state after leaving one non-empty composite.
pub open spec fn left_composite(f: EncodingFormat) -> EncodingFormat {
    match f {
        EncodingFormat::Compact => EncodingFormat::Compact,
        EncodingFormat::Pretty { curr_indent, indent } => EncodingFormat::Pretty {
            curr_indent: (curr_indent - indent) as u32,
            indent,
        },
    }
}

/// Law: leaving a composite undoes entering it, so a matched open/close pair
/// restores the format state exactly.
pub proof fn lemma_enter_leave_inverse(f: EncodingFormat)
    requires
        cur_of(f) + step_of(f) <= u32::MAX,
    ensures
        left_composite(entered(f)) == f,
{
}

/// Entering a composite adds exactly one indent step to the current
/// indentation and changes nothing else; leaving removes exactly one. (In
/// compact mode both are zero.)
pub proof fn lemma_enter_leave_move_one_step(f: EncodingFormat)
    ensures
        cur_of(f) + step_of(f) <= u32::MAX ==> cur_of(entered(f)) == cur_of(f) + step_of(f),
        step_of(f) <= cur_of(f) ==> cur_of(left_composite(f)) == cur_of(f) - step_of(f),
        step_of(entered(f)) == step_of(f),
        step_of(left_composite(f)) == step_of(f),
        is_pretty(entered(f)) == is_pretty(f),
        is_pretty(left_composite(f)) == is_pretty(f),
{
}

/// Law: when no encode call is in progress the current indentation is a
/// non-negative multiple of the indent step, and entering or leaving a
/// composite preserves that.
pub proof fn lemma_indent_stays_multiple(f: EncodingFormat)
    requires
        step_of(f) > 0,
        cur_of(f) % step_of(f) == 0,
    ensures
        cur_of(f) + step_of(f) <= u32::MAX ==> cur_of(entered(f)) % step_of(f) == 0,
        step_of(f) <= cur_of(f) ==> cur_of(left_composite(f)) % step_of(f) == 0,
{
    vstd::arithmetic::div_mod::lemma_mod_add_multiples_vanish(cur_of(f), step_of(f));
    vstd::arithmetic::div_mod::lemma_mod_sub_multiples_vanish(cur_of(f), step_of(f));
}

/// The indentation reached from `ci` after a sequence of composite entries
/// (`true`) and exits (`false`), each moving the indentation by `step`.
pub open spec fn indent_after(ci: int, step: int, ops: Seq<bool>) -> int
    decreases ops.len(),
{
    if ops.len() == 0 {
        ci
    } else {
        indent_after(if ops[0] { ci + step } else { ci - step }, step, ops.drop_first())
    }
}

/// How many composite entries a call sequence contains.
pub open spec fn count_opens(ops: Seq<bool>) -> int
    decreases ops.len(),
{
    if ops.len() == 0 {
        0
    } else {
        (if ops[0] { 1int } else { 0int }) + count_opens(ops.drop_first())
    }
}

/// How many composite exits a call sequence contains.
pub open spec fn count_closes(ops: Seq<bool>) -> int
    decreases ops.len(),
{
    if ops.len() == 0 {
        0
    } else {
        (if ops[0] { 0int } else { 1int }) + count_closes(ops.drop_first())
    }
}

/// The indentation after a call sequence is the starting indentation shifted
/// by the surplus of entries over exits, `step` spaces each.
pub proof fn lemma_indent_after_linear(ci: int, step: int, ops: Seq<bool>)
    ensures
        indent_after(ci, step, ops) == ci + (count_opens(ops) - count_closes(ops)) * step,
    decreases ops.len(),
{
    if ops.len() == 0 {
        assert(count_opens(ops) == 0);
        assert(count_closes(ops) == 0);
        assert((0int - 0int) * step == 0) by (nonlinear_arith);
        assert(indent_after(ci, step, ops) == ci);
    } else {
        let rest = ops.drop_first();
        let start = if ops[0] { ci + step } else { ci - step };
        lemma_indent_after_linear(start, step, rest);
        let d = count_opens(rest) - count_closes(rest);
        assert(indent_after(ci, step, ops) == start + d * step);
        if ops[0] {
            assert(count_opens(ops) - count_closes(ops) == d + 1);
            assert((d + 1) * step == d * step + step) by (nonlinear_arith);
        } else {
            assert(count_opens(ops) - count_closes(ops) == d - 1);
            assert((d - 1) * step == d * step - step) by (nonlinear_arith);
        }
    }
}

/// Law: a well-balanced sequence of composite entries and exits leaves the
/// indentation exactly where it started. The encoder's open operations add
/// one `step` and its close operations remove one, so after any top-level
/// encode made of matched open/close calls the current indentation equals its
/// value before the encode began.
pub proof fn lemma_balanced_nesting_restores_indent(ci: int, step: int, ops: Seq<bool>)
    requires
        count_opens(ops) == count_closes(ops),
    ensures
        indent_after(ci, step, ops) == ci,
{
    lemma_indent_after_linear(ci, step, ops);
}

} // verus!
