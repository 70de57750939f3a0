//! The engine's guarantees, stated once over the specification functions
//! that the executable contracts use.
use vstd::prelude::*;

verus! {

use crate::diff::{
    split_lines, diff_line_number, diff_message, line_divergence_message, lemma_common_len_is,
};
use crate::text::{trim_nl, dec_str};
use crate::{passes, rendered_of};

/// Law: trailing newlines never matter to the comparison — appending any run
/// of newlines to a text leaves its trimmed form unchanged.
pub proof fn lemma_trim_ignores_trailing_newlines(s: Seq<char>, k: nat)
    ensures
        trim_nl(s + Seq::new(k, |i: int| '\n')) == trim_nl(s),
    decreases k,
{
    if k == 0 {
        assert(s + Seq::new(0, |i: int| '\n') =~= s);
    } else {
        let t = s + Seq::new(k, |i: int| '\n');
        assert(t.last() == '\n');
        assert(t.drop_last() =~= s + Seq::new((k - 1) as nat, |i: int| '\n'));
        lemma_trim_ignores_trailing_newlines(s, (k - 1) as nat);
    }
}

/// Law: a baseline that agrees with the rendered document up to trailing
/// newlines passes, so an approving run whose baseline already holds the
/// rendered content succeeds and records nothing.
pub proof fn lemma_idempotent_pass(name: Seq<char>, content: Seq<char>, baseline: Seq<char>)
    requires
        trim_nl(baseline) == trim_nl(rendered_of(name, content)),
    ensures
        passes(baseline, rendered_of(name, content)),
{
}

/// Law: the diff of a text against itself reports no divergence — an empty
/// message and a line count equal to the number of lines of the text.
pub proof fn lemma_diff_equal(s: Seq<char>)
    ensures
        diff_message(s, s) == Seq::<char>::empty(),
        diff_line_number(s, s) == split_lines(s).len(),
{
    lemma_common_len_is(split_lines(s), split_lines(s), split_lines(s).len());
}

/// Law: when the first `k - 1` lines of the two texts agree and their `k`-th
/// lines differ, the diff reports line `k`, with both differing lines
/// included verbatim.
pub proof fn lemma_diff_divergence(left: Seq<char>, right: Seq<char>, k: int)
    requires
        1 <= k,
        k <= split_lines(left).len(),
        k <= split_lines(right).len(),
        forall|j: int| 0 <= j < k - 1 ==> split_lines(left)[j] == split_lines(right)[j],
        split_lines(left)[k - 1] != split_lines(right)[k - 1],
    ensures
        diff_line_number(left, right) == k,
        diff_message(left, right) == line_divergence_message(
            k,
            split_lines(left)[k - 1],
            split_lines(right)[k - 1],
        ),
{
    lemma_common_len_is(split_lines(left), split_lines(right), (k - 1) as nat);
}

/// Law: when the lines of the left text are a strict prefix of the lines of
/// the right text, the diff says the right side is greater, from one line
/// past the left side's last, and stops at the left side's line count.
pub proof fn lemma_diff_right_longer(left: Seq<char>, right: Seq<char>)
    requires
        split_lines(left).len() < split_lines(right).len(),
        forall|j: int|
            0 <= j < split_lines(left).len() ==> split_lines(left)[j] == split_lines(right)[j],
    ensures
        diff_line_number(left, right) == split_lines(left).len(),
        diff_message(left, right) == "Right is greater than left from line "@ + dec_str(
            split_lines(left).len() as int + 1,
        ) + "."@,
{
    lemma_common_len_is(split_lines(left), split_lines(right), split_lines(left).len());
}

/// Law: when the lines of the right text are a strict prefix of the lines of
/// the left text, the diff says the left side is greater, from one line past
/// the right side's last, and stops at the right side's line count.
pub proof fn lemma_diff_left_longer(left: Seq<char>, right: Seq<char>)
    requires
        split_lines(right).len() < split_lines(left).len(),
        forall|j: int|
            0 <= j < split_lines(right).len() ==> split_lines(left)[j] == split_lines(right)[j],
    ensures
        diff_line_number(left, right) == split_lines(right).len(),
        diff_message(left, right) == "Left is greater than right from line "@ + dec_str(
            split_lines(right).len() as int + 1,
        ) + "."@,
{
    lemma_common_len_is(split_lines(left), split_lines(right), split_lines(right).len());
}

} // verus!
