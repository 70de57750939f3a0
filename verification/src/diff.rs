//! Line-level comparison: splitting a text into lines and describing the
//! first point of divergence between two texts.
use vstd::prelude::*;

verus! {

use crate::text::{dec_str, push_char};

/// The lines of `s`, split on `'\n'` with no normalization: the empty text
/// has one empty line, and a trailing newline yields a final empty line.
pub open spec fn split_lines(s: Seq<char>) -> Seq<Seq<char>>
    decreases s.len(),
{
    if s.len() == 0 {
        seq![Seq::<char>::empty()]
    } else if s[0] == '\n' {
        seq![Seq::<char>::empty()] + split_lines(s.skip(1))
    } else {
        let rest = split_lines(s.skip(1));
        seq![seq![s[0]] + rest[0]] + rest.skip(1)
    }
}

pub proof fn lemma_split_lines_len(s: Seq<char>)
    ensures
        1 <= split_lines(s).len() <= s.len() + 1,
    decreases s.len(),
{
    if s.len() > 0 {
        lemma_split_lines_len(s.skip(1));
    }
}

/// How many leading lines `l` and `r` share before they first disagree or
/// one of them runs out.
pub open spec fn common_len(l: Seq<Seq<char>>, r: Seq<Seq<char>>) -> nat
    decreases l.len(),
{
    if l.len() == 0 || r.len() == 0 {
        0
    } else if l[0] == r[0] {
        1 + common_len(l.skip(1), r.skip(1))
    } else {
        0
    }
}

/// `common_len` is the unique `k` with equal lines before it and, where both
/// sides go on, a disagreement at it.
pub proof fn lemma_common_len_is(l: Seq<Seq<char>>, r: Seq<Seq<char>>, k: nat)
    requires
        k <= l.len(),
        k <= r.len(),
        forall|j: int| 0 <= j < k ==> l[j] == r[j],
        k < l.len() && k < r.len() ==> l[k as int] != r[k as int],
    ensures
        common_len(l, r) == k,
    decreases k,
{
    if k == 0 {
    } else {
        assert(l[0] == r[0]);
        assert(forall|j: int|
            0 <= j < k - 1 ==> l.skip(1)[j] == l[j + 1] && r.skip(1)[j] == r[j + 1]);
        lemma_common_len_is(l.skip(1), r.skip(1), (k - 1) as nat);
    }
}

/// The 1-based line at which the two texts diverge; where one text is a
/// prefix of the other (or both are equal), the number of lines compared.
pub open spec fn diff_line_number(left: Seq<char>, right: Seq<char>) -> int {
    let l = split_lines(left);
    let r = split_lines(right);
    let k = common_len(l, r) as int;
    if k < l.len() && k < r.len() {
        k + 1
    } else {
        k
    }
}

/// The message reported for a divergence at line `n` with the two differing
/// lines shown verbatim.
pub open spec fn line_divergence_message(n: int, left_line: Seq<char>, right_line: Seq<char>) -> Seq<
    char,
> {
    "Line "@ + dec_str(n) + ":\n    left : "@ + left_line + "\n    right: "@ + right_line
}

/// The diff message for two texts: empty when they agree line for line, the
/// divergence message at the first differing line, or a note saying which
/// side is longer and from which line.
pub open spec fn diff_message(left: Seq<char>, right: Seq<char>) -> Seq<char> {
    let l = split_lines(left);
    let r = split_lines(right);
    let k = common_len(l, r) as int;
    if k < l.len() && k < r.len() {
        line_divergence_message(k + 1, l[k], r[k])
    } else if k < r.len() {
        "Right is greater than left from line "@ + dec_str(k + 1) + "."@
    } else if k < l.len() {
        "Left is greater than right from line "@ + dec_str(k + 1) + "."@
    } else {
        Seq::empty()
    }
}

/// Splits `s` into its lines on `'\n'`.
pub fn split_into_lines(s: &str) -> (r: Vec<String>)
    ensures
        r.deep_view() == split_lines(s@),
{
    let n = s.unicode_len();
    let mut out: Vec<String> = Vec::new();
    let mut cur = String::new();
    let mut i: usize = 0;
    proof {
        assert(s@.skip(0) =~= s@);
        assert(out.deep_view() + prepend_first(cur@, split_lines(s@)) =~~= split_lines(s@));
    }
    while i < n
        invariant
            i <= n,
            n == s@.len(),
            out.deep_view() + prepend_first(cur@, split_lines(s@.skip(i as int))) == split_lines(
                s@,
            ),
        decreases n - i,
    {
        let c = s.get_char(i);
        proof {
            assert(s@.skip(i as int)[0] == c);
            assert(s@.skip(i as int).skip(1) =~= s@.skip(i + 1));
            lemma_split_lines_len(s@.skip(i + 1));
        }
        if c == '\n' {
            let ghost old_out = out.deep_view();
            let ghost old_cur = cur@;
            out.push(cur);
            cur = String::new();
            proof {
                assert(out.deep_view() =~~= old_out.push(old_cur));
                let rest = split_lines(s@.skip(i + 1));
                assert(split_lines(s@.skip(i as int)) == seq![Seq::<char>::empty()] + rest);
                assert(prepend_first(old_cur, seq![Seq::<char>::empty()] + rest) =~~= seq![old_cur]
                    + rest);
                assert(prepend_first(cur@, rest) =~~= rest);
                assert(out.deep_view() + prepend_first(cur@, rest) =~~= split_lines(s@));
            }
        } else {
            let ghost old_cur = cur@;
            push_char(&mut cur, c);
            proof {
                let rest = split_lines(s@.skip(i + 1));
                assert(split_lines(s@.skip(i as int)) == seq![seq![c] + rest[0]] + rest.skip(1));
                assert(prepend_first(old_cur, seq![seq![c] + rest[0]] + rest.skip(1))
                    =~~= prepend_first(cur@, rest));
                assert(out.deep_view() + prepend_first(cur@, rest) =~~= split_lines(s@));
            }
        }
        i = i + 1;
    }
    let ghost old_out = out.deep_view();
    let ghost old_cur = cur@;
    out.push(cur);
    proof {
        assert(s@.skip(n as int) =~= Seq::<char>::empty());
        assert(out.deep_view() =~~= old_out.push(old_cur));
        assert(prepend_first(old_cur, split_lines(Seq::<char>::empty())) =~~= seq![old_cur]);
        assert(out.deep_view() =~~= split_lines(s@));
    }
    out
}

/// The line sequence with its first line extended on the left by `p`.
pub open spec fn prepend_first(p: Seq<char>, lines: Seq<Seq<char>>) -> Seq<Seq<char>>
    recommends
        lines.len() > 0,
{
    seq![p + lines[0]] + lines.skip(1)
}

} // verus!
