//! Core engine of an approval/snapshot-testing helper.
//!
//! A caller constructs an approval case with a human-readable name and a
//! hierarchical test identifier, appends text fragments to it, and finally
//! asks the engine to compare the rendered document against an approved
//! baseline.  The engine owns the naming scheme, the trim semantics and the
//! line-level diff; the surrounding program owns the file reads and writes.
use vstd::prelude::*;

pub mod diff;
pub mod laws;
pub mod text;

verus! {

use crate::diff::{
    split_lines, diff_line_number, diff_message, line_divergence_message, lemma_common_len_is,
    lemma_split_lines_len, split_into_lines,
};
use crate::text::{
    title_of, upper_of, underscores_to_spaces, char_to_uppercase, push_char, trim_nl,
    lemma_trim_nl_len, trim_trailing_newlines, path_of, replace_namespace_separators,
    u32_to_decimal,
};

/// The rendered document for a case: a heading line with the derived title,
/// a blank line, then the accumulated body verbatim.
pub open spec fn rendered_of(name: Seq<char>, content: Seq<char>) -> Seq<char> {
    "= "@ + title_of(name) + "\n\n"@ + content
}

/// The received-file path for a view of a case.
pub open spec fn received_path_of(d: DocView) -> Seq<char> {
    d.docs_path + "/"@ + path_of(d.test_name) + "_received."@ + d.docs_extension
}

/// The approved-file path for a view of a case.
pub open spec fn approved_path_of(d: DocView) -> Seq<char> {
    d.docs_path + "/"@ + path_of(d.test_name) + "_approved."@ + d.docs_extension
}

/// The baseline text an optional approved-file content stands for: a missing
/// file is an empty baseline.
pub open spec fn baseline_view(baseline: Option<&str>) -> Seq<char> {
    match baseline {
        Option::Some(s) => s@,
        Option::None => Seq::empty(),
    }
}

/// A case passes when baseline and rendered document agree once trailing
/// newlines are trimmed from both.
pub open spec fn passes(baseline: Seq<char>, rendered: Seq<char>) -> bool {
    trim_nl(baseline) == trim_nl(rendered)
}

/// The outcome of comparing a case against its baseline: either the
/// rendered content matches, or the content to persist as the received file
/// together with the diff message and the divergence line.
pub enum Verdict {
    Pass,
    Mismatch { received: String, message: String, line: u32 },
}

/// What a correct verdict for the given baseline and rendered document must
/// be: `Pass` exactly when they agree up to trailing newlines, otherwise a
/// mismatch carrying the trimmed rendered content, the diff message, and the
/// divergence line of the two trimmed texts.
pub open spec fn verdict_matches(v: Verdict, baseline: Seq<char>, rendered: Seq<char>) -> bool {
    match v {
        Verdict::Pass => passes(baseline, rendered),
        Verdict::Mismatch { received, message, line } => {
            &&& !passes(baseline, rendered)
            &&& received@ == trim_nl(rendered)
            &&& message@ == diff_message(trim_nl(baseline), trim_nl(rendered))
            &&& line as int == diff_line_number(trim_nl(baseline), trim_nl(rendered))
        },
    }
}

/// One approval case: a titled document accumulated fragment by fragment,
/// later compared against the approved baseline of its test identifier.
pub struct DocAsTest {
    name: String,
    test_name: String,
    content: String,
    docs_path: String,
    docs_extension: String,
}

/// The mathematical value of a [`DocAsTest`]: each field as a character
/// sequence.
pub ghost struct DocView {
    pub name: Seq<char>,
    pub test_name: Seq<char>,
    pub content: Seq<char>,
    pub docs_path: Seq<char>,
    pub docs_extension: Seq<char>,
}

impl View for DocAsTest {
    type V = DocView;

    closed spec fn view(&self) -> DocView {
        DocView {
            name: self.name@,
            test_name: self.test_name@,
            content: self.content@,
            docs_path: self.docs_path@,
            docs_extension: self.docs_extension@,
        }
    }
}

impl DocAsTest {
    /// Creates a case for the given name and test identifier, with no
    /// content yet, under the fixed documentation root and extension.
    pub fn new(name: &str, test_name: &str) -> (doc: DocAsTest)
        ensures
            doc@.name == name@,
            doc@.test_name == test_name@,
            doc@.content == Seq::<char>::empty(),
            doc@.docs_path == "./docs"@,
            doc@.docs_extension == "adoc"@,
    {
        DocAsTest {
            name: String::from_str(name),
            test_name: String::from_str(test_name),
            content: String::new(),
            docs_path: String::from_str("./docs"),
            docs_extension: String::from_str("adoc"),
        }
    }

    /// Appends `content` verbatim to the accumulated document body; no
    /// separator is inserted between fragments.
    pub fn write(&mut self, content: &str)
        ensures
            final(self)@.name == old(self)@.name,
            final(self)@.test_name == old(self)@.test_name,
            final(self)@.content == old(self)@.content + content@,
            final(self)@.docs_path == old(self)@.docs_path,
            final(self)@.docs_extension == old(self)@.docs_extension,
    {
        self.content.append(content);
    }

    /// The title derived from the case name: first character uppercased,
    /// underscores of the remainder replaced by spaces.
    pub fn title(&self) -> (t: String)
        ensures
            t@ == title_of(self@.name),
    {
        let n = self.name.as_str().unicode_len();
        if n == 0 {
            return String::new();
        }
        let first = self.name.as_str().get_char(0);
        let mut t = char_to_uppercase(first);
        let mut i: usize = 1;
        while i < n
            invariant
                1 <= i <= n,
                n == self@.name.len(),
                t@ == upper_of(self@.name[0]) + underscores_to_spaces(
                    self@.name.subrange(1, i as int),
                ),
            decreases n - i,
        {
            let c = self.name.as_str().get_char(i);
            let mapped = if c == '_' {
                ' '
            } else {
                c
            };
            push_char(&mut t, mapped);
            proof {
                assert(self@.name.subrange(1, i + 1) =~= self@.name.subrange(
                    1,
                    i as int,
                ).push(self@.name[i as int]));
                assert(underscores_to_spaces(self@.name.subrange(1, i + 1)) =~= underscores_to_spaces(
                    self@.name.subrange(1, i as int),
                ).push(mapped));
                assert(t@ =~= upper_of(self@.name[0]) + underscores_to_spaces(
                    self@.name.subrange(1, i + 1),
                ));
            }
            i = i + 1;
        }
        proof {
            assert(self@.name.subrange(1, n as int) =~= self@.name.skip(1));
        }
        t
    }

    /// Renders the document: `"= {title}\n\n{body}"`.
    pub fn content(&self) -> (r: String)
        ensures
            r@ == rendered_of(self@.name, self@.content),
    {
        let mut r = String::from_str("= ");
        let t = self.title();
        r.append(t.as_str());
        r.append("\n\n");
        r.append(self.content.as_str());
        proof {
            assert(r@ =~= rendered_of(self@.name, self@.content));
        }
        r
    }

    /// The path under which a mismatching run records what it produced.
    pub fn received_filename(&self) -> (r: String)
        ensures
            r@ == received_path_of(self@),
    {
        let mut r = String::from_str(self.docs_path.as_str());
        r.append("/");
        let m = replace_namespace_separators(self.test_name.as_str());
        r.append(m.as_str());
        r.append("_received.");
        r.append(self.docs_extension.as_str());
        proof {
            assert(r@ =~= received_path_of(self@));
        }
        r
    }

    /// The path of the approved baseline for this case.
    pub fn approved_filename(&self) -> (r: String)
        ensures
            r@ == approved_path_of(self@),
    {
        let mut r = String::from_str(self.docs_path.as_str());
        r.append("/");
        let m = replace_namespace_separators(self.test_name.as_str());
        r.append(m.as_str());
        r.append("_approved.");
        r.append(self.docs_extension.as_str());
        proof {
            assert(r@ =~= approved_path_of(self@));
        }
        r
    }

    /// Walks the lines of both texts in lockstep and reports the first point
    /// of divergence: the message and the 1-based line number at which the
    /// walk stopped.
    pub fn extract_diff(&self, left_content: &str, right_content: &str) -> (r: (String, u32))
        requires
            left_content@.len() < 0xffff_ffff,
            right_content@.len() < 0xffff_ffff,
        ensures
            r.0@ == diff_message(left_content@, right_content@),
            r.1 as int == diff_line_number(left_content@, right_content@),
    {
        let left_lines = split_into_lines(left_content);
        let right_lines = split_into_lines(right_content);
        let ghost l = split_lines(left_content@);
        let ghost rr = split_lines(right_content@);
        proof {
            lemma_split_lines_len(left_content@);
            lemma_split_lines_len(right_content@);
        }
        let mut k: usize = 0;
        while k < left_lines.len() && k < right_lines.len()
            invariant
                l == split_lines(left_content@),
                rr == split_lines(right_content@),
                left_content@.len() < 0xffff_ffff,
                right_content@.len() < 0xffff_ffff,
                k <= l.len(),
                k <= rr.len(),
                l.len() <= left_content@.len() + 1 < 0x1_0000_0000,
                rr.len() <= right_content@.len() + 1 < 0x1_0000_0000,
                left_lines.deep_view() == l,
                right_lines.deep_view() == rr,
                left_lines@.len() == l.len(),
                right_lines@.len() == rr.len(),
                forall|j: int| 0 <= j < k ==> l[j] == rr[j],
            decreases l.len() - k,
        {
            proof {
                assert(left_lines@[k as int]@ == l[k as int]);
                assert(right_lines@[k as int]@ == rr[k as int]);
            }
            if !(left_lines[k] == right_lines[k]) {
                proof {
                    lemma_common_len_is(l, rr, k as nat);
                }
                let line: u32 = (k + 1) as u32;
                let digits = u32_to_decimal(line);
                let mut message = String::from_str("Line ");
                message.append(digits.as_str());
                message.append(":\n    left : ");
                message.append(left_lines[k].as_str());
                message.append("\n    right: ");
                message.append(right_lines[k].as_str());
                proof {
                    assert(message@ =~= line_divergence_message(
                        k + 1,
                        l[k as int],
                        rr[k as int],
                    ));
                }
                return (message, line);
            }
            k = k + 1;
        }
        proof {
            lemma_common_len_is(l, rr, k as nat);
        }
        if k < right_lines.len() {
            let line: u32 = k as u32;
            let digits = u32_to_decimal((k + 1) as u32);
            let mut message = String::from_str("Right is greater than left from line ");
            message.append(digits.as_str());
            message.append(".");
            proof {
                assert(message@ =~= diff_message(left_content@, right_content@));
            }
            (message, line)
        } else if k < left_lines.len() {
            let line: u32 = k as u32;
            let digits = u32_to_decimal((k + 1) as u32);
            let mut message = String::from_str("Left is greater than right from line ");
            message.append(digits.as_str());
            message.append(".");
            proof {
                assert(message@ =~= diff_message(left_content@, right_content@));
            }
            (message, line)
        } else {
            let line: u32 = k as u32;
            (String::new(), line)
        }
    }

    /// Compares the rendered document against the approved baseline, a
    /// missing baseline standing for the empty text, and says whether the
    /// case passes or what to record about the mismatch.
    pub fn verdict(&self, baseline: Option<&str>) -> (v: Verdict)
        requires
            baseline_view(baseline).len() < 0xffff_ffff,
            rendered_of(self@.name, self@.content).len() < 0xffff_ffff,
        ensures
            verdict_matches(v, baseline_view(baseline), rendered_of(self@.name, self@.content)),
    {
        let expected_raw: &str = match baseline {
            Option::Some(s) => s,
            Option::None => "",
        };
        proof {
            reveal_strlit("");
            assert(expected_raw@ =~= baseline_view(baseline));
        }
        let expected = trim_trailing_newlines(expected_raw);
        let rendered = self.content();
        let current = trim_trailing_newlines(rendered.as_str());
        if current == expected {
            Verdict::Pass
        } else {
            proof {
                lemma_trim_nl_len(baseline_view(baseline));
                lemma_trim_nl_len(rendered_of(self@.name, self@.content));
            }
            let (message, line) = self.extract_diff(expected.as_str(), current.as_str());
            Verdict::Mismatch { received: current, message, line }
        }
    }

    /// Like [`Self::verdict`], but checks the machine bound the diff walk
    /// needs at run time: `None` exactly when baseline or rendered document
    /// is too long for a `u32` line counter.
    pub fn checked_verdict(&self, baseline: Option<&str>) -> (r: Option<Verdict>)
        ensures
            (match r {
                Option::Some(v) => verdict_matches(
                    v,
                    baseline_view(baseline),
                    rendered_of(self@.name, self@.content),
                ),
                Option::None => baseline_view(baseline).len() >= 0xffff_ffff || rendered_of(
                    self@.name,
                    self@.content,
                ).len() >= 0xffff_ffff,
            }),
    {
        let rendered = self.content();
        let rendered_len = rendered.as_str().unicode_len();
        let baseline_len: usize = match baseline {
            Option::Some(s) => s.unicode_len(),
            Option::None => 0,
        };
        if rendered_len < 0xffff_ffff && baseline_len < 0xffff_ffff {
            Option::Some(self.verdict(baseline))
        } else {
            Option::None
        }
    }
}

} // verus!
