//! Character-level helpers shared by the engine: trailing-newline trimming,
//! decimal rendering of line numbers, namespace-separator substitution, and
//! title derivation.
use vstd::prelude::*;

verus! {

/// `s` with every trailing `'\n'` removed; everything before the trailing
/// newlines, including interior newlines, is kept verbatim.
pub open spec fn trim_nl(s: Seq<char>) -> Seq<char>
    decreases s.len(),
{
    if s.len() > 0 && s.last() == '\n' {
        trim_nl(s.drop_last())
    } else {
        s
    }
}

pub proof fn lemma_trim_nl_len(s: Seq<char>)
    ensures
        trim_nl(s).len() <= s.len(),
    decreases s.len(),
{
    if s.len() > 0 && s.last() == '\n' {
        lemma_trim_nl_len(s.drop_last());
    }
}

/// Relies on std's `String::push`: appends the character `c` to the end of
/// the string.
#[verifier::external_body]
pub(crate) fn push_char(s: &mut String, c: char)
    ensures
        final(s)@ == old(s)@.push(c),
{
    s.push(c);
}

/// Copies the first `end` characters of `s` into a fresh string.
fn prefix_string(s: &str, end: usize) -> (r: String)
    requires
        end <= s@.len(),
    ensures
        r@ == s@.take(end as int),
{
    let mut r = String::new();
    let mut i: usize = 0;
    while i < end
        invariant
            i <= end <= s@.len(),
            r@ == s@.take(i as int),
        decreases end - i,
    {
        let c = s.get_char(i);
        push_char(&mut r, c);
        proof {
            assert(s@.take(i + 1) =~= s@.take(i as int).push(s@[i as int]));
        }
        i = i + 1;
    }
    r
}

/// Removes every trailing newline of `s`, leaving the rest unchanged.
pub fn trim_trailing_newlines(s: &str) -> (r: String)
    ensures
        r@ == trim_nl(s@),
{
    let n = s.unicode_len();
    let mut end = n;
    proof {
        assert(s@.take(n as int) =~= s@);
    }
    while end > 0 && s.get_char(end - 1) == '\n'
        invariant
            end <= n,
            n == s@.len(),
            trim_nl(s@) == trim_nl(s@.take(end as int)),
        decreases end,
    {
        proof {
            assert(s@.take(end as int).last() == s@[end - 1]);
            assert(s@.take(end as int).drop_last() =~= s@.take(end - 1));
        }
        end = end - 1;
    }
    proof {
        if end > 0 {
            assert(s@.take(end as int).last() == s@[end - 1]);
        }
        assert(trim_nl(s@.take(end as int)) == s@.take(end as int));
    }
    prefix_string(s, end)
}

/// The decimal digit for `n`, for `0 <= n <= 9`.
pub open spec fn dec_digit(n: int) -> char {
    if n == 0 {
        '0'
    } else if n == 1 {
        '1'
    } else if n == 2 {
        '2'
    } else if n == 3 {
        '3'
    } else if n == 4 {
        '4'
    } else if n == 5 {
        '5'
    } else if n == 6 {
        '6'
    } else if n == 7 {
        '7'
    } else if n == 8 {
        '8'
    } else {
        '9'
    }
}

/// The usual decimal rendering of a non-negative number, most significant
/// digit first, with no leading zeros (and `0` itself rendered as "0").
pub open spec fn dec_str(n: int) -> Seq<char>
    decreases n,
{
    if n < 10 {
        seq![dec_digit(n)]
    } else {
        dec_str(n / 10).push(dec_digit(n % 10))
    }
}

fn dec_digit_char(n: u32) -> (c: char)
    requires
        n < 10,
    ensures
        c == dec_digit(n as int),
{
    match n {
        0 => '0',
        1 => '1',
        2 => '2',
        3 => '3',
        4 => '4',
        5 => '5',
        6 => '6',
        7 => '7',
        8 => '8',
        _ => '9',
    }
}

/// Renders `n` in decimal.
pub fn u32_to_decimal(n: u32) -> (r: String)
    ensures
        r@ == dec_str(n as int),
    decreases n,
{
    if n < 10 {
        let mut r = String::new();
        push_char(&mut r, dec_digit_char(n));
        proof {
            assert(r@ =~= seq![dec_digit(n as int)]);
        }
        r
    } else {
        let mut r = u32_to_decimal(n / 10);
        push_char(&mut r, dec_digit_char(n % 10));
        r
    }
}

/// The identifier with each `::` (leftmost first, non-overlapping) replaced
/// by a single `/`; all other characters are kept as they are.
pub open spec fn path_of(s: Seq<char>) -> Seq<char>
    decreases s.len(),
{
    if s.len() == 0 {
        Seq::empty()
    } else if s.len() >= 2 && s[0] == ':' && s[1] == ':' {
        seq!['/'] + path_of(s.skip(2))
    } else {
        seq![s[0]] + path_of(s.skip(1))
    }
}

/// Replaces each namespace separator `::` of `s` by the path separator `/`.
pub fn replace_namespace_separators(s: &str) -> (r: String)
    ensures
        r@ == path_of(s@),
{
    let n = s.unicode_len();
    let mut r = String::new();
    let mut i: usize = 0;
    proof {
        assert(s@.skip(0) =~= s@);
        assert(r@ + path_of(s@) =~= path_of(s@));
    }
    while i < n
        invariant
            i <= n,
            n == s@.len(),
            r@ + path_of(s@.skip(i as int)) == path_of(s@),
        decreases n - i,
    {
        let c = s.get_char(i);
        if c == ':' && i + 1 < n && s.get_char(i + 1) == ':' {
            push_char(&mut r, '/');
            proof {
                assert(s@.skip(i as int).skip(2) =~= s@.skip(i + 2));
                assert(s@.skip(i as int)[0] == ':' && s@.skip(i as int)[1] == ':');
                assert(r@ + path_of(s@.skip(i + 2)) =~= path_of(s@));
            }
            i = i + 2;
        } else {
            push_char(&mut r, c);
            proof {
                assert(s@.skip(i as int).skip(1) =~= s@.skip(i + 1));
                assert(s@.skip(i as int)[0] == c);
                assert(r@ + path_of(s@.skip(i + 1)) =~= path_of(s@));
            }
            i = i + 1;
        }
    }
    proof {
        assert(s@.skip(n as int) =~= Seq::<char>::empty());
        assert(r@ + path_of(s@.skip(n as int)) =~= r@);
    }
    r
}

/// What std's `char::to_uppercase` yields for a character: its Unicode
/// uppercase mapping, one or more characters.
pub uninterp spec fn upper_of(c: char) -> Seq<char>;

/// Relies on std's `char::to_uppercase`: the Unicode uppercase mapping of
/// `c`, a function of the character alone.
#[verifier::external_body]
pub(crate) fn char_to_uppercase(c: char) -> (r: String)
    ensures
        r@ == upper_of(c),
{
    c.to_uppercase().collect::<String>()
}

/// `s` with every underscore replaced by a space.
pub open spec fn underscores_to_spaces(s: Seq<char>) -> Seq<char> {
    s.map_values(|c: char| if c == '_' { ' ' } else { c })
}

/// The title derived from a case name: first character uppercased, and every
/// underscore of the remainder replaced by a space.
pub open spec fn title_of(name: Seq<char>) -> Seq<char> {
    if name.len() == 0 {
        Seq::empty()
    } else {
        upper_of(name[0]) + underscores_to_spaces(name.skip(1))
    }
}

} // verus!
