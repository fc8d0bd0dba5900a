//! Parsing the category token from the command line.
//!
//! One token is accepted in three shapes: the word `all`, which stands
//! for every numbered level; a dash-separated numeric range `a-b`, which
//! expands to every level from `a` through `b`; and a comma-separated
//! list, whose numeric entries (decimal digits, trimmed of surrounding
//! whitespace) become level names and whose other entries pass through
//! verbatim as exact category names.

use vstd::prelude::*;
use crate::errors::QuizError;
use crate::text::{chars_of, spec_split, spec_trim, split_chars, trim_chars, views};

verus! {

/// A decimal digit character.
pub open spec fn is_digit(c: char) -> bool {
    '0' <= c && c <= '9'
}

/// The numeric value of a digit character.
pub open spec fn digit_val(c: char) -> nat {
    (c as int - '0' as int) as nat
}

/// A non-empty, all-digit character sequence.
pub open spec fn all_digits(s: Seq<char>) -> bool {
    s.len() > 0 && forall|i: int| 0 <= i < s.len() ==> is_digit(#[trigger] s[i])
}

/// The value of an all-digit sequence read as a decimal number.
pub open spec fn dec_value(s: Seq<char>) -> nat
    decreases s.len(),
{
    if s.len() == 0 {
        0
    } else {
        dec_value(s.drop_last()) * 10 + digit_val(s.last())
    }
}

/// The digit character for a value below ten.
pub open spec fn digit_char(d: nat) -> char {
    if d == 0 {
        '0'
    } else if d == 1 {
        '1'
    } else if d == 2 {
        '2'
    } else if d == 3 {
        '3'
    } else if d == 4 {
        '4'
    } else if d == 5 {
        '5'
    } else if d == 6 {
        '6'
    } else if d == 7 {
        '7'
    } else if d == 8 {
        '8'
    } else {
        '9'
    }
}

/// The shortest decimal rendering of `n`.
pub open spec fn dec_str(n: nat) -> Seq<char>
    decreases n,
{
    if n < 10 {
        seq![digit_char(n)]
    } else {
        dec_str(n / 10) + seq![digit_char(n % 10)]
    }
}

/// The five characters every numbered level name starts with.
pub open spec fn level_prefix() -> Seq<char> {
    seq!['j', 'l', 'p', 't', 'n']
}

/// The category name of numbered level `n`.
pub open spec fn level_name(n: nat) -> Seq<char> {
    level_prefix() + dec_str(n)
}

/// The level names from `a` through `b`, in order; empty when `a > b`.
pub open spec fn spec_levels(a: nat, b: nat) -> Seq<Seq<char>> {
    if a > b {
        Seq::empty()
    } else {
        Seq::new((b - a + 1) as nat, |i: int| level_name((a + i) as nat))
    }
}

/// The category name a comma-list token stands for: a numeric token
/// (after trimming) names its level, any other token passes through
/// verbatim.
pub open spec fn name_of_token(t: Seq<char>) -> Seq<char> {
    if all_digits(t) {
        level_prefix() + t
    } else {
        t
    }
}

/// The category names of a comma-separated token list.
pub open spec fn spec_comma_list(s: Seq<char>) -> Seq<Seq<char>> {
    spec_split(s, ',').map_values(|t: Seq<char>| name_of_token(spec_trim(t)))
}

/// What parsing the selection token yields: the expanded category names,
/// or the range error.
pub open spec fn spec_parse_selection(s: Seq<char>) -> Result<Seq<Seq<char>>, QuizError> {
    if s == seq!['a', 'l', 'l'] {
        Ok(spec_levels(1, 5))
    } else if s.contains('-') {
        let parts = spec_split(s, '-');
        if parts.len() == 2 && all_digits(parts[0]) && all_digits(parts[1]) && dec_value(parts[0])
            <= u32::MAX && dec_value(parts[1]) <= u32::MAX {
            Ok(spec_levels(dec_value(parts[0]), dec_value(parts[1])))
        } else {
            Err(QuizError::InvalidRange)
        }
    } else {
        Ok(spec_comma_list(s))
    }
}

/// The views of a sequence of strings.
pub open spec fn string_views(s: Seq<String>) -> Seq<Seq<char>> {
    s.map_values(|x: String| x@)
}

/// Relies on `String::push`: it appends the one character to the end of
/// the string.
#[verifier::external_body]
fn push_char(s: &mut String, c: char)
    ensures
        final(s)@ == old(s)@.push(c),
{
    s.push(c);
}

/// The string holding exactly the characters of `cs`.
pub fn string_of_chars(cs: &Vec<char>) -> (r: String)
    ensures
        r@ == cs@,
{
    let mut s = String::new();
    let n = cs.len();
    for i in 0..n
        invariant
            n == cs@.len(),
            s@ == cs@.take(i as int),
    {
        push_char(&mut s, cs[i]);
        proof {
            assert(s@ =~= cs@.take(i + 1));
        }
    }
    proof {
        assert(cs@.take(n as int) =~= cs@);
    }
    s
}

/// The digit character for `d`.
fn digit_char_exec(d: u32) -> (r: char)
    requires
        d < 10,
    ensures
        r == digit_char(d as nat),
{
    if d == 0 {
        '0'
    } else if d == 1 {
        '1'
    } else if d == 2 {
        '2'
    } else if d == 3 {
        '3'
    } else if d == 4 {
        '4'
    } else if d == 5 {
        '5'
    } else if d == 6 {
        '6'
    } else if d == 7 {
        '7'
    } else if d == 8 {
        '8'
    } else {
        '9'
    }
}

/// Append the decimal rendering of `n` to `out`.
fn push_dec(n: u32, out: &mut Vec<char>)
    ensures
        final(out)@ == old(out)@ + dec_str(n as nat),
    decreases n,
{
    if n >= 10 {
        push_dec(n / 10, out);
        out.push(digit_char_exec(n % 10));
        proof {
            assert(out@ =~= old(out)@ + dec_str(n as nat));
        }
    } else {
        out.push(digit_char_exec(n));
        proof {
            assert(out@ =~= old(out)@ + dec_str(n as nat));
        }
    }
}

/// The category name of numbered level `n`.
pub fn level_string(n: u32) -> (r: String)
    ensures
        r@ == level_name(n as nat),
{
    let mut cs: Vec<char> = Vec::new();
    cs.push('j');
    cs.push('l');
    cs.push('p');
    cs.push('t');
    cs.push('n');
    proof {
        assert(cs@ =~= level_prefix());
    }
    push_dec(n, &mut cs);
    string_of_chars(&cs)
}

/// The level names from `a` through `b`, in order.
pub fn level_names(a: u32, b: u32) -> (r: Vec<String>)
    ensures
        string_views(r@) == spec_levels(a as nat, b as nat),
{
    let mut out: Vec<String> = Vec::new();
    if a > b {
        proof {
            assert(string_views(out@) =~= spec_levels(a as nat, b as nat));
        }
        return out;
    }
    let count: u64 = b as u64 - a as u64 + 1;
    let mut i: u64 = 0;
    while i < count
        invariant
            a <= b,
            count == b as u64 - a as u64 + 1,
            i <= count,
            out@.len() == i,
            forall|j: int| 0 <= j < i ==> (#[trigger] out@[j])@ == level_name((a + j) as nat),
        decreases count - i,
    {
        let n: u32 = (a as u64 + i) as u32;
        out.push(level_string(n));
        i = i + 1;
    }
    proof {
        assert(string_views(out@) =~= spec_levels(a as nat, b as nat));
    }
    out
}

/// Reading one more digit multiplies the value so far by ten; a longer
/// digit string is never worth less than its prefix.
proof fn lemma_dec_value_prefix(s: Seq<char>, i: int)
    requires
        0 <= i <= s.len(),
    ensures
        dec_value(s) >= dec_value(s.take(i)),
    decreases s.len() - i,
{
    if i == s.len() {
        assert(s.take(i) =~= s);
    } else {
        lemma_dec_value_prefix(s, i + 1);
        assert(s.take(i + 1).drop_last() =~= s.take(i));
        assert(dec_value(s.take(i + 1)) == dec_value(s.take(i)) * 10 + digit_val(
            s.take(i + 1).last(),
        ));
    }
}

/// The number an all-digit token names, or `None` for a token that is
/// not all digits or does not fit.
pub fn parse_u32(cs: &Vec<char>) -> (r: Option<u32>)
    ensures
        match r {
            Some(n) => all_digits(cs@) && dec_value(cs@) == n as nat,
            None => !all_digits(cs@) || dec_value(cs@) > u32::MAX,
        },
{
    let n = cs.len();
    if n == 0 {
        return None;
    }
    let mut acc: u32 = 0;
    for i in 0..n
        invariant
            n == cs@.len(),
            forall|j: int| 0 <= j < i ==> is_digit(#[trigger] cs@[j]),
            acc as nat == dec_value(cs@.take(i as int)),
    {
        let c = cs[i];
        if !('0' <= c && c <= '9') {
            return None;
        }
        let d: u32 = (c as u32) - ('0' as u32);
        let wide: u64 = (acc as u64) * 10 + (d as u64);
        proof {
            assert(cs@.take(i + 1).drop_last() =~= cs@.take(i as int));
            assert(dec_value(cs@.take(i + 1)) == dec_value(cs@.take(i as int)) * 10 + digit_val(
                cs@[i as int],
            ));
        }
        if wide > u32::MAX as u64 {
            proof {
                lemma_dec_value_prefix(cs@, i + 1);
            }
            return None;
        }
        acc = wide as u32;
    }
    proof {
        assert(cs@.take(n as int) =~= cs@);
    }
    Some(acc)
}

/// Whether `cs` reads `all`.
fn is_all(cs: &Vec<char>) -> (r: bool)
    ensures
        r == (cs@ == seq!['a', 'l', 'l']),
{
    if cs.len() == 3 && cs[0] == 'a' && cs[1] == 'l' && cs[2] == 'l' {
        proof {
            assert(cs@ =~= seq!['a', 'l', 'l']);
        }
        true
    } else {
        false
    }
}

/// Whether `cs` holds the character `c`.
fn contains_char(cs: &Vec<char>, c: char) -> (r: bool)
    ensures
        r == cs@.contains(c),
{
    let n = cs.len();
    for i in 0..n
        invariant
            n == cs@.len(),
            forall|j: int| 0 <= j < i ==> cs@[j] != c,
    {
        if cs[i] == c {
            return true;
        }
    }
    false
}

/// Whether `cs` is non-empty and all digits.
fn all_digits_exec(cs: &Vec<char>) -> (r: bool)
    ensures
        r == all_digits(cs@),
{
    let n = cs.len();
    if n == 0 {
        return false;
    }
    for i in 0..n
        invariant
            n == cs@.len(),
            forall|j: int| 0 <= j < i ==> is_digit(#[trigger] cs@[j]),
    {
        let c = cs[i];
        if !('0' <= c && c <= '9') {
            return false;
        }
    }
    true
}

/// The category name a trimmed comma-list token stands for.
fn token_name(t: &Vec<char>) -> (r: String)
    ensures
        r@ == name_of_token(t@),
{
    if all_digits_exec(t) {
        let mut cs: Vec<char> = Vec::new();
        cs.push('j');
        cs.push('l');
        cs.push('p');
        cs.push('t');
        cs.push('n');
        let n = t.len();
        for i in 0..n
            invariant
                n == t@.len(),
                cs@ == level_prefix() + t@.take(i as int),
        {
            cs.push(t[i]);
            proof {
                assert(cs@ =~= level_prefix() + t@.take(i + 1));
            }
        }
        proof {
            assert(level_prefix() + t@.take(n as int) =~= name_of_token(t@));
        }
        string_of_chars(&cs)
    } else {
        string_of_chars(t)
    }
}

/// The category names the selection token names.
///
/// The word `all` expands to levels one through five.  A token holding a
/// dash must be exactly two all-digit parts, each fitting a 32-bit
/// number; anything else with a dash is an invalid range.  Any other
/// token is read as a comma-separated list.
pub fn parse_selection(value: &str) -> (r: Result<Vec<String>, QuizError>)
    ensures
        match r {
            Ok(v) => spec_parse_selection(value@) == Ok::<Seq<Seq<char>>, QuizError>(
                string_views(v@),
            ),
            Err(e) => spec_parse_selection(value@) == Err::<Seq<Seq<char>>, QuizError>(e),
        },
{
    let cs = chars_of(value);
    if is_all(&cs) {
        Ok(level_names(1, 5))
    } else if contains_char(&cs, '-') {
        let parts = split_chars(&cs, '-');
        if parts.len() != 2 {
            return Err(QuizError::InvalidRange);
        }
        proof {
            assert(parts@[0]@ == spec_split(cs@, '-')[0]);
            assert(parts@[1]@ == spec_split(cs@, '-')[1]);
        }
        let lo = parse_u32(&parts[0]);
        let hi = parse_u32(&parts[1]);
        match (lo, hi) {
            (Some(a), Some(b)) => Ok(level_names(a, b)),
            _ => Err(QuizError::InvalidRange),
        }
    } else {
        let parts = split_chars(&cs, ',');
        let mut out: Vec<String> = Vec::new();
        let n = parts.len();
        for i in 0..n
            invariant
                n == parts@.len(),
                views(parts@) == spec_split(cs@, ','),
                out@.len() == i,
                forall|j: int| 0 <= j < i ==> (#[trigger] out@[j])@ == name_of_token(
                    spec_trim(spec_split(cs@, ',')[j]),
                ),
        {
            proof {
                assert(parts@[i as int]@ == spec_split(cs@, ',')[i as int]);
            }
            let t = trim_chars(parts[i].clone());
            out.push(token_name(&t));
        }
        proof {
            assert(string_views(out@) =~= spec_comma_list(cs@));
        }
        Ok(out)
    }
}

} // verus!
