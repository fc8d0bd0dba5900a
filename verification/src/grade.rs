//! Grading a typed answer against a record's stored meanings.
//!
//! The meaning field is a comma-separated list of acceptable answers.  An
//! answer is correct when, after trimming surrounding whitespace and
//! ASCII-lowercasing, it equals one of the listed meanings treated the
//! same way.

use vstd::prelude::*;
use crate::text::{chars_of, chars_eq, lower_chars, lower_seq, spec_split, spec_trim, trim_chars, views,
    split_chars};

verus! {

/// `s` trimmed of surrounding whitespace and ASCII-lowercased: the form
/// in which answers are compared.
pub open spec fn spec_norm(s: Seq<char>) -> Seq<char> {
    lower_seq(spec_trim(s))
}

/// Whether `guess` matches one of the comma-separated meanings in
/// `meaning`, comparing both in normalized form.
pub open spec fn spec_correct(meaning: Seq<char>, guess: Seq<char>) -> bool {
    exists|i: int|
        0 <= i < spec_split(meaning, ',').len() && spec_norm(
            #[trigger] spec_split(meaning, ',')[i],
        ) == spec_norm(guess)
}

/// Whether the typed `guess` is an acceptable reading of `meaning`.
pub fn grade_answer(meaning: &str, guess: &str) -> (r: bool)
    ensures
        r == spec_correct(meaning@, guess@),
{
    let m = chars_of(meaning);
    let g = chars_of(guess);
    let norm_guess = lower_chars(&trim_chars(g));
    let parts = split_chars(&m, ',');
    let n = parts.len();
    for i in 0..n
        invariant
            n == parts@.len(),
            views(parts@) == spec_split(m@, ','),
            m@ == meaning@,
            norm_guess@ == spec_norm(guess@),
            forall|j: int| 0 <= j < i ==> spec_norm(#[trigger] spec_split(meaning@, ',')[j])
                != spec_norm(guess@),
    {
        proof {
            assert(parts@[i as int]@ == spec_split(m@, ',')[i as int]);
        }
        let candidate = lower_chars(&trim_chars(parts[i].clone()));
        if chars_eq(&candidate, &norm_guess) {
            return true;
        }
    }
    false
}

} // verus!
