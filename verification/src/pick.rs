//! Picking one record at random from a non-empty list.

use vstd::prelude::*;
use crate::errors::QuizError;
use crate::records::Kanji;

verus! {

/// Relies on `rand::Rng::gen_range` over the half-open range `0..n`: it
/// returns an index strictly below `n`, and panics when the range is
/// empty, which the precondition rules out.  Nothing more is stated: the
/// draw is random.
#[verifier::external_body]
fn random_index(n: usize) -> (r: usize)
    requires
        n > 0,
    ensures
        r < n,
{
    rand::Rng::gen_range(&mut rand::thread_rng(), 0..n)
}

/// One record of `records`, drawn at random.
///
/// Succeeds exactly on a non-empty list; an empty list is the caller's
/// error, never a panic.
pub fn pick(records: &Vec<Kanji>) -> (r: Result<&Kanji, QuizError>)
    ensures
        match r {
            Ok(k) => records@.len() > 0 && exists|i: int|
                0 <= i < records@.len() && *k == records@[i],
            Err(e) => e == QuizError::EmptyInput && records@.len() == 0,
        },
{
    if records.len() == 0 {
        Err(QuizError::EmptyInput)
    } else {
        let i = random_index(records.len());
        Ok(&records[i])
    }
}

/// Over a single-element list there is no choice: whatever satisfies the
/// picker's contract is that element.
pub proof fn lemma_pick_singleton(records: Seq<Kanji>, picked: Kanji)
    requires
        records.len() == 1,
        exists|i: int| 0 <= i < records.len() && picked == records[i],
    ensures
        picked == records[0],
{
}

} // verus!
