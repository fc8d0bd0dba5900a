//! The category filter: which records a selection keeps, and the checks
//! around it.

use vstd::prelude::*;
use crate::errors::QuizError;
use crate::records::{Kanji, Selection};

verus! {

/// Whether `cat` is the view of one of the names in `cats`.
pub open spec fn spec_selected(cats: Seq<String>, cat: Seq<char>) -> bool {
    exists|i: int| 0 <= i < cats.len() && cats[i]@ == cat
}

/// Whether the selection keeps a record of category `cat`.
///
/// `All` keeps everything; an empty category list is "no filter" by
/// convention, so it keeps everything too.
pub open spec fn spec_matches(sel: &Selection, cat: Seq<char>) -> bool {
    match sel {
        Selection::All => true,
        Selection::Categories(cats) => cats@.len() == 0 || spec_selected(cats@, cat),
    }
}

/// The subsequence of `records` the selection keeps, in their original
/// order.
pub open spec fn spec_filter(records: Seq<Kanji>, sel: &Selection) -> Seq<Kanji> {
    records.filter(|k: Kanji| spec_matches(sel, k.category@))
}

/// How often `x` occurs in `s`.
pub open spec fn count_of(s: Seq<Kanji>, x: Kanji) -> nat
    decreases s.len(),
{
    if s.len() == 0 {
        0
    } else {
        count_of(s.drop_last(), x) + (if s.last() == x { 1nat } else { 0nat })
    }
}

/// Whether `name` is the view of one of the names in `cats`.
pub fn selected_name(cats: &Vec<String>, name: &String) -> (r: bool)
    ensures
        r == spec_selected(cats@, name@),
{
    let n = cats.len();
    for i in 0..n
        invariant
            n == cats@.len(),
            forall|j: int| 0 <= j < i ==> cats@[j]@ != name@,
    {
        if cats[i] == *name {
            return true;
        }
    }
    false
}

/// Whether the selection keeps a record of category `name`.
pub fn matches_selection(sel: &Selection, name: &String) -> (r: bool)
    ensures
        r == spec_matches(sel, name@),
{
    match sel {
        Selection::All => true,
        Selection::Categories(cats) => cats.len() == 0 || selected_name(cats, name),
    }
}

/// The records the selection keeps, in their original order.
///
/// An empty result is an error: the caller must not go on to pick a
/// record from nothing.
pub fn filter_records(records: &Vec<Kanji>, sel: &Selection) -> (r: Result<
    Vec<Kanji>,
    QuizError,
>)
    ensures
        match r {
            Ok(kept) => kept@ == spec_filter(records@, sel) && kept@.len() > 0,
            Err(e) => e == QuizError::EmptySelection && spec_filter(records@, sel).len() == 0,
        },
{
    broadcast use vstd::seq_lib::group_filter_ensures;

    let pred = Ghost(|k: Kanji| spec_matches(sel, k.category@));
    let mut kept: Vec<Kanji> = Vec::new();
    let n = records.len();
    for i in 0..n
        invariant
            n == records@.len(),
            kept@ == records@.take(i as int).filter(pred@),
            pred@ == (|k: Kanji| spec_matches(sel, k.category@)),
    {
        proof {
            assert(records@.take(i + 1).drop_last() =~= records@.take(i as int));
            assert(records@.take(i + 1).last() == records@[i as int]);
            reveal(Seq::filter);
        }
        if matches_selection(sel, &records[i].category) {
            kept.push(records[i].clone());
        }
    }
    proof {
        assert(records@.take(n as int) =~= records@);
    }
    if kept.len() == 0 {
        Err(QuizError::EmptySelection)
    } else {
        Ok(kept)
    }
}

/// Whether some record in `records` carries the category `cat`.
pub open spec fn spec_has_category(records: Seq<Kanji>, cat: Seq<char>) -> bool {
    exists|j: int| 0 <= j < records.len() && records[j].category@ == cat
}

/// Every requested category must name at least one record; the first one
/// that does not makes the whole selection invalid.
pub fn check_categories(records: &Vec<Kanji>, cats: &Vec<String>) -> (r: Result<(), QuizError>)
    ensures
        match r {
            Ok(()) => forall|i: int|
                0 <= i < cats@.len() ==> spec_has_category(records@, #[trigger] cats@[i]@),
            Err(e) => e == QuizError::InvalidCategory && exists|i: int|
                0 <= i < cats@.len() && !spec_has_category(records@, #[trigger] cats@[i]@),
        },
{
    let n = cats.len();
    for i in 0..n
        invariant
            n == cats@.len(),
            forall|a: int| 0 <= a < i ==> spec_has_category(records@, #[trigger] cats@[a]@),
    {
        let mut found = false;
        let m = records.len();
        for j in 0..m
            invariant
                m == records@.len(),
                i < n == cats@.len(),
                found ==> spec_has_category(records@, cats@[i as int]@),
                !found ==> forall|b: int| 0 <= b < j ==> records@[b].category@ != cats@[i as int]@,
        {
            if records[j].category == cats[i] {
                found = true;
            }
        }
        if !found {
            proof {
                let w: int = i as int;
                assert(!spec_has_category(records@, cats@[w]@));
                assert(0 <= w < cats@.len() && !spec_has_category(records@, cats@[w]@));
            }
            return Err(QuizError::InvalidCategory);
        }
    }
    Ok(())
}

/// A selection that selects no categories: `All`, or an empty category
/// list, which by convention also means "no filter".
pub open spec fn spec_no_filter(sel: &Selection) -> bool {
    match sel {
        Selection::All => true,
        Selection::Categories(cats) => cats@.len() == 0,
    }
}

/// A selection that selects no categories leaves the record list as it
/// was, order included.
pub proof fn lemma_filter_no_filter(records: Seq<Kanji>, sel: &Selection)
    requires
        records.len() > 0,
        spec_no_filter(sel),
    ensures
        spec_filter(records, sel) == records,
    decreases records.len(),
{
    reveal(Seq::filter);
    if records.len() > 1 {
        lemma_filter_no_filter(records.drop_last(), sel);
    } else {
        assert(records.drop_last() =~= Seq::<Kanji>::empty());
    }
    assert(spec_filter(records, sel) =~= records);
}

/// Filtering keeps exactly the matching records: each kept record's
/// category matches the selection, and every record occurs in the result
/// as often as it occurs in the input if its category matches, and not at
/// all otherwise.
pub proof fn lemma_filter_exact(records: Seq<Kanji>, sel: &Selection, x: Kanji)
    ensures
        forall|i: int|
            0 <= i < spec_filter(records, sel).len() ==> spec_matches(
                sel,
                #[trigger] spec_filter(records, sel)[i].category@,
            ),
        count_of(spec_filter(records, sel), x) == if spec_matches(sel, x.category@) {
            count_of(records, x)
        } else {
            0nat
        },
    decreases records.len(),
{
    broadcast use vstd::seq_lib::group_filter_ensures;

    reveal(Seq::filter);
    if records.len() == 0 {
    } else {
        lemma_filter_exact(records.drop_last(), sel, x);
        let pred = |k: Kanji| spec_matches(sel, k.category@);
        if pred(records.last()) {
            assert(spec_filter(records, sel) == spec_filter(records.drop_last(), sel).push(
                records.last(),
            ));
            assert(spec_filter(records, sel).drop_last() =~= spec_filter(
                records.drop_last(),
                sel,
            ));
        }
    }
}

} // verus!
