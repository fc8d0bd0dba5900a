//! The quiz's data: kanji records, the category selection, and the
//! document that persists both.

use vstd::prelude::*;

verus! {

/// One kanji entry: its category tag, the character itself, its two
/// readings, and a comma-separated list of accepted meanings.
#[derive(Debug, PartialEq)]
pub struct Kanji {
    pub category: String,
    pub character: String,
    pub onyomi: String,
    pub kunyomi: String,
    pub meaning: String,
}

impl Clone for Kanji {
    fn clone(&self) -> (r: Kanji)
        ensures
            r == *self,
    {
        Kanji {
            category: self.category.clone(),
            character: self.character.clone(),
            onyomi: self.onyomi.clone(),
            kunyomi: self.kunyomi.clone(),
            meaning: self.meaning.clone(),
        }
    }
}

/// The user's requested category filter.
///
/// `All` stands for "no filter": every record is eligible.  An empty
/// `Categories` list is treated the same way, never as "match nothing".
#[derive(Debug, PartialEq)]
pub enum Selection {
    All,
    Categories(Vec<String>),
}

/// The persisted document: the selection chosen on a previous run and the
/// full ordered list of kanji records.
#[derive(Debug, PartialEq)]
pub struct Config {
    pub selected_category: Selection,
    pub kanji: Vec<Kanji>,
}

impl Config {
    /// Replace the stored selection with `sel`, leaving the kanji list
    /// untouched.  Writing the updated document back to disk is the
    /// caller's concern.
    pub fn apply_selection(&mut self, sel: Selection)
        ensures
            final(self).selected_category == sel,
            final(self).kanji == old(self).kanji,
    {
        self.selected_category = sel;
    }
}

} // verus!
