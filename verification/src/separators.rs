//! Named separator characters.

use vstd::prelude::*;
use crate::namemap::str_eq;
use crate::text::{chars_of};

verus! {

/// A separator character with metadata.
#[derive(Debug)]
pub struct Separator {
    pub id: String,
    pub name: String,
    pub char: String,
    pub unicode: String,
    pub description: String,
    pub example: String,
}

/// Index of the first separator with the given id, or the length.
pub open spec fn separator_index(s: Seq<Separator>, id: Seq<char>) -> int
    decreases s.len(),
{
    if s.len() == 0 {
        0
    } else if s[0].id@ == id {
        0
    } else {
        1 + separator_index(s.skip(1), id)
    }
}

pub proof fn lemma_separator_index(s: Seq<Separator>, id: Seq<char>)
    ensures
        0 <= separator_index(s, id) <= s.len(),
        separator_index(s, id) < s.len() ==> s[separator_index(s, id)].id@ == id,
        forall|j: int| 0 <= j < separator_index(s, id) ==> s[j].id@ != id,
    decreases s.len(),
{
    if s.len() > 0 && s[0].id@ != id {
        lemma_separator_index(s.skip(1), id);
        assert forall|j: int| 0 <= j < separator_index(s, id) implies s[j].id@ != id by {
            if j > 0 {
                assert(s[j] == s.skip(1)[j - 1]);
            }
        }
    }
}

/// The separator catalogue.
#[derive(Debug)]
pub struct SeparatorsData {
    pub version: String,
    pub separators: Vec<Separator>,
}

impl SeparatorsData {
    /// Load the built-in separators.
    pub fn load() -> (r: crate::error::Result<Self>)
        ensures
            r matches Ok(d) && d.version@ == "1.0.0"@
                && d.separators@.map_values(|x: Separator| (x.id@, x.char@)) == crate::data::separator_table(),
    {
        Ok(SeparatorsData { version: "1.0.0".to_owned(), separators: crate::data::separator_list() })
    }

    /// Find a separator by ID (the first with that ID).
    pub fn find_separator(&self, id: &str) -> (r: Option<&Separator>)
        ensures
            r is Some <==> separator_index(self.separators@, id@) < self.separators@.len(),
            r matches Some(s) ==> *s == self.separators@[separator_index(self.separators@, id@)],
    {
        proof {
            lemma_separator_index(self.separators@, id@);
        }
        let mut i: usize = 0;
        while i < self.separators.len()
            invariant
                i <= self.separators@.len(),
                forall|j: int| 0 <= j < i ==> self.separators@[j].id@ != id@,
                0 <= separator_index(self.separators@, id@) <= self.separators@.len(),
                separator_index(self.separators@, id@) < self.separators@.len() ==> self.separators@[separator_index(self.separators@, id@)].id@ == id@,
                forall|j: int| 0 <= j < separator_index(self.separators@, id@) ==> self.separators@[j].id@ != id@,
            decreases self.separators.len() - i,
        {
            if str_eq(self.separators[i].id.as_str(), id) {
                return Some(&self.separators[i]);
            }
            i = i + 1;
        }
        None
    }

    /// The separator text for an ID, or the input itself when it is a single
    /// character; `None` otherwise.
    pub fn resolve(&self, input: &str) -> (r: Option<String>)
        ensures
            separator_index(self.separators@, input@) < self.separators@.len() ==> (r matches Some(
                s) && s@ == self.separators@[separator_index(self.separators@, input@)].char@),
            separator_index(self.separators@, input@) >= self.separators@.len() ==> (
            if input@.len() == 1 { (r matches Some(s) && s@ == input@) } else { r is None }),
    {
        proof {
            lemma_separator_index(self.separators@, input@);
        }
        if let Some(sep) = self.find_separator(input) {
            return Some(sep.char.clone());
        }
        let v = chars_of(input);
        if v.len() == 1 {
            return Some(input.to_owned());
        }
        None
    }

    /// List all separator IDs, in order.
    pub fn list_ids(&self) -> (r: Vec<String>)
        ensures
            r@.len() == self.separators@.len(),
            forall|i: int| 0 <= i < r@.len() ==> #[trigger] r@[i]@ == self.separators@[i].id@,
    {
        let mut r: Vec<String> = Vec::new();
        let mut i: usize = 0;
        while i < self.separators.len()
            invariant
                i <= self.separators@.len(),
                r@.len() == i,
                forall|j: int| 0 <= j < i ==> #[trigger] r@[j]@ == self.separators@[j].id@,
            decreases self.separators.len() - i,
        {
            r.push(self.separators[i].id.clone());
            i = i + 1;
        }
        r
    }
}

} // verus!
