//! Unicode text styles: character mappings and their catalogue.

use vstd::prelude::*;
use crate::error::{Error, Result};
use crate::namemap::{NameMap, str_eq, sorted_names};
use crate::registry::EvalContext;
use crate::text::{string_of, push_str_chars};

verus! {

/// Category of Unicode style.
#[derive(Debug, Clone, Copy, PartialEq, Eq, Structural)]
pub enum StyleCategory {
    Bold,
    Boxed,
    Technical,
    Elegant,
}

/// What character types a style supports.
#[derive(Debug, Clone, Copy)]
pub struct StyleSupport {
    pub uppercase: bool,
    pub lowercase: bool,
    pub numbers: bool,
    pub symbols: bool,
}

/// A Unicode text style with character mappings.
#[derive(Debug)]
pub struct Style {
    pub id: String,
    pub name: String,
    pub description: String,
    pub category: StyleCategory,
    pub unicode_block: String,
    pub aliases: Vec<String>,
    pub supports: StyleSupport,
    /// Each entry maps a character to the text it becomes; the first entry
    /// for a character is the one that applies.
    pub mappings: Vec<(char, String)>,
    pub contexts: Vec<EvalContext>,
}

/// Index of the first mapping for `c`, or the length when there is none.
pub open spec fn mapping_index(m: Seq<(char, String)>, c: char) -> int
    decreases m.len(),
{
    if m.len() == 0 {
        0
    } else if m[0].0 == c {
        0
    } else {
        1 + mapping_index(m.skip(1), c)
    }
}

pub proof fn lemma_mapping_index(m: Seq<(char, String)>, c: char)
    ensures
        0 <= mapping_index(m, c) <= m.len(),
        mapping_index(m, c) < m.len() ==> m[mapping_index(m, c)].0 == c,
        forall|j: int| 0 <= j < mapping_index(m, c) ==> m[j].0 != c,
    decreases m.len(),
{
    if m.len() > 0 && m[0].0 != c {
        lemma_mapping_index(m.skip(1), c);
        assert forall|j: int| 0 <= j < mapping_index(m, c) implies m[j].0 != c by {
            if j > 0 {
                assert(m[j] == m.skip(1)[j - 1]);
            }
        }
    }
}

/// What a style turns one character into: its mapping, or the character itself.
pub open spec fn char_image(m: Seq<(char, String)>, c: char) -> Seq<char> {
    let i = mapping_index(m, c);
    if i < m.len() {
        m[i].1@
    } else {
        seq![c]
    }
}

/// A name equals the id or one of the aliases.
pub open spec fn names_style(s: Style, name: Seq<char>) -> bool {
    s.id@ == name || exists|i: int| 0 <= i < s.aliases@.len() && #[trigger] s.aliases@[i]@ == name
}

impl Style {
    /// Index of the first mapping for `c`.
    fn find_mapping(&self, c: char) -> (r: usize)
        ensures
            r as int == mapping_index(self.mappings@, c),
    {
        proof {
            lemma_mapping_index(self.mappings@, c);
        }
        let mut i: usize = 0;
        while i < self.mappings.len()
            invariant
                i <= self.mappings@.len(),
                forall|j: int| 0 <= j < i ==> self.mappings@[j].0 != c,
                0 <= mapping_index(self.mappings@, c) <= self.mappings@.len(),
                mapping_index(self.mappings@, c) < self.mappings@.len() ==> self.mappings@[mapping_index(self.mappings@, c)].0 == c,
                forall|j: int| 0 <= j < mapping_index(self.mappings@, c) ==> self.mappings@[j].0 != c,
            decreases self.mappings.len() - i,
        {
            if self.mappings[i].0 == c {
                return i;
            }
            i = i + 1;
        }
        i
    }

    /// Check if this style supports a given character.
    pub fn supports_char(&self, c: char) -> (b: bool)
        ensures
            b == (mapping_index(self.mappings@, c) < self.mappings@.len()),
    {
        self.find_mapping(c) < self.mappings.len()
    }

    /// Convert a character to the text this style gives it.
    pub fn convert_char_to_string(&self, c: char) -> (r: String)
        ensures
            r@ == char_image(self.mappings@, c),
    {
        let i = self.find_mapping(c);
        if i < self.mappings.len() {
            self.mappings[i].1.clone()
        } else {
            let mut v: Vec<char> = Vec::new();
            v.push(c);
            string_of(v.as_slice())
        }
    }

    /// Convert a character using this style's mappings. Returns the original
    /// character if no mapping exists or the mapping is not a single character.
    pub fn convert_char(&self, c: char) -> (r: char)
        ensures
            char_image(self.mappings@, c).len() == 1 ==> r == char_image(self.mappings@, c)[0],
            char_image(self.mappings@, c).len() != 1 ==> r == c,
    {
        let i = self.find_mapping(c);
        if i < self.mappings.len() {
            let v = crate::text::chars_of(self.mappings[i].1.as_str());
            if v.len() == 1 {
                v[0]
            } else {
                c
            }
        } else {
            c
        }
    }

    /// Check if this style matches a given ID or alias.
    pub fn matches(&self, name: &str) -> (b: bool)
        ensures
            b == names_style(*self, name@),
    {
        if str_eq(self.id.as_str(), name) {
            return true;
        }
        let mut i: usize = 0;
        while i < self.aliases.len()
            invariant
                i <= self.aliases@.len(),
                forall|j: int| 0 <= j < i ==> self.aliases@[j]@ != name@,
            decreases self.aliases.len() - i,
        {
            if str_eq(self.aliases[i].as_str(), name) {
                return true;
            }
            i = i + 1;
        }
        false
    }
}

/// The style catalogue.
#[derive(Debug)]
pub struct StylesData {
    pub version: String,
    pub last_updated: String,
    pub total_styles: usize,
    pub styles: NameMap<Style>,
}

/// The styles of a category, in order.
pub open spec fn in_category(v: Seq<Style>, c: StyleCategory) -> Seq<Style>
    decreases v.len(),
{
    if v.len() == 0 {
        Seq::empty()
    } else if v.last().category == c {
        in_category(v.drop_last(), c).push(v.last())
    } else {
        in_category(v.drop_last(), c)
    }
}

impl StylesData {
    /// Load the built-in styles.
    pub fn load() -> (r: Result<Self>)
        ensures
            r matches Ok(d) && d.version@ == "2.0.0"@ && d.last_updated@ == Seq::<char>::empty()
                && d.total_styles == d.styles.names().len()
                && (forall|k: Seq<char>| #[trigger] d.styles.has(k) <==> crate::data::style_names().contains(k))
                && (forall|k: Seq<char>| #[trigger] d.styles.has(k) ==> crate::data::style_view(d.styles.value_of(k))
                    == crate::data::row_for(crate::data::style_table(), k))
                && (forall|k: Seq<char>| #[trigger] d.styles.has(k) ==> crate::data::style_details(d.styles.value_of(k))
                    == crate::data::row_for(crate::data::style_detail_table(), k)),
    {
        let data = crate::data::registry_data();
        let ghost entries = data.styles@;
        let styles: NameMap<Style> = NameMap::from_entries(data.styles);
        let n = styles.len();
        let d = StylesData { version: data.version, last_updated: String::new(), total_styles: n, styles };
        proof {
            assert forall|k: Seq<char>| #[trigger] d.styles.has(k) <==> crate::data::style_names().contains(k) by {
                crate::data::lemma_name_found(entries, k);
            }
            assert forall|k: Seq<char>| #[trigger] d.styles.has(k) implies crate::data::style_view(d.styles.value_of(k))
                == crate::data::row_for(crate::data::style_table(), k) by {
                crate::data::lemma_row_for(entries, |x: Style| crate::data::style_view(x), k);
            }
            assert forall|k: Seq<char>| #[trigger] d.styles.has(k) implies crate::data::style_details(d.styles.value_of(k))
                == crate::data::row_for(crate::data::style_detail_table(), k) by {
                crate::data::lemma_row_for(entries, |x: Style| crate::data::style_details(x), k);
            }
        }
        Ok(d)
    }

    /// Find a style by ID or alias: the style stored under that ID, else the
    /// first style (in ID order) that has the name as an alias.
    pub fn find_style(&self, name: &str) -> (r: Option<&Style>)
        ensures
            self.styles.has(name@) ==> (r matches Some(s) && *s == self.styles.value_of(name@)),
            !self.styles.has(name@) ==> (r is Some <==> exists|i: int|
                0 <= i < self.styles.values().len() && names_style(#[trigger] self.styles.values()[i], name@)),
            r matches Some(s) ==> names_style(*s, name@) || self.styles.has(name@),
    {
        if let Some(s) = self.styles.get(name) {
            return Some(s);
        }
        let n = self.styles.len();
        let mut i: usize = 0;
        while i < n
            invariant
                n == self.styles.values().len(),
                n == self.styles.names().len(),
                i <= n,
                !self.styles.has(name@),
                forall|j: int| 0 <= j < i ==> !names_style(#[trigger] self.styles.values()[j], name@),
            decreases n - i,
        {
            let s = self.styles.value_at(i);
            if s.matches(name) {
                return Some(s);
            }
            i = i + 1;
        }
        None
    }

    /// Get all styles in a category, in ID order.
    pub fn by_category(&self, category: &StyleCategory) -> (r: Vec<&Style>)
        ensures
            forall|i: int| 0 <= i < r@.len() ==> (#[trigger] r@[i]).category == *category,
            r@.map_values(|s: &Style| *s) == in_category(self.styles.values(), *category),
    {
        let mut r: Vec<&Style> = Vec::new();
        let n = self.styles.len();
        let mut i: usize = 0;
        while i < n
            invariant
                i <= n,
                n == self.styles.values().len(),
                n == self.styles.names().len(),
                forall|j: int| 0 <= j < r@.len() ==> (#[trigger] r@[j]).category == *category,
                r@.map_values(|s: &Style| *s) == in_category(self.styles.values().take(i as int), *category),
            decreases n - i,
        {
            let s = self.styles.value_at(i);
            let ghost before = r@;
            proof {
                assert(self.styles.values().take(i + 1).drop_last() =~= self.styles.values().take(i as int));
                assert(self.styles.values().take(i + 1).last() == self.styles.values()[i as int]);
            }
            if s.category == *category {
                r.push(s);
                assert(r@.map_values(|s: &Style| *s) =~= before.map_values(|s: &Style| *s).push(*s));
            }
            i = i + 1;
        }
        proof {
            assert(self.styles.values().take(n as int) =~= self.styles.values());
        }
        r
    }

    /// List all style IDs, sorted.
    pub fn list_ids(&self) -> (r: Vec<String>)
        ensures
            r@.len() == self.styles.names().len(),
            forall|i: int| 0 <= i < r@.len() ==> #[trigger] r@[i]@ == self.styles.names()[i],
            sorted_names(self.styles.names()),
    {
        self.styles.keys()
    }
}

} // verus!
