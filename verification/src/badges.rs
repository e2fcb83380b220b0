//! Enclosed alphanumeric badges (①, ⒜, ❶ ...).

use vstd::prelude::*;
use crate::error::{Error, Result};
use crate::namemap::{NameMap, str_eq};
use crate::registry::BadgeType;
use crate::text::{lists_name, contains_name};

verus! {

/// Index of the first mapping whose source text is `t`, or the length.
pub open spec fn text_index(m: Seq<(String, String)>, t: Seq<char>) -> int
    decreases m.len(),
{
    if m.len() == 0 {
        0
    } else if m[0].0@ == t {
        0
    } else {
        1 + text_index(m.skip(1), t)
    }
}

pub proof fn lemma_text_index(m: Seq<(String, String)>, t: Seq<char>)
    ensures
        0 <= text_index(m, t) <= m.len(),
        text_index(m, t) < m.len() ==> m[text_index(m, t)].0@ == t,
        forall|j: int| 0 <= j < text_index(m, t) ==> m[j].0@ != t,
    decreases m.len(),
{
    if m.len() > 0 && m[0].0@ != t {
        lemma_text_index(m.skip(1), t);
        assert forall|j: int| 0 <= j < text_index(m, t) implies m[j].0@ != t by {
            if j > 0 {
                assert(m[j] == m.skip(1)[j - 1]);
            }
        }
    }
}

/// Badge renderer for enclosed alphanumeric characters.
#[derive(Debug)]
pub struct BadgeRenderer {
    pub badges: NameMap<BadgeType>,
}

impl BadgeRenderer {
    /// The badge type a name designates: by id, else the first badge type
    /// (in id order) listing it as an alias.
    pub open spec fn badge_for(self, name: Seq<char>) -> Option<BadgeType> {
        if self.badges.has(name) {
            Some(self.badges.value_of(name))
        } else if exists|i: int| 0 <= i < self.badges.values().len() && lists_name((#[trigger] self.badges.values()[i]).aliases@, name) {
            let i = choose|i: int| 0 <= i < self.badges.values().len() && lists_name((#[trigger] self.badges.values()[i]).aliases@, name)
                && forall|j: int| 0 <= j < i ==> !lists_name((#[trigger] self.badges.values()[j]).aliases@, name);
            Some(self.badges.values()[i])
        } else {
            None
        }
    }

    /// The renderer holds exactly the built-in badge types.
    pub open spec fn is_builtin(self) -> bool {
        &&& forall|k: Seq<char>| #[trigger] self.badges.has(k) <==> crate::data::badge_names().contains(k)
        &&& forall|k: Seq<char>| #[trigger] self.badges.has(k) ==> crate::data::badge_view(self.badges.value_of(k))
            == crate::data::row_for(crate::data::badge_table(), k)
        &&& forall|k: Seq<char>| #[trigger] self.badges.has(k) ==> self.badges.value_of(k).id@ == k
        &&& forall|k: Seq<char>| #[trigger] self.badges.has(k) ==> crate::data::badge_details(self.badges.value_of(k))
            == crate::data::row_for(crate::data::badge_detail_table(), k)
        &&& crate::namemap::sorted_names(self.badges.names())
    }

    /// Create a badge renderer from the built-in badge types.
    pub fn new() -> (r: Result<Self>)
        ensures
            r matches Ok(b) && b.is_builtin(),
    {
        let data = crate::data::registry_data();
        let ghost entries = data.badges@;
        let b = BadgeRenderer { badges: NameMap::from_entries(data.badges) };
        proof {
            assert forall|k: Seq<char>| #[trigger] b.badges.has(k) <==> crate::data::badge_names().contains(k) by {
                crate::data::lemma_name_found(entries, k);
            }
            let t = crate::data::badge_table();
            assert forall|i: int| 0 <= i < t.len() implies (#[trigger] t[i].1).0 == t[i].0 by {
                assert(0 <= i < 4);
                if i == 0 {} else if i == 1 {} else if i == 2 {} else {}
            }
            assert forall|k: Seq<char>| #[trigger] b.badges.has(k) implies crate::data::badge_view(b.badges.value_of(k))
                == crate::data::row_for(crate::data::badge_table(), k) && b.badges.value_of(k).id@ == k
                && crate::data::badge_details(b.badges.value_of(k)) == crate::data::row_for(crate::data::badge_detail_table(), k) by {
                crate::data::lemma_row_for(entries, |x: BadgeType| crate::data::badge_view(x), k);
                crate::data::lemma_row_for(entries, |x: BadgeType| crate::data::badge_details(x), k);
                crate::data::lemma_name_found(entries, k);
                let j = choose|j: int| 0 <= j < crate::data::badge_names().len() && crate::data::badge_names()[j] == k;
                assert(crate::data::badge_names()[j] == t[j].0);
                crate::data::lemma_row_id(t, |r: (Seq<char>, Seq<char>, Seq<Seq<char>>, Seq<(Seq<char>, Seq<char>)>)| r.0, k);
            }
        }
        Ok(b)
    }

    /// Apply a badge to text: the badge character mapped from the whole text.
    pub fn apply_badge(&self, text: &str, badge_type: &str) -> (r: Result<String>)
        ensures
            self.badge_for(badge_type@) is None ==> (r matches Err(Error::UnknownBadge(n)) && n@ == badge_type@),
            self.badge_for(badge_type@) matches Some(b) ==> (
                if text_index(b.mappings@, text@) < b.mappings@.len() {
                    r matches Ok(s) && s@ == b.mappings@[text_index(b.mappings@, text@)].1@
                } else {
                    r matches Err(Error::UnsupportedChar(x, y)) && x@ == badge_type@ && y@ == text@
                }),
    {
        let badge = self.get_badge(badge_type)?;
        proof {
            lemma_text_index(badge.mappings@, text@);
        }
        let mut i: usize = 0;
        while i < badge.mappings.len()
            invariant
                i <= badge.mappings@.len(),
                self.badge_for(badge_type@) == Some(*badge),
                forall|j: int| 0 <= j < i ==> badge.mappings@[j].0@ != text@,
                0 <= text_index(badge.mappings@, text@) <= badge.mappings@.len(),
                text_index(badge.mappings@, text@) < badge.mappings@.len() ==> badge.mappings@[text_index(badge.mappings@, text@)].0@ == text@,
                forall|j: int| 0 <= j < text_index(badge.mappings@, text@) ==> badge.mappings@[j].0@ != text@,
            decreases badge.mappings.len() - i,
        {
            if str_eq(badge.mappings[i].0.as_str(), text) {
                return Ok(badge.mappings[i].1.clone());
            }
            i = i + 1;
        }
        Err(Error::UnsupportedChar(badge_type.to_owned(), text.to_owned()))
    }

    /// Get a badge type by ID or alias.
    pub fn get_badge(&self, name: &str) -> (r: Result<&BadgeType>)
        ensures
            self.badge_for(name@) matches Some(b) ==> (r matches Ok(g) && *g == b),
            self.badge_for(name@) is None ==> (r matches Err(Error::UnknownBadge(n)) && n@ == name@),
    {
        if let Some(b) = self.badges.get(name) {
            return Ok(b);
        }
        let n = self.badges.len();
        let mut i: usize = 0;
        while i < n
            invariant
                i <= n,
                n == self.badges.values().len(),
                n == self.badges.names().len(),
                !self.badges.has(name@),
                forall|j: int| 0 <= j < i ==> !lists_name((#[trigger] self.badges.values()[j]).aliases@, name@),
            decreases n - i,
        {
            let b = self.badges.value_at(i);
            if contains_name(&b.aliases, name) {
                proof {
                    let w = choose|k: int| 0 <= k < self.badges.values().len() && lists_name((#[trigger] self.badges.values()[k]).aliases@, name@)
                        && forall|j: int| 0 <= j < k ==> !lists_name((#[trigger] self.badges.values()[j]).aliases@, name@);
                    assert(w == i as int) by {
                        if w < i { } else if w > i { assert(lists_name(self.badges.values()[i as int].aliases@, name@)); }
                    }
                }
                return Ok(b);
            }
            i = i + 1;
        }
        Err(Error::UnknownBadge(name.to_owned()))
    }

    /// Check if a badge type exists.
    pub fn has_badge(&self, name: &str) -> (b: bool)
        ensures
            b == self.badge_for(name@) is Some,
    {
        self.get_badge(name).is_ok()
    }

    /// List all badge types, in id order.
    pub fn list_badges(&self) -> (r: Vec<&BadgeType>)
        ensures
            r@.len() == self.badges.values().len(),
            r@.len() == self.badges.names().len(),
            crate::namemap::sorted_names(self.badges.names()),
            forall|i: int| 0 <= i < r@.len() ==> *(#[trigger] r@[i]) == self.badges.values()[i],
            forall|i: int| 0 <= i < r@.len() ==> *(#[trigger] r@[i]) == self.badges.value_of(self.badges.names()[i]),
            (forall|k: Seq<char>| #[trigger] self.badges.has(k) ==> self.badges.value_of(k).id@ == k)
                ==> forall|i: int| 0 <= i < r@.len() ==> (#[trigger] r@[i]).id@ == self.badges.names()[i],
    {
        let n = self.badges.len();
        let mut r: Vec<&BadgeType> = Vec::new();
        let mut i: usize = 0;
        while i < n
            invariant
                i <= n,
                n == self.badges.values().len(),
                n == self.badges.names().len(),
                r@.len() == i,
                forall|j: int| 0 <= j < i ==> *(#[trigger] r@[j]) == self.badges.values()[j],
                forall|j: int| 0 <= j < i ==> self.badges.has(self.badges.names()[j]) && *(#[trigger] r@[j]) == self.badges.value_of(self.badges.names()[j]),
            decreases n - i,
        {
            r.push(self.badges.value_at(i));
            i = i + 1;
        }
        r
    }
}

} // verus!
