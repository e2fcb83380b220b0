//! Unicode text styling of whole strings.

use vstd::prelude::*;
use crate::error::{Error, Result};
use crate::namemap::{NameMap, sorted_names};
use crate::registry::{lookup_alias, get_with_alias, alias_table, clone_strings};
use crate::styles::{Style, char_image};
use crate::text::{chars_of, string_of, join, join_chars, repeat, repeat_chars};

verus! {

/// Each character's image under a style's mappings.
pub open spec fn images(m: Seq<(char, String)>, text: Seq<char>) -> Seq<Seq<char>> {
    text.map_values(|c: char| char_image(m, c))
}

/// The styled text: the images of the characters, with `count` copies of
/// `sep` between consecutive images (nothing when `count` is 0 or `sep` empty).
pub open spec fn styled(m: Seq<(char, String)>, text: Seq<char>, sep: Seq<char>, count: nat) -> Seq<char> {
    if count == 0 || sep.len() == 0 {
        join(images(m, text), Seq::empty())
    } else {
        join(images(m, text), repeat(sep, count))
    }
}

/// Main converter for Unicode text styling.
#[derive(Debug)]
pub struct Converter {
    pub styles: NameMap<Style>,
    /// alias -> style id
    pub alias_map: NameMap<String>,
}

impl Converter {
    /// The style a name designates: by id, else by alias.
    pub open spec fn style_for(self, name: Seq<char>) -> Option<Style> {
        lookup_alias(self.styles, self.alias_map, name)
    }

    /// The converter holds exactly the built-in styles.
    pub open spec fn is_builtin(self) -> bool {
        &&& forall|k: Seq<char>| #[trigger] self.styles.has(k) <==> crate::data::style_names().contains(k)
        &&& forall|k: Seq<char>| #[trigger] self.styles.has(k) ==> crate::data::style_view(self.styles.value_of(k))
            == crate::data::row_for(crate::data::style_table(), k)
        &&& crate::registry::holds_map(self.alias_map, crate::registry::alias_map(crate::data::style_alias_table()))
    }

    /// Create a new converter with all built-in styles loaded.
    pub fn new() -> (r: Result<Self>)
        ensures
            r matches Ok(c) && c.is_builtin(),
    {
        let data = crate::data::registry_data();
        let mut ids: Vec<(String, Vec<String>)> = Vec::new();
        let mut i: usize = 0;
        while i < data.styles.len()
            invariant
                i <= data.styles@.len(),
                crate::registry::id_views(ids@) == crate::data::keyed(data.styles@.take(i as int), |x: Style| crate::components::strs(x.aliases@)),
            decreases data.styles.len() - i,
        {
            let ghost before = ids@;
            ids.push((data.styles[i].0.clone(), clone_strings(&data.styles[i].1.aliases)));
            proof {
                assert(data.styles@.take(i + 1) =~= data.styles@.take(i as int).push(data.styles@[i as int]));
                crate::data::lemma_keyed_push(data.styles@.take(i as int), data.styles@[i as int], |x: Style| crate::components::strs(x.aliases@));
                assert(crate::registry::id_views(ids@) =~= crate::registry::id_views(before).push((data.styles@[i as int].0@, crate::components::strs(data.styles@[i as int].1.aliases@))));
            }
            i = i + 1;
        }
        proof {
            assert(data.styles@.take(data.styles@.len() as int) =~= data.styles@);
            assert(crate::data::keyed(data.styles@, |x: Style| crate::components::strs(x.aliases@)) =~= crate::data::style_alias_table());
        }
        let alias_map = alias_table(&ids);
        let ghost entries = data.styles@;
        let styles = NameMap::from_entries(data.styles);
        let c = Converter { styles, alias_map };
        proof {
            assert forall|k: Seq<char>| #[trigger] c.styles.has(k) <==> crate::data::style_names().contains(k) by {
                crate::data::lemma_name_found(entries, k);
            }
            assert forall|k: Seq<char>| #[trigger] c.styles.has(k) implies crate::data::style_view(c.styles.value_of(k))
                == crate::data::row_for(crate::data::style_table(), k) by {
                crate::data::lemma_row_for(entries, |x: Style| crate::data::style_view(x), k);
            }
        }
        Ok(c)
    }

    /// Converts text with `count` copies of `separator` between characters.
    fn convert_with_char_between(&self, text: &str, style: &str, separator: &str, count: usize) -> (r: Result<String>)
        ensures
            self.style_for(style@) matches Some(s) ==> (r matches Ok(out) && out@ == styled(s.mappings@, text@, separator@, count as nat)),
            self.style_for(style@) is None ==> (r matches Err(Error::UnknownStyle(n)) && n@ == style@),
    {
        let style_obj = self.get_style(style)?;
        let chars = chars_of(text);
        let mut pieces: Vec<Vec<char>> = Vec::new();
        let mut i: usize = 0;
        while i < chars.len()
            invariant
                i <= chars@.len(),
                chars@ == text@,
                pieces@.len() == i,
                forall|j: int| 0 <= j < i ==> #[trigger] pieces@[j]@ == char_image(style_obj.mappings@, chars@[j]),
            decreases chars.len() - i,
        {
            let s = style_obj.convert_char_to_string(chars[i]);
            pieces.push(chars_of(s.as_str()));
            i = i + 1;
        }
        assert(pieces@.map_values(|p: Vec<char>| p@) =~= images(style_obj.mappings@, text@));
        let sep_chars = chars_of(separator);
        let between = if count == 0 || sep_chars.len() == 0 {
            let e: Vec<char> = Vec::new();
            assert(e@ =~= Seq::<char>::empty());
            e
        } else {
            repeat_chars(sep_chars.as_slice(), count)
        };
        let out = join_chars(&pieces, between.as_slice());
        Ok(string_of(out.as_slice()))
    }

    /// Convert text to a specified Unicode style.
    pub fn convert(&self, text: &str, style: &str) -> (r: Result<String>)
        ensures
            self.style_for(style@) matches Some(s) ==> (r matches Ok(out) && out@ == styled(s.mappings@, text@, Seq::empty(), 0)),
            self.style_for(style@) is None ==> (r matches Err(Error::UnknownStyle(n)) && n@ == style@),
    {
        let e: Vec<char> = Vec::new();
        let es = string_of(e.as_slice());
        assert(es@ =~= Seq::<char>::empty());
        self.convert_with_char_between(text, style, es.as_str(), 0)
    }

    /// Convert text with `spacing` spaces between characters.
    pub fn convert_with_spacing(&self, text: &str, style: &str, spacing: usize) -> (r: Result<String>)
        ensures
            self.style_for(style@) matches Some(s) ==> (r matches Ok(out) && out@ == styled(s.mappings@, text@, seq![' '], spacing as nat)),
            self.style_for(style@) is None ==> (r matches Err(Error::UnknownStyle(n)) && n@ == style@),
    {
        let mut sp: Vec<char> = Vec::new();
        sp.push(' ');
        let s = string_of(sp.as_slice());
        assert(s@ =~= seq![' ']);
        self.convert_with_char_between(text, style, s.as_str(), spacing)
    }

    /// Convert text with `count` copies of a separator between characters.
    pub fn convert_with_separator(&self, text: &str, style: &str, separator: &str, count: usize) -> (r: Result<String>)
        ensures
            self.style_for(style@) matches Some(s) ==> (r matches Ok(out) && out@ == styled(s.mappings@, text@, separator@, count as nat)),
            self.style_for(style@) is None ==> (r matches Err(Error::UnknownStyle(n)) && n@ == style@),
    {
        self.convert_with_char_between(text, style, separator, count)
    }

    /// Get a style by ID or alias.
    pub fn get_style(&self, name: &str) -> (r: Result<&Style>)
        ensures
            self.style_for(name@) matches Some(s) ==> (r matches Ok(t) && *t == s),
            self.style_for(name@) is None ==> (r matches Err(Error::UnknownStyle(n)) && n@ == name@),
    {
        match get_with_alias(&self.styles, &self.alias_map, name) {
            Some(s) => Ok(s),
            None => Err(Error::UnknownStyle(name.to_owned())),
        }
    }

    /// List all available styles, in id order.
    pub fn list_styles(&self) -> (r: Vec<&Style>)
        ensures
            r@.len() == self.styles.values().len(),
            forall|i: int| 0 <= i < r@.len() ==> *(#[trigger] r@[i]) == self.styles.values()[i],
    {
        let n = self.styles.len();
        let mut r: Vec<&Style> = Vec::new();
        let mut i: usize = 0;
        while i < n
            invariant
                i <= n,
                n == self.styles.values().len(),
                n == self.styles.names().len(),
                r@.len() == i,
                forall|j: int| 0 <= j < i ==> *(#[trigger] r@[j]) == self.styles.values()[j],
            decreases n - i,
        {
            r.push(self.styles.value_at(i));
            i = i + 1;
        }
        r
    }

    /// List style IDs, sorted.
    pub fn list_ids(&self) -> (r: Vec<String>)
        ensures
            r@.len() == self.styles.names().len(),
            forall|i: int| 0 <= i < r@.len() ==> #[trigger] r@[i]@ == self.styles.names()[i],
            sorted_names(self.styles.names()),
    {
        self.styles.keys()
    }

    /// Check if a style exists (by id or alias).
    pub fn has_style(&self, name: &str) -> (b: bool)
        ensures
            b == self.style_for(name@) is Some,
    {
        self.get_style(name).is_ok()
    }
}

/// Text is converted character by character: converting a concatenation
/// gives the conversions of the parts, concatenated.
pub proof fn law_convert_concat(m: Seq<(char, String)>, a: Seq<char>, b: Seq<char>)
    ensures
        styled(m, a + b, Seq::empty(), 0) == styled(m, a, Seq::empty(), 0) + styled(m, b, Seq::empty(), 0),
{
    assert(images(m, a + b) =~= images(m, a) + images(m, b));
    if a.len() == 0 {
        assert(images(m, a) =~= Seq::<Seq<char>>::empty());
        assert(images(m, a) + images(m, b) =~= images(m, b));
        assert(join(images(m, a), Seq::empty()) =~= Seq::<char>::empty());
    } else if b.len() == 0 {
        assert(images(m, b) =~= Seq::<Seq<char>>::empty());
        assert(images(m, a) + images(m, b) =~= images(m, a));
        assert(join(images(m, b), Seq::empty()) =~= Seq::<char>::empty());
    } else {
        crate::parser::passthrough::lemma_join_concat(images(m, a), images(m, b), Seq::empty());
        assert(join(images(m, a), Seq::empty()) + Seq::<char>::empty() =~= join(images(m, a), Seq::empty()));
    }
}

} // verus!
