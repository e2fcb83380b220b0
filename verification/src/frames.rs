//! Decorative frames around text.

use vstd::prelude::*;
use crate::error::{Error, Result};
use crate::namemap::{NameMap, sorted_names};
use crate::registry::EvalContext;
use crate::text::{chars_of, string_of, push_str_chars, push_all, split_on, split_chars, lists_name, contains_name, str_uppercase, to_uppercase};

verus! {

/// A frame style definition.
#[derive(Debug)]
pub struct FrameStyle {
    pub id: String,
    pub name: String,
    pub description: String,
    pub prefix: String,
    pub suffix: String,
    pub aliases: Vec<String>,
    pub contexts: Vec<EvalContext>,
}

/// A word with its first character uppercased.
pub open spec fn capitalize(w: Seq<char>) -> Seq<char> {
    if w.len() == 0 {
        Seq::empty()
    } else {
        str_uppercase(seq![w[0]]) + w.skip(1)
    }
}

/// The display name of a frame id: words split on `-`, capitalized, joined by spaces.
pub open spec fn title_of(id: Seq<char>) -> Seq<char> {
    crate::text::join(split_on(id, '-').map_values(|w: Seq<char>| capitalize(w)), seq![' '])
}

fn capitalize_chars(w: &[char]) -> (r: Vec<char>)
    ensures
        r@ == capitalize(w@),
{
    if w.len() == 0 {
        let r: Vec<char> = Vec::new();
        assert(r@ =~= Seq::<char>::empty());
        return r;
    }
    let mut first: Vec<char> = Vec::new();
    first.push(w[0]);
    let fs = string_of(first.as_slice());
    assert(fs@ =~= seq![w@[0]]);
    let up = to_uppercase(fs.as_str());
    let mut r = chars_of(up.as_str());
    let rest = crate::text::slice_chars(w, 1, w.len());
    push_all(&mut r, rest.as_slice());
    assert(rest@ =~= w@.skip(1));
    r
}

/// The display name of a frame id ("solid-left" becomes "Solid Left").
pub fn frame_title(id: &str) -> (r: String)
    ensures
        r@ == title_of(id@),
{
    let v = chars_of(id);
    let words = split_chars(v.as_slice(), '-');
    let mut caps: Vec<Vec<char>> = Vec::new();
    let mut i: usize = 0;
    while i < words.len()
        invariant
            i <= words@.len(),
            words@.len() == split_on(id@, '-').len(),
            forall|k: int| 0 <= k < words@.len() ==> #[trigger] words@[k]@ == split_on(id@, '-')[k],
            v@ == id@,
            caps@.len() == i,
            forall|k: int| 0 <= k < i ==> #[trigger] caps@[k]@ == capitalize(split_on(id@, '-')[k]),
        decreases words.len() - i,
    {
        caps.push(capitalize_chars(words[i].as_slice()));
        i = i + 1;
    }
    let mut sp: Vec<char> = Vec::new();
    sp.push(' ');
    assert(sp@ =~= seq![' ']);
    assert(caps@.map_values(|p: Vec<char>| p@) =~= split_on(id@, '-').map_values(|w: Seq<char>| capitalize(w)));
    let j = crate::text::join_chars(&caps, sp.as_slice());
    string_of(j.as_slice())
}

/// A frame style seen as its prefix, suffix and aliases.
pub open spec fn style_chrome(f: FrameStyle) -> (Seq<char>, Seq<char>, Seq<Seq<char>>) {
    (f.prefix@, f.suffix@, crate::components::strs(f.aliases@))
}

/// Frame renderer for adding decorative elements around text.
#[derive(Debug)]
pub struct FrameRenderer {
    pub frames: NameMap<FrameStyle>,
}

impl FrameRenderer {
    /// The frame a name designates: by id, else the first frame (in id order)
    /// listing it as an alias.
    pub open spec fn frame_for(self, name: Seq<char>) -> Option<FrameStyle> {
        if self.frames.has(name) {
            Some(self.frames.value_of(name))
        } else if exists|i: int| 0 <= i < self.frames.values().len() && lists_name((#[trigger] self.frames.values()[i]).aliases@, name) {
            let i = choose|i: int| 0 <= i < self.frames.values().len() && lists_name((#[trigger] self.frames.values()[i]).aliases@, name)
                && forall|j: int| 0 <= j < i ==> !lists_name((#[trigger] self.frames.values()[j]).aliases@, name);
            Some(self.frames.values()[i])
        } else {
            None
        }
    }

    /// Create a frame renderer from the built-in frames; each frame's display
    /// name is derived from its id.
    pub fn new() -> (r: Result<Self>)
        ensures
            r matches Ok(f) && f.is_builtin(),
    {
        let data = crate::data::registry_data();
        let mut entries: Vec<(String, FrameStyle)> = Vec::new();
        let mut src = data.frames;
        proof {
            assert(crate::data::entry_names(entries@) + crate::data::entry_names(src@) =~= crate::data::entry_names(src@));
            assert(crate::data::keyed(entries@, |f: FrameStyle| style_chrome(f)) + crate::data::keyed(src@, |f: crate::registry::Frame| crate::data::frame_view(f))
                =~= crate::data::frame_table());
        }
        while src.len() > 0
            invariant
                crate::data::entry_names(entries@) + crate::data::entry_names(src@) == crate::data::frame_names(),
                crate::data::keyed(entries@, |f: FrameStyle| style_chrome(f)) + crate::data::keyed(src@, |f: crate::registry::Frame| crate::data::frame_view(f))
                    == crate::data::frame_table(),
                forall|j: int| 0 <= j < entries@.len() ==> (#[trigger] entries@[j]).1.id@ == entries@[j].0@,
            decreases src.len(),
        {
            let ghost d0 = entries@;
            let ghost s0 = src@;
            let (id, f) = src.remove(0);
            let name = frame_title(id.as_str());
            let description = match f.description {
                Some(d) => d,
                None => String::new(),
            };
            let style = FrameStyle {
                id: id.clone(),
                name,
                description,
                prefix: f.prefix,
                suffix: f.suffix,
                aliases: f.aliases,
                contexts: f.contexts,
            };
            entries.push((id, style));
            proof {
                assert(crate::data::entry_names(entries@) =~= crate::data::entry_names(d0).push(s0[0].0@));
                assert(crate::data::entry_names(src@) =~= crate::data::entry_names(s0).skip(1));
                assert(crate::data::entry_names(entries@) + crate::data::entry_names(src@) =~= crate::data::entry_names(d0)
                    + crate::data::entry_names(s0));
                crate::data::lemma_keyed_push(d0, entries@.last(), |f: FrameStyle| style_chrome(f));
                assert(entries@ == d0.push(entries@.last()));
                assert(crate::data::keyed(src@, |f: crate::registry::Frame| crate::data::frame_view(f))
                    =~= crate::data::keyed(s0, |f: crate::registry::Frame| crate::data::frame_view(f)).skip(1));
                assert(crate::data::keyed(entries@, |f: FrameStyle| style_chrome(f)) + crate::data::keyed(src@, |f: crate::registry::Frame| crate::data::frame_view(f))
                    =~= crate::data::keyed(d0, |f: FrameStyle| style_chrome(f)) + crate::data::keyed(s0, |f: crate::registry::Frame| crate::data::frame_view(f)));
            }
        }
        proof {
            assert(crate::data::entry_names(src@) =~= Seq::<Seq<char>>::empty());
            assert(crate::data::entry_names(entries@) =~= crate::data::frame_names());
            assert(crate::data::keyed(src@, |f: crate::registry::Frame| crate::data::frame_view(f)) =~= Seq::<(Seq<char>, (Seq<char>, Seq<char>, Seq<Seq<char>>))>::empty());
            assert(crate::data::keyed(entries@, |f: FrameStyle| style_chrome(f)) =~= crate::data::frame_table());
        }
        let ghost es = entries@;
        let r = FrameRenderer { frames: NameMap::from_entries(entries) };
        proof {
            assert forall|k: Seq<char>| #[trigger] r.frames.has(k) <==> crate::data::frame_names().contains(k) by {
                crate::data::lemma_name_found(es, k);
            }
            assert forall|k: Seq<char>| #[trigger] r.frames.has(k) implies style_chrome(r.frames.value_of(k))
                == crate::data::row_for(crate::data::frame_table(), k) && r.frames.value_of(k).id@ == k by {
                crate::data::lemma_row_for(es, |f: FrameStyle| style_chrome(f), k);
                crate::data::lemma_name_found(es, k);
            }
        }
        Ok(r)
    }

    /// The renderer holds exactly the built-in frames (prefix, suffix and
    /// aliases), each under its own id.
    pub open spec fn is_builtin(self) -> bool {
        &&& forall|k: Seq<char>| #[trigger] self.frames.has(k) <==> crate::data::frame_names().contains(k)
        &&& forall|k: Seq<char>| #[trigger] self.frames.has(k) ==> style_chrome(self.frames.value_of(k))
            == crate::data::row_for(crate::data::frame_table(), k)
        &&& forall|k: Seq<char>| #[trigger] self.frames.has(k) ==> self.frames.value_of(k).id@ == k
        &&& crate::namemap::sorted_names(self.frames.names())
    }

    /// Apply a frame around text: prefix, text, suffix.
    pub fn apply_frame(&self, text: &str, frame_style: &str) -> (r: Result<String>)
        ensures
            self.frame_for(frame_style@) matches Some(f) ==> (r matches Ok(s) && s@ == f.prefix@ + text@ + f.suffix@),
            self.frame_for(frame_style@) is None ==> (r matches Err(Error::UnknownFrame(n)) && n@ == frame_style@),
    {
        let style = self.get_frame(frame_style)?;
        let mut v: Vec<char> = Vec::new();
        push_str_chars(&mut v, style.prefix.as_str());
        push_str_chars(&mut v, text);
        push_str_chars(&mut v, style.suffix.as_str());
        Ok(string_of(v.as_slice()))
    }

    /// Get a frame style by ID or alias.
    pub fn get_frame(&self, name: &str) -> (r: Result<&FrameStyle>)
        ensures
            self.frame_for(name@) matches Some(f) ==> (r matches Ok(g) && *g == f),
            self.frame_for(name@) is None ==> (r matches Err(Error::UnknownFrame(n)) && n@ == name@),
    {
        if let Some(f) = self.frames.get(name) {
            return Ok(f);
        }
        let n = self.frames.len();
        let mut i: usize = 0;
        while i < n
            invariant
                i <= n,
                n == self.frames.values().len(),
                n == self.frames.names().len(),
                !self.frames.has(name@),
                forall|j: int| 0 <= j < i ==> !lists_name((#[trigger] self.frames.values()[j]).aliases@, name@),
            decreases n - i,
        {
            let f = self.frames.value_at(i);
            if contains_name(&f.aliases, name) {
                proof {
                    let w = choose|k: int| 0 <= k < self.frames.values().len() && lists_name((#[trigger] self.frames.values()[k]).aliases@, name@)
                        && forall|j: int| 0 <= j < k ==> !lists_name((#[trigger] self.frames.values()[j]).aliases@, name@);
                    assert(w == i as int) by {
                        if w < i { } else if w > i { assert(lists_name(self.frames.values()[i as int].aliases@, name@)); }
                    }
                }
                return Ok(f);
            }
            i = i + 1;
        }
        Err(Error::UnknownFrame(name.to_owned()))
    }

    /// Check if a frame style exists.
    pub fn has_frame(&self, name: &str) -> (b: bool)
        ensures
            b == self.frame_for(name@) is Some,
    {
        self.get_frame(name).is_ok()
    }

    /// List all available frames, in id order.
    pub fn list_frames(&self) -> (r: Vec<&FrameStyle>)
        ensures
            r@.len() == self.frames.values().len(),
            forall|i: int| 0 <= i < r@.len() ==> *(#[trigger] r@[i]) == self.frames.values()[i],
    {
        let n = self.frames.len();
        let mut r: Vec<&FrameStyle> = Vec::new();
        let mut i: usize = 0;
        while i < n
            invariant
                i <= n,
                n == self.frames.values().len(),
                n == self.frames.names().len(),
                r@.len() == i,
                forall|j: int| 0 <= j < i ==> *(#[trigger] r@[j]) == self.frames.values()[j],
            decreases n - i,
        {
            r.push(self.frames.value_at(i));
            i = i + 1;
        }
        r
    }
}

} // verus!
