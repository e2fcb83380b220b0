//! The unified registry: palette, glyphs, components, frames, styles and
//! shield styles, with alias resolution.

use vstd::prelude::*;
use crate::error::{Error, Result};
use crate::namemap::{NameMap, sorted_names};
use crate::styles::Style;
use crate::text::{chars_of, string_of, push_str_chars, push_all, copy_chars, concat};

verus! {

/// Evaluation context for renderables.
#[derive(Debug, Clone, Copy, PartialEq, Eq, Structural)]
pub enum EvalContext {
    /// Between characters in styled text.
    Inline,
    /// Section-level, multiline allowed.
    Block,
    /// Frame prefix/suffix decorations.
    FrameChrome,
}

/// The promotion rule: a context may be used where another is required.
pub open spec fn promotes(from: EvalContext, to: EvalContext) -> bool {
    from == to || from == EvalContext::Inline || from == EvalContext::FrameChrome
}

impl EvalContext {
    /// Check if this context can be promoted to another context:
    /// the same context, or from Inline or FrameChrome to anything;
    /// Block promotes to nothing else.
    pub fn can_promote_to(&self, target: EvalContext) -> (b: bool)
        ensures
            b == promotes(*self, target),
    {
        match (self, target) {
            (EvalContext::Inline, _) => true,
            (EvalContext::FrameChrome, _) => true,
            (EvalContext::Block, EvalContext::Block) => true,
            (EvalContext::Block, _) => false,
        }
    }
}

/// Optional parameter definition for components.
#[derive(Debug)]
pub struct OptionalParam {
    pub param_type: String,
    pub default: String,
    pub description: Option<String>,
}

/// A component definition (native or expand type).
#[derive(Debug)]
pub struct Component {
    pub component_type: String,
    pub self_closing: bool,
    pub description: Option<String>,
    pub contexts: Vec<EvalContext>,
    pub args: Vec<String>,
    pub template: Option<String>,
    pub post_process: Option<String>,
}

/// Suffix generation mode for frames.
#[derive(Debug, Clone, Copy, PartialEq, Eq, Structural)]
pub enum SuffixMode {
    /// Suffix is the pattern reversed.
    Mirror,
    /// Suffix is the same as pattern.
    Repeat,
    /// Prefix only, no suffix.
    PrefixOnly,
    /// Suffix only, no prefix.
    SuffixOnly,
    /// Suffix is the pattern rotated by one.
    Alternate,
}

/// A frame definition with prefix and suffix.
#[derive(Debug)]
pub struct Frame {
    pub prefix: String,
    pub suffix: String,
    pub description: Option<String>,
    pub contexts: Vec<EvalContext>,
    pub aliases: Vec<String>,
}

/// The pattern rotated left by one position (unchanged if shorter than 2).
pub open spec fn rotate_left(p: Seq<char>) -> Seq<char> {
    if p.len() > 1 {
        p.skip(1).push(p[0])
    } else {
        p
    }
}

/// Prefix and suffix generated from a pattern and a mode.
pub open spec fn pattern_chrome(p: Seq<char>, mode: SuffixMode) -> (Seq<char>, Seq<char>) {
    match mode {
        SuffixMode::Mirror => (p.push(' '), seq![' '] + p.reverse()),
        SuffixMode::Repeat => (p.push(' '), seq![' '] + p),
        SuffixMode::PrefixOnly => (p, Seq::empty()),
        SuffixMode::SuffixOnly => (Seq::empty(), p),
        SuffixMode::Alternate => (p.push(' '), seq![' '] + rotate_left(p)),
    }
}

fn reverse_chars(p: &[char]) -> (r: Vec<char>)
    ensures
        r@ == p@.reverse(),
{
    let mut r: Vec<char> = Vec::new();
    let mut i = p.len();
    while i > 0
        invariant
            i <= p@.len(),
            r@ == p@.skip(i as int).reverse(),
        decreases i,
    {
        i = i - 1;
        r.push(p[i]);
        assert(r@ =~= p@.skip(i as int).reverse());
    }
    assert(p@.skip(0) =~= p@);
    r
}

impl Frame {
    /// Builds a frame from a pattern and suffix mode: mirror, repeat and
    /// alternate put a space between chrome and text.
    pub fn from_pattern(
        pattern: &str,
        mode: SuffixMode,
        description: Option<String>,
        contexts: Vec<EvalContext>,
        aliases: Vec<String>,
    ) -> (f: Frame)
        ensures
            (f.prefix@, f.suffix@) == pattern_chrome(pattern@, mode),
            f.description == description,
            f.contexts == contexts,
            f.aliases == aliases,
    {
        let p = chars_of(pattern);
        let mut space: Vec<char> = Vec::new();
        space.push(' ');
        let (pre, suf) = match mode {
            SuffixMode::Mirror => {
                let rev = reverse_chars(p.as_slice());
                (concat(p.as_slice(), space.as_slice()), concat(space.as_slice(), rev.as_slice()))
            },
            SuffixMode::Repeat => {
                (concat(p.as_slice(), space.as_slice()), concat(space.as_slice(), p.as_slice()))
            },
            SuffixMode::PrefixOnly => {
                let e: Vec<char> = Vec::new();
                assert(e@ =~= Seq::<char>::empty());
                (copy_chars(p.as_slice()), e)
            },
            SuffixMode::SuffixOnly => {
                let e: Vec<char> = Vec::new();
                assert(e@ =~= Seq::<char>::empty());
                (e, copy_chars(p.as_slice()))
            },
            SuffixMode::Alternate => {
                let rot = if p.len() > 1 {
                    let mut r = crate::text::slice_chars(p.as_slice(), 1, p.len());
                    r.push(p[0]);
                    r
                } else {
                    copy_chars(p.as_slice())
                };
                (concat(p.as_slice(), space.as_slice()), concat(space.as_slice(), rot.as_slice()))
            },
        };
        proof {
            assert(seq![' '] =~= space@);
            if mode == SuffixMode::Mirror || mode == SuffixMode::Repeat || mode == SuffixMode::Alternate {
                assert(pre@ =~= p@.push(' '));
            }
        }
        Frame {
            prefix: string_of(pre.as_slice()),
            suffix: string_of(suf.as_slice()),
            description,
            contexts,
            aliases,
        }
    }

    /// Builds a frame from an explicit prefix and suffix.
    pub fn from_parts(
        prefix: &str,
        suffix: &str,
        description: Option<String>,
        contexts: Vec<EvalContext>,
        aliases: Vec<String>,
    ) -> (f: Frame)
        ensures
            f.prefix@ == prefix@,
            f.suffix@ == suffix@,
            f.description == description,
            f.contexts == contexts,
            f.aliases == aliases,
    {
        Frame { prefix: prefix.to_owned(), suffix: suffix.to_owned(), description, contexts, aliases }
    }
}

/// Shield style definition.
#[derive(Debug)]
pub struct ShieldStyle {
    pub id: String,
    pub name: String,
    pub description: Option<String>,
    pub aliases: Vec<String>,
    pub default: bool,
}

/// Registry metadata.
#[derive(Debug)]
pub struct RegistryMetadata {
    pub total_glyphs: usize,
    pub total_components: usize,
    pub total_frames: usize,
    pub total_styles: usize,
    pub total_palette_colors: usize,
    pub total_shield_styles: usize,
    pub last_updated: String,
}

/// A badge type definition with character mappings.
#[derive(Debug)]
pub struct BadgeType {
    pub id: String,
    pub name: String,
    pub description: String,
    pub aliases: Vec<String>,
    /// Text to badge character, first entry for a text applies.
    pub mappings: Vec<(String, String)>,
    pub contexts: Vec<EvalContext>,
}

/// The registry's contents as plain entries (what the registry JSON holds).
#[derive(Debug)]
pub struct RegistryData {
    pub version: String,
    pub schema_version: String,
    pub description: Option<String>,
    pub palette: Vec<(String, String)>,
    pub shield_styles: Vec<(String, ShieldStyle)>,
    pub glyphs: Vec<(String, String)>,
    pub components: Vec<(String, Component)>,
    pub frames: Vec<(String, Frame)>,
    pub styles: Vec<(String, Style)>,
    pub badges: Vec<(String, BadgeType)>,
    pub last_updated: String,
}

} // verus!

verus! {

/// Copies a vector of strings.
pub fn clone_strings(v: &Vec<String>) -> (r: Vec<String>)
    ensures
        r@ == v@,
{
    let mut r: Vec<String> = Vec::new();
    let mut i: usize = 0;
    while i < v.len()
        invariant
            i <= v@.len(),
            r@ == v@.subrange(0, i as int),
        decreases v.len() - i,
    {
        r.push(v[i].clone());
        i = i + 1;
        assert(r@ =~= v@.subrange(0, i as int));
    }
    assert(v@.subrange(0, v@.len() as int) =~= v@);
    r
}

/// Copies an optional string.
pub fn clone_opt_string(v: &Option<String>) -> (r: Option<String>)
    ensures
        r == *v,
{
    match v {
        Some(s) => Some(s.clone()),
        None => None,
    }
}

/// Copies a vector of contexts.
pub fn clone_contexts(v: &Vec<EvalContext>) -> (r: Vec<EvalContext>)
    ensures
        r@ == v@,
{
    let mut r: Vec<EvalContext> = Vec::new();
    let mut i: usize = 0;
    while i < v.len()
        invariant
            i <= v@.len(),
            r@ == v@.subrange(0, i as int),
        decreases v.len() - i,
    {
        r.push(v[i]);
        i = i + 1;
        assert(r@ =~= v@.subrange(0, i as int));
    }
    assert(v@.subrange(0, v@.len() as int) =~= v@);
    r
}

impl Component {
    /// A copy of this component.
    pub fn duplicate(&self) -> (r: Component)
        ensures
            r.component_type == self.component_type,
            r.self_closing == self.self_closing,
            r.description == self.description,
            r.contexts@ == self.contexts@,
            r.args@ == self.args@,
            r.template == self.template,
            r.post_process == self.post_process,
    {
        Component {
            component_type: self.component_type.clone(),
            self_closing: self.self_closing,
            description: clone_opt_string(&self.description),
            contexts: clone_contexts(&self.contexts),
            args: clone_strings(&self.args),
            template: clone_opt_string(&self.template),
            post_process: clone_opt_string(&self.post_process),
        }
    }
}

/// What a name resolves to in a map with an alias table: the entry under the
/// name, else the entry under the id the alias points to.
pub open spec fn lookup_alias<V>(m: NameMap<V>, aliases: NameMap<String>, name: Seq<char>) -> Option<V> {
    if m.has(name) {
        Some(m.value_of(name))
    } else if aliases.has(name) && m.has(aliases.value_of(name)@) {
        Some(m.value_of(aliases.value_of(name)@))
    } else {
        None
    }
}

/// Looks a name up directly, then through the alias table.
pub fn get_with_alias<'a, V>(m: &'a NameMap<V>, aliases: &NameMap<String>, name: &str) -> (r: Option<&'a V>)
    ensures
        r is Some <==> lookup_alias(*m, *aliases, name@) is Some,
        r matches Some(v) ==> lookup_alias(*m, *aliases, name@) == Some(*v),
{
    if let Some(v) = m.get(name) {
        return Some(v);
    }
    if let Some(id) = aliases.get(name) {
        return m.get(id.as_str());
    }
    None
}

/// The aliases of one entry added to an alias map, each pointing to `id`
/// (a later alias replacing an earlier one of the same name).
pub open spec fn add_aliases(m: Map<Seq<char>, Seq<char>>, als: Seq<Seq<char>>, id: Seq<char>) -> Map<Seq<char>, Seq<char>>
    decreases als.len(),
{
    if als.len() == 0 {
        m
    } else {
        add_aliases(m, als.drop_last(), id).insert(als.last(), id)
    }
}

/// The alias map of entries `(id, aliases)`: every alias pointing to its
/// entry's id, a later entry's alias replacing an earlier one.
pub open spec fn alias_map(v: Seq<(Seq<char>, Seq<Seq<char>>)>) -> Map<Seq<char>, Seq<char>>
    decreases v.len(),
{
    if v.len() == 0 {
        Map::empty()
    } else {
        add_aliases(alias_map(v.drop_last()), v.last().1, v.last().0)
    }
}

/// Ids with their aliases, as views.
pub open spec fn id_views(v: Seq<(String, Vec<String>)>) -> Seq<(Seq<char>, Seq<Seq<char>>)> {
    v.map_values(|p: (String, Vec<String>)| (p.0@, crate::components::strs(p.1@)))
}

/// A name map of strings holds exactly the map `m`.
pub open spec fn holds_map(r: NameMap<String>, m: Map<Seq<char>, Seq<char>>) -> bool {
    &&& forall|a: Seq<char>| #[trigger] r.has(a) == m.dom().contains(a)
    &&& forall|a: Seq<char>| #[trigger] r.has(a) ==> r.value_of(a)@ == m[a]
}

/// An alias table: every alias of every entry, pointing to the entry's id.
pub fn alias_table(ids_and_aliases: &Vec<(String, Vec<String>)>) -> (r: NameMap<String>)
    ensures
        holds_map(r, alias_map(id_views(ids_and_aliases@))),
        forall|a: Seq<char>| #[trigger] r.has(a) ==> exists|i: int, j: int|
            0 <= i < ids_and_aliases@.len() && 0 <= j < ids_and_aliases@[i].1@.len()
                && ids_and_aliases@[i].1@[j]@ == a && r.value_of(a)@ == ids_and_aliases@[i].0@,
{
    let mut r: NameMap<String> = NameMap::new();
    let mut i: usize = 0;
    proof {
        assert(ids_and_aliases@.take(0) =~= Seq::<(String, Vec<String>)>::empty());
    }
    while i < ids_and_aliases.len()
        invariant
            i <= ids_and_aliases@.len(),
            holds_map(r, alias_map(id_views(ids_and_aliases@.take(i as int)))),
            forall|a: Seq<char>| #[trigger] r.has(a) ==> exists|ii: int, j: int|
                0 <= ii < ids_and_aliases@.len() && 0 <= j < ids_and_aliases@[ii].1@.len()
                    && ids_and_aliases@[ii].1@[j]@ == a && r.value_of(a)@ == ids_and_aliases@[ii].0@,
        decreases ids_and_aliases.len() - i,
    {
        let (id, als) = (&ids_and_aliases[i].0, &ids_and_aliases[i].1);
        let mut j: usize = 0;
        let ghost base = alias_map(id_views(ids_and_aliases@.take(i as int)));
        proof {
            assert(crate::components::strs(als@.take(0)) =~= Seq::<Seq<char>>::empty());
        }
        while j < als.len()
            invariant
                i < ids_and_aliases@.len(),
                base == alias_map(id_views(ids_and_aliases@.take(i as int))),
                holds_map(r, add_aliases(base, crate::components::strs(als@.take(j as int)), id@)),
                *id == ids_and_aliases@[i as int].0,
                *als == ids_and_aliases@[i as int].1,
                j <= als@.len(),
                forall|a: Seq<char>| #[trigger] r.has(a) ==> exists|ii: int, jj: int|
                    0 <= ii < ids_and_aliases@.len() && 0 <= jj < ids_and_aliases@[ii].1@.len()
                        && ids_and_aliases@[ii].1@[jj]@ == a && r.value_of(a)@ == ids_and_aliases@[ii].0@,
            decreases als.len() - j,
        {
            let ghost old_r = r;
            r.insert(als[j].clone(), id.clone());
            proof {
                assert forall|a: Seq<char>| #[trigger] r.has(a) implies exists|ii: int, jj: int|
                    0 <= ii < ids_and_aliases@.len() && 0 <= jj < ids_and_aliases@[ii].1@.len()
                        && ids_and_aliases@[ii].1@[jj]@ == a && r.value_of(a)@ == ids_and_aliases@[ii].0@ by {
                    if a == als@[j as int]@ {
                        assert(ids_and_aliases@[i as int].1@[j as int]@ == a);
                    } else {
                        assert(old_r.has(a));
                    }
                }
                assert(crate::components::strs(als@.take(j + 1)).drop_last() =~= crate::components::strs(als@.take(j as int)));
                assert(crate::components::strs(als@.take(j + 1)).last() == als@[j as int]@);
            }
            j = j + 1;
        }
        proof {
            assert(crate::components::strs(als@.take(als@.len() as int)) =~= crate::components::strs(als@));
            assert(id_views(ids_and_aliases@.take(i + 1)).drop_last() =~= id_views(ids_and_aliases@.take(i as int)));
            assert(id_views(ids_and_aliases@.take(i + 1)).last() == (id@, crate::components::strs(als@)));
        }
        i = i + 1;
    }
    proof {
        assert(ids_and_aliases@.take(ids_and_aliases@.len() as int) =~= ids_and_aliases@);
    }
    r
}

/// The unified registry of renderables and configuration.
#[derive(Debug)]
pub struct Registry {
    pub version: String,
    pub schema_version: String,
    pub description: Option<String>,
    pub palette: NameMap<String>,
    pub shield_styles: NameMap<ShieldStyle>,
    pub glyphs: NameMap<String>,
    pub components: NameMap<Component>,
    pub frames: NameMap<Frame>,
    pub styles: NameMap<Style>,
    pub metadata: RegistryMetadata,
    pub style_aliases: NameMap<String>,
    pub frame_aliases: NameMap<String>,
    pub shield_style_aliases: NameMap<String>,
}

/// Result of unified resolution.
#[derive(Debug)]
pub enum ResolvedRenderable {
    Component(Component),
    Literal(String),
}

/// The component can be used in the required context.
pub open spec fn usable_in(c: Component, ctx: EvalContext) -> bool {
    exists|i: int| 0 <= i < c.contexts@.len() && promotes(#[trigger] c.contexts@[i], ctx)
}

impl Registry {
    /// The registry holds the built-in tables: its version, the palette and
    /// glyphs with their values, the names of the frames, styles, components
    /// and shield styles, each one's row of the built-in tables (components
    /// with their definitions and contexts), and the alias tables.
    pub open spec fn is_builtin(self) -> bool {
        &&& self.version@ == "2.0.0"@
        &&& forall|k: Seq<char>| #[trigger] self.palette.has(k) <==> crate::data::table_names(crate::data::palette_table()).contains(k)
        &&& forall|k: Seq<char>| #[trigger] self.palette.has(k) ==> self.palette.value_of(k)@ == crate::data::table_value(crate::data::palette_table(), k)
        &&& forall|k: Seq<char>| #[trigger] self.glyphs.has(k) <==> crate::data::table_names(crate::data::glyph_table()).contains(k)
        &&& forall|k: Seq<char>| #[trigger] self.glyphs.has(k) ==> self.glyphs.value_of(k)@ == crate::data::table_value(crate::data::glyph_table(), k)
        &&& forall|k: Seq<char>| #[trigger] self.frames.has(k) <==> crate::data::frame_names().contains(k)
        &&& forall|k: Seq<char>| #[trigger] self.styles.has(k) <==> crate::data::style_names().contains(k)
        &&& forall|k: Seq<char>| #[trigger] self.components.has(k) <==> crate::data::component_names().contains(k)
        &&& forall|k: Seq<char>| #[trigger] self.shield_styles.has(k) <==> crate::data::shield_style_names().contains(k)
        &&& forall|k: Seq<char>| #[trigger] self.styles.has(k) ==> crate::data::style_view(self.styles.value_of(k))
            == crate::data::row_for(crate::data::style_table(), k)
        &&& forall|k: Seq<char>| #[trigger] self.frames.has(k) ==> crate::data::frame_view(self.frames.value_of(k))
            == crate::data::row_for(crate::data::frame_table(), k)
        &&& forall|k: Seq<char>| #[trigger] self.shield_styles.has(k) ==> crate::data::shield_view(self.shield_styles.value_of(k))
            == crate::data::row_for(crate::data::shield_style_table(), k)
        &&& forall|k: Seq<char>| #[trigger] self.styles.has(k) ==> crate::data::style_details(self.styles.value_of(k))
            == crate::data::row_for(crate::data::style_detail_table(), k)
        &&& forall|k: Seq<char>| #[trigger] self.frames.has(k) ==> crate::data::frame_details(self.frames.value_of(k))
            == crate::data::row_for(crate::data::frame_detail_table(), k)
        &&& forall|k: Seq<char>| #[trigger] self.shield_styles.has(k) ==> crate::data::shield_details(self.shield_styles.value_of(k))
            == crate::data::row_for(crate::data::shield_detail_table(), k)
        &&& forall|k: Seq<char>| #[trigger] self.components.has(k) ==> crate::data::component_view(self.components.value_of(k))
            == crate::data::row_for(crate::data::component_table(), k)
        &&& forall|k: Seq<char>| #[trigger] self.components.has(k) ==> crate::data::component_contexts(self.components.value_of(k))
            == crate::data::row_for(crate::data::component_context_table(), k)
        &&& holds_map(self.style_aliases, alias_map(crate::data::style_alias_table()))
        &&& holds_map(self.frame_aliases, alias_map(crate::data::frame_alias_table()))
        &&& holds_map(self.shield_style_aliases, alias_map(crate::data::shield_alias_table()))
    }

    /// Load the built-in registry.
    pub fn new() -> (r: Result<Self>)
        ensures
            r matches Ok(reg) && reg.is_builtin(),
    {
        let data = crate::data::registry_data();
        let reg = Self::from_data(data);
        proof {
            assert forall|k: Seq<char>| #[trigger] reg.palette.has(k) <==> crate::data::table_names(crate::data::palette_table()).contains(k) by {
                crate::data::lemma_name_found(data.palette@, k);
                if crate::namemap::last_name_index(data.palette@, k) >= 0 {
                    crate::data::lemma_name_value(data.palette@, k);
                }
                assert(crate::data::entry_names(data.palette@) =~= crate::data::table_names(crate::data::text_pairs(data.palette@)));
            }
            assert forall|k: Seq<char>| #[trigger] reg.palette.has(k) implies reg.palette.value_of(k)@ == crate::data::table_value(crate::data::palette_table(), k) by {
                crate::data::lemma_name_value(data.palette@, k);
            }
            assert forall|k: Seq<char>| #[trigger] reg.glyphs.has(k) <==> crate::data::table_names(crate::data::glyph_table()).contains(k) by {
                crate::data::lemma_name_found(data.glyphs@, k);
                assert(crate::data::entry_names(data.glyphs@) =~= crate::data::table_names(crate::data::text_pairs(data.glyphs@)));
            }
            assert forall|k: Seq<char>| #[trigger] reg.glyphs.has(k) implies reg.glyphs.value_of(k)@ == crate::data::table_value(crate::data::glyph_table(), k) by {
                crate::data::lemma_name_value(data.glyphs@, k);
            }
            assert forall|k: Seq<char>| #[trigger] reg.frames.has(k) <==> crate::data::frame_names().contains(k) by {
                crate::data::lemma_name_found(data.frames@, k);
            }
            assert forall|k: Seq<char>| #[trigger] reg.styles.has(k) <==> crate::data::style_names().contains(k) by {
                crate::data::lemma_name_found(data.styles@, k);
            }
            assert forall|k: Seq<char>| #[trigger] reg.components.has(k) <==> crate::data::component_names().contains(k) by {
                crate::data::lemma_name_found(data.components@, k);
            }
            assert forall|k: Seq<char>| #[trigger] reg.shield_styles.has(k) <==> crate::data::shield_style_names().contains(k) by {
                crate::data::lemma_name_found(data.shield_styles@, k);
            }
            assert forall|k: Seq<char>| #[trigger] reg.styles.has(k) implies crate::data::style_view(reg.styles.value_of(k))
                == crate::data::row_for(crate::data::style_table(), k) by {
                crate::data::lemma_row_for(data.styles@, |x: Style| crate::data::style_view(x), k);
            }
            assert forall|k: Seq<char>| #[trigger] reg.frames.has(k) implies crate::data::frame_view(reg.frames.value_of(k))
                == crate::data::row_for(crate::data::frame_table(), k) by {
                crate::data::lemma_row_for(data.frames@, |x: Frame| crate::data::frame_view(x), k);
            }
            assert forall|k: Seq<char>| #[trigger] reg.shield_styles.has(k) implies crate::data::shield_view(reg.shield_styles.value_of(k))
                == crate::data::row_for(crate::data::shield_style_table(), k) by {
                crate::data::lemma_row_for(data.shield_styles@, |x: ShieldStyle| crate::data::shield_view(x), k);
            }
            assert forall|k: Seq<char>| #[trigger] reg.styles.has(k) implies crate::data::style_details(reg.styles.value_of(k))
                == crate::data::row_for(crate::data::style_detail_table(), k) by {
                crate::data::lemma_row_for(data.styles@, |x: Style| crate::data::style_details(x), k);
            }
            assert forall|k: Seq<char>| #[trigger] reg.frames.has(k) implies crate::data::frame_details(reg.frames.value_of(k))
                == crate::data::row_for(crate::data::frame_detail_table(), k) by {
                crate::data::lemma_row_for(data.frames@, |x: Frame| crate::data::frame_details(x), k);
            }
            assert forall|k: Seq<char>| #[trigger] reg.shield_styles.has(k) implies crate::data::shield_details(reg.shield_styles.value_of(k))
                == crate::data::row_for(crate::data::shield_detail_table(), k) by {
                crate::data::lemma_row_for(data.shield_styles@, |x: ShieldStyle| crate::data::shield_details(x), k);
            }
            assert forall|k: Seq<char>| #[trigger] reg.components.has(k) implies crate::data::component_view(reg.components.value_of(k))
                == crate::data::row_for(crate::data::component_table(), k) by {
                crate::data::lemma_row_for(data.components@, |x: Component| crate::data::component_view(x), k);
            }
            assert forall|k: Seq<char>| #[trigger] reg.components.has(k) implies crate::data::component_contexts(reg.components.value_of(k))
                == crate::data::row_for(crate::data::component_context_table(), k) by {
                crate::data::lemma_row_for(data.components@, |x: Component| crate::data::component_contexts(x), k);
            }
            assert(crate::data::keyed(data.styles@, |s: Style| crate::components::strs(s.aliases@)) =~= crate::data::style_alias_table());
            assert(crate::data::keyed(data.frames@, |f: Frame| crate::components::strs(f.aliases@)) =~= crate::data::frame_alias_table());
            assert(crate::data::keyed(data.shield_styles@, |s: ShieldStyle| crate::components::strs(s.aliases@)) =~= crate::data::shield_alias_table());
        }
        Ok(reg)
    }

    /// Build a registry from its contents: each section becomes a map (a later
    /// entry replacing an earlier one with the same name) and alias tables are
    /// built for styles, frames and shield styles.
    pub fn from_data(data: RegistryData) -> (r: Self)
        ensures
            r.version == data.version,
            r.schema_version == data.schema_version,
            forall|k: Seq<char>| #[trigger] r.palette.has(k) <==> crate::namemap::last_name_index(data.palette@, k) >= 0,
            forall|k: Seq<char>| #[trigger] r.palette.has(k) ==> r.palette.value_of(k) == data.palette@[crate::namemap::last_name_index(data.palette@, k)].1,
            forall|k: Seq<char>| #[trigger] r.glyphs.has(k) <==> crate::namemap::last_name_index(data.glyphs@, k) >= 0,
            forall|k: Seq<char>| #[trigger] r.glyphs.has(k) ==> r.glyphs.value_of(k) == data.glyphs@[crate::namemap::last_name_index(data.glyphs@, k)].1,
            forall|k: Seq<char>| #[trigger] r.frames.has(k) <==> crate::namemap::last_name_index(data.frames@, k) >= 0,
            forall|k: Seq<char>| #[trigger] r.styles.has(k) <==> crate::namemap::last_name_index(data.styles@, k) >= 0,
            forall|k: Seq<char>| #[trigger] r.components.has(k) <==> crate::namemap::last_name_index(data.components@, k) >= 0,
            forall|k: Seq<char>| #[trigger] r.shield_styles.has(k) <==> crate::namemap::last_name_index(data.shield_styles@, k) >= 0,
            forall|k: Seq<char>| #[trigger] r.frames.has(k) ==> r.frames.value_of(k) == data.frames@[crate::namemap::last_name_index(data.frames@, k)].1,
            forall|k: Seq<char>| #[trigger] r.components.has(k) ==> r.components.value_of(k) == data.components@[crate::namemap::last_name_index(data.components@, k)].1,
            forall|k: Seq<char>| #[trigger] r.styles.has(k) ==> r.styles.value_of(k) == data.styles@[crate::namemap::last_name_index(data.styles@, k)].1,
            forall|k: Seq<char>| #[trigger] r.shield_styles.has(k) ==> r.shield_styles.value_of(k) == data.shield_styles@[crate::namemap::last_name_index(data.shield_styles@, k)].1,
            holds_map(r.style_aliases, alias_map(crate::data::keyed(data.styles@, |s: Style| crate::components::strs(s.aliases@)))),
            holds_map(r.frame_aliases, alias_map(crate::data::keyed(data.frames@, |f: Frame| crate::components::strs(f.aliases@)))),
            holds_map(r.shield_style_aliases, alias_map(crate::data::keyed(data.shield_styles@, |s: ShieldStyle| crate::components::strs(s.aliases@)))),
    {
        let mut style_ids: Vec<(String, Vec<String>)> = Vec::new();
        let mut i: usize = 0;
        while i < data.styles.len()
            invariant
                i <= data.styles@.len(),
                id_views(style_ids@) == crate::data::keyed(data.styles@.take(i as int), |x: Style| crate::components::strs(x.aliases@)),
            decreases data.styles.len() - i,
        {
            let ghost before = style_ids@;
            style_ids.push((data.styles[i].0.clone(), clone_strings(&data.styles[i].1.aliases)));
            proof {
                assert(data.styles@.take(i + 1) =~= data.styles@.take(i as int).push(data.styles@[i as int]));
                crate::data::lemma_keyed_push(data.styles@.take(i as int), data.styles@[i as int], |x: Style| crate::components::strs(x.aliases@));
                assert(id_views(style_ids@) =~= id_views(before).push((data.styles@[i as int].0@, crate::components::strs(data.styles@[i as int].1.aliases@))));
            }
            i = i + 1;
        }
        proof {
            assert(data.styles@.take(data.styles@.len() as int) =~= data.styles@);
        }
        let mut frame_ids: Vec<(String, Vec<String>)> = Vec::new();
        let mut i: usize = 0;
        while i < data.frames.len()
            invariant
                i <= data.frames@.len(),
                id_views(frame_ids@) == crate::data::keyed(data.frames@.take(i as int), |x: Frame| crate::components::strs(x.aliases@)),
            decreases data.frames.len() - i,
        {
            let ghost before = frame_ids@;
            frame_ids.push((data.frames[i].0.clone(), clone_strings(&data.frames[i].1.aliases)));
            proof {
                assert(data.frames@.take(i + 1) =~= data.frames@.take(i as int).push(data.frames@[i as int]));
                crate::data::lemma_keyed_push(data.frames@.take(i as int), data.frames@[i as int], |x: Frame| crate::components::strs(x.aliases@));
                assert(id_views(frame_ids@) =~= id_views(before).push((data.frames@[i as int].0@, crate::components::strs(data.frames@[i as int].1.aliases@))));
            }
            i = i + 1;
        }
        proof {
            assert(data.frames@.take(data.frames@.len() as int) =~= data.frames@);
        }
        let mut shield_ids: Vec<(String, Vec<String>)> = Vec::new();
        let mut i: usize = 0;
        while i < data.shield_styles.len()
            invariant
                i <= data.shield_styles@.len(),
                id_views(shield_ids@) == crate::data::keyed(data.shield_styles@.take(i as int), |x: ShieldStyle| crate::components::strs(x.aliases@)),
            decreases data.shield_styles.len() - i,
        {
            let ghost before = shield_ids@;
            shield_ids.push((data.shield_styles[i].0.clone(), clone_strings(&data.shield_styles[i].1.aliases)));
            proof {
                assert(data.shield_styles@.take(i + 1) =~= data.shield_styles@.take(i as int).push(data.shield_styles@[i as int]));
                crate::data::lemma_keyed_push(data.shield_styles@.take(i as int), data.shield_styles@[i as int], |x: ShieldStyle| crate::components::strs(x.aliases@));
                assert(id_views(shield_ids@) =~= id_views(before).push((data.shield_styles@[i as int].0@, crate::components::strs(data.shield_styles@[i as int].1.aliases@))));
            }
            i = i + 1;
        }
        proof {
            assert(data.shield_styles@.take(data.shield_styles@.len() as int) =~= data.shield_styles@);
        }
        let style_aliases = alias_table(&style_ids);
        let frame_aliases = alias_table(&frame_ids);
        let shield_style_aliases = alias_table(&shield_ids);
        let palette = NameMap::from_entries(data.palette);
        let glyphs = NameMap::from_entries(data.glyphs);
        let components = NameMap::from_entries(data.components);
        let frames = NameMap::from_entries(data.frames);
        let styles = NameMap::from_entries(data.styles);
        let shield_styles = NameMap::from_entries(data.shield_styles);
        let metadata = RegistryMetadata {
            total_glyphs: glyphs.len(),
            total_components: components.len(),
            total_frames: frames.len(),
            total_styles: styles.len(),
            total_palette_colors: palette.len(),
            total_shield_styles: shield_styles.len(),
            last_updated: data.last_updated,
        };
        Registry {
            version: data.version,
            schema_version: data.schema_version,
            description: data.description,
            palette,
            shield_styles,
            glyphs,
            components,
            frames,
            styles,
            metadata,
            style_aliases,
            frame_aliases,
            shield_style_aliases,
        }
    }

    /// Get the registry version.
    pub fn version(&self) -> (r: &str)
        ensures
            r@ == self.version@,
    {
        self.version.as_str()
    }

    /// Get the schema version.
    pub fn schema_version(&self) -> (r: &str)
        ensures
            r@ == self.schema_version@,
    {
        self.schema_version.as_str()
    }

    /// Resolve a color name to its hex value.
    pub fn resolve_color(&self, name: &str) -> (r: Option<&str>)
        ensures
            r is Some <==> self.palette.has(name@),
            r matches Some(h) ==> h@ == self.palette.value_of(name@)@,
    {
        match self.palette.get(name) {
            Some(h) => Some(h.as_str()),
            None => None,
        }
    }

    /// Get all palette colors.
    pub fn palette(&self) -> (r: &NameMap<String>)
        ensures
            *r == self.palette,
    {
        &self.palette
    }

    /// Get a glyph by name.
    pub fn glyph(&self, name: &str) -> (r: Option<&str>)
        ensures
            r is Some <==> self.glyphs.has(name@),
            r matches Some(g) ==> g@ == self.glyphs.value_of(name@)@,
    {
        match self.glyphs.get(name) {
            Some(g) => Some(g.as_str()),
            None => None,
        }
    }

    /// Get all glyphs.
    pub fn glyphs(&self) -> (r: &NameMap<String>)
        ensures
            *r == self.glyphs,
    {
        &self.glyphs
    }

    /// Get a separator by name (a glyph lookup).
    pub fn separator(&self, name: &str) -> (r: Option<&str>)
        ensures
            r is Some <==> self.glyphs.has(name@),
            r matches Some(g) ==> g@ == self.glyphs.value_of(name@)@,
    {
        self.glyph(name)
    }

    /// Get a component by name.
    pub fn component(&self, name: &str) -> (r: Option<&Component>)
        ensures
            r is Some <==> self.components.has(name@),
            r matches Some(c) ==> *c == self.components.value_of(name@),
    {
        self.components.get(name)
    }

    /// Get all components.
    pub fn components(&self) -> (r: &NameMap<Component>)
        ensures
            *r == self.components,
    {
        &self.components
    }

    /// Get a frame by name or alias.
    pub fn frame(&self, name: &str) -> (r: Option<&Frame>)
        ensures
            r is Some <==> lookup_alias(self.frames, self.frame_aliases, name@) is Some,
            r matches Some(f) ==> lookup_alias(self.frames, self.frame_aliases, name@) == Some(*f),
    {
        get_with_alias(&self.frames, &self.frame_aliases, name)
    }

    /// Get all frames.
    pub fn frames(&self) -> (r: &NameMap<Frame>)
        ensures
            *r == self.frames,
    {
        &self.frames
    }

    /// Apply a frame around text: prefix, text, suffix.
    pub fn apply_frame(&self, text: &str, frame_name: &str) -> (r: Result<String>)
        ensures
            lookup_alias(self.frames, self.frame_aliases, frame_name@) matches Some(f) ==> (r matches Ok(s) && s@ == f.prefix@ + text@ + f.suffix@),
            lookup_alias(self.frames, self.frame_aliases, frame_name@) is None ==> (r matches Err(Error::UnknownFrame(n)) && n@ == frame_name@),
    {
        match self.frame(frame_name) {
            Some(f) => {
                let mut v: Vec<char> = Vec::new();
                push_str_chars(&mut v, f.prefix.as_str());
                push_str_chars(&mut v, text);
                push_str_chars(&mut v, f.suffix.as_str());
                Ok(string_of(v.as_slice()))
            },
            None => Err(Error::UnknownFrame(frame_name.to_owned())),
        }
    }

    /// Get a style by name or alias.
    pub fn style(&self, name: &str) -> (r: Option<&Style>)
        ensures
            r is Some <==> lookup_alias(self.styles, self.style_aliases, name@) is Some,
            r matches Some(s) ==> lookup_alias(self.styles, self.style_aliases, name@) == Some(*s),
    {
        get_with_alias(&self.styles, &self.style_aliases, name)
    }

    /// Get all styles.
    pub fn styles(&self) -> (r: &NameMap<Style>)
        ensures
            *r == self.styles,
    {
        &self.styles
    }

    /// Get a shield style by name or alias.
    pub fn shield_style(&self, name: &str) -> (r: Option<&ShieldStyle>)
        ensures
            r is Some <==> lookup_alias(self.shield_styles, self.shield_style_aliases, name@) is Some,
            r matches Some(s) ==> lookup_alias(self.shield_styles, self.shield_style_aliases, name@) == Some(*s),
    {
        get_with_alias(&self.shield_styles, &self.shield_style_aliases, name)
    }

    /// The id of the first shield style (in id order) marked default, else "flat-square".
    pub fn default_shield_style(&self) -> (r: &str)
        ensures
            (exists|i: int| 0 <= i < self.shield_styles.values().len() && (#[trigger] self.shield_styles.values()[i]).default)
                ==> exists|i: int| 0 <= i < self.shield_styles.values().len() && (#[trigger] self.shield_styles.values()[i]).default
                    && r@ == self.shield_styles.names()[i]
                    && forall|j: int| 0 <= j < i ==> !(#[trigger] self.shield_styles.values()[j]).default,
            (forall|i: int| 0 <= i < self.shield_styles.values().len() ==> !(#[trigger] self.shield_styles.values()[i]).default)
                ==> r@ == "flat-square"@,
            (exists|k: Seq<char>| #[trigger] self.shield_styles.has(k) && self.shield_styles.value_of(k).default)
                ==> self.shield_styles.has(r@) && self.shield_styles.value_of(r@).default,
    {
        let n = self.shield_styles.len();
        let mut i: usize = 0;
        while i < n
            invariant
                i <= n,
                n == self.shield_styles.values().len(),
                n == self.shield_styles.names().len(),
                forall|j: int| 0 <= j < i ==> !(#[trigger] self.shield_styles.values()[j]).default,
            decreases n - i,
        {
            if self.shield_styles.value_at(i).default {
                return self.shield_styles.name_at(i).as_str();
            }
            i = i + 1;
        }
        proof {
            if exists|k: Seq<char>| #[trigger] self.shield_styles.has(k) && self.shield_styles.value_of(k).default {
                let k = choose|k: Seq<char>| #[trigger] self.shield_styles.has(k) && self.shield_styles.value_of(k).default;
                crate::namemap::lemma_name_index(self.shield_styles.names(), k);
                let j = crate::namemap::name_index(self.shield_styles.names(), k);
                assert(!self.shield_styles.values()[j].default);
            }
        }
        "flat-square"
    }

    /// Get all shield styles.
    pub fn shield_styles(&self) -> (r: &NameMap<ShieldStyle>)
        ensures
            *r == self.shield_styles,
    {
        &self.shield_styles
    }

    /// Resolve a renderable name: a component usable in the context, else the
    /// name as a literal.
    pub fn resolve(&self, name: &str, context: EvalContext) -> (r: ResolvedRenderable)
        ensures
            self.components.has(name@) && usable_in(self.components.value_of(name@), context) ==> (r matches ResolvedRenderable::Component(c)
                && c.component_type == self.components.value_of(name@).component_type
                && c.contexts@ == self.components.value_of(name@).contexts@
                && c.template == self.components.value_of(name@).template),
            !(self.components.has(name@) && usable_in(self.components.value_of(name@), context)) ==> (r matches ResolvedRenderable::Literal(s) && s@ == name@),
    {
        if let Some(component) = self.component(name) {
            let mut i: usize = 0;
            while i < component.contexts.len()
                invariant
                    i <= component.contexts@.len(),
                    self.components.has(name@),
                    *component == self.components.value_of(name@),
                    forall|j: int| 0 <= j < i ==> !promotes(#[trigger] component.contexts@[j], context),
                decreases component.contexts.len() - i,
            {
                if component.contexts[i].can_promote_to(context) {
                    assert(usable_in(*component, context));
                    return ResolvedRenderable::Component(component.duplicate());
                }
                i = i + 1;
            }
        }
        ResolvedRenderable::Literal(name.to_owned())
    }

    /// Get registry metadata.
    pub fn metadata(&self) -> (r: &RegistryMetadata)
        ensures
            *r == self.metadata,
    {
        &self.metadata
    }
}

} // verus!
