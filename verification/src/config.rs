//! Project configuration: partial templates and custom palette colors.

use vstd::prelude::*;
use crate::namemap::NameMap;
use crate::text::{chars_of, string_of, replace_all, replace_chars};

verus! {

/// A partial template definition.
#[derive(Debug)]
pub struct PartialDef {
    /// The template; `$1` or `$content` stands for the content.
    pub template: String,
    pub description: Option<String>,
}

/// Project configuration.
#[derive(Debug)]
pub struct MdfxConfig {
    pub partials: NameMap<PartialDef>,
    pub palette: NameMap<String>,
}

impl MdfxConfig {
    /// An empty configuration.
    pub fn new() -> (c: MdfxConfig)
        ensures
            c.partials.names().len() == 0,
            c.palette.names().len() == 0,
    {
        MdfxConfig { partials: NameMap::new(), palette: NameMap::new() }
    }

    /// A partial by name.
    pub fn get_partial(&self, name: &str) -> (r: Option<&PartialDef>)
        ensures
            r is Some <==> self.partials.has(name@),
            r matches Some(p) ==> *p == self.partials.value_of(name@),
    {
        self.partials.get(name)
    }

    /// Whether a partial exists.
    pub fn has_partial(&self, name: &str) -> (b: bool)
        ensures
            b == self.partials.has(name@),
    {
        self.partials.contains_key(name)
    }

    /// The names of all partials, in order.
    pub fn partial_names(&self) -> (r: Vec<&String>)
        ensures
            r@.len() == self.partials.names().len(),
            forall|i: int| 0 <= i < r@.len() ==> (#[trigger] r@[i])@ == self.partials.names()[i],
    {
        let n = self.partials.len();
        let mut r: Vec<&String> = Vec::new();
        let mut i: usize = 0;
        while i < n
            invariant
                i <= n,
                n == self.partials.names().len(),
                r@.len() == i,
                forall|j: int| 0 <= j < i ==> (#[trigger] r@[j])@ == self.partials.names()[j],
            decreases n - i,
        {
            r.push(self.partials.name_at(i));
            i = i + 1;
        }
        r
    }

    /// Merges another configuration in; its entries replace entries of the
    /// same name.
    pub fn merge(&mut self, other: MdfxConfig)
        ensures
            forall|k: Seq<char>| #[trigger] final(self).partials.has(k) == (old(self).partials.has(k) || other.partials.has(k)),
            forall|k: Seq<char>| other.partials.has(k) ==> #[trigger] final(self).partials.value_of(k) == other.partials.value_of(k),
            forall|k: Seq<char>| !other.partials.has(k) && old(self).partials.has(k) ==> #[trigger] final(self).partials.value_of(k)
                == old(self).partials.value_of(k),
            forall|k: Seq<char>| #[trigger] final(self).palette.has(k) == (old(self).palette.has(k) || other.palette.has(k)),
            forall|k: Seq<char>| other.palette.has(k) ==> #[trigger] final(self).palette.value_of(k) == other.palette.value_of(k),
            forall|k: Seq<char>| !other.palette.has(k) && old(self).palette.has(k) ==> #[trigger] final(self).palette.value_of(k)
                == old(self).palette.value_of(k),
    {
        let MdfxConfig { partials, palette } = other;
        extend_map(&mut self.partials, partials);
        extend_map(&mut self.palette, palette);
    }
}

/// Inserts every entry of `other` into `m`.
pub fn extend_map<V>(m: &mut NameMap<V>, other: NameMap<V>)
    ensures
        forall|k: Seq<char>| #[trigger] final(m).has(k) == (old(m).has(k) || other.has(k)),
        forall|k: Seq<char>| other.has(k) ==> #[trigger] final(m).value_of(k) == other.value_of(k),
        forall|k: Seq<char>| !other.has(k) && old(m).has(k) ==> #[trigger] final(m).value_of(k) == old(m).value_of(k),
{
    let ghost names = other.names();
    let ghost vals = other.values();
    let ghost om = *m;
    let n = other.len();
    let mut rest = other.into_entries();
    let mut i: usize = 0;
    while rest.len() > 0
        invariant
            i + rest@.len() == n,
            n == names.len(),
            n == vals.len(),
            crate::namemap::sorted_names(names),
            forall|j: int| 0 <= j < rest@.len() ==> (#[trigger] rest@[j]).0@ == names[i + j] && rest@[j].1 == vals[i + j],
            forall|k: Seq<char>| #[trigger] m.has(k) == (om.has(k) || names.take(i as int).contains(k)),
            forall|k: Seq<char>| names.take(i as int).contains(k) ==> #[trigger] m.value_of(k) == vals[crate::namemap::name_index(names, k)],
            forall|k: Seq<char>| !names.take(i as int).contains(k) && om.has(k) ==> #[trigger] m.value_of(k) == om.value_of(k),
        decreases rest.len(),
    {
        let (k, v) = rest.remove(0);
        let ghost kv = k@;
        let ghost pre = names.take(i as int);
        proof {
            crate::namemap::lemma_sorted_index(names, i as int);
            assert(names.take(i + 1) =~= pre.push(kv));
        }
        m.insert(k, v);
        proof {
            assert forall|q: Seq<char>| #[trigger] m.has(q) == (om.has(q) || pre.push(kv).contains(q)) by {
                crate::components::lemma_push_contains(pre, kv, q);
            }
            assert forall|q: Seq<char>| pre.push(kv).contains(q) implies #[trigger] m.value_of(q) == vals[crate::namemap::name_index(names, q)] by {
                crate::components::lemma_push_contains(pre, kv, q);
            }
            assert forall|q: Seq<char>| !pre.push(kv).contains(q) && om.has(q) implies #[trigger] m.value_of(q) == om.value_of(q) by {
                crate::components::lemma_push_contains(pre, kv, q);
            }
        }
        i = i + 1;
    }
    proof {
        assert(names.take(n as int) =~= names);
    }
}

/// A partial's template with `$content`, then `$1`, replaced by the content.
pub open spec fn partial_expansion(template: Seq<char>, content: Seq<char>) -> Seq<char> {
    replace_all(replace_all(template, "$content"@, content), "$1"@, content)
}

/// Expands a partial: `$content` and then `$1` are replaced by the content.
pub fn expand_partial(template: &str, content: &str) -> (r: String)
    ensures
        r@ == partial_expansion(template@, content@),
{
    proof {
        reveal_strlit("$content");
        reveal_strlit("$1");
    }
    let t = chars_of(template);
    let c = chars_of(content);
    let p1 = chars_of("$content");
    let p2 = chars_of("$1");
    let a = replace_chars(t.as_slice(), p1.as_slice(), c.as_slice());
    let b = replace_chars(a.as_slice(), p2.as_slice(), c.as_slice());
    string_of(b.as_slice())
}

} // verus!
