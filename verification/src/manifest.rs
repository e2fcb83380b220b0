//! The asset manifest: a record of the generated files, each with its
//! SHA-256 hash, size, the primitive behind it and where it came from.
//! Reading and writing the manifest file, and reading assets back from
//! disk, happen around this module; it decides what goes into the record.

use vstd::prelude::*;
use crate::primitive::Primitive;
use crate::namemap::NameMap;
use crate::digest::{sha256_hex, lower_hex, sha256_of};
use crate::text::{lists_name, contains_name};

verus! {

/// The schema version of the manifest.
pub const MANIFEST_VERSION: &'static str = "1.1.0";

/// The version of this library, recorded as the generator.
pub const GENERATOR_VERSION: &'static str = "0.1.0";

/// Reads the system clock: `std::time::SystemTime::now()` measured with
/// `duration_since(UNIX_EPOCH)`, as whole seconds and the nanoseconds past
/// them. `None` when the clock reads before the epoch (the error of
/// `duration_since`). Only that the nanoseconds stay below one second (as
/// `Duration::subsec_nanos` documents) is promised: the rest is the time.
#[verifier::external_body]
fn clock_since_epoch() -> (r: Option<(u64, u32)>)
    ensures
        r matches Some(t) ==> t.1 < 1_000_000_000,
{
    match std::time::SystemTime::now().duration_since(std::time::UNIX_EPOCH) {
        Ok(d) => Some((d.as_secs(), d.subsec_nanos())),
        Err(_) => None,
    }
}

/// The RFC 3339 text chrono writes for a UTC instant given as seconds and
/// nanoseconds since the Unix epoch.
pub uninterp spec fn rfc3339_text(secs: i64, nanos: u32) -> Seq<char>;

/// Calls `chrono::DateTime::<Utc>::from_timestamp` and, on success,
/// `to_rfc3339` (which writes to a `String` and does not fail). `None` where
/// the instant is out of chrono's range; the text otherwise, named
/// `rfc3339_text`. Chrono succeeds for nanoseconds below one second and an
/// instant from the epoch up to 8 * 10^12 seconds (about the year 255000,
/// within its last year 262142); the exact range beyond that is not stated.
#[verifier::external_body]
fn rfc3339_at(secs: i64, nanos: u32) -> (r: Option<String>)
    ensures
        r matches Some(s) ==> s@ == rfc3339_text(secs, nanos),
        0 <= secs < 8_000_000_000_000 && nanos < 1_000_000_000 ==> r is Some,
{
    match chrono::DateTime::<chrono::Utc>::from_timestamp(secs, nanos) {
        Some(d) => Some(d.to_rfc3339()),
        None => None,
    }
}

/// The text recorded for the Unix epoch, used when the clock cannot be read.
pub open spec fn epoch_text() -> Seq<char> {
    "1970-01-01T00:00:00+00:00"@
}

/// A recorded time: RFC 3339 text of an instant at or after the epoch, or
/// the epoch's text.
pub open spec fn time_text(t: Seq<char>) -> bool {
    t == epoch_text() || exists|s: i64, n: u32| 0 <= s && n < 1_000_000_000 && t == rfc3339_text(s, n)
}

/// The text recorded for a clock reading (whole seconds since the Unix
/// epoch and the nanoseconds past them): the RFC 3339 text of that instant,
/// or the epoch's text when there is no reading or chrono cannot represent
/// the instant.
pub fn timestamp_text(reading: Option<(u64, u32)>) -> (r: String)
    ensures
        reading is None ==> r@ == epoch_text(),
        reading matches Some((s, n)) ==> (s < 8_000_000_000_000 && n < 1_000_000_000 ==> r@ == rfc3339_text(s as i64, n)),
        reading matches Some((s, n)) ==> (r@ == epoch_text() || (s <= i64::MAX && r@ == rfc3339_text(s as i64, n))),
{
    proof {
        reveal_strlit("1970-01-01T00:00:00+00:00");
    }
    match reading {
        Some((secs, nanos)) => {
            if secs <= 9_223_372_036_854_775_807u64 {
                let s: i64 = secs as i64;
                match rfc3339_at(s, nanos) {
                    Some(t) => t,
                    None => "1970-01-01T00:00:00+00:00".to_owned(),
                }
            } else {
                "1970-01-01T00:00:00+00:00".to_owned()
            }
        },
        None => "1970-01-01T00:00:00+00:00".to_owned(),
    }
}

/// The current time as RFC 3339 text; the epoch when the clock reads before
/// it or out of range.
fn now_rfc3339() -> (r: String)
    ensures
        time_text(r@),
{
    let reading = clock_since_epoch();
    timestamp_text(reading)
}

/// What the manifest records of the primitive behind an asset.
#[derive(Debug, Clone)]
pub enum PrimitiveInfo {
    Swatch { color: String, style: String },
    Tech { name: String, bg_color: String, logo_color: String, style: String },
    Version { version: String, style: String },
    License { license: String, style: String },
    Progress { percent: u8, width: u32, height: u32 },
    Donut { percent: u8, size: u32, thickness: u32 },
    Gauge { percent: u8, size: u32, thickness: u32 },
    Sparkline { point_count: usize, width: u32, height: u32, chart_type: String },
    /// `value` is the rating's number text.
    Rating { value: String, max: u32, icon: String },
    Waveform { point_count: usize, width: u32, height: u32 },
}

/// The record of a primitive.
pub open spec fn info_of(p: Primitive) -> PrimitiveInfo {
    match p {
        Primitive::Swatch { color, style, .. } => PrimitiveInfo::Swatch { color, style },
        Primitive::Tech { name, bg_color, logo_color, style, .. } => PrimitiveInfo::Tech { name, bg_color, logo_color, style },
        Primitive::Version { version, style, .. } => PrimitiveInfo::Version { version, style },
        Primitive::License { license, style, .. } => PrimitiveInfo::License { license, style },
        Primitive::Progress { percent, width, height, .. } => PrimitiveInfo::Progress { percent, width, height },
        Primitive::Donut { percent, size, thickness, .. } => PrimitiveInfo::Donut { percent, size, thickness },
        Primitive::Gauge { percent, size, thickness, .. } => PrimitiveInfo::Gauge { percent, size, thickness },
        Primitive::Sparkline { values, width, height, chart_type, .. } =>
            PrimitiveInfo::Sparkline { point_count: values@.len() as usize, width, height, chart_type },
        Primitive::Rating { value, max, icon, .. } => PrimitiveInfo::Rating { value, max, icon },
        Primitive::Waveform { values, width, height, .. } =>
            PrimitiveInfo::Waveform { point_count: values@.len() as usize, width, height },
    }
}

impl<'a> From<&'a Primitive> for PrimitiveInfo {
    fn from(p: &'a Primitive) -> (r: PrimitiveInfo) {
        match p {
            Primitive::Swatch { color, style, .. } => PrimitiveInfo::Swatch { color: color.clone(), style: style.clone() },
            Primitive::Tech { name, bg_color, logo_color, style, .. } => PrimitiveInfo::Tech {
                name: name.clone(),
                bg_color: bg_color.clone(),
                logo_color: logo_color.clone(),
                style: style.clone(),
            },
            Primitive::Version { version, style, .. } => PrimitiveInfo::Version {
                version: version.clone(),
                style: style.clone(),
            },
            Primitive::License { license, style, .. } => PrimitiveInfo::License {
                license: license.clone(),
                style: style.clone(),
            },
            Primitive::Progress { percent, width, height, .. } => PrimitiveInfo::Progress {
                percent: *percent,
                width: *width,
                height: *height,
            },
            Primitive::Donut { percent, size, thickness, .. } => PrimitiveInfo::Donut {
                percent: *percent,
                size: *size,
                thickness: *thickness,
            },
            Primitive::Gauge { percent, size, thickness, .. } => PrimitiveInfo::Gauge {
                percent: *percent,
                size: *size,
                thickness: *thickness,
            },
            Primitive::Sparkline { values, width, height, chart_type, .. } => PrimitiveInfo::Sparkline {
                point_count: values.len(),
                width: *width,
                height: *height,
                chart_type: chart_type.clone(),
            },
            Primitive::Rating { value, max, icon, .. } => PrimitiveInfo::Rating {
                value: value.clone(),
                max: *max,
                icon: icon.clone(),
            },
            Primitive::Waveform { values, width, height, .. } => PrimitiveInfo::Waveform {
                point_count: values.len(),
                width: *width,
                height: *height,
            },
        }
    }
}

impl<'a> vstd::std_specs::convert::FromSpecImpl<&'a Primitive> for PrimitiveInfo {
    open spec fn obeys_from_spec() -> bool {
        true
    }

    open spec fn from_spec(v: &'a Primitive) -> PrimitiveInfo {
        info_of(*v)
    }
}

/// One generated asset.
#[derive(Debug, Clone)]
pub struct AssetEntry {
    /// Path relative to the project root.
    pub path: String,
    /// SHA-256 of the file's bytes, lowercase hexadecimal.
    pub sha256: String,
    /// The kind of asset (swatch, tech, progress, ...).
    pub asset_type: String,
    /// The primitive that produced it.
    pub primitive: PrimitiveInfo,
    /// File size in bytes.
    pub size_bytes: usize,
    /// The source files that reference it.
    pub source_files: Vec<String>,
    /// When it was generated (RFC 3339).
    pub generated_at: Option<String>,
    /// The generator's version.
    pub generator_version: Option<String>,
}

/// The list holding just the given source file, if any.
pub open spec fn sources_of(source_file: Option<String>) -> Seq<String> {
    match source_file {
        Some(s) => seq![s],
        None => Seq::empty(),
    }
}

/// `e` is the entry made for a file at `path` with these bytes, from this
/// primitive: its hash and size are those of the bytes, its sources the given
/// one, and it bears a generation time and this library's version.
pub open spec fn entry_made(e: AssetEntry, path: String, bytes: Seq<u8>, p: Primitive, asset_type: String,
    source_file: Option<String>) -> bool {
    &&& e.path == path
    &&& e.sha256@ == lower_hex(sha256_of(bytes))
    &&& e.asset_type == asset_type
    &&& e.primitive == info_of(p)
    &&& e.size_bytes == bytes.len()
    &&& e.source_files@ == sources_of(source_file)
    &&& e.generated_at matches Some(g) && time_text(g@)
    &&& e.generator_version matches Some(v) && v@ == GENERATOR_VERSION@
}

impl AssetEntry {
    /// The entry for a file at `path` holding `bytes`, generated now.
    pub fn new(path: String, bytes: &[u8], primitive: &Primitive, asset_type: String, source_file: Option<String>) -> (e:
        AssetEntry)
        ensures
            entry_made(e, path, bytes@, *primitive, asset_type, source_file),
    {
        let mut source_files: Vec<String> = Vec::new();
        match source_file {
            Some(s) => source_files.push(s),
            None => {},
        }
        assert(source_files@ =~= sources_of(source_file));
        AssetEntry {
            path,
            sha256: sha256_hex(bytes),
            asset_type,
            primitive: PrimitiveInfo::from(primitive),
            size_bytes: bytes.len(),
            source_files,
            generated_at: Some(now_rfc3339()),
            generator_version: Some(GENERATOR_VERSION.to_owned()),
        }
    }
}

/// The record of the generated assets.
#[derive(Debug)]
pub struct AssetManifest {
    /// Schema version.
    pub version: String,
    /// When the manifest was created or last updated (RFC 3339).
    pub created_at: String,
    /// The rendering backend used.
    pub backend: String,
    /// The assets directory (relative).
    pub assets_dir: String,
    /// Number of assets.
    pub total_assets: usize,
    /// Total size of the assets in bytes.
    pub total_size_bytes: usize,
    /// The generator's version.
    pub generator_version: Option<String>,
    /// The assets.
    pub assets: Vec<AssetEntry>,
}

impl AssetManifest {
    /// An empty manifest for a backend and an assets directory.
    pub fn new(backend: &str, assets_dir: &str) -> (m: AssetManifest)
        ensures
            m.version@ == MANIFEST_VERSION@,
            m.backend@ == backend@,
            m.assets_dir@ == assets_dir@,
            m.total_assets == 0,
            m.total_size_bytes == 0,
            m.generator_version matches Some(v) && v@ == GENERATOR_VERSION@,
            m.assets@.len() == 0,
            time_text(m.created_at@),
    {
        AssetManifest {
            version: MANIFEST_VERSION.to_owned(),
            created_at: now_rfc3339(),
            backend: backend.to_owned(),
            assets_dir: assets_dir.to_owned(),
            total_assets: 0,
            total_size_bytes: 0,
            generator_version: Some(GENERATOR_VERSION.to_owned()),
            assets: Vec::new(),
        }
    }

    /// Adds an entry: it goes last, the count becomes the number of assets
    /// and its size is added to the total.
    pub fn add_entry(&mut self, entry: AssetEntry)
        requires
            old(self).total_size_bytes + entry.size_bytes <= usize::MAX,
        ensures
            final(self).assets@ == old(self).assets@.push(entry),
            final(self).total_assets == final(self).assets@.len(),
            final(self).total_size_bytes == old(self).total_size_bytes + entry.size_bytes,
            final(self).version == old(self).version,
            final(self).created_at == old(self).created_at,
            final(self).backend == old(self).backend,
            final(self).assets_dir == old(self).assets_dir,
            final(self).generator_version == old(self).generator_version,
    {
        self.total_size_bytes = self.total_size_bytes + entry.size_bytes;
        self.assets.push(entry);
        self.total_assets = self.assets.len();
    }

    /// Adds the entry for a file, with the source file that references it.
    pub fn add_asset_with_source(&mut self, path: String, bytes: &[u8], primitive: &Primitive, asset_type: String,
        source_file: Option<String>)
        requires
            old(self).total_size_bytes + bytes@.len() <= usize::MAX,
        ensures
            final(self).assets@.len() == old(self).assets@.len() + 1,
            final(self).assets@.take(old(self).assets@.len() as int) == old(self).assets@,
            entry_made(final(self).assets@.last(), path, bytes@, *primitive, asset_type, source_file),
            final(self).total_assets == final(self).assets@.len(),
            final(self).total_size_bytes == old(self).total_size_bytes + bytes@.len(),
            final(self).version == old(self).version,
            final(self).created_at == old(self).created_at,
            final(self).backend == old(self).backend,
            final(self).assets_dir == old(self).assets_dir,
            final(self).generator_version == old(self).generator_version,
    {
        let entry = AssetEntry::new(path, bytes, primitive, asset_type, source_file);
        self.add_entry(entry);
        assert(self.assets@.take(old(self).assets@.len() as int) =~= old(self).assets@);
    }

    /// Adds the entry for a file, with no source file.
    pub fn add_asset(&mut self, path: String, bytes: &[u8], primitive: &Primitive, asset_type: String)
        requires
            old(self).total_size_bytes + bytes@.len() <= usize::MAX,
        ensures
            final(self).assets@.len() == old(self).assets@.len() + 1,
            final(self).assets@.take(old(self).assets@.len() as int) == old(self).assets@,
            entry_made(final(self).assets@.last(), path, bytes@, *primitive, asset_type, None),
            final(self).total_assets == final(self).assets@.len(),
            final(self).total_size_bytes == old(self).total_size_bytes + bytes@.len(),
            final(self).version == old(self).version,
            final(self).created_at == old(self).created_at,
            final(self).backend == old(self).backend,
            final(self).assets_dir == old(self).assets_dir,
            final(self).generator_version == old(self).generator_version,
    {
        self.add_asset_with_source(path, bytes, primitive, asset_type, None);
    }

    /// The paths of the assets, in order.
    pub fn asset_paths(&self) -> (r: Vec<&str>)
        ensures
            r@.len() == self.assets@.len(),
            forall|i: int| 0 <= i < r@.len() ==> #[trigger] r@[i]@ == self.assets@[i].path@,
    {
        let mut r: Vec<&str> = Vec::new();
        let mut i: usize = 0;
        while i < self.assets.len()
            invariant
                i <= self.assets@.len(),
                r@.len() == i,
                forall|j: int| 0 <= j < i ==> #[trigger] r@[j]@ == self.assets@[j].path@,
            decreases self.assets.len() - i,
        {
            r.push(self.assets[i].path.as_str());
            i = i + 1;
        }
        r
    }

    /// The first asset with the given path.
    pub fn get_asset(&self, path: &str) -> (r: Option<&AssetEntry>)
        ensures
            match r {
                Some(e) => exists|i: int| 0 <= i < self.assets@.len() && self.assets@[i] == *e && e.path@ == path@
                    && forall|j: int| 0 <= j < i ==> (#[trigger] self.assets@[j]).path@ != path@,
                None => forall|j: int| 0 <= j < self.assets@.len() ==> (#[trigger] self.assets@[j]).path@ != path@,
            },
    {
        let mut i: usize = 0;
        while i < self.assets.len()
            invariant
                i <= self.assets@.len(),
                forall|j: int| 0 <= j < i ==> (#[trigger] self.assets@[j]).path@ != path@,
            decreases self.assets.len() - i,
        {
            if crate::namemap::str_eq(self.assets[i].path.as_str(), path) {
                return Some(&self.assets[i]);
            }
            i = i + 1;
        }
        None
    }

    /// Whether some asset has the given SHA-256 hash.
    pub fn has_content_hash(&self, sha256: &str) -> (b: bool)
        ensures
            b == exists|i: int| 0 <= i < self.assets@.len() && (#[trigger] self.assets@[i]).sha256@ == sha256@,
    {
        let mut i: usize = 0;
        while i < self.assets.len()
            invariant
                i <= self.assets@.len(),
                forall|j: int| 0 <= j < i ==> (#[trigger] self.assets@[j]).sha256@ != sha256@,
            decreases self.assets.len() - i,
        {
            if crate::namemap::str_eq(self.assets[i].sha256.as_str(), sha256) {
                return true;
            }
            i = i + 1;
        }
        false
    }

    /// Brings a manifest read from disk to the current schema: version
    /// "1.0.0" becomes the current version (the newer fields took their
    /// defaults when it was read); other versions stay.
    pub fn migrate(&mut self)
        ensures
            old(self).version@ == "1.0.0"@ ==> final(self).version@ == MANIFEST_VERSION@,
            old(self).version@ != "1.0.0"@ ==> final(self).version == old(self).version,
            final(self).created_at == old(self).created_at,
            final(self).backend == old(self).backend,
            final(self).assets_dir == old(self).assets_dir,
            final(self).total_assets == old(self).total_assets,
            final(self).total_size_bytes == old(self).total_size_bytes,
            final(self).generator_version == old(self).generator_version,
            final(self).assets == old(self).assets,
    {
        if crate::namemap::str_eq(self.version.as_str(), "1.0.0") {
            self.version = MANIFEST_VERSION.to_owned();
        }
    }
}

/// The views of an entry's source files.
pub open spec fn source_views(e: AssetEntry) -> Seq<Seq<char>> {
    crate::components::strs(e.source_files@)
}

/// `e` agrees with `t` in every field but its sources, which are `sources`.
pub open spec fn entry_is(e: AssetEntry, t: AssetEntry, sources: Seq<Seq<char>>) -> bool {
    &&& e.path == t.path
    &&& e.sha256 == t.sha256
    &&& e.asset_type == t.asset_type
    &&& e.primitive == t.primitive
    &&& e.size_bytes == t.size_bytes
    &&& e.generated_at == t.generated_at
    &&& e.generator_version == t.generator_version
    &&& source_views(e) == sources
}

/// A list of entries as a model: each entry with its sources.
pub open spec fn model_of(a: Seq<AssetEntry>) -> Seq<(AssetEntry, Seq<Seq<char>>)> {
    a.map_values(|e: AssetEntry| (e, source_views(e)))
}

/// The entries `a` are the model `m`.
pub open spec fn is_model(a: Seq<AssetEntry>, m: Seq<(AssetEntry, Seq<Seq<char>>)>) -> bool {
    &&& a.len() == m.len()
    &&& forall|i: int| 0 <= i < a.len() ==> entry_is(#[trigger] a[i], m[i].0, m[i].1)
}

/// Source lists merged: `old`, then each of `new` that is not listed yet.
pub open spec fn merge_sources(old: Seq<Seq<char>>, new: Seq<Seq<char>>) -> Seq<Seq<char>>
    decreases new.len(),
{
    if new.len() == 0 {
        old
    } else {
        let m = merge_sources(old, new.drop_last());
        if m.contains(new.last()) {
            m
        } else {
            m.push(new.last())
        }
    }
}

/// Merging source lists keeps the sources listed before, in front and in
/// their order, and lists every new source; nothing else is listed.
pub proof fn law_merge_sources_keeps_old(old: Seq<Seq<char>>, new: Seq<Seq<char>>)
    ensures
        merge_sources(old, new).len() >= old.len(),
        merge_sources(old, new).take(old.len() as int) == old,
        forall|x: Seq<char>| new.contains(x) ==> merge_sources(old, new).contains(x),
        forall|x: Seq<char>| merge_sources(old, new).contains(x) ==> old.contains(x) || new.contains(x),
    decreases new.len(),
{
    if new.len() > 0 {
        let rest = new.drop_last();
        law_merge_sources_keeps_old(old, rest);
        let m = merge_sources(old, rest);
        let r = merge_sources(old, new);
        assert(m.push(new.last()).take(old.len() as int) =~= m.take(old.len() as int));
        assert forall|x: Seq<char>| new.contains(x) implies r.contains(x) by {
            let j = choose|j: int| 0 <= j < new.len() && new[j] == x;
            if j < new.len() - 1 {
                assert(rest[j] == x);
                assert(rest.contains(x));
                let h = choose|h: int| 0 <= h < m.len() && m[h] == x;
                if !m.contains(new.last()) {
                    assert(m.push(new.last())[h] == x);
                }
            } else if !m.contains(new.last()) {
                assert(m.push(new.last())[m.len() as int] == x);
            }
        }
        assert forall|x: Seq<char>| r.contains(x) implies old.contains(x) || new.contains(x) by {
            let h = choose|h: int| 0 <= h < r.len() && r[h] == x;
            if h < m.len() {
                if !m.contains(new.last()) {
                    assert(m.push(new.last())[h] == m[h]);
                }
                assert(m.contains(x));
                if rest.contains(x) {
                    let j = choose|j: int| 0 <= j < rest.len() && rest[j] == x;
                    assert(new[j] == x);
                }
            } else {
                assert(new[new.len() - 1] == x);
            }
        }
    }
}

/// Merging an entry whose path is already recorded replaces that entry by
/// the new one, whose sources are those recorded before, in front and in
/// their order, followed by any of its own not listed yet; every one of its
/// own sources is listed.
pub proof fn law_merge_one_keeps_sources(m: Seq<(AssetEntry, Seq<Seq<char>>)>, e: AssetEntry)
    requires
        path_pos(m, e.path@, 0) < m.len(),
    ensures
        ({
            let i = path_pos(m, e.path@, 0);
            &&& merge_one(m, e).len() == m.len()
            &&& merge_one(m, e)[i].0 == e
            &&& merge_one(m, e)[i].1.take(m[i].1.len() as int) == m[i].1
            &&& forall|x: Seq<char>| source_views(e).contains(x) ==> merge_one(m, e)[i].1.contains(x)
        }),
{
    let i = path_pos(m, e.path@, 0);
    assert(0 <= i) by {
        lemma_path_pos_bounds(m, e.path@, 0);
    }
    law_merge_sources_keeps_old(m[i].1, source_views(e));
}

proof fn lemma_path_pos_bounds(m: Seq<(AssetEntry, Seq<Seq<char>>)>, p: Seq<char>, k: int)
    requires
        0 <= k,
    ensures
        k <= path_pos(m, p, k) || path_pos(m, p, k) == m.len(),
        0 <= path_pos(m, p, k),
    decreases m.len() - k,
{
    if k < m.len() && m[k].0.path@ != p {
        lemma_path_pos_bounds(m, p, k + 1);
    }
}

/// The first position at or after `k` whose entry has path `p`, or the length.
pub open spec fn path_pos(m: Seq<(AssetEntry, Seq<Seq<char>>)>, p: Seq<char>, k: int) -> int
    decreases m.len() - k,
{
    if k >= m.len() {
        m.len() as int
    } else if m[k].0.path@ == p {
        k
    } else {
        path_pos(m, p, k + 1)
    }
}

/// `e` merged into `m`: it replaces the first entry with its path, whose
/// sources come first in the merged list; else it is added last.
pub open spec fn merge_one(m: Seq<(AssetEntry, Seq<Seq<char>>)>, e: AssetEntry) -> Seq<(AssetEntry, Seq<Seq<char>>)> {
    let i = path_pos(m, e.path@, 0);
    if i < m.len() {
        m.update(i, (e, merge_sources(m[i].1, source_views(e))))
    } else {
        m.push((e, source_views(e)))
    }
}

/// A later entry of `news` has the path of entry `i`.
pub open spec fn path_later(news: Seq<AssetEntry>, i: int) -> bool {
    exists|j: int| i < j < news.len() && (#[trigger] news[j]).path@ == news[i].path@
}

/// The first `k` new entries merged in order; of several with one path only
/// the last counts.
pub open spec fn merge_news(m: Seq<(AssetEntry, Seq<Seq<char>>)>, news: Seq<AssetEntry>, k: int) -> Seq<(AssetEntry, Seq<Seq<char>>)>
    decreases k,
{
    if k <= 0 {
        m
    } else {
        let a = merge_news(m, news, k - 1);
        if path_later(news, k - 1) {
            a
        } else {
            merge_one(a, news[k - 1])
        }
    }
}

/// The first `n` entries whose path is listed in `keep`.
pub open spec fn kept(old: Seq<AssetEntry>, keep: Seq<String>, n: int) -> Seq<AssetEntry>
    decreases n,
{
    if n <= 0 {
        Seq::empty()
    } else {
        let r = kept(old, keep, n - 1);
        if lists_name(keep, old[n - 1].path@) {
            r.push(old[n - 1])
        } else {
            r
        }
    }
}

/// The result of a merge: the old entries (those whose path is kept, when
/// a list of paths is given), with the new ones merged in.
pub open spec fn merged(old: Seq<AssetEntry>, news: Seq<AssetEntry>, keep: Option<Vec<String>>) -> Seq<(AssetEntry, Seq<Seq<char>>)> {
    let base = match keep {
        Some(k) => kept(old, k@, old.len() as int),
        None => old,
    };
    merge_news(model_of(base), news, news.len() as int)
}

/// The total size of the first `n` entries of a model.
pub open spec fn model_size(m: Seq<(AssetEntry, Seq<Seq<char>>)>, n: int) -> nat
    decreases n,
{
    if n <= 0 {
        0
    } else {
        model_size(m, n - 1) + m[n - 1].0.size_bytes as nat
    }
}

/// The source lists of two entries merged.
fn merged_sources(old: &Vec<String>, new: &Vec<String>) -> (r: Vec<String>)
    ensures
        crate::components::strs(r@) == merge_sources(crate::components::strs(old@), crate::components::strs(new@)),
{
    let ghost ov = crate::components::strs(old@);
    let ghost nv = crate::components::strs(new@);
    let mut r: Vec<String> = Vec::new();
    let mut i: usize = 0;
    while i < old.len()
        invariant
            i <= old@.len(),
            ov == crate::components::strs(old@),
            crate::components::strs(r@) == ov.take(i as int),
        decreases old.len() - i,
    {
        let ghost before = r@;
        let c = old[i].clone();
        r.push(c);
        assert(crate::components::strs(r@) =~= crate::components::strs(before).push(old@[i as int]@));
        i = i + 1;
        assert(crate::components::strs(r@) =~= ov.take(i as int));
    }
    assert(ov.take(i as int) =~= ov);
    assert(nv.take(0) =~= Seq::<Seq<char>>::empty());
    let mut k: usize = 0;
    while k < new.len()
        invariant
            k <= new@.len(),
            nv == crate::components::strs(new@),
            crate::components::strs(r@) == merge_sources(ov, nv.take(k as int)),
        decreases new.len() - k,
    {
        let ghost before = r@;
        assert(nv.take(k + 1).drop_last() =~= nv.take(k as int));
        assert(nv.take(k + 1).last() == new@[k as int]@);
        let listed = contains_name(&r, new[k].as_str());
        assert(listed == crate::components::strs(before).contains(new@[k as int]@)) by {
            if listed {
                let j = choose|j: int| 0 <= j < before.len() && #[trigger] before[j]@ == new@[k as int]@;
                assert(crate::components::strs(before)[j] == new@[k as int]@);
            }
            if crate::components::strs(before).contains(new@[k as int]@) {
                let j = choose|j: int| 0 <= j < crate::components::strs(before).len()
                    && crate::components::strs(before)[j] == new@[k as int]@;
                assert(before[j]@ == new@[k as int]@);
            }
        }
        if !listed {
            r.push(new[k].clone());
            assert(crate::components::strs(r@) =~= crate::components::strs(before).push(new@[k as int]@));
        }
        k = k + 1;
    }
    assert(nv.take(k as int) =~= nv);
    r
}

impl AssetManifest {
    /// Merges new entries in (an incremental update). With a list of paths,
    /// the old entries whose path is not listed are dropped first. Each new
    /// entry then replaces the first entry with its path, whose sources are
    /// kept ahead of its own, or is added last; of several new entries with
    /// one path the last counts. The count and total size are recomputed.
    pub fn merge(&mut self, new_assets: Vec<AssetEntry>, new_paths: Option<Vec<String>>)
        requires
            model_size(merged(old(self).assets@, new_assets@, new_paths),
                merged(old(self).assets@, new_assets@, new_paths).len() as int) <= usize::MAX,
        ensures
            is_model(final(self).assets@, merged(old(self).assets@, new_assets@, new_paths)),
            final(self).total_assets == final(self).assets@.len(),
            final(self).total_size_bytes == model_size(merged(old(self).assets@, new_assets@, new_paths),
                merged(old(self).assets@, new_assets@, new_paths).len() as int),
            final(self).version == old(self).version,
            final(self).backend == old(self).backend,
            final(self).assets_dir == old(self).assets_dir,
            final(self).generator_version == old(self).generator_version,
    {
        let ghost news = new_assets@;
        let ghost target = merged(old(self).assets@, new_assets@, new_paths);
        let mut old_assets: Vec<AssetEntry> = Vec::new();
        std::mem::swap(&mut old_assets, &mut self.assets);
        let ghost orig = old_assets@;
        let mut base: Vec<AssetEntry> = Vec::new();
        match &new_paths {
            None => {
                base = old_assets;
            },
            Some(keep) => {
                let ghost mut j: int = 0;
                assert(orig.skip(0) =~= orig);
                while old_assets.len() > 0
                    invariant
                        0 <= j <= orig.len(),
                        old_assets@ == orig.skip(j),
                        base@ == kept(orig, keep@, j),
                    decreases old_assets.len(),
                {
                    let e = old_assets.remove(0);
                    proof {
                        assert(e == orig[j]);
                        assert(old_assets@ =~= orig.skip(j + 1));
                    }
                    if contains_name(keep, e.path.as_str()) {
                        base.push(e);
                    }
                    proof {
                        j = j + 1;
                    }
                }
                assert(j == orig.len());
            },
        }
        let ghost start = model_of(base@);
        assert(is_model(base@, start));
        let mut rest = new_assets;
        let ghost mut k: int = 0;
        assert(news.skip(0) =~= news);
        while rest.len() > 0
            invariant
                0 <= k <= news.len(),
                rest@ == news.skip(k),
                is_model(base@, merge_news(start, news, k)),
            decreases rest.len(),
        {
            let e = rest.remove(0);
            proof {
                assert(e == news[k]);
                assert(rest@ =~= news.skip(k + 1));
            }
            let mut later = false;
            let mut q: usize = 0;
            while q < rest.len()
                invariant
                    q <= rest@.len(),
                    rest@ == news.skip(k + 1),
                    e == news[k],
                    0 <= k < news.len(),
                    later == exists|jj: int| 0 <= jj < q && (#[trigger] rest@[jj]).path@ == e.path@,
                decreases rest.len() - q,
            {
                if crate::namemap::str_eq(rest[q].path.as_str(), e.path.as_str()) {
                    later = true;
                }
                q = q + 1;
            }
            proof {
                if later {
                    let jj = choose|jj: int| 0 <= jj < q && (#[trigger] rest@[jj]).path@ == e.path@;
                    assert(news[k + 1 + jj] == rest@[jj]);
                    assert(path_later(news, k));
                } else if path_later(news, k) {
                    let jn = choose|jn: int| k < jn < news.len() && (#[trigger] news[jn]).path@ == news[k].path@;
                    assert(rest@[jn - k - 1] == news[jn]);
                }
            }
            let ghost m = merge_news(start, news, k);
            if !later {
                let mut i: usize = 0;
                while i < base.len() && !crate::namemap::str_eq(base[i].path.as_str(), e.path.as_str())
                    invariant
                        i <= base@.len(),
                        is_model(base@, m),
                        path_pos(m, e.path@, 0) == path_pos(m, e.path@, i as int),
                    decreases base.len() - i,
                {
                    i = i + 1;
                }
                if i < base.len() {
                    assert(path_pos(m, e.path@, i as int) == i);
                    let sources = merged_sources(&base[i].source_files, &e.source_files);
                    let entry = AssetEntry {
                        path: e.path,
                        sha256: e.sha256,
                        asset_type: e.asset_type,
                        primitive: e.primitive,
                        size_bytes: e.size_bytes,
                        source_files: sources,
                        generated_at: e.generated_at,
                        generator_version: e.generator_version,
                    };
                    let ghost prev = base@;
                    base.set(i, entry);
                    proof {
                        let m2 = merge_one(m, news[k]);
                        assert(m2 == m.update(i as int, (news[k], merge_sources(m[i as int].1, source_views(news[k])))));
                        assert forall|t: int| 0 <= t < base@.len() implies entry_is(#[trigger] base@[t], m2[t].0, m2[t].1) by {
                            if t != i {
                                assert(base@[t] == prev[t]);
                            }
                        }
                    }
                } else {
                    let ghost prev = base@;
                    base.push(e);
                    proof {
                        let m2 = merge_one(m, news[k]);
                        assert(m2 == m.push((news[k], source_views(news[k]))));
                        assert forall|t: int| 0 <= t < base@.len() implies entry_is(#[trigger] base@[t], m2[t].0, m2[t].1) by {
                            if t < prev.len() {
                                assert(base@[t] == prev[t]);
                            }
                        }
                    }
                }
            }
            proof {
                k = k + 1;
            }
        }
        assert(k == news.len());
        let mut total: usize = 0;
        let mut t: usize = 0;
        while t < base.len()
            invariant
                t <= base@.len(),
                is_model(base@, target),
                total == model_size(target, t as int),
                model_size(target, target.len() as int) <= usize::MAX,
            decreases base.len() - t,
        {
            proof {
                lemma_model_size_mono(target, t + 1, target.len() as int);
            }
            total = total + base[t].size_bytes;
            t = t + 1;
        }
        self.assets = base;
        self.total_assets = self.assets.len();
        self.total_size_bytes = total;
        self.created_at = now_rfc3339();
    }
}

proof fn lemma_model_size_mono(m: Seq<(AssetEntry, Seq<Seq<char>>)>, a: int, b: int)
    requires
        0 <= a <= b,
    ensures
        model_size(m, a) <= model_size(m, b),
    decreases b - a,
{
    if a < b {
        lemma_model_size_mono(m, a, b - 1);
    }
}

/// Count and total size of the assets of one type.
#[derive(Debug, Clone, Copy)]
pub struct TypeStats {
    pub count: usize,
    pub total_bytes: usize,
}

/// Summary of a manifest.
#[derive(Debug)]
pub struct ManifestStats {
    pub total_assets: usize,
    pub total_size_bytes: usize,
    /// Per asset type.
    pub by_type: NameMap<TypeStats>,
    /// The path of the largest asset (the last of several of that size).
    pub largest_asset: Option<String>,
}

/// The number of the first `n` assets that have type `t`.
pub open spec fn type_count(a: Seq<AssetEntry>, t: Seq<char>, n: int) -> nat
    decreases n,
{
    if n <= 0 {
        0
    } else {
        type_count(a, t, n - 1) + if a[n - 1].asset_type@ == t { 1nat } else { 0nat }
    }
}

/// The total size of the first `n` assets that have type `t`.
pub open spec fn type_bytes(a: Seq<AssetEntry>, t: Seq<char>, n: int) -> nat
    decreases n,
{
    if n <= 0 {
        0
    } else {
        type_bytes(a, t, n - 1) + if a[n - 1].asset_type@ == t { a[n - 1].size_bytes as nat } else { 0nat }
    }
}

/// The position of the largest of the first `n` assets (`n >= 1`), the last
/// one where several share the largest size.
pub open spec fn largest_pos(a: Seq<AssetEntry>, n: int) -> int
    decreases n,
{
    if n <= 1 {
        0
    } else {
        let b = largest_pos(a, n - 1);
        if a[n - 1].size_bytes >= a[b].size_bytes {
            n - 1
        } else {
            b
        }
    }
}

proof fn lemma_type_sums(a: Seq<AssetEntry>, t: Seq<char>, m: int, n: int)
    requires
        0 <= m <= n,
    ensures
        type_bytes(a, t, m) <= type_bytes(a, t, n),
        type_count(a, t, m) <= type_count(a, t, n),
        type_count(a, t, n) <= n,
    decreases n,
{
    if n > 0 {
        if m < n {
            lemma_type_sums(a, t, m, n - 1);
        } else {
            lemma_type_sums(a, t, n - 1, n - 1);
        }
    }
}

proof fn lemma_largest_pos(a: Seq<AssetEntry>, n: int)
    requires
        1 <= n,
    ensures
        0 <= largest_pos(a, n) < n,
    decreases n,
{
    if n > 1 {
        lemma_largest_pos(a, n - 1);
    }
}

impl AssetManifest {
    /// Summary statistics: the totals, per type the count and total size,
    /// and the largest asset.
    pub fn stats(&self) -> (st: ManifestStats)
        requires
            forall|t: Seq<char>| type_bytes(self.assets@, t, self.assets@.len() as int) <= usize::MAX,
        ensures
            st.total_assets == self.total_assets,
            st.total_size_bytes == self.total_size_bytes,
            forall|t: Seq<char>| #[trigger] st.by_type.has(t) <==> exists|i: int| 0 <= i < self.assets@.len()
                && (#[trigger] self.assets@[i]).asset_type@ == t,
            forall|t: Seq<char>| #[trigger] st.by_type.has(t) ==> st.by_type.value_of(t).count == type_count(self.assets@, t,
                self.assets@.len() as int) && st.by_type.value_of(t).total_bytes == type_bytes(self.assets@, t,
                self.assets@.len() as int),
            self.assets@.len() == 0 ==> st.largest_asset is None,
            self.assets@.len() > 0 ==> (st.largest_asset matches Some(p)
                && p == self.assets@[largest_pos(self.assets@, self.assets@.len() as int)].path),
    {
        let ghost a = self.assets@;
        let mut by_type: NameMap<TypeStats> = NameMap::new();
        let mut largest: Option<usize> = None;
        let mut i: usize = 0;
        while i < self.assets.len()
            invariant
                i <= a.len(),
                a == self.assets@,
                forall|t: Seq<char>| type_bytes(a, t, a.len() as int) <= usize::MAX,
                forall|t: Seq<char>| #[trigger] by_type.has(t) <==> exists|j: int| 0 <= j < i && (#[trigger] a[j]).asset_type@ == t,
                forall|t: Seq<char>| #[trigger] by_type.has(t) ==> by_type.value_of(t).count == type_count(a, t, i as int)
                    && by_type.value_of(t).total_bytes == type_bytes(a, t, i as int),
                i == 0 ==> largest is None,
                i > 0 ==> largest == Some(largest_pos(a, i as int) as usize),
            decreases a.len() - i,
        {
            let e = &self.assets[i];
            let ghost ty = e.asset_type@;
            proof {
                lemma_type_sums(a, ty, i + 1, a.len() as int);
                if i > 0 {
                    lemma_largest_pos(a, i as int);
                }
            }
            let cur = match by_type.get(e.asset_type.as_str()) {
                Some(s) => *s,
                None => TypeStats { count: 0, total_bytes: 0 },
            };
            proof {
                if !by_type.has(ty) {
                    assert forall|j: int| 0 <= j < i implies (#[trigger] a[j]).asset_type@ != ty by {}
                    lemma_absent_type(a, ty, i as int);
                }
            }
            let next = TypeStats { count: cur.count + 1, total_bytes: cur.total_bytes + e.size_bytes };
            let ghost old_map = by_type;
            by_type.insert(e.asset_type.clone(), next);
            proof {
                assert forall|t: Seq<char>| #[trigger] by_type.has(t) <==> exists|j: int| 0 <= j < i + 1
                    && (#[trigger] a[j]).asset_type@ == t by {
                    if t != ty && by_type.has(t) {
                        assert(old_map.has(t));
                    }
                    if exists|j: int| 0 <= j < i + 1 && (#[trigger] a[j]).asset_type@ == t {
                        if t != ty {
                            let j = choose|j: int| 0 <= j < i + 1 && (#[trigger] a[j]).asset_type@ == t;
                            assert(j < i);
                        }
                    }
                }
                assert forall|t: Seq<char>| #[trigger] by_type.has(t) implies by_type.value_of(t).count == type_count(a, t,
                    i + 1) && by_type.value_of(t).total_bytes == type_bytes(a, t, i + 1) by {
                    if t != ty {
                        assert(old_map.has(t));
                    }
                }
            }
            match largest {
                Some(b) => {
                    if self.assets[i].size_bytes >= self.assets[b].size_bytes {
                        largest = Some(i);
                    }
                },
                None => {
                    largest = Some(i);
                },
            }
            i = i + 1;
        }
        proof {
            if a.len() > 0 {
                lemma_largest_pos(a, a.len() as int);
            }
        }
        let largest_asset = match largest {
            Some(b) => Some(self.assets[b].path.clone()),
            None => None,
        };
        ManifestStats {
            total_assets: self.total_assets,
            total_size_bytes: self.total_size_bytes,
            by_type,
            largest_asset,
        }
    }
}

proof fn lemma_absent_type(a: Seq<AssetEntry>, t: Seq<char>, n: int)
    requires
        0 <= n <= a.len(),
        forall|j: int| 0 <= j < n ==> (#[trigger] a[j]).asset_type@ != t,
    ensures
        type_count(a, t, n) == 0,
        type_bytes(a, t, n) == 0,
    decreases n,
{
    if n > 0 {
        lemma_absent_type(a, t, n - 1);
    }
}

/// The outcome of checking one asset on disk.
#[derive(Debug)]
pub enum VerificationResult {
    Valid { path: String },
    Missing { path: String },
    HashMismatch { path: String, expected: String, actual: String },
    ReadError { path: String, error: String },
}

/// What checking the asset `e` gives, for what reading its file gave: no
/// file, a read error, or the bytes, whose hash must be the recorded one.
pub open spec fn check_result(e: AssetEntry, read: Option<Result<Vec<u8>, String>>, v: VerificationResult) -> bool {
    match read {
        None => v matches VerificationResult::Missing { path } && path == e.path,
        Some(Err(msg)) => v matches VerificationResult::ReadError { path, error } && path == e.path && error == msg,
        Some(Ok(bytes)) => if lower_hex(sha256_of(bytes@)) == e.sha256@ {
            v matches VerificationResult::Valid { path } && path == e.path
        } else {
            v matches VerificationResult::HashMismatch { path, expected, actual } && path == e.path
                && expected == e.sha256 && actual@ == lower_hex(sha256_of(bytes@))
        },
    }
}

impl AssetManifest {
    /// Checks every asset against what reading its file gave (`reads[i]`
    /// for asset `i`: `None` when the file does not exist).
    pub fn verify(&self, reads: &[Option<Result<Vec<u8>, String>>]) -> (r: Vec<VerificationResult>)
        requires
            reads@.len() == self.assets@.len(),
        ensures
            r@.len() == self.assets@.len(),
            forall|i: int| 0 <= i < r@.len() ==> check_result(self.assets@[i], reads@[i], #[trigger] r@[i]),
    {
        let mut r: Vec<VerificationResult> = Vec::new();
        let mut i: usize = 0;
        while i < self.assets.len()
            invariant
                i <= self.assets@.len(),
                reads@.len() == self.assets@.len(),
                r@.len() == i,
                forall|j: int| 0 <= j < i ==> check_result(self.assets@[j], reads@[j], #[trigger] r@[j]),
            decreases self.assets.len() - i,
        {
            let e = &self.assets[i];
            let v = match &reads[i] {
                None => VerificationResult::Missing { path: e.path.clone() },
                Some(Err(msg)) => VerificationResult::ReadError { path: e.path.clone(), error: msg.clone() },
                Some(Ok(bytes)) => {
                    let actual = sha256_hex(bytes.as_slice());
                    if crate::namemap::str_eq(actual.as_str(), e.sha256.as_str()) {
                        VerificationResult::Valid { path: e.path.clone() }
                    } else {
                        VerificationResult::HashMismatch { path: e.path.clone(), expected: e.sha256.clone(), actual }
                    }
                },
            };
            r.push(v);
            i = i + 1;
        }
        r
    }
}

/// Some entry of the model has path `p`.
pub open spec fn has_path(m: Seq<(AssetEntry, Seq<Seq<char>>)>, p: Seq<char>) -> bool {
    exists|j: int| 0 <= j < m.len() && (#[trigger] m[j]).0.path@ == p
}

proof fn lemma_path_pos(m: Seq<(AssetEntry, Seq<Seq<char>>)>, p: Seq<char>, k: int)
    requires
        0 <= k <= m.len(),
    ensures
        k <= path_pos(m, p, k) <= m.len(),
        path_pos(m, p, k) < m.len() ==> m[path_pos(m, p, k)].0.path@ == p,
    decreases m.len() - k,
{
    if k < m.len() && m[k].0.path@ != p {
        lemma_path_pos(m, p, k + 1);
    }
}

/// Merging one entry keeps every path and adds the entry's.
proof fn lemma_merge_one_paths(m: Seq<(AssetEntry, Seq<Seq<char>>)>, e: AssetEntry)
    ensures
        has_path(merge_one(m, e), e.path@),
        forall|p: Seq<char>| has_path(m, p) ==> #[trigger] has_path(merge_one(m, e), p),
        forall|p: Seq<char>| #[trigger] has_path(merge_one(m, e), p) ==> has_path(m, p) || p == e.path@,
{
    lemma_path_pos(m, e.path@, 0);
    let r = merge_one(m, e);
    let i = path_pos(m, e.path@, 0);
    if i < m.len() {
        assert(r[i].0.path@ == e.path@);
        assert forall|p: Seq<char>| has_path(m, p) implies #[trigger] has_path(r, p) by {
            let j = choose|j: int| 0 <= j < m.len() && (#[trigger] m[j]).0.path@ == p;
            if j == i {
                assert(r[i].0.path@ == p);
            } else {
                assert(r[j] == m[j]);
            }
        }
        assert forall|p: Seq<char>| #[trigger] has_path(r, p) implies has_path(m, p) || p == e.path@ by {
            let j = choose|j: int| 0 <= j < r.len() && (#[trigger] r[j]).0.path@ == p;
            if j != i {
                assert(r[j] == m[j]);
            }
        }
    } else {
        assert(r[m.len() as int].0.path@ == e.path@);
        assert forall|p: Seq<char>| has_path(m, p) implies #[trigger] has_path(r, p) by {
            let j = choose|j: int| 0 <= j < m.len() && (#[trigger] m[j]).0.path@ == p;
            assert(r[j] == m[j]);
        }
        assert forall|p: Seq<char>| #[trigger] has_path(r, p) implies has_path(m, p) || p == e.path@ by {
            let j = choose|j: int| 0 <= j < r.len() && (#[trigger] r[j]).0.path@ == p;
            if j < m.len() {
                assert(r[j] == m[j]);
            }
        }
    }
}

/// Paths through the merge of the first `k` new entries: the old ones stay,
/// each merged new entry's is there, and nothing else comes in.
proof fn lemma_merge_news_paths(m: Seq<(AssetEntry, Seq<Seq<char>>)>, news: Seq<AssetEntry>, k: int)
    requires
        0 <= k <= news.len(),
    ensures
        forall|p: Seq<char>| has_path(m, p) ==> #[trigger] has_path(merge_news(m, news, k), p),
        forall|i: int| 0 <= i < k && !path_later(news, i) ==> has_path(merge_news(m, news, k), #[trigger] news[i].path@),
        forall|p: Seq<char>| #[trigger] has_path(merge_news(m, news, k), p) ==> has_path(m, p)
            || exists|i: int| 0 <= i < k && (#[trigger] news[i]).path@ == p,
    decreases k,
{
    if k > 0 {
        lemma_merge_news_paths(m, news, k - 1);
        let a = merge_news(m, news, k - 1);
        if !path_later(news, k - 1) {
            lemma_merge_one_paths(a, news[k - 1]);
        }
        let r = merge_news(m, news, k);
        assert forall|p: Seq<char>| #[trigger] has_path(r, p) implies has_path(m, p)
            || exists|i: int| 0 <= i < k && (#[trigger] news[i]).path@ == p by {
            if !path_later(news, k - 1) && p == news[k - 1].path@ {
                assert(news[k - 1].path@ == p);
            }
        }
    }
}

/// Of the new entries with the path of entry `i`, one at or after `i` is the
/// last.
proof fn lemma_last_of_path(news: Seq<AssetEntry>, i: int) -> (j: int)
    requires
        0 <= i < news.len(),
    ensures
        i <= j < news.len(),
        news[j].path@ == news[i].path@,
        !path_later(news, j),
    decreases news.len() - i,
{
    if path_later(news, i) {
        let j1 = choose|j: int| i < j < news.len() && (#[trigger] news[j]).path@ == news[i].path@;
        lemma_last_of_path(news, j1)
    } else {
        i
    }
}

/// A merge adds or updates every new entry: the path of each new entry is
/// in the merged manifest.
pub proof fn law_merge_has_new_paths(old: Seq<AssetEntry>, news: Seq<AssetEntry>, keep: Option<Vec<String>>, i: int)
    requires
        0 <= i < news.len(),
    ensures
        has_path(merged(old, news, keep), news[i].path@),
{
    let base = match keep {
        Some(k) => kept(old, k@, old.len() as int),
        None => old,
    };
    lemma_merge_news_paths(model_of(base), news, news.len() as int);
    let j = lemma_last_of_path(news, i);
    assert(has_path(merged(old, news, keep), news[j].path@));
}

/// Without a list of paths to keep, a merge keeps every old entry's path.
pub proof fn law_merge_keeps_old_paths(old: Seq<AssetEntry>, news: Seq<AssetEntry>, i: int)
    requires
        0 <= i < old.len(),
    ensures
        has_path(merged(old, news, None), old[i].path@),
{
    let m = model_of(old);
    assert(m[i].0.path@ == old[i].path@);
    assert(has_path(m, old[i].path@));
    lemma_merge_news_paths(m, news, news.len() as int);
}

proof fn lemma_kept_paths(old: Seq<AssetEntry>, keep: Seq<String>, n: int)
    requires
        0 <= n <= old.len(),
    ensures
        forall|j: int| 0 <= j < kept(old, keep, n).len() ==> lists_name(keep, (#[trigger] kept(old, keep, n)[j]).path@),
    decreases n,
{
    if n > 0 {
        lemma_kept_paths(old, keep, n - 1);
        let r = kept(old, keep, n - 1);
        if lists_name(keep, old[n - 1].path@) {
            assert forall|j: int| 0 <= j < r.push(old[n - 1]).len() implies lists_name(keep,
                (#[trigger] r.push(old[n - 1])[j]).path@) by {
                if j < r.len() {
                    assert(r.push(old[n - 1])[j] == r[j]);
                }
            }
        }
    }
}

/// With a list of paths to keep, a merged manifest holds only paths from
/// that list or of new entries: stale assets are gone.
pub proof fn law_merge_drops_stale(old: Seq<AssetEntry>, news: Seq<AssetEntry>, keep: Vec<String>, p: Seq<char>)
    requires
        has_path(merged(old, news, Some(keep)), p),
    ensures
        lists_name(keep@, p) || exists|i: int| 0 <= i < news.len() && (#[trigger] news[i]).path@ == p,
{
    let base = kept(old, keep@, old.len() as int);
    let m = model_of(base);
    lemma_merge_news_paths(m, news, news.len() as int);
    lemma_kept_paths(old, keep@, old.len() as int);
    if has_path(m, p) {
        let j = choose|j: int| 0 <= j < m.len() && (#[trigger] m[j]).0.path@ == p;
        assert(m[j].0 == base[j]);
    }
}

} // verus!
