//! Rendering targets: the capabilities of each Markdown destination and the
//! post-processing it needs.

use vstd::prelude::*;
use crate::error::Result;
use crate::text::{chars_of, string_of, replace_all, replace_chars};

verus! {

/// The rendering backend a target prefers.
#[derive(Debug, Clone, Copy, PartialEq, Eq, Structural)]
pub enum BackendType {
    Shields,
    Svg,
    PlainText,
}

/// A Markdown destination.
pub trait Target {
    /// The target's name.
    fn name(&self) -> &str;

    /// Whether raw HTML survives.
    fn supports_html(&self) -> bool;

    /// Whether SVG images can be embedded.
    fn supports_svg_embed(&self) -> bool;

    /// Whether external image URLs work.
    fn supports_external_images(&self) -> bool;

    /// A recommended maximum line length.
    fn max_line_length(&self) -> Option<usize>;

    /// The backend to use by default.
    fn preferred_backend(&self) -> BackendType;

    /// Whether Unicode-styled text is shown well.
    fn supports_unicode_styling(&self) -> (b: bool)
        default_ensures
            b == true,
    {
        true
    }

    /// Rewrites the rendered Markdown for this target.
    fn post_process(&self, markdown: &str) -> (r: Result<String>)
        default_ensures
            r matches Ok(t) && t@ == markdown@,
    {
        Ok(markdown.to_owned())
    }

    /// A human-readable description.
    fn description(&self) -> (r: &str)
        default_ensures
            r@ == "No description available"@,
    {
        proof {
            reveal_strlit("No description available");
        }
        "No description available"
    }
}

/// A chain of replacements applied in order.
pub open spec fn replace_chain(s: Seq<char>, pairs: Seq<(Seq<char>, Seq<char>)>) -> Seq<char>
    decreases pairs.len(),
{
    if pairs.len() == 0 {
        s
    } else {
        replace_chain(replace_all(s, pairs[0].0, pairs[0].1), pairs.skip(1))
    }
}

/// One replacement alone is that replacement applied everywhere.
pub proof fn law_replace_chain_single(s: Seq<char>, p: Seq<char>, q: Seq<char>)
    ensures
        replace_chain(s, seq![(p, q)]) == replace_all(s, p, q),
{
    assert(seq![(p, q)].skip(1) =~= Seq::<(Seq<char>, Seq<char>)>::empty());
    assert(replace_chain(replace_all(s, p, q), Seq::<(Seq<char>, Seq<char>)>::empty()) == replace_all(s, p, q));
}

/// A chain with one more replacement at its end is the chain applied
/// first, then that replacement applied everywhere to its result: every
/// replacement of the chain, the last one included, is applied, in order.
pub proof fn law_replace_chain_last(s: Seq<char>, pairs: Seq<(Seq<char>, Seq<char>)>, p: Seq<char>, q: Seq<char>)
    ensures
        replace_chain(s, pairs.push((p, q))) == replace_all(replace_chain(s, pairs), p, q),
    decreases pairs.len(),
{
    if pairs.len() == 0 {
        assert(pairs.push((p, q)) =~= seq![(p, q)]);
        law_replace_chain_single(s, p, q);
    } else {
        let s2 = replace_all(s, pairs[0].0, pairs[0].1);
        assert(pairs.push((p, q)).skip(1) =~= pairs.skip(1).push((p, q)));
        assert(pairs.push((p, q))[0] == pairs[0]);
        law_replace_chain_last(s2, pairs.skip(1), p, q);
    }
}

/// Applies replacements in order; every pattern is non-empty.
pub fn apply_replacements(s: &str, pairs: &[(&str, &str)]) -> (r: String)
    requires
        forall|i: int| 0 <= i < pairs@.len() ==> (#[trigger] pairs@[i]).0@.len() > 0,
    ensures
        r@ == replace_chain(s@, pairs@.map_values(|p: (&str, &str)| (p.0@, p.1@))),
{
    let ghost ps = pairs@.map_values(|p: (&str, &str)| (p.0@, p.1@));
    let mut cur = chars_of(s);
    let mut i: usize = 0;
    assert(ps.skip(0) =~= ps);
    while i < pairs.len()
        invariant
            i <= pairs@.len(),
            ps == pairs@.map_values(|p: (&str, &str)| (p.0@, p.1@)),
            forall|k: int| 0 <= k < pairs@.len() ==> (#[trigger] pairs@[k]).0@.len() > 0,
            replace_chain(s@, ps) == replace_chain(cur@, ps.skip(i as int)),
        decreases pairs.len() - i,
    {
        let (pat, rep) = pairs[i];
        let pv = chars_of(pat);
        let rv = chars_of(rep);
        proof {
            assert(ps.skip(i as int)[0] == (pat@, rep@));
            assert(ps.skip(i as int).skip(1) =~= ps.skip(i + 1));
        }
        cur = replace_chars(cur.as_slice(), pv.as_slice(), rv.as_slice());
        i = i + 1;
    }
    string_of(cur.as_slice())
}

/// Emoji callouts rewritten as GitHub alerts.
pub fn convert_callouts_to_github_alerts(markdown: &str) -> (r: String)
    ensures
        r@ == replace_chain(markdown@, seq![
            ("> 🟢 **Note**"@, "> [!NOTE]"@),
            ("> ⚠️ **Warning**"@, "> [!WARNING]"@),
            ("> 🔴 **Error**"@, "> [!CAUTION]"@),
            ("> 🟡 **Tip**"@, "> [!TIP]"@),
            ("> ℹ️ **Info**"@, "> [!NOTE]"@),
        ]),
{
    let pairs = [
        ("> 🟢 **Note**", "> [!NOTE]"),
        ("> ⚠️ **Warning**", "> [!WARNING]"),
        ("> 🔴 **Error**", "> [!CAUTION]"),
        ("> 🟡 **Tip**", "> [!TIP]"),
        ("> ℹ️ **Info**", "> [!NOTE]"),
    ];
    proof {
        reveal_strlit("> 🟢 **Note**");
        reveal_strlit("> ⚠️ **Warning**");
        reveal_strlit("> 🔴 **Error**");
        reveal_strlit("> 🟡 **Tip**");
        reveal_strlit("> ℹ️ **Info**");
    }
    let r = apply_replacements(markdown, &pairs);
    proof {
        assert(pairs@.map_values(|p: (&str, &str)| (p.0@, p.1@)) =~= seq![
            ("> 🟢 **Note**"@, "> [!NOTE]"@),
            ("> ⚠️ **Warning**"@, "> [!WARNING]"@),
            ("> 🔴 **Error**"@, "> [!CAUTION]"@),
            ("> 🟡 **Tip**"@, "> [!TIP]"@),
            ("> ℹ️ **Info**"@, "> [!NOTE]"@),
        ]);
    }
    r
}

/// Emoji callouts rewritten as GitLab bold labels.
pub fn convert_callouts_to_gitlab_alerts(markdown: &str) -> (r: String)
    ensures
        r@ == replace_chain(markdown@, seq![
            ("> 🟢 **Note**"@, "> **Note**"@),
            ("> ⚠️ **Warning**"@, "> **Warning**"@),
            ("> 🔴 **Error**"@, "> **Danger**"@),
            ("> 🟡 **Tip**"@, "> **Tip**"@),
            ("> ℹ️ **Info**"@, "> **Info**"@),
        ]),
{
    let pairs = [
        ("> 🟢 **Note**", "> **Note**"),
        ("> ⚠️ **Warning**", "> **Warning**"),
        ("> 🔴 **Error**", "> **Danger**"),
        ("> 🟡 **Tip**", "> **Tip**"),
        ("> ℹ️ **Info**", "> **Info**"),
    ];
    proof {
        reveal_strlit("> 🟢 **Note**");
        reveal_strlit("> ⚠️ **Warning**");
        reveal_strlit("> 🔴 **Error**");
        reveal_strlit("> 🟡 **Tip**");
        reveal_strlit("> ℹ️ **Info**");
    }
    let r = apply_replacements(markdown, &pairs);
    proof {
        assert(pairs@.map_values(|p: (&str, &str)| (p.0@, p.1@)) =~= seq![
            ("> 🟢 **Note**"@, "> **Note**"@),
            ("> ⚠️ **Warning**"@, "> **Warning**"@),
            ("> 🔴 **Error**"@, "> **Danger**"@),
            ("> 🟡 **Tip**"@, "> **Tip**"@),
            ("> ℹ️ **Info**"@, "> **Info**"@),
        ]);
    }
    r
}

/// The replacements that make text ASCII-safe for PyPI.
pub open spec fn ascii_pairs() -> Seq<(Seq<char>, Seq<char>)> {
    seq![
        ("→"@, "->"@), ("←"@, "<-"@), ("↔"@, "<->"@), ("•"@, "*"@), ("·"@, "."@), ("─"@, "-"@), ("│"@, "|"@),
        ("┌"@, "+"@), ("┐"@, "+"@), ("└"@, "+"@), ("┘"@, "+"@), ("├"@, "+"@), ("┤"@, "+"@), ("┬"@, "+"@),
        ("┴"@, "+"@), ("┼"@, "+"@), ("▓"@, "#"@), ("▒"@, "="@), ("░"@, "-"@), ("█"@, "#"@), ("▌"@, "|"@),
        ("🟢"@, "[OK]"@), ("🟡"@, "[WARN]"@), ("🔴"@, "[ERR]"@), ("⚠️"@, "[!]"@), ("ℹ️"@, "[i]"@),
    ]
}

/// Box drawing, arrows, shades and status emoji replaced by ASCII.
pub fn convert_unicode_to_ascii(markdown: &str) -> (r: String)
    ensures
        r@ == replace_chain(markdown@, ascii_pairs()),
{
    let pairs = [
        ("→", "->"), ("←", "<-"), ("↔", "<->"), ("•", "*"), ("·", "."), ("─", "-"), ("│", "|"),
        ("┌", "+"), ("┐", "+"), ("└", "+"), ("┘", "+"), ("├", "+"), ("┤", "+"), ("┬", "+"),
        ("┴", "+"), ("┼", "+"), ("▓", "#"), ("▒", "="), ("░", "-"), ("█", "#"), ("▌", "|"),
        ("🟢", "[OK]"), ("🟡", "[WARN]"), ("🔴", "[ERR]"), ("⚠️", "[!]"), ("ℹ️", "[i]"),
    ];
    proof {
        reveal_strlit("→");
        reveal_strlit("←");
        reveal_strlit("↔");
        reveal_strlit("•");
        reveal_strlit("·");
        reveal_strlit("─");
        reveal_strlit("│");
        reveal_strlit("┌");
        reveal_strlit("┐");
        reveal_strlit("└");
        reveal_strlit("┘");
        reveal_strlit("├");
        reveal_strlit("┤");
        reveal_strlit("┬");
        reveal_strlit("┴");
        reveal_strlit("┼");
        reveal_strlit("▓");
        reveal_strlit("▒");
        reveal_strlit("░");
        reveal_strlit("█");
        reveal_strlit("▌");
        reveal_strlit("🟢");
        reveal_strlit("🟡");
        reveal_strlit("🔴");
        reveal_strlit("⚠️");
        reveal_strlit("ℹ️");
    }
    let r = apply_replacements(markdown, &pairs);
    proof {
        assert(pairs@.map_values(|p: (&str, &str)| (p.0@, p.1@)) =~= ascii_pairs());
    }
    r
}


/// GitHub-Flavored Markdown (HTML mostly stripped).
#[derive(Debug, Clone, Copy)]
pub struct GitHubTarget;

impl Target for GitHubTarget {
    fn name(&self) -> (r: &str)
        ensures
            r@ == "github"@,
    {
        proof {
            reveal_strlit("github");
        }
        "github"
    }

    fn supports_html(&self) -> (b: bool)
        ensures
            b == false,
    {
        false
    }

    fn supports_svg_embed(&self) -> (b: bool)
        ensures
            b == true,
    {
        true
    }

    fn supports_external_images(&self) -> (b: bool)
        ensures
            b == true,
    {
        true
    }

    fn max_line_length(&self) -> (r: Option<usize>)
        ensures
            r is None,
    {
        None
    }

    fn preferred_backend(&self) -> (b: BackendType)
        ensures
            b == BackendType::Shields,
    {
        BackendType::Shields
    }

    fn description(&self) -> (r: &str)
        ensures
            r@ == "GitHub-Flavored Markdown with shields.io badges"@,
    {
        proof {
            reveal_strlit("GitHub-Flavored Markdown with shields.io badges");
        }
        "GitHub-Flavored Markdown with shields.io badges"
    }

    fn post_process(&self, markdown: &str) -> (r: Result<String>)
        ensures
            r matches Ok(t) && t@ == replace_chain(markdown@, seq![
                ("> 🟢 **Note**"@, "> [!NOTE]"@),
                ("> ⚠️ **Warning**"@, "> [!WARNING]"@),
                ("> 🔴 **Error**"@, "> [!CAUTION]"@),
                ("> 🟡 **Tip**"@, "> [!TIP]"@),
                ("> ℹ️ **Info**"@, "> [!NOTE]"@),
            ]),
    {
        Ok(convert_callouts_to_github_alerts(markdown))
    }
}

/// Local documentation rendered offline.
#[derive(Debug, Clone, Copy)]
pub struct LocalDocsTarget;

impl Target for LocalDocsTarget {
    fn name(&self) -> (r: &str)
        ensures
            r@ == "local"@,
    {
        proof {
            reveal_strlit("local");
        }
        "local"
    }

    fn supports_html(&self) -> (b: bool)
        ensures
            b == true,
    {
        true
    }

    fn supports_svg_embed(&self) -> (b: bool)
        ensures
            b == true,
    {
        true
    }

    fn supports_external_images(&self) -> (b: bool)
        ensures
            b == false,
    {
        false
    }

    fn max_line_length(&self) -> (r: Option<usize>)
        ensures
            r is None,
    {
        None
    }

    fn preferred_backend(&self) -> (b: BackendType)
        ensures
            b == BackendType::Svg,
    {
        BackendType::Svg
    }

    fn description(&self) -> (r: &str)
        ensures
            r@ == "Local documentation with SVG assets (offline-first)"@,
    {
        proof {
            reveal_strlit("Local documentation with SVG assets (offline-first)");
        }
        "Local documentation with SVG assets (offline-first)"
    }
}

/// npm package README.
#[derive(Debug, Clone, Copy)]
pub struct NpmTarget;

impl Target for NpmTarget {
    fn name(&self) -> (r: &str)
        ensures
            r@ == "npm"@,
    {
        proof {
            reveal_strlit("npm");
        }
        "npm"
    }

    fn supports_html(&self) -> (b: bool)
        ensures
            b == false,
    {
        false
    }

    fn supports_svg_embed(&self) -> (b: bool)
        ensures
            b == true,
    {
        true
    }

    fn supports_external_images(&self) -> (b: bool)
        ensures
            b == true,
    {
        true
    }

    fn max_line_length(&self) -> (r: Option<usize>)
        ensures
            r is None,
    {
        None
    }

    fn preferred_backend(&self) -> (b: BackendType)
        ensures
            b == BackendType::Shields,
    {
        BackendType::Shields
    }

    fn description(&self) -> (r: &str)
        ensures
            r@ == "npm package README (similar to GitHub)"@,
    {
        proof {
            reveal_strlit("npm package README (similar to GitHub)");
        }
        "npm package README (similar to GitHub)"
    }
}

/// GitLab-Flavored Markdown.
#[derive(Debug, Clone, Copy)]
pub struct GitLabTarget;

impl Target for GitLabTarget {
    fn name(&self) -> (r: &str)
        ensures
            r@ == "gitlab"@,
    {
        proof {
            reveal_strlit("gitlab");
        }
        "gitlab"
    }

    fn supports_html(&self) -> (b: bool)
        ensures
            b == true,
    {
        true
    }

    fn supports_svg_embed(&self) -> (b: bool)
        ensures
            b == true,
    {
        true
    }

    fn supports_external_images(&self) -> (b: bool)
        ensures
            b == true,
    {
        true
    }

    fn max_line_length(&self) -> (r: Option<usize>)
        ensures
            r is None,
    {
        None
    }

    fn preferred_backend(&self) -> (b: BackendType)
        ensures
            b == BackendType::Shields,
    {
        BackendType::Shields
    }

    fn description(&self) -> (r: &str)
        ensures
            r@ == "GitLab-Flavored Markdown with extended HTML support"@,
    {
        proof {
            reveal_strlit("GitLab-Flavored Markdown with extended HTML support");
        }
        "GitLab-Flavored Markdown with extended HTML support"
    }

    fn post_process(&self, markdown: &str) -> (r: Result<String>)
        ensures
            r matches Ok(t) && t@ == replace_chain(markdown@, seq![
                ("> 🟢 **Note**"@, "> **Note**"@),
                ("> ⚠️ **Warning**"@, "> **Warning**"@),
                ("> 🔴 **Error**"@, "> **Danger**"@),
                ("> 🟡 **Tip**"@, "> **Tip**"@),
                ("> ℹ️ **Info**"@, "> **Info**"@),
            ]),
    {
        Ok(convert_callouts_to_gitlab_alerts(markdown))
    }
}

/// PyPI package description.
#[derive(Debug, Clone, Copy)]
pub struct PyPITarget;

impl Target for PyPITarget {
    fn name(&self) -> (r: &str)
        ensures
            r@ == "pypi"@,
    {
        proof {
            reveal_strlit("pypi");
        }
        "pypi"
    }

    fn supports_html(&self) -> (b: bool)
        ensures
            b == false,
    {
        false
    }

    fn supports_svg_embed(&self) -> (b: bool)
        ensures
            b == false,
    {
        false
    }

    fn supports_external_images(&self) -> (b: bool)
        ensures
            b == true,
    {
        true
    }

    fn max_line_length(&self) -> (r: Option<usize>)
        ensures
            r == Some(80usize),
    {
        Some(80)
    }

    fn preferred_backend(&self) -> (b: BackendType)
        ensures
            b == BackendType::PlainText,
    {
        BackendType::PlainText
    }

    fn supports_unicode_styling(&self) -> (b: bool)
        ensures
            b == false,
    {
        false
    }

    fn description(&self) -> (r: &str)
        ensures
            r@ == "PyPI package description (plain text fallbacks)"@,
    {
        proof {
            reveal_strlit("PyPI package description (plain text fallbacks)");
        }
        "PyPI package description (plain text fallbacks)"
    }

    fn post_process(&self, markdown: &str) -> (r: Result<String>)
        ensures
            r matches Ok(t) && t@ == replace_chain(markdown@, ascii_pairs()),
    {
        Ok(convert_unicode_to_ascii(markdown))
    }
}

/// A target by name, case-insensitively (names are ASCII).
pub enum AnyTarget {
    GitHub(GitHubTarget),
    Local(LocalDocsTarget),
    Npm(NpmTarget),
    GitLab(GitLabTarget),
    PyPI(PyPITarget),
}

impl AnyTarget {
    /// The target's name.
    pub open spec fn target_name(self) -> Seq<char> {
        match self {
            AnyTarget::GitHub(_) => "github"@,
            AnyTarget::Local(_) => "local"@,
            AnyTarget::Npm(_) => "npm"@,
            AnyTarget::GitLab(_) => "gitlab"@,
            AnyTarget::PyPI(_) => "pypi"@,
        }
    }

    /// Raw HTML survives: local docs and GitLab.
    pub open spec fn html_ok(self) -> bool {
        self is Local || self is GitLab
    }

    /// SVG images embed everywhere but on PyPI.
    pub open spec fn svg_ok(self) -> bool {
        !(self is PyPI)
    }

    /// External images work everywhere but in local docs.
    pub open spec fn external_images_ok(self) -> bool {
        !(self is Local)
    }

    /// PyPI recommends 80 columns; the others no limit.
    pub open spec fn line_limit(self) -> Option<usize> {
        if self is PyPI { Some(80usize) } else { None }
    }

    /// Local docs use SVG files, PyPI plain text, the others shields.io.
    pub open spec fn backend(self) -> BackendType {
        match self {
            AnyTarget::Local(_) => BackendType::Svg,
            AnyTarget::PyPI(_) => BackendType::PlainText,
            _ => BackendType::Shields,
        }
    }

    /// Unicode styling shows well everywhere but on PyPI.
    pub open spec fn unicode_ok(self) -> bool {
        !(self is PyPI)
    }

    /// The target's description.
    pub open spec fn describe(self) -> Seq<char> {
        match self {
            AnyTarget::GitHub(_) => "GitHub-Flavored Markdown with shields.io badges"@,
            AnyTarget::Local(_) => "Local documentation with SVG assets (offline-first)"@,
            AnyTarget::Npm(_) => "npm package README (similar to GitHub)"@,
            AnyTarget::GitLab(_) => "GitLab-Flavored Markdown with extended HTML support"@,
            AnyTarget::PyPI(_) => "PyPI package description (plain text fallbacks)"@,
        }
    }

    /// The Markdown rewritten for the target: callouts as GitHub alerts or
    /// GitLab labels, ASCII fallbacks for PyPI, unchanged otherwise.
    pub open spec fn post_processed(self, md: Seq<char>) -> Seq<char> {
        match self {
            AnyTarget::GitHub(_) => replace_chain(md, seq![
                ("> 🟢 **Note**"@, "> [!NOTE]"@),
                ("> ⚠️ **Warning**"@, "> [!WARNING]"@),
                ("> 🔴 **Error**"@, "> [!CAUTION]"@),
                ("> 🟡 **Tip**"@, "> [!TIP]"@),
                ("> ℹ️ **Info**"@, "> [!NOTE]"@),
            ]),
            AnyTarget::GitLab(_) => replace_chain(md, seq![
                ("> 🟢 **Note**"@, "> **Note**"@),
                ("> ⚠️ **Warning**"@, "> **Warning**"@),
                ("> 🔴 **Error**"@, "> **Danger**"@),
                ("> 🟡 **Tip**"@, "> **Tip**"@),
                ("> ℹ️ **Info**"@, "> **Info**"@),
            ]),
            AnyTarget::PyPI(_) => replace_chain(md, ascii_pairs()),
            _ => md,
        }
    }
}

impl Target for AnyTarget {
    fn name(&self) -> (r: &str)
        ensures
            r@ == self.target_name(),
    {
        match self {
            AnyTarget::GitHub(t) => t.name(),
            AnyTarget::Local(t) => t.name(),
            AnyTarget::Npm(t) => t.name(),
            AnyTarget::GitLab(t) => t.name(),
            AnyTarget::PyPI(t) => t.name(),
        }
    }

    fn supports_html(&self) -> (b: bool)
        ensures
            b == self.html_ok(),
    {
        match self {
            AnyTarget::GitHub(t) => t.supports_html(),
            AnyTarget::Local(t) => t.supports_html(),
            AnyTarget::Npm(t) => t.supports_html(),
            AnyTarget::GitLab(t) => t.supports_html(),
            AnyTarget::PyPI(t) => t.supports_html(),
        }
    }

    fn supports_svg_embed(&self) -> (b: bool)
        ensures
            b == self.svg_ok(),
    {
        match self {
            AnyTarget::GitHub(t) => t.supports_svg_embed(),
            AnyTarget::Local(t) => t.supports_svg_embed(),
            AnyTarget::Npm(t) => t.supports_svg_embed(),
            AnyTarget::GitLab(t) => t.supports_svg_embed(),
            AnyTarget::PyPI(t) => t.supports_svg_embed(),
        }
    }

    fn supports_external_images(&self) -> (b: bool)
        ensures
            b == self.external_images_ok(),
    {
        match self {
            AnyTarget::GitHub(t) => t.supports_external_images(),
            AnyTarget::Local(t) => t.supports_external_images(),
            AnyTarget::Npm(t) => t.supports_external_images(),
            AnyTarget::GitLab(t) => t.supports_external_images(),
            AnyTarget::PyPI(t) => t.supports_external_images(),
        }
    }

    fn max_line_length(&self) -> (r: Option<usize>)
        ensures
            r == self.line_limit(),
    {
        match self {
            AnyTarget::GitHub(t) => t.max_line_length(),
            AnyTarget::Local(t) => t.max_line_length(),
            AnyTarget::Npm(t) => t.max_line_length(),
            AnyTarget::GitLab(t) => t.max_line_length(),
            AnyTarget::PyPI(t) => t.max_line_length(),
        }
    }

    fn preferred_backend(&self) -> (b: BackendType)
        ensures
            b == self.backend(),
    {
        match self {
            AnyTarget::GitHub(t) => t.preferred_backend(),
            AnyTarget::Local(t) => t.preferred_backend(),
            AnyTarget::Npm(t) => t.preferred_backend(),
            AnyTarget::GitLab(t) => t.preferred_backend(),
            AnyTarget::PyPI(t) => t.preferred_backend(),
        }
    }

    fn supports_unicode_styling(&self) -> (b: bool)
        ensures
            b == self.unicode_ok(),
    {
        match self {
            AnyTarget::GitHub(t) => t.supports_unicode_styling(),
            AnyTarget::Local(t) => t.supports_unicode_styling(),
            AnyTarget::Npm(t) => t.supports_unicode_styling(),
            AnyTarget::GitLab(t) => t.supports_unicode_styling(),
            AnyTarget::PyPI(t) => t.supports_unicode_styling(),
        }
    }

    fn post_process(&self, markdown: &str) -> (r: Result<String>)
        ensures
            r matches Ok(t) && t@ == self.post_processed(markdown@),
    {
        match self {
            AnyTarget::GitHub(t) => t.post_process(markdown),
            AnyTarget::Local(t) => t.post_process(markdown),
            AnyTarget::Npm(t) => t.post_process(markdown),
            AnyTarget::GitLab(t) => t.post_process(markdown),
            AnyTarget::PyPI(t) => t.post_process(markdown),
        }
    }

    fn description(&self) -> (r: &str)
        ensures
            r@ == self.describe(),
    {
        match self {
            AnyTarget::GitHub(t) => t.description(),
            AnyTarget::Local(t) => t.description(),
            AnyTarget::Npm(t) => t.description(),
            AnyTarget::GitLab(t) => t.description(),
            AnyTarget::PyPI(t) => t.description(),
        }
    }
}

/// The target a lowercased name selects.
pub open spec fn target_for(lower: Seq<char>) -> Option<AnyTarget> {
    if lower == "github"@ {
        Some(AnyTarget::GitHub(GitHubTarget))
    } else if lower == "local"@ {
        Some(AnyTarget::Local(LocalDocsTarget))
    } else if lower == "npm"@ {
        Some(AnyTarget::Npm(NpmTarget))
    } else if lower == "gitlab"@ {
        Some(AnyTarget::GitLab(GitLabTarget))
    } else if lower == "pypi"@ {
        Some(AnyTarget::PyPI(PyPITarget))
    } else {
        None
    }
}

/// A target by name, matched case-insensitively.
pub fn get_target(name: &str) -> (r: Option<AnyTarget>)
    ensures
        r == target_for(crate::text::str_lowercase(name@)),
        (forall|i: int| 0 <= i < name@.len() ==> (#[trigger] name@[i] as u32) < 128) ==> r == target_for(
            name@.map_values(|c: char| crate::text::ascii_lower(c))),
{
    let lower = crate::text::to_lowercase(name);
    proof {
        reveal_strlit("github");
        reveal_strlit("local");
        reveal_strlit("npm");
        reveal_strlit("gitlab");
        reveal_strlit("pypi");
    }
    let l = lower.as_str();
    if crate::namemap::str_eq(l, "github") {
        Some(AnyTarget::GitHub(GitHubTarget))
    } else if crate::namemap::str_eq(l, "local") {
        Some(AnyTarget::Local(LocalDocsTarget))
    } else if crate::namemap::str_eq(l, "npm") {
        Some(AnyTarget::Npm(NpmTarget))
    } else if crate::namemap::str_eq(l, "gitlab") {
        Some(AnyTarget::GitLab(GitLabTarget))
    } else if crate::namemap::str_eq(l, "pypi") {
        Some(AnyTarget::PyPI(PyPITarget))
    } else {
        None
    }
}

/// The default target (GitHub).
pub fn default_target() -> (r: AnyTarget)
    ensures
        r == AnyTarget::GitHub(GitHubTarget),
{
    AnyTarget::GitHub(GitHubTarget)
}

/// The names of all targets.
pub fn available_targets() -> (r: Vec<&'static str>)
    ensures
        r@.len() == 5,
        r@[0]@ == "github"@,
        r@[1]@ == "local"@,
        r@[2]@ == "npm"@,
        r@[3]@ == "gitlab"@,
        r@[4]@ == "pypi"@,
{
    proof {
        reveal_strlit("github");
        reveal_strlit("local");
        reveal_strlit("npm");
        reveal_strlit("gitlab");
        reveal_strlit("pypi");
    }
    vec!["github", "local", "npm", "gitlab", "pypi"]
}

/// The pieces that are neither empty nor `.`, in order.
pub open spec fn named(ps: Seq<Seq<char>>) -> Seq<Seq<char>>
    decreases ps.len(),
{
    if ps.len() == 0 {
        Seq::empty()
    } else if ps.last().len() > 0 && ps.last() != "."@ {
        named(ps.drop_last()).push(ps.last())
    } else {
        named(ps.drop_last())
    }
}

/// The named components of a `/`-separated path (empty and `.` dropped).
pub open spec fn path_components(p: Seq<char>) -> Seq<Seq<char>> {
    named(crate::text::split_on(p, '/'))
}

/// The target suggested by a path: `README.md` for GitHub, `PKG-INFO`
/// (`.md`) for PyPI, `package.json` for npm, and anything under a `docs` or
/// `documentation` directory for local docs.
pub open spec fn target_from_path(p: Seq<char>) -> Option<Seq<char>> {
    let cs = path_components(p);
    match file_target(cs) {
        Some(t) => Some(t),
        None => if cs.contains("docs"@) || cs.contains("documentation"@) {
            Some("local"@)
        } else {
            None
        },
    }
}

/// The target the file name (the last component, unless `..`) suggests.
pub open spec fn file_target(cs: Seq<Seq<char>>) -> Option<Seq<char>> {
    let file = if cs.len() > 0 && cs.last() != ".."@ { Some(cs.last()) } else { None };
    if file == Some("README.md"@) {
        Some("github"@)
    } else if file == Some("PKG-INFO"@) || file == Some("PKG-INFO.md"@) {
        Some("pypi"@)
    } else if file == Some("package.json"@) {
        Some("npm"@)
    } else {
        None
    }
}

/// Suggests a target from a file path.
pub fn detect_target_from_path(path: &str) -> (r: Option<&'static str>)
    ensures
        match target_from_path(path@) {
            Some(t) => r matches Some(s) && s@ == t,
            None => r is None,
        },
{
    proof {
        reveal_strlit("README.md");
        reveal_strlit("PKG-INFO");
        reveal_strlit("PKG-INFO.md");
        reveal_strlit("package.json");
        reveal_strlit("docs");
        reveal_strlit("documentation");
        reveal_strlit("github");
        reveal_strlit("pypi");
        reveal_strlit("npm");
        reveal_strlit("local");
        reveal_strlit(".");
        reveal_strlit("..");
    }
    let v = chars_of(path);
    let pieces = crate::text::split_chars(v.as_slice(), '/');
    let ghost ps = crate::text::split_on(path@, '/');
    let mut comps: Vec<String> = Vec::new();
    let mut i: usize = 0;
    while i < pieces.len()
        invariant
            i <= pieces@.len(),
            pieces@.len() == ps.len(),
            forall|k: int| 0 <= k < pieces@.len() ==> #[trigger] pieces@[k]@ == ps[k],
            crate::components::strs(comps@) == named(ps.take(i as int)),
        decreases pieces.len() - i,
    {
        proof {
            reveal_strlit(".");
            assert(ps.take(i + 1).drop_last() =~= ps.take(i as int));
        }
        let c = string_of(pieces[i].as_slice());
        if pieces[i].len() > 0 && !crate::namemap::str_eq(c.as_str(), ".") {
            let ghost before = comps@;
            comps.push(c);
            proof {
                assert(crate::components::strs(comps@) =~= crate::components::strs(before).push(pieces@[i as int]@));
            }
        }
        i = i + 1;
    }
    proof {
        assert(ps.take(ps.len() as int) =~= ps);
    }
    let n = comps.len();
    proof {
        let cs = crate::components::strs(comps@);
        if n > 0 {
            assert(cs.last() == comps@[n - 1]@);
        }
    }
    if n > 0 && !crate::namemap::str_eq(comps[n - 1].as_str(), "..") {
        let f = comps[n - 1].as_str();
        if crate::namemap::str_eq(f, "README.md") {
            return Some("github");
        }
        if crate::namemap::str_eq(f, "PKG-INFO") || crate::namemap::str_eq(f, "PKG-INFO.md") {
            return Some("pypi");
        }
        if crate::namemap::str_eq(f, "package.json") {
            return Some("npm");
        }
    }
    let mut j: usize = 0;
    while j < n
        invariant
            j <= n,
            n == comps@.len(),
            forall|k: int| 0 <= k < j ==> comps@[k]@ != "docs"@ && comps@[k]@ != "documentation"@,
            file_target(crate::components::strs(comps@)) is None,
            crate::components::strs(comps@) == path_components(path@),
        decreases n - j,
    {
        if crate::namemap::str_eq(comps[j].as_str(), "docs") || crate::namemap::str_eq(comps[j].as_str(), "documentation") {
            proof {
                let cs = crate::components::strs(comps@);
                assert(cs[j as int] == comps@[j as int]@);
                assert(cs.contains(cs[j as int]));
                if n > 0 {
                    assert(cs.last() == comps@[n - 1]@);
                }
            }
            return Some("local");
        }
        j = j + 1;
    }
    proof {
        let cs = crate::components::strs(comps@);
        assert forall|k: int| 0 <= k < cs.len() implies cs[k] != "docs"@ && cs[k] != "documentation"@ by {
            assert(cs[k] == comps@[k]@);
        }
    }
    None
}

} // verus!
