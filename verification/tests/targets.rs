use mdfx::targets::{
    available_targets, default_target, detect_target_from_path, get_target, BackendType, GitHubTarget, GitLabTarget,
    LocalDocsTarget, NpmTarget, PyPITarget, Target,
};

#[test]
fn test_github_target() {
    let target = GitHubTarget;
    assert_eq!(target.name(), "github");
    assert!(!target.supports_html());
    assert!(target.supports_svg_embed());
    assert!(target.supports_external_images());
    assert!(target.supports_unicode_styling());
    assert_eq!(target.preferred_backend(), BackendType::Shields);
}

#[test]
fn test_local_target() {
    let target = LocalDocsTarget;
    assert_eq!(target.name(), "local");
    assert!(target.supports_html());
    assert!(target.supports_svg_embed());
    assert!(!target.supports_external_images()); // Offline-first
    assert_eq!(target.preferred_backend(), BackendType::Svg);
}

#[test]
fn test_npm_target() {
    let target = NpmTarget;
    assert_eq!(target.name(), "npm");
    assert!(!target.supports_html());
    assert!(target.supports_external_images());
    assert_eq!(target.preferred_backend(), BackendType::Shields);
}

#[test]
fn test_gitlab_target() {
    let target = GitLabTarget;
    assert_eq!(target.name(), "gitlab");
    assert!(target.supports_html()); // GitLab allows more HTML
    assert!(target.supports_svg_embed());
    assert!(target.supports_external_images());
    assert!(target.supports_unicode_styling());
    assert_eq!(target.preferred_backend(), BackendType::Shields);
}

#[test]
fn test_pypi_target() {
    let target = PyPITarget;
    assert_eq!(target.name(), "pypi");
    assert!(!target.supports_html());
    assert!(!target.supports_svg_embed()); // No SVG embed
    assert!(target.supports_external_images());
    assert!(!target.supports_unicode_styling()); // ASCII-safe
    assert_eq!(target.preferred_backend(), BackendType::PlainText);
    assert_eq!(target.max_line_length(), Some(80));
}

#[test]
fn test_get_target() {
    assert!(get_target("github").is_some());
    assert!(get_target("GitHub").is_some()); // Case insensitive
    assert!(get_target("local").is_some());
    assert!(get_target("npm").is_some());
    assert!(get_target("gitlab").is_some());
    assert!(get_target("pypi").is_some());
    assert!(get_target("unknown").is_none());
}

#[test]
fn test_available_targets() {
    let targets = available_targets();
    assert!(targets.contains(&"github"));
    assert!(targets.contains(&"local"));
    assert!(targets.contains(&"npm"));
    assert!(targets.contains(&"gitlab"));
    assert!(targets.contains(&"pypi"));
}

#[test]
fn test_detect_target_from_path() {
    assert_eq!(
        detect_target_from_path("README.md"),
        Some("github")
    );
    assert_eq!(
        detect_target_from_path("/project/README.md"),
        Some("github")
    );
    assert_eq!(
        detect_target_from_path("/project/docs/index.md"),
        Some("local")
    );
    assert_eq!(detect_target_from_path("PKG-INFO"), Some("pypi"));
    assert_eq!(detect_target_from_path("random.md"), None);
}

#[test]
fn test_github_post_process() {
    let target = GitHubTarget;
    let input = "> 🟢 **Note**\n> This is a note";
    let output = target.post_process(input).unwrap();
    assert!(output.contains("[!NOTE]"));
}

#[test]
fn test_gitlab_post_process() {
    let target = GitLabTarget;
    let input = "> 🔴 **Error**\n> This is an error";
    let output = target.post_process(input).unwrap();
    assert!(output.contains("**Danger**"));
}

#[test]
fn test_pypi_post_process() {
    let target = PyPITarget;
    let input = "▓▒░ Title ░▒▓ → Next";
    let output = target.post_process(input).unwrap();
    assert!(output.contains("#=-"));
    assert!(output.contains("->"));
    assert!(!output.contains("→"));
}

#[test]
fn test_pypi_emoji_conversion() {
    let target = PyPITarget;
    let input = "🟢 Success 🟡 Warning 🔴 Error";
    let output = target.post_process(input).unwrap();
    assert!(output.contains("[OK]"));
    assert!(output.contains("[WARN]"));
    assert!(output.contains("[ERR]"));
}

#[test]
fn test_default_target() {
    let target = default_target();
    assert_eq!(target.name(), "github");
}
