//! Errors of the library.

use vstd::prelude::*;
use crate::text::{push_str_chars, push_all, string_of, chars_of};

verus! {

/// Errors that can occur when using the library.
#[derive(Debug)]
pub enum Error {
    /// The requested style does not exist
    UnknownStyle(String),
    /// The requested frame does not exist
    UnknownFrame(String),
    /// The requested badge does not exist
    UnknownBadge(String),
    /// The requested glyph does not exist
    UnknownGlyph(String),
    /// Badge doesn't support the requested character
    UnsupportedChar(String, String),
    /// The requested shield style does not exist
    UnknownShieldStyle(String),
    /// Invalid color specification
    InvalidColor(String),
    /// Unknown shield type in template
    UnknownShieldType(String),
    /// Missing required parameter for shield
    MissingShieldParam(String, String),
    /// Generic parse error
    ParseError(String),
    /// Template syntax error - unclosed tag
    UnclosedTag(String),
    /// Template syntax error - mismatched tags
    MismatchedTags(String, String),
    /// Invalid style name in template
    InvalidStyleName(String),
    /// File not found (the path as text)
    FileNotFound(String),
    /// Permission denied (the path as text)
    PermissionDenied(String),
    /// IO error (its description)
    IoError(String),
    /// JSON parsing error (its description)
    InvalidJson(String),
    /// UTF-8 encoding error (its description)
    InvalidUtf8(String),
}

/// Result type for library operations.
pub type Result<T> = std::result::Result<T, Error>;

/// The human-readable message of an error.
pub open spec fn error_message(e: Error) -> Seq<char> {
    match e {
        Error::UnknownStyle(a) => "Unknown style '"@ + a@
            + "'. Run `mdfx list` to see available styles."@,
        Error::UnknownFrame(a) => "Unknown frame '"@ + a@
            + "'. Run `mdfx frames list` to see available frames."@,
        Error::UnknownBadge(a) => "Unknown badge '"@ + a@
            + "'. Run `mdfx badges list` to see available badges."@,
        Error::UnknownGlyph(a) => "Unknown glyph '"@ + a@
            + "'. Available glyphs: block.*, shade.*, quad.*"@,
        Error::UnsupportedChar(a, b) => "Badge '"@ + a@ + "' does not support '"@ + b@
            + "'. Check badge charset limits."@,
        Error::UnknownShieldStyle(a) => "Unknown shield style '"@ + a@
            + "'. Run `mdfx shields list` to see available styles."@,
        Error::InvalidColor(a) => "Invalid color '"@ + a@
            + "'. Use 6-digit hex codes (e.g., 2B6CB0) or palette names (e.g., cobalt)."@,
        Error::UnknownShieldType(a) => "Unknown shield type '"@ + a@
            + "'. Available types: block, twotone, bar, icon"@,
        Error::MissingShieldParam(a, b) => "Missing required parameter '"@ + a@
            + "' for shield type '"@ + b@ + "'"@,
        Error::ParseError(a) => "Parse error: "@ + a@,
        Error::UnclosedTag(a) => "Unclosed tag: {{"@ + a@ + "}} (expected {{/"@ + a@ + "}})"@,
        Error::MismatchedTags(a, b) => "Mismatched tags: expected {{/"@ + a@ + "}}, found {{/"@
            + b@ + "}}"@,
        Error::InvalidStyleName(a) => "Invalid style name '"@ + a@
            + "': must contain only alphanumeric characters and hyphens"@,
        Error::FileNotFound(a) => "File not found: "@ + a@,
        Error::PermissionDenied(a) => "Permission denied: "@ + a@,
        Error::IoError(a) => "IO error: "@ + a@,
        Error::InvalidJson(a) => "Failed to parse styles.json: "@ + a@,
        Error::InvalidUtf8(a) => "Invalid UTF-8: "@ + a@,
    }
}

fn msg1(pre: &str, a: &String, post: &str) -> (r: String)
    ensures
        r@ == pre@ + a@ + post@,
{
    let mut v: Vec<char> = Vec::new();
    push_str_chars(&mut v, pre);
    push_str_chars(&mut v, a.as_str());
    push_str_chars(&mut v, post);
    assert(v@ =~= pre@ + a@ + post@);
    string_of(v.as_slice())
}

fn msg0(pre: &str, a: &String) -> (r: String)
    ensures
        r@ == pre@ + a@,
{
    let mut v: Vec<char> = Vec::new();
    push_str_chars(&mut v, pre);
    push_str_chars(&mut v, a.as_str());
    assert(v@ =~= pre@ + a@);
    string_of(v.as_slice())
}

fn msg2(pre: &str, a: &String, mid: &str, b: &String, post: &str) -> (r: String)
    ensures
        r@ == pre@ + a@ + mid@ + b@ + post@,
{
    let mut v: Vec<char> = Vec::new();
    push_str_chars(&mut v, pre);
    push_str_chars(&mut v, a.as_str());
    push_str_chars(&mut v, mid);
    push_str_chars(&mut v, b.as_str());
    push_str_chars(&mut v, post);
    assert(v@ =~= pre@ + a@ + mid@ + b@ + post@);
    string_of(v.as_slice())
}

impl Error {
    /// The error's message (what `Display` shows).
    pub fn to_string(&self) -> (r: String)
        ensures
            r@ == error_message(*self),
    {
        match self {
            Error::UnknownStyle(a) => msg1("Unknown style '", a,
                "'. Run `mdfx list` to see available styles."),
            Error::UnknownFrame(a) => msg1("Unknown frame '", a,
                "'. Run `mdfx frames list` to see available frames."),
            Error::UnknownBadge(a) => msg1("Unknown badge '", a,
                "'. Run `mdfx badges list` to see available badges."),
            Error::UnknownGlyph(a) => msg1("Unknown glyph '", a,
                "'. Available glyphs: block.*, shade.*, quad.*"),
            Error::UnsupportedChar(a, b) => msg2("Badge '", a, "' does not support '", b,
                "'. Check badge charset limits."),
            Error::UnknownShieldStyle(a) => msg1("Unknown shield style '", a,
                "'. Run `mdfx shields list` to see available styles."),
            Error::InvalidColor(a) => msg1("Invalid color '", a,
                "'. Use 6-digit hex codes (e.g., 2B6CB0) or palette names (e.g., cobalt)."),
            Error::UnknownShieldType(a) => msg1("Unknown shield type '", a,
                "'. Available types: block, twotone, bar, icon"),
            Error::MissingShieldParam(a, b) => msg2("Missing required parameter '", a,
                "' for shield type '", b, "'"),
            Error::ParseError(a) => msg0("Parse error: ", a),
            Error::UnclosedTag(a) => msg2("Unclosed tag: {{", a, "}} (expected {{/", a, "}})"),
            Error::MismatchedTags(a, b) => msg2("Mismatched tags: expected {{/", a,
                "}}, found {{/", b, "}}"),
            Error::InvalidStyleName(a) => msg1("Invalid style name '", a,
                "': must contain only alphanumeric characters and hyphens"),
            Error::FileNotFound(a) => msg0("File not found: ", a),
            Error::PermissionDenied(a) => msg0("Permission denied: ", a),
            Error::IoError(a) => msg0("IO error: ", a),
            Error::InvalidJson(a) => msg0("Failed to parse styles.json: ", a),
            Error::InvalidUtf8(a) => msg0("Invalid UTF-8: ", a),
        }
    }
}

} // verus!
