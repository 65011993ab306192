//! The library's error type and the text each error reads as.
use vstd::prelude::*;
use crate::text::{decimal, push_decimal, push_str, string_from};

verus! {

/// Errors raised while parsing colors, ids and color expressions, resolving
/// references, and checking tool requests.
#[derive(Debug)]
#[non_exhaustive]
pub enum Error {
    /// A reference (`section.key`) names no color of its section.
    UnresolvedRef(String),
    /// A hex color that is not `#RRGGBB` (or `RRGGBB`).
    InvalidHex(String),
    /// A color expression that does not parse.
    InvalidColorExpr(String),
    /// A theme or variant id outside `[a-z][a-z0-9]*`.
    InvalidId(String),
    /// A `[colors]` entry that is not a hex literal.
    ExpectedHexLiteral { key: String, value: String },
    /// `roles.series` with a length other than eight.
    SeriesLength(usize),
    /// A tool name that no route knows.
    UnknownTool(String),
    /// A tool asked of the palette route that the theme route now renders.
    ToolMigrated(String),
    /// A tool asked of the theme route that it does not render.
    ToolNotThemed(String),
    /// An adapter key that a tool needs is missing from `theme.toml`.
    AdapterKeyMissing { tool: String, key: String },
}

/// [`Error`] with each string taken by its characters.
pub enum ErrorView {
    UnresolvedRef(Seq<char>),
    InvalidHex(Seq<char>),
    InvalidColorExpr(Seq<char>),
    InvalidId(Seq<char>),
    ExpectedHexLiteral { key: Seq<char>, value: Seq<char> },
    SeriesLength(nat),
    UnknownTool(Seq<char>),
    ToolMigrated(Seq<char>),
    ToolNotThemed(Seq<char>),
    AdapterKeyMissing { tool: Seq<char>, key: Seq<char> },
}

impl View for Error {
    type V = ErrorView;

    open spec fn view(&self) -> ErrorView {
        match self {
            Error::UnresolvedRef(s) => ErrorView::UnresolvedRef(s@),
            Error::InvalidHex(s) => ErrorView::InvalidHex(s@),
            Error::InvalidColorExpr(s) => ErrorView::InvalidColorExpr(s@),
            Error::InvalidId(s) => ErrorView::InvalidId(s@),
            Error::ExpectedHexLiteral { key, value } => ErrorView::ExpectedHexLiteral {
                key: key@,
                value: value@,
            },
            Error::SeriesLength(n) => ErrorView::SeriesLength(*n as nat),
            Error::UnknownTool(s) => ErrorView::UnknownTool(s@),
            Error::ToolMigrated(s) => ErrorView::ToolMigrated(s@),
            Error::ToolNotThemed(s) => ErrorView::ToolNotThemed(s@),
            Error::AdapterKeyMissing { tool, key } => ErrorView::AdapterKeyMissing {
                tool: tool@,
                key: key@,
            },
        }
    }
}

/// What `{:?}` makes of a string: the string in double quotes, with quotes,
/// backslashes, control characters and unprintable characters escaped.
pub uninterp spec fn debug_quoted(s: Seq<char>) -> Seq<char>;

/// A printable ASCII character other than `"` and `\`: one that `{:?}`
/// writes as it is.
pub open spec fn plain_debug_char(c: char) -> bool {
    ' ' <= c <= '~' && c != '"' && c != '\\'
}

/// `format!("{s:?}")`: std's `Debug` for `str`. Claimed: the result is a
/// function of `s` alone, named [`debug_quoted`]; a string of printable
/// ASCII characters other than `"` and `\` comes back between two double
/// quotes, unchanged. What `Debug` escapes otherwise is left unsaid.
#[verifier::external_body]
fn debug_quote(s: &str) -> (r: String)
    ensures
        r@ == debug_quoted(s@),
        (forall|i: int| 0 <= i < s@.len() ==> plain_debug_char(#[trigger] s@[i])) ==> r@ == seq!['"'] + s@ + seq!['"'],
{
    format!("{s:?}")
}

/// The text an error reads as.
pub open spec fn error_message(e: ErrorView) -> Seq<char> {
    match e {
        ErrorView::UnresolvedRef(s) => "unresolved reference: "@ + s,
        ErrorView::InvalidHex(s) => "invalid hex color: "@ + s,
        ErrorView::InvalidColorExpr(s) => "invalid color expression: "@ + s,
        ErrorView::InvalidId(s) => "invalid id "@ + debug_quoted(s) + ", expected [a-z][a-z0-9]*"@,
        ErrorView::ExpectedHexLiteral { key, value } => key + ": expected a hex literal, found "@
            + value,
        ErrorView::SeriesLength(n) => "roles.series must have exactly 8 entries, found "@
            + decimal(n),
        ErrorView::UnknownTool(s) => "unknown tool "@ + s,
        ErrorView::ToolMigrated(s) => "tool "@ + s + " is generated from a theme directory"@,
        ErrorView::ToolNotThemed(s) => "tool "@ + s + " is not generated from a theme directory"@,
        ErrorView::AdapterKeyMissing { tool, key } => "adapters."@ + tool + "."@ + key
            + " is required to generate "@ + tool,
    }
}

impl Error {
    /// The text this error reads as.
    pub fn message(&self) -> (m: String)
        ensures
            m@ == error_message(self@),
            match self@ {
                ErrorView::InvalidId(s) => (forall|i: int| 0 <= i < s.len() ==> plain_debug_char(#[trigger] s[i]))
                    ==> m@ == "invalid id \""@ + s + "\", expected [a-z][a-z0-9]*"@,
                _ => true,
            },
    {
        match self {
            Error::UnresolvedRef(s) => {
                let mut m = string_from("unresolved reference: ");
                push_str(&mut m, s.as_str());
                m
            },
            Error::InvalidHex(s) => {
                let mut m = string_from("invalid hex color: ");
                push_str(&mut m, s.as_str());
                m
            },
            Error::InvalidColorExpr(s) => {
                let mut m = string_from("invalid color expression: ");
                push_str(&mut m, s.as_str());
                m
            },
            Error::InvalidId(s) => {
                let mut m = string_from("invalid id ");
                let q = debug_quote(s.as_str());
                push_str(&mut m, q.as_str());
                push_str(&mut m, ", expected [a-z][a-z0-9]*");
                proof {
                    if forall|i: int| 0 <= i < s@.len() ==> plain_debug_char(#[trigger] s@[i]) {
                        reveal_strlit("invalid id ");
                        reveal_strlit("invalid id \"");
                        reveal_strlit(", expected [a-z][a-z0-9]*");
                        reveal_strlit("\", expected [a-z][a-z0-9]*");
                        assert(q@ == seq!['"'] + s@ + seq!['"']);
                        assert(m@ =~= "invalid id \""@ + s@ + "\", expected [a-z][a-z0-9]*"@);
                    }
                }
                m
            },
            Error::ExpectedHexLiteral { key, value } => {
                let mut m = string_from(key.as_str());
                push_str(&mut m, ": expected a hex literal, found ");
                push_str(&mut m, value.as_str());
                m
            },
            Error::SeriesLength(n) => {
                let mut m = string_from("roles.series must have exactly 8 entries, found ");
                push_decimal(&mut m, *n as u64);
                m
            },
            Error::UnknownTool(s) => {
                let mut m = string_from("unknown tool ");
                push_str(&mut m, s.as_str());
                m
            },
            Error::ToolMigrated(s) => {
                let mut m = string_from("tool ");
                push_str(&mut m, s.as_str());
                push_str(&mut m, " is generated from a theme directory");
                m
            },
            Error::ToolNotThemed(s) => {
                let mut m = string_from("tool ");
                push_str(&mut m, s.as_str());
                push_str(&mut m, " is not generated from a theme directory");
                m
            },
            Error::AdapterKeyMissing { tool, key } => {
                let mut m = string_from("adapters.");
                push_str(&mut m, tool.as_str());
                push_str(&mut m, ".");
                push_str(&mut m, key.as_str());
                push_str(&mut m, " is required to generate ");
                push_str(&mut m, tool.as_str());
                m
            },
        }
    }
}

} // verus!
