//! The path of a route: a regular expression over request paths.

use regex::Regex;
use vstd::prelude::*;
use vstd::string::StringExecFns;

verus! {

/// `regex::Regex`, a compiled regular expression. Its inside is not looked
/// at: what is known of one is the pattern that it was made from.
#[verifier::external_type_specification]
#[verifier::external_body]
pub struct ExRegex(regex::Regex);

/// The pattern that a compiled regular expression was made from.
pub uninterp spec fn regex_source(re: Regex) -> Seq<char>;

/// Whether `regex::Regex::new` accepts a pattern.
pub uninterp spec fn regex_compiles(pattern: Seq<char>) -> bool;

/// Whether the regular expression of a pattern matches somewhere in a text.
pub uninterp spec fn regex_accepts(pattern: Seq<char>, text: Seq<char>) -> bool;

/// `regex::Regex::new`: the compiled form of a pattern, or nothing where the
/// pattern is refused. Whether it is refused depends on the pattern alone,
/// and the compiled form keeps the pattern as its source.
#[verifier::external_body]
fn compile(pattern: &str) -> (r: Option<Regex>)
    ensures
        r is Some <==> regex_compiles(pattern@),
        r is Some ==> regex_source(r->Some_0) == pattern@,
{
    Regex::new(pattern).ok()
}

/// `regex::Regex::is_match`: whether the expression matches somewhere in
/// `text`. For an expression that `regex::Regex::new` made, as `compile`
/// makes every expression of this library, that depends on its source and
/// on the text alone.
#[verifier::external_body]
fn is_match(re: &Regex, text: &str) -> (r: bool)
    ensures
        r == regex_accepts(regex_source(*re), text@),
{
    re.is_match(text)
}

/// The path of a route. It holds no expression where its pattern was
/// refused, and then matches nothing.
#[derive(Clone, Debug)]
pub struct RequestPath {
    matcher: Option<Regex>,
}

/// A pattern between the anchors of the start and the end of the text.
pub open spec fn anchored(path: Seq<char>) -> Seq<char> {
    "^"@ + path + "$"@
}

impl RequestPath {
    /// The pattern of the expression that this path holds.
    pub closed spec fn pattern(&self) -> Option<Seq<char>> {
        match self.matcher {
            Some(re) => Some(regex_source(re)),
            None => None,
        }
    }

    /// Whether this path matches a request path.
    pub open spec fn accepts(&self, text: Seq<char>) -> bool {
        match self.pattern() {
            Some(pattern) => regex_accepts(pattern, text),
            None => false,
        }
    }

    /// The path for a pattern, which has to match a request path from its
    /// start to its end: the anchors `^` and `$` are put around it.
    pub fn new(path: &str) -> (r: RequestPath)
        ensures
            r.pattern() == if regex_compiles(anchored(path@)) {
                Some(anchored(path@))
            } else {
                None
            },
    {
        let regex = String::from_str("^").concat(path).concat("$");
        RequestPath { matcher: compile(regex.as_str()) }
    }

    /// The expression that this path holds.
    pub fn matcher(&self) -> (r: Option<&Regex>)
        ensures
            match r {
                Some(re) => self.pattern() == Some(regex_source(*re)),
                None => self.pattern() is None,
            },
    {
        self.matcher.as_ref()
    }

    /// Whether this path matches a request path.
    pub fn is_match(&self, text: &str) -> (r: bool)
        ensures
            r == self.accepts(text@),
    {
        match &self.matcher {
            Some(re) => is_match(re, text),
            None => false,
        }
    }
}

} // verus!
