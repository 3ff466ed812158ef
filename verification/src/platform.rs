//! Platform names, platform expressions, and the evaluation results of
//! the platform-predicate collaborator.
//!
//! The grammar of platform expressions and its parser live outside this
//! crate; only evaluation outcomes are consumed here. A `PlatformConfig`
//! therefore carries, as data, which expression texts it satisfies and
//! which are malformed.

use vstd::prelude::*;

verus! {

/// A textual boolean predicate over platform attributes.
#[derive(Debug, Clone, PartialEq, Eq)]
pub struct PlatformExpr(pub String);

/// The configured name of a platform.
#[derive(Debug, Clone, PartialEq, Eq)]
pub struct PlatformName(pub String);

/// The name under which an attribute folds into the base record rather
/// than a per-platform bucket.
pub const DEFAULT_PLATFORM_NAME: &'static str = "DEFAULT";

impl PlatformName {
    /// Whether this is the designated default platform.
    pub fn is_default(&self) -> (r: bool)
        ensures
            r == (self.0@ == DEFAULT_PLATFORM_NAME@),
    {
        crate::strutil::str_eq(self.0.as_str(), DEFAULT_PLATFORM_NAME)
    }
}

/// A malformed platform expression, carrying the offending text.
#[derive(Debug, Clone, PartialEq, Eq)]
pub struct PredicateParseError(pub String);

/// What the platform collaborator reports for one configured platform:
/// the expression texts that evaluate to true against it, and the
/// expression texts its parser rejects.
#[derive(Debug, Clone)]
pub struct PlatformConfig {
    pub satisfied: Vec<String>,
    pub malformed: Vec<String>,
}

/// Whether the expression text is satisfied by the platform.
pub open spec fn spec_satisfies(config: PlatformConfig, expr: Seq<char>) -> bool {
    config.satisfied.deep_view().contains(expr)
}

/// Whether the expression text fails to parse for the platform.
pub open spec fn spec_malformed(config: PlatformConfig, expr: Seq<char>) -> bool {
    config.malformed.deep_view().contains(expr)
}

/// Whether the string sequence contains the given string.
pub fn contains_str(v: &Vec<String>, s: &str) -> (r: bool)
    ensures
        r == v.deep_view().contains(s@),
{
    let mut i: usize = 0;
    loop
        invariant
            i <= v.len(),
            v.deep_view().len() == v.len(),
            forall|k: int| 0 <= k < i ==> v.deep_view()[k] != s@,
        decreases v.len() - i,
    {
        if i == v.len() {
            assert(forall|k: int| 0 <= k < v.deep_view().len() ==> v.deep_view()[k] != s@);
            return false;
        }
        if crate::strutil::str_eq(v[i].as_str(), s) {
            assert(v.deep_view()[i as int] == s@);
            return true;
        }
        i = i + 1;
    }
}

/// Evaluate an expression against one platform: an error for a malformed
/// expression, otherwise whether the platform satisfies it.
pub fn eval_expr(config: &PlatformConfig, expr: &PlatformExpr) -> (r: Result<
    bool,
    PredicateParseError,
>)
    ensures
        spec_malformed(*config, expr.0@) ==> (r matches Err(e) && e.0@ == expr.0@),
        !spec_malformed(*config, expr.0@) ==> (r matches Ok(b) && b == spec_satisfies(
            *config,
            expr.0@,
        )),
{
    if contains_str(&config.malformed, expr.0.as_str()) {
        Err(PredicateParseError(crate::strutil::clone_string(&expr.0)))
    } else {
        Ok(contains_str(&config.satisfied, expr.0.as_str()))
    }
}

} // verus!
