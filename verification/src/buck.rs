//! The declaration model: the closed set of rule variants, their fields,
//! and the name-based identity and ordering contract.

use vstd::prelude::*;

use crate::order::spec_buildifier_cmp;
use crate::order::spec_chars_cmp;
use crate::order::buildifier_cmp;
use crate::order::str_cmp;
use crate::order::lemma_buildifier_cmp_refl;
use crate::order::lemma_buildifier_cmp_antisym;
use crate::order::lemma_buildifier_cmp_eq_sym;
use crate::order::lemma_buildifier_cmp_trans;
use crate::order::lemma_chars_cmp_refl;
use crate::order::lemma_chars_cmp_eq;
use crate::order::lemma_chars_cmp_antisym;
use crate::order::lemma_chars_cmp_trans;
use crate::platform::PlatformConfig;
use crate::platform::PlatformExpr;
use crate::platform::PlatformName;
use crate::platform::PredicateParseError;
use crate::platform::eval_expr;
use crate::sorted::SortKey;
use crate::sorted::SortedMap;
use crate::sorted::SortedSet;
use crate::strutil::Dup;
use crate::strutil::clone_string;
use crate::strutil::push_str;

verus! {

impl SortKey for String {
    open spec fn key_cmp(&self, other: &Self) -> core::cmp::Ordering {
        spec_chars_cmp(self@, other@)
    }

    fn cmp_exec(&self, other: &Self) -> (o: core::cmp::Ordering)
        ensures
            o == self.key_cmp(other),
    {
        str_cmp(self.as_str(), other.as_str())
    }

    proof fn lemma_refl(&self)
        ensures
            self.key_cmp(self) == core::cmp::Ordering::Equal,
    {
        lemma_chars_cmp_refl(self@);
    }

    proof fn lemma_antisym(&self, other: &Self)
        ensures
            self.key_cmp(other) == core::cmp::Ordering::Less <==> other.key_cmp(self)
                == core::cmp::Ordering::Greater,
            self.key_cmp(other) == core::cmp::Ordering::Equal <==> other.key_cmp(self)
                == core::cmp::Ordering::Equal,
    {
        lemma_chars_cmp_antisym(self@, other@);
        lemma_chars_cmp_eq(self@, other@);
        lemma_chars_cmp_eq(other@, self@);
    }

    proof fn lemma_trans(a: &Self, b: &Self, c: &Self)
        ensures
            a.key_cmp(c) != core::cmp::Ordering::Greater,
            a.key_cmp(b) == core::cmp::Ordering::Less || b.key_cmp(c) == core::cmp::Ordering::Less
                ==> a.key_cmp(c) == core::cmp::Ordering::Less,
    {
        lemma_chars_cmp_trans(a@, b@, c@);
    }
}

/// Only the name of a declaration. Does not include package path, nor a
/// leading colon.
#[derive(Debug, Clone, PartialEq, Eq)]
pub struct Name(pub String);

impl Name {
    /// The characters of the name.
    pub open spec fn chars(self) -> Seq<char> {
        self.0@
    }
}

impl Dup for Name {
    fn dup(&self) -> (r: Self)
        ensures
            r == *self,
    {
        Name(self.0.dup())
    }
}

impl SortKey for Name {
    open spec fn key_cmp(&self, other: &Self) -> core::cmp::Ordering {
        spec_chars_cmp(self.0@, other.0@)
    }

    fn cmp_exec(&self, other: &Self) -> (o: core::cmp::Ordering)
        ensures
            o == self.key_cmp(other),
    {
        str_cmp(self.0.as_str(), other.0.as_str())
    }

    proof fn lemma_refl(&self)
        ensures
            self.key_cmp(self) == core::cmp::Ordering::Equal,
    {
        lemma_chars_cmp_refl(self.0@);
    }

    proof fn lemma_antisym(&self, other: &Self)
        ensures
            self.key_cmp(other) == core::cmp::Ordering::Less <==> other.key_cmp(self)
                == core::cmp::Ordering::Greater,
            self.key_cmp(other) == core::cmp::Ordering::Equal <==> other.key_cmp(self)
                == core::cmp::Ordering::Equal,
    {
        lemma_chars_cmp_antisym(self.0@, other.0@);
        lemma_chars_cmp_eq(self.0@, other.0@);
        lemma_chars_cmp_eq(other.0@, self.0@);
    }

    proof fn lemma_trans(a: &Self, b: &Self, c: &Self)
        ensures
            a.key_cmp(c) != core::cmp::Ordering::Greater,
            a.key_cmp(b) == core::cmp::Ordering::Less || b.key_cmp(c) == core::cmp::Ordering::Less
                ==> a.key_cmp(c) == core::cmp::Ordering::Less,
    {
        lemma_chars_cmp_trans(a.0@, b.0@, c.0@);
    }
}

/// A file path in a declaration, kept with `/` separators where possible;
/// rendering replaces any remaining `\` with `/`.
#[derive(Debug, Clone, PartialEq, Eq)]
pub struct BuckPath(pub String);

impl Dup for BuckPath {
    fn dup(&self) -> (r: Self)
        ensures
            r == *self,
    {
        BuckPath(self.0.dup())
    }
}

impl SortKey for BuckPath {
    open spec fn key_cmp(&self, other: &Self) -> core::cmp::Ordering {
        spec_buildifier_cmp(self.0@, other.0@)
    }

    fn cmp_exec(&self, other: &Self) -> (o: core::cmp::Ordering)
        ensures
            o == self.key_cmp(other),
    {
        buildifier_cmp(self.0.as_str(), other.0.as_str())
    }

    proof fn lemma_refl(&self)
        ensures
            self.key_cmp(self) == core::cmp::Ordering::Equal,
    {
        lemma_buildifier_cmp_refl(self.0@);
    }

    proof fn lemma_antisym(&self, other: &Self)
        ensures
            self.key_cmp(other) == core::cmp::Ordering::Less <==> other.key_cmp(self)
                == core::cmp::Ordering::Greater,
            self.key_cmp(other) == core::cmp::Ordering::Equal <==> other.key_cmp(self)
                == core::cmp::Ordering::Equal,
    {
        lemma_buildifier_cmp_antisym(self.0@, other.0@);
        lemma_buildifier_cmp_eq_sym(self.0@, other.0@);
    }

    proof fn lemma_trans(a: &Self, b: &Self, c: &Self)
        ensures
            a.key_cmp(c) != core::cmp::Ordering::Greater,
            a.key_cmp(b) == core::cmp::Ordering::Less || b.key_cmp(c) == core::cmp::Ordering::Less
                ==> a.key_cmp(c) == core::cmp::Ordering::Less,
    {
        lemma_buildifier_cmp_trans(a.0@, b.0@, c.0@);
    }
}

/// A reference to a declaration, either local or fully qualified,
/// optionally guarded by a platform expression.
#[derive(Debug, Clone, PartialEq, Eq)]
pub struct RuleRef {
    pub target: String,
    pub platform: Option<PlatformExpr>,
}

/// The ordering on optional platform guards: no guard first, then the
/// guard texts.
pub open spec fn spec_opt_expr_cmp(a: Option<PlatformExpr>, b: Option<PlatformExpr>)
    -> core::cmp::Ordering {
    match (a, b) {
        (Option::None, Option::None) => core::cmp::Ordering::Equal,
        (Option::None, Option::Some(_)) => core::cmp::Ordering::Less,
        (Option::Some(_), Option::None) => core::cmp::Ordering::Greater,
        (Option::Some(x), Option::Some(y)) => spec_chars_cmp(x.0@, y.0@),
    }
}

impl RuleRef {
    /// The target string of the reference.
    pub open spec fn spec_target(self) -> Seq<char> {
        self.target@
    }

    /// The platform guard, if any.
    pub open spec fn spec_platform(self) -> Option<PlatformExpr> {
        self.platform
    }

    pub fn new(target: String) -> (r: Self)
        ensures
            r.target@ == target@,
            r.spec_platform() is None,
    {
        RuleRef { target, platform: Option::None }
    }

    /// A reference to a declaration in the same package: `:name`.
    pub fn local(name: &Name) -> (r: Self)
        ensures
            r.target@ == seq![':'].add(name.0@),
            r.spec_platform() is None,
    {
        let mut target: String = String::new();
        crate::strutil::push_char(&mut target, ':');
        push_str(&mut target, name.0.as_str());
        assert(target@ =~= seq![':'].add(name.0@));
        RuleRef { target, platform: Option::None }
    }

    pub fn with_platform(self, platform: Option<&PlatformExpr>) -> (r: Self)
        ensures
            r.target@ == self.target@,
            match platform {
                Option::None => r.spec_platform() is None,
                Option::Some(p) => r.spec_platform() matches Option::Some(q) && q.0@ == p.0@,
            },
    {
        RuleRef {
            target: self.target,
            platform: match platform {
                Option::None => Option::None,
                Option::Some(p) => Option::Some(PlatformExpr(clone_string(&p.0))),
            },
        }
    }

    pub fn has_platform(&self) -> (r: bool)
        ensures
            r == (self.spec_platform() is Some),
    {
        matches!(self.platform, Option::Some(_))
    }

    /// Return true if the platform config applies to this reference.
    /// Always true for a reference with no platform guard; an error when
    /// the guard's expression is malformed.
    pub fn filter(&self, platform_config: &PlatformConfig) -> (r: Result<
        bool,
        PredicateParseError,
    >)
        ensures
            self.spec_platform() is None ==> r == Result::<bool, PredicateParseError>::Ok(true),
            self.spec_platform() matches Option::Some(cfg) ==> {
                &&& crate::platform::spec_malformed(*platform_config, cfg.0@) ==> (
                r matches Err(e) && e.0@ == cfg.0@)
                &&& !crate::platform::spec_malformed(*platform_config, cfg.0@) ==> r
                    == Result::<bool, PredicateParseError>::Ok(
                    crate::platform::spec_satisfies(*platform_config, cfg.0@),
                )
            },
    {
        match &self.platform {
            Option::None => Result::Ok(true),
            Option::Some(cfg) => eval_expr(platform_config, cfg),
        }
    }
}

impl Dup for PlatformExpr {
    fn dup(&self) -> (r: Self)
        ensures
            r == *self,
    {
        PlatformExpr(self.0.dup())
    }
}

impl Dup for PlatformName {
    fn dup(&self) -> (r: Self)
        ensures
            r == *self,
    {
        PlatformName(self.0.dup())
    }
}

impl Dup for RuleRef {
    fn dup(&self) -> (r: Self)
        ensures
            r == *self,
    {
        RuleRef { target: self.target.dup(), platform: self.platform.dup() }
    }
}

impl SortKey for RuleRef {
    open spec fn key_cmp(&self, other: &Self) -> core::cmp::Ordering {
        if spec_buildifier_cmp(self.target@, other.target@) != core::cmp::Ordering::Equal {
            spec_buildifier_cmp(self.target@, other.target@)
        } else {
            spec_opt_expr_cmp(self.platform, other.platform)
        }
    }

    fn cmp_exec(&self, other: &Self) -> (o: core::cmp::Ordering)
        ensures
            o == self.key_cmp(other),
    {
        let t = buildifier_cmp(self.target.as_str(), other.target.as_str());
        if !matches!(t, core::cmp::Ordering::Equal) {
            return t;
        }
        match (&self.platform, &other.platform) {
            (Option::None, Option::None) => core::cmp::Ordering::Equal,
            (Option::None, Option::Some(_)) => core::cmp::Ordering::Less,
            (Option::Some(_), Option::None) => core::cmp::Ordering::Greater,
            (Option::Some(x), Option::Some(y)) => str_cmp(x.0.as_str(), y.0.as_str()),
        }
    }

    proof fn lemma_refl(&self)
        ensures
            self.key_cmp(self) == core::cmp::Ordering::Equal,
    {
        lemma_buildifier_cmp_refl(self.target@);
        match self.platform {
            Option::None => {
            },
            Option::Some(x) => {
                lemma_chars_cmp_refl(x.0@);
            },
        }
    }

    proof fn lemma_antisym(&self, other: &Self)
        ensures
            self.key_cmp(other) == core::cmp::Ordering::Less <==> other.key_cmp(self)
                == core::cmp::Ordering::Greater,
            self.key_cmp(other) == core::cmp::Ordering::Equal <==> other.key_cmp(self)
                == core::cmp::Ordering::Equal,
    {
        lemma_buildifier_cmp_antisym(self.target@, other.target@);
        lemma_buildifier_cmp_eq_sym(self.target@, other.target@);
        match (self.platform, other.platform) {
            (Option::Some(x), Option::Some(y)) => {
                lemma_chars_cmp_antisym(x.0@, y.0@);
                lemma_chars_cmp_eq(x.0@, y.0@);
                lemma_chars_cmp_eq(y.0@, x.0@);
            },
            _ => {
            },
        }
    }

    proof fn lemma_trans(a: &Self, b: &Self, c: &Self)
        ensures
            a.key_cmp(c) != core::cmp::Ordering::Greater,
            a.key_cmp(b) == core::cmp::Ordering::Less || b.key_cmp(c) == core::cmp::Ordering::Less
                ==> a.key_cmp(c) == core::cmp::Ordering::Less,
    {
        lemma_buildifier_cmp_trans(a.target@, b.target@, c.target@);
        lemma_buildifier_cmp_antisym(a.target@, b.target@);
        lemma_buildifier_cmp_antisym(b.target@, c.target@);
        lemma_buildifier_cmp_antisym(a.target@, c.target@);
        lemma_buildifier_cmp_eq_sym(a.target@, b.target@);
        lemma_buildifier_cmp_eq_sym(b.target@, c.target@);
        lemma_buildifier_cmp_eq_sym(a.target@, c.target@);
        if spec_buildifier_cmp(a.target@, b.target@) == core::cmp::Ordering::Equal
            && spec_buildifier_cmp(b.target@, c.target@) == core::cmp::Ordering::Equal {
            match (a.platform, b.platform, c.platform) {
                (Option::Some(x), Option::Some(y), Option::Some(z)) => {
                    lemma_chars_cmp_trans(x.0@, y.0@, z.0@);
                    lemma_chars_cmp_antisym(x.0@, y.0@);
                    lemma_chars_cmp_antisym(y.0@, z.0@);
                    lemma_chars_cmp_eq(x.0@, y.0@);
                    lemma_chars_cmp_eq(y.0@, z.0@);
                },
                _ => {
                },
            }
        }
    }
}

/// A value that is either a plain string or a path.
#[derive(Debug, Clone, PartialEq, Eq)]
pub enum StringOrPath {
    String(String),
    Path(BuckPath),
}

impl Dup for StringOrPath {
    fn dup(&self) -> (r: Self)
        ensures
            r == *self,
    {
        match self {
            StringOrPath::String(s) => StringOrPath::String(s.dup()),
            StringOrPath::Path(p) => StringOrPath::Path(p.dup()),
        }
    }
}

/// A sub-target of another declaration: `:target[relative]`.
#[derive(Debug, Clone, PartialEq, Eq)]
pub struct Subtarget {
    pub target: Name,
    pub relative: BuckPath,
}

impl Dup for Subtarget {
    fn dup(&self) -> (r: Self)
        ensures
            r == *self,
    {
        Subtarget { target: self.target.dup(), relative: self.relative.dup() }
    }
}

/// Either a sub-target reference or a plain path.
#[derive(Debug, Clone, PartialEq, Eq)]
pub enum SubtargetOrPath {
    Subtarget(Subtarget),
    Path(BuckPath),
}

impl Dup for SubtargetOrPath {
    fn dup(&self) -> (r: Self)
        ensures
            r == *self,
    {
        match self {
            SubtargetOrPath::Subtarget(s) => SubtargetOrPath::Subtarget(s.dup()),
            SubtargetOrPath::Path(p) => SubtargetOrPath::Path(p.dup()),
        }
    }
}

impl SubtargetOrPath {
    pub fn is_subtarget(&self) -> (r: bool)
        ensures
            r == (self matches SubtargetOrPath::Subtarget(_)),
    {
        matches!(self, SubtargetOrPath::Subtarget(_))
    }

    pub fn is_path(&self) -> (r: bool)
        ensures
            r == (self matches SubtargetOrPath::Path(_)),
    {
        matches!(self, SubtargetOrPath::Path(_))
    }
}

/// Sub-target references sort before plain paths; within a class the
/// fields decide.
pub open spec fn spec_sop_cmp(a: SubtargetOrPath, b: SubtargetOrPath) -> core::cmp::Ordering {
    match (a, b) {
        (SubtargetOrPath::Subtarget(x), SubtargetOrPath::Subtarget(y)) => {
            if spec_chars_cmp(x.target.0@, y.target.0@) != core::cmp::Ordering::Equal {
                spec_chars_cmp(x.target.0@, y.target.0@)
            } else {
                spec_buildifier_cmp(x.relative.0@, y.relative.0@)
            }
        },
        (SubtargetOrPath::Subtarget(_), SubtargetOrPath::Path(_)) => core::cmp::Ordering::Less,
        (SubtargetOrPath::Path(_), SubtargetOrPath::Subtarget(_)) => core::cmp::Ordering::Greater,
        (SubtargetOrPath::Path(x), SubtargetOrPath::Path(y)) => spec_buildifier_cmp(x.0@, y.0@),
    }
}

impl SortKey for SubtargetOrPath {
    open spec fn key_cmp(&self, other: &Self) -> core::cmp::Ordering {
        spec_sop_cmp(*self, *other)
    }

    fn cmp_exec(&self, other: &Self) -> (o: core::cmp::Ordering)
        ensures
            o == self.key_cmp(other),
    {
        match (self, other) {
            (SubtargetOrPath::Subtarget(x), SubtargetOrPath::Subtarget(y)) => {
                let t = str_cmp(x.target.0.as_str(), y.target.0.as_str());
                if !matches!(t, core::cmp::Ordering::Equal) {
                    t
                } else {
                    buildifier_cmp(x.relative.0.as_str(), y.relative.0.as_str())
                }
            },
            (SubtargetOrPath::Subtarget(_), SubtargetOrPath::Path(_)) => core::cmp::Ordering::Less,
            (SubtargetOrPath::Path(_), SubtargetOrPath::Subtarget(_)) => {
                core::cmp::Ordering::Greater
            },
            (SubtargetOrPath::Path(x), SubtargetOrPath::Path(y)) => {
                buildifier_cmp(x.0.as_str(), y.0.as_str())
            },
        }
    }

    proof fn lemma_refl(&self)
        ensures
            self.key_cmp(self) == core::cmp::Ordering::Equal,
    {
        match self {
            SubtargetOrPath::Subtarget(x) => {
                lemma_chars_cmp_refl(x.target.0@);
                lemma_buildifier_cmp_refl(x.relative.0@);
            },
            SubtargetOrPath::Path(x) => {
                lemma_buildifier_cmp_refl(x.0@);
            },
        }
    }

    proof fn lemma_antisym(&self, other: &Self)
        ensures
            self.key_cmp(other) == core::cmp::Ordering::Less <==> other.key_cmp(self)
                == core::cmp::Ordering::Greater,
            self.key_cmp(other) == core::cmp::Ordering::Equal <==> other.key_cmp(self)
                == core::cmp::Ordering::Equal,
    {
        match (self, other) {
            (SubtargetOrPath::Subtarget(x), SubtargetOrPath::Subtarget(y)) => {
                lemma_chars_cmp_antisym(x.target.0@, y.target.0@);
                lemma_chars_cmp_eq(x.target.0@, y.target.0@);
                lemma_chars_cmp_eq(y.target.0@, x.target.0@);
                lemma_buildifier_cmp_antisym(x.relative.0@, y.relative.0@);
                lemma_buildifier_cmp_eq_sym(x.relative.0@, y.relative.0@);
            },
            (SubtargetOrPath::Path(x), SubtargetOrPath::Path(y)) => {
                lemma_buildifier_cmp_antisym(x.0@, y.0@);
                lemma_buildifier_cmp_eq_sym(x.0@, y.0@);
            },
            _ => {
            },
        }
    }

    proof fn lemma_trans(a: &Self, b: &Self, c: &Self)
        ensures
            a.key_cmp(c) != core::cmp::Ordering::Greater,
            a.key_cmp(b) == core::cmp::Ordering::Less || b.key_cmp(c) == core::cmp::Ordering::Less
                ==> a.key_cmp(c) == core::cmp::Ordering::Less,
    {
        match (a, b, c) {
            (
                SubtargetOrPath::Subtarget(x),
                SubtargetOrPath::Subtarget(y),
                SubtargetOrPath::Subtarget(z),
            ) => {
                lemma_chars_cmp_trans(x.target.0@, y.target.0@, z.target.0@);
                lemma_chars_cmp_antisym(x.target.0@, y.target.0@);
                lemma_chars_cmp_antisym(y.target.0@, z.target.0@);
                lemma_chars_cmp_antisym(x.target.0@, z.target.0@);
                lemma_chars_cmp_eq(x.target.0@, y.target.0@);
                lemma_chars_cmp_eq(y.target.0@, z.target.0@);
                lemma_chars_cmp_eq(x.target.0@, z.target.0@);
                if spec_chars_cmp(x.target.0@, y.target.0@) == core::cmp::Ordering::Equal
                    && spec_chars_cmp(y.target.0@, z.target.0@) == core::cmp::Ordering::Equal {
                    lemma_buildifier_cmp_trans(x.relative.0@, y.relative.0@, z.relative.0@);
                }
            },
            (SubtargetOrPath::Path(x), SubtargetOrPath::Path(y), SubtargetOrPath::Path(z)) => {
                lemma_buildifier_cmp_trans(x.0@, y.0@, z.0@);
            },
            _ => {
            },
        }
    }
}

impl SortKey for PlatformName {
    open spec fn key_cmp(&self, other: &Self) -> core::cmp::Ordering {
        spec_chars_cmp(self.0@, other.0@)
    }

    fn cmp_exec(&self, other: &Self) -> (o: core::cmp::Ordering)
        ensures
            o == self.key_cmp(other),
    {
        str_cmp(self.0.as_str(), other.0.as_str())
    }

    proof fn lemma_refl(&self)
        ensures
            self.key_cmp(self) == core::cmp::Ordering::Equal,
    {
        lemma_chars_cmp_refl(self.0@);
    }

    proof fn lemma_antisym(&self, other: &Self)
        ensures
            self.key_cmp(other) == core::cmp::Ordering::Less <==> other.key_cmp(self)
                == core::cmp::Ordering::Greater,
            self.key_cmp(other) == core::cmp::Ordering::Equal <==> other.key_cmp(self)
                == core::cmp::Ordering::Equal,
    {
        lemma_chars_cmp_antisym(self.0@, other.0@);
        lemma_chars_cmp_eq(self.0@, other.0@);
        lemma_chars_cmp_eq(other.0@, self.0@);
    }

    proof fn lemma_trans(a: &Self, b: &Self, c: &Self)
        ensures
            a.key_cmp(c) != core::cmp::Ordering::Greater,
            a.key_cmp(b) == core::cmp::Ordering::Less || b.key_cmp(c) == core::cmp::Ordering::Less
                ==> a.key_cmp(c) == core::cmp::Ordering::Less,
    {
        lemma_chars_cmp_trans(a.0@, b.0@, c.0@);
    }
}

/// The visibility of a declaration.
#[derive(Debug, Clone, PartialEq, Eq)]
pub enum Visibility {
    Public,
    Private,
    Custom(Vec<String>),
}

/// An alias declaration: forwards a public name to a local declaration.
#[derive(Debug, Clone, PartialEq, Eq)]
pub struct Alias {
    pub name: Name,
    /// Local declaration the alias refers to; always in the same package.
    pub actual: Name,
    pub visibility: Visibility,
}

/// A remote archive fetch declaration.
#[derive(Debug, Clone, PartialEq, Eq)]
pub struct HttpArchive {
    pub name: Name,
    pub sha256: String,
    pub strip_prefix: String,
    pub sub_targets: SortedSet<BuckPath>,
    pub urls: Vec<String>,
    pub visibility: Visibility,
    pub sort_key: Name,
}

/// A remote git fetch declaration.
#[derive(Debug, Clone, PartialEq, Eq)]
pub struct GitFetch {
    pub name: Name,
    pub repo: String,
    pub rev: String,
    pub visibility: Visibility,
}

/// Fields common to every code-bearing declaration.
#[derive(Debug, Clone, PartialEq, Eq)]
pub struct Common {
    pub name: Name,
    pub visibility: Visibility,
    pub licenses: SortedSet<BuckPath>,
    pub compatible_with: Vec<RuleRef>,
}

/// Rule attributes which can be platform-specific.
#[derive(Debug, Clone)]
pub struct PlatformRustCommon {
    pub srcs: SortedSet<BuckPath>,
    pub mapped_srcs: SortedMap<SubtargetOrPath, BuckPath>,
    pub rustc_flags: Vec<String>,
    pub features: SortedSet<String>,
    pub deps: SortedSet<RuleRef>,
    pub named_deps: SortedMap<String, RuleRef>,
    pub env: SortedMap<String, StringOrPath>,
    /// Binaries only, but platform-dependent.
    pub link_style: Option<String>,
    pub preferred_linkage: Option<String>,
}

impl PlatformRustCommon {
    /// All the container invariants at once.
    pub open spec fn wf(self) -> bool {
        &&& self.srcs.wf()
        &&& self.mapped_srcs.wf()
        &&& self.features.wf()
        &&& self.deps.wf()
        &&& self.named_deps.wf()
        &&& self.env.wf()
    }

    /// An empty record.
    pub fn empty() -> (r: Self)
        ensures
            r.wf(),
            r.srcs@ == Seq::<BuckPath>::empty(),
            r.mapped_srcs@ == Seq::<(SubtargetOrPath, BuckPath)>::empty(),
            r.rustc_flags@ == Seq::<String>::empty(),
            r.features@ == Seq::<String>::empty(),
            r.deps@ == Seq::<RuleRef>::empty(),
            r.named_deps@ == Seq::<(String, RuleRef)>::empty(),
            r.env@ == Seq::<(String, StringOrPath)>::empty(),
            r.link_style is None,
            r.preferred_linkage is None,
    {
        PlatformRustCommon {
            srcs: SortedSet::new(),
            mapped_srcs: SortedMap::new(),
            rustc_flags: Vec::new(),
            features: SortedSet::new(),
            deps: SortedSet::new(),
            named_deps: SortedMap::new(),
            env: SortedMap::new(),
            link_style: Option::None,
            preferred_linkage: Option::None,
        }
    }
}

/// Fields common to library and binary declarations.
#[derive(Debug, Clone)]
pub struct RustCommon {
    pub common: Common,
    pub krate: String,
    pub crate_root: BuckPath,
    pub edition: crate::cargo::Edition,
    /// Attributes common to all platforms.
    pub base: PlatformRustCommon,
    /// Platform-specific attributes.
    pub platform: SortedMap<PlatformName, PlatformRustCommon>,
}

/// A library declaration.
#[derive(Debug, Clone)]
pub struct RustLibrary {
    pub common: RustCommon,
    pub proc_macro: bool,
    pub dlopen_enable: bool,
    pub python_ext: Option<String>,
    pub linkable_alias: Option<String>,
}

/// A binary declaration.
#[derive(Debug, Clone)]
pub struct RustBinary {
    pub common: RustCommon,
}

/// A build-script invocation declaration.
#[derive(Debug, Clone)]
pub struct BuildscriptGenrule {
    pub name: Name,
    pub buildscript_rule: Name,
    pub package_name: String,
    /// The package version, in its textual form.
    pub version: String,
    pub features: SortedSet<String>,
    pub cfgs: Vec<String>,
    pub env: SortedMap<String, String>,
    pub path_env: SortedMap<String, String>,
    pub args_env: SortedMap<String, String>,
}

/// Either a set of values or a string-keyed map of them.
#[derive(Debug, Clone)]
pub enum SetOrMap<T> {
    Plain(SortedSet<T>),
    Named(SortedMap<String, T>),
}

/// A native library declaration.
#[derive(Debug, Clone)]
pub struct CxxLibrary {
    pub common: Common,
    pub srcs: SortedSet<SubtargetOrPath>,
    pub headers: SortedSet<SubtargetOrPath>,
    pub exported_headers: SetOrMap<SubtargetOrPath>,
    pub compiler_flags: Vec<String>,
    pub preprocessor_flags: Vec<String>,
    pub header_namespace: Option<String>,
    pub include_directories: Vec<SubtargetOrPath>,
    pub deps: SortedSet<RuleRef>,
    pub preferred_linkage: Option<String>,
}

/// A prebuilt native library declaration.
#[derive(Debug, Clone)]
pub struct PrebuiltCxxLibrary {
    pub common: Common,
    pub static_lib: SubtargetOrPath,
}

/// The closed set of declaration variants.
#[derive(Debug, Clone)]
pub enum Rule {
    Alias(Alias),
    HttpArchive(HttpArchive),
    GitFetch(GitFetch),
    Binary(RustBinary),
    Library(RustLibrary),
    BuildscriptBinary(RustBinary),
    BuildscriptGenrule(BuildscriptGenrule),
    CxxLibrary(CxxLibrary),
    PrebuiltCxxLibrary(PrebuiltCxxLibrary),
    RootPackage(RustLibrary),
}

impl Rule {
    /// The name that gives a declaration its identity.
    pub open spec fn spec_name(self) -> Name {
        match self {
            Rule::Alias(a) => a.name,
            Rule::HttpArchive(h) => h.name,
            Rule::GitFetch(g) => g.name,
            Rule::Binary(b) => b.common.common.name,
            Rule::Library(l) => l.common.common.name,
            Rule::BuildscriptBinary(b) => b.common.common.name,
            Rule::BuildscriptGenrule(g) => g.name,
            Rule::CxxLibrary(c) => c.common.name,
            Rule::PrebuiltCxxLibrary(p) => p.common.name,
            Rule::RootPackage(l) => l.common.common.name,
        }
    }

    pub fn get_name(&self) -> (r: &Name)
        ensures
            *r == self.spec_name(),
    {
        match self {
            Rule::Alias(Alias { name, .. }) => name,
            Rule::HttpArchive(HttpArchive { name, .. }) => name,
            Rule::GitFetch(GitFetch { name, .. }) => name,
            Rule::Binary(RustBinary { common: RustCommon { common: Common { name, .. }, .. } }) => {
                name
            },
            Rule::Library(RustLibrary { common: RustCommon { common: Common { name, .. }, .. }, .. }) => {
                name
            },
            Rule::BuildscriptBinary(
                RustBinary { common: RustCommon { common: Common { name, .. }, .. } },
            ) => name,
            Rule::BuildscriptGenrule(BuildscriptGenrule { name, .. }) => name,
            Rule::CxxLibrary(CxxLibrary { common: Common { name, .. }, .. }) => name,
            Rule::PrebuiltCxxLibrary(PrebuiltCxxLibrary { common: Common { name, .. }, .. }) => {
                name
            },
            Rule::RootPackage(
                RustLibrary { common: RustCommon { common: Common { name, .. }, .. }, .. },
            ) => name,
        }
    }

    /// The visibility that decides whether the declaration is listed as
    /// a public target.
    pub open spec fn spec_is_public(self) -> bool {
        match self {
            Rule::Alias(a) => a.visibility is Public,
            Rule::HttpArchive(h) => h.visibility is Public,
            Rule::GitFetch(g) => g.visibility is Public,
            Rule::Binary(b) => b.common.common.visibility is Public,
            Rule::Library(l) => l.common.common.visibility is Public,
            Rule::BuildscriptBinary(b) => b.common.common.visibility is Public,
            Rule::BuildscriptGenrule(_) => false,
            Rule::CxxLibrary(c) => c.common.visibility is Public,
            Rule::PrebuiltCxxLibrary(p) => p.common.visibility is Public,
            Rule::RootPackage(l) => l.common.common.visibility is Public,
        }
    }

    pub fn is_public(&self) -> (r: bool)
        ensures
            r == self.spec_is_public(),
    {
        let vis = match self {
            Rule::Alias(a) => &a.visibility,
            Rule::HttpArchive(h) => &h.visibility,
            Rule::GitFetch(g) => &g.visibility,
            Rule::Binary(b) => &b.common.common.visibility,
            Rule::Library(l) => &l.common.common.visibility,
            Rule::BuildscriptBinary(b) => &b.common.common.visibility,
            Rule::BuildscriptGenrule(_) => {
                return false;
            },
            Rule::CxxLibrary(c) => &c.common.visibility,
            Rule::PrebuiltCxxLibrary(p) => &p.common.visibility,
            Rule::RootPackage(l) => &l.common.common.visibility,
        };
        matches!(vis, Visibility::Public)
    }

    /// Declarations are grouped before sorting: git fetches float to the
    /// top, the aggregate root package sinks to the bottom, everything
    /// else sits in between.
    pub open spec fn spec_sort_rank(self) -> int {
        match self {
            Rule::GitFetch(_) => 0,
            Rule::RootPackage(_) => 2,
            _ => 1,
        }
    }

    /// The name a declaration sorts under: an alias sorts with (just
    /// before) the declaration it points at, a fetch under the package
    /// it fetches.
    pub open spec fn spec_sort_name(self) -> Seq<char> {
        match self {
            Rule::Alias(a) => a.actual.0@,
            Rule::HttpArchive(h) => h.sort_key.0@,
            Rule::GitFetch(g) => g.name.0@,
            Rule::RootPackage(_) => Seq::<char>::empty(),
            _ => self.spec_name().0@,
        }
    }

    /// The tie-break among declarations sorting under one name: the
    /// alias first, then a fetch, then the declaration itself.
    pub open spec fn spec_sort_idx(self) -> int {
        match self {
            Rule::Alias(_) => 0,
            Rule::HttpArchive(_) => 1,
            Rule::GitFetch(_) => 0,
            Rule::RootPackage(_) => 0,
            _ => 2,
        }
    }

    fn sort_rank(&self) -> (r: u8)
        ensures
            r as int == self.spec_sort_rank(),
    {
        match self {
            Rule::GitFetch(_) => 0,
            Rule::RootPackage(_) => 2,
            _ => 1,
        }
    }

    fn sort_name(&self) -> (r: &str)
        ensures
            r@ == self.spec_sort_name(),
    {
        match self {
            Rule::Alias(a) => a.actual.0.as_str(),
            Rule::HttpArchive(h) => h.sort_key.0.as_str(),
            Rule::GitFetch(g) => g.name.0.as_str(),
            Rule::RootPackage(_) => {
                proof {
                    reveal_strlit("");
                    assert(""@ =~= Seq::<char>::empty());
                }
                ""
            },
            _ => self.get_name().0.as_str(),
        }
    }

    fn sort_idx(&self) -> (r: u8)
        ensures
            r as int == self.spec_sort_idx(),
    {
        match self {
            Rule::Alias(_) => 0,
            Rule::HttpArchive(_) => 1,
            Rule::GitFetch(_) => 0,
            Rule::RootPackage(_) => 0,
            _ => 2,
        }
    }
}

/// The file ordering of two declarations: by group, then by the name
/// they sort under, then by the tie-break class, and finally by the
/// declaration's own name, so that distinct names never tie.
pub open spec fn spec_rule_cmp(a: Rule, b: Rule) -> core::cmp::Ordering {
    if a.spec_sort_rank() < b.spec_sort_rank() {
        core::cmp::Ordering::Less
    } else if a.spec_sort_rank() > b.spec_sort_rank() {
        core::cmp::Ordering::Greater
    } else if spec_chars_cmp(a.spec_sort_name(), b.spec_sort_name()) != core::cmp::Ordering::Equal {
        spec_chars_cmp(a.spec_sort_name(), b.spec_sort_name())
    } else if a.spec_sort_idx() < b.spec_sort_idx() {
        core::cmp::Ordering::Less
    } else if a.spec_sort_idx() > b.spec_sort_idx() {
        core::cmp::Ordering::Greater
    } else {
        spec_chars_cmp(a.spec_name().0@, b.spec_name().0@)
    }
}

impl SortKey for Rule {
    open spec fn key_cmp(&self, other: &Self) -> core::cmp::Ordering {
        spec_rule_cmp(*self, *other)
    }

    fn cmp_exec(&self, other: &Self) -> (o: core::cmp::Ordering)
        ensures
            o == self.key_cmp(other),
    {
        let ra = self.sort_rank();
        let rb = other.sort_rank();
        if ra < rb {
            core::cmp::Ordering::Less
        } else if ra > rb {
            core::cmp::Ordering::Greater
        } else {
            let n = str_cmp(self.sort_name(), other.sort_name());
            if !matches!(n, core::cmp::Ordering::Equal) {
                n
            } else {
                let ia = self.sort_idx();
                let ib = other.sort_idx();
                if ia < ib {
                    core::cmp::Ordering::Less
                } else if ia > ib {
                    core::cmp::Ordering::Greater
                } else {
                    str_cmp(self.get_name().0.as_str(), other.get_name().0.as_str())
                }
            }
        }
    }

    proof fn lemma_refl(&self)
        ensures
            self.key_cmp(self) == core::cmp::Ordering::Equal,
    {
        lemma_chars_cmp_refl(self.spec_sort_name());
        lemma_chars_cmp_refl(self.spec_name().0@);
    }

    proof fn lemma_antisym(&self, other: &Self)
        ensures
            self.key_cmp(other) == core::cmp::Ordering::Less <==> other.key_cmp(self)
                == core::cmp::Ordering::Greater,
            self.key_cmp(other) == core::cmp::Ordering::Equal <==> other.key_cmp(self)
                == core::cmp::Ordering::Equal,
    {
        lemma_chars_cmp_antisym(self.spec_sort_name(), other.spec_sort_name());
        lemma_chars_cmp_eq(self.spec_sort_name(), other.spec_sort_name());
        lemma_chars_cmp_eq(other.spec_sort_name(), self.spec_sort_name());
        lemma_chars_cmp_antisym(self.spec_name().0@, other.spec_name().0@);
        lemma_chars_cmp_eq(self.spec_name().0@, other.spec_name().0@);
        lemma_chars_cmp_eq(other.spec_name().0@, self.spec_name().0@);
    }

    proof fn lemma_trans(a: &Self, b: &Self, c: &Self)
        ensures
            a.key_cmp(c) != core::cmp::Ordering::Greater,
            a.key_cmp(b) == core::cmp::Ordering::Less || b.key_cmp(c) == core::cmp::Ordering::Less
                ==> a.key_cmp(c) == core::cmp::Ordering::Less,
    {
        let na = a.spec_sort_name();
        let nb = b.spec_sort_name();
        let nc = c.spec_sort_name();
        lemma_chars_cmp_antisym(na, nb);
        lemma_chars_cmp_antisym(nb, nc);
        lemma_chars_cmp_antisym(na, nc);
        lemma_chars_cmp_eq(na, nb);
        lemma_chars_cmp_eq(nb, nc);
        lemma_chars_cmp_eq(na, nc);
        let ga = a.spec_name().0@;
        let gb = b.spec_name().0@;
        let gc = c.spec_name().0@;
        lemma_chars_cmp_antisym(ga, gb);
        lemma_chars_cmp_antisym(gb, gc);
        lemma_chars_cmp_antisym(ga, gc);
        lemma_chars_cmp_eq(ga, gb);
        lemma_chars_cmp_eq(gb, gc);
        lemma_chars_cmp_eq(ga, gc);
        if a.spec_sort_rank() == b.spec_sort_rank() && b.spec_sort_rank() == c.spec_sort_rank() {
            if spec_chars_cmp(na, nb) != core::cmp::Ordering::Greater && spec_chars_cmp(nb, nc)
                != core::cmp::Ordering::Greater {
                lemma_chars_cmp_trans(na, nb, nc);
            }
            if spec_chars_cmp(na, nb) == core::cmp::Ordering::Equal && spec_chars_cmp(nb, nc)
                == core::cmp::Ordering::Equal && a.spec_sort_idx() == b.spec_sort_idx()
                && b.spec_sort_idx() == c.spec_sort_idx() {
                if spec_chars_cmp(ga, gb) != core::cmp::Ordering::Greater && spec_chars_cmp(gb, gc)
                    != core::cmp::Ordering::Greater {
                    lemma_chars_cmp_trans(ga, gb, gc);
                }
            }
        }
    }
}



impl Rule {
    /// The rendered text of the declaration, as a call on the rule name
    /// the configuration gives its variant. A git fetch always renders
    /// under the rule name `git_fetch`; the binary of a build script
    /// renders under the plain binary rule name unless the
    /// configuration names a dedicated one.
    pub open spec fn spec_render(self, config: crate::config::BuckConfig) -> Seq<char> {
        match self {
            Rule::Alias(a) => crate::render::spec_call_text(
                config.alias@,
                crate::render::spec_alias_fields(a),
            ),
            Rule::HttpArchive(h) => crate::render::spec_call_text(
                config.http_archive@,
                crate::render::spec_http_fields(h),
            ),
            Rule::GitFetch(g) => crate::render::spec_call_text(
                "git_fetch"@,
                crate::render::spec_git_fields(g),
            ),
            Rule::Binary(b) => crate::render::spec_call_text(
                config.rust_binary@,
                crate::render::spec_binary_fields(b),
            ),
            Rule::Library(l) => crate::render::spec_call_text(
                config.rust_library@,
                crate::render::spec_library_fields(l),
            ),
            Rule::BuildscriptBinary(b) => crate::render::spec_call_text(
                if config.buildscript_binary is Some {
                    (config.buildscript_binary->0)@
                } else {
                    config.rust_binary@
                },
                crate::render::spec_binary_fields(b),
            ),
            Rule::BuildscriptGenrule(g) => crate::render::spec_call_text(
                config.buildscript_genrule@,
                crate::render::spec_genrule_fields(g),
            ),
            Rule::CxxLibrary(c) => crate::render::spec_call_text(
                config.cxx_library@,
                crate::render::spec_cxx_fields(c),
            ),
            Rule::PrebuiltCxxLibrary(pc) => crate::render::spec_call_text(
                config.prebuilt_cxx_library@,
                crate::render::spec_prebuilt_fields(pc),
            ),
            Rule::RootPackage(l) => crate::render::spec_call_text(
                config.rust_library@,
                crate::render::spec_library_fields(l),
            ),
        }
    }

    /// Render the declaration.
    pub fn render(&self, config: &crate::config::BuckConfig) -> (r: String)
        ensures
            r@ == self.spec_render(*config),
    {
        match self {
            Rule::Alias(a) => crate::render::render_alias(a, config.alias.as_str()),
            Rule::HttpArchive(h) => crate::render::render_http_archive(
                h,
                config.http_archive.as_str(),
            ),
            Rule::GitFetch(g) => crate::render::render_git_fetch(g, "git_fetch"),
            Rule::Binary(b) => crate::render::render_rust_binary(b, config.rust_binary.as_str()),
            Rule::Library(l) => crate::render::render_rust_library(
                l,
                config.rust_library.as_str(),
            ),
            Rule::BuildscriptBinary(b) => {
                match &config.buildscript_binary {
                    Option::Some(name) => crate::render::render_rust_binary(b, name.as_str()),
                    Option::None => crate::render::render_rust_binary(
                        b,
                        config.rust_binary.as_str(),
                    ),
                }
            },
            Rule::BuildscriptGenrule(g) => crate::render::render_buildscript_genrule(
                g,
                config.buildscript_genrule.as_str(),
            ),
            Rule::CxxLibrary(c) => crate::render::render_cxx_library(
                c,
                config.cxx_library.as_str(),
            ),
            Rule::PrebuiltCxxLibrary(pc) => crate::render::render_prebuilt_cxx_library(
                pc,
                config.prebuilt_cxx_library.as_str(),
            ),
            Rule::RootPackage(l) => crate::render::render_rust_library(
                l,
                config.rust_library.as_str(),
            ),
        }
    }
}

/// The whole build file: the configured header and import preamble,
/// each followed by a blank line when present, then the declarations in
/// order, separated by one blank line.
pub open spec fn spec_buckfile_text(config: crate::config::BuckConfig, rules: Seq<Rule>) -> Seq<
    char,
> {
    let header = if config.generated_file_header@.len() > 0 {
        config.generated_file_header@ + "\n"@
    } else {
        Seq::<char>::empty()
    };
    let imports = if config.buckfile_imports@.len() > 0 {
        config.buckfile_imports@ + "\n"@
    } else {
        Seq::<char>::empty()
    };
    header + imports + crate::render::spec_join(
        "\n"@,
        rules.map_values(|r: Rule| r.spec_render(config)),
    )
}

/// Write the build file for the given declarations, in the order given.
pub fn write_buckfile(config: &crate::config::BuckConfig, rules: &Vec<Rule>) -> (r: String)
    ensures
        r@ == spec_buckfile_text(*config, rules@),
{
    let mut out = String::new();
    if !config.generated_file_header.as_str().is_empty() {
        crate::strutil::push_str(&mut out, config.generated_file_header.as_str());
        crate::strutil::push_str(&mut out, "\n");
    }
    if !config.buckfile_imports.as_str().is_empty() {
        crate::strutil::push_str(&mut out, config.buckfile_imports.as_str());
        crate::strutil::push_str(&mut out, "\n");
    }
    let ghost head = out@;
    let mut parts: Vec<String> = Vec::new();
    let mut i: usize = 0;
    while i < rules.len()
        invariant
            i <= rules.len(),
            parts.deep_view() == rules@.take(i as int).map_values(
                |r: Rule| r.spec_render(*config),
            ),
        decreases rules.len() - i,
    {
        let ghost pre = parts.deep_view();
        parts.push(rules[i].render(config));
        assert(parts.deep_view() =~= pre.push(rules@[i as int].spec_render(*config)));
        assert(parts.deep_view() =~= rules@.take(i + 1).map_values(
            |r: Rule| r.spec_render(*config),
        ));
        i = i + 1;
    }
    assert(rules@.take(rules@.len() as int) =~= rules@);
    crate::render::push_joined(&mut out, &parts, "\n");
    assert(out@ =~= spec_buckfile_text(*config, rules@));
    out
}

/// The sorted names of the public declarations.
pub open spec fn spec_public_names(rules: Seq<Rule>) -> Seq<String>
    decreases rules.len(),
{
    if rules.len() == 0 {
        Seq::<String>::empty()
    } else {
        let rest = spec_public_names(rules.drop_last());
        if rules.last().spec_is_public() {
            crate::sorted::spec_set_insert(rest, rules.last().spec_name().0)
        } else {
            rest
        }
    }
}

/// Collect the names of the public declarations, in sorted order with
/// one entry per name.
pub fn public_rule_names(rules: &Vec<Rule>) -> (r: crate::sorted::SortedSet<String>)
    ensures
        r@ == spec_public_names(rules@),
        r.wf(),
{
    let mut out: crate::sorted::SortedSet<String> = crate::sorted::SortedSet::new();
    let mut i: usize = 0;
    assert(rules@.take(0) =~= Seq::<Rule>::empty());
    while i < rules.len()
        invariant
            i <= rules.len(),
            out.wf(),
            out@ == spec_public_names(rules@.take(i as int)),
        decreases rules.len() - i,
    {
        proof {
            assert(rules@.take(i + 1).drop_last() =~= rules@.take(i as int));
            assert(rules@.take(i + 1).last() == rules@[i as int]);
        }
        if rules[i].is_public() {
            let name = crate::strutil::clone_string(&rules[i].get_name().0);
            out.insert(name);
            assert(out@ =~= spec_public_names(rules@.take(i + 1)));
        } else {
            assert(out@ =~= spec_public_names(rules@.take(i + 1)));
        }
        i = i + 1;
    }
    assert(rules@.take(rules@.len() as int) =~= rules@);
    out
}

/// The public-targets listing: a banner, then the sorted public names.
pub open spec fn spec_targets_text(rules: Seq<Rule>) -> Seq<char> {
    "# \u{0040}generated by buckify\nRUST_TARGETS = "@ + crate::render::spec_list(
        spec_public_names(rules).map_values(|n: String| n@),
    ) + "\n"@
}

/// Write the public-targets listing for the given declarations.
pub fn write_targets_file(rules: &Vec<Rule>) -> (r: String)
    ensures
        r@ == spec_targets_text(rules@),
{
    let names = public_rule_names(rules);
    let mut out = String::new();
    crate::strutil::push_str(&mut out, "# \u{0040}generated by buckify\nRUST_TARGETS = ");
    let texts = crate::render::strs_vec(names.as_slice());
    crate::render::push_list(&mut out, &texts);
    crate::strutil::push_str(&mut out, "\n");
    assert(out@ =~= spec_targets_text(rules@));
    out
}

/// Whether the file on disk already holds exactly the new content, so
/// that the write, and the change notification it would cause, can be
/// skipped.
pub fn file_up_to_date(existing: Option<&String>, fresh: &String) -> (r: bool)
    ensures
        r == (existing matches Option::Some(e) && e@ == fresh@),
{
    match existing {
        Option::Some(e) => crate::strutil::str_eq(e.as_str(), fresh.as_str()),
        Option::None => false,
    }
}


/// No two declarations share a name.
pub open spec fn spec_names_distinct(s: Seq<Rule>) -> bool {
    forall|i: int, j: int|
        0 <= i < j < s.len() ==> (#[trigger] s[i]).spec_name().0@ != (
        #[trigger] s[j]).spec_name().0@
}

/// The stored declarations without the one carrying the given name, if
/// any; with distinct names at most one can carry it.
pub open spec fn spec_remove_name(s: Seq<Rule>, n: Seq<char>) -> Seq<Rule>
    decreases s.len(),
{
    if s.len() == 0 {
        Seq::<Rule>::empty()
    } else if s[0].spec_name().0@ == n {
        s.drop_first()
    } else {
        seq![s[0]].add(spec_remove_name(s.drop_first(), n))
    }
}

/// Inserting a declaration: identity is the declaration name alone, and
/// a later declaration overrides an earlier one under the same name;
/// the survivor takes its place in the file ordering.
pub open spec fn spec_ruleset_insert(s: Seq<Rule>, r: Rule) -> Seq<Rule> {
    crate::sorted::spec_set_insert(spec_remove_name(s, r.spec_name().0@), r)
}

pub proof fn lemma_remove_name_absent(s: Seq<Rule>, n: Seq<char>)
    requires
        forall|k: int| 0 <= k < s.len() ==> (#[trigger] s[k]).spec_name().0@ != n,
    ensures
        spec_remove_name(s, n) == s,
    decreases s.len(),
{
    if s.len() > 0 {
        assert forall|k: int| 0 <= k < s.drop_first().len() implies (
        #[trigger] s.drop_first()[k]).spec_name().0@ != n by {
            assert(s.drop_first()[k] == s[k + 1]);
        }
        lemma_remove_name_absent(s.drop_first(), n);
        assert(spec_remove_name(s, n) =~= s);
    }
}

pub proof fn lemma_remove_name_first(s: Seq<Rule>, n: Seq<char>, i: int)
    requires
        0 <= i < s.len(),
        s[i].spec_name().0@ == n,
        forall|k: int| 0 <= k < i ==> (#[trigger] s[k]).spec_name().0@ != n,
    ensures
        spec_remove_name(s, n) == s.remove(i),
    decreases s.len(),
{
    if i == 0 {
        assert(spec_remove_name(s, n) =~= s.remove(0));
    } else {
        assert(s.drop_first()[i - 1] == s[i]);
        assert forall|k: int| 0 <= k < i - 1 implies (
        #[trigger] s.drop_first()[k]).spec_name().0@ != n by {
            assert(s.drop_first()[k] == s[k + 1]);
        }
        lemma_remove_name_first(s.drop_first(), n, i - 1);
        assert(spec_remove_name(s, n) =~= s.remove(i));
    }
}

/// The declarations of one generation run: a set whose identity is the
/// declaration name, kept in the file ordering.
#[derive(Debug)]
pub struct RuleSet {
    items: crate::sorted::SortedSet<Rule>,
}

impl View for RuleSet {
    type V = Seq<Rule>;

    closed spec fn view(&self) -> Seq<Rule> {
        self.items@
    }
}

impl RuleSet {
    /// Sorted by the file ordering, one declaration per name.
    pub open spec fn wf(&self) -> bool {
        crate::sorted::sorted_strict(self@) && spec_names_distinct(self@)
    }

    pub fn new() -> (r: Self)
        ensures
            r@ == Seq::<Rule>::empty(),
            r.wf(),
    {
        RuleSet { items: crate::sorted::SortedSet::new() }
    }

    pub fn len(&self) -> (n: usize)
        ensures
            n == self@.len(),
    {
        self.items.len()
    }

    pub fn as_slice(&self) -> (r: &Vec<Rule>)
        ensures
            r@ == self@,
    {
        self.items.as_slice()
    }

    /// Insert a declaration: any declaration already stored under its
    /// name leaves, and the new one takes its place in the file
    /// ordering.
    pub fn insert(&mut self, r: Rule)
        requires
            old(self).wf(),
        ensures
            final(self).wf(),
            final(self)@ == spec_ruleset_insert(old(self)@, r),
    {
        let ghost s0 = self@;
        let ghost n = r.spec_name().0@;
        let len = self.items.len();
        let mut i: usize = 0;
        let mut found: Option<usize> = Option::None;
        while i < len && found.is_none()
            invariant
                i <= len,
                len == s0.len(),
                self@ == s0,
                n == r.spec_name().0@,
                found is None ==> forall|k: int|
                    0 <= k < i ==> (#[trigger] s0[k]).spec_name().0@ != n,
                found matches Option::Some(f) ==> f < s0.len() && s0[f as int].spec_name().0@ == n
                    && (forall|k: int| 0 <= k < f ==> (#[trigger] s0[k]).spec_name().0@ != n),
            decreases len - i,
        {
            if crate::strutil::str_eq(
                self.items.get(i).get_name().0.as_str(),
                r.get_name().0.as_str(),
            ) {
                found = Option::Some(i);
            }
            i = i + 1;
        }
        let ghost removed = spec_remove_name(s0, n);
        match found {
            Option::Some(f) => {
                self.items.remove_at(f);
                proof {
                    lemma_remove_name_first(s0, n, f as int);
                }
            },
            Option::None => {
                proof {
                    lemma_remove_name_absent(s0, n);
                }
            },
        }
        proof {
            assert(self@ == removed);
            // the removal keeps names pairwise distinct and none equal
            // to the inserted name
            assert forall|p: int, q: int| 0 <= p < q < removed.len() implies (
            #[trigger] removed[p]).spec_name().0@ != (#[trigger] removed[q]).spec_name().0@ by {
                if found is Some {
                    let f = found->0 as int;
                    let p0: int = if p < f {
                        p
                    } else {
                        p + 1
                    };
                    let q0: int = if q < f {
                        q
                    } else {
                        q + 1
                    };
                    assert(removed[p] == s0[p0]);
                    assert(removed[q] == s0[q0]);
                }
            }
            assert forall|k: int| 0 <= k < removed.len() implies (
            #[trigger] removed[k]).spec_name().0@ != n by {
                if found is Some {
                    let f = found->0 as int;
                    let k0: int = if k < f {
                        k
                    } else {
                        k + 1
                    };
                    assert(removed[k] == s0[k0]);
                    if k0 != f && s0[k0].spec_name().0@ == n {
                        if k0 < f {
                        } else {
                            assert(spec_names_distinct(s0));
                            assert(s0[f].spec_name().0@ != s0[k0].spec_name().0@);
                        }
                    }
                }
            }
            crate::sorted::lemma_set_insert_sorted(removed, r);
        }
        let ghost pre_insert = self@;
        self.items.insert(r);
        proof {
            // every element of the result is an old element or the new
            // one, and the result is strictly sorted, so names stay
            // pairwise distinct
            let out = self@;
            assert forall|p: int, q: int| 0 <= p < q < out.len() implies (
            #[trigger] out[p]).spec_name().0@ != (#[trigger] out[q]).spec_name().0@ by {
                crate::sorted::lemma_to_set_contains(out, p);
                crate::sorted::lemma_to_set_contains(out, q);
                assert(out.to_set().subset_of(pre_insert.to_set().insert(r)));
                crate::sorted::lemma_sorted_distinct(out, p, q);
                if out[p] != r && out[q] != r {
                    let kp = crate::sorted::lemma_to_set_index(pre_insert, out[p]);
                    let kq = crate::sorted::lemma_to_set_index(pre_insert, out[q]);
                    if out[p].spec_name().0@ == out[q].spec_name().0@ {
                        if kp < kq {
                            assert(spec_names_distinct(pre_insert));
                        } else if kq < kp {
                            assert(spec_names_distinct(pre_insert));
                        } else {
                            assert(out[p] == out[q]);
                        }
                    }
                } else if out[p] == r {
                    let kq = crate::sorted::lemma_to_set_index(pre_insert, out[q]);
                } else {
                    let kp = crate::sorted::lemma_to_set_index(pre_insert, out[p]);
                }
            }
        }
    }
}

} // verus!
