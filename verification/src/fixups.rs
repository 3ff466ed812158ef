//! Per-package override configuration: which targets to omit, extra
//! sources and flags, platform-specific overrides, and how to handle a
//! build script.

use vstd::prelude::*;

use crate::platform::PlatformExpr;

verus! {

/// How a build script is handled; an unresolved one carries a message
/// pointing at it.
#[derive(Debug, Clone, PartialEq, Eq)]
pub enum BuildscriptFixup {
    Unresolved(String),
}

/// The build-script handling entries.
#[derive(Debug, Clone, PartialEq, Eq)]
pub struct BuildscriptFixups(pub Vec<BuildscriptFixup>);

/// One override record, applying to the versions its requirement
/// selects.
#[derive(Debug, Clone)]
pub struct FixupConfig {
    /// Version requirement this record applies to, as its textual form;
    /// absent means all versions.
    pub version: Option<String>,
    /// Extra source globs, rooted in the package's manifest directory.
    pub extra_srcs: Vec<String>,
    /// Directories whose contents source files refer to.
    pub src_referenced_dirs: Vec<String>,
    /// Extra compiler flags.
    pub rustc_flags: Vec<String>,
    /// Extra configuration predicates.
    pub cfgs: Vec<String>,
    /// Extra features.
    pub features: Vec<String>,
    /// Features to omit from compilation.
    pub omit_features: Vec<String>,
    /// Additional dependencies.
    pub extra_deps: Vec<String>,
    /// Dependencies to omit, by bare crate name.
    pub omit_deps: Vec<String>,
    /// Add the cargo environment.
    pub cargo_env: bool,
    /// Overlay directory, relative to the fixups directory.
    pub overlay: Option<String>,
    /// Binary link style.
    pub link_style: Option<String>,
    /// Library preferred linkage.
    pub preferred_linkage: Option<String>,
    /// Additional environment variables.
    pub env: Vec<(String, String)>,
    /// How to handle a build script, if present.
    pub buildscript: BuildscriptFixups,
    /// Extra mapped sources.
    pub extra_mapped_srcs: Vec<(String, String)>,
}

impl FixupConfig {
    /// An override record with nothing in it, applying to all versions.
    pub fn empty() -> (r: Self)
        ensures
            r.wf(),
            r.version is None,
            r.extra_srcs@.len() == 0,
            r.src_referenced_dirs@.len() == 0,
            r.rustc_flags@.len() == 0,
            r.cfgs@.len() == 0,
            r.features@.len() == 0,
            r.omit_features@.len() == 0,
            r.extra_deps@.len() == 0,
            r.omit_deps@.len() == 0,
            !r.cargo_env,
            r.overlay is None,
            r.link_style is None,
            r.preferred_linkage is None,
            r.env@.len() == 0,
            r.buildscript.0@.len() == 0,
            r.extra_mapped_srcs@.len() == 0,
    {
        FixupConfig {
            version: Option::None,
            extra_srcs: Vec::new(),
            src_referenced_dirs: Vec::new(),
            rustc_flags: Vec::new(),
            cfgs: Vec::new(),
            features: Vec::new(),
            omit_features: Vec::new(),
            extra_deps: Vec::new(),
            omit_deps: Vec::new(),
            cargo_env: false,
            overlay: Option::None,
            link_style: Option::None,
            preferred_linkage: Option::None,
            env: Vec::new(),
            buildscript: BuildscriptFixups(Vec::new()),
            extra_mapped_srcs: Vec::new(),
        }
    }
}

/// Whether the requirement text parses as a version requirement, the
/// version text parses as a version, and the requirement selects it.
/// The answer depends on the two texts alone.
pub uninterp spec fn spec_req_matches(req: Seq<char>, ver: Seq<char>) -> bool;

/// Relies on `semver::VersionReq::parse`, `semver::Version::parse` and
/// `semver::VersionReq::matches`: whether the requirement text selects
/// the version text; false when either fails to parse. The result is a
/// function of the two texts alone.
#[verifier::external_body]
fn req_matches_version(req: &str, ver: &str) -> (r: bool)
    ensures
        r == spec_req_matches(req@, ver@),
{
    match (semver::VersionReq::parse(req), semver::Version::parse(ver)) {
        (Ok(rq), Ok(v)) => rq.matches(&v),
        _ => false,
    }
}

impl FixupConfig {
    /// Whether this record applies to the given version.
    pub open spec fn spec_applies(self, ver: Seq<char>) -> bool {
        match self.version {
            Option::None => true,
            Option::Some(req) => spec_req_matches(req@, ver),
        }
    }

    /// Return true if the record applies to the given version.
    pub fn version_applies(&self, ver: &str) -> (r: bool)
        ensures
            r == self.spec_applies(ver@),
    {
        match &self.version {
            Option::None => true,
            Option::Some(req) => req_matches_version(req.as_str(), ver),
        }
    }
}

/// String entries strictly ascending by their characters: the order and
/// uniqueness an ordered string set guarantees.
pub open spec fn spec_strs_ascending(s: Seq<String>) -> bool {
    forall|i: int, j: int|
        0 <= i < j < s.len() ==> crate::order::spec_chars_cmp(
            (#[trigger] s[i])@,
            (#[trigger] s[j])@,
        ) == core::cmp::Ordering::Less
}

/// Pair entries strictly ascending by their key characters: the order
/// and key uniqueness an ordered string map guarantees.
pub open spec fn spec_pairs_ascending(s: Seq<(String, String)>) -> bool {
    forall|i: int, j: int|
        0 <= i < j < s.len() ==> crate::order::spec_chars_cmp(
            (#[trigger] s[i]).0@,
            (#[trigger] s[j]).0@,
        ) == core::cmp::Ordering::Less
}

impl FixupConfig {
    /// The well-formedness of one record: every field that stands for
    /// an ordered set or map is strictly ascending, so its entries are
    /// unique and in a fixed order.
    pub open spec fn wf(self) -> bool {
        &&& spec_strs_ascending(self.cfgs@)
        &&& spec_strs_ascending(self.features@)
        &&& spec_strs_ascending(self.omit_features@)
        &&& spec_strs_ascending(self.extra_deps@)
        &&& spec_strs_ascending(self.omit_deps@)
        &&& spec_pairs_ascending(self.env@)
        &&& spec_pairs_ascending(self.extra_mapped_srcs@)
    }
}

/// The whole override file of one package.
#[derive(Debug, Clone)]
pub struct FixupConfigFile {
    /// Limit an exposed package's alias to this visibility.
    pub custom_visibility: Option<Vec<String>>,
    /// Targets to omit.
    pub omit_targets: Vec<String>,
    /// Override the global precise-sources setting for this package.
    pub precise_srcs: Option<bool>,
    /// The extension module name, for a library built as one.
    pub python_ext: Option<String>,
    /// The record applying to all platforms.
    pub base: FixupConfig,
    /// Platform-specific records.
    pub platform_fixup: Vec<(PlatformExpr, FixupConfig)>,
}

impl FixupConfigFile {
    /// The well-formedness of an override file: the omitted-target set
    /// is strictly ascending, every record is well formed, and the
    /// platform records are keyed by strictly ascending expression
    /// texts, so the keys are unique and iterate in a fixed order, as
    /// the ordered map they stand for guarantees.
    pub open spec fn wf(self) -> bool {
        &&& spec_strs_ascending(self.omit_targets@)
        &&& self.base.wf()
        &&& forall|i: int, j: int|
            0 <= i < j < self.platform_fixup@.len() ==> crate::order::spec_chars_cmp(
                (#[trigger] self.platform_fixup@[i]).0.0@,
                (#[trigger] self.platform_fixup@[j]).0.0@,
            ) == core::cmp::Ordering::Less
        &&& forall|i: int|
            0 <= i < self.platform_fixup@.len() ==> (#[trigger] self.platform_fixup@[i]).1.wf()
    }
}

/// The records applying to a version keep the file's key order: in a
/// well-formed file their expression texts stay strictly ascending, and
/// each of them is one of the file's records.
pub proof fn lemma_applying_keeps_order(s: Seq<(PlatformExpr, FixupConfig)>, ver: Seq<char>)
    requires
        forall|p: int, q: int|
            0 <= p < q < s.len() ==> crate::order::spec_chars_cmp(
                (#[trigger] s[p]).0.0@,
                (#[trigger] s[q]).0.0@,
            ) == core::cmp::Ordering::Less,
    ensures
        forall|i: int, j: int|
            0 <= i < j < spec_applying(s, ver).len() ==> crate::order::spec_chars_cmp(
                (#[trigger] spec_applying(s, ver)[i]).0.0@,
                (#[trigger] spec_applying(s, ver)[j]).0.0@,
            ) == core::cmp::Ordering::Less,
        forall|i: int|
            0 <= i < spec_applying(s, ver).len() ==> exists|p: int|
                0 <= p < s.len() && #[trigger] s[p] == (#[trigger] spec_applying(s, ver)[i]),
    decreases s.len(),
{
    if s.len() > 0 {
        lemma_applying_keeps_order(s.drop_last(), ver);
        let rest = spec_applying(s.drop_last(), ver);
        let whole = spec_applying(s, ver);
        assert forall|i: int| 0 <= i < whole.len() implies exists|p: int|
            0 <= p < s.len() && #[trigger] s[p] == (#[trigger] whole[i]) by {
            if i < rest.len() {
                let p = choose|p: int|
                    0 <= p < s.drop_last().len() && #[trigger] s.drop_last()[p] == rest[i];
                assert(s[p] == whole[i]);
            } else {
                assert(s[s.len() - 1] == whole[i]);
            }
        }
        assert forall|i: int, j: int| 0 <= i < j < whole.len() implies crate::order::spec_chars_cmp(
            (#[trigger] whole[i]).0.0@,
            (#[trigger] whole[j]).0.0@,
        ) == core::cmp::Ordering::Less by {
            if j < rest.len() {
                assert(whole[i] == rest[i] && whole[j] == rest[j]);
            } else {
                assert(whole[j] == s[s.len() - 1]);
                assert(whole[i] == rest[i]);
                let p = choose|p: int|
                    0 <= p < s.drop_last().len() && #[trigger] s.drop_last()[p] == rest[i];
                assert(s[p] == rest[i]);
                assert(crate::order::spec_chars_cmp(s[p].0.0@, s[s.len() - 1].0.0@)
                    == core::cmp::Ordering::Less);
            }
        }
    }
}

/// The platform records applying to a version, in order.
pub open spec fn spec_applying(
    s: Seq<(PlatformExpr, FixupConfig)>,
    ver: Seq<char>,
) -> Seq<(PlatformExpr, FixupConfig)>
    decreases s.len(),
{
    if s.len() == 0 {
        Seq::<(PlatformExpr, FixupConfig)>::empty()
    } else {
        spec_applying(s.drop_last(), ver).add(
            if s.last().1.spec_applies(ver) {
                seq![s.last()]
            } else {
                Seq::<(PlatformExpr, FixupConfig)>::empty()
            },
        )
    }
}

impl FixupConfigFile {
    /// An override file with nothing in it.
    pub fn template_empty() -> (r: Self)
        ensures
            r.wf(),
            r.custom_visibility is None,
            r.omit_targets@.len() == 0,
            r.precise_srcs is None,
            r.python_ext is None,
            r.base.version is None,
            r.base.buildscript.0@.len() == 0,
            r.platform_fixup@.len() == 0,
    {
        FixupConfigFile {
            custom_visibility: Option::None,
            omit_targets: Vec::new(),
            precise_srcs: Option::None,
            python_ext: Option::None,
            base: FixupConfig::empty(),
            platform_fixup: Vec::new(),
        }
    }

    /// Generate a template override file for a target, as a starting
    /// point. For a build-script target it records the script as
    /// unresolved, naming its location and the packages it depends on
    /// as a clue to what the script is trying to do; for any other
    /// target it is empty.
    pub fn template(
        third_party_path: &str,
        is_custom_build: bool,
        src_path: &str,
        dep_names: &Vec<String>,
    ) -> (r: Self)
        ensures
            r.wf(),
            r.custom_visibility is None,
            r.omit_targets@.len() == 0,
            r.precise_srcs is None,
            r.python_ext is None,
            r.base.version is None,
            r.platform_fixup@.len() == 0,
            !is_custom_build ==> r.base.buildscript.0@.len() == 0,
            is_custom_build ==> {
                &&& r.base.buildscript.0@.len() == 1
                &&& (r.base.buildscript.0@[0] matches BuildscriptFixup::Unresolved(m)
                    && m@ == spec_template_msg(
                    third_party_path@,
                    src_path@,
                    dep_names.deep_view(),
                ))
            },
    {
        if !is_custom_build {
            return FixupConfigFile::template_empty();
        }
        let relpath = crate::buckify::relative_path(third_party_path, src_path);
        let mut msg = String::new();
        crate::strutil::push_str(&mut msg, "Unresolved build script at ");
        crate::strutil::push_str(&mut msg, relpath.as_str());
        crate::strutil::push_str(&mut msg, ". Dependencies:");
        let mut i: usize = 0;
        assert(dep_names.deep_view().take(0) =~= Seq::<Seq<char>>::empty());
        assert(msg@ =~= "Unresolved build script at "@ + spec_relative_path(
            third_party_path@,
            src_path@,
        ) + ". Dependencies:"@ + spec_dep_lines(dep_names.deep_view().take(0)));
        while i < dep_names.len()
            invariant
                i <= dep_names.len(),
                dep_names.deep_view().len() == dep_names.len(),
                msg@ == "Unresolved build script at "@ + spec_relative_path(
                    third_party_path@,
                    src_path@,
                ) + ". Dependencies:"@ + spec_dep_lines(dep_names.deep_view().take(i as int)),
            decreases dep_names.len() - i,
        {
            crate::strutil::push_str(&mut msg, "\n    ");
            crate::strutil::push_str(&mut msg, dep_names[i].as_str());
            proof {
                assert(dep_names.deep_view().take(i + 1).drop_last() =~= dep_names.deep_view()
                    .take(i as int));
                assert(dep_names.deep_view().take(i + 1).last() == dep_names.deep_view()[
                    i as int]);
                assert(msg@ =~= "Unresolved build script at "@ + spec_relative_path(
                    third_party_path@,
                    src_path@,
                ) + ". Dependencies:"@ + spec_dep_lines(dep_names.deep_view().take(i + 1)));
            }
            i = i + 1;
        }
        assert(dep_names.deep_view().take(dep_names.deep_view().len() as int)
            =~= dep_names.deep_view());
        let mut base = FixupConfig::empty();
        let mut entries: Vec<BuildscriptFixup> = Vec::new();
        entries.push(BuildscriptFixup::Unresolved(msg));
        base.buildscript = BuildscriptFixups(entries);
        FixupConfigFile {
            custom_visibility: Option::None,
            omit_targets: Vec::new(),
            precise_srcs: Option::None,
            python_ext: Option::None,
            base,
            platform_fixup: Vec::new(),
        }
    }

    /// The record applying to all platforms, when it applies to the
    /// version.
    pub fn base(&self, version: &str) -> (r: Option<&FixupConfig>)
        ensures
            self.base.spec_applies(version@) ==> r == Option::Some(&self.base),
            !self.base.spec_applies(version@) ==> r is None,
    {
        if self.base.version_applies(version) {
            Option::Some(&self.base)
        } else {
            Option::None
        }
    }

    /// The platform-specific records applying to the version.
    pub fn platform_configs<'a>(&'a self, version: &str) -> (r: Vec<
        (&'a PlatformExpr, &'a FixupConfig),
    >)
        requires
            self.wf(),
        ensures
            r@.map_values(|e: (&PlatformExpr, &FixupConfig)| (*e.0, *e.1)) == spec_applying(
                self.platform_fixup@,
                version@,
            ),
    {
        let mut out: Vec<(&PlatformExpr, &FixupConfig)> = Vec::new();
        let mut i: usize = 0;
        assert(self.platform_fixup@.take(0) =~= Seq::<(PlatformExpr, FixupConfig)>::empty());
        assert(out@.map_values(|e: (&PlatformExpr, &FixupConfig)| (*e.0, *e.1)) =~= spec_applying(
            self.platform_fixup@.take(0),
            version@,
        ));
        while i < self.platform_fixup.len()
            invariant
                i <= self.platform_fixup@.len(),
                out@.map_values(|e: (&PlatformExpr, &FixupConfig)| (*e.0, *e.1)) == spec_applying(
                    self.platform_fixup@.take(i as int),
                    version@,
                ),
            decreases self.platform_fixup@.len() - i,
        {
            proof {
                assert(self.platform_fixup@.take(i + 1).drop_last() =~= self.platform_fixup@.take(
                    i as int,
                ));
                assert(self.platform_fixup@.take(i + 1).last() == self.platform_fixup@[i as int]);
            }
            let entry = &self.platform_fixup[i];
            if entry.1.version_applies(version) {
                let ghost pre = out@.map_values(
                    |e: (&PlatformExpr, &FixupConfig)| (*e.0, *e.1),
                );
                out.push((&entry.0, &entry.1));
                assert(out@.map_values(|e: (&PlatformExpr, &FixupConfig)| (*e.0, *e.1)) =~= pre.push(
                    self.platform_fixup@[i as int],
                ));
                assert(out@.map_values(|e: (&PlatformExpr, &FixupConfig)| (*e.0, *e.1))
                    =~= spec_applying(self.platform_fixup@.take(i + 1), version@));
            } else {
                assert(out@.map_values(|e: (&PlatformExpr, &FixupConfig)| (*e.0, *e.1))
                    =~= spec_applying(self.platform_fixup@.take(i + 1), version@));
            }
            i = i + 1;
        }
        assert(self.platform_fixup@.take(self.platform_fixup@.len() as int)
            =~= self.platform_fixup@);
        out
    }

    /// Every record applying to the version: the base record first,
    /// untagged, then the applying platform records under their
    /// expressions.
    pub fn configs<'a>(&'a self, version: &str) -> (r: Vec<
        (Option<&'a PlatformExpr>, &'a FixupConfig),
    >)
        requires
            self.wf(),
        ensures
            self.base.spec_applies(version@) ==> r@.map_values(
                |e: (Option<&PlatformExpr>, &FixupConfig)|
                    (
                        match e.0 {
                            Option::Some(p) => Option::Some(*p),
                            Option::None => Option::<PlatformExpr>::None,
                        },
                        *e.1,
                    ),
            ) == seq![(Option::<PlatformExpr>::None, self.base)].add(
                spec_applying(self.platform_fixup@, version@).map_values(
                    |e: (PlatformExpr, FixupConfig)| (Option::Some(e.0), e.1),
                ),
            ),
            !self.base.spec_applies(version@) ==> r@.map_values(
                |e: (Option<&PlatformExpr>, &FixupConfig)|
                    (
                        match e.0 {
                            Option::Some(p) => Option::Some(*p),
                            Option::None => Option::<PlatformExpr>::None,
                        },
                        *e.1,
                    ),
            ) == spec_applying(self.platform_fixup@, version@).map_values(
                |e: (PlatformExpr, FixupConfig)| (Option::Some(e.0), e.1),
            ),
    {
        let mut out: Vec<(Option<&PlatformExpr>, &FixupConfig)> = Vec::new();
        if self.base.version_applies(version) {
            out.push((Option::None, &self.base));
        }
        let ghost head = out@.map_values(
            |e: (Option<&PlatformExpr>, &FixupConfig)|
                (
                    match e.0 {
                        Option::Some(p) => Option::Some(*p),
                        Option::None => Option::<PlatformExpr>::None,
                    },
                    *e.1,
                ),
        );
        let plats = self.platform_configs(version);
        let ghost pv = spec_applying(self.platform_fixup@, version@);
        let mut i: usize = 0;
        assert(pv.take(0) =~= Seq::<(PlatformExpr, FixupConfig)>::empty());
        assert(out@.map_values(
            |e: (Option<&PlatformExpr>, &FixupConfig)|
                (
                    match e.0 {
                        Option::Some(p) => Option::Some(*p),
                        Option::None => Option::<PlatformExpr>::None,
                    },
                    *e.1,
                ),
        ) =~= head.add(
            pv.take(0).map_values(|e: (PlatformExpr, FixupConfig)| (Option::Some(e.0), e.1)),
        ));
        while i < plats.len()
            invariant
                i <= plats@.len(),
                plats@.map_values(|e: (&PlatformExpr, &FixupConfig)| (*e.0, *e.1)) == pv,
                pv.len() == plats@.len(),
                out@.map_values(
                    |e: (Option<&PlatformExpr>, &FixupConfig)|
                        (
                            match e.0 {
                                Option::Some(p) => Option::Some(*p),
                                Option::None => Option::<PlatformExpr>::None,
                            },
                            *e.1,
                        ),
                ) == head.add(
                    pv.take(i as int).map_values(
                        |e: (PlatformExpr, FixupConfig)| (Option::Some(e.0), e.1),
                    ),
                ),
            decreases plats@.len() - i,
        {
            let entry = &plats[i];
            let ghost pre = out@.map_values(
                |e: (Option<&PlatformExpr>, &FixupConfig)|
                    (
                        match e.0 {
                            Option::Some(p) => Option::Some(*p),
                            Option::None => Option::<PlatformExpr>::None,
                        },
                        *e.1,
                    ),
            );
            out.push((Option::Some(entry.0), entry.1));
            proof {
                assert(plats@.map_values(|e: (&PlatformExpr, &FixupConfig)| (*e.0, *e.1))[
                    i as int] == pv[i as int]);
                assert(out@.map_values(
                    |e: (Option<&PlatformExpr>, &FixupConfig)|
                        (
                            match e.0 {
                                Option::Some(p) => Option::Some(*p),
                                Option::None => Option::<PlatformExpr>::None,
                            },
                            *e.1,
                        ),
                ) =~= pre.push((Option::Some(pv[i as int].0), pv[i as int].1)));
                assert(out@.map_values(
                    |e: (Option<&PlatformExpr>, &FixupConfig)|
                        (
                            match e.0 {
                                Option::Some(p) => Option::Some(*p),
                                Option::None => Option::<PlatformExpr>::None,
                            },
                            *e.1,
                        ),
                ) =~= head.add(
                    pv.take(i + 1).map_values(
                        |e: (PlatformExpr, FixupConfig)| (Option::Some(e.0), e.1),
                    ),
                ));
            }
            i = i + 1;
        }
        proof {
            assert(pv.take(pv.len() as int) =~= pv);
            if self.base.spec_applies(version@) {
                assert(head =~= seq![(Option::<PlatformExpr>::None, self.base)]);
            } else {
                assert(head =~= Seq::<(Option<PlatformExpr>, FixupConfig)>::empty());
                assert(head.add(
                    pv.map_values(|e: (PlatformExpr, FixupConfig)| (Option::Some(e.0), e.1)),
                ) =~= pv.map_values(|e: (PlatformExpr, FixupConfig)| (Option::Some(e.0), e.1)));
            }
        }
        out
    }
}

/// The unresolved-build-script message: the script's location and the
/// packages it depends on.
pub open spec fn spec_template_msg(tpd: Seq<char>, src_path: Seq<char>, deps: Seq<Seq<char>>)
    -> Seq<char> {
    "Unresolved build script at "@ + spec_relative_path(tpd, src_path) + ". Dependencies:"@
        + spec_dep_lines(deps)
}

/// One indented line per dependency.
pub open spec fn spec_dep_lines(deps: Seq<Seq<char>>) -> Seq<char>
    decreases deps.len(),
{
    if deps.len() == 0 {
        Seq::<char>::empty()
    } else {
        spec_dep_lines(deps.drop_last()).add("\n    "@).add(deps.last())
    }
}

/// The relative form of a path, shared with the path utilities.
pub open spec fn spec_relative_path(base: Seq<char>, to: Seq<char>) -> Seq<char> {
    crate::buckify::spec_relative_path(base, to)
}

impl FixupConfig {
    /// The files of an overlay directory, relative to the overlay root,
    /// as walked by the filesystem collaborator.
    pub fn overlay_files(&self, fixup_dir: &str, walked: &Vec<String>) -> (r: Vec<String>)
    ensures
        self.overlay is None ==> r@.len() == 0,
        self.overlay matches Option::Some(o) ==> r.deep_view() == walked.deep_view().map_values(
            |f: Seq<char>|
                crate::buckify::spec_relative_path(
                    crate::buckify::spec_join_path(fixup_dir@, o@),
                    f,
                ),
        ),
{
    match &self.overlay {
        Option::None => Vec::new(),
        Option::Some(o) => {
            let overlay_dir = crate::buckify::join_path(fixup_dir, o.as_str());
            let mut out: Vec<String> = Vec::new();
            let mut i: usize = 0;
            while i < walked.len()
                invariant
                    i <= walked.len(),
                    walked.deep_view().len() == walked.len(),
                    overlay_dir@ == crate::buckify::spec_join_path(fixup_dir@, (self.overlay->0)@),
                    out.deep_view() == walked.deep_view().take(i as int).map_values(
                        |f: Seq<char>|
                            crate::buckify::spec_relative_path(
                                crate::buckify::spec_join_path(fixup_dir@, (self.overlay->0)@),
                                f,
                            ),
                    ),
                decreases walked.len() - i,
            {
                let ghost pre = out.deep_view();
                out.push(
                    crate::buckify::relative_path(overlay_dir.as_str(), walked[i].as_str()),
                );
                assert(out.deep_view() =~= pre.push(
                    crate::buckify::spec_relative_path(
                        crate::buckify::spec_join_path(fixup_dir@, (self.overlay->0)@),
                        walked.deep_view()[i as int],
                    ),
                ));
                assert(out.deep_view() =~= walked.deep_view().take(i + 1).map_values(
                    |f: Seq<char>|
                        crate::buckify::spec_relative_path(
                            crate::buckify::spec_join_path(fixup_dir@, (self.overlay->0)@),
                            f,
                        ),
                ));
                i = i + 1;
            }
            assert(walked.deep_view().take(walked.deep_view().len() as int)
                =~= walked.deep_view());
            out
        },
    }
}

}

} // verus!
