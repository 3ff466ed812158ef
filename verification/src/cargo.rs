//! The resolved package metadata this crate consumes: packages, their
//! buildable targets, and language editions.
//!
//! These values arrive fully resolved from the package-metadata and
//! naming collaborators; the fields carry their answers (public name,
//! private name, root and public flags) as plain data.

use vstd::prelude::*;

verus! {

/// A language edition marker.
#[derive(Debug, Clone, Copy, PartialEq, Eq, Structural)]
pub enum Edition {
    Rust2015,
    Rust2018,
    Rust2021,
    Rust2024,
}

impl Edition {
    /// Editions from 2018 on support precise per-file source detection.
    pub open spec fn spec_precise_capable(self) -> bool {
        self != Edition::Rust2015
    }

    /// Whether this edition is new enough for precise source detection.
    pub fn precise_capable(&self) -> (r: bool)
        ensures
            r == self.spec_precise_capable(),
    {
        !matches!(self, Edition::Rust2015)
    }

    /// The textual form used in rendered declarations.
    pub fn as_str(&self) -> (r: &'static str)
        ensures
            r@ == self.spec_str(),
    {
        match self {
            Edition::Rust2015 => "2015",
            Edition::Rust2018 => "2018",
            Edition::Rust2021 => "2021",
            Edition::Rust2024 => "2024",
        }
    }

    pub open spec fn spec_str(self) -> Seq<char> {
        match self {
            Edition::Rust2015 => "2015"@,
            Edition::Rust2018 => "2018"@,
            Edition::Rust2021 => "2021"@,
            Edition::Rust2024 => "2024"@,
        }
    }
}

/// The kinds a buildable target can declare, and the crate types it can
/// compile to.
#[derive(Debug, Clone, Copy, PartialEq, Eq, Structural)]
pub enum TargetKind {
    Lib,
    Bin,
    ProcMacro,
    Cdylib,
    CustomBuild,
    Other,
}

/// A named buildable unit within a package.
#[derive(Debug, Clone)]
pub struct ManifestTarget {
    /// Target name as the package manifest declares it.
    pub name: String,
    /// Path of the target's entry source file, relative to the
    /// third-party directory, with `/` separators.
    pub src_path: String,
    /// The declared kinds of the target.
    pub kind: Vec<TargetKind>,
    /// The crate types the target compiles to.
    pub crate_types: Vec<TargetKind>,
    /// Target-specific edition, when the manifest gives one.
    pub edition: Option<Edition>,
}

/// Whether a kind list names the given kind.
pub fn kinds_contain(v: &Vec<TargetKind>, k: TargetKind) -> (r: bool)
    ensures
        r == v@.contains(k),
{
    let mut i: usize = 0;
    loop
        invariant
            i <= v.len(),
            forall|m: int| 0 <= m < i ==> v@[m] != k,
        decreases v.len() - i,
    {
        if i == v.len() {
            assert(forall|m: int| 0 <= m < v@.len() ==> v@[m] != k);
            return false;
        }
        if matches!((v[i], k),
            (TargetKind::Lib, TargetKind::Lib)
            | (TargetKind::Bin, TargetKind::Bin)
            | (TargetKind::ProcMacro, TargetKind::ProcMacro)
            | (TargetKind::Cdylib, TargetKind::Cdylib)
            | (TargetKind::CustomBuild, TargetKind::CustomBuild)
            | (TargetKind::Other, TargetKind::Other)) {
            assert(v@[i as int] == k);
            return true;
        }
        i = i + 1;
    }
}

impl ManifestTarget {
    pub open spec fn spec_kind(self, k: TargetKind) -> bool {
        self.kind@.contains(k)
    }

    pub open spec fn spec_crate(self, k: TargetKind) -> bool {
        self.crate_types@.contains(k)
    }

    pub fn kind_lib(&self) -> (r: bool)
        ensures
            r == self.spec_kind(TargetKind::Lib),
    {
        kinds_contain(&self.kind, TargetKind::Lib)
    }

    pub fn kind_bin(&self) -> (r: bool)
        ensures
            r == self.spec_kind(TargetKind::Bin),
    {
        kinds_contain(&self.kind, TargetKind::Bin)
    }

    pub fn kind_proc_macro(&self) -> (r: bool)
        ensures
            r == self.spec_kind(TargetKind::ProcMacro),
    {
        kinds_contain(&self.kind, TargetKind::ProcMacro)
    }

    pub fn kind_cdylib(&self) -> (r: bool)
        ensures
            r == self.spec_kind(TargetKind::Cdylib),
    {
        kinds_contain(&self.kind, TargetKind::Cdylib)
    }

    pub fn kind_custom_build(&self) -> (r: bool)
        ensures
            r == self.spec_kind(TargetKind::CustomBuild),
    {
        kinds_contain(&self.kind, TargetKind::CustomBuild)
    }

    pub fn crate_lib(&self) -> (r: bool)
        ensures
            r == self.spec_crate(TargetKind::Lib),
    {
        kinds_contain(&self.crate_types, TargetKind::Lib)
    }

    pub fn crate_bin(&self) -> (r: bool)
        ensures
            r == self.spec_crate(TargetKind::Bin),
    {
        kinds_contain(&self.crate_types, TargetKind::Bin)
    }

    pub fn crate_proc_macro(&self) -> (r: bool)
        ensures
            r == self.spec_crate(TargetKind::ProcMacro),
    {
        kinds_contain(&self.crate_types, TargetKind::ProcMacro)
    }

    pub fn crate_cdylib(&self) -> (r: bool)
        ensures
            r == self.spec_crate(TargetKind::Cdylib),
    {
        kinds_contain(&self.crate_types, TargetKind::Cdylib)
    }
}

/// A resolved package: identity, version, location, its targets, and the
/// naming collaborator's answers for it.
#[derive(Debug, Clone)]
pub struct Manifest {
    /// Unique package id.
    pub id: String,
    /// Package name.
    pub name: String,
    /// Package version, in its textual form.
    pub version: String,
    /// Directory of the package manifest, relative to the third-party
    /// directory, with `/` separators.
    pub manifest_dir: String,
    /// License file named by the manifest, relative to the manifest
    /// directory, when there is one.
    pub license_file: Option<String>,
    /// Resolved default edition for the package.
    pub edition: Edition,
    /// The package's buildable targets.
    pub targets: Vec<ManifestTarget>,
    /// Whether the package is publicly exposed.
    pub is_public: bool,
    /// Whether the package is the synthetic aggregate root.
    pub is_root: bool,
    /// The public declaration name for the package.
    pub public_name: String,
    /// The private declaration name for the package.
    pub private_name: String,
    /// Whether the package has a library-kind dependency target, whose
    /// private name binaries of the package depend on.
    pub has_lib_target: bool,
}

} // verus!
