//! Global third-party configuration.
//!
//! The configuration file is read and decoded outside this crate; the
//! decoded values arrive here as plain data. What this module owns is
//! the shape of the configuration, its defaults, and the rule that a
//! missing file means the default configuration.

use vstd::prelude::*;

use crate::platform::PlatformConfig;
use crate::platform::PlatformName;

verus! {

/// Configuration of the `cargo` collaborator.
#[derive(Debug, Clone)]
pub struct CargoConfig {
    /// Path to the cargo executable, when overridden.
    pub cargo: Option<String>,
    /// Always version vendored directories.
    pub versioned_dirs: bool,
    /// Support artifact dependencies.
    pub bindeps: bool,
}

/// Names of the build file and of the rules used in it.
#[derive(Debug, Clone)]
pub struct BuckConfig {
    /// Name of the generated build file.
    pub file_name: String,
    /// Banner for the top of all generated files.
    pub generated_file_header: String,
    /// Front matter for the generated build file.
    pub buckfile_imports: String,
    /// Rule name for an alias.
    pub alias: String,
    /// Rule name for a remote archive fetch.
    pub http_archive: String,
    /// Rule name for a library.
    pub rust_library: String,
    /// Rule name for a binary.
    pub rust_binary: String,
    /// Rule name for a native library.
    pub cxx_library: String,
    /// Rule name for a prebuilt native library.
    pub prebuilt_cxx_library: String,
    /// Rule name for the binary of a build script, when it differs from
    /// the plain binary rule.
    pub buildscript_binary: Option<String>,
    /// Rule name for a build script invocation.
    pub buildscript_genrule: String,
    /// Name of the public-targets listing file, when one is written.
    pub targets_name: Option<String>,
}

/// What a `BuckConfig` holds when the configuration does not say
/// otherwise.
pub open spec fn spec_default_buck_config(c: BuckConfig) -> bool {
    &&& c.file_name@ == "BUCK"@
    &&& c.generated_file_header@ == Seq::<char>::empty()
    &&& c.buckfile_imports@ == Seq::<char>::empty()
    &&& c.alias@ == "alias"@
    &&& c.http_archive@ == "http_archive"@
    &&& c.rust_library@ == "rust_library"@
    &&& c.rust_binary@ == "rust_binary"@
    &&& c.cxx_library@ == "cxx_library"@
    &&& c.prebuilt_cxx_library@ == "prebuilt_cxx_library"@
    &&& c.buildscript_binary is None
    &&& c.buildscript_genrule@ == "buildscript_run"@
    &&& c.targets_name is None
}

impl Default for BuckConfig {
    fn default() -> (r: Self)
        ensures
            spec_default_buck_config(r),
    {
        BuckConfig {
            file_name: String::from_str("BUCK"),
            generated_file_header: String::new(),
            buckfile_imports: String::new(),
            alias: String::from_str("alias"),
            http_archive: String::from_str("http_archive"),
            rust_library: String::from_str("rust_library"),
            rust_binary: String::from_str("rust_binary"),
            cxx_library: String::from_str("cxx_library"),
            prebuilt_cxx_library: String::from_str("prebuilt_cxx_library"),
            buildscript_binary: Option::None,
            buildscript_genrule: String::from_str("buildscript_run"),
            targets_name: Option::None,
        }
    }
}

/// The default name of the generated build file.
pub fn default_buck_file_name() -> (r: String)
    ensures
        r@ == "BUCK"@,
{
    String::from_str("BUCK")
}

/// The default rule name for an alias.
pub fn default_alias() -> (r: String)
    ensures
        r@ == "alias"@,
{
    String::from_str("alias")
}

/// The default rule name for a remote archive fetch.
pub fn default_http_archive() -> (r: String)
    ensures
        r@ == "http_archive"@,
{
    String::from_str("http_archive")
}

/// The default rule name for a library.
pub fn default_rust_library() -> (r: String)
    ensures
        r@ == "rust_library"@,
{
    String::from_str("rust_library")
}

/// The default rule name for a binary.
pub fn default_rust_binary() -> (r: String)
    ensures
        r@ == "rust_binary"@,
{
    String::from_str("rust_binary")
}

/// The default rule name for a native library.
pub fn default_cxx_library() -> (r: String)
    ensures
        r@ == "cxx_library"@,
{
    String::from_str("cxx_library")
}

/// The default rule name for a prebuilt native library.
pub fn default_prebuilt_cxx_library() -> (r: String)
    ensures
        r@ == "prebuilt_cxx_library"@,
{
    String::from_str("prebuilt_cxx_library")
}

/// The default rule name for a build script invocation.
pub fn default_buildscript_genrule() -> (r: String)
    ensures
        r@ == "buildscript_run"@,
{
    String::from_str("buildscript_run")
}

/// Configuration of vendored-source checksum filtering.
#[derive(Debug, Clone)]
pub struct VendorConfig {
    /// Ignore files used to filter checksum files.
    pub gitignore_checksum_exclude: Vec<String>,
    /// Globs removed from checksum files in vendored directories.
    pub checksum_exclude: Vec<String>,
}

/// Configuration of the audit command.
#[derive(Debug, Clone)]
pub struct AuditConfig {
    /// Package names never autofixed.
    pub never_autofix: Vec<String>,
}

/// Vendoring is on by default, with an empty filter configuration.
pub fn default_vendor_config() -> (r: Option<VendorConfig>)
    ensures
        r matches Option::Some(v) && v.gitignore_checksum_exclude@.len() == 0
            && v.checksum_exclude@.len() == 0,
{
    Option::Some(
        VendorConfig { gitignore_checksum_exclude: Vec::new(), checksum_exclude: Vec::new() },
    )
}

/// `vendor = true` means the default vendoring configuration;
/// `vendor = false` means no vendoring.
pub fn vendor_config_from_bool(value: bool) -> (r: Option<VendorConfig>)
    ensures
        value ==> (r matches Option::Some(v) && v.gitignore_checksum_exclude@.len() == 0
            && v.checksum_exclude@.len() == 0),
        !value ==> r is None,
{
    if value {
        default_vendor_config()
    } else {
        Option::None
    }
}

/// The whole configuration of one generation run.
#[derive(Debug, Clone)]
pub struct Config {
    /// Directory the configuration was read from.
    pub config_path: String,
    /// Default flags applied to all rules.
    pub rustc_flags: Vec<String>,
    /// Platform-specific compiler flags, by platform name.
    pub platform_rustc_flags: Vec<(PlatformName, Vec<String>)>,
    /// Try to compute a precise list of sources rather than globbing.
    pub precise_srcs: bool,
    /// Glob patterns for filenames likely to contain license terms.
    pub license_patterns: Vec<String>,
    /// Generate fixup file templates when missing.
    pub fixup_templates: bool,
    /// Fail generation when there are unresolved fixups.
    pub unresolved_fixup_error: bool,
    /// Additional information shown for unresolved fixup errors.
    pub unresolved_fixup_error_message: Option<String>,
    /// Path to the cell root, when given.
    pub buck_cell_root: Option<String>,
    /// Include the root package as a top-level public target.
    pub include_top_level: bool,
    /// Emit a metadata file for each package.
    pub emit_metadata: bool,
    /// Use strict glob matching.
    pub strict_globs: bool,
    /// Path to the external formatter the generated file is piped
    /// through, when one is configured.
    pub buildifier_path: Option<String>,
    pub cargo: CargoConfig,
    pub buck: BuckConfig,
    pub vendor: Option<VendorConfig>,
    pub audit: AuditConfig,
    /// The configured platforms with their evaluation data.
    pub platform: Vec<(PlatformName, PlatformConfig)>,
}

/// What a `Config` holds when no configuration file is present; the
/// path it was read from is not part of this.
pub open spec fn spec_default_config(c: Config) -> bool {
    &&& c.rustc_flags@.len() == 0
    &&& c.platform_rustc_flags@.len() == 0
    &&& !c.precise_srcs
    &&& c.license_patterns@.len() == 0
    &&& !c.fixup_templates
    &&& !c.unresolved_fixup_error
    &&& c.unresolved_fixup_error_message is None
    &&& c.buck_cell_root is None
    &&& !c.include_top_level
    &&& !c.emit_metadata
    &&& !c.strict_globs
    &&& c.buildifier_path is None
    &&& c.cargo.cargo is None
    &&& !c.cargo.versioned_dirs
    &&& !c.cargo.bindeps
    &&& spec_default_buck_config(c.buck)
    &&& (c.vendor matches Option::Some(v) && v.gitignore_checksum_exclude@.len() == 0
        && v.checksum_exclude@.len() == 0)
    &&& c.audit.never_autofix@.len() == 0
    &&& c.platform@.len() == 0
}

impl Default for Config {
    fn default() -> (r: Self)
        ensures
            spec_default_config(r),
            r.config_path@ == Seq::<char>::empty(),
    {
        Config {
            config_path: String::new(),
            rustc_flags: Vec::new(),
            platform_rustc_flags: Vec::new(),
            precise_srcs: false,
            license_patterns: Vec::new(),
            fixup_templates: false,
            unresolved_fixup_error: false,
            unresolved_fixup_error_message: Option::None,
            buck_cell_root: Option::None,
            include_top_level: false,
            emit_metadata: false,
            strict_globs: false,
            buildifier_path: Option::None,
            cargo: CargoConfig { cargo: Option::None, versioned_dirs: false, bindeps: false },
            buck: BuckConfig::default(),
            vendor: default_vendor_config(),
            audit: AuditConfig { never_autofix: Vec::new() },
            platform: Vec::new(),
        }
    }
}

/// Finish reading the configuration for a directory: a decoded file
/// gives its values; a missing file gives the defaults. Either way the
/// directory is recorded as the configuration's path.
pub fn read_config(dir: &str, decoded: Option<Config>) -> (r: Config)
    ensures
        r.config_path@ == dir@,
        decoded matches Option::Some(c) ==> {
            &&& r.rustc_flags == c.rustc_flags
            &&& r.platform_rustc_flags == c.platform_rustc_flags
            &&& r.precise_srcs == c.precise_srcs
            &&& r.license_patterns == c.license_patterns
            &&& r.fixup_templates == c.fixup_templates
            &&& r.unresolved_fixup_error == c.unresolved_fixup_error
            &&& r.unresolved_fixup_error_message == c.unresolved_fixup_error_message
            &&& r.buck_cell_root == c.buck_cell_root
            &&& r.include_top_level == c.include_top_level
            &&& r.emit_metadata == c.emit_metadata
            &&& r.strict_globs == c.strict_globs
            &&& r.buildifier_path == c.buildifier_path
            &&& r.cargo == c.cargo
            &&& r.buck == c.buck
            &&& r.vendor == c.vendor
            &&& r.audit == c.audit
            &&& r.platform == c.platform
        },
        decoded is None ==> spec_default_config(r),
{
    let mut config = match decoded {
        Option::Some(c) => c,
        Option::None => Config::default(),
    };
    config.config_path = crate::strutil::clone_string_ref(dir);
    config
}

} // verus!
