//! Rendering, ordering and override-configuration behavior on concrete
//! values.

use reindeer::buck::Alias;
use reindeer::buck::HttpArchive;
use reindeer::buck::Name;
use reindeer::buck::Rule;
use reindeer::buck::Visibility;
use reindeer::buck::write_buckfile;
use reindeer::config::read_config;
use reindeer::fixups::FixupConfig;
use reindeer::fixups::FixupConfigFile;
use reindeer::fixups::BuildscriptFixup;
use reindeer::order::buildifier_cmp;
use reindeer::cargo::Edition;
use reindeer::sorted::SortedSet;
use std::cmp::Ordering;

fn alias(name: &str, actual: &str, vis: Visibility) -> Rule {
    Rule::Alias(Alias {
        name: Name(name.to_string()),
        actual: Name(actual.to_string()),
        visibility: vis,
    })
}

#[test]
fn alias_renders_exactly() {
    let config = read_config("", None);
    let rule = alias("foo", "foo-1.0.0", Visibility::Public);
    let text = rule.render(&config.buck);
    assert_eq!(
        text,
        "alias(\n    name = \"foo\",\n    actual = \":foo-1.0.0\",\n    visibility = [\"PUBLIC\"],\n)\n"
    );
}

#[test]
fn private_visibility_renders_as_empty_list() {
    let config = read_config("", None);
    let rule = alias("x", "y", Visibility::Private);
    let text = rule.render(&config.buck);
    assert!(text.contains("visibility = [],\n"));
}

#[test]
fn empty_collections_are_omitted_from_rendered_declarations() {
    let config = read_config("", None);
    let rule = Rule::HttpArchive(HttpArchive {
        name: Name("pkg.crate".to_string()),
        sha256: "abc123".to_string(),
        strip_prefix: "pkg-1.0.0".to_string(),
        sub_targets: SortedSet::new(),
        urls: vec!["https://example.invalid/pkg.tar.gz".to_string()],
        visibility: Visibility::Private,
        sort_key: Name("pkg".to_string()),
    });
    let text = rule.render(&config.buck);
    assert!(!text.contains("sub_targets"));
    assert!(text.contains("sha256 = \"abc123\""));
    assert!(text.contains("urls = [\"https://example.invalid/pkg.tar.gz\"]"));
}

#[test]
fn strings_are_escaped_in_rendered_text() {
    let config = read_config("", None);
    let rule = alias("a\"b", "c\\d", Visibility::Private);
    let text = rule.render(&config.buck);
    assert!(text.contains("name = \"a\\\"b\""));
    // The actual label renders as a path, so the backslash becomes a
    // forward slash only in paths; in a name it is escaped.
    assert!(text.contains("actual = \":c\\\\d\""));
}

#[test]
fn buildifier_order_puts_local_labels_first() {
    // Local references first, qualified references second, anything
    // else last.
    assert_eq!(buildifier_cmp(":aaa", "zzz"), Ordering::Less);
    assert_eq!(buildifier_cmp(":aaa", "//pkg:aaa"), Ordering::Less);
    assert_eq!(buildifier_cmp("//a:b", "plain"), Ordering::Less);
    assert_eq!(buildifier_cmp("plain", ":zzz"), Ordering::Greater);
}

#[test]
fn buildifier_order_compares_split_segments() {
    assert_eq!(buildifier_cmp("a.b", "a:b"), Ordering::Equal);
    assert_eq!(buildifier_cmp("a.b", "a.c"), Ordering::Less);
    assert_eq!(buildifier_cmp("a", "a.b"), Ordering::Less);
    assert_eq!(buildifier_cmp("b.a", "a.b"), Ordering::Greater);
}

#[test]
fn file_ordering_floats_fetches_up_and_sinks_the_root() {
    let config = read_config("", None);
    let lib = |name: &str| {
        let pkg_target = reindeer::cargo::ManifestTarget {
            name: name.to_string(),
            src_path: format!("{}/src/lib.rs", name),
            kind: vec![reindeer::cargo::TargetKind::Lib],
            crate_types: vec![reindeer::cargo::TargetKind::Lib],
            edition: Some(Edition::Rust2021),
        };
        let pkg = reindeer::cargo::Manifest {
            id: name.to_string(),
            name: name.to_string(),
            version: "1.0.0".to_string(),
            manifest_dir: name.to_string(),
            license_file: None,
            edition: Edition::Rust2021,
            targets: vec![pkg_target],
            is_public: false,
            is_root: false,
            public_name: name.to_string(),
            private_name: name.to_string(),
            has_lib_target: false,
        };
        let out = reindeer::buckify::generate_target_rules(
            &config,
            "",
            &pkg,
            &pkg.targets[0],
            reindeer::buckify::TargetFixups {
                omit_target: false,
                precise_srcs: false,
                python_ext: None,
                cmdline: Vec::new(),
                extra_srcs: Vec::new(),
                gen_srcs: Vec::new(),
                mapped_srcs: Vec::new(),
                features: Vec::new(),
                env: Vec::new(),
                deps: Vec::new(),
                link_style: Vec::new(),
                preferred_linkage: Vec::new(),
                emit_buildscript_binary: false,
                buildscript_extra: Vec::new(),
                license_files: Vec::new(),
            },
            &Vec::new(),
        )
        .expect("generation");
        out.0.into_iter().next().expect("rule")
    };
    let git = Rule::GitFetch(reindeer::buck::GitFetch {
        name: Name("zzz.git".to_string()),
        repo: "https://example.invalid/zzz".to_string(),
        rev: "0000".to_string(),
        visibility: Visibility::Private,
    });
    let mut set: SortedSet<Rule> = SortedSet::new();
    set.insert(lib("mmm"));
    set.insert(git);
    set.insert(lib("aaa"));
    let text = write_buckfile(&config.buck, set.as_slice());
    let git_at = text.find("git_fetch(").expect("git fetch present");
    let aaa_at = text.find("name = \"aaa\"").expect("aaa present");
    let mmm_at = text.find("name = \"mmm\"").expect("mmm present");
    assert!(git_at < aaa_at, "fetches float to the top:\n{}", text);
    assert!(aaa_at < mmm_at, "others sort by name:\n{}", text);
}

#[test]
fn blank_line_separates_consecutive_declarations() {
    let config = read_config("", None);
    let rules = vec![
        alias("a", "a1", Visibility::Private),
        alias("b", "b1", Visibility::Private),
    ];
    let text = write_buckfile(&config.buck, &rules);
    assert!(text.contains(")\n\nalias(\n"));
    assert!(text.ends_with(")\n"));
}

#[test]
fn header_and_imports_precede_declarations() {
    let mut config = read_config("", None);
    config.buck.generated_file_header = "# header".to_string();
    config.buck.buckfile_imports = "load(\"rules.bzl\", \"rust_library\")".to_string();
    let rules = vec![alias("a", "a1", Visibility::Private)];
    let text = write_buckfile(&config.buck, &rules);
    assert!(text.starts_with("# header\nload(\"rules.bzl\", \"rust_library\")\nalias(\n"));
}

#[test]
fn version_requirements_select_versions() {
    let mut fixup = FixupConfig {
        version: Some("^1.0".to_string()),
        extra_srcs: Vec::new(),
        src_referenced_dirs: Vec::new(),
        rustc_flags: Vec::new(),
        cfgs: Vec::new(),
        features: Vec::new(),
        omit_features: Vec::new(),
        extra_deps: Vec::new(),
        omit_deps: Vec::new(),
        cargo_env: false,
        overlay: None,
        link_style: None,
        preferred_linkage: None,
        env: Vec::new(),
        buildscript: reindeer::fixups::BuildscriptFixups(Vec::new()),
        extra_mapped_srcs: Vec::new(),
    };
    assert!(fixup.version_applies("1.2.3"));
    assert!(!fixup.version_applies("2.0.0"));
    assert!(!fixup.version_applies("not-a-version"));
    fixup.version = None;
    assert!(fixup.version_applies("anything"));
}

#[test]
fn template_names_the_script_and_its_dependencies() {
    let deps = vec!["libc-0.2.0".to_string(), "cc-1.0.0".to_string()];
    let t = FixupConfigFile::template("third-party", true, "third-party/foo/build.rs", &deps);
    assert_eq!(t.base.buildscript.0.len(), 1);
    let BuildscriptFixup::Unresolved(msg) = &t.base.buildscript.0[0];
    assert_eq!(
        msg,
        "Unresolved build script at foo/build.rs. Dependencies:\n    libc-0.2.0\n    cc-1.0.0"
    );
    let plain = FixupConfigFile::template("third-party", false, "x", &Vec::new());
    assert_eq!(plain.base.buildscript.0.len(), 0);
}

#[test]
fn override_records_filter_by_version() {
    let record = |ver: Option<&str>| FixupConfig {
        version: ver.map(|v| v.to_string()),
        extra_srcs: Vec::new(),
        src_referenced_dirs: Vec::new(),
        rustc_flags: Vec::new(),
        cfgs: Vec::new(),
        features: Vec::new(),
        omit_features: Vec::new(),
        extra_deps: Vec::new(),
        omit_deps: Vec::new(),
        cargo_env: false,
        overlay: None,
        link_style: None,
        preferred_linkage: None,
        env: Vec::new(),
        buildscript: reindeer::fixups::BuildscriptFixups(Vec::new()),
        extra_mapped_srcs: Vec::new(),
    };
    let file = FixupConfigFile {
        custom_visibility: None,
        omit_targets: Vec::new(),
        precise_srcs: None,
        python_ext: None,
        base: record(None),
        platform_fixup: vec![
            (
                reindeer::platform::PlatformExpr("os=linux".to_string()),
                record(Some("^1.0")),
            ),
            (
                reindeer::platform::PlatformExpr("os=macos".to_string()),
                record(Some("^2.0")),
            ),
        ],
    };
    let applying = file.platform_configs("1.5.0");
    assert_eq!(applying.len(), 1);
    assert_eq!(applying[0].0 .0, "os=linux");
    let all = file.configs("1.5.0");
    assert_eq!(all.len(), 2);
    assert!(all[0].0.is_none());
    assert_eq!(all[1].0.unwrap().0, "os=linux");
}

#[test]
fn overlay_files_are_relative_to_the_overlay_root() {
    let mut c = FixupConfig {
        version: None,
        extra_srcs: Vec::new(),
        src_referenced_dirs: Vec::new(),
        rustc_flags: Vec::new(),
        cfgs: Vec::new(),
        features: Vec::new(),
        omit_features: Vec::new(),
        extra_deps: Vec::new(),
        omit_deps: Vec::new(),
        cargo_env: false,
        overlay: Some("overlay".to_string()),
        link_style: None,
        preferred_linkage: None,
        env: Vec::new(),
        buildscript: reindeer::fixups::BuildscriptFixups(Vec::new()),
        extra_mapped_srcs: Vec::new(),
    };
    let walked = vec![
        "fixups/foo/overlay/src/lib.rs".to_string(),
        "fixups/foo/overlay/Cargo.toml".to_string(),
    ];
    let rel = c.overlay_files("fixups/foo", &walked);
    assert_eq!(rel, vec!["src/lib.rs".to_string(), "Cargo.toml".to_string()]);
    c.overlay = None;
    assert_eq!(c.overlay_files("fixups/foo", &walked).len(), 0);
}

#[test]
fn edition_texts_match_their_years() {
    assert_eq!(Edition::Rust2015.as_str(), "2015");
    assert_eq!(Edition::Rust2018.as_str(), "2018");
    assert_eq!(Edition::Rust2021.as_str(), "2021");
    assert_eq!(Edition::Rust2024.as_str(), "2024");
    assert!(!Edition::Rust2015.precise_capable());
    assert!(Edition::Rust2018.precise_capable());
}
