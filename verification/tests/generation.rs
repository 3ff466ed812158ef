//! End-to-end behavior of the generation library on concrete inputs.

use reindeer::buck::BuckPath;
use reindeer::buck::Name;
use reindeer::buck::Rule;
use reindeer::buck::RuleRef;
use reindeer::buck::Visibility;
use reindeer::buck::file_up_to_date;
use reindeer::buck::public_rule_names;
use reindeer::buck::write_buckfile;
use reindeer::buck::write_targets_file;
use reindeer::buckify::AttrItem;
use reindeer::buckify::FixupDep;
use reindeer::buckify::PackageInputs;
use reindeer::buckify::TargetFixups;
use reindeer::buckify::buckify;
use reindeer::buckify::generate_target_rules;
use reindeer::buckify::normalize_dotdot;
use reindeer::buckify::relative_path;
use reindeer::buckify::unzip_platform;
use reindeer::cargo::Edition;
use reindeer::cargo::Manifest;
use reindeer::cargo::ManifestTarget;
use reindeer::cargo::TargetKind;
use reindeer::config::Config;
use reindeer::config::read_config;
use reindeer::config::vendor_config_from_bool;
use reindeer::platform::PlatformConfig;
use reindeer::platform::PlatformExpr;
use reindeer::platform::PlatformName;
use reindeer::sorted::SortedMap;
use reindeer::sorted::SortedSet;

fn empty_fixups() -> TargetFixups {
    TargetFixups {
        omit_target: false,
        precise_srcs: false,
        python_ext: None,
        cmdline: Vec::new(),
        extra_srcs: Vec::new(),
        gen_srcs: Vec::new(),
        mapped_srcs: Vec::new(),
        features: Vec::new(),
        env: Vec::new(),
        deps: Vec::new(),
        link_style: Vec::new(),
        preferred_linkage: Vec::new(),
        emit_buildscript_binary: false,
        buildscript_extra: Vec::new(),
        license_files: Vec::new(),
    }
}

fn lib_target(name: &str, src: &str, edition: Option<Edition>) -> ManifestTarget {
    ManifestTarget {
        name: name.to_string(),
        src_path: src.to_string(),
        kind: vec![TargetKind::Lib],
        crate_types: vec![TargetKind::Lib],
        edition,
    }
}

fn package(id: &str, name: &str, public: bool, root: bool, targets: Vec<ManifestTarget>) -> Manifest {
    Manifest {
        id: id.to_string(),
        name: name.to_string(),
        version: "1.0.0".to_string(),
        manifest_dir: format!("{}/1.0.0", name),
        license_file: None,
        edition: Edition::Rust2021,
        targets,
        is_public: public,
        is_root: root,
        public_name: name.to_string(),
        private_name: format!("{}-1.0.0", name),
        has_lib_target: false,
    }
}

fn default_config() -> Config {
    read_config("third-party", None)
}

#[test]
fn scenario_old_edition_uses_fallback_glob() {
    // A library target whose edition predates precise detection gets
    // the single glob pattern, not a per-file list.
    let config = default_config();
    let pkg = package("p1", "foo", false, false, vec![lib_target(
        "foo",
        "foo/1.0.0/src/lib.rs",
        Some(Edition::Rust2015),
    )]);
    let mut fixups = empty_fixups();
    fixups.precise_srcs = true;
    let detected = vec!["foo/1.0.0/src/lib.rs".to_string(), "foo/1.0.0/src/m.rs".to_string()];
    let out = generate_target_rules(&config, "", &pkg, &pkg.targets[0], fixups, &detected)
        .expect("generation");
    let lib = out
        .0
        .iter()
        .find_map(|r| match r {
            Rule::Library(l) => Some(l),
            _ => None,
        })
        .expect("library rule");
    let srcs = lib.common.base.srcs.as_slice();
    assert_eq!(srcs.len(), 1);
    assert_eq!(srcs[0].0, "foo/1.0.0/src/**/*.rs");
}

#[test]
fn scenario_precise_srcs_normalized() {
    let config = default_config();
    let pkg = package("p1", "foo", false, false, vec![lib_target(
        "foo",
        "foo/1.0.0/src/lib.rs",
        Some(Edition::Rust2018),
    )]);
    let mut fixups = empty_fixups();
    fixups.precise_srcs = true;
    let detected = vec!["foo/1.0.0/src/a/../lib.rs".to_string()];
    let out = generate_target_rules(&config, "", &pkg, &pkg.targets[0], fixups, &detected)
        .expect("generation");
    let lib = out
        .0
        .iter()
        .find_map(|r| match r {
            Rule::Library(l) => Some(l),
            _ => None,
        })
        .expect("library rule");
    let srcs = lib.common.base.srcs.as_slice();
    assert_eq!(srcs.len(), 1);
    assert_eq!(srcs[0].0, "foo/1.0.0/src/lib.rs");
}

#[test]
fn scenario_public_package_gets_alias_and_private_library() {
    // Package is public and not the aggregate root: a public alias
    // forwards to the private library declaration.
    let config = default_config();
    let pkg = package("p1", "serde", true, false, vec![lib_target(
        "serde",
        "serde/1.0.0/src/lib.rs",
        None,
    )]);
    let out = generate_target_rules(&config, "", &pkg, &pkg.targets[0], empty_fixups(), &Vec::new())
        .expect("generation");
    assert_eq!(out.0.len(), 2);
    match &out.0[0] {
        Rule::Alias(a) => {
            assert_eq!(a.name.0, "serde");
            assert_eq!(a.actual.0, "serde-1.0.0");
            assert!(matches!(a.visibility, Visibility::Public));
        }
        other => panic!("expected alias, got {:?}", other),
    }
    match &out.0[1] {
        Rule::Library(l) => {
            assert_eq!(l.common.common.name.0, "serde-1.0.0");
            assert!(matches!(l.common.common.visibility, Visibility::Private));
        }
        other => panic!("expected library, got {:?}", other),
    }
}

#[test]
fn scenario_root_package_library_is_public_without_alias() {
    let config = default_config();
    let pkg = package("p1", "project", true, true, vec![lib_target(
        "project",
        "project/src/lib.rs",
        None,
    )]);
    let out = generate_target_rules(&config, "", &pkg, &pkg.targets[0], empty_fixups(), &Vec::new())
        .expect("generation");
    assert_eq!(out.0.len(), 1);
    match &out.0[0] {
        Rule::Library(l) => {
            assert_eq!(l.common.common.name.0, "project");
            assert!(matches!(l.common.common.visibility, Visibility::Public));
        }
        other => panic!("expected library, got {:?}", other),
    }
}

fn linux_config() -> Config {
    let mut config = default_config();
    config.platform = vec![
        (
            PlatformName("linux-x86_64".to_string()),
            PlatformConfig {
                satisfied: vec!["os=linux".to_string()],
                malformed: Vec::new(),
            },
        ),
        (
            PlatformName("linux-arm64".to_string()),
            PlatformConfig {
                satisfied: vec!["os=linux".to_string()],
                malformed: Vec::new(),
            },
        ),
        (
            PlatformName("macos".to_string()),
            PlatformConfig { satisfied: Vec::new(), malformed: Vec::new() },
        ),
    ];
    config
}

#[test]
fn scenario_platform_guarded_dependency_lands_in_linux_buckets() {
    // A dependency guarded by an expression satisfied by the two linux
    // platforms appears in both their buckets, and in neither the base
    // record nor the macos bucket.
    let config = linux_config();
    let pkg = package("p1", "foo", false, false, vec![lib_target(
        "foo",
        "foo/1.0.0/src/lib.rs",
        None,
    )]);
    let mut fixups = empty_fixups();
    let guarded = RuleRef::new("//third-party:dep".to_string())
        .with_platform(Some(&PlatformExpr("os=linux".to_string())));
    fixups.deps = vec![FixupDep { dep_package: None, dep: guarded, rename: None }];
    let out = generate_target_rules(&config, "", &pkg, &pkg.targets[0], fixups, &Vec::new())
        .expect("generation");
    let lib = out
        .0
        .iter()
        .find_map(|r| match r {
            Rule::Library(l) => Some(l),
            _ => None,
        })
        .expect("library rule");
    assert_eq!(lib.common.base.deps.as_slice().len(), 0);
    let plats = lib.common.platform.as_slice();
    assert_eq!(plats.len(), 2);
    assert_eq!(plats[0].0 .0, "linux-arm64");
    assert_eq!(plats[1].0 .0, "linux-x86_64");
    for (_, bucket) in plats.iter() {
        let deps = bucket.deps.as_slice();
        assert_eq!(deps.len(), 1);
        assert_eq!(deps[0].target, "//third-party:dep");
    }
}

#[test]
fn malformed_expression_reports_category_and_text() {
    let mut config = default_config();
    config.platform = vec![(
        PlatformName("linux".to_string()),
        PlatformConfig {
            satisfied: Vec::new(),
            malformed: vec!["os=(".to_string()],
        },
    )];
    let pkg = package("p1", "foo", false, false, vec![lib_target(
        "foo",
        "foo/1.0.0/src/lib.rs",
        None,
    )]);
    let mut fixups = empty_fixups();
    fixups.features = vec![(
        Some(PlatformExpr("os=(".to_string())),
        AttrItem::Features(vec!["alloc".to_string()]),
    )];
    let err = generate_target_rules(&config, "", &pkg, &pkg.targets[0], fixups, &Vec::new())
        .expect_err("generation must fail");
    assert_eq!(err.category, "features");
    assert_eq!(err.expr, "os=(");
}

#[test]
fn partition_untagged_goes_to_base_only() {
    let config = linux_config();
    let mut base = reindeer::buck::PlatformRustCommon::empty();
    let mut perplat: SortedMap<PlatformName, reindeer::buck::PlatformRustCommon> =
        SortedMap::new();
    let things = vec![(None, AttrItem::Features(vec!["std".to_string()]))];
    unzip_platform(&config, &mut base, &mut perplat, &things).expect("partition");
    assert_eq!(base.features.as_slice().len(), 1);
    assert_eq!(base.features.as_slice()[0], "std");
    assert_eq!(perplat.len(), 0);
}

#[test]
fn partition_tagged_goes_to_satisfying_buckets_only() {
    let config = linux_config();
    let mut base = reindeer::buck::PlatformRustCommon::empty();
    let mut perplat: SortedMap<PlatformName, reindeer::buck::PlatformRustCommon> =
        SortedMap::new();
    let things = vec![(
        Some(PlatformExpr("os=linux".to_string())),
        AttrItem::Features(vec!["epoll".to_string()]),
    )];
    unzip_platform(&config, &mut base, &mut perplat, &things).expect("partition");
    assert_eq!(base.features.as_slice().len(), 0);
    assert_eq!(perplat.len(), 2);
    let entries = perplat.as_slice();
    assert_eq!(entries[0].0 .0, "linux-arm64");
    assert_eq!(entries[1].0 .0, "linux-x86_64");
    for (_, bucket) in entries.iter() {
        assert_eq!(bucket.features.as_slice(), &["epoll".to_string()]);
    }
}

fn diamond_world() -> (Config, Vec<Manifest>, Vec<PackageInputs>) {
    let config = default_config();
    let dep = |target: &str| FixupDep {
        dep_package: Some("pc".to_string()),
        dep: RuleRef::new(target.to_string()),
        rename: None,
    };
    let pa = package("pa", "a", true, false, vec![lib_target("a", "a/1.0.0/src/lib.rs", None)]);
    let pb = package("pb", "b", true, false, vec![lib_target("b", "b/1.0.0/src/lib.rs", None)]);
    let pc = package("pc", "c", false, false, vec![lib_target("c", "c/1.0.0/src/lib.rs", None)]);
    let mut fa = empty_fixups();
    fa.deps = vec![dep(":c-1.0.0")];
    let mut fb = empty_fixups();
    fb.deps = vec![dep(":c-1.0.0")];
    let fc = empty_fixups();
    let inputs = vec![
        PackageInputs { fixups: vec![fa], detected_srcs: vec![Vec::new()] },
        PackageInputs { fixups: vec![fb], detected_srcs: vec![Vec::new()] },
        PackageInputs { fixups: vec![fc], detected_srcs: vec![Vec::new()] },
    ];
    (config, vec![pa, pb, pc], inputs)
}

#[test]
fn diamond_dependency_emits_shared_package_once() {
    // Two packages depend on the same third package: its declarations
    // appear exactly once, whatever the discovery order.
    let (config, packages, inputs) = diamond_world();
    let rules = buckify(&config, "", &packages, inputs).expect("walk");
    let text = write_buckfile(&config.buck, rules.as_slice());
    let needle = "name = \"c-1.0.0\"";
    let count = text.matches(needle).count();
    assert_eq!(count, 1, "shared package emitted once in:\n{}", text);
}

#[test]
fn walk_output_is_deterministic_and_order_independent() {
    // Byte-identical output on a second run, and on a permuted input
    // listing.
    let (config, packages, inputs) = diamond_world();
    let rules1 = buckify(&config, "", &packages, inputs).expect("walk");
    let text1 = write_buckfile(&config.buck, rules1.as_slice());

    let (config2, packages2, inputs2) = diamond_world();
    let rules2 = buckify(&config2, "", &packages2, inputs2).expect("walk");
    let text2 = write_buckfile(&config2.buck, rules2.as_slice());
    assert_eq!(text1, text2);

    // Permute the package listing; the declaration set and its order
    // are unchanged.
    let (config3, mut packages3, mut inputs3) = diamond_world();
    packages3.reverse();
    inputs3.reverse();
    let rules3 = buckify(&config3, "", &packages3, inputs3).expect("walk");
    let text3 = write_buckfile(&config3.buck, rules3.as_slice());
    assert_eq!(text1, text3);
}

#[test]
fn rewrite_is_suppressed_when_content_is_unchanged() {
    let content = "rust_library(\n    name = \"x\",\n)\n".to_string();
    let same = content.clone();
    assert!(file_up_to_date(Some(&same), &content));
    let different = "something else".to_string();
    assert!(!file_up_to_date(Some(&different), &content));
    assert!(!file_up_to_date(None, &content));
}

#[test]
fn public_names_listing_is_sorted_and_deduplicated() {
    let mk = |name: &str, public: bool| {
        Rule::Alias(reindeer::buck::Alias {
            name: Name(name.to_string()),
            actual: Name(format!("{}-priv", name)),
            visibility: if public { Visibility::Public } else { Visibility::Private },
        })
    };
    let rules = vec![mk("zeta", true), mk("alpha", true), mk("hidden", false), mk("alpha", true)];
    let names = public_rule_names(&rules);
    let texts: Vec<&str> = names.as_slice().iter().map(|s| s.as_str()).collect();
    assert_eq!(texts, vec!["alpha", "zeta"]);
    let listing = write_targets_file(&rules);
    assert_eq!(
        listing,
        "# \u{0040}generated by buckify\nRUST_TARGETS = [\"alpha\", \"zeta\"]\n"
    );
}

#[test]
fn config_defaults_apply_when_file_is_missing() {
    let config = read_config("some/dir", None);
    assert_eq!(config.config_path, "some/dir");
    assert_eq!(config.buck.file_name, "BUCK");
    assert_eq!(config.buck.rust_library, "rust_library");
    assert_eq!(config.buck.buildscript_genrule, "buildscript_run");
    assert!(config.buck.buildscript_binary.is_none());
    assert!(!config.precise_srcs);
    assert!(config.vendor.is_some());
}

#[test]
fn vendor_flag_decodes_to_default_or_nothing() {
    assert!(vendor_config_from_bool(true).is_some());
    assert!(vendor_config_from_bool(false).is_none());
}

#[test]
fn path_normalization_collapses_parent_segments() {
    assert_eq!(normalize_dotdot("a/b/../c"), "a/c");
    assert_eq!(normalize_dotdot("a/./b"), "a/b");
    assert_eq!(normalize_dotdot("a/b/c"), "a/b/c");
    // A leading parent segment swallows nothing, and is itself
    // swallowed by the next one, as the path library's pop does.
    assert_eq!(normalize_dotdot("../../x"), "x");
}

#[test]
fn relative_paths_step_up_then_down() {
    assert_eq!(relative_path("a/b/c", "a/b/d/e"), "../d/e");
    assert_eq!(relative_path("", "x/y"), "x/y");
    assert_eq!(relative_path("a/b", "a/b/c"), "c");
    assert_eq!(relative_path("x", "y"), "../y");
}

#[test]
fn buckpath_set_keeps_first_of_equal_keys() {
    let mut set: SortedSet<BuckPath> = SortedSet::new();
    set.insert(BuckPath("a.b".to_string()));
    // Splits to the same segments, so it compares equal and is dropped.
    set.insert(BuckPath("a:b".to_string()));
    set.insert(BuckPath("a/c".to_string()));
    let items: Vec<&str> = set.as_slice().iter().map(|p| p.0.as_str()).collect();
    assert_eq!(items, vec!["a.b", "a/c"]);
}

#[test]
fn default_platform_dependency_lands_in_base_record() {
    // A platform that satisfies the guard and is the designated
    // default folds the dependency into the base record; the others
    // get explicit buckets.
    let mut config = default_config();
    config.platform = vec![
        (
            PlatformName("DEFAULT".to_string()),
            PlatformConfig {
                satisfied: vec!["os=linux".to_string()],
                malformed: Vec::new(),
            },
        ),
        (
            PlatformName("linux-arm64".to_string()),
            PlatformConfig {
                satisfied: vec!["os=linux".to_string()],
                malformed: Vec::new(),
            },
        ),
    ];
    let pkg = package("p1", "foo", false, false, vec![lib_target(
        "foo",
        "foo/1.0.0/src/lib.rs",
        None,
    )]);
    let mut fixups = empty_fixups();
    let guarded = RuleRef::new(":dep".to_string())
        .with_platform(Some(&PlatformExpr("os=linux".to_string())));
    fixups.deps = vec![FixupDep { dep_package: None, dep: guarded, rename: None }];
    let out = generate_target_rules(&config, "", &pkg, &pkg.targets[0], fixups, &Vec::new())
        .expect("generation");
    let lib = out
        .0
        .iter()
        .find_map(|r| match r {
            Rule::Library(l) => Some(l),
            _ => None,
        })
        .expect("library rule");
    assert_eq!(lib.common.base.deps.as_slice().len(), 1);
    let plats = lib.common.platform.as_slice();
    assert_eq!(plats.len(), 1);
    assert_eq!(plats[0].0 .0, "linux-arm64");
    assert_eq!(plats[0].1.deps.as_slice().len(), 1);
}

#[test]
fn renamed_dependency_uses_the_named_map() {
    let config = default_config();
    let pkg = package("p1", "foo", false, false, vec![lib_target(
        "foo",
        "foo/1.0.0/src/lib.rs",
        None,
    )]);
    let mut fixups = empty_fixups();
    fixups.deps = vec![FixupDep {
        dep_package: None,
        dep: RuleRef::new(":serde-1.0.0".to_string()),
        rename: Some("serde_renamed".to_string()),
    }];
    let out = generate_target_rules(&config, "", &pkg, &pkg.targets[0], fixups, &Vec::new())
        .expect("generation");
    let lib = out
        .0
        .iter()
        .find_map(|r| match r {
            Rule::Library(l) => Some(l),
            _ => None,
        })
        .expect("library rule");
    assert_eq!(lib.common.base.deps.as_slice().len(), 0);
    let named = lib.common.base.named_deps.as_slice();
    assert_eq!(named.len(), 1);
    assert_eq!(named[0].0, "serde_renamed");
    assert_eq!(named[0].1.target, ":serde-1.0.0");
}

#[test]
fn public_binary_target_gets_alias_and_private_binary() {
    let config = default_config();
    let mut pkg = package("p1", "tool", true, false, vec![ManifestTarget {
        name: "cli".to_string(),
        src_path: "tool/1.0.0/src/main.rs".to_string(),
        kind: vec![TargetKind::Bin],
        crate_types: vec![TargetKind::Bin],
        edition: None,
    }]);
    pkg.has_lib_target = true;
    let out = generate_target_rules(&config, "", &pkg, &pkg.targets[0], empty_fixups(), &Vec::new())
        .expect("generation");
    assert_eq!(out.0.len(), 2);
    match &out.0[0] {
        Rule::Alias(a) => {
            assert_eq!(a.name.0, "tool-cli");
            assert_eq!(a.actual.0, "tool-1.0.0-cli");
            assert!(matches!(a.visibility, Visibility::Public));
        }
        other => panic!("expected alias, got {:?}", other),
    }
    match &out.0[1] {
        Rule::Binary(b) => {
            assert_eq!(b.common.common.name.0, "tool-1.0.0-cli");
            // The package has a library target, so the binary depends
            // on its private library.
            let deps = b.common.base.deps.as_slice();
            assert_eq!(deps.len(), 1);
            assert_eq!(deps[0].target, ":tool-1.0.0");
        }
        other => panic!("expected binary, got {:?}", other),
    }
}

#[test]
fn buildscript_policy_decides_what_a_script_emits() {
    let config = default_config();
    let pkg = package("p1", "foo", false, false, vec![ManifestTarget {
        name: "build-script-build".to_string(),
        src_path: "foo/1.0.0/build.rs".to_string(),
        kind: vec![TargetKind::CustomBuild],
        crate_types: vec![TargetKind::Bin],
        edition: None,
    }]);
    let mut fixups = empty_fixups();
    fixups.emit_buildscript_binary = true;
    let out = generate_target_rules(&config, "", &pkg, &pkg.targets[0], fixups, &Vec::new())
        .expect("generation");
    assert_eq!(out.0.len(), 1);
    match &out.0[0] {
        Rule::BuildscriptBinary(b) => {
            assert_eq!(b.common.common.name.0, "foo-1.0.0-build-script-build");
            assert_eq!(b.common.krate, "build_script_build");
            assert!(matches!(b.common.common.visibility, Visibility::Private));
        }
        other => panic!("expected buildscript binary, got {:?}", other),
    }

    // The policy can also drop the script entirely.
    let out2 = generate_target_rules(
        &config,
        "",
        &pkg,
        &pkg.targets[0],
        empty_fixups(),
        &Vec::new(),
    )
    .expect("generation");
    assert_eq!(out2.0.len(), 0);
}

#[test]
fn omitted_target_emits_nothing_and_traverses_nothing() {
    let config = default_config();
    let pkg = package("p1", "foo", true, false, vec![lib_target(
        "foo",
        "foo/1.0.0/src/lib.rs",
        None,
    )]);
    let mut fixups = empty_fixups();
    fixups.omit_target = true;
    fixups.deps = vec![FixupDep {
        dep_package: Some("other".to_string()),
        dep: RuleRef::new(":other".to_string()),
        rename: None,
    }];
    let out = generate_target_rules(&config, "", &pkg, &pkg.targets[0], fixups, &Vec::new())
        .expect("generation");
    assert_eq!(out.0.len(), 0);
    assert_eq!(out.1.len(), 0);
}

#[test]
fn dependencies_are_pruned_through_ruleless_targets() {
    // A package with one library target and one skipped (bench-like)
    // target: the skipped target's dependency is not traversed through
    // it, so the dependency package is never materialized.
    let config = default_config();
    let lib_t = lib_target("a", "a/1.0.0/src/lib.rs", None);
    let skipped_t = ManifestTarget {
        name: "bench".to_string(),
        src_path: "a/1.0.0/benches/bench.rs".to_string(),
        kind: vec![TargetKind::Other],
        crate_types: vec![TargetKind::Bin],
        edition: None,
    };
    let pa = package("pa", "a", true, false, vec![lib_t, skipped_t]);
    let pc = package("pc", "c", false, false, vec![lib_target(
        "c",
        "c/1.0.0/src/lib.rs",
        None,
    )]);
    let fa_lib = empty_fixups();
    let mut fa_bench = empty_fixups();
    fa_bench.deps = vec![FixupDep {
        dep_package: Some("pc".to_string()),
        dep: RuleRef::new(":c-1.0.0".to_string()),
        rename: None,
    }];
    let inputs = vec![
        PackageInputs {
            fixups: vec![fa_lib, fa_bench],
            detected_srcs: vec![Vec::new(), Vec::new()],
        },
        PackageInputs { fixups: vec![empty_fixups()], detected_srcs: vec![Vec::new()] },
    ];
    let rules = buckify(&config, "", &vec![pa, pc], inputs).expect("walk");
    let text = write_buckfile(&config.buck, rules.as_slice());
    assert!(
        !text.contains("name = \"c-1.0.0\""),
        "the skipped target's dependency must not be materialized:\n{}",
        text
    );
}

#[test]
fn control_characters_are_escaped_in_rendered_text() {
    let config = default_config();
    let rule = Rule::Alias(reindeer::buck::Alias {
        name: Name("a\tb\rc".to_string()),
        actual: Name("x".to_string()),
        visibility: Visibility::Private,
    });
    let text = rule.render(&config.buck);
    assert!(text.contains("name = \"a\\tb\\rc\""));
}

#[test]
fn rendered_dependency_lists_order_local_refs_first() {
    // In a dependency set, local references come first, then qualified
    // references, then anything else.
    let config = default_config();
    let pkg = package("p1", "foo", false, false, vec![lib_target(
        "foo",
        "foo/1.0.0/src/lib.rs",
        None,
    )]);
    let mut fixups = empty_fixups();
    let dep = |t: &str| FixupDep {
        dep_package: None,
        dep: RuleRef::new(t.to_string()),
        rename: None,
    };
    fixups.deps = vec![dep("zzz"), dep("//q:r"), dep(":loc")];
    let out = generate_target_rules(&config, "", &pkg, &pkg.targets[0], fixups, &Vec::new())
        .expect("generation");
    let lib = out
        .0
        .iter()
        .find_map(|r| match r {
            Rule::Library(l) => Some(l),
            _ => None,
        })
        .expect("library rule");
    let deps: Vec<&str> = lib.common.base.deps.as_slice().iter().map(|d| d.target.as_str()).collect();
    assert_eq!(deps, vec![":loc", "//q:r", "zzz"]);
}
