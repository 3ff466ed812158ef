//! The load-bearing properties of the library, stated and proved in one
//! place: determinism of the rendered bytes, independence from
//! discovery order, one declaration per sort key, the platform
//! partition law, and the omission law.

use vstd::prelude::*;

use crate::buck::Rule;
use crate::render::AField;
use crate::render::GField;
use crate::render::GVal;
use crate::render::spec_aval_empty;
use crate::render::spec_gval_empty;
use crate::render::spec_gstep;
use crate::render::spec_astep;
use crate::render::spec_prc_afields;
use crate::render::spec_platforms_view;
use crate::sorted::SortKey;
use crate::sorted::sorted_strict;

verus! {

/// Rendering is a function of the declarations and the configuration:
/// two runs over the same declarations produce byte-identical output.
pub proof fn lemma_buckfile_deterministic(
    config: crate::config::BuckConfig,
    rules: Seq<Rule>,
    out1: Seq<char>,
    out2: Seq<char>,
)
    requires
        out1 == crate::buck::spec_buckfile_text(config, rules),
        out2 == crate::buck::spec_buckfile_text(config, rules),
    ensures
        out1 == out2,
{
}

/// The serialized order does not depend on the order declarations were
/// discovered or inserted: a strictly sorted declaration list is
/// determined by the set of its elements, and so are its rendered
/// bytes.
pub proof fn lemma_order_independent(
    config: crate::config::BuckConfig,
    a: Seq<Rule>,
    b: Seq<Rule>,
)
    requires
        sorted_strict(a),
        sorted_strict(b),
        a.to_set() == b.to_set(),
    ensures
        a == b,
        crate::buck::spec_buckfile_text(config, a) == crate::buck::spec_buckfile_text(config, b),
{
    crate::sorted::lemma_sorted_unique(a, b);
}

/// A strictly sorted declaration list holds at most one declaration per
/// sort key: a shared package contributes one set of declarations,
/// however many dependency paths reach it.
pub proof fn lemma_one_declaration_per_key(rules: Seq<Rule>, i: int, j: int)
    requires
        sorted_strict(rules),
        0 <= i < j < rules.len(),
    ensures
        crate::buck::spec_rule_cmp(rules[i], rules[j]) != core::cmp::Ordering::Equal,
        rules[i] != rules[j],
{
    assert(rules[i].key_cmp(&rules[j]) == core::cmp::Ordering::Less);
    crate::sorted::lemma_sorted_distinct(rules, i, j);
}

/// The partition law, untagged half: a batch with no platform
/// expression folds into the base record only; no per-platform bucket
/// changes.
pub proof fn lemma_partition_untagged(
    platforms: Seq<(crate::platform::PlatformName, crate::platform::PlatformConfig)>,
    base: crate::buckify::PrcView,
    per: Seq<(crate::platform::PlatformName, crate::buckify::PrcView)>,
    item: crate::buckify::AttrView,
)
    ensures
        crate::buckify::spec_unzip(
            platforms,
            base,
            per,
            seq![(Option::<crate::platform::PlatformExpr>::None, item)],
        ) == Result::<
            (
                crate::buckify::PrcView,
                Seq<(crate::platform::PlatformName, crate::buckify::PrcView)>,
            ),
            crate::platform::PlatformExpr,
        >::Ok((crate::buckify::spec_fold_attr(base, item), per)),
{
    let things = seq![(Option::<crate::platform::PlatformExpr>::None, item)];
    assert(things.drop_first() =~= Seq::<
        (Option<crate::platform::PlatformExpr>, crate::buckify::AttrView),
    >::empty());
    reveal_with_fuel(crate::buckify::spec_unzip, 3);
}

/// The partition law, tagged half: a batch tagged with a well-formed
/// expression leaves the base record unchanged and folds into the
/// buckets of exactly the platform names satisfying the expression.
pub proof fn lemma_partition_tagged(
    platforms: Seq<(crate::platform::PlatformName, crate::platform::PlatformConfig)>,
    base: crate::buckify::PrcView,
    per: Seq<(crate::platform::PlatformName, crate::buckify::PrcView)>,
    e: crate::platform::PlatformExpr,
    item: crate::buckify::AttrView,
)
    requires
        !crate::buckify::spec_expr_malformed(platforms, e.0@),
    ensures
        crate::buckify::spec_unzip(
            platforms,
            base,
            per,
            seq![(Option::Some(e), item)],
        ) == Result::<
            (
                crate::buckify::PrcView,
                Seq<(crate::platform::PlatformName, crate::buckify::PrcView)>,
            ),
            crate::platform::PlatformExpr,
        >::Ok(
            (
                base,
                crate::buckify::spec_apply_names(
                    per,
                    crate::buckify::spec_expr_names(platforms, e.0@),
                    item,
                ),
            ),
        ),
{
    let things = seq![(Option::Some(e), item)];
    assert(things.drop_first() =~= Seq::<
        (Option<crate::platform::PlatformExpr>, crate::buckify::AttrView),
    >::empty());
    reveal_with_fuel(crate::buckify::spec_unzip, 3);
}

/// The untagged batches of a stream, folded in order into the base
/// record.
pub open spec fn spec_fold_untagged(
    base: crate::buckify::PrcView,
    things: Seq<(Option<crate::platform::PlatformExpr>, crate::buckify::AttrView)>,
) -> crate::buckify::PrcView
    decreases things.len(),
{
    if things.len() == 0 {
        base
    } else {
        match things[0].0 {
            Option::None => spec_fold_untagged(
                crate::buckify::spec_fold_attr(base, things[0].1),
                things.drop_first(),
            ),
            Option::Some(_) => spec_fold_untagged(base, things.drop_first()),
        }
    }
}

/// The partition law over a whole stream, base half: when partitioning
/// succeeds, the base record is the fold of exactly the stream's
/// untagged batches, in order — a tagged batch never folds into the
/// base record, whatever its expression expands to.
pub proof fn lemma_partition_stream_base(
    platforms: Seq<(crate::platform::PlatformName, crate::platform::PlatformConfig)>,
    base: crate::buckify::PrcView,
    per: Seq<(crate::platform::PlatformName, crate::buckify::PrcView)>,
    things: Seq<(Option<crate::platform::PlatformExpr>, crate::buckify::AttrView)>,
)
    requires
        crate::buckify::spec_unzip(platforms, base, per, things) is Ok,
    ensures
        crate::buckify::spec_unzip(platforms, base, per, things) matches Ok(st) && st.0
            == spec_fold_untagged(base, things),
    decreases things.len(),
{
    if things.len() > 0 {
        match things[0].0 {
            Option::None => {
                lemma_partition_stream_base(
                    platforms,
                    crate::buckify::spec_fold_attr(base, things[0].1),
                    per,
                    things.drop_first(),
                );
            },
            Option::Some(e) => {
                lemma_partition_stream_base(
                    platforms,
                    base,
                    crate::buckify::spec_apply_names(
                        per,
                        crate::buckify::spec_expr_names(platforms, e.0@),
                        things[0].1,
                    ),
                    things.drop_first(),
                );
            },
        }
    }
}

/// The names a well-formed expression expands to are exactly the
/// configured platforms that satisfy it.
pub proof fn lemma_expr_names_exact(
    platforms: Seq<(crate::platform::PlatformName, crate::platform::PlatformConfig)>,
    e: Seq<char>,
    n: crate::platform::PlatformName,
)
    ensures
        crate::buckify::spec_expr_names(platforms, e).contains(n) <==> exists|i: int|
            0 <= i < platforms.len() && (#[trigger] platforms[i]).0 == n
                && crate::platform::spec_satisfies(platforms[i].1, e),
    decreases platforms.len(),
{
    let names = crate::buckify::spec_expr_names(platforms, e);
    if platforms.len() == 0 {
        assert(!names.contains(n));
    } else {
        lemma_expr_names_exact(platforms.drop_last(), e, n);
        let rest = crate::buckify::spec_expr_names(platforms.drop_last(), e);
        if crate::platform::spec_satisfies(platforms.last().1, e) {
            assert(names =~= rest.push(platforms.last().0));
            if names.contains(n) {
                let k = choose|k: int| 0 <= k < names.len() && names[k] == n;
                if k < rest.len() {
                    assert(rest.contains(n));
                    let i = choose|i: int|
                        0 <= i < platforms.drop_last().len() && (#[trigger] platforms.drop_last()[
                            i]).0 == n && crate::platform::spec_satisfies(
                            platforms.drop_last()[i].1,
                            e,
                        );
                    assert(platforms[i] == platforms.drop_last()[i]);
                } else {
                    assert(platforms[platforms.len() - 1].0 == n);
                }
            }
            if exists|i: int|
                0 <= i < platforms.len() && (#[trigger] platforms[i]).0 == n
                    && crate::platform::spec_satisfies(platforms[i].1, e) {
                let i = choose|i: int|
                    0 <= i < platforms.len() && (#[trigger] platforms[i]).0 == n
                        && crate::platform::spec_satisfies(platforms[i].1, e);
                if i < platforms.len() - 1 {
                    assert(platforms.drop_last()[i] == platforms[i]);
                    assert(rest.contains(n));
                    let k = choose|k: int| 0 <= k < rest.len() && rest[k] == n;
                    assert(names[k] == n);
                } else {
                    assert(names[names.len() - 1] == n);
                }
            }
        } else {
            assert(names =~= rest);
            if names.contains(n) {
                let i = choose|i: int|
                    0 <= i < platforms.drop_last().len() && (#[trigger] platforms.drop_last()[
                        i]).0 == n && crate::platform::spec_satisfies(
                        platforms.drop_last()[i].1,
                        e,
                    );
                assert(platforms[i] == platforms.drop_last()[i]);
            }
            if exists|i: int|
                0 <= i < platforms.len() && (#[trigger] platforms[i]).0 == n
                    && crate::platform::spec_satisfies(platforms[i].1, e) {
                let i = choose|i: int|
                    0 <= i < platforms.len() && (#[trigger] platforms[i]).0 == n
                        && crate::platform::spec_satisfies(platforms[i].1, e);
                if i < platforms.len() - 1 {
                    assert(platforms.drop_last()[i] == platforms[i]);
                    assert(rest.contains(n));
                }
            }
        }
    }
}

/// The fan-out law, base half: a platform-guarded dependency whose
/// satisfying platforms do not include the designated default folds
/// into per-platform buckets only — the base record never changes.
pub proof fn lemma_fanout_nondefault_base(
    platforms: Seq<(crate::platform::PlatformName, crate::platform::PlatformConfig)>,
    st: crate::buckify::FanState,
    d: crate::buckify::FixupDep,
    e: Seq<char>,
)
    requires
        forall|k: int|
            0 <= k < platforms.len() && crate::platform::spec_satisfies(
                (#[trigger] platforms[k]).1,
                e,
            ) ==> platforms[k].0.0@ != crate::platform::DEFAULT_PLATFORM_NAME@,
    ensures
        crate::buckify::spec_fanout_plats(platforms, st, d, e) matches Ok(st2) ==> st2.base
            == st.base,
    decreases platforms.len(),
{
    if platforms.len() > 0 && !crate::platform::spec_malformed(platforms[0].1, e) {
        if crate::platform::spec_satisfies(platforms[0].1, e) {
            assert(platforms[0].0.0@ != crate::platform::DEFAULT_PLATFORM_NAME@);
            let st1 = crate::buckify::FanState {
                base: st.base,
                per: crate::buckify::spec_apply_plat(
                    st.per,
                    platforms[0].0,
                    crate::buckify::spec_dep_item(d),
                ),
                ids: crate::buckify::spec_push_id(st.ids, d),
            };
            assert forall|k: int|
                0 <= k < platforms.drop_first().len() && crate::platform::spec_satisfies(
                    (#[trigger] platforms.drop_first()[k]).1,
                    e,
                ) implies platforms.drop_first()[k].0.0@
                != crate::platform::DEFAULT_PLATFORM_NAME@ by {
                assert(platforms.drop_first()[k] == platforms[k + 1]);
            }
            lemma_fanout_nondefault_base(platforms.drop_first(), st1, d, e);
        } else {
            assert forall|k: int|
                0 <= k < platforms.drop_first().len() && crate::platform::spec_satisfies(
                    (#[trigger] platforms.drop_first()[k]).1,
                    e,
                ) implies platforms.drop_first()[k].0.0@
                != crate::platform::DEFAULT_PLATFORM_NAME@ by {
                assert(platforms.drop_first()[k] == platforms[k + 1]);
            }
            lemma_fanout_nondefault_base(platforms.drop_first(), st, d, e);
        }
    }
}

/// Every attribute line carries something.
pub open spec fn all_nonempty(fs: Seq<GField>) -> bool {
    forall|k: int| 0 <= k < fs.len() ==> !spec_gval_empty(#[trigger] fs[k].val)
}

/// Every group attribute line carries something.
pub open spec fn all_anonempty(fs: Seq<AField>) -> bool {
    forall|k: int| 0 <= k < fs.len() ==> !spec_aval_empty(#[trigger] fs[k].val)
}

/// The attribute lines of one per-platform group all carry something.
pub proof fn lemma_prc_afields_nonempty(p: crate::buck::PlatformRustCommon)
    ensures
        all_anonempty(spec_prc_afields(p)),
{
    assert(all_anonempty(Seq::<AField>::empty()));
}

/// The platform groups of a value all have nonempty attribute lines.
pub open spec fn plat_groups_nonempty(v: GVal) -> bool {
    match v {
        GVal::Platforms(es) => forall|m: int|
            0 <= m < es.len() ==> all_anonempty((#[trigger] es[m]).1),
        _ => true,
    }
}

/// The attribute lines a declaration renders with.
pub open spec fn spec_rule_fields(r: Rule) -> Seq<GField> {
    match r {
        Rule::Alias(a) => crate::render::spec_alias_fields(a),
        Rule::HttpArchive(h) => crate::render::spec_http_fields(h),
        Rule::GitFetch(g) => crate::render::spec_git_fields(g),
        Rule::Binary(b) => crate::render::spec_binary_fields(b),
        Rule::Library(l) => crate::render::spec_library_fields(l),
        Rule::BuildscriptBinary(b) => crate::render::spec_binary_fields(b),
        Rule::BuildscriptGenrule(g) => crate::render::spec_genrule_fields(g),
        Rule::CxxLibrary(c) => crate::render::spec_cxx_fields(c),
        Rule::PrebuiltCxxLibrary(p) => crate::render::spec_prebuilt_fields(p),
        Rule::RootPackage(l) => crate::render::spec_library_fields(l),
    }
}

#[verifier::rlimit(100)]
#[verifier::spinoff_prover]
pub proof fn lemma_alias_fields_ok(x: crate::buck::Alias)
    ensures
        all_nonempty(crate::render::spec_alias_fields(x)),
        forall|k: int|
            0 <= k < crate::render::spec_alias_fields(x).len() ==> plat_groups_nonempty(
                (#[trigger] crate::render::spec_alias_fields(x)[k]).val,
            ),
{
    assert(all_nonempty(crate::render::spec_alias_fields(x)));
    assert forall|k: int| 0 <= k < crate::render::spec_alias_fields(x).len() implies plat_groups_nonempty(
        (#[trigger] crate::render::spec_alias_fields(x)[k]).val,
    ) by {
    }
}

#[verifier::rlimit(100)]
#[verifier::spinoff_prover]
pub proof fn lemma_http_fields_ok(x: crate::buck::HttpArchive)
    ensures
        all_nonempty(crate::render::spec_http_fields(x)),
        forall|k: int|
            0 <= k < crate::render::spec_http_fields(x).len() ==> plat_groups_nonempty(
                (#[trigger] crate::render::spec_http_fields(x)[k]).val,
            ),
{
    assert(all_nonempty(crate::render::spec_http_fields(x)));
    assert forall|k: int| 0 <= k < crate::render::spec_http_fields(x).len() implies plat_groups_nonempty(
        (#[trigger] crate::render::spec_http_fields(x)[k]).val,
    ) by {
    }
}

#[verifier::rlimit(100)]
#[verifier::spinoff_prover]
pub proof fn lemma_git_fields_ok(x: crate::buck::GitFetch)
    ensures
        all_nonempty(crate::render::spec_git_fields(x)),
        forall|k: int|
            0 <= k < crate::render::spec_git_fields(x).len() ==> plat_groups_nonempty(
                (#[trigger] crate::render::spec_git_fields(x)[k]).val,
            ),
{
    assert(all_nonempty(crate::render::spec_git_fields(x)));
    assert forall|k: int| 0 <= k < crate::render::spec_git_fields(x).len() implies plat_groups_nonempty(
        (#[trigger] crate::render::spec_git_fields(x)[k]).val,
    ) by {
    }
}

pub proof fn lemma_library_fields_ok(x: crate::buck::RustLibrary)
    ensures
        all_nonempty(crate::render::spec_library_fields(x)),
        forall|k: int|
            0 <= k < crate::render::spec_library_fields(x).len() ==> plat_groups_nonempty(
                (#[trigger] crate::render::spec_library_fields(x)[k]).val,
            ),
{
    lemma_library_fields_chain(x);
}

pub proof fn lemma_binary_fields_ok(x: crate::buck::RustBinary)
    ensures
        all_nonempty(crate::render::spec_binary_fields(x)),
        forall|k: int|
            0 <= k < crate::render::spec_binary_fields(x).len() ==> plat_groups_nonempty(
                (#[trigger] crate::render::spec_binary_fields(x)[k]).val,
            ),
{
    lemma_binary_fields_chain(x);
}

#[verifier::rlimit(100)]
#[verifier::spinoff_prover]
pub proof fn lemma_genrule_fields_ok(x: crate::buck::BuildscriptGenrule)
    ensures
        all_nonempty(crate::render::spec_genrule_fields(x)),
        forall|k: int|
            0 <= k < crate::render::spec_genrule_fields(x).len() ==> plat_groups_nonempty(
                (#[trigger] crate::render::spec_genrule_fields(x)[k]).val,
            ),
{
    assert(all_nonempty(crate::render::spec_genrule_fields(x)));
    assert forall|k: int| 0 <= k < crate::render::spec_genrule_fields(x).len() implies plat_groups_nonempty(
        (#[trigger] crate::render::spec_genrule_fields(x)[k]).val,
    ) by {
    }
}

pub proof fn lemma_cxx_fields_ok(x: crate::buck::CxxLibrary)
    ensures
        all_nonempty(crate::render::spec_cxx_fields(x)),
        forall|k: int|
            0 <= k < crate::render::spec_cxx_fields(x).len() ==> plat_groups_nonempty(
                (#[trigger] crate::render::spec_cxx_fields(x)[k]).val,
            ),
{
    lemma_cxx_fields_chain(x);
}

#[verifier::rlimit(100)]
#[verifier::spinoff_prover]
pub proof fn lemma_prebuilt_fields_ok(x: crate::buck::PrebuiltCxxLibrary)
    ensures
        all_nonempty(crate::render::spec_prebuilt_fields(x)),
        forall|k: int|
            0 <= k < crate::render::spec_prebuilt_fields(x).len() ==> plat_groups_nonempty(
                (#[trigger] crate::render::spec_prebuilt_fields(x)[k]).val,
            ),
{
    assert(all_nonempty(crate::render::spec_prebuilt_fields(x)));
    assert forall|k: int| 0 <= k < crate::render::spec_prebuilt_fields(x).len() implies plat_groups_nonempty(
        (#[trigger] crate::render::spec_prebuilt_fields(x)[k]).val,
    ) by {
    }
}

/// The omission law: no rendered declaration contains an attribute
/// whose value is an empty collection or an absent optional, neither at
/// the top level nor inside a per-platform group.
pub proof fn lemma_omission(r: Rule)
    ensures
        all_nonempty(spec_rule_fields(r)),
        forall|k: int|
            0 <= k < spec_rule_fields(r).len() ==> plat_groups_nonempty(
                (#[trigger] spec_rule_fields(r)[k]).val,
            ),
{
    match r {
        Rule::Alias(a) => lemma_alias_fields_ok(a),
        Rule::HttpArchive(h) => lemma_http_fields_ok(h),
        Rule::GitFetch(g) => lemma_git_fields_ok(g),
        Rule::Binary(b) => lemma_binary_fields_ok(b),
        Rule::Library(l) => lemma_library_fields_ok(l),
        Rule::BuildscriptBinary(b) => lemma_binary_fields_ok(b),
        Rule::BuildscriptGenrule(g) => lemma_genrule_fields_ok(g),
        Rule::CxxLibrary(c) => lemma_cxx_fields_ok(c),
        Rule::PrebuiltCxxLibrary(p) => lemma_prebuilt_fields_ok(p),
        Rule::RootPackage(l) => lemma_library_fields_ok(l),
    }
}

/// Both halves of the omission law for one attribute list.
pub open spec fn good_fields(fs: Seq<GField>) -> bool {
    all_nonempty(fs) && forall|k: int|
        0 <= k < fs.len() ==> plat_groups_nonempty((#[trigger] fs[k]).val)
}

pub proof fn lemma_push_good(fs: Seq<GField>, f: GField)
    requires
        good_fields(fs),
        !spec_gval_empty(f.val),
        plat_groups_nonempty(f.val),
    ensures
        good_fields(fs.push(f)),
{
    assert forall|k: int| 0 <= k < fs.push(f).len() implies !spec_gval_empty(
        (#[trigger] fs.push(f)[k]).val,
    ) && plat_groups_nonempty(fs.push(f)[k].val) by {
        if k < fs.len() {
            assert(fs.push(f)[k] == fs[k]);
        } else {
            assert(fs.push(f)[k] == f);
        }
    }
}

pub proof fn lemma_gstep_good(fs: Seq<GField>, cond: bool, f: GField)
    requires
        good_fields(fs),
        cond ==> !spec_gval_empty(f.val) && plat_groups_nonempty(f.val),
    ensures
        good_fields(spec_gstep(fs, cond, f)),
{
    if cond {
        lemma_push_good(fs, f);
    }
}

#[verifier::rlimit(100)]
#[verifier::spinoff_prover]
proof fn lemma_library_fields_chain_head(x: crate::buck::RustLibrary)
    ensures
        good_fields(spec_gstep(spec_gstep(spec_gstep(spec_gstep((spec_gstep(((spec_gstep(spec_gstep((Seq::<GField>::empty()).push(GField { key: "name"@, val: GVal::Str(x.common.common.name.0@) }), crate::render::spec_paths_view(x.common.base.srcs@).len() > 0, GField { key: "srcs"@, val: GVal::Items(crate::render::spec_paths_view(x.common.base.srcs@)) }), crate::render::spec_refs_view(x.common.common.compatible_with@).len() > 0, GField { key: "compatible_with"@, val: GVal::Items(crate::render::spec_refs_view(x.common.common.compatible_with@)) })).push(GField { key: "crate"@, val: GVal::Str(x.common.krate@) })).push(GField { key: "crate_root"@, val: GVal::Str(crate::render::spec_slashes(x.common.crate_root.0@)) }), x.dlopen_enable, GField { key: "dlopen_enable"@, val: GVal::Flag(true) })).push(GField { key: "edition"@, val: GVal::Str(x.common.edition.spec_str()) }), crate::render::spec_env_view(x.common.base.env@).len() > 0, GField { key: "env"@, val: GVal::Entries(crate::render::spec_env_view(x.common.base.env@)) }), crate::render::spec_strs_view(x.common.base.features@).len() > 0, GField { key: "features"@, val: GVal::Items(crate::render::spec_strs_view(x.common.base.features@)) }), crate::render::spec_paths_view(x.common.common.licenses@).len() > 0, GField { key: "licenses"@, val: GVal::Items(crate::render::spec_paths_view(x.common.common.licenses@)) }), x.common.base.link_style is Some, GField { key: "link_style"@, val: GVal::Str((x.common.base.link_style->0)@) })),
{
    let fs = Seq::<GField>::empty();
    assert(good_fields(fs));
    let f = GField { key: "name"@, val: GVal::Str(x.common.common.name.0@) };
    lemma_push_good(fs, f);
    let fs = fs.push(f);
    let f = GField { key: "srcs"@, val: GVal::Items(crate::render::spec_paths_view(x.common.base.srcs@)) };
    let c = crate::render::spec_paths_view(x.common.base.srcs@).len() > 0;
    lemma_gstep_good(fs, c, f);
    let fs = spec_gstep(fs, c, f);
    let f = GField { key: "compatible_with"@, val: GVal::Items(crate::render::spec_refs_view(x.common.common.compatible_with@)) };
    let c = crate::render::spec_refs_view(x.common.common.compatible_with@).len() > 0;
    lemma_gstep_good(fs, c, f);
    let fs = spec_gstep(fs, c, f);
    let f = GField { key: "crate"@, val: GVal::Str(x.common.krate@) };
    lemma_push_good(fs, f);
    let fs = fs.push(f);
    let f = GField { key: "crate_root"@, val: GVal::Str(crate::render::spec_slashes(x.common.crate_root.0@)) };
    lemma_push_good(fs, f);
    let fs = fs.push(f);
    let f = GField { key: "dlopen_enable"@, val: GVal::Flag(true) };
    let c = x.dlopen_enable;
    lemma_gstep_good(fs, c, f);
    let fs = spec_gstep(fs, c, f);
    let f = GField { key: "edition"@, val: GVal::Str(x.common.edition.spec_str()) };
    lemma_push_good(fs, f);
    let fs = fs.push(f);
    let f = GField { key: "env"@, val: GVal::Entries(crate::render::spec_env_view(x.common.base.env@)) };
    let c = crate::render::spec_env_view(x.common.base.env@).len() > 0;
    lemma_gstep_good(fs, c, f);
    let fs = spec_gstep(fs, c, f);
    let f = GField { key: "features"@, val: GVal::Items(crate::render::spec_strs_view(x.common.base.features@)) };
    let c = crate::render::spec_strs_view(x.common.base.features@).len() > 0;
    lemma_gstep_good(fs, c, f);
    let fs = spec_gstep(fs, c, f);
    let f = GField { key: "licenses"@, val: GVal::Items(crate::render::spec_paths_view(x.common.common.licenses@)) };
    let c = crate::render::spec_paths_view(x.common.common.licenses@).len() > 0;
    lemma_gstep_good(fs, c, f);
    let fs = spec_gstep(fs, c, f);
    let f = GField { key: "link_style"@, val: GVal::Str((x.common.base.link_style->0)@) };
    let c = x.common.base.link_style is Some;
    lemma_gstep_good(fs, c, f);
    let fs = spec_gstep(fs, c, f);
}

#[verifier::rlimit(100)]
#[verifier::spinoff_prover]
pub proof fn lemma_library_fields_chain(x: crate::buck::RustLibrary)
    ensures
        good_fields(crate::render::spec_library_fields(x)),
{
    lemma_library_fields_chain_head(x);
    let fs = spec_gstep(spec_gstep(spec_gstep(spec_gstep((spec_gstep(((spec_gstep(spec_gstep((Seq::<GField>::empty()).push(GField { key: "name"@, val: GVal::Str(x.common.common.name.0@) }), crate::render::spec_paths_view(x.common.base.srcs@).len() > 0, GField { key: "srcs"@, val: GVal::Items(crate::render::spec_paths_view(x.common.base.srcs@)) }), crate::render::spec_refs_view(x.common.common.compatible_with@).len() > 0, GField { key: "compatible_with"@, val: GVal::Items(crate::render::spec_refs_view(x.common.common.compatible_with@)) })).push(GField { key: "crate"@, val: GVal::Str(x.common.krate@) })).push(GField { key: "crate_root"@, val: GVal::Str(crate::render::spec_slashes(x.common.crate_root.0@)) }), x.dlopen_enable, GField { key: "dlopen_enable"@, val: GVal::Flag(true) })).push(GField { key: "edition"@, val: GVal::Str(x.common.edition.spec_str()) }), crate::render::spec_env_view(x.common.base.env@).len() > 0, GField { key: "env"@, val: GVal::Entries(crate::render::spec_env_view(x.common.base.env@)) }), crate::render::spec_strs_view(x.common.base.features@).len() > 0, GField { key: "features"@, val: GVal::Items(crate::render::spec_strs_view(x.common.base.features@)) }), crate::render::spec_paths_view(x.common.common.licenses@).len() > 0, GField { key: "licenses"@, val: GVal::Items(crate::render::spec_paths_view(x.common.common.licenses@)) }), x.common.base.link_style is Some, GField { key: "link_style"@, val: GVal::Str((x.common.base.link_style->0)@) });
    let f = GField { key: "linkable_alias"@, val: GVal::Str((x.linkable_alias->0)@) };
    let c = x.linkable_alias is Some;
    lemma_gstep_good(fs, c, f);
    let fs = spec_gstep(fs, c, f);
    let f = GField { key: "mapped_srcs"@, val: GVal::Entries(crate::render::spec_mapped_view(x.common.base.mapped_srcs@)) };
    let c = crate::render::spec_mapped_view(x.common.base.mapped_srcs@).len() > 0;
    lemma_gstep_good(fs, c, f);
    let fs = spec_gstep(fs, c, f);
    let f = GField { key: "named_deps"@, val: GVal::Entries(crate::render::spec_named_view(x.common.base.named_deps@)) };
    let c = crate::render::spec_named_view(x.common.base.named_deps@).len() > 0;
    lemma_gstep_good(fs, c, f);
    let fs = spec_gstep(fs, c, f);
    assert forall|m: int| 0 <= m < spec_platforms_view(x.common.platform@).len() implies
        all_anonempty((#[trigger] spec_platforms_view(x.common.platform@)[m]).1) by {
        assert(spec_platforms_view(x.common.platform@)[m] == (
            x.common.platform@[m].0.0@,
            spec_prc_afields(x.common.platform@[m].1),
        ));
        lemma_prc_afields_nonempty(x.common.platform@[m].1);
    }
    let f = GField { key: "platform"@, val: GVal::Platforms(spec_platforms_view(x.common.platform@)) };
    let c = x.common.platform@.len() > 0;
    lemma_gstep_good(fs, c, f);
    let fs = spec_gstep(fs, c, f);
    let f = GField { key: "preferred_linkage"@, val: GVal::Str((x.common.base.preferred_linkage->0)@) };
    let c = x.common.base.preferred_linkage is Some;
    lemma_gstep_good(fs, c, f);
    let fs = spec_gstep(fs, c, f);
    let f = GField { key: "proc_macro"@, val: GVal::Flag(true) };
    let c = x.proc_macro;
    lemma_gstep_good(fs, c, f);
    let fs = spec_gstep(fs, c, f);
    let f = GField { key: "python_ext"@, val: GVal::Str((x.python_ext->0)@) };
    let c = x.python_ext is Some;
    lemma_gstep_good(fs, c, f);
    let fs = spec_gstep(fs, c, f);
    let f = GField { key: "rustc_flags"@, val: GVal::Items(crate::render::spec_strs_view(x.common.base.rustc_flags@)) };
    let c = crate::render::spec_strs_view(x.common.base.rustc_flags@).len() > 0;
    lemma_gstep_good(fs, c, f);
    let fs = spec_gstep(fs, c, f);
    let f = GField { key: "visibility"@, val: GVal::Vis(x.common.common.visibility) };
    lemma_push_good(fs, f);
    let fs = fs.push(f);
    let f = GField { key: "deps"@, val: GVal::Items(crate::render::spec_refs_view(x.common.base.deps@)) };
    let c = crate::render::spec_refs_view(x.common.base.deps@).len() > 0;
    lemma_gstep_good(fs, c, f);
    let fs = spec_gstep(fs, c, f);
    assert(crate::render::spec_library_fields(x) == fs);
}


#[verifier::rlimit(100)]
#[verifier::spinoff_prover]
pub proof fn lemma_binary_fields_chain(x: crate::buck::RustBinary)
    ensures
        good_fields(crate::render::spec_binary_fields(x)),
{
    assert forall|m: int| 0 <= m < spec_platforms_view(x.common.platform@).len() implies
        all_anonempty((#[trigger] spec_platforms_view(x.common.platform@)[m]).1) by {
        assert(spec_platforms_view(x.common.platform@)[m] == (
            x.common.platform@[m].0.0@,
            spec_prc_afields(x.common.platform@[m].1),
        ));
        lemma_prc_afields_nonempty(x.common.platform@[m].1);
    }
    let fs = Seq::<GField>::empty();
    assert(good_fields(fs));
    let f = GField { key: "name"@, val: GVal::Str(x.common.common.name.0@) };
    lemma_push_good(fs, f);
    let fs = fs.push(f);
    let fs2 = spec_gstep(fs, crate::render::spec_paths_view(x.common.base.srcs@).len() > 0, GField { key: "srcs"@, val: GVal::Items(crate::render::spec_paths_view(x.common.base.srcs@)) });
    lemma_gstep_good(fs, crate::render::spec_paths_view(x.common.base.srcs@).len() > 0, GField { key: "srcs"@, val: GVal::Items(crate::render::spec_paths_view(x.common.base.srcs@)) });
    let fs = fs2;
    let fs2 = spec_gstep(fs, crate::render::spec_refs_view(x.common.common.compatible_with@).len() > 0, GField { key: "compatible_with"@, val: GVal::Items(crate::render::spec_refs_view(x.common.common.compatible_with@)) });
    lemma_gstep_good(fs, crate::render::spec_refs_view(x.common.common.compatible_with@).len() > 0, GField { key: "compatible_with"@, val: GVal::Items(crate::render::spec_refs_view(x.common.common.compatible_with@)) });
    let fs = fs2;
    let f = GField { key: "crate"@, val: GVal::Str(x.common.krate@) };
    lemma_push_good(fs, f);
    let fs = fs.push(f);
    let f = GField { key: "crate_root"@, val: GVal::Str(crate::render::spec_slashes(x.common.crate_root.0@)) };
    lemma_push_good(fs, f);
    let fs = fs.push(f);
    let f = GField { key: "edition"@, val: GVal::Str(x.common.edition.spec_str()) };
    lemma_push_good(fs, f);
    let fs = fs.push(f);
    let fs2 = spec_gstep(fs, crate::render::spec_env_view(x.common.base.env@).len() > 0, GField { key: "env"@, val: GVal::Entries(crate::render::spec_env_view(x.common.base.env@)) });
    lemma_gstep_good(fs, crate::render::spec_env_view(x.common.base.env@).len() > 0, GField { key: "env"@, val: GVal::Entries(crate::render::spec_env_view(x.common.base.env@)) });
    let fs = fs2;
    let fs2 = spec_gstep(fs, crate::render::spec_strs_view(x.common.base.features@).len() > 0, GField { key: "features"@, val: GVal::Items(crate::render::spec_strs_view(x.common.base.features@)) });
    lemma_gstep_good(fs, crate::render::spec_strs_view(x.common.base.features@).len() > 0, GField { key: "features"@, val: GVal::Items(crate::render::spec_strs_view(x.common.base.features@)) });
    let fs = fs2;
    let fs2 = spec_gstep(fs, crate::render::spec_paths_view(x.common.common.licenses@).len() > 0, GField { key: "licenses"@, val: GVal::Items(crate::render::spec_paths_view(x.common.common.licenses@)) });
    lemma_gstep_good(fs, crate::render::spec_paths_view(x.common.common.licenses@).len() > 0, GField { key: "licenses"@, val: GVal::Items(crate::render::spec_paths_view(x.common.common.licenses@)) });
    let fs = fs2;
    let fs2 = spec_gstep(fs, x.common.base.link_style is Some, GField { key: "link_style"@, val: GVal::Str((x.common.base.link_style->0)@) });
    lemma_gstep_good(fs, x.common.base.link_style is Some, GField { key: "link_style"@, val: GVal::Str((x.common.base.link_style->0)@) });
    let fs = fs2;
    let fs2 = spec_gstep(fs, crate::render::spec_mapped_view(x.common.base.mapped_srcs@).len() > 0, GField { key: "mapped_srcs"@, val: GVal::Entries(crate::render::spec_mapped_view(x.common.base.mapped_srcs@)) });
    lemma_gstep_good(fs, crate::render::spec_mapped_view(x.common.base.mapped_srcs@).len() > 0, GField { key: "mapped_srcs"@, val: GVal::Entries(crate::render::spec_mapped_view(x.common.base.mapped_srcs@)) });
    let fs = fs2;
    let fs2 = spec_gstep(fs, crate::render::spec_named_view(x.common.base.named_deps@).len() > 0, GField { key: "named_deps"@, val: GVal::Entries(crate::render::spec_named_view(x.common.base.named_deps@)) });
    lemma_gstep_good(fs, crate::render::spec_named_view(x.common.base.named_deps@).len() > 0, GField { key: "named_deps"@, val: GVal::Entries(crate::render::spec_named_view(x.common.base.named_deps@)) });
    let fs = fs2;
    let fs2 = spec_gstep(fs, x.common.platform@.len() > 0, GField { key: "platform"@, val: GVal::Platforms(spec_platforms_view(x.common.platform@)) });
    lemma_gstep_good(fs, x.common.platform@.len() > 0, GField { key: "platform"@, val: GVal::Platforms(spec_platforms_view(x.common.platform@)) });
    let fs = fs2;
    let fs2 = spec_gstep(fs, x.common.base.preferred_linkage is Some, GField { key: "preferred_linkage"@, val: GVal::Str((x.common.base.preferred_linkage->0)@) });
    lemma_gstep_good(fs, x.common.base.preferred_linkage is Some, GField { key: "preferred_linkage"@, val: GVal::Str((x.common.base.preferred_linkage->0)@) });
    let fs = fs2;
    let fs2 = spec_gstep(fs, crate::render::spec_strs_view(x.common.base.rustc_flags@).len() > 0, GField { key: "rustc_flags"@, val: GVal::Items(crate::render::spec_strs_view(x.common.base.rustc_flags@)) });
    lemma_gstep_good(fs, crate::render::spec_strs_view(x.common.base.rustc_flags@).len() > 0, GField { key: "rustc_flags"@, val: GVal::Items(crate::render::spec_strs_view(x.common.base.rustc_flags@)) });
    let fs = fs2;
    let f = GField { key: "visibility"@, val: GVal::Vis(x.common.common.visibility) };
    lemma_push_good(fs, f);
    let fs = fs.push(f);
    let fs2 = spec_gstep(fs, crate::render::spec_refs_view(x.common.base.deps@).len() > 0, GField { key: "deps"@, val: GVal::Items(crate::render::spec_refs_view(x.common.base.deps@)) });
    lemma_gstep_good(fs, crate::render::spec_refs_view(x.common.base.deps@).len() > 0, GField { key: "deps"@, val: GVal::Items(crate::render::spec_refs_view(x.common.base.deps@)) });
    let fs = fs2;
    assert(crate::render::spec_binary_fields(x) == fs);
    assert(good_fields(crate::render::spec_binary_fields(x)));
}

#[verifier::rlimit(100)]
#[verifier::spinoff_prover]
pub proof fn lemma_cxx_fields_chain(x: crate::buck::CxxLibrary)
    ensures
        good_fields(crate::render::spec_cxx_fields(x)),
{
    let fs = Seq::<GField>::empty();
    assert(good_fields(fs));
    let f = GField { key: "name"@, val: GVal::Str(x.common.name.0@) };
    lemma_push_good(fs, f);
    let fs = fs.push(f);
    let fs2 = spec_gstep(fs, crate::render::spec_sops_view(x.srcs@).len() > 0, GField { key: "srcs"@, val: GVal::Items(crate::render::spec_sops_view(x.srcs@)) });
    lemma_gstep_good(fs, crate::render::spec_sops_view(x.srcs@).len() > 0, GField { key: "srcs"@, val: GVal::Items(crate::render::spec_sops_view(x.srcs@)) });
    let fs = fs2;
    let fs2 = spec_gstep(fs, crate::render::spec_sops_view(x.headers@).len() > 0, GField { key: "headers"@, val: GVal::Items(crate::render::spec_sops_view(x.headers@)) });
    lemma_gstep_good(fs, crate::render::spec_sops_view(x.headers@).len() > 0, GField { key: "headers"@, val: GVal::Items(crate::render::spec_sops_view(x.headers@)) });
    let fs = fs2;
    let fs2 = spec_gstep(fs, x.header_namespace is Some, GField { key: "header_namespace"@, val: GVal::Str((x.header_namespace->0)@) });
    lemma_gstep_good(fs, x.header_namespace is Some, GField { key: "header_namespace"@, val: GVal::Str((x.header_namespace->0)@) });
    let fs = fs2;
    let fs2 = spec_gstep(fs, crate::render::spec_exported_nonempty(x.exported_headers), GField { key: "exported_headers"@, val: crate::render::spec_exported_val(x.exported_headers) });
    lemma_gstep_good(
        fs,
        crate::render::spec_exported_nonempty(x.exported_headers),
        GField {
            key: "exported_headers"@,
            val: crate::render::spec_exported_val(x.exported_headers),
        },
    );
    let fs = fs2;
    let fs2 = spec_gstep(fs, crate::render::spec_refs_view(x.common.compatible_with@).len() > 0, GField { key: "compatible_with"@, val: GVal::Items(crate::render::spec_refs_view(x.common.compatible_with@)) });
    lemma_gstep_good(fs, crate::render::spec_refs_view(x.common.compatible_with@).len() > 0, GField { key: "compatible_with"@, val: GVal::Items(crate::render::spec_refs_view(x.common.compatible_with@)) });
    let fs = fs2;
    let fs2 = spec_gstep(fs, crate::render::spec_strs_view(x.compiler_flags@).len() > 0, GField { key: "compiler_flags"@, val: GVal::Items(crate::render::spec_strs_view(x.compiler_flags@)) });
    lemma_gstep_good(fs, crate::render::spec_strs_view(x.compiler_flags@).len() > 0, GField { key: "compiler_flags"@, val: GVal::Items(crate::render::spec_strs_view(x.compiler_flags@)) });
    let fs = fs2;
    let fs2 = spec_gstep(fs, crate::render::spec_incdirs(x.include_directories@).len() > 0, GField { key: "include_directories"@, val: GVal::Items(crate::render::spec_incdirs(x.include_directories@)) });
    lemma_gstep_good(fs, crate::render::spec_incdirs(x.include_directories@).len() > 0, GField { key: "include_directories"@, val: GVal::Items(crate::render::spec_incdirs(x.include_directories@)) });
    let fs = fs2;
    let fs2 = spec_gstep(fs, crate::render::spec_paths_view(x.common.licenses@).len() > 0, GField { key: "licenses"@, val: GVal::Items(crate::render::spec_paths_view(x.common.licenses@)) });
    lemma_gstep_good(fs, crate::render::spec_paths_view(x.common.licenses@).len() > 0, GField { key: "licenses"@, val: GVal::Items(crate::render::spec_paths_view(x.common.licenses@)) });
    let fs = fs2;
    let fs2 = spec_gstep(fs, x.preferred_linkage is Some, GField { key: "preferred_linkage"@, val: GVal::Str((x.preferred_linkage->0)@) });
    lemma_gstep_good(fs, x.preferred_linkage is Some, GField { key: "preferred_linkage"@, val: GVal::Str((x.preferred_linkage->0)@) });
    let fs = fs2;
    let fs2 = spec_gstep(fs, crate::render::spec_ppsubs(x.include_directories@).add(crate::render::spec_strs_view(x.preprocessor_flags@)).len() > 0, GField { key: "preprocessor_flags"@, val: GVal::Items(crate::render::spec_ppsubs(x.include_directories@).add(crate::render::spec_strs_view(x.preprocessor_flags@))) });
    lemma_gstep_good(fs, crate::render::spec_ppsubs(x.include_directories@).add(crate::render::spec_strs_view(x.preprocessor_flags@)).len() > 0, GField { key: "preprocessor_flags"@, val: GVal::Items(crate::render::spec_ppsubs(x.include_directories@).add(crate::render::spec_strs_view(x.preprocessor_flags@))) });
    let fs = fs2;
    let f = GField { key: "visibility"@, val: GVal::Vis(x.common.visibility) };
    lemma_push_good(fs, f);
    let fs = fs.push(f);
    let fs2 = spec_gstep(fs, crate::render::spec_refs_view(x.deps@).len() > 0, GField { key: "deps"@, val: GVal::Items(crate::render::spec_refs_view(x.deps@)) });
    lemma_gstep_good(fs, crate::render::spec_refs_view(x.deps@).len() > 0, GField { key: "deps"@, val: GVal::Items(crate::render::spec_refs_view(x.deps@)) });
    let fs = fs2;
    assert(crate::render::spec_cxx_fields(x) == fs);
    assert(good_fields(crate::render::spec_cxx_fields(x)));
}

} // verus!
