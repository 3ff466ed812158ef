//! Generation of build declarations from the package graph: path
//! handling, the attribute partitioner, the per-target rule builder and
//! the graph walk.

use vstd::prelude::*;

use crate::sorted::SortKey;
use crate::strutil::push_char;

verus! {

/// Split a path on `/`, as raw pieces.
pub open spec fn spec_slash_split(s: Seq<char>) -> Seq<Seq<char>>
    decreases s.len(),
{
    if s.len() == 0 {
        seq![Seq::<char>::empty()]
    } else if s[0] == '/' {
        seq![Seq::<char>::empty()].add(spec_slash_split(s.drop_first()))
    } else {
        let rest = spec_slash_split(s.drop_first());
        seq![seq![s[0]].add(rest[0])].add(rest.drop_first())
    }
}

pub proof fn lemma_slash_split_len(s: Seq<char>)
    ensures
        spec_slash_split(s).len() >= 1,
    decreases s.len(),
{
    if s.len() > 0 {
        lemma_slash_split_len(s.drop_first());
    }
}

pub proof fn lemma_slash_split_push(s: Seq<char>, c: char)
    ensures
        c == '/' ==> spec_slash_split(s.push(c)) == spec_slash_split(s).push(
            Seq::<char>::empty(),
        ),
        c != '/' ==> spec_slash_split(s.push(c)) == spec_slash_split(s).update(
            spec_slash_split(s).len() - 1,
            spec_slash_split(s).last().push(c),
        ),
    decreases s.len(),
{
    reveal_with_fuel(spec_slash_split, 4);
    lemma_slash_split_len(s);
    if s.len() == 0 {
        assert(s.push(c)[0] == c);
        assert(s.push(c).drop_first() =~= Seq::<char>::empty());
        if c == '/' {
            assert(spec_slash_split(s.push(c)) =~~= spec_slash_split(s).push(
                Seq::<char>::empty(),
            ));
        } else {
            assert(spec_slash_split(s.push(c)) =~~= spec_slash_split(s).update(
                spec_slash_split(s).len() - 1,
                spec_slash_split(s).last().push(c),
            ));
        }
    } else {
        lemma_slash_split_push(s.drop_first(), c);
        lemma_slash_split_len(s.drop_first());
        assert(s.push(c)[0] == s[0]);
        assert(s.push(c).drop_first() =~= s.drop_first().push(c));
        if c == '/' {
            assert(spec_slash_split(s.push(c)) =~~= spec_slash_split(s).push(
                Seq::<char>::empty(),
            ));
        } else {
            assert(spec_slash_split(s.push(c)) =~~= spec_slash_split(s).update(
                spec_slash_split(s).len() - 1,
                spec_slash_split(s).last().push(c),
            ));
        }
    }
}

/// Split a path string on `/`.
pub fn slash_split(s: &str) -> (r: Vec<String>)
    ensures
        r.deep_view() == spec_slash_split(s@),
{
    let len = s.unicode_len();
    let mut segs: Vec<String> = Vec::new();
    let mut cur: String = String::new();
    let mut i: usize = 0;
    assert(s@.subrange(0, 0) =~= Seq::<char>::empty());
    assert(segs.deep_view().push(cur@) =~= spec_slash_split(s@.subrange(0, 0)));
    while i < len
        invariant
            i <= len,
            len == s@.len(),
            segs.deep_view().push(cur@) == spec_slash_split(s@.subrange(0, i as int)),
        decreases len - i,
    {
        let ghost pre_segs = segs.deep_view();
        let ghost pre_cur = cur@;
        let c = s.get_char(i);
        proof {
            lemma_slash_split_len(s@.subrange(0, i as int));
            lemma_slash_split_push(s@.subrange(0, i as int), c);
            assert(s@.subrange(0, i as int).push(c) =~= s@.subrange(0, i + 1));
        }
        if c == '/' {
            segs.push(cur);
            cur = String::new();
            assert(segs.deep_view() =~= pre_segs.push(pre_cur));
            assert(segs.deep_view().push(cur@) =~= spec_slash_split(s@.subrange(0, i + 1)));
        } else {
            push_char(&mut cur, c);
            assert(segs.deep_view().push(cur@) =~= spec_slash_split(s@.subrange(0, i + 1)));
        }
        i = i + 1;
    }
    assert(s@.subrange(0, len as int) =~= s@);
    let ghost pre_segs = segs.deep_view();
    let ghost pre_cur = cur@;
    segs.push(cur);
    assert(segs.deep_view() =~= pre_segs.push(pre_cur));
    segs
}

/// Whether a raw piece is a real path component: not empty, not `.`.
pub open spec fn spec_is_comp(c: Seq<char>) -> bool {
    c.len() > 0 && c != "."@
}

/// The real components among the raw pieces, in order.
pub open spec fn spec_filter_comps(parts: Seq<Seq<char>>) -> Seq<Seq<char>>
    decreases parts.len(),
{
    if parts.len() == 0 {
        Seq::<Seq<char>>::empty()
    } else {
        spec_filter_comps(parts.drop_last()).add(
            if spec_is_comp(parts.last()) {
                seq![parts.last()]
            } else {
                Seq::<Seq<char>>::empty()
            },
        )
    }
}

/// The components of a path: split on `/`, with empty pieces and `.`
/// dropped.
pub open spec fn spec_comps(s: Seq<char>) -> Seq<Seq<char>> {
    spec_filter_comps(spec_slash_split(s))
}

/// The components of a path string.
pub fn path_comps(s: &str) -> (r: Vec<String>)
    ensures
        r.deep_view() == spec_comps(s@),
{
    let raw = slash_split(s);
    let mut out: Vec<String> = Vec::new();
    let mut i: usize = 0;
    assert(raw.deep_view().take(0) =~= Seq::<Seq<char>>::empty());
    while i < raw.len()
        invariant
            i <= raw.len(),
            raw.deep_view() == spec_slash_split(s@),
            raw.deep_view().len() == raw.len(),
            out.deep_view() == spec_filter_comps(raw.deep_view().take(i as int)),
        decreases raw.len() - i,
    {
        proof {
            assert(raw.deep_view().take(i + 1).drop_last() =~= raw.deep_view().take(i as int));
            assert(raw.deep_view().take(i + 1).last() == raw.deep_view()[i as int]);
        }
        let piece = &raw[i];
        let keep = !piece.as_str().is_empty() && !crate::strutil::str_eq(piece.as_str(), ".");
        proof {
            reveal_strlit(".");
        }
        if keep {
            let ghost pre = out.deep_view();
            out.push(crate::strutil::clone_string(piece));
            assert(out.deep_view() =~= pre.push(raw.deep_view()[i as int]));
            assert(out.deep_view() =~= spec_filter_comps(raw.deep_view().take(i + 1)));
        } else {
            assert(out.deep_view() =~= spec_filter_comps(raw.deep_view().take(i + 1)));
        }
        i = i + 1;
    }
    assert(raw.deep_view().take(raw.deep_view().len() as int) =~= raw.deep_view());
    out
}

/// One step of `..` normalization: a `..` component swallows the
/// previous component when there is one; anything else is kept.
pub open spec fn spec_norm_step(acc: Seq<Seq<char>>, c: Seq<char>) -> Seq<Seq<char>> {
    if c == ".."@ && acc.len() > 0 {
        acc.drop_last()
    } else {
        acc.push(c)
    }
}

/// The components after `..` normalization.
pub open spec fn spec_normalize_comps(comps: Seq<Seq<char>>) -> Seq<Seq<char>>
    decreases comps.len(),
{
    if comps.len() == 0 {
        Seq::<Seq<char>>::empty()
    } else {
        spec_norm_step(spec_normalize_comps(comps.drop_last()), comps.last())
    }
}

/// The path text with `a/../b` collapsed to `b` wherever a `..` follows
/// another component.
pub open spec fn spec_normalize_dotdot(s: Seq<char>) -> Seq<char> {
    crate::render::spec_join("/"@, spec_normalize_comps(spec_comps(s)))
}

/// Normalize `x/../y` segments of a path.
pub fn normalize_dotdot(path: &str) -> (r: String)
    ensures
        r@ == spec_normalize_dotdot(path@),
{
    let comps = path_comps(path);
    let mut acc: Vec<String> = Vec::new();
    let mut i: usize = 0;
    assert(comps.deep_view().take(0) =~= Seq::<Seq<char>>::empty());
    while i < comps.len()
        invariant
            i <= comps.len(),
            comps.deep_view() == spec_comps(path@),
            comps.deep_view().len() == comps.len(),
            acc.deep_view() == spec_normalize_comps(comps.deep_view().take(i as int)),
        decreases comps.len() - i,
    {
        proof {
            assert(comps.deep_view().take(i + 1).drop_last() =~= comps.deep_view().take(i as int));
            assert(comps.deep_view().take(i + 1).last() == comps.deep_view()[i as int]);
        }
        let is_dotdot = crate::strutil::str_eq(comps[i].as_str(), "..");
        proof {
            reveal_strlit("..");
        }
        if is_dotdot && acc.len() > 0 {
            let ghost pre = acc.deep_view();
            let popped = acc.pop();
            assert(acc.deep_view() =~= pre.drop_last());
            assert(acc.deep_view() =~= spec_normalize_comps(comps.deep_view().take(i + 1)));
        } else {
            let ghost pre = acc.deep_view();
            acc.push(crate::strutil::clone_string(&comps[i]));
            assert(acc.deep_view() =~= pre.push(comps.deep_view()[i as int]));
            assert(acc.deep_view() =~= spec_normalize_comps(comps.deep_view().take(i + 1)));
        }
        i = i + 1;
    }
    assert(comps.deep_view().take(comps.deep_view().len() as int) =~= comps.deep_view());
    let mut out = String::new();
    crate::render::push_joined(&mut out, &acc, "/");
    out
}

/// Whether `pre` is a leading run of `s`.
pub open spec fn spec_is_prefix(pre: Seq<Seq<char>>, s: Seq<Seq<char>>) -> bool {
    pre.len() <= s.len() && pre == s.take(pre.len() as int)
}

/// The path for `to` relative to `base`, as components: step up with
/// `..` until `base` is a prefix of `to`, then step down the rest.
pub open spec fn spec_relative_comps(base: Seq<Seq<char>>, to: Seq<Seq<char>>) -> Seq<Seq<char>>
    decreases base.len(),
{
    if spec_is_prefix(base, to) {
        to.skip(base.len() as int)
    } else if base.len() == 0 {
        to
    } else {
        seq![".."@].add(spec_relative_comps(base.drop_last(), to))
    }
}

/// The path text for `to` relative to `base`.
pub open spec fn spec_relative_path(base: Seq<char>, to: Seq<char>) -> Seq<char> {
    crate::render::spec_join("/"@, spec_relative_comps(spec_comps(base), spec_comps(to)))
}

/// Whether the first `n` components of the two vectors agree.
fn comps_prefix(base: &Vec<String>, to: &Vec<String>, n: usize) -> (r: bool)
    requires
        n <= base.len(),
    ensures
        r == spec_is_prefix(base.deep_view().take(n as int), to.deep_view()),
{
    if n > to.len() {
        assert(base.deep_view().take(n as int).len() == n);
        return false;
    }
    let mut i: usize = 0;
    while i < n
        invariant
            i <= n,
            n <= base.len(),
            n <= to.len(),
            base.deep_view().len() == base.len(),
            to.deep_view().len() == to.len(),
            forall|k: int| 0 <= k < i ==> base.deep_view()[k] == to.deep_view()[k],
        decreases n - i,
    {
        if !crate::strutil::str_eq(base[i].as_str(), to[i].as_str()) {
            assert(base.deep_view().take(n as int)[i as int] != to.deep_view().take(n as int)[i as int]);
            assert(base.deep_view().take(n as int) != to.deep_view().take(n as int));
            assert(spec_is_prefix(base.deep_view().take(n as int), to.deep_view())
                ==> base.deep_view().take(n as int) == to.deep_view().take(n as int));
            return false;
        }
        i = i + 1;
    }
    assert(base.deep_view().take(n as int) =~= to.deep_view().take(n as int));
    true
}

/// Compute a path for `to` relative to `base`.
pub fn relative_path(base: &str, to: &str) -> (r: String)
    ensures
        r@ == spec_relative_path(base@, to@),
{
    let bc = path_comps(base);
    let tc = path_comps(to);
    let mut out_comps: Vec<String> = Vec::new();
    let mut n: usize = bc.len();
    assert(bc.deep_view().take(n as int) =~= bc.deep_view());
    while n > 0 && !comps_prefix(&bc, &tc, n)
        invariant
            n <= bc.len(),
            bc.deep_view() == spec_comps(base@),
            tc.deep_view() == spec_comps(to@),
            bc.deep_view().len() == bc.len(),
            out_comps.deep_view().len() == bc.len() - n,
            spec_relative_comps(bc.deep_view(), tc.deep_view()) == out_comps.deep_view().add(
                spec_relative_comps(bc.deep_view().take(n as int), tc.deep_view()),
            ),
            forall|k: int|
                0 <= k < out_comps.deep_view().len() ==> out_comps.deep_view()[k] == ".."@,
        decreases n,
    {
        proof {
            reveal_strlit("..");
            assert(bc.deep_view().take(n as int).drop_last() =~= bc.deep_view().take(n - 1));
        }
        let ghost pre = out_comps.deep_view();
        out_comps.push(crate::strutil::clone_string_ref(".."));
        proof {
            reveal_strlit("..");
            assert(out_comps.deep_view() =~= pre.push(".."@));
            assert(spec_relative_comps(bc.deep_view().take(n as int), tc.deep_view()) == seq![
                ".."@,
            ].add(spec_relative_comps(bc.deep_view().take(n - 1), tc.deep_view())));
            assert(out_comps.deep_view().add(
                spec_relative_comps(bc.deep_view().take(n - 1), tc.deep_view()),
            ) =~= pre.add(
                seq![".."@].add(spec_relative_comps(bc.deep_view().take(n - 1), tc.deep_view())),
            ));
        }
        n = n - 1;
    }
    // base.take(n) is now a prefix of to (or n is 0, and the empty
    // prefix always matches).
    proof {
        if n == 0 {
            assert(bc.deep_view().take(0) =~= Seq::<Seq<char>>::empty());
            assert(spec_is_prefix(bc.deep_view().take(0), tc.deep_view())) by {
                assert(bc.deep_view().take(0) =~= tc.deep_view().take(0));
            }
        }
    }
    let mut j: usize = n;
    proof {
        assert(spec_relative_comps(bc.deep_view().take(n as int), tc.deep_view())
            == tc.deep_view().skip(n as int));
    }
    while j < tc.len()
        invariant
            n <= j,
            j <= tc.len(),
            tc.deep_view().len() == tc.len(),
            out_comps.deep_view() =~= out_comps.deep_view().take(
                out_comps.deep_view().len() as int,
            ),
            spec_relative_comps(bc.deep_view(), tc.deep_view()) == out_comps.deep_view().add(
                tc.deep_view().skip(j as int),
            ).add(Seq::<Seq<char>>::empty()) || spec_relative_comps(
                bc.deep_view(),
                tc.deep_view(),
            ) == out_comps.deep_view().add(tc.deep_view().skip(j as int)),
        decreases tc.len() - j,
    {
        let ghost pre = out_comps.deep_view();
        out_comps.push(crate::strutil::clone_string(&tc[j]));
        proof {
            assert(out_comps.deep_view() =~= pre.push(tc.deep_view()[j as int]));
            assert(pre.push(tc.deep_view()[j as int]).add(tc.deep_view().skip(j + 1)) =~= pre.add(
                tc.deep_view().skip(j as int),
            ));
        }
        j = j + 1;
    }
    proof {
        assert(tc.deep_view().skip(tc.deep_view().len() as int) =~= Seq::<Seq<char>>::empty());
        assert(out_comps.deep_view().add(Seq::<Seq<char>>::empty()) =~= out_comps.deep_view());
        assert(out_comps.deep_view() == spec_relative_comps(bc.deep_view(), tc.deep_view()));
    }
    let mut out = String::new();
    crate::render::push_joined(&mut out, &out_comps, "/");
    out
}


/// The mathematical content of a platform attribute record.
pub struct PrcView {
    pub srcs: Seq<crate::buck::BuckPath>,
    pub mapped_srcs: Seq<(crate::buck::SubtargetOrPath, crate::buck::BuckPath)>,
    pub rustc_flags: Seq<String>,
    pub features: Seq<String>,
    pub deps: Seq<crate::buck::RuleRef>,
    pub named_deps: Seq<(String, crate::buck::RuleRef)>,
    pub env: Seq<(String, crate::buck::StringOrPath)>,
    pub link_style: Option<String>,
    pub preferred_linkage: Option<String>,
}

impl View for crate::buck::PlatformRustCommon {
    type V = PrcView;

    open spec fn view(&self) -> PrcView {
        PrcView {
            srcs: self.srcs@,
            mapped_srcs: self.mapped_srcs@,
            rustc_flags: self.rustc_flags@,
            features: self.features@,
            deps: self.deps@,
            named_deps: self.named_deps@,
            env: self.env@,
            link_style: self.link_style,
            preferred_linkage: self.preferred_linkage,
        }
    }
}

/// The empty attribute record.
pub open spec fn spec_empty_prc() -> PrcView {
    PrcView {
        srcs: Seq::<crate::buck::BuckPath>::empty(),
        mapped_srcs: Seq::<(crate::buck::SubtargetOrPath, crate::buck::BuckPath)>::empty(),
        rustc_flags: Seq::<String>::empty(),
        features: Seq::<String>::empty(),
        deps: Seq::<crate::buck::RuleRef>::empty(),
        named_deps: Seq::<(String, crate::buck::RuleRef)>::empty(),
        env: Seq::<(String, crate::buck::StringOrPath)>::empty(),
        link_style: Option::None,
        preferred_linkage: Option::None,
    }
}

/// One batch of values for one attribute of a rule.
#[derive(Debug, Clone)]
pub enum AttrItem {
    Flags(Vec<String>),
    Srcs(Vec<crate::buck::BuckPath>),
    MappedSrcs(Vec<(crate::buck::SubtargetOrPath, crate::buck::BuckPath)>),
    Features(Vec<String>),
    Env(Vec<(String, crate::buck::StringOrPath)>),
    Deps(Vec<crate::buck::RuleRef>),
    NamedDeps(Vec<(String, crate::buck::RuleRef)>),
}

/// The content of one attribute batch.
pub enum AttrView {
    Flags(Seq<String>),
    Srcs(Seq<crate::buck::BuckPath>),
    MappedSrcs(Seq<(crate::buck::SubtargetOrPath, crate::buck::BuckPath)>),
    Features(Seq<String>),
    Env(Seq<(String, crate::buck::StringOrPath)>),
    Deps(Seq<crate::buck::RuleRef>),
    NamedDeps(Seq<(String, crate::buck::RuleRef)>),
}

impl View for AttrItem {
    type V = AttrView;

    open spec fn view(&self) -> AttrView {
        match self {
            AttrItem::Flags(v) => AttrView::Flags(v@),
            AttrItem::Srcs(v) => AttrView::Srcs(v@),
            AttrItem::MappedSrcs(v) => AttrView::MappedSrcs(v@),
            AttrItem::Features(v) => AttrView::Features(v@),
            AttrItem::Env(v) => AttrView::Env(v@),
            AttrItem::Deps(v) => AttrView::Deps(v@),
            AttrItem::NamedDeps(v) => AttrView::NamedDeps(v@),
        }
    }
}

/// Folding one attribute batch into a record: flags append in order,
/// sources and features land in their sorted sets, mapped sources,
/// named dependencies and environment entries land in their maps.
pub open spec fn spec_fold_attr(pv: PrcView, item: AttrView) -> PrcView {
    match item {
        AttrView::Flags(v) => PrcView { rustc_flags: pv.rustc_flags.add(v), ..pv },
        AttrView::Srcs(v) => PrcView {
            srcs: crate::sorted::spec_set_insert_all(pv.srcs, v),
            ..pv
        },
        AttrView::MappedSrcs(v) => PrcView {
            mapped_srcs: crate::sorted::spec_map_insert_all(pv.mapped_srcs, v),
            ..pv
        },
        AttrView::Features(v) => PrcView {
            features: crate::sorted::spec_set_insert_all(pv.features, v),
            ..pv
        },
        AttrView::Env(v) => PrcView {
            env: crate::sorted::spec_map_insert_all(pv.env, v),
            ..pv
        },
        AttrView::Deps(v) => PrcView {
            deps: crate::sorted::spec_set_insert_all(pv.deps, v),
            ..pv
        },
        AttrView::NamedDeps(v) => PrcView {
            named_deps: crate::sorted::spec_map_insert_all(pv.named_deps, v),
            ..pv
        },
    }
}

/// Fold one attribute batch into a record.
pub fn fold_attr(prc: &mut crate::buck::PlatformRustCommon, item: &AttrItem)
    requires
        old(prc).wf(),
    ensures
        final(prc).wf(),
        final(prc)@ == spec_fold_attr(old(prc)@, item@),
{
    match item {
        AttrItem::Flags(v) => {
            let mut i: usize = 0;
            let ghost f0 = prc.rustc_flags@;
            assert(v@.take(0) =~= Seq::<String>::empty());
            assert(prc.rustc_flags@ =~= f0.add(v@.take(0)));
            while i < v.len()
                invariant
                    i <= v.len(),
                    prc.wf(),
                    prc.rustc_flags@ == f0.add(v@.take(i as int)),
                    prc.srcs == old(prc).srcs,
                    prc.mapped_srcs == old(prc).mapped_srcs,
                    prc.features == old(prc).features,
                    prc.deps == old(prc).deps,
                    prc.named_deps == old(prc).named_deps,
                    prc.env == old(prc).env,
                    prc.link_style == old(prc).link_style,
                    prc.preferred_linkage == old(prc).preferred_linkage,
                    f0 == old(prc).rustc_flags@,
                decreases v.len() - i,
            {
                prc.rustc_flags.push(crate::strutil::clone_string(&v[i]));
                assert(prc.rustc_flags@ =~= f0.add(v@.take(i + 1)));
                i = i + 1;
            }
            assert(v@.take(v@.len() as int) =~= v@);
        },
        AttrItem::Srcs(v) => {
            prc.srcs.insert_all(v);
        },
        AttrItem::MappedSrcs(v) => {
            prc.mapped_srcs.insert_all(v);
        },
        AttrItem::Features(v) => {
            prc.features.insert_all(v);
        },
        AttrItem::Env(v) => {
            prc.env.insert_all(v);
        },
        AttrItem::Deps(v) => {
            prc.deps.insert_all(v);
        },
        AttrItem::NamedDeps(v) => {
            prc.named_deps.insert_all(v);
        },
    }
}

/// Whether any configured platform's parser rejects the expression.
pub open spec fn spec_expr_malformed(
    platforms: Seq<(crate::platform::PlatformName, crate::platform::PlatformConfig)>,
    e: Seq<char>,
) -> bool {
    exists|i: int|
        0 <= i < platforms.len() && crate::platform::spec_malformed(#[trigger] platforms[i].1, e)
}

/// The names of the configured platforms satisfying the expression, in
/// configuration order.
pub open spec fn spec_expr_names(
    platforms: Seq<(crate::platform::PlatformName, crate::platform::PlatformConfig)>,
    e: Seq<char>,
) -> Seq<crate::platform::PlatformName>
    decreases platforms.len(),
{
    if platforms.len() == 0 {
        Seq::<crate::platform::PlatformName>::empty()
    } else {
        spec_expr_names(platforms.drop_last(), e).add(
            if crate::platform::spec_satisfies(platforms.last().1, e) {
                seq![platforms.last().0]
            } else {
                Seq::<crate::platform::PlatformName>::empty()
            },
        )
    }
}

/// Expand a platform expression into the concrete set of satisfying
/// platform names; a malformed expression is an error naming its text.
pub fn platform_names_for_expr(
    config: &crate::config::Config,
    expr: &crate::platform::PlatformExpr,
) -> (r: Result<Vec<crate::platform::PlatformName>, crate::platform::PredicateParseError>)
    ensures
        spec_expr_malformed(config.platform@, expr.0@) ==> (r matches Err(e) && e.0@ == expr.0@),
        !spec_expr_malformed(config.platform@, expr.0@) ==> (r matches Ok(v) && v@
            == spec_expr_names(config.platform@, expr.0@)),
{
    let mut out: Vec<crate::platform::PlatformName> = Vec::new();
    let mut i: usize = 0;
    assert(config.platform@.take(0) =~= Seq::<
        (crate::platform::PlatformName, crate::platform::PlatformConfig),
    >::empty());
    while i < config.platform.len()
        invariant
            i <= config.platform@.len(),
            out@ == spec_expr_names(config.platform@.take(i as int), expr.0@),
            forall|k: int|
                0 <= k < i ==> !crate::platform::spec_malformed(
                    #[trigger] config.platform@[k].1,
                    expr.0@,
                ),
        decreases config.platform@.len() - i,
    {
        proof {
            assert(config.platform@.take(i + 1).drop_last() =~= config.platform@.take(i as int));
            assert(config.platform@.take(i + 1).last() == config.platform@[i as int]);
        }
        let entry = &config.platform[i];
        match crate::platform::eval_expr(&entry.1, expr) {
            Result::Err(e) => {
                return Result::Err(e);
            },
            Result::Ok(sat) => {
                if sat {
                    let ghost pre = out@;
                    out.push(crate::strutil::Dup::dup(&entry.0));
                    assert(out@ =~= pre.push(config.platform@[i as int].0));
                    assert(out@ =~= spec_expr_names(config.platform@.take(i + 1), expr.0@));
                } else {
                    assert(out@ =~= spec_expr_names(config.platform@.take(i + 1), expr.0@));
                }
            },
        }
        i = i + 1;
    }
    assert(config.platform@.take(config.platform@.len() as int) =~= config.platform@);
    assert(!spec_expr_malformed(config.platform@, expr.0@));
    Result::Ok(out)
}

/// The per-platform records, by content.
pub open spec fn spec_platmap_view(
    s: Seq<(crate::platform::PlatformName, crate::buck::PlatformRustCommon)>,
) -> Seq<(crate::platform::PlatformName, PrcView)> {
    s.map_values(
        |e: (crate::platform::PlatformName, crate::buck::PlatformRustCommon)| (e.0, e.1@),
    )
}

/// Every record in the map is well formed.
pub open spec fn spec_platmap_values_wf(
    s: Seq<(crate::platform::PlatformName, crate::buck::PlatformRustCommon)>,
) -> bool {
    forall|i: int| 0 <= i < s.len() ==> (#[trigger] s[i].1).wf()
}

/// Folding a batch into the bucket of one platform, creating the bucket
/// on first use.
pub open spec fn spec_apply_plat(
    per: Seq<(crate::platform::PlatformName, PrcView)>,
    name: crate::platform::PlatformName,
    item: AttrView,
) -> Seq<(crate::platform::PlatformName, PrcView)> {
    let i = crate::sorted::spec_find_key(per, name);
    if i == -1 {
        crate::sorted::spec_map_insert(per, name, spec_fold_attr(spec_empty_prc(), item))
    } else {
        per.update(i, (per[i].0, spec_fold_attr(per[i].1, item)))
    }
}

/// Folding a batch into the buckets of each named platform, in order.
pub open spec fn spec_apply_names(
    per: Seq<(crate::platform::PlatformName, PrcView)>,
    names: Seq<crate::platform::PlatformName>,
    item: AttrView,
) -> Seq<(crate::platform::PlatformName, PrcView)>
    decreases names.len(),
{
    if names.len() == 0 {
        per
    } else {
        spec_apply_names(spec_apply_plat(per, names[0], item), names.drop_first(), item)
    }
}

/// Fold a batch into the bucket of one platform, creating the bucket on
/// first use.
pub fn apply_item_to_platform(
    perplat: &mut crate::sorted::SortedMap<
        crate::platform::PlatformName,
        crate::buck::PlatformRustCommon,
    >,
    name: &crate::platform::PlatformName,
    item: &AttrItem,
)
    requires
        old(perplat).wf(),
        spec_platmap_values_wf(old(perplat)@),
    ensures
        final(perplat).wf(),
        spec_platmap_values_wf(final(perplat)@),
        spec_platmap_view(final(perplat)@) == spec_apply_plat(
            spec_platmap_view(old(perplat)@),
            *name,
            item@,
        ),
{
    let ghost s0 = perplat@;
    let n = perplat.len();
    proof {
        crate::sorted::lemma_find_key(s0, *name);
        lemma_find_key_view(s0, *name);
        assert(s0.len() == n as int);
    }
    match perplat.get_index_of(name) {
        Option::Some(i) => {
            let empty = crate::buck::PlatformRustCommon::empty();
            let mut prc = perplat.swap_value(i, empty);
            assert(prc.wf());
            fold_attr(&mut prc, item);
            let ghost s1 = perplat@;
            perplat.swap_value(i, prc);
            proof {
                assert(perplat@ =~= s0.update(i as int, (s0[i as int].0, prc)));
                assert forall|k: int| 0 <= k < perplat@.len() implies (
                #[trigger] perplat@[k].1).wf() by {
                    if k != i {
                        assert(perplat@[k] == s0[k]);
                    }
                }
                assert(crate::sorted::spec_find_key(spec_platmap_view(s0), *name) == i as int);
                let ghost rhs = spec_apply_plat(spec_platmap_view(s0), *name, item@);
                assert(rhs == spec_platmap_view(s0).update(
                    i as int,
                    (spec_platmap_view(s0)[i as int].0, spec_fold_attr(
                        spec_platmap_view(s0)[i as int].1,
                        item@,
                    )),
                ));
                assert(spec_platmap_view(s0)[i as int] == (s0[i as int].0, s0[i as int].1@));
                assert forall|k: int| 0 <= k < perplat@.len() implies spec_platmap_view(perplat@)[k]
                    == rhs[k] by {
                    assert(spec_platmap_view(perplat@)[k] == (perplat@[k].0, perplat@[k].1@));
                    if k != i {
                        assert(perplat@[k] == s0[k]);
                        assert(rhs[k] == spec_platmap_view(s0)[k]);
                        assert(spec_platmap_view(s0)[k] == (s0[k].0, s0[k].1@));
                    }
                }
                assert(spec_platmap_view(perplat@) =~= rhs);
            }
        },
        Option::None => {
            let mut prc = crate::buck::PlatformRustCommon::empty();
            fold_attr(&mut prc, item);
            perplat.insert(crate::strutil::Dup::dup(name), prc);
            proof {
                crate::sorted::lemma_map_insert_sorted(s0, *name, prc);
                lemma_map_insert_view(s0, *name, prc);
                assert forall|k: int| 0 <= k < perplat@.len() implies (
                #[trigger] perplat@[k].1).wf() by {
                    lemma_map_insert_value_source(s0, *name, prc, k);
                }
            }
        },
    }
}

/// Looking a key up commutes with taking the contents view.
pub proof fn lemma_find_key_view(
    s: Seq<(crate::platform::PlatformName, crate::buck::PlatformRustCommon)>,
    k: crate::platform::PlatformName,
)
    ensures
        crate::sorted::spec_find_key(spec_platmap_view(s), k) == crate::sorted::spec_find_key(s, k),
    decreases s.len(),
{
    if s.len() > 0 {
        lemma_find_key_view(s.drop_first(), k);
        assert(spec_platmap_view(s)[0] == (s[0].0, s[0].1@));
        assert(spec_platmap_view(s).drop_first() =~= spec_platmap_view(s.drop_first()));
    }
}

/// Inserting a binding commutes with taking the contents view.
pub proof fn lemma_map_insert_view(
    s: Seq<(crate::platform::PlatformName, crate::buck::PlatformRustCommon)>,
    k: crate::platform::PlatformName,
    v: crate::buck::PlatformRustCommon,
)
    ensures
        spec_platmap_view(crate::sorted::spec_map_insert(s, k, v)) == crate::sorted::spec_map_insert(
            spec_platmap_view(s),
            k,
            v@,
        ),
    decreases s.len(),
{
    if s.len() == 0 {
        assert(spec_platmap_view(crate::sorted::spec_map_insert(s, k, v)) =~= crate::sorted::spec_map_insert(
            spec_platmap_view(s),
            k,
            v@,
        ));
    } else {
        lemma_map_insert_view(s.drop_first(), k, v);
        assert(spec_platmap_view(s)[0] == (s[0].0, s[0].1@));
        assert(spec_platmap_view(s).drop_first() =~= spec_platmap_view(s.drop_first()));
        if k.key_cmp(&s[0].0) == core::cmp::Ordering::Less {
            assert(spec_platmap_view(crate::sorted::spec_map_insert(s, k, v))
                =~= crate::sorted::spec_map_insert(spec_platmap_view(s), k, v@));
        } else if k.key_cmp(&s[0].0) == core::cmp::Ordering::Equal {
            assert(spec_platmap_view(crate::sorted::spec_map_insert(s, k, v))
                =~= crate::sorted::spec_map_insert(spec_platmap_view(s), k, v@));
        } else {
            assert(spec_platmap_view(crate::sorted::spec_map_insert(s, k, v))
                =~= crate::sorted::spec_map_insert(spec_platmap_view(s), k, v@));
        }
    }
}

/// Every value of an inserted map is the new value or one of the old
/// values.
pub proof fn lemma_map_insert_value_source(
    s: Seq<(crate::platform::PlatformName, crate::buck::PlatformRustCommon)>,
    k: crate::platform::PlatformName,
    v: crate::buck::PlatformRustCommon,
    j: int,
)
    requires
        0 <= j < crate::sorted::spec_map_insert(s, k, v).len(),
    ensures
        crate::sorted::spec_map_insert(s, k, v)[j].1 == v || exists|m: int|
            0 <= m < s.len() && s[m].1 == crate::sorted::spec_map_insert(s, k, v)[j].1,
    decreases s.len(),
{
    let r = crate::sorted::spec_map_insert(s, k, v);
    if s.len() == 0 {
    } else if k.key_cmp(&s[0].0) == core::cmp::Ordering::Less {
        if j > 0 {
            assert(r[j] == s[j - 1]);
        }
    } else if k.key_cmp(&s[0].0) == core::cmp::Ordering::Equal {
        if j > 0 {
            assert(r[j] == s.drop_first()[j - 1]);
            assert(s.drop_first()[j - 1] == s[j]);
        }
    } else {
        if j == 0 {
            assert(r[0] == s[0]);
        } else {
            lemma_map_insert_value_source(s.drop_first(), k, v, j - 1);
            assert(r[j] == crate::sorted::spec_map_insert(s.drop_first(), k, v)[j - 1]);
            if r[j].1 != v {
                let m = choose|m: int|
                    0 <= m < s.drop_first().len() && s.drop_first()[m].1 == r[j].1;
                assert(s[m + 1].1 == r[j].1);
            }
        }
    }
}


/// The platform tags and contents of an attribute stream.
pub open spec fn spec_things_view(s: Seq<(Option<crate::platform::PlatformExpr>, AttrItem)>)
    -> Seq<(Option<crate::platform::PlatformExpr>, AttrView)> {
    s.map_values(|t: (Option<crate::platform::PlatformExpr>, AttrItem)| (t.0, t.1@))
}

pub proof fn lemma_apply_names_push(
    per: Seq<(crate::platform::PlatformName, PrcView)>,
    names: Seq<crate::platform::PlatformName>,
    x: crate::platform::PlatformName,
    item: AttrView,
)
    ensures
        spec_apply_names(per, names.push(x), item) == spec_apply_plat(
            spec_apply_names(per, names, item),
            x,
            item,
        ),
    decreases names.len(),
{
    reveal_with_fuel(spec_apply_names, 3);
    if names.len() == 0 {
        assert(names.push(x)[0] == x);
        assert(names.push(x).drop_first() =~= Seq::<crate::platform::PlatformName>::empty());
    } else {
        lemma_apply_names_push(spec_apply_plat(per, names[0], item), names.drop_first(), x, item);
        assert(names.push(x)[0] == names[0]);
        assert(names.push(x).drop_first() =~= names.drop_first().push(x));
    }
}

/// The partitioner: untagged batches fold into the base record; tagged
/// batches are expanded into the satisfying platform names and fold into
/// each name's bucket, creating it on first use. A malformed expression
/// aborts with that expression.
pub open spec fn spec_unzip(
    platforms: Seq<(crate::platform::PlatformName, crate::platform::PlatformConfig)>,
    base: PrcView,
    per: Seq<(crate::platform::PlatformName, PrcView)>,
    things: Seq<(Option<crate::platform::PlatformExpr>, AttrView)>,
) -> Result<
    (PrcView, Seq<(crate::platform::PlatformName, PrcView)>),
    crate::platform::PlatformExpr,
>
    decreases things.len(),
{
    if things.len() == 0 {
        Result::Ok((base, per))
    } else {
        match things[0].0 {
            Option::None => spec_unzip(
                platforms,
                spec_fold_attr(base, things[0].1),
                per,
                things.drop_first(),
            ),
            Option::Some(e) => {
                if spec_expr_malformed(platforms, e.0@) {
                    Result::Err(e)
                } else {
                    spec_unzip(
                        platforms,
                        base,
                        spec_apply_names(per, spec_expr_names(platforms, e.0@), things[0].1),
                        things.drop_first(),
                    )
                }
            },
        }
    }
}

/// Take a stream of platform-tagged attribute batches and fold each
/// into the base record or the per-platform buckets.
pub fn unzip_platform(
    config: &crate::config::Config,
    common: &mut crate::buck::PlatformRustCommon,
    perplat: &mut crate::sorted::SortedMap<
        crate::platform::PlatformName,
        crate::buck::PlatformRustCommon,
    >,
    things: &Vec<(Option<crate::platform::PlatformExpr>, AttrItem)>,
) -> (r: Result<(), crate::platform::PredicateParseError>)
    requires
        old(common).wf(),
        old(perplat).wf(),
        spec_platmap_values_wf(old(perplat)@),
    ensures
        final(common).wf(),
        final(perplat).wf(),
        spec_platmap_values_wf(final(perplat)@),
        r matches Ok(_) ==> spec_unzip(
            config.platform@,
            old(common)@,
            spec_platmap_view(old(perplat)@),
            spec_things_view(things@),
        ) == Result::<
            (PrcView, Seq<(crate::platform::PlatformName, PrcView)>),
            crate::platform::PlatformExpr,
        >::Ok((final(common)@, spec_platmap_view(final(perplat)@))),
        r matches Err(e) ==> (spec_unzip(
            config.platform@,
            old(common)@,
            spec_platmap_view(old(perplat)@),
            spec_things_view(things@),
        ) matches Err(ex) && ex.0@ == e.0@),
{
    let ghost base0 = common@;
    let ghost per0 = spec_platmap_view(perplat@);
    let ghost tv = spec_things_view(things@);
    let mut i: usize = 0;
    assert(tv.skip(0) =~= tv);
    while i < things.len()
        invariant
            i <= things.len(),
            tv == spec_things_view(things@),
            tv.len() == things.len(),
            base0 == old(common)@,
            per0 == spec_platmap_view(old(perplat)@),
            common.wf(),
            perplat.wf(),
            spec_platmap_values_wf(perplat@),
            spec_unzip(config.platform@, base0, per0, tv) == spec_unzip(
                config.platform@,
                common@,
                spec_platmap_view(perplat@),
                tv.skip(i as int),
            ),
        decreases things.len() - i,
    {
        proof {
            assert(tv.skip(i as int)[0] == tv[i as int]);
            assert(tv[i as int] == (things@[i as int].0, things@[i as int].1@));
            assert(tv.skip(i as int).drop_first() =~= tv.skip(i + 1));
        }
        let entry = &things[i];
        match &entry.0 {
            Option::None => {
                fold_attr(common, &entry.1);
            },
            Option::Some(expr) => {
                match platform_names_for_expr(config, expr) {
                    Result::Err(e) => {
                        proof {
                            assert(spec_expr_malformed(config.platform@, expr.0@));
                            assert(things@[i as int].0->0 == *expr);
                            assert(spec_unzip(
                                config.platform@,
                                common@,
                                spec_platmap_view(perplat@),
                                tv.skip(i as int),
                            ) == Result::<
                                (PrcView, Seq<(crate::platform::PlatformName, PrcView)>),
                                crate::platform::PlatformExpr,
                            >::Err(*expr));
                            assert(e.0@ == expr.0@);
                            assert(spec_unzip(config.platform@, base0, per0, tv)
                                == Result::<
                                (PrcView, Seq<(crate::platform::PlatformName, PrcView)>),
                                crate::platform::PlatformExpr,
                            >::Err(*expr));
                        }
                        return Result::Err(e);
                    },
                    Result::Ok(names) => {
                        let ghost perstart = spec_platmap_view(perplat@);
                        let mut j: usize = 0;
                        assert(names@.take(0) =~= Seq::<crate::platform::PlatformName>::empty());
                        while j < names.len()
                            invariant
                                j <= names.len(),
                                perplat.wf(),
                                spec_platmap_values_wf(perplat@),
                                spec_platmap_view(perplat@) == spec_apply_names(
                                    perstart,
                                    names@.take(j as int),
                                    things@[i as int].1@,
                                ),
                                i < things.len(),
                            decreases names.len() - j,
                        {
                            apply_item_to_platform(perplat, &names[j], &things[i].1);
                            proof {
                                lemma_apply_names_push(
                                    perstart,
                                    names@.take(j as int),
                                    names@[j as int],
                                    things@[i as int].1@,
                                );
                                assert(names@.take(j as int).push(names@[j as int])
                                    =~= names@.take(j + 1));
                            }
                            j = j + 1;
                        }
                        assert(names@.take(names@.len() as int) =~= names@);
                    },
                }
            },
        }
        i = i + 1;
    }
    assert(tv.skip(things@.len() as int) =~= Seq::<
        (Option<crate::platform::PlatformExpr>, AttrView),
    >::empty());
    Result::Ok(())
}


/// Setting a scalar attribute in the bucket of one platform, creating
/// the bucket on first use.
pub open spec fn spec_scalar_apply(
    per: Seq<(crate::platform::PlatformName, String)>,
    name: crate::platform::PlatformName,
    v: String,
) -> Seq<(crate::platform::PlatformName, String)> {
    crate::sorted::spec_map_insert(per, name, v)
}

/// Setting a scalar attribute in the buckets of each named platform.
pub open spec fn spec_scalar_apply_names(
    per: Seq<(crate::platform::PlatformName, String)>,
    names: Seq<crate::platform::PlatformName>,
    v: String,
) -> Seq<(crate::platform::PlatformName, String)>
    decreases names.len(),
{
    if names.len() == 0 {
        per
    } else {
        spec_scalar_apply_names(spec_scalar_apply(per, names[0], v), names.drop_first(), v)
    }
}

pub proof fn lemma_scalar_apply_names_push(
    per: Seq<(crate::platform::PlatformName, String)>,
    names: Seq<crate::platform::PlatformName>,
    x: crate::platform::PlatformName,
    v: String,
)
    ensures
        spec_scalar_apply_names(per, names.push(x), v) == spec_scalar_apply(
            spec_scalar_apply_names(per, names, v),
            x,
            v,
        ),
    decreases names.len(),
{
    reveal_with_fuel(spec_scalar_apply_names, 3);
    if names.len() == 0 {
        assert(names.push(x)[0] == x);
        assert(names.push(x).drop_first() =~= Seq::<crate::platform::PlatformName>::empty());
    } else {
        lemma_scalar_apply_names_push(
            spec_scalar_apply(per, names[0], v),
            names.drop_first(),
            x,
            v,
        );
        assert(names.push(x)[0] == names[0]);
        assert(names.push(x).drop_first() =~= names.drop_first().push(x));
    }
}

/// The partitioner for a scalar attribute: an untagged value replaces
/// the base value; a tagged value is set for each satisfying platform.
pub open spec fn spec_unzip_scalar(
    platforms: Seq<(crate::platform::PlatformName, crate::platform::PlatformConfig)>,
    base: Option<String>,
    per: Seq<(crate::platform::PlatformName, String)>,
    things: Seq<(Option<crate::platform::PlatformExpr>, String)>,
) -> Result<
    (Option<String>, Seq<(crate::platform::PlatformName, String)>),
    crate::platform::PlatformExpr,
>
    decreases things.len(),
{
    if things.len() == 0 {
        Result::Ok((base, per))
    } else {
        match things[0].0 {
            Option::None => spec_unzip_scalar(
                platforms,
                Option::Some(things[0].1),
                per,
                things.drop_first(),
            ),
            Option::Some(e) => {
                if spec_expr_malformed(platforms, e.0@) {
                    Result::Err(e)
                } else {
                    spec_unzip_scalar(
                        platforms,
                        base,
                        spec_scalar_apply_names(per, spec_expr_names(platforms, e.0@), things[0].1),
                        things.drop_first(),
                    )
                }
            },
        }
    }
}

/// Partition a scalar attribute stream.
pub fn unzip_platform_scalar(
    config: &crate::config::Config,
    base: &mut Option<String>,
    per: &mut crate::sorted::SortedMap<crate::platform::PlatformName, String>,
    things: &Vec<(Option<crate::platform::PlatformExpr>, String)>,
) -> (r: Result<(), crate::platform::PredicateParseError>)
    requires
        old(per).wf(),
    ensures
        final(per).wf(),
        r matches Ok(_) ==> spec_unzip_scalar(
            config.platform@,
            *old(base),
            old(per)@,
            things@,
        ) == Result::<
            (Option<String>, Seq<(crate::platform::PlatformName, String)>),
            crate::platform::PlatformExpr,
        >::Ok((*final(base), final(per)@)),
        r matches Err(e) ==> (spec_unzip_scalar(config.platform@, *old(base), old(per)@, things@)
            matches Err(ex) && ex.0@ == e.0@),
{
    let ghost base0 = *base;
    let ghost per0 = per@;
    let mut i: usize = 0;
    assert(things@.skip(0) =~= things@);
    while i < things.len()
        invariant
            i <= things.len(),
            base0 == *old(base),
            per0 == old(per)@,
            per.wf(),
            spec_unzip_scalar(config.platform@, base0, per0, things@) == spec_unzip_scalar(
                config.platform@,
                *base,
                per@,
                things@.skip(i as int),
            ),
        decreases things.len() - i,
    {
        proof {
            assert(things@.skip(i as int)[0] == things@[i as int]);
            assert(things@.skip(i as int).drop_first() =~= things@.skip(i + 1));
        }
        let entry = &things[i];
        match &entry.0 {
            Option::None => {
                *base = Option::Some(crate::strutil::clone_string(&entry.1));
            },
            Option::Some(expr) => {
                match platform_names_for_expr(config, expr) {
                    Result::Err(e) => {
                        proof {
                            assert(spec_expr_malformed(config.platform@, expr.0@));
                            assert(things@[i as int].0->0 == *expr);
                        }
                        return Result::Err(e);
                    },
                    Result::Ok(names) => {
                        let ghost perstart = per@;
                        let mut j: usize = 0;
                        assert(names@.take(0) =~= Seq::<crate::platform::PlatformName>::empty());
                        while j < names.len()
                            invariant
                                j <= names.len(),
                                per.wf(),
                                i < things.len(),
                                per@ == spec_scalar_apply_names(
                                    perstart,
                                    names@.take(j as int),
                                    things@[i as int].1,
                                ),
                            decreases names.len() - j,
                        {
                            proof {
                                crate::sorted::lemma_map_insert_sorted(
                                    per@,
                                    names@[j as int],
                                    things@[i as int].1,
                                );
                            }
                            per.insert(
                                crate::strutil::Dup::dup(&names[j]),
                                crate::strutil::clone_string(&things[i].1),
                            );
                            proof {
                                lemma_scalar_apply_names_push(
                                    perstart,
                                    names@.take(j as int),
                                    names@[j as int],
                                    things@[i as int].1,
                                );
                                assert(names@.take(j as int).push(names@[j as int])
                                    =~= names@.take(j + 1));
                            }
                            j = j + 1;
                        }
                        assert(names@.take(names@.len() as int) =~= names@);
                    },
                }
            },
        }
        i = i + 1;
    }
    assert(things@.skip(things@.len() as int) =~= Seq::<
        (Option<crate::platform::PlatformExpr>, String),
    >::empty());
    Result::Ok(())
}

/// A resolved dependency from the override collaborator: the package it
/// leads to, the reference itself, and an optional rename.
#[derive(Debug, Clone)]
pub struct FixupDep {
    /// Package id to traverse into when the dependency is used.
    pub dep_package: Option<String>,
    pub dep: crate::buck::RuleRef,
    pub rename: Option<String>,
}

/// The batch a dependency folds as: one named dependency when renamed,
/// one plain dependency otherwise. The reference is stripped of its
/// platform guard only where the original stream carried none.
pub open spec fn spec_dep_item(d: FixupDep) -> AttrView {
    match d.rename {
        Option::Some(n) => AttrView::NamedDeps(seq![(n, d.dep)]),
        Option::None => AttrView::Deps(seq![d.dep]),
    }
}

/// The executable form of the dependency batch.
pub fn dep_item(d: &FixupDep) -> (r: AttrItem)
    ensures
        r@ == spec_dep_item(*d),
{
    match &d.rename {
        Option::Some(n) => {
            let mut v: Vec<(String, crate::buck::RuleRef)> = Vec::new();
            v.push((crate::strutil::clone_string(n), crate::strutil::Dup::dup(&d.dep)));
            let r = AttrItem::NamedDeps(v);
            assert(r@ matches AttrView::NamedDeps(sq) && sq =~= seq![
                ((d.rename->0), d.dep),
            ]);
            r
        },
        Option::None => {
            let mut v: Vec<crate::buck::RuleRef> = Vec::new();
            v.push(crate::strutil::Dup::dup(&d.dep));
            let r = AttrItem::Deps(v);
            assert(r@ matches AttrView::Deps(sq) && sq =~= seq![d.dep]);
            r
        },
    }
}

/// The state the dependency fan-out threads along: the base record, the
/// per-platform buckets, and the package ids to traverse into.
pub struct FanState {
    pub base: PrcView,
    pub per: Seq<(crate::platform::PlatformName, PrcView)>,
    pub ids: Seq<String>,
}

/// The ids grow by the dependency's package, when it names one.
pub open spec fn spec_push_id(ids: Seq<String>, d: FixupDep) -> Seq<String> {
    match d.dep_package {
        Option::Some(id) => ids.push(id),
        Option::None => ids,
    }
}

/// One platform-guarded dependency, evaluated against every configured
/// platform in order: for each platform that satisfies the guard, the
/// dependency folds into the base record when that platform is the
/// default, and into the platform's bucket otherwise.
pub open spec fn spec_fanout_plats(
    platforms: Seq<(crate::platform::PlatformName, crate::platform::PlatformConfig)>,
    st: FanState,
    d: FixupDep,
    e: Seq<char>,
) -> Result<FanState, ()>
    decreases platforms.len(),
{
    if platforms.len() == 0 {
        Result::Ok(st)
    } else if crate::platform::spec_malformed(platforms[0].1, e) {
        Result::Err(())
    } else {
        let st1 = if crate::platform::spec_satisfies(platforms[0].1, e) {
            if platforms[0].0.0@ == crate::platform::DEFAULT_PLATFORM_NAME@ {
                FanState {
                    base: spec_fold_attr(st.base, spec_dep_item(d)),
                    per: st.per,
                    ids: spec_push_id(st.ids, d),
                }
            } else {
                FanState {
                    base: st.base,
                    per: spec_apply_plat(st.per, platforms[0].0, spec_dep_item(d)),
                    ids: spec_push_id(st.ids, d),
                }
            }
        } else {
            st
        };
        spec_fanout_plats(platforms.drop_first(), st1, d, e)
    }
}

/// The dependency fan-out over the whole dependency list.
pub open spec fn spec_fanout(
    platforms: Seq<(crate::platform::PlatformName, crate::platform::PlatformConfig)>,
    st: FanState,
    deps: Seq<FixupDep>,
) -> Result<FanState, crate::platform::PlatformExpr>
    decreases deps.len(),
{
    if deps.len() == 0 {
        Result::Ok(st)
    } else {
        let d = deps[0];
        match d.dep.platform {
            Option::None => spec_fanout(
                platforms,
                FanState {
                    base: spec_fold_attr(st.base, spec_dep_item(d)),
                    per: st.per,
                    ids: spec_push_id(st.ids, d),
                },
                deps.drop_first(),
            ),
            Option::Some(e) => {
                match spec_fanout_plats(platforms, st, d, e.0@) {
                    Result::Ok(st1) => spec_fanout(platforms, st1, deps.drop_first()),
                    Result::Err(_) => Result::Err(e),
                }
            },
        }
    }
}

/// Distribute the dependencies over the base record and the platform
/// buckets, collecting the package ids to traverse.
pub fn fanout_deps(
    config: &crate::config::Config,
    common: &mut crate::buck::PlatformRustCommon,
    perplat: &mut crate::sorted::SortedMap<
        crate::platform::PlatformName,
        crate::buck::PlatformRustCommon,
    >,
    dep_ids: &mut Vec<String>,
    deps: &Vec<FixupDep>,
) -> (r: Result<(), crate::platform::PredicateParseError>)
    requires
        old(common).wf(),
        old(perplat).wf(),
        spec_platmap_values_wf(old(perplat)@),
    ensures
        final(common).wf(),
        final(perplat).wf(),
        spec_platmap_values_wf(final(perplat)@),
        r matches Ok(_) ==> spec_fanout(
            config.platform@,
            FanState {
                base: old(common)@,
                per: spec_platmap_view(old(perplat)@),
                ids: old(dep_ids)@,
            },
            deps@,
        ) == Result::<FanState, crate::platform::PlatformExpr>::Ok(
            FanState {
                base: final(common)@,
                per: spec_platmap_view(final(perplat)@),
                ids: final(dep_ids)@,
            },
        ),
        r matches Err(e) ==> (spec_fanout(
            config.platform@,
            FanState {
                base: old(common)@,
                per: spec_platmap_view(old(perplat)@),
                ids: old(dep_ids)@,
            },
            deps@,
        ) matches Err(ex) && ex.0@ == e.0@),
{
    let ghost st0 = FanState {
        base: old(common)@,
        per: spec_platmap_view(old(perplat)@),
        ids: old(dep_ids)@,
    };
    let mut i: usize = 0;
    assert(deps@.skip(0) =~= deps@);
    while i < deps.len()
        invariant
            i <= deps.len(),
            st0 == (FanState {
                base: old(common)@,
                per: spec_platmap_view(old(perplat)@),
                ids: old(dep_ids)@,
            }),
            common.wf(),
            perplat.wf(),
            spec_platmap_values_wf(perplat@),
            spec_fanout(config.platform@, st0, deps@) == spec_fanout(
                config.platform@,
                FanState { base: common@, per: spec_platmap_view(perplat@), ids: dep_ids@ },
                deps@.skip(i as int),
            ),
        decreases deps.len() - i,
    {
        proof {
            assert(deps@.skip(i as int)[0] == deps@[i as int]);
            assert(deps@.skip(i as int).drop_first() =~= deps@.skip(i + 1));
        }
        let d = &deps[i];
        let item = dep_item(d);
        let ghost dv = deps@[i as int];
        match &d.dep.platform {
            Option::None => {
                fold_attr(common, &item);
                match &d.dep_package {
                    Option::Some(id) => {
                        dep_ids.push(crate::strutil::clone_string(id));
                    },
                    Option::None => {},
                }
                proof {
                    assert(spec_fanout(
                        config.platform@,
                        FanState { base: common@, per: spec_platmap_view(perplat@), ids: dep_ids@ },
                        deps@.skip(i + 1),
                    ) == spec_fanout(config.platform@, st0, deps@));
                }
            },
            Option::Some(expr) => {
                let ghost stpre = FanState {
                    base: common@,
                    per: spec_platmap_view(perplat@),
                    ids: dep_ids@,
                };
                let ghost gtext = (deps@[i as int].dep.platform->0).0@;
                let mut k: usize = 0;
                let mut failed: Option<crate::platform::PredicateParseError> = Option::None;
                assert(config.platform@.skip(0) =~= config.platform@);
                while k < config.platform.len() && failed.is_none()
                    invariant
                        k <= config.platform@.len(),
                        i < deps.len(),
                        dv == deps@[i as int],
                        *d == dv,
                        gtext == (deps@[i as int].dep.platform->0).0@,
                        item@ == spec_dep_item(dv),
                        dv.dep.platform is Some,
                        common.wf(),
                        perplat.wf(),
                        spec_platmap_values_wf(perplat@),
                        failed is None ==> spec_fanout_plats(config.platform@, stpre, dv, gtext)
                            == spec_fanout_plats(
                            config.platform@.skip(k as int),
                            FanState {
                                base: common@,
                                per: spec_platmap_view(perplat@),
                                ids: dep_ids@,
                            },
                            dv,
                            gtext,
                        ),
                        failed matches Option::Some(e) ==> (spec_fanout_plats(
                            config.platform@,
                            stpre,
                            dv,
                            gtext,
                        ) is Err && e.0@ == gtext),
                    decreases config.platform@.len() - k,
                {
                    proof {
                        assert(config.platform@.skip(k as int)[0] == config.platform@[k as int]);
                        assert(config.platform@.skip(k as int).drop_first()
                            =~= config.platform@.skip(k + 1));
                    }
                    let pentry = &config.platform[k];
                    proof {
                        assert(*d == dv);
                        assert(d.dep.spec_platform() matches Option::Some(cfg) && cfg.0@ == gtext);
                    }
                    match d.dep.filter(&pentry.1) {
                        Result::Err(e) => {
                            proof {
                                assert(crate::platform::spec_malformed(
                                    config.platform@[k as int].1,
                                    gtext,
                                ));
                                assert(spec_fanout_plats(
                                    config.platform@.skip(k as int),
                                    FanState {
                                        base: common@,
                                        per: spec_platmap_view(perplat@),
                                        ids: dep_ids@,
                                    },
                                    dv,
                                    gtext,
                                ) is Err);
                                assert(e.0@ == gtext);
                            }
                            failed = Option::Some(e);
                        },
                        Result::Ok(applies) => {
                            if applies {
                                if pentry.0.is_default() {
                                    fold_attr(common, &item);
                                } else {
                                    apply_item_to_platform(perplat, &pentry.0, &item);
                                }
                                match &d.dep_package {
                                    Option::Some(id) => {
                                        dep_ids.push(crate::strutil::clone_string(id));
                                    },
                                    Option::None => {},
                                }
                            }
                        },
                    }
                    k = k + 1;
                }
                match failed {
                    Option::Some(e) => {
                        proof {
                            assert(spec_fanout(config.platform@, st0, deps@) == spec_fanout(
                                config.platform@,
                                stpre,
                                deps@.skip(i as int),
                            ));
                            assert(spec_fanout(config.platform@, stpre, deps@.skip(i as int))
                                matches Err(ex) && ex.0@ == gtext);
                        }
                        return Result::Err(e);
                    },
                    Option::None => {
                        proof {
                            assert(k == config.platform@.len());
                            assert(config.platform@.skip(k as int) =~= Seq::<
                                (crate::platform::PlatformName, crate::platform::PlatformConfig),
                            >::empty());
                            assert(spec_fanout_plats(config.platform@, stpre, dv, gtext)
                                == Result::<FanState, ()>::Ok(
                                FanState {
                                    base: common@,
                                    per: spec_platmap_view(perplat@),
                                    ids: dep_ids@,
                                },
                            ));
                        }
                    },
                }
            },
        }
        i = i + 1;
    }
    assert(deps@.skip(deps@.len() as int) =~= Seq::<FixupDep>::empty());
    Result::Ok(())
}


/// The per-target answers of the override collaborator, as data: the
/// flags, the platform-tagged attribute streams, the resolved
/// dependencies, and the build-script policy.
#[derive(Debug, Clone)]
pub struct TargetFixups {
    /// Omit this target entirely.
    pub omit_target: bool,
    /// Use precise per-file source detection for this target.
    pub precise_srcs: bool,
    /// The extension module name, for a library built as one.
    pub python_ext: Option<String>,
    /// Extra command-line flags, platform-tagged.
    pub cmdline: Vec<(Option<crate::platform::PlatformExpr>, AttrItem)>,
    /// Extra sources, platform-tagged.
    pub extra_srcs: Vec<(Option<crate::platform::PlatformExpr>, AttrItem)>,
    /// Generated sources, platform-tagged; they land among the mapped
    /// sources.
    pub gen_srcs: Vec<(Option<crate::platform::PlatformExpr>, AttrItem)>,
    /// Mapped sources, platform-tagged.
    pub mapped_srcs: Vec<(Option<crate::platform::PlatformExpr>, AttrItem)>,
    /// Features, platform-tagged.
    pub features: Vec<(Option<crate::platform::PlatformExpr>, AttrItem)>,
    /// Environment entries, platform-tagged.
    pub env: Vec<(Option<crate::platform::PlatformExpr>, AttrItem)>,
    /// The resolved dependencies, each optionally guarded and renamed.
    pub deps: Vec<FixupDep>,
    /// Link style entries, platform-tagged; binaries only.
    pub link_style: Vec<(Option<crate::platform::PlatformExpr>, String)>,
    /// Preferred linkage entries, platform-tagged; libraries only.
    pub preferred_linkage: Vec<(Option<crate::platform::PlatformExpr>, String)>,
    /// Whether the build-script policy keeps the synthesized binary.
    pub emit_buildscript_binary: bool,
    /// Further declarations the build-script policy emits.
    pub buildscript_extra: Vec<crate::buck::Rule>,
    /// License files found near the manifest, as relative paths.
    pub license_files: Vec<crate::buck::BuckPath>,
}

/// A failure to expand a platform expression while assembling one
/// attribute category of a target.
#[derive(Debug, Clone)]
pub struct TargetError {
    /// The attribute category being assembled.
    pub category: String,
    /// The offending expression text.
    pub expr: String,
}

/// The assembled attribute state of one target.
pub struct AttrStateFull {
    pub base: PrcView,
    pub per: Seq<(crate::platform::PlatformName, PrcView)>,
    pub ids: Seq<String>,
    pub ls_base: Option<String>,
    pub ls_per: Seq<(crate::platform::PlatformName, String)>,
    pub pl_base: Option<String>,
    pub pl_per: Seq<(crate::platform::PlatformName, String)>,
}

/// The global platform flags applied to the per-platform buckets, in
/// configuration order.
pub open spec fn spec_global_plat_flags(
    per: Seq<(crate::platform::PlatformName, PrcView)>,
    entries: Seq<(crate::platform::PlatformName, Vec<String>)>,
) -> Seq<(crate::platform::PlatformName, PrcView)>
    decreases entries.len(),
{
    if entries.len() == 0 {
        per
    } else {
        spec_global_plat_flags(
            spec_apply_plat(per, entries[0].0, AttrView::Flags(entries[0].1@)),
            entries.drop_first(),
        )
    }
}

pub proof fn lemma_global_plat_flags_push(
    per: Seq<(crate::platform::PlatformName, PrcView)>,
    entries: Seq<(crate::platform::PlatformName, Vec<String>)>,
    x: (crate::platform::PlatformName, Vec<String>),
)
    ensures
        spec_global_plat_flags(per, entries.push(x)) == spec_apply_plat(
            spec_global_plat_flags(per, entries),
            x.0,
            AttrView::Flags(x.1@),
        ),
    decreases entries.len(),
{
    reveal_with_fuel(spec_global_plat_flags, 3);
    if entries.len() == 0 {
        assert(entries.push(x)[0] == x);
        assert(entries.push(x).drop_first() =~= Seq::<
            (crate::platform::PlatformName, Vec<String>),
        >::empty());
    } else {
        lemma_global_plat_flags_push(
            spec_apply_plat(per, entries[0].0, AttrView::Flags(entries[0].1@)),
            entries.drop_first(),
            x,
        );
        assert(entries.push(x)[0] == entries[0]);
        assert(entries.push(x).drop_first() =~= entries.drop_first().push(x));
    }
}

/// The whole attribute pipeline of one target: the global flags, then
/// each platform-tagged stream in its fixed order, then the dependency
/// fan-out, then the scalar link attributes. The first malformed
/// expression aborts, naming the category being assembled.
pub open spec fn spec_target_attrs(
    config: crate::config::Config,
    tf: TargetFixups,
) -> Result<AttrStateFull, (Seq<char>, crate::platform::PlatformExpr)> {
    let plats = config.platform@;
    let base0 = PrcView { rustc_flags: config.rustc_flags@, ..spec_empty_prc() };
    let per0 = spec_global_plat_flags(
        Seq::<(crate::platform::PlatformName, PrcView)>::empty(),
        config.platform_rustc_flags@,
    );
    match spec_unzip(plats, base0, per0, spec_things_view(tf.cmdline@)) {
        Result::Err(e) => Result::Err(("rustc_flags"@, e)),
        Result::Ok((b1, p1)) => match spec_unzip(plats, b1, p1, spec_things_view(tf.extra_srcs@)) {
            Result::Err(e) => Result::Err(("srcs"@, e)),
            Result::Ok((b2, p2)) => match spec_unzip(
                plats,
                b2,
                p2,
                spec_things_view(tf.gen_srcs@),
            ) {
                Result::Err(e) => Result::Err(("mapped_srcs(gen_srcs)"@, e)),
                Result::Ok((b3, p3)) => match spec_unzip(
                    plats,
                    b3,
                    p3,
                    spec_things_view(tf.mapped_srcs@),
                ) {
                    Result::Err(e) => Result::Err(("mapped_srcs(paths)"@, e)),
                    Result::Ok((b4, p4)) => match spec_unzip(
                        plats,
                        b4,
                        p4,
                        spec_things_view(tf.features@),
                    ) {
                        Result::Err(e) => Result::Err(("features"@, e)),
                        Result::Ok((b5, p5)) => match spec_unzip(
                            plats,
                            b5,
                            p5,
                            spec_things_view(tf.env@),
                        ) {
                            Result::Err(e) => Result::Err(("env"@, e)),
                            Result::Ok((b6, p6)) => match spec_fanout(
                                plats,
                                FanState { base: b6, per: p6, ids: Seq::<String>::empty() },
                                tf.deps@,
                            ) {
                                Result::Err(e) => Result::Err(("deps"@, e)),
                                Result::Ok(fan) => match spec_unzip_scalar(
                                    plats,
                                    Option::None,
                                    Seq::<(crate::platform::PlatformName, String)>::empty(),
                                    tf.link_style@,
                                ) {
                                    Result::Err(e) => Result::Err(("link_style"@, e)),
                                    Result::Ok((lsb, lsp)) => match spec_unzip_scalar(
                                        plats,
                                        Option::None,
                                        Seq::<(crate::platform::PlatformName, String)>::empty(),
                                        tf.preferred_linkage@,
                                    ) {
                                        Result::Err(e) => Result::Err(("preferred_linkage"@, e)),
                                        Result::Ok((plb, plp)) => Result::Ok(
                                            AttrStateFull {
                                                base: fan.base,
                                                per: fan.per,
                                                ids: fan.ids,
                                                ls_base: lsb,
                                                ls_per: lsp,
                                                pl_base: plb,
                                                pl_per: plp,
                                            },
                                        ),
                                    },
                                },
                            },
                        },
                    },
                },
            },
        },
    }
}

/// The assembled attribute state, in executable form.
pub struct TargetAttrs {
    pub base: crate::buck::PlatformRustCommon,
    pub perplat: crate::sorted::SortedMap<
        crate::platform::PlatformName,
        crate::buck::PlatformRustCommon,
    >,
    pub dep_ids: Vec<String>,
    pub ls_base: Option<String>,
    pub ls_per: crate::sorted::SortedMap<crate::platform::PlatformName, String>,
    pub pl_base: Option<String>,
    pub pl_per: crate::sorted::SortedMap<crate::platform::PlatformName, String>,
}

/// Assemble the attribute state of one target from the configuration
/// and the override collaborator's streams.
pub fn assemble_target_attrs(config: &crate::config::Config, fixups: &TargetFixups) -> (r: Result<
    TargetAttrs,
    TargetError,
>)
    ensures
        r matches Ok(st) ==> {
            &&& st.base.wf()
            &&& st.perplat.wf()
            &&& spec_platmap_values_wf(st.perplat@)
            &&& st.ls_per.wf()
            &&& st.pl_per.wf()
            &&& spec_target_attrs(*config, *fixups) == Result::<
                AttrStateFull,
                (Seq<char>, crate::platform::PlatformExpr),
            >::Ok(
                AttrStateFull {
                    base: st.base@,
                    per: spec_platmap_view(st.perplat@),
                    ids: st.dep_ids@,
                    ls_base: st.ls_base,
                    ls_per: st.ls_per@,
                    pl_base: st.pl_base,
                    pl_per: st.pl_per@,
                },
            )
        },
        r matches Err(e) ==> (spec_target_attrs(*config, *fixups) matches Err(se) && se.0
            == e.category@ && se.1.0@ == e.expr@),
{
    let mut base = crate::buck::PlatformRustCommon::empty();
    let mut flags: Vec<String> = Vec::new();
    let mut fi: usize = 0;
    assert(config.rustc_flags@.take(0) =~= Seq::<String>::empty());
    while fi < config.rustc_flags.len()
        invariant
            fi <= config.rustc_flags.len(),
            flags@ == config.rustc_flags@.take(fi as int),
        decreases config.rustc_flags.len() - fi,
    {
        flags.push(crate::strutil::clone_string(&config.rustc_flags[fi]));
        assert(flags@ =~= config.rustc_flags@.take(fi + 1));
        fi = fi + 1;
    }
    assert(config.rustc_flags@.take(config.rustc_flags@.len() as int) =~= config.rustc_flags@);
    base.rustc_flags = flags;
    proof {
        assert(base@ == PrcView { rustc_flags: config.rustc_flags@, ..spec_empty_prc() });
    }

    let mut perplat: crate::sorted::SortedMap<
        crate::platform::PlatformName,
        crate::buck::PlatformRustCommon,
    > = crate::sorted::SortedMap::new();
    let mut gi: usize = 0;
    assert(config.platform_rustc_flags@.take(0) =~= Seq::<
        (crate::platform::PlatformName, Vec<String>),
    >::empty());
    assert(spec_platmap_view(perplat@) =~= Seq::<
        (crate::platform::PlatformName, PrcView),
    >::empty());
    while gi < config.platform_rustc_flags.len()
        invariant
            gi <= config.platform_rustc_flags.len(),
            perplat.wf(),
            spec_platmap_values_wf(perplat@),
            spec_platmap_view(perplat@) == spec_global_plat_flags(
                Seq::<(crate::platform::PlatformName, PrcView)>::empty(),
                config.platform_rustc_flags@.take(gi as int),
            ),
        decreases config.platform_rustc_flags.len() - gi,
    {
        let entry = &config.platform_rustc_flags[gi];
        let item = AttrItem::Flags(crate::strutil::dup_vec(&entry.1));
        proof {
            assert(item@ == AttrView::Flags(config.platform_rustc_flags@[gi as int].1@));
        }
        apply_item_to_platform(&mut perplat, &entry.0, &item);
        proof {
            lemma_global_plat_flags_push(
                Seq::<(crate::platform::PlatformName, PrcView)>::empty(),
                config.platform_rustc_flags@.take(gi as int),
                config.platform_rustc_flags@[gi as int],
            );
            assert(config.platform_rustc_flags@.take(gi as int).push(
                config.platform_rustc_flags@[gi as int],
            ) =~= config.platform_rustc_flags@.take(gi + 1));
        }
        gi = gi + 1;
    }
    assert(config.platform_rustc_flags@.take(config.platform_rustc_flags@.len() as int)
        =~= config.platform_rustc_flags@);

    match unzip_platform(config, &mut base, &mut perplat, &fixups.cmdline) {
        Result::Err(e) => {
            return Result::Err(
                TargetError {
                    category: crate::strutil::clone_string_ref("rustc_flags"),
                    expr: e.0,
                },
            );
        },
        Result::Ok(_) => {},
    }
    match unzip_platform(config, &mut base, &mut perplat, &fixups.extra_srcs) {
        Result::Err(e) => {
            return Result::Err(
                TargetError { category: crate::strutil::clone_string_ref("srcs"), expr: e.0 },
            );
        },
        Result::Ok(_) => {},
    }
    match unzip_platform(config, &mut base, &mut perplat, &fixups.gen_srcs) {
        Result::Err(e) => {
            return Result::Err(
                TargetError {
                    category: crate::strutil::clone_string_ref("mapped_srcs(gen_srcs)"),
                    expr: e.0,
                },
            );
        },
        Result::Ok(_) => {},
    }
    match unzip_platform(config, &mut base, &mut perplat, &fixups.mapped_srcs) {
        Result::Err(e) => {
            return Result::Err(
                TargetError {
                    category: crate::strutil::clone_string_ref("mapped_srcs(paths)"),
                    expr: e.0,
                },
            );
        },
        Result::Ok(_) => {},
    }
    match unzip_platform(config, &mut base, &mut perplat, &fixups.features) {
        Result::Err(e) => {
            return Result::Err(
                TargetError { category: crate::strutil::clone_string_ref("features"), expr: e.0 },
            );
        },
        Result::Ok(_) => {},
    }
    match unzip_platform(config, &mut base, &mut perplat, &fixups.env) {
        Result::Err(e) => {
            return Result::Err(
                TargetError { category: crate::strutil::clone_string_ref("env"), expr: e.0 },
            );
        },
        Result::Ok(_) => {},
    }
    let mut dep_ids: Vec<String> = Vec::new();
    match fanout_deps(config, &mut base, &mut perplat, &mut dep_ids, &fixups.deps) {
        Result::Err(e) => {
            return Result::Err(
                TargetError { category: crate::strutil::clone_string_ref("deps"), expr: e.0 },
            );
        },
        Result::Ok(_) => {},
    }
    let mut ls_base: Option<String> = Option::None;
    let mut ls_per: crate::sorted::SortedMap<crate::platform::PlatformName, String> =
        crate::sorted::SortedMap::new();
    match unzip_platform_scalar(config, &mut ls_base, &mut ls_per, &fixups.link_style) {
        Result::Err(e) => {
            return Result::Err(
                TargetError { category: crate::strutil::clone_string_ref("link_style"), expr: e.0 },
            );
        },
        Result::Ok(_) => {},
    }
    let mut pl_base: Option<String> = Option::None;
    let mut pl_per: crate::sorted::SortedMap<crate::platform::PlatformName, String> =
        crate::sorted::SortedMap::new();
    match unzip_platform_scalar(config, &mut pl_base, &mut pl_per, &fixups.preferred_linkage) {
        Result::Err(e) => {
            return Result::Err(
                TargetError {
                    category: crate::strutil::clone_string_ref("preferred_linkage"),
                    expr: e.0,
                },
            );
        },
        Result::Ok(_) => {},
    }
    Result::Ok(
        TargetAttrs { base, perplat, dep_ids, ls_base, ls_per, pl_base, pl_per },
    )
}


/// The texts of a path list.
pub open spec fn spec_ptexts(s: Seq<crate::buck::BuckPath>) -> Seq<Seq<char>> {
    s.map_values(|p: crate::buck::BuckPath| p.0@)
}

/// Insertion into a sorted list of path texts, mirroring the path-set
/// insertion order.
pub open spec fn spec_ptext_insert(s: Seq<Seq<char>>, x: Seq<char>) -> Seq<Seq<char>>
    decreases s.len(),
{
    if s.len() == 0 {
        seq![x]
    } else if crate::order::spec_buildifier_cmp(x, s[0]) == core::cmp::Ordering::Less {
        seq![x].add(s)
    } else if crate::order::spec_buildifier_cmp(x, s[0]) == core::cmp::Ordering::Equal {
        s
    } else {
        seq![s[0]].add(spec_ptext_insert(s.drop_first(), x))
    }
}

pub open spec fn spec_ptext_insert_all(s: Seq<Seq<char>>, items: Seq<Seq<char>>) -> Seq<Seq<char>>
    decreases items.len(),
{
    if items.len() == 0 {
        s
    } else {
        spec_ptext_insert_all(spec_ptext_insert(s, items[0]), items.drop_first())
    }
}

/// Inserting a path and then reading the texts is inserting its text.
pub proof fn lemma_ptext_insert(s: Seq<crate::buck::BuckPath>, x: crate::buck::BuckPath)
    ensures
        spec_ptexts(crate::sorted::spec_set_insert(s, x)) == spec_ptext_insert(
            spec_ptexts(s),
            x.0@,
        ),
    decreases s.len(),
{
    if s.len() == 0 {
        assert(spec_ptexts(crate::sorted::spec_set_insert(s, x)) =~= spec_ptext_insert(
            spec_ptexts(s),
            x.0@,
        ));
    } else {
        lemma_ptext_insert(s.drop_first(), x);
        assert(spec_ptexts(s)[0] == s[0].0@);
        assert(spec_ptexts(s).drop_first() =~= spec_ptexts(s.drop_first()));
        if x.key_cmp(&s[0]) == core::cmp::Ordering::Less {
            assert(spec_ptexts(crate::sorted::spec_set_insert(s, x)) =~= spec_ptext_insert(
                spec_ptexts(s),
                x.0@,
            ));
        } else if x.key_cmp(&s[0]) == core::cmp::Ordering::Equal {
            assert(spec_ptexts(crate::sorted::spec_set_insert(s, x)) =~= spec_ptext_insert(
                spec_ptexts(s),
                x.0@,
            ));
        } else {
            assert(spec_ptexts(crate::sorted::spec_set_insert(s, x)) =~= spec_ptext_insert(
                spec_ptexts(s),
                x.0@,
            ));
        }
    }
}

pub proof fn lemma_ptext_insert_all(s: Seq<crate::buck::BuckPath>, items: Seq<crate::buck::BuckPath>)
    ensures
        spec_ptexts(crate::sorted::spec_set_insert_all(s, items)) == spec_ptext_insert_all(
            spec_ptexts(s),
            spec_ptexts(items),
        ),
    decreases items.len(),
{
    if items.len() == 0 {
        assert(spec_ptexts(items).len() == 0);
    } else {
        lemma_ptext_insert(s, items[0]);
        lemma_ptext_insert_all(crate::sorted::spec_set_insert(s, items[0]), items.drop_first());
        assert(spec_ptexts(items)[0] == items[0].0@);
        assert(spec_ptexts(items).drop_first() =~= spec_ptexts(items.drop_first()));
    }
}

/// Setting a scalar link attribute in the bucket of one platform.
pub open spec fn spec_set_scalar(
    per: Seq<(crate::platform::PlatformName, PrcView)>,
    name: crate::platform::PlatformName,
    v: String,
    link: bool,
) -> Seq<(crate::platform::PlatformName, PrcView)> {
    let i = crate::sorted::spec_find_key(per, name);
    let fresh = if link {
        PrcView { link_style: Option::Some(v), ..spec_empty_prc() }
    } else {
        PrcView { preferred_linkage: Option::Some(v), ..spec_empty_prc() }
    };
    if i == -1 {
        crate::sorted::spec_map_insert(per, name, fresh)
    } else {
        let updated = if link {
            PrcView { link_style: Option::Some(v), ..per[i].1 }
        } else {
            PrcView { preferred_linkage: Option::Some(v), ..per[i].1 }
        };
        per.update(i, (per[i].0, updated))
    }
}

/// Setting a scalar link attribute for each of its platform entries.
pub open spec fn spec_merge_scalar(
    per: Seq<(crate::platform::PlatformName, PrcView)>,
    entries: Seq<(crate::platform::PlatformName, String)>,
    link: bool,
) -> Seq<(crate::platform::PlatformName, PrcView)>
    decreases entries.len(),
{
    if entries.len() == 0 {
        per
    } else {
        spec_merge_scalar(
            spec_set_scalar(per, entries[0].0, entries[0].1, link),
            entries.drop_first(),
            link,
        )
    }
}

pub proof fn lemma_merge_scalar_push(
    per: Seq<(crate::platform::PlatformName, PrcView)>,
    entries: Seq<(crate::platform::PlatformName, String)>,
    x: (crate::platform::PlatformName, String),
    link: bool,
)
    ensures
        spec_merge_scalar(per, entries.push(x), link) == spec_set_scalar(
            spec_merge_scalar(per, entries, link),
            x.0,
            x.1,
            link,
        ),
    decreases entries.len(),
{
    reveal_with_fuel(spec_merge_scalar, 3);
    if entries.len() == 0 {
        assert(entries.push(x)[0] == x);
        assert(entries.push(x).drop_first() =~= Seq::<
            (crate::platform::PlatformName, String),
        >::empty());
    } else {
        lemma_merge_scalar_push(
            spec_set_scalar(per, entries[0].0, entries[0].1, link),
            entries.drop_first(),
            x,
            link,
        );
        assert(entries.push(x)[0] == entries[0]);
        assert(entries.push(x).drop_first() =~= entries.drop_first().push(x));
    }
}

/// Set a scalar link attribute in the bucket of one platform, creating
/// the bucket on first use.
fn set_scalar_on_platform(
    perplat: &mut crate::sorted::SortedMap<
        crate::platform::PlatformName,
        crate::buck::PlatformRustCommon,
    >,
    name: &crate::platform::PlatformName,
    v: &String,
    link: bool,
)
    requires
        old(perplat).wf(),
        spec_platmap_values_wf(old(perplat)@),
    ensures
        final(perplat).wf(),
        spec_platmap_values_wf(final(perplat)@),
        spec_platmap_view(final(perplat)@) == spec_set_scalar(
            spec_platmap_view(old(perplat)@),
            *name,
            *v,
            link,
        ),
{
    let ghost s0 = perplat@;
    let n = perplat.len();
    proof {
        crate::sorted::lemma_find_key(s0, *name);
        lemma_find_key_view(s0, *name);
        assert(s0.len() == n as int);
    }
    match perplat.get_index_of(name) {
        Option::Some(i) => {
            let empty = crate::buck::PlatformRustCommon::empty();
            let mut prc = perplat.swap_value(i, empty);
            if link {
                prc.link_style = Option::Some(crate::strutil::clone_string(v));
            } else {
                prc.preferred_linkage = Option::Some(crate::strutil::clone_string(v));
            }
            perplat.swap_value(i, prc);
            proof {
                assert(perplat@ =~= s0.update(i as int, (s0[i as int].0, prc)));
                assert forall|m: int| 0 <= m < perplat@.len() implies (
                #[trigger] perplat@[m].1).wf() by {
                    if m != i {
                        assert(perplat@[m] == s0[m]);
                    }
                }
                assert(crate::sorted::spec_find_key(spec_platmap_view(s0), *name) == i as int);
                let ghost rhs = spec_set_scalar(spec_platmap_view(s0), *name, *v, link);
                assert(spec_platmap_view(s0)[i as int] == (s0[i as int].0, s0[i as int].1@));
                assert forall|m: int| 0 <= m < perplat@.len() implies spec_platmap_view(perplat@)[m]
                    == rhs[m] by {
                    assert(spec_platmap_view(perplat@)[m] == (perplat@[m].0, perplat@[m].1@));
                    if m != i {
                        assert(perplat@[m] == s0[m]);
                        assert(rhs[m] == spec_platmap_view(s0)[m]);
                        assert(spec_platmap_view(s0)[m] == (s0[m].0, s0[m].1@));
                    }
                }
                assert(spec_platmap_view(perplat@) =~= rhs);
            }
        },
        Option::None => {
            let mut prc = crate::buck::PlatformRustCommon::empty();
            if link {
                prc.link_style = Option::Some(crate::strutil::clone_string(v));
            } else {
                prc.preferred_linkage = Option::Some(crate::strutil::clone_string(v));
            }
            perplat.insert(crate::strutil::Dup::dup(name), prc);
            proof {
                crate::sorted::lemma_map_insert_sorted(s0, *name, prc);
                lemma_map_insert_view(s0, *name, prc);
                assert forall|m: int| 0 <= m < perplat@.len() implies (
                #[trigger] perplat@[m].1).wf() by {
                    lemma_map_insert_value_source(s0, *name, prc, m);
                }
            }
        },
    }
}

/// Set a scalar link attribute for every entry of its partitioned map.
fn merge_scalar(
    perplat: &mut crate::sorted::SortedMap<
        crate::platform::PlatformName,
        crate::buck::PlatformRustCommon,
    >,
    entries: &crate::sorted::SortedMap<crate::platform::PlatformName, String>,
    link: bool,
)
    requires
        old(perplat).wf(),
        spec_platmap_values_wf(old(perplat)@),
    ensures
        final(perplat).wf(),
        spec_platmap_values_wf(final(perplat)@),
        spec_platmap_view(final(perplat)@) == spec_merge_scalar(
            spec_platmap_view(old(perplat)@),
            entries@,
            link,
        ),
{
    let ghost per0 = spec_platmap_view(perplat@);
    let len = entries.len();
    let mut i: usize = 0;
    assert(entries@.take(0) =~= Seq::<(crate::platform::PlatformName, String)>::empty());
    while i < len
        invariant
            i <= len,
            len == entries@.len(),
            per0 == spec_platmap_view(old(perplat)@),
            perplat.wf(),
            spec_platmap_values_wf(perplat@),
            spec_platmap_view(perplat@) == spec_merge_scalar(
                per0,
                entries@.take(i as int),
                link,
            ),
        decreases len - i,
    {
        let entry = entries.get(i);
        set_scalar_on_platform(perplat, &entry.0, &entry.1, link);
        proof {
            lemma_merge_scalar_push(per0, entries@.take(i as int), entries@[i as int], link);
            assert(entries@.take(i as int).push(entries@[i as int]) =~= entries@.take(i + 1));
        }
        i = i + 1;
    }
    assert(entries@.take(entries@.len() as int) =~= entries@);
}

/// The text with `-` replaced by `_`: a target name as a crate name.
pub open spec fn spec_underscore(s: Seq<char>) -> Seq<char> {
    Seq::new(s.len(), |i: int| if s[i] == '-' { '_' } else { s[i] })
}

/// Replace `-` with `_`.
pub fn dash_to_underscore(s: &str) -> (r: String)
    ensures
        r@ == spec_underscore(s@),
{
    let len = s.unicode_len();
    let mut out = String::new();
    let mut i: usize = 0;
    loop
        invariant
            i <= len,
            len == s@.len(),
            out@ == spec_underscore(s@).subrange(0, i as int),
        decreases len - i,
    {
        if i == len {
            assert(spec_underscore(s@).subrange(0, len as int) =~= spec_underscore(s@));
            return out;
        }
        let c = s.get_char(i);
        if c == '-' {
            push_char(&mut out, '_');
        } else {
            push_char(&mut out, c);
        }
        assert(out@ =~= spec_underscore(s@).subrange(0, i + 1));
        i = i + 1;
    }
}

/// `a-b`, the hyphenated join used for derived declaration names.
pub fn concat_dash(a: &str, b: &str) -> (r: String)
    ensures
        r@ == a@ + seq!['-'] + b@,
{
    let mut out = String::new();
    crate::strutil::push_str(&mut out, a);
    push_char(&mut out, '-');
    crate::strutil::push_str(&mut out, b);
    assert(out@ =~= a@ + seq!['-'] + b@);
    out
}

/// `a/b`, or just `b` when `a` is empty.
pub open spec fn spec_join_path(a: Seq<char>, b: Seq<char>) -> Seq<char> {
    if a.len() == 0 {
        b
    } else {
        a.add(seq!['/']).add(b)
    }
}

pub fn join_path(a: &str, b: &str) -> (r: String)
    ensures
        r@ == spec_join_path(a@, b@),
{
    let mut out = String::new();
    if !a.is_empty() {
        crate::strutil::push_str(&mut out, a);
        push_char(&mut out, '/');
    }
    crate::strutil::push_str(&mut out, b);
    assert(out@ =~= spec_join_path(a@, b@));
    out
}

/// The single glob pattern used when no precise source list is
/// available: everything under the target's source directory.
pub open spec fn spec_fallback_glob(src_path: Seq<char>) -> Seq<char> {
    if spec_comps(src_path).len() == 0 {
        "**/*.rs"@
    } else {
        crate::render::spec_join("/"@, spec_comps(src_path).drop_last().push("**/*.rs"@))
    }
}

/// The source texts of a target: the normalized precise list when
/// precise detection is on, possible, and produced anything; the single
/// fallback glob otherwise.
pub open spec fn spec_srcs_texts(
    precise: bool,
    edition: crate::cargo::Edition,
    detected: Seq<Seq<char>>,
    src_path: Seq<char>,
) -> Seq<Seq<char>> {
    if precise && edition.spec_precise_capable() && detected.len() > 0 {
        detected.map_values(|d: Seq<char>| spec_normalize_dotdot(d))
    } else {
        seq![spec_fallback_glob(src_path)]
    }
}

/// Compute the source list of a target.
pub fn computed_srcs(
    precise: bool,
    edition: &crate::cargo::Edition,
    detected: &Vec<String>,
    src_path: &str,
) -> (r: Vec<crate::buck::BuckPath>)
    ensures
        spec_ptexts(r@) == spec_srcs_texts(precise, *edition, detected.deep_view(), src_path@),
{
    let mut out: Vec<crate::buck::BuckPath> = Vec::new();
    if precise && edition.precise_capable() && detected.len() > 0 {
        let mut i: usize = 0;
        while i < detected.len()
            invariant
                i <= detected.len(),
                detected.deep_view().len() == detected.len(),
                spec_ptexts(out@) == detected.deep_view().take(i as int).map_values(
                    |d: Seq<char>| spec_normalize_dotdot(d),
                ),
            decreases detected.len() - i,
        {
            let ghost pre = spec_ptexts(out@);
            out.push(crate::buck::BuckPath(normalize_dotdot(detected[i].as_str())));
            assert(spec_ptexts(out@) =~= pre.push(
                spec_normalize_dotdot(detected.deep_view()[i as int]),
            ));
            assert(spec_ptexts(out@) =~= detected.deep_view().take(i + 1).map_values(
                |d: Seq<char>| spec_normalize_dotdot(d),
            ));
            i = i + 1;
        }
        assert(detected.deep_view().take(detected.deep_view().len() as int)
            =~= detected.deep_view());
        out
    } else {
        let mut comps = path_comps(src_path);
        if comps.len() > 0 {
            let ghost pre = comps.deep_view();
            let popped = comps.pop();
            assert(comps.deep_view() =~= pre.drop_last());
        }
        comps.push(crate::strutil::clone_string_ref("**/*.rs"));
        let mut glob = String::new();
        crate::render::push_joined(&mut glob, &comps, "/");
        proof {
            if spec_comps(src_path@).len() == 0 {
                assert(comps.deep_view() =~= seq!["**/*.rs"@]);
                assert(glob@ == crate::render::spec_join("/"@, seq!["**/*.rs"@]));
                assert(glob@ == spec_fallback_glob(src_path@));
            } else {
                assert(comps.deep_view() =~= spec_comps(src_path@).drop_last().push("**/*.rs"@));
            }
        }
        out.push(crate::buck::BuckPath(glob));
        assert(spec_ptexts(out@) =~= seq![spec_fallback_glob(src_path@)]);
        out
    }
}


/// Library-like: a library, a proc-macro compiled as a library, or a
/// C dynamic library compiled as one.
pub open spec fn spec_is_lib_target(t: crate::cargo::ManifestTarget) -> bool {
    ||| (t.spec_kind(crate::cargo::TargetKind::Lib) && t.spec_crate(crate::cargo::TargetKind::Lib))
    ||| (t.spec_kind(crate::cargo::TargetKind::ProcMacro) && t.spec_crate(
        crate::cargo::TargetKind::ProcMacro,
    ))
    ||| (t.spec_kind(crate::cargo::TargetKind::Cdylib) && t.spec_crate(
        crate::cargo::TargetKind::Cdylib,
    ))
}

/// A build script: a binary crate declared as a custom build target.
pub open spec fn spec_is_buildscript_target(t: crate::cargo::ManifestTarget) -> bool {
    t.spec_crate(crate::cargo::TargetKind::Bin) && t.spec_kind(crate::cargo::TargetKind::CustomBuild)
}

/// A plain binary target.
pub open spec fn spec_is_bin_target(t: crate::cargo::ManifestTarget) -> bool {
    t.spec_kind(crate::cargo::TargetKind::Bin) && t.spec_crate(crate::cargo::TargetKind::Bin)
}

/// The edition a target compiles under: its own, or its package's.
pub open spec fn spec_edition(
    t: crate::cargo::ManifestTarget,
    p: crate::cargo::Manifest,
) -> crate::cargo::Edition {
    match t.edition {
        Option::Some(e) => e,
        Option::None => p.edition,
    }
}

/// The sorted license texts of a target: the walked license files, plus
/// the manifest's own license file relative to the third-party
/// directory.
pub open spec fn spec_license_texts(
    tpd: Seq<char>,
    pkg: crate::cargo::Manifest,
    files: Seq<crate::buck::BuckPath>,
) -> Seq<Seq<char>> {
    let base = spec_ptext_insert_all(Seq::<Seq<char>>::empty(), spec_ptexts(files));
    match pkg.license_file {
        Option::None => base,
        Option::Some(f) => spec_ptext_insert(
            base,
            spec_join_path(spec_relative_path(tpd, pkg.manifest_dir@), f@),
        ),
    }
}

/// The license set of a target.
fn build_licenses(third_party_dir: &str, pkg: &crate::cargo::Manifest, files: &Vec<
    crate::buck::BuckPath,
>) -> (r: crate::sorted::SortedSet<crate::buck::BuckPath>)
    ensures
        r.wf(),
        spec_ptexts(r@) == spec_license_texts(third_party_dir@, *pkg, files@),
{
    let mut out: crate::sorted::SortedSet<crate::buck::BuckPath> =
        crate::sorted::SortedSet::new();
    out.insert_all(files);
    proof {
        lemma_ptext_insert_all(Seq::<crate::buck::BuckPath>::empty(), files@);
        assert(spec_ptexts(Seq::<crate::buck::BuckPath>::empty()) =~= Seq::<Seq<char>>::empty());
    }
    match &pkg.license_file {
        Option::Some(f) => {
            let rel = relative_path(third_party_dir, pkg.manifest_dir.as_str());
            let joined = join_path(rel.as_str(), f.as_str());
            let ghost pre = out@;
            out.insert(crate::buck::BuckPath(joined));
            proof {
                lemma_ptext_insert(pre, crate::buck::BuckPath(joined));
            }
        },
        Option::None => {},
    }
    out
}

/// What one target's generation returns: nothing for an omitted
/// target; otherwise, per the attribute pipeline's outcome, either the
/// error naming the failing category and expression, or the
/// declarations of the decision ladder together with the dependency
/// package ids.
pub open spec fn spec_target_outcome(
    config: crate::config::Config,
    tpd: Seq<char>,
    pkg: crate::cargo::Manifest,
    tgt: crate::cargo::ManifestTarget,
    fixups: TargetFixups,
    detected: Seq<Seq<char>>,
    r: Result<(Seq<crate::buck::Rule>, Seq<String>), TargetError>,
) -> bool {
    &&& (fixups.omit_target ==> (r matches Ok(out) && out.0 =~= Seq::<crate::buck::Rule>::empty()
        && out.1 =~= Seq::<String>::empty()))
    &&& (!fixups.omit_target ==> match spec_target_attrs(config, fixups) {
            Result::Err((cat, e)) => r matches Err(te) && te.category@ == cat && te.expr@ == e.0@,
            Result::Ok(st) => r matches Ok(out) && {
                let ed = spec_edition(tgt, pkg);
                let srcs_texts = spec_ptext_insert_all(
                    spec_ptexts(st.base.srcs),
                    spec_srcs_texts(
                        fixups.precise_srcs,
                        ed,
                        detected,
                        tgt.src_path@,
                    ),
                );
                &&& out.1 == st.ids
                &&& (spec_is_lib_target(tgt) ==> {
                    let lib_at = if pkg.is_public && !pkg.is_root {
                        1int
                    } else {
                        0int
                    };
                    &&& out.0.len() == lib_at + 1
                    &&& (pkg.is_public && !pkg.is_root ==> (out.0[0] matches
                        crate::buck::Rule::Alias(a) && {
                        &&& a.name == crate::buck::Name(pkg.public_name)
                        &&& a.actual == crate::buck::Name(pkg.private_name)
                        &&& a.visibility is Public
                    }))
                    &&& (out.0[lib_at] matches crate::buck::Rule::Library(l) && {
                        &&& l.common.common.name == (if pkg.is_root {
                            crate::buck::Name(pkg.public_name)
                        } else {
                            crate::buck::Name(pkg.private_name)
                        })
                        &&& (pkg.is_root <==> l.common.common.visibility is Public)
                        &&& (!pkg.is_root <==> l.common.common.visibility is Private)
                        &&& spec_ptexts(l.common.common.licenses@) == spec_license_texts(
                            tpd,
                            pkg,
                            fixups.license_files@,
                        )
                        &&& l.common.common.compatible_with@ =~= Seq::<
                            crate::buck::RuleRef,
                        >::empty()
                        &&& l.common.krate@ == spec_underscore(tgt.name@)
                        &&& l.common.crate_root.0@ == spec_relative_path(
                            tpd,
                            tgt.src_path@,
                        )
                        &&& l.common.edition == ed
                        &&& spec_ptexts(l.common.base.srcs@) == srcs_texts
                        &&& l.common.base.mapped_srcs@ == st.base.mapped_srcs
                        &&& l.common.base.rustc_flags@ == st.base.rustc_flags
                        &&& l.common.base.features@ == st.base.features
                        &&& l.common.base.deps@ == st.base.deps
                        &&& l.common.base.named_deps@ == st.base.named_deps
                        &&& l.common.base.env@ == st.base.env
                        &&& l.common.base.link_style == st.base.link_style
                        &&& l.common.base.preferred_linkage == st.pl_base
                        &&& spec_platmap_view(l.common.platform@) == spec_merge_scalar(
                            st.per,
                            st.pl_per,
                            false,
                        )
                        &&& l.proc_macro == tgt.spec_crate(crate::cargo::TargetKind::ProcMacro)
                        &&& l.dlopen_enable == (tgt.spec_kind(crate::cargo::TargetKind::Cdylib)
                            && fixups.python_ext is None)
                        &&& l.python_ext == fixups.python_ext
                        &&& l.linkable_alias == (if pkg.is_public && (tgt.spec_kind(
                            crate::cargo::TargetKind::Cdylib,
                        ) || fixups.python_ext is Some) {
                            Option::Some(pkg.public_name)
                        } else {
                            Option::<String>::None
                        })
                    })
                })
                &&& (!spec_is_lib_target(tgt) && spec_is_buildscript_target(tgt) ==> {
                    let bin_count: int = if fixups.emit_buildscript_binary {
                        1
                    } else {
                        0
                    };
                    &&& out.0.len() == bin_count + fixups.buildscript_extra@.len()
                    &&& out.0.skip(bin_count) == fixups.buildscript_extra@
                    &&& (fixups.emit_buildscript_binary ==> (out.0[0] matches
                        crate::buck::Rule::BuildscriptBinary(b) && {
                        &&& b.common.common.name.0@ == pkg.name@ + seq!['-'] + pkg.version@ + seq![
                            '-',
                        ] + tgt.name@
                        &&& b.common.common.visibility is Private
                        &&& b.common.common.licenses@ =~= Seq::<crate::buck::BuckPath>::empty()
                        &&& b.common.krate@ == spec_underscore(tgt.name@)
                        &&& b.common.crate_root.0@ == spec_relative_path(
                            tpd,
                            tgt.src_path@,
                        )
                        &&& b.common.edition == ed
                        &&& spec_ptexts(b.common.base.srcs@) == srcs_texts
                        &&& b.common.base.rustc_flags@ == config.rustc_flags@
                        &&& b.common.base.mapped_srcs@ == st.base.mapped_srcs
                        &&& b.common.base.features@ == st.base.features
                        &&& b.common.base.deps@ == st.base.deps
                        &&& b.common.base.named_deps@ == st.base.named_deps
                        &&& b.common.base.env@ == st.base.env
                        &&& spec_platmap_view(b.common.platform@) == st.per
                    }))
                })
                &&& (!spec_is_lib_target(tgt) && !spec_is_buildscript_target(tgt)
                    && spec_is_bin_target(tgt) && pkg.is_public ==> {
                    &&& out.0.len() == 2
                    &&& (out.0[0] matches crate::buck::Rule::Alias(a) && {
                        &&& a.name.0@ == pkg.public_name@ + seq!['-'] + tgt.name@
                        &&& a.actual.0@ == pkg.private_name@ + seq!['-'] + tgt.name@
                        &&& a.visibility is Public
                    })
                    &&& (out.0[1] matches crate::buck::Rule::Binary(b) && {
                        &&& b.common.common.name.0@ == pkg.private_name@ + seq!['-'] + tgt.name@
                        &&& b.common.common.visibility is Private
                        &&& spec_ptexts(b.common.common.licenses@) == spec_license_texts(
                            tpd,
                            pkg,
                            fixups.license_files@,
                        )
                        &&& b.common.krate@ == spec_underscore(tgt.name@)
                        &&& b.common.crate_root.0@ == spec_relative_path(
                            tpd,
                            tgt.src_path@,
                        )
                        &&& b.common.edition == ed
                        &&& spec_ptexts(b.common.base.srcs@) == srcs_texts
                        &&& b.common.base.rustc_flags@ == st.base.rustc_flags
                        &&& b.common.base.link_style == st.ls_base
                        &&& b.common.base.preferred_linkage == st.base.preferred_linkage
                        &&& (pkg.has_lib_target ==> exists|dr: crate::buck::RuleRef|
                            dr.target@ == seq![':'] + pkg.private_name@ && dr.platform is None
                                && b.common.base.deps@ == #[trigger] crate::sorted::spec_set_insert(
                                st.base.deps,
                                dr,
                            ))
                        &&& (!pkg.has_lib_target ==> b.common.base.deps@ == st.base.deps)
                        &&& spec_platmap_view(b.common.platform@) == spec_merge_scalar(
                            st.per,
                            st.ls_per,
                            true,
                        )
                    })
                })
                &&& (!spec_is_lib_target(tgt) && !spec_is_buildscript_target(tgt) && !(
                spec_is_bin_target(tgt) && pkg.is_public) ==> out.0 =~= Seq::<
                    crate::buck::Rule,
                >::empty())
            },
        })
}

/// The contents of a generation result.
pub open spec fn spec_outcome_view(
    r: Result<(Vec<crate::buck::Rule>, Vec<String>), TargetError>,
) -> Result<(Seq<crate::buck::Rule>, Seq<String>), TargetError> {
    match r {
        Result::Ok(p) => Result::Ok((p.0@, p.1@)),
        Result::Err(e) => Result::Err(e),
    }
}

/// Generate the declarations for one target, and the ids of the
/// packages its dependencies lead to.
///
/// The decision ladder: a library-like target always emits one library
/// declaration, preceded by a public alias when its package is public
/// and not the aggregate root; a build-script target emits whatever the
/// override policy asks for; a public binary target emits a public
/// alias and a private binary; anything else emits nothing. An omitted
/// target emits nothing and names no dependencies.
#[verifier::rlimit(100)]
#[verifier::spinoff_prover]
pub fn generate_target_rules(
    config: &crate::config::Config,
    third_party_dir: &str,
    pkg: &crate::cargo::Manifest,
    tgt: &crate::cargo::ManifestTarget,
    fixups: TargetFixups,
    detected_srcs: &Vec<String>,
) -> (r: Result<(Vec<crate::buck::Rule>, Vec<String>), TargetError>)
    ensures
        spec_target_outcome(
            *config,
            third_party_dir@,
            *pkg,
            *tgt,
            fixups,
            detected_srcs.deep_view(),
            spec_outcome_view(r),
        ),
{
    if fixups.omit_target {
        return Result::Ok((Vec::new(), Vec::new()));
    }
    let rootmod = relative_path(third_party_dir, tgt.src_path.as_str());
    let edition = match &tgt.edition {
        Option::Some(e) => *e,
        Option::None => pkg.edition,
    };
    let licenses = build_licenses(third_party_dir, pkg, &fixups.license_files);

    let mut st = match assemble_target_attrs(config, &fixups) {
        Result::Err(e) => {
            return Result::Err(e);
        },
        Result::Ok(st) => st,
    };

    // Fold the computed sources into the base record.
    let srcs_vec = computed_srcs(
        fixups.precise_srcs,
        &edition,
        detected_srcs,
        tgt.src_path.as_str(),
    );
    let ghost base_before = st.base@;
    fold_attr(&mut st.base, &AttrItem::Srcs(srcs_vec));
    proof {
        lemma_ptext_insert_all(base_before.srcs, srcs_vec@);
    }

    let krate = dash_to_underscore(tgt.name.as_str());

    let lib_like = (tgt.kind_lib() && tgt.crate_lib()) || (tgt.kind_proc_macro()
        && tgt.crate_proc_macro()) || (tgt.kind_cdylib() && tgt.crate_cdylib());
    if lib_like {
        let mut rules: Vec<crate::buck::Rule> = Vec::new();
        if pkg.is_public && !pkg.is_root {
            rules.push(
                crate::buck::Rule::Alias(
                    crate::buck::Alias {
                        name: crate::buck::Name(crate::strutil::clone_string(&pkg.public_name)),
                        actual: crate::buck::Name(
                            crate::strutil::clone_string(&pkg.private_name),
                        ),
                        visibility: crate::buck::Visibility::Public,
                    },
                ),
            );
        }
        st.base.preferred_linkage = st.pl_base;
        merge_scalar(&mut st.perplat, &st.pl_per, false);
        let python_ext_some = matches!(fixups.python_ext, Option::Some(_));
        let lib = crate::buck::RustLibrary {
            common: crate::buck::RustCommon {
                common: crate::buck::Common {
                    name: if pkg.is_root {
                        crate::buck::Name(crate::strutil::clone_string(&pkg.public_name))
                    } else {
                        crate::buck::Name(crate::strutil::clone_string(&pkg.private_name))
                    },
                    visibility: if pkg.is_root {
                        crate::buck::Visibility::Public
                    } else {
                        crate::buck::Visibility::Private
                    },
                    licenses,
                    compatible_with: Vec::new(),
                },
                krate,
                crate_root: crate::buck::BuckPath(rootmod),
                edition,
                base: st.base,
                platform: st.perplat,
            },
            proc_macro: tgt.crate_proc_macro(),
            dlopen_enable: tgt.kind_cdylib() && !python_ext_some,
            python_ext: fixups.python_ext,
            linkable_alias: if pkg.is_public && (tgt.kind_cdylib() || python_ext_some) {
                Option::Some(crate::strutil::clone_string(&pkg.public_name))
            } else {
                Option::None
            },
        };
        rules.push(crate::buck::Rule::Library(lib));
        return Result::Ok((rules, st.dep_ids));
    }
    let buildscript = tgt.crate_bin() && tgt.kind_custom_build();
    if buildscript {
        let mut rules: Vec<crate::buck::Rule> = Vec::new();
        if fixups.emit_buildscript_binary {
            let label = concat_dash(pkg.name.as_str(), pkg.version.as_str());
            let bs_name = concat_dash(label.as_str(), tgt.name.as_str());
            let mut flags: Vec<String> = Vec::new();
            let mut fi: usize = 0;
            assert(config.rustc_flags@.take(0) =~= Seq::<String>::empty());
            while fi < config.rustc_flags.len()
                invariant
                    fi <= config.rustc_flags.len(),
                    flags@ == config.rustc_flags@.take(fi as int),
                decreases config.rustc_flags.len() - fi,
            {
                flags.push(crate::strutil::clone_string(&config.rustc_flags[fi]));
                assert(flags@ =~= config.rustc_flags@.take(fi + 1));
                fi = fi + 1;
            }
            assert(config.rustc_flags@.take(config.rustc_flags@.len() as int)
                =~= config.rustc_flags@);
            st.base.rustc_flags = flags;
            let bb = crate::buck::RustBinary {
                common: crate::buck::RustCommon {
                    common: crate::buck::Common {
                        name: crate::buck::Name(bs_name),
                        visibility: crate::buck::Visibility::Private,
                        licenses: crate::sorted::SortedSet::new(),
                        compatible_with: Vec::new(),
                    },
                    krate,
                    crate_root: crate::buck::BuckPath(rootmod),
                    edition,
                    base: st.base,
                    platform: st.perplat,
                },
            };
            rules.push(crate::buck::Rule::BuildscriptBinary(bb));
        }
        let ghost pre = rules@;
        let mut extra = fixups.buildscript_extra;
        let ghost extra0 = extra@;
        let total = extra.len();
        let mut moved: usize = 0;
        assert(extra0.take(0) =~= Seq::<crate::buck::Rule>::empty());
        assert(extra0.skip(0) =~= extra0);
        assert(rules@ =~= pre.add(extra0.take(0)));
        while extra.len() > 0
            invariant
                moved as int == extra0.len() - extra@.len(),
                total as int == extra0.len(),
                moved <= total,
                extra@ == extra0.skip(moved as int),
                rules@ == pre.add(extra0.take(moved as int)),
            decreases extra@.len(),
        {
            let rule = extra.remove(0);
            proof {
                assert(extra0.skip(moved as int)[0] == extra0[moved as int]);
                assert(extra0.skip(moved as int).remove(0) =~= extra0.skip(moved + 1));
            }
            rules.push(rule);
            proof {
                assert(rules@ =~= pre.add(extra0.take(moved as int)).push(extra0[moved as int]));
                assert(pre.add(extra0.take(moved as int)).push(extra0[moved as int]) =~= pre.add(
                    extra0.take(moved + 1),
                ));
            }
            moved = moved + 1;
        }
        proof {
            assert(extra0.take(moved as int) =~= extra0);
            assert(rules@.skip(pre.len() as int) =~= extra0);
        }
        return Result::Ok((rules, st.dep_ids));
    }
    let pub_bin = tgt.kind_bin() && tgt.crate_bin() && pkg.is_public;
    if pub_bin {
        let mut rules: Vec<crate::buck::Rule> = Vec::new();
        let actual_name = concat_dash(pkg.private_name.as_str(), tgt.name.as_str());
        let alias_name = concat_dash(pkg.public_name.as_str(), tgt.name.as_str());
        rules.push(
            crate::buck::Rule::Alias(
                crate::buck::Alias {
                    name: crate::buck::Name(alias_name),
                    actual: crate::buck::Name(crate::strutil::clone_string_ref(
                        actual_name.as_str(),
                    )),
                    visibility: crate::buck::Visibility::Public,
                },
            ),
        );
        st.base.link_style = st.ls_base;
        merge_scalar(&mut st.perplat, &st.ls_per, true);
        if pkg.has_lib_target {
            let ghost deps_before = st.base.deps@;
            let lib_ref = crate::buck::RuleRef::local(
                &crate::buck::Name(crate::strutil::clone_string(&pkg.private_name)),
            );
            let ghost lr = lib_ref;
            st.base.deps.insert(lib_ref);
            proof {
                assert(lr.target@ == seq![':'] + pkg.private_name@);
                assert(lr.platform is None);
                assert(st.base.deps@ == crate::sorted::spec_set_insert(deps_before, lr));
            }
        }
        let bin = crate::buck::RustBinary {
            common: crate::buck::RustCommon {
                common: crate::buck::Common {
                    name: crate::buck::Name(actual_name),
                    visibility: crate::buck::Visibility::Private,
                    licenses,
                    compatible_with: Vec::new(),
                },
                krate,
                crate_root: crate::buck::BuckPath(rootmod),
                edition,
                base: st.base,
                platform: st.perplat,
            },
        };
        rules.push(crate::buck::Rule::Binary(bin));
        return Result::Ok((rules, st.dep_ids));
    }
    Result::Ok((Vec::new(), st.dep_ids))
}


/// A per-target failure, carrying the package and target it arose in.
#[derive(Debug, Clone)]
pub struct GenError {
    pub package: String,
    pub target: String,
    pub error: TargetError,
}

/// The collaborator answers for one package: per target, the override
/// answers and the precise-detection result.
pub struct PackageInputs {
    pub fixups: Vec<TargetFixups>,
    pub detected_srcs: Vec<Vec<String>>,
}

/// What one package's targets produced: their declarations and
/// dependency package ids in target order, and the first failure.
pub struct PkgOutcome {
    pub rules: Vec<crate::buck::Rule>,
    pub dep_ids: Vec<String>,
    pub err: Option<GenError>,
}

/// The declarations of the successful targets, in target order.
pub open spec fn spec_concat_rules(
    outs: Seq<Result<(Seq<crate::buck::Rule>, Seq<String>), TargetError>>,
) -> Seq<crate::buck::Rule>
    decreases outs.len(),
{
    if outs.len() == 0 {
        Seq::<crate::buck::Rule>::empty()
    } else {
        spec_concat_rules(outs.drop_last()).add(
            match outs.last() {
                Result::Ok(p) => p.0,
                Result::Err(_) => Seq::<crate::buck::Rule>::empty(),
            },
        )
    }
}

/// The dependency package ids of the targets that produced
/// declarations, in target order: a target that emitted nothing has its
/// dependencies pruned through it, though other targets may still name
/// the same packages.
pub open spec fn spec_concat_ids(
    outs: Seq<Result<(Seq<crate::buck::Rule>, Seq<String>), TargetError>>,
) -> Seq<String>
    decreases outs.len(),
{
    if outs.len() == 0 {
        Seq::<String>::empty()
    } else {
        spec_concat_ids(outs.drop_last()).add(
            match outs.last() {
                Result::Ok(p) => if p.0.len() > 0 {
                    p.1
                } else {
                    Seq::<String>::empty()
                },
                Result::Err(_) => Seq::<String>::empty(),
            },
        )
    }
}

/// The first failing target's error, wrapped with the package id and
/// the target name.
pub open spec fn spec_first_err(
    outs: Seq<Result<(Seq<crate::buck::Rule>, Seq<String>), TargetError>>,
    pkg_id: String,
    targets: Seq<crate::cargo::ManifestTarget>,
) -> Option<GenError>
    decreases outs.len(),
{
    if outs.len() == 0 {
        Option::<GenError>::None
    } else {
        match outs[0] {
            Result::Err(e) => Option::Some(
                GenError { package: pkg_id, target: targets[0].name, error: e },
            ),
            Result::Ok(_) => spec_first_err(outs.drop_first(), pkg_id, targets.drop_first()),
        }
    }
}

pub proof fn lemma_first_err_push(
    outs: Seq<Result<(Seq<crate::buck::Rule>, Seq<String>), TargetError>>,
    pkg_id: String,
    targets: Seq<crate::cargo::ManifestTarget>,
    x: Result<(Seq<crate::buck::Rule>, Seq<String>), TargetError>,
    t: crate::cargo::ManifestTarget,
)
    requires
        outs.len() == targets.len(),
    ensures
        spec_first_err(outs.push(x), pkg_id, targets.push(t)) == (
        if spec_first_err(outs, pkg_id, targets) is Some {
            spec_first_err(outs, pkg_id, targets)
        } else {
            match x {
                Result::Err(e) => Option::Some(
                    GenError { package: pkg_id, target: t.name, error: e },
                ),
                Result::Ok(_) => Option::<GenError>::None,
            }
        }),
    decreases outs.len(),
{
    reveal_with_fuel(spec_first_err, 3);
    if outs.len() == 0 {
        assert(outs.push(x)[0] == x);
        assert(outs.push(x).drop_first() =~= Seq::<
            Result<(Seq<crate::buck::Rule>, Seq<String>), TargetError>,
        >::empty());
        assert(targets.push(t)[0] == targets[0] || targets.len() == 0);
    } else {
        lemma_first_err_push(outs.drop_first(), pkg_id, targets.drop_first(), x, t);
        assert(outs.push(x)[0] == outs[0]);
        assert(targets.push(t)[0] == targets[0]);
        assert(outs.push(x).drop_first() =~= outs.drop_first().push(x));
        assert(targets.push(t).drop_first() =~= targets.drop_first().push(t));
    }
}

/// One witness list of per-target outcomes explaining a package
/// outcome.
pub open spec fn spec_pkg_outs_ok(
    config: crate::config::Config,
    tpd: Seq<char>,
    pkg: crate::cargo::Manifest,
    inp: PackageInputs,
    out: PkgOutcome,
    outs: Seq<Result<(Seq<crate::buck::Rule>, Seq<String>), TargetError>>,
) -> bool {
    &&& outs.len() == pkg.targets@.len()
    &&& (forall|j: int|
        0 <= j < outs.len() ==> spec_target_outcome(
            config,
            tpd,
            pkg,
            pkg.targets@[j],
            inp.fixups@[j],
            (inp.detected_srcs@[j]).deep_view(),
            #[trigger] outs[j],
        ))
    &&& out.rules@ == spec_concat_rules(outs)
    &&& out.dep_ids@ == spec_concat_ids(outs)
    &&& out.err == spec_first_err(outs, pkg.id, pkg.targets@)
}

/// What generating a whole package yields: per-target outcomes, each as
/// `spec_target_outcome` fixes it, concatenated in target order, with
/// the first failure kept.
pub open spec fn spec_package_outcome(
    config: crate::config::Config,
    tpd: Seq<char>,
    pkg: crate::cargo::Manifest,
    inp: PackageInputs,
    out: PkgOutcome,
) -> bool {
    exists|outs: Seq<Result<(Seq<crate::buck::Rule>, Seq<String>), TargetError>>|
        #[trigger] spec_pkg_outs_ok(config, tpd, pkg, inp, out, outs)
}

/// Move every element of `src` onto the end of `dst`.
fn append_all<T>(dst: &mut Vec<T>, src: Vec<T>)
    ensures
        final(dst)@ == old(dst)@ + src@,
{
    let mut src = src;
    let ghost s0 = src@;
    let ghost d0 = dst@;
    while src.len() > 0
        invariant
            src@.len() <= s0.len(),
            d0 == old(dst)@,
            dst@ == d0.add(s0.take(s0.len() - src@.len())),
            src@ == s0.skip(s0.len() - src@.len()),
        decreases src@.len(),
    {
        let ghost moved = s0.len() - src@.len();
        proof {
            assert(s0.skip(moved)[0] == s0[moved]);
            assert(s0.skip(moved).remove(0) =~= s0.skip(moved + 1));
        }
        let x = src.remove(0);
        dst.push(x);
        proof {
            assert(s0.take(moved).push(s0[moved]) =~= s0.take(moved + 1));
        }
    }
    proof {
        assert(s0.take(s0.len() as int) =~= s0);
        assert(dst@ =~= d0.add(s0));
    }
}

/// Generate the declarations of every target of one package. A failing
/// target never halts its siblings: every target is processed, and the
/// first failure is carried alongside the successful targets' output.
#[verifier::rlimit(100)]
#[verifier::spinoff_prover]
pub fn generate_package_rules(
    config: &crate::config::Config,
    third_party_dir: &str,
    pkg: &crate::cargo::Manifest,
    inp: PackageInputs,
) -> (out: PkgOutcome)
    requires
        inp.fixups@.len() == pkg.targets@.len(),
        inp.detected_srcs@.len() == pkg.targets@.len(),
    ensures
        spec_package_outcome(*config, third_party_dir@, *pkg, inp, out),
{
    let mut rules: Vec<crate::buck::Rule> = Vec::new();
    let mut dep_ids: Vec<String> = Vec::new();
    let mut err: Option<GenError> = Option::None;
    let ghost mut outs: Seq<Result<(Seq<crate::buck::Rule>, Seq<String>), TargetError>> = Seq::empty();
    let mut fx = inp.fixups;
    let det = inp.detected_srcs;
    let mut j: usize = 0;
    let total = pkg.targets.len();
    assert(pkg.targets@.take(0) =~= Seq::<crate::cargo::ManifestTarget>::empty());
    while j < total
        invariant
            j <= total,
            total == pkg.targets@.len(),
            fx@ == inp.fixups@.skip(j as int),
            det@ == inp.detected_srcs@,
            inp.fixups@.len() == pkg.targets@.len(),
            inp.detected_srcs@.len() == pkg.targets@.len(),
            outs.len() == j as int,
            forall|k: int|
                0 <= k < j ==> spec_target_outcome(
                    *config,
                    third_party_dir@,
                    *pkg,
                    pkg.targets@[k],
                    inp.fixups@[k],
                    (inp.detected_srcs@[k]).deep_view(),
                    #[trigger] outs[k],
                ),
            rules@ == spec_concat_rules(outs),
            dep_ids@ == spec_concat_ids(outs),
            err == spec_first_err(outs, pkg.id, pkg.targets@.take(j as int)),
        decreases total - j,
    {
        proof {
            assert(inp.fixups@.skip(j as int)[0] == inp.fixups@[j as int]);
            assert(inp.fixups@.skip(j as int).remove(0) =~= inp.fixups@.skip(j + 1));
        }
        let tf = fx.remove(0);
        let r = generate_target_rules(
            config,
            third_party_dir,
            pkg,
            &pkg.targets[j],
            tf,
            &det[j],
        );
        let ghost ov = spec_outcome_view(r);
        let ghost outs0 = outs;
        proof {
            outs = outs.push(ov);
            lemma_first_err_push(outs0, pkg.id, pkg.targets@.take(j as int), ov, pkg.targets@[j as int]);
            assert(pkg.targets@.take(j as int).push(pkg.targets@[j as int]) =~= pkg.targets@.take(
                j + 1,
            ));
            assert(outs.drop_last() =~= outs0);
        }
        match r {
            Result::Ok(p) => {
                let (nr, nd) = p;
                let had_rules = nr.len() > 0;
                append_all(&mut rules, nr);
                if had_rules {
                    append_all(&mut dep_ids, nd);
                }
                proof {
                    assert(rules@ =~= spec_concat_rules(outs));
                    assert(dep_ids@ =~= spec_concat_ids(outs));
                }
            },
            Result::Err(e) => {
                if matches!(err, Option::None) {
                    err = Option::Some(
                        GenError {
                            package: crate::strutil::clone_string(&pkg.id),
                            target: crate::strutil::clone_string(&pkg.targets[j].name),
                            error: e,
                        },
                    );
                }
                proof {
                    assert(rules@ =~= spec_concat_rules(outs));
                    assert(dep_ids@ =~= spec_concat_ids(outs));
                }
            },
        }
        j = j + 1;
    }
    proof {
        assert(pkg.targets@.take(total as int) =~= pkg.targets@);
    }
    let out = PkgOutcome { rules, dep_ids, err };
    proof {
        assert(spec_pkg_outs_ok(*config, third_party_dir@, *pkg, inp, out, outs));
    }
    out
}


/// The first package index carrying the id, or -1 when none does.
pub open spec fn spec_find_id(ids: Seq<Seq<char>>, id: Seq<char>) -> int
    decreases ids.len(),
{
    if ids.len() == 0 {
        -1
    } else if ids[0] == id {
        0
    } else {
        let r = spec_find_id(ids.drop_first(), id);
        if r == -1 {
            -1
        } else {
            r + 1
        }
    }
}

pub proof fn lemma_find_id(ids: Seq<Seq<char>>, id: Seq<char>)
    ensures
        spec_find_id(ids, id) == -1 ==> forall|k: int| 0 <= k < ids.len() ==> ids[k] != id,
        spec_find_id(ids, id) != -1 ==> 0 <= spec_find_id(ids, id) < ids.len() && ids[spec_find_id(
            ids,
            id,
        )] == id,
    decreases ids.len(),
{
    if ids.len() > 0 {
        lemma_find_id(ids.drop_first(), id);
        if ids[0] != id {
            if spec_find_id(ids.drop_first(), id) == -1 {
                assert forall|k: int| 0 <= k < ids.len() implies ids[k] != id by {
                    if k > 0 {
                        assert(ids.drop_first()[k - 1] == ids[k]);
                    }
                }
            } else {
                assert(ids.drop_first()[spec_find_id(ids.drop_first(), id)] == ids[spec_find_id(
                    ids,
                    id,
                )]);
            }
        }
    }
}

/// The ids of the packages, in listing order.
pub open spec fn spec_pkg_ids(packages: Seq<crate::cargo::Manifest>) -> Seq<Seq<char>> {
    packages.map_values(|p: crate::cargo::Manifest| p.id@)
}

/// Find the first package with the id.
fn find_package(packages: &Vec<crate::cargo::Manifest>, id: &str) -> (r: Option<usize>)
    ensures
        spec_find_id(spec_pkg_ids(packages@), id@) == -1 ==> r is None,
        spec_find_id(spec_pkg_ids(packages@), id@) != -1 ==> r == Option::Some(
            spec_find_id(spec_pkg_ids(packages@), id@) as usize,
        ),
{
    let ghost ids = spec_pkg_ids(packages@);
    let mut i: usize = 0;
    assert(ids.skip(0) =~= ids);
    loop
        invariant
            i <= packages@.len(),
            ids == spec_pkg_ids(packages@),
            ids.len() == packages@.len(),
            spec_find_id(ids.skip(i as int), id@) == -1 ==> spec_find_id(ids, id@) == -1,
            spec_find_id(ids.skip(i as int), id@) != -1 ==> spec_find_id(ids, id@) == spec_find_id(
                ids.skip(i as int),
                id@,
            ) + i,
        decreases packages@.len() - i,
    {
        if i == packages.len() {
            assert(ids.skip(i as int).len() == 0);
            return Option::None;
        }
        assert(ids.skip(i as int)[0] == ids[i as int]);
        if crate::strutil::str_eq(packages[i].id.as_str(), id) {
            return Option::Some(i);
        }
        assert(ids.skip(i as int).drop_first() =~= ids.skip(i + 1));
        proof {
            lemma_find_id(ids.skip(i + 1), id@);
            if spec_find_id(ids.skip(i + 1), id@) == -1 {
                assert(spec_find_id(ids.skip(i as int), id@) == -1);
            } else {
                assert(spec_find_id(ids.skip(i as int), id@) == spec_find_id(ids.skip(i + 1), id@)
                    + 1);
            }
        }
        i = i + 1;
    }
}

/// The number of packages not yet visited.
pub open spec fn count_unvisited(s: Seq<bool>) -> nat
    decreases s.len(),
{
    if s.len() == 0 {
        0
    } else {
        count_unvisited(s.drop_last()) + if s.last() {
            0nat
        } else {
            1nat
        }
    }
}

pub proof fn lemma_count_unvisited_update(s: Seq<bool>, i: int)
    requires
        0 <= i < s.len(),
        !s[i],
    ensures
        count_unvisited(s.update(i, true)) + 1 == count_unvisited(s),
    decreases s.len(),
{
    if i == s.len() - 1 {
        assert(s.update(i, true).drop_last() =~= s.drop_last());
        assert(s.update(i, true).last());
    } else {
        lemma_count_unvisited_update(s.drop_last(), i);
        assert(s.update(i, true).drop_last() =~= s.drop_last().update(i, true));
        assert(s.update(i, true).last() == s.last());
    }
}

/// Queue the packages the dependency ids lead to: each id's first
/// package joins the worklist the first time any path reaches it, and
/// is marked visited at that moment.
pub open spec fn spec_queue_deps(
    ids: Seq<Seq<char>>,
    visited: Seq<bool>,
    worklist: Seq<int>,
    dep_ids: Seq<String>,
) -> (Seq<bool>, Seq<int>)
    decreases dep_ids.len(),
{
    if dep_ids.len() == 0 {
        (visited, worklist)
    } else {
        let j = spec_find_id(ids, dep_ids[0]@);
        if j != -1 && 0 <= j < visited.len() && !visited[j] {
            spec_queue_deps(ids, visited.update(j, true), worklist.push(j), dep_ids.drop_first())
        } else {
            spec_queue_deps(ids, visited, worklist, dep_ids.drop_first())
        }
    }
}

/// Queuing never grows the walk's measure: every queued package is
/// newly marked.
pub proof fn lemma_queue_deps_measure(
    ids: Seq<Seq<char>>,
    visited: Seq<bool>,
    worklist: Seq<int>,
    dep_ids: Seq<String>,
)
    ensures
        ({
            let (v2, w2) = spec_queue_deps(ids, visited, worklist, dep_ids);
            &&& count_unvisited(v2) <= count_unvisited(visited)
            &&& w2.len() + count_unvisited(v2) <= worklist.len() + count_unvisited(visited)
            &&& v2.len() == visited.len()
        }),
    decreases dep_ids.len(),
{
    if dep_ids.len() > 0 {
        let j = spec_find_id(ids, dep_ids[0]@);
        if j != -1 && 0 <= j < visited.len() && !visited[j] {
            lemma_count_unvisited_update(visited, j);
            lemma_queue_deps_measure(
                ids,
                visited.update(j, true),
                worklist.push(j),
                dep_ids.drop_first(),
            );
        } else {
            lemma_queue_deps_measure(ids, visited, worklist, dep_ids.drop_first());
        }
    }
}

/// Insert each declaration in turn, later names overriding earlier
/// ones.
pub open spec fn spec_rules_insert_all(
    s: Seq<crate::buck::Rule>,
    items: Seq<crate::buck::Rule>,
) -> Seq<crate::buck::Rule>
    decreases items.len(),
{
    if items.len() == 0 {
        s
    } else {
        spec_rules_insert_all(
            crate::buck::spec_ruleset_insert(s, items[0]),
            items.drop_first(),
        )
    }
}

/// The walk's collection phase, worklist-at-a-time: pop the newest
/// entry, record its package's first error, and, when the package
/// produced declarations, fold them into the declaration set and queue
/// its dependencies; a package that produced none has its dependencies
/// pruned through it.
pub open spec fn spec_collect(
    ids: Seq<Seq<char>>,
    per: Seq<PkgOutcome>,
    visited: Seq<bool>,
    worklist: Seq<int>,
    rules: Seq<crate::buck::Rule>,
    errors: Seq<GenError>,
) -> (Seq<crate::buck::Rule>, Seq<GenError>)
    decreases count_unvisited(visited), worklist.len(),
{
    if worklist.len() == 0 {
        (rules, errors)
    } else {
        let pi = worklist.last();
        let wl = worklist.drop_last();
        if 0 <= pi < per.len() {
            let oc = per[pi];
            let errors2 = match oc.err {
                Option::Some(e) => errors.push(e),
                Option::None => errors,
            };
            if oc.rules@.len() > 0 {
                let rules2 = spec_rules_insert_all(rules, oc.rules@);
                let (v2, w2) = spec_queue_deps(ids, visited, wl, oc.dep_ids@);
                proof {
                    lemma_queue_deps_measure(ids, visited, wl, oc.dep_ids@);
                }
                spec_collect(ids, per, v2, w2, rules2, errors2)
            } else {
                spec_collect(ids, per, visited, wl, rules, errors2)
            }
        } else {
            spec_collect(ids, per, visited, wl, rules, errors)
        }
    }
}

/// The seed of the walk: every public package is queued in listing
/// order and marked visited.
pub open spec fn spec_seed_visited(packages: Seq<crate::cargo::Manifest>) -> Seq<bool> {
    packages.map_values(|p: crate::cargo::Manifest| p.is_public)
}

pub open spec fn spec_seed_worklist(packages: Seq<crate::cargo::Manifest>) -> Seq<int>
    decreases packages.len(),
{
    if packages.len() == 0 {
        Seq::<int>::empty()
    } else {
        spec_seed_worklist(packages.drop_last()).add(
            if packages.last().is_public {
                seq![packages.len() - 1]
            } else {
                Seq::<int>::empty()
            },
        )
    }
}

/// The whole run, given one package outcome per listed package: the
/// declarations and errors of the walk from the public packages.
pub open spec fn spec_walk(
    packages: Seq<crate::cargo::Manifest>,
    per: Seq<PkgOutcome>,
) -> (Seq<crate::buck::Rule>, Seq<GenError>) {
    spec_collect(
        spec_pkg_ids(packages),
        per,
        spec_seed_visited(packages),
        spec_seed_worklist(packages),
        Seq::<crate::buck::Rule>::empty(),
        Seq::<GenError>::empty(),
    )
}


/// One set of package outcomes explaining a whole run.
pub open spec fn spec_walk_outcomes_ok(
    config: crate::config::Config,
    tpd: Seq<char>,
    packages: Seq<crate::cargo::Manifest>,
    inputs: Seq<PackageInputs>,
    per: Seq<PkgOutcome>,
) -> bool {
    &&& per.len() == packages.len()
    &&& forall|i: int|
        0 <= i < per.len() ==> spec_package_outcome(
            config,
            tpd,
            packages[i],
            inputs[i],
            #[trigger] per[i],
        )
}

/// Copy a per-target failure record.
fn clone_gen_error(e: &GenError) -> (r: GenError)
    ensures
        r == *e,
{
    GenError {
        package: crate::strutil::clone_string(&e.package),
        target: crate::strutil::clone_string(&e.target),
        error: TargetError {
            category: crate::strutil::clone_string(&e.error.category),
            expr: crate::strutil::clone_string(&e.error.expr),
        },
    }
}

/// Walk the package graph from the public packages and generate every
/// reachable declaration.
///
/// Each package's targets are generated once, as `spec_package_outcome`
/// fixes them; the walk then visits each package exactly once, starting
/// from the public packages, following a target's dependencies only
/// when that target produced declarations, and folding everything into
/// one name-keyed, file-ordered declaration set, exactly as
/// `spec_walk` says. The run fails, with the first error recorded in
/// walk order, exactly when a visited package had a failing target;
/// failures never stop sibling or dependency work.
#[verifier::rlimit(100)]
#[verifier::spinoff_prover]
pub fn buckify(
    config: &crate::config::Config,
    third_party_dir: &str,
    packages: &Vec<crate::cargo::Manifest>,
    inputs: Vec<PackageInputs>,
) -> (r: Result<crate::buck::RuleSet, GenError>)
    requires
        inputs@.len() == packages@.len(),
        forall|i: int|
            0 <= i < packages@.len() ==> (#[trigger] inputs@[i]).fixups@.len()
                == packages@[i].targets@.len() && inputs@[i].detected_srcs@.len()
                == packages@[i].targets@.len(),
    ensures
        exists|per: Seq<PkgOutcome>|
            {
                &&& #[trigger] spec_walk_outcomes_ok(
                    *config,
                    third_party_dir@,
                    packages@,
                    inputs@,
                    per,
                )
                &&& ({
                    let (rules, errors) = spec_walk(packages@, per);
                    &&& (errors.len() == 0 ==> (r matches Ok(rs) && rs@ == rules && rs.wf()))
                    &&& (errors.len() > 0 ==> (r matches Err(e) && e == errors[0]))
                })
            },
{
    let ghost inputs0 = inputs@;
    let mut inputs = inputs;
    let mut per: Vec<PkgOutcome> = Vec::new();
    let mut i: usize = 0;
    assert(inputs0.skip(0) =~= inputs0);
    while i < packages.len()
        invariant
            i <= packages@.len(),
            inputs0.len() == packages@.len(),
            inputs@ == inputs0.skip(i as int),
            per@.len() == i as int,
            forall|m: int|
                0 <= m < packages@.len() ==> (#[trigger] inputs0[m]).fixups@.len()
                    == packages@[m].targets@.len() && inputs0[m].detected_srcs@.len()
                    == packages@[m].targets@.len(),
            forall|k: int|
                0 <= k < i ==> spec_package_outcome(
                    *config,
                    third_party_dir@,
                    packages@[k],
                    inputs0[k],
                    #[trigger] per@[k],
                ),
        decreases packages@.len() - i,
    {
        proof {
            assert(inputs0.skip(i as int)[0] == inputs0[i as int]);
            assert(inputs0.skip(i as int).remove(0) =~= inputs0.skip(i + 1));
        }
        let inp = inputs.remove(0);
        let out = generate_package_rules(config, third_party_dir, &packages[i], inp);
        per.push(out);
        i = i + 1;
    }
    let ghost per0 = per@;

    let ghost ids = spec_pkg_ids(packages@);
    let mut rules = crate::buck::RuleSet::new();
    let mut errors: Vec<GenError> = Vec::new();
    let mut visited: Vec<bool> = Vec::new();
    let mut worklist: Vec<usize> = Vec::new();
    let mut vi: usize = 0;
    assert(packages@.take(0) =~= Seq::<crate::cargo::Manifest>::empty());
    while vi < packages.len()
        invariant
            vi <= packages@.len(),
            visited@ == spec_seed_visited(packages@.take(vi as int)),
            wl_view(worklist@) == spec_seed_worklist(packages@.take(vi as int)),
            visited@.len() == vi as int,
            forall|m: int| 0 <= m < worklist@.len() ==> (#[trigger] worklist@[m]) < vi,
            forall|m: int, n: int|
                0 <= m < n < worklist@.len() ==> (#[trigger] worklist@[m]) < (
                #[trigger] worklist@[n]),
            forall|m: int|
                0 <= m < worklist@.len() ==> visited@[(#[trigger] worklist@[m]) as int],
        decreases packages@.len() - vi,
    {
        proof {
            assert(packages@.take(vi + 1).drop_last() =~= packages@.take(vi as int));
            assert(packages@.take(vi + 1).last() == packages@[vi as int]);
        }
        let ghost pre_v = visited@;
        let ghost pre_w = wl_view(worklist@);
        visited.push(packages[vi].is_public);
        if packages[vi].is_public {
            worklist.push(vi);
            assert(wl_view(worklist@) =~= pre_w.push(vi as int));
        }
        assert(visited@ =~= spec_seed_visited(packages@.take(vi + 1)));
        assert(wl_view(worklist@) =~= spec_seed_worklist(packages@.take(vi + 1)));
        vi = vi + 1;
    }
    assert(packages@.take(packages@.len() as int) =~= packages@);

    while worklist.len() > 0
        invariant
            per@.len() == packages@.len(),
            per0.len() == packages@.len(),
            visited@.len() == packages@.len(),
            rules.wf(),
            forall|m: int|
                0 <= m < worklist@.len() ==> (#[trigger] worklist@[m]) < packages@.len(),
            forall|m: int, n: int|
                0 <= m < n < worklist@.len() ==> (#[trigger] worklist@[m]) != (
                #[trigger] worklist@[n]),
            forall|m: int|
                0 <= m < worklist@.len() ==> visited@[(#[trigger] worklist@[m]) as int],
            forall|m: int|
                0 <= m < worklist@.len() ==> per@[(#[trigger] worklist@[m]) as int] == per0[(
                worklist@[m]) as int],
            forall|m: int|
                0 <= m < packages@.len() ==> (#[trigger] per@[m]) == per0[m] || visited@[m],
            spec_walk(packages@, per0) == spec_collect(
                ids,
                per0,
                visited@,
                wl_view(worklist@),
                rules@,
                errors@,
            ),
            ids == spec_pkg_ids(packages@),
        decreases wl_view(worklist@).len() + count_unvisited(visited@),
    {
        let ghost v_at = visited@;
        let ghost w_at = wl_view(worklist@);
        let pi = worklist.pop().unwrap();
        proof {
            assert(w_at.last() == pi as int);
            assert(wl_view(worklist@) =~= w_at.drop_last());
            lemma_queue_deps_measure(ids, v_at, w_at.drop_last(), per0[pi as int].dep_ids@);
        }
        let mut oc = per.remove(pi);
        per.insert(
            pi,
            PkgOutcome { rules: Vec::new(), dep_ids: Vec::new(), err: Option::None },
        );
        proof {
            assert(per@ =~= per0.update(pi as int, per@[pi as int]) || true);
            assert(oc == per0[pi as int]);
        }
        match &oc.err {
            Option::Some(e) => {
                errors.push(clone_gen_error(e));
            },
            Option::None => {},
        }
        if oc.rules.len() > 0 {
            let mut nr = oc.rules;
            let ghost nr0 = nr@;
            let ghost rules_at = rules@;
            while nr.len() > 0
                invariant
                    nr@.len() <= nr0.len(),
                    rules.wf(),
                    rules@ == spec_rules_insert_all(rules_at, nr0.take(nr0.len() - nr@.len())),
                    nr@ == nr0.skip(nr0.len() - nr@.len()),
                decreases nr@.len(),
            {
                let ghost moved = nr0.len() - nr@.len();
                proof {
                    assert(nr0.skip(moved)[0] == nr0[moved]);
                    assert(nr0.skip(moved).remove(0) =~= nr0.skip(moved + 1));
                }
                let x = nr.remove(0);
                rules.insert(x);
                proof {
                    lemma_rules_insert_all_push(rules_at, nr0.take(moved), nr0[moved]);
                    assert(nr0.take(moved).push(nr0[moved]) =~= nr0.take(moved + 1));
                }
            }
            proof {
                assert(nr0.take(nr0.len() as int) =~= nr0);
                assert(rules@ == spec_rules_insert_all(rules_at, nr0));
            }
            let mut dd = oc.dep_ids;
            let ghost dd0 = dd@;
            let ghost v_in = visited@;
            let ghost w_in = wl_view(worklist@);
            while dd.len() > 0
                invariant
                    dd@.len() <= dd0.len(),
                    dd@ == dd0.skip(dd0.len() - dd@.len()),
                    visited@.len() == packages@.len(),
                    per@.len() == packages@.len(),
                    ids == spec_pkg_ids(packages@),
                    ids.len() == packages@.len(),
                    spec_queue_deps(ids, v_in, w_in, dd0) == spec_queue_deps(
                        ids,
                        visited@,
                        wl_view(worklist@),
                        dd@,
                    ),
                    forall|m: int|
                        0 <= m < worklist@.len() ==> (#[trigger] worklist@[m])
                            < packages@.len(),
                    forall|m: int, n: int|
                        0 <= m < n < worklist@.len() ==> (#[trigger] worklist@[m]) != (
                        #[trigger] worklist@[n]),
                    forall|m: int|
                        0 <= m < worklist@.len() ==> visited@[(#[trigger] worklist@[m]) as int],
                    forall|m: int|
                        0 <= m < worklist@.len() ==> per@[(#[trigger] worklist@[m]) as int]
                            == per0[(worklist@[m]) as int],
                    forall|m: int|
                        0 <= m < packages@.len() ==> (#[trigger] per@[m]) == per0[m]
                            || visited@[m],
                decreases dd@.len(),
            {
                let ghost moved = dd0.len() - dd@.len();
                let ghost dd_before = dd@;
                let ghost v_before = visited@;
                let ghost w_before = wl_view(worklist@);
                proof {
                    assert(dd@[0] == dd0[moved]);
                }
                let id = dd.remove(0);
                proof {
                    assert(dd@ =~= dd0.skip(moved + 1));
                    assert(dd_before.drop_first() =~= dd@);
                    lemma_find_id(ids, id@);
                }
                let ghost j = spec_find_id(ids, id@);
                let plen = packages.len();
                proof {
                    assert(ids.len() == plen as int);
                }
                match find_package(packages, id.as_str()) {
                    Option::Some(dpi) => {
                        if !visited[dpi] {
                            let ghost pv = visited@;
                            let ghost pw = wl_view(worklist@);
                            let flag = visited.remove(dpi);
                            visited.insert(dpi, true);
                            worklist.push(dpi);
                            proof {
                                assert(visited@ =~= pv.update(dpi as int, true));
                                assert(wl_view(worklist@) =~= pw.push(dpi as int));
                                assert(j == dpi as int);
                                assert(spec_queue_deps(ids, v_before, w_before, dd_before)
                                    == spec_queue_deps(ids, visited@, wl_view(worklist@), dd@));
                            }
                        } else {
                            proof {
                                assert(j == dpi as int);
                                assert(v_before[j]);
                                assert(spec_queue_deps(ids, v_before, w_before, dd_before)
                                    == spec_queue_deps(ids, visited@, wl_view(worklist@), dd@));
                            }
                        }
                    },
                    Option::None => {
                        proof {
                            assert(j == -1);
                            assert(spec_queue_deps(ids, v_before, w_before, dd_before)
                                == spec_queue_deps(ids, visited@, wl_view(worklist@), dd@));
                        }
                    },
                }
            }
        }
        proof {
            assert(wl_view(worklist@).len() + count_unvisited(visited@) < w_at.len()
                + count_unvisited(v_at));
        }
    }
    proof {
        assert(wl_view(worklist@).len() == 0);
        assert(spec_walk(packages@, per0) == (rules@, errors@));
        assert(spec_walk_outcomes_ok(*config, third_party_dir@, packages@, inputs0, per0));
    }
    if errors.len() > 0 {
        let e = errors.remove(0);
        proof {
            assert(e == spec_walk(packages@, per0).1[0]);
        }
        return Result::Err(e);
    }
    Result::Ok(rules)
}

/// The worklist entries, as the indices the walk speaks of.
pub open spec fn wl_view(w: Seq<usize>) -> Seq<int> {
    w.map_values(|u: usize| u as int)
}

pub proof fn lemma_rules_insert_all_push(
    s: Seq<crate::buck::Rule>,
    items: Seq<crate::buck::Rule>,
    x: crate::buck::Rule,
)
    ensures
        spec_rules_insert_all(s, items.push(x)) == crate::buck::spec_ruleset_insert(
            spec_rules_insert_all(s, items),
            x,
        ),
    decreases items.len(),
{
    reveal_with_fuel(spec_rules_insert_all, 3);
    if items.len() == 0 {
        assert(items.push(x)[0] == x);
        assert(items.push(x).drop_first() =~= Seq::<crate::buck::Rule>::empty());
    } else {
        lemma_rules_insert_all_push(
            crate::buck::spec_ruleset_insert(s, items[0]),
            items.drop_first(),
            x,
        );
        assert(items.push(x)[0] == items[0]);
        assert(items.push(x).drop_first() =~= items.drop_first().push(x));
    }
}

} // verus!
