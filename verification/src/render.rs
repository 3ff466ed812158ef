//! Rendering declarations into starlark-style call syntax.
//!
//! Every declaration becomes a call-style record with an explicit,
//! per-variant, fixed key order; an attribute whose value is an empty
//! collection or an absent optional is omitted entirely. Per-platform
//! attribute groups render as nested `dict(...)` records keyed by
//! platform name. The text produced is an exact function of the
//! declaration, so regeneration is byte-stable.

use vstd::prelude::*;

use crate::strutil::push_char;
use crate::strutil::push_str;

verus! {

/// One escaped character of a quoted string literal: backslash, quote,
/// newline, tab and carriage return take escape sequences; any other
/// character stands for itself.
pub open spec fn spec_esc_char(c: char) -> Seq<char> {
    if c == '\\' {
        seq!['\\', '\\']
    } else if c == '"' {
        seq!['\\', '"']
    } else if c == '\n' {
        seq!['\\', 'n']
    } else if c == '\t' {
        seq!['\\', 't']
    } else if c == '\r' {
        seq!['\\', 'r']
    } else {
        seq![c]
    }
}

/// The body of a quoted string literal: backslashes, quotes and
/// newlines escaped, everything else kept.
pub open spec fn spec_escape(s: Seq<char>) -> Seq<char>
    decreases s.len(),
{
    if s.len() == 0 {
        Seq::<char>::empty()
    } else {
        spec_esc_char(s[0]).add(spec_escape(s.drop_first()))
    }
}

pub proof fn lemma_escape_push(s: Seq<char>, c: char)
    ensures
        spec_escape(s.push(c)) == spec_escape(s).add(spec_esc_char(c)),
    decreases s.len(),
{
    reveal_with_fuel(spec_escape, 3);
    if s.len() == 0 {
        assert(s.push(c)[0] == c);
        assert(s.push(c).drop_first() =~= Seq::<char>::empty());
        assert(spec_escape(s.push(c)) =~= spec_escape(s).add(spec_esc_char(c)));
    } else {
        lemma_escape_push(s.drop_first(), c);
        assert(s.push(c)[0] == s[0]);
        assert(s.push(c).drop_first() =~= s.drop_first().push(c));
        assert(spec_escape(s.push(c)) =~= spec_escape(s).add(spec_esc_char(c)));
    }
}

/// A quoted string literal.
pub open spec fn spec_quote(s: Seq<char>) -> Seq<char> {
    seq!['"'].add(spec_escape(s)).add(seq!['"'])
}

/// The same text with `\` replaced by `/`: paths are always rendered
/// with forward slashes.
pub open spec fn spec_slashes(s: Seq<char>) -> Seq<char> {
    Seq::new(s.len(), |i: int| if s[i] == '\\' { '/' } else { s[i] })
}

/// Append the escaped form of `s`.
pub fn push_escaped(out: &mut String, s: &str)
    ensures
        final(out)@ == old(out)@ + spec_escape(s@),
{
    let len = s.unicode_len();
    let mut i: usize = 0;
    assert(s@.subrange(0, 0) =~= Seq::<char>::empty());
    assert(out@ =~= out@ + spec_escape(s@.subrange(0, 0)));
    loop
        invariant
            i <= len,
            len == s@.len(),
            out@ == old(out)@ + spec_escape(s@.subrange(0, i as int)),
        decreases len - i,
    {
        if i == len {
            assert(s@.subrange(0, len as int) =~= s@);
            return ;
        }
        let c = s.get_char(i);
        proof {
            lemma_escape_push(s@.subrange(0, i as int), c);
            assert(s@.subrange(0, i as int).push(c) =~= s@.subrange(0, i + 1));
        }
        if c == '\\' {
            push_str(out, "\\\\");
            proof {
                reveal_strlit("\\\\");
                assert(spec_esc_char(c) =~= "\\\\"@);
            }
        } else if c == '"' {
            push_str(out, "\\\"");
            proof {
                reveal_strlit("\\\"");
                assert(spec_esc_char(c) =~= "\\\""@);
            }
        } else if c == '\n' {
            push_str(out, "\\n");
            proof {
                reveal_strlit("\\n");
                assert(spec_esc_char(c) =~= "\\n"@);
            }
        } else if c == '\t' {
            push_str(out, "\\t");
            proof {
                reveal_strlit("\\t");
                assert(spec_esc_char(c) =~= "\\t"@);
            }
        } else if c == '\r' {
            push_str(out, "\\r");
            proof {
                reveal_strlit("\\r");
                assert(spec_esc_char(c) =~= "\\r"@);
            }
        } else {
            push_char(out, c);
            assert(out@ =~= old(out)@ + spec_escape(s@.subrange(0, i + 1)));
        }
        assert(out@ =~= old(out)@ + spec_escape(s@.subrange(0, i + 1)));
        i = i + 1;
    }
}

/// Append the quoted form of `s`.
pub fn push_quoted(out: &mut String, s: &str)
    ensures
        final(out)@ == old(out)@ + spec_quote(s@),
{
    push_char(out, '"');
    push_escaped(out, s);
    push_char(out, '"');
    assert(out@ =~= old(out)@ + spec_quote(s@));
}

/// Replace `\` with `/`.
pub fn slashes(s: &str) -> (r: String)
    ensures
        r@ == spec_slashes(s@),
{
    let len = s.unicode_len();
    let mut out = String::new();
    let mut i: usize = 0;
    loop
        invariant
            i <= len,
            len == s@.len(),
            out@ == spec_slashes(s@).subrange(0, i as int),
        decreases len - i,
    {
        if i == len {
            assert(spec_slashes(s@).subrange(0, len as int) =~= spec_slashes(s@));
            return out;
        }
        let c = s.get_char(i);
        if c == '\\' {
            push_char(&mut out, '/');
        } else {
            push_char(&mut out, c);
        }
        assert(out@ =~= spec_slashes(s@).subrange(0, i + 1));
        i = i + 1;
    }
}

/// The items joined by the separator.
pub open spec fn spec_join(sep: Seq<char>, items: Seq<Seq<char>>) -> Seq<char>
    decreases items.len(),
{
    if items.len() == 0 {
        Seq::<char>::empty()
    } else if items.len() == 1 {
        items[0]
    } else {
        items[0].add(sep).add(spec_join(sep, items.drop_first()))
    }
}

pub proof fn lemma_join_push(sep: Seq<char>, items: Seq<Seq<char>>, x: Seq<char>)
    ensures
        items.len() == 0 ==> spec_join(sep, items.push(x)) == x,
        items.len() > 0 ==> spec_join(sep, items.push(x)) == spec_join(sep, items).add(sep).add(x),
    decreases items.len(),
{
    if items.len() == 0 {
        assert(items.push(x)[0] == x);
    } else if items.len() == 1 {
        assert(items.push(x)[0] == items[0]);
        assert(items.push(x).drop_first() =~= seq![x]);
        assert(spec_join(sep, seq![x]) == x);
        assert(spec_join(sep, items.push(x)) =~= spec_join(sep, items).add(sep).add(x));
    } else {
        lemma_join_push(sep, items.drop_first(), x);
        assert(items.push(x)[0] == items[0]);
        assert(items.push(x).drop_first() =~= items.drop_first().push(x));
        assert(spec_join(sep, items.push(x)) =~= spec_join(sep, items).add(sep).add(x));
    }
}

/// A rendered list: the quoted items, comma separated, in brackets.
pub open spec fn spec_list(items: Seq<Seq<char>>) -> Seq<char> {
    seq!['['].add(spec_join(", "@, items.map_values(|s: Seq<char>| spec_quote(s)))).add(seq![']'])
}

/// Append a rendered list of the strings.
pub fn push_list(out: &mut String, items: &Vec<String>)
    ensures
        final(out)@ == old(out)@ + spec_list(items.deep_view()),
{
    push_char(out, '[');
    let ghost atoms = items.deep_view().map_values(|s: Seq<char>| spec_quote(s));
    let mut i: usize = 0;
    assert(atoms.subrange(0, 0) =~= Seq::<Seq<char>>::empty());
    loop
        invariant
            i <= items.len(),
            items.deep_view().len() == items.len(),
            atoms == items.deep_view().map_values(|s: Seq<char>| spec_quote(s)),
            atoms.len() == items.len(),
            out@ == old(out)@ + seq!['['] + spec_join(", "@, atoms.subrange(0, i as int)),
        decreases items.len() - i,
    {
        if i == items.len() {
            assert(atoms.subrange(0, i as int) =~= atoms);
            push_char(out, ']');
            assert(out@ =~= old(out)@ + spec_list(items.deep_view()));
            return ;
        }
        if i > 0 {
            push_str(out, ", ");
        }
        push_quoted(out, items[i].as_str());
        proof {
            lemma_join_push(", "@, atoms.subrange(0, i as int), atoms[i as int]);
            assert(atoms.subrange(0, i as int).push(atoms[i as int]) =~= atoms.subrange(0, i + 1));
            assert(atoms[i as int] == spec_quote(items.deep_view()[i as int]));
            assert(out@ =~= old(out)@ + seq!['['] + spec_join(", "@, atoms.subrange(0, i + 1)));
        }
        i = i + 1;
    }
}

/// A rendered dictionary: quoted keys and values, comma separated, in
/// braces.
pub open spec fn spec_dict(entries: Seq<(Seq<char>, Seq<char>)>) -> Seq<char> {
    seq!['{'].add(
        spec_join(
            ", "@,
            entries.map_values(
                |e: (Seq<char>, Seq<char>)| spec_quote(e.0).add(": "@).add(spec_quote(e.1)),
            ),
        ),
    ).add(seq!['}'])
}

/// Append a rendered dictionary of the entries.
pub fn push_dict(out: &mut String, entries: &Vec<(String, String)>)
    ensures
        final(out)@ == old(out)@ + spec_dict(entries.deep_view()),
{
    push_char(out, '{');
    let ghost atoms = entries.deep_view().map_values(
        |e: (Seq<char>, Seq<char>)| spec_quote(e.0).add(": "@).add(spec_quote(e.1)),
    );
    let mut i: usize = 0;
    assert(atoms.subrange(0, 0) =~= Seq::<Seq<char>>::empty());
    loop
        invariant
            i <= entries.len(),
            entries.deep_view().len() == entries.len(),
            atoms == entries.deep_view().map_values(
                |e: (Seq<char>, Seq<char>)| spec_quote(e.0).add(": "@).add(spec_quote(e.1)),
            ),
            atoms.len() == entries.len(),
            out@ == old(out)@ + seq!['{'] + spec_join(", "@, atoms.subrange(0, i as int)),
        decreases entries.len() - i,
    {
        if i == entries.len() {
            assert(atoms.subrange(0, i as int) =~= atoms);
            push_char(out, '}');
            assert(out@ =~= old(out)@ + spec_dict(entries.deep_view()));
            return ;
        }
        if i > 0 {
            push_str(out, ", ");
        }
        push_quoted(out, entries[i].0.as_str());
        push_str(out, ": ");
        push_quoted(out, entries[i].1.as_str());
        proof {
            lemma_join_push(", "@, atoms.subrange(0, i as int), atoms[i as int]);
            assert(atoms.subrange(0, i as int).push(atoms[i as int]) =~= atoms.subrange(0, i + 1));
            assert(entries.deep_view()[i as int].0 == entries@[i as int].0@);
            assert(entries.deep_view()[i as int].1 == entries@[i as int].1@);
            assert(atoms[i as int] == spec_quote(entries.deep_view()[i as int].0).add(": "@).add(
                spec_quote(entries.deep_view()[i as int].1),
            ));
            assert(out@ =~= old(out)@ + seq!['{'] + spec_join(", "@, atoms.subrange(0, i + 1)));
        }
        i = i + 1;
    }
}


/// A value inside a per-platform `dict(...)` group.
pub enum AVal {
    Str(Seq<char>),
    Items(Seq<Seq<char>>),
    Entries(Seq<(Seq<char>, Seq<char>)>),
}

/// One attribute inside a per-platform `dict(...)` group.
pub struct AField {
    pub key: Seq<char>,
    pub val: AVal,
}

/// The value of a rendered attribute.
pub enum GVal {
    Str(Seq<char>),
    Flag(bool),
    Items(Seq<Seq<char>>),
    Entries(Seq<(Seq<char>, Seq<char>)>),
    Vis(crate::buck::Visibility),
    Platforms(Seq<(Seq<char>, Seq<AField>)>),
}

/// One rendered attribute of a declaration.
pub struct GField {
    pub key: Seq<char>,
    pub val: GVal,
}

pub open spec fn spec_aval_text(v: AVal) -> Seq<char> {
    match v {
        AVal::Str(s) => spec_quote(s),
        AVal::Items(items) => spec_list(items),
        AVal::Entries(e) => spec_dict(e),
    }
}

/// Whether the value is an empty collection.
pub open spec fn spec_aval_empty(v: AVal) -> bool {
    match v {
        AVal::Str(_) => false,
        AVal::Items(items) => items.len() == 0,
        AVal::Entries(e) => e.len() == 0,
    }
}

pub open spec fn spec_afield_text(f: AField) -> Seq<char> {
    f.key.add(" = "@).add(spec_aval_text(f.val))
}

pub open spec fn spec_plat_entry_text(e: (Seq<char>, Seq<AField>)) -> Seq<char> {
    spec_quote(e.0).add(": dict("@).add(
        spec_join(", "@, e.1.map_values(|f: AField| spec_afield_text(f))),
    ).add(")"@)
}

/// The rendered visibility value: `["PUBLIC"]`, `[]`, or the custom
/// list.
pub open spec fn spec_vis_text(v: crate::buck::Visibility) -> Seq<char> {
    match v {
        crate::buck::Visibility::Public => spec_list(seq!["PUBLIC"@]),
        crate::buck::Visibility::Private => spec_list(Seq::<Seq<char>>::empty()),
        crate::buck::Visibility::Custom(xs) => spec_list(xs.deep_view()),
    }
}

pub open spec fn spec_gval_text(v: GVal) -> Seq<char> {
    match v {
        GVal::Str(s) => spec_quote(s),
        GVal::Flag(b) => if b {
            "True"@
        } else {
            "False"@
        },
        GVal::Items(items) => spec_list(items),
        GVal::Entries(e) => spec_dict(e),
        GVal::Vis(vis) => spec_vis_text(vis),
        GVal::Platforms(es) => seq!['{'].add(
            spec_join(", "@, es.map_values(|e: (Seq<char>, Seq<AField>)| spec_plat_entry_text(e))),
        ).add(seq!['}']),
    }
}

/// Whether the value is an empty collection or a false flag; such a
/// value is never rendered.
pub open spec fn spec_gval_empty(v: GVal) -> bool {
    match v {
        GVal::Str(_) => false,
        GVal::Flag(b) => !b,
        GVal::Items(items) => items.len() == 0,
        GVal::Entries(e) => e.len() == 0,
        GVal::Vis(_) => false,
        GVal::Platforms(es) => es.len() == 0,
    }
}

/// One attribute line: four spaces, the key, ` = `, the value, a comma
/// and a newline.
pub open spec fn spec_field_text(f: GField) -> Seq<char> {
    "    "@.add(f.key).add(" = "@).add(spec_gval_text(f.val)).add(",\n"@)
}

pub open spec fn spec_fields_text(fs: Seq<GField>) -> Seq<char>
    decreases fs.len(),
{
    if fs.len() == 0 {
        Seq::<char>::empty()
    } else {
        spec_field_text(fs[0]).add(spec_fields_text(fs.drop_first()))
    }
}

pub proof fn lemma_fields_text_push(fs: Seq<GField>, f: GField)
    ensures
        spec_fields_text(fs.push(f)) == spec_fields_text(fs).add(spec_field_text(f)),
    decreases fs.len(),
{
    reveal_with_fuel(spec_fields_text, 3);
    if fs.len() == 0 {
        assert(fs.push(f)[0] == f);
        assert(fs.push(f).drop_first() =~= Seq::<GField>::empty());
        assert(spec_fields_text(fs.push(f)) =~= spec_fields_text(fs).add(spec_field_text(f)));
    } else {
        lemma_fields_text_push(fs.drop_first(), f);
        assert(fs.push(f)[0] == fs[0]);
        assert(fs.push(f).drop_first() =~= fs.drop_first().push(f));
        assert(spec_fields_text(fs.push(f)) =~= spec_fields_text(fs).add(spec_field_text(f)));
    }
}

/// A whole declaration: the rule name called on its attribute lines.
pub open spec fn spec_call_text(func: Seq<char>, fs: Seq<GField>) -> Seq<char> {
    func.add("(\n"@).add(spec_fields_text(fs)).add(")\n"@)
}

/// Append `    key = "val",` with a newline.
pub fn push_field_str(out: &mut String, key: &str, val: &str)
    ensures
        final(out)@ == old(out)@ + spec_field_text(GField { key: key@, val: GVal::Str(val@) }),
{
    push_str(out, "    ");
    push_str(out, key);
    push_str(out, " = ");
    push_quoted(out, val);
    push_str(out, ",\n");
    assert(out@ =~= old(out)@ + spec_field_text(GField { key: key@, val: GVal::Str(val@) }));
}

/// Append `    key = True,` with a newline.
pub fn push_field_flag(out: &mut String, key: &str)
    ensures
        final(out)@ == old(out)@ + spec_field_text(GField { key: key@, val: GVal::Flag(true) }),
{
    push_str(out, "    ");
    push_str(out, key);
    push_str(out, " = ");
    push_str(out, "True");
    push_str(out, ",\n");
    assert(out@ =~= old(out)@ + spec_field_text(GField { key: key@, val: GVal::Flag(true) }));
}

/// Append `    key = [...],` with a newline.
pub fn push_field_items(out: &mut String, key: &str, items: &Vec<String>)
    ensures
        final(out)@ == old(out)@ + spec_field_text(
            GField { key: key@, val: GVal::Items(items.deep_view()) },
        ),
{
    push_str(out, "    ");
    push_str(out, key);
    push_str(out, " = ");
    push_list(out, items);
    push_str(out, ",\n");
    assert(out@ =~= old(out)@ + spec_field_text(
        GField { key: key@, val: GVal::Items(items.deep_view()) },
    ));
}

/// Append `    key = {...},` with a newline.
pub fn push_field_entries(out: &mut String, key: &str, entries: &Vec<(String, String)>)
    ensures
        final(out)@ == old(out)@ + spec_field_text(
            GField { key: key@, val: GVal::Entries(entries.deep_view()) },
        ),
{
    push_str(out, "    ");
    push_str(out, key);
    push_str(out, " = ");
    push_dict(out, entries);
    push_str(out, ",\n");
    assert(out@ =~= old(out)@ + spec_field_text(
        GField { key: key@, val: GVal::Entries(entries.deep_view()) },
    ));
}

/// Append `    key = <visibility>,` with a newline.
pub fn push_field_vis(out: &mut String, key: &str, vis: &crate::buck::Visibility)
    ensures
        final(out)@ == old(out)@ + spec_field_text(GField { key: key@, val: GVal::Vis(*vis) }),
{
    push_str(out, "    ");
    push_str(out, key);
    push_str(out, " = ");
    match vis {
        crate::buck::Visibility::Public => {
            let mut one: Vec<String> = Vec::new();
            one.push(String::from_str("PUBLIC"));
            push_list(out, &one);
            assert(one.deep_view() =~= seq!["PUBLIC"@]);
        },
        crate::buck::Visibility::Private => {
            let none: Vec<String> = Vec::new();
            push_list(out, &none);
            assert(none.deep_view() =~= Seq::<Seq<char>>::empty());
        },
        crate::buck::Visibility::Custom(xs) => {
            push_list(out, xs);
        },
    }
    push_str(out, ",\n");
    assert(out@ =~= old(out)@ + spec_field_text(GField { key: key@, val: GVal::Vis(*vis) }));
}


/// `:name` — a local label.
pub fn colon_str(s: &str) -> (r: String)
    ensures
        r@ == seq![':'].add(s@),
{
    let mut out = String::new();
    push_char(&mut out, ':');
    push_str(&mut out, s);
    assert(out@ =~= seq![':'].add(s@));
    out
}

/// The rendered atoms of a path set: forward-slashed path texts.
pub open spec fn spec_paths_view(s: Seq<crate::buck::BuckPath>) -> Seq<Seq<char>> {
    s.map_values(|p: crate::buck::BuckPath| spec_slashes(p.0@))
}

pub fn paths_vec(s: &Vec<crate::buck::BuckPath>) -> (r: Vec<String>)
    ensures
        r.deep_view() == spec_paths_view(s@),
{
    let mut out: Vec<String> = Vec::new();
    let mut i: usize = 0;
    loop
        invariant
            i <= s.len(),
            out.deep_view() == spec_paths_view(s@.take(i as int)),
        decreases s.len() - i,
    {
        if i == s.len() {
            assert(s@.take(s@.len() as int) =~= s@);
            return out;
        }
        let ghost pre = out.deep_view();
        out.push(slashes(s[i].0.as_str()));
        assert(out.deep_view() =~= pre.push(spec_slashes(s@[i as int].0@)));
        assert(s@.take(i + 1).drop_last() =~= s@.take(i as int));
        assert(out.deep_view() =~= spec_paths_view(s@.take(i + 1)));
        i = i + 1;
    }
}

/// The rendered atoms of a dependency set: the target strings.
pub open spec fn spec_refs_view(s: Seq<crate::buck::RuleRef>) -> Seq<Seq<char>> {
    s.map_values(|r: crate::buck::RuleRef| r.target@)
}

pub fn refs_vec(s: &Vec<crate::buck::RuleRef>) -> (r: Vec<String>)
    ensures
        r.deep_view() == spec_refs_view(s@),
{
    let mut out: Vec<String> = Vec::new();
    let mut i: usize = 0;
    loop
        invariant
            i <= s.len(),
            out.deep_view() == spec_refs_view(s@.take(i as int)),
        decreases s.len() - i,
    {
        if i == s.len() {
            assert(s@.take(s@.len() as int) =~= s@);
            return out;
        }
        let ghost pre = out.deep_view();
        out.push(crate::strutil::clone_string(&s[i].target));
        assert(out.deep_view() =~= pre.push(s@[i as int].target@));
        assert(out.deep_view() =~= spec_refs_view(s@.take(i + 1)));
        i = i + 1;
    }
}

/// The texts of a string set.
pub open spec fn spec_strs_view(s: Seq<String>) -> Seq<Seq<char>> {
    s.map_values(|x: String| x@)
}

pub fn strs_vec(s: &Vec<String>) -> (r: Vec<String>)
    ensures
        r.deep_view() == spec_strs_view(s@),
{
    let mut out: Vec<String> = Vec::new();
    let mut i: usize = 0;
    loop
        invariant
            i <= s.len(),
            out.deep_view() == spec_strs_view(s@.take(i as int)),
        decreases s.len() - i,
    {
        if i == s.len() {
            assert(s@.take(s@.len() as int) =~= s@);
            return out;
        }
        let ghost pre = out.deep_view();
        out.push(crate::strutil::clone_string(&s[i]));
        assert(out.deep_view() =~= pre.push(s@[i as int]@));
        assert(out.deep_view() =~= spec_strs_view(s@.take(i + 1)));
        i = i + 1;
    }
}

/// The rendered text of a sub-target or path: `:target[rel]` or the
/// forward-slashed path.
pub open spec fn spec_sop_text(s: crate::buck::SubtargetOrPath) -> Seq<char> {
    match s {
        crate::buck::SubtargetOrPath::Subtarget(st) => seq![':'].add(st.target.0@).add(
            seq!['['],
        ).add(spec_slashes(st.relative.0@)).add(seq![']']),
        crate::buck::SubtargetOrPath::Path(p) => spec_slashes(p.0@),
    }
}

pub fn sop_string(s: &crate::buck::SubtargetOrPath) -> (r: String)
    ensures
        r@ == spec_sop_text(*s),
{
    match s {
        crate::buck::SubtargetOrPath::Subtarget(st) => {
            let mut out = String::new();
            push_char(&mut out, ':');
            push_str(&mut out, st.target.0.as_str());
            push_char(&mut out, '[');
            let rel = slashes(st.relative.0.as_str());
            push_str(&mut out, rel.as_str());
            push_char(&mut out, ']');
            assert(out@ =~= spec_sop_text(*s));
            out
        },
        crate::buck::SubtargetOrPath::Path(p) => slashes(p.0.as_str()),
    }
}

pub open spec fn spec_sops_view(s: Seq<crate::buck::SubtargetOrPath>) -> Seq<Seq<char>> {
    s.map_values(|x: crate::buck::SubtargetOrPath| spec_sop_text(x))
}

pub fn sops_vec(s: &Vec<crate::buck::SubtargetOrPath>) -> (r: Vec<String>)
    ensures
        r.deep_view() == spec_sops_view(s@),
{
    let mut out: Vec<String> = Vec::new();
    let mut i: usize = 0;
    loop
        invariant
            i <= s.len(),
            out.deep_view() == spec_sops_view(s@.take(i as int)),
        decreases s.len() - i,
    {
        if i == s.len() {
            assert(s@.take(s@.len() as int) =~= s@);
            return out;
        }
        let ghost pre = out.deep_view();
        out.push(sop_string(&s[i]));
        assert(out.deep_view() =~= pre.push(spec_sop_text(s@[i as int])));
        assert(out.deep_view() =~= spec_sops_view(s@.take(i + 1)));
        i = i + 1;
    }
}

/// The rendered entries of a mapped-sources map.
pub open spec fn spec_mapped_view(s: Seq<(crate::buck::SubtargetOrPath, crate::buck::BuckPath)>)
    -> Seq<(Seq<char>, Seq<char>)> {
    s.map_values(
        |e: (crate::buck::SubtargetOrPath, crate::buck::BuckPath)|
            (spec_sop_text(e.0), spec_slashes(e.1.0@)),
    )
}

pub fn mapped_vec(s: &Vec<(crate::buck::SubtargetOrPath, crate::buck::BuckPath)>) -> (r: Vec<
    (String, String),
>)
    ensures
        r.deep_view() == spec_mapped_view(s@),
{
    let mut out: Vec<(String, String)> = Vec::new();
    let mut i: usize = 0;
    loop
        invariant
            i <= s.len(),
            out.deep_view() == spec_mapped_view(s@.take(i as int)),
        decreases s.len() - i,
    {
        if i == s.len() {
            assert(s@.take(s@.len() as int) =~= s@);
            return out;
        }
        let ghost pre = out.deep_view();
        out.push((sop_string(&s[i].0), slashes(s[i].1.0.as_str())));
        assert(out.deep_view() =~= pre.push(
            (spec_sop_text(s@[i as int].0), spec_slashes(s@[i as int].1.0@)),
        ));
        assert(out.deep_view() =~= spec_mapped_view(s@.take(i + 1)));
        i = i + 1;
    }
}

/// The rendered entries of a named-dependency map.
pub open spec fn spec_named_view(s: Seq<(String, crate::buck::RuleRef)>) -> Seq<
    (Seq<char>, Seq<char>),
> {
    s.map_values(|e: (String, crate::buck::RuleRef)| (e.0@, e.1.target@))
}

pub fn named_vec(s: &Vec<(String, crate::buck::RuleRef)>) -> (r: Vec<(String, String)>)
    ensures
        r.deep_view() == spec_named_view(s@),
{
    let mut out: Vec<(String, String)> = Vec::new();
    let mut i: usize = 0;
    loop
        invariant
            i <= s.len(),
            out.deep_view() == spec_named_view(s@.take(i as int)),
        decreases s.len() - i,
    {
        if i == s.len() {
            assert(s@.take(s@.len() as int) =~= s@);
            return out;
        }
        let ghost pre = out.deep_view();
        out.push(
            (
                crate::strutil::clone_string(&s[i].0),
                crate::strutil::clone_string(&s[i].1.target),
            ),
        );
        assert(out.deep_view() =~= pre.push((s@[i as int].0@, s@[i as int].1.target@)));
        assert(out.deep_view() =~= spec_named_view(s@.take(i + 1)));
        i = i + 1;
    }
}

/// The rendered text of an environment value.
pub open spec fn spec_env_val_text(v: crate::buck::StringOrPath) -> Seq<char> {
    match v {
        crate::buck::StringOrPath::String(x) => x@,
        crate::buck::StringOrPath::Path(p) => spec_slashes(p.0@),
    }
}

/// The rendered entries of an environment map.
pub open spec fn spec_env_view(s: Seq<(String, crate::buck::StringOrPath)>) -> Seq<
    (Seq<char>, Seq<char>),
> {
    s.map_values(|e: (String, crate::buck::StringOrPath)| (e.0@, spec_env_val_text(e.1)))
}

pub fn env_vec(s: &Vec<(String, crate::buck::StringOrPath)>) -> (r: Vec<(String, String)>)
    ensures
        r.deep_view() == spec_env_view(s@),
{
    let mut out: Vec<(String, String)> = Vec::new();
    let mut i: usize = 0;
    loop
        invariant
            i <= s.len(),
            out.deep_view() == spec_env_view(s@.take(i as int)),
        decreases s.len() - i,
    {
        if i == s.len() {
            assert(s@.take(s@.len() as int) =~= s@);
            return out;
        }
        let ghost pre = out.deep_view();
        let v = match &s[i].1 {
            crate::buck::StringOrPath::String(x) => crate::strutil::clone_string(x),
            crate::buck::StringOrPath::Path(p) => slashes(p.0.as_str()),
        };
        out.push((crate::strutil::clone_string(&s[i].0), v));
        assert(out.deep_view() =~= pre.push((s@[i as int].0@, spec_env_val_text(s@[i as int].1))));
        assert(out.deep_view() =~= spec_env_view(s@.take(i + 1)));
        i = i + 1;
    }
}

/// The attribute lines of an alias declaration: the name, the local
/// label it forwards to, and its visibility.
pub open spec fn spec_alias_fields(a: crate::buck::Alias) -> Seq<GField> {
    seq![
        GField { key: "name"@, val: GVal::Str(a.name.0@) },
        GField { key: "actual"@, val: GVal::Str(seq![':'].add(a.actual.0@)) },
        GField { key: "visibility"@, val: GVal::Vis(a.visibility) },
    ]
}

/// Render an alias declaration as a call on the given rule name.
pub fn render_alias(a: &crate::buck::Alias, func: &str) -> (r: String)
    ensures
        r@ == spec_call_text(func@, spec_alias_fields(*a)),
{
    let mut out = String::new();
    push_str(&mut out, func);
    push_str(&mut out, "(\n");
    let ghost mut fs: Seq<GField> = Seq::<GField>::empty();
    assert(out@ =~= func@ + "(\n"@ + spec_fields_text(fs));

    push_field_str(&mut out, "name", a.name.0.as_str());
    proof {
        lemma_fields_text_push(fs, GField { key: "name"@, val: GVal::Str(a.name.0@) });
        fs = fs.push(GField { key: "name"@, val: GVal::Str(a.name.0@) });
        assert(out@ =~= func@ + "(\n"@ + spec_fields_text(fs));
    }

    let actual = colon_str(a.actual.0.as_str());
    push_field_str(&mut out, "actual", actual.as_str());
    proof {
        lemma_fields_text_push(
            fs,
            GField { key: "actual"@, val: GVal::Str(seq![':'].add(a.actual.0@)) },
        );
        fs = fs.push(GField { key: "actual"@, val: GVal::Str(seq![':'].add(a.actual.0@)) });
        assert(out@ =~= func@ + "(\n"@ + spec_fields_text(fs));
    }

    push_field_vis(&mut out, "visibility", &a.visibility);
    proof {
        lemma_fields_text_push(fs, GField { key: "visibility"@, val: GVal::Vis(a.visibility) });
        fs = fs.push(GField { key: "visibility"@, val: GVal::Vis(a.visibility) });
        assert(out@ =~= func@ + "(\n"@ + spec_fields_text(fs));
    }

    push_str(&mut out, ")\n");
    proof {
        assert(fs =~= spec_alias_fields(*a));
        assert(out@ =~= spec_call_text(func@, spec_alias_fields(*a)));
    }
    out
}


/// The attributes of one per-platform group, in their fixed order, empty
/// ones omitted.
pub open spec fn spec_prc_afields(p: crate::buck::PlatformRustCommon) -> Seq<AField> {
    let fs = Seq::<AField>::empty();
    let fs = if p.srcs@.len() > 0 {
        fs.push(AField { key: "srcs"@, val: AVal::Items(spec_paths_view(p.srcs@)) })
    } else {
        fs
    };
    let fs = if p.env@.len() > 0 {
        fs.push(AField { key: "env"@, val: AVal::Entries(spec_env_view(p.env@)) })
    } else {
        fs
    };
    let fs = if p.features@.len() > 0 {
        fs.push(AField { key: "features"@, val: AVal::Items(spec_strs_view(p.features@)) })
    } else {
        fs
    };
    let fs = if p.link_style is Some {
        fs.push(AField { key: "link_style"@, val: AVal::Str((p.link_style->0)@) })
    } else {
        fs
    };
    let fs = if p.mapped_srcs@.len() > 0 {
        fs.push(AField { key: "mapped_srcs"@, val: AVal::Entries(spec_mapped_view(p.mapped_srcs@)) })
    } else {
        fs
    };
    let fs = if p.named_deps@.len() > 0 {
        fs.push(AField { key: "named_deps"@, val: AVal::Entries(spec_named_view(p.named_deps@)) })
    } else {
        fs
    };
    let fs = if p.preferred_linkage is Some {
        fs.push(AField { key: "preferred_linkage"@, val: AVal::Str((p.preferred_linkage->0)@) })
    } else {
        fs
    };
    let fs = if p.rustc_flags@.len() > 0 {
        fs.push(AField { key: "rustc_flags"@, val: AVal::Items(spec_strs_view(p.rustc_flags@)) })
    } else {
        fs
    };
    let fs = if p.deps@.len() > 0 {
        fs.push(AField { key: "deps"@, val: AVal::Items(spec_refs_view(p.deps@)) })
    } else {
        fs
    };
    fs
}

/// The comma-joined attribute text of one per-platform group.
pub open spec fn spec_afields_join(fs: Seq<AField>) -> Seq<char> {
    spec_join(", "@, fs.map_values(|f: AField| spec_afield_text(f)))
}

pub proof fn lemma_afields_join_push(fs: Seq<AField>, f: AField)
    ensures
        fs.len() == 0 ==> spec_afields_join(fs.push(f)) == spec_afield_text(f),
        fs.len() > 0 ==> spec_afields_join(fs.push(f)) == spec_afields_join(fs).add(", "@).add(
            spec_afield_text(f),
        ),
{
    let tx = |g: AField| spec_afield_text(g);
    assert(fs.push(f).map_values(tx) =~= fs.map_values(tx).push(spec_afield_text(f)));
    lemma_join_push(", "@, fs.map_values(tx), spec_afield_text(f));
}

/// Append one group attribute, separated from an earlier one by a comma.
fn push_afield_str(out: &mut String, first: bool, key: &str, val: &str)
    ensures
        final(out)@ == old(out)@ + (if first {
            Seq::<char>::empty()
        } else {
            ", "@
        }) + spec_afield_text(AField { key: key@, val: AVal::Str(val@) }),
{
    if !first {
        push_str(out, ", ");
    }
    push_str(out, key);
    push_str(out, " = ");
    push_quoted(out, val);
    assert(out@ =~= old(out)@ + (if first {
        Seq::<char>::empty()
    } else {
        ", "@
    }) + spec_afield_text(AField { key: key@, val: AVal::Str(val@) }));
}

fn push_afield_items(out: &mut String, first: bool, key: &str, items: &Vec<String>)
    ensures
        final(out)@ == old(out)@ + (if first {
            Seq::<char>::empty()
        } else {
            ", "@
        }) + spec_afield_text(AField { key: key@, val: AVal::Items(items.deep_view()) }),
{
    if !first {
        push_str(out, ", ");
    }
    push_str(out, key);
    push_str(out, " = ");
    push_list(out, items);
    assert(out@ =~= old(out)@ + (if first {
        Seq::<char>::empty()
    } else {
        ", "@
    }) + spec_afield_text(AField { key: key@, val: AVal::Items(items.deep_view()) }));
}

fn push_afield_entries(out: &mut String, first: bool, key: &str, entries: &Vec<(String, String)>)
    ensures
        final(out)@ == old(out)@ + (if first {
            Seq::<char>::empty()
        } else {
            ", "@
        }) + spec_afield_text(AField { key: key@, val: AVal::Entries(entries.deep_view()) }),
{
    if !first {
        push_str(out, ", ");
    }
    push_str(out, key);
    push_str(out, " = ");
    push_dict(out, entries);
    assert(out@ =~= old(out)@ + (if first {
        Seq::<char>::empty()
    } else {
        ", "@
    }) + spec_afield_text(AField { key: key@, val: AVal::Entries(entries.deep_view()) }));
}


/// The texts concatenated.
pub open spec fn spec_concat_texts(items: Seq<Seq<char>>) -> Seq<char>
    decreases items.len(),
{
    if items.len() == 0 {
        Seq::<char>::empty()
    } else {
        items[0].add(spec_concat_texts(items.drop_first()))
    }
}

pub proof fn lemma_concat_texts_push(items: Seq<Seq<char>>, x: Seq<char>)
    ensures
        spec_concat_texts(items.push(x)) == spec_concat_texts(items).add(x),
    decreases items.len(),
{
    reveal_with_fuel(spec_concat_texts, 3);
    if items.len() == 0 {
        assert(items.push(x)[0] == x);
        assert(items.push(x).drop_first() =~= Seq::<Seq<char>>::empty());
        assert(spec_concat_texts(items.push(x)) =~= spec_concat_texts(items).add(x));
    } else {
        lemma_concat_texts_push(items.drop_first(), x);
        assert(items.push(x)[0] == items[0]);
        assert(items.push(x).drop_first() =~= items.drop_first().push(x));
        assert(spec_concat_texts(items.push(x)) =~= spec_concat_texts(items).add(x));
    }
}

/// The attribute lines of a declaration are the concatenation of each
/// line's text.
pub proof fn lemma_fields_text_concat_form(fs: Seq<GField>)
    ensures
        spec_fields_text(fs) == spec_concat_texts(
            fs.map_values(|f: GField| spec_field_text(f)),
        ),
    decreases fs.len(),
{
    if fs.len() > 0 {
        lemma_fields_text_concat_form(fs.drop_first());
        assert(fs.map_values(|f: GField| spec_field_text(f)).drop_first() =~= fs.drop_first()
            .map_values(|f: GField| spec_field_text(f)));
        assert(fs.map_values(|f: GField| spec_field_text(f))[0] == spec_field_text(fs[0]));
    }
}

/// Append every part, in order.
pub fn push_all(out: &mut String, parts: &Vec<String>)
    ensures
        final(out)@ == old(out)@ + spec_concat_texts(parts.deep_view()),
{
    let mut i: usize = 0;
    assert(parts.deep_view().subrange(0, 0) =~= Seq::<Seq<char>>::empty());
    assert(out@ =~= out@ + spec_concat_texts(parts.deep_view().subrange(0, 0)));
    loop
        invariant
            i <= parts.len(),
            parts.deep_view().len() == parts.len(),
            out@ == old(out)@ + spec_concat_texts(parts.deep_view().subrange(0, i as int)),
        decreases parts.len() - i,
    {
        if i == parts.len() {
            assert(parts.deep_view().subrange(0, i as int) =~= parts.deep_view());
            return ;
        }
        push_str(out, parts[i].as_str());
        proof {
            lemma_concat_texts_push(
                parts.deep_view().subrange(0, i as int),
                parts.deep_view()[i as int],
            );
            assert(parts.deep_view().subrange(0, i as int).push(parts.deep_view()[i as int])
                =~= parts.deep_view().subrange(0, i + 1));
            assert(out@ =~= old(out)@ + spec_concat_texts(
                parts.deep_view().subrange(0, i + 1),
            ));
        }
        i = i + 1;
    }
}

/// Append every part, separated by `sep`.
pub fn push_joined(out: &mut String, parts: &Vec<String>, sep: &str)
    ensures
        final(out)@ == old(out)@ + spec_join(sep@, parts.deep_view()),
{
    let mut i: usize = 0;
    assert(parts.deep_view().subrange(0, 0) =~= Seq::<Seq<char>>::empty());
    assert(out@ =~= out@ + spec_join(sep@, parts.deep_view().subrange(0, 0)));
    loop
        invariant
            i <= parts.len(),
            parts.deep_view().len() == parts.len(),
            out@ == old(out)@ + spec_join(sep@, parts.deep_view().subrange(0, i as int)),
        decreases parts.len() - i,
    {
        if i == parts.len() {
            assert(parts.deep_view().subrange(0, i as int) =~= parts.deep_view());
            return ;
        }
        if i > 0 {
            push_str(out, sep);
        }
        push_str(out, parts[i].as_str());
        proof {
            lemma_join_push(sep@, parts.deep_view().subrange(0, i as int), parts.deep_view()[i as int]);
            assert(parts.deep_view().subrange(0, i as int).push(parts.deep_view()[i as int])
                =~= parts.deep_view().subrange(0, i + 1));
            assert(out@ =~= old(out)@ + spec_join(sep@, parts.deep_view().subrange(0, i + 1)));
        }
        i = i + 1;
    }
}

/// A conditional extension of an attribute-group list.
pub open spec fn spec_astep(fs: Seq<AField>, cond: bool, f: AField) -> Seq<AField> {
    if cond {
        fs.push(f)
    } else {
        fs
    }
}

/// A conditional extension of an attribute list.
pub open spec fn spec_gstep(fs: Seq<GField>, cond: bool, f: GField) -> Seq<GField> {
    if cond {
        fs.push(f)
    } else {
        fs
    }
}

fn prc_add_srcs(
    parts: &mut Vec<String>,
    p: &crate::buck::PlatformRustCommon,
    Ghost(fs): Ghost<Seq<AField>>,
) -> (r: Ghost<Seq<AField>>)
    requires
        old(parts).deep_view() == fs.map_values(|g: AField| spec_afield_text(g)),
    ensures
        r@ == spec_astep(
            fs,
            p.srcs@.len() > 0,
            AField { key: "srcs"@, val: AVal::Items(spec_paths_view(p.srcs@)) },
        ),
        final(parts).deep_view() == r@.map_values(|g: AField| spec_afield_text(g)),
{
    let srcs = paths_vec(p.srcs.as_slice());
    proof {
        assert(srcs.deep_view() == spec_paths_view(p.srcs@));
        assert(srcs@.len() == srcs.deep_view().len());
        assert(spec_paths_view(p.srcs@).len() == p.srcs@.len());
    }
    if srcs.len() > 0 {
        let mut t = String::new();
        push_afield_items(&mut t, true, "srcs", &srcs);
        let ghost f = AField { key: "srcs"@, val: AVal::Items(srcs.deep_view()) };
        assert(t@ =~= spec_afield_text(f));
        let ghost pp = parts.deep_view();
        parts.push(t);
        proof {
            assert(parts.deep_view() =~= pp.push(spec_afield_text(f)));
            assert(fs.push(f).map_values(|g: AField| spec_afield_text(g)) =~= fs.map_values(
                |g: AField| spec_afield_text(g),
            ).push(spec_afield_text(f)));
        }
        Ghost(fs.push(f))
    } else {
        Ghost(fs)
    }
}

fn prc_add_env(
    parts: &mut Vec<String>,
    p: &crate::buck::PlatformRustCommon,
    Ghost(fs): Ghost<Seq<AField>>,
) -> (r: Ghost<Seq<AField>>)
    requires
        old(parts).deep_view() == fs.map_values(|g: AField| spec_afield_text(g)),
    ensures
        r@ == spec_astep(
            fs,
            p.env@.len() > 0,
            AField { key: "env"@, val: AVal::Entries(spec_env_view(p.env@)) },
        ),
        final(parts).deep_view() == r@.map_values(|g: AField| spec_afield_text(g)),
{
    let env = env_vec(p.env.as_slice());
    proof {
        assert(env.deep_view() == spec_env_view(p.env@));
        assert(env@.len() == env.deep_view().len());
        assert(spec_env_view(p.env@).len() == p.env@.len());
    }
    if env.len() > 0 {
        let mut t = String::new();
        push_afield_entries(&mut t, true, "env", &env);
        let ghost f = AField { key: "env"@, val: AVal::Entries(env.deep_view()) };
        assert(t@ =~= spec_afield_text(f));
        let ghost pp = parts.deep_view();
        parts.push(t);
        proof {
            assert(parts.deep_view() =~= pp.push(spec_afield_text(f)));
            assert(fs.push(f).map_values(|g: AField| spec_afield_text(g)) =~= fs.map_values(
                |g: AField| spec_afield_text(g),
            ).push(spec_afield_text(f)));
        }
        Ghost(fs.push(f))
    } else {
        Ghost(fs)
    }
}

fn prc_add_features(
    parts: &mut Vec<String>,
    p: &crate::buck::PlatformRustCommon,
    Ghost(fs): Ghost<Seq<AField>>,
) -> (r: Ghost<Seq<AField>>)
    requires
        old(parts).deep_view() == fs.map_values(|g: AField| spec_afield_text(g)),
    ensures
        r@ == spec_astep(
            fs,
            p.features@.len() > 0,
            AField { key: "features"@, val: AVal::Items(spec_strs_view(p.features@)) },
        ),
        final(parts).deep_view() == r@.map_values(|g: AField| spec_afield_text(g)),
{
    let features = strs_vec(p.features.as_slice());
    proof {
        assert(features.deep_view() == spec_strs_view(p.features@));
        assert(features@.len() == features.deep_view().len());
        assert(spec_strs_view(p.features@).len() == p.features@.len());
    }
    if features.len() > 0 {
        let mut t = String::new();
        push_afield_items(&mut t, true, "features", &features);
        let ghost f = AField { key: "features"@, val: AVal::Items(features.deep_view()) };
        assert(t@ =~= spec_afield_text(f));
        let ghost pp = parts.deep_view();
        parts.push(t);
        proof {
            assert(parts.deep_view() =~= pp.push(spec_afield_text(f)));
            assert(fs.push(f).map_values(|g: AField| spec_afield_text(g)) =~= fs.map_values(
                |g: AField| spec_afield_text(g),
            ).push(spec_afield_text(f)));
        }
        Ghost(fs.push(f))
    } else {
        Ghost(fs)
    }
}

fn prc_add_link_style(
    parts: &mut Vec<String>,
    p: &crate::buck::PlatformRustCommon,
    Ghost(fs): Ghost<Seq<AField>>,
) -> (r: Ghost<Seq<AField>>)
    requires
        old(parts).deep_view() == fs.map_values(|g: AField| spec_afield_text(g)),
    ensures
        r@ == spec_astep(
            fs,
            p.link_style is Some,
            AField { key: "link_style"@, val: AVal::Str((p.link_style->0)@) },
        ),
        final(parts).deep_view() == r@.map_values(|g: AField| spec_afield_text(g)),
{
    match &p.link_style {
        Option::Some(v) => {
            let mut t = String::new();
            push_afield_str(&mut t, true, "link_style", v.as_str());
            let ghost f = AField { key: "link_style"@, val: AVal::Str(v@) };
            assert(t@ =~= spec_afield_text(f));
            let ghost pp = parts.deep_view();
            parts.push(t);
            proof {
                assert(parts.deep_view() =~= pp.push(spec_afield_text(f)));
                assert(fs.push(f).map_values(|g: AField| spec_afield_text(g)) =~= fs.map_values(
                    |g: AField| spec_afield_text(g),
                ).push(spec_afield_text(f)));
            }
            Ghost(fs.push(f))
        },
        Option::None => { Ghost(fs) },
    }
}

fn prc_add_mapped_srcs(
    parts: &mut Vec<String>,
    p: &crate::buck::PlatformRustCommon,
    Ghost(fs): Ghost<Seq<AField>>,
) -> (r: Ghost<Seq<AField>>)
    requires
        old(parts).deep_view() == fs.map_values(|g: AField| spec_afield_text(g)),
    ensures
        r@ == spec_astep(
            fs,
            p.mapped_srcs@.len() > 0,
            AField { key: "mapped_srcs"@, val: AVal::Entries(spec_mapped_view(p.mapped_srcs@)) },
        ),
        final(parts).deep_view() == r@.map_values(|g: AField| spec_afield_text(g)),
{
    let mapped = mapped_vec(p.mapped_srcs.as_slice());
    proof {
        assert(mapped.deep_view() == spec_mapped_view(p.mapped_srcs@));
        assert(mapped@.len() == mapped.deep_view().len());
        assert(spec_mapped_view(p.mapped_srcs@).len() == p.mapped_srcs@.len());
    }
    if mapped.len() > 0 {
        let mut t = String::new();
        push_afield_entries(&mut t, true, "mapped_srcs", &mapped);
        let ghost f = AField { key: "mapped_srcs"@, val: AVal::Entries(mapped.deep_view()) };
        assert(t@ =~= spec_afield_text(f));
        let ghost pp = parts.deep_view();
        parts.push(t);
        proof {
            assert(parts.deep_view() =~= pp.push(spec_afield_text(f)));
            assert(fs.push(f).map_values(|g: AField| spec_afield_text(g)) =~= fs.map_values(
                |g: AField| spec_afield_text(g),
            ).push(spec_afield_text(f)));
        }
        Ghost(fs.push(f))
    } else {
        Ghost(fs)
    }
}

fn prc_add_named_deps(
    parts: &mut Vec<String>,
    p: &crate::buck::PlatformRustCommon,
    Ghost(fs): Ghost<Seq<AField>>,
) -> (r: Ghost<Seq<AField>>)
    requires
        old(parts).deep_view() == fs.map_values(|g: AField| spec_afield_text(g)),
    ensures
        r@ == spec_astep(
            fs,
            p.named_deps@.len() > 0,
            AField { key: "named_deps"@, val: AVal::Entries(spec_named_view(p.named_deps@)) },
        ),
        final(parts).deep_view() == r@.map_values(|g: AField| spec_afield_text(g)),
{
    let named = named_vec(p.named_deps.as_slice());
    proof {
        assert(named.deep_view() == spec_named_view(p.named_deps@));
        assert(named@.len() == named.deep_view().len());
        assert(spec_named_view(p.named_deps@).len() == p.named_deps@.len());
    }
    if named.len() > 0 {
        let mut t = String::new();
        push_afield_entries(&mut t, true, "named_deps", &named);
        let ghost f = AField { key: "named_deps"@, val: AVal::Entries(named.deep_view()) };
        assert(t@ =~= spec_afield_text(f));
        let ghost pp = parts.deep_view();
        parts.push(t);
        proof {
            assert(parts.deep_view() =~= pp.push(spec_afield_text(f)));
            assert(fs.push(f).map_values(|g: AField| spec_afield_text(g)) =~= fs.map_values(
                |g: AField| spec_afield_text(g),
            ).push(spec_afield_text(f)));
        }
        Ghost(fs.push(f))
    } else {
        Ghost(fs)
    }
}

fn prc_add_preferred_linkage(
    parts: &mut Vec<String>,
    p: &crate::buck::PlatformRustCommon,
    Ghost(fs): Ghost<Seq<AField>>,
) -> (r: Ghost<Seq<AField>>)
    requires
        old(parts).deep_view() == fs.map_values(|g: AField| spec_afield_text(g)),
    ensures
        r@ == spec_astep(
            fs,
            p.preferred_linkage is Some,
            AField { key: "preferred_linkage"@, val: AVal::Str((p.preferred_linkage->0)@) },
        ),
        final(parts).deep_view() == r@.map_values(|g: AField| spec_afield_text(g)),
{
    match &p.preferred_linkage {
        Option::Some(v) => {
            let mut t = String::new();
            push_afield_str(&mut t, true, "preferred_linkage", v.as_str());
            let ghost f = AField { key: "preferred_linkage"@, val: AVal::Str(v@) };
            assert(t@ =~= spec_afield_text(f));
            let ghost pp = parts.deep_view();
            parts.push(t);
            proof {
                assert(parts.deep_view() =~= pp.push(spec_afield_text(f)));
                assert(fs.push(f).map_values(|g: AField| spec_afield_text(g)) =~= fs.map_values(
                    |g: AField| spec_afield_text(g),
                ).push(spec_afield_text(f)));
            }
            Ghost(fs.push(f))
        },
        Option::None => { Ghost(fs) },
    }
}

fn prc_add_rustc_flags(
    parts: &mut Vec<String>,
    p: &crate::buck::PlatformRustCommon,
    Ghost(fs): Ghost<Seq<AField>>,
) -> (r: Ghost<Seq<AField>>)
    requires
        old(parts).deep_view() == fs.map_values(|g: AField| spec_afield_text(g)),
    ensures
        r@ == spec_astep(
            fs,
            p.rustc_flags@.len() > 0,
            AField { key: "rustc_flags"@, val: AVal::Items(spec_strs_view(p.rustc_flags@)) },
        ),
        final(parts).deep_view() == r@.map_values(|g: AField| spec_afield_text(g)),
{
    let flags = strs_vec(&p.rustc_flags);
    proof {
        assert(flags.deep_view() == spec_strs_view(p.rustc_flags@));
        assert(flags@.len() == flags.deep_view().len());
        assert(spec_strs_view(p.rustc_flags@).len() == p.rustc_flags@.len());
    }
    if flags.len() > 0 {
        let mut t = String::new();
        push_afield_items(&mut t, true, "rustc_flags", &flags);
        let ghost f = AField { key: "rustc_flags"@, val: AVal::Items(flags.deep_view()) };
        assert(t@ =~= spec_afield_text(f));
        let ghost pp = parts.deep_view();
        parts.push(t);
        proof {
            assert(parts.deep_view() =~= pp.push(spec_afield_text(f)));
            assert(fs.push(f).map_values(|g: AField| spec_afield_text(g)) =~= fs.map_values(
                |g: AField| spec_afield_text(g),
            ).push(spec_afield_text(f)));
        }
        Ghost(fs.push(f))
    } else {
        Ghost(fs)
    }
}

fn prc_add_deps(
    parts: &mut Vec<String>,
    p: &crate::buck::PlatformRustCommon,
    Ghost(fs): Ghost<Seq<AField>>,
) -> (r: Ghost<Seq<AField>>)
    requires
        old(parts).deep_view() == fs.map_values(|g: AField| spec_afield_text(g)),
    ensures
        r@ == spec_astep(
            fs,
            p.deps@.len() > 0,
            AField { key: "deps"@, val: AVal::Items(spec_refs_view(p.deps@)) },
        ),
        final(parts).deep_view() == r@.map_values(|g: AField| spec_afield_text(g)),
{
    let deps = refs_vec(p.deps.as_slice());
    proof {
        assert(deps.deep_view() == spec_refs_view(p.deps@));
        assert(deps@.len() == deps.deep_view().len());
        assert(spec_refs_view(p.deps@).len() == p.deps@.len());
    }
    if deps.len() > 0 {
        let mut t = String::new();
        push_afield_items(&mut t, true, "deps", &deps);
        let ghost f = AField { key: "deps"@, val: AVal::Items(deps.deep_view()) };
        assert(t@ =~= spec_afield_text(f));
        let ghost pp = parts.deep_view();
        parts.push(t);
        proof {
            assert(parts.deep_view() =~= pp.push(spec_afield_text(f)));
            assert(fs.push(f).map_values(|g: AField| spec_afield_text(g)) =~= fs.map_values(
                |g: AField| spec_afield_text(g),
            ).push(spec_afield_text(f)));
        }
        Ghost(fs.push(f))
    } else {
        Ghost(fs)
    }
}

/// The rendered texts of one per-platform group's attributes.
fn prc_parts(p: &crate::buck::PlatformRustCommon) -> (parts: Vec<String>)
    ensures
        parts.deep_view() == spec_prc_afields(*p).map_values(|g: AField| spec_afield_text(g)),
{
    let mut parts: Vec<String> = Vec::new();
    let ghost fs0: Seq<AField> = Seq::<AField>::empty();
    assert(parts.deep_view() =~= fs0.map_values(|g: AField| spec_afield_text(g)));
    let fs1 = prc_add_srcs(&mut parts, p, Ghost(fs0));
    let fs2 = prc_add_env(&mut parts, p, fs1);
    let fs3 = prc_add_features(&mut parts, p, fs2);
    let fs4 = prc_add_link_style(&mut parts, p, fs3);
    let fs5 = prc_add_mapped_srcs(&mut parts, p, fs4);
    let fs6 = prc_add_named_deps(&mut parts, p, fs5);
    let fs7 = prc_add_preferred_linkage(&mut parts, p, fs6);
    let fs8 = prc_add_rustc_flags(&mut parts, p, fs7);
    let fs9 = prc_add_deps(&mut parts, p, fs8);
    proof {
        assert(fs9@ == spec_prc_afields(*p));
    }
    parts
}

/// Append the joined attribute text of one per-platform group.
fn push_prc_afields(out: &mut String, p: &crate::buck::PlatformRustCommon)
    ensures
        final(out)@ == old(out)@ + spec_afields_join(spec_prc_afields(*p)),
{
    let parts = prc_parts(p);
    push_joined(out, &parts, ", ");
}

/// The per-platform groups as rendered entries.
pub open spec fn spec_platforms_view(
    s: Seq<(crate::platform::PlatformName, crate::buck::PlatformRustCommon)>,
) -> Seq<(Seq<char>, Seq<AField>)> {
    s.map_values(
        |e: (crate::platform::PlatformName, crate::buck::PlatformRustCommon)|
            (e.0.0@, spec_prc_afields(e.1)),
    )
}

/// Append `    platform = {...},` with each platform as a nested
/// `dict(...)` group.
#[verifier::rlimit(100)]
#[verifier::spinoff_prover]
fn push_field_platforms(
    out: &mut String,
    key: &str,
    plats: &crate::sorted::SortedMap<
        crate::platform::PlatformName,
        crate::buck::PlatformRustCommon,
    >,
)
    ensures
        final(out)@ == old(out)@ + spec_field_text(
            GField { key: key@, val: GVal::Platforms(spec_platforms_view(plats@)) },
        ),
{
    push_str(out, "    ");
    push_str(out, key);
    push_str(out, " = ");
    push_char(out, '{');
    let ghost atoms = spec_platforms_view(plats@).map_values(
        |e: (Seq<char>, Seq<AField>)| spec_plat_entry_text(e),
    );
    let len = plats.len();
    let mut i: usize = 0;
    assert(atoms.subrange(0, 0) =~= Seq::<Seq<char>>::empty());
    while i < len
        invariant
            i <= len,
            len == plats@.len(),
            atoms == spec_platforms_view(plats@).map_values(
                |e: (Seq<char>, Seq<AField>)| spec_plat_entry_text(e),
            ),
            atoms.len() == len,
            out@ == old(out)@ + "    "@ + key@ + " = "@ + seq!['{'] + spec_join(
                ", "@,
                atoms.subrange(0, i as int),
            ),
        decreases len - i,
    {
        if i > 0 {
            push_str(out, ", ");
        }
        let entry = plats.get(i);
        push_quoted(out, entry.0.0.as_str());
        push_str(out, ": dict(");
        push_prc_afields(out, &entry.1);
        push_str(out, ")");
        proof {
            lemma_join_push(", "@, atoms.subrange(0, i as int), atoms[i as int]);
            assert(atoms.subrange(0, i as int).push(atoms[i as int]) =~= atoms.subrange(0, i + 1));
            assert(spec_platforms_view(plats@)[i as int] == (
                plats@[i as int].0.0@,
                spec_prc_afields(plats@[i as int].1),
            ));
            assert(atoms[i as int] == spec_plat_entry_text(spec_platforms_view(plats@)[i as int]));
            assert(out@ =~= old(out)@ + "    "@ + key@ + " = "@ + seq!['{'] + spec_join(
                ", "@,
                atoms.subrange(0, i + 1),
            ));
        }
        i = i + 1;
    }
    assert(atoms.subrange(0, len as int) =~= atoms);
    push_char(out, '}');
    push_str(out, ",\n");
    assert(out@ =~= old(out)@ + spec_field_text(
        GField { key: key@, val: GVal::Platforms(spec_platforms_view(plats@)) },
    ));
}


/// Append one attribute line to the parts, tracking the attribute list.
fn add_field_str(
    parts: &mut Vec<String>,
    key: &str,
    val: &str,
    Ghost(fs): Ghost<Seq<GField>>,
) -> (r: Ghost<Seq<GField>>)
    requires
        old(parts).deep_view() == fs.map_values(|g: GField| spec_field_text(g)),
    ensures
        r@ == fs.push(GField { key: key@, val: GVal::Str(val@) }),
        final(parts).deep_view() == r@.map_values(|g: GField| spec_field_text(g)),
{
    let mut t = String::new();
    push_field_str(&mut t, key, val);
    let ghost f = GField { key: key@, val: GVal::Str(val@) };
    assert(t@ =~= spec_field_text(f));
    let ghost pp = parts.deep_view();
    parts.push(t);
    proof {
        assert(parts.deep_view() =~= pp.push(spec_field_text(f)));
        assert(fs.push(f).map_values(|g: GField| spec_field_text(g)) =~= fs.map_values(
            |g: GField| spec_field_text(g),
        ).push(spec_field_text(f)));
    }
    Ghost(fs.push(f))
}

/// Append an optional attribute line; an absent value adds nothing.
fn add_field_opt(
    parts: &mut Vec<String>,
    key: &str,
    val: &Option<String>,
    Ghost(fs): Ghost<Seq<GField>>,
) -> (r: Ghost<Seq<GField>>)
    requires
        old(parts).deep_view() == fs.map_values(|g: GField| spec_field_text(g)),
    ensures
        r@ == spec_gstep(fs, *val is Some, GField { key: key@, val: GVal::Str((val->0)@) }),
        final(parts).deep_view() == r@.map_values(|g: GField| spec_field_text(g)),
{
    match val {
        Option::Some(v) => add_field_str(parts, key, v.as_str(), Ghost(fs)),
        Option::None => Ghost(fs),
    }
}

/// Append a flag attribute line; a false flag adds nothing.
fn add_field_flag(
    parts: &mut Vec<String>,
    key: &str,
    b: bool,
    Ghost(fs): Ghost<Seq<GField>>,
) -> (r: Ghost<Seq<GField>>)
    requires
        old(parts).deep_view() == fs.map_values(|g: GField| spec_field_text(g)),
    ensures
        r@ == spec_gstep(fs, b, GField { key: key@, val: GVal::Flag(true) }),
        final(parts).deep_view() == r@.map_values(|g: GField| spec_field_text(g)),
{
    if !b {
        return Ghost(fs);
    }
    let mut t = String::new();
    push_field_flag(&mut t, key);
    let ghost f = GField { key: key@, val: GVal::Flag(true) };
    assert(t@ =~= spec_field_text(f));
    let ghost pp = parts.deep_view();
    parts.push(t);
    proof {
        assert(parts.deep_view() =~= pp.push(spec_field_text(f)));
        assert(fs.push(f).map_values(|g: GField| spec_field_text(g)) =~= fs.map_values(
            |g: GField| spec_field_text(g),
        ).push(spec_field_text(f)));
    }
    Ghost(fs.push(f))
}

/// Append a list attribute line; an empty list adds nothing.
fn add_field_items(
    parts: &mut Vec<String>,
    key: &str,
    items: &Vec<String>,
    Ghost(fs): Ghost<Seq<GField>>,
) -> (r: Ghost<Seq<GField>>)
    requires
        old(parts).deep_view() == fs.map_values(|g: GField| spec_field_text(g)),
    ensures
        r@ == spec_gstep(
            fs,
            items.deep_view().len() > 0,
            GField { key: key@, val: GVal::Items(items.deep_view()) },
        ),
        final(parts).deep_view() == r@.map_values(|g: GField| spec_field_text(g)),
{
    if items.len() == 0 {
        return Ghost(fs);
    }
    let mut t = String::new();
    push_field_items(&mut t, key, items);
    let ghost f = GField { key: key@, val: GVal::Items(items.deep_view()) };
    assert(t@ =~= spec_field_text(f));
    let ghost pp = parts.deep_view();
    parts.push(t);
    proof {
        assert(parts.deep_view() =~= pp.push(spec_field_text(f)));
        assert(fs.push(f).map_values(|g: GField| spec_field_text(g)) =~= fs.map_values(
            |g: GField| spec_field_text(g),
        ).push(spec_field_text(f)));
    }
    Ghost(fs.push(f))
}

/// Append a dictionary attribute line; an empty dictionary adds nothing.
fn add_field_entries(
    parts: &mut Vec<String>,
    key: &str,
    entries: &Vec<(String, String)>,
    Ghost(fs): Ghost<Seq<GField>>,
) -> (r: Ghost<Seq<GField>>)
    requires
        old(parts).deep_view() == fs.map_values(|g: GField| spec_field_text(g)),
    ensures
        r@ == spec_gstep(
            fs,
            entries.deep_view().len() > 0,
            GField { key: key@, val: GVal::Entries(entries.deep_view()) },
        ),
        final(parts).deep_view() == r@.map_values(|g: GField| spec_field_text(g)),
{
    if entries.len() == 0 {
        return Ghost(fs);
    }
    let mut t = String::new();
    push_field_entries(&mut t, key, entries);
    let ghost f = GField { key: key@, val: GVal::Entries(entries.deep_view()) };
    assert(t@ =~= spec_field_text(f));
    let ghost pp = parts.deep_view();
    parts.push(t);
    proof {
        assert(parts.deep_view() =~= pp.push(spec_field_text(f)));
        assert(fs.push(f).map_values(|g: GField| spec_field_text(g)) =~= fs.map_values(
            |g: GField| spec_field_text(g),
        ).push(spec_field_text(f)));
    }
    Ghost(fs.push(f))
}

/// Append the visibility attribute line.
fn add_field_vis(
    parts: &mut Vec<String>,
    key: &str,
    vis: &crate::buck::Visibility,
    Ghost(fs): Ghost<Seq<GField>>,
) -> (r: Ghost<Seq<GField>>)
    requires
        old(parts).deep_view() == fs.map_values(|g: GField| spec_field_text(g)),
    ensures
        r@ == fs.push(GField { key: key@, val: GVal::Vis(*vis) }),
        final(parts).deep_view() == r@.map_values(|g: GField| spec_field_text(g)),
{
    let mut t = String::new();
    push_field_vis(&mut t, key, vis);
    let ghost f = GField { key: key@, val: GVal::Vis(*vis) };
    assert(t@ =~= spec_field_text(f));
    let ghost pp = parts.deep_view();
    parts.push(t);
    proof {
        assert(parts.deep_view() =~= pp.push(spec_field_text(f)));
        assert(fs.push(f).map_values(|g: GField| spec_field_text(g)) =~= fs.map_values(
            |g: GField| spec_field_text(g),
        ).push(spec_field_text(f)));
    }
    Ghost(fs.push(f))
}

/// Append the per-platform groups attribute line; an empty map adds
/// nothing.
fn add_field_platforms(
    parts: &mut Vec<String>,
    key: &str,
    plats: &crate::sorted::SortedMap<
        crate::platform::PlatformName,
        crate::buck::PlatformRustCommon,
    >,
    Ghost(fs): Ghost<Seq<GField>>,
) -> (r: Ghost<Seq<GField>>)
    requires
        old(parts).deep_view() == fs.map_values(|g: GField| spec_field_text(g)),
    ensures
        r@ == spec_gstep(
            fs,
            plats@.len() > 0,
            GField { key: key@, val: GVal::Platforms(spec_platforms_view(plats@)) },
        ),
        final(parts).deep_view() == r@.map_values(|g: GField| spec_field_text(g)),
{
    if plats.len() == 0 {
        return Ghost(fs);
    }
    let mut t = String::new();
    push_field_platforms(&mut t, key, plats);
    let ghost f = GField { key: key@, val: GVal::Platforms(spec_platforms_view(plats@)) };
    assert(t@ =~= spec_field_text(f));
    let ghost pp = parts.deep_view();
    parts.push(t);
    proof {
        assert(parts.deep_view() =~= pp.push(spec_field_text(f)));
        assert(fs.push(f).map_values(|g: GField| spec_field_text(g)) =~= fs.map_values(
            |g: GField| spec_field_text(g),
        ).push(spec_field_text(f)));
    }
    Ghost(fs.push(f))
}

/// The rendered entries of a plain string map.
pub open spec fn spec_strmap_view(s: Seq<(String, String)>) -> Seq<(Seq<char>, Seq<char>)> {
    s.map_values(|e: (String, String)| (e.0@, e.1@))
}

pub fn strmap_vec(s: &Vec<(String, String)>) -> (r: Vec<(String, String)>)
    ensures
        r.deep_view() == spec_strmap_view(s@),
{
    let mut out: Vec<(String, String)> = Vec::new();
    let mut i: usize = 0;
    loop
        invariant
            i <= s.len(),
            out.deep_view() == spec_strmap_view(s@.take(i as int)),
        decreases s.len() - i,
    {
        if i == s.len() {
            assert(s@.take(s@.len() as int) =~= s@);
            return out;
        }
        let ghost pre = out.deep_view();
        out.push(
            (crate::strutil::clone_string(&s[i].0), crate::strutil::clone_string(&s[i].1)),
        );
        assert(out.deep_view() =~= pre.push((s@[i as int].0@, s@[i as int].1@)));
        assert(out.deep_view() =~= spec_strmap_view(s@.take(i + 1)));
        i = i + 1;
    }
}

/// The rendered entries of a map of sub-targets or paths.
pub open spec fn spec_sopmap_view(s: Seq<(String, crate::buck::SubtargetOrPath)>) -> Seq<
    (Seq<char>, Seq<char>),
> {
    s.map_values(|e: (String, crate::buck::SubtargetOrPath)| (e.0@, spec_sop_text(e.1)))
}

pub fn sopmap_vec(s: &Vec<(String, crate::buck::SubtargetOrPath)>) -> (r: Vec<(String, String)>)
    ensures
        r.deep_view() == spec_sopmap_view(s@),
{
    let mut out: Vec<(String, String)> = Vec::new();
    let mut i: usize = 0;
    loop
        invariant
            i <= s.len(),
            out.deep_view() == spec_sopmap_view(s@.take(i as int)),
        decreases s.len() - i,
    {
        if i == s.len() {
            assert(s@.take(s@.len() as int) =~= s@);
            return out;
        }
        let ghost pre = out.deep_view();
        out.push((crate::strutil::clone_string(&s[i].0), sop_string(&s[i].1)));
        assert(out.deep_view() =~= pre.push((s@[i as int].0@, spec_sop_text(s@[i as int].1))));
        assert(out.deep_view() =~= spec_sopmap_view(s@.take(i + 1)));
        i = i + 1;
    }
}

/// The plain-path entries of the include directories, in order.
pub open spec fn spec_incdirs(s: Seq<crate::buck::SubtargetOrPath>) -> Seq<Seq<char>>
    decreases s.len(),
{
    if s.len() == 0 {
        Seq::<Seq<char>>::empty()
    } else {
        spec_incdirs(s.drop_last()).add(
            match s.last() {
                crate::buck::SubtargetOrPath::Path(p) => seq![spec_slashes(p.0@)],
                crate::buck::SubtargetOrPath::Subtarget(_) => Seq::<Seq<char>>::empty(),
            },
        )
    }
}

pub fn incdirs_vec(s: &Vec<crate::buck::SubtargetOrPath>) -> (r: Vec<String>)
    ensures
        r.deep_view() == spec_incdirs(s@),
{
    let mut out: Vec<String> = Vec::new();
    let mut i: usize = 0;
    assert(s@.take(0) =~= Seq::<crate::buck::SubtargetOrPath>::empty());
    loop
        invariant
            i <= s.len(),
            out.deep_view() == spec_incdirs(s@.take(i as int)),
        decreases s.len() - i,
    {
        if i == s.len() {
            assert(s@.take(s@.len() as int) =~= s@);
            return out;
        }
        proof {
            assert(s@.take(i + 1).drop_last() =~= s@.take(i as int));
            assert(s@.take(i + 1).last() == s@[i as int]);
        }
        match &s[i] {
            crate::buck::SubtargetOrPath::Path(path) => {
                let ghost pre = out.deep_view();
                out.push(slashes(path.0.as_str()));
                assert(out.deep_view() =~= pre.push(spec_slashes(path.0@)));
                assert(out.deep_view() =~= spec_incdirs(s@.take(i + 1)));
            },
            crate::buck::SubtargetOrPath::Subtarget(_) => {
                assert(out.deep_view() =~= spec_incdirs(s@.take(i + 1)));
            },
        }
        i = i + 1;
    }
}

/// The `-I$(location :target)/relative` entries derived from sub-target
/// include directories, in order.
pub open spec fn spec_ppsubs(s: Seq<crate::buck::SubtargetOrPath>) -> Seq<Seq<char>>
    decreases s.len(),
{
    if s.len() == 0 {
        Seq::<Seq<char>>::empty()
    } else {
        spec_ppsubs(s.drop_last()).add(
            match s.last() {
                crate::buck::SubtargetOrPath::Subtarget(st) => seq![
                    "-I$(location :"@.add(st.target.0@).add(")/"@).add(
                        spec_slashes(st.relative.0@),
                    ),
                ],
                crate::buck::SubtargetOrPath::Path(_) => Seq::<Seq<char>>::empty(),
            },
        )
    }
}

/// The preprocessor flag list: location-macro entries for sub-target
/// include directories, then the plain flags.
pub fn ppflags_vec(inc: &Vec<crate::buck::SubtargetOrPath>, flags: &Vec<String>) -> (r: Vec<
    String,
>)
    ensures
        r.deep_view() == spec_ppsubs(inc@) + spec_strs_view(flags@),
{
    let mut out: Vec<String> = Vec::new();
    let mut i: usize = 0;
    assert(inc@.take(0) =~= Seq::<crate::buck::SubtargetOrPath>::empty());
    while i < inc.len()
        invariant
            i <= inc.len(),
            out.deep_view() == spec_ppsubs(inc@.take(i as int)),
        decreases inc.len() - i,
    {
        proof {
            assert(inc@.take(i + 1).drop_last() =~= inc@.take(i as int));
            assert(inc@.take(i + 1).last() == inc@[i as int]);
        }
        match &inc[i] {
            crate::buck::SubtargetOrPath::Subtarget(st) => {
                let mut t = String::new();
                push_str(&mut t, "-I$(location :");
                push_str(&mut t, st.target.0.as_str());
                push_str(&mut t, ")/");
                let rel = slashes(st.relative.0.as_str());
                push_str(&mut t, rel.as_str());
                assert(t@ =~= "-I$(location :"@.add(st.target.0@).add(")/"@).add(
                    spec_slashes(st.relative.0@),
                ));
                let ghost pre = out.deep_view();
                out.push(t);
                assert(out.deep_view() =~= pre.push(
                    "-I$(location :"@.add(inc@[i as int]->Subtarget_0.target.0@).add(")/"@).add(
                        spec_slashes(inc@[i as int]->Subtarget_0.relative.0@),
                    ),
                ));
                assert(out.deep_view() =~= spec_ppsubs(inc@.take(i + 1)));
            },
            crate::buck::SubtargetOrPath::Path(_) => {
                assert(out.deep_view() =~= spec_ppsubs(inc@.take(i + 1)));
            },
        }
        i = i + 1;
    }
    assert(inc@.take(inc@.len() as int) =~= inc@);
    let mut j: usize = 0;
    assert(flags@.take(0) =~= Seq::<String>::empty());
    assert(out.deep_view() =~= spec_ppsubs(inc@) + spec_strs_view(flags@.take(0)));
    loop
        invariant
            j <= flags.len(),
            out.deep_view() == spec_ppsubs(inc@) + spec_strs_view(flags@.take(j as int)),
        decreases flags.len() - j,
    {
        if j == flags.len() {
            assert(flags@.take(flags@.len() as int) =~= flags@);
            return out;
        }
        let ghost pre = out.deep_view();
        out.push(crate::strutil::clone_string(&flags[j]));
        assert(out.deep_view() =~= pre.push(flags@[j as int]@));
        assert(out.deep_view() =~= spec_ppsubs(inc@) + spec_strs_view(flags@.take(j + 1)));
        j = j + 1;
    }
}

/// The attribute lines of a remote archive fetch declaration.
pub open spec fn spec_http_fields(x: crate::buck::HttpArchive) -> Seq<GField> {
    let fs = Seq::<GField>::empty();
    let fs = fs.push(GField { key: "name"@, val: GVal::Str(x.name.0@) });
    let fs = fs.push(GField { key: "sha256"@, val: GVal::Str(x.sha256@) });
    let fs = fs.push(GField { key: "strip_prefix"@, val: GVal::Str(x.strip_prefix@) });
    let fs = spec_gstep(fs, spec_paths_view(x.sub_targets@).len() > 0, GField { key: "sub_targets"@, val: GVal::Items(spec_paths_view(x.sub_targets@)) });
    let fs = spec_gstep(fs, spec_strs_view(x.urls@).len() > 0, GField { key: "urls"@, val: GVal::Items(spec_strs_view(x.urls@)) });
    let fs = fs.push(GField { key: "visibility"@, val: GVal::Vis(x.visibility) });
    fs
}

/// Render the declaration as a call on the given rule name.
#[verifier::rlimit(100)]
#[verifier::spinoff_prover]
pub fn render_http_archive(x: &crate::buck::HttpArchive, func: &str) -> (r: String)
    ensures
        r@ == spec_call_text(func@, spec_http_fields(*x)),
{
    let mut parts: Vec<String> = Vec::new();
    let ghost fs0: Seq<GField> = Seq::<GField>::empty();
    assert(parts.deep_view() =~= fs0.map_values(|g: GField| spec_field_text(g)));
    let fs = Ghost(fs0);
    let fs = add_field_str(&mut parts, "name", x.name.0.as_str(), fs);
    let fs = add_field_str(&mut parts, "sha256", x.sha256.as_str(), fs);
    let fs = add_field_str(&mut parts, "strip_prefix", x.strip_prefix.as_str(), fs);
    let subs = paths_vec(x.sub_targets.as_slice());
    let fs = add_field_items(&mut parts, "sub_targets", &subs, fs);
    let urls = strs_vec(&x.urls);
    let fs = add_field_items(&mut parts, "urls", &urls, fs);
    let fs = add_field_vis(&mut parts, "visibility", &x.visibility, fs);
    let mut out = String::new();
    push_str(&mut out, func);
    push_str(&mut out, "(\n");
    push_all(&mut out, &parts);
    push_str(&mut out, ")\n");
    proof {
        assert(fs@ == spec_http_fields(*x));
        lemma_fields_text_concat_form(fs@);
        assert(out@ =~= spec_call_text(func@, spec_http_fields(*x)));
    }
    out
}

/// The attribute lines of a remote git fetch declaration.
pub open spec fn spec_git_fields(x: crate::buck::GitFetch) -> Seq<GField> {
    let fs = Seq::<GField>::empty();
    let fs = fs.push(GField { key: "name"@, val: GVal::Str(x.name.0@) });
    let fs = fs.push(GField { key: "repo"@, val: GVal::Str(x.repo@) });
    let fs = fs.push(GField { key: "rev"@, val: GVal::Str(x.rev@) });
    let fs = fs.push(GField { key: "visibility"@, val: GVal::Vis(x.visibility) });
    fs
}

/// Render the declaration as a call on the given rule name.
#[verifier::rlimit(100)]
#[verifier::spinoff_prover]
pub fn render_git_fetch(x: &crate::buck::GitFetch, func: &str) -> (r: String)
    ensures
        r@ == spec_call_text(func@, spec_git_fields(*x)),
{
    let mut parts: Vec<String> = Vec::new();
    let ghost fs0: Seq<GField> = Seq::<GField>::empty();
    assert(parts.deep_view() =~= fs0.map_values(|g: GField| spec_field_text(g)));
    let fs = Ghost(fs0);
    let fs = add_field_str(&mut parts, "name", x.name.0.as_str(), fs);
    let fs = add_field_str(&mut parts, "repo", x.repo.as_str(), fs);
    let fs = add_field_str(&mut parts, "rev", x.rev.as_str(), fs);
    let fs = add_field_vis(&mut parts, "visibility", &x.visibility, fs);
    let mut out = String::new();
    push_str(&mut out, func);
    push_str(&mut out, "(\n");
    push_all(&mut out, &parts);
    push_str(&mut out, ")\n");
    proof {
        assert(fs@ == spec_git_fields(*x));
        lemma_fields_text_concat_form(fs@);
        assert(out@ =~= spec_call_text(func@, spec_git_fields(*x)));
    }
    out
}

/// The attribute lines of a library declaration, in fixed order.
pub open spec fn spec_library_fields(x: crate::buck::RustLibrary) -> Seq<GField> {
    let fs = Seq::<GField>::empty();
    let fs = fs.push(GField { key: "name"@, val: GVal::Str(x.common.common.name.0@) });
    let fs = spec_gstep(fs, spec_paths_view(x.common.base.srcs@).len() > 0, GField { key: "srcs"@, val: GVal::Items(spec_paths_view(x.common.base.srcs@)) });
    let fs = spec_gstep(fs, spec_refs_view(x.common.common.compatible_with@).len() > 0, GField { key: "compatible_with"@, val: GVal::Items(spec_refs_view(x.common.common.compatible_with@)) });
    let fs = fs.push(GField { key: "crate"@, val: GVal::Str(x.common.krate@) });
    let fs = fs.push(GField { key: "crate_root"@, val: GVal::Str(spec_slashes(x.common.crate_root.0@)) });
    let fs = spec_gstep(fs, x.dlopen_enable, GField { key: "dlopen_enable"@, val: GVal::Flag(true) });
    let fs = fs.push(GField { key: "edition"@, val: GVal::Str(x.common.edition.spec_str()) });
    let fs = spec_gstep(fs, spec_env_view(x.common.base.env@).len() > 0, GField { key: "env"@, val: GVal::Entries(spec_env_view(x.common.base.env@)) });
    let fs = spec_gstep(fs, spec_strs_view(x.common.base.features@).len() > 0, GField { key: "features"@, val: GVal::Items(spec_strs_view(x.common.base.features@)) });
    let fs = spec_gstep(fs, spec_paths_view(x.common.common.licenses@).len() > 0, GField { key: "licenses"@, val: GVal::Items(spec_paths_view(x.common.common.licenses@)) });
    let fs = spec_gstep(fs, x.common.base.link_style is Some, GField { key: "link_style"@, val: GVal::Str((x.common.base.link_style->0)@) });
    let fs = spec_gstep(fs, x.linkable_alias is Some, GField { key: "linkable_alias"@, val: GVal::Str((x.linkable_alias->0)@) });
    let fs = spec_gstep(fs, spec_mapped_view(x.common.base.mapped_srcs@).len() > 0, GField { key: "mapped_srcs"@, val: GVal::Entries(spec_mapped_view(x.common.base.mapped_srcs@)) });
    let fs = spec_gstep(fs, spec_named_view(x.common.base.named_deps@).len() > 0, GField { key: "named_deps"@, val: GVal::Entries(spec_named_view(x.common.base.named_deps@)) });
    let fs = spec_gstep(fs, x.common.platform@.len() > 0, GField { key: "platform"@, val: GVal::Platforms(spec_platforms_view(x.common.platform@)) });
    let fs = spec_gstep(fs, x.common.base.preferred_linkage is Some, GField { key: "preferred_linkage"@, val: GVal::Str((x.common.base.preferred_linkage->0)@) });
    let fs = spec_gstep(fs, x.proc_macro, GField { key: "proc_macro"@, val: GVal::Flag(true) });
    let fs = spec_gstep(fs, x.python_ext is Some, GField { key: "python_ext"@, val: GVal::Str((x.python_ext->0)@) });
    let fs = spec_gstep(fs, spec_strs_view(x.common.base.rustc_flags@).len() > 0, GField { key: "rustc_flags"@, val: GVal::Items(spec_strs_view(x.common.base.rustc_flags@)) });
    let fs = fs.push(GField { key: "visibility"@, val: GVal::Vis(x.common.common.visibility) });
    let fs = spec_gstep(fs, spec_refs_view(x.common.base.deps@).len() > 0, GField { key: "deps"@, val: GVal::Items(spec_refs_view(x.common.base.deps@)) });
    fs
}

/// Render the declaration as a call on the given rule name.
#[verifier::rlimit(100)]
#[verifier::spinoff_prover]
pub fn render_rust_library(x: &crate::buck::RustLibrary, func: &str) -> (r: String)
    ensures
        r@ == spec_call_text(func@, spec_library_fields(*x)),
{
    let mut parts: Vec<String> = Vec::new();
    let ghost fs0: Seq<GField> = Seq::<GField>::empty();
    assert(parts.deep_view() =~= fs0.map_values(|g: GField| spec_field_text(g)));
    let fs = Ghost(fs0);
    let fs = add_field_str(&mut parts, "name", x.common.common.name.0.as_str(), fs);
    let srcs = paths_vec(x.common.base.srcs.as_slice());
    let fs = add_field_items(&mut parts, "srcs", &srcs, fs);
    let compat = refs_vec(&x.common.common.compatible_with);
    let fs = add_field_items(&mut parts, "compatible_with", &compat, fs);
    let fs = add_field_str(&mut parts, "crate", x.common.krate.as_str(), fs);
    let root = slashes(x.common.crate_root.0.as_str());
    let fs = add_field_str(&mut parts, "crate_root", root.as_str(), fs);
    let fs = add_field_flag(&mut parts, "dlopen_enable", x.dlopen_enable, fs);
    let ed = x.common.edition.as_str();
    let fs = add_field_str(&mut parts, "edition", ed, fs);
    let env = env_vec(x.common.base.env.as_slice());
    let fs = add_field_entries(&mut parts, "env", &env, fs);
    let features = strs_vec(x.common.base.features.as_slice());
    let fs = add_field_items(&mut parts, "features", &features, fs);
    let lic = paths_vec(x.common.common.licenses.as_slice());
    let fs = add_field_items(&mut parts, "licenses", &lic, fs);
    let fs = add_field_opt(&mut parts, "link_style", &x.common.base.link_style, fs);
    let fs = add_field_opt(&mut parts, "linkable_alias", &x.linkable_alias, fs);
    let mapped = mapped_vec(x.common.base.mapped_srcs.as_slice());
    let fs = add_field_entries(&mut parts, "mapped_srcs", &mapped, fs);
    let named = named_vec(x.common.base.named_deps.as_slice());
    let fs = add_field_entries(&mut parts, "named_deps", &named, fs);
    let fs = add_field_platforms(&mut parts, "platform", &x.common.platform, fs);
    let fs = add_field_opt(&mut parts, "preferred_linkage", &x.common.base.preferred_linkage, fs);
    let fs = add_field_flag(&mut parts, "proc_macro", x.proc_macro, fs);
    let fs = add_field_opt(&mut parts, "python_ext", &x.python_ext, fs);
    let flags = strs_vec(&x.common.base.rustc_flags);
    let fs = add_field_items(&mut parts, "rustc_flags", &flags, fs);
    let fs = add_field_vis(&mut parts, "visibility", &x.common.common.visibility, fs);
    let deps = refs_vec(x.common.base.deps.as_slice());
    let fs = add_field_items(&mut parts, "deps", &deps, fs);
    let mut out = String::new();
    push_str(&mut out, func);
    push_str(&mut out, "(\n");
    push_all(&mut out, &parts);
    push_str(&mut out, ")\n");
    proof {
        assert(fs@ == spec_library_fields(*x));
        lemma_fields_text_concat_form(fs@);
        assert(out@ =~= spec_call_text(func@, spec_library_fields(*x)));
    }
    out
}

/// The attribute lines of a binary declaration, in fixed order.
pub open spec fn spec_binary_fields(x: crate::buck::RustBinary) -> Seq<GField> {
    let fs = Seq::<GField>::empty();
    let fs = fs.push(GField { key: "name"@, val: GVal::Str(x.common.common.name.0@) });
    let fs = spec_gstep(fs, spec_paths_view(x.common.base.srcs@).len() > 0, GField { key: "srcs"@, val: GVal::Items(spec_paths_view(x.common.base.srcs@)) });
    let fs = spec_gstep(fs, spec_refs_view(x.common.common.compatible_with@).len() > 0, GField { key: "compatible_with"@, val: GVal::Items(spec_refs_view(x.common.common.compatible_with@)) });
    let fs = fs.push(GField { key: "crate"@, val: GVal::Str(x.common.krate@) });
    let fs = fs.push(GField { key: "crate_root"@, val: GVal::Str(spec_slashes(x.common.crate_root.0@)) });
    let fs = fs.push(GField { key: "edition"@, val: GVal::Str(x.common.edition.spec_str()) });
    let fs = spec_gstep(fs, spec_env_view(x.common.base.env@).len() > 0, GField { key: "env"@, val: GVal::Entries(spec_env_view(x.common.base.env@)) });
    let fs = spec_gstep(fs, spec_strs_view(x.common.base.features@).len() > 0, GField { key: "features"@, val: GVal::Items(spec_strs_view(x.common.base.features@)) });
    let fs = spec_gstep(fs, spec_paths_view(x.common.common.licenses@).len() > 0, GField { key: "licenses"@, val: GVal::Items(spec_paths_view(x.common.common.licenses@)) });
    let fs = spec_gstep(fs, x.common.base.link_style is Some, GField { key: "link_style"@, val: GVal::Str((x.common.base.link_style->0)@) });
    let fs = spec_gstep(fs, spec_mapped_view(x.common.base.mapped_srcs@).len() > 0, GField { key: "mapped_srcs"@, val: GVal::Entries(spec_mapped_view(x.common.base.mapped_srcs@)) });
    let fs = spec_gstep(fs, spec_named_view(x.common.base.named_deps@).len() > 0, GField { key: "named_deps"@, val: GVal::Entries(spec_named_view(x.common.base.named_deps@)) });
    let fs = spec_gstep(fs, x.common.platform@.len() > 0, GField { key: "platform"@, val: GVal::Platforms(spec_platforms_view(x.common.platform@)) });
    let fs = spec_gstep(fs, x.common.base.preferred_linkage is Some, GField { key: "preferred_linkage"@, val: GVal::Str((x.common.base.preferred_linkage->0)@) });
    let fs = spec_gstep(fs, spec_strs_view(x.common.base.rustc_flags@).len() > 0, GField { key: "rustc_flags"@, val: GVal::Items(spec_strs_view(x.common.base.rustc_flags@)) });
    let fs = fs.push(GField { key: "visibility"@, val: GVal::Vis(x.common.common.visibility) });
    let fs = spec_gstep(fs, spec_refs_view(x.common.base.deps@).len() > 0, GField { key: "deps"@, val: GVal::Items(spec_refs_view(x.common.base.deps@)) });
    fs
}

/// Render the declaration as a call on the given rule name.
#[verifier::rlimit(100)]
#[verifier::spinoff_prover]
pub fn render_rust_binary(x: &crate::buck::RustBinary, func: &str) -> (r: String)
    ensures
        r@ == spec_call_text(func@, spec_binary_fields(*x)),
{
    let mut parts: Vec<String> = Vec::new();
    let ghost fs0: Seq<GField> = Seq::<GField>::empty();
    assert(parts.deep_view() =~= fs0.map_values(|g: GField| spec_field_text(g)));
    let fs = Ghost(fs0);
    let fs = add_field_str(&mut parts, "name", x.common.common.name.0.as_str(), fs);
    let srcs = paths_vec(x.common.base.srcs.as_slice());
    let fs = add_field_items(&mut parts, "srcs", &srcs, fs);
    let compat = refs_vec(&x.common.common.compatible_with);
    let fs = add_field_items(&mut parts, "compatible_with", &compat, fs);
    let fs = add_field_str(&mut parts, "crate", x.common.krate.as_str(), fs);
    let root = slashes(x.common.crate_root.0.as_str());
    let fs = add_field_str(&mut parts, "crate_root", root.as_str(), fs);
    let ed = x.common.edition.as_str();
    let fs = add_field_str(&mut parts, "edition", ed, fs);
    let env = env_vec(x.common.base.env.as_slice());
    let fs = add_field_entries(&mut parts, "env", &env, fs);
    let features = strs_vec(x.common.base.features.as_slice());
    let fs = add_field_items(&mut parts, "features", &features, fs);
    let lic = paths_vec(x.common.common.licenses.as_slice());
    let fs = add_field_items(&mut parts, "licenses", &lic, fs);
    let fs = add_field_opt(&mut parts, "link_style", &x.common.base.link_style, fs);
    let mapped = mapped_vec(x.common.base.mapped_srcs.as_slice());
    let fs = add_field_entries(&mut parts, "mapped_srcs", &mapped, fs);
    let named = named_vec(x.common.base.named_deps.as_slice());
    let fs = add_field_entries(&mut parts, "named_deps", &named, fs);
    let fs = add_field_platforms(&mut parts, "platform", &x.common.platform, fs);
    let fs = add_field_opt(&mut parts, "preferred_linkage", &x.common.base.preferred_linkage, fs);
    let flags = strs_vec(&x.common.base.rustc_flags);
    let fs = add_field_items(&mut parts, "rustc_flags", &flags, fs);
    let fs = add_field_vis(&mut parts, "visibility", &x.common.common.visibility, fs);
    let deps = refs_vec(x.common.base.deps.as_slice());
    let fs = add_field_items(&mut parts, "deps", &deps, fs);
    let mut out = String::new();
    push_str(&mut out, func);
    push_str(&mut out, "(\n");
    push_all(&mut out, &parts);
    push_str(&mut out, ")\n");
    proof {
        assert(fs@ == spec_binary_fields(*x));
        lemma_fields_text_concat_form(fs@);
        assert(out@ =~= spec_call_text(func@, spec_binary_fields(*x)));
    }
    out
}

/// The attribute lines of a build-script invocation declaration.
pub open spec fn spec_genrule_fields(x: crate::buck::BuildscriptGenrule) -> Seq<GField> {
    let fs = Seq::<GField>::empty();
    let fs = fs.push(GField { key: "name"@, val: GVal::Str(x.name.0@) });
    let fs = fs.push(GField { key: "package_name"@, val: GVal::Str(x.package_name@) });
    let fs = spec_gstep(fs, spec_strmap_view(x.args_env@).len() > 0, GField { key: "args_env"@, val: GVal::Entries(spec_strmap_view(x.args_env@)) });
    let fs = fs.push(GField { key: "buildscript_rule"@, val: GVal::Str(seq![':'].add(x.buildscript_rule.0@)) });
    let fs = spec_gstep(fs, spec_strs_view(x.cfgs@).len() > 0, GField { key: "cfgs"@, val: GVal::Items(spec_strs_view(x.cfgs@)) });
    let fs = spec_gstep(fs, spec_strmap_view(x.env@).len() > 0, GField { key: "env"@, val: GVal::Entries(spec_strmap_view(x.env@)) });
    let fs = spec_gstep(fs, spec_strs_view(x.features@).len() > 0, GField { key: "features"@, val: GVal::Items(spec_strs_view(x.features@)) });
    let fs = spec_gstep(fs, spec_strmap_view(x.path_env@).len() > 0, GField { key: "path_env"@, val: GVal::Entries(spec_strmap_view(x.path_env@)) });
    let fs = fs.push(GField { key: "version"@, val: GVal::Str(x.version@) });
    fs
}

/// Render the declaration as a call on the given rule name.
#[verifier::rlimit(100)]
#[verifier::spinoff_prover]
pub fn render_buildscript_genrule(x: &crate::buck::BuildscriptGenrule, func: &str) -> (r: String)
    ensures
        r@ == spec_call_text(func@, spec_genrule_fields(*x)),
{
    let mut parts: Vec<String> = Vec::new();
    let ghost fs0: Seq<GField> = Seq::<GField>::empty();
    assert(parts.deep_view() =~= fs0.map_values(|g: GField| spec_field_text(g)));
    let fs = Ghost(fs0);
    let fs = add_field_str(&mut parts, "name", x.name.0.as_str(), fs);
    let fs = add_field_str(&mut parts, "package_name", x.package_name.as_str(), fs);
    let argsenv = strmap_vec(x.args_env.as_slice());
    let fs = add_field_entries(&mut parts, "args_env", &argsenv, fs);
    let bsr = colon_str(x.buildscript_rule.0.as_str());
    let fs = add_field_str(&mut parts, "buildscript_rule", bsr.as_str(), fs);
    let cfgs = strs_vec(&x.cfgs);
    let fs = add_field_items(&mut parts, "cfgs", &cfgs, fs);
    let env = strmap_vec(x.env.as_slice());
    let fs = add_field_entries(&mut parts, "env", &env, fs);
    let features = strs_vec(x.features.as_slice());
    let fs = add_field_items(&mut parts, "features", &features, fs);
    let pathenv = strmap_vec(x.path_env.as_slice());
    let fs = add_field_entries(&mut parts, "path_env", &pathenv, fs);
    let fs = add_field_str(&mut parts, "version", x.version.as_str(), fs);
    let mut out = String::new();
    push_str(&mut out, func);
    push_str(&mut out, "(\n");
    push_all(&mut out, &parts);
    push_str(&mut out, ")\n");
    proof {
        assert(fs@ == spec_genrule_fields(*x));
        lemma_fields_text_concat_form(fs@);
        assert(out@ =~= spec_call_text(func@, spec_genrule_fields(*x)));
    }
    out
}

/// Whether the exported headers carry anything.
pub open spec fn spec_exported_nonempty(e: crate::buck::SetOrMap<crate::buck::SubtargetOrPath>)
    -> bool {
    match e {
        crate::buck::SetOrMap::Plain(set) => set@.len() > 0,
        crate::buck::SetOrMap::Named(m) => m@.len() > 0,
    }
}

/// The rendered value of the exported headers: a list for a set, a
/// dictionary for a named map.
pub open spec fn spec_exported_val(e: crate::buck::SetOrMap<crate::buck::SubtargetOrPath>)
    -> GVal {
    match e {
        crate::buck::SetOrMap::Plain(set) => GVal::Items(spec_sops_view(set@)),
        crate::buck::SetOrMap::Named(m) => GVal::Entries(spec_sopmap_view(m@)),
    }
}

/// The attribute lines of a native library declaration.
pub open spec fn spec_cxx_fields(x: crate::buck::CxxLibrary) -> Seq<GField> {
    let fs = Seq::<GField>::empty();
    let fs = fs.push(GField { key: "name"@, val: GVal::Str(x.common.name.0@) });
    let fs = spec_gstep(fs, spec_sops_view(x.srcs@).len() > 0, GField { key: "srcs"@, val: GVal::Items(spec_sops_view(x.srcs@)) });
    let fs = spec_gstep(fs, spec_sops_view(x.headers@).len() > 0, GField { key: "headers"@, val: GVal::Items(spec_sops_view(x.headers@)) });
    let fs = spec_gstep(fs, x.header_namespace is Some, GField { key: "header_namespace"@, val: GVal::Str((x.header_namespace->0)@) });
    let fs = spec_gstep(fs, spec_exported_nonempty(x.exported_headers), GField { key: "exported_headers"@, val: spec_exported_val(x.exported_headers) });
    let fs = spec_gstep(fs, spec_refs_view(x.common.compatible_with@).len() > 0, GField { key: "compatible_with"@, val: GVal::Items(spec_refs_view(x.common.compatible_with@)) });
    let fs = spec_gstep(fs, spec_strs_view(x.compiler_flags@).len() > 0, GField { key: "compiler_flags"@, val: GVal::Items(spec_strs_view(x.compiler_flags@)) });
    let fs = spec_gstep(fs, spec_incdirs(x.include_directories@).len() > 0, GField { key: "include_directories"@, val: GVal::Items(spec_incdirs(x.include_directories@)) });
    let fs = spec_gstep(fs, spec_paths_view(x.common.licenses@).len() > 0, GField { key: "licenses"@, val: GVal::Items(spec_paths_view(x.common.licenses@)) });
    let fs = spec_gstep(fs, x.preferred_linkage is Some, GField { key: "preferred_linkage"@, val: GVal::Str((x.preferred_linkage->0)@) });
    let fs = spec_gstep(fs, spec_ppsubs(x.include_directories@).add(spec_strs_view(x.preprocessor_flags@)).len() > 0, GField { key: "preprocessor_flags"@, val: GVal::Items(spec_ppsubs(x.include_directories@).add(spec_strs_view(x.preprocessor_flags@))) });
    let fs = fs.push(GField { key: "visibility"@, val: GVal::Vis(x.common.visibility) });
    let fs = spec_gstep(fs, spec_refs_view(x.deps@).len() > 0, GField { key: "deps"@, val: GVal::Items(spec_refs_view(x.deps@)) });
    fs
}

/// Render the declaration as a call on the given rule name.
#[verifier::rlimit(100)]
#[verifier::spinoff_prover]
pub fn render_cxx_library(x: &crate::buck::CxxLibrary, func: &str) -> (r: String)
    ensures
        r@ == spec_call_text(func@, spec_cxx_fields(*x)),
{
    let mut parts: Vec<String> = Vec::new();
    let ghost fs0: Seq<GField> = Seq::<GField>::empty();
    assert(parts.deep_view() =~= fs0.map_values(|g: GField| spec_field_text(g)));
    let fs = Ghost(fs0);
    let fs = add_field_str(&mut parts, "name", x.common.name.0.as_str(), fs);
    let srcs = sops_vec(x.srcs.as_slice());
    let fs = add_field_items(&mut parts, "srcs", &srcs, fs);
    let headers = sops_vec(x.headers.as_slice());
    let fs = add_field_items(&mut parts, "headers", &headers, fs);
    let fs = add_field_opt(&mut parts, "header_namespace", &x.header_namespace, fs);
    let fs = match &x.exported_headers {
        crate::buck::SetOrMap::Plain(set) => {
            let v = sops_vec(set.as_slice());
            let fsx = add_field_items(&mut parts, "exported_headers", &v, fs);
            proof {
                assert(fsx@ == spec_gstep(
                    fs@,
                    spec_exported_nonempty(x.exported_headers),
                    GField {
                        key: "exported_headers"@,
                        val: spec_exported_val(x.exported_headers),
                    },
                ));
            }
            fsx
        },
        crate::buck::SetOrMap::Named(m) => {
            let v = sopmap_vec(m.as_slice());
            let fsx = add_field_entries(&mut parts, "exported_headers", &v, fs);
            proof {
                assert(fsx@ == spec_gstep(
                    fs@,
                    spec_exported_nonempty(x.exported_headers),
                    GField {
                        key: "exported_headers"@,
                        val: spec_exported_val(x.exported_headers),
                    },
                ));
            }
            fsx
        },
    };
    let compat = refs_vec(&x.common.compatible_with);
    let fs = add_field_items(&mut parts, "compatible_with", &compat, fs);
    let cflags = strs_vec(&x.compiler_flags);
    let fs = add_field_items(&mut parts, "compiler_flags", &cflags, fs);
    let incs = incdirs_vec(&x.include_directories);
    let fs = add_field_items(&mut parts, "include_directories", &incs, fs);
    let lic = paths_vec(x.common.licenses.as_slice());
    let fs = add_field_items(&mut parts, "licenses", &lic, fs);
    let fs = add_field_opt(&mut parts, "preferred_linkage", &x.preferred_linkage, fs);
    let ppf = ppflags_vec(&x.include_directories, &x.preprocessor_flags);
    let fs = add_field_items(&mut parts, "preprocessor_flags", &ppf, fs);
    let fs = add_field_vis(&mut parts, "visibility", &x.common.visibility, fs);
    let deps = refs_vec(x.deps.as_slice());
    let fs = add_field_items(&mut parts, "deps", &deps, fs);
    let mut out = String::new();
    push_str(&mut out, func);
    push_str(&mut out, "(\n");
    push_all(&mut out, &parts);
    push_str(&mut out, ")\n");
    proof {
        assert(fs@ == spec_cxx_fields(*x));
        lemma_fields_text_concat_form(fs@);
        assert(out@ =~= spec_call_text(func@, spec_cxx_fields(*x)));
    }
    out
}

/// The attribute lines of a prebuilt native library declaration.
pub open spec fn spec_prebuilt_fields(x: crate::buck::PrebuiltCxxLibrary) -> Seq<GField> {
    let fs = Seq::<GField>::empty();
    let fs = fs.push(GField { key: "name"@, val: GVal::Str(x.common.name.0@) });
    let fs = spec_gstep(fs, spec_refs_view(x.common.compatible_with@).len() > 0, GField { key: "compatible_with"@, val: GVal::Items(spec_refs_view(x.common.compatible_with@)) });
    let fs = spec_gstep(fs, spec_paths_view(x.common.licenses@).len() > 0, GField { key: "licenses"@, val: GVal::Items(spec_paths_view(x.common.licenses@)) });
    let fs = fs.push(GField { key: "static_lib"@, val: GVal::Str(spec_sop_text(x.static_lib)) });
    let fs = fs.push(GField { key: "visibility"@, val: GVal::Vis(x.common.visibility) });
    fs
}

/// Render the declaration as a call on the given rule name.
#[verifier::rlimit(100)]
#[verifier::spinoff_prover]
pub fn render_prebuilt_cxx_library(x: &crate::buck::PrebuiltCxxLibrary, func: &str) -> (r: String)
    ensures
        r@ == spec_call_text(func@, spec_prebuilt_fields(*x)),
{
    let mut parts: Vec<String> = Vec::new();
    let ghost fs0: Seq<GField> = Seq::<GField>::empty();
    assert(parts.deep_view() =~= fs0.map_values(|g: GField| spec_field_text(g)));
    let fs = Ghost(fs0);
    let fs = add_field_str(&mut parts, "name", x.common.name.0.as_str(), fs);
    let compat = refs_vec(&x.common.compatible_with);
    let fs = add_field_items(&mut parts, "compatible_with", &compat, fs);
    let lic = paths_vec(x.common.licenses.as_slice());
    let fs = add_field_items(&mut parts, "licenses", &lic, fs);
    let sl = sop_string(&x.static_lib);
    let fs = add_field_str(&mut parts, "static_lib", sl.as_str(), fs);
    let fs = add_field_vis(&mut parts, "visibility", &x.common.visibility, fs);
    let mut out = String::new();
    push_str(&mut out, func);
    push_str(&mut out, "(\n");
    push_all(&mut out, &parts);
    push_str(&mut out, ")\n");
    proof {
        assert(fs@ == spec_prebuilt_fields(*x));
        lemma_fields_text_concat_form(fs@);
        assert(out@ =~= spec_call_text(func@, spec_prebuilt_fields(*x)));
    }
    out
}

} // verus!
