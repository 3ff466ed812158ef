//! The ordering contract for labels and paths.
//!
//! Rendered declarations must come out in a stable order, and sortable
//! string attributes (file paths, labels) follow the convention of the
//! buildifier tool: references starting with `:` sort before `//`-qualified
//! references, which sort before anything else; within the same class the
//! strings are split on `:` and `.` and the segment lists are compared
//! lexicographically.

use vstd::prelude::*;

verus! {

/// Lexicographic comparison of two character sequences, by code point.
pub open spec fn spec_chars_cmp(a: Seq<char>, b: Seq<char>) -> core::cmp::Ordering
    decreases a.len(),
{
    if a.len() == 0 && b.len() == 0 {
        core::cmp::Ordering::Equal
    } else if a.len() == 0 {
        core::cmp::Ordering::Less
    } else if b.len() == 0 {
        core::cmp::Ordering::Greater
    } else if (a[0] as u32) < (b[0] as u32) {
        core::cmp::Ordering::Less
    } else if (a[0] as u32) > (b[0] as u32) {
        core::cmp::Ordering::Greater
    } else {
        spec_chars_cmp(a.drop_first(), b.drop_first())
    }
}

/// Two characters with the same code point are the same character.
pub proof fn lemma_char_inj(c: char, d: char)
    requires
        c as u32 == d as u32,
    ensures
        c == d,
{
}

pub proof fn lemma_chars_cmp_refl(a: Seq<char>)
    ensures
        spec_chars_cmp(a, a) == core::cmp::Ordering::Equal,
    decreases a.len(),
{
    if a.len() > 0 {
        lemma_chars_cmp_refl(a.drop_first());
    }
}

/// `Equal` means the sequences are the same characters.
pub proof fn lemma_chars_cmp_eq(a: Seq<char>, b: Seq<char>)
    ensures
        spec_chars_cmp(a, b) == core::cmp::Ordering::Equal <==> a == b,
    decreases a.len(),
{
    if a == b {
        lemma_chars_cmp_refl(a);
    }
    if a.len() > 0 && b.len() > 0 {
        lemma_chars_cmp_eq(a.drop_first(), b.drop_first());
        if spec_chars_cmp(a, b) == core::cmp::Ordering::Equal {
            assert((a[0] as u32) == (b[0] as u32));
            lemma_char_inj(a[0], b[0]);
            assert(a.len() == b.len());
            assert forall|i: int| 0 <= i < a.len() implies a[i] == b[i] by {
                if i >= 1 {
                    assert(a.drop_first()[i - 1] == a[i]);
                    assert(b.drop_first()[i - 1] == b[i]);
                }
            }
            assert(a =~= b);
        }
    } else if a.len() != b.len() {
        assert(a != b);
    } else {
        assert(a =~= b);
    }
}

pub proof fn lemma_chars_cmp_antisym(a: Seq<char>, b: Seq<char>)
    ensures
        spec_chars_cmp(a, b) == core::cmp::Ordering::Less <==> spec_chars_cmp(b, a)
            == core::cmp::Ordering::Greater,
    decreases a.len(),
{
    if a.len() > 0 && b.len() > 0 {
        lemma_chars_cmp_antisym(a.drop_first(), b.drop_first());
    }
}

/// Transitivity, in the strong form needed to keep a sorted list sorted:
/// a strictly-below relation composed with below-or-equal stays strict.
pub proof fn lemma_chars_cmp_trans(a: Seq<char>, b: Seq<char>, c: Seq<char>)
    requires
        spec_chars_cmp(a, b) != core::cmp::Ordering::Greater,
        spec_chars_cmp(b, c) != core::cmp::Ordering::Greater,
    ensures
        spec_chars_cmp(a, c) != core::cmp::Ordering::Greater,
        spec_chars_cmp(a, b) == core::cmp::Ordering::Less || spec_chars_cmp(b, c)
            == core::cmp::Ordering::Less ==> spec_chars_cmp(a, c) == core::cmp::Ordering::Less,
    decreases a.len() + b.len() + c.len(),
{
    if a.len() == 0 {
        if c.len() == 0 && b.len() > 0 {
            assert(spec_chars_cmp(b, c) == core::cmp::Ordering::Greater);
        }
    } else if b.len() == 0 {
        assert(spec_chars_cmp(a, b) == core::cmp::Ordering::Greater);
    } else if c.len() == 0 {
        assert(spec_chars_cmp(b, c) == core::cmp::Ordering::Greater);
    } else {
        if (a[0] as u32) > (b[0] as u32) {
            assert(spec_chars_cmp(a, b) == core::cmp::Ordering::Greater);
        } else if (b[0] as u32) > (c[0] as u32) {
            assert(spec_chars_cmp(b, c) == core::cmp::Ordering::Greater);
        } else if (a[0] as u32) < (b[0] as u32) || (b[0] as u32) < (c[0] as u32) {
            assert((a[0] as u32) < (c[0] as u32));
            assert(spec_chars_cmp(a, c) == core::cmp::Ordering::Less);
        } else {
            assert((a[0] as u32) == (b[0] as u32) && (b[0] as u32) == (c[0] as u32));
            lemma_char_inj(a[0], b[0]);
            lemma_char_inj(b[0], c[0]);
            lemma_chars_cmp_trans(a.drop_first(), b.drop_first(), c.drop_first());
        }
    }
}

/// Compare two strings by their character sequences.
pub fn str_cmp(a: &str, b: &str) -> (o: core::cmp::Ordering)
    ensures
        o == spec_chars_cmp(a@, b@),
{
    let a_len = a.unicode_len();
    let b_len = b.unicode_len();
    let mut i: usize = 0;
    assert(a@.subrange(0, a_len as int) =~= a@);
    assert(b@.subrange(0, b_len as int) =~= b@);
    loop
        invariant
            i <= a_len,
            i <= b_len,
            a_len == a@.len(),
            b_len == b@.len(),
            spec_chars_cmp(a@, b@) == spec_chars_cmp(
                a@.subrange(i as int, a_len as int),
                b@.subrange(i as int, b_len as int),
            ),
        decreases a_len - i,
    {
        if i == a_len && i == b_len {
            return core::cmp::Ordering::Equal;
        } else if i == a_len {
            assert(b@.subrange(i as int, b_len as int).len() > 0);
            return core::cmp::Ordering::Less;
        } else if i == b_len {
            return core::cmp::Ordering::Greater;
        }
        let ca = a.get_char(i);
        let cb = b.get_char(i);
        assert(a@.subrange(i as int, a_len as int)[0] == a@[i as int]);
        assert(b@.subrange(i as int, b_len as int)[0] == b@[i as int]);
        if (ca as u32) < (cb as u32) {
            return core::cmp::Ordering::Less;
        } else if (ca as u32) > (cb as u32) {
            return core::cmp::Ordering::Greater;
        }
        assert(a@.subrange(i as int, a_len as int).drop_first() =~= a@.subrange(
            i + 1,
            a_len as int,
        ));
        assert(b@.subrange(i as int, b_len as int).drop_first() =~= b@.subrange(
            i + 1,
            b_len as int,
        ));
        i = i + 1;
    }
}

/// The characters on which labels and paths are split before comparing.
pub open spec fn spec_is_sep(c: char) -> bool {
    c == ':' || c == '.'
}

/// Split a character sequence on the separator characters. The result
/// always has at least one segment; separators at the ends or doubled
/// give empty segments, as `str::split` does.
pub open spec fn spec_split(s: Seq<char>) -> Seq<Seq<char>>
    decreases s.len(),
{
    if s.len() == 0 {
        seq![Seq::<char>::empty()]
    } else if spec_is_sep(s[0]) {
        seq![Seq::<char>::empty()].add(spec_split(s.drop_first()))
    } else {
        let rest = spec_split(s.drop_first());
        seq![seq![s[0]].add(rest[0])].add(rest.drop_first())
    }
}

pub proof fn lemma_split_len(s: Seq<char>)
    ensures
        spec_split(s).len() >= 1,
    decreases s.len(),
{
    if s.len() > 0 {
        lemma_split_len(s.drop_first());
    }
}

/// Extending the input by one character either starts a fresh segment or
/// extends the last one.
pub proof fn lemma_split_push(s: Seq<char>, c: char)
    ensures
        spec_is_sep(c) ==> spec_split(s.push(c)) == spec_split(s).push(Seq::<char>::empty()),
        !spec_is_sep(c) ==> spec_split(s.push(c)) == spec_split(s).update(
            spec_split(s).len() - 1,
            spec_split(s).last().push(c),
        ),
    decreases s.len(),
{
    reveal_with_fuel(spec_split, 4);
    lemma_split_len(s);
    if s.len() == 0 {
        if spec_is_sep(c) {
            assert(s.push(c)[0] == c);
            assert(s.push(c).drop_first() =~= Seq::<char>::empty());
            assert(spec_split(s.push(c)) =~~= spec_split(s).push(Seq::<char>::empty()));
        } else {
            assert(s.push(c)[0] == c);
            assert(s.push(c).drop_first() =~= Seq::<char>::empty());
            assert(spec_split(s.push(c)) =~~= spec_split(s).update(
                spec_split(s).len() - 1,
                spec_split(s).last().push(c),
            ));
        }
    } else {
        lemma_split_push(s.drop_first(), c);
        lemma_split_len(s.drop_first());
        assert(s.push(c)[0] == s[0]);
        assert(s.push(c).drop_first() =~= s.drop_first().push(c));
        if spec_is_sep(c) {
            if spec_is_sep(s[0]) {
                assert(spec_split(s.push(c)) =~~= spec_split(s).push(Seq::<char>::empty()));
            } else {
                assert(spec_split(s.drop_first().push(c))[0] == spec_split(s.drop_first())[0]);
                assert(spec_split(s.push(c)) =~~= spec_split(s).push(Seq::<char>::empty()));
            }
        } else {
            if spec_is_sep(s[0]) {
                assert(spec_split(s.push(c)) =~~= spec_split(s).update(
                    spec_split(s).len() - 1,
                    spec_split(s).last().push(c),
                ));
            } else {
                if spec_split(s.drop_first()).len() == 1 {
                    assert(spec_split(s.push(c)) =~~= spec_split(s).update(
                        spec_split(s).len() - 1,
                        spec_split(s).last().push(c),
                    ));
                } else {
                    assert(spec_split(s.push(c)) =~~= spec_split(s).update(
                        spec_split(s).len() - 1,
                        spec_split(s).last().push(c),
                    ));
                }
            }
        }
    }
}

/// Split a string on the separator characters.
pub fn split_segments(s: &str) -> (r: Vec<String>)
    ensures
        r.deep_view() == spec_split(s@),
{
    let len = s.unicode_len();
    let mut segs: Vec<String> = Vec::new();
    let mut cur: String = String::new();
    let mut i: usize = 0;
    assert(s@.subrange(0, 0) =~= Seq::<char>::empty());
    assert(segs.deep_view().push(cur@) =~= spec_split(s@.subrange(0, 0)));
    while i < len
        invariant
            i <= len,
            len == s@.len(),
            segs.deep_view().push(cur@) == spec_split(s@.subrange(0, i as int)),
        decreases len - i,
    {
        let ghost pre_segs = segs.deep_view();
        let ghost pre_cur = cur@;
        let c = s.get_char(i);
        proof {
            lemma_split_len(s@.subrange(0, i as int));
            lemma_split_push(s@.subrange(0, i as int), c);
            assert(s@.subrange(0, i as int).push(c) =~= s@.subrange(0, i + 1));
        }
        if c == ':' || c == '.' {
            segs.push(cur);
            cur = String::new();
            assert(segs.deep_view() =~= pre_segs.push(pre_cur));
            assert(segs.deep_view().push(cur@) =~= spec_split(s@.subrange(0, i + 1)));
        } else {
            crate::strutil::push_char(&mut cur, c);
            assert(segs.deep_view().push(cur@) =~= spec_split(s@.subrange(0, i + 1)));
        }
        i = i + 1;
    }
    assert(s@.subrange(0, len as int) =~= s@);
    let ghost pre_segs = segs.deep_view();
    let ghost pre_cur = cur@;
    segs.push(cur);
    assert(segs.deep_view() =~= pre_segs.push(pre_cur));
    segs
}

/// Lexicographic comparison of segment lists, segments compared by
/// character sequence.
pub open spec fn spec_segs_cmp(a: Seq<Seq<char>>, b: Seq<Seq<char>>) -> core::cmp::Ordering
    decreases a.len(),
{
    if a.len() == 0 && b.len() == 0 {
        core::cmp::Ordering::Equal
    } else if a.len() == 0 {
        core::cmp::Ordering::Less
    } else if b.len() == 0 {
        core::cmp::Ordering::Greater
    } else if spec_chars_cmp(a[0], b[0]) != core::cmp::Ordering::Equal {
        spec_chars_cmp(a[0], b[0])
    } else {
        spec_segs_cmp(a.drop_first(), b.drop_first())
    }
}

pub proof fn lemma_segs_cmp_refl(a: Seq<Seq<char>>)
    ensures
        spec_segs_cmp(a, a) == core::cmp::Ordering::Equal,
    decreases a.len(),
{
    if a.len() > 0 {
        lemma_chars_cmp_refl(a[0]);
        lemma_segs_cmp_refl(a.drop_first());
    }
}

pub proof fn lemma_segs_cmp_eq(a: Seq<Seq<char>>, b: Seq<Seq<char>>)
    ensures
        spec_segs_cmp(a, b) == core::cmp::Ordering::Equal <==> a == b,
    decreases a.len(),
{
    if a == b {
        lemma_segs_cmp_refl(a);
    }
    if a.len() > 0 && b.len() > 0 {
        lemma_chars_cmp_eq(a[0], b[0]);
        lemma_segs_cmp_eq(a.drop_first(), b.drop_first());
        if spec_segs_cmp(a, b) == core::cmp::Ordering::Equal {
            assert(a[0] == b[0]);
            assert(a.len() == b.len());
            assert forall|i: int| 0 <= i < a.len() implies a[i] == b[i] by {
                if i >= 1 {
                    assert(a.drop_first()[i - 1] == a[i]);
                    assert(b.drop_first()[i - 1] == b[i]);
                }
            }
            assert(a =~= b);
        }
    } else if a.len() != b.len() {
        assert(a != b);
    } else {
        assert(a =~= b);
    }
}

pub proof fn lemma_segs_cmp_antisym(a: Seq<Seq<char>>, b: Seq<Seq<char>>)
    ensures
        spec_segs_cmp(a, b) == core::cmp::Ordering::Less <==> spec_segs_cmp(b, a)
            == core::cmp::Ordering::Greater,
    decreases a.len(),
{
    if a.len() > 0 && b.len() > 0 {
        lemma_chars_cmp_antisym(a[0], b[0]);
        lemma_chars_cmp_eq(a[0], b[0]);
        lemma_chars_cmp_eq(b[0], a[0]);
        lemma_segs_cmp_antisym(a.drop_first(), b.drop_first());
    }
}

pub proof fn lemma_segs_cmp_trans(a: Seq<Seq<char>>, b: Seq<Seq<char>>, c: Seq<Seq<char>>)
    requires
        spec_segs_cmp(a, b) != core::cmp::Ordering::Greater,
        spec_segs_cmp(b, c) != core::cmp::Ordering::Greater,
    ensures
        spec_segs_cmp(a, c) != core::cmp::Ordering::Greater,
        spec_segs_cmp(a, b) == core::cmp::Ordering::Less || spec_segs_cmp(b, c)
            == core::cmp::Ordering::Less ==> spec_segs_cmp(a, c) == core::cmp::Ordering::Less,
    decreases a.len() + b.len() + c.len(),
{
    lemma_segs_cmp_eq(a, b);
    lemma_segs_cmp_eq(b, c);
    lemma_segs_cmp_eq(a, c);
    if a.len() > 0 && b.len() > 0 && c.len() > 0 {
        lemma_chars_cmp_eq(a[0], b[0]);
        lemma_chars_cmp_eq(b[0], c[0]);
        lemma_chars_cmp_eq(a[0], c[0]);
        lemma_chars_cmp_trans(a[0], b[0], c[0]);
        lemma_chars_cmp_antisym(a[0], b[0]);
        lemma_chars_cmp_antisym(b[0], c[0]);
        lemma_chars_cmp_antisym(a[0], c[0]);
        if a[0] == b[0] && b[0] == c[0] {
            lemma_segs_cmp_trans(a.drop_first(), b.drop_first(), c.drop_first());
        }
    }
}

/// The class of a reference: local `:` references first, then
/// `//`-qualified ones, then everything else.
pub open spec fn spec_phase(s: Seq<char>) -> int {
    if s.len() >= 1 && s[0] == ':' {
        0
    } else if s.len() >= 2 && s[0] == '/' && s[1] == '/' {
        1
    } else {
        2
    }
}

/// The preferred sort order for sortable string attributes, whether
/// file paths or labels: first by reference class, then by the split
/// segment lists. Distinct strings can compare equal here (their
/// separators may differ); sets keyed by this order keep one of them.
pub open spec fn spec_buildifier_cmp(a: Seq<char>, b: Seq<char>) -> core::cmp::Ordering {
    if spec_phase(a) < spec_phase(b) {
        core::cmp::Ordering::Less
    } else if spec_phase(a) > spec_phase(b) {
        core::cmp::Ordering::Greater
    } else {
        spec_segs_cmp(spec_split(a), spec_split(b))
    }
}

pub proof fn lemma_buildifier_cmp_refl(a: Seq<char>)
    ensures
        spec_buildifier_cmp(a, a) == core::cmp::Ordering::Equal,
{
    lemma_segs_cmp_refl(spec_split(a));
}

pub proof fn lemma_buildifier_cmp_antisym(a: Seq<char>, b: Seq<char>)
    ensures
        spec_buildifier_cmp(a, b) == core::cmp::Ordering::Less <==> spec_buildifier_cmp(b, a)
            == core::cmp::Ordering::Greater,
{
    lemma_segs_cmp_antisym(spec_split(a), spec_split(b));
}

pub proof fn lemma_buildifier_cmp_eq_sym(a: Seq<char>, b: Seq<char>)
    ensures
        spec_buildifier_cmp(a, b) == core::cmp::Ordering::Equal <==> spec_buildifier_cmp(b, a)
            == core::cmp::Ordering::Equal,
{
    lemma_segs_cmp_eq(spec_split(a), spec_split(b));
    lemma_segs_cmp_eq(spec_split(b), spec_split(a));
}

pub proof fn lemma_buildifier_cmp_trans(a: Seq<char>, b: Seq<char>, c: Seq<char>)
    requires
        spec_buildifier_cmp(a, b) != core::cmp::Ordering::Greater,
        spec_buildifier_cmp(b, c) != core::cmp::Ordering::Greater,
    ensures
        spec_buildifier_cmp(a, c) != core::cmp::Ordering::Greater,
        spec_buildifier_cmp(a, b) == core::cmp::Ordering::Less || spec_buildifier_cmp(b, c)
            == core::cmp::Ordering::Less ==> spec_buildifier_cmp(a, c)
            == core::cmp::Ordering::Less,
{
    if spec_phase(a) == spec_phase(b) && spec_phase(b) == spec_phase(c) {
        lemma_segs_cmp_trans(spec_split(a), spec_split(b), spec_split(c));
    }
}

/// The reference class of a string, executable form.
fn phase_of(s: &str) -> (p: u8)
    ensures
        p as int == spec_phase(s@),
{
    let len = s.unicode_len();
    if len >= 1 && s.get_char(0) == ':' {
        0
    } else if len >= 2 && s.get_char(0) == '/' && s.get_char(1) == '/' {
        1
    } else {
        2
    }
}

/// Compare two segment lists.
fn segs_cmp(a: &Vec<String>, b: &Vec<String>) -> (o: core::cmp::Ordering)
    ensures
        o == spec_segs_cmp(a.deep_view(), b.deep_view()),
{
    let mut i: usize = 0;
    assert(a.deep_view().skip(0) =~= a.deep_view());
    assert(b.deep_view().skip(0) =~= b.deep_view());
    loop
        invariant
            i <= a.len(),
            i <= b.len(),
            a.deep_view().len() == a.len(),
            b.deep_view().len() == b.len(),
            spec_segs_cmp(a.deep_view(), b.deep_view()) == spec_segs_cmp(
                a.deep_view().skip(i as int),
                b.deep_view().skip(i as int),
            ),
        decreases a.len() - i,
    {
        if i == a.len() && i == b.len() {
            return core::cmp::Ordering::Equal;
        } else if i == a.len() {
            assert(b.deep_view().skip(i as int).len() > 0);
            return core::cmp::Ordering::Less;
        } else if i == b.len() {
            return core::cmp::Ordering::Greater;
        }
        assert(a.deep_view().skip(i as int)[0] == a.deep_view()[i as int]);
        assert(b.deep_view().skip(i as int)[0] == b.deep_view()[i as int]);
        let o = str_cmp(a[i].as_str(), b[i].as_str());
        if !matches!(o, core::cmp::Ordering::Equal) {
            return o;
        }
        assert(a.deep_view().skip(i as int).drop_first() =~= a.deep_view().skip(i + 1));
        assert(b.deep_view().skip(i as int).drop_first() =~= b.deep_view().skip(i + 1));
        i = i + 1;
    }
}

/// The preferred sort order for sortable string arrays, regardless of
/// whether they are arrays of filepaths or labels.
pub fn buildifier_cmp(a: &str, b: &str) -> (o: core::cmp::Ordering)
    ensures
        o == spec_buildifier_cmp(a@, b@),
{
    let pa = phase_of(a);
    let pb = phase_of(b);
    if pa < pb {
        core::cmp::Ordering::Less
    } else if pa > pb {
        core::cmp::Ordering::Greater
    } else {
        let sa = split_segments(a);
        let sb = split_segments(b);
        segs_cmp(&sa, &sb)
    }
}

} // verus!
