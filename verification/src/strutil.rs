//! Small executable helpers for building strings.

use vstd::prelude::*;

verus! {

/// Relies on `String::push` from std: appends exactly the one character.
#[verifier::external_body]
pub fn push_char(s: &mut String, c: char)
    ensures
        final(s)@ == old(s)@.push(c),
{
    s.push(c);
}

/// Append one string to another.
pub fn push_str(s: &mut String, t: &str)
    ensures
        final(s)@ == old(s)@ + t@,
{
    s.append(t);
}

/// Whether two strings hold the same characters.
pub fn str_eq(a: &str, b: &str) -> (r: bool)
    ensures
        r == (a@ == b@),
{
    let o = crate::order::str_cmp(a, b);
    proof {
        crate::order::lemma_chars_cmp_eq(a@, b@);
    }
    matches!(o, core::cmp::Ordering::Equal)
}

/// Copy a string: the copy is the same value.
pub fn clone_string(s: &String) -> (r: String)
    ensures
        r == *s,
        r@ == s@,
{
    s.clone()
}

/// Copy a string slice into an owned string.
pub fn clone_string_ref(s: &str) -> (r: String)
    ensures
        r@ == s@,
{
    String::from_str(s)
}

/// Exact duplication: a copy that is, provably, the same value.
pub trait Dup: Sized {
    fn dup(&self) -> (r: Self)
        ensures
            r == *self,
    ;
}

impl Dup for String {
    fn dup(&self) -> (r: Self)
        ensures
            r == *self,
    {
        self.clone()
    }
}

impl Dup for bool {
    fn dup(&self) -> (r: Self)
        ensures
            r == *self,
    {
        *self
    }
}

impl<T: Dup> Dup for Option<T> {
    fn dup(&self) -> (r: Self)
        ensures
            r == *self,
    {
        match self {
            Option::None => Option::None,
            Option::Some(x) => Option::Some(x.dup()),
        }
    }
}

impl<A: Dup, B: Dup> Dup for (A, B) {
    fn dup(&self) -> (r: Self)
        ensures
            r == *self,
    {
        (self.0.dup(), self.1.dup())
    }
}

/// Duplicate a vector element by element.
pub fn dup_vec<T: Dup>(v: &Vec<T>) -> (r: Vec<T>)
    ensures
        r@ == v@,
{
    let mut out: Vec<T> = Vec::new();
    let mut i: usize = 0;
    loop
        invariant
            i <= v.len(),
            out@ == v@.take(i as int),
        decreases v.len() - i,
    {
        if i == v.len() {
            assert(v@.take(v@.len() as int) =~= v@);
            return out;
        }
        out.push(v[i].dup());
        assert(out@ =~= v@.take(i + 1));
        i = i + 1;
    }
}

} // verus!
