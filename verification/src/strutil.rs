use vstd::prelude::*;

verus! {

/// Character-by-character equality of two string slices.
pub fn str_eq(a: &str, b: &str) -> (r: bool)
    ensures
        r == (a@ == b@),
{
    let n = a.unicode_len();
    if n != b.unicode_len() {
        return false;
    }
    let mut i: usize = 0;
    while i < n
        invariant
            n == a@.len(),
            n == b@.len(),
            i <= n,
            forall|k: int| 0 <= k < i ==> a@[k] == b@[k],
        decreases n - i,
    {
        if a.get_char(i) != b.get_char(i) {
            return false;
        }
        i = i + 1;
    }
    proof {
        assert(a@ =~= b@);
    }
    true
}

/// Relies on std's `String::push`: appends exactly one character at the end.
#[verifier::external_body]
pub fn push_char(s: &mut String, c: char)
    ensures
        final(s)@ == old(s)@.push(c),
{
    s.push(c);
}

/// Builds the two-character token `-c`, the synthetic spelling of one
/// short flag taken out of a bundled group.
pub fn dash_token(c: char) -> (r: String)
    ensures
        r@ == seq!['-', c],
{
    let mut s = String::new();
    push_char(&mut s, '-');
    push_char(&mut s, c);
    proof {
        assert(s@ =~= seq!['-', c]);
    }
    s
}

/// Whether the string begins with a single dash.
pub fn starts_with_dash(s: &str) -> (r: bool)
    ensures
        r == (s@.len() >= 1 && s@[0] == '-'),
{
    if s.unicode_len() >= 1 {
        s.get_char(0) == '-'
    } else {
        false
    }
}

/// Whether the string begins with two dashes.
pub fn starts_with_two_dashes(s: &str) -> (r: bool)
    ensures
        r == (s@.len() >= 2 && s@[0] == '-' && s@[1] == '-'),
{
    if s.unicode_len() >= 2 {
        s.get_char(0) == '-' && s.get_char(1) == '-'
    } else {
        false
    }
}

} // verus!
