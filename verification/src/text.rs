use vstd::prelude::*;
use vstd::string::*;

verus! {

/// Character-wise equality of two strings.
pub fn text_eq(a: &str, b: &str) -> (r: bool)
    ensures
        r == (a@ == b@),
{
    let n = a.unicode_len();
    let m = b.unicode_len();
    if n != m {
        return false;
    }
    let mut i: usize = 0;
    while i < n
        invariant
            n == a@.len(),
            m == b@.len(),
            n == m,
            i <= n,
            forall|j: int| 0 <= j < i ==> a@[j] == b@[j],
        decreases n - i,
    {
        if a.get_char(i) != b.get_char(i) {
            return false;
        }
        i = i + 1;
    }
    assert(a@ =~= b@);
    true
}

/// Whether `s` is written with the raw-identifier prefix `r#`.
pub open spec fn has_raw_prefix(s: Seq<char>) -> bool {
    s.len() >= 2 && s[0] == 'r' && s[1] == '#'
}

/// The text an identifier contributes when it is formatted into a new
/// identifier: its name without the raw prefix `r#`.
pub open spec fn unraw_text(s: Seq<char>) -> Seq<char> {
    if has_raw_prefix(s) {
        s.skip(2)
    } else {
        s
    }
}

/// `s` without a leading `r#`.
pub fn unraw(s: &str) -> (r: String)
    ensures
        r@ == unraw_text(s@),
{
    let n = s.unicode_len();
    if n >= 2 && s.get_char(0) == 'r' && s.get_char(1) == '#' {
        let rest = s.substring_char(2, n);
        assert(rest@ =~= s@.skip(2));
        String::from_str(rest)
    } else {
        String::from_str(s)
    }
}

} // verus!
