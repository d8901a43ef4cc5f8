use vstd::prelude::*;
use vstd::string::StrSliceExecFns;

verus! {

/// Whether the standard library counts the character as whitespace.
/// Left uninterpreted; code learns it only through `char_is_whitespace`.
pub uninterp spec fn is_whitespace_char(c: char) -> bool;

/// Relies on char::is_whitespace: whether the character has the Unicode
/// White_Space property, a function of the character alone. The property
/// holds for no visible ASCII character, so `.` and the digits are never
/// whitespace.
#[verifier::external_body]
fn char_is_whitespace(c: char) -> (r: bool)
    ensures
        r == is_whitespace_char(c),
        '!' <= c && c <= '~' ==> !r,
{
    c.is_whitespace()
}

/// The characters with leading whitespace dropped.
pub open spec fn spec_trim_front(s: Seq<char>) -> Seq<char>
    decreases s.len(),
{
    if s.len() > 0 && is_whitespace_char(s[0]) {
        spec_trim_front(s.drop_first())
    } else {
        s
    }
}

/// The characters with trailing whitespace dropped.
pub open spec fn spec_trim_back(s: Seq<char>) -> Seq<char>
    decreases s.len(),
{
    if s.len() > 0 && is_whitespace_char(s.last()) {
        spec_trim_back(s.drop_last())
    } else {
        s
    }
}

/// The characters with surrounding whitespace dropped, as str::trim
/// would leave them.
pub open spec fn spec_trimmed(s: Seq<char>) -> Seq<char> {
    spec_trim_back(spec_trim_front(s))
}

/// Dropping leading whitespace keeps the suffix that starts at the first
/// non-whitespace character.
proof fn lemma_trim_front_is_suffix(s: Seq<char>, k: int)
    requires
        0 <= k <= s.len(),
        forall|j: int| 0 <= j < k ==> is_whitespace_char(s[j]),
        k == s.len() || !is_whitespace_char(s[k]),
    ensures
        spec_trim_front(s) == s.subrange(k, s.len() as int),
    decreases k,
{
    if k == 0 {
        assert(s.subrange(0, s.len() as int) =~= s);
    } else {
        let t = s.drop_first();
        assert(forall|j: int| 0 <= j < k - 1 ==> is_whitespace_char(t[j]));
        lemma_trim_front_is_suffix(t, k - 1);
        assert(t.subrange(k - 1, t.len() as int) =~= s.subrange(k, s.len() as int));
    }
}

/// Dropping trailing whitespace keeps the prefix that ends after the last
/// non-whitespace character.
proof fn lemma_trim_back_is_prefix(s: Seq<char>, k: int)
    requires
        0 <= k <= s.len(),
        forall|j: int| k <= j < s.len() ==> is_whitespace_char(s[j]),
        k == 0 || !is_whitespace_char(s[k - 1]),
    ensures
        spec_trim_back(s) == s.subrange(0, k),
    decreases s.len(),
{
    if k == s.len() {
        assert(s.subrange(0, k) =~= s);
    } else {
        let t = s.drop_last();
        assert(forall|j: int| k <= j < t.len() ==> is_whitespace_char(t[j]));
        lemma_trim_back_is_prefix(t, k);
        assert(t.subrange(0, k) =~= s.subrange(0, k));
    }
}

/// Whether the character at index i of s is whitespace.
fn is_ws_at(s: &str, i: usize) -> (r: bool)
    requires
        i < s@.len(),
    ensures
        r == is_whitespace_char(s@[i as int]),
{
    char_is_whitespace(s.get_char(i))
}

/// The bounds of the trimmed text inside s: the trimmed characters are
/// exactly `s@.subrange(r.0, r.1)`.
pub(crate) fn trimmed_bounds(s: &str) -> (r: (usize, usize))
    ensures
        r.0 <= r.1 <= s@.len(),
        spec_trimmed(s@) == s@.subrange(r.0 as int, r.1 as int),
{
    let len: usize = s.unicode_len();
    let mut a: usize = 0;
    while a < len && is_ws_at(s, a)
        invariant
            a <= len,
            len == s@.len(),
            forall|j: int| 0 <= j < a ==> is_whitespace_char(s@[j]),
        decreases len - a,
    {
        a += 1;
    }
    let mut b: usize = len;
    while b > a && is_ws_at(s, b - 1)
        invariant
            a <= b <= len,
            len == s@.len(),
            forall|j: int| 0 <= j < a ==> is_whitespace_char(s@[j]),
            a == len || !is_whitespace_char(s@[a as int]),
            forall|j: int| b <= j < len ==> is_whitespace_char(s@[j]),
        decreases b,
    {
        b -= 1;
    }
    proof {
        lemma_trim_front_is_suffix(s@, a as int);
        let t = s@.subrange(a as int, s@.len() as int);
        assert(forall|j: int| b - a <= j < t.len() ==> is_whitespace_char(t[j]));
        lemma_trim_back_is_prefix(t, b - a);
        assert(t.subrange(0, b - a) =~= s@.subrange(a as int, b as int));
    }
    (a, b)
}

} // verus!
