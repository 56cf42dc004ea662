//! The installment field: a title may end in a marker of the form
//! `<digits>/<digits>` (say `3/10`, meaning payment 3 of 10). The
//! extracted marker is the longest such suffix of the title; a title
//! whose end does not have that form yields nothing.

use vstd::prelude::*;

use crate::text::is_digit;
use crate::text::is_digit_char;

verus! {

/// Whether the whole of `s` has the form one-or-more digits, `/`,
/// one-or-more digits.
pub open spec fn is_marker(s: Seq<char>) -> bool {
    exists|k: int|
        1 <= k < s.len() - 1 && s[k] == '/' && (forall|a: int| 0 <= a < k ==> is_digit(s[a])) && (
        forall|a: int| k < a < s.len() ==> is_digit(s[a]))
}

/// The first position of `t`, at or after `i`, whose suffix is a
/// marker; `t.len()` when no suffix from `i` on is one.
pub open spec fn marker_start_from(t: Seq<char>, i: int) -> int
    decreases t.len() - i,
{
    if i < 0 || i >= t.len() {
        t.len() as int
    } else if is_marker(t.skip(i)) {
        i
    } else {
        marker_start_from(t, i + 1)
    }
}

/// The installment marker of a title: its longest suffix of the form
/// digits-`/`-digits, or the empty text when no suffix has that form.
pub open spec fn installment_of(t: Seq<char>) -> Seq<char> {
    t.skip(marker_start_from(t, 0))
}

/// Decides whether the suffix of `s` starting at `i` is a marker.
#[verifier::loop_isolation(false)]
fn check_marker_at(s: &str, i: usize, n: usize) -> (r: bool)
    requires
        i <= n,
        n == s@.len(),
    ensures
        r == is_marker(s@.skip(i as int)),
{
    let ghost suf = s@.skip(i as int);
    let mut a = i;
    while a < n && is_digit_char(s.get_char(a))
        invariant
            i <= a <= n,
            forall|j: int| i <= j < a ==> is_digit(s@[j]),
        decreases n - a,
    {
        a = a + 1;
    }
    // Any marker's slash sits exactly at the first non-digit after `i`.
    proof {
        assert(is_marker(suf) ==> i < a && a + 1 < n && s@[a as int] == '/' && (forall|j: int|
            a < j < n ==> is_digit(s@[j]))) by {
            if is_marker(suf) {
                let k = choose|k: int|
                    1 <= k < suf.len() - 1 && suf[k] == '/' && (forall|c: int|
                        0 <= c < k ==> is_digit(suf[c])) && (forall|c: int|
                        k < c < suf.len() ==> is_digit(suf[c]));
                assert forall|j: int| i <= j < i + k implies is_digit(s@[j]) by {
                    assert(is_digit(suf[j - i]));
                }
                assert(s@[i + k] == '/');
                assert(!is_digit('/'));
                if a < i + k {
                    assert(is_digit(s@[a as int]));
                }
                if a > i + k {
                    assert(is_digit(s@[i + k]));
                }
                assert(a == i + k);
                assert forall|j: int| a < j < n implies is_digit(s@[j]) by {
                    assert(is_digit(suf[j - i]));
                }
            }
        }
    }
    if a == i || a >= n {
        return false;
    }
    if s.get_char(a) != '/' {
        return false;
    }
    let mut b = a + 1;
    while b < n && is_digit_char(s.get_char(b))
        invariant
            a + 1 <= b <= n,
            forall|j: int| a < j < b ==> is_digit(s@[j]),
        decreases n - b,
    {
        b = b + 1;
    }
    if b == n && b > a + 1 {
        proof {
            let k = a - i;
            assert(suf[k] == '/');
            assert forall|c: int| 0 <= c < k implies is_digit(suf[c]) by {
                assert(is_digit(s@[i + c]));
            }
            assert forall|c: int| k < c < suf.len() implies is_digit(suf[c]) by {
                assert(is_digit(s@[i + c]));
            }
        }
        true
    } else {
        proof {
            if is_marker(suf) {
                if b < n {
                    assert(is_digit(s@[b as int]));
                }
                assert(false);
            }
        }
        false
    }
}

/// The position in `s` where its installment marker starts, or the
/// length of `s` when it has none.
#[verifier::loop_isolation(false)]
pub fn find_marker(s: &str) -> (r: usize)
    ensures
        r == marker_start_from(s@, 0),
        r <= s@.len(),
{
    let n = s.unicode_len();
    let mut i: usize = 0;
    while i < n
        invariant
            i <= n,
            marker_start_from(s@, 0) == marker_start_from(s@, i as int),
        decreases n - i,
    {
        if check_marker_at(s, i, n) {
            return i;
        }
        i = i + 1;
    }
    n
}

} // verus!
