//! The date field: a purely lexical transform that splits the input on
//! `-`, reverses the components, and joins them with `/`. No calendar
//! meaning is read into the components.

use vstd::prelude::*;

use crate::text::first_at;
use crate::text::lemma_first_at_from_scan;
use crate::text::push_char;

verus! {

/// The components of `s` between occurrences of `sep`: one more
/// component than there are separators, in order, separators dropped.
pub open spec fn spec_split(s: Seq<char>, sep: char) -> Seq<Seq<char>>
    decreases s.len(),
{
    let d = first_at(s, sep);
    if d >= s.len() {
        seq![s]
    } else {
        seq![s.take(d as int)] + spec_split(s.skip(d as int + 1), sep)
    }
}

/// The components of `parts` joined by one `sep` between neighbours.
pub open spec fn spec_join(parts: Seq<Seq<char>>, sep: char) -> Seq<char>
    decreases parts.len(),
{
    if parts.len() == 0 {
        Seq::empty()
    } else if parts.len() == 1 {
        parts[0]
    } else {
        spec_join(parts.drop_last(), sep) + seq![sep] + parts.last()
    }
}

/// The output form of a date text: its `-`-separated components in
/// reverse order, joined with `/`.
pub open spec fn date_out(d: Seq<char>) -> Seq<char> {
    spec_join(spec_split(d, '-').reverse(), '/')
}

/// Splits `s` at every occurrence of `sep`.
#[verifier::loop_isolation(false)]
pub fn split_text(s: &str, sep: char) -> (parts: Vec<String>)
    ensures
        parts@.map_values(|p: String| p@) == spec_split(s@, sep),
{
    let n = s.unicode_len();
    let mut parts: Vec<String> = Vec::new();
    let mut start: usize = 0;
    let mut i: usize = 0;
    proof {
        assert(s@.skip(0) =~= s@);
        assert(parts@.map_values(|p: String| p@) + spec_split(s@, sep) =~= spec_split(s@, sep));
    }
    while i < n
        invariant
            start <= i <= n,
            forall|j: int| start <= j < i ==> s@[j] != sep,
            spec_split(s@, sep) == parts@.map_values(|p: String| p@) + spec_split(
                s@.skip(start as int),
                sep,
            ),
        decreases n - i,
    {
        if s.get_char(i) == sep {
            let ghost old_views = parts@.map_values(|p: String| p@);
            let piece = s.substring_char(start, i);
            parts.push(String::from_str(piece));
            proof {
                lemma_first_at_from_scan(s@.skip(start as int), sep, i - start);
                assert(s@.skip(start as int).take(i - start) =~= piece@);
                assert(s@.skip(start as int).skip(i - start + 1) =~= s@.skip(i + 1));
                assert(parts@.map_values(|p: String| p@) =~= old_views.push(piece@));
                assert(old_views + (seq![piece@] + spec_split(s@.skip(i + 1), sep))
                    =~= parts@.map_values(|p: String| p@) + spec_split(s@.skip(i + 1), sep));
            }
            start = i + 1;
        }
        i = i + 1;
    }
    let ghost old_views = parts@.map_values(|p: String| p@);
    let piece = s.substring_char(start, n);
    parts.push(String::from_str(piece));
    proof {
        lemma_first_at_from_scan(s@.skip(start as int), sep, n - start);
        assert(s@.skip(start as int) =~= piece@);
        assert(parts@.map_values(|p: String| p@) =~= old_views.push(piece@));
        assert(old_views + seq![piece@] =~= parts@.map_values(|p: String| p@));
    }
    parts
}

/// Joins the given parts in reverse order with `sep` between
/// neighbours.
#[verifier::loop_isolation(false)]
pub fn join_reversed(parts: &Vec<String>, sep: char) -> (r: String)
    ensures
        r@ == spec_join(parts@.map_values(|p: String| p@).reverse(), sep),
{
    let ghost rev = parts@.map_values(|p: String| p@).reverse();
    let m = parts.len();
    let mut out = String::new();
    let mut k: usize = 0;
    while k < m
        invariant
            k <= m,
            out@ == spec_join(rev.take(k as int), sep),
        decreases m - k,
    {
        if k > 0 {
            push_char(&mut out, sep);
        }
        let piece: &String = &parts[m - 1 - k];
        out.append(piece.as_str());
        proof {
            assert(rev[k as int] == piece@);
            assert(rev.take(k as int + 1).drop_last() =~= rev.take(k as int));
            if k > 0 {
                assert(out@ =~= spec_join(rev.take(k as int), sep) + seq![sep] + rev[k as int]);
            }
        }
        k = k + 1;
    }
    proof {
        assert(rev.take(m as int) =~= rev);
    }
    out
}

/// Rewrites a date text by reversing its `-`-separated components and
/// joining them with `/`.
pub fn format_date_text(date: &str) -> (r: String)
    ensures
        r@ == date_out(date@),
{
    let parts = split_text(date, '-');
    join_reversed(&parts, '/')
}

} // verus!
