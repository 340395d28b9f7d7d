//! Slash-separated path handling: a path is resolved segment by segment,
//! and empty segments — from leading, trailing, or repeated separators —
//! are skipped, so `///a//b/` names the same object as `a/b`.

use vstd::prelude::*;

verus! {

/// The index of the first `/`, or the length when there is none.
pub open spec fn first_sep(p: Seq<char>) -> int
    decreases p.len(),
{
    if p.len() == 0 {
        0
    } else if p[0] == '/' {
        0
    } else {
        1 + first_sep(p.skip(1))
    }
}

proof fn lemma_first_sep_bounds(p: Seq<char>)
    ensures
        0 <= first_sep(p) <= p.len(),
        first_sep(p) < p.len() ==> p[first_sep(p)] == '/',
        forall|i: int| 0 <= i < first_sep(p) ==> p[i] != '/',
    decreases p.len(),
{
    if p.len() > 0 && p[0] != '/' {
        lemma_first_sep_bounds(p.skip(1));
        assert(first_sep(p) == 1 + first_sep(p.skip(1)));
        if first_sep(p) < p.len() {
            assert(p[first_sep(p)] == p.skip(1)[first_sep(p.skip(1))]);
        }
        assert forall|i: int| 0 <= i < first_sep(p) implies p[i] != '/' by {
            if i > 0 {
                assert(p[i] == p.skip(1)[i - 1]);
            }
        }
    }
}

/// The non-empty segments of a slash-separated path, in order.
pub open spec fn spec_segments(p: Seq<char>) -> Seq<Seq<char>>
    decreases p.len() via spec_segments_decreases
{
    if p.len() == 0 {
        Seq::empty()
    } else if p[0] == '/' {
        spec_segments(p.skip(1))
    } else {
        seq![p.take(first_sep(p))] + spec_segments(p.skip(first_sep(p)))
    }
}

#[via_fn]
proof fn spec_segments_decreases(p: Seq<char>) {
    if p.len() > 0 && p[0] != '/' {
        lemma_first_sep_bounds(p);
        assert(first_sep(p) >= 1);
    }
}

/// Splits a path into its non-empty segments.
#[verifier::loop_isolation(false)]
pub fn path_segments(path: &str) -> (r: Vec<String>)
    ensures
        r@.map_values(|s: String| s@) == spec_segments(path@),
{
    let n = path.unicode_len();
    let mut segments: Vec<String> = Vec::new();
    let mut i: usize = 0;
    proof {
        assert(path@.skip(0) =~= path@);
    }
    while i < n
        invariant
            i <= n,
            n == path@.len(),
            spec_segments(path@) == segments@.map_values(|s: String| s@) + spec_segments(
                path@.skip(i as int),
            ),
        decreases n - i,
    {
        let c = path.get_char(i);
        if c == '/' {
            proof {
                assert(path@.skip(i as int)[0] == '/');
                assert(path@.skip(i as int).skip(1) =~= path@.skip(i as int + 1));
            }
            i = i + 1;
        } else {
            let ghost tail = path@.skip(i as int);
            let start = i;
            let mut j = i;
            while j < n && path.get_char(j) != '/'
                invariant
                    start <= j <= n,
                    forall|k: int| start <= k < j ==> path@[k] != '/',
                decreases n - j,
            {
                j = j + 1;
            }
            proof {
                lemma_first_sep_bounds(tail);
                assert forall|k: int| 0 <= k < j - start implies tail[k] != '/' by {
                    assert(tail[k] == path@[i + k]);
                }
                if j < n {
                    assert(tail[j - start] == '/');
                }
                assert(first_sep(tail) == j - start) by {
                    if first_sep(tail) < j - start {
                        assert(tail[first_sep(tail)] == '/');
                    }
                    if first_sep(tail) > j - start {
                        assert(j - start < tail.len());
                    }
                }
            }
            let seg = path.substring_char(start, j);
            let ghost old_segments = segments@;
            segments.push(String::from_str(seg));
            proof {
                assert(seg@ =~= tail.take(first_sep(tail)));
                assert(segments@.map_values(|s: String| s@) =~= old_segments.map_values(
                    |s: String| s@,
                ) + seq![tail.take(first_sep(tail))]);
                assert(tail.skip(first_sep(tail)) =~= path@.skip(j as int));
                assert(spec_segments(path@) =~= segments@.map_values(|s: String| s@)
                    + spec_segments(path@.skip(j as int)));
            }
            i = j;
        }
    }
    proof {
        assert(path@.skip(n as int) =~= Seq::<char>::empty());
        assert(spec_segments(path@) =~= segments@.map_values(|s: String| s@));
    }
    segments
}

/// A leading separator does not change a path's segments.
pub proof fn lemma_segments_leading_sep(p: Seq<char>)
    ensures
        spec_segments(seq!['/'] + p) == spec_segments(p),
{
    reveal_with_fuel(spec_segments, 4);
    assert((seq!['/'] + p)[0] == '/');
    assert((seq!['/'] + p).skip(1) =~= p);
}

proof fn lemma_first_sep_concat(p: Seq<char>, q: Seq<char>)
    ensures
        first_sep(p + q) == (if first_sep(p) < p.len() {
            first_sep(p)
        } else {
            p.len() + first_sep(q)
        }),
    decreases p.len(),
{
    if p.len() == 0 {
        assert(p + q =~= q);
    } else if (p + q)[0] == '/' {
    } else {
        lemma_first_sep_concat(p.skip(1), q);
        assert((p + q).skip(1) =~= p.skip(1) + q);
    }
}

/// A trailing separator does not change a path's segments.
pub proof fn lemma_segments_trailing_sep(p: Seq<char>)
    ensures
        spec_segments(p + seq!['/']) == spec_segments(p),
    decreases p.len(),
{
    reveal_with_fuel(spec_segments, 4);
    reveal_with_fuel(first_sep, 4);
    let s = seq!['/'];
    if p.len() == 0 {
        assert(p + s =~= s);
        assert(s[0] == '/');
        assert(s.skip(1) =~= Seq::<char>::empty());
    } else if p[0] == '/' {
        assert((p + s)[0] == '/');
        lemma_segments_trailing_sep(p.skip(1));
        assert((p + s).skip(1) =~= p.skip(1) + s);
    } else {
        assert((p + s)[0] != '/');
        lemma_first_sep_bounds(p);
        lemma_first_sep_concat(p, s);
        let k = first_sep(p);
        if k < p.len() {
            assert(first_sep(p + s) == k);
            assert((p + s).take(k) =~= p.take(k));
            lemma_segments_trailing_sep(p.skip(k));
            assert((p + s).skip(k) =~= p.skip(k) + s);
        } else {
            assert(first_sep(s) == 0);
            assert(first_sep(p + s) == p.len());
            assert((p + s).take(p.len() as int) =~= p.take(k));
            assert((p + s).skip(p.len() as int) =~= s);
            assert(s[0] == '/');
            assert(s.skip(1) =~= Seq::<char>::empty());
            assert(spec_segments(s) =~= Seq::<Seq<char>>::empty());
            assert(p.skip(k) =~= Seq::<char>::empty());
        }
    }
}

/// Doubling a separator anywhere does not change a path's segments.
pub proof fn lemma_segments_repeated_sep(p: Seq<char>, q: Seq<char>)
    ensures
        spec_segments(p + seq!['/', '/'] + q) == spec_segments(p + seq!['/'] + q),
    decreases p.len(),
{
    reveal_with_fuel(spec_segments, 4);
    reveal_with_fuel(first_sep, 4);
    let ss = seq!['/', '/'];
    let s = seq!['/'];
    if p.len() == 0 {
        assert(p + ss + q =~= ss + q);
        assert(p + s + q =~= s + q);
        assert((ss + q)[0] == '/');
        assert((s + q)[0] == '/');
        assert((ss + q).skip(1) =~= s + q);
        assert((s + q).skip(1) =~= q);
        assert(spec_segments(s + q) =~= spec_segments(q));
    } else if p[0] == '/' {
        assert((p + ss + q)[0] == '/');
        assert((p + s + q)[0] == '/');
        lemma_segments_repeated_sep(p.skip(1), q);
        assert((p + ss + q).skip(1) =~= p.skip(1) + ss + q);
        assert((p + s + q).skip(1) =~= p.skip(1) + s + q);
    } else {
        lemma_first_sep_bounds(p);
        let k = first_sep(p);
        lemma_first_sep_concat(p, ss + q);
        lemma_first_sep_concat(p, s + q);
        assert(p + ss + q =~= p + (ss + q));
        assert(p + s + q =~= p + (s + q));
        if k < p.len() {
            assert(first_sep(p + (ss + q)) == k);
            assert(first_sep(p + (s + q)) == k);
            assert((p + (ss + q)).take(k) =~= p.take(k));
            assert((p + (s + q)).take(k) =~= p.take(k));
            lemma_segments_repeated_sep(p.skip(k), q);
            assert((p + (ss + q)).skip(k) =~= p.skip(k) + ss + q);
            assert((p + (s + q)).skip(k) =~= p.skip(k) + s + q);
        } else {
            assert(first_sep(ss + q) == 0);
            assert(first_sep(s + q) == 0);
            assert(first_sep(p + (ss + q)) == p.len());
            assert(first_sep(p + (s + q)) == p.len());
            assert((p + (ss + q)).take(p.len() as int) =~= p);
            assert((p + (s + q)).take(p.len() as int) =~= p);
            assert((p + (ss + q)).skip(p.len() as int) =~= ss + q);
            assert((p + (s + q)).skip(p.len() as int) =~= s + q);
            assert((ss + q)[0] == '/');
            assert((s + q)[0] == '/');
            assert((ss + q).skip(1) =~= s + q);
            assert((s + q).skip(1) =~= q);
            assert(spec_segments(ss + q) =~= spec_segments(s + q));
        }
    }
}

} // verus!
