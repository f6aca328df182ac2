//! Small verified text utilities: pattern replacement over byte strings and
//! comma-joining of CSV cells.

use vstd::prelude::*;
use vstd::string::StringExecFns;

use crate::decimal::push_char;

verus! {

/// `s` with every non-overlapping occurrence of `pat` replaced by `sub`,
/// scanning left to right.
pub open spec fn replaced(s: Seq<u8>, pat: Seq<u8>, sub: Seq<u8>) -> Seq<u8>
    decreases s.len(),
{
    if s.len() == 0 {
        Seq::empty()
    } else if 0 < pat.len() <= s.len() && s.subrange(0, pat.len() as int) == pat {
        sub + replaced(s.skip(pat.len() as int), pat, sub)
    } else {
        seq![s[0]] + replaced(s.skip(1), pat, sub)
    }
}

/// Copy `src[from..to]` into a fresh vector.
pub fn copy_byte_range(src: &Vec<u8>, from: usize, to: usize) -> (r: Vec<u8>)
    requires
        from <= to <= src@.len(),
    ensures
        r@ == src@.subrange(from as int, to as int),
{
    let mut r: Vec<u8> = Vec::new();
    let mut i: usize = from;
    proof {
        assert(r@ =~= src@.subrange(from as int, from as int));
    }
    while i < to
        invariant
            from <= i <= to <= src@.len(),
            r@ == src@.subrange(from as int, i as int),
        decreases to - i,
    {
        r.push(src[i]);
        i = i + 1;
        proof {
            assert(r@ =~= src@.subrange(from as int, i as int));
        }
    }
    r
}

/// Does `pat` occur in `s` at position `i`?
fn matches_at(s: &Vec<u8>, pat: &Vec<u8>, i: usize) -> (r: bool)
    requires
        i + pat@.len() <= s@.len(),
    ensures
        r == (s@.subrange(i as int, i as int + pat@.len() as int) == pat@),
{
    let m = pat.len();
    let sl = s.len();
    let mut j: usize = 0;
    while j < m
        invariant
            j <= m,
            m == pat@.len(),
            sl == s@.len(),
            i + m <= s@.len(),
            forall|k: int| 0 <= k < j ==> s@[i + k] == pat@[k],
        decreases m - j,
    {
        if s[i + j] != pat[j] {
            proof {
                assert(s@.subrange(i as int, i as int + m as int)[j as int] != pat@[j as int]);
            }
            return false;
        }
        j = j + 1;
    }
    proof {
        assert(s@.subrange(i as int, i as int + m as int) =~= pat@);
    }
    true
}

/// Replace every occurrence of `pat` in `s` by `sub`, scanning left to
/// right without re-examining replaced text.
pub fn replace_bytes(s: &Vec<u8>, pat: &Vec<u8>, sub: &Vec<u8>) -> (r: Vec<u8>)
    requires
        pat@.len() > 0,
    ensures
        r@ == replaced(s@, pat@, sub@),
{
    let n = s.len();
    let m = pat.len();
    let mut out: Vec<u8> = Vec::new();
    let mut i: usize = 0;
    proof {
        assert(s@.skip(0) =~= s@);
    }
    while i < n
        invariant
            i <= n,
            n == s@.len(),
            m == pat@.len(),
            m > 0,
            out@ + replaced(s@.skip(i as int), pat@, sub@) == replaced(s@, pat@, sub@),
        decreases n - i,
    {
        let ghost rest = s@.skip(i as int);
        if m <= n - i && matches_at(s, pat, i) {
            proof {
                assert(rest.subrange(0, m as int) =~= s@.subrange(i as int, i as int + m as int));
                assert(rest.skip(m as int) =~= s@.skip(i as int + m as int));
                assert(replaced(rest, pat@, sub@) == sub@ + replaced(
                    s@.skip(i as int + m as int),
                    pat@,
                    sub@,
                ));
            }
            let mut j: usize = 0;
            let ghost out_before = out@;
            while j < sub.len()
                invariant
                    j <= sub@.len(),
                    out@ == out_before + sub@.subrange(0, j as int),
                decreases sub@.len() - j,
            {
                out.push(sub[j]);
                j = j + 1;
                proof {
                    assert(out@ =~= out_before + sub@.subrange(0, j as int));
                }
            }
            proof {
                assert(sub@.subrange(0, sub@.len() as int) =~= sub@);
                assert((out_before + sub@) + replaced(s@.skip(i as int + m as int), pat@, sub@)
                    =~= out_before + (sub@ + replaced(s@.skip(i as int + m as int), pat@, sub@)));
            }
            i = i + m;
        } else {
            proof {
                assert(rest.len() > 0);
                assert(rest[0] == s@[i as int]);
                if m <= n - i {
                    assert(rest.subrange(0, m as int) =~= s@.subrange(
                        i as int,
                        i as int + m as int,
                    ));
                } else {
                    assert(m > rest.len());
                }
                assert(rest.skip(1) =~= s@.skip(i as int + 1));
                assert(replaced(rest, pat@, sub@) == seq![s@[i as int]] + replaced(
                    s@.skip(i as int + 1),
                    pat@,
                    sub@,
                ));
            }
            let ghost out_before = out@;
            out.push(s[i]);
            proof {
                assert((out_before + seq![s@[i as int]]) + replaced(
                    s@.skip(i as int + 1),
                    pat@,
                    sub@,
                ) =~= out_before + (seq![s@[i as int]] + replaced(
                    s@.skip(i as int + 1),
                    pat@,
                    sub@,
                )));
            }
            i = i + 1;
        }
    }
    proof {
        assert(s@.skip(n as int) =~= Seq::<u8>::empty());
        assert(out@ + Seq::<u8>::empty() =~= out@);
    }
    out
}

/// Cells joined with a separator character.
pub open spec fn joined(cells: Seq<Seq<char>>, sep: char) -> Seq<char>
    decreases cells.len(),
{
    if cells.len() == 0 {
        Seq::empty()
    } else if cells.len() == 1 {
        cells[0]
    } else {
        joined(cells.drop_last(), sep) + seq![sep] + cells.last()
    }
}

/// Join CSV cells with commas.
pub fn join_csv(cells: &Vec<String>) -> (r: String)
    ensures
        r@ == joined(cells@.map_values(|s: String| s@), ','),
{
    let ghost views = cells@.map_values(|s: String| s@);
    let mut r = String::new();
    let n = cells.len();
    let mut i: usize = 0;
    proof {
        assert(r@ =~= joined(views.subrange(0, 0), ','));
    }
    while i < n
        invariant
            i <= n,
            n == cells@.len(),
            views == cells@.map_values(|s: String| s@),
            r@ == joined(views.subrange(0, i as int), ','),
        decreases n - i,
    {
        if i > 0 {
            push_char(&mut r, ',');
        }
        r.append(cells[i].as_str());
        i = i + 1;
        proof {
            assert(views.subrange(0, i as int).drop_last() =~= views.subrange(0, i as int - 1));
            assert(views.subrange(0, i as int).last() == views[i as int - 1]);
            if i == 1 {
                assert(r@ =~= joined(views.subrange(0, 1), ','));
            } else {
                assert(r@ =~= joined(views.subrange(0, i as int), ','));
            }
        }
    }
    proof {
        assert(views.subrange(0, n as int) =~= views);
    }
    r
}

} // verus!
