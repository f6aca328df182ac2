//! Catalog reference-number codec: renders a 64-bit catalog ID as
//! human-readable text prefixed by its source catalog, dispatching on the
//! first decimal digit of the ID.

use vstd::prelude::*;
use vstd::string::StringExecFns;

use crate::decimal::{digit_chars, digit_vals, push_char, push_digit_chars, u64_digit_vals};

verus! {

/// The catalog text for reference number `n`.
///
/// Dispatch is on the leading decimal digit: 0 is the absent marker, 1 covers
/// the two Guide Star Catalog hemispheres, 2 the Kepler Input Catalog, 3 and 4
/// the 15-digit DASCH/APASS position-encoded IDs, 5 Tycho-2, 6 UCAC-4, 7 and 8
/// the unhandled Gaia releases, and 9 ATLAS refcat2.
pub open spec fn refnum_text(n: u64) -> Seq<char> {
    let d = digit_vals(n as nat);
    let rest = d.subrange(1, d.len() as int);
    if n == 0 {
        "NONE"@
    } else if d[0] == 1 {
        if rest.len() >= 1 && rest[0] == 1 {
            seq!['N'] + digit_chars(rest.subrange(1, rest.len() as int))
        } else if rest.len() >= 1 && rest[0] == 2 {
            seq!['S'] + digit_chars(rest.subrange(1, rest.len() as int))
        } else {
            "UNKNOWN"@
        }
    } else if d[0] == 2 {
        seq!['K'] + digit_chars(rest)
    } else if d[0] == 3 || d[0] == 4 {
        if d.len() == 15 && (d[8] == 1 || d[8] == 2) {
            (if d[0] == 3 {
                "DASCH_J"@
            } else {
                "APASS_J"@
            }) + digit_chars(d.subrange(1, 7)) + seq!['.'] + digit_chars(d.subrange(7, 8)) + (if d[8]
                == 1 {
                seq!['+']
            } else {
                seq!['-']
            }) + digit_chars(d.subrange(9, 15))
        } else {
            "MALFORMED-DASCH/APASS"@
        }
    } else if d[0] == 5 {
        seq!['T'] + digit_chars(rest)
    } else if d[0] == 6 {
        seq!['U'] + digit_chars(rest)
    } else if d[0] == 7 {
        "UNHANDLED-GAIA1"@
    } else if d[0] == 8 {
        "UNHANDLED-GAIA2"@
    } else if d[0] == 9 {
        "ATLAS2_"@ + digit_chars(rest)
    } else {
        "UNKNOWN"@
    }
}

/// The zero reference number always renders as the absent marker.
pub proof fn lemma_refnum_zero()
    ensures
        refnum_text(0) == "NONE"@,
{
}

/// Render a catalog reference number as catalog-prefixed text.
///
/// Total: every input yields a string, malformed IDs included.
pub fn refnum_to_text(refnum: u64) -> (r: String)
    ensures
        r@ == refnum_text(refnum),
{
    let mut s = String::new();

    if refnum == 0 {
        s.append("NONE");
        proof {
            assert(s@ =~= refnum_text(refnum));
        }
        return s;
    }

    let d = u64_digit_vals(refnum);
    let ghost dg = digit_vals(refnum as nat);
    let ghost rest = dg.subrange(1, dg.len() as int);
    let code = d[0];

    if code == 1 {
        if d.len() >= 2 && d[1] == 1 {
            push_char(&mut s, 'N');
            push_digit_chars(&mut s, &d, 2, d.len());
            proof {
                assert(rest.subrange(1, rest.len() as int) =~= dg.subrange(2, dg.len() as int));
                assert(s@ =~= refnum_text(refnum));
            }
        } else if d.len() >= 2 && d[1] == 2 {
            push_char(&mut s, 'S');
            push_digit_chars(&mut s, &d, 2, d.len());
            proof {
                assert(rest.subrange(1, rest.len() as int) =~= dg.subrange(2, dg.len() as int));
                assert(s@ =~= refnum_text(refnum));
            }
        } else {
            s.append("UNKNOWN");
            proof {
                assert(s@ =~= refnum_text(refnum));
            }
        }
    } else if code == 2 {
        push_char(&mut s, 'K');
        push_digit_chars(&mut s, &d, 1, d.len());
        proof {
            assert(s@ =~= refnum_text(refnum));
        }
    } else if code == 3 || code == 4 {
        if d.len() == 15 && (d[8] == 1 || d[8] == 2) {
            if code == 3 {
                s.append("DASCH_J");
            } else {
                s.append("APASS_J");
            }
            push_digit_chars(&mut s, &d, 1, 7);
            push_char(&mut s, '.');
            push_digit_chars(&mut s, &d, 7, 8);
            if d[8] == 1 {
                push_char(&mut s, '+');
            } else {
                push_char(&mut s, '-');
            }
            push_digit_chars(&mut s, &d, 9, 15);
            proof {
                assert(s@ =~= refnum_text(refnum));
            }
        } else {
            s.append("MALFORMED-DASCH/APASS");
            proof {
                assert(s@ =~= refnum_text(refnum));
            }
        }
    } else if code == 5 {
        push_char(&mut s, 'T');
        push_digit_chars(&mut s, &d, 1, d.len());
        proof {
            assert(s@ =~= refnum_text(refnum));
        }
    } else if code == 6 {
        push_char(&mut s, 'U');
        push_digit_chars(&mut s, &d, 1, d.len());
        proof {
            assert(s@ =~= refnum_text(refnum));
        }
    } else if code == 7 {
        s.append("UNHANDLED-GAIA1");
        proof {
            assert(s@ =~= refnum_text(refnum));
        }
    } else if code == 8 {
        s.append("UNHANDLED-GAIA2");
        proof {
            assert(s@ =~= refnum_text(refnum));
        }
    } else if code == 9 {
        s.append("ATLAS2_");
        push_digit_chars(&mut s, &d, 1, d.len());
        proof {
            assert(s@ =~= refnum_text(refnum));
        }
    } else {
        s.append("UNKNOWN");
        proof {
            assert(s@ =~= refnum_text(refnum));
        }
    }

    s
}

} // verus!
