//! Short renderings of counts for progress lines.

use vstd::prelude::*;
use crate::text::{decimal, decimal_digits, digit_chars, push_digits};

verus! {

/// The decimal rendering of `v`, shortened when it has more than 18 digits to its
/// first 10 digits, `...`, and its last 6 digits.
pub open spec fn short_decimal_text(v: nat) -> Seq<char> {
    let t = decimal(v);
    if t.len() <= 18 {
        t
    } else {
        t.subrange(0, 10) + "..."@ + t.subrange(t.len() - 6, t.len() as int)
    }
}

pub fn short_decimal(value: u64) -> (r: String)
    ensures
        r@ == short_decimal_text(value as nat),
{
    let d = decimal_digits(value);
    let len = d.len();
    let mut out = String::new();
    if len <= 18 {
        push_digits(&mut out, &d, 0, len);
        assert(d@.subrange(0, len as int) =~= d@);
    } else {
        push_digits(&mut out, &d, 0, 10);
        out.append("...");
        push_digits(&mut out, &d, len - 6, len);
        proof {
            let t = decimal(value as nat);
            assert(digit_chars(d@.subrange(0, 10)) =~= t.subrange(0, 10));
            assert(digit_chars(d@.subrange(len - 6, len as int)) =~= t.subrange(
                t.len() - 6,
                t.len() as int,
            ));
        }
    }
    out
}

} // verus!
