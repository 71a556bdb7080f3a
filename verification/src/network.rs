//! The computable part of the network client: range-header rendering
//! and header-value interpretation.  Issuing requests is I/O and stays
//! with the caller, which feeds the header values back in as strings.

use vstd::prelude::*;

use crate::strutil::{
    contains_sub, lemma_lead_num_rec_grows, push_dec, spec_contains, spec_dec, spec_digit_val,
    spec_is_digit, spec_lead_num_rec, str_to_chars,
};

verus! {

/// Some character of `s` is not an ASCII digit.
pub open spec fn spec_has_nondigit(s: Seq<char>) -> bool {
    exists|i: int| 0 <= i < s.len() && !spec_is_digit(#[trigger] s[i])
}

/// What `parse::<u64>` yields on a header value: an optional leading
/// plus sign, then at least one digit, and a value that fits.
pub open spec fn spec_parse_u64(s: Seq<char>) -> Option<u64> {
    let t = if s.len() >= 1 && s[0] == '+' {
        s.skip(1)
    } else {
        s
    };
    if t.len() == 0 {
        None
    } else if spec_has_nondigit(t) {
        None
    } else if spec_lead_num_rec(t, 0) > u64::MAX {
        None
    } else {
        Some(spec_lead_num_rec(t, 0) as u64)
    }
}

/// Network helpers around HTTP headers.
pub struct NetworkUtils;

impl NetworkUtils {
    /// The value of a Range header: `bytes=<start>-<end>` for a
    /// bounded range, `bytes=<start>-` for an open-ended one.
    pub fn create_range_headers(start: u64, end: Option<u64>) -> (r: String)
        ensures
            match end {
                Some(e) => r@ == "bytes="@ + spec_dec(start as int) + "-"@ + spec_dec(e as int),
                None => r@ == "bytes="@ + spec_dec(start as int) + "-"@,
            },
    {
        let mut s = String::from_str("bytes=");
        push_dec(&mut s, start);
        s.append("-");
        match end {
            Some(e) => {
                push_dec(&mut s, e);
                proof {
                    assert(s@ =~= "bytes="@ + spec_dec(start as int) + "-"@ + spec_dec(e as int));
                }
            },
            None => {
                proof {
                    assert(s@ =~= "bytes="@ + spec_dec(start as int) + "-"@);
                }
            },
        }
        s
    }

    /// The total size a metadata probe reported: the Content-Length
    /// header value parsed as a decimal byte count, `None` when the
    /// header was absent or malformed.  The probe itself is the
    /// caller's I/O; a failed probe simply hands in `None`.
    pub fn get_file_size(content_length: Option<&str>) -> (r: Option<u64>)
        ensures
            r == match content_length {
                Some(v) => spec_parse_u64(v@),
                None => None::<u64>,
            },
    {
        match content_length {
            Some(v) => parse_u64(v),
            None => None,
        }
    }

    /// Whether the server's Accept-Ranges header announces byte
    /// ranges: the header is present and contains `bytes`.
    pub fn supports_range_requests(accept_ranges: Option<&str>) -> (r: bool)
        ensures
            r == match accept_ranges {
                Some(v) => spec_contains(v@, "bytes"@),
                None => false,
            },
    {
        match accept_ranges {
            Some(v) => {
                let h = str_to_chars(v);
                let pat = str_to_chars("bytes");
                contains_sub(&h, &pat)
            },
            None => false,
        }
    }
}

/// Parse a decimal `u64` the way `str::parse::<u64>` does: an
/// optional `+`, then digits only, rejecting overflow.
pub fn parse_u64(v: &str) -> (r: Option<u64>)
    ensures
        r == spec_parse_u64(v@),
{
    let chars = str_to_chars(v);
    let start: usize = if chars.len() >= 1 && chars[0] == '+' {
        1
    } else {
        0
    };
    let ghost t = if v@.len() >= 1 && v@[0] == '+' {
        v@.skip(1)
    } else {
        v@
    };
    proof {
        assert(chars@.skip(start as int) =~= t);
    }
    if chars.len() == start {
        return None;
    }
    let mut i: usize = start;
    let mut acc: u64 = 0;
    proof {
        assert(t.skip(0) =~= t);
    }
    while i < chars.len()
        invariant
            start <= i <= chars@.len(),
            chars@ == v@,
            t == (if v@.len() >= 1 && v@[0] == '+' {
                v@.skip(1)
            } else {
                v@
            }),
            chars@.skip(start as int) == t,
            t.len() == chars@.len() - start,
            0 <= acc <= u64::MAX,
            spec_lead_num_rec(t, 0) == spec_lead_num_rec(t.skip(i - start), acc as int),
            forall|j: int| 0 <= j < i - start ==> spec_is_digit(#[trigger] t[j]),
        decreases chars@.len() - i,
    {
        let c = chars[i];
        let u = c as u32;
        proof {
            assert(t[i - start] == chars@[i as int]);
        }
        if u < 48 || u > 57 {
            proof {
                assert(0 <= i - start < t.len() && !spec_is_digit(t[i - start]));
                assert(spec_has_nondigit(t));
            }
            return None;
        }
        let d = (u - 48) as u64;
        proof {
            assert(t.skip(i - start).skip(1) =~= t.skip(i + 1 - start));
            assert(t.skip(i - start)[0] == t[i - start]);
        }
        let next = (acc as u128) * 10 + (d as u128);
        if next > u64::MAX as u128 {
            proof {
                assert(spec_lead_num_rec(t.skip(i - start), acc as int) == spec_lead_num_rec(
                    t.skip(i + 1 - start),
                    acc * 10 + spec_digit_val(t[i - start]),
                ));
                lemma_lead_num_rec_grows(t.skip(i + 1 - start), next as int);
                assert(spec_lead_num_rec(t, 0) > u64::MAX);
            }
            return None;
        }
        acc = next as u64;
        i = i + 1;
    }
    proof {
        assert(t.skip(i - start).len() == 0);
        assert(!spec_has_nondigit(t));
    }
    Some(acc)
}

} // verus!
