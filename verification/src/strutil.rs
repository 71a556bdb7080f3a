//! Character-sequence helpers shared by the whole library: decimal
//! rendering, substring search and literal replacement, all specified
//! over `Seq<char>`.

use vstd::prelude::*;

verus! {

/// Relies on String::push: appends exactly one character at the end.
#[verifier::external_body]
pub fn push_char(s: &mut String, c: char)
    ensures
        final(s)@ == old(s)@.push(c),
{
    s.push(c);
}

/// The character for one decimal digit.
pub open spec fn spec_digit(d: int) -> char
    recommends
        0 <= d < 10,
{
    if d == 0 {
        '0'
    } else if d == 1 {
        '1'
    } else if d == 2 {
        '2'
    } else if d == 3 {
        '3'
    } else if d == 4 {
        '4'
    } else if d == 5 {
        '5'
    } else if d == 6 {
        '6'
    } else if d == 7 {
        '7'
    } else if d == 8 {
        '8'
    } else {
        '9'
    }
}

/// The decimal representation of a non-negative integer, most
/// significant digit first.
pub open spec fn spec_dec(n: int) -> Seq<char>
    recommends
        n >= 0,
    decreases n,
{
    if n < 10 {
        seq![spec_digit(n)]
    } else {
        spec_dec(n / 10).push(spec_digit(n % 10))
    }
}

fn digit_char(d: u64) -> (c: char)
    requires
        d < 10,
    ensures
        c == spec_digit(d as int),
{
    if d == 0 {
        '0'
    } else if d == 1 {
        '1'
    } else if d == 2 {
        '2'
    } else if d == 3 {
        '3'
    } else if d == 4 {
        '4'
    } else if d == 5 {
        '5'
    } else if d == 6 {
        '6'
    } else if d == 7 {
        '7'
    } else if d == 8 {
        '8'
    } else {
        '9'
    }
}

/// Appends the decimal representation of `n` to `s`.
pub fn push_dec(s: &mut String, n: u64)
    ensures
        final(s)@ == old(s)@ + spec_dec(n as int),
    decreases n,
{
    if n >= 10 {
        push_dec(s, n / 10);
        push_char(s, digit_char(n % 10));
        assert(final(s)@ =~= old(s)@ + spec_dec(n as int));
    } else {
        push_char(s, digit_char(n));
        assert(final(s)@ =~= old(s)@ + spec_dec(n as int));
    }
}

/// The decimal representation of `n` as a fresh string.
pub fn u64_to_dec(n: u64) -> (s: String)
    ensures
        s@ == spec_dec(n as int),
{
    let mut s = String::new();
    push_dec(&mut s, n);
    assert(s@ =~= spec_dec(n as int));
    s
}

/// Two-digit, zero-padded decimal, as used in duration displays.
pub open spec fn spec_dec2(n: int) -> Seq<char>
    recommends
        n >= 0,
{
    if n < 10 {
        seq!['0'].push(spec_digit(n))
    } else {
        spec_dec(n)
    }
}

/// Appends `n` as at least two decimal digits, zero-padded.
pub fn push_dec_pad2(s: &mut String, n: u64)
    ensures
        final(s)@ == old(s)@ + spec_dec2(n as int),
{
    if n < 10 {
        push_char(s, '0');
        push_char(s, digit_char(n));
        assert(final(s)@ =~= old(s)@ + spec_dec2(n as int));
    } else {
        push_dec(s, n);
    }
}

/// One step of filtering a sequence prefix: filtering `s.take(i + 1)`
/// extends filtering `s.take(i)` by `s[i]` exactly when the predicate
/// holds of `s[i]`.
pub proof fn lemma_filter_take_step<A>(s: Seq<A>, pred: spec_fn(A) -> bool, i: int)
    requires
        0 <= i < s.len(),
    ensures
        s.take(i + 1).filter(pred) == if pred(s[i]) {
            s.take(i).filter(pred).push(s[i])
        } else {
            s.take(i).filter(pred)
        },
{
    reveal(Seq::filter);
    assert(s.take(i + 1).drop_last() =~= s.take(i));
    assert(s.take(i + 1).last() == s[i]);
}

/// An ASCII decimal digit.
pub open spec fn spec_is_digit(c: char) -> bool {
    48 <= c as u32 <= 57
}

/// The numeric value of an ASCII digit.
pub open spec fn spec_digit_val(c: char) -> int {
    c as u32 - 48
}

/// Value of the leading run of decimal digits of `s`, folded onto the
/// accumulator `acc`; stops at the first non-digit.
pub open spec fn spec_lead_num_rec(s: Seq<char>, acc: int) -> int
    decreases s.len(),
{
    if s.len() == 0 || !spec_is_digit(s[0]) {
        acc
    } else {
        spec_lead_num_rec(s.skip(1), acc * 10 + spec_digit_val(s[0]))
    }
}

/// The number a leading digit run denotes never shrinks below the
/// accumulator it started from.
pub proof fn lemma_lead_num_rec_grows(s: Seq<char>, acc: int)
    requires
        acc >= 0,
    ensures
        spec_lead_num_rec(s, acc) >= acc,
    decreases s.len(),
{
    if s.len() > 0 && spec_is_digit(s[0]) {
        lemma_lead_num_rec_grows(s.skip(1), acc * 10 + spec_digit_val(s[0]));
    }
}

/// The number denoted by the leading decimal digits of `s`, or 0 when
/// there are none or their value does not fit in `u32`, exactly as
/// `parse::<u32>().unwrap_or(0)` behaves on the digit prefix.
pub open spec fn spec_leading_number(s: Seq<char>) -> int {
    if spec_lead_num_rec(s, 0) > u32::MAX {
        0
    } else {
        spec_lead_num_rec(s, 0)
    }
}

/// Parse the leading decimal digits of `v` as a `u32`, yielding 0 on
/// an empty digit run or on overflow.
pub fn parse_leading_u32(v: &Vec<char>) -> (r: u32)
    ensures
        r == spec_leading_number(v@),
{
    let mut i: usize = 0;
    let mut acc: u64 = 0;
    assert(v@.skip(0) =~= v@);
    while i < v.len()
        invariant
            i <= v@.len(),
            0 <= acc <= u32::MAX,
            spec_lead_num_rec(v@, 0) == spec_lead_num_rec(v@.skip(i as int), acc as int),
        decreases v@.len() - i,
    {
        let c = v[i];
        let u = c as u32;
        if u < 48 || u > 57 {
            assert(!spec_is_digit(v@.skip(i as int)[0]));
            return acc as u32;
        }
        let d = (u - 48) as u64;
        proof {
            assert(v@.skip(i as int).skip(1) =~= v@.skip(i + 1));
            assert(v@.skip(i as int)[0] == v@[i as int]);
        }
        let next = acc * 10 + d;
        if next > u32::MAX as u64 {
            proof {
                lemma_lead_num_rec_grows(v@.skip(i + 1), next as int);
            }
            return 0;
        }
        acc = next;
        i = i + 1;
    }
    assert(v@.skip(i as int).len() == 0);
    acc as u32
}

/// `pat` occurs in `s` starting at position `i`.
pub open spec fn matches_at(s: Seq<char>, pat: Seq<char>, i: int) -> bool {
    0 <= i && i + pat.len() <= s.len() && s.subrange(i, i + pat.len() as int) == pat
}

/// `pat` occurs somewhere in `s`.
pub open spec fn spec_contains(s: Seq<char>, pat: Seq<char>) -> bool {
    exists|i: int| matches_at(s, pat, i)
}

/// The characters of `s`, one by one.
pub fn str_to_chars(s: &str) -> (v: Vec<char>)
    ensures
        v@ == s@,
{
    let n = s.unicode_len();
    let mut v: Vec<char> = Vec::new();
    let mut i: usize = 0;
    while i < n
        invariant
            n == s@.len(),
            i <= n,
            v@ == s@.subrange(0, i as int),
        decreases n - i,
    {
        let c = s.get_char(i);
        v.push(c);
        assert(v@ =~= s@.subrange(0, i + 1 as int));
        i = i + 1;
    }
    assert(v@ =~= s@);
    v
}

/// A string holding exactly the characters of `v`.
pub fn chars_to_string(v: &Vec<char>) -> (s: String)
    ensures
        s@ == v@,
{
    let mut s = String::new();
    let mut i: usize = 0;
    while i < v.len()
        invariant
            i <= v@.len(),
            s@ == v@.subrange(0, i as int),
        decreases v@.len() - i,
    {
        push_char(&mut s, v[i]);
        assert(s@ =~= v@.subrange(0, i + 1 as int));
        i = i + 1;
    }
    assert(s@ =~= v@);
    s
}

/// Whether `pat` occurs in `h` starting at `i`.
pub fn matches_at_exec(h: &Vec<char>, pat: &Vec<char>, i: usize) -> (b: bool)
    ensures
        b == matches_at(h@, pat@, i as int),
{
    if i > h.len() || pat.len() > h.len() - i {
        assert(!matches_at(h@, pat@, i as int));
        return false;
    }
    let mut k: usize = 0;
    while k < pat.len()
        invariant
            i + pat@.len() <= h@.len(),
            h@.len() <= usize::MAX,
            k <= pat@.len(),
            forall|j: int| 0 <= j < k ==> h@[i + j] == pat@[j],
        decreases pat@.len() - k,
    {
        assert(i + k < h@.len());
        if h[i + k] != pat[k] {
            assert(h@.subrange(i as int, i + pat@.len() as int)[k as int] != pat@[k as int]);
            return false;
        }
        k = k + 1;
    }
    assert(h@.subrange(i as int, i + pat@.len() as int) =~= pat@);
    true
}

/// Leftmost occurrence of `pat` in `h`, if any.
pub fn find_sub(h: &Vec<char>, pat: &Vec<char>) -> (r: Option<usize>)
    ensures
        match r {
            Some(i) => matches_at(h@, pat@, i as int) && forall|j: int|
                0 <= j < i ==> !matches_at(h@, pat@, j),
            None => forall|j: int| !matches_at(h@, pat@, j),
        },
{
    if pat.len() > h.len() {
        assert(forall|j: int| !matches_at(h@, pat@, j));
        return None;
    }
    if pat.len() == 0 {
        assert(h@.subrange(0, 0) =~= pat@);
        assert(matches_at(h@, pat@, 0));
        return Some(0);
    }
    let bound: usize = h.len() - pat.len();
    let mut i: usize = 0;
    while i <= bound
        invariant
            pat@.len() <= h@.len(),
            bound == h@.len() - pat@.len(),
            bound <= usize::MAX - 1,
            i <= bound + 1,
            forall|j: int| 0 <= j < i ==> !matches_at(h@, pat@, j),
        decreases bound + 1 - i,
    {
        if matches_at_exec(h, pat, i) {
            return Some(i);
        }
        i = i + 1;
    }
    assert(forall|j: int| !matches_at(h@, pat@, j)) by {
        assert(forall|j: int| j + pat@.len() > h@.len() ==> !matches_at(h@, pat@, j));
    }
    None
}

/// Whether `pat` occurs anywhere in `h`.
pub fn contains_sub(h: &Vec<char>, pat: &Vec<char>) -> (b: bool)
    ensures
        b == spec_contains(h@, pat@),
{
    match find_sub(h, pat) {
        Some(i) => {
            assert(matches_at(h@, pat@, i as int));
            true
        },
        None => false,
    }
}

/// `s` with every occurrence of `from` replaced by `to`, scanning left
/// to right without re-examining replaced text, as `str::replace` does.
pub open spec fn spec_replace(s: Seq<char>, from: Seq<char>, to: Seq<char>) -> Seq<char>
    recommends
        from.len() > 0,
    decreases s.len(),
{
    if from.len() == 0 || s.len() < from.len() {
        s
    } else if s.subrange(0, from.len() as int) == from {
        to + spec_replace(s.skip(from.len() as int), from, to)
    } else {
        seq![s[0]] + spec_replace(s.skip(1), from, to)
    }
}

/// Replace every occurrence of `from` in `s` by `to`.
pub fn replace_all(s: &Vec<char>, from: &Vec<char>, to: &Vec<char>) -> (r: Vec<char>)
    requires
        from@.len() > 0,
    ensures
        r@ == spec_replace(s@, from@, to@),
{
    let mut out: Vec<char> = Vec::new();
    let mut i: usize = 0;
    assert(s@.skip(0) =~= s@);
    while i < s.len()
        invariant
            from@.len() > 0,
            i <= s@.len(),
            spec_replace(s@, from@, to@) == out@ + spec_replace(s@.skip(i as int), from@, to@),
        decreases s@.len() - i,
    {
        if matches_at_exec(s, from, i) {
            let ghost pre = out@;
            let mut k: usize = 0;
            while k < to.len()
                invariant
                    k <= to@.len(),
                    out@ == pre + to@.subrange(0, k as int),
                decreases to@.len() - k,
            {
                out.push(to[k]);
                assert(out@ =~= pre + to@.subrange(0, k + 1 as int));
                k = k + 1;
            }
            assert(out@ =~= pre + to@);
            proof {
                let rest = s@.skip(i as int);
                assert(rest.subrange(0, from@.len() as int) =~= s@.subrange(
                    i as int,
                    i + from@.len() as int,
                ));
                assert(rest.skip(from@.len() as int) =~= s@.skip(i + from@.len() as int));
            }
            i = i + from.len();
        } else {
            proof {
                let rest = s@.skip(i as int);
                if rest.len() >= from@.len() {
                    assert(rest.subrange(0, from@.len() as int) =~= s@.subrange(
                        i as int,
                        i + from@.len() as int,
                    ));
                }
                assert(rest.skip(1) =~= s@.skip(i + 1));
                if rest.len() >= from@.len() {
                    assert(rest[0] == s@[i as int]);
                } else {
                    assert(rest =~= seq![s@[i as int]] + s@.skip(i + 1));
                }
            }
            out.push(s[i]);
            i = i + 1;
        }
    }
    assert(s@.skip(i as int) =~= Seq::<char>::empty());
    assert(out@ =~= out@ + spec_replace(s@.skip(i as int), from@, to@));
    out
}

} // verus!
