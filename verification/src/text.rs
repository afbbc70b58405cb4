//! Character-vector utilities: turning string slices into `Vec<char>`,
//! decimal formatting, and small sequence helpers shared by the other modules.

use vstd::prelude::*;
use vstd::string::StrSliceExecFns;

verus! {

/// Collects the characters of a string slice into a vector, in order.
pub fn chars_of_str(s: &str) -> (v: Vec<char>)
    ensures
        v@ == s@,
{
    let n = s.unicode_len();
    let mut v: Vec<char> = Vec::new();
    let mut i: usize = 0;
    while i < n
        invariant
            i <= n,
            n == s@.len(),
            v@ == s@.take(i as int),
        decreases n - i,
    {
        let c = s.get_char(i);
        v.push(c);
        proof {
            assert(v@ =~= s@.take(i + 1));
        }
        i += 1;
    }
    proof {
        assert(s@.take(n as int) =~= s@);
    }
    v
}

/// Appends every character of `src` to `dst`.
pub fn append_chars(dst: &mut Vec<char>, src: &Vec<char>)
    ensures
        final(dst)@ == old(dst)@ + src@,
{
    let ghost start = dst@;
    let mut i: usize = 0;
    while i < src.len()
        invariant
            i <= src@.len(),
            dst@ == start + src@.take(i as int),
        decreases src@.len() - i,
    {
        dst.push(src[i]);
        proof {
            assert(start + src@.take(i + 1) =~= (start + src@.take(i as int)).push(src@[i as int]));
        }
        i += 1;
    }
    proof {
        assert(start + src@.take(src@.len() as int) =~= start + src@);
    }
}

/// Appends the characters of a string slice to `dst`.
pub fn append_str(dst: &mut Vec<char>, s: &str)
    ensures
        final(dst)@ == old(dst)@ + s@,
{
    let v = chars_of_str(s);
    append_chars(dst, &v);
}

/// Copies `v[from..to]` into a fresh vector.
pub fn copy_range(v: &Vec<char>, from: usize, to: usize) -> (r: Vec<char>)
    requires
        from <= to <= v@.len(),
    ensures
        r@ == v@.subrange(from as int, to as int),
{
    let mut r: Vec<char> = Vec::new();
    let mut i: usize = from;
    while i < to
        invariant
            from <= i <= to <= v@.len(),
            r@ == v@.subrange(from as int, i as int),
        decreases to - i,
    {
        r.push(v[i]);
        proof {
            assert(v@.subrange(from as int, i + 1) =~= v@.subrange(from as int, i as int).push(
                v@[i as int],
            ));
        }
        i += 1;
    }
    r
}

/// The character for one decimal digit.
pub open spec fn digit_char(d: nat) -> char {
    if d == 0 {
        '0'
    } else if d == 1 {
        '1'
    } else if d == 2 {
        '2'
    } else if d == 3 {
        '3'
    } else if d == 4 {
        '4'
    } else if d == 5 {
        '5'
    } else if d == 6 {
        '6'
    } else if d == 7 {
        '7'
    } else if d == 8 {
        '8'
    } else {
        '9'
    }
}

/// The usual decimal notation of `n`, most significant digit first,
/// without a sign and without leading zeros (except for `n == 0`).
pub open spec fn dec_chars(n: nat) -> Seq<char>
    decreases n,
{
    if n < 10 {
        seq![digit_char(n)]
    } else {
        dec_chars(n / 10) + seq![digit_char(n % 10)]
    }
}

/// One decimal digit as a character.
pub fn digit_of(d: usize) -> (c: char)
    requires
        d < 10,
    ensures
        c == digit_char(d as nat),
{
    if d == 0 {
        '0'
    } else if d == 1 {
        '1'
    } else if d == 2 {
        '2'
    } else if d == 3 {
        '3'
    } else if d == 4 {
        '4'
    } else if d == 5 {
        '5'
    } else if d == 6 {
        '6'
    } else if d == 7 {
        '7'
    } else if d == 8 {
        '8'
    } else {
        '9'
    }
}

/// Writes `n` in decimal.
pub fn dec_of(n: usize) -> (v: Vec<char>)
    ensures
        v@ == dec_chars(n as nat),
    decreases n,
{
    if n < 10 {
        let mut v: Vec<char> = Vec::new();
        v.push(digit_of(n));
        proof {
            assert(v@ =~= dec_chars(n as nat));
        }
        v
    } else {
        let mut v = dec_of(n / 10);
        v.push(digit_of(n % 10));
        proof {
            assert(v@ =~= dec_chars((n / 10) as nat) + seq![digit_char((n % 10) as nat)]);
        }
        v
    }
}

} // verus!
