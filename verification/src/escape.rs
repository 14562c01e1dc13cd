//! Building blocks for the wire-protocol backends: decimal number
//! formatting and base64 encoding, over plain byte vectors.

use vstd::prelude::*;

verus! {

/// The ASCII decimal digits of `n` (most significant first).
pub open spec fn dec_digits(n: int) -> Seq<u8>
    decreases n,
{
    if n < 10 {
        seq![(48 + n) as u8]
    } else {
        dec_digits(n / 10).push((48 + n % 10) as u8)
    }
}

/// Append the decimal digits of `n`.
pub fn push_dec(out: &mut Vec<u8>, n: u64)
    ensures
        final(out)@ == old(out)@ + dec_digits(n as int),
    decreases n,
{
    if n < 10 {
        out.push(48 + n as u8);
        proof {
            assert(out@ =~= old(out)@ + dec_digits(n as int));
        }
    } else {
        push_dec(out, n / 10);
        out.push(48 + (n % 10) as u8);
        proof {
            assert(out@ =~= old(out)@ + dec_digits(n as int));
        }
    }
}

/// The base64 alphabet character for a 6-bit value.
pub open spec fn b64_char(v: int) -> u8 {
    if v < 26 {
        (65 + v) as u8
    } else if v < 52 {
        (97 + (v - 26)) as u8
    } else if v < 62 {
        (48 + (v - 52)) as u8
    } else if v == 62 {
        43u8
    } else {
        47u8
    }
}

/// Standard base64 with `=` padding, grouping bytes three at a time from
/// the front.
pub open spec fn b64_encode(s: Seq<u8>) -> Seq<u8>
    decreases s.len(),
{
    if s.len() == 0 {
        Seq::<u8>::empty()
    } else if s.len() == 1 {
        let a = s[0] as int;
        seq![b64_char(a / 4), b64_char((a % 4) * 16), 61u8, 61u8]
    } else if s.len() == 2 {
        let a = s[0] as int;
        let b = s[1] as int;
        seq![b64_char(a / 4), b64_char((a % 4) * 16 + b / 16), b64_char((b % 16) * 4), 61u8]
    } else {
        let a = s[0] as int;
        let b = s[1] as int;
        let c = s[2] as int;
        seq![
            b64_char(a / 4),
            b64_char((a % 4) * 16 + b / 16),
            b64_char((b % 16) * 4 + c / 64),
            b64_char(c % 64),
        ] + b64_encode(s.skip(3))
    }
}

/// The base64 character of a 6-bit value.
fn b64_char_of(v: u8) -> (r: u8)
    requires
        v < 64,
    ensures
        r == b64_char(v as int),
{
    if v < 26 {
        65 + v
    } else if v < 52 {
        97 + (v - 26)
    } else if v < 62 {
        48 + (v - 52)
    } else if v == 62 {
        43
    } else {
        47
    }
}

/// Append the base64 encoding of `data[start .. end]`.
pub fn push_b64(out: &mut Vec<u8>, data: &Vec<u8>, start: usize, end: usize)
    requires
        start <= end <= data@.len(),
    ensures
        final(out)@ == old(out)@ + b64_encode(data@.subrange(start as int, end as int)),
{
    let ghost s = data@.subrange(start as int, end as int);
    proof {
        assert(s.skip(0) =~= s);
    }
    let mut i: usize = start;
    while end - i >= 3
        invariant
            start <= i <= end <= data@.len(),
            s == data@.subrange(start as int, end as int),
            old(out)@ + b64_encode(s) == out@ + b64_encode(s.skip(i - start)),
        decreases end - i,
    {
        let ghost t = s.skip(i - start);
        let ghost pre = out@;
        let a = data[i];
        let b = data[i + 1];
        let c = data[i + 2];
        proof {
            assert(t.len() >= 3);
            assert(t[0] == a && t[1] == b && t[2] == c);
            assert(t.skip(3) =~= s.skip(i + 3 - start));
        }
        out.push(b64_char_of(a / 4));
        out.push(b64_char_of((a % 4) * 16 + b / 16));
        out.push(b64_char_of((b % 16) * 4 + c / 64));
        out.push(b64_char_of(c % 64));
        proof {
            let quad = seq![
                b64_char(a as int / 4),
                b64_char((a as int % 4) * 16 + b as int / 16),
                b64_char((b as int % 16) * 4 + c as int / 64),
                b64_char(c as int % 64),
            ];
            assert(out@ =~= pre + quad);
            assert(b64_encode(t) =~= quad + b64_encode(s.skip(i + 3 - start)));
            assert(out@ + b64_encode(s.skip(i + 3 - start)) =~= pre + b64_encode(t));
        }
        i = i + 3;
    }
    let ghost t = s.skip(i - start);
    let ghost pre = out@;
    if end - i == 1 {
        let a = data[i];
        proof {
            assert(t.len() == 1 && t[0] == a);
        }
        out.push(b64_char_of(a / 4));
        out.push(b64_char_of((a % 4) * 16));
        out.push(61);
        out.push(61);
        proof {
            assert(out@ =~= pre + b64_encode(t));
        }
    } else if end - i == 2 {
        let a = data[i];
        let b = data[i + 1];
        proof {
            assert(t.len() == 2 && t[0] == a && t[1] == b);
        }
        out.push(b64_char_of(a / 4));
        out.push(b64_char_of((a % 4) * 16 + b / 16));
        out.push(b64_char_of((b % 16) * 4));
        out.push(61);
        proof {
            assert(out@ =~= pre + b64_encode(t));
        }
    } else {
        proof {
            assert(t.len() == 0);
            assert(out@ =~= pre + b64_encode(t));
        }
    }
    proof {
        assert(out@ == old(out)@ + b64_encode(s));
    }
}

/// Copy a byte vector.
pub fn clone_bytes(v: &Vec<u8>) -> (r: Vec<u8>)
    ensures
        r@ == v@,
{
    let mut r: Vec<u8> = Vec::new();
    let mut i: usize = 0;
    while i < v.len()
        invariant
            i <= v@.len(),
            r@ == v@.take(i as int),
        decreases v@.len() - i,
    {
        r.push(v[i]);
        proof {
            assert(v@.take(i + 1 as int) =~= v@.take(i as int).push(v@[i as int]));
        }
        i = i + 1;
    }
    proof {
        assert(v@.take(v@.len() as int) =~= v@);
    }
    r
}

} // verus!
