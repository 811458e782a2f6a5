use vstd::prelude::*;

verus! {

/// The lowercase hex digit for a value below 16.
pub open spec fn hex_digit(n: u8) -> u8 {
    if n < 10 {
        (0x30 + n) as u8
    } else {
        (0x57 + n) as u8
    }
}

/// Lowercase hex encoding of a byte sequence, two digits per byte.
pub open spec fn hex_of(b: Seq<u8>) -> Seq<u8>
    decreases b.len(),
{
    if b.len() == 0 {
        Seq::empty()
    } else {
        seq![hex_digit(b[0] / 16), hex_digit(b[0] % 16)] + hex_of(b.skip(1))
    }
}

/// Encodes bytes as lowercase hex.  The content hash strings that address
/// the object store are made this way.
pub fn hex_encode(b: &Vec<u8>) -> (r: Vec<u8>)
    ensures
        r@ == hex_of(b@),
        r@.len() == 2 * b@.len(),
{
    let n = b.len();
    let mut out: Vec<u8> = Vec::new();
    let mut i: usize = 0;
    proof {
        assert(b@.skip(0) =~= b@);
    }
    while i < n
        invariant
            i <= n,
            n == b@.len(),
            out@.len() == 2 * i,
            out@ + hex_of(b@.skip(i as int)) == hex_of(b@),
        decreases n - i,
    {
        let x = b[i];
        let hi = x / 16;
        let lo = x % 16;
        let d1 = if hi < 10 {
            0x30 + hi
        } else {
            0x57 + hi
        };
        let d2 = if lo < 10 {
            0x30 + lo
        } else {
            0x57 + lo
        };
        proof {
            let tail = b@.skip(i as int);
            assert(tail[0] == b@[i as int]);
            assert(tail.skip(1) =~= b@.skip(i + 1));
            assert(hex_of(tail) == seq![hex_digit(tail[0] / 16), hex_digit(tail[0] % 16)]
                + hex_of(b@.skip(i + 1)));
            assert((out@ + seq![d1, d2]) + hex_of(b@.skip(i + 1)) =~= out@ + hex_of(tail));
            assert(out@.push(d1).push(d2) =~= out@ + seq![d1, d2]);
        }
        out.push(d1);
        out.push(d2);
        i = i + 1;
    }
    proof {
        assert(b@.skip(n as int) =~= Seq::<u8>::empty());
        assert(out@ + Seq::<u8>::empty() =~= out@);
    }
    out
}

} // verus!
