use vstd::prelude::*;

verus! {

/// The eight little-endian bytes of a 64-bit integer: the wire form this
/// harness uses for every numeric payload inside a message envelope.
pub open spec fn le_bytes(x: u64) -> Seq<u8> {
    seq![
        ((x & 0xff) as u8),
        (((x >> 8) & 0xff) as u8),
        (((x >> 16) & 0xff) as u8),
        (((x >> 24) & 0xff) as u8),
        (((x >> 32) & 0xff) as u8),
        (((x >> 40) & 0xff) as u8),
        (((x >> 48) & 0xff) as u8),
        (((x >> 56) & 0xff) as u8),
    ]
}

/// The 64-bit integer read from eight little-endian bytes; any sequence of
/// another length reads as zero.
pub open spec fn le_decode(s: Seq<u8>) -> u64 {
    if s.len() == 8 {
        ((s[0] as u64) | ((s[1] as u64) << 8) | ((s[2] as u64) << 16) | ((s[3] as u64) << 24)
            | ((s[4] as u64) << 32) | ((s[5] as u64) << 40) | ((s[6] as u64) << 48) | ((
        s[7] as u64) << 56)) as u64
    } else {
        0
    }
}

/// Decoding inverts encoding: the eight little-endian bytes of `x` read
/// back as `x`.
pub proof fn lemma_le_roundtrip(x: u64)
    ensures
        le_decode(le_bytes(x)) == x,
{
    assert(le_bytes(x).len() == 8);
    assert((((x & 0xff) as u8) as u64) | ((((x >> 8) & 0xff) as u8) as u64) << 8 | ((((x >> 16)
        & 0xff) as u8) as u64) << 16 | ((((x >> 24) & 0xff) as u8) as u64) << 24 | ((((x >> 32)
        & 0xff) as u8) as u64) << 32 | ((((x >> 40) & 0xff) as u8) as u64) << 40 | ((((x >> 48)
        & 0xff) as u8) as u64) << 48 | ((((x >> 56) & 0xff) as u8) as u64) << 56 == x)
        by (bit_vector);
}

pub fn u64_to_le(x: u64) -> (r: Vec<u8>)
    ensures
        r@ == le_bytes(x),
{
    proof {
        assert((x & 0xff) < 256 && ((x >> 8) & 0xff) < 256 && ((x >> 16) & 0xff) < 256 && ((x
            >> 24) & 0xff) < 256 && ((x >> 32) & 0xff) < 256 && ((x >> 40) & 0xff) < 256 && ((x
            >> 48) & 0xff) < 256 && ((x >> 56) & 0xff) < 256) by (bit_vector);
    }
    let mut r: Vec<u8> = Vec::new();
    r.push((x & 0xff) as u8);
    r.push(((x >> 8) & 0xff) as u8);
    r.push(((x >> 16) & 0xff) as u8);
    r.push(((x >> 24) & 0xff) as u8);
    r.push(((x >> 32) & 0xff) as u8);
    r.push(((x >> 40) & 0xff) as u8);
    r.push(((x >> 48) & 0xff) as u8);
    r.push(((x >> 56) & 0xff) as u8);
    proof {
        assert(r@ =~= le_bytes(x));
    }
    r
}

/// Reads the eight bytes starting at `start` as a little-endian integer.
pub fn le_to_u64(b: &Vec<u8>, start: usize) -> (r: u64)
    requires
        start + 8 <= b@.len(),
    ensures
        r == le_decode(b@.subrange(start as int, start as int + 8)),
{
    proof {
        vstd::std_specs::vec::axiom_spec_len(b);
    }
    let r = (b[start] as u64) | ((b[start + 1] as u64) << 8) | ((b[start + 2] as u64) << 16) | ((b[
        start + 3] as u64) << 24) | ((b[start + 4] as u64) << 32) | ((b[start + 5] as u64) << 40)
        | ((b[start + 6] as u64) << 48) | ((b[start + 7] as u64) << 56);
    proof {
        let s = b@.subrange(start as int, start as int + 8);
        assert(s.len() == 8);
        assert(s[0] == b@[start as int] && s[1] == b@[start as int + 1] && s[2] == b@[start as int
            + 2] && s[3] == b@[start as int + 3] && s[4] == b@[start as int + 4] && s[5] == b@[
        start as int + 5] && s[6] == b@[start as int + 6] && s[7] == b@[start as int + 7]);
    }
    r
}

} // verus!
