//! Big-endian integers on the wire, and the errors of the codec.

use vstd::prelude::*;

verus! {

/// Why a packet could not be decoded or a message could not be encoded.
#[derive(Debug, Clone, Copy, PartialEq, Eq, Structural)]
pub enum DnsError {
    /// The header is not exactly twelve bytes, or a flag field holds a value
    /// that has no meaning.
    MalformedHeader,
    /// A resource type or class code outside the known enumerations.
    UnknownResourceCode,
    /// A record runs past the end of the packet.
    TruncatedRecord,
    /// A name runs past the end of the packet, or holds a compression
    /// pointer that does not point back to an earlier name.
    UnresolvableName,
    /// The upstream resolver could not be reached or did not reply.
    UpstreamUnavailable,
    /// A label is empty or longer than 63 bytes, so it has no wire form.
    InvalidLabel,
    /// The encoded message does not fit in a 512-byte datagram.
    MessageTooLong,
}

/// The 16-bit big-endian integer stored at `b[i]`, `b[i + 1]`.
pub open spec fn be16_at(b: Seq<u8>, i: int) -> int {
    b[i] as int * 256 + b[i + 1] as int
}

/// The 32-bit big-endian integer stored at `b[i]` .. `b[i + 3]`.
pub open spec fn be32_at(b: Seq<u8>, i: int) -> int {
    be16_at(b, i) * 65536 + be16_at(b, i + 2)
}

/// The two bytes of `x` in big-endian order.
pub open spec fn be16_bytes(x: u16) -> Seq<u8> {
    seq![(x / 256) as u8, (x % 256) as u8]
}

/// The four bytes of `x` in big-endian order.
pub open spec fn be32_bytes(x: u32) -> Seq<u8> {
    be16_bytes((x / 65536) as u16) + be16_bytes((x % 65536) as u16)
}

/// Reading back the bytes of a 16-bit integer gives the integer.
pub proof fn lemma_be16_round_trip(x: u16, prefix: Seq<u8>, suffix: Seq<u8>)
    ensures
        be16_at(prefix + be16_bytes(x) + suffix, prefix.len() as int) == x as int,
{
    let b = prefix + be16_bytes(x) + suffix;
    assert(b[prefix.len() as int] == (x / 256) as u8);
    assert(b[prefix.len() as int + 1] == (x % 256) as u8);
}

/// Reads the 16-bit big-endian integer at `b[i]`.
pub fn read_be16(b: &[u8], i: usize) -> (r: u16)
    requires
        i + 1 < b.len(),
    ensures
        r as int == be16_at(b@, i as int),
{
    let hi = b[i] as u16;
    let lo = b[i + 1] as u16;
    hi * 256 + lo
}

/// Reads the 32-bit big-endian integer at `b[i]`.
pub fn read_be32(b: &[u8], i: usize) -> (r: u32)
    requires
        i + 3 < b.len(),
    ensures
        r as int == be32_at(b@, i as int),
{
    let hi = read_be16(b, i) as u32;
    let lo = read_be16(b, i + 2) as u32;
    hi * 65536 + lo
}

/// Appends the two big-endian bytes of `x` to `out`.
pub fn push_be16(out: &mut Vec<u8>, x: u16)
    ensures
        final(out)@ == old(out)@ + be16_bytes(x),
{
    out.push((x / 256) as u8);
    out.push((x % 256) as u8);
    assert(final(out)@ =~= old(out)@ + be16_bytes(x));
}

/// Appends the four big-endian bytes of `x` to `out`.
pub fn push_be32(out: &mut Vec<u8>, x: u32)
    ensures
        final(out)@ == old(out)@ + be32_bytes(x),
{
    push_be16(out, (x / 65536) as u16);
    push_be16(out, (x % 65536) as u16);
    assert(final(out)@ =~= old(out)@ + be32_bytes(x));
}

/// Appends the bytes of `b` to `out`.
pub fn push_all(out: &mut Vec<u8>, b: &[u8])
    ensures
        final(out)@ == old(out)@ + b@,
{
    let mut i: usize = 0;
    while i < b.len()
        invariant
            i <= b@.len(),
            out@ == old(out)@ + b@.subrange(0, i as int),
        decreases b@.len() - i,
    {
        out.push(b[i]);
        i = i + 1;
        assert(out@ =~= old(out)@ + b@.subrange(0, i as int));
    }
    assert(b@.subrange(0, i as int) =~= b@);
}

} // verus!
