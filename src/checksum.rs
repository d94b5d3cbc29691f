use vstd::prelude::*;

verus! {

/// The CRC-64 (Jones coefficients, as Redis uses) of `data`, continuing
/// from the running value `start`.
pub uninterp spec fn crc64_of(start: u64, data: Seq<u8>) -> u64;

/// The checksum of a whole byte stream: the running value starts at zero.
pub open spec fn checksum(data: Seq<u8>) -> u64 {
    crc64_of(0, data)
}

/// `crc` is the running checksum of `data`: continuing it over more bytes
/// gives the checksum of the longer stream.
pub open spec fn running_checksum(crc: u64, data: Seq<u8>) -> bool {
    forall|more: Seq<u8>| #[trigger] crc64_of(crc, more) == checksum(data + more)
}

/// Relies on `crc64::crc64`, which folds `data` byte by byte into the running
/// value `crc`: continuing from its result over more bytes is the same as
/// continuing from `crc` over both parts.
#[verifier::external_body]
fn crc64_update(crc: u64, data: &[u8]) -> (r: u64)
    ensures
        r == crc64_of(crc, data@),
        forall|more: Seq<u8>| #[trigger] crc64_of(r, more) == crc64_of(crc, data@ + more),
{
    crc64::crc64(crc, data)
}

/// Zero is the running checksum of the empty stream.
pub proof fn lemma_checksum_empty()
    ensures
        running_checksum(0, Seq::<u8>::empty()),
{
    assert forall|more: Seq<u8>| #[trigger] crc64_of(0, more) == checksum(Seq::<u8>::empty() + more) by {
        assert(Seq::<u8>::empty() + more =~= more);
    }
}

/// Writes `bytes` to `out` and returns the running checksum continued over them.
pub fn checksum_write(out: &mut Vec<u8>, bytes: &[u8], start_crc: u64) -> (r: u64)
    requires
        running_checksum(start_crc, old(out)@),
    ensures
        final(out)@ == old(out)@ + bytes@,
        running_checksum(r, final(out)@),
        r == checksum(final(out)@),
{
    let ghost before = out@;
    let mut i: usize = 0;
    while i < bytes.len()
        invariant
            out@ == before + bytes@.subrange(0, i as int),
            i <= bytes@.len(),
        decreases bytes@.len() - i,
    {
        out.push(bytes[i]);
        i = i + 1;
        assert(out@ =~= before + bytes@.subrange(0, i as int));
    }
    assert(bytes@.subrange(0, i as int) =~= bytes@);
    let r = crc64_update(start_crc, bytes);
    proof {
        assert(r == checksum(before + bytes@));
        assert(before + bytes@ == out@);
        assert forall|more: Seq<u8>| #[trigger] crc64_of(r, more) == checksum(out@ + more) by {
            assert(crc64_of(start_crc, bytes@ + more) == checksum(before + (bytes@ + more)));
            assert(before + (bytes@ + more) =~= out@ + more);
        }
    }
    r
}

} // verus!
