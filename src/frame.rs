use vstd::prelude::*;
use crate::checksum::{checksum, checksum_write, running_checksum};
use crate::codec::{byte_at, le64};

verus! {

/// Opcode that selects the database the following records go to.
pub const SELECT_DB_OPCODE: u8 = 0xfe;

/// Opcode that ends the records; the checksum follows it.
pub const EOF_OPCODE: u8 = 0xff;

/// The highest version that four decimal digits can show.
pub const MAX_VERSION: u16 = 9999;

/// The ASCII byte of the decimal digit `d`.
pub open spec fn ascii_digit(d: u16) -> u8 {
    (0x30 + d) as u8
}

/// The file header: "REDIS", the version as four zero-padded decimal
/// digits, then a selection of database zero.
pub open spec fn header_bytes(version: u16) -> Seq<u8> {
    seq![0x52u8, 0x45u8, 0x44u8, 0x49u8, 0x53u8]
        + seq![
            ascii_digit((version / 1000) % 10),
            ascii_digit((version / 100) % 10),
            ascii_digit((version / 10) % 10),
            ascii_digit(version % 10),
        ]
        + seq![SELECT_DB_OPCODE, 0x00u8]
}

/// The file trailer written after the stream `before`: the end opcode, then
/// the checksum of everything up to and including that opcode, least
/// significant byte first.
pub open spec fn trailer_bytes(before: Seq<u8>) -> Seq<u8> {
    seq![EOF_OPCODE] + le64(checksum(before.push(EOF_OPCODE)))
}

/// Writes the file header and returns the running checksum continued over it.
pub fn header(out: &mut Vec<u8>, crc: u64, version: u16) -> (r: u64)
    requires
        running_checksum(crc, old(out)@),
        version <= MAX_VERSION,
    ensures
        final(out)@ == old(out)@ + header_bytes(version),
        running_checksum(r, final(out)@),
        r == checksum(final(out)@),
{
    let mut bytes: Vec<u8> = vec![0x52u8, 0x45u8, 0x44u8, 0x49u8, 0x53u8];
    bytes.push(0x30u8 + ((version / 1000) % 10) as u8);
    bytes.push(0x30u8 + ((version / 100) % 10) as u8);
    bytes.push(0x30u8 + ((version / 10) % 10) as u8);
    bytes.push(0x30u8 + (version % 10) as u8);
    bytes.push(SELECT_DB_OPCODE);
    bytes.push(0x00u8);
    assert(bytes@ =~= header_bytes(version));
    checksum_write(out, bytes.as_slice(), crc)
}

/// Writes the end opcode through the checksum, then the final checksum
/// itself, least significant byte first.
pub fn end_of_file(out: &mut Vec<u8>, crc: u64)
    requires
        running_checksum(crc, old(out)@),
    ensures
        final(out)@ == old(out)@ + trailer_bytes(old(out)@),
{
    let marker: Vec<u8> = vec![EOF_OPCODE];
    let c = checksum_write(out, marker.as_slice(), crc);
    assert(old(out)@ + marker@ =~= old(out)@.push(EOF_OPCODE));
    let ghost mid = out@;
    out.push((c & 0xff) as u8);
    out.push(((c >> 8u64) & 0xff) as u8);
    out.push(((c >> 16u64) & 0xff) as u8);
    out.push(((c >> 24u64) & 0xff) as u8);
    out.push(((c >> 32u64) & 0xff) as u8);
    out.push(((c >> 40u64) & 0xff) as u8);
    out.push(((c >> 48u64) & 0xff) as u8);
    out.push(((c >> 56u64) & 0xff) as u8);
    assert(c >> 0u64 == c) by (bit_vector);
    assert(out@ =~= mid + le64(c));
    assert(final(out)@ =~= old(out)@ + trailer_bytes(old(out)@));
}

/// The header is "REDIS", four ASCII digits that read as the version in
/// decimal, the select-database opcode and database zero.
pub proof fn lemma_header_layout(version: u16)
    requires
        version <= MAX_VERSION,
    ensures
        header_bytes(version).len() == 11,
        header_bytes(version).subrange(0, 5) == seq![0x52u8, 0x45u8, 0x44u8, 0x49u8, 0x53u8],
        forall|i: int| 5 <= i < 9 ==> 0x30 <= #[trigger] header_bytes(version)[i] <= 0x39,
        (header_bytes(version)[5] - 0x30) * 1000 + (header_bytes(version)[6] - 0x30) * 100
            + (header_bytes(version)[7] - 0x30) * 10 + (header_bytes(version)[8] - 0x30) == version,
        header_bytes(version)[9] == SELECT_DB_OPCODE,
        header_bytes(version)[10] == 0x00,
{
    let h = header_bytes(version);
    assert(h.subrange(0, 5) =~= seq![0x52u8, 0x45u8, 0x44u8, 0x49u8, 0x53u8]);
    assert(h[5] == 0x30 + (version / 1000) % 10);
    assert(h[6] == 0x30 + (version / 100) % 10);
    assert(h[7] == 0x30 + (version / 10) % 10);
    assert(h[8] == 0x30 + version % 10);
    assert(((version / 1000) % 10) * 1000 + ((version / 100) % 10) * 100 + ((version / 10) % 10) * 10
        + version % 10 == version) by (nonlinear_arith)
        requires version <= 9999;
}

} // verus!
