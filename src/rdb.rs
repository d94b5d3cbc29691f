use vstd::prelude::*;
use crate::checksum::{checksum, lemma_checksum_empty, running_checksum};
use crate::codec::le64;
use crate::error::RdbError;
use crate::frame::{end_of_file, header, header_bytes, trailer_bytes, EOF_OPCODE, MAX_VERSION};
use crate::record::{record_encoding, write_record};
use crate::segment::{fragments, lemma_blank_line_closes, segment_lines, texts};
use crate::toml_input::{parse_fragment, toml_document};

verus! {

/// The record bytes that the fragment `text` gives, or the error that stops
/// the pass there: `MalformedFragment` when it is not TOML,
/// `InvalidKeyedRecord` when it holds no key, and otherwise the record of its
/// first key, or `UnsupportedScalarKind` when a member has no text.
pub open spec fn fragment_output(text: Seq<char>) -> Result<Seq<u8>, RdbError> {
    match toml_document(text) {
        None => Err(RdbError::MalformedFragment),
        Some(entries) => if entries.len() == 0 {
            Err(RdbError::InvalidKeyedRecord)
        } else {
            match record_encoding(entries[0].0, entries[0].1) {
                Some(b) => Ok(b),
                None => Err(RdbError::UnsupportedScalarKind),
            }
        },
    }
}

/// The records written for a sequence of fragments, in order, up to the
/// first one that fails, and the error of that one.
pub open spec fn records_output(frags: Seq<Seq<char>>) -> (Seq<u8>, Option<RdbError>)
    decreases frags.len(),
{
    if frags.len() == 0 {
        (Seq::empty(), None)
    } else {
        let (bytes, err) = records_output(frags.drop_last());
        if err is Some {
            (bytes, err)
        } else {
            match fragment_output(frags.last()) {
                Ok(b) => (bytes + b, None),
                Err(e) => (bytes, Some(e)),
            }
        }
    }
}

/// The bytes of a whole pass over the fragments: the header, the records,
/// and, when no fragment failed, the trailer. On failure, the error.
pub open spec fn pass_output(version: u16, frags: Seq<Seq<char>>) -> (Seq<u8>, Option<RdbError>) {
    let (records, err) = records_output(frags);
    let before = header_bytes(version) + records;
    match err {
        None => (before + trailer_bytes(before), None),
        Some(e) => (before, Some(e)),
    }
}

/// Parses one fragment and writes the record of its first key, returning the
/// running checksum continued over it. On failure nothing is written.
pub fn write_to_rdb_bytes_from_string(out: &mut Vec<u8>, key_value_string: &str, crc: u64) -> (r: Result<u64, RdbError>)
    requires
        running_checksum(crc, old(out)@),
    ensures
        match fragment_output(key_value_string@) {
            Ok(b) => r matches Ok(c) && final(out)@ == old(out)@ + b && running_checksum(c, final(out)@)
                && c == checksum(final(out)@),
            Err(e) => r == Err::<u64, RdbError>(e) && final(out)@ == old(out)@,
        },
{
    match parse_fragment(key_value_string) {
        Ok((key, value)) => write_record(out, &key, &value, crc),
        Err(e) => Err(e),
    }
}

/// Once a prefix of the fragments fails, the fragments after it add nothing.
proof fn lemma_records_stop(frags: Seq<Seq<char>>, k: int)
    requires
        0 <= k <= frags.len(),
        records_output(frags.take(k)).1 is Some,
    ensures
        records_output(frags) == records_output(frags.take(k)),
    decreases frags.len(),
{
    if k == frags.len() {
        assert(frags.take(k) =~= frags);
    } else {
        assert(frags.drop_last().take(k) =~= frags.take(k));
        lemma_records_stop(frags.drop_last(), k);
    }
}

/// Converts the lines of a TOML document into an RDB snapshot of the given
/// version, appended to `out`. The lines are grouped into fragments, each
/// fragment's first entry becomes one record, and the checksum trailer
/// closes the file. The first failing fragment stops the pass: what was
/// written before it stays, and nothing follows.
pub fn rdb_from_buffer(lines: &Vec<String>, version: u16, out: &mut Vec<u8>) -> (r: Result<(), RdbError>)
    requires
        version <= MAX_VERSION,
    ensures
        final(out)@ == old(out)@ + pass_output(version, fragments(texts(lines@))).0,
        r == match pass_output(version, fragments(texts(lines@))).1 {
            None => Ok::<(), RdbError>(()),
            Some(e) => Err(e),
        },
{
    let frags = segment_lines(lines);
    let ghost all = texts(frags@);
    let mut buf: Vec<u8> = Vec::new();
    proof {
        lemma_checksum_empty();
    }
    let mut crc = header(&mut buf, 0, version);
    let mut i: usize = 0;
    while i < frags.len()
        invariant
            i <= frags@.len(),
            all == texts(frags@),
            all == fragments(texts(lines@)),
            records_output(all.take(i as int)).1 is None,
            buf@ == header_bytes(version) + records_output(all.take(i as int)).0,
            running_checksum(crc, buf@),
            version <= MAX_VERSION,
            out@ == old(out)@,
        decreases frags@.len() - i,
    {
        let step = write_to_rdb_bytes_from_string(&mut buf, frags[i].as_str(), crc);
        proof {
            assert(all.take(i as int + 1).drop_last() =~= all.take(i as int));
            assert(all.take(i as int + 1).last() == frags@[i as int]@);
        }
        match step {
            Ok(c) => {
                crc = c;
            },
            Err(e) => {
                proof {
                    lemma_records_stop(all, i as int + 1);
                }
                out.append(&mut buf);
                return Err(e);
            },
        }
        i = i + 1;
    }
    assert(all.take(i as int) =~= all);
    end_of_file(&mut buf, crc);
    out.append(&mut buf);
    Ok(())
}

/// The last eight bytes of a completed pass are the checksum, least
/// significant byte first, of every byte before them; the byte just before
/// them is the end opcode, which the checksum covers.
pub proof fn lemma_trailer_is_checksum(version: u16, frags: Seq<Seq<char>>)
    requires
        pass_output(version, frags).1 is None,
    ensures
        ({
            let w = pass_output(version, frags).0;
            &&& w.len() >= 20
            &&& w[w.len() - 9] == EOF_OPCODE
            &&& w.subrange(w.len() - 8, w.len() as int) == le64(checksum(w.subrange(0, w.len() - 8)))
        }),
{
    let before = header_bytes(version) + records_output(frags).0;
    let w = pass_output(version, frags).0;
    assert(w == before + trailer_bytes(before));
    assert(w.subrange(0, w.len() - 8) =~= before.push(EOF_OPCODE));
    assert(w.subrange(w.len() - 8, w.len() as int) =~= le64(checksum(before.push(EOF_OPCODE))));
}

/// Fragments that all give records leave no error, and their records in
/// order.
proof fn lemma_records_ok(frags: Seq<Seq<char>>)
    requires
        forall|j: int| 0 <= j < frags.len() ==> (#[trigger] fragment_output(frags[j])) is Ok,
    ensures
        records_output(frags).1 is None,
    decreases frags.len(),
{
    if frags.len() > 0 {
        let rest = frags.drop_last();
        assert forall|j: int| 0 <= j < rest.len() implies (#[trigger] fragment_output(rest[j])) is Ok by {
            assert(rest[j] == frags[j]);
        }
        lemma_records_ok(rest);
        assert(frags.last() == frags[frags.len() - 1]);
    }
}

/// A fragment that is not valid TOML ends the pass with `MalformedFragment`:
/// the output is the header and the records of the fragments before it, and
/// nothing of the fragments after it, nor a trailer.
pub proof fn lemma_malformed_stops(version: u16, frags: Seq<Seq<char>>, k: int)
    requires
        0 <= k < frags.len(),
        forall|j: int| 0 <= j < k ==> (#[trigger] fragment_output(frags[j])) is Ok,
        toml_document(frags[k]) is None,
    ensures
        pass_output(version, frags) == (
            header_bytes(version) + records_output(frags.take(k)).0,
            Some(RdbError::MalformedFragment),
        ),
{
    let pre = frags.take(k);
    assert forall|j: int| 0 <= j < pre.len() implies (#[trigger] fragment_output(pre[j])) is Ok by {
        assert(pre[j] == frags[j]);
    }
    lemma_records_ok(pre);
    assert(frags.take(k + 1).drop_last() =~= pre);
    assert(frags.take(k + 1).last() == frags[k]);
    lemma_records_stop(frags, k + 1);
}

/// A table block left open at the end of the input gives the same pass, bytes
/// and result, as the same input closed by a blank line.
pub proof fn lemma_end_of_input_flush(version: u16, lines: Seq<Seq<char>>)
    ensures
        pass_output(version, fragments(lines.push(Seq::empty()))) == pass_output(version, fragments(lines)),
{
    lemma_blank_line_closes(lines);
}

} // verus!
