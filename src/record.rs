use vstd::prelude::*;
use crate::checksum::{checksum, checksum_write, running_checksum};
use crate::codec::{encode_length, encode_string, length_encoding, string_encoding};
use crate::error::RdbError;
use crate::value::{string_from_toml_value, value_text, RecordValue, ValueModel};

verus! {

/// Type code of a string record.
pub const STRING_TYPECODE: u8 = 0x00;

/// Type code of a set record.
pub const SET_TYPECODE: u8 = 0x02;

/// Type code of a hash record.
pub const HASH_TYPECODE: u8 = 0x04;

/// The members of a set record: the text of each element, in order. `None`
/// when an element has no text.
pub open spec fn elements_encoding(items: Seq<Option<Seq<char>>>) -> Option<Seq<u8>>
    decreases items.len(),
{
    if items.len() == 0 {
        Some(Seq::empty())
    } else {
        match (elements_encoding(items.drop_last()), items.last()) {
            (Some(prefix), Some(t)) => Some(prefix + string_encoding(t)),
            _ => None,
        }
    }
}

/// The fields of a hash record: each key, then its value's text, in order.
/// `None` when a value has no text.
pub open spec fn fields_encoding(fields: Seq<(Seq<char>, Option<Seq<char>>)>) -> Option<Seq<u8>>
    decreases fields.len(),
{
    if fields.len() == 0 {
        Some(Seq::empty())
    } else {
        match (fields_encoding(fields.drop_last()), fields.last().1) {
            (Some(prefix), Some(t)) => Some(prefix + string_encoding(fields.last().0) + string_encoding(t)),
            _ => None,
        }
    }
}

/// The bytes of the record that stores a value of model `value` under `key`:
/// a scalar as a string, an array as a set, a table as a hash. `None` when a
/// member has no text.
pub open spec fn record_encoding(key: Seq<char>, value: ValueModel) -> Option<Seq<u8>> {
    match value {
        ValueModel::Scalar(t) => Some(
            seq![STRING_TYPECODE] + string_encoding(key) + string_encoding(t),
        ),
        ValueModel::List(items) => match elements_encoding(items) {
            Some(body) => Some(
                seq![SET_TYPECODE] + string_encoding(key) + length_encoding(items.len() as u64) + body,
            ),
            None => None,
        },
        ValueModel::Table(fields) => match fields_encoding(fields) {
            Some(body) => Some(
                seq![HASH_TYPECODE] + string_encoding(key) + length_encoding(fields.len() as u64) + body,
            ),
            None => None,
        },
    }
}

/// The bytes of a string record.
fn string_record(key: &String, text: &String) -> (r: Vec<u8>)
    ensures
        r@ == seq![STRING_TYPECODE] + string_encoding(key@) + string_encoding(text@),
{
    let mut bytes: Vec<u8> = Vec::new();
    bytes.push(STRING_TYPECODE);
    let mut k = encode_string(key);
    bytes.append(&mut k);
    let mut t = encode_string(text);
    bytes.append(&mut t);
    assert(bytes@ =~= seq![STRING_TYPECODE] + string_encoding(key@) + string_encoding(text@));
    bytes
}

/// The bytes of a set record whose members are the elements of `items`.
fn set_record(key: &String, items: &Vec<RecordValue>) -> (r: Result<Vec<u8>, RdbError>)
    ensures
        match elements_encoding(items@.map_values(|v: RecordValue| value_text(v))) {
            Some(body) => r matches Ok(b) && b@ == seq![SET_TYPECODE] + string_encoding(key@)
                + length_encoding(items@.len() as u64) + body,
            None => r == Err::<Vec<u8>, RdbError>(RdbError::UnsupportedScalarKind),
        },
{
    let mut bytes: Vec<u8> = Vec::new();
    bytes.push(SET_TYPECODE);
    let mut k = encode_string(key);
    bytes.append(&mut k);
    let mut n = encode_length(items.len() as u64);
    bytes.append(&mut n);
    let ghost head = bytes@;
    let mut i: usize = 0;
    while i < items.len()
        invariant
            i <= items@.len(),
            head == seq![SET_TYPECODE] + string_encoding(key@) + length_encoding(items@.len() as u64),
            elements_encoding(items@.map_values(|v: RecordValue| value_text(v)).subrange(0, i as int)) matches Some(body)
                && bytes@ == head + body,
        decreases items@.len() - i,
    {
        let ghost texts = items@.map_values(|v: RecordValue| value_text(v));
        let ghost done = texts.subrange(0, i as int);
        let ghost next = texts.subrange(0, i as int + 1);
        assert(next.last() == value_text(items@[i as int]));
        assert(next.drop_last() =~= done);
        let text = match string_from_toml_value(&items[i]) {
            Ok(t) => t,
            Err(e) => {
                proof {
                    lemma_elements_unsupported(texts, i as int);
                }
                return Err(e);
            },
        };
        let mut s = encode_string(&text);
        bytes.append(&mut s);
        i = i + 1;
        assert(bytes@ =~= head + elements_encoding(next)->Some_0);
    }
    assert(items@.map_values(|v: RecordValue| value_text(v)).subrange(0, i as int)
        =~= items@.map_values(|v: RecordValue| value_text(v)));
    Ok(bytes)
}

/// An element with no text form leaves the whole set without an encoding.
proof fn lemma_elements_unsupported(items: Seq<Option<Seq<char>>>, i: int)
    requires
        0 <= i < items.len(),
        items[i] is None,
    ensures
        elements_encoding(items) is None,
    decreases items.len(),
{
    if i < items.len() - 1 {
        lemma_elements_unsupported(items.drop_last(), i);
    }
}

/// The bytes of a hash record whose fields are those of `fields`.
fn hash_record(key: &String, fields: &Vec<(String, RecordValue)>) -> (r: Result<Vec<u8>, RdbError>)
    ensures
        match fields_encoding(fields@.map_values(|f: (String, RecordValue)| (f.0@, value_text(f.1)))) {
            Some(body) => r matches Ok(b) && b@ == seq![HASH_TYPECODE] + string_encoding(key@)
                + length_encoding(fields@.len() as u64) + body,
            None => r == Err::<Vec<u8>, RdbError>(RdbError::UnsupportedScalarKind),
        },
{
    let mut bytes: Vec<u8> = Vec::new();
    bytes.push(HASH_TYPECODE);
    let mut k = encode_string(key);
    bytes.append(&mut k);
    let mut n = encode_length(fields.len() as u64);
    bytes.append(&mut n);
    let ghost head = bytes@;
    let mut i: usize = 0;
    while i < fields.len()
        invariant
            i <= fields@.len(),
            head == seq![HASH_TYPECODE] + string_encoding(key@) + length_encoding(fields@.len() as u64),
            fields_encoding(fields@.map_values(|f: (String, RecordValue)| (f.0@, value_text(f.1))).subrange(0, i as int))
                matches Some(body) && bytes@ == head + body,
        decreases fields@.len() - i,
    {
        let ghost texts = fields@.map_values(|f: (String, RecordValue)| (f.0@, value_text(f.1)));
        let ghost done = texts.subrange(0, i as int);
        let ghost next = texts.subrange(0, i as int + 1);
        assert(next.last() == (fields@[i as int].0@, value_text(fields@[i as int].1)));
        assert(next.drop_last() =~= done);
        let field = &fields[i];
        let text = match string_from_toml_value(&field.1) {
            Ok(t) => t,
            Err(e) => {
                proof {
                    lemma_fields_unsupported(texts, i as int);
                }
                return Err(e);
            },
        };
        let mut fk = encode_string(&field.0);
        bytes.append(&mut fk);
        let mut fv = encode_string(&text);
        bytes.append(&mut fv);
        i = i + 1;
        assert(bytes@ =~= head + fields_encoding(next)->Some_0);
    }
    assert(fields@.map_values(|f: (String, RecordValue)| (f.0@, value_text(f.1))).subrange(0, i as int)
        =~= fields@.map_values(|f: (String, RecordValue)| (f.0@, value_text(f.1))));
    Ok(bytes)
}

/// A field with no text form leaves the whole hash without an encoding.
proof fn lemma_fields_unsupported(fields: Seq<(Seq<char>, Option<Seq<char>>)>, i: int)
    requires
        0 <= i < fields.len(),
        fields[i].1 is None,
    ensures
        fields_encoding(fields) is None,
    decreases fields.len(),
{
    if i < fields.len() - 1 {
        lemma_fields_unsupported(fields.drop_last(), i);
    }
}

/// Writes the record that stores `value` under `key`, and returns the running
/// checksum continued over it. When a member has no text form nothing is
/// written.
pub fn write_record(out: &mut Vec<u8>, key: &String, value: &RecordValue, crc: u64) -> (r: Result<u64, RdbError>)
    requires
        running_checksum(crc, old(out)@),
    ensures
        match record_encoding(key@, value@) {
            Some(b) => r matches Ok(c) && final(out)@ == old(out)@ + b
                && running_checksum(c, final(out)@) && c == checksum(final(out)@),
            None => r == Err::<u64, RdbError>(RdbError::UnsupportedScalarKind)
                && final(out)@ == old(out)@,
        },
{
    let bytes = match value {
        RecordValue::Scalar(_) => {
            let text = match string_from_toml_value(value) {
                Ok(t) => t,
                Err(e) => return Err(e),
            };
            string_record(key, &text)
        },
        RecordValue::List(items) => match set_record(key, items) {
            Ok(b) => b,
            Err(e) => return Err(e),
        },
        RecordValue::Table(fields) => match hash_record(key, fields) {
            Ok(b) => b,
            Err(e) => return Err(e),
        },
    };
    Ok(checksum_write(out, bytes.as_slice(), crc))
}

} // verus!
