use rdbdump::{
    encode_length, encode_string, end_of_file, get_major_version, get_redis_version, header,
    parse_fragment, rdb_from_buffer, segment_lines, string_from_toml_value, write_record,
    write_to_rdb_bytes_from_string, RdbError, RecordValue, Scalar, DEFAULT_REDIS_VERSION,
};

fn lines(text: &[&str]) -> Vec<String> {
    text.iter().map(|s| s.to_string()).collect()
}

fn enc_str(s: &str) -> Vec<u8> {
    encode_string(&s.to_string())
}

fn header_bytes(version: &str) -> Vec<u8> {
    let mut h = b"REDIS".to_vec();
    h.extend_from_slice(version.as_bytes());
    h.extend_from_slice(&[0xfe, 0x00]);
    h
}

fn with_trailer(mut body: Vec<u8>) -> Vec<u8> {
    body.push(0xff);
    let crc = crc64::crc64(0, &body);
    body.extend_from_slice(&crc.to_le_bytes());
    body
}

#[test]
fn header_is_redis_and_padded_version() {
    let mut out = Vec::new();
    let crc = header(&mut out, 0, 7);
    assert_eq!(out, header_bytes("0007"));
    assert_eq!(crc, crc64::crc64(0, &out));
    let mut out = Vec::new();
    header(&mut out, 0, 9999);
    assert_eq!(out, header_bytes("9999"));
    let mut out = Vec::new();
    header(&mut out, 0, 0);
    assert_eq!(out, header_bytes("0000"));
    let mut out = Vec::new();
    header(&mut out, 0, 42);
    assert_eq!(out, header_bytes("0042"));
}

#[test]
fn length_encoding_boundaries() {
    assert_eq!(encode_length(0), vec![0x00]);
    assert_eq!(encode_length(63), vec![63]);
    assert_eq!(encode_length(64), vec![0x40, 64]);
    assert_eq!(encode_length(300), vec![0x41, 0x2c]);
    assert_eq!(encode_length(16383), vec![0x7f, 0xff]);
    assert_eq!(encode_length(16384), vec![0x80, 0x00, 0x00, 0x40, 0x00]);
    assert_eq!(encode_length((1u64 << 32) - 2), vec![0x80, 0xff, 0xff, 0xff, 0xfe]);
    assert_eq!(
        encode_length((1u64 << 32) - 1),
        vec![0x81, 0, 0, 0, 0, 0xff, 0xff, 0xff, 0xff]
    );
    assert_eq!(
        encode_length(u64::MAX),
        vec![0x81, 0xff, 0xff, 0xff, 0xff, 0xff, 0xff, 0xff, 0xff]
    );
}

#[test]
fn string_encoding_prefixes_byte_length() {
    assert_eq!(enc_str("ada"), vec![3, b'a', b'd', b'a']);
    assert_eq!(enc_str(""), vec![0]);
    assert_eq!(enc_str("é"), vec![2, 0xc3, 0xa9]);
    let long = "x".repeat(100);
    let mut expected = vec![0x40, 100];
    expected.extend_from_slice(long.as_bytes());
    assert_eq!(enc_str(&long), expected);
}

#[test]
fn end_of_file_appends_marker_and_checksum() {
    let mut out = Vec::new();
    let crc = header(&mut out, 0, 7);
    end_of_file(&mut out, crc);
    assert_eq!(out, with_trailer(header_bytes("0007")));
}

#[test]
fn trailer_is_checksum_of_everything_before() {
    let mut out = Vec::new();
    let r = rdb_from_buffer(&lines(&["name = \"ada\"", "n = 3"]), 7, &mut out);
    assert_eq!(r, Ok(()));
    let n = out.len();
    assert_eq!(out[n - 9], 0xff);
    let crc = crc64::crc64(0, &out[..n - 8]);
    assert_eq!(&out[n - 8..], &crc.to_le_bytes());
}

#[test]
fn scalar_record_shape() {
    let mut out = Vec::new();
    let r = rdb_from_buffer(&lines(&["name = \"ada\""]), 7, &mut out);
    assert_eq!(r, Ok(()));
    let mut body = header_bytes("0007");
    body.push(0x00);
    body.extend(enc_str("name"));
    body.extend(enc_str("ada"));
    assert_eq!(out, with_trailer(body));
}

#[test]
fn table_record_shape() {
    let mut out = Vec::new();
    let input = lines(&["[person]", "age = 30", "city = \"nyc\"", ""]);
    let r = rdb_from_buffer(&input, 7, &mut out);
    assert_eq!(r, Ok(()));
    let mut body = header_bytes("0007");
    body.push(0x04);
    body.extend(enc_str("person"));
    body.extend(encode_length(2));
    body.extend(enc_str("age"));
    body.extend(enc_str("30"));
    body.extend(enc_str("city"));
    body.extend(enc_str("nyc"));
    assert_eq!(out, with_trailer(body));
}

#[test]
fn table_fields_keep_declaration_order() {
    let mut out = Vec::new();
    let input = lines(&["[t]", "zeta = 1", "alpha = 2", ""]);
    assert_eq!(rdb_from_buffer(&input, 7, &mut out), Ok(()));
    let mut body = header_bytes("0007");
    body.push(0x04);
    body.extend(enc_str("t"));
    body.extend(encode_length(2));
    body.extend(enc_str("zeta"));
    body.extend(enc_str("1"));
    body.extend(enc_str("alpha"));
    body.extend(enc_str("2"));
    assert_eq!(out, with_trailer(body));
}

#[test]
fn list_record_shape_keeps_duplicates() {
    let mut out = Vec::new();
    let r = rdb_from_buffer(&lines(&["tags = [\"a\",\"b\",\"a\"]"]), 7, &mut out);
    assert_eq!(r, Ok(()));
    let mut body = header_bytes("0007");
    body.push(0x02);
    body.extend(enc_str("tags"));
    body.extend(encode_length(3));
    body.extend(enc_str("a"));
    body.extend(enc_str("b"));
    body.extend(enc_str("a"));
    assert_eq!(out, with_trailer(body));
}

#[test]
fn open_table_block_is_flushed_at_end_of_input() {
    let mut out = Vec::new();
    let input = lines(&["[person]", "age = 30", "city = \"nyc\""]);
    assert_eq!(rdb_from_buffer(&input, 7, &mut out), Ok(()));
    let mut closed = Vec::new();
    let input = lines(&["[person]", "age = 30", "city = \"nyc\"", ""]);
    assert_eq!(rdb_from_buffer(&input, 7, &mut closed), Ok(()));
    assert_eq!(out, closed);
}

#[test]
fn malformed_fragment_stops_the_pass() {
    let mut out = Vec::new();
    let input = lines(&["a = 1", "this is = = not toml", "b = 2"]);
    let r = rdb_from_buffer(&input, 7, &mut out);
    assert_eq!(r, Err(RdbError::MalformedFragment));
    let mut expected = header_bytes("0007");
    expected.push(0x00);
    expected.extend(enc_str("a"));
    expected.extend(enc_str("1"));
    assert_eq!(out, expected);
}

#[test]
fn fragment_without_key_is_invalid() {
    let mut out = Vec::new();
    let r = rdb_from_buffer(&lines(&["# only a comment"]), 7, &mut out);
    assert_eq!(r, Err(RdbError::InvalidKeyedRecord));
    assert_eq!(out, header_bytes("0007"));
}

#[test]
fn nested_array_is_unsupported() {
    let mut out = Vec::new();
    let r = rdb_from_buffer(&lines(&["x = [[1, 2], [3]]"]), 7, &mut out);
    assert_eq!(r, Err(RdbError::UnsupportedScalarKind));
    assert_eq!(out, header_bytes("0007"));
}

#[test]
fn list_of_tables_is_unsupported() {
    let mut out = Vec::new();
    let r = rdb_from_buffer(&lines(&["a = 1", "x = [{ a = 1 }]", "b = 2"]), 7, &mut out);
    assert_eq!(r, Err(RdbError::UnsupportedScalarKind));
    let mut expected = header_bytes("0007");
    expected.push(0x00);
    expected.extend(enc_str("a"));
    expected.extend(enc_str("1"));
    assert_eq!(out, expected);
}

#[test]
fn nested_table_in_table_is_unsupported() {
    let mut out = Vec::new();
    let r = rdb_from_buffer(&lines(&["[t]", "inner = { a = 1 }"]), 7, &mut out);
    assert_eq!(r, Err(RdbError::UnsupportedScalarKind));
}

#[test]
fn output_is_appended_to_existing_bytes() {
    let mut out = vec![1, 2, 3];
    assert_eq!(rdb_from_buffer(&lines(&[]), 7, &mut out), Ok(()));
    let mut expected = vec![1, 2, 3];
    expected.extend(with_trailer(header_bytes("0007")));
    assert_eq!(out, expected);
}

#[test]
fn scalars_are_stringified() {
    let text = |v: RecordValue| string_from_toml_value(&v).unwrap();
    assert_eq!(text(RecordValue::Scalar(Scalar::Integer(-42))), "-42");
    assert_eq!(text(RecordValue::Scalar(Scalar::Integer(0))), "0");
    assert_eq!(text(RecordValue::Scalar(Scalar::Integer(i64::MIN))), i64::MIN.to_string());
    assert_eq!(text(RecordValue::Scalar(Scalar::Integer(i64::MAX))), i64::MAX.to_string());
    assert_eq!(text(RecordValue::Scalar(Scalar::Boolean(true))), "true");
    assert_eq!(text(RecordValue::Scalar(Scalar::Boolean(false))), "false");
    assert_eq!(text(RecordValue::Scalar(Scalar::Text("hi".to_string()))), "hi");
    assert_eq!(
        string_from_toml_value(&RecordValue::List(Vec::new())),
        Err(RdbError::UnsupportedScalarKind)
    );
    assert_eq!(
        string_from_toml_value(&RecordValue::Table(Vec::new())),
        Err(RdbError::UnsupportedScalarKind)
    );
}

#[test]
fn parsed_scalars_take_their_default_text() {
    let check = |src: &str, key: &str, expected: &str| {
        let (k, v) = parse_fragment(src).unwrap();
        assert_eq!(k, key);
        assert_eq!(string_from_toml_value(&v).unwrap(), expected);
    };
    check("f = 1.5", "f", "1.5");
    check("i = 30", "i", "30");
    check("b = true", "b", "true");
    check("s = \"nyc\"", "s", "nyc");
    check("d = 1979-05-27", "d", "1979-05-27");
    check("t = 1979-05-27T07:32:00Z", "t", "1979-05-27T07:32:00Z");
}

#[test]
fn parse_fragment_errors() {
    assert_eq!(parse_fragment("= =").err(), Some(RdbError::MalformedFragment));
    assert_eq!(parse_fragment("").err(), Some(RdbError::InvalidKeyedRecord));
    match parse_fragment("[t]\na = 1\nb = [1]") {
        Ok((k, RecordValue::Table(fields))) => {
            assert_eq!(k, "t");
            assert_eq!(fields.len(), 2);
            assert_eq!(fields[0].0, "a");
            assert!(matches!(fields[1].1, RecordValue::List(_)));
        }
        _ => panic!("expected a table"),
    }
}

#[test]
fn write_record_writes_through_checksum() {
    let mut out = Vec::new();
    let crc = header(&mut out, 0, 7);
    let value = RecordValue::List(vec![
        RecordValue::Scalar(Scalar::Integer(1)),
        RecordValue::Scalar(Scalar::Boolean(false)),
    ]);
    let crc = write_record(&mut out, &"k".to_string(), &value, crc).unwrap();
    let mut expected = header_bytes("0007");
    expected.push(0x02);
    expected.extend(enc_str("k"));
    expected.push(2);
    expected.extend(enc_str("1"));
    expected.extend(enc_str("false"));
    assert_eq!(out, expected);
    assert_eq!(crc, crc64::crc64(0, &out));
    let bad = RecordValue::List(vec![RecordValue::List(Vec::new())]);
    let before = out.clone();
    assert_eq!(
        write_record(&mut out, &"k".to_string(), &bad, crc),
        Err(RdbError::UnsupportedScalarKind)
    );
    assert_eq!(out, before);
}

#[test]
fn write_fragment_from_text() {
    let mut out = Vec::new();
    let crc = header(&mut out, 0, 7);
    let crc = write_to_rdb_bytes_from_string(&mut out, "name = \"ada\"", crc).unwrap();
    assert_eq!(crc, crc64::crc64(0, &out));
    assert_eq!(
        write_to_rdb_bytes_from_string(&mut out, "name = ", crc),
        Err(RdbError::MalformedFragment)
    );
}

#[test]
fn segmenter_groups_lines() {
    let input = lines(&[
        "", "a = 1", "[t]", "x = 1", "", "", "b = 2", "[u]", "[v]", "y = 2",
    ]);
    let frags = segment_lines(&input);
    assert_eq!(frags, vec!["a = 1", "[t]\nx = 1", "b = 2", "[u]\n[v]\ny = 2"]);
}

#[test]
fn header_line_pattern() {
    let frags = segment_lines(&lines(&["[a b]", "[]", "[[x]]", "[ok] # c", "[a]x", "[ok]", "k = 1"]));
    assert_eq!(frags, vec!["[a b]", "[]", "[[x]]", "[ok] # c", "[a]x", "[ok]\nk = 1"]);
}

#[test]
fn major_version_from_string() {
    assert_eq!(get_major_version("7.2.4"), 7);
    assert_eq!(get_major_version("12"), 12);
    assert_eq!(get_major_version("6.0"), 6);
    assert_eq!(get_major_version("255.1"), 255);
    assert_eq!(get_major_version("256"), DEFAULT_REDIS_VERSION);
    assert_eq!(get_major_version("abc"), DEFAULT_REDIS_VERSION);
    assert_eq!(get_major_version(""), DEFAULT_REDIS_VERSION);
    assert_eq!(get_major_version("v7"), DEFAULT_REDIS_VERSION);
}

#[test]
fn redis_version_defaults() {
    assert_eq!(get_redis_version(None), 7);
    assert_eq!(get_redis_version(Some("11.0.1")), 11);
}

#[test]
fn error_messages() {
    assert!(!RdbError::MalformedFragment.message().is_empty());
    assert!(!RdbError::InvalidKeyedRecord.message().is_empty());
    assert!(!RdbError::UnsupportedScalarKind.message().is_empty());
}

#[test]
fn malformed_middle_line_stops_after_first_record() {
    let mut out = Vec::new();
    let r = rdb_from_buffer(&lines(&["a = 1", "b =", "c = 3"]), 7, &mut out);
    assert_eq!(r, Err(RdbError::MalformedFragment));
    let mut expected = header_bytes("0007");
    expected.extend_from_slice(&[0x00, 0x01, b'a', 0x01, b'1']);
    assert_eq!(out, expected);
}

#[test]
fn blank_lines_outside_blocks_are_ignored() {
    let mut out = Vec::new();
    let r = rdb_from_buffer(&lines(&["a = 1", "", "", "b = 2"]), 7, &mut out);
    assert_eq!(r, Ok(()));
    let mut body = header_bytes("0007");
    body.extend_from_slice(&[0x00, 0x01, b'a', 0x01, b'1', 0x00, 0x01, b'b', 0x01, b'2']);
    assert_eq!(out, with_trailer(body));
}

#[test]
fn header_line_inside_block_is_appended() {
    let mut out = Vec::new();
    let r = rdb_from_buffer(&lines(&["[a]", "x = 1", "[b]", "y = 2"]), 7, &mut out);
    assert_eq!(r, Ok(()));
    let mut body = header_bytes("0007");
    body.extend_from_slice(&[0x04, 0x01, b'a', 0x01, 0x01, b'x', 0x01, b'1']);
    assert_eq!(out, with_trailer(body));
}

#[test]
fn comment_only_fragment_writes_nothing() {
    let mut out = Vec::new();
    let crc = header(&mut out, 0, 7);
    let before = out.clone();
    assert_eq!(
        write_to_rdb_bytes_from_string(&mut out, "# only a comment", crc),
        Err(RdbError::InvalidKeyedRecord)
    );
    assert_eq!(out, before);
}

#[test]
fn fragment_record_is_for_first_key() {
    let mut out = Vec::new();
    let crc = header(&mut out, 0, 7);
    let start = out.len();
    let c = write_to_rdb_bytes_from_string(&mut out, "[person]\nage = 30\ncity = \"nyc\"", crc).unwrap();
    let mut rec = vec![0x04];
    rec.extend(enc_str("person"));
    rec.push(2);
    rec.extend(enc_str("age"));
    rec.extend(enc_str("30"));
    rec.extend(enc_str("city"));
    rec.extend(enc_str("nyc"));
    assert_eq!(&out[start..], &rec[..]);
    assert_eq!(c, crc64::crc64(crc, &rec));
}
