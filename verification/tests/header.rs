use liblitereader::data_structures::Header;
use liblitereader::enums::{ReadVersion, SchemaFormat, TextEncoding, WriteVersion};
use liblitereader::parser::generic::{read_u16, read_u32, read_u8, tag, take};
use liblitereader::parser::header::{
    header_parser, page_size_parser, read_version_parser, schema_format_parser,
    text_encoding_parser, vacuum_mode_parser, write_version_parser,
};
use liblitereader::parser::{parse_header, ParserError, HEADER_STRING, PAGE_SIZE_MAX};

/// A header of page size 4096, both versions `Legacy`, fractions 64, 32,
/// 32, schema format 4, UTF-8 and no incremental vacuum.
fn sample_header() -> Vec<u8> {
    let mut bytes: Vec<u8> = Vec::new();
    bytes.extend_from_slice(b"SQLite format 3\0");
    bytes.extend_from_slice(&[0x10, 0x00]);
    bytes.extend_from_slice(&[1, 1, 0, 64, 32, 32]);
    bytes.extend_from_slice(&7u32.to_be_bytes());
    bytes.extend_from_slice(&3u32.to_be_bytes());
    bytes.extend_from_slice(&0u32.to_be_bytes());
    bytes.extend_from_slice(&0u32.to_be_bytes());
    bytes.extend_from_slice(&15u32.to_be_bytes());
    bytes.extend_from_slice(&4u32.to_be_bytes());
    bytes.extend_from_slice(&2000u32.to_be_bytes());
    bytes.extend_from_slice(&0u32.to_be_bytes());
    bytes.extend_from_slice(&1u32.to_be_bytes());
    bytes.extend_from_slice(&123123u32.to_be_bytes());
    bytes.extend_from_slice(&0u32.to_be_bytes());
    bytes.extend_from_slice(&0x0102_0304u32.to_be_bytes());
    bytes.extend_from_slice(&[0xee; 20]);
    bytes.extend_from_slice(&7u32.to_be_bytes());
    bytes.extend_from_slice(&3008008u32.to_be_bytes());
    assert_eq!(bytes.len(), 100);
    bytes
}

#[test]
fn test_header_print() {
    let header = Header {
        page_size: 1,
        read_version: ReadVersion::Legacy,
        write_version: WriteVersion::Legacy,
        reserved_space: 0,
        max_embedded_payload_fraction: 64,
        min_embedded_payload_fraction: 32,
        leaf_payload_fraction: 32,
        file_change_counter: 4223,
        database_size: 100012020,
        freelist_trunk_page: 0,
        freelist_count: 0,
        schema_cookie: 15,
        schema_format: SchemaFormat::Format1,
        default_page_cache_size: 1_000_000_000,
        largest_root_page: 0,
        text_encoding: TextEncoding::UTF8,
        user_version: 123123,
        incremental_vacuum_mode: true,
        application_id: 111_111,
        version_valid_for: 1234567,
        sqlite_version: 3008008,
    };
    let display = format!("{}", header.to_string());
    assert_eq!(
        display,
        "Header { \
            page_size: 1, \
            read_version: Legacy, \
            write_version: Legacy, \
            reserved_space: 0, \
            max_embedded_payload_fraction: 64, \
            min_embedded_payload_fraction: 32, \
            leaf_payload_fraction: 32, \
            file_change_counter: 4223, \
            database_size: 100012020, \
            freelist_trunk_page: 0, \
            freelist_count: 0, \
            schema_cookie: 15, \
            schema_format: Format1, \
            default_page_cache_size: 1000000000, \
            largest_root_page: 0, \
            text_encoding: UTF8, \
            user_version: 123123, \
            incremental_vacuum_mode: true, \
            application_id: 111111, \
            version_valid_for: 1234567, \
            sqlite_version: 3008008 }"
    )
}

#[test]
fn it_works() {}

#[test]
fn header_decodes_every_field() {
    let mut bytes = sample_header();
    bytes.extend_from_slice(&[0x0d, 0xaa]);
    let (rest, header) = header_parser(&bytes).unwrap();
    assert_eq!(rest, &[0x0d, 0xaa]);
    assert_eq!(
        header,
        Header {
            page_size: 4096,
            read_version: ReadVersion::Legacy,
            write_version: WriteVersion::Legacy,
            reserved_space: 0,
            max_embedded_payload_fraction: 64,
            min_embedded_payload_fraction: 32,
            leaf_payload_fraction: 32,
            file_change_counter: 7,
            database_size: 3,
            freelist_trunk_page: 0,
            freelist_count: 0,
            schema_cookie: 15,
            schema_format: SchemaFormat::Format4,
            default_page_cache_size: 2000,
            largest_root_page: 0,
            text_encoding: TextEncoding::UTF8,
            user_version: 123123,
            incremental_vacuum_mode: false,
            application_id: 0x0102_0304,
            version_valid_for: 7,
            sqlite_version: 3008008,
        }
    );
}

#[test]
fn header_of_exactly_one_hundred_bytes_leaves_nothing() {
    let bytes = sample_header();
    let (rest, _) = header_parser(&bytes).unwrap();
    assert!(rest.is_empty());
}

#[test]
fn wrong_magic_is_not_a_database_file() {
    let mut bytes = sample_header();
    bytes[15] = b'!';
    assert_eq!(header_parser(&bytes), Err(ParserError::NotADatabaseFile));
    let mut bytes = sample_header();
    bytes[0] = b's';
    // the fault of the magic text comes before any other
    bytes[16] = 0x00;
    bytes[17] = 0x03;
    bytes[18] = 9;
    assert_eq!(header_parser(&bytes), Err(ParserError::NotADatabaseFile));
    assert_eq!(header_parser(&[0u8; 100]), Err(ParserError::NotADatabaseFile));
}

#[test]
fn wrong_magic_decides_before_a_short_input() {
    assert_eq!(header_parser(b"SQLite format 4"), Err(ParserError::NotADatabaseFile));
    assert_eq!(header_parser(b"T"), Err(ParserError::NotADatabaseFile));
    assert_eq!(header_parser(b"SQLite"), Err(ParserError::Incomplete(10)));
    assert_eq!(header_parser(b""), Err(ParserError::Incomplete(16)));
}

#[test]
fn page_size_one_stands_for_65536() {
    let mut bytes = sample_header();
    bytes[16] = 0x00;
    bytes[17] = 0x01;
    let (_, header) = header_parser(&bytes).unwrap();
    assert_eq!(header.page_size, 65536);
    assert_eq!(PAGE_SIZE_MAX, 65536);
}

#[test]
fn page_size_1024_is_kept() {
    let mut bytes = sample_header();
    bytes[16] = 0x04;
    bytes[17] = 0x00;
    let (_, header) = header_parser(&bytes).unwrap();
    assert_eq!(header.page_size, 1024);
}

#[test]
fn page_size_three_is_malformed() {
    let mut bytes = sample_header();
    bytes[16] = 0x00;
    bytes[17] = 0x03;
    assert_eq!(header_parser(&bytes), Err(ParserError::MalformedPageSize));
}

#[test]
fn page_size_parser_accepts_powers_of_two_only() {
    for raw in 0u32..=0xffff {
        let bytes = [(raw >> 8) as u8, raw as u8, 0x77];
        let got = page_size_parser(&bytes);
        if raw == 1 {
            assert_eq!(got, Ok((&[0x77u8][..], 65536)));
        } else if raw.is_power_of_two() {
            assert_eq!(got, Ok((&[0x77u8][..], raw)));
        } else {
            assert_eq!(got, Err(ParserError::MalformedPageSize));
        }
    }
    assert_eq!(page_size_parser(&[0x10]), Err(ParserError::Incomplete(1)));
    assert_eq!(page_size_parser(&[]), Err(ParserError::Incomplete(2)));
}

#[test]
fn version_bytes_one_and_two_are_the_only_ones() {
    for raw in 0u8..=255 {
        let bytes = [raw, 0x55];
        let read = read_version_parser(&bytes);
        let write = write_version_parser(&bytes);
        match raw {
            1 => {
                assert_eq!(read, Ok((&[0x55u8][..], ReadVersion::Legacy)));
                assert_eq!(write, Ok((&[0x55u8][..], WriteVersion::Legacy)));
            }
            2 => {
                assert_eq!(read, Ok((&[0x55u8][..], ReadVersion::WAL)));
                assert_eq!(write, Ok((&[0x55u8][..], WriteVersion::WAL)));
            }
            x => {
                assert_eq!(read, Err(ParserError::UnknownValueU8(x)));
                assert_eq!(write, Err(ParserError::UnknownValueU8(x)));
                assert_eq!(ParserError::UnknownValueU8(x).field_width(), Some(8));
                assert_eq!(ParserError::UnknownValueU8(x).raw(), Some(x as u32));
            }
        }
        assert_eq!(ReadVersion::from_raw(raw).ok(), read.ok().map(|(_, v)| v));
        assert_eq!(WriteVersion::from_raw(raw).ok(), write.ok().map(|(_, v)| v));
    }
}

#[test]
fn version_bytes_in_a_header() {
    for raw in 0u8..=255 {
        let mut bytes = sample_header();
        bytes[18] = raw;
        match header_parser(&bytes) {
            Ok((_, header)) => {
                assert!(raw == 1 || raw == 2);
                let expected = if raw == 1 { ReadVersion::Legacy } else { ReadVersion::WAL };
                assert_eq!(header.read_version, expected);
            }
            Err(e) => {
                assert!(raw != 1 && raw != 2);
                assert_eq!(e, ParserError::UnknownValueU8(raw));
            }
        }
        let mut bytes = sample_header();
        bytes[19] = raw;
        match header_parser(&bytes) {
            Ok((_, header)) => {
                assert!(raw == 1 || raw == 2);
                let expected = if raw == 1 { WriteVersion::Legacy } else { WriteVersion::WAL };
                assert_eq!(header.write_version, expected);
            }
            Err(e) => {
                assert!(raw != 1 && raw != 2);
                assert_eq!(e, ParserError::UnknownValueU8(raw));
            }
        }
    }
}

#[test]
fn schema_format_is_one_to_four() {
    assert_eq!(schema_format_parser(&[0, 0, 0, 1]).unwrap().1, SchemaFormat::Format1);
    assert_eq!(schema_format_parser(&[0, 0, 0, 2]).unwrap().1, SchemaFormat::Format2);
    assert_eq!(schema_format_parser(&[0, 0, 0, 3]).unwrap().1, SchemaFormat::Format3);
    assert_eq!(schema_format_parser(&[0, 0, 0, 4]).unwrap().1, SchemaFormat::Format4);
    assert_eq!(schema_format_parser(&[0, 0, 0, 0]), Err(ParserError::UnknownValueU32(0)));
    assert_eq!(schema_format_parser(&[0, 0, 0, 5]), Err(ParserError::UnknownValueU32(5)));
    assert_eq!(
        schema_format_parser(&[1, 0, 0, 1]),
        Err(ParserError::UnknownValueU32(0x0100_0001))
    );
    assert_eq!(schema_format_parser(&[0, 0, 0]), Err(ParserError::Incomplete(1)));
    let mut bytes = sample_header();
    bytes[47] = 9;
    assert_eq!(header_parser(&bytes), Err(ParserError::UnknownValueU32(9)));
    assert_eq!(ParserError::UnknownValueU32(9).field_width(), Some(32));
    assert_eq!(ParserError::UnknownValueU32(9).raw(), Some(9));
}

#[test]
fn text_encoding_is_one_to_three() {
    assert_eq!(text_encoding_parser(&[0, 0, 0, 1]).unwrap().1, TextEncoding::UTF8);
    assert_eq!(text_encoding_parser(&[0, 0, 0, 2]).unwrap().1, TextEncoding::UTF16le);
    assert_eq!(text_encoding_parser(&[0, 0, 0, 3]).unwrap().1, TextEncoding::UTF16be);
    assert_eq!(text_encoding_parser(&[0, 0, 0, 0]), Err(ParserError::UnknownValueU32(0)));
    assert_eq!(text_encoding_parser(&[0, 0, 0, 4]), Err(ParserError::UnknownValueU32(4)));
    let mut bytes = sample_header();
    bytes[56] = 0xff;
    assert_eq!(header_parser(&bytes), Err(ParserError::UnknownValueU32(0xff00_0001)));
}

#[test]
fn vacuum_mode_is_zero_or_one() {
    assert_eq!(vacuum_mode_parser(&[0, 0, 0, 0, 8]), Ok((&[8u8][..], false)));
    assert_eq!(vacuum_mode_parser(&[0, 0, 0, 1, 8]), Ok((&[8u8][..], true)));
    assert_eq!(vacuum_mode_parser(&[0, 0, 0, 2]), Err(ParserError::UnknownValueU32(2)));
    assert_eq!(vacuum_mode_parser(&[0, 0]), Err(ParserError::Incomplete(2)));
    let mut bytes = sample_header();
    bytes[67] = 1;
    assert!(header_parser(&bytes).unwrap().1.incremental_vacuum_mode);
    bytes[67] = 2;
    assert_eq!(header_parser(&bytes), Err(ParserError::UnknownValueU32(2)));
}

#[test]
fn a_short_header_names_the_bytes_its_field_lacks() {
    let bytes = sample_header();
    // field ends: 16, 18, 19..24 byte by byte, 28..72 in fours, 92, 96, 100
    let ends = [
        16usize, 18, 19, 20, 21, 22, 23, 24, 28, 32, 36, 40, 44, 48, 52, 56, 60, 64, 68, 72, 92,
        96, 100,
    ];
    for len in 0..100usize {
        let end = *ends.iter().find(|end| **end > len).unwrap();
        assert_eq!(
            header_parser(&bytes[..len]),
            Err(ParserError::Incomplete(end - len)),
            "length {}",
            len
        );
    }
    assert!(header_parser(&bytes[..100]).is_ok());
}

#[test]
fn a_bad_value_decides_before_a_short_input() {
    let mut bytes = sample_header();
    bytes[18] = 7;
    assert_eq!(header_parser(&bytes[..19]), Err(ParserError::UnknownValueU8(7)));
    assert_eq!(header_parser(&bytes[..60]), Err(ParserError::UnknownValueU8(7)));
    // but a field that the input does not hold whole is not looked at
    assert_eq!(header_parser(&bytes[..18]), Err(ParserError::Incomplete(1)));
    let mut bytes = sample_header();
    bytes[47] = 0;
    assert_eq!(header_parser(&bytes[..47]), Err(ParserError::Incomplete(1)));
    assert_eq!(header_parser(&bytes[..48]), Err(ParserError::UnknownValueU32(0)));
}

#[test]
fn the_first_bad_value_is_reported() {
    let mut bytes = sample_header();
    bytes[17] = 0x03;
    bytes[18] = 7;
    bytes[19] = 8;
    bytes[47] = 0;
    assert_eq!(header_parser(&bytes), Err(ParserError::MalformedPageSize));
    bytes[17] = 0x00;
    assert_eq!(header_parser(&bytes), Err(ParserError::UnknownValueU8(7)));
    bytes[18] = 2;
    assert_eq!(header_parser(&bytes), Err(ParserError::UnknownValueU8(8)));
    bytes[19] = 2;
    assert_eq!(header_parser(&bytes), Err(ParserError::UnknownValueU32(0)));
}

#[test]
fn the_reserved_bytes_are_passed_over() {
    let mut bytes = sample_header();
    let before = header_parser(&bytes).unwrap().1;
    for k in 72..92 {
        bytes[k] = k as u8;
    }
    assert_eq!(header_parser(&bytes).unwrap().1, before);
}

#[test]
fn decoding_twice_gives_the_same() {
    let bytes = sample_header();
    assert_eq!(header_parser(&bytes), header_parser(&bytes));
    assert_eq!(parse_header(&bytes), parse_header(&bytes));
    let short = &bytes[..33];
    assert_eq!(header_parser(short), header_parser(short));
    let mut bad = sample_header();
    bad[3] = 0;
    assert_eq!(header_parser(&bad), header_parser(&bad));
}

#[test]
fn parse_header_gives_the_record_or_a_message() {
    let bytes = sample_header();
    assert_eq!(parse_header(&bytes), Ok(header_parser(&bytes).unwrap().1));
    assert_eq!(parse_header(&bytes[..99]), Err("Incomplete".to_string()));
    let mut bad = sample_header();
    bad[0] = 0;
    assert_eq!(parse_header(&bad), Err("Error".to_string()));
    let mut bad = sample_header();
    bad[17] = 3;
    assert_eq!(parse_header(&bad), Err("Error".to_string()));
    let mut bad = sample_header();
    bad[19] = 0;
    assert_eq!(parse_header(&bad), Err("Error".to_string()));
}

#[test]
fn the_magic_text_is_the_sixteen_bytes() {
    assert_eq!(&HEADER_STRING, b"SQLite format 3\0");
}

#[test]
fn integers_are_read_high_byte_first() {
    assert_eq!(read_u8(&[0xab, 0xcd]), Ok((&[0xcdu8][..], 0xab)));
    assert_eq!(read_u16(&[0xab, 0xcd, 0xef]), Ok((&[0xefu8][..], 0xabcd)));
    assert_eq!(read_u32(&[0x01, 0x02, 0x03, 0x04, 0x05]), Ok((&[0x05u8][..], 0x0102_0304)));
    assert_eq!(read_u32(&[0xff, 0xff, 0xff, 0xff]), Ok((&[][..], 0xffff_ffff)));
    assert_eq!(read_u8(&[]), Err(ParserError::Incomplete(1)));
    assert_eq!(read_u16(&[1]), Err(ParserError::Incomplete(1)));
    assert_eq!(read_u16(&[]), Err(ParserError::Incomplete(2)));
    assert_eq!(read_u32(&[1, 2, 3]), Err(ParserError::Incomplete(1)));
    assert_eq!(read_u32(&[]), Err(ParserError::Incomplete(4)));
}

#[test]
fn tag_finds_misses_or_runs_short() {
    assert_eq!(tag(b"abcdef", b"abc"), Ok(Some(&b"def"[..])));
    assert_eq!(tag(b"abc", b"abc"), Ok(Some(&b""[..])));
    assert_eq!(tag(b"abd", b"abc"), Ok(None));
    assert_eq!(tag(b"x", b"abc"), Ok(None));
    assert_eq!(tag(b"ab", b"abc"), Err(ParserError::Incomplete(1)));
    assert_eq!(tag(b"", b"abc"), Err(ParserError::Incomplete(3)));
    assert_eq!(tag(b"abc", b""), Ok(Some(&b"abc"[..])));
}

#[test]
fn take_splits_or_runs_short() {
    assert_eq!(take(b"abcdef", 2), Ok((&b"cdef"[..], &b"ab"[..])));
    assert_eq!(take(b"ab", 2), Ok((&b""[..], &b"ab"[..])));
    assert_eq!(take(b"ab", 0), Ok((&b"ab"[..], &b""[..])));
    assert_eq!(take(b"ab", 5), Err(ParserError::Incomplete(3)));
}

#[test]
fn enumerated_values_have_canonical_names() {
    assert_eq!(TextEncoding::UTF8.to_string(), "UTF-8");
    assert_eq!(TextEncoding::UTF16le.to_string(), "UTF-16le");
    assert_eq!(TextEncoding::UTF16be.to_string(), "UTF-16be");
    assert_eq!(SchemaFormat::Format1.to_string(), "1");
    assert_eq!(SchemaFormat::Format2.to_string(), "2");
    assert_eq!(SchemaFormat::Format3.to_string(), "3");
    assert_eq!(SchemaFormat::Format4.to_string(), "4");
    assert_eq!(WriteVersion::Legacy.to_string(), "Legacy");
    assert_eq!(WriteVersion::WAL.to_string(), "WAL");
    assert_eq!(ReadVersion::Legacy.to_string(), "Legacy");
    assert_eq!(ReadVersion::WAL.to_string(), "WAL");
}

#[test]
fn errors_tell_the_width_of_an_unknown_value() {
    assert_eq!(ParserError::UnknownValueU8(3).field_width(), Some(8));
    assert_eq!(ParserError::UnknownValueU16(3).field_width(), Some(16));
    assert_eq!(ParserError::UnknownValueU32(3).field_width(), Some(32));
    assert_eq!(ParserError::UnknownValueU16(0xabcd).raw(), Some(0xabcd));
    assert_eq!(ParserError::NotADatabaseFile.field_width(), None);
    assert_eq!(ParserError::MalformedPageSize.raw(), None);
    assert_eq!(ParserError::Incomplete(4).field_width(), None);
}
