//! The file header: a hundred bytes of fixed layout.
//!
//! | bytes   | field                                             |
//! |---------|---------------------------------------------------|
//! | 0..16   | the magic text                                    |
//! | 16..18  | page size                                         |
//! | 18, 19  | read version, write version                       |
//! | 20..24  | reserved space and the three payload fractions    |
//! | 24..72  | twelve 32-bit numbers                             |
//! | 72..92  | unused                                            |
//! | 92..100 | version-valid-for number, library version number  |
//!
//! All numbers are stored high byte first.

use vstd::prelude::*;
use vstd::arithmetic::power2::is_pow2;
use crate::data_structures::Header;
use crate::enums::{ReadVersion, SchemaFormat, TextEncoding, WriteVersion};
use crate::parser::generic::{
    agrees, be16, be32, read_u16, read_u32, read_u8, starts_with, tag, take, took,
};
use crate::parser::{ParserError, HEADER_STRING, PAGE_SIZE_MAX};

verus! {

/// The bytes of [`HEADER_STRING`].
pub open spec fn magic() -> Seq<u8> {
    HEADER_STRING@
}

/// What the stored page size `raw` comes to: 1 stands for 65536, a power of
/// two for itself, and nothing else is a page size.
pub open spec fn page_size_of(raw: u16) -> Result<u32, ParserError> {
    if raw == 1 {
        Ok(PAGE_SIZE_MAX)
    } else if is_pow2(raw as int) {
        Ok(raw as u32)
    } else {
        Err(ParserError::MalformedPageSize)
    }
}

/// What the stored incremental-vacuum flag `raw` comes to.
pub open spec fn vacuum_mode_of(raw: u32) -> Result<bool, ParserError> {
    if raw == 0 {
        Ok(false)
    } else if raw == 1 {
        Ok(true)
    } else {
        Err(ParserError::UnknownValueU32(raw))
    }
}

/// The end of the header field that holds the byte at offset `at`.
pub open spec fn field_end(at: int) -> int
    recommends
        0 <= at < 100,
{
    if at < 16 {
        16
    } else if at < 18 {
        18
    } else if at < 24 {
        at + 1
    } else if 72 <= at < 92 {
        92
    } else {
        (at / 4 + 1) * 4
    }
}

/// The first thing wrong with `s` as a file header, taking the fields in
/// the order in which they are stored: a byte that differs from the magic
/// text; then, of the checked fields that `s` holds whole, the first whose
/// value is outside its set; then, `s` being shorter than a header, the
/// count of bytes missing from the field in which `s` ends.
pub open spec fn header_fault(s: Seq<u8>) -> Option<ParserError> {
    if !agrees(s, magic()) {
        Some(ParserError::NotADatabaseFile)
    } else if s.len() >= 18 && page_size_of(be16(s, 16)) is Err {
        Some(ParserError::MalformedPageSize)
    } else if s.len() >= 19 && ReadVersion::of(s[18]) is None {
        Some(ParserError::UnknownValueU8(s[18]))
    } else if s.len() >= 20 && WriteVersion::of(s[19]) is None {
        Some(ParserError::UnknownValueU8(s[19]))
    } else if s.len() >= 48 && SchemaFormat::of(be32(s, 44)) is None {
        Some(ParserError::UnknownValueU32(be32(s, 44)))
    } else if s.len() >= 60 && TextEncoding::of(be32(s, 56)) is None {
        Some(ParserError::UnknownValueU32(be32(s, 56)))
    } else if s.len() >= 68 && vacuum_mode_of(be32(s, 64)) is Err {
        Some(ParserError::UnknownValueU32(be32(s, 64)))
    } else if s.len() < 100 {
        Some(ParserError::short_by(field_end(s.len() as int) - s.len()))
    } else {
        None
    }
}

/// The record that the first hundred bytes of `s` spell.
pub open spec fn header_record(s: Seq<u8>) -> Header
    recommends
        header_fault(s) is None,
{
    Header {
        page_size: page_size_of(be16(s, 16)).unwrap(),
        read_version: ReadVersion::of(s[18]).unwrap(),
        write_version: WriteVersion::of(s[19]).unwrap(),
        reserved_space: s[20],
        max_embedded_payload_fraction: s[21],
        min_embedded_payload_fraction: s[22],
        leaf_payload_fraction: s[23],
        file_change_counter: be32(s, 24),
        database_size: be32(s, 28),
        freelist_trunk_page: be32(s, 32),
        freelist_count: be32(s, 36),
        schema_cookie: be32(s, 40),
        schema_format: SchemaFormat::of(be32(s, 44)).unwrap(),
        default_page_cache_size: be32(s, 48),
        largest_root_page: be32(s, 52),
        text_encoding: TextEncoding::of(be32(s, 56)).unwrap(),
        user_version: be32(s, 60),
        incremental_vacuum_mode: vacuum_mode_of(be32(s, 64)).unwrap(),
        application_id: be32(s, 68),
        version_valid_for: be32(s, 92),
        sqlite_version: be32(s, 96),
    }
}

/// What decoding `s` as a file header comes to.
pub open spec fn decode_header(s: Seq<u8>) -> Result<Header, ParserError> {
    match header_fault(s) {
        Some(e) => Err(e),
        None => Ok(header_record(s)),
    }
}

/// Whether `r` is what decoding the file header at the front of `i` comes
/// to: the record with the input after the hundredth byte, or the fault.
pub open spec fn header_decoded(i: Seq<u8>, r: Result<(&[u8], Header), ParserError>) -> bool {
    match r {
        Ok((rest, header)) => decode_header(i) == Ok::<Header, ParserError>(header) && rest@
            == i.skip(100),
        Err(e) => decode_header(i) == Err::<Header, ParserError>(e),
    }
}

/// Whether `x` is one of the powers of two that sixteen bits hold.
spec fn power_of_two_16(x: u16) -> bool {
    x == 0x1 || x == 0x2 || x == 0x4 || x == 0x8 || x == 0x10 || x == 0x20 || x == 0x40 || x
        == 0x80 || x == 0x100 || x == 0x200 || x == 0x400 || x == 0x800 || x == 0x1000 || x
        == 0x2000 || x == 0x4000 || x == 0x8000
}

proof fn lemma_is_pow2_16(x: u16)
    ensures
        is_pow2(x as int) <==> power_of_two_16(x),
    decreases x,
{
    reveal(is_pow2);
    if x > 1 && x % 2 == 0 {
        lemma_is_pow2_16(x / 2);
    }
}

/// Reads the page size.
pub fn page_size_parser(i: &[u8]) -> (r: Result<(&[u8], u32), ParserError>)
    ensures
        took(i@, 2, page_size_of(be16(i@, 0)), r),
{
    let (rest, raw) = read_u16(i)?;
    proof {
        lemma_is_pow2_16(raw);
        assert(raw != 0 ==> (raw & ((raw - 1) as u16) == 0 <==> power_of_two_16(raw)))
            by (bit_vector);
        assert(!power_of_two_16(0));
    }
    if raw == 1 {
        Ok((rest, PAGE_SIZE_MAX))
    } else if raw != 0 && raw & (raw - 1) == 0 {
        Ok((rest, raw as u32))
    } else {
        Err(ParserError::MalformedPageSize)
    }
}

/// Reads the read version.
pub fn read_version_parser(i: &[u8]) -> (r: Result<(&[u8], ReadVersion), ParserError>)
    ensures
        took(i@, 1, ReadVersion::from_raw(i@[0]), r),
{
    let (rest, raw) = read_u8(i)?;
    let version = ReadVersion::from_raw(raw)?;
    Ok((rest, version))
}

/// Reads the write version.
pub fn write_version_parser(i: &[u8]) -> (r: Result<(&[u8], WriteVersion), ParserError>)
    ensures
        took(i@, 1, WriteVersion::from_raw(i@[0]), r),
{
    let (rest, raw) = read_u8(i)?;
    let version = WriteVersion::from_raw(raw)?;
    Ok((rest, version))
}

/// Reads the schema format.
pub fn schema_format_parser(i: &[u8]) -> (r: Result<(&[u8], SchemaFormat), ParserError>)
    ensures
        took(i@, 4, SchemaFormat::from_raw(be32(i@, 0)), r),
{
    let (rest, raw) = read_u32(i)?;
    let format = SchemaFormat::from_raw(raw)?;
    Ok((rest, format))
}

/// Reads the text encoding.
pub fn text_encoding_parser(i: &[u8]) -> (r: Result<(&[u8], TextEncoding), ParserError>)
    ensures
        took(i@, 4, TextEncoding::from_raw(be32(i@, 0)), r),
{
    let (rest, raw) = read_u32(i)?;
    let encoding = TextEncoding::from_raw(raw)?;
    Ok((rest, encoding))
}

/// Reads the incremental-vacuum flag.
pub fn vacuum_mode_parser(i: &[u8]) -> (r: Result<(&[u8], bool), ParserError>)
    ensures
        took(i@, 4, vacuum_mode_of(be32(i@, 0)), r),
{
    let (rest, raw) = read_u32(i)?;
    match raw {
        0 => Ok((rest, false)),
        1 => Ok((rest, true)),
        x => Err(ParserError::UnknownValueU32(x)),
    }
}

/// Whether `at` and `width` are the offset and width of a field of the
/// header behind the magic text.
spec fn is_field(at: int, width: int) -> bool {
    ||| at == 16 && width == 2
    ||| 18 <= at < 24 && width == 1
    ||| 24 <= at < 72 && at % 4 == 0 && width == 4
    ||| at == 72 && width == 20
    ||| (at == 92 || at == 96) && width == 4
}

/// What is wrong with the value of the field of `s` at offset `at`.
spec fn value_fault(s: Seq<u8>, at: int) -> Option<ParserError> {
    if at == 16 && page_size_of(be16(s, 16)) is Err {
        Some(ParserError::MalformedPageSize)
    } else if at == 18 && ReadVersion::of(s[18]) is None {
        Some(ParserError::UnknownValueU8(s[18]))
    } else if at == 19 && WriteVersion::of(s[19]) is None {
        Some(ParserError::UnknownValueU8(s[19]))
    } else if at == 44 && SchemaFormat::of(be32(s, 44)) is None {
        Some(ParserError::UnknownValueU32(be32(s, 44)))
    } else if at == 56 && TextEncoding::of(be32(s, 56)) is None {
        Some(ParserError::UnknownValueU32(be32(s, 56)))
    } else if at == 64 && vacuum_mode_of(be32(s, 64)) is Err {
        Some(ParserError::UnknownValueU32(be32(s, 64)))
    } else {
        None
    }
}

/// Whether `s` holds the fields before offset `at` whole and none of them
/// has a fault.
#[verifier::opaque]
spec fn sound_upto(s: Seq<u8>, at: int) -> bool {
    &&& 16 <= at <= s.len()
    &&& agrees(s, magic())
    &&& 16 < at ==> value_fault(s, 16) is None
    &&& 18 < at ==> value_fault(s, 18) is None
    &&& 19 < at ==> value_fault(s, 19) is None
    &&& 44 < at ==> value_fault(s, 44) is None
    &&& 56 < at ==> value_fault(s, 56) is None
    &&& 64 < at ==> value_fault(s, 64) is None
}

/// What looking for the magic text decides.
proof fn lemma_magic(s: Seq<u8>)
    ensures
        !agrees(s, magic()) ==> decode_header(s) == Err::<Header, ParserError>(
            ParserError::NotADatabaseFile,
        ),
        agrees(s, magic()) && s.len() < 16 ==> decode_header(s) == Err::<Header, ParserError>(
            ParserError::short_by(16 - s.len()),
        ),
        starts_with(s, magic()) ==> sound_upto(s, 16),
        s.len() >= 16 && s.take(16) != magic() ==> !agrees(s, magic()),
{
    reveal(sound_upto);
    if s.len() >= 16 && agrees(s, magic()) {
        assert(s.take(16) =~= magic());
    }
    if starts_with(s, magic()) {
        assert forall|k: int| 0 <= k < s.len() && k < magic().len() implies s[k] == magic()[k] by {
            assert(s.take(16)[k] == s[k]);
        }
    }
}

/// What reading the field of `s` at offset `at` decides, where the fields
/// before it are sound and `rest` is what is left of `s` at `at`.
proof fn lemma_step(s: Seq<u8>, at: int, width: int, rest: Seq<u8>)
    requires
        is_field(at, width),
        sound_upto(s, at),
        rest == s.skip(at),
    ensures
        rest.len() == s.len() - at,
        rest.len() < width ==> decode_header(s) == Err::<Header, ParserError>(
            ParserError::short_by(width - rest.len()),
        ),
        rest.len() >= width ==> {
            &&& rest.skip(width) == s.skip(at + width)
            &&& rest[0] == s[at]
            &&& width >= 2 ==> be16(rest, 0) == be16(s, at)
            &&& width >= 4 ==> be32(rest, 0) == be32(s, at)
            &&& match value_fault(s, at) {
                Some(e) => decode_header(s) == Err::<Header, ParserError>(e),
                None => sound_upto(s, at + width),
            }
        },
{
    reveal(sound_upto);
    if rest.len() >= width {
        assert(rest.skip(width) =~= s.skip(at + width));
    }
}

/// What a sound header decodes to.
proof fn lemma_done(s: Seq<u8>)
    requires
        sound_upto(s, 100),
    ensures
        decode_header(s) == Ok::<Header, ParserError>(header_record(s)),
{
    reveal(sound_upto);
}

/// Decodes the file header at the front of `i`: gives the input after its
/// hundred bytes, then the record. The fields are read in the order in which
/// they are stored, and the first fault ends the decoding.
#[verifier::rlimit(50)]
pub fn header_parser(i: &[u8]) -> (r: Result<(&[u8], Header), ParserError>)
    ensures
        header_decoded(i@, r),
        i@.len() >= 16 && i@.take(16) != magic() ==> r == Err::<(&[u8], Header), ParserError>(
            ParserError::NotADatabaseFile,
        ),
{
    proof { lemma_magic(i@); }
    let pattern = HEADER_STRING;
    let i16 = match tag(i, pattern.as_slice()) {
        Ok(Some(rest)) => rest,
        Ok(None) => {
            return Err(ParserError::NotADatabaseFile);
        },
        Err(e) => {
            return Err(e);
        },
    };
    proof { lemma_step(i@, 16, 2, i16@); }
    let (i18, page_size) = match page_size_parser(i16) {
        Ok(read) => read,
        Err(e) => return Err(e),
    };
    proof { lemma_step(i@, 18, 1, i18@); }
    let (i19, read_version) = match read_version_parser(i18) {
        Ok(read) => read,
        Err(e) => return Err(e),
    };
    proof { lemma_step(i@, 19, 1, i19@); }
    let (i20, write_version) = match write_version_parser(i19) {
        Ok(read) => read,
        Err(e) => return Err(e),
    };
    proof { lemma_step(i@, 20, 1, i20@); }
    let (i21, reserved_space) = match read_u8(i20) {
        Ok(read) => read,
        Err(e) => return Err(e),
    };
    proof { lemma_step(i@, 21, 1, i21@); }
    let (i22, max_embedded_payload_fraction) = match read_u8(i21) {
        Ok(read) => read,
        Err(e) => return Err(e),
    };
    proof { lemma_step(i@, 22, 1, i22@); }
    let (i23, min_embedded_payload_fraction) = match read_u8(i22) {
        Ok(read) => read,
        Err(e) => return Err(e),
    };
    proof { lemma_step(i@, 23, 1, i23@); }
    let (i24, leaf_payload_fraction) = match read_u8(i23) {
        Ok(read) => read,
        Err(e) => return Err(e),
    };
    proof { lemma_step(i@, 24, 4, i24@); }
    let (i28, file_change_counter) = match read_u32(i24) {
        Ok(read) => read,
        Err(e) => return Err(e),
    };
    proof { lemma_step(i@, 28, 4, i28@); }
    let (i32, database_size) = match read_u32(i28) {
        Ok(read) => read,
        Err(e) => return Err(e),
    };
    proof { lemma_step(i@, 32, 4, i32@); }
    let (i36, freelist_trunk_page) = match read_u32(i32) {
        Ok(read) => read,
        Err(e) => return Err(e),
    };
    proof { lemma_step(i@, 36, 4, i36@); }
    let (i40, freelist_count) = match read_u32(i36) {
        Ok(read) => read,
        Err(e) => return Err(e),
    };
    proof { lemma_step(i@, 40, 4, i40@); }
    let (i44, schema_cookie) = match read_u32(i40) {
        Ok(read) => read,
        Err(e) => return Err(e),
    };
    proof { lemma_step(i@, 44, 4, i44@); }
    let (i48, schema_format) = match schema_format_parser(i44) {
        Ok(read) => read,
        Err(e) => return Err(e),
    };
    proof { lemma_step(i@, 48, 4, i48@); }
    let (i52, default_page_cache_size) = match read_u32(i48) {
        Ok(read) => read,
        Err(e) => return Err(e),
    };
    proof { lemma_step(i@, 52, 4, i52@); }
    let (i56, largest_root_page) = match read_u32(i52) {
        Ok(read) => read,
        Err(e) => return Err(e),
    };
    proof { lemma_step(i@, 56, 4, i56@); }
    let (i60, text_encoding) = match text_encoding_parser(i56) {
        Ok(read) => read,
        Err(e) => return Err(e),
    };
    proof { lemma_step(i@, 60, 4, i60@); }
    let (i64, user_version) = match read_u32(i60) {
        Ok(read) => read,
        Err(e) => return Err(e),
    };
    proof { lemma_step(i@, 64, 4, i64@); }
    let (i68, incremental_vacuum_mode) = match vacuum_mode_parser(i64) {
        Ok(read) => read,
        Err(e) => return Err(e),
    };
    proof { lemma_step(i@, 68, 4, i68@); }
    let (i72, application_id) = match read_u32(i68) {
        Ok(read) => read,
        Err(e) => return Err(e),
    };
    proof { lemma_step(i@, 72, 20, i72@); }
    let (i92, _) = match take(i72, 20) {
        Ok(read) => read,
        Err(e) => return Err(e),
    };
    proof { lemma_step(i@, 92, 4, i92@); }
    let (i96, version_valid_for) = match read_u32(i92) {
        Ok(read) => read,
        Err(e) => return Err(e),
    };
    proof { lemma_step(i@, 96, 4, i96@); }
    let (i100, sqlite_version) = match read_u32(i96) {
        Ok(read) => read,
        Err(e) => return Err(e),
    };
    proof { lemma_done(i@); }
    Ok(
        (
            i100,
            Header {
                page_size: page_size,
                read_version: read_version,
                write_version: write_version,
                reserved_space: reserved_space,
                max_embedded_payload_fraction: max_embedded_payload_fraction,
                min_embedded_payload_fraction: min_embedded_payload_fraction,
                leaf_payload_fraction: leaf_payload_fraction,
                file_change_counter: file_change_counter,
                database_size: database_size,
                freelist_trunk_page: freelist_trunk_page,
                freelist_count: freelist_count,
                schema_cookie: schema_cookie,
                schema_format: schema_format,
                default_page_cache_size: default_page_cache_size,
                largest_root_page: largest_root_page,
                text_encoding: text_encoding,
                user_version: user_version,
                incremental_vacuum_mode: incremental_vacuum_mode,
                application_id: application_id,
                version_valid_for: version_valid_for,
                sqlite_version: sqlite_version,
            },
        ),
    )
}

/// An input whose first sixteen bytes are not the magic text is not a
/// database file, whatever follows them.
pub proof fn lemma_wrong_magic(s: Seq<u8>)
    requires
        s.len() >= 16,
        s.take(16) != magic(),
    ensures
        decode_header(s) == Err::<Header, ParserError>(ParserError::NotADatabaseFile),
{
    lemma_magic(s);
}

/// A shorter input that differs from the magic text as far as it reaches is
/// not a database file either.
pub proof fn lemma_wrong_magic_prefix(s: Seq<u8>, k: int)
    requires
        0 <= k < s.len(),
        k < 16,
        s[k] != magic()[k],
    ensures
        decode_header(s) == Err::<Header, ParserError>(ParserError::NotADatabaseFile),
{
}

/// Behind the magic text and a page size, the read version byte decides:
/// 1 and 2 are accepted, and any other byte is reported as an unknown value
/// of eight bits.
pub proof fn lemma_read_version_byte(s: Seq<u8>)
    requires
        s.len() >= 19,
        agrees(s, magic()),
        page_size_of(be16(s, 16)) is Ok,
    ensures
        s[18] != 1 && s[18] != 2 ==> decode_header(s) == Err::<Header, ParserError>(
            ParserError::UnknownValueU8(s[18]),
        ),
        ParserError::UnknownValueU8(s[18]).field_width() == Some(8u32),
        decode_header(s) matches Ok(header) ==> header.read_version.code() == s[18],
{
}

/// Behind a read version the write version byte decides in the same way.
pub proof fn lemma_write_version_byte(s: Seq<u8>)
    requires
        s.len() >= 20,
        agrees(s, magic()),
        page_size_of(be16(s, 16)) is Ok,
        ReadVersion::of(s[18]) is Some,
    ensures
        s[19] != 1 && s[19] != 2 ==> decode_header(s) == Err::<Header, ParserError>(
            ParserError::UnknownValueU8(s[19]),
        ),
        decode_header(s) matches Ok(header) ==> header.write_version.code() == s[19],
{
}

/// Decoding one input twice gives one result: the same record and the same
/// rest, or the same fault.
pub proof fn lemma_header_parser_deterministic(
    i: Seq<u8>,
    first: Result<(&[u8], Header), ParserError>,
    second: Result<(&[u8], Header), ParserError>,
)
    requires
        header_decoded(i, first),
        header_decoded(i, second),
    ensures
        first == second,
{
    if first is Ok {
        assert(first->Ok_0.0 =~= second->Ok_0.0);
    }
}

} // verus!
