//! Decoders from bytes to typed records, and the errors they report.

use vstd::prelude::*;
use vstd::slice::{slice_subrange, slice_to_vec};
use crate::data_structures::{BTreePageHeader, Header, SqliteFile, SqliteFileView};
use crate::parser::generic::{lemma_varint_len_bounds, parse_varint, varint_len, varint_value};
use crate::parser::header::{decode_header, header_fault, header_parser, header_record};
use crate::parser::page::{
    btree_page_header_parser, btree_page_parser, decode_page_header, page_fault, page_record,
};

pub mod generic;
pub mod header;
pub mod page;

verus! {

/// The sixteen bytes that open every database file: the text
/// `SQLite format 3` and a NUL.
pub const HEADER_STRING: [u8; 16] = [
    0x53, 0x51, 0x4c, 0x69, 0x74, 0x65, 0x20, 0x66, 0x6f, 0x72, 0x6d, 0x61, 0x74, 0x20, 0x33, 0x00,
];

/// The page size that the stored value 1 stands for.
pub const PAGE_SIZE_MAX: u32 = 65536;

/// Why a decoder gave up.
#[derive(Debug, Clone, Copy, PartialEq, Eq, Structural)]
pub enum ParserError {
    /// The input does not open with [`HEADER_STRING`].
    NotADatabaseFile,
    /// The stored page size is neither 1 nor a power of two.
    MalformedPageSize,
    /// A one-byte field holds a value outside its enumerated set.
    UnknownValueU8(u8),
    /// A two-byte field holds a value outside its enumerated set.
    UnknownValueU16(u16),
    /// A four-byte field holds a value outside its enumerated set.
    UnknownValueU32(u32),
    /// The input ended inside a field; so many more bytes would complete it
    /// (for a varint: would complete it at its longest).
    Incomplete(usize),
}

impl ParserError {
    /// The error for an input that is `missing` bytes short of a field's end.
    pub open spec fn short_by(missing: int) -> ParserError {
        ParserError::Incomplete(missing as usize)
    }

    /// Width in bits of the field whose value was not recognised.
    pub open spec fn spec_field_width(self) -> Option<u32> {
        match self {
            ParserError::UnknownValueU8(_) => Some(8u32),
            ParserError::UnknownValueU16(_) => Some(16u32),
            ParserError::UnknownValueU32(_) => Some(32u32),
            _ => None,
        }
    }

    /// The value that was not recognised.
    pub open spec fn spec_raw(self) -> Option<u32> {
        match self {
            ParserError::UnknownValueU8(x) => Some(x as u32),
            ParserError::UnknownValueU16(x) => Some(x as u32),
            ParserError::UnknownValueU32(x) => Some(x),
            _ => None,
        }
    }

    /// Width in bits of the field whose value was not recognised; `None` for
    /// the other kinds of error.
    #[verifier::when_used_as_spec(spec_field_width)]
    pub fn field_width(self) -> (w: Option<u32>)
        ensures
            w == self.spec_field_width(),
    {
        match self {
            ParserError::UnknownValueU8(_) => Some(8),
            ParserError::UnknownValueU16(_) => Some(16),
            ParserError::UnknownValueU32(_) => Some(32),
            _ => None,
        }
    }

    /// The value that was not recognised; `None` for the other kinds of error.
    #[verifier::when_used_as_spec(spec_raw)]
    pub fn raw(self) -> (x: Option<u32>)
        ensures
            x == self.spec_raw(),
    {
        match self {
            ParserError::UnknownValueU8(x) => Some(x as u32),
            ParserError::UnknownValueU16(x) => Some(x as u32),
            ParserError::UnknownValueU32(x) => Some(x),
            _ => None,
        }
    }
}

/// The message that the plain decoders give for a fault: whether the
/// input was short or wrong.
pub open spec fn error_text(e: ParserError) -> Seq<char> {
    if e is Incomplete {
        "Incomplete"@
    } else {
        "Error"@
    }
}

fn error_message(e: ParserError) -> (message: String)
    ensures
        message@ == error_text(e),
{
    match e {
        ParserError::Incomplete(_) => "Incomplete".to_string(),
        _ => "Error".to_string(),
    }
}

/// Decodes the file header at the front of `buffer`.
pub fn parse_header(buffer: &[u8]) -> (r: Result<Header, String>)
    ensures
        match decode_header(buffer@) {
            Ok(header) => r == Ok::<Header, String>(header),
            Err(e) => r is Err && r->Err_0@ == error_text(e),
        },
{
    match header_parser(buffer) {
        Ok((_, header)) => Ok(header),
        Err(e) => Err(error_message(e)),
    }
}

/// Decodes the page header at the front of `buffer`.
pub fn parse_btree_page_header(buffer: &[u8]) -> (r: Result<BTreePageHeader, String>)
    ensures
        match decode_page_header(buffer@) {
            Ok(header) => r == Ok::<BTreePageHeader, String>(header),
            Err(e) => r is Err && r->Err_0@ == error_text(e),
        },
{
    match btree_page_header_parser(buffer) {
        Ok((_, header)) => Ok(header),
        Err(e) => Err(error_message(e)),
    }
}

/// The bytes of `s` from the offset `pointer` on; none where `s` ends
/// before that offset.
pub open spec fn cell_bytes(s: Seq<u8>, pointer: u16) -> Seq<u8> {
    if pointer <= s.len() {
        s.skip(pointer as int)
    } else {
        Seq::empty()
    }
}

/// What is wrong with the two variable-length integers that open the cell
/// `s`, its payload size and its row id: the input ends inside the first,
/// or inside the second.
pub open spec fn cell_prefix_fault(s: Seq<u8>) -> Option<ParserError> {
    let second = s.skip(varint_len(s));
    if varint_len(s) > s.len() {
        Some(ParserError::short_by(9 - s.len()))
    } else if varint_len(second) > second.len() {
        Some(ParserError::short_by(9 - second.len()))
    } else {
        None
    }
}

/// The payload size and the row id that open the cell `s`.
pub open spec fn cell_prefix_of(s: Seq<u8>) -> (int, int)
    recommends
        cell_prefix_fault(s) is None,
{
    let second = s.skip(varint_len(s));
    (varint_value(s, varint_len(s)), varint_value(second, varint_len(second)))
}

/// The length of the two variable-length integers that open the cell `s`.
pub open spec fn cell_prefix_len(s: Seq<u8>) -> int
    recommends
        cell_prefix_fault(s) is None,
{
    varint_len(s) + varint_len(s.skip(varint_len(s)))
}

/// Decodes the two variable-length integers that open a cell: gives the
/// input after them, then the payload size and the row id.
pub fn cell_prefix(i: &[u8]) -> (r: Result<(&[u8], (u64, u64)), ParserError>)
    ensures
        match r {
            Ok((rest, (cell_size, row_id))) => cell_prefix_fault(i@) is None && rest@ == i@.skip(
                cell_prefix_len(i@),
            ) && (cell_size as int, row_id as int) == cell_prefix_of(i@),
            Err(e) => cell_prefix_fault(i@) == Some(e),
        },
{
    let (second, cell_size) = match parse_varint(i) {
        Ok(read) => read,
        Err(e) => return Err(e),
    };
    let (rest, row_id) = match parse_varint(second) {
        Ok(read) => read,
        Err(e) => return Err(e),
    };
    proof {
        lemma_varint_len_bounds(i@);
        lemma_varint_len_bounds(second@);
        assert(rest@ =~= i@.skip(cell_prefix_len(i@)));
    }
    Ok((rest, (cell_size, row_id)))
}

/// The first fault among the cells of `s` that `pointers` point to, taken
/// in the order of the pointers.
pub open spec fn cells_fault(s: Seq<u8>, pointers: Seq<u16>) -> Option<ParserError>
    decreases pointers.len(),
{
    if pointers.len() == 0 {
        None
    } else if cell_prefix_fault(cell_bytes(s, pointers[0])) is Some {
        cell_prefix_fault(cell_bytes(s, pointers[0]))
    } else {
        cells_fault(s, pointers.skip(1))
    }
}

/// The payload size and row id of each cell of `s` that `pointers` point
/// to, in the order of the pointers.
pub open spec fn cell_prefixes_of(s: Seq<u8>, pointers: Seq<u16>) -> Seq<(int, int)> {
    Seq::new(pointers.len(), |k: int| cell_prefix_of(cell_bytes(s, pointers[k])))
}

/// The pair of numbers as integers.
pub open spec fn as_ints(pair: (u64, u64)) -> (int, int) {
    (pair.0 as int, pair.1 as int)
}

/// Decodes the payload size and the row id of each cell of the page `i`
/// that `pointers` point to. A pointer behind the end of `i` points to a
/// cell of no bytes.
pub fn cell_prefixes(i: &[u8], pointers: &Vec<u16>) -> (r: Result<Vec<(u64, u64)>, ParserError>)
    ensures
        match r {
            Ok(prefixes) => cells_fault(i@, pointers@) is None && prefixes@.map_values(
                |pair: (u64, u64)| as_ints(pair),
            ) == cell_prefixes_of(i@, pointers@),
            Err(e) => cells_fault(i@, pointers@) == Some(e),
        },
{
    let mut prefixes: Vec<(u64, u64)> = Vec::new();
    let mut k: usize = 0;
    assert(pointers@.skip(0) =~= pointers@);
    while k < pointers.len()
        invariant
            k <= pointers@.len(),
            cells_fault(i@, pointers@) == cells_fault(i@, pointers@.skip(k as int)),
            prefixes@.len() == k,
            forall|j: int| 0 <= j < k ==> as_ints(#[trigger] prefixes@[j]) == cell_prefix_of(
                cell_bytes(i@, pointers@[j]),
            ),
        decreases pointers@.len() - k,
    {
        let pointer = pointers[k];
        let from: usize = if pointer as usize <= i.len() {
            pointer as usize
        } else {
            i.len()
        };
        let cell = slice_subrange(i, from, i.len());
        assert(cell@ =~= cell_bytes(i@, pointer));
        proof {
            assert(pointers@.skip(k as int)[0] == pointer);
            assert(pointers@.skip(k as int).skip(1) =~= pointers@.skip(k + 1));
        }
        match cell_prefix(cell) {
            Ok((_, prefix)) => {
                prefixes.push(prefix);
            },
            Err(e) => {
                return Err(e);
            },
        }
        k += 1;
    }
    assert(prefixes@.map_values(|pair: (u64, u64)| as_ints(pair)) =~= cell_prefixes_of(
        i@,
        pointers@,
    ));
    Ok(prefixes)
}

/// The first thing wrong with `s` as a database file: a fault of the file
/// header; then one of the first page, which follows the header; then one
/// of a cell of that page.
pub open spec fn file_fault(s: Seq<u8>) -> Option<ParserError> {
    if header_fault(s) is Some {
        header_fault(s)
    } else if page_fault(s.skip(100)) is Some {
        page_fault(s.skip(100))
    } else {
        match page_record(s.skip(100)) {
            Some(page) => cells_fault(s, page.cell_pointer),
            None => None,
        }
    }
}

/// Decodes a database file: its header, its first page and the opening
/// numbers of each cell of that page. Gives the header with the bytes of
/// the file.
pub fn parse_sqlite_file(i: &[u8]) -> (r: Result<SqliteFile, String>)
    ensures
        match file_fault(i@) {
            None => r is Ok && r->Ok_0@ == (SqliteFileView {
                header: header_record(i@),
                buffer: i@,
            }),
            Some(e) => r is Err && r->Err_0@ == error_text(e),
        },
{
    let (o1, file_header) = match header_parser(i) {
        Ok(read) => read,
        Err(e) => return Err(error_message(e)),
    };
    let (_, btree_page) = match btree_page_parser(o1) {
        Ok(read) => read,
        Err(e) => return Err(error_message(e)),
    };
    match btree_page {
        Some(page) => {
            match cell_prefixes(i, &page.cell_pointer) {
                Ok(_) => {},
                Err(e) => return Err(error_message(e)),
            }
        },
        None => {},
    }
    Ok(SqliteFile::new(file_header, slice_to_vec(i)))
}

} // verus!
