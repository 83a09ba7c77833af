//! Decoder for the SQLite database file format: the hundred-byte file
//! header, the header and cell pointers of a B-tree page, and the
//! variable-length integer. The decoders take bytes and give typed records;
//! getting the bytes, and showing the records, is the caller's part.

use vstd::prelude::*;
use vstd::slice::slice_subrange;
use crate::parser::header::decode_header;
use crate::parser::page::{btree_page_parser, decode_page, CONTENT_OFFSET_MAX};
use crate::parser::{error_text, ParserError};
use crate::data_structures::{BTreePageType, BTreePageView, SqliteFileView};

pub use crate::data_structures::{BTreePage, BTreePageHeader, Header, SqliteFile};
pub use crate::parser::header::header_parser;

pub mod data_structures;
pub mod enums;
pub mod parser;

verus! {

/// A database file held in memory.
pub trait Parser<T> {
    /// Decodes the header of the file that `buffer` holds and keeps the
    /// bytes.
    fn from_vec(buffer: &Vec<u8>) -> Result<T, String>;

    /// Whether the header's two fixed payload fractions hold their fixed
    /// values, 64 and 32.
    fn is_valid(&self) -> bool;

    /// Decodes the page with the index `page_id`, counted from 0.
    fn get_page(&self, page_id: usize) -> Result<BTreePage, String>;
}

/// The message that [`Parser::from_vec`] gives for a fault of the header.
pub open spec fn header_error_text(e: ParserError) -> Seq<char> {
    if e is NotADatabaseFile {
        "File is not SQLite Database"@
    } else if e is Incomplete {
        "Incomplete header"@
    } else {
        "Error parsing header"@
    }
}

/// The bytes of the page with the index `page_id` in a file of pages of
/// `page_size` bytes each, where `buffer` holds the whole of that page.
pub open spec fn page_bytes(buffer: Seq<u8>, page_size: u32, page_id: usize) -> Option<Seq<u8>> {
    if (page_id + 1) * page_size <= buffer.len() {
        Some(buffer.subrange(page_id * page_size, (page_id + 1) * page_size))
    } else {
        None
    }
}

/// The page that stands for one that was never allocated: of type
/// [`BTreePageType::NullPage`], with the header that zero bytes spell and
/// without cells.
pub open spec fn empty_page() -> BTreePageView {
    BTreePageView {
        header: BTreePageHeader {
            page_type: BTreePageType::NullPage,
            freeblock_offset: None,
            cell_count: 0,
            cell_content_offset: CONTENT_OFFSET_MAX,
            fragmented_free_byte_count: 0,
            right_most_pointer: None,
        },
        cell_pointer: Seq::empty(),
    }
}

impl Parser<SqliteFile> for SqliteFile {
    fn from_vec(buffer: &Vec<u8>) -> (r: Result<SqliteFile, String>)
        ensures
            match decode_header(buffer@) {
                Ok(header) => r is Ok && r->Ok_0@ == (SqliteFileView {
                    header: header,
                    buffer: buffer@,
                }),
                Err(e) => r is Err && r->Err_0@ == header_error_text(e),
            },
    {
        match header_parser(buffer.as_slice()) {
            Ok((_, file_header)) => Ok(SqliteFile::new(file_header, buffer.clone())),
            Err(ParserError::NotADatabaseFile) => Err("File is not SQLite Database".to_string()),
            Err(ParserError::Incomplete(_)) => Err("Incomplete header".to_string()),
            Err(_) => Err("Error parsing header".to_string()),
        }
    }

    fn is_valid(&self) -> (valid: bool)
        ensures
            valid == self@.header.fractions_valid(),
    {
        let header = self.header();
        header.max_embedded_payload_fraction == 64 && header.min_embedded_payload_fraction == 32
    }

    /// Page `page_id` takes the bytes from `page_id` times the page size on,
    /// as many as the page size says. A file header in front of the first
    /// page is passed over. A page that was never allocated comes out as
    /// the empty page.
    fn get_page(&self, page_id: usize) -> (r: Result<BTreePage, String>)
        ensures
            match page_bytes(self@.buffer, self@.header.page_size, page_id) {
                None => r is Err && r->Err_0@ == "Page out of range"@,
                Some(bytes) => match decode_page(bytes) {
                    Ok(Some(page)) => r is Ok && r->Ok_0@ == page,
                    Ok(None) => r is Ok && r->Ok_0@ == empty_page(),
                    Err(e) => r is Err && r->Err_0@ == error_text(e),
                },
            },
    {
        let buffer = self.buffer();
        let len = buffer.len();
        let page_size = self.header().page_size as usize;
        let start = match page_id.checked_mul(page_size) {
            Some(start) => start,
            None => {
                proof { lemma_pages_beyond(page_id as int, page_size as int, buffer@.len() as int); }
                return Err("Page out of range".to_string());
            },
        };
        let end = match start.checked_add(page_size) {
            Some(end) => end,
            None => {
                proof { lemma_pages_beyond(page_id as int, page_size as int, buffer@.len() as int); }
                return Err("Page out of range".to_string());
            },
        };
        proof { lemma_pages_beyond(page_id as int, page_size as int, buffer@.len() as int); }
        if end > len {
            return Err("Page out of range".to_string());
        }
        let bytes = slice_subrange(buffer.as_slice(), start, end);
        match btree_page_parser(bytes) {
            Ok((_, Some(page))) => Ok(page),
            Ok((_, None)) => Ok(
                BTreePage {
                    header: BTreePageHeader {
                        page_type: BTreePageType::NullPage,
                        freeblock_offset: None,
                        cell_count: 0,
                        cell_content_offset: CONTENT_OFFSET_MAX,
                        fragmented_free_byte_count: 0,
                        right_most_pointer: None,
                    },
                    cell_pointer: Vec::new(),
                },
            ),
            Err(ParserError::Incomplete(_)) => Err("Incomplete".to_string()),
            Err(_) => Err("Error".to_string()),
        }
    }
}

/// Page `page_id` ends where the next begins.
proof fn lemma_pages_beyond(page_id: int, page_size: int, len: int)
    requires
        0 <= page_id,
        0 <= page_size,
    ensures
        (page_id + 1) * page_size == page_id * page_size + page_size,
        0 <= page_id * page_size,
{
    assert((page_id + 1) * page_size == page_id * page_size + page_size) by (nonlinear_arith);
    assert(0 <= page_id * page_size) by (nonlinear_arith)
        requires
            0 <= page_id,
            0 <= page_size,
    ;
}

} // verus!
