//! The typed records that the decoders produce.

use vstd::prelude::*;
use crate::enums::{ReadVersion, SchemaFormat, TextEncoding, WriteVersion};
use crate::parser::ParserError;

verus! {

/// The file header: the first hundred bytes of a database file, decoded.
#[derive(Debug, Clone, Copy, PartialEq, Eq, Structural)]
pub struct Header {
    /// Page size in bytes; the stored value 1 is held here as 65536.
    pub page_size: u32,
    pub read_version: ReadVersion,
    pub write_version: WriteVersion,
    pub reserved_space: u8,
    /// The format fixes this at 64.
    pub max_embedded_payload_fraction: u8,
    /// The format fixes this at 32.
    pub min_embedded_payload_fraction: u8,
    pub leaf_payload_fraction: u8,
    pub file_change_counter: u32,
    pub database_size: u32,
    pub freelist_trunk_page: u32,
    pub freelist_count: u32,
    pub schema_cookie: u32,
    pub schema_format: SchemaFormat,
    pub default_page_cache_size: u32,
    pub largest_root_page: u32,
    pub text_encoding: TextEncoding,
    pub user_version: u32,
    pub incremental_vacuum_mode: bool,
    pub application_id: u32,
    pub version_valid_for: u32,
    pub sqlite_version: u32,
}

/// The text that the `Debug` form derived for [`Header`] writes for `h`.
pub uninterp spec fn header_text(h: Header) -> Seq<char>;

/// Formats `h` with `format!` and the `Debug` form that `derive` wrote for
/// [`Header`]: the struct's name, then each field's name and value in
/// declaration order. The contract only names that text.
#[verifier::external_body]
fn debug_format(h: &Header) -> (s: String)
    ensures
        s@ == header_text(*h),
{
    format!("{:?}", h)
}

impl Header {
    /// Whether the two payload fractions that the format fixes hold their
    /// fixed values.
    pub open spec fn fractions_valid(self) -> bool {
        self.max_embedded_payload_fraction == 64 && self.min_embedded_payload_fraction == 32
    }

    /// The record as text, in its `Debug` form.
    pub fn to_string(&self) -> (s: String)
        ensures
            s@ == header_text(*self),
    {
        debug_format(self)
    }
}

/// The kind of a B-tree page.
#[derive(Debug, Clone, Copy, PartialEq, Eq, Structural)]
pub enum BTreePageType {
    InteriorIndexPage,
    InteriorTablePage,
    LeafIndexPage,
    LeafTablePage,
    NullPage,
}

impl BTreePageType {
    /// The variant that the stored byte `raw` stands for.
    pub open spec fn of(raw: u8) -> Option<BTreePageType> {
        if raw == 0x00 {
            Some(BTreePageType::NullPage)
        } else if raw == 0x02 {
            Some(BTreePageType::InteriorIndexPage)
        } else if raw == 0x05 {
            Some(BTreePageType::InteriorTablePage)
        } else if raw == 0x0a {
            Some(BTreePageType::LeafIndexPage)
        } else if raw == 0x0d {
            Some(BTreePageType::LeafTablePage)
        } else {
            None
        }
    }

    /// The byte that is stored for the variant.
    pub open spec fn code(self) -> u8 {
        match self {
            BTreePageType::NullPage => 0x00,
            BTreePageType::InteriorIndexPage => 0x02,
            BTreePageType::InteriorTablePage => 0x05,
            BTreePageType::LeafIndexPage => 0x0a,
            BTreePageType::LeafTablePage => 0x0d,
        }
    }

    /// What mapping the stored byte `raw` comes to: its variant, or the byte
    /// itself reported as unknown.
    pub open spec fn spec_from_raw(raw: u8) -> Result<BTreePageType, ParserError> {
        match BTreePageType::of(raw) {
            Some(v) => Ok(v),
            None => Err(ParserError::UnknownValueU8(raw)),
        }
    }

    /// Maps a stored byte to its variant; a byte that names no page type is
    /// reported with its width.
    #[verifier::when_used_as_spec(spec_from_raw)]
    pub fn from_raw(raw: u8) -> (r: Result<BTreePageType, ParserError>)
        ensures
            r == BTreePageType::spec_from_raw(raw),
    {
        match raw {
            0x00 => Ok(BTreePageType::NullPage),
            0x02 => Ok(BTreePageType::InteriorIndexPage),
            0x05 => Ok(BTreePageType::InteriorTablePage),
            0x0a => Ok(BTreePageType::LeafIndexPage),
            0x0d => Ok(BTreePageType::LeafTablePage),
            x => Err(ParserError::UnknownValueU8(x)),
        }
    }

    /// Whether pages of this kind are interior pages, whose header ends
    /// with a right-most pointer.
    pub open spec fn spec_is_interior(self) -> bool {
        self == BTreePageType::InteriorIndexPage || self == BTreePageType::InteriorTablePage
    }

    /// Whether pages of this kind are interior pages, whose header ends
    /// with a right-most pointer.
    #[verifier::when_used_as_spec(spec_is_interior)]
    pub fn is_interior(self) -> (b: bool)
        ensures
            b == self.spec_is_interior(),
    {
        match self {
            BTreePageType::InteriorIndexPage | BTreePageType::InteriorTablePage => true,
            BTreePageType::LeafIndexPage | BTreePageType::LeafTablePage => false,
            BTreePageType::NullPage => false,
        }
    }
}

/// The page type byte and its variant stand for each other, and a byte
/// other than the five stands for no variant.
pub proof fn lemma_page_type_round_trip(raw: u8, page_type: BTreePageType)
    ensures
        raw != 0x00 && raw != 0x02 && raw != 0x05 && raw != 0x0a && raw != 0x0d
            ==> BTreePageType::from_raw(raw) == Err::<BTreePageType, ParserError>(
            ParserError::UnknownValueU8(raw),
        ),
        BTreePageType::from_raw(page_type.code()) == Ok::<BTreePageType, ParserError>(page_type),
        BTreePageType::from_raw(raw) == Ok::<BTreePageType, ParserError>(page_type)
            ==> page_type.code() == raw,
{
}

/// The header of a B-tree page.
#[derive(Debug, Clone, Copy, PartialEq, Eq, Structural)]
pub struct BTreePageHeader {
    pub page_type: BTreePageType,
    /// Offset of the first freeblock in the page; `None` where the page has
    /// no freeblocks (stored as 0).
    pub freeblock_offset: Option<u16>,
    pub cell_count: u16,
    /// Offset of the cell content area; the stored value 0 is held here as
    /// 65536.
    pub cell_content_offset: u32,
    pub fragmented_free_byte_count: u8,
    /// Present on interior pages only.
    pub right_most_pointer: Option<u32>,
}

impl BTreePageHeader {
    /// Whether the right-most pointer is present exactly on an interior
    /// page.
    pub open spec fn wf(self) -> bool {
        self.right_most_pointer is Some <==> self.page_type.is_interior()
    }
}

/// A B-tree page: its header and its cell pointers in the order in which
/// the page stores them.
#[derive(Debug, Clone, PartialEq, Eq)]
pub struct BTreePage {
    pub header: BTreePageHeader,
    pub cell_pointer: Vec<u16>,
}

/// What a [`BTreePage`] holds.
pub struct BTreePageView {
    pub header: BTreePageHeader,
    pub cell_pointer: Seq<u16>,
}

impl View for BTreePage {
    type V = BTreePageView;

    open spec fn view(&self) -> BTreePageView {
        BTreePageView { header: self.header, cell_pointer: self.cell_pointer@ }
    }
}

impl BTreePageView {
    /// Whether the header is well formed and counts the cell pointers that
    /// the page holds.
    pub open spec fn wf(self) -> bool {
        self.header.wf() && self.cell_pointer.len() == self.header.cell_count
    }
}

/// A database file: its decoded header and the bytes it was decoded from.
#[derive(Debug)]
pub struct SqliteFile {
    pub header: Header,
    buffer: Vec<u8>,
}

/// What a [`SqliteFile`] holds.
pub struct SqliteFileView {
    pub header: Header,
    pub buffer: Seq<u8>,
}

impl View for SqliteFile {
    type V = SqliteFileView;

    closed spec fn view(&self) -> SqliteFileView {
        SqliteFileView { header: self.header, buffer: self.buffer@ }
    }
}

impl SqliteFile {
    pub fn new(header: Header, buffer: Vec<u8>) -> (file: SqliteFile)
        ensures
            file@ == (SqliteFileView { header: header, buffer: buffer@ }),
    {
        SqliteFile { header: header, buffer: buffer }
    }

    /// The decoded header.
    pub fn header(&self) -> (h: Header)
        ensures
            h == self@.header,
    {
        self.header
    }

    /// The bytes of the file.
    pub fn buffer(&self) -> (b: &Vec<u8>)
        ensures
            b@ == self@.buffer,
    {
        &self.buffer
    }

    /// The header's text, as [`Header::to_string`] gives it.
    pub fn to_string(&self) -> (s: String)
        ensures
            s@ == header_text(self@.header),
    {
        self.header.to_string()
    }
}

} // verus!
