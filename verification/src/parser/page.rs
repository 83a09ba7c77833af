//! The B-tree page: a header of eight bytes, or twelve on an interior
//! page, and behind it one 16-bit pointer for each cell.
//!
//! | bytes  | field                                        |
//! |--------|----------------------------------------------|
//! | 0      | page type                                    |
//! | 1..3   | offset of the first freeblock, 0 for none    |
//! | 3..5   | number of cells                              |
//! | 5..7   | offset of the cell content, 0 for 65536      |
//! | 7      | number of fragmented free bytes              |
//! | 8..12  | right-most pointer, on interior pages only   |
//!
//! All numbers are stored high byte first.

use vstd::prelude::*;
use crate::data_structures::{BTreePage, BTreePageHeader, BTreePageType, BTreePageView};
use crate::parser::generic::{agrees, be16, be32, read_u16, read_u32, read_u8, starts_with, tag, take, took};
use crate::parser::header::magic;
use crate::parser::{ParserError, HEADER_STRING};

verus! {

/// The cell content offset that the stored value 0 stands for.
pub const CONTENT_OFFSET_MAX: u32 = 65536;

/// What the stored freeblock offset `raw` comes to: 0 says that the page
/// has no freeblock.
pub open spec fn freeblock_offset_of(raw: u16) -> Option<u16> {
    if raw == 0 {
        None
    } else {
        Some(raw)
    }
}

/// What the stored cell content offset `raw` comes to: 0 stands for 65536.
pub open spec fn cell_content_offset_of(raw: u16) -> u32 {
    if raw == 0 {
        CONTENT_OFFSET_MAX
    } else {
        raw as u32
    }
}

/// The length of the header of a page of type `page_type`.
pub open spec fn page_header_len(page_type: BTreePageType) -> int {
    if page_type.is_interior() {
        12
    } else {
        8
    }
}

/// The end of the page header field that holds the byte at offset `at`.
pub open spec fn page_field_end(at: int) -> int
    recommends
        0 <= at < 12,
{
    if at < 1 {
        1
    } else if at < 3 {
        3
    } else if at < 5 {
        5
    } else if at < 7 {
        7
    } else if at < 8 {
        8
    } else {
        12
    }
}

/// The first thing wrong with `s` as a page header: no byte at all; then a
/// first byte that names no page type; then, `s` being shorter than the
/// header of its type, the count of bytes missing from the field in which
/// `s` ends.
pub open spec fn page_header_fault(s: Seq<u8>) -> Option<ParserError> {
    if s.len() < 1 {
        Some(ParserError::short_by(1))
    } else if BTreePageType::of(s[0]) is None {
        Some(ParserError::UnknownValueU8(s[0]))
    } else if s.len() < page_header_len(BTreePageType::of(s[0]).unwrap()) {
        Some(ParserError::short_by(page_field_end(s.len() as int) - s.len()))
    } else {
        None
    }
}

/// The page header that the first bytes of `s` spell.
pub open spec fn page_header_record(s: Seq<u8>) -> BTreePageHeader
    recommends
        page_header_fault(s) is None,
{
    let page_type = BTreePageType::of(s[0]).unwrap();
    BTreePageHeader {
        page_type: page_type,
        freeblock_offset: freeblock_offset_of(be16(s, 1)),
        cell_count: be16(s, 3),
        cell_content_offset: cell_content_offset_of(be16(s, 5)),
        fragmented_free_byte_count: s[7],
        right_most_pointer: if page_type.is_interior() {
            Some(be32(s, 8))
        } else {
            None
        },
    }
}

/// What decoding `s` as a page header comes to.
pub open spec fn decode_page_header(s: Seq<u8>) -> Result<BTreePageHeader, ParserError> {
    match page_header_fault(s) {
        Some(e) => Err(e),
        None => Ok(page_header_record(s)),
    }
}

/// Whether `r` is what decoding the page header at the front of `i` comes
/// to: the header with the input after it, or the fault.
pub open spec fn page_header_decoded(
    i: Seq<u8>,
    r: Result<(&[u8], BTreePageHeader), ParserError>,
) -> bool {
    match r {
        Ok((rest, header)) => decode_page_header(i) == Ok::<BTreePageHeader, ParserError>(header)
            && rest@ == i.skip(page_header_len(header.page_type)),
        Err(e) => decode_page_header(i) == Err::<BTreePageHeader, ParserError>(e),
    }
}

/// Reads the page type.
pub fn btree_page_type_parser(i: &[u8]) -> (r: Result<(&[u8], BTreePageType), ParserError>)
    ensures
        took(i@, 1, BTreePageType::from_raw(i@[0]), r),
{
    let (rest, raw) = match read_u8(i) {
        Ok(read) => read,
        Err(e) => return Err(e),
    };
    match BTreePageType::from_raw(raw) {
        Ok(page_type) => Ok((rest, page_type)),
        Err(e) => Err(e),
    }
}

/// Reads the offset of the first freeblock.
pub fn freeblock_offset_parser(i: &[u8]) -> (r: Result<(&[u8], Option<u16>), ParserError>)
    ensures
        took(i@, 2, Ok(freeblock_offset_of(be16(i@, 0))), r),
{
    let (rest, raw) = match read_u16(i) {
        Ok(read) => read,
        Err(e) => return Err(e),
    };
    match raw {
        0 => Ok((rest, None)),
        x => Ok((rest, Some(x))),
    }
}

/// Reads the offset of the cell content.
pub fn cell_content_offset_parser(i: &[u8]) -> (r: Result<(&[u8], u32), ParserError>)
    ensures
        took(i@, 2, Ok(cell_content_offset_of(be16(i@, 0))), r),
{
    let (rest, raw) = match read_u16(i) {
        Ok(read) => read,
        Err(e) => return Err(e),
    };
    match raw {
        0 => Ok((rest, CONTENT_OFFSET_MAX)),
        x => Ok((rest, x as u32)),
    }
}

/// Reads the right-most pointer of an interior page; on a page of another
/// type there is none, and nothing is read.
pub fn parse_right_most_pointer<'a>(i: &'a [u8], page_type: &BTreePageType) -> (r: Result<
    (&'a [u8], Option<u32>),
    ParserError,
>)
    ensures
        page_type.is_interior() ==> took(i@, 4, Ok(Some(be32(i@, 0))), r),
        !page_type.is_interior() ==> r == Ok::<(&[u8], Option<u32>), ParserError>((i, None)),
{
    match *page_type {
        BTreePageType::InteriorIndexPage | BTreePageType::InteriorTablePage => {
            match read_u32(i) {
                Ok((rest, pointer)) => Ok((rest, Some(pointer))),
                Err(e) => Err(e),
            }
        },
        BTreePageType::LeafIndexPage | BTreePageType::LeafTablePage => Ok((i, None)),
        BTreePageType::NullPage => Ok((i, None)),
    }
}

proof fn lemma_advance(s: Seq<u8>, at: int, width: int)
    requires
        0 <= at,
        0 <= width,
        at + width <= s.len(),
    ensures
        s.skip(at).skip(width) == s.skip(at + width),
{
    assert(s.skip(at).skip(width) =~= s.skip(at + width));
}

/// Decodes the page header at the front of `i`: gives the input after it,
/// then the header. The right-most pointer is read on an interior page and
/// on no other.
pub fn btree_page_header_parser(i: &[u8]) -> (r: Result<(&[u8], BTreePageHeader), ParserError>)
    ensures
        page_header_decoded(i@, r),
        r matches Ok((rest, header)) ==> header.wf(),
        r matches Ok((rest, header)) ==> (i@[0] == 0x0d ==> header.right_most_pointer is None
            && rest@ == i@.skip(8)),
        r matches Ok((rest, header)) ==> (i@[0] == 0x05 ==> header.right_most_pointer is Some
            && rest@ == i@.skip(12)),
{
    let (i1, page_type) = match btree_page_type_parser(i) {
        Ok(read) => read,
        Err(e) => return Err(e),
    };
    let (i3, freeblock_offset) = match freeblock_offset_parser(i1) {
        Ok(read) => read,
        Err(e) => return Err(e),
    };
    proof { lemma_advance(i@, 1, 2); }
    let (i5, cell_count) = match read_u16(i3) {
        Ok(read) => read,
        Err(e) => return Err(e),
    };
    proof { lemma_advance(i@, 3, 2); }
    let (i7, cell_content_offset) = match cell_content_offset_parser(i5) {
        Ok(read) => read,
        Err(e) => return Err(e),
    };
    proof { lemma_advance(i@, 5, 2); }
    let (i8, fragmented_free_byte_count) = match read_u8(i7) {
        Ok(read) => read,
        Err(e) => return Err(e),
    };
    proof { lemma_advance(i@, 7, 1); }
    let (rest, right_most_pointer) = match parse_right_most_pointer(i8, &page_type) {
        Ok(read) => read,
        Err(e) => return Err(e),
    };
    proof {
        if page_type.is_interior() {
            lemma_advance(i@, 8, 4);
        }
    }
    Ok(
        (
            rest,
            BTreePageHeader {
                page_type: page_type,
                freeblock_offset: freeblock_offset,
                cell_count: cell_count,
                cell_content_offset: cell_content_offset,
                fragmented_free_byte_count: fragmented_free_byte_count,
                right_most_pointer: right_most_pointer,
            },
        ),
    )
}

/// The two zero bytes that open a page that was never allocated.
pub const NULL_PAGE: [u8; 2] = [0x00, 0x00];

/// What is left of `s` once the file header in front of the first page is
/// passed over; a page that does not open with the magic text is left whole.
pub open spec fn page_body(s: Seq<u8>) -> Seq<u8> {
    if starts_with(s, magic()) {
        s.skip(100)
    } else {
        s
    }
}

/// The end of the part of a passed-over file header that holds the byte at
/// offset `at`: the magic text, or all that follows it.
pub open spec fn passed_end(at: int) -> int
    recommends
        0 <= at < 100,
{
    if at < 16 {
        16
    } else {
        100
    }
}

/// Whether `r` is what passing over a file header at the front of `i` comes
/// to: the input after its hundred bytes, `None` where `i` does not open
/// with the magic text, or the count of bytes missing from the magic text
/// or from the rest of the header.
pub open spec fn file_header_ignored(i: Seq<u8>, r: Result<Option<&[u8]>, ParserError>) -> bool {
    match r {
        Ok(Some(rest)) => starts_with(i, magic()) && i.len() >= 100 && rest@ == i.skip(100),
        Ok(None) => !agrees(i, magic()),
        Err(e) => agrees(i, magic()) && i.len() < 100 && e == ParserError::short_by(
            passed_end(i.len() as int) - i.len(),
        ),
    }
}

/// Passes over a file header at the front of `i`, if there is one.
pub fn ignore_file_header(i: &[u8]) -> (r: Result<Option<&[u8]>, ParserError>)
    ensures
        file_header_ignored(i@, r),
{
    let pattern = HEADER_STRING;
    let i16 = match tag(i, pattern.as_slice()) {
        Ok(Some(rest)) => rest,
        Ok(None) => return Ok(None),
        Err(e) => return Err(e),
    };
    match take(i16, 84) {
        Ok((rest, _)) => {
            proof { lemma_advance(i@, 16, 84); }
            Ok(Some(rest))
        },
        Err(e) => Err(e),
    }
}

/// The `count` 16-bit numbers at the front of `s`, in stored order.
pub open spec fn cell_pointers_of(s: Seq<u8>, count: int) -> Seq<u16> {
    Seq::new(count as nat, |k: int| be16(s, 2 * k))
}

/// Reads `count` 16-bit cell pointers: gives the input after them, then
/// the pointers in stored order. Where the input ends first, the error
/// counts the bytes missing from the pointer in which it ends.
pub fn cell_pointers(i: &[u8], count: u16) -> (r: Result<(&[u8], Vec<u16>), ParserError>)
    ensures
        match r {
            Ok((rest, pointers)) => i@.len() >= 2 * count && rest@ == i@.skip(2 * count)
                && pointers@ == cell_pointers_of(i@, count as int),
            Err(e) => i@.len() < 2 * count && e == ParserError::short_by(2 - i@.len() % 2),
        },
{
    let mut pointers: Vec<u16> = Vec::new();
    let mut input = i;
    let mut k: u16 = 0;
    while k < count
        invariant
            k <= count,
            2 * k <= i@.len(),
            input@ == i@.skip(2 * k),
            pointers@ == cell_pointers_of(i@, k as int),
        decreases count - k,
    {
        match read_u16(input) {
            Ok((rest, pointer)) => {
                proof {
                    lemma_advance(i@, 2 * k, 2);
                    assert(pointers@.push(pointer) =~= cell_pointers_of(i@, k + 1));
                }
                pointers.push(pointer);
                input = rest;
            },
            Err(e) => {
                return Err(e);
            },
        }
        k += 1;
    }
    Ok((input, pointers))
}

/// The bytes of `s` that a page takes: two for a page that was never
/// allocated; else the file header, if there is one, the page header and
/// the cell pointers.
pub open spec fn page_len(s: Seq<u8>) -> int {
    if starts_with(s, NULL_PAGE@) {
        2
    } else {
        let header = page_header_record(page_body(s));
        (s.len() - page_body(s).len()) + page_header_len(header.page_type) + 2 * header.cell_count
    }
}

/// The first thing wrong with `s` as a page: an input that ends inside the
/// two zero bytes of a page that was never allocated; then one that ends
/// inside a file header; then a fault of the page header; then an input
/// that ends inside a cell pointer.
pub open spec fn page_fault(s: Seq<u8>) -> Option<ParserError> {
    if agrees(s, NULL_PAGE@) {
        if s.len() < 2 {
            Some(ParserError::short_by(2 - s.len()))
        } else {
            None
        }
    } else if agrees(s, magic()) && s.len() < 100 {
        Some(ParserError::short_by(passed_end(s.len() as int) - s.len()))
    } else {
        let body = page_body(s);
        let header = page_header_record(body);
        let cells = body.skip(page_header_len(header.page_type));
        if page_header_fault(body) is Some {
            page_header_fault(body)
        } else if cells.len() < 2 * header.cell_count {
            Some(ParserError::short_by(2 - cells.len() % 2))
        } else {
            None
        }
    }
}

/// The page that `s` spells: `None` for a page that was never allocated,
/// else the header and the cell pointers behind it.
pub open spec fn page_record(s: Seq<u8>) -> Option<BTreePageView>
    recommends
        page_fault(s) is None,
{
    if starts_with(s, NULL_PAGE@) {
        None
    } else {
        let body = page_body(s);
        let header = page_header_record(body);
        Some(
            BTreePageView {
                header: header,
                cell_pointer: cell_pointers_of(
                    body.skip(page_header_len(header.page_type)),
                    header.cell_count as int,
                ),
            },
        )
    }
}

/// What decoding `s` as a page comes to.
pub open spec fn decode_page(s: Seq<u8>) -> Result<Option<BTreePageView>, ParserError> {
    match page_fault(s) {
        Some(e) => Err(e),
        None => Ok(page_record(s)),
    }
}

/// The view of a page that may be absent.
pub open spec fn page_view(page: Option<BTreePage>) -> Option<BTreePageView> {
    match page {
        Some(p) => Some(p@),
        None => None,
    }
}

/// Whether `r` is what decoding the page at the front of `i` comes to: the
/// page with the input after it, or the fault.
pub open spec fn page_decoded(i: Seq<u8>, r: Result<(&[u8], Option<BTreePage>), ParserError>) -> bool {
    match r {
        Ok((rest, page)) => decode_page(i) == Ok::<Option<BTreePageView>, ParserError>(
            page_view(page),
        ) && rest@ == i.skip(page_len(i)),
        Err(e) => decode_page(i) == Err::<Option<BTreePageView>, ParserError>(e),
    }
}

/// Decodes the page at the front of `i`: gives the input after it, then
/// the page. Two zero bytes stand for a page that was never allocated:
/// they are passed over and `None` is given. A file header in front of the
/// page is passed over. The cell pointers come in stored order.
pub fn btree_page_parser(i: &[u8]) -> (r: Result<(&[u8], Option<BTreePage>), ParserError>)
    ensures
        page_decoded(i@, r),
        r matches Ok((rest, Some(page))) ==> page@.wf(),
{
    let null = NULL_PAGE;
    match tag(i, null.as_slice()) {
        Ok(Some(rest)) => return Ok((rest, None)),
        Ok(None) => {},
        Err(e) => return Err(e),
    }
    let body = match ignore_file_header(i) {
        Ok(Some(rest)) => rest,
        Ok(None) => i,
        Err(e) => return Err(e),
    };
    let (cells, header) = match btree_page_header_parser(body) {
        Ok(read) => read,
        Err(e) => return Err(e),
    };
    let (rest, cell_pointer) = match cell_pointers(cells, header.cell_count) {
        Ok(read) => read,
        Err(e) => return Err(e),
    };
    proof {
        let start = i@.len() - body@.len();
        lemma_advance(body@, page_header_len(header.page_type), 2 * header.cell_count);
        if start == 100 {
            lemma_advance(i@, 100, page_header_len(header.page_type) + 2 * header.cell_count);
        } else {
            assert(i@.skip(0) =~= i@);
        }
    }
    Ok((rest, Some(BTreePage { header: header, cell_pointer: cell_pointer })))
}

/// The header of a leaf table page takes eight bytes and holds no
/// right-most pointer: eight bytes are enough to decode it, and the cell
/// pointers begin behind the eighth.
pub proof fn lemma_leaf_table_header(s: Seq<u8>)
    requires
        s.len() >= 8,
        s[0] == 0x0d,
    ensures
        decode_page_header(s) matches Ok(header) && header.page_type
            == BTreePageType::LeafTablePage && header.right_most_pointer is None
            && page_header_len(header.page_type) == 8,
{
}

/// The header of an interior table page takes twelve bytes, the last four
/// of them the right-most pointer, and the cell pointers begin behind the
/// twelfth. With fewer than twelve bytes the header is incomplete.
pub proof fn lemma_interior_table_header(s: Seq<u8>)
    requires
        s.len() >= 1,
        s[0] == 0x05,
    ensures
        s.len() >= 12 ==> (decode_page_header(s) matches Ok(header) && header.page_type
            == BTreePageType::InteriorTablePage && header.right_most_pointer == Some(be32(s, 8))
            && page_header_len(header.page_type) == 12),
        s.len() < 12 ==> (decode_page_header(s) matches Err(e) && e is Incomplete),
{
}

/// A decoded page header holds a right-most pointer exactly on an interior
/// page, and takes twelve bytes exactly then, else eight.
pub proof fn lemma_page_header_shape(s: Seq<u8>)
    requires
        decode_page_header(s) is Ok,
    ensures
        decode_page_header(s)->Ok_0.wf(),
        page_header_len(decode_page_header(s)->Ok_0.page_type) <= s.len(),
{
}

/// A decoded page holds as many cell pointers as its header counts, in
/// stored order: pointer `k` is the number at the `k`-th place behind the
/// page header.
pub proof fn lemma_page_cell_pointers(s: Seq<u8>, k: int)
    requires
        decode_page(s) matches Ok(Some(page)),
        0 <= k < decode_page(s)->Ok_0->Some_0.header.cell_count,
    ensures
        decode_page(s)->Ok_0->Some_0.wf(),
        decode_page(s)->Ok_0->Some_0.cell_pointer[k] == be16(
            page_body(s),
            page_header_len(decode_page(s)->Ok_0->Some_0.header.page_type) + 2 * k,
        ),
{
    let body = page_body(s);
    let start = page_header_len(page_header_record(body).page_type);
    let cells = body.skip(start);
    assert(!agrees(s, NULL_PAGE@)) by {
        if agrees(s, NULL_PAGE@) && s.len() >= 2 {
            assert(s.take(2) =~= NULL_PAGE@);
        }
    }
    assert(page_header_fault(body) is None);
    assert(2 * k + 2 <= cells.len());
    assert(cells[2 * k] == body[start + 2 * k]);
    assert(cells[2 * k + 1] == body[start + 2 * k + 1]);
}

/// Decoding one input twice gives one result: the same header and the same
/// rest, or the same fault.
pub proof fn lemma_page_header_parser_deterministic(
    i: Seq<u8>,
    first: Result<(&[u8], BTreePageHeader), ParserError>,
    second: Result<(&[u8], BTreePageHeader), ParserError>,
)
    requires
        page_header_decoded(i, first),
        page_header_decoded(i, second),
    ensures
        first == second,
{
    if first is Ok {
        assert(first->Ok_0.0 =~= second->Ok_0.0);
    }
}

/// Decoding one input twice gives one result: pages that hold the same,
/// with the same rest, or the same fault.
pub proof fn lemma_page_parser_deterministic(
    i: Seq<u8>,
    first: Result<(&[u8], Option<BTreePage>), ParserError>,
    second: Result<(&[u8], Option<BTreePage>), ParserError>,
)
    requires
        page_decoded(i, first),
        page_decoded(i, second),
    ensures
        first is Ok <==> second is Ok,
        first is Ok ==> first->Ok_0.0 == second->Ok_0.0 && page_view(first->Ok_0.1) == page_view(
            second->Ok_0.1,
        ),
        first is Err ==> first->Err_0 == second->Err_0,
{
    if first is Ok {
        assert(first->Ok_0.0 =~= second->Ok_0.0);
    }
}

} // verus!
