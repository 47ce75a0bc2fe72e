use sqlite_reader::error::Error;
use sqlite_reader::pages::{cell_pointers, file_page_size, parse_btree_header, Page, PageKind};

#[test]
fn page_kind_valid_bytes() {
    assert_eq!(PageKind::from_byte(2), Ok(PageKind::IndexInterior));
    assert_eq!(PageKind::from_byte(5), Ok(PageKind::TableInterior));
    assert_eq!(PageKind::from_byte(10), Ok(PageKind::IndexLeaf));
    assert_eq!(PageKind::from_byte(13), Ok(PageKind::TableLeaf));
}

#[test]
fn page_kind_invalid_bytes() {
    for b in 0u16..=255 {
        let b = b as u8;
        if b == 2 || b == 5 || b == 10 || b == 13 {
            assert!(PageKind::from_byte(b).is_ok());
        } else {
            assert_eq!(PageKind::from_byte(b), Err(Error::InvalidPageKind(b)));
        }
    }
}

#[test]
fn leaf_header_has_no_rightmost_pointer() {
    // kind 13, first freeblock 0, 3 cells, content from 0x01f0, 0 fragments
    let bytes = [13u8, 0, 0, 0, 3, 0x01, 0xf0, 0, 0xde, 0xad, 0xbe, 0xef];
    let (h, n) = parse_btree_header(&bytes).unwrap();
    assert_eq!(n, 8);
    assert_eq!(h.kind, PageKind::TableLeaf);
    assert_eq!(h.first_freeblock, 0);
    assert_eq!(h.cell_count, 3);
    assert_eq!(h.cell_contents, 0x01f0);
    assert_eq!(h.fragmented_free_bytes, 0);
    assert_eq!(h.rightmost_pointer, None);
}

#[test]
fn interior_header_has_rightmost_pointer() {
    let bytes = [5u8, 0, 0, 0, 3, 0x01, 0xf0, 0, 0, 0, 0, 7];
    let (h, n) = parse_btree_header(&bytes).unwrap();
    assert_eq!(n, 12);
    assert_eq!(h.kind, PageKind::TableInterior);
    assert_eq!(h.rightmost_pointer, Some(7));
}

#[test]
fn header_lengths_differ_by_exactly_four() {
    let leaf = [13u8, 0, 0, 0, 1, 0, 64, 0, 0, 0, 0, 9];
    let interior = [5u8, 0, 0, 0, 1, 0, 64, 0, 0, 0, 0, 9];
    let (_, leaf_len) = parse_btree_header(&leaf).unwrap();
    let (_, interior_len) = parse_btree_header(&interior).unwrap();
    assert_eq!(interior_len - leaf_len, 4);
}

#[test]
fn interior_header_needs_twelve_bytes() {
    // 8 bytes suffice for a leaf but not for an interior header
    let short = [5u8, 0, 0, 0, 1, 0, 64, 0];
    assert_eq!(parse_btree_header(&short), Err(Error::Truncated));
    let leaf = [13u8, 0, 0, 0, 1, 0, 64, 0];
    assert!(parse_btree_header(&leaf).is_ok());
}

#[test]
fn bad_kind_byte_fails() {
    let bytes = [3u8, 0, 0, 0, 1, 0, 64, 0, 0, 0, 0, 0];
    assert_eq!(parse_btree_header(&bytes), Err(Error::InvalidPageKind(3)));
}

#[test]
fn cell_pointers_read_in_order() {
    let input = [0x01u8, 0x00, 0x00, 0x40, 0x02, 0x10];
    let ptrs = cell_pointers(&input, 3).unwrap();
    assert_eq!(ptrs, vec![0x0100, 0x0040, 0x0210]);
}

#[test]
fn cell_pointers_short_input_fails() {
    let input = [0x01u8, 0x00, 0x00];
    assert_eq!(cell_pointers(&input, 2), Err(Error::Truncated));
}

#[test]
fn page_size_is_read_at_offset_16() {
    let mut data = vec![0u8; 100];
    data[16] = 0x10;
    data[17] = 0x00;
    assert_eq!(file_page_size(&data), Ok(0x1000));
    assert_eq!(file_page_size(&data[..10]), Err(Error::Truncated));
}

#[test]
fn page_one_header_is_read_past_file_header() {
    let mut data = vec![0u8; 512];
    data[16] = 0x02; // page size 512
    data[100] = 13;
    data[104] = 1; // one cell
    data[106] = 0xf0;
    let page = Page::from_bytes(1, data).unwrap();
    assert_eq!(page.header.kind, PageKind::TableLeaf);
    assert_eq!(page.header.cell_count, 1);

    let mut other = vec![0u8; 512];
    other[0] = 13;
    other[4] = 2;
    let page2 = Page::from_bytes(2, other).unwrap();
    assert_eq!(page2.header.cell_count, 2);
}
