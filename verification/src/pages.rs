use vstd::prelude::*;

use crate::bytes::{be_int, lemma_be_int_bounds, lemma_pow256_values, read_be_u16, read_be_u32};
use crate::error::Error;

verus! {

/// B-tree page type.
#[derive(Debug, Clone, Copy, PartialEq, Eq, Structural)]
pub enum PageKind {
    IndexInterior,
    TableInterior,
    IndexLeaf,
    TableLeaf,
}

/// The page kind a header byte decodes to, if any; 2, 5, 10 and 13 are
/// the only valid codes.
pub open spec fn page_kind_of_byte(b: u8) -> Option<PageKind> {
    if b == 2 {
        Some(PageKind::IndexInterior)
    } else if b == 5 {
        Some(PageKind::TableInterior)
    } else if b == 10 {
        Some(PageKind::IndexLeaf)
    } else if b == 13 {
        Some(PageKind::TableLeaf)
    } else {
        None
    }
}

impl PageKind {
    pub open spec fn spec_is_interior(self) -> bool {
        self == PageKind::IndexInterior || self == PageKind::TableInterior
    }

    /// Whether this is one of the two interior kinds.
    pub fn is_interior(self) -> (r: bool)
        ensures
            r == self.spec_is_interior(),
    {
        match self {
            PageKind::IndexInterior | PageKind::TableInterior => true,
            _ => false,
        }
    }

    /// Decodes a page-kind byte; every byte outside {2, 5, 10, 13} is
    /// rejected.
    pub fn from_byte(value: u8) -> (r: Result<PageKind, Error>)
        ensures
            match r {
                Ok(k) => page_kind_of_byte(value) == Some(k),
                Err(e) => e == Error::InvalidPageKind(value) && page_kind_of_byte(value) is None,
            },
    {
        match value {
            2 => Ok(PageKind::IndexInterior),
            5 => Ok(PageKind::TableInterior),
            10 => Ok(PageKind::IndexLeaf),
            13 => Ok(PageKind::TableLeaf),
            _ => Err(Error::InvalidPageKind(value)),
        }
    }
}

/// The length in bytes of a b-tree page header of the given kind: interior
/// pages carry a 4-byte right-most pointer that leaf pages lack.
pub open spec fn spec_header_len(kind: PageKind) -> int {
    if kind.spec_is_interior() {
        12
    } else {
        8
    }
}

/// Header of a b-tree page.
#[derive(Debug, Clone, Copy, PartialEq)]
pub struct BtreeHeader {
    /// Page type.
    pub kind: PageKind,
    /// Offset of the first freeblock in the page, or 0 if there is none.
    pub first_freeblock: u16,
    /// Number of cells on the page.
    pub cell_count: u16,
    /// Start of the cell content area.
    pub cell_contents: u16,
    /// Number of fragmented free bytes.
    pub fragmented_free_bytes: u8,
    /// Child page whose keys are greater than every key on this page;
    /// present exactly on interior pages.
    pub rightmost_pointer: Option<u32>,
}

/// What parsing a b-tree page header from the start of `s` yields: the
/// header and its length (8 for leaf kinds, 12 for interior kinds), or
/// the exact failure. `s` must already start at the header, that is,
/// past the 100-byte file header on page 1.
pub open spec fn spec_parse_btree_header(s: Seq<u8>) -> Result<(BtreeHeader, int), Error> {
    if s.len() < 1 {
        Err(Error::Truncated)
    } else {
        match page_kind_of_byte(s[0]) {
            None => Err(Error::InvalidPageKind(s[0])),
            Some(kind) => {
                let n = spec_header_len(kind);
                if s.len() < n {
                    Err(Error::Truncated)
                } else {
                    Ok(
                        (
                            BtreeHeader {
                                kind,
                                first_freeblock: be_int(s, 1, 2) as u16,
                                cell_count: be_int(s, 3, 2) as u16,
                                cell_contents: be_int(s, 5, 2) as u16,
                                fragmented_free_bytes: s[7],
                                rightmost_pointer: if kind.spec_is_interior() {
                                    Some(be_int(s, 8, 4) as u32)
                                } else {
                                    None
                                },
                            },
                            n,
                        ),
                    )
                }
            },
        }
    }
}

/// Law: a successfully parsed page header carries a right-most pointer
/// exactly when its kind is interior, and it consumes exactly 4 bytes
/// more (12) than a leaf header does (8).
pub proof fn lemma_rightmost_pointer_presence(s: Seq<u8>)
    ensures
        match spec_parse_btree_header(s) {
            Ok((h, n)) => {
                &&& h.rightmost_pointer is Some <==> h.kind.spec_is_interior()
                &&& n == spec_header_len(h.kind)
                &&& (h.kind.spec_is_interior() ==> n == 12)
                &&& (!h.kind.spec_is_interior() ==> n == 8)
            },
            Err(_) => true,
        },
{
}

/// Parses the b-tree page header at the start of `data`, returning it
/// together with its length in bytes. A leaf header is exactly 4 bytes
/// shorter than an interior one, which ends in the right-most pointer.
pub fn parse_btree_header(data: &[u8]) -> (r: Result<(BtreeHeader, usize), Error>)
    ensures
        match r {
            Ok((h, n)) => spec_parse_btree_header(data@) == Ok::<_, Error>((h, n as int)),
            Err(e) => spec_parse_btree_header(data@) == Err::<(BtreeHeader, int), _>(e),
        },
{
    if data.len() < 1 {
        return Err(Error::Truncated);
    }
    let kind = match PageKind::from_byte(data[0]) {
        Ok(k) => k,
        Err(e) => {
            return Err(e);
        },
    };
    let n: usize = if kind.is_interior() {
        12
    } else {
        8
    };
    if data.len() < n {
        return Err(Error::Truncated);
    }
    proof {
        lemma_pow256_values();
        lemma_be_int_bounds(data@, 1, 2);
        lemma_be_int_bounds(data@, 3, 2);
        lemma_be_int_bounds(data@, 5, 2);
        if kind.spec_is_interior() {
            lemma_be_int_bounds(data@, 8, 4);
        }
    }
    let first_freeblock = read_be_u16(data, 1);
    let cell_count = read_be_u16(data, 3);
    let cell_contents = read_be_u16(data, 5);
    let fragmented_free_bytes = data[7];
    let rightmost_pointer = if kind.is_interior() {
        Some(read_be_u32(data, 8))
    } else {
        None
    };
    Ok(
        (
            BtreeHeader {
                kind,
                first_freeblock,
                cell_count,
                cell_contents,
                fragmented_free_bytes,
                rightmost_pointer,
            },
            n,
        ),
    )
}

/// Reads `n` big-endian 16-bit cell pointers from the start of `input`.
/// Fails exactly when `input` holds fewer than `2 * n` bytes.
pub fn cell_pointers(input: &[u8], n: usize) -> (r: Result<Vec<u16>, Error>)
    ensures
        match r {
            Ok(ptrs) => {
                &&& 2 * n <= input@.len()
                &&& ptrs@.len() == n
                &&& forall|i: int|
                    0 <= i < n ==> ptrs@[i] as int == be_int(input@, 2 * i, 2)
            },
            Err(e) => e == Error::Truncated && 2 * n > input@.len(),
        },
{
    if n > input.len() / 2 {
        return Err(Error::Truncated);
    }
    let mut ptrs: Vec<u16> = Vec::new();
    let mut i: usize = 0;
    while i < n
        invariant
            i <= n,
            2 * n <= input@.len(),
            ptrs@.len() == i,
            forall|j: int| 0 <= j < i ==> ptrs@[j] as int == be_int(input@, 2 * j, 2),
        decreases n - i,
    {
        let p = read_be_u16(input, 2 * i);
        ptrs.push(p);
        i = i + 1;
    }
    Ok(ptrs)
}

/// The page size a database file declares: the 2-byte big-endian field at
/// byte offset 16 of the file (so of page 1).
pub fn file_page_size(data: &[u8]) -> (r: Result<u16, Error>)
    ensures
        match r {
            Ok(ps) => data@.len() >= 18 && ps as int == be_int(data@, 16, 2),
            Err(e) => e == Error::Truncated && data@.len() < 18,
        },
{
    if data.len() < 18 {
        return Err(Error::Truncated);
    }
    Ok(read_be_u16(data, 16))
}

/// Where a page's b-tree header starts within the page: page 1 carries
/// the 100-byte file header first.
pub open spec fn spec_header_offset(page_id: u64) -> int {
    if page_id == 1 {
        100
    } else {
        0
    }
}

/// What parsing the header of page `page_id` from the full page bytes
/// `d` yields.
pub open spec fn spec_page_header(page_id: u64, d: Seq<u8>) -> Result<(BtreeHeader, int), Error> {
    if d.len() < spec_header_offset(page_id) {
        Err(Error::Truncated)
    } else {
        spec_parse_btree_header(d.skip(spec_header_offset(page_id)))
    }
}

/// One page of the database file: its 1-based id, its full byte buffer,
/// and its parsed b-tree header.
pub struct Page {
    pub page_id: u64,
    pub data: Vec<u8>,
    pub header: BtreeHeader,
}

impl Page {
    /// A page is well formed when its header field is exactly what its
    /// bytes decode to.
    pub open spec fn wf(self) -> bool {
        &&& self.page_id >= 1
        &&& spec_page_header(self.page_id, self.data@) == Ok::<_, Error>(
            (self.header, spec_header_len(self.header.kind)),
        )
    }

    /// Builds a page from its raw bytes, parsing the b-tree header from
    /// byte 100 on page 1 and from byte 0 elsewhere.
    pub fn from_bytes(page_id: u64, data: Vec<u8>) -> (r: Result<Page, Error>)
        requires
            page_id >= 1,
        ensures
            match r {
                Ok(p) => {
                    &&& p.page_id == page_id
                    &&& p.data@ == data@
                    &&& p.wf()
                },
                Err(e) => spec_page_header(page_id, data@) == Err::<(BtreeHeader, int), _>(e),
            },
    {
        let off: usize = if page_id == 1 {
            100
        } else {
            0
        };
        if data.len() < off {
            return Err(Error::Truncated);
        }
        let region = vstd::slice::slice_subrange(data.as_slice(), off, data.len());
        proof {
            assert(region@ =~= data@.skip(spec_header_offset(page_id)));
        }
        match parse_btree_header(region) {
            Ok((header, _)) => Ok(Page { page_id, data, header }),
            Err(e) => Err(e),
        }
    }
}

} // verus!
