use vstd::prelude::*;

use crate::bytes::be_int;
use crate::error::Error;
use crate::pages::{spec_header_len, Page, PageKind};
use crate::record::{parse_payload, spec_parse_payload, Value, ValueV};
use crate::varint::{spec_varint, varint};

verus! {

/// The payload part of a [`Cell`]: the record bytes it carries, their
/// declared size, and the overflow-page indicator (present in the format
/// but never resolved here).
#[derive(Debug, PartialEq)]
pub struct Payload {
    pub size: u64,
    pub payload: Vec<u8>,
    pub overflow: Option<u32>,
}

/// The mathematical shape of a [`Payload`].
pub struct PayloadV {
    pub size: u64,
    pub payload: Seq<u8>,
    pub overflow: Option<u32>,
}

impl View for Payload {
    type V = PayloadV;

    open spec fn view(&self) -> PayloadV {
        PayloadV { size: self.size, payload: self.payload@, overflow: self.overflow }
    }
}

/// One cell of a b-tree page, tagged by the page kind it was decoded
/// under.
#[derive(Debug, PartialEq)]
pub enum Cell {
    /// Table leaf cell: a row id and the row's record payload.
    TableLeaf { rowid: u64, payload: Payload },
    /// Table interior cell: a left child page and a row id, no payload.
    TableInterior { left_child_page: u32, rowid: u64 },
    /// Index leaf cell: payload only.
    IndexLeaf { payload: Payload },
    /// Index interior cell: a left child page and a payload.
    IndexInterior { left_child_page: u32, payload: Payload },
}

/// The mathematical shape of a [`Cell`].
pub enum CellV {
    TableLeaf { rowid: u64, payload: PayloadV },
    TableInterior { left_child_page: u32, rowid: u64 },
    IndexLeaf { payload: PayloadV },
    IndexInterior { left_child_page: u32, payload: PayloadV },
}

impl View for Cell {
    type V = CellV;

    open spec fn view(&self) -> CellV {
        match self {
            Cell::TableLeaf { rowid, payload } => CellV::TableLeaf {
                rowid: *rowid,
                payload: payload@,
            },
            Cell::TableInterior { left_child_page, rowid } => CellV::TableInterior {
                left_child_page: *left_child_page,
                rowid: *rowid,
            },
            Cell::IndexLeaf { payload } => CellV::IndexLeaf { payload: payload@ },
            Cell::IndexInterior { left_child_page, payload } => CellV::IndexInterior {
                left_child_page: *left_child_page,
                payload: payload@,
            },
        }
    }
}

/// The payload a cell carries, if any: table interior cells have none.
pub open spec fn spec_payload_of(c: CellV) -> Option<PayloadV> {
    match c {
        CellV::TableLeaf { payload, .. } => Some(payload),
        CellV::TableInterior { .. } => None,
        CellV::IndexLeaf { payload } => Some(payload),
        CellV::IndexInterior { payload, .. } => Some(payload),
    }
}

impl Cell {
    /// The payload carried by this cell; table interior cells have none.
    pub fn get_payload(&self) -> (r: Option<&Payload>)
        ensures
            match r {
                Some(p) => spec_payload_of(self@) == Some(p@),
                None => spec_payload_of(self@) is None,
            },
    {
        match self {
            Cell::TableLeaf { payload, .. } => Some(payload),
            Cell::TableInterior { .. } => None,
            Cell::IndexLeaf { payload } => Some(payload),
            Cell::IndexInterior { payload, .. } => Some(payload),
        }
    }
}

impl Payload {
    /// Decodes this payload's record into its ordered column values.
    pub fn parse(&self) -> (r: Result<Vec<Value>, Error>)
        ensures
            match r {
                Ok(vs) => spec_parse_payload(self.payload@) == Ok::<_, Error>(
                    vs@.map_values(|v: Value| v@),
                ),
                Err(e) => spec_parse_payload(self.payload@) == Err::<Seq<ValueV>, _>(e),
            },
    {
        parse_payload(self.payload.as_slice())
    }
}

/// What decoding one cell at the start of `s` under page kind `kind`
/// yields. Table-leaf cells read a payload-size varint and a row-id
/// varint, then take exactly payload-size bytes; index cells read the
/// size varint (interior ones after a 4-byte child pointer) and then the
/// payload; table-interior cells read a 4-byte child pointer and a
/// row-id varint and carry no payload.
pub open spec fn spec_parse_cell(kind: PageKind, s: Seq<u8>) -> Result<CellV, Error> {
    match kind {
        PageKind::TableLeaf => match spec_varint(s) {
            None => Err(Error::Truncated),
            Some((size, n1)) => {
                if !(1 <= n1 <= s.len()) {
                    Err(Error::Truncated)
                } else {
                    match spec_varint(s.skip(n1)) {
                        None => Err(Error::Truncated),
                        Some((rowid, n2)) => {
                            if !(1 <= n2) || size < 0 || n1 + n2 + size > s.len() {
                                Err(Error::Truncated)
                            } else {
                                Ok(
                                    CellV::TableLeaf {
                                        rowid: rowid as u64,
                                        payload: PayloadV {
                                            size: size as u64,
                                            payload: s.subrange(n1 + n2, n1 + n2 + size),
                                            overflow: None,
                                        },
                                    },
                                )
                            }
                        },
                    }
                }
            },
        },
        PageKind::TableInterior => {
            if s.len() < 4 {
                Err(Error::Truncated)
            } else {
                match spec_varint(s.skip(4)) {
                    None => Err(Error::Truncated),
                    Some((rowid, _)) => Ok(
                        CellV::TableInterior {
                            left_child_page: be_int(s, 0, 4) as u32,
                            rowid: rowid as u64,
                        },
                    ),
                }
            }
        },
        PageKind::IndexLeaf => match spec_varint(s) {
            None => Err(Error::Truncated),
            Some((size, n1)) => {
                if !(1 <= n1) || size < 0 || n1 + size > s.len() {
                    Err(Error::Truncated)
                } else {
                    Ok(
                        CellV::IndexLeaf {
                            payload: PayloadV {
                                size: size as u64,
                                payload: s.subrange(n1, n1 + size),
                                overflow: None,
                            },
                        },
                    )
                }
            },
        },
        PageKind::IndexInterior => {
            if s.len() < 4 {
                Err(Error::Truncated)
            } else {
                match spec_varint(s.skip(4)) {
                    None => Err(Error::Truncated),
                    Some((size, n1)) => {
                        if !(1 <= n1) || size < 0 || 4 + n1 + size > s.len() {
                            Err(Error::Truncated)
                        } else {
                            Ok(
                                CellV::IndexInterior {
                                    left_child_page: be_int(s, 0, 4) as u32,
                                    payload: PayloadV {
                                        size: size as u64,
                                        payload: s.subrange(4 + n1, 4 + n1 + size),
                                        overflow: None,
                                    },
                                },
                            )
                        }
                    },
                }
            }
        },
    }
}

impl crate::pages::BtreeHeader {
    /// Decodes one cell at the start of `input` according to this
    /// header's page kind.
    pub fn parse_cell(&self, input: &[u8]) -> (r: Result<Cell, Error>)
        ensures
            match r {
                Ok(c) => spec_parse_cell(self.kind, input@) == Ok::<_, Error>(c@),
                Err(e) => spec_parse_cell(self.kind, input@) == Err::<CellV, _>(e),
            },
    {
        let len = input.len();
        match self.kind {
            PageKind::TableLeaf => {
                let (size, n1) = match varint(input) {
                    Ok(x) => x,
                    Err(e) => {
                        return Err(e);
                    },
                };
                let after = vstd::slice::slice_subrange(input, n1, len);
                proof {
                    assert(after@ =~= input@.skip(n1 as int));
                }
                let (rowid, n2) = match varint(after) {
                    Ok(x) => x,
                    Err(e) => {
                        return Err(e);
                    },
                };
                if size > (len - n1 - n2) as u64 {
                    return Err(Error::Truncated);
                }
                let start = n1 + n2;
                let end = start + (size as usize);
                let bytes = vstd::slice::slice_to_vec(
                    vstd::slice::slice_subrange(input, start, end),
                );
                Ok(
                    Cell::TableLeaf {
                        rowid,
                        payload: Payload { size, payload: bytes, overflow: None },
                    },
                )
            },
            PageKind::TableInterior => {
                if len < 4 {
                    return Err(Error::Truncated);
                }
                let left_child_page = crate::bytes::read_be_u32(input, 0);
                let after = vstd::slice::slice_subrange(input, 4, len);
                proof {
                    assert(after@ =~= input@.skip(4));
                    crate::bytes::lemma_pow256_values();
                    crate::bytes::lemma_be_int_bounds(input@, 0, 4);
                }
                let (rowid, _) = match varint(after) {
                    Ok(x) => x,
                    Err(e) => {
                        return Err(e);
                    },
                };
                Ok(Cell::TableInterior { left_child_page, rowid })
            },
            PageKind::IndexLeaf => {
                let (size, n1) = match varint(input) {
                    Ok(x) => x,
                    Err(e) => {
                        return Err(e);
                    },
                };
                if size > (len - n1) as u64 {
                    return Err(Error::Truncated);
                }
                let end = n1 + (size as usize);
                let bytes = vstd::slice::slice_to_vec(
                    vstd::slice::slice_subrange(input, n1, end),
                );
                Ok(Cell::IndexLeaf { payload: Payload { size, payload: bytes, overflow: None } })
            },
            PageKind::IndexInterior => {
                if len < 4 {
                    return Err(Error::Truncated);
                }
                let left_child_page = crate::bytes::read_be_u32(input, 0);
                let after = vstd::slice::slice_subrange(input, 4, len);
                proof {
                    assert(after@ =~= input@.skip(4));
                    crate::bytes::lemma_pow256_values();
                    crate::bytes::lemma_be_int_bounds(input@, 0, 4);
                }
                let (size, n1) = match varint(after) {
                    Ok(x) => x,
                    Err(e) => {
                        return Err(e);
                    },
                };
                if size > (len - 4 - n1) as u64 {
                    return Err(Error::Truncated);
                }
                let start = 4 + n1;
                let end = start + (size as usize);
                let bytes = vstd::slice::slice_to_vec(
                    vstd::slice::slice_subrange(input, start, end),
                );
                Ok(
                    Cell::IndexInterior {
                        left_child_page,
                        payload: Payload { size, payload: bytes, overflow: None },
                    },
                )
            },
        }
    }
}

/// Where a page's cell-pointer array starts: right after the fixed-size
/// page header (8 bytes for leaf kinds, 12 for interior kinds), offset by
/// the 100-byte file header on page 1.
pub open spec fn spec_ptr_start(p: Page) -> int {
    (if p.page_id == 1 {
        100int
    } else {
        0int
    }) + spec_header_len(p.header.kind)
}

/// What decoding the cells of `p` from pointer `i` onward yields, in
/// pointer order.
pub open spec fn spec_cells_from(p: Page, i: int) -> Result<Seq<CellV>, Error>
    decreases p.header.cell_count - i,
{
    if i >= p.header.cell_count {
        Ok(seq![])
    } else {
        let ptr = be_int(p.data@, spec_ptr_start(p) + 2 * i, 2);
        if ptr > p.data@.len() {
            Err(Error::Truncated)
        } else {
            match spec_parse_cell(p.header.kind, p.data@.skip(ptr)) {
                Err(e) => Err(e),
                Ok(c) => match spec_cells_from(p, i + 1) {
                    Err(e) => Err(e),
                    Ok(rest) => Ok(seq![c] + rest),
                },
            }
        }
    }
}

/// What decoding every cell of `p` yields: one cell per entry of the
/// cell-pointer array, in the array's order. Each pointer is an offset
/// from the start of the page into the cell-content area.
pub open spec fn spec_cells(p: Page) -> Result<Seq<CellV>, Error> {
    if spec_ptr_start(p) + 2 * (p.header.cell_count as int) > p.data@.len() {
        Err(Error::Truncated)
    } else {
        spec_cells_from(p, 0)
    }
}

impl Page {
    /// Decodes every cell on this page, in cell-pointer order.
    pub fn cells(&self) -> (r: Result<Vec<Cell>, Error>)
        ensures
            match r {
                Ok(cs) => spec_cells(*self) == Ok::<_, Error>(cs@.map_values(|c: Cell| c@)),
                Err(e) => spec_cells(*self) == Err::<Seq<CellV>, _>(e),
            },
    {
        let start: usize = (if self.page_id == 1 {
            100
        } else {
            0
        }) + (if self.header.kind.is_interior() {
            12
        } else {
            8
        });
        let cnt = self.header.cell_count as usize;
        let dlen = self.data.len();
        if cnt > (usize::MAX - start) / 2 || start + 2 * cnt > dlen {
            return Err(Error::Truncated);
        }
        let mut cells: Vec<Cell> = Vec::new();
        let mut i: usize = 0;
        proof {
            assert(cells@.map_values(|c: Cell| c@) + spec_cells_from(*self, 0)->Ok_0
                =~= spec_cells_from(*self, 0)->Ok_0) by {
                if spec_cells_from(*self, 0) is Ok {
                }
            }
        }
        while i < cnt
            invariant
                i <= cnt,
                cnt == self.header.cell_count,
                start == spec_ptr_start(*self),
                dlen == self.data@.len(),
                start + 2 * cnt <= dlen,
                spec_cells_from(*self, 0) == (match spec_cells_from(*self, i as int) {
                    Ok(rest) => Ok::<Seq<CellV>, Error>(
                        cells@.map_values(|c: Cell| c@) + rest,
                    ),
                    Err(e) => Err(e),
                }),
            decreases cnt - i,
        {
            let ptr = crate::bytes::read_be_u16(self.data.as_slice(), start + 2 * i) as usize;
            if ptr > dlen {
                return Err(Error::Truncated);
            }
            let region = vstd::slice::slice_subrange(self.data.as_slice(), ptr, dlen);
            proof {
                assert(region@ =~= self.data@.skip(ptr as int));
            }
            match self.header.parse_cell(region) {
                Err(e) => {
                    return Err(e);
                },
                Ok(c) => {
                    let ghost old_cells = cells@;
                    cells.push(c);
                    i = i + 1;
                    proof {
                        assert(cells@.map_values(|x: Cell| x@) =~= old_cells.map_values(
                            |x: Cell| x@,
                        ).push(c@));
                        if spec_cells_from(*self, i as int) is Ok {
                            let rest = spec_cells_from(*self, i as int)->Ok_0;
                            assert(old_cells.map_values(|x: Cell| x@) + (seq![c@] + rest)
                                =~= cells@.map_values(|x: Cell| x@) + rest);
                        }
                    }
                },
            }
        }
        proof {
            assert(cells@.map_values(|c: Cell| c@) + seq![] =~= cells@.map_values(
                |c: Cell| c@,
            ));
        }
        Ok(cells)
    }
}

} // verus!
