use vstd::prelude::*;

verus! {

/// Why a decode, parse, or lookup failed.
///
/// The classes are distinct on purpose: truncation and malformed bytes are
/// structural decode failures, `Syntax` is a grammar failure of the minimal
/// SQL surface, and `TableNotFound` is a semantic (catalog lookup) failure.
#[derive(Clone, Copy, Debug, PartialEq, Eq, Structural)]
pub enum Error {
    /// Input ended before a complete structure was decoded, or a declared
    /// size points past the available bytes.
    Truncated,
    /// The page-kind byte is not one of the four valid codes.
    InvalidPageKind(u8),
    /// A record header used one of the two reserved serial-type codes.
    ReservedSerialCode(u64),
    /// A schema row's type column is not table, index, view or trigger.
    BadSchemaType,
    /// A schema row does not have the expected five-column shape, or holds
    /// an invalid root page number.
    BadSchemaRow,
    /// A cell that carries no row payload stood where a table row was
    /// expected.
    PayloadlessCell,
    /// A decoded row is shorter than a projected column index requires.
    ShortRow,
    /// The statement does not match the supported minimal grammar.
    Syntax,
    /// No catalog entry carries the requested table name.
    TableNotFound,
}

} // verus!
