use vstd::prelude::*;
use vstd::string::StringExecFns;

use crate::bytes::{be_int, signed_of};
use crate::error::Error;
use crate::text::{
    i64_to_string, lossy_of, spec_i64_dec, spec_u64_dec, u64_to_string, utf8_lossy,
};
use crate::varint::{spec_varint, varint};

verus! {

/// One decoded column value of a record.
///
/// A stored 64-bit floating-point column is carried as the raw 64-bit
/// word read big-endian from its 8-byte body; interpreting or printing
/// those bits is left to callers, so that the decoder itself stays
/// within integer arithmetic.
#[derive(Debug, PartialEq)]
pub enum Value {
    /// `NULL` value.
    Null,
    /// Integer value.
    Integer(i64),
    /// Floating-point value, as the raw bits of its 8-byte body.
    Float(u64),
    /// `BLOB` value (binary data).
    Blob(Vec<u8>),
    /// `TEXT` value (text, decoded lossily from its bytes).
    Text(String),
}

/// The mathematical shape of a [`Value`].
pub enum ValueV {
    Null,
    Integer(i64),
    Float(u64),
    Blob(Seq<u8>),
    Text(Seq<char>),
}

impl View for Value {
    type V = ValueV;

    open spec fn view(&self) -> ValueV {
        match self {
            Value::Null => ValueV::Null,
            Value::Integer(n) => ValueV::Integer(*n),
            Value::Float(bits) => ValueV::Float(*bits),
            Value::Blob(b) => ValueV::Blob(b@),
            Value::Text(s) => ValueV::Text(s@),
        }
    }
}

/// A record's serial-type code, resolved to a value class and width.
#[derive(Debug, Clone, Copy, PartialEq, Eq, Structural)]
pub enum RecordCode {
    Null,
    I8,
    I16,
    I24,
    I32,
    I48,
    I64,
    F64,
    Zero,
    One,
    Blob(u64),
    Text(u64),
}

/// The value class a serial-type code maps to: 0 is null, 1 through 6 are
/// big-endian two's-complement integers of width 1, 2, 3, 4, 6 and 8
/// bytes, 7 is an 8-byte float, 8 and 9 are the literals 0 and 1, even
/// codes from 12 up are blobs of length (code-12)/2, odd codes from 13 up
/// are text of length (code-13)/2. Codes 10 and 11 are reserved: `None`.
pub open spec fn spec_rc(code: int) -> Option<RecordCode> {
    if code == 0 {
        Some(RecordCode::Null)
    } else if code == 1 {
        Some(RecordCode::I8)
    } else if code == 2 {
        Some(RecordCode::I16)
    } else if code == 3 {
        Some(RecordCode::I24)
    } else if code == 4 {
        Some(RecordCode::I32)
    } else if code == 5 {
        Some(RecordCode::I48)
    } else if code == 6 {
        Some(RecordCode::I64)
    } else if code == 7 {
        Some(RecordCode::F64)
    } else if code == 8 {
        Some(RecordCode::Zero)
    } else if code == 9 {
        Some(RecordCode::One)
    } else if code >= 12 && code % 2 == 0 {
        Some(RecordCode::Blob((((code - 12) / 2) as u64)))
    } else if code >= 13 && code % 2 == 1 {
        Some(RecordCode::Text((((code - 13) / 2) as u64)))
    } else {
        None
    }
}

/// How many body bytes a resolved serial-type code consumes.
pub open spec fn rc_width(rc: RecordCode) -> int {
    match rc {
        RecordCode::Null => 0,
        RecordCode::I8 => 1,
        RecordCode::I16 => 2,
        RecordCode::I24 => 3,
        RecordCode::I32 => 4,
        RecordCode::I48 => 6,
        RecordCode::I64 => 8,
        RecordCode::F64 => 8,
        RecordCode::Zero => 0,
        RecordCode::One => 0,
        RecordCode::Blob(n) => n as int,
        RecordCode::Text(n) => n as int,
    }
}

/// The value a resolved serial-type code decodes from the start of `body`
/// (which the caller has checked to be at least `rc_width` long).
pub open spec fn rc_value(rc: RecordCode, body: Seq<u8>) -> ValueV {
    match rc {
        RecordCode::Null => ValueV::Null,
        RecordCode::I8 => ValueV::Integer(signed_of(be_int(body, 0, 1), 1) as i64),
        RecordCode::I16 => ValueV::Integer(signed_of(be_int(body, 0, 2), 2) as i64),
        RecordCode::I24 => ValueV::Integer(signed_of(be_int(body, 0, 3), 3) as i64),
        RecordCode::I32 => ValueV::Integer(signed_of(be_int(body, 0, 4), 4) as i64),
        RecordCode::I48 => ValueV::Integer(signed_of(be_int(body, 0, 6), 6) as i64),
        RecordCode::I64 => ValueV::Integer(signed_of(be_int(body, 0, 8), 8) as i64),
        RecordCode::F64 => ValueV::Float(be_int(body, 0, 8) as u64),
        RecordCode::Zero => ValueV::Integer(0),
        RecordCode::One => ValueV::Integer(1),
        RecordCode::Blob(n) => ValueV::Blob(body.subrange(0, n as int)),
        RecordCode::Text(n) => ValueV::Text(lossy_of(body.subrange(0, n as int))),
    }
}

/// The width of a serial-type code's body, 0 when the code is reserved.
pub open spec fn spec_code_width(code: int) -> int {
    match spec_rc(code) {
        Some(rc) => rc_width(rc),
        None => 0,
    }
}

/// The value a serial-type code decodes from the start of `body`; `Null`
/// when the code is reserved (which parsing rejects earlier).
pub open spec fn spec_value(code: int, body: Seq<u8>) -> ValueV {
    match spec_rc(code) {
        Some(rc) => rc_value(rc, body),
        None => ValueV::Null,
    }
}

impl RecordCode {
    /// Resolves a serial-type code; the reserved codes 10 and 11 fail.
    pub fn from_code(code: u64) -> (r: Result<RecordCode, Error>)
        ensures
            match r {
                Ok(rc) => spec_rc(code as int) == Some(rc),
                Err(e) => {
                    &&& e == Error::ReservedSerialCode(code)
                    &&& spec_rc(code as int) is None
                },
            },
    {
        match code {
            0 => Ok(RecordCode::Null),
            1 => Ok(RecordCode::I8),
            2 => Ok(RecordCode::I16),
            3 => Ok(RecordCode::I24),
            4 => Ok(RecordCode::I32),
            5 => Ok(RecordCode::I48),
            6 => Ok(RecordCode::I64),
            7 => Ok(RecordCode::F64),
            8 => Ok(RecordCode::Zero),
            9 => Ok(RecordCode::One),
            10 | 11 => Err(Error::ReservedSerialCode(code)),
            _ => {
                if code % 2 == 0 {
                    Ok(RecordCode::Blob((code - 12) / 2))
                } else {
                    Ok(RecordCode::Text((code - 13) / 2))
                }
            },
        }
    }

    /// Decodes one value of this class from the start of `body`, returning
    /// it with the number of body bytes it consumed. Fails exactly when
    /// `body` is shorter than the class's width.
    pub fn parse(&self, body: &[u8]) -> (r: Result<(Value, usize), Error>)
        ensures
            match r {
                Ok((v, w)) => {
                    &&& rc_width(*self) <= body@.len()
                    &&& w as int == rc_width(*self)
                    &&& v@ == rc_value(*self, body@)
                },
                Err(e) => e == Error::Truncated && rc_width(*self) > body@.len(),
            },
    {
        match self {
            RecordCode::Null => Ok((Value::Null, 0)),
            RecordCode::I8 => {
                if body.len() < 1 {
                    Err(Error::Truncated)
                } else {
                    Ok((Value::Integer(crate::bytes::read_be_sint(body, 0, 1)), 1))
                }
            },
            RecordCode::I16 => {
                if body.len() < 2 {
                    Err(Error::Truncated)
                } else {
                    Ok((Value::Integer(crate::bytes::read_be_sint(body, 0, 2)), 2))
                }
            },
            RecordCode::I24 => {
                if body.len() < 3 {
                    Err(Error::Truncated)
                } else {
                    Ok((Value::Integer(crate::bytes::read_be_sint(body, 0, 3)), 3))
                }
            },
            RecordCode::I32 => {
                if body.len() < 4 {
                    Err(Error::Truncated)
                } else {
                    Ok((Value::Integer(crate::bytes::read_be_sint(body, 0, 4)), 4))
                }
            },
            RecordCode::I48 => {
                if body.len() < 6 {
                    Err(Error::Truncated)
                } else {
                    Ok((Value::Integer(crate::bytes::read_be_sint(body, 0, 6)), 6))
                }
            },
            RecordCode::I64 => {
                if body.len() < 8 {
                    Err(Error::Truncated)
                } else {
                    Ok((Value::Integer(crate::bytes::read_be_sint(body, 0, 8)), 8))
                }
            },
            RecordCode::F64 => {
                if body.len() < 8 {
                    Err(Error::Truncated)
                } else {
                    Ok((Value::Float(crate::bytes::read_be_uint(body, 0, 8)), 8))
                }
            },
            RecordCode::Zero => Ok((Value::Integer(0), 0)),
            RecordCode::One => Ok((Value::Integer(1), 0)),
            RecordCode::Blob(n) => {
                let n = *n;
                if n > body.len() as u64 {
                    Err(Error::Truncated)
                } else {
                    let w = n as usize;
                    let b = vstd::slice::slice_to_vec(vstd::slice::slice_subrange(body, 0, w));
                    Ok((Value::Blob(b), w))
                }
            },
            RecordCode::Text(n) => {
                let n = *n;
                if n > body.len() as u64 {
                    Err(Error::Truncated)
                } else {
                    let w = n as usize;
                    let s = utf8_lossy(vstd::slice::slice_subrange(body, 0, w));
                    Ok((Value::Text(s), w))
                }
            },
        }
    }
}

/// The textual rendering of a blob's bytes: each in decimal, comma-space
/// separated.
pub open spec fn spec_blob_items(b: Seq<u8>) -> Seq<char>
    decreases b.len(),
{
    if b.len() == 0 {
        seq![]
    } else if b.len() == 1 {
        spec_u64_dec(b[0] as int)
    } else {
        spec_u64_dec(b[0] as int) + seq![',', ' '] + spec_blob_items(b.skip(1))
    }
}

/// The textual rendering of a blob: its bytes in decimal, comma-space
/// separated, between brackets.
pub open spec fn spec_blob_text(b: Seq<u8>) -> Seq<char> {
    seq!['['] + spec_blob_items(b) + seq![']']
}

/// The textual representation of a value: `NULL`, the integer in
/// decimal, the text itself, or the bracketed blob bytes. A float has
/// none here; rendering its bits is left to callers.
pub open spec fn spec_value_text(v: ValueV) -> Option<Seq<char>> {
    match v {
        ValueV::Null => Some(seq!['N', 'U', 'L', 'L']),
        ValueV::Integer(n) => Some(spec_i64_dec(n as int)),
        ValueV::Float(_) => None,
        ValueV::Blob(b) => Some(spec_blob_text(b)),
        ValueV::Text(t) => Some(t),
    }
}

fn blob_items_str(b: &[u8], i: usize) -> (r: String)
    requires
        i <= b@.len(),
    ensures
        r@ == spec_blob_items(b@.skip(i as int)),
    decreases b@.len() - i,
{
    if i >= b.len() {
        let s = String::new();
        proof {
            assert(b@.skip(i as int) =~= Seq::<u8>::empty());
        }
        s
    } else {
        let mut s = u64_to_string(b[i] as u64);
        proof {
            assert(b@.skip(i as int)[0] == b@[i as int]);
        }
        if i + 1 < b.len() {
            s.append(", ");
            let rest = blob_items_str(b, i + 1);
            s.append(rest.as_str());
            proof {
                reveal_strlit(", ");
                assert(", "@ =~= seq![',', ' ']);
                assert(b@.skip(i as int).skip(1) =~= b@.skip(i + 1));
            }
        } else {
            proof {
                assert(b@.skip(i as int).len() == 1);
            }
        }
        s
    }
}

impl Value {
    /// An equal copy of this value.
    pub fn duplicate(&self) -> (r: Value)
        ensures
            r@ == self@,
    {
        match self {
            Value::Null => Value::Null,
            Value::Integer(n) => Value::Integer(*n),
            Value::Float(bits) => Value::Float(*bits),
            Value::Blob(b) => Value::Blob(vstd::slice::slice_to_vec(b.as_slice())),
            Value::Text(s) => Value::Text(s.clone()),
        }
    }

    /// The textual representation of this value; `None` for a float,
    /// whose rendering is left to callers.
    pub fn text(&self) -> (r: Option<String>)
        ensures
            match r {
                Some(s) => spec_value_text(self@) == Some(s@),
                None => self@ is Float && spec_value_text(self@) is None,
            },
    {
        match self {
            Value::Null => {
                proof {
                    reveal_strlit("NULL");
                    assert("NULL"@ =~= seq!['N', 'U', 'L', 'L']);
                }
                Some(String::from_str("NULL"))
            },
            Value::Integer(n) => Some(i64_to_string(*n)),
            Value::Float(_) => None,
            Value::Blob(b) => {
                let mut s = String::from_str("[");
                let items = blob_items_str(b.as_slice(), 0);
                s.append(items.as_str());
                s.append("]");
                proof {
                    reveal_strlit("[");
                    reveal_strlit("]");
                    assert("["@ =~= seq!['[']);
                    assert("]"@ =~= seq![']']);
                    assert(b@.skip(0) =~= b@);
                }
                Some(s)
            },
            Value::Text(t) => Some(t.clone()),
        }
    }
}

/// What scanning the serial-type codes of a record header region yields:
/// successive varints until the region is exhausted, each resolved as a
/// valid code; a reserved code or a varint running past the region fails.
pub open spec fn spec_codes(hdr: Seq<u8>) -> Result<Seq<int>, Error>
    decreases hdr.len(),
{
    if hdr.len() == 0 {
        Ok(seq![])
    } else {
        match spec_varint(hdr) {
            None => Err(Error::Truncated),
            Some((c, n)) => {
                if !(1 <= n <= hdr.len()) {
                    Err(Error::Truncated)
                } else if c == 10 || c == 11 {
                    Err(Error::ReservedSerialCode(c as u64))
                } else {
                    match spec_codes(hdr.skip(n)) {
                        Err(e) => Err(e),
                        Ok(rest) => Ok(seq![c] + rest),
                    }
                }
            },
        }
    }
}

/// What decoding a record body against its code sequence yields: each
/// code consumes its width in order; a body shorter than a code's width
/// fails.
pub open spec fn spec_values(codes: Seq<int>, body: Seq<u8>) -> Result<Seq<ValueV>, Error>
    decreases codes.len(),
{
    if codes.len() == 0 {
        Ok(seq![])
    } else {
        let c = codes[0];
        let w = spec_code_width(c);
        if w > body.len() {
            Err(Error::Truncated)
        } else {
            match spec_values(codes.skip(1), body.skip(w)) {
                Err(e) => Err(e),
                Ok(rest) => Ok(seq![spec_value(c, body)] + rest),
            }
        }
    }
}

/// What decoding a whole record payload yields: a leading varint gives
/// the total header length H (counting itself); the serial-type codes
/// fill the rest of the H-byte header; the values follow in code order.
pub open spec fn spec_parse_payload(s: Seq<u8>) -> Result<Seq<ValueV>, Error> {
    match spec_varint(s) {
        None => Err(Error::Truncated),
        Some((h, n0)) => {
            if h < n0 || h > s.len() {
                Err(Error::Truncated)
            } else {
                match spec_codes(s.subrange(n0, h)) {
                    Err(e) => Err(e),
                    Ok(codes) => spec_values(codes, s.skip(h)),
                }
            }
        },
    }
}

/// Scans the serial-type codes that fill the header region `hdr`.
fn scan_codes(hdr: &[u8]) -> (r: Result<Vec<u64>, Error>)
    ensures
        match r {
            Ok(cs) => {
                &&& spec_codes(hdr@) == Ok::<_, Error>(cs@.map_values(|c: u64| c as int))
                &&& forall|j: int| 0 <= j < cs@.len() ==> cs@[j] != 10 && cs@[j] != 11
            },
            Err(e) => spec_codes(hdr@) == Err::<Seq<int>, _>(e),
        },
{
    let len = hdr.len();
    let mut codes: Vec<u64> = Vec::new();
    let mut pos: usize = 0;
    proof {
        assert(hdr@.skip(0) =~= hdr@);
        assert(codes@.map_values(|c: u64| c as int) + spec_codes(hdr@)->Ok_0 =~= spec_codes(
            hdr@,
        )->Ok_0) by {
            if spec_codes(hdr@) is Ok {
            }
        }
    }
    while pos < len
        invariant
            pos <= len,
            len == hdr@.len(),
            forall|j: int| 0 <= j < codes@.len() ==> codes@[j] != 10 && codes@[j] != 11,
            spec_codes(hdr@) == (match spec_codes(hdr@.skip(pos as int)) {
                Ok(rest) => Ok::<Seq<int>, Error>(codes@.map_values(|c: u64| c as int) + rest),
                Err(e) => Err(e),
            }),
        decreases len - pos,
    {
        let region = vstd::slice::slice_subrange(hdr, pos, len);
        proof {
            assert(region@ =~= hdr@.skip(pos as int));
        }
        match varint(region) {
            Err(e) => {
                return Err(e);
            },
            Ok((c, n)) => {
                if c == 10 || c == 11 {
                    return Err(Error::ReservedSerialCode(c));
                }
                let ghost old_codes = codes@;
                codes.push(c);
                pos = pos + n;
                proof {
                    assert(region@.skip(n as int) =~= hdr@.skip(pos as int));
                    assert(codes@.map_values(|x: u64| x as int) =~= old_codes.map_values(
                        |x: u64| x as int,
                    ).push(c as int));
                    if spec_codes(hdr@.skip(pos as int)) is Ok {
                        let rest = spec_codes(hdr@.skip(pos as int))->Ok_0;
                        assert(old_codes.map_values(|x: u64| x as int) + (seq![c as int] + rest)
                            =~= codes@.map_values(|x: u64| x as int) + rest);
                    }
                }
            },
        }
    }
    proof {
        assert(hdr@.skip(pos as int).len() == 0);
        assert(codes@.map_values(|c: u64| c as int) + seq![] =~= codes@.map_values(
            |c: u64| c as int,
        ));
    }
    Ok(codes)
}

/// Decodes the record body `body` against the scanned code sequence.
fn decode_values(codes: &Vec<u64>, body: &[u8]) -> (r: Result<Vec<Value>, Error>)
    requires
        forall|j: int| 0 <= j < codes@.len() ==> codes@[j] != 10 && codes@[j] != 11,
    ensures
        match r {
            Ok(vs) => spec_values(codes@.map_values(|c: u64| c as int), body@) == Ok::<
                _,
                Error,
            >(vs@.map_values(|v: Value| v@)),
            Err(e) => spec_values(codes@.map_values(|c: u64| c as int), body@) == Err::<
                Seq<ValueV>,
                _,
            >(e),
        },
{
    let ghost codes_ints = codes@.map_values(|c: u64| c as int);
    let mut values: Vec<Value> = Vec::new();
    let mut consumed: usize = 0;
    let mut i: usize = 0;
    proof {
        assert(codes_ints.skip(0) =~= codes_ints);
        assert(body@.skip(0) =~= body@);
        assert(values@.map_values(|v: Value| v@) + spec_values(codes_ints, body@)->Ok_0
            =~= spec_values(codes_ints, body@)->Ok_0) by {
            if spec_values(codes_ints, body@) is Ok {
            }
        }
    }
    while i < codes.len()
        invariant
            i <= codes@.len(),
            consumed <= body@.len(),
            codes_ints == codes@.map_values(|c: u64| c as int),
            forall|j: int| 0 <= j < codes@.len() ==> codes@[j] != 10 && codes@[j] != 11,
            spec_values(codes_ints, body@) == (match spec_values(
                codes_ints.skip(i as int),
                body@.skip(consumed as int),
            ) {
                Ok(rest) => Ok::<Seq<ValueV>, Error>(values@.map_values(|v: Value| v@) + rest),
                Err(e) => Err(e),
            }),
        decreases codes@.len() - i,
    {
        let c = codes[i];
        let rc = match RecordCode::from_code(c) {
            Ok(rc) => rc,
            Err(_) => {
                proof {
                    assert(false);
                }
                return Err(Error::Truncated);
            },
        };
        let rest_slice = vstd::slice::slice_subrange(body, consumed, body.len());
        proof {
            assert(rest_slice@ =~= body@.skip(consumed as int));
            assert(codes_ints.skip(i as int)[0] == c as int);
        }
        match rc.parse(rest_slice) {
            Err(e) => {
                return Err(e);
            },
            Ok((v, w)) => {
                let ghost old_values = values@;
                let ghost old_consumed = consumed as int;
                values.push(v);
                consumed = consumed + w;
                i = i + 1;
                proof {
                    assert(body@.skip(old_consumed).skip(w as int) =~= body@.skip(
                        consumed as int,
                    ));
                    assert(codes_ints.skip(i - 1).skip(1) =~= codes_ints.skip(i as int));
                    assert(rc_value(rc, body@.skip(old_consumed)) == spec_value(
                        c as int,
                        body@.skip(old_consumed),
                    ));
                    if spec_values(codes_ints.skip(i as int), body@.skip(consumed as int))
                        is Ok {
                        let rest = spec_values(
                            codes_ints.skip(i as int),
                            body@.skip(consumed as int),
                        )->Ok_0;
                        assert(old_values.map_values(|x: Value| x@) + (seq![v@] + rest)
                            =~= values@.map_values(|x: Value| x@) + rest);
                    }
                }
            },
        }
    }
    proof {
        assert(codes_ints.skip(i as int).len() == 0);
        assert(values@.map_values(|v: Value| v@) + seq![] =~= values@.map_values(
            |v: Value| v@,
        ));
    }
    Ok(values)
}

/// Decodes a record payload into its ordered column values.
///
/// Fails with a decode error on a truncated header, a truncated body, or
/// a reserved serial-type code; no partial row is returned.
pub fn parse_payload(input: &[u8]) -> (r: Result<Vec<Value>, Error>)
    ensures
        match r {
            Ok(vs) => spec_parse_payload(input@) == Ok::<_, Error>(
                vs@.map_values(|v: Value| v@),
            ),
            Err(e) => spec_parse_payload(input@) == Err::<Seq<ValueV>, _>(e),
        },
{
    let (hsize, n0) = match varint(input) {
        Ok(x) => x,
        Err(e) => {
            return Err(e);
        },
    };
    if hsize < n0 as u64 || hsize > input.len() as u64 {
        return Err(Error::Truncated);
    }
    let h = hsize as usize;
    let hdr = vstd::slice::slice_subrange(input, n0, h);
    let codes = match scan_codes(hdr) {
        Ok(cs) => cs,
        Err(e) => {
            return Err(e);
        },
    };
    let body = vstd::slice::slice_subrange(input, h, input.len());
    proof {
        assert(body@ =~= input@.skip(h as int));
    }
    decode_values(&codes, body)
}

} // verus!
