use vstd::prelude::*;
use vstd::string::StrSliceExecFns;

use crate::error::Error;

verus! {

/// Whitespace, as the minimal grammar tolerates it.
pub open spec fn is_space(c: char) -> bool {
    c == ' ' || c == '\t' || c == '\n' || c == '\r'
}

/// A character that may stand in an identifier: a letter, a digit, or
/// an underscore.
pub open spec fn is_ident_char(c: char) -> bool {
    (97 <= c as u32 && c as u32 <= 122) || (65 <= c as u32 && c as u32 <= 90) || (48 <= c as u32
        && c as u32 <= 57) || c == '_'
}

/// Lower-cases an ASCII letter; every other character is unchanged.
pub open spec fn lower(c: char) -> char {
    if 65 <= c as u32 && c as u32 <= 90 {
        ((c as u8) + 32) as char
    } else {
        c
    }
}

/// Whether the keyword `kw` (given lower-case) stands at position `i` of
/// `s`, compared case-insensitively.
pub open spec fn kw_at(s: Seq<char>, i: int, kw: Seq<char>) -> bool {
    &&& 0 <= i
    &&& i + kw.len() <= s.len()
    &&& forall|k: int| 0 <= k < kw.len() ==> lower(s[i + k]) == kw[k]
}

/// The first position at or after `i` that is not whitespace (or the end
/// of `s`).
pub open spec fn skip_ws(s: Seq<char>, i: int) -> int
    decreases s.len() - i,
{
    if !(0 <= i < s.len()) {
        i
    } else if is_space(s[i]) {
        skip_ws(s, i + 1)
    } else {
        i
    }
}

/// The first position at or after `i` that is not an identifier
/// character (or the end of `s`).
pub open spec fn scan_ident(s: Seq<char>, i: int) -> int
    decreases s.len() - i,
{
    if !(0 <= i < s.len()) {
        i
    } else if is_ident_char(s[i]) {
        scan_ident(s, i + 1)
    } else {
        i
    }
}

/// The first position in `[i, end)` holding `c`, or `end` when none does.
pub open spec fn find_char(s: Seq<char>, i: int, end: int, c: char) -> int
    decreases end - i,
{
    if !(0 <= i) || i >= end || i >= s.len() {
        end
    } else if s[i] == c {
        i
    } else {
        find_char(s, i + 1, end, c)
    }
}

/// The first position in `[i, end)` holding whitespace, or `end` (the
/// end of a whitespace-delimited token starting at `i`).
pub open spec fn scan_token(s: Seq<char>, i: int, end: int) -> int
    decreases end - i,
{
    if !(0 <= i) || i >= end || i >= s.len() {
        i
    } else if is_space(s[i]) {
        i
    } else {
        scan_token(s, i + 1, end)
    }
}

/// Whether the phrase `pat` occurs within `s[lo..hi]`.
pub open spec fn contains_at(s: Seq<char>, lo: int, hi: int, pat: Seq<char>) -> bool {
    exists|k: int|
        lo <= k && k + pat.len() <= hi && hi <= s.len() && #[trigger] s.subrange(k, k + pat.len())
            == pat
}

fn is_space_char(c: char) -> (r: bool)
    ensures
        r == is_space(c),
{
    c == ' ' || c == '\t' || c == '\n' || c == '\r'
}

fn is_ident_char_exec(c: char) -> (r: bool)
    ensures
        r == is_ident_char(c),
{
    let u = c as u32;
    (97 <= u && u <= 122) || (65 <= u && u <= 90) || (48 <= u && u <= 57) || c == '_'
}

fn lower_char(c: char) -> (r: char)
    ensures
        r == lower(c),
{
    let u = c as u32;
    if 65 <= u && u <= 90 {
        ((c as u8) + 32) as char
    } else {
        c
    }
}

fn skip_ws_str(s: &str, i: usize) -> (r: usize)
    requires
        i <= s@.len(),
    ensures
        r as int == skip_ws(s@, i as int),
        i <= r <= s@.len(),
{
    let n = s.unicode_len();
    let mut j = i;
    while j < n && is_space_char(s.get_char(j))
        invariant
            i <= j <= n,
            n == s@.len(),
            skip_ws(s@, i as int) == skip_ws(s@, j as int),
        decreases n - j,
    {
        j = j + 1;
    }
    j
}

fn scan_ident_str(s: &str, i: usize) -> (r: usize)
    requires
        i <= s@.len(),
    ensures
        r as int == scan_ident(s@, i as int),
        i <= r <= s@.len(),
{
    let n = s.unicode_len();
    let mut j = i;
    while j < n && is_ident_char_exec(s.get_char(j))
        invariant
            i <= j <= n,
            n == s@.len(),
            scan_ident(s@, i as int) == scan_ident(s@, j as int),
        decreases n - j,
    {
        j = j + 1;
    }
    j
}

fn find_char_str(s: &str, i: usize, end: usize, c: char) -> (r: usize)
    requires
        i <= end <= s@.len(),
    ensures
        r as int == find_char(s@, i as int, end as int, c),
        i <= r <= end,
{
    let mut j = i;
    while j < end && s.get_char(j) != c
        invariant
            i <= j <= end,
            end <= s@.len(),
            find_char(s@, i as int, end as int, c) == find_char(s@, j as int, end as int, c),
        decreases end - j,
    {
        j = j + 1;
    }
    j
}

fn scan_token_str(s: &str, i: usize, end: usize) -> (r: usize)
    requires
        i <= end <= s@.len(),
    ensures
        r as int == scan_token(s@, i as int, end as int),
        i <= r <= end,
{
    let mut j = i;
    while j < end && !is_space_char(s.get_char(j))
        invariant
            i <= j <= end,
            end <= s@.len(),
            scan_token(s@, i as int, end as int) == scan_token(s@, j as int, end as int),
        decreases end - j,
    {
        j = j + 1;
    }
    j
}

/// Whether the lower-case keyword `kw` stands at position `i` of `s`,
/// compared case-insensitively.
fn match_kw(s: &str, i: usize, kw: &str) -> (r: bool)
    ensures
        r == kw_at(s@, i as int, kw@),
{
    let n = s.unicode_len();
    let m = kw.unicode_len();
    if i > n || m > n - i {
        return false;
    }
    let mut k: usize = 0;
    while k < m
        invariant
            k <= m,
            m == kw@.len(),
            n == s@.len(),
            i + m <= n,
            forall|k2: int| 0 <= k2 < k ==> lower(s@[i + k2]) == kw@[k2],
        decreases m - k,
    {
        if lower_char(s.get_char(i + k)) != kw.get_char(k) {
            return false;
        }
        k = k + 1;
    }
    true
}

/// Whether the phrase `pat` occurs within `s[lo..hi]`.
fn contains_phrase(s: &str, lo: usize, hi: usize, pat: &str) -> (r: bool)
    requires
        lo <= hi <= s@.len(),
        1 <= pat@.len(),
    ensures
        r == contains_at(s@, lo as int, hi as int, pat@),
{
    let plen = pat.unicode_len();
    if plen > hi - lo {
        return false;
    }
    let mut k = lo;
    while k <= hi - plen
        invariant
            lo <= k,
            k <= hi - plen + 1,
            plen == pat@.len(),
            plen <= hi - lo,
            lo <= hi <= s@.len(),
            forall|k2: int|
                lo <= k2 < k ==> #[trigger] s@.subrange(k2, k2 + pat@.len() as int) != pat@,
        decreases hi - k,
    {
        let mut m: usize = 0;
        let mut matched = true;
        while m < plen
            invariant
                m <= plen,
                plen == pat@.len(),
                k + plen <= hi <= s@.len(),
                matched ==> forall|m2: int| 0 <= m2 < m ==> s@[k + m2] == pat@[m2],
                !matched ==> s@.subrange(k as int, k + pat@.len() as int) != pat@,
            decreases plen - m,
        {
            if s.get_char(k + m) != pat.get_char(m) {
                proof {
                    let mi = m as int;
                    assert(s@.subrange(k as int, k + pat@.len() as int)[mi] != pat@[mi]);
                }
                matched = false;
                m = plen;
            } else {
                m = m + 1;
            }
        }
        if matched {
            proof {
                assert(s@.subrange(k as int, k + pat@.len() as int) =~= pat@);
            }
            return true;
        }
        k = k + 1;
    }
    proof {
        assert(forall|k2: int|
            lo <= k2 && k2 + pat@.len() <= hi ==> #[trigger] s@.subrange(k2, k2 + pat@.len())
                != pat@);
    }
    false
}

/// Compiled `SELECT` statement: the target table name and the requested
/// column names, in request order.
#[derive(Debug, PartialEq)]
pub struct Select {
    pub name: String,
    pub columns: Vec<String>,
}

/// The mathematical shape of a [`Select`].
pub struct SelectV {
    pub name: Seq<char>,
    pub columns: Seq<Seq<char>>,
}

impl View for Select {
    type V = SelectV;

    open spec fn view(&self) -> SelectV {
        SelectV { name: self.name@, columns: self.columns@.map_values(|c: String| c@) }
    }
}

/// Compiled `CREATE TABLE` statement: the table name, its column names in
/// declared order, and the column declared as the integer primary key, if
/// any.
#[derive(Debug, PartialEq)]
pub struct CreateTable {
    pub name: String,
    pub columns: Vec<String>,
    pub key: Option<String>,
}

/// The mathematical shape of a [`CreateTable`].
pub struct CreateTableV {
    pub name: Seq<char>,
    pub columns: Seq<Seq<char>>,
    pub key: Option<Seq<char>>,
}

impl View for CreateTable {
    type V = CreateTableV;

    open spec fn view(&self) -> CreateTableV {
        CreateTableV {
            name: self.name@,
            columns: self.columns@.map_values(|c: String| c@),
            key: match &self.key {
                Some(k) => Some(k@),
                None => None,
            },
        }
    }
}

/// What parsing a comma-separated column-name list starting at `i`
/// yields: the names and the position of the first character after the
/// list (whitespace already skipped). Empty names fail.
pub open spec fn spec_cols_list(s: Seq<char>, i: int) -> Result<(Seq<Seq<char>>, int), Error>
    decreases s.len() - i,
{
    let st = skip_ws(s, i);
    let e = scan_ident(s, st);
    if e == st {
        Err(Error::Syntax)
    } else {
        let name = s.subrange(st, e);
        let j = skip_ws(s, e);
        if j < s.len() && s[j] == ',' {
            if j + 1 <= i {
                Err(Error::Syntax)
            } else {
                match spec_cols_list(s, j + 1) {
                    Err(er) => Err(er),
                    Ok((rest, end)) => Ok((seq![name] + rest, end)),
                }
            }
        } else {
            Ok((seq![name], j))
        }
    }
}

/// What parsing a `SELECT` statement yields: the shape
/// `select <col>[, <col>...] from <name>`, case-insensitive keywords,
/// tolerant of whitespace, and nothing but whitespace around it.
pub open spec fn spec_parse_select(s: Seq<char>) -> Result<SelectV, Error> {
    let i0 = skip_ws(s, 0);
    if !kw_at(s, i0, "select"@) {
        Err(Error::Syntax)
    } else {
        let i1 = i0 + "select"@.len();
        if !(i1 < s.len() && is_space(s[i1])) {
            Err(Error::Syntax)
        } else {
            match spec_cols_list(s, i1) {
                Err(e) => Err(e),
                Ok((cols, j)) => {
                    if !kw_at(s, j, "from"@) {
                        Err(Error::Syntax)
                    } else {
                        let k0 = j + "from"@.len();
                        if !(k0 < s.len() && is_space(s[k0])) {
                            Err(Error::Syntax)
                        } else {
                            let k1 = skip_ws(s, k0);
                            let k2 = scan_ident(s, k1);
                            if k2 == k1 {
                                Err(Error::Syntax)
                            } else if skip_ws(s, k2) != s.len() {
                                Err(Error::Syntax)
                            } else {
                                Ok(SelectV { name: s.subrange(k1, k2), columns: cols })
                            }
                        }
                    }
                },
            }
        }
    }
}

fn parse_cols_list(s: &str, i: usize) -> (r: Result<(Vec<String>, usize), Error>)
    requires
        i <= s@.len(),
    ensures
        match r {
            Ok((cols, j)) => {
                &&& spec_cols_list(s@, i as int) == Ok::<_, Error>(
                    (cols@.map_values(|c: String| c@), j as int),
                )
                &&& j <= s@.len()
            },
            Err(e) => spec_cols_list(s@, i as int) == Err::<(Seq<Seq<char>>, int), _>(e),
        },
    decreases s@.len() - i,
{
    let st = skip_ws_str(s, i);
    let e = scan_ident_str(s, st);
    if e == st {
        return Err(Error::Syntax);
    }
    let name = s.substring_char(st, e).to_owned();
    let j = skip_ws_str(s, e);
    if j < s.unicode_len() && s.get_char(j) == ',' {
        match parse_cols_list(s, j + 1) {
            Err(er) => Err(er),
            Ok((mut cols, end)) => {
                let ghost old_cols = cols@;
                cols.insert(0, name);
                proof {
                    assert(cols@.map_values(|c: String| c@) =~= seq![s@.subrange(
                        st as int,
                        e as int,
                    )] + old_cols.map_values(|c: String| c@));
                }
                Ok((cols, end))
            },
        }
    } else {
        let mut cols: Vec<String> = Vec::new();
        cols.push(name);
        proof {
            assert(cols@.map_values(|c: String| c@) =~= seq![s@.subrange(st as int, e as int)]);
        }
        Ok((cols, j))
    }
}

impl Select {
    /// Parses a `SELECT` statement of the shape
    /// `select <col>[, <col>...] from <name>`, case-insensitively and
    /// tolerant of whitespace.
    pub fn parse(s: &str) -> (r: Result<Select, Error>)
        ensures
            match r {
                Ok(sel) => spec_parse_select(s@) == Ok::<_, Error>(sel@),
                Err(e) => spec_parse_select(s@) == Err::<SelectV, _>(e),
            },
    {
        let n = s.unicode_len();
        let i0 = skip_ws_str(s, 0);
        if !match_kw(s, i0, "select") {
            return Err(Error::Syntax);
        }
        let i1 = i0 + "select".unicode_len();
        if !(i1 < n && is_space_char(s.get_char(i1))) {
            return Err(Error::Syntax);
        }
        let (cols, j) = match parse_cols_list(s, i1) {
            Ok(x) => x,
            Err(e) => {
                return Err(e);
            },
        };
        if !match_kw(s, j, "from") {
            return Err(Error::Syntax);
        }
        let k0 = j + "from".unicode_len();
        if !(k0 < n && is_space_char(s.get_char(k0))) {
            return Err(Error::Syntax);
        }
        let k1 = skip_ws_str(s, k0);
        let k2 = scan_ident_str(s, k1);
        if k2 == k1 {
            return Err(Error::Syntax);
        }
        if skip_ws_str(s, k2) != n {
            return Err(Error::Syntax);
        }
        let name = s.substring_char(k1, k2).to_owned();
        Ok(Select { name, columns: cols })
    }
}

/// What splitting the column-definition region `[i, close)` on commas
/// yields: the bounds of each comma-separated segment, in order.
pub open spec fn spec_defs(s: Seq<char>, i: int, close: int) -> Seq<(int, int)>
    decreases close - i,
{
    if !(0 <= i <= close <= s.len()) {
        seq![]
    } else {
        let comma = find_char(s, i, close, ',');
        if comma >= close {
            seq![(i, close)]
        } else if comma + 1 <= i {
            seq![]
        } else {
            seq![(i, comma)] + spec_defs(s, comma + 1, close)
        }
    }
}

/// The bounds of the first whitespace-delimited token of the column
/// definition `d` (its leading whitespace skipped).
pub open spec fn def_token(s: Seq<char>, d: (int, int)) -> (int, int) {
    let t0 = skip_ws(s, d.0);
    let t = if t0 > d.1 {
        d.1
    } else {
        t0
    };
    (t, scan_token(s, t, d.1))
}

/// What mapping each column definition to its column name (the first
/// whitespace-delimited token) yields; a definition without a token
/// fails.
pub open spec fn spec_col_names(s: Seq<char>, defs: Seq<(int, int)>) -> Result<
    Seq<Seq<char>>,
    Error,
>
    decreases defs.len(),
{
    if defs.len() == 0 {
        Ok(seq![])
    } else {
        let (ts, te) = def_token(s, defs[0]);
        if te <= ts {
            Err(Error::Syntax)
        } else {
            match spec_col_names(s, defs.skip(1)) {
                Err(e) => Err(e),
                Ok(rest) => Ok(seq![s.subrange(ts, te)] + rest),
            }
        }
    }
}

/// The name of the first column whose definition's remainder (after its
/// name) contains the phrase `primary key`, if any.
pub open spec fn spec_key(s: Seq<char>, defs: Seq<(int, int)>) -> Option<Seq<char>>
    decreases defs.len(),
{
    if defs.len() == 0 {
        None
    } else {
        let (ts, te) = def_token(s, defs[0]);
        if contains_at(s, te, defs[0].1, "primary key"@) {
            Some(s.subrange(ts, te))
        } else {
            spec_key(s, defs.skip(1))
        }
    }
}

/// What parsing a `CREATE TABLE` statement yields: the shape
/// `create table <name> ( <col> <type...>, ... )`, case-insensitive
/// keywords, tolerant of whitespace; anything after the closing
/// parenthesis is ignored.
pub open spec fn spec_parse_create(s: Seq<char>) -> Result<CreateTableV, Error> {
    let i0 = skip_ws(s, 0);
    if !kw_at(s, i0, "create"@) {
        Err(Error::Syntax)
    } else {
        let i1 = i0 + "create"@.len();
        if !(i1 < s.len() && is_space(s[i1])) {
            Err(Error::Syntax)
        } else {
            let i2 = skip_ws(s, i1);
            if !kw_at(s, i2, "table"@) {
                Err(Error::Syntax)
            } else {
                let i3 = i2 + "table"@.len();
                if !(i3 < s.len() && is_space(s[i3])) {
                    Err(Error::Syntax)
                } else {
                    let i4 = skip_ws(s, i3);
                    let i5 = scan_ident(s, i4);
                    if i5 == i4 {
                        Err(Error::Syntax)
                    } else {
                        let i6 = skip_ws(s, i5);
                        if !(i6 < s.len() && s[i6] == '(') {
                            Err(Error::Syntax)
                        } else {
                            let close = find_char(s, i6 + 1, s.len() as int, ')');
                            if close >= s.len() {
                                Err(Error::Syntax)
                            } else {
                                let defs = spec_defs(s, i6 + 1, close);
                                match spec_col_names(s, defs) {
                                    Err(e) => Err(e),
                                    Ok(columns) => Ok(
                                        CreateTableV {
                                            name: s.subrange(i4, i5),
                                            columns,
                                            key: spec_key(s, defs),
                                        },
                                    ),
                                }
                            }
                        }
                    }
                }
            }
        }
    }
}

fn collect_defs(s: &str, i: usize, close: usize) -> (r: Vec<(usize, usize)>)
    requires
        i <= close <= s@.len(),
    ensures
        r@.map_values(|d: (usize, usize)| (d.0 as int, d.1 as int)) == spec_defs(
            s@,
            i as int,
            close as int,
        ),
        forall|k: int| 0 <= k < r@.len() ==> i <= (#[trigger] r@[k]).0 <= r@[k].1 <= close,
    decreases close - i,
{
    let comma = find_char_str(s, i, close, ',');
    if comma >= close {
        let mut defs: Vec<(usize, usize)> = Vec::new();
        defs.push((i, close));
        proof {
            assert(defs@.map_values(|d: (usize, usize)| (d.0 as int, d.1 as int)) =~= seq![
                (i as int, close as int),
            ]);
        }
        defs
    } else {
        let mut rest = collect_defs(s, comma + 1, close);
        rest.insert(0, (i, comma));
        proof {
            assert(rest@.map_values(|d: (usize, usize)| (d.0 as int, d.1 as int)) =~= seq![
                (i as int, comma as int),
            ] + spec_defs(s@, comma + 1 as int, close as int));
        }
        rest
    }
}

impl CreateTable {
    /// Parses a `CREATE TABLE` statement of the shape
    /// `create table <name> ( <col> <type...>, ... )`,
    /// case-insensitively and tolerant of whitespace. The first column
    /// whose definition contains the phrase `primary key` after its name
    /// becomes the integer-primary-key alias.
    pub fn parse(s: &str) -> (r: Result<CreateTable, Error>)
        ensures
            match r {
                Ok(ct) => spec_parse_create(s@) == Ok::<_, Error>(ct@),
                Err(e) => spec_parse_create(s@) == Err::<CreateTableV, _>(e),
            },
    {
        let n = s.unicode_len();
        let i0 = skip_ws_str(s, 0);
        if !match_kw(s, i0, "create") {
            return Err(Error::Syntax);
        }
        let i1 = i0 + "create".unicode_len();
        if !(i1 < n && is_space_char(s.get_char(i1))) {
            return Err(Error::Syntax);
        }
        let i2 = skip_ws_str(s, i1);
        if !match_kw(s, i2, "table") {
            return Err(Error::Syntax);
        }
        let i3 = i2 + "table".unicode_len();
        if !(i3 < n && is_space_char(s.get_char(i3))) {
            return Err(Error::Syntax);
        }
        let i4 = skip_ws_str(s, i3);
        let i5 = scan_ident_str(s, i4);
        if i5 == i4 {
            return Err(Error::Syntax);
        }
        let i6 = skip_ws_str(s, i5);
        if !(i6 < n && s.get_char(i6) == '(') {
            return Err(Error::Syntax);
        }
        let close = find_char_str(s, i6 + 1, n, ')');
        if close >= n {
            return Err(Error::Syntax);
        }
        let defs = collect_defs(s, i6 + 1, close);
        let ghost defs_ints = defs@.map_values(|d: (usize, usize)| (d.0 as int, d.1 as int));

        // the column names: the first whitespace-delimited token of each
        // comma-separated definition
        let mut columns: Vec<String> = Vec::new();
        let mut di: usize = 0;
        proof {
            assert(defs_ints.skip(0) =~= defs_ints);
            assert(columns@.map_values(|c: String| c@) + spec_col_names(s@, defs_ints)->Ok_0
                =~= spec_col_names(s@, defs_ints)->Ok_0) by {
                if spec_col_names(s@, defs_ints) is Ok {
                }
            }
        }
        while di < defs.len()
            invariant
                di <= defs@.len(),
                defs_ints == defs@.map_values(|d: (usize, usize)| (d.0 as int, d.1 as int)),
                forall|k: int|
                    0 <= k < defs@.len() ==> (#[trigger] defs@[k]).0 <= defs@[k].1 <= s@.len(),
                spec_col_names(s@, defs_ints) == (match spec_col_names(
                    s@,
                    defs_ints.skip(di as int),
                ) {
                    Ok(rest) => Ok::<Seq<Seq<char>>, Error>(
                        columns@.map_values(|c: String| c@) + rest,
                    ),
                    Err(e) => Err(e),
                }),
            decreases defs@.len() - di,
        {
            let (dstart, dend) = (defs[di].0, defs[di].1);
            proof {
                assert(defs_ints.skip(di as int)[0] == (dstart as int, dend as int));
            }
            let t0 = skip_ws_str(s, dstart);
            let ts = if t0 > dend {
                dend
            } else {
                t0
            };
            let te = scan_token_str(s, ts, dend);
            if te <= ts {
                return Err(Error::Syntax);
            }
            let name = s.substring_char(ts, te).to_owned();
            let ghost old_columns = columns@;
            columns.push(name);
            di = di + 1;
            proof {
                assert(defs_ints.skip(di - 1).skip(1) =~= defs_ints.skip(di as int));
                assert(columns@.map_values(|c: String| c@) =~= old_columns.map_values(
                    |c: String| c@,
                ).push(s@.subrange(ts as int, te as int)));
                if spec_col_names(s@, defs_ints.skip(di as int)) is Ok {
                    let rest = spec_col_names(s@, defs_ints.skip(di as int))->Ok_0;
                    assert(old_columns.map_values(|c: String| c@) + (seq![s@.subrange(
                        ts as int,
                        te as int,
                    )] + rest) =~= columns@.map_values(|c: String| c@) + rest);
                }
            }
        }
        proof {
            assert(defs_ints.skip(di as int).len() == 0);
            assert(columns@.map_values(|c: String| c@) + seq![] =~= columns@.map_values(
                |c: String| c@,
            ));
        }

        // the integer-primary-key alias: the first definition whose
        // remainder holds the phrase
        let mut key: Option<String> = None;
        let mut ki: usize = 0;
        proof {
            assert(defs_ints.skip(0) =~= defs_ints);
        }
        while ki < defs.len() && key.is_none()
            invariant
                ki <= defs@.len(),
                defs_ints == defs@.map_values(|d: (usize, usize)| (d.0 as int, d.1 as int)),
                forall|k: int|
                    0 <= k < defs@.len() ==> (#[trigger] defs@[k]).0 <= defs@[k].1 <= s@.len(),
                match key {
                    Some(k) => spec_key(s@, defs_ints) == Some(k@),
                    None => spec_key(s@, defs_ints) == spec_key(s@, defs_ints.skip(ki as int)),
                },
            decreases defs@.len() - ki,
        {
            let (dstart, dend) = (defs[ki].0, defs[ki].1);
            proof {
                assert(defs_ints.skip(ki as int)[0] == (dstart as int, dend as int));
            }
            let t0 = skip_ws_str(s, dstart);
            let ts = if t0 > dend {
                dend
            } else {
                t0
            };
            let te = scan_token_str(s, ts, dend);
            proof {
                reveal_strlit("primary key");
            }
            if contains_phrase(s, te, dend, "primary key") {
                key = Some(s.substring_char(ts, te).to_owned());
                ki = ki + 1;
            } else {
                ki = ki + 1;
                proof {
                    assert(defs_ints.skip(ki - 1).skip(1) =~= defs_ints.skip(ki as int));
                }
            }
        }
        proof {
            if key is None {
                assert(defs_ints.skip(ki as int).len() == 0);
            }
        }

        let name = s.substring_char(i4, i5).to_owned();
        Ok(CreateTable { name, columns, key })
    }
}

/// The index of the first occurrence of `name` within `cols`, if any.
pub open spec fn first_pos(cols: Seq<Seq<char>>, name: Seq<char>) -> Option<int>
    decreases cols.len(),
{
    if cols.len() == 0 {
        None
    } else if cols[0] == name {
        Some(0)
    } else {
        match first_pos(cols.skip(1), name) {
            None => None,
            Some(p) => Some(p + 1),
        }
    }
}

/// The positions within `cols` of each requested name of `sel`, in
/// request order; names absent from `cols` are dropped.
pub open spec fn spec_positions(cols: Seq<Seq<char>>, sel: Seq<Seq<char>>) -> Seq<int>
    decreases sel.len(),
{
    if sel.len() == 0 {
        seq![]
    } else {
        let rest = spec_positions(cols, sel.skip(1));
        match first_pos(cols, sel[0]) {
            None => rest,
            Some(p) => seq![p] + rest,
        }
    }
}

pub proof fn lemma_first_pos(cols: Seq<Seq<char>>, name: Seq<char>)
    ensures
        match first_pos(cols, name) {
            Some(p) => 0 <= p < cols.len() && cols[p] == name && (forall|j: int|
                0 <= j < p ==> cols[j] != name),
            None => forall|j: int| 0 <= j < cols.len() ==> cols[j] != name,
        },
    decreases cols.len(),
{
    if cols.len() > 0 && cols[0] != name {
        lemma_first_pos(cols.skip(1), name);
        assert(forall|j: int| 1 <= j < cols.len() ==> cols[j] == cols.skip(1)[j - 1]);
    }
}

fn position_of(cols: &Vec<String>, name: &String) -> (r: Option<usize>)
    ensures
        match r {
            Some(p) => first_pos(cols@.map_values(|c: String| c@), name@) == Some(p as int),
            None => first_pos(cols@.map_values(|c: String| c@), name@) is None,
        },
{
    let ghost cv = cols@.map_values(|c: String| c@);
    proof {
        lemma_first_pos(cv, name@);
    }
    let mut i: usize = 0;
    while i < cols.len()
        invariant
            i <= cols@.len(),
            cv == cols@.map_values(|c: String| c@),
            forall|j: int| 0 <= j < i ==> cv[j] != name@,
        decreases cols@.len() - i,
    {
        if cols[i].eq(name) {
            proof {
                assert(cv[i as int] == cols@[i as int]@);
                lemma_first_pos(cv, name@);
            }
            return Some(i);
        }
        i = i + 1;
    }
    proof {
        lemma_first_pos(cv, name@);
    }
    None
}

impl CreateTable {
    /// The positions, in this table's declared column order, of each
    /// column the `SELECT` requests, in request order; requested names
    /// that are not declared are dropped.
    pub fn select(&self, sel: &Select) -> (r: Vec<usize>)
        ensures
            r@.map_values(|p: usize| p as int) == spec_positions(self@.columns, sel@.columns),
            forall|k: int| 0 <= k < r@.len() ==> r@[k] < self.columns@.len(),
    {
        let ghost cv = self.columns@.map_values(|c: String| c@);
        let ghost sv = sel.columns@.map_values(|c: String| c@);
        let mut out: Vec<usize> = Vec::new();
        let mut i: usize = 0;
        proof {
            assert(sv.skip(0) =~= sv);
            assert(out@.map_values(|p: usize| p as int) + spec_positions(cv, sv)
                =~= spec_positions(cv, sv));
        }
        while i < sel.columns.len()
            invariant
                i <= sel.columns@.len(),
                cv == self.columns@.map_values(|c: String| c@),
                sv == sel.columns@.map_values(|c: String| c@),
                forall|k: int| 0 <= k < out@.len() ==> out@[k] < self.columns@.len(),
                spec_positions(cv, sv) == out@.map_values(|p: usize| p as int)
                    + spec_positions(cv, sv.skip(i as int)),
            decreases sel.columns@.len() - i,
        {
            proof {
                assert(sv.skip(i as int)[0] == sel.columns@[i as int]@);
                assert(sv.skip(i as int).skip(1) =~= sv.skip(i + 1));
            }
            let ghost old_out = out@;
            match position_of(&self.columns, &sel.columns[i]) {
                Some(p) => {
                    proof {
                        lemma_first_pos(cv, sel.columns@[i as int]@);
                    }
                    out.push(p);
                    proof {
                        assert(out@.map_values(|q: usize| q as int) =~= old_out.map_values(
                            |q: usize| q as int,
                        ).push(p as int));
                        assert(old_out.map_values(|q: usize| q as int) + (seq![p as int]
                            + spec_positions(cv, sv.skip(i + 1))) =~= out@.map_values(
                            |q: usize| q as int,
                        ) + spec_positions(cv, sv.skip(i + 1)));
                    }
                },
                None => {
                },
            }
            i = i + 1;
        }
        proof {
            assert(sv.skip(i as int).len() == 0);
            assert(out@.map_values(|p: usize| p as int) + seq![] =~= out@.map_values(
                |p: usize| p as int,
            ));
        }
        out
    }
}

} // verus!
