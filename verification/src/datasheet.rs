//! The datasheet: a table with a typed header row and a pool of strings.
//!
//! All integers are little-endian. The fixed fields stand at the offsets
//! named by the constants below, the header cells from offset 92 on, the rows
//! right behind them, and every text is a NUL-terminated UTF-8 string at an
//! offset from the start of the string pool.

pub mod json;
pub mod number;
pub mod render;
pub mod yaml;

use crate::bytes::{spec_u32_le, u32_le_at};
use crate::error::Error;
use crate::utils::text::string_from_utf8;
use vstd::prelude::*;
use vstd::utf8::{decode_utf8, valid_utf8};

verus! {

/// The four bytes that a datasheet starts with.
pub const MAGIC: [u8; 4] = [0x11, 0x00, 0x00, 0x00];

/// Offset of the version.
pub const VERSION: usize = 0x00;

/// Offset of the offset of the name in the string pool.
pub const NAME_OFFSET_FROM_STRING: usize = 0x08;

/// Offset of the offset of the type name in the string pool.
pub const TYPE_OFFSET_FROM_STRING: usize = 0x10;

/// Offset of the size of the data, from which the string pool is found.
pub const DATA_END: usize = 0x38;

/// Offset of the second copy of the size of the data.
pub const DATA_END_COPY: usize = 0x3c;

/// Offset of the number of columns.
pub const NUM_COLUMNS: usize = 0x44;

/// Offset of the number of rows.
pub const NUM_ROWS: usize = 0x48;

/// Offset of the first header cell.
pub const HEADER: usize = 0x5c;

/// Size of a header cell: hash, data, column type.
pub const HEADER_BYTE_SIZE: usize = 12;

/// Size of a row cell: hash, data.
pub const CELL_BYTE_SIZE: usize = 8;

/// Column type of texts.
pub const COLUMN_STRING: u32 = 1;

/// Column type of numbers.
pub const COLUMN_NUMBER: u32 = 2;

/// Column type of truth values.
pub const COLUMN_BOOLEAN: u32 = 3;

/// A cell of the header row: the column's name and its type.
#[derive(Debug, Clone)]
pub struct HeaderCell {
    pub text: String,
    pub _type: u32,
}

/// A cell of a row. A number is held as the 32 bits it has in the file,
/// which are those of an IEEE 754 single.
#[derive(Debug, Clone)]
pub enum DatasheetCell {
    String(String),
    Number(u32),
    Boolean(bool),
}

/// A decoded datasheet.
#[derive(Debug, Clone)]
pub struct Datasheet {
    pub version: u32,
    pub name: String,
    pub _type: String,
    pub column_count: usize,
    pub row_count: usize,
    pub header: Vec<HeaderCell>,
    pub rows: Vec<Vec<DatasheetCell>>,
}

/// What a [`HeaderCell`] holds.
pub struct HeaderCellModel {
    pub text: Seq<char>,
    pub kind: u32,
}

/// What a [`DatasheetCell`] holds.
pub enum CellModel {
    String(Seq<char>),
    Number(u32),
    Boolean(bool),
}

/// What a [`Datasheet`] holds.
pub struct DatasheetModel {
    pub version: u32,
    pub name: Seq<char>,
    pub kind: Seq<char>,
    pub column_count: usize,
    pub row_count: usize,
    pub header: Seq<HeaderCellModel>,
    pub rows: Seq<Seq<CellModel>>,
}

impl View for HeaderCell {
    type V = HeaderCellModel;

    open spec fn view(&self) -> HeaderCellModel {
        HeaderCellModel { text: self.text@, kind: self._type }
    }
}

impl View for DatasheetCell {
    type V = CellModel;

    open spec fn view(&self) -> CellModel {
        match self {
            DatasheetCell::String(s) => CellModel::String(s@),
            DatasheetCell::Number(bits) => CellModel::Number(*bits),
            DatasheetCell::Boolean(b) => CellModel::Boolean(*b),
        }
    }
}

/// The models of the cells of a header.
pub open spec fn header_models(header: Seq<HeaderCell>) -> Seq<HeaderCellModel> {
    Seq::new(header.len(), |i: int| header[i]@)
}

/// The models of the cells of a row.
pub open spec fn row_models(row: Seq<DatasheetCell>) -> Seq<CellModel> {
    Seq::new(row.len(), |i: int| row[i]@)
}

/// The models of the rows of a table.
pub open spec fn rows_models(rows: Seq<Vec<DatasheetCell>>) -> Seq<Seq<CellModel>> {
    Seq::new(rows.len(), |i: int| row_models(rows[i]@))
}

impl View for Datasheet {
    type V = DatasheetModel;

    open spec fn view(&self) -> DatasheetModel {
        DatasheetModel {
            version: self.version,
            name: self.name@,
            kind: self._type@,
            column_count: self.column_count,
            row_count: self.row_count,
            header: header_models(self.header@),
            rows: rows_models(self.rows@),
        }
    }
}

/// Where the first NUL byte at or behind `at` stands, if there is one.
pub open spec fn find_nul(bytes: Seq<u8>, at: int) -> Option<int>
    decreases bytes.len() - at,
{
    if at < 0 || at >= bytes.len() {
        None
    } else if bytes[at] == 0 {
        Some(at)
    } else {
        find_nul(bytes, at + 1)
    }
}

/// The text that starts at `at` and ends before the next NUL byte.
pub open spec fn parse_string(bytes: Seq<u8>, at: int) -> Result<Seq<char>, Error> {
    match find_nul(bytes, at) {
        None => Err(Error::UnexpectedEof),
        Some(end) => if valid_utf8(bytes.subrange(at, end)) {
            Ok(decode_utf8(bytes.subrange(at, end)))
        } else {
            Err(Error::InvalidUtf8)
        },
    }
}

/// `first` put before the items of a result.
pub open spec fn followed_by<T>(first: T, rest: Result<Seq<T>, Error>) -> Result<Seq<T>, Error> {
    match rest {
        Ok(rest) => Ok(seq![first] + rest),
        Err(e) => Err(e),
    }
}

/// Whether `kind` is one of the three column types.
pub open spec fn known_column(kind: u32) -> bool {
    kind == COLUMN_STRING || kind == COLUMN_NUMBER || kind == COLUMN_BOOLEAN
}

/// The header cell at `at`: its text is the string at the offset that the
/// cell's data gives, counted from `strings`; its type must be known.
pub open spec fn parse_header_cell(bytes: Seq<u8>, strings: int, at: int) -> Result<
    HeaderCellModel,
    Error,
> {
    if at + 8 > bytes.len() {
        Err(Error::UnexpectedEof)
    } else {
        match parse_string(bytes, strings + spec_u32_le(bytes, at + 4)) {
            Err(e) => Err(e),
            Ok(text) => if at + 12 > bytes.len() {
                Err(Error::UnexpectedEof)
            } else if !known_column(spec_u32_le(bytes, at + 8)) {
                Err(Error::UnknownCellType(spec_u32_le(bytes, at + 8)))
            } else {
                Ok(HeaderCellModel { text, kind: spec_u32_le(bytes, at + 8) })
            },
        }
    }
}

/// The `count` header cells from `at` on.
pub open spec fn parse_header(bytes: Seq<u8>, strings: int, at: int, count: nat) -> Result<
    Seq<HeaderCellModel>,
    Error,
>
    decreases count,
{
    if count == 0 {
        Ok(Seq::empty())
    } else {
        match parse_header_cell(bytes, strings, at) {
            Err(e) => Err(e),
            Ok(cell) => followed_by(
                cell,
                parse_header(bytes, strings, at + 12, (count - 1) as nat),
            ),
        }
    }
}

/// The row cell at `at` in a column of type `kind`: a text found in the
/// string pool, the bits of a number, or a truth value that is true unless
/// the data is zero.
pub open spec fn parse_cell(bytes: Seq<u8>, strings: int, kind: u32, at: int) -> Result<
    CellModel,
    Error,
> {
    if at + 8 > bytes.len() {
        Err(Error::UnexpectedEof)
    } else if kind == COLUMN_STRING {
        match parse_string(bytes, strings + spec_u32_le(bytes, at + 4)) {
            Err(e) => Err(e),
            Ok(text) => Ok(CellModel::String(text)),
        }
    } else if kind == COLUMN_NUMBER {
        Ok(CellModel::Number(spec_u32_le(bytes, at + 4)))
    } else if kind == COLUMN_BOOLEAN {
        Ok(CellModel::Boolean(spec_u32_le(bytes, at + 4) != 0))
    } else {
        Err(Error::UnknownCellType(kind))
    }
}

/// The cells of one row from column `column` on, the first of them at `at`.
pub open spec fn parse_row(
    bytes: Seq<u8>,
    strings: int,
    header: Seq<HeaderCellModel>,
    at: int,
    column: int,
) -> Result<Seq<CellModel>, Error>
    decreases header.len() - column,
{
    if column < 0 || column >= header.len() {
        Ok(Seq::empty())
    } else {
        match parse_cell(bytes, strings, header[column].kind, at) {
            Err(e) => Err(e),
            Ok(cell) => followed_by(cell, parse_row(bytes, strings, header, at + 8, column + 1)),
        }
    }
}

/// The `count` rows from `at` on, each of one cell for every header cell.
pub open spec fn parse_rows(
    bytes: Seq<u8>,
    strings: int,
    header: Seq<HeaderCellModel>,
    at: int,
    count: nat,
) -> Result<Seq<Seq<CellModel>>, Error>
    decreases count,
{
    if count == 0 {
        Ok(Seq::empty())
    } else {
        match parse_row(bytes, strings, header, at, 0) {
            Err(e) => Err(e),
            Ok(row) => followed_by(
                row,
                parse_rows(bytes, strings, header, at + 8 * header.len(), (count - 1) as nat),
            ),
        }
    }
}

/// Whether the rows of a sheet without columns are more than the bytes
/// behind the fixed fields: such a sheet is refused, so that the number of
/// rows never exceeds the size of the buffer.
pub open spec fn too_many_empty_rows(bytes: Seq<u8>, columns: u32, rows: u32) -> bool {
    columns == 0 && rows > 0 && rows > bytes.len() - HEADER
}

/// The datasheet that `bytes` hold.
pub open spec fn parse_datasheet(bytes: Seq<u8>) -> Result<DatasheetModel, Error> {
    if bytes.len() < 64 {
        Err(Error::UnexpectedEof)
    } else if spec_u32_le(bytes, DATA_END_COPY as int) != spec_u32_le(bytes, DATA_END as int) {
        Err(Error::SizeMismatch)
    } else if bytes.len() < 76 {
        Err(Error::UnexpectedEof)
    } else {
        let strings = spec_u32_le(bytes, DATA_END as int) + 60;
        let columns = spec_u32_le(bytes, NUM_COLUMNS as int);
        let rows = spec_u32_le(bytes, NUM_ROWS as int);
        match parse_header(bytes, strings, HEADER as int, columns as nat) {
            Err(e) => Err(e),
            Ok(header) => if too_many_empty_rows(bytes, columns, rows) {
                Err(Error::UnexpectedEof)
            } else {
                match parse_rows(bytes, strings, header, HEADER + 12 * columns, rows as nat) {
                    Err(e) => Err(e),
                    Ok(table) => match parse_string(
                        bytes,
                        strings + spec_u32_le(bytes, NAME_OFFSET_FROM_STRING as int),
                    ) {
                        Err(e) => Err(e),
                        Ok(name) => match parse_string(
                            bytes,
                            strings + spec_u32_le(bytes, TYPE_OFFSET_FROM_STRING as int),
                        ) {
                            Err(e) => Err(e),
                            Ok(kind) => Ok(
                                DatasheetModel {
                                    version: spec_u32_le(bytes, VERSION as int),
                                    name,
                                    kind,
                                    column_count: columns as usize,
                                    row_count: rows as usize,
                                    header,
                                    rows: table,
                                },
                            ),
                        },
                    },
                }
            },
        }
    }
}

/// `front` put before the items of a result.
pub open spec fn after<T>(front: Seq<T>, rest: Result<Seq<T>, Error>) -> Result<Seq<T>, Error> {
    match rest {
        Ok(rest) => Ok(front + rest),
        Err(e) => Err(e),
    }
}

/// Putting nothing before a result leaves it as it is.
proof fn lemma_after_nothing<T>(rest: Result<Seq<T>, Error>)
    ensures
        after(Seq::empty(), rest) == rest,
{
    match rest {
        Ok(rest) => {
            assert(Seq::<T>::empty() + rest =~= rest);
        },
        Err(_) => {},
    }
}

/// Putting `front` and then `one` before a result is putting both at once.
proof fn lemma_after_one<T>(front: Seq<T>, one: T, rest: Result<Seq<T>, Error>)
    ensures
        after(front, followed_by(one, rest)) == after(front.push(one), rest),
{
    match rest {
        Ok(rest) => {
            assert(front + (seq![one] + rest) =~= front.push(one) + rest);
        },
        Err(_) => {},
    }
}

/// A result with nothing left to come is what was gathered.
proof fn lemma_after_end<T>(front: Seq<T>)
    ensures
        after(front, Ok(Seq::empty())) == Ok::<Seq<T>, Error>(front),
{
    assert(front + Seq::<T>::empty() =~= front);
}

/// Where the first NUL byte at or behind `at` stands.
fn nul_position(data: &[u8], at: usize) -> (r: Option<usize>)
    ensures
        match r {
            Some(end) => find_nul(data@, at as int) == Some(end as int) && at <= end < data@.len(),
            None => find_nul(data@, at as int) is None,
        },
{
    let mut i: usize = at;
    while i < data.len()
        invariant
            at <= i,
            find_nul(data@, at as int) == find_nul(data@, i as int),
        decreases data@.len() - i,
    {
        if data[i] == 0 {
            return Some(i);
        }
        i += 1;
    }
    None
}

/// Reads the NUL-terminated UTF-8 text that starts at `at`.
pub fn read_string(data: &[u8], at: usize) -> (r: Result<String, Error>)
    ensures
        match r {
            Ok(s) => parse_string(data@, at as int) == Ok::<Seq<char>, Error>(s@),
            Err(e) => parse_string(data@, at as int) == Err::<Seq<char>, Error>(e),
        },
{
    let end = match nul_position(data, at) {
        Some(end) => end,
        None => {
            return Err(Error::UnexpectedEof);
        },
    };
    let mut text: Vec<u8> = Vec::new();
    let mut i: usize = at;
    while i < end
        invariant
            at <= i <= end < data@.len(),
            text@ == data@.subrange(at as int, i as int),
        decreases end - i,
    {
        text.push(data[i]);
        i += 1;
        assert(text@ =~= data@.subrange(at as int, i as int));
    }
    match string_from_utf8(text) {
        Some(s) => Ok(s),
        None => Err(Error::InvalidUtf8),
    }
}

/// Reads the text at the offset `offset` of the string pool that starts at
/// `strings`.
fn read_pooled(data: &[u8], strings: u64, offset: u32) -> (r: Result<String, Error>)
    requires
        strings <= u32::MAX + 60,
    ensures
        match r {
            Ok(s) => parse_string(data@, strings + offset) == Ok::<Seq<char>, Error>(s@),
            Err(e) => parse_string(data@, strings + offset) == Err::<Seq<char>, Error>(e),
        },
{
    let at: u64 = strings + offset as u64;
    if at >= data.len() as u64 {
        return Err(Error::UnexpectedEof);
    }
    read_string(data, at as usize)
}

/// Reads the header cell at `at`.
fn read_header_cell(data: &[u8], strings: u64, at: usize) -> (r: Result<HeaderCell, Error>)
    requires
        strings <= u32::MAX + 60,
    ensures
        match r {
            Ok(cell) => parse_header_cell(data@, strings as int, at as int) == Ok::<
                HeaderCellModel,
                Error,
            >(cell@) && at + 12 <= data@.len(),
            Err(e) => parse_header_cell(data@, strings as int, at as int) == Err::<
                HeaderCellModel,
                Error,
            >(e),
        },
{
    if data.len() < 8 || at > data.len() - 8 {
        return Err(Error::UnexpectedEof);
    }
    let offset = u32_le_at(data, at + 4);
    let text = match read_pooled(data, strings, offset) {
        Ok(text) => text,
        Err(e) => {
            return Err(e);
        },
    };
    if data.len() < 12 || at > data.len() - 12 {
        return Err(Error::UnexpectedEof);
    }
    let kind = u32_le_at(data, at + 8);
    if kind != COLUMN_STRING && kind != COLUMN_NUMBER && kind != COLUMN_BOOLEAN {
        return Err(Error::UnknownCellType(kind));
    }
    Ok(HeaderCell { text, _type: kind })
}

/// Reads the row cell at `at` in a column of type `kind`.
fn read_cell(data: &[u8], strings: u64, kind: u32, at: usize) -> (r: Result<DatasheetCell, Error>)
    requires
        strings <= u32::MAX + 60,
    ensures
        match r {
            Ok(cell) => parse_cell(data@, strings as int, kind, at as int) == Ok::<
                CellModel,
                Error,
            >(cell@) && at + 8 <= data@.len(),
            Err(e) => parse_cell(data@, strings as int, kind, at as int) == Err::<
                CellModel,
                Error,
            >(e),
        },
{
    if data.len() < 8 || at > data.len() - 8 {
        return Err(Error::UnexpectedEof);
    }
    let value = u32_le_at(data, at + 4);
    if kind == COLUMN_STRING {
        match read_pooled(data, strings, value) {
            Ok(text) => Ok(DatasheetCell::String(text)),
            Err(e) => Err(e),
        }
    } else if kind == COLUMN_NUMBER {
        Ok(DatasheetCell::Number(value))
    } else if kind == COLUMN_BOOLEAN {
        Ok(DatasheetCell::Boolean(value != 0))
    } else {
        Err(Error::UnknownCellType(kind))
    }
}

/// Reads `count` header cells from `at` on.
fn read_header(data: &[u8], strings: u64, at: usize, count: u32) -> (r: Result<
    Vec<HeaderCell>,
    Error,
>)
    requires
        strings <= u32::MAX + 60,
        at == HEADER,
    ensures
        match r {
            Ok(header) => parse_header(data@, strings as int, at as int, count as nat) == Ok::<
                Seq<HeaderCellModel>,
                Error,
            >(header_models(header@)) && header@.len() == count && (count > 0 ==> at + 12 * count
                <= data@.len()),
            Err(e) => parse_header(data@, strings as int, at as int, count as nat) == Err::<
                Seq<HeaderCellModel>,
                Error,
            >(e),
        },
{
    let mut header: Vec<HeaderCell> = Vec::new();
    let mut cur: usize = at;
    let mut i: u32 = 0;
    proof {
        assert(header_models(header@) =~= Seq::<HeaderCellModel>::empty());
        lemma_after_nothing(parse_header(data@, strings as int, at as int, count as nat));
    }
    while i < count
        invariant
            strings <= u32::MAX + 60,
            i <= count,
            header@.len() == i,
            cur == at + 12 * i,
            i > 0 ==> cur <= data@.len(),
            at == HEADER,
            parse_header(data@, strings as int, at as int, count as nat) == after(
                header_models(header@),
                parse_header(data@, strings as int, cur as int, (count - i) as nat),
            ),
        decreases count - i,
    {
        let ghost before = header_models(header@);
        let ghost rest = parse_header(data@, strings as int, cur + 12, (count - i - 1) as nat);
        match read_header_cell(data, strings, cur) {
            Err(e) => {
                return Err(e);
            },
            Ok(cell) => {
                proof {
                    lemma_after_one(before, cell@, rest);
                }
                header.push(cell);
                proof {
                    assert(header_models(header@) =~= before.push(cell@));
                }
                assert(cur + 12 <= data.len());
                cur = cur + 12;
                i = i + 1;
            },
        }
    }
    proof {
        lemma_after_end(header_models(header@));
    }
    Ok(header)
}

/// Reads the cells of the row that starts at `at`.
fn read_row(data: &[u8], strings: u64, header: &Vec<HeaderCell>, at: usize) -> (r: Result<
    Vec<DatasheetCell>,
    Error,
>)
    requires
        strings <= u32::MAX + 60,
        at <= data@.len(),
    ensures
        match r {
            Ok(row) => parse_row(data@, strings as int, header_models(header@), at as int, 0)
                == Ok::<Seq<CellModel>, Error>(row_models(row@)) && at + 8 * header@.len()
                <= data@.len(),
            Err(e) => parse_row(data@, strings as int, header_models(header@), at as int, 0)
                == Err::<Seq<CellModel>, Error>(e),
        },
{
    let ghost kinds = header_models(header@);
    let mut row: Vec<DatasheetCell> = Vec::new();
    let mut cur: usize = at;
    let mut column: usize = 0;
    proof {
        assert(row_models(row@) =~= Seq::<CellModel>::empty());
        lemma_after_nothing(parse_row(data@, strings as int, kinds, at as int, 0));
    }
    while column < header.len()
        invariant
            strings <= u32::MAX + 60,
            kinds == header_models(header@),
            column <= header@.len(),
            cur == at + 8 * column,
            cur <= data@.len(),
            parse_row(data@, strings as int, kinds, at as int, 0) == after(
                row_models(row@),
                parse_row(data@, strings as int, kinds, cur as int, column as int),
            ),
        decreases header@.len() - column,
    {
        let ghost before = row_models(row@);
        let ghost rest = parse_row(data@, strings as int, kinds, cur + 8, column + 1);
        match read_cell(data, strings, header[column]._type, cur) {
            Err(e) => {
                return Err(e);
            },
            Ok(cell) => {
                proof {
                    lemma_after_one(before, cell@, rest);
                }
                row.push(cell);
                proof {
                    assert(row_models(row@) =~= before.push(cell@));
                }
                assert(cur + 8 <= data.len());
                cur = cur + 8;
                column = column + 1;
            },
        }
    }
    proof {
        lemma_after_end(row_models(row@));
    }
    Ok(row)
}

/// Reads `count` rows from `at` on.
fn read_rows(data: &[u8], strings: u64, header: &Vec<HeaderCell>, at: usize, count: u32) -> (r:
    Result<Vec<Vec<DatasheetCell>>, Error>)
    requires
        strings <= u32::MAX + 60,
        at <= data@.len() || header@.len() == 0,
        header@.len() <= u32::MAX,
    ensures
        match r {
            Ok(rows) => parse_rows(
                data@,
                strings as int,
                header_models(header@),
                at as int,
                count as nat,
            ) == Ok::<Seq<Seq<CellModel>>, Error>(rows_models(rows@)) && rows@.len() == count,
            Err(e) => parse_rows(
                data@,
                strings as int,
                header_models(header@),
                at as int,
                count as nat,
            ) == Err::<Seq<Seq<CellModel>>, Error>(e),
        },
{
    let ghost kinds = header_models(header@);
    let mut rows: Vec<Vec<DatasheetCell>> = Vec::new();
    let mut cur: usize = at;
    let mut i: u32 = 0;
    proof {
        assert(rows_models(rows@) =~= Seq::<Seq<CellModel>>::empty());
        lemma_after_nothing(parse_rows(data@, strings as int, kinds, at as int, count as nat));
    }
    while i < count
        invariant
            strings <= u32::MAX + 60,
            kinds == header_models(header@),
            header@.len() <= u32::MAX,
            i <= count,
            rows@.len() == i,
            cur <= data@.len() || (header@.len() == 0 && cur == at),
            parse_rows(data@, strings as int, kinds, at as int, count as nat) == after(
                rows_models(rows@),
                parse_rows(data@, strings as int, kinds, cur as int, (count - i) as nat),
            ),
        decreases count - i,
    {
        let ghost before = rows_models(rows@);
        let ghost rest = parse_rows(
            data@,
            strings as int,
            kinds,
            cur + 8 * kinds.len(),
            (count - i - 1) as nat,
        );
        if header.len() == 0 {
            let row: Vec<DatasheetCell> = Vec::new();
            proof {
                assert(row_models(row@) =~= Seq::<CellModel>::empty());
                lemma_after_one(before, row_models(row@), rest);
            }
            rows.push(row);
            proof {
                assert(rows_models(rows@) =~= before.push(Seq::<CellModel>::empty()));
            }
        } else {
            match read_row(data, strings, header, cur) {
                Err(e) => {
                    return Err(e);
                },
                Ok(row) => {
                    proof {
                        lemma_after_one(before, row_models(row@), rest);
                    }
                    let ghost row_model = row_models(row@);
                    rows.push(row);
                    proof {
                        assert(rows_models(rows@) =~= before.push(row_model));
                    }
                    assert(cur + 8 * header.len() <= data.len());
                    cur = cur + 8 * header.len();
                },
            }
        }
        i = i + 1;
    }
    proof {
        lemma_after_end(rows_models(rows@));
    }
    Ok(rows)
}

/// Whether a cell holds what a column of the type `kind` holds.
pub open spec fn cell_matches(cell: CellModel, kind: u32) -> bool {
    match cell {
        CellModel::String(_) => kind == COLUMN_STRING,
        CellModel::Number(_) => kind == COLUMN_NUMBER,
        CellModel::Boolean(_) => kind == COLUMN_BOOLEAN,
    }
}

/// Whether a sheet is what it says: as many header cells as columns, each
/// of a known type; as many rows as it counts; and in every row one cell
/// for each column, of the column's type.
pub open spec fn well_formed(sheet: DatasheetModel) -> bool {
    &&& sheet.header.len() == sheet.column_count
    &&& sheet.rows.len() == sheet.row_count
    &&& forall|c: int| 0 <= c < sheet.header.len() ==> known_column((#[trigger] sheet.header[c]).kind)
    &&& forall|r: int| 0 <= r < sheet.rows.len() ==> (#[trigger] sheet.rows[r]).len() == sheet.header.len()
    &&& forall|r: int, c: int|
        0 <= r < sheet.rows.len() && 0 <= c < sheet.header.len() ==> cell_matches(
            #[trigger] sheet.rows[r][c],
            sheet.header[c].kind,
        )
}

/// A header that was parsed has as many cells as were asked for, each of a
/// known type.
pub proof fn lemma_header_is_well_formed(bytes: Seq<u8>, strings: int, at: int, count: nat)
    requires
        parse_header(bytes, strings, at, count) is Ok,
    ensures
        parse_header(bytes, strings, at, count)->Ok_0.len() == count,
        forall|c: int|
            0 <= c < count ==> known_column(
                (#[trigger] parse_header(bytes, strings, at, count)->Ok_0[c]).kind,
            ),
    decreases count,
{
    if count > 0 {
        lemma_header_is_well_formed(bytes, strings, at + 12, (count - 1) as nat);
        let first = parse_header_cell(bytes, strings, at)->Ok_0;
        let rest = parse_header(bytes, strings, at + 12, (count - 1) as nat)->Ok_0;
        let all = parse_header(bytes, strings, at, count)->Ok_0;
        assert(all =~= seq![first] + rest);
        assert forall|c: int| 0 <= c < count implies known_column((#[trigger] all[c]).kind) by {
            if c > 0 {
                assert(all[c] == rest[c - 1]);
            }
        }
    }
}

/// A row that was parsed has one cell for each column from `column` on, of
/// the column's type.
pub proof fn lemma_row_is_well_formed(
    bytes: Seq<u8>,
    strings: int,
    header: Seq<HeaderCellModel>,
    at: int,
    column: int,
)
    requires
        0 <= column <= header.len(),
        parse_row(bytes, strings, header, at, column) is Ok,
    ensures
        parse_row(bytes, strings, header, at, column)->Ok_0.len() == header.len() - column,
        forall|c: int|
            0 <= c < header.len() - column ==> cell_matches(
                #[trigger] parse_row(bytes, strings, header, at, column)->Ok_0[c],
                header[column + c].kind,
            ),
    decreases header.len() - column,
{
    if column < header.len() {
        lemma_row_is_well_formed(bytes, strings, header, at + 8, column + 1);
        let first = parse_cell(bytes, strings, header[column].kind, at)->Ok_0;
        let rest = parse_row(bytes, strings, header, at + 8, column + 1)->Ok_0;
        let all = parse_row(bytes, strings, header, at, column)->Ok_0;
        assert(all =~= seq![first] + rest);
        assert forall|c: int| 0 <= c < header.len() - column implies cell_matches(
            #[trigger] all[c],
            header[column + c].kind,
        ) by {
            if c > 0 {
                assert(all[c] == rest[c - 1]);
            }
        }
    }
}

/// Rows that were parsed are as many as were asked for, and each has one
/// cell for each column, of the column's type.
pub proof fn lemma_rows_are_well_formed(
    bytes: Seq<u8>,
    strings: int,
    header: Seq<HeaderCellModel>,
    at: int,
    count: nat,
)
    requires
        parse_rows(bytes, strings, header, at, count) is Ok,
    ensures
        parse_rows(bytes, strings, header, at, count)->Ok_0.len() == count,
        forall|r: int|
            0 <= r < count ==> (#[trigger] parse_rows(bytes, strings, header, at, count)->Ok_0[r]).len()
                == header.len(),
        forall|r: int, c: int|
            0 <= r < count && 0 <= c < header.len() ==> cell_matches(
                #[trigger] parse_rows(bytes, strings, header, at, count)->Ok_0[r][c],
                header[c].kind,
            ),
    decreases count,
{
    if count > 0 {
        lemma_rows_are_well_formed(bytes, strings, header, at + 8 * header.len(), (count - 1) as nat);
        lemma_row_is_well_formed(bytes, strings, header, at, 0);
        let first = parse_row(bytes, strings, header, at, 0)->Ok_0;
        let rest = parse_rows(bytes, strings, header, at + 8 * header.len(), (count - 1) as nat)->Ok_0;
        let all = parse_rows(bytes, strings, header, at, count)->Ok_0;
        assert(all =~= seq![first] + rest);
        assert forall|r: int| 0 <= r < count implies (#[trigger] all[r]).len() == header.len() by {
            if r > 0 {
                assert(all[r] == rest[r - 1]);
            }
        }
        assert forall|r: int, c: int| 0 <= r < count && 0 <= c < header.len() implies cell_matches(
            #[trigger] all[r][c],
            header[c].kind,
        ) by {
            if r > 0 {
                assert(all[r] == rest[r - 1]);
            }
        }
    }
}

/// A sheet that was decoded is what it says: every row has exactly one cell
/// for each column, of the type that the header gives the column.
pub proof fn lemma_decoded_is_well_formed(bytes: Seq<u8>)
    requires
        parse_datasheet(bytes) is Ok,
    ensures
        well_formed(parse_datasheet(bytes)->Ok_0),
{
    let strings = spec_u32_le(bytes, DATA_END as int) + 60;
    let columns = spec_u32_le(bytes, NUM_COLUMNS as int);
    let rows = spec_u32_le(bytes, NUM_ROWS as int);
    lemma_header_is_well_formed(bytes, strings, HEADER as int, columns as nat);
    let header = parse_header(bytes, strings, HEADER as int, columns as nat)->Ok_0;
    lemma_rows_are_well_formed(bytes, strings, header, HEADER + 12 * columns, rows as nat);
}

/// Whether `r` is what decoding `bytes` gives: the sheet that the bytes
/// hold, or the error that stops the decoder.
pub open spec fn decodes_to(bytes: Seq<u8>, r: Result<Datasheet, Error>) -> bool {
    match r {
        Ok(sheet) => parse_datasheet(bytes) == Ok::<DatasheetModel, Error>(sheet@),
        Err(e) => parse_datasheet(bytes) == Err::<DatasheetModel, Error>(e),
    }
}

/// Decoding is a function of the buffer: two results of decoding the same
/// buffer hold the same sheet, or are the same error.
pub proof fn lemma_decoding_is_deterministic(
    bytes: Seq<u8>,
    first: Result<Datasheet, Error>,
    second: Result<Datasheet, Error>,
)
    requires
        decodes_to(bytes, first),
        decodes_to(bytes, second),
    ensures
        match (first, second) {
            (Ok(a), Ok(b)) => a@ == b@,
            (Err(a), Err(b)) => a == b,
            _ => false,
        },
{
}

/// Decodes a datasheet.
pub fn from_reader(data: &[u8]) -> (r: Result<Datasheet, Error>)
    ensures
        decodes_to(data@, r),
        r is Ok ==> well_formed(r->Ok_0@),
{
    proof {
        if parse_datasheet(data@) is Ok {
            lemma_decoded_is_well_formed(data@);
        }
    }
    if data.len() < 64 {
        return Err(Error::UnexpectedEof);
    }
    let version = u32_le_at(data, VERSION);
    let name_offset = u32_le_at(data, NAME_OFFSET_FROM_STRING);
    let kind_offset = u32_le_at(data, TYPE_OFFSET_FROM_STRING);
    let data_end = u32_le_at(data, DATA_END);
    let data_end_copy = u32_le_at(data, DATA_END_COPY);
    if data_end_copy != data_end {
        return Err(Error::SizeMismatch);
    }
    if data.len() < 76 {
        return Err(Error::UnexpectedEof);
    }
    let columns = u32_le_at(data, NUM_COLUMNS);
    let row_count = u32_le_at(data, NUM_ROWS);
    let strings: u64 = data_end as u64 + 60;
    let header = match read_header(data, strings, HEADER, columns) {
        Ok(header) => header,
        Err(e) => {
            return Err(e);
        },
    };
    if columns == 0 && row_count > 0 && (data.len() < HEADER || row_count as u64 > (data.len()
        - HEADER) as u64) {
        return Err(Error::UnexpectedEof);
    }
    let rows_at: usize = if columns == 0 {
        HEADER
    } else {
        HEADER + 12 * (columns as usize)
    };
    let rows = match read_rows(data, strings, &header, rows_at, row_count) {
        Ok(rows) => rows,
        Err(e) => {
            return Err(e);
        },
    };
    let name = match read_pooled(data, strings, name_offset) {
        Ok(name) => name,
        Err(e) => {
            return Err(e);
        },
    };
    let kind = match read_pooled(data, strings, kind_offset) {
        Ok(kind) => kind,
        Err(e) => {
            return Err(e);
        },
    };
    Ok(
        Datasheet {
            version,
            name,
            _type: kind,
            column_count: columns as usize,
            row_count: row_count as usize,
            header,
            rows,
        },
    )
}

} // verus!
