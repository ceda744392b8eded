//! A datasheet as CSV and SQL text.
//!
//! A number that is a whole number is written as that number, without a
//! decimal point. The text of any other number is not made here: the caller
//! hands in a table from the bits of a number to its text.

use crate::datasheet::number::{integral, whole_value};
use crate::datasheet::{
    header_models, rows_models, CellModel, Datasheet, DatasheetCell, DatasheetModel, HeaderCell,
    HeaderCellModel, COLUMN_NUMBER, COLUMN_STRING,
};
use crate::utils::text::{
    decimal, lemma_decimal_has_no_point, push_decimal_u128, signed_decimal,
};
use std::collections::HashMap;
use vstd::prelude::*;
use vstd::string::StringExecFns;

verus! {

/// The texts of numbers that are not whole numbers, by their bits.
pub open spec fn texts_of(fractions: HashMap<u32, String>) -> Map<u32, Seq<char>> {
    fractions@.map_values(|s: String| s@)
}

/// `items` with `separator` between each two of them.
pub open spec fn joined(items: Seq<Seq<char>>, separator: Seq<char>) -> Seq<char>
    decreases items.len(),
{
    if items.len() == 0 {
        Seq::empty()
    } else if items.len() == 1 {
        items[0]
    } else {
        joined(items.drop_last(), separator) + separator + items.last()
    }
}

/// All of `items`, one after the other.
pub open spec fn concatenated(items: Seq<Seq<char>>) -> Seq<char>
    decreases items.len(),
{
    if items.len() == 0 {
        Seq::empty()
    } else {
        concatenated(items.drop_last()) + items.last()
    }
}

/// Whether a number is written without the help of the table.
pub open spec fn is_whole(bits: u32) -> bool {
    whole_value(bits) is Some
}

/// The text of a number: that of the whole number it is, or else the text
/// that the table holds for its bits.
pub open spec fn number_text(bits: u32, fractions: Map<u32, Seq<char>>) -> Seq<char> {
    match whole_value(bits) {
        Some(v) => signed_decimal(v),
        None => fractions[bits],
    }
}

/// A whole number is written without a decimal point, whatever the table
/// holds: in every text that is made of a sheet, the text of a number that
/// has no fractional part is its digits, with a minus sign where it is
/// negative.
pub proof fn lemma_whole_number_has_no_point(bits: u32, fractions: Map<u32, Seq<char>>)
    requires
        is_whole(bits),
    ensures
        number_text(bits, fractions) == signed_decimal(whole_value(bits)->Some_0),
        forall|i: int|
            0 <= i < number_text(bits, fractions).len() ==> #[trigger] number_text(
                bits,
                fractions,
            )[i] != '.',
{
    let v = whole_value(bits)->Some_0;
    if v < 0 {
        lemma_decimal_has_no_point((-v) as nat);
        let digits = decimal((-v) as nat);
        assert forall|i: int| 0 <= i < signed_decimal(v).len() implies #[trigger] signed_decimal(
            v,
        )[i] != '.' by {
            if i > 0 {
                assert(signed_decimal(v)[i] == digits[i - 1]);
            }
        }
    } else {
        lemma_decimal_has_no_point(v as nat);
    }
}

/// Whether the table holds a text for `cell`, where it needs one.
pub open spec fn cell_is_covered(cell: CellModel, fractions: Map<u32, Seq<char>>) -> bool {
    match cell {
        CellModel::Number(bits) => is_whole(bits) || fractions.contains_key(bits),
        _ => true,
    }
}

/// Whether the table holds a text for every number of `rows` that needs one.
pub open spec fn is_covered(rows: Seq<Seq<CellModel>>, fractions: Map<u32, Seq<char>>) -> bool {
    forall|r: int, c: int|
        0 <= r < rows.len() && 0 <= c < rows[r].len() ==> cell_is_covered(
            #[trigger] rows[r][c],
            fractions,
        )
}

/// A cell as CSV writes it: a text as it is, a number by the rule for
/// numbers, a truth value as `true` or `false`.
pub open spec fn csv_cell(cell: CellModel, fractions: Map<u32, Seq<char>>) -> Seq<char> {
    match cell {
        CellModel::String(s) => s,
        CellModel::Number(bits) => number_text(bits, fractions),
        CellModel::Boolean(b) => if b {
            "true"@
        } else {
            "false"@
        },
    }
}

/// A cell as SQL writes it: a text as it is, a number by the rule for
/// numbers, a truth value as `1` or `0`.
pub open spec fn sql_cell(cell: CellModel, fractions: Map<u32, Seq<char>>) -> Seq<char> {
    match cell {
        CellModel::String(s) => s,
        CellModel::Number(bits) => number_text(bits, fractions),
        CellModel::Boolean(b) => if b {
            "1"@
        } else {
            "0"@
        },
    }
}

/// The texts of the header cells.
pub open spec fn header_texts(header: Seq<HeaderCellModel>) -> Seq<Seq<char>> {
    Seq::new(header.len(), |i: int| header[i].text)
}

/// One line of CSV: the cells with commas between them, and a line feed.
pub open spec fn csv_line(cells: Seq<Seq<char>>) -> Seq<char> {
    joined(cells, ","@) + "\n"@
}

/// The CSV line of a row.
pub open spec fn csv_row(row: Seq<CellModel>, fractions: Map<u32, Seq<char>>) -> Seq<char> {
    csv_line(Seq::new(row.len(), |i: int| csv_cell(row[i], fractions)))
}

/// A datasheet as CSV: the line of the header texts, then one line for each
/// row. Nothing is quoted or escaped.
pub open spec fn csv_text(sheet: DatasheetModel, fractions: Map<u32, Seq<char>>) -> Seq<char> {
    csv_line(header_texts(sheet.header)) + concatenated(
        Seq::new(sheet.rows.len(), |r: int| csv_row(sheet.rows[r], fractions)),
    )
}

/// The SQL type of a column type.
pub open spec fn sql_type(kind: u32) -> Seq<char> {
    if kind == COLUMN_STRING {
        "TEXT"@
    } else if kind == COLUMN_NUMBER {
        "REAL"@
    } else {
        "INT"@
    }
}

/// The definition of column `i`: its quoted name, its type, and for the first
/// column the words that make it the key.
pub open spec fn sql_column(cell: HeaderCellModel, i: int) -> Seq<char> {
    "'"@ + cell.text + "' "@ + sql_type(cell.kind) + (if i == 0 {
        " PRIMARY KEY"@
    } else {
        ""@
    })
}

/// The `CREATE TABLE` statement of a sheet.
pub open spec fn sql_create(sheet: DatasheetModel) -> Seq<char> {
    "CREATE TABLE '"@ + sheet.name + "'(\n\t"@ + joined(
        Seq::new(sheet.header.len(), |i: int| sql_column(sheet.header[i], i)),
        ",\n\t"@,
    ) + "\n);\n"@
}

/// The values of a row, with commas between them.
pub open spec fn sql_row(row: Seq<CellModel>, fractions: Map<u32, Seq<char>>) -> Seq<char> {
    joined(Seq::new(row.len(), |i: int| sql_cell(row[i], fractions)), ","@)
}

/// The one `INSERT` statement that holds all the rows of a sheet.
pub open spec fn sql_insert(sheet: DatasheetModel, fractions: Map<u32, Seq<char>>) -> Seq<char> {
    "INSERT INTO '"@ + sheet.name + "' ('"@ + joined(header_texts(sheet.header), "','"@)
        + "') VALUES\n\t("@ + joined(
        Seq::new(sheet.rows.len(), |r: int| sql_row(sheet.rows[r], fractions)),
        "),\n\t("@,
    ) + ");\n"@
}

/// A datasheet as SQL: the `CREATE TABLE` statement, an empty line, and the
/// `INSERT` statement.
pub open spec fn sql_text(sheet: DatasheetModel, fractions: Map<u32, Seq<char>>) -> Seq<char> {
    sql_create(sheet) + "\n\n"@ + sql_insert(sheet, fractions)
}

/// The texts that a list of strings holds.
pub open spec fn views(items: Seq<String>) -> Seq<Seq<char>> {
    Seq::new(items.len(), |i: int| items[i]@)
}

/// Joining one more item adds the separator, unless it is the first, and the item.
proof fn lemma_joined_push(items: Seq<Seq<char>>, separator: Seq<char>, last: Seq<char>)
    ensures
        joined(items.push(last), separator) == (if items.len() == 0 {
            last
        } else {
            joined(items, separator) + separator + last
        }),
{
    assert(items.push(last).drop_last() =~= items);
}

/// Concatenating one more item adds the item.
proof fn lemma_concatenated_push(items: Seq<Seq<char>>, last: Seq<char>)
    ensures
        concatenated(items.push(last)) == concatenated(items) + last,
{
    assert(items.push(last).drop_last() =~= items);
}

/// Appends `items` with `separator` between each two of them.
pub fn push_joined(out: &mut String, items: &Vec<String>, separator: &str)
    ensures
        final(out)@ == old(out)@ + joined(views(items@), separator@),
{
    let ghost all = views(items@);
    let mut i: usize = 0;
    assert(all.subrange(0, 0) =~= Seq::<Seq<char>>::empty());
    assert(out@ =~= old(out)@ + Seq::<char>::empty());
    while i < items.len()
        invariant
            i <= items@.len(),
            all == views(items@),
            out@ == old(out)@ + joined(all.subrange(0, i as int), separator@),
        decreases items@.len() - i,
    {
        let ghost done = all.subrange(0, i as int);
        proof {
            lemma_joined_push(done, separator@, items@[i as int]@);
            assert(all.subrange(0, i + 1) =~= done.push(items@[i as int]@));
        }
        if i > 0 {
            out.append(separator);
        }
        out.append(items[i].as_str());
        i += 1;
        assert(out@ =~= old(out)@ + joined(all.subrange(0, i as int), separator@));
    }
    assert(all.subrange(0, i as int) =~= all);
}

/// The text of a number, where it is a whole number or the table holds one.
pub fn number_string(bits: u32, fractions: &HashMap<u32, String>) -> (r: Option<String>)
    ensures
        r is Some == (is_whole(bits) || texts_of(*fractions).contains_key(bits)),
        r is Some ==> r->Some_0@ == number_text(bits, texts_of(*fractions)),
{
    match integral(bits) {
        Some((negative, magnitude)) => {
            let mut out = String::new();
            if negative {
                proof {
                    reveal_strlit("-");
                }
                out.append("-");
            }
            push_decimal_u128(&mut out, magnitude);
            assert(out@ =~= signed_decimal(whole_value(bits)->Some_0));
            Some(out)
        },
        None => match fractions.get(&bits) {
            Some(text) => Some(text.clone()),
            None => None,
        },
    }
}

/// The texts of the cells of a row, as CSV (`sql` false) or SQL writes them.
fn cell_strings(row: &Vec<DatasheetCell>, fractions: &HashMap<u32, String>, sql: bool) -> (r:
    Option<Vec<String>>)
    ensures
        r is Some == (forall|c: int|
            0 <= c < row@.len() ==> cell_is_covered(#[trigger] row@[c]@, texts_of(*fractions))),
        r is Some ==> views(r->Some_0@) == Seq::new(
            row@.len(),
            |i: int|
                if sql {
                    sql_cell(row@[i]@, texts_of(*fractions))
                } else {
                    csv_cell(row@[i]@, texts_of(*fractions))
                },
        ),
{
    let ghost table = texts_of(*fractions);
    let mut out: Vec<String> = Vec::new();
    let mut i: usize = 0;
    while i < row.len()
        invariant
            i <= row@.len(),
            table == texts_of(*fractions),
            out@.len() == i,
            forall|c: int| 0 <= c < i ==> cell_is_covered(#[trigger] row@[c]@, table),
            forall|c: int|
                0 <= c < i ==> (#[trigger] out@[c])@ == (if sql {
                    sql_cell(row@[c]@, table)
                } else {
                    csv_cell(row@[c]@, table)
                }),
        decreases row@.len() - i,
    {
        let text = match &row[i] {
            DatasheetCell::String(s) => s.clone(),
            DatasheetCell::Number(bits) => match number_string(*bits, fractions) {
                Some(text) => text,
                None => {
                    assert(!cell_is_covered(row@[i as int]@, table));
                    return None;
                },
            },
            DatasheetCell::Boolean(b) => if sql {
                if *b {
                    String::from_str("1")
                } else {
                    String::from_str("0")
                }
            } else {
                if *b {
                    String::from_str("true")
                } else {
                    String::from_str("false")
                }
            },
        };
        out.push(text);
        i += 1;
    }
    assert(views(out@) =~= Seq::new(
        row@.len(),
        |i: int|
            if sql {
                sql_cell(row@[i]@, table)
            } else {
                csv_cell(row@[i]@, table)
            },
    ));
    Some(out)
}

/// The texts of the header cells.
fn header_strings(header: &Vec<HeaderCell>) -> (r: Vec<String>)
    ensures
        views(r@) == header_texts(header_models(header@)),
{
    let mut out: Vec<String> = Vec::new();
    let mut i: usize = 0;
    while i < header.len()
        invariant
            i <= header@.len(),
            out@.len() == i,
            forall|c: int| 0 <= c < i ==> (#[trigger] out@[c])@ == header@[c].text@,
        decreases header@.len() - i,
    {
        out.push(header[i].text.clone());
        i += 1;
    }
    assert(views(out@) =~= header_texts(header_models(header@)));
    out
}

/// The definitions of the columns.
fn column_strings(header: &Vec<HeaderCell>) -> (r: Vec<String>)
    ensures
        views(r@) == Seq::new(
            header@.len(),
            |i: int| sql_column(header_models(header@)[i], i),
        ),
{
    let mut out: Vec<String> = Vec::new();
    let mut i: usize = 0;
    while i < header.len()
        invariant
            i <= header@.len(),
            out@.len() == i,
            forall|c: int| 0 <= c < i ==> (#[trigger] out@[c])@ == sql_column(header@[c]@, c),
        decreases header@.len() - i,
    {
        let cell = &header[i];
        let mut text = String::from_str("'");
        text.append(cell.text.as_str());
        text.append("' ");
        if cell._type == COLUMN_STRING {
            text.append("TEXT");
        } else if cell._type == COLUMN_NUMBER {
            text.append("REAL");
        } else {
            text.append("INT");
        }
        if i == 0 {
            text.append(" PRIMARY KEY");
        } else {
            text.append("");
        }
        assert(text@ =~= sql_column(cell@, i as int));
        out.push(text);
        i += 1;
    }
    assert(views(out@) =~= Seq::new(
        header@.len(),
        |i: int| sql_column(header_models(header@)[i], i),
    ));
    out
}

/// The rows covered so far are covered, cell by cell.
pub proof fn lemma_covered_rows(rows: Seq<Vec<DatasheetCell>>, fractions: Map<u32, Seq<char>>)
    requires
        forall|r: int, c: int|
            0 <= r < rows.len() && 0 <= c < rows[r]@.len() ==> cell_is_covered(
                #[trigger] rows[r]@[c]@,
                fractions,
            ),
    ensures
        is_covered(rows_models(rows), fractions),
{
    assert forall|r: int, c: int|
        0 <= r < rows_models(rows).len() && 0 <= c < rows_models(rows)[r].len() implies cell_is_covered(
        #[trigger] rows_models(rows)[r][c],
        fractions,
    ) by {
        assert(rows_models(rows)[r][c] == rows[r]@[c]@);
    }
}

/// A row with a cell that is not covered leaves the table not covered.
pub proof fn lemma_uncovered_row(
    rows: Seq<Vec<DatasheetCell>>,
    fractions: Map<u32, Seq<char>>,
    r: int,
    c: int,
)
    requires
        0 <= r < rows.len(),
        0 <= c < rows[r]@.len(),
        !cell_is_covered(rows[r]@[c]@, fractions),
    ensures
        !is_covered(rows_models(rows), fractions),
{
    assert(rows_models(rows)[r][c] == rows[r]@[c]@);
}

impl Datasheet {
    /// The sheet as CSV: a line of column names and a line for each row,
    /// cells separated by commas, nothing quoted. `None` where the sheet
    /// holds a number that is not a whole number and for which `fractions`
    /// has no text.
    pub fn to_csv(&self, fractions: &HashMap<u32, String>) -> (r: Option<String>)
        ensures
            r is Some == is_covered(self@.rows, texts_of(*fractions)),
            r is Some ==> r->Some_0@ == csv_text(self@, texts_of(*fractions)),
    {
        let ghost table = texts_of(*fractions);
        let ghost lines = Seq::new(self@.rows.len(), |r: int| csv_row(self@.rows[r], table));
        let mut out = String::new();
        let names = header_strings(&self.header);
        push_joined(&mut out, &names, ",");
        out.append("\n");
        assert(out@ =~= csv_line(header_texts(self@.header)));
        let mut i: usize = 0;
        assert(lines.subrange(0, 0) =~= Seq::<Seq<char>>::empty());
        assert(out@ =~= csv_line(header_texts(self@.header)) + concatenated(
            lines.subrange(0, 0),
        ));
        while i < self.rows.len()
            invariant
                i <= self.rows@.len(),
                table == texts_of(*fractions),
                lines == Seq::new(self@.rows.len(), |r: int| csv_row(self@.rows[r], table)),
                forall|r: int, c: int|
                    0 <= r < i && 0 <= c < self.rows@[r]@.len() ==> cell_is_covered(
                        #[trigger] self.rows@[r]@[c]@,
                        table,
                    ),
                out@ == csv_line(header_texts(self@.header)) + concatenated(
                    lines.subrange(0, i as int),
                ),
            decreases self.rows@.len() - i,
        {
            let ghost done = lines.subrange(0, i as int);
            let ghost before = out@;
            let cells = match cell_strings(&self.rows[i], fractions, false) {
                Some(cells) => cells,
                None => {
                    proof {
                        let c = choose|c: int|
                            0 <= c < self.rows@[i as int]@.len() && !cell_is_covered(
                                #[trigger] self.rows@[i as int]@[c]@,
                                table,
                            );
                        lemma_uncovered_row(self.rows@, table, i as int, c);
                    }
                    return None;
                },
            };
            push_joined(&mut out, &cells, ",");
            out.append("\n");
            proof {
                assert(views(cells@) =~= Seq::new(
                    self@.rows[i as int].len(),
                    |c: int| csv_cell(self@.rows[i as int][c], table),
                ));
                assert(out@ =~= before + csv_row(self@.rows[i as int], table));
                lemma_concatenated_push(done, lines[i as int]);
                assert(lines.subrange(0, i + 1) =~= done.push(lines[i as int]));
                assert(out@ =~= csv_line(header_texts(self@.header)) + concatenated(
                    lines.subrange(0, i + 1),
                ));
            }
            i += 1;
        }
        proof {
            assert(lines.subrange(0, i as int) =~= lines);
            lemma_covered_rows(self.rows@, table);
        }
        Some(out)
    }

    /// The sheet as SQL: a `CREATE TABLE` statement whose first column is
    /// the key, and one `INSERT` statement with all the rows. `None` where
    /// the sheet holds a number that is not a whole number and for which
    /// `fractions` has no text.
    pub fn to_sql(&self, fractions: &HashMap<u32, String>) -> (r: Option<String>)
        ensures
            r is Some == is_covered(self@.rows, texts_of(*fractions)),
            r is Some ==> r->Some_0@ == sql_text(self@, texts_of(*fractions)),
    {
        let ghost table = texts_of(*fractions);
        let ghost all = Seq::new(self@.rows.len(), |r: int| sql_row(self@.rows[r], table));
        let mut values: Vec<String> = Vec::new();
        let mut i: usize = 0;
        while i < self.rows.len()
            invariant
                i <= self.rows@.len(),
                table == texts_of(*fractions),
                values@.len() == i,
                forall|r: int, c: int|
                    0 <= r < i && 0 <= c < self.rows@[r]@.len() ==> cell_is_covered(
                        #[trigger] self.rows@[r]@[c]@,
                        table,
                    ),
                forall|r: int| 0 <= r < i ==> (#[trigger] values@[r])@ == sql_row(self@.rows[r], table),
            decreases self.rows@.len() - i,
        {
            let cells = match cell_strings(&self.rows[i], fractions, true) {
                Some(cells) => cells,
                None => {
                    proof {
                        let c = choose|c: int|
                            0 <= c < self.rows@[i as int]@.len() && !cell_is_covered(
                                #[trigger] self.rows@[i as int]@[c]@,
                                table,
                            );
                        lemma_uncovered_row(self.rows@, table, i as int, c);
                    }
                    return None;
                },
            };
            let mut line = String::new();
            push_joined(&mut line, &cells, ",");
            proof {
                assert(views(cells@) =~= Seq::new(
                    self@.rows[i as int].len(),
                    |c: int| sql_cell(self@.rows[i as int][c], table),
                ));
                assert(line@ =~= sql_row(self@.rows[i as int], table));
            }
            values.push(line);
            i += 1;
        }
        proof {
            lemma_covered_rows(self.rows@, table);
            assert(views(values@) =~= all);
        }
        let columns = column_strings(&self.header);
        let names = header_strings(&self.header);
        let mut out = String::from_str("CREATE TABLE '");
        out.append(self.name.as_str());
        out.append("'(\n\t");
        push_joined(&mut out, &columns, ",\n\t");
        out.append("\n);\n");
        assert(out@ =~= sql_create(self@));
        out.append("\n\n");
        let ghost create = out@;
        out.append("INSERT INTO '");
        out.append(self.name.as_str());
        out.append("' ('");
        push_joined(&mut out, &names, "','");
        out.append("') VALUES\n\t(");
        push_joined(&mut out, &values, "),\n\t(");
        out.append(");\n");
        assert(out@ =~= create + sql_insert(self@, table));
        Some(out)
    }
}

} // verus!
