//! A datasheet as JSON text: a list of objects, one for each row.
//!
//! The keys of an object are the header texts in the order of the columns.
//! Where two columns have the same header text, the object has the key once,
//! at the place of the first of them and with the value of the last.

use crate::datasheet::render::{
    cell_is_covered, is_covered, joined, lemma_covered_rows, lemma_uncovered_row, number_string,
    number_text, push_joined, texts_of, views,
};
use crate::datasheet::{
    row_models, CellModel, Datasheet, DatasheetCell, DatasheetModel, COLUMN_NUMBER,
    COLUMN_STRING,
};
use crate::utils::text::hex_char_lower;
use indexmap::IndexMap;
use std::collections::HashMap;
use vstd::prelude::*;
use vstd::string::StringExecFns;

verus! {

/// A map that keeps its keys in the order in which they came.
#[verifier::external_type_specification]
#[verifier::external_body]
#[verifier::reject_recursive_types(K)]
#[verifier::reject_recursive_types(V)]
#[verifier::reject_recursive_types(S)]
pub struct ExIndexMap<K, V, S>(IndexMap<K, V, S>);

/// The keys of a map with their values, in the order of the map.
pub uninterp spec fn index_entries(map: IndexMap<String, usize>) -> Seq<(Seq<char>, usize)>;

/// What stands for the character `c` inside a JSON string: a backslash and
/// a letter for the quote, the backslash, and the backspace, tab, line feed,
/// form feed and carriage return; `\u00` and two hexadecimal digits in lower
/// case for any other character below the space; and else the character
/// itself.
pub open spec fn json_escaped(c: char) -> Seq<char> {
    if c == '"' {
        seq!['\\', '"']
    } else if c == '\\' {
        seq!['\\', '\\']
    } else if c as u32 == 0x08 {
        seq!['\\', 'b']
    } else if c as u32 == 0x09 {
        seq!['\\', 't']
    } else if c as u32 == 0x0A {
        seq!['\\', 'n']
    } else if c as u32 == 0x0C {
        seq!['\\', 'f']
    } else if c as u32 == 0x0D {
        seq!['\\', 'r']
    } else if (c as u32) < 0x20 {
        seq![
            '\\',
            'u',
            '0',
            '0',
            hex_char_lower(c as u32 as int / 16),
            hex_char_lower(c as u32 as int % 16),
        ]
    } else {
        seq![c]
    }
}

/// The characters of a text as they stand inside a JSON string.
pub open spec fn json_escaped_text(text: Seq<char>) -> Seq<char>
    decreases text.len(),
{
    if text.len() == 0 {
        Seq::empty()
    } else {
        json_escaped_text(text.drop_last()) + json_escaped(text.last())
    }
}

/// A text as a JSON string: in quotes, with what JSON demands escaped.
pub open spec fn json_quoted(text: Seq<char>) -> Seq<char> {
    seq!['"'] + json_escaped_text(text) + seq!['"']
}

/// Where the key `key` stands in `entries`, if it does.
pub open spec fn position_of(entries: Seq<(Seq<char>, usize)>, key: Seq<char>) -> Option<int>
    decreases entries.len(),
{
    if entries.len() == 0 {
        None
    } else {
        match position_of(entries.drop_last(), key) {
            Some(i) => Some(i),
            None => if entries.last().0 == key {
                Some(entries.len() - 1)
            } else {
                None
            },
        }
    }
}

/// The entries after `key` was given `value`: a key that is there keeps its
/// place and gets the value, a key that is new comes last.
pub open spec fn inserted(entries: Seq<(Seq<char>, usize)>, key: Seq<char>, value: usize) -> Seq<
    (Seq<char>, usize),
> {
    match position_of(entries, key) {
        Some(i) => entries.update(i, (key, value)),
        None => entries.push((key, value)),
    }
}

/// The keys of the row objects, each with the column that gives its value:
/// what a map holds after every header text was given the number of its
/// column, in the order of the columns.
pub open spec fn planned(keys: Seq<Seq<char>>) -> Seq<(Seq<char>, usize)>
    decreases keys.len(),
{
    if keys.len() == 0 {
        Seq::empty()
    } else {
        inserted(planned(keys.drop_last()), keys.last(), (keys.len() - 1) as usize)
    }
}

/// A map without keys.
///
/// Trusted: this is `IndexMap::new`, which gives an empty map.
#[verifier::external_body]
fn index_new() -> (r: IndexMap<String, usize>)
    ensures
        index_entries(r) == Seq::<(Seq<char>, usize)>::empty(),
{
    IndexMap::new()
}

/// Gives `key` the value `value`.
///
/// Trusted: this is `IndexMap::insert`. A key that is in the map keeps its
/// place and gets the new value; a key that is not comes last.
#[verifier::external_body]
fn index_insert(map: &mut IndexMap<String, usize>, key: String, value: usize)
    ensures
        index_entries(*final(map)) == inserted(index_entries(*old(map)), key@, value),
{
    map.insert(key, value);
}

/// The keys of a map with their values, in the order of the map.
///
/// Trusted: this walks `IndexMap::into_iter`, which yields the pairs in the
/// order of the map.
#[verifier::external_body]
fn index_pairs(map: IndexMap<String, usize>) -> (r: Vec<(String, usize)>)
    ensures
        r@.len() == index_entries(map).len(),
        forall|i: int|
            0 <= i < r@.len() ==> (#[trigger] r@[i]).0@ == index_entries(map)[i].0 && r@[i].1
                == index_entries(map)[i].1,
{
    map.into_iter().collect()
}

/// The text `text` as a JSON string.
///
/// Trusted: this is `serde_json::to_string` of a string. Its writer puts
/// the string in quotes and escapes the quote, the backslash and every
/// character below the space, as the contract states; writing into a string
/// does not fail. Verus has not read that code.
#[verifier::external_body]
fn json_quote(text: &str) -> (r: String)
    ensures
        r@ == json_quoted(text@),
{
    match serde_json::to_string(text) {
        Ok(quoted) => quoted,
        Err(_) => String::new(),
    }
}

/// The pairs of a plan, as texts and numbers.
pub open spec fn plan_of(plan: Seq<(String, usize)>) -> Seq<(Seq<char>, usize)> {
    Seq::new(plan.len(), |i: int| (plan[i].0@, plan[i].1))
}

/// Every value of a plan for `n` keys is below `n`.
pub proof fn lemma_planned_in_range(keys: Seq<Seq<char>>)
    ensures
        forall|i: int| 0 <= i < planned(keys).len() ==> (#[trigger] planned(keys)[i]).1 < keys.len(),
        planned(keys).len() <= keys.len(),
    decreases keys.len(),
{
    if keys.len() > 0 {
        lemma_planned_in_range(keys.drop_last());
        let before = planned(keys.drop_last());
        lemma_position_in_range(before, keys.last());
    }
}

/// A position that is found is inside the entries.
pub proof fn lemma_position_in_range(entries: Seq<(Seq<char>, usize)>, key: Seq<char>)
    ensures
        position_of(entries, key) is Some ==> 0 <= position_of(entries, key)->Some_0
            < entries.len(),
    decreases entries.len(),
{
    if entries.len() > 0 {
        lemma_position_in_range(entries.drop_last(), key);
    }
}

/// A cell as JSON writes it: a text as a JSON string, a number by the rule
/// for numbers, a truth value as `true` or `false`.
pub open spec fn json_cell(cell: CellModel, fractions: Map<u32, Seq<char>>) -> Seq<char> {
    match cell {
        CellModel::String(s) => json_quoted(s),
        CellModel::Number(bits) => number_text(bits, fractions),
        CellModel::Boolean(b) => if b {
            "true"@
        } else {
            "false"@
        },
    }
}

/// The members of the object of a row: for each key of the plan the key as
/// a JSON string, a colon, and the cell of the key's column.
pub open spec fn json_members(
    plan: Seq<(Seq<char>, usize)>,
    row: Seq<CellModel>,
    fractions: Map<u32, Seq<char>>,
) -> Seq<Seq<char>> {
    Seq::new(
        plan.len(),
        |i: int| json_quoted(plan[i].0) + ":"@ + json_cell(row[plan[i].1 as int], fractions),
    )
}

/// The object of a row, without white space.
pub open spec fn json_object(
    plan: Seq<(Seq<char>, usize)>,
    row: Seq<CellModel>,
    fractions: Map<u32, Seq<char>>,
) -> Seq<char> {
    "{"@ + joined(json_members(plan, row, fractions), ","@) + "}"@
}

/// A datasheet as JSON without white space: the list of the objects of its rows.
pub open spec fn json_text(sheet: DatasheetModel, fractions: Map<u32, Seq<char>>) -> Seq<char> {
    let plan = planned(Seq::new(sheet.header.len(), |i: int| sheet.header[i].text));
    "["@ + joined(
        Seq::new(sheet.rows.len(), |r: int| json_object(plan, sheet.rows[r], fractions)),
        ","@,
    ) + "]"@
}

/// Whether every row of a sheet has a cell for every column.
pub open spec fn is_rectangular(sheet: DatasheetModel) -> bool {
    forall|r: int| 0 <= r < sheet.rows.len() ==> (#[trigger] sheet.rows[r]).len() == sheet.header.len()
}

impl Datasheet {
    /// The keys of the row objects, each with the column that gives its
    /// value.
    pub fn column_plan(&self) -> (r: Vec<(String, usize)>)
        ensures
            plan_of(r@) == planned(
                Seq::new(self@.header.len(), |i: int| self@.header[i].text),
            ),
    {
        let ghost keys = Seq::new(self@.header.len(), |i: int| self@.header[i].text);
        let mut map = index_new();
        let mut i: usize = 0;
        assert(keys.subrange(0, 0) =~= Seq::<Seq<char>>::empty());
        while i < self.header.len()
            invariant
                i <= self.header@.len(),
                keys == Seq::new(self@.header.len(), |i: int| self@.header[i].text),
                index_entries(map) == planned(keys.subrange(0, i as int)),
            decreases self.header@.len() - i,
        {
            proof {
                let next = keys.subrange(0, i + 1);
                assert(next.drop_last() =~= keys.subrange(0, i as int));
                assert(next.last() == self.header@[i as int].text@);
            }
            index_insert(&mut map, self.header[i].text.clone(), i);
            i += 1;
        }
        assert(keys.subrange(0, i as int) =~= keys);
        let pairs = index_pairs(map);
        assert(plan_of(pairs@) =~= planned(keys));
        pairs
    }
}

/// The members of the object of a row, indented: each is four spaces, the
/// key as a JSON string, a colon and a space, and the cell.
pub open spec fn json_members_pretty(
    plan: Seq<(Seq<char>, usize)>,
    row: Seq<CellModel>,
    fractions: Map<u32, Seq<char>>,
) -> Seq<Seq<char>> {
    Seq::new(
        plan.len(),
        |i: int|
            "    "@ + json_quoted(plan[i].0) + ": "@ + json_cell(row[plan[i].1 as int], fractions),
    )
}

/// The object of a row as an item of an indented list: two spaces, and
/// then `{}` for an object without members, or the members on lines of
/// their own between the braces.
pub open spec fn json_object_pretty(
    plan: Seq<(Seq<char>, usize)>,
    row: Seq<CellModel>,
    fractions: Map<u32, Seq<char>>,
) -> Seq<char> {
    if plan.len() == 0 {
        "  {}"@
    } else {
        "  {\n"@ + joined(json_members_pretty(plan, row, fractions), ",\n"@) + "\n  }"@
    }
}

/// A datasheet as indented JSON: `[]` for a sheet without rows, and else
/// the objects of the rows on lines of their own between the brackets.
pub open spec fn json_text_pretty(sheet: DatasheetModel, fractions: Map<u32, Seq<char>>) -> Seq<
    char,
> {
    let plan = planned(Seq::new(sheet.header.len(), |i: int| sheet.header[i].text));
    if sheet.rows.len() == 0 {
        "[]"@
    } else {
        "[\n"@ + joined(
            Seq::new(sheet.rows.len(), |r: int| json_object_pretty(plan, sheet.rows[r], fractions)),
            ",\n"@,
        ) + "\n]"@
    }
}

/// The texts of the cells of a row, as JSON writes them.
fn json_cell_strings(row: &Vec<DatasheetCell>, fractions: &HashMap<u32, String>) -> (r: Option<
    Vec<String>,
>)
    ensures
        r is Some == (forall|c: int|
            0 <= c < row@.len() ==> cell_is_covered(#[trigger] row@[c]@, texts_of(*fractions))),
        r is Some ==> r->Some_0@.len() == row@.len() && forall|c: int|
            0 <= c < row@.len() ==> (#[trigger] r->Some_0@[c])@ == json_cell(
                row@[c]@,
                texts_of(*fractions),
            ),
{
    let ghost table = texts_of(*fractions);
    let mut out: Vec<String> = Vec::new();
    let mut i: usize = 0;
    while i < row.len()
        invariant
            i <= row@.len(),
            table == texts_of(*fractions),
            out@.len() == i,
            forall|c: int| 0 <= c < i ==> cell_is_covered(#[trigger] row@[c]@, table),
            forall|c: int| 0 <= c < i ==> (#[trigger] out@[c])@ == json_cell(row@[c]@, table),
        decreases row@.len() - i,
    {
        let text = match &row[i] {
            DatasheetCell::String(s) => json_quote(s.as_str()),
            DatasheetCell::Number(bits) => match number_string(*bits, fractions) {
                Some(text) => text,
                None => {
                    assert(!cell_is_covered(row@[i as int]@, table));
                    return None;
                },
            },
            DatasheetCell::Boolean(b) => if *b {
                String::from_str("true")
            } else {
                String::from_str("false")
            },
        };
        out.push(text);
        i += 1;
    }
    Some(out)
}

/// The object of a row, from the texts of its cells.
fn object_string(plan: &Vec<(String, usize)>, cells: &Vec<String>, pretty: bool) -> (r: String)
    requires
        forall|i: int| 0 <= i < plan@.len() ==> (#[trigger] plan@[i]).1 < cells@.len(),
    ensures
        r@ == (if pretty {
            if plan@.len() == 0 {
                "  {}"@
            } else {
                "  {\n"@ + joined(
                    Seq::new(
                        plan@.len(),
                        |i: int|
                            "    "@ + json_quoted(plan@[i].0@) + ": "@ + cells@[plan@[i].1 as int]@,
                    ),
                    ",\n"@,
                ) + "\n  }"@
            }
        } else {
            "{"@ + joined(
                Seq::new(
                    plan@.len(),
                    |i: int| json_quoted(plan@[i].0@) + ":"@ + cells@[plan@[i].1 as int]@,
                ),
                ","@,
            ) + "}"@
        }),
{
    let mut members: Vec<String> = Vec::new();
    let mut i: usize = 0;
    while i < plan.len()
        invariant
            i <= plan@.len(),
            members@.len() == i,
            forall|k: int| 0 <= k < plan@.len() ==> (#[trigger] plan@[k]).1 < cells@.len(),
            forall|k: int|
                0 <= k < i ==> (#[trigger] members@[k])@ == (if pretty {
                    "    "@ + json_quoted(plan@[k].0@) + ": "@ + cells@[plan@[k].1 as int]@
                } else {
                    json_quoted(plan@[k].0@) + ":"@ + cells@[plan@[k].1 as int]@
                }),
        decreases plan@.len() - i,
    {
        let key = json_quote(plan[i].0.as_str());
        let mut member = if pretty {
            String::from_str("    ")
        } else {
            String::new()
        };
        member.append(key.as_str());
        if pretty {
            member.append(": ");
        } else {
            member.append(":");
        }
        assert(plan@[i as int].1 < cells@.len());
        member.append(cells[plan[i].1].as_str());
        proof {
            if pretty {
                assert(member@ =~= "    "@ + json_quoted(plan@[i as int].0@) + ": "@
                    + cells@[plan@[i as int].1 as int]@);
            } else {
                assert(member@ =~= json_quoted(plan@[i as int].0@) + ":"@
                    + cells@[plan@[i as int].1 as int]@);
            }
        }
        members.push(member);
        i += 1;
    }
    let mut out = String::new();
    if pretty {
        if plan.len() == 0 {
            out.append("  {}");
            assert(out@ =~= "  {}"@);
        } else {
            assert(views(members@) =~= Seq::new(
                plan@.len(),
                |i: int| "    "@ + json_quoted(plan@[i].0@) + ": "@ + cells@[plan@[i].1 as int]@,
            ));
            out.append("  {\n");
            push_joined(&mut out, &members, ",\n");
            out.append("\n  }");
        }
    } else {
        assert(views(members@) =~= Seq::new(
            plan@.len(),
            |i: int| json_quoted(plan@[i].0@) + ":"@ + cells@[plan@[i].1 as int]@,
        ));
        out.append("{");
        push_joined(&mut out, &members, ",");
        out.append("}");
    }
    out
}

impl Datasheet {
    /// The objects of the rows, each as JSON text.
    fn object_strings(&self, fractions: &HashMap<u32, String>, pretty: bool) -> (r: Option<
        Vec<String>,
    >)
        requires
            is_rectangular(self@),
        ensures
            r is Some == is_covered(self@.rows, texts_of(*fractions)),
            r is Some ==> views(r->Some_0@) == Seq::new(
                self@.rows.len(),
                |k: int|
                    if pretty {
                        json_object_pretty(
                            planned(Seq::new(self@.header.len(), |i: int| self@.header[i].text)),
                            self@.rows[k],
                            texts_of(*fractions),
                        )
                    } else {
                        json_object(
                            planned(Seq::new(self@.header.len(), |i: int| self@.header[i].text)),
                            self@.rows[k],
                            texts_of(*fractions),
                        )
                    },
            ),
    {
        let ghost table = texts_of(*fractions);
        let ghost keys = Seq::new(self@.header.len(), |i: int| self@.header[i].text);
        let plan = self.column_plan();
        proof {
            lemma_planned_in_range(keys);
            assert forall|i: int| 0 <= i < plan@.len() implies (#[trigger] plan@[i]).1
                < self.header@.len() by {
                assert(plan_of(plan@)[i].1 == planned(keys)[i].1);
            }
        }
        let mut objects: Vec<String> = Vec::new();
        let mut r: usize = 0;
        while r < self.rows.len()
            invariant
                r <= self.rows@.len(),
                is_rectangular(self@),
                table == texts_of(*fractions),
                keys == Seq::new(self@.header.len(), |i: int| self@.header[i].text),
                plan_of(plan@) == planned(keys),
                forall|i: int| 0 <= i < plan@.len() ==> (#[trigger] plan@[i]).1 < self.header@.len(),
                objects@.len() == r,
                forall|k: int, c: int|
                    0 <= k < r && 0 <= c < self.rows@[k]@.len() ==> cell_is_covered(
                        #[trigger] self.rows@[k]@[c]@,
                        table,
                    ),
                forall|k: int|
                    0 <= k < r ==> (#[trigger] objects@[k])@ == (if pretty {
                        json_object_pretty(planned(keys), self@.rows[k], table)
                    } else {
                        json_object(planned(keys), self@.rows[k], table)
                    }),
            decreases self.rows@.len() - r,
        {
            let cells = match json_cell_strings(&self.rows[r], fractions) {
                Some(cells) => cells,
                None => {
                    proof {
                        let c = choose|c: int|
                            0 <= c < self.rows@[r as int]@.len() && !cell_is_covered(
                                #[trigger] self.rows@[r as int]@[c]@,
                                table,
                            );
                        lemma_uncovered_row(self.rows@, table, r as int, c);
                    }
                    return None;
                },
            };
            proof {
                assert(self@.rows[r as int].len() == self@.header.len());
                assert(cells@.len() == self.header@.len());
            }
            let object = object_string(&plan, &cells, pretty);
            proof {
                let row = self@.rows[r as int];
                assert forall|i: int| 0 <= i < plan@.len() implies plan@[i].0@ == planned(keys)[i].0
                    && plan@[i].1 == planned(keys)[i].1 by {
                    assert(plan_of(plan@)[i] == planned(keys)[i]);
                }
                if pretty {
                    assert(Seq::new(
                        plan@.len(),
                        |i: int|
                            "    "@ + json_quoted(plan@[i].0@) + ": "@ + cells@[plan@[i].1 as int]@,
                    ) =~= json_members_pretty(planned(keys), row, table));
                } else {
                    assert(Seq::new(
                        plan@.len(),
                        |i: int| json_quoted(plan@[i].0@) + ":"@ + cells@[plan@[i].1 as int]@,
                    ) =~= json_members(planned(keys), row, table));
                }
            }
            objects.push(object);
            r += 1;
        }
        proof {
            lemma_covered_rows(self.rows@, table);
            assert(views(objects@) =~= Seq::new(
                self@.rows.len(),
                |k: int|
                    if pretty {
                        json_object_pretty(planned(keys), self@.rows[k], table)
                    } else {
                        json_object(planned(keys), self@.rows[k], table)
                    },
            ));
        }
        Some(objects)
    }

    /// The sheet as JSON without white space: a list of objects, one for
    /// each row, keyed by the header texts. `None` where the sheet holds a
    /// number that is not a whole number and for which `fractions` has no
    /// text.
    pub fn to_json(&self, fractions: &HashMap<u32, String>) -> (r: Option<String>)
        requires
            is_rectangular(self@),
        ensures
            r is Some == is_covered(self@.rows, texts_of(*fractions)),
            r is Some ==> r->Some_0@ == json_text(self@, texts_of(*fractions)),
    {
        let objects = match self.object_strings(fractions, false) {
            Some(objects) => objects,
            None => {
                return None;
            },
        };
        let mut out = String::from_str("[");
        push_joined(&mut out, &objects, ",");
        out.append("]");
        proof {
            let table = texts_of(*fractions);
            let plan = planned(Seq::new(self@.header.len(), |i: int| self@.header[i].text));
            assert(views(objects@) =~= Seq::new(
                self@.rows.len(),
                |r: int| json_object(plan, self@.rows[r], table),
            ));
        }
        Some(out)
    }

    /// The sheet as indented JSON. `None` where the sheet holds a number
    /// that is not a whole number and for which `fractions` has no text.
    pub fn to_json_pretty(&self, fractions: &HashMap<u32, String>) -> (r: Option<String>)
        requires
            is_rectangular(self@),
        ensures
            r is Some == is_covered(self@.rows, texts_of(*fractions)),
            r is Some ==> r->Some_0@ == json_text_pretty(self@, texts_of(*fractions)),
    {
        let objects = match self.object_strings(fractions, true) {
            Some(objects) => objects,
            None => {
                return None;
            },
        };
        let mut out = String::new();
        if self.rows.len() == 0 {
            out.append("[]");
            assert(out@ =~= "[]"@);
        } else {
            proof {
                let table = texts_of(*fractions);
                let plan = planned(Seq::new(self@.header.len(), |i: int| self@.header[i].text));
                assert(views(objects@) =~= Seq::new(
                    self@.rows.len(),
                    |r: int| json_object_pretty(plan, self@.rows[r], table),
                ));
            }
            out.append("[\n");
            push_joined(&mut out, &objects, ",\n");
            out.append("\n]");
        }
        Some(out)
    }
}

/// The name of a column type in the schema of a sheet.
pub open spec fn kind_name(kind: u32) -> Seq<char> {
    if kind == COLUMN_STRING {
        "string"@
    } else if kind == COLUMN_NUMBER {
        "number"@
    } else {
        "boolean"@
    }
}

/// The schema of a sheet: its type, its name, and the type of each column.
#[derive(Debug)]
pub struct Schema {
    pub kind: String,
    pub name: String,
    /// The keys of the row objects, each with the name of its type.
    pub fields: Vec<(String, &'static str)>,
}

/// The fields of a schema: for each key of the plan the name of the type of
/// the key's column.
pub open spec fn schema_fields(sheet: DatasheetModel) -> Seq<(Seq<char>, Seq<char>)> {
    let plan = planned(Seq::new(sheet.header.len(), |i: int| sheet.header[i].text));
    Seq::new(plan.len(), |i: int| (plan[i].0, kind_name(sheet.header[plan[i].1 as int].kind)))
}

/// The members of the object of a row: for each key of the plan the key
/// and the cell of the key's column.
pub open spec fn row_object(plan: Seq<(Seq<char>, usize)>, row: Seq<CellModel>) -> Seq<
    (Seq<char>, CellModel),
> {
    Seq::new(plan.len(), |i: int| (plan[i].0, row[plan[i].1 as int]))
}

/// What a list of keys with cells holds.
pub open spec fn members_of(members: Seq<(String, DatasheetCell)>) -> Seq<(Seq<char>, CellModel)> {
    Seq::new(members.len(), |i: int| (members[i].0@, members[i].1@))
}

/// A copy of a cell.
fn copy_cell(cell: &DatasheetCell) -> (r: DatasheetCell)
    ensures
        r@ == cell@,
{
    match cell {
        DatasheetCell::String(s) => DatasheetCell::String(s.clone()),
        DatasheetCell::Number(bits) => DatasheetCell::Number(*bits),
        DatasheetCell::Boolean(b) => DatasheetCell::Boolean(*b),
    }
}

impl Datasheet {
    /// The schema of the sheet.
    pub fn meta(&self) -> (r: Schema)
        ensures
            r.kind@ == self@.kind,
            r.name@ == self@.name,
            r.fields@.len() == schema_fields(self@).len(),
            forall|i: int|
                0 <= i < r.fields@.len() ==> (#[trigger] r.fields@[i]).0@ == schema_fields(self@)[i].0
                    && r.fields@[i].1@ == schema_fields(self@)[i].1,
    {
        let ghost keys = Seq::new(self@.header.len(), |i: int| self@.header[i].text);
        let plan = self.column_plan();
        proof {
            lemma_planned_in_range(keys);
            assert forall|i: int| 0 <= i < plan@.len() implies (#[trigger] plan@[i]).1
                < self.header@.len() && plan@[i].0@ == planned(keys)[i].0 && plan@[i].1 == planned(
                keys,
            )[i].1 by {
                assert(plan_of(plan@)[i] == planned(keys)[i]);
            }
        }
        let mut fields: Vec<(String, &'static str)> = Vec::new();
        let mut i: usize = 0;
        while i < plan.len()
            invariant
                i <= plan@.len(),
                plan@.len() == planned(keys).len(),
                keys == Seq::new(self@.header.len(), |i: int| self@.header[i].text),
                fields@.len() == i,
                forall|k: int|
                    0 <= k < plan@.len() ==> (#[trigger] plan@[k]).1 < self.header@.len()
                        && plan@[k].0@ == planned(keys)[k].0 && plan@[k].1 == planned(keys)[k].1,
                forall|k: int|
                    0 <= k < i ==> (#[trigger] fields@[k]).0@ == schema_fields(self@)[k].0
                        && fields@[k].1@ == schema_fields(self@)[k].1,
            decreases plan@.len() - i,
        {
            assert(plan@[i as int].1 < self.header@.len());
            let kind = self.header[plan[i].1]._type;
            let name: &'static str = if kind == COLUMN_STRING {
                "string"
            } else if kind == COLUMN_NUMBER {
                "number"
            } else {
                "boolean"
            };
            fields.push((plan[i].0.clone(), name));
            i += 1;
        }
        Schema { kind: self._type.clone(), name: self.name.clone(), fields }
    }

    /// The objects of the rows: for each row the keys of the plan, each
    /// with the cell of its column.
    pub fn json_value(&self) -> (r: Vec<Vec<(String, DatasheetCell)>>)
        requires
            is_rectangular(self@),
        ensures
            r@.len() == self@.rows.len(),
            forall|k: int|
                0 <= k < r@.len() ==> members_of((#[trigger] r@[k])@) == row_object(
                    planned(Seq::new(self@.header.len(), |i: int| self@.header[i].text)),
                    self@.rows[k],
                ),
    {
        let ghost keys = Seq::new(self@.header.len(), |i: int| self@.header[i].text);
        let plan = self.column_plan();
        proof {
            lemma_planned_in_range(keys);
            assert forall|i: int| 0 <= i < plan@.len() implies (#[trigger] plan@[i]).1
                < self.header@.len() && plan@[i].0@ == planned(keys)[i].0 && plan@[i].1 == planned(
                keys,
            )[i].1 by {
                assert(plan_of(plan@)[i] == planned(keys)[i]);
            }
        }
        let mut objects: Vec<Vec<(String, DatasheetCell)>> = Vec::new();
        let mut r: usize = 0;
        while r < self.rows.len()
            invariant
                r <= self.rows@.len(),
                is_rectangular(self@),
                plan@.len() == planned(keys).len(),
                keys == Seq::new(self@.header.len(), |i: int| self@.header[i].text),
                objects@.len() == r,
                forall|k: int|
                    0 <= k < plan@.len() ==> (#[trigger] plan@[k]).1 < self.header@.len()
                        && plan@[k].0@ == planned(keys)[k].0 && plan@[k].1 == planned(keys)[k].1,
                forall|k: int|
                    0 <= k < r ==> members_of((#[trigger] objects@[k])@) == row_object(
                        planned(keys),
                        self@.rows[k],
                    ),
            decreases self.rows@.len() - r,
        {
            let row = &self.rows[r];
            assert(self@.rows[r as int].len() == self@.header.len());
            assert(row@.len() == self.header@.len());
            let mut members: Vec<(String, DatasheetCell)> = Vec::new();
            let mut i: usize = 0;
            while i < plan.len()
                invariant
                    i <= plan@.len(),
                    plan@.len() == planned(keys).len(),
                    row@.len() == self.header@.len(),
                    members@.len() == i,
                    forall|k: int|
                        0 <= k < plan@.len() ==> (#[trigger] plan@[k]).1 < self.header@.len()
                            && plan@[k].0@ == planned(keys)[k].0 && plan@[k].1 == planned(
                            keys,
                        )[k].1,
                    forall|k: int|
                        0 <= k < i ==> (#[trigger] members@[k]).0@ == planned(keys)[k].0
                            && members@[k].1@ == row@[planned(keys)[k].1 as int]@,
                decreases plan@.len() - i,
            {
                assert(plan@[i as int].1 < row@.len());
                members.push((plan[i].0.clone(), copy_cell(&row[plan[i].1])));
                i += 1;
            }
            proof {
                assert(self@.rows[r as int] == row_models(row@));
                assert forall|k: int| 0 <= k < plan@.len() implies members_of(members@)[k]
                    == row_object(planned(keys), self@.rows[r as int])[k] by {
                    assert(plan@[k].1 < row@.len());
                    assert(row_models(row@)[planned(keys)[k].1 as int] == row@[planned(
                        keys,
                    )[k].1 as int]@);
                }
                assert(members_of(members@) =~= row_object(planned(keys), self@.rows[r as int]));
            }
            objects.push(members);
            r += 1;
        }
        objects
    }
}

} // verus!
