//! A datasheet as YAML text: the list of the objects of its rows.
//!
//! The YAML is that of the JSON of the sheet: the same objects with the same
//! keys and values, written by the `serde_yml` crate. That crate holds a
//! whole number in 64 bits with a sign, so a sheet with a whole number
//! beyond that range has no YAML: it would come out as another number or in
//! the form of a number with a fractional part.

use crate::datasheet::json::{is_rectangular, json_text};
use crate::datasheet::number::{integral, whole_value};
use crate::datasheet::render::{is_covered, texts_of};
use crate::datasheet::{rows_models, CellModel, Datasheet, DatasheetCell};
use std::collections::HashMap;
use vstd::prelude::*;

verus! {

/// The YAML text of the value that a JSON text stands for; `None` where the
/// text is no JSON or the value cannot be written.
pub uninterp spec fn yaml_of_json(json: Seq<char>) -> Option<Seq<char>>;

/// Writes the value of a JSON text as YAML.
///
/// Trusted: this is `serde_yml::to_string` of the value that
/// `serde_json::from_str` reads from the text. The two calls stand in one
/// body because the value between them is the JSON crate's own and has no
/// plain form. The result depends on the text alone: the value keeps the
/// keys in the order of the text, and a number is the number that its text
/// names. What the YAML text is was not proved.
#[verifier::external_body]
#[allow(deprecated)]
fn json_to_yaml(json: &str) -> (r: Option<String>)
    ensures
        r is Some == yaml_of_json(json@) is Some,
        r is Some ==> r->Some_0@ == yaml_of_json(json@)->Some_0,
{
    match serde_json::from_str::<serde_json::Value>(json) {
        Ok(value) => match serde_yml::to_string(&value) {
            Ok(text) => Some(text),
            Err(_) => None,
        },
        Err(_) => None,
    }
}

/// Whether the YAML writer holds the number of a cell as it is: a whole
/// number must lie in the range of 64 bits with a sign.
pub open spec fn cell_fits(cell: CellModel) -> bool {
    match cell {
        CellModel::Number(bits) => match whole_value(bits) {
            Some(v) => i64::MIN <= v <= i64::MAX,
            None => true,
        },
        _ => true,
    }
}

/// Whether the YAML writer holds every whole number of `rows`.
pub open spec fn all_fit(rows: Seq<Seq<CellModel>>) -> bool {
    forall|r: int, c: int| 0 <= r < rows.len() && 0 <= c < rows[r].len() ==> cell_fits(
        #[trigger] rows[r][c],
    )
}

/// A datasheet as YAML: the YAML of its JSON.
pub open spec fn yaml_text(sheet: crate::datasheet::DatasheetModel, fractions: Map<u32, Seq<char>>) -> Option<
    Seq<char>,
> {
    yaml_of_json(json_text(sheet, fractions))
}

/// Whether the YAML writer holds the number of `cell`.
fn fits(cell: &DatasheetCell) -> (r: bool)
    ensures
        r == cell_fits(cell@),
{
    match cell {
        DatasheetCell::Number(bits) => match integral(*bits) {
            Some((negative, magnitude)) => magnitude <= 0x7fff_ffff_ffff_ffff || (negative
                && magnitude == 0x8000_0000_0000_0000),
            None => true,
        },
        _ => true,
    }
}

/// Whether the YAML writer holds every number of `row`.
fn row_fits(row: &Vec<DatasheetCell>) -> (r: bool)
    ensures
        r == forall|c: int| 0 <= c < row@.len() ==> cell_fits(#[trigger] row@[c]@),
{
    let mut c: usize = 0;
    while c < row.len()
        invariant
            c <= row@.len(),
            forall|k: int| 0 <= k < c ==> cell_fits(#[trigger] row@[k]@),
        decreases row@.len() - c,
    {
        if !fits(&row[c]) {
            return false;
        }
        c += 1;
    }
    true
}

impl Datasheet {
    /// Whether the YAML writer holds every whole number of the sheet.
    pub fn fits_yaml(&self) -> (r: bool)
        ensures
            r == all_fit(self@.rows),
    {
        let mut i: usize = 0;
        while i < self.rows.len()
            invariant
                i <= self.rows@.len(),
                forall|r: int, c: int|
                    0 <= r < i && 0 <= c < self.rows@[r]@.len() ==> cell_fits(
                        #[trigger] self.rows@[r]@[c]@,
                    ),
            decreases self.rows@.len() - i,
        {
            if !row_fits(&self.rows[i]) {
                proof {
                    let c = choose|c: int|
                        0 <= c < self.rows@[i as int]@.len() && !cell_fits(
                            #[trigger] self.rows@[i as int]@[c]@,
                        );
                    assert(rows_models(self.rows@)[i as int][c] == self.rows@[i as int]@[c]@);
                }
                return false;
            }
            i += 1;
        }
        proof {
            assert forall|r: int, c: int|
                0 <= r < self@.rows.len() && 0 <= c < self@.rows[r].len() implies cell_fits(
                #[trigger] self@.rows[r][c],
            ) by {
                assert(self@.rows[r][c] == self.rows@[r]@[c]@);
            }
        }
        true
    }

    /// The sheet as YAML: a list of objects, one for each row, keyed by the
    /// header texts. `None` where the sheet holds a number that is not a
    /// whole number and for which `fractions` has no text, where it holds a
    /// whole number that the YAML writer does not hold, and where the texts
    /// of `fractions` do not make JSON.
    pub fn to_yaml(&self, fractions: &HashMap<u32, String>) -> (r: Option<String>)
        requires
            is_rectangular(self@),
        ensures
            r is Some == (is_covered(self@.rows, texts_of(*fractions)) && all_fit(self@.rows)
                && yaml_text(self@, texts_of(*fractions)) is Some),
            r is Some ==> r->Some_0@ == yaml_text(self@, texts_of(*fractions))->Some_0,
    {
        if !self.fits_yaml() {
            return None;
        }
        match self.to_json(fractions) {
            Some(json) => json_to_yaml(json.as_str()),
            None => None,
        }
    }
}

} // verus!
