//! Table mode: one object for each data line whose columns fit the headers.

use crate::combine::{
    array_of, assemble_from, field_outcome, lemma_entries_push, object_of, present, Outcome,
};
use crate::error::{Failure, ParseError};
use crate::rules::{find, lookup, ParseRules, TableFormat};
use crate::text::{lines_of, pieces, split, trim, trimmed, views};
use crate::transform::{transform_value, transformed};
use crate::value::{entries_view, Json, Value};
use vstd::prelude::*;

verus! {

/// The lines of `text` after the first `skip` ones.
pub open spec fn data_lines(text: Seq<char>, skip: int) -> Seq<Seq<char>> {
    let all = lines_of(text);
    if skip >= all.len() {
        Seq::empty()
    } else {
        all.skip(skip)
    }
}

/// The cells of a line: its pieces between delimiters, each trimmed.
pub open spec fn cells_of(line: Seq<char>, delimiter: Seq<char>) -> Seq<Seq<char>> {
    pieces(line, delimiter).map_values(|c: Seq<char>| trimmed(c))
}

/// The kind of conversion registered for `header`, if any.
pub open spec fn kind_for(transformers: Option<Vec<(String, String)>>, header: Seq<char>) -> Option<
    Seq<char>,
> {
    match transformers {
        None => None,
        Some(list) => match lookup(list@, header) {
            Some(kind) => Some(kind@),
            None => None,
        },
    }
}

/// The value of a cell: transformed where a kind is registered for its
/// column, else the cell as a string.
pub open spec fn cell_value(cell: Seq<char>, kind: Option<Seq<char>>) -> Result<Json, Failure> {
    match kind {
        Some(k) => transformed(cell, Some(k)),
        None => Ok(Json::String(cell)),
    }
}

/// The outcome of each column of a row: cell `i` under header `i`.
pub open spec fn row_fields(
    headers: Seq<String>,
    cells: Seq<Seq<char>>,
    transformers: Option<Vec<(String, String)>>,
) -> Seq<(Seq<char>, Outcome)> {
    Seq::new(
        headers.len(),
        |i: int| (headers[i]@, present(cell_value(cells[i], kind_for(transformers, headers[i]@)))),
    )
}

/// The outcome of one line: no row where the trimmed line is empty or the
/// number of its cells differs from the number of headers.
pub open spec fn row_of(
    format: TableFormat,
    transformers: Option<Vec<(String, String)>>,
    line: Seq<char>,
) -> Outcome {
    let row = trimmed(line);
    let cells = cells_of(row, format.delimiter@);
    if row.len() == 0 || cells.len() != format.headers@.len() {
        Ok(None)
    } else {
        present(object_of(row_fields(format.headers@, cells, transformers)))
    }
}

/// The outcome of each line.
pub open spec fn rows(
    format: TableFormat,
    transformers: Option<Vec<(String, String)>>,
    lines: Seq<Seq<char>>,
) -> Seq<Outcome> {
    Seq::new(lines.len(), |i: int| row_of(format, transformers, lines[i]))
}

/// The table that `rules` take from `text` with the formats of `formats`.
pub open spec fn table_in(
    rules: ParseRules,
    formats: Seq<(String, TableFormat)>,
    text: Seq<char>,
) -> Result<Json, Failure> {
    match rules.format_type {
        None => Err(Failure::MissingFormatName),
        Some(name) => match lookup(formats, name@) {
            None => Err(Failure::TableFormatNotFound(name@)),
            Some(format) => array_of(
                rows(format, rules.transformers, data_lines(text, format.skip_lines as int)),
            ),
        },
    }
}

/// The row object of one line, or none where the line gives no row.
pub fn build_row(
    format: &TableFormat,
    transformers: &Option<Vec<(String, String)>>,
    line: &str,
) -> (r: Result<Option<Value>, ParseError>)
    ensures
        field_outcome(r) == row_of(*format, *transformers, line@),
{
    let row = trim(line);
    if row.as_str().is_empty() {
        return Ok(None);
    }
    let cells = split(row.as_str(), format.delimiter.as_str());
    if cells.len() != format.headers.len() {
        return Ok(None);
    }
    let ghost outcomes = row_fields(
        format.headers@,
        cells_of(row@, format.delimiter@),
        *transformers,
    );
    let mut entries: Vec<(String, Value)> = Vec::new();
    let mut i: usize = 0;
    while i < cells.len()
        invariant
            i <= cells.len() == format.headers.len(),
            row@ == trimmed(line@),
            row@.len() > 0,
            views(cells@) == pieces(row@, format.delimiter@),
            outcomes == row_fields(
                format.headers@,
                cells_of(row@, format.delimiter@),
                *transformers,
            ),
            assemble_from(outcomes, 0, Map::empty()) == assemble_from(
                outcomes,
                i as int,
                entries_view(entries@),
            ),
        decreases cells.len() - i,
    {
        let header = &format.headers[i];
        let cell = trim(cells[i].as_str());
        assert(cell@ == cells_of(row@, format.delimiter@)[i as int]) by {
            assert(views(cells@)[i as int] == cells@[i as int]@);
        }
        let kind = match transformers {
            None => None,
            Some(list) => find(list, header.as_str()),
        };
        let v = match kind {
            Some(k) => {
                let wanted = Some(k.clone());
                transform_value(cell.as_str(), &wanted)?
            },
            None => Value::String(cell),
        };
        proof {
            lemma_entries_push(entries@, *header, v);
        }
        entries.push((header.clone(), v));
        i += 1;
    }
    Ok(Some(Value::Object(entries)))
}

} // verus!
