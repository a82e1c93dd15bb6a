//! Laws of the parser, stated over what its functions ensure.

use crate::combine::{
    gives_value, lemma_assemble_absent, lemma_assemble_all_ok, lemma_assemble_failure,
    lemma_assemble_holds, lemma_assemble_names, lemma_selected, object_of, selected, silent_after,
};
use crate::error::{outcome, Failure, ParseError};
use crate::object::{field_of, group_at, group_of, object_fields, object_in};
use crate::parser::{parsed, segment_objects, separator_of, structured, OutputParser};
use crate::pattern::{first_match, is_valid};
use crate::rules::{is_set, lookup, Action, ParseRules, TableFormat};
use crate::table::{cell_value, cells_of, data_lines, kind_for, row_fields, rows};
use crate::text::{is_blank, pieces, trimmed};
use crate::value::{Json, Value};
use vstd::prelude::*;

verus! {

/// The four mode names differ from one another.
proof fn lemma_mode_names_differ()
    ensures
        "object"@ != "array"@,
        "object"@ != "properties"@,
        "object"@ != "table"@,
        "array"@ != "properties"@,
        "array"@ != "table"@,
        "properties"@ != "table"@,
{
    reveal_strlit("object");
    reveal_strlit("array");
    reveal_strlit("properties");
    reveal_strlit("table");
    assert("object"@.len() == 6);
    assert("array"@.len() == 5);
    assert("properties"@.len() == 10);
    assert("table"@.len() == 5);
    assert("array"@[0] != "table"@[0]);
}

/// Parsing the same text twice with the same parser gives equal results.
pub proof fn lemma_parse_is_repeatable(
    parser: OutputParser,
    text: Seq<char>,
    action: Action,
    first: Result<Value, ParseError>,
    second: Result<Value, ParseError>,
)
    requires
        outcome(first) == parsed(parser.rules(), parser.formats(), text, action),
        outcome(second) == parsed(parser.rules(), parser.formats(), text, action),
    ensures
        outcome(first) == outcome(second),
{
}

/// In object mode, a name is left out of the object where the pattern of
/// every single-match rule of that name compiles and matches nowhere: such a
/// rule gives no value and no failure.
pub proof fn lemma_unmatched_field_is_omitted(
    rules: ParseRules,
    formats: Seq<(String, TableFormat)>,
    text: Seq<char>,
    name: Seq<char>,
)
    requires
        rules.parse_type@ == "object"@,
        rules.patterns is Some,
        forall|i: int|
            0 <= i < rules.patterns->0@.len() && (#[trigger] rules.patterns->0@[i]).0@ == name ==> {
                let rule = rules.patterns->0@[i].1;
                &&& is_valid(rule.regex@)
                &&& !is_set(rule.multi_match)
                &&& first_match(rule.regex@, text) is None
            },
    ensures
        forall|i: int|
            0 <= i < rules.patterns->0@.len() && (#[trigger] rules.patterns->0@[i]).0@ == name
                ==> field_of(name, rules.patterns->0@[i].1, text) == Ok::<Option<Json>, Failure>(
                None,
            ),
        structured(rules, formats, text) matches Ok(v) ==> v is Object && !v->Object_0.dom().contains(
            name,
        ),
{
    let list = rules.patterns->0@;
    let fields = object_fields(list, text);
    assert forall|i: int| 0 <= i < fields.len() && (#[trigger] fields[i]).0 == name implies fields[i].1
        == Ok::<Option<Json>, Failure>(None) by {
        assert(list[i].0@ == name);
    }
    lemma_assemble_absent(fields, 0, Map::empty(), name);
}

/// In object mode, a single-match rule whose pattern matches, but whose
/// capture group took no part in the match, gives null where it is optional
/// and fails where it is not; and where no earlier rule fails, that failure
/// is the result.
pub proof fn lemma_missing_group_is_failure(
    rules: ParseRules,
    formats: Seq<(String, TableFormat)>,
    text: Seq<char>,
    i: int,
)
    requires
        rules.parse_type@ == "object"@,
        rules.patterns is Some,
        0 <= i < rules.patterns->0@.len(),
        is_valid(rules.patterns->0@[i].1.regex@),
        !is_set(rules.patterns->0@[i].1.multi_match),
        first_match(rules.patterns->0@[i].1.regex@, text) is Some,
        group_at(
            first_match(rules.patterns->0@[i].1.regex@, text)->0,
            group_of(rules.patterns->0@[i].1),
        ) is None,
    ensures
        field_of(rules.patterns->0@[i].0@, rules.patterns->0@[i].1, text) == if is_set(
            rules.patterns->0@[i].1.optional,
        ) {
            Ok::<Option<Json>, Failure>(Some(Json::Null))
        } else {
            Err::<Option<Json>, Failure>(Failure::MissingRequiredField(rules.patterns->0@[i].0@))
        },
        !is_set(rules.patterns->0@[i].1.optional) && (forall|j: int|
            0 <= j < i ==> field_of(
                (#[trigger] rules.patterns->0@[j]).0@,
                rules.patterns->0@[j].1,
                text,
            ) is Ok) ==> structured(rules, formats, text) == Err::<Json, Failure>(
            Failure::MissingRequiredField(rules.patterns->0@[i].0@),
        ),
{
    let list = rules.patterns->0@;
    let fields = object_fields(list, text);
    if !is_set(list[i].1.optional) && (forall|j: int|
        0 <= j < i ==> field_of((#[trigger] list[j]).0@, list[j].1, text) is Ok) {
        assert forall|j: int| 0 <= j < i implies (#[trigger] fields[j]).1 is Ok by {
            assert(field_of(list[j].0@, list[j].1, text) is Ok);
        }
        lemma_assemble_failure(fields, 0, Map::empty(), i);
    }
}

/// Whether a segment is not blank.
pub open spec fn not_blank() -> spec_fn(Seq<char>) -> bool {
    |segment: Seq<char>| !is_blank(segment)
}

/// The segments of `text` in array mode: its pieces between separators that
/// are not blank.
pub open spec fn segments_of(rules: ParseRules, text: Seq<char>) -> Seq<Seq<char>> {
    pieces(text, separator_of(rules.separator)).filter(not_blank())
}

/// Array mode gives one item for each segment that is not blank, in the
/// order of the text: the object of that segment. Blank segments give
/// nothing. A failure is that of the first segment whose object fails.
pub proof fn lemma_array_has_one_item_per_segment(
    rules: ParseRules,
    formats: Seq<(String, TableFormat)>,
    text: Seq<char>,
)
    requires
        rules.parse_type@ == "array"@,
    ensures
        match structured(rules, formats, text) {
            Ok(v) => {
                &&& v is Array
                &&& v->Array_0.len() == segments_of(rules, text).len()
                &&& forall|k: int|
                    0 <= k < segments_of(rules, text).len() ==> object_in(
                        rules.patterns,
                        #[trigger] segments_of(rules, text)[k],
                    ) == Ok::<Json, Failure>(v->Array_0[k])
            },
            Err(e) => exists|k: int|
                {
                    &&& 0 <= k < segments_of(rules, text).len()
                    &&& object_in(rules.patterns, #[trigger] segments_of(rules, text)[k]) == Err::<
                        Json,
                        Failure,
                    >(e)
                    &&& forall|j: int|
                        0 <= j < k ==> object_in(
                            rules.patterns,
                            #[trigger] segments_of(rules, text)[j],
                        ) is Ok
                },
        },
{
    lemma_mode_names_differ();
    let all = pieces(text, separator_of(rules.separator));
    let f = |segment: Seq<char>| object_in(rules.patterns, segment);
    assert(segment_objects(rules.patterns, all) == selected(all, not_blank(), f));
    lemma_selected(all, not_blank(), f);
}

/// Whether a line fits a table format: it is not blank, and the number of
/// its cells is the number of headers.
pub open spec fn fits(format: TableFormat) -> spec_fn(Seq<char>) -> bool {
    |line: Seq<char>|
        trimmed(line).len() > 0 && cells_of(trimmed(line), format.delimiter@).len()
            == format.headers@.len()
}

/// The data lines of `text` that fit the format.
pub open spec fn fitting_lines(format: TableFormat, text: Seq<char>) -> Seq<Seq<char>> {
    data_lines(text, format.skip_lines as int).filter(fits(format))
}

/// The row object of a line that fits the format.
pub open spec fn row_object(
    format: TableFormat,
    transformers: Option<Vec<(String, String)>>,
    line: Seq<char>,
) -> Result<Json, Failure> {
    object_of(
        row_fields(format.headers@, cells_of(trimmed(line), format.delimiter@), transformers),
    )
}

/// Table mode gives one row for each data line that fits the format, in the
/// order of the text. A line with another number of cells gives nothing and
/// is no failure. A failure is that of the first fitting line whose row
/// fails.
pub proof fn lemma_table_has_one_row_per_fitting_line(
    rules: ParseRules,
    formats: Seq<(String, TableFormat)>,
    text: Seq<char>,
)
    requires
        rules.parse_type@ == "table"@,
        rules.format_type is Some,
        lookup(formats, rules.format_type->0@) is Some,
    ensures
        ({
            let format = lookup(formats, rules.format_type->0@)->0;
            let fitting = fitting_lines(format, text);
            match structured(rules, formats, text) {
                Ok(v) => {
                    &&& v is Array
                    &&& v->Array_0.len() == fitting.len()
                    &&& forall|k: int|
                        0 <= k < fitting.len() ==> row_object(
                            format,
                            rules.transformers,
                            #[trigger] fitting[k],
                        ) == Ok::<Json, Failure>(v->Array_0[k])
                },
                Err(e) => exists|k: int|
                    {
                        &&& 0 <= k < fitting.len()
                        &&& row_object(format, rules.transformers, #[trigger] fitting[k]) == Err::<
                            Json,
                            Failure,
                        >(e)
                        &&& forall|j: int|
                            0 <= j < k ==> row_object(
                                format,
                                rules.transformers,
                                #[trigger] fitting[j],
                            ) is Ok
                    },
            }
        }),
{
    lemma_mode_names_differ();
    let format = lookup(formats, rules.format_type->0@)->0;
    let data = data_lines(text, format.skip_lines as int);
    let f = |line: Seq<char>| row_object(format, rules.transformers, line);
    assert(rows(format, rules.transformers, data) == selected(data, fits(format), f));
    lemma_selected(data, fits(format), f);
}

/// A row maps its cells to the headers by position: the names of the row are
/// the headers, and the row holds, under a header that no later column
/// repeats, the value of the cell of that column.
pub proof fn lemma_row_is_positional(
    format: TableFormat,
    transformers: Option<Vec<(String, String)>>,
    line: Seq<char>,
)
    requires
        fits(format)(line),
        row_object(format, transformers, line) is Ok,
    ensures
        ({
            let cells = cells_of(trimmed(line), format.delimiter@);
            let headers = format.headers@;
            let row = row_object(format, transformers, line)->Ok_0;
            &&& row is Object
            &&& forall|name: Seq<char>| #[trigger]
                row->Object_0.dom().contains(name) ==> exists|i: int|
                    0 <= i < headers.len() && (#[trigger] headers[i])@ == name
            &&& forall|i: int|
                0 <= i < headers.len() && (forall|j: int|
                    i < j < headers.len() ==> (#[trigger] headers[j])@ != headers[i]@)
                    ==> row->Object_0.dom().contains((#[trigger] headers[i])@) && cell_value(
                    cells[i],
                    kind_for(transformers, headers[i]@),
                ) == Ok::<Json, Failure>(row->Object_0[headers[i]@])
        }),
{
    let cells = cells_of(trimmed(line), format.delimiter@);
    let headers = format.headers@;
    let fields = row_fields(headers, cells, transformers);
    let row = row_object(format, transformers, line)->Ok_0;
    lemma_assemble_all_ok(fields, 0, Map::empty());
    assert forall|name: Seq<char>| #[trigger] row->Object_0.dom().contains(name) implies exists|
        i: int,
    |
        0 <= i < headers.len() && (#[trigger] headers[i])@ == name by {
        lemma_assemble_names(fields, 0, Map::empty(), name);
        let i = choose|i: int|
            0 <= i < fields.len() && (#[trigger] fields[i]).0 == name && gives_value(fields[i].1);
        assert(headers[i]@ == name);
    }
    assert forall|i: int|
        0 <= i < headers.len() && (forall|j: int|
            i < j < headers.len() ==> (#[trigger] headers[j])@ != headers[i]@)
            implies row->Object_0.dom().contains((#[trigger] headers[i])@) && cell_value(
        cells[i],
        kind_for(transformers, headers[i]@),
    ) == Ok::<Json, Failure>(row->Object_0[headers[i]@]) by {
        assert(fields[i].1 is Ok);
        assert(gives_value(fields[i].1));
        assert(silent_after(fields, fields[i].0, i)) by {
            assert forall|j: int|
                i < j < fields.len() && (#[trigger] fields[j]).0 == fields[i].0 implies fields[j].1
                == Ok::<Option<Json>, Failure>(None) by {
                assert(headers[j]@ != headers[i]@);
            }
        }
        lemma_assemble_holds(fields, 0, Map::empty(), i);
    }
}

} // verus!
