//! Every value that parsing gives is well formed: each of its numbers is
//! spelled by a decimal literal.

use crate::combine::{array_of, assemble_from, collect_from, object_of, Outcome};
use crate::object::{
    element_fields, element_of, elements, field_of, group_at, group_of, object_fields, object_in,
};
use crate::parser::{
    array_in, diagnostic, exit_code_message, grep_message, no_parsing_message, parsed,
    segment_objects, separator_of,
};
use crate::pattern::{all_matches, first_match, Groups};
use crate::properties::{
    array_field, array_fields, correlated, expanded, gathered_in, mapping_field, mapping_fields,
    properties_in, property_field, property_fields, property_pattern_of, value_of, Gathered,
};
use crate::rules::{
    is_set, lookup, text_of, Action, ArrayPattern, FieldRule, MappingRule, ObjectRule, ParseRules,
    PatternRule, TableFormat,
};
use crate::table::{cells_of, data_lines, kind_for, row_fields, row_of, rows, table_in};
use crate::text::{pieces, trimmed};
use crate::transform::{list_items, strings, transformed};
use crate::value::{well_formed, Json};
use vstd::prelude::*;

verus! {

/// Whether the value of an outcome, where it has one, is well formed.
pub open spec fn sound(o: Outcome) -> bool {
    o is Ok && o->Ok_0 is Some ==> well_formed(o->Ok_0->0)
}

/// Collecting well-formed values gives well-formed values.
pub proof fn lemma_collect_is_sound(outcomes: Seq<Outcome>, from: int, acc: Seq<Json>)
    requires
        0 <= from,
        forall|i: int| 0 <= i < acc.len() ==> well_formed(#[trigger] acc[i]),
        forall|i: int| from <= i < outcomes.len() ==> sound(#[trigger] outcomes[i]),
    ensures
        collect_from(outcomes, from, acc) matches Ok(items) ==> forall|i: int|
            0 <= i < items.len() ==> well_formed(#[trigger] items[i]),
    decreases outcomes.len() - from,
{
    if from < outcomes.len() {
        assert(sound(outcomes[from]));
        match outcomes[from] {
            Err(e) => {},
            Ok(None) => {
                lemma_collect_is_sound(outcomes, from + 1, acc);
            },
            Ok(Some(v)) => {
                lemma_collect_is_sound(outcomes, from + 1, acc.push(v));
            },
        }
    }
}

/// An array of well-formed values is well formed.
pub proof fn lemma_array_is_sound(outcomes: Seq<Outcome>)
    requires
        forall|i: int| 0 <= i < outcomes.len() ==> sound(#[trigger] outcomes[i]),
    ensures
        array_of(outcomes) matches Ok(v) ==> well_formed(v),
{
    lemma_collect_is_sound(outcomes, 0, Seq::empty());
}

/// Assembling well-formed values gives a well-formed object.
pub proof fn lemma_assemble_is_sound(
    fields: Seq<(Seq<char>, Outcome)>,
    from: int,
    acc: Map<Seq<char>, Json>,
)
    requires
        0 <= from,
        well_formed(Json::Object(acc)),
        forall|i: int| from <= i < fields.len() ==> sound((#[trigger] fields[i]).1),
    ensures
        assemble_from(fields, from, acc) matches Ok(m) ==> well_formed(Json::Object(m)),
    decreases fields.len() - from,
{
    if from < fields.len() {
        assert(sound(fields[from].1));
        match fields[from].1 {
            Err(e) => {},
            Ok(None) => {
                lemma_assemble_is_sound(fields, from + 1, acc);
            },
            Ok(Some(v)) => {
                lemma_assemble_is_sound(fields, from + 1, acc.insert(fields[from].0, v));
            },
        }
    }
}

/// An object of well-formed values is well formed.
pub proof fn lemma_object_is_sound(fields: Seq<(Seq<char>, Outcome)>)
    requires
        forall|i: int| 0 <= i < fields.len() ==> sound((#[trigger] fields[i]).1),
    ensures
        object_of(fields) matches Ok(v) ==> well_formed(v),
{
    lemma_assemble_is_sound(fields, 0, Map::empty());
}

/// A transformed value is well formed.
pub proof fn lemma_transformed_is_sound(raw: Seq<char>, kind: Option<Seq<char>>)
    ensures
        transformed(raw, kind) matches Ok(v) ==> well_formed(v),
{
    let items = strings(list_items(raw));
    assert forall|i: int| 0 <= i < items.len() implies well_formed(#[trigger] items[i]) by {}
}

/// The element of a match is well formed.
pub proof fn lemma_element_is_sound(fields: Seq<(String, ObjectRule)>, groups: Groups)
    ensures
        element_of(fields, groups) matches Ok(v) ==> well_formed(v),
{
    let outcomes = element_fields(fields, groups);
    assert forall|i: int| 0 <= i < outcomes.len() implies sound((#[trigger] outcomes[i]).1) by {
        let rule = fields[i].1;
        match group_at(groups, rule.group as int) {
            Some(raw) => {
                lemma_transformed_is_sound(raw, text_of(rule.transform));
            },
            None => {},
        }
    }
    lemma_object_is_sound(outcomes);
}

/// The outcome of a field in object mode is well formed.
pub proof fn lemma_field_is_sound(name: Seq<char>, rule: PatternRule, text: Seq<char>)
    ensures
        sound(field_of(name, rule, text)),
{
    if is_set(rule.multi_match) {
        let matches = all_matches(rule.regex@, text);
        match rule.object {
            None => {
                assert(well_formed(Json::Array(Seq::empty())));
            },
            Some(fields) => {
                let outcomes = elements(fields@, matches);
                assert forall|i: int| 0 <= i < outcomes.len() implies sound(
                    #[trigger] outcomes[i],
                ) by {
                    lemma_element_is_sound(fields@, matches[i]);
                }
                lemma_array_is_sound(outcomes);
            },
        }
    } else {
        match first_match(rule.regex@, text) {
            None => {},
            Some(groups) => {
                match group_at(groups, group_of(rule)) {
                    Some(raw) => {
                        lemma_transformed_is_sound(raw, text_of(rule.transform));
                    },
                    None => {},
                }
            },
        }
    }
}

/// The object of a text is well formed.
pub proof fn lemma_object_mode_is_sound(
    patterns: Option<Vec<(String, PatternRule)>>,
    text: Seq<char>,
)
    ensures
        object_in(patterns, text) matches Ok(v) ==> well_formed(v),
{
    match patterns {
        None => {
            assert(well_formed(Json::Object(Map::empty())));
        },
        Some(list) => {
            let outcomes = object_fields(list@, text);
            assert forall|i: int| 0 <= i < outcomes.len() implies sound(
                (#[trigger] outcomes[i]).1,
            ) by {
                lemma_field_is_sound(list@[i].0@, list@[i].1, text);
            }
            lemma_object_is_sound(outcomes);
        },
    }
}

/// The array of array mode is well formed.
pub proof fn lemma_array_mode_is_sound(rules: ParseRules, text: Seq<char>)
    ensures
        array_in(rules, text) matches Ok(v) ==> well_formed(v),
{
    let segments = pieces(text, separator_of(rules.separator));
    let outcomes = segment_objects(rules.patterns, segments);
    assert forall|i: int| 0 <= i < outcomes.len() implies sound(#[trigger] outcomes[i]) by {
        lemma_object_mode_is_sound(rules.patterns, segments[i]);
    }
    lemma_array_is_sound(outcomes);
}

/// The row of a line is well formed.
pub proof fn lemma_row_is_sound(
    format: TableFormat,
    transformers: Option<Vec<(String, String)>>,
    line: Seq<char>,
)
    ensures
        sound(row_of(format, transformers, line)),
{
    let cells = cells_of(trimmed(line), format.delimiter@);
    let outcomes = row_fields(format.headers@, cells, transformers);
    assert forall|i: int| 0 <= i < outcomes.len() implies sound((#[trigger] outcomes[i]).1) by {
        match kind_for(transformers, format.headers@[i]@) {
            Some(k) => {
                lemma_transformed_is_sound(cells[i], Some(k));
            },
            None => {},
        }
    }
    lemma_object_is_sound(outcomes);
}

/// The table of table mode is well formed.
pub proof fn lemma_table_mode_is_sound(
    rules: ParseRules,
    formats: Seq<(String, TableFormat)>,
    text: Seq<char>,
)
    ensures
        table_in(rules, formats, text) matches Ok(v) ==> well_formed(v),
{
    if rules.format_type is Some && lookup(formats, rules.format_type->0@) is Some {
        let format = lookup(formats, rules.format_type->0@)->0;
        let data = data_lines(text, format.skip_lines as int);
        let outcomes = rows(format, rules.transformers, data);
        assert forall|i: int| 0 <= i < outcomes.len() implies sound(#[trigger] outcomes[i]) by {
            lemma_row_is_sound(format, rules.transformers, data[i]);
        }
        lemma_array_is_sound(outcomes);
    }
}

/// The outcome of a field of an element in properties mode is well formed.
pub proof fn lemma_property_field_is_sound(
    rule: FieldRule,
    groups: Groups,
    value: Seq<char>,
    gathered: Gathered,
)
    ensures
        sound(property_field(rule, groups, value, gathered)),
{
    match rule {
        FieldRule::Simple(kind) => {},
        FieldRule::Complex { key: Some(template), group, transform, optional } => {
            match value_of(
                gathered,
                expanded(template@, groups),
            ) {
                Some(v) => {
                    lemma_transformed_is_sound(v, text_of(transform));
                },
                None => {},
            }
        },
        FieldRule::Complex { key: None, group: Some(g), transform, optional } => {
            match group_at(groups, g as int) {
                Some(raw) => {
                    lemma_transformed_is_sound(raw, text_of(transform));
                },
                None => {},
            }
        },
        FieldRule::Complex { key: None, group: None, transform, optional } => {},
    }
}

/// The outcome of an array field in properties mode is well formed.
pub proof fn lemma_array_field_is_sound(pattern: ArrayPattern, gathered: Gathered)
    ensures
        sound(array_field(pattern, gathered)),
{
    let outcomes = correlated(pattern, gathered);
    assert forall|i: int| 0 <= i < outcomes.len() implies sound(#[trigger] outcomes[i]) by {
        match first_match(pattern.key_pattern@, gathered[i].0) {
            None => {},
            Some(groups) => {
                let fields = property_fields(pattern.fields@, groups, gathered[i].1, gathered);
                assert forall|k: int| 0 <= k < fields.len() implies sound(
                    (#[trigger] fields[k]).1,
                ) by {
                    lemma_property_field_is_sound(
                        pattern.fields@[k].1,
                        groups,
                        gathered[i].1,
                        gathered,
                    );
                }
                lemma_object_is_sound(fields);
            },
        }
    }
    lemma_array_is_sound(outcomes);
}

/// The outcome of a mapped field is well formed.
pub proof fn lemma_mapping_is_sound(rule: MappingRule, gathered: Gathered)
    ensures
        sound(mapping_field(rule, gathered)),
{
    match rule.key {
        None => {},
        Some(key) => match value_of(gathered, key@) {
            None => {},
            Some(v) => {
                lemma_transformed_is_sound(v, text_of(rule.transform));
            },
        },
    }
}

/// The object of properties mode is well formed.
pub proof fn lemma_properties_mode_is_sound(rules: ParseRules, text: Seq<char>)
    ensures
        properties_in(rules, text) matches Ok(v) ==> well_formed(v),
{
    let gathered = gathered_in(property_pattern_of(rules), text);
    let arrays = array_fields(rules.array_patterns, gathered);
    let mapped = mapping_fields(rules.mappings, gathered);
    assert forall|i: int| 0 <= i < arrays.len() implies sound((#[trigger] arrays[i]).1) by {
        lemma_array_field_is_sound(rules.array_patterns->0@[i].1, gathered);
    }
    assert forall|i: int| 0 <= i < mapped.len() implies sound((#[trigger] mapped[i]).1) by {
        lemma_mapping_is_sound(rules.mappings->0@[i].1, gathered);
    }
    assert(well_formed(Json::Object(Map::empty())));
    lemma_assemble_is_sound(arrays, 0, Map::empty());
    match assemble_from(arrays, 0, Map::empty()) {
        Ok(base) => {
            lemma_assemble_is_sound(mapped, 0, base);
        },
        Err(e) => {},
    }
}

/// An object stays well formed when a well-formed value is put into it.
pub proof fn lemma_insert_is_sound(fields: Map<Seq<char>, Json>, key: Seq<char>, v: Json)
    requires
        well_formed(Json::Object(fields)),
        well_formed(v),
    ensures
        well_formed(Json::Object(fields.insert(key, v))),
{
}

/// A diagnostic is well formed.
pub proof fn lemma_diagnostic_is_sound(action: Action, text: Seq<char>)
    ensures
        well_formed(diagnostic(action, text)),
{
    let empty = Map::<Seq<char>, Json>::empty();
    assert(well_formed(Json::Object(empty)));
    match action {
        Action::Legacy { success_exit_code: Some(code), .. } => {
            let first = empty.insert("error"@, Json::String(exit_code_message()));
            lemma_insert_is_sound(
                empty,
                "error"@,
                Json::String(exit_code_message()),
            );
            lemma_insert_is_sound(first, "exit_code_required"@, Json::Integer(code as int));
        },
        Action::Legacy { success_exit_code: None, parse_output: Some(directive), .. } => {
            let first = empty.insert("error"@, Json::String(grep_message()));
            lemma_insert_is_sound(empty, "error"@, Json::String(grep_message()));
            lemma_insert_is_sound(first, "grep_command"@, Json::String(directive@));
        },
        _ => {
            let first = empty.insert("error"@, Json::String(no_parsing_message()));
            lemma_insert_is_sound(
                empty,
                "error"@,
                Json::String(no_parsing_message()),
            );
            lemma_insert_is_sound(first, "raw_output"@, Json::String(text));
        },
    }
}

/// Every value that a parser gives is well formed.
pub proof fn lemma_parsed_is_well_formed(
    rules: Option<ParseRules>,
    formats: Seq<(String, TableFormat)>,
    text: Seq<char>,
    action: Action,
)
    ensures
        parsed(rules, formats, text, action) matches Ok(v) ==> well_formed(v),
{
    match rules {
        Some(rules) => {
            lemma_object_mode_is_sound(rules.patterns, text);
            lemma_array_mode_is_sound(rules, text);
            lemma_properties_mode_is_sound(rules, text);
            lemma_table_mode_is_sound(rules, formats, text);
        },
        None => {
            lemma_diagnostic_is_sound(action, text);
        },
    }
}

} // verus!
