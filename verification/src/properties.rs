//! Properties mode: `key="value"` lines are gathered, then correlated into
//! array fields and mapped into direct fields.
//!
//! The builders of this module take the groups of the matches as arguments;
//! finding the matches is the caller's part.

use crate::combine::{
    array_of, assemble_from, extended, field_outcome, lemma_entries_push, object_of, present,
    Outcome,
};
use crate::error::{outcome, Failure, ParseError};
use crate::object::{flag, group_at};
use crate::pattern::{first_match, is_valid, Groups};
use crate::rules::{
    is_set, referent, same_text, text_of, ArrayPattern, FieldRule, MappingRule, ParseRules,
};
use crate::text::{lines_of, substitute, substituted, trimmed};
use crate::transform::{transform_value, transformed};
use crate::value::{entries_view, Json, Value};
use vstd::prelude::*;

verus! {

/// The gathered properties: `(key, value)` pairs in the order of their lines.
/// Where a key occurs more than once, its last pair is the one that counts.
pub type Gathered = Seq<(Seq<char>, Seq<char>)>;

/// The pattern of a property line: that of the rules, or `^([^=]+)="(.*)"$`.
pub open spec fn property_pattern_of(rules: ParseRules) -> Seq<char> {
    match rules.property_pattern {
        Some(p) => p@,
        None => "^([^=]+)=\"(.*)\"$"@,
    }
}

/// The property that a match of the property pattern records: group 1 as
/// the key and group 2 as the value, where the pattern has both groups and
/// both took part in the match.
pub open spec fn recorded(found: Option<Groups>) -> Option<(Seq<char>, Seq<char>)> {
    match found {
        Some(groups) => if groups.len() >= 3 && groups[1] is Some && groups[2] is Some {
            Some((groups[1]->0, groups[2]->0))
        } else {
            None
        },
        None => None,
    }
}

/// The property of one line: none for a blank line, else what the match of
/// the pattern on the trimmed line records.
pub open spec fn line_property(pattern: Seq<char>, line: Seq<char>) -> Option<
    (Seq<char>, Seq<char>),
> {
    let row = trimmed(line);
    if row.len() == 0 {
        None
    } else {
        recorded(first_match(pattern, row))
    }
}

/// The properties of a list of lines.
pub open spec fn properties_of(pattern: Seq<char>, lines: Seq<Seq<char>>) -> Gathered {
    lines.filter_map(|line: Seq<char>| line_property(pattern, line))
}

/// The properties gathered from `text`.
pub open spec fn gathered_in(pattern: Seq<char>, text: Seq<char>) -> Gathered {
    properties_of(pattern, lines_of(text))
}

/// The value gathered under `key`, if any.
pub open spec fn value_of(gathered: Gathered, key: Seq<char>) -> Option<Seq<char>>
    decreases gathered.len(),
{
    if gathered.len() == 0 {
        None
    } else if gathered.last().0 == key {
        Some(gathered.last().1)
    } else {
        value_of(gathered.drop_last(), key)
    }
}

/// Whether a later pair has the key of pair `i`.
pub open spec fn is_replaced(gathered: Gathered, i: int) -> bool {
    exists|j: int| i < j < gathered.len() && #[trigger] gathered[j].0 == gathered[i].0
}

/// The key that a template stands for in a key match: `\1` replaced by
/// group 1 of the match; the template as it is where group 1 took no part.
pub open spec fn expanded(template: Seq<char>, groups: Groups) -> Seq<char> {
    match group_at(groups, 1) {
        Some(first) => substituted(template, first),
        None => template,
    }
}

/// The outcome of one field of an element.
///
/// A simple rule of kind `value` gives the value of the matched property. A
/// rule with a key template looks the expanded key up: the transformed value
/// where it is there, else null for an optional field and no value
/// otherwise. A rule with a group gives the transformed text of that group
/// of the key match, or no value. Any other rule gives no value.
pub open spec fn property_field(
    rule: FieldRule,
    groups: Groups,
    value: Seq<char>,
    gathered: Gathered,
) -> Outcome {
    match rule {
        FieldRule::Simple(kind) => if kind@ == "value"@ {
            Ok(Some(Json::String(value)))
        } else {
            Ok(None)
        },
        FieldRule::Complex { key: Some(template), group, transform, optional } => match value_of(
            gathered,
            expanded(template@, groups),
        ) {
            Some(v) => present(transformed(v, text_of(transform))),
            None => if is_set(optional) {
                Ok(Some(Json::Null))
            } else {
                Ok(None)
            },
        },
        FieldRule::Complex { key: None, group: Some(g), transform, optional } => match group_at(
            groups,
            g as int,
        ) {
            Some(raw) => present(transformed(raw, text_of(transform))),
            None => Ok(None),
        },
        FieldRule::Complex { key: None, group: None, transform, optional } => Ok(None),
    }
}

/// The outcome of each field of the element for one key match.
pub open spec fn property_fields(
    fields: Seq<(String, FieldRule)>,
    groups: Groups,
    value: Seq<char>,
    gathered: Gathered,
) -> Seq<(Seq<char>, Outcome)> {
    Seq::new(
        fields.len(),
        |i: int| (fields[i].0@, property_field(fields[i].1, groups, value, gathered)),
    )
}

/// The element for one key match.
pub open spec fn property_element(
    fields: Seq<(String, FieldRule)>,
    groups: Groups,
    value: Seq<char>,
    gathered: Gathered,
) -> Result<Json, Failure> {
    object_of(property_fields(fields, groups, value, gathered))
}

/// The outcome of pair `i` for an array pattern: no element where a later
/// pair replaces it or its key does not match, else the element of the match.
pub open spec fn correlated_at(pattern: ArrayPattern, gathered: Gathered, i: int) -> Outcome {
    if is_replaced(gathered, i) {
        Ok(None)
    } else {
        match first_match(pattern.key_pattern@, gathered[i].0) {
            None => Ok(None),
            Some(groups) => present(
                property_element(pattern.fields@, groups, gathered[i].1, gathered),
            ),
        }
    }
}

/// The outcome of each gathered pair for an array pattern.
pub open spec fn correlated(pattern: ArrayPattern, gathered: Gathered) -> Seq<Outcome> {
    Seq::new(gathered.len(), |i: int| correlated_at(pattern, gathered, i))
}

/// The outcome of an array field: a failure where the key pattern does not
/// compile, else the array of the elements.
pub open spec fn array_field(pattern: ArrayPattern, gathered: Gathered) -> Outcome {
    if !is_valid(pattern.key_pattern@) {
        Err(Failure::RegexCompileError(pattern.key_pattern@))
    } else {
        present(array_of(correlated(pattern, gathered)))
    }
}

/// The outcome of each array field.
pub open spec fn array_fields(patterns: Option<Vec<(String, ArrayPattern)>>, gathered: Gathered) -> Seq<
    (Seq<char>, Outcome),
> {
    match patterns {
        None => Seq::empty(),
        Some(list) => Seq::new(
            list@.len(),
            |i: int| (list@[i].0@, array_field(list@[i].1, gathered)),
        ),
    }
}

/// The outcome of a mapped field: the transformed value gathered under the
/// key of the rule; no value where the rule has no key or nothing was
/// gathered under it.
pub open spec fn mapping_field(rule: MappingRule, gathered: Gathered) -> Outcome {
    match rule.key {
        None => Ok(None),
        Some(key) => match value_of(gathered, key@) {
            None => Ok(None),
            Some(v) => present(transformed(v, text_of(rule.transform))),
        },
    }
}

/// The outcome of each mapped field.
pub open spec fn mapping_fields(mappings: Option<Vec<(String, MappingRule)>>, gathered: Gathered) -> Seq<
    (Seq<char>, Outcome),
> {
    match mappings {
        None => Seq::empty(),
        Some(list) => Seq::new(
            list@.len(),
            |i: int| (list@[i].0@, mapping_field(list@[i].1, gathered)),
        ),
    }
}

/// The object that the array patterns and the mappings make of the gathered
/// properties: the array fields first, then the mapped fields.
pub open spec fn properties_object(rules: ParseRules, gathered: Gathered) -> Result<Json, Failure> {
    match assemble_from(array_fields(rules.array_patterns, gathered), 0, Map::empty()) {
        Err(e) => Err(e),
        Ok(base) => extended(base, mapping_fields(rules.mappings, gathered)),
    }
}

/// The object that `rules` take from `text` in properties mode.
pub open spec fn properties_in(rules: ParseRules, text: Seq<char>) -> Result<Json, Failure> {
    let pattern = property_pattern_of(rules);
    if !is_valid(pattern) {
        Err(Failure::RegexCompileError(pattern))
    } else {
        properties_object(rules, gathered_in(pattern, text))
    }
}

/// The property that the groups of a match record, if any.
pub fn record(found: &Option<Vec<Option<String>>>) -> (r: Option<(String, String)>)
    ensures
        r.deep_view() == recorded(found.deep_view()),
{
    match found {
        Some(groups) => {
            if groups.len() >= 3 {
                match (&groups[1], &groups[2]) {
                    (Some(key), Some(value)) => Some((key.clone(), value.clone())),
                    _ => None,
                }
            } else {
                None
            }
        },
        None => None,
    }
}

/// The value gathered under `key`, if any.
pub fn find_value<'a>(gathered: &'a Vec<(String, String)>, key: &str) -> (found: Option<
    &'a String,
>)
    ensures
        text_of(referent(found)) == value_of(gathered.deep_view(), key@),
{
    let ghost all = gathered.deep_view();
    let mut i: usize = gathered.len();
    assert(all.take(i as int) == all);
    while i > 0
        invariant
            i <= gathered.len(),
            all == gathered.deep_view(),
            value_of(all, key@) == value_of(all.take(i as int), key@),
        decreases i,
    {
        assert(all.take(i as int).drop_last() == all.take(i - 1));
        assert(all[i - 1] == (gathered@[i - 1].0@, gathered@[i - 1].1@));
        if same_text(gathered[i - 1].0.as_str(), key) {
            return Some(&gathered[i - 1].1);
        }
        i -= 1;
    }
    None
}

/// Whether a later pair has the key of pair `i`.
pub fn has_later(gathered: &Vec<(String, String)>, i: usize) -> (b: bool)
    requires
        i < gathered.len(),
    ensures
        b == is_replaced(gathered.deep_view(), i as int),
{
    let ghost all = gathered.deep_view();
    let mut j: usize = i + 1;
    while j < gathered.len()
        invariant
            i < j <= gathered.len(),
            all == gathered.deep_view(),
            forall|k: int| i < k < j ==> all[k].0 != all[i as int].0,
        decreases gathered.len() - j,
    {
        assert(all[j as int] == (gathered@[j as int].0@, gathered@[j as int].1@));
        assert(all[i as int] == (gathered@[i as int].0@, gathered@[i as int].1@));
        if same_text(gathered[j].0.as_str(), gathered[i].0.as_str()) {
            assert(i < j < all.len() && all[j as int].0 == all[i as int].0);
            return true;
        }
        j += 1;
    }
    false
}

/// The outcome of one field of an element.
pub fn build_property_field(
    rule: &FieldRule,
    groups: &Vec<Option<String>>,
    value: &str,
    gathered: &Vec<(String, String)>,
) -> (r: Result<Option<Value>, ParseError>)
    ensures
        field_outcome(r) == property_field(
            *rule,
            groups.deep_view(),
            value@,
            gathered.deep_view(),
        ),
{
    match rule {
        FieldRule::Simple(kind) => {
            if same_text(kind.as_str(), "value") {
                Ok(Some(Value::String(value.to_owned())))
            } else {
                Ok(None)
            }
        },
        FieldRule::Complex { key: Some(template), group, transform: kind, optional } => {
            let first: Option<&String> = if 1 < groups.len() {
                groups[1].as_ref()
            } else {
                None
            };
            let wanted = match first {
                Some(text) => substitute(template.as_str(), text.as_str()),
                None => template.clone(),
            };
            match find_value(gathered, wanted.as_str()) {
                Some(v) => {
                    let converted = transform_value(v.as_str(), kind)?;
                    Ok(Some(converted))
                },
                None => {
                    if flag(optional) {
                        Ok(Some(Value::Null))
                    } else {
                        Ok(None)
                    }
                },
            }
        },
        FieldRule::Complex { key: None, group: Some(g), transform: kind, optional } => {
            if *g < groups.len() {
                match &groups[*g] {
                    Some(raw) => {
                        let converted = transform_value(raw.as_str(), kind)?;
                        return Ok(Some(converted));
                    },
                    None => {},
                }
            }
            Ok(None)
        },
        FieldRule::Complex { key: None, group: None, transform: kind, optional } => Ok(None),
    }
}

/// The element for one key match.
pub fn build_property_element(
    fields: &Vec<(String, FieldRule)>,
    groups: &Vec<Option<String>>,
    value: &str,
    gathered: &Vec<(String, String)>,
) -> (r: Result<Value, ParseError>)
    ensures
        outcome(r) == property_element(
            fields@,
            groups.deep_view(),
            value@,
            gathered.deep_view(),
        ),
{
    let ghost outcomes = property_fields(
        fields@,
        groups.deep_view(),
        value@,
        gathered.deep_view(),
    );
    let mut entries: Vec<(String, Value)> = Vec::new();
    let mut i: usize = 0;
    while i < fields.len()
        invariant
            i <= fields.len(),
            outcomes == property_fields(
                fields@,
                groups.deep_view(),
                value@,
                gathered.deep_view(),
            ),
            assemble_from(outcomes, 0, Map::empty()) == assemble_from(
                outcomes,
                i as int,
                entries_view(entries@),
            ),
        decreases fields.len() - i,
    {
        let name = &fields[i].0;
        match build_property_field(&fields[i].1, groups, value, gathered)? {
            Some(v) => {
                proof {
                    lemma_entries_push(entries@, *name, v);
                }
                entries.push((name.clone(), v));
            },
            None => {},
        }
        i += 1;
    }
    Ok(Value::Object(entries))
}

/// The outcome of a mapped field.
pub fn build_mapping(rule: &MappingRule, gathered: &Vec<(String, String)>) -> (r: Result<
    Option<Value>,
    ParseError,
>)
    ensures
        field_outcome(r) == mapping_field(*rule, gathered.deep_view()),
{
    match &rule.key {
        None => Ok(None),
        Some(key) => match find_value(gathered, key.as_str()) {
            None => Ok(None),
            Some(v) => {
                let converted = transform_value(v.as_str(), &rule.transform)?;
                Ok(Some(converted))
            },
        },
    }
}

} // verus!
