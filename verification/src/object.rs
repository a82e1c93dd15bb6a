//! Object mode: one field for each named pattern rule.
//!
//! The builders of this module take the groups of the matches as arguments;
//! finding the matches is the caller's part.

use crate::combine::{
    array_of, collect_from, assemble_from, field_outcome, lemma_entries_push, lemma_items_push,
    object_of, present, Outcome,
};
use crate::error::{outcome, Failure, ParseError};
use crate::pattern::{all_matches, captures, captures_all, first_match, is_valid, Groups};
use crate::rules::{is_set, text_of, ObjectRule, PatternRule};
use crate::transform::{transform_value, transformed};
use crate::value::{entries_view, items_view, Json, Value};
use vstd::prelude::*;

verus! {

/// The text of group `i` of a match; `None` where the match has no such
/// group or the group took no part in it.
pub open spec fn group_at(groups: Groups, i: int) -> Option<Seq<char>> {
    if 0 <= i < groups.len() {
        groups[i]
    } else {
        None
    }
}

/// The value of the field `name`, taken from group `group` of a match: the
/// transformed text of the group; where the group took no part, null for an
/// optional field and a failure for a required one.
pub open spec fn captured(
    name: Seq<char>,
    group: int,
    kind: Option<Seq<char>>,
    optional: bool,
    groups: Groups,
) -> Result<Json, Failure> {
    match group_at(groups, group) {
        Some(raw) => transformed(raw, kind),
        None => if optional {
            Ok(Json::Null)
        } else {
            Err(Failure::MissingRequiredField(name))
        },
    }
}

/// The outcome of each field of an element for one match.
pub open spec fn element_fields(fields: Seq<(String, ObjectRule)>, groups: Groups) -> Seq<
    (Seq<char>, Outcome),
> {
    Seq::new(
        fields.len(),
        |i: int|
            (
                fields[i].0@,
                present(
                    captured(
                        fields[i].0@,
                        fields[i].1.group as int,
                        text_of(fields[i].1.transform),
                        is_set(fields[i].1.optional),
                        groups,
                    ),
                ),
            ),
    )
}

/// The element built from one match.
pub open spec fn element_of(fields: Seq<(String, ObjectRule)>, groups: Groups) -> Result<
    Json,
    Failure,
> {
    object_of(element_fields(fields, groups))
}

/// The outcome of the element for each match.
pub open spec fn elements(fields: Seq<(String, ObjectRule)>, matches: Seq<Groups>) -> Seq<Outcome> {
    Seq::new(matches.len(), |i: int| present(element_of(fields, matches[i])))
}

/// The value of a multi-match field: an array with one element for each
/// match. A rule without element fields gives the empty array.
pub open spec fn multi_field(rule: PatternRule, matches: Seq<Groups>) -> Result<Json, Failure> {
    match rule.object {
        None => Ok(Json::Array(Seq::empty())),
        Some(fields) => array_of(elements(fields@, matches)),
    }
}

/// The capture group of a single-match rule: group 1 where the rule names
/// none.
pub open spec fn group_of(rule: PatternRule) -> int {
    match rule.group {
        Some(g) => g as int,
        None => 1,
    }
}

/// The outcome of a single-match field, given the first match of its
/// pattern: no value where the pattern has no match.
pub open spec fn single_field(name: Seq<char>, rule: PatternRule, found: Option<Groups>) -> Outcome {
    match found {
        None => Ok(None),
        Some(groups) => present(
            captured(name, group_of(rule), text_of(rule.transform), is_set(rule.optional), groups),
        ),
    }
}

/// The outcome of the field `name` in `text`: a failure where the pattern
/// does not compile, else what its matches give.
pub open spec fn field_of(name: Seq<char>, rule: PatternRule, text: Seq<char>) -> Outcome {
    if !is_valid(rule.regex@) {
        Err(Failure::RegexCompileError(rule.regex@))
    } else if is_set(rule.multi_match) {
        present(multi_field(rule, all_matches(rule.regex@, text)))
    } else {
        single_field(name, rule, first_match(rule.regex@, text))
    }
}

/// The outcome of each field of the object for `text`.
pub open spec fn object_fields(patterns: Seq<(String, PatternRule)>, text: Seq<char>) -> Seq<
    (Seq<char>, Outcome),
> {
    Seq::new(
        patterns.len(),
        |i: int| (patterns[i].0@, field_of(patterns[i].0@, patterns[i].1, text)),
    )
}

/// The object that the optional `patterns` take from `text`: the empty
/// object where there are none.
pub open spec fn object_in(patterns: Option<Vec<(String, PatternRule)>>, text: Seq<char>) -> Result<
    Json,
    Failure,
> {
    match patterns {
        None => Ok(Json::Object(Map::empty())),
        Some(list) => object_of(object_fields(list@, text)),
    }
}

/// Whether an optional flag is set to true.
pub fn flag(o: &Option<bool>) -> (b: bool)
    ensures
        b == is_set(*o),
{
    match o {
        Some(b) => *b,
        None => false,
    }
}

/// The value of the field `name`, taken from group `group` of a match.
pub fn capture(
    name: &str,
    group: usize,
    kind: &Option<String>,
    optional: bool,
    groups: &Vec<Option<String>>,
) -> (r: Result<Value, ParseError>)
    ensures
        outcome(r) == captured(name@, group as int, text_of(*kind), optional, groups.deep_view()),
{
    if group < groups.len() {
        match &groups[group] {
            Some(raw) => {
                return transform_value(raw.as_str(), kind);
            },
            None => {},
        }
    }
    if optional {
        Ok(Value::Null)
    } else {
        Err(ParseError::MissingRequiredField(name.to_owned()))
    }
}

/// The element built from the groups of one match.
pub fn build_element(fields: &Vec<(String, ObjectRule)>, groups: &Vec<Option<String>>) -> (r:
    Result<Value, ParseError>)
    ensures
        outcome(r) == element_of(fields@, groups.deep_view()),
{
    let ghost outcomes = element_fields(fields@, groups.deep_view());
    let mut entries: Vec<(String, Value)> = Vec::new();
    let mut i: usize = 0;
    while i < fields.len()
        invariant
            i <= fields.len(),
            outcomes == element_fields(fields@, groups.deep_view()),
            assemble_from(outcomes, 0, Map::empty()) == assemble_from(
                outcomes,
                i as int,
                entries_view(entries@),
            ),
        decreases fields.len() - i,
    {
        let name = &fields[i].0;
        let rule = &fields[i].1;
        let v = capture(name.as_str(), rule.group, &rule.transform, flag(&rule.optional), groups)?;
        proof {
            lemma_entries_push(entries@, *name, v);
        }
        entries.push((name.clone(), v));
        i += 1;
    }
    Ok(Value::Object(entries))
}

/// The value of a multi-match field, given the groups of every match.
pub fn build_multi(rule: &PatternRule, matches: &Vec<Vec<Option<String>>>) -> (r: Result<
    Value,
    ParseError,
>)
    ensures
        outcome(r) == multi_field(*rule, matches.deep_view()),
{
    let mut items: Vec<Value> = Vec::new();
    match &rule.object {
        None => {},
        Some(fields) => {
            let ghost outcomes = elements(fields@, matches.deep_view());
            let mut i: usize = 0;
            while i < matches.len()
                invariant
                    i <= matches.len(),
                    rule.object == Some(*fields),
                    outcomes == elements(fields@, matches.deep_view()),
                    collect_from(outcomes, 0, Seq::empty()) == collect_from(
                        outcomes,
                        i as int,
                        items_view(items@),
                    ),
                decreases matches.len() - i,
            {
                assert(matches.deep_view()[i as int] == matches@[i as int].deep_view());
                let element = build_element(fields, &matches[i])?;
                proof {
                    lemma_items_push(items@, element);
                }
                items.push(element);
                i += 1;
            }
        },
    }
    Ok(Value::Array(items))
}

/// The value of a single-match field, given the groups of the first match.
pub fn build_single(name: &str, rule: &PatternRule, found: &Option<Vec<Option<String>>>) -> (r:
    Result<Option<Value>, ParseError>)
    ensures
        field_outcome(r) == single_field(name@, *rule, found.deep_view()),
{
    match found {
        None => Ok(None),
        Some(groups) => {
            let group = match rule.group {
                Some(g) => g,
                None => 1,
            };
            let v = capture(name, group, &rule.transform, flag(&rule.optional), groups)?;
            Ok(Some(v))
        },
    }
}

/// The outcome of the field `name` in `text`.
pub fn extract_field(name: &str, rule: &PatternRule, text: &str) -> (r: Result<
    Option<Value>,
    ParseError,
>)
    ensures
        field_outcome(r) == field_of(name@, *rule, text@),
{
    match regex::Regex::new(rule.regex.as_str()) {
        Err(_) => Err(ParseError::RegexCompileError(rule.regex.clone())),
        Ok(re) => {
            if flag(&rule.multi_match) {
                let matches = captures_all(&re, text);
                let v = build_multi(rule, &matches)?;
                Ok(Some(v))
            } else {
                let found = captures(&re, text);
                build_single(name, rule, &found)
            }
        },
    }
}

} // verus!
