//! The rule schema: passive descriptions of how to take values out of text.
//!
//! Named rules are held as lists of `(name, rule)` and are applied in the
//! order in which the list gives them.

use vstd::prelude::*;

verus! {

/// How one field of an element of a multi-match field is taken from a match.
#[derive(Debug, Clone, PartialEq, Eq, PartialOrd, Ord, Hash)]
pub struct ObjectRule {
    /// The capture group that holds the field.
    pub group: usize,
    /// The kind of conversion to apply, if any.
    pub transform: Option<String>,
    /// Whether a group that took no part in the match gives null in place of
    /// a failure.
    pub optional: Option<bool>,
}

/// How one field is taken from text in object mode.
#[derive(Debug, Clone, PartialEq, Eq)]
pub struct PatternRule {
    pub regex: String,
    /// The capture group that holds the field; group 1 where unset.
    pub group: Option<usize>,
    pub transform: Option<String>,
    /// Whether every match in the text becomes one element of an array.
    pub multi_match: Option<bool>,
    /// The fields of each element of a multi-match field.
    pub object: Option<Vec<(String, ObjectRule)>>,
    pub optional: Option<bool>,
}

/// A field that is looked up directly among the gathered properties.
#[derive(Debug, Clone, PartialEq, Eq, PartialOrd, Ord, Hash)]
pub struct MappingRule {
    pub key: Option<String>,
    pub transform: Option<String>,
}

/// How one field of an element is found in properties mode.
#[derive(Debug, Clone)]
pub enum FieldRule {
    /// With the kind `value`: the value of the property whose key matched.
    Simple(String),
    /// With `key`: a template in which `\1` stands for the first capture
    /// group of the key match, looked up among the gathered properties.
    /// Otherwise, with `group`: that capture group of the key match.
    Complex {
        key: Option<String>,
        group: Option<usize>,
        transform: Option<String>,
        optional: Option<bool>,
    },
}

/// Correlates gathered properties into a list of elements: one element for
/// each property whose key matches `key_pattern`.
#[derive(Debug, Clone)]
pub struct ArrayPattern {
    pub key_pattern: String,
    pub fields: Vec<(String, FieldRule)>,
}

/// A named column layout for table mode.
#[derive(Debug, Clone)]
pub struct TableFormat {
    pub headers: Vec<String>,
    pub delimiter: String,
    /// The number of leading lines to pass over.
    pub skip_lines: usize,
}

/// A rule set: the mode and the rules of that mode. Only the rules of the
/// named mode are read; what the other fields hold has no effect.
#[derive(Debug, Clone)]
pub struct ParseRules {
    /// The mode: `object`, `array`, `properties` or `table`.
    pub parse_type: String,
    /// Array mode: what separates two items; two line feeds where unset.
    pub separator: Option<String>,
    /// Object and array mode: the fields.
    pub patterns: Option<Vec<(String, PatternRule)>>,
    /// Properties mode: the pattern of one property line, with the key in
    /// group 1 and the value in group 2.
    pub property_pattern: Option<String>,
    /// Properties mode: the directly mapped fields.
    pub mappings: Option<Vec<(String, MappingRule)>>,
    /// Properties mode: the correlated array fields.
    pub array_patterns: Option<Vec<(String, ArrayPattern)>>,
    /// Table mode: the name of the table format.
    pub format_type: Option<String>,
    /// Table mode: the kind of conversion for a column, by header.
    pub transformers: Option<Vec<(String, String)>>,
}

/// A command with what is needed to interpret its output.
#[derive(Debug, Clone)]
pub enum Action {
    Modern {
        command: String,
        params: Vec<String>,
        parse_rules: ParseRules,
        pre_exec: Vec<String>,
        post_exec: Vec<String>,
    },
    Legacy {
        command: String,
        params: Vec<String>,
        success_exit_code: Option<i32>,
        parse_output: Option<String>,
        pre_exec: Vec<String>,
        post_exec: Vec<String>,
    },
}

/// The view of an optional string.
pub open spec fn text_of(s: Option<String>) -> Option<Seq<char>> {
    match s {
        Some(s) => Some(s@),
        None => None,
    }
}

/// Whether an optional flag is set to true.
pub open spec fn is_set(flag: Option<bool>) -> bool {
    flag == Some(true)
}

/// What an optional reference refers to.
pub open spec fn referent<T>(r: Option<&T>) -> Option<T> {
    match r {
        Some(t) => Some(*t),
        None => None,
    }
}

/// The rule set of an action: that of a modern action, none for a legacy one.
pub open spec fn rule_set_of(action: Action) -> Option<ParseRules> {
    match action {
        Action::Modern { parse_rules, .. } => Some(parse_rules),
        Action::Legacy { .. } => None,
    }
}

/// The rule set of an action: that of a modern action, none for a legacy one.
pub fn rule_set(action: &Action) -> (rules: Option<&ParseRules>)
    ensures
        referent(rules) == rule_set_of(*action),
{
    match action {
        Action::Modern { parse_rules, .. } => Some(parse_rules),
        Action::Legacy { .. } => None,
    }
}

/// What a list of named entries holds under `name`: the last entry of that
/// name counts.
pub open spec fn lookup<T>(entries: Seq<(String, T)>, name: Seq<char>) -> Option<T>
    decreases entries.len(),
{
    if entries.len() == 0 {
        None
    } else if entries.last().0@ == name {
        Some(entries.last().1)
    } else {
        lookup(entries.drop_last(), name)
    }
}

/// What `entries` holds under `name`.
pub fn find<'a, T>(entries: &'a Vec<(String, T)>, name: &str) -> (found: Option<&'a T>)
    ensures
        referent(found) == lookup(entries@, name@),
{
    let wanted = name.to_owned();
    let mut i: usize = entries.len();
    assert(entries@.take(i as int) == entries@);
    while i > 0
        invariant
            i <= entries.len(),
            wanted@ == name@,
            lookup(entries@, name@) == lookup(entries@.take(i as int), name@),
        decreases i,
    {
        assert(entries@.take(i as int).drop_last() == entries@.take(i - 1));
        if entries[i - 1].0 == wanted {
            return Some(&entries[i - 1].1);
        }
        i -= 1;
    }
    None
}

/// Whether two strings spell the same text.
pub fn same_text(a: &str, b: &str) -> (same: bool)
    ensures
        same == (a@ == b@),
{
    a.to_owned() == b.to_owned()
}

} // verus!
