//! The output parser: picks the rule set of an action and interprets text
//! by it.

use crate::combine::{
    array_of, assemble_from, collect_from, lemma_entries_push, lemma_items_push, Outcome, present,
};
use crate::error::{outcome, Failure, ParseError};
use crate::object::{extract_field, object_fields, object_in};
use crate::pattern::{captures, compiled};
use crate::properties::{
    array_field, array_fields, build_mapping, build_property_element, correlated, gathered_in,
    has_later, mapping_fields, properties_in, properties_of, property_pattern_of, record,
};
use crate::rules::{
    find, lookup, referent, rule_set, rule_set_of, same_text, Action, ArrayPattern, ParseRules,
    PatternRule, TableFormat,
};
use crate::table::{build_row, data_lines, rows, table_in};
use crate::text::{is_blank, lines, lines_of, pieces, split, trim, views};
use crate::value::{entries_view, items_view, Json, Value};
use vstd::prelude::*;

verus! {

/// What separates two items in array mode: the separator of the rules, or
/// two line feeds.
pub open spec fn separator_of(separator: Option<String>) -> Seq<char> {
    match separator {
        Some(s) => s@,
        None => "\n\n"@,
    }
}

/// The outcome of each segment in array mode: no item for a blank segment,
/// else the object that the patterns take from the segment.
pub open spec fn segment_objects(
    patterns: Option<Vec<(String, PatternRule)>>,
    segments: Seq<Seq<char>>,
) -> Seq<Outcome> {
    Seq::new(
        segments.len(),
        |i: int|
            if is_blank(segments[i]) {
                Ok(None)
            } else {
                present(object_in(patterns, segments[i]))
            },
    )
}

/// The array that `rules` take from `text` in array mode.
pub open spec fn array_in(rules: ParseRules, text: Seq<char>) -> Result<Json, Failure> {
    array_of(segment_objects(rules.patterns, pieces(text, separator_of(rules.separator))))
}

/// What `rules` make of `text`: the result of the mode that they name, and a
/// failure for any other mode.
pub open spec fn structured(
    rules: ParseRules,
    formats: Seq<(String, TableFormat)>,
    text: Seq<char>,
) -> Result<Json, Failure> {
    if rules.parse_type@ == "object"@ {
        object_in(rules.patterns, text)
    } else if rules.parse_type@ == "array"@ {
        array_in(rules, text)
    } else if rules.parse_type@ == "properties"@ {
        properties_in(rules, text)
    } else if rules.parse_type@ == "table"@ {
        table_in(rules, formats, text)
    } else {
        Err(Failure::UnsupportedMode)
    }
}

/// The message of the diagnostic for an action that goes by its exit code.
pub open spec fn exit_code_message() -> Seq<char> {
    "Legacy CPI action does not support output parsing via API. Success/failure is determined by exit code only."@
}

/// The message of the diagnostic for an action with a grep directive.
pub open spec fn grep_message() -> Seq<char> {
    "Legacy CPI action uses grep-based output parsing which is not supported via API. Please update to new parse_rules format."@
}

/// The message of the diagnostic for an action with no way of parsing.
pub open spec fn no_parsing_message() -> Seq<char> {
    "Legacy CPI action does not support output parsing via API."@
}

/// An object of two fields: `error` with a message, and one more.
pub open spec fn report(message: Seq<char>, key: Seq<char>, detail: Json) -> Json {
    Json::Object(Map::empty().insert("error"@, Json::String(message)).insert(key, detail))
}

/// The diagnostic for an action without a rule set. An exit code comes
/// first, then a grep directive; with neither, the text is handed back.
pub open spec fn diagnostic(action: Action, text: Seq<char>) -> Json {
    match action {
        Action::Legacy { success_exit_code: Some(code), .. } => report(
            exit_code_message(),
            "exit_code_required"@,
            Json::Integer(code as int),
        ),
        Action::Legacy { success_exit_code: None, parse_output: Some(directive), .. } => report(
            grep_message(),
            "grep_command"@,
            Json::String(directive@),
        ),
        _ => report(no_parsing_message(), "raw_output"@, Json::String(text)),
    }
}

/// What a parser with the given rule set and formats makes of `text`.
pub open spec fn parsed(
    rules: Option<ParseRules>,
    formats: Seq<(String, TableFormat)>,
    text: Seq<char>,
    action: Action,
) -> Result<Json, Failure> {
    match rules {
        Some(rules) => structured(rules, formats, text),
        None => Ok(diagnostic(action, text)),
    }
}

/// An object of two fields: `error` with a message, and one more.
fn make_report(message: &str, key: &str, detail: Value) -> (v: Value)
    ensures
        v@ == report(message@, key@, detail@),
{
    let mut entries: Vec<(String, Value)> = Vec::new();
    let first = Value::String(message.to_owned());
    let error = "error".to_owned();
    let name = key.to_owned();
    proof {
        lemma_entries_push(entries@, error, first);
        lemma_entries_push(entries@.push((error, first)), name, detail);
    }
    entries.push((error, first));
    entries.push((name, detail));
    Value::Object(entries)
}

/// The diagnostic for an action without a rule set.
pub fn diagnose(action: &Action, output: &str) -> (v: Value)
    ensures
        v@ == diagnostic(*action, output@),
{
    match action {
        Action::Legacy { success_exit_code: Some(code), .. } => make_report(
            "Legacy CPI action does not support output parsing via API. Success/failure is determined by exit code only.",
            "exit_code_required",
            Value::Integer(*code as i64),
        ),
        Action::Legacy { success_exit_code: None, parse_output: Some(directive), .. } => make_report(
            "Legacy CPI action uses grep-based output parsing which is not supported via API. Please update to new parse_rules format.",
            "grep_command",
            Value::String(directive.clone()),
        ),
        _ => make_report(
            "Legacy CPI action does not support output parsing via API.",
            "raw_output",
            Value::String(output.to_owned()),
        ),
    }
}

/// Interprets the output of an action by the rule set of that action.
pub struct OutputParser<'a> {
    rules: Option<&'a ParseRules>,
    table_formats: Vec<(String, TableFormat)>,
}

impl<'a> OutputParser<'a> {
    /// The rule set of the parser, if it has one.
    pub closed spec fn rules(&self) -> Option<ParseRules> {
        referent(self.rules)
    }

    /// The table formats of the parser, by name.
    pub closed spec fn formats(&self) -> Seq<(String, TableFormat)> {
        self.table_formats@
    }

    /// A parser for `action`, with the rule set of the action and the table
    /// formats given.
    pub fn new(action: &'a Action, table_formats: Vec<(String, TableFormat)>) -> (parser: Self)
        ensures
            parser.rules() == rule_set_of(*action),
            parser.formats() == table_formats@,
    {
        OutputParser { rules: rule_set(action), table_formats }
    }

    /// Interprets `output`. With a rule set, the result is what the mode of
    /// the rules takes from the text. Without one, nothing is parsed and the
    /// result is the diagnostic for `action`.
    pub fn parse(&self, output: &str, action: &Action) -> (r: Result<Value, ParseError>)
        ensures
            outcome(r) == parsed(self.rules(), self.formats(), output@, *action),
    {
        match self.rules {
            Some(rules) => {
                if same_text(rules.parse_type.as_str(), "object") {
                    self.parse_object(output)
                } else if same_text(rules.parse_type.as_str(), "array") {
                    self.parse_array(output)
                } else if same_text(rules.parse_type.as_str(), "properties") {
                    self.parse_properties(output)
                } else if same_text(rules.parse_type.as_str(), "table") {
                    self.parse_table(output)
                } else {
                    Err(ParseError::UnsupportedMode)
                }
            },
            None => Ok(diagnose(action, output)),
        }
    }

    /// Object mode: one field for each pattern rule that gives a value.
    fn parse_object(&self, output: &str) -> (r: Result<Value, ParseError>)
        requires
            self.rules() is Some,
        ensures
            outcome(r) == object_in(self.rules()->0.patterns, output@),
    {
        let rules = self.rules.unwrap();
        let mut entries: Vec<(String, Value)> = Vec::new();
        match &rules.patterns {
            None => {},
            Some(patterns) => {
                let ghost outcomes = object_fields(patterns@, output@);
                let mut i: usize = 0;
                while i < patterns.len()
                    invariant
                        i <= patterns.len(),
                        self.rules() == Some(*rules),
                        rules.patterns == Some(*patterns),
                        outcomes == object_fields(patterns@, output@),
                        assemble_from(outcomes, 0, Map::empty()) == assemble_from(
                            outcomes,
                            i as int,
                            entries_view(entries@),
                        ),
                    decreases patterns.len() - i,
                {
                    let name = &patterns[i].0;
                    match extract_field(name.as_str(), &patterns[i].1, output)? {
                        Some(v) => {
                            proof {
                                lemma_entries_push(entries@, *name, v);
                            }
                            entries.push((name.clone(), v));
                        },
                        None => {},
                    }
                    i += 1;
                }
            },
        }
        Ok(Value::Object(entries))
    }

    /// Array mode: one object for each segment of the text that is not blank.
    fn parse_array(&self, output: &str) -> (r: Result<Value, ParseError>)
        requires
            self.rules() is Some,
        ensures
            outcome(r) == array_in(self.rules()->0, output@),
    {
        let rules = self.rules.unwrap();
        let segments = match &rules.separator {
            Some(separator) => split(output, separator.as_str()),
            None => split(output, "\n\n"),
        };
        let ghost outcomes = segment_objects(rules.patterns, views(segments@));
        let mut items: Vec<Value> = Vec::new();
        let mut i: usize = 0;
        while i < segments.len()
            invariant
                i <= segments.len(),
                self.rules() == Some(*rules),
                views(segments@) == pieces(output@, separator_of(rules.separator)),
                outcomes == segment_objects(rules.patterns, views(segments@)),
                collect_from(outcomes, 0, Seq::empty()) == collect_from(
                    outcomes,
                    i as int,
                    items_view(items@),
                ),
            decreases segments.len() - i,
        {
            assert(views(segments@)[i as int] == segments@[i as int]@);
            if !trim(segments[i].as_str()).as_str().is_empty() {
                let item = self.parse_object(segments[i].as_str())?;
                proof {
                    lemma_items_push(items@, item);
                }
                items.push(item);
            }
            i += 1;
        }
        Ok(Value::Array(items))
    }

    /// Table mode: one object for each data line whose columns fit the
    /// headers of the named format.
    fn parse_table(&self, output: &str) -> (r: Result<Value, ParseError>)
        requires
            self.rules() is Some,
        ensures
            outcome(r) == table_in(self.rules()->0, self.formats(), output@),
    {
        let rules = self.rules.unwrap();
        let name = match &rules.format_type {
            None => {
                return Err(ParseError::MissingFormatName);
            },
            Some(name) => name,
        };
        let format = match find(&self.table_formats, name.as_str()) {
            None => {
                return Err(ParseError::TableFormatNotFound(name.clone()));
            },
            Some(format) => format,
        };
        let all = lines(output);
        let start = if format.skip_lines < all.len() {
            format.skip_lines
        } else {
            all.len()
        };
        let ghost data = data_lines(output@, format.skip_lines as int);
        let ghost outcomes = rows(*format, rules.transformers, data);
        let mut items: Vec<Value> = Vec::new();
        let mut i: usize = start;
        while i < all.len()
            invariant
                start <= i <= all.len(),
                self.rules() == Some(*rules),
                rules.format_type == Some(*name),
                lookup(self.formats(), name@) == Some(*format),
                views(all@) == lines_of(output@),
                data == data_lines(output@, format.skip_lines as int),
                data.len() == all.len() - start,
                forall|k: int| 0 <= k < data.len() ==> data[k] == views(all@)[start + k],
                outcomes == rows(*format, rules.transformers, data),
                collect_from(outcomes, 0, Seq::empty()) == collect_from(
                    outcomes,
                    i - start,
                    items_view(items@),
                ),
            decreases all.len() - i,
        {
            assert(views(all@)[i as int] == all@[i as int]@);
            assert(data[i - start] == all@[i as int]@);
            match build_row(format, &rules.transformers, all[i].as_str())? {
                Some(row) => {
                    proof {
                        lemma_items_push(items@, row);
                    }
                    items.push(row);
                },
                None => {},
            }
            i += 1;
        }
        Ok(Value::Array(items))
    }

    /// Properties mode: gathers the properties of the lines, then builds the
    /// array fields and the mapped fields from them.
    fn parse_properties(&self, output: &str) -> (r: Result<Value, ParseError>)
        requires
            self.rules() is Some,
        ensures
            outcome(r) == properties_in(self.rules()->0, output@),
    {
        let rules = self.rules.unwrap();
        let pattern: String = match &rules.property_pattern {
            Some(p) => p.clone(),
            None => "^([^=]+)=\"(.*)\"$".to_string(),
        };
        assert(pattern@ == property_pattern_of(*rules));
        let re = match regex::Regex::new(pattern.as_str()) {
            Err(_) => {
                return Err(ParseError::RegexCompileError(pattern));
            },
            Ok(re) => re,
        };

        let all = lines(output);
        let mut gathered: Vec<(String, String)> = Vec::new();
        let mut i: usize = 0;
        assert(views(all@).take(0) == Seq::<Seq<char>>::empty());
        while i < all.len()
            invariant
                i <= all.len(),
                compiled(pattern@) == Ok::<regex::Regex, regex::Error>(re),
                gathered.deep_view() == properties_of(pattern@, views(all@).take(i as int)),
            decreases all.len() - i,
        {
            let ghost before = views(all@).take(i as int);
            let ghost pairs = gathered.deep_view();
            assert(views(all@).take(i + 1).drop_last() == before);
            assert(views(all@).take(i + 1).last() == all@[i as int]@);
            let row = trim(all[i].as_str());
            if !row.as_str().is_empty() {
                let found = captures(&re, row.as_str());
                match record(&found) {
                    Some(pair) => {
                        gathered.push(pair);
                        assert(gathered.deep_view() == pairs + seq![(pair.0@, pair.1@)]);
                    },
                    None => {},
                }
            }
            i += 1;
        }
        assert(views(all@).take(all.len() as int) == views(all@));
        let ghost pairs = gathered.deep_view();
        assert(pairs == gathered_in(pattern@, output@));

        let mut entries: Vec<(String, Value)> = Vec::new();
        let ghost arrays = array_fields(rules.array_patterns, pairs);
        match &rules.array_patterns {
            None => {},
            Some(patterns) => {
                let mut k: usize = 0;
                while k < patterns.len()
                    invariant
                        k <= patterns.len(),
                        self.rules() == Some(*rules),
                        rules.array_patterns == Some(*patterns),
                        pattern@ == property_pattern_of(*rules),
                        compiled(pattern@) is Ok,
                        pairs == gathered.deep_view(),
                        pairs == gathered_in(pattern@, output@),
                        arrays == array_fields(rules.array_patterns, pairs),
                        assemble_from(arrays, 0, Map::empty()) == assemble_from(
                            arrays,
                            k as int,
                            entries_view(entries@),
                        ),
                    decreases patterns.len() - k,
                {
                    let name = &patterns[k].0;
                    let items = correlate(&patterns[k].1, &gathered)?;
                    proof {
                        lemma_entries_push(entries@, *name, items);
                    }
                    entries.push((name.clone(), items));
                    k += 1;
                }
            },
        }
        let ghost base = entries_view(entries@);
        let ghost mapped = mapping_fields(rules.mappings, pairs);
        match &rules.mappings {
            None => {},
            Some(mappings) => {
                let mut k: usize = 0;
                while k < mappings.len()
                    invariant
                        k <= mappings.len(),
                        self.rules() == Some(*rules),
                        rules.mappings == Some(*mappings),
                        pattern@ == property_pattern_of(*rules),
                        compiled(pattern@) is Ok,
                        pairs == gathered.deep_view(),
                        pairs == gathered_in(pattern@, output@),
                        assemble_from(array_fields(rules.array_patterns, pairs), 0, Map::empty())
                            == Ok::<Map<Seq<char>, Json>, Failure>(base),
                        mapped == mapping_fields(rules.mappings, pairs),
                        assemble_from(mapped, 0, base) == assemble_from(
                            mapped,
                            k as int,
                            entries_view(entries@),
                        ),
                    decreases mappings.len() - k,
                {
                    let name = &mappings[k].0;
                    match build_mapping(&mappings[k].1, &gathered)? {
                        Some(v) => {
                            proof {
                                lemma_entries_push(entries@, *name, v);
                            }
                            entries.push((name.clone(), v));
                        },
                        None => {},
                    }
                    k += 1;
                }
            },
        }
        Ok(Value::Object(entries))
    }
}

/// The array field of one array pattern: one element for each gathered pair
/// that counts and whose key matches the key pattern.
fn correlate(pattern: &ArrayPattern, gathered: &Vec<(String, String)>) -> (r: Result<
    Value,
    ParseError,
>)
    ensures
        present(outcome(r)) == array_field(*pattern, gathered.deep_view()),
{
    let key_re = match regex::Regex::new(pattern.key_pattern.as_str()) {
        Err(_) => {
            return Err(ParseError::RegexCompileError(pattern.key_pattern.clone()));
        },
        Ok(re) => re,
    };
    let ghost pairs = gathered.deep_view();
    let ghost outcomes = correlated(*pattern, pairs);
    let mut items: Vec<Value> = Vec::new();
    let mut i: usize = 0;
    while i < gathered.len()
        invariant
            i <= gathered.len(),
            compiled(pattern.key_pattern@) == Ok::<regex::Regex, regex::Error>(key_re),
            pairs == gathered.deep_view(),
            outcomes == correlated(*pattern, pairs),
            collect_from(outcomes, 0, Seq::empty()) == collect_from(
                outcomes,
                i as int,
                items_view(items@),
            ),
        decreases gathered.len() - i,
    {
        assert(pairs[i as int] == (gathered@[i as int].0@, gathered@[i as int].1@));
        if !has_later(gathered, i) {
            let found = captures(&key_re, gathered[i].0.as_str());
            match &found {
                Some(groups) => {
                    let element = build_property_element(
                        &pattern.fields,
                        groups,
                        gathered[i].1.as_str(),
                        gathered,
                    )?;
                    proof {
                        lemma_items_push(items@, element);
                    }
                    items.push(element);
                },
                None => {},
            }
        }
        i += 1;
    }
    Ok(Value::Array(items))
}

} // verus!
