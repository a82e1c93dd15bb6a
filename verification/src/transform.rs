//! The value transformer: turns a raw piece of text into a typed value.

use crate::error::{outcome, Failure, ParseError};
use crate::rules::{same_text, text_of};
use crate::text::{chars_of, pieces, split, trim, trimmed, views};
use crate::value::{items_view, Json, Value};
use vstd::prelude::*;

verus! {

/// What `str::to_lowercase` returns for `s`.
pub uninterp spec fn lowercase_of(s: Seq<char>) -> Seq<char>;

/// `str::to_lowercase`: the lowercase form of a text depends on the text
/// alone.
pub assume_specification[ str::to_lowercase ](s: &str) -> (lower: std::string::String)
    ensures
        lower@ == lowercase_of(s@),
;

/// Whether `c` is one of the ten decimal digits.
pub open spec fn is_digit(c: char) -> bool {
    0x30 <= c as u32 <= 0x39
}

/// The number of decimal digits that `s` begins with.
pub open spec fn digits_len(s: Seq<char>) -> int
    decreases s.len(),
{
    if s.len() > 0 && is_digit(s[0]) {
        1 + digits_len(s.drop_first())
    } else {
        0
    }
}

/// `s` without one leading `+` or `-`.
pub open spec fn without_sign(s: Seq<char>) -> Seq<char> {
    if s.len() > 0 && (s[0] == '+' || s[0] == '-') {
        s.drop_first()
    } else {
        s
    }
}

/// Whether `s` is an exponent: `e` or `E`, an optional sign, and one or more
/// digits.
pub open spec fn is_exponent(s: Seq<char>) -> bool {
    let digits = without_sign(s.drop_first());
    s.len() > 0 && (s[0] == 'e' || s[0] == 'E') && digits.len() > 0 && digits_len(digits)
        == digits.len()
}

/// Whether `s` is an unsigned decimal number: digits with at most one point
/// among them, at least one digit in all, then an optional exponent.
pub open spec fn is_decimal(s: Seq<char>) -> bool {
    let whole = digits_len(s);
    let after = s.skip(whole);
    let point = after.len() > 0 && after[0] == '.';
    let fraction = if point {
        digits_len(after.skip(1))
    } else {
        0
    };
    let tail = if point {
        after.skip(1 + fraction)
    } else {
        after
    };
    whole + fraction > 0 && (tail.len() == 0 || is_exponent(tail))
}

/// The code of `c`, with an ASCII capital letter taken as its small letter.
pub open spec fn folded(c: char) -> u32 {
    let n = c as u32;
    if 0x41 <= n <= 0x5A {
        (n + 0x20) as u32
    } else {
        n
    }
}

/// Whether `s` spells `word`, a word in small ASCII letters, in any mix of
/// capital and small letters.
pub open spec fn spells(s: Seq<char>, word: Seq<char>) -> bool {
    s.len() == word.len() && forall|i: int| 0 <= i < s.len() ==> folded(s[i]) == word[i] as u32
}

/// Whether `s` names a number that is not finite: an optional sign, then
/// `inf`, `infinity` or `nan` in any mix of capital and small letters.
pub open spec fn names_no_finite_number(s: Seq<char>) -> bool {
    let body = without_sign(s);
    ||| spells(body, seq!['i', 'n', 'f'])
    ||| spells(body, seq!['i', 'n', 'f', 'i', 'n', 'i', 't', 'y'])
    ||| spells(body, seq!['n', 'a', 'n'])
}

/// Whether `s` is a decimal literal: an optional sign, then an unsigned
/// decimal number.
pub open spec fn is_decimal_literal(s: Seq<char>) -> bool {
    is_decimal(without_sign(s))
}

/// Whether `s` is a literal of a 64-bit floating-point number: a decimal
/// literal, or the name of a number that is not finite.
pub open spec fn is_number_literal(s: Seq<char>) -> bool {
    names_no_finite_number(s) || is_decimal_literal(s)
}

/// The trimmed pieces that are not empty.
pub open spec fn kept(parts: Seq<Seq<char>>) -> Seq<Seq<char>> {
    parts.map_values(|p: Seq<char>| trimmed(p)).filter(|p: Seq<char>| p.len() > 0)
}

/// The items of a comma-separated list: trimmed, the empty ones left out.
pub open spec fn list_items(raw: Seq<char>) -> Seq<Seq<char>> {
    kept(pieces(raw, seq![',']))
}

/// Each text as a string value.
pub open spec fn strings(items: Seq<Seq<char>>) -> Seq<Json> {
    items.map_values(|p: Seq<char>| Json::String(p))
}

/// What a transform of the given kind makes of `raw`.
///
/// `number` takes a number literal: a decimal literal gives the number that
/// it spells, and the name of a number that is not finite gives null, since
/// no JSON number is infinite or undefined. `boolean` takes `true` or
/// `false`; `array` takes a comma-separated list; `mac` gives the lowercase
/// form. Any other kind, or none, gives the text as it is.
pub open spec fn transformed(raw: Seq<char>, kind: Option<Seq<char>>) -> Result<Json, Failure> {
    if kind == Some("number"@) {
        if names_no_finite_number(raw) {
            Ok(Json::Null)
        } else if is_decimal_literal(raw) {
            Ok(Json::Number(raw))
        } else {
            Err(Failure::ValueConversionError("number"@, raw))
        }
    } else if kind == Some("boolean"@) {
        if raw == "true"@ {
            Ok(Json::Bool(true))
        } else if raw == "false"@ {
            Ok(Json::Bool(false))
        } else {
            Err(Failure::ValueConversionError("boolean"@, raw))
        }
    } else if kind == Some("array"@) {
        Ok(Json::Array(strings(list_items(raw))))
    } else if kind == Some("mac"@) {
        Ok(Json::String(lowercase_of(raw)))
    } else {
        Ok(Json::String(raw))
    }
}

/// The name of a number that is not finite is no decimal literal, so the
/// `number` transform never gives a number under such a name.
pub proof fn lemma_no_number_is_not_finite(raw: Seq<char>)
    ensures
        !(names_no_finite_number(raw) && is_decimal_literal(raw)),
        transformed(raw, Some("number"@)) matches Ok(Json::Number(literal)) ==> literal == raw
            && is_decimal_literal(literal) && !names_no_finite_number(literal),
{
    let body = without_sign(raw);
    if names_no_finite_number(raw) {
        assert(body.len() > 0);
        assert(folded(body[0]) == 0x69 || folded(body[0]) == 0x6E);
        assert(!is_digit(body[0]));
        assert(digits_len(body) == 0);
        assert(body.skip(0) == body);
        assert(body[0] != '.');
    }
}

/// One more piece adds its trimmed text to the kept pieces, unless that is
/// empty.
proof fn lemma_kept_push(parts: Seq<Seq<char>>, p: Seq<char>)
    ensures
        kept(parts.push(p)) == if trimmed(p).len() > 0 {
            kept(parts).push(trimmed(p))
        } else {
            kept(parts)
        },
{
    let f = |p: Seq<char>| trimmed(p);
    let g = |p: Seq<char>| p.len() > 0;
    assert(parts.push(p).map_values(f) == parts.map_values(f).push(trimmed(p)));
    Seq::lemma_filter_push(parts.map_values(f), trimmed(p), g);
}

/// One more text adds one more string value.
proof fn lemma_strings_push(items: Seq<Seq<char>>, p: Seq<char>)
    ensures
        strings(items.push(p)) == strings(items).push(Json::String(p)),
{
    assert(strings(items.push(p)) =~= strings(items).push(Json::String(p)));
}

/// Whether `c` is a decimal digit.
fn is_digit_char(c: char) -> (b: bool)
    ensures
        b == is_digit(c),
{
    let n: u32 = c as u32;
    0x30 <= n && n <= 0x39
}

/// The end of the run of digits that begins at `from`.
fn digits_end(v: &Vec<char>, from: usize) -> (end: usize)
    requires
        from <= v.len(),
    ensures
        from <= end <= v.len(),
        end - from == digits_len(v@.skip(from as int)),
{
    let mut end: usize = from;
    while end < v.len() && is_digit_char(v[end])
        invariant
            from <= end <= v.len(),
            digits_len(v@.skip(from as int)) == (end - from) + digits_len(v@.skip(end as int)),
        decreases v.len() - end,
    {
        assert(v@.skip(end as int).drop_first() == v@.skip(end + 1));
        end += 1;
    }
    end
}

/// Whether `v[from..]` spells `word`.
fn spells_from(v: &Vec<char>, from: usize, word: &Vec<char>) -> (b: bool)
    requires
        from <= v.len(),
    ensures
        b == spells(v@.skip(from as int), word@),
{
    if v.len() - from != word.len() {
        return false;
    }
    let mut i: usize = 0;
    while i < word.len()
        invariant
            i <= word.len(),
            from <= v.len(),
            v.len() - from == word.len(),
            forall|k: int| 0 <= k < i ==> folded(v@.skip(from as int)[k]) == word@[k] as u32,
        decreases word.len() - i,
    {
        let n: u32 = v[from + i] as u32;
        let low: u32 = if 0x41 <= n && n <= 0x5A {
            n + 0x20
        } else {
            n
        };
        if low != word[i] as u32 {
            assert(folded(v@.skip(from as int)[i as int]) != word@[i as int] as u32);
            return false;
        }
        i += 1;
    }
    true
}

/// Whether `v[from..]` is an exponent.
fn is_exponent_from(v: &Vec<char>, from: usize) -> (b: bool)
    requires
        from <= v.len(),
    ensures
        b == is_exponent(v@.skip(from as int)),
{
    let n = v.len();
    let ghost tail = v@.skip(from as int);
    if from == n || (v[from] != 'e' && v[from] != 'E') {
        return false;
    }
    assert(tail.drop_first() == v@.skip(from + 1));
    let signed = from + 1 < n && (v[from + 1] == '+' || v[from + 1] == '-');
    let digits_start = if signed {
        assert(v@.skip(from + 1).drop_first() == v@.skip(from + 2));
        from + 2
    } else {
        from + 1
    };
    assert(v@.skip(digits_start as int) == without_sign(tail.drop_first()));
    let digits_stop = digits_end(v, digits_start);
    digits_start < n && digits_stop == n
}

/// Whether `v[from..]` is an unsigned decimal number.
fn is_decimal_from(v: &Vec<char>, from: usize) -> (b: bool)
    requires
        from <= v.len(),
    ensures
        b == is_decimal(v@.skip(from as int)),
{
    let n = v.len();
    let ghost body = v@.skip(from as int);
    let whole_end = digits_end(v, from);
    let ghost after = body.skip(whole_end - from);
    assert(after == v@.skip(whole_end as int));
    if whole_end < n && v[whole_end] == '.' {
        assert(after.skip(1) == v@.skip(whole_end + 1));
        let fraction_end = digits_end(v, whole_end + 1);
        assert(after.skip(1 + (fraction_end - whole_end - 1)) == v@.skip(fraction_end as int));
        if fraction_end - from == 1 {
            return false;
        }
        fraction_end == n || is_exponent_from(v, fraction_end)
    } else {
        if whole_end == from {
            return false;
        }
        whole_end == n || is_exponent_from(v, whole_end)
    }
}

/// The position in `v` after one leading sign.
fn after_sign(v: &Vec<char>) -> (start: usize)
    ensures
        start <= v.len(),
        v@.skip(start as int) == without_sign(v@),
{
    assert(v@.skip(0) == v@);
    if v.len() > 0 && (v[0] == '+' || v[0] == '-') {
        assert(v@.skip(1) == v@.drop_first());
        1
    } else {
        0
    }
}

/// Whether `value` names a number that is not finite.
pub fn is_not_finite(value: &str) -> (b: bool)
    ensures
        b == names_no_finite_number(value@),
{
    let v = chars_of(value);
    let start = after_sign(&v);
    let inf = vec!['i', 'n', 'f'];
    let infinity = vec!['i', 'n', 'f', 'i', 'n', 'i', 't', 'y'];
    let nan = vec!['n', 'a', 'n'];
    assert(inf@ == seq!['i', 'n', 'f']);
    assert(infinity@ == seq!['i', 'n', 'f', 'i', 'n', 'i', 't', 'y']);
    assert(nan@ == seq!['n', 'a', 'n']);
    spells_from(&v, start, &inf) || spells_from(&v, start, &infinity) || spells_from(
        &v,
        start,
        &nan,
    )
}

/// Whether `value` is a decimal literal.
pub fn is_decimal_number(value: &str) -> (b: bool)
    ensures
        b == is_decimal_literal(value@),
{
    let v = chars_of(value);
    let start = after_sign(&v);
    is_decimal_from(&v, start)
}

/// Whether `value` is a number literal.
pub fn is_number(value: &str) -> (b: bool)
    ensures
        b == is_number_literal(value@),
{
    is_not_finite(value) || is_decimal_number(value)
}

/// The items of the comma-separated list `value`.
fn list_of(value: &str) -> (items: Vec<Value>)
    ensures
        items_view(items@) == strings(list_items(value@)),
{
    proof {
        reveal_strlit(",");
        assert(","@ == seq![',']);
    }
    let parts = split(value, ",");
    let mut items: Vec<Value> = Vec::new();
    let mut i: usize = 0;
    assert(views(parts@).take(0) == Seq::<Seq<char>>::empty());
    assert(kept(Seq::<Seq<char>>::empty()) == Seq::<Seq<char>>::empty()) by {
        reveal(Seq::filter);
    }
    assert(strings(Seq::<Seq<char>>::empty()) == Seq::<Json>::empty());
    while i < parts.len()
        invariant
            i <= parts.len(),
            items_view(items@) == strings(kept(views(parts@).take(i as int))),
        decreases parts.len() - i,
    {
        let item = trim(parts[i].as_str());
        let ghost before = views(parts@).take(i as int);
        let ghost old_items = items@;
        proof {
            assert(views(parts@).take(i + 1) == before.push(parts@[i as int]@));
            lemma_kept_push(before, parts@[i as int]@);
            lemma_strings_push(kept(before), item@);
        }
        if !item.as_str().is_empty() {
            items.push(Value::String(item));
            assert(items@.drop_last() == old_items);
            assert(items@.last()@ == Json::String(trimmed(parts@[i as int]@)));
            assert(items_view(items@) == items_view(old_items).push(items@.last()@));
        }
        i += 1;
    }
    assert(views(parts@).take(parts.len() as int) == views(parts@));
    items
}

/// Converts `value` by a transform of kind `kind`.
pub fn transform_value(value: &str, kind: &Option<String>) -> (r: Result<Value, ParseError>)
    ensures
        outcome(r) == transformed(value@, text_of(*kind)),
{
    match kind {
        Some(k) => {
            if same_text(k.as_str(), "number") {
                if is_not_finite(value) {
                    Ok(Value::Null)
                } else if is_decimal_number(value) {
                    Ok(Value::Number(value.to_owned()))
                } else {
                    Err(ParseError::ValueConversionError("number".to_string(), value.to_owned()))
                }
            } else if same_text(k.as_str(), "boolean") {
                if same_text(value, "true") {
                    Ok(Value::Bool(true))
                } else if same_text(value, "false") {
                    Ok(Value::Bool(false))
                } else {
                    Err(
                        ParseError::ValueConversionError(
                            "boolean".to_string(),
                            value.to_owned(),
                        ),
                    )
                }
            } else if same_text(k.as_str(), "array") {
                Ok(Value::Array(list_of(value)))
            } else if same_text(k.as_str(), "mac") {
                Ok(Value::String(value.to_lowercase()))
            } else {
                Ok(Value::String(value.to_owned()))
            }
        },
        None => Ok(Value::String(value.to_owned())),
    }
}

} // verus!
