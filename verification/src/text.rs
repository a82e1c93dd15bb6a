//! Character-level text primitives: conversions between strings and
//! character vectors, trimming, line splitting and separator splitting.
//!
//! Every operation is specified over `Seq<char>`, the view of a string.

use vstd::prelude::*;

verus! {

/// `String::push` appends one character to the end of the string.
pub assume_specification[ std::string::String::push ](s: &mut std::string::String, c: char)
    ensures
        final(s)@ == old(s)@.push(c),
;

/// Whether `c` has the Unicode `White_Space` property.
pub open spec fn is_white_space(c: char) -> bool {
    let n = c as u32;
    ||| 0x09 <= n <= 0x0D
    ||| n == 0x20
    ||| n == 0x85
    ||| n == 0xA0
    ||| n == 0x1680
    ||| 0x2000 <= n <= 0x200A
    ||| n == 0x2028
    ||| n == 0x2029
    ||| n == 0x202F
    ||| n == 0x205F
    ||| n == 0x3000
}

/// `s` without its leading white space.
pub open spec fn trimmed_start(s: Seq<char>) -> Seq<char>
    decreases s.len(),
{
    if s.len() > 0 && is_white_space(s[0]) {
        trimmed_start(s.drop_first())
    } else {
        s
    }
}

/// `s` without its trailing white space.
pub open spec fn trimmed_end(s: Seq<char>) -> Seq<char>
    decreases s.len(),
{
    if s.len() > 0 && is_white_space(s.last()) {
        trimmed_end(s.drop_last())
    } else {
        s
    }
}

/// `s` without leading and trailing white space.
pub open spec fn trimmed(s: Seq<char>) -> Seq<char> {
    trimmed_end(trimmed_start(s))
}

/// Whether `s` is empty or holds white space only.
pub open spec fn is_blank(s: Seq<char>) -> bool {
    trimmed(s).len() == 0
}

/// The number of characters of `s` before its first line feed (all of them
/// when it has none).
pub open spec fn line_len(s: Seq<char>) -> int
    decreases s.len(),
{
    if s.len() == 0 || s[0] == '\n' {
        0
    } else {
        1 + line_len(s.drop_first())
    }
}

/// `s` without one trailing carriage return.
pub open spec fn without_cr(s: Seq<char>) -> Seq<char> {
    if s.len() > 0 && s.last() == '\r' {
        s.drop_last()
    } else {
        s
    }
}

/// The lines of `s`. A line ends at a line feed or at a carriage return
/// directly followed by a line feed; the terminator is not part of the line.
/// A final terminator opens no further line.
pub open spec fn lines_of(s: Seq<char>) -> Seq<Seq<char>>
    decreases s.len(),
{
    if s.len() == 0 {
        seq![]
    } else {
        let n = line_len(s);
        if 0 <= n < s.len() {
            seq![without_cr(s.take(n))] + lines_of(s.skip(n + 1))
        } else {
            seq![s]
        }
    }
}

/// Whether `sep` occurs in `s` at position `i`.
pub open spec fn occurs_at(s: Seq<char>, sep: Seq<char>, i: int) -> bool {
    0 <= i && i + sep.len() <= s.len() && s.subrange(i, i + sep.len()) == sep
}

/// The least position at or after `from` where `sep` occurs in `s`, or -1.
pub open spec fn first_occurrence(s: Seq<char>, sep: Seq<char>, from: int) -> int
    decreases s.len() - from + 1,
{
    if from < 0 || from + sep.len() > s.len() {
        -1
    } else if occurs_at(s, sep, from) {
        from
    } else {
        first_occurrence(s, sep, from + 1)
    }
}

/// The pieces of `s` between the successive occurrences of a non-empty `sep`,
/// each occurrence taken as far left as possible and none overlapping.
pub open spec fn pieces_between(s: Seq<char>, sep: Seq<char>) -> Seq<Seq<char>>
    decreases s.len(),
{
    let i = first_occurrence(s, sep, 0);
    if sep.len() == 0 || i < 0 || i + sep.len() > s.len() {
        seq![s]
    } else {
        seq![s.take(i)] + pieces_between(s.skip(i + sep.len()), sep)
    }
}

/// The pieces of `s` split on `sep`. An empty `sep` separates every two
/// characters and also stands before the first and after the last one.
pub open spec fn pieces(s: Seq<char>, sep: Seq<char>) -> Seq<Seq<char>> {
    if sep.len() == 0 {
        seq![Seq::<char>::empty()] + Seq::new(s.len(), |i: int| seq![s[i]]) + seq![
            Seq::<char>::empty(),
        ]
    } else {
        pieces_between(s, sep)
    }
}

/// `template` with every occurrence of the two characters `\1` replaced by
/// `value`, scanning from the left.
pub open spec fn substituted(template: Seq<char>, value: Seq<char>) -> Seq<char>
    decreases template.len(),
{
    if template.len() == 0 {
        template
    } else if template.len() >= 2 && template[0] == '\\' && template[1] == '1' {
        value + substituted(template.skip(2), value)
    } else {
        seq![template[0]] + substituted(template.drop_first(), value)
    }
}

/// The views of a list of strings.
pub open spec fn views(list: Seq<String>) -> Seq<Seq<char>> {
    list.map_values(|s: String| s@)
}

/// The views of a list with one more string at its end.
pub proof fn lemma_views_push(list: Seq<String>, s: String)
    ensures
        views(list.push(s)) == views(list).push(s@),
{
    assert(views(list.push(s)) =~= views(list).push(s@));
}

/// The characters of `s`, in order.
pub fn chars_of(s: &str) -> (out: Vec<char>)
    ensures
        out@ == s@,
{
    let mut out: Vec<char> = Vec::new();
    for c in it: s.chars()
        invariant
            out@ == it.seq().take(it.index() as int),
            it.seq() == s@,
    {
        out.push(c);
    }
    out
}

/// The string spelled by `v[from..to]`.
pub fn string_of(v: &Vec<char>, from: usize, to: usize) -> (out: String)
    requires
        from <= to <= v.len(),
    ensures
        out@ == v@.subrange(from as int, to as int),
{
    let mut out = String::new();
    let mut i: usize = from;
    while i < to
        invariant
            from <= i <= to <= v.len(),
            out@ == v@.subrange(from as int, i as int),
        decreases to - i,
    {
        out.push(v[i]);
        i += 1;
    }
    out
}

/// Whether `c` is white space.
pub fn is_space(c: char) -> (b: bool)
    ensures
        b == is_white_space(c),
{
    let n: u32 = c as u32;
    (0x09 <= n && n <= 0x0D) || n == 0x20 || n == 0x85 || n == 0xA0 || n == 0x1680 || (0x2000 <= n
        && n <= 0x200A) || n == 0x2028 || n == 0x2029 || n == 0x202F || n == 0x205F || n == 0x3000
}

/// The bounds of `v[from..to]` once trimmed.
fn trim_bounds(v: &Vec<char>, from: usize, to: usize) -> (r: (usize, usize))
    requires
        from <= to <= v.len(),
    ensures
        from <= r.0 <= r.1 <= to,
        v@.subrange(r.0 as int, r.1 as int) == trimmed(v@.subrange(from as int, to as int)),
{
    let mut a: usize = from;
    while a < to && is_space(v[a])
        invariant
            from <= a <= to <= v.len(),
            trimmed_start(v@.subrange(from as int, to as int)) == trimmed_start(
                v@.subrange(a as int, to as int),
            ),
        decreases to - a,
    {
        assert(v@.subrange(a as int, to as int).drop_first() == v@.subrange(a + 1, to as int));
        a += 1;
    }
    let mut b: usize = to;
    while b > a && is_space(v[b - 1])
        invariant
            a <= b <= to <= v.len(),
            trimmed_end(v@.subrange(a as int, to as int)) == trimmed_end(
                v@.subrange(a as int, b as int),
            ),
        decreases b - a,
    {
        assert(v@.subrange(a as int, b as int).drop_last() == v@.subrange(a as int, b - 1));
        b -= 1;
    }
    (a, b)
}

/// `s` without leading and trailing white space.
pub fn trim(s: &str) -> (out: String)
    ensures
        out@ == trimmed(s@),
{
    let v = chars_of(s);
    let (a, b) = trim_bounds(&v, 0, v.len());
    assert(v@.subrange(0, v.len() as int) == v@);
    string_of(&v, a, b)
}

/// The lines of `s`, without their terminators.
pub fn lines(s: &str) -> (out: Vec<String>)
    ensures
        views(out@) == lines_of(s@),
{
    let v = chars_of(s);
    let n = v.len();
    let mut out: Vec<String> = Vec::new();
    let mut start: usize = 0;
    let mut pos: usize = 0;
    assert(v@.skip(0) == v@);
    assert(views(out@) + lines_of(v@) == lines_of(v@));
    while pos < n
        invariant
            start <= pos <= n == v.len(),
            lines_of(v@) == views(out@) + lines_of(v@.skip(start as int)),
            line_len(v@.skip(start as int)) == (pos - start) + line_len(v@.skip(pos as int)),
        decreases n - pos,
    {
        let ghost rest = v@.skip(start as int);
        if v[pos] == '\n' {
            let end = if pos > start && v[pos - 1] == '\r' {
                pos - 1
            } else {
                pos
            };
            let line = string_of(&v, start, end);
            proof {
                assert(line_len(rest) == pos - start);
                assert(rest.take(pos - start) == v@.subrange(start as int, pos as int));
                assert(line@ == without_cr(rest.take(pos - start))) by {
                    if pos > start && v[pos - 1] == '\r' {
                        assert(v@.subrange(start as int, pos as int).drop_last() == v@.subrange(
                            start as int,
                            pos - 1,
                        ));
                    }
                }
                assert(rest.skip(pos - start + 1) == v@.skip(pos + 1));
                lemma_views_push(out@, line);
                assert(views(out@.push(line)) + lines_of(v@.skip(pos + 1)) == views(out@) + (
                seq![line@] + lines_of(v@.skip(pos + 1))));
            }
            out.push(line);
            start = pos + 1;
            pos = start;
        } else {
            assert(v@.skip(pos as int).drop_first() == v@.skip(pos + 1));
            pos += 1;
        }
    }
    if start < n {
        let line = string_of(&v, start, n);
        proof {
            let rest = v@.skip(start as int);
            assert(v@.skip(n as int).len() == 0);
            assert(line_len(rest) == rest.len());
            assert(line@ == rest);
            lemma_views_push(out@, line);
            assert(lines_of(rest) == seq![rest]);
        }
        out.push(line);
    } else {
        assert(v@.skip(start as int).len() == 0);
        assert(views(out@) + Seq::<Seq<char>>::empty() == views(out@));
    }
    out
}

/// Whether `sep` occurs in `v` at position `i`.
fn matches_at(v: &Vec<char>, sep: &Vec<char>, i: usize) -> (b: bool)
    requires
        i + sep.len() <= v.len(),
    ensures
        b == occurs_at(v@, sep@, i as int),
{
    let m = sep.len();
    let mut k: usize = 0;
    while k < m
        invariant
            k <= m == sep.len(),
            i + m <= v.len(),
            v@.subrange(i as int, i + k) == sep@.take(k as int),
        decreases m - k,
    {
        if v[i + k] != sep[k] {
            assert(v@.subrange(i as int, i + m)[k as int] != sep@[k as int]);
            return false;
        }
        assert(v@.subrange(i as int, i + k + 1) == v@.subrange(i as int, i + k).push(
            v@[i + k],
        ));
        assert(sep@.take(k + 1) == sep@.take(k as int).push(sep@[k as int]));
        k += 1;
    }
    assert(sep@.take(m as int) == sep@);
    true
}

/// The pieces of `s` split on `sep`.
pub fn split(s: &str, sep: &str) -> (out: Vec<String>)
    ensures
        views(out@) == pieces(s@, sep@),
{
    let v = chars_of(s);
    let d = chars_of(sep);
    let n = v.len();
    let m = d.len();
    let mut out: Vec<String> = Vec::new();
    if m == 0 {
        out.push(String::new());
        let mut i: usize = 0;
        while i < n
            invariant
                i <= n == v.len(),
                out@.len() == i + 1,
                views(out@) == seq![Seq::<char>::empty()] + Seq::new(
                    i as nat,
                    |k: int| seq![v@[k]],
                ),
            decreases n - i,
        {
            let piece = string_of(&v, i, i + 1);
            proof {
                lemma_views_push(out@, piece);
                assert(piece@ == seq![v@[i as int]]);
                assert(views(out@.push(piece)) == seq![Seq::<char>::empty()] + Seq::new(
                    (i + 1) as nat,
                    |k: int| seq![v@[k]],
                ));
            }
            out.push(piece);
            i += 1;
        }
        let last = String::new();
        proof {
            lemma_views_push(out@, last);
        }
        out.push(last);
        return out;
    }
    let mut start: usize = 0;
    let mut pos: usize = 0;
    assert(v@.skip(0) == v@);
    assert(views(out@) + pieces_between(v@, d@) == pieces_between(v@, d@));
    while m <= n - pos
        invariant
            start <= pos <= n == v.len(),
            0 < m == d.len(),
            pieces_between(v@, d@) == views(out@) + pieces_between(v@.skip(start as int), d@),
            first_occurrence(v@.skip(start as int), d@, 0) == first_occurrence(
                v@.skip(start as int),
                d@,
                pos - start,
            ),
        decreases n - pos,
    {
        let ghost rest = v@.skip(start as int);
        assert(rest.subrange(pos - start, pos - start + m) == v@.subrange(pos as int, pos + m));
        if matches_at(&v, &d, pos) {
            let piece = string_of(&v, start, pos);
            proof {
                assert(first_occurrence(rest, d@, 0) == pos - start);
                assert(rest.take(pos - start) == piece@);
                assert(rest.skip(pos - start + m) == v@.skip(pos + m));
                lemma_views_push(out@, piece);
                assert(views(out@.push(piece)) + pieces_between(v@.skip(pos + m), d@) == views(
                    out@,
                ) + (seq![piece@] + pieces_between(v@.skip(pos + m), d@)));
                assert(v@.skip(pos + m).skip(0) == v@.skip(pos + m));
            }
            out.push(piece);
            start = pos + m;
            pos = start;
        } else {
            pos += 1;
        }
    }
    let piece = string_of(&v, start, n);
    proof {
        let rest = v@.skip(start as int);
        assert(first_occurrence(rest, d@, 0) == -1);
        assert(piece@ == rest);
        lemma_views_push(out@, piece);
    }
    out.push(piece);
    out
}

/// `template` with every `\1` replaced by `value`.
pub fn substitute(template: &str, value: &str) -> (out: String)
    ensures
        out@ == substituted(template@, value@),
{
    let t = chars_of(template);
    let n = t.len();
    let mut out = String::new();
    let mut i: usize = 0;
    assert(t@.skip(0) == t@);
    while i < n
        invariant
            i <= n == t.len(),
            substituted(t@, value@) == out@ + substituted(t@.skip(i as int), value@),
        decreases n - i,
    {
        let ghost rest = t@.skip(i as int);
        if i + 1 < n && t[i] == '\\' && t[i + 1] == '1' {
            let ghost before = out@;
            out.append(value);
            proof {
                assert(rest.skip(2) == t@.skip(i + 2));
                assert(before + (value@ + substituted(t@.skip(i + 2), value@)) == (before
                    + value@) + substituted(t@.skip(i + 2), value@));
            }
            i += 2;
        } else {
            let ghost before = out@;
            out.push(t[i]);
            proof {
                assert(rest.drop_first() == t@.skip(i + 1));
                assert(before + (seq![t@[i as int]] + substituted(t@.skip(i + 1), value@))
                    == before.push(t@[i as int]) + substituted(t@.skip(i + 1), value@));
            }
            i += 1;
        }
    }
    assert(out@ + Seq::<char>::empty() == out@);
    out
}

/// The pieces of a list joined with `sep` between them.
pub open spec fn joined(parts: Seq<Seq<char>>, sep: Seq<char>) -> Seq<char>
    decreases parts.len(),
{
    if parts.len() == 0 {
        Seq::empty()
    } else if parts.len() == 1 {
        parts[0]
    } else {
        parts[0] + sep + joined(parts.drop_first(), sep)
    }
}

/// Trimming the start cuts off leading white space and nothing else: the
/// result is the end of the text from some position on, with only white space
/// before it, and it does not begin with white space.
pub proof fn lemma_trimmed_start(s: Seq<char>)
    ensures
        trimmed_start(s).len() <= s.len(),
        trimmed_start(s) == s.skip(s.len() - trimmed_start(s).len()),
        forall|i: int| 0 <= i < s.len() - trimmed_start(s).len() ==> is_white_space(#[trigger] s[i]),
        trimmed_start(s).len() > 0 ==> !is_white_space(trimmed_start(s)[0]),
    decreases s.len(),
{
    if s.len() > 0 && is_white_space(s[0]) {
        let rest = s.drop_first();
        lemma_trimmed_start(rest);
        let k = rest.len() - trimmed_start(rest).len();
        assert(rest.skip(k) == s.skip(k + 1));
        assert forall|i: int| 0 <= i < s.len() - trimmed_start(s).len() implies is_white_space(
            #[trigger] s[i],
        ) by {
            if i > 0 {
                assert(s[i] == rest[i - 1]);
            }
        }
    } else {
        assert(s.skip(0) == s);
    }
}

/// Trimming the end cuts off trailing white space and nothing else: the
/// result is the start of the text up to some position, with only white
/// space after it, and it does not end with white space.
pub proof fn lemma_trimmed_end(s: Seq<char>)
    ensures
        trimmed_end(s).len() <= s.len(),
        trimmed_end(s) == s.take(trimmed_end(s).len() as int),
        forall|i: int| trimmed_end(s).len() <= i < s.len() ==> is_white_space(#[trigger] s[i]),
        trimmed_end(s).len() > 0 ==> !is_white_space(trimmed_end(s).last()),
    decreases s.len(),
{
    if s.len() > 0 && is_white_space(s.last()) {
        let rest = s.drop_last();
        lemma_trimmed_end(rest);
        assert(rest.take(trimmed_end(rest).len() as int) == s.take(trimmed_end(rest).len() as int));
        assert forall|i: int| trimmed_end(s).len() <= i < s.len() implies is_white_space(
            #[trigger] s[i],
        ) by {
            if i < rest.len() {
                assert(s[i] == rest[i]);
            }
        }
    } else {
        assert(s.take(s.len() as int) == s);
    }
}

/// A trimmed text neither begins nor ends with white space, and is the text
/// itself between two positions outside of which there is only white space.
pub proof fn lemma_trimmed(s: Seq<char>)
    ensures
        ({
            let from = s.len() - trimmed_start(s).len();
            let to = from + trimmed(s).len();
            &&& 0 <= from <= to <= s.len()
            &&& trimmed(s) == s.subrange(from, to)
            &&& forall|i: int| 0 <= i < from ==> is_white_space(#[trigger] s[i])
            &&& forall|i: int| to <= i < s.len() ==> is_white_space(#[trigger] s[i])
            &&& trimmed(s).len() > 0 ==> !is_white_space(trimmed(s)[0]) && !is_white_space(
                trimmed(s).last(),
            )
        }),
{
    lemma_trimmed_start(s);
    let inner = trimmed_start(s);
    lemma_trimmed_end(inner);
    let from = s.len() - inner.len();
    let to = from + trimmed(s).len();
    assert(trimmed(s) == s.subrange(from, to));
    assert forall|i: int| to <= i < s.len() implies is_white_space(#[trigger] s[i]) by {
        assert(s[i] == inner[i - from]);
    }
    if trimmed(s).len() > 0 {
        assert(trimmed(s)[0] == inner[0]);
    }
}

/// `first_occurrence` is the least position at or after `from` where `sep`
/// occurs, and -1 only where there is none.
pub proof fn lemma_first_occurrence(s: Seq<char>, sep: Seq<char>, from: int)
    requires
        0 <= from,
    ensures
        ({
            let i = first_occurrence(s, sep, from);
            &&& i == -1 || (from <= i && occurs_at(s, sep, i))
            &&& forall|j: int| from <= j && (i == -1 || j < i) ==> !occurs_at(s, sep, j)
        }),
    decreases s.len() - from + 1,
{
    if from + sep.len() <= s.len() && !occurs_at(s, sep, from) {
        lemma_first_occurrence(s, sep, from + 1);
    }
}

/// Splitting loses nothing: the pieces, joined with the separator between
/// them, are the text. There is at least one piece.
pub proof fn lemma_pieces_join(s: Seq<char>, sep: Seq<char>)
    requires
        sep.len() > 0,
    ensures
        pieces(s, sep).len() >= 1,
        joined(pieces(s, sep), sep) == s,
    decreases s.len(),
{
    let i = first_occurrence(s, sep, 0);
    lemma_first_occurrence(s, sep, 0);
    if i >= 0 && i + sep.len() <= s.len() {
        let rest = s.skip(i + sep.len());
        lemma_pieces_join(rest, sep);
        let all = pieces(s, sep);
        assert(all == seq![s.take(i)] + pieces(rest, sep));
        assert(all.drop_first() == pieces(rest, sep));
        assert(all[0] == s.take(i));
        assert(s.take(i) + sep + rest == s) by {
            assert(s.subrange(i, i + sep.len()) == sep);
        }
    }
}

/// No piece holds the separator: every occurrence was split on.
pub proof fn lemma_pieces_hold_no_separator(s: Seq<char>, sep: Seq<char>, k: int, at: int)
    requires
        sep.len() > 0,
        0 <= k < pieces(s, sep).len(),
    ensures
        !occurs_at(pieces(s, sep)[k], sep, at),
    decreases s.len(),
{
    let i = first_occurrence(s, sep, 0);
    lemma_first_occurrence(s, sep, 0);
    if i >= 0 && i + sep.len() <= s.len() {
        let rest = s.skip(i + sep.len());
        let all = pieces(s, sep);
        assert(all == seq![s.take(i)] + pieces(rest, sep));
        if k == 0 {
            if occurs_at(s.take(i), sep, at) {
                assert(s.take(i).subrange(at, at + sep.len()) == s.subrange(at, at + sep.len()));
                assert(occurs_at(s, sep, at));
            }
        } else {
            assert(all[k] == pieces(rest, sep)[k - 1]);
            lemma_pieces_hold_no_separator(rest, sep, k - 1, at);
        }
    } else {
        assert(pieces(s, sep) == seq![s]);
        if occurs_at(s, sep, at) {
            assert(false);
        }
    }
}

/// No line holds a line feed.
pub proof fn lemma_lines_hold_no_line_feed(s: Seq<char>, k: int, at: int)
    requires
        0 <= k < lines_of(s).len(),
        0 <= at < lines_of(s)[k].len(),
    ensures
        lines_of(s)[k][at] != '\n',
    decreases s.len(),
{
    lemma_line_len(s);
    let n = line_len(s);
    if n < s.len() {
        let all = lines_of(s);
        assert(all == seq![without_cr(s.take(n))] + lines_of(s.skip(n + 1)));
        if k == 0 {
            assert(all[0][at] == s[at]);
        } else {
            assert(all[k] == lines_of(s.skip(n + 1))[k - 1]);
            lemma_lines_hold_no_line_feed(s.skip(n + 1), k - 1, at);
        }
    } else {
        assert(lines_of(s) == seq![s]);
    }
}

/// `line_len` is the position of the first line feed, or the length of the
/// text where it has none.
pub proof fn lemma_line_len(s: Seq<char>)
    ensures
        0 <= line_len(s) <= s.len(),
        forall|i: int| 0 <= i < line_len(s) ==> #[trigger] s[i] != '\n',
        line_len(s) < s.len() ==> s[line_len(s)] == '\n',
    decreases s.len(),
{
    if s.len() > 0 && s[0] != '\n' {
        let rest = s.drop_first();
        lemma_line_len(rest);
        assert forall|i: int| 0 <= i < line_len(s) implies #[trigger] s[i] != '\n' by {
            if i > 0 {
                assert(s[i] == rest[i - 1]);
            }
        }
    }
}

} // verus!
