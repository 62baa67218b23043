//! The text form of a Render Configuration: a TOML document.
//!
//! The document holds top-level `frame_width`, `frame_height` and
//! `frames_per_second`, a `[theme]` table (`name` and the `#RRGGBB` colors
//! `background_color`, `entity_color`, `contributor_color`), a `[layout]`
//! table (`kind = "repository_graph"`, `entity_spacing`,
//! `settle_iterations`), and an optional `[filters]` table with
//! `included_paths`. Values are integers, basic strings without escapes,
//! `true`/`false`, or one-line arrays of strings; a `#` starts a comment.

use vstd::prelude::*;

use crate::config::{
    EntityCountThreshold, EntitySpacing, ExplicitPathFilter, FrameSize, FramesPerSecond, HexColor,
    Layout, LevelOfDetailPolicy, RenderConfiguration, RenderConfigurationView,
    RepositoryGraphLayout, SettleIterations, Theme, VisualMetaphor, DEFAULT_DENSE_DIRECTORY_THRESHOLD,
};
use crate::text::{
    digits_value,
    chars_of, first_index_of, is_white_space, lemma_first_index_of, string_from_chars, trim,
    trim_start, trimmed_range, white_space,
};

verus! {

/// A value of the document.
pub enum ValueView {
    Integer(int),
    Text(Seq<char>),
    Boolean(bool),
    TextArray(Seq<Seq<char>>),
}

/// What one line of the document is.
pub enum LineView {
    /// Blank, or only a comment.
    Blank,
    /// A `[table]` header.
    Table(Seq<char>),
    /// A `key = value` entry.
    Entry(Seq<char>, ValueView),
    /// Not valid; why.
    Malformed(Seq<char>),
}

/// A letter, digit, `_` or `-`.
pub open spec fn is_bare_key_char(c: char) -> bool {
    ('a' <= c && c <= 'z') || ('A' <= c && c <= 'Z') || ('0' <= c && c <= '9') || c == '_' || c == '-'
}

/// A non-empty run of bare key characters.
pub open spec fn is_bare_key(k: Seq<char>) -> bool {
    k.len() > 0 && forall|i: int| 0 <= i < k.len() ==> is_bare_key_char(#[trigger] k[i])
}

/// Nothing but white space, or a comment.
pub open spec fn is_line_end(r: Seq<char>) -> bool {
    trim_start(r).len() == 0 || trim_start(r)[0] == '#'
}

/// A basic string at the start of `t`: its text and what follows it.
pub open spec fn parse_string(t: Seq<char>) -> Option<(Seq<char>, Seq<char>)> {
    if t.len() == 0 || t[0] != '"' {
        None
    } else {
        let k = first_index_of(t.drop_first(), '"');
        if k < 0 {
            None
        } else {
            let text = t.drop_first().take(k);
            if first_index_of(text, '\\') >= 0 {
                None
            } else {
                Some((text, t.skip(k + 2)))
            }
        }
    }
}

/// The strings of an array after its `[`, and what follows its `]`.
pub open spec fn parse_array_items(t: Seq<char>) -> Option<(Seq<Seq<char>>, Seq<char>)>
    decreases t.len(),
{
    let u = trim_start(t);
    if u.len() > 0 && u[0] == ']' {
        Some((Seq::empty(), u.drop_first()))
    } else {
        match parse_string(u) {
            None => None,
            Some((x, r)) => {
                let r2 = trim_start(r);
                if r2.len() > 0 && r2[0] == ']' {
                    Some((seq![x], r2.drop_first()))
                } else if r2.len() > 0 && r2[0] == ',' {
                    proof {
                        lemma_parse_string_shrinks(u);
                        lemma_trim_start_shrinks(t);
                        lemma_trim_start_shrinks(r);
                    }
                    match parse_array_items(r2.drop_first()) {
                        None => None,
                        Some((xs, rest)) => Some((seq![x] + xs, rest)),
                    }
                } else {
                    None
                }
            }
        }
    }
}

/// The number of decimal digits at the start of `t`.
pub open spec fn digit_run(t: Seq<char>) -> int
    decreases t.len(),
{
    if t.len() > 0 && '0' <= t[0] && t[0] <= '9' {
        1 + digit_run(t.drop_first())
    } else {
        0
    }
}

/// An integer at the start of `t` (an optional sign, then digits): its
/// value and what follows it.
pub open spec fn parse_integer(t: Seq<char>) -> Option<(int, Seq<char>)> {
    let sign_len: int = if t.len() > 0 && (t[0] == '-' || t[0] == '+') {
        1
    } else {
        0
    };
    let body = t.skip(sign_len);
    let n = digit_run(body);
    if n == 0 {
        None
    } else {
        let magnitude = digits_value(body.take(n));
        Some((if sign_len == 1 && t[0] == '-' {
            -magnitude
        } else {
            magnitude
        }, body.skip(n)))
    }
}

/// A value at the start of `t`, and what follows it.
pub open spec fn parse_value(t: Seq<char>) -> Option<(ValueView, Seq<char>)> {
    if t.len() > 0 && t[0] == '"' {
        match parse_string(t) {
            Some((x, r)) => Some((ValueView::Text(x), r)),
            None => None,
        }
    } else if t.len() > 0 && t[0] == '[' {
        match parse_array_items(t.drop_first()) {
            Some((xs, r)) => Some((ValueView::TextArray(xs), r)),
            None => None,
        }
    } else if t.len() >= 4 && t.take(4) == "true"@ {
        Some((ValueView::Boolean(true), t.skip(4)))
    } else if t.len() >= 5 && t.take(5) == "false"@ {
        Some((ValueView::Boolean(false), t.skip(5)))
    } else {
        match parse_integer(t) {
            Some((n, r)) => Some((ValueView::Integer(n), r)),
            None => None,
        }
    }
}

/// What a line of the document is.
pub open spec fn classify(line: Seq<char>) -> LineView {
    let t = trim(line);
    if t.len() == 0 || t[0] == '#' {
        LineView::Blank
    } else if t[0] == '[' {
        let k = first_index_of(t, ']');
        if k < 0 {
            LineView::Malformed("a table header needs a closing `]`"@)
        } else {
            let name = trim(t.subrange(1, k));
            if !is_bare_key(name) {
                LineView::Malformed("a table name is letters, digits, `_` or `-`"@)
            } else if !is_line_end(t.skip(k + 1)) {
                LineView::Malformed("unexpected text after a table header"@)
            } else {
                LineView::Table(name)
            }
        }
    } else {
        let k = first_index_of(t, '=');
        if k < 0 {
            LineView::Malformed("expected `key = value`"@)
        } else {
            let key = trim(t.take(k));
            let v = trim(t.skip(k + 1));
            if !is_bare_key(key) {
                LineView::Malformed("a key is letters, digits, `_` or `-`"@)
            } else if v.len() == 0 {
                LineView::Malformed("expected a value after `=`"@)
            } else {
                match parse_value(v) {
                    None => LineView::Malformed("unsupported value"@),
                    Some((value, rest)) => if !is_line_end(rest) {
                        LineView::Malformed("unexpected text after a value"@)
                    } else if value is Integer && !(i64::MIN <= value->Integer_0 <= i64::MAX) {
                        LineView::Malformed("integer out of range"@)
                    } else {
                        LineView::Entry(key, value)
                    },
                }
            }
        }
    }
}

pub proof fn lemma_trim_start_shrinks(t: Seq<char>)
    ensures
        trim_start(t).len() <= t.len(),
        exists|k: int| 0 <= k <= t.len() && trim_start(t) == #[trigger] t.skip(k),
    decreases t.len(),
{
    if t.len() > 0 && is_white_space(t[0]) {
        lemma_trim_start_shrinks(t.drop_first());
        let k = choose|k: int| 0 <= k <= t.drop_first().len() && trim_start(t.drop_first()) == #[trigger] t.drop_first().skip(k);
        assert(t.drop_first().skip(k) =~= t.skip(k + 1));
    } else {
        assert(t.skip(0) =~= t);
    }
}

pub proof fn lemma_parse_string_shrinks(t: Seq<char>)
    ensures
        parse_string(t) matches Some((x, r)) ==> r.len() < t.len(),
{
    if parse_string(t) is Some {
        lemma_first_index_of(t.drop_first(), '"');
    }
}

/// A value of the document.
#[derive(Debug, Clone, PartialEq, Eq)]
pub enum ConfigValue {
    /// An integer.
    Integer(i64),
    /// A basic string.
    Text(String),
    /// `true` or `false`.
    Boolean(bool),
    /// An array of strings.
    TextArray(Vec<String>),
}

/// The view of a value.
pub open spec fn value_view(v: ConfigValue) -> ValueView {
    match v {
        ConfigValue::Integer(n) => ValueView::Integer(n as int),
        ConfigValue::Text(t) => ValueView::Text(t@),
        ConfigValue::Boolean(b) => ValueView::Boolean(b),
        ConfigValue::TextArray(xs) => ValueView::TextArray(crate::text::texts(xs@)),
    }
}

/// The characters of `v` from `a` up to `b`.
fn chars_between(v: &Vec<char>, a: usize, b: usize) -> (r: Vec<char>)
    requires
        a <= b <= v.len(),
    ensures
        r@ == v@.subrange(a as int, b as int),
{
    let mut r: Vec<char> = Vec::new();
    let mut i: usize = a;
    while i < b
        invariant
            a <= i <= b <= v.len(),
            r@ == v@.subrange(a as int, i as int),
        decreases b - i,
    {
        r.push(v[i]);
        assert(v@.subrange(a as int, i + 1) =~= v@.subrange(a as int, i as int).push(v@[i as int]));
        i = i + 1;
    }
    r
}

/// `v` without leading white space.
fn trim_start_of(v: &Vec<char>) -> (r: Vec<char>)
    ensures
        r@ == trim_start(v@),
{
    let mut a: usize = 0;
    assert(v@.skip(0) =~= v@);
    while a < v.len() && white_space(v[a])
        invariant
            a <= v.len(),
            trim_start(v@) == trim_start(v@.skip(a as int)),
        decreases v.len() - a,
    {
        assert(v@.skip(a as int).drop_first() =~= v@.skip(a + 1));
        a = a + 1;
    }
    assert(v@.skip(a as int) =~= v@.subrange(a as int, v.len() as int));
    chars_between(v, a, v.len())
}

/// Index of the first `c` in `v`.
fn first_index(v: &Vec<char>, c: char) -> (r: Option<usize>)
    ensures
        r is None <==> first_index_of(v@, c) < 0,
        r matches Some(i) ==> i == first_index_of(v@, c) && i < v.len(),
{
    proof {
        lemma_first_index_of(v@, c);
    }
    let mut i: usize = 0;
    while i < v.len()
        invariant
            i <= v.len(),
            forall|j: int| 0 <= j < i ==> v@[j] != c,
        decreases v.len() - i,
    {
        if v[i] == c {
            proof {
                lemma_first_index_of(v@, c);
                let k = first_index_of(v@, c);
                if k < 0 || k > i {
                    assert(v@[i as int] != c);
                }
                if 0 <= k < i {
                    assert(v@[k] == c);
                }
            }
            return Some(i);
        }
        i = i + 1;
    }
    proof {
        let k = first_index_of(v@, c);
        if k >= 0 {
            assert(v@[k] == c);
        }
    }
    None
}

/// A basic string at the start of `t`.
fn string_at(t: &Vec<char>) -> (r: Option<(Vec<char>, Vec<char>)>)
    ensures
        match parse_string(t@) {
            None => r is None,
            Some((x, rest)) => r matches Some(p) && p.0@ == x && p.1@ == rest,
        },
{
    if t.len() == 0 || t[0] != '"' {
        return None;
    }
    let inner = chars_between(t, 1, t.len());
    assert(inner@ =~= t@.drop_first());
    match first_index(&inner, '"') {
        None => None,
        Some(k) => {
            let text = chars_between(&inner, 0, k);
            assert(text@ =~= t@.drop_first().take(k as int));
            if first_index(&text, '\\').is_some() {
                return None;
            }
            let rest = chars_between(t, k + 2, t.len());
            assert(rest@ =~= t@.skip(k + 2));
            Some((text, rest))
        },
    }
}

/// The strings of an array after its `[`.
fn array_items_at(t: &Vec<char>) -> (r: Option<(Vec<String>, Vec<char>)>)
    ensures
        match parse_array_items(t@) {
            None => r is None,
            Some((xs, rest)) => r matches Some(p) && crate::text::texts(p.0@) == xs && p.1@ == rest,
        },
    decreases t@.len(),
{
    let u = trim_start_of(t);
    if u.len() > 0 && u[0] == ']' {
        let rest = chars_between(&u, 1, u.len());
        assert(rest@ =~= u@.drop_first());
        let empty: Vec<String> = Vec::new();
        assert(crate::text::texts(empty@) =~= Seq::<Seq<char>>::empty());
        return Some((empty, rest));
    }
    match string_at(&u) {
        None => None,
        Some((x, r)) => {
            let r2 = trim_start_of(&r);
            if r2.len() > 0 && r2[0] == ']' {
                let rest = chars_between(&r2, 1, r2.len());
                assert(rest@ =~= r2@.drop_first());
                let mut xs: Vec<String> = Vec::new();
                xs.push(string_from_chars(&x));
                assert(crate::text::texts(xs@) =~= seq![x@]);
                Some((xs, rest))
            } else if r2.len() > 0 && r2[0] == ',' {
                let after = chars_between(&r2, 1, r2.len());
                assert(after@ =~= r2@.drop_first());
                proof {
                    lemma_parse_string_shrinks(u@);
                    lemma_trim_start_shrinks(t@);
                    lemma_trim_start_shrinks(r@);
                }
                match array_items_at(&after) {
                    None => None,
                    Some((more, rest)) => {
                        let mut xs: Vec<String> = Vec::new();
                        xs.push(string_from_chars(&x));
                        let mut i: usize = 0;
                        while i < more.len()
                            invariant
                                i <= more@.len(),
                                crate::text::texts(xs@) == seq![x@] + crate::text::texts(more@).take(i as int),
                            decreases more@.len() - i,
                        {
                            let ghost before = xs@;
                            xs.push(more[i].clone());
                            assert(crate::text::texts(xs@) =~= crate::text::texts(before).push(more@[i as int]@));
                            assert(crate::text::texts(more@).take(i + 1) =~= crate::text::texts(more@).take(i as int).push(
                                more@[i as int]@,
                            ));
                            i = i + 1;
                        }
                        assert(crate::text::texts(more@).take(more@.len() as int) =~= crate::text::texts(more@));
                        Some((xs, rest))
                    },
                }
            } else {
                None
            }
        },
    }
}

proof fn lemma_digits_value_nonnegative(d: Seq<char>)
    requires
        forall|i: int| 0 <= i < d.len() ==> '0' <= #[trigger] d[i] && d[i] <= '9',
    ensures
        digits_value(d) >= 0,
    decreases d.len(),
{
    if d.len() > 0 {
        lemma_digits_value_nonnegative(d.drop_last());
    }
}

proof fn lemma_digit_run(t: Seq<char>)
    ensures
        0 <= digit_run(t) <= t.len(),
        forall|i: int| 0 <= i < digit_run(t) ==> '0' <= #[trigger] t[i] && t[i] <= '9',
        digit_run(t) < t.len() ==> !('0' <= t[digit_run(t)] && t[digit_run(t)] <= '9'),
    decreases t.len(),
{
    if t.len() > 0 && '0' <= t[0] && t[0] <= '9' {
        lemma_digit_run(t.drop_first());
        assert forall|i: int| 0 <= i < digit_run(t) implies '0' <= #[trigger] t[i] && t[i] <= '9' by {
            if i > 0 {
                assert(t[i] == t.drop_first()[i - 1]);
            }
        }
        if digit_run(t) < t.len() {
            assert(t[digit_run(t)] == t.drop_first()[digit_run(t.drop_first())]);
        }
    }
}

/// An integer at the start of `t`: its value when it fits `i64`.
fn integer_at(t: &Vec<char>) -> (r: Option<(Option<i64>, Vec<char>)>)
    ensures
        match parse_integer(t@) {
            None => r is None,
            Some((n, rest)) => r matches Some(p) && p.1@ == rest && (p.0 is Some <==> i64::MIN <= n <= i64::MAX)
                && (p.0 matches Some(m) ==> m == n),
        },
{
    let negative = t.len() > 0 && t[0] == '-';
    let sign_len: usize = if t.len() > 0 && (t[0] == '-' || t[0] == '+') {
        1
    } else {
        0
    };
    let body = chars_between(t, sign_len, t.len());
    assert(body@ =~= t@.skip(sign_len as int));
    proof {
        lemma_digit_run(body@);
    }
    let mut n: usize = 0;
    let mut value: u128 = 0;
    let mut big = false;
    let limit: u128 = 9223372036854775808;
    while n < body.len() && '0' <= body[n] && body[n] <= '9'
        invariant
            n <= body@.len(),
            n <= digit_run(body@),
            forall|i: int| 0 <= i < digit_run(body@) ==> '0' <= #[trigger] body@[i] && body@[i] <= '9',
            digit_run(body@) < body@.len() ==> !('0' <= body@[digit_run(body@)] && body@[digit_run(body@)] <= '9'),
            limit == 9223372036854775808,
            !big ==> value == digits_value(body@.take(n as int)) && value <= limit,
            big ==> digits_value(body@.take(n as int)) > limit,
        decreases body@.len() - n,
    {
        let d = body[n];
        let digit: u128 = (d as u32 - '0' as u32) as u128;
        assert(body@.take(n + 1).drop_last() =~= body@.take(n as int));
        assert(body@.take(n + 1).last() == d);
        proof {
            lemma_digits_value_nonnegative(body@.take(n as int));
        }
        if !big {
            let next = value * 10 + digit;
            if next > limit {
                big = true;
            } else {
                value = next;
            }
        }
        n = n + 1;
    }
    if n == 0 {
        return None;
    }
    assert(n == digit_run(body@));
    let rest = chars_between(&body, n, body.len());
    assert(rest@ =~= body@.skip(n as int));
    if big {
        return Some((None, rest));
    }
    if negative {
        let m: i64 = if value == limit {
            i64::MIN
        } else {
            0 - (value as i64)
        };
        Some((Some(m), rest))
    } else {
        if value > 9223372036854775807 {
            Some((None, rest))
        } else {
            Some((Some(value as i64), rest))
        }
    }
}

/// What one line of the document is.
#[derive(Debug, Clone, PartialEq, Eq)]
pub enum ConfigLine {
    /// Blank, or only a comment.
    Blank,
    /// A `[table]` header.
    Table(String),
    /// A `key = value` entry.
    Entry(String, ConfigValue),
    /// Not valid; why.
    Malformed(String),
}

/// The view of a classified line.
pub open spec fn line_view(l: ConfigLine) -> LineView {
    match l {
        ConfigLine::Blank => LineView::Blank,
        ConfigLine::Table(name) => LineView::Table(name@),
        ConfigLine::Entry(key, value) => LineView::Entry(key@, value_view(value)),
        ConfigLine::Malformed(why) => LineView::Malformed(why@),
    }
}

/// Whether `v` is a bare key.
fn bare_key(v: &Vec<char>) -> (r: bool)
    ensures
        r == is_bare_key(v@),
{
    if v.len() == 0 {
        return false;
    }
    let mut i: usize = 0;
    while i < v.len()
        invariant
            i <= v.len(),
            forall|j: int| 0 <= j < i ==> is_bare_key_char(#[trigger] v@[j]),
        decreases v.len() - i,
    {
        let c = v[i];
        if !(('a' <= c && c <= 'z') || ('A' <= c && c <= 'Z') || ('0' <= c && c <= '9') || c == '_' || c == '-') {
            assert(!is_bare_key_char(v@[i as int]));
            return false;
        }
        i = i + 1;
    }
    true
}

/// Whether `r` holds nothing but white space or a comment.
fn line_end(r: &Vec<char>) -> (b: bool)
    ensures
        b == is_line_end(r@),
{
    let t = trim_start_of(r);
    t.len() == 0 || t[0] == '#'
}

/// Whether `t` starts with the characters of `word`.
fn starts_with(t: &Vec<char>, word: &str) -> (r: bool)
    ensures
        r == (t@.len() >= word@.len() && t@.take(word@.len() as int) == word@),
{
    let w = chars_of(word);
    if t.len() < w.len() {
        return false;
    }
    let mut i: usize = 0;
    while i < w.len()
        invariant
            i <= w.len(),
            w.len() <= t.len(),
            w@ == word@,
            forall|j: int| 0 <= j < i ==> t@[j] == w@[j],
        decreases w.len() - i,
    {
        if t[i] != w[i] {
            assert(t@.take(w@.len() as int)[i as int] != w@[i as int]);
            return false;
        }
        i = i + 1;
    }
    assert(t@.take(w@.len() as int) =~= w@);
    true
}

/// A value at the start of `t`; an integer value is dropped when it does
/// not fit `i64`.
fn value_at(t: &Vec<char>) -> (r: Option<(Option<ConfigValue>, Vec<char>)>)
    ensures
        match parse_value(t@) {
            None => r is None,
            Some((v, rest)) => r matches Some(p) && p.1@ == rest && (p.0 is Some <==> !(v is Integer
                && !(i64::MIN <= v->Integer_0 <= i64::MAX))) && (p.0 matches Some(x) ==> value_view(x) == v),
        },
{
    proof {
        reveal_strlit("true");
        reveal_strlit("false");
    }
    if t.len() > 0 && t[0] == '"' {
        match string_at(t) {
            Some((x, r)) => Some((Some(ConfigValue::Text(string_from_chars(&x))), r)),
            None => None,
        }
    } else if t.len() > 0 && t[0] == '[' {
        let inner = chars_between(t, 1, t.len());
        assert(inner@ =~= t@.drop_first());
        match array_items_at(&inner) {
            Some((xs, r)) => Some((Some(ConfigValue::TextArray(xs)), r)),
            None => None,
        }
    } else if starts_with(t, "true") {
        let r = chars_between(t, 4, t.len());
        assert(r@ =~= t@.skip(4));
        Some((Some(ConfigValue::Boolean(true)), r))
    } else if starts_with(t, "false") {
        let r = chars_between(t, 5, t.len());
        assert(r@ =~= t@.skip(5));
        Some((Some(ConfigValue::Boolean(false)), r))
    } else {
        match integer_at(t) {
            None => None,
            Some((n, r)) => match n {
                Some(m) => Some((Some(ConfigValue::Integer(m)), r)),
                None => Some((None, r)),
            },
        }
    }
}

/// Classifies one line of the document.
pub fn classify_line(line: &Vec<char>) -> (r: ConfigLine)
    ensures
        line_view(r) == classify(line@),
{
    let t = trimmed_range(line, 0, line.len());
    assert(line@.subrange(0, line@.len() as int) =~= line@);
    if t.len() == 0 || t[0] == '#' {
        return ConfigLine::Blank;
    }
    if t[0] == '[' {
        return match first_index(&t, ']') {
            None => ConfigLine::Malformed(crate::text::owned("a table header needs a closing `]`")),
            Some(k) => {
                proof {
                    lemma_first_index_of(t@, ']');
                }
                let name = trimmed_range(&t, 1, k);
                let after = chars_between(&t, k + 1, t.len());
                assert(after@ =~= t@.skip(k + 1));
                if !bare_key(&name) {
                    ConfigLine::Malformed(crate::text::owned("a table name is letters, digits, `_` or `-`"))
                } else if !line_end(&after) {
                    ConfigLine::Malformed(crate::text::owned("unexpected text after a table header"))
                } else {
                    ConfigLine::Table(string_from_chars(&name))
                }
            },
        };
    }
    match first_index(&t, '=') {
        None => ConfigLine::Malformed(crate::text::owned("expected `key = value`")),
        Some(k) => {
            let key = trimmed_range(&t, 0, k);
            assert(t@.subrange(0, k as int) =~= t@.take(k as int));
            let v = trimmed_range(&t, k + 1, t.len());
            assert(t@.subrange(k + 1, t@.len() as int) =~= t@.skip(k + 1));
            if !bare_key(&key) {
                ConfigLine::Malformed(crate::text::owned("a key is letters, digits, `_` or `-`"))
            } else if v.len() == 0 {
                ConfigLine::Malformed(crate::text::owned("expected a value after `=`"))
            } else {
                match value_at(&v) {
                    None => ConfigLine::Malformed(crate::text::owned("unsupported value")),
                    Some((value, rest)) => {
                        if !line_end(&rest) {
                            ConfigLine::Malformed(crate::text::owned("unexpected text after a value"))
                        } else {
                            match value {
                                None => ConfigLine::Malformed(crate::text::owned("integer out of range")),
                                Some(x) => ConfigLine::Entry(string_from_chars(&key), x),
                            }
                        }
                    },
                }
            }
        },
    }
}

/// One item of the document: a table header, or an entry of a table (the
/// top level is the table with the empty name), with its line number.
pub enum ItemView {
    Header(int, Seq<char>),
    Entry(int, Seq<char>, Seq<char>, ValueView),
}

/// The items of the lines of `s`, the first of which is line `line_no`,
/// read in table `table`; or the first malformed line and why.
pub open spec fn document_items(s: Seq<char>, line_no: int, table: Seq<char>) -> Result<Seq<ItemView>, (int, Seq<char>)>
    decreases s.len(),
{
    let k = first_index_of(s, '\n');
    let line = if k < 0 {
        s
    } else {
        s.take(k)
    };
    let next_table = match classify(line) {
        LineView::Table(name) => name,
        _ => table,
    };
    let tail: Result<Seq<ItemView>, (int, Seq<char>)> = if k < 0 {
        Ok(Seq::empty())
    } else {
        proof {
            lemma_first_index_of(s, '\n');
        }
        document_items(s.skip(k + 1), line_no + 1, next_table)
    };
    match classify(line) {
        LineView::Malformed(why) => Err((line_no, why)),
        LineView::Blank => tail,
        LineView::Table(name) => match tail {
            Ok(items) => Ok(seq![ItemView::Header(line_no, name)] + items),
            Err(e) => Err(e),
        },
        LineView::Entry(key, value) => match tail {
            Ok(items) => Ok(seq![ItemView::Entry(line_no, table, key, value)] + items),
            Err(e) => Err(e),
        },
    }
}

/// An item of the document.
#[derive(Debug, Clone, PartialEq, Eq)]
pub enum ConfigItem {
    /// A `[table]` header on a line.
    Header {
        /// Its line.
        line: usize,
        /// The table's name.
        name: String,
    },
    /// A `key = value` entry on a line, in a table.
    Entry {
        /// Its line.
        line: usize,
        /// The table; empty at the top level.
        table: String,
        /// The key.
        key: String,
        /// The value.
        value: ConfigValue,
    },
}

/// The view of an item.
pub open spec fn item_view(i: ConfigItem) -> ItemView {
    match i {
        ConfigItem::Header { line, name } => ItemView::Header(line as int, name@),
        ConfigItem::Entry { line, table, key, value } => ItemView::Entry(line as int, table@, key@, value_view(value)),
    }
}

/// The views of items.
pub open spec fn item_views(s: Seq<ConfigItem>) -> Seq<ItemView> {
    s.map_values(|i: ConfigItem| item_view(i))
}

/// Reads the items of the lines of `v` from `pos` on.
fn items_from(v: &Vec<char>, pos: usize, line_no: usize, table: String) -> (r: Result<Vec<ConfigItem>, (usize, String)>)
    requires
        pos <= v.len(),
        line_no <= pos + 1,
        v.len() < usize::MAX,
    ensures
        match document_items(v@.skip(pos as int), line_no as int, table@) {
            Ok(items) => r matches Ok(xs) && item_views(xs@) == items,
            Err((l, why)) => r matches Err(e) && e.0 == l && e.1@ == why,
        },
    decreases v.len() - pos,
{
    let ghost s = v@.skip(pos as int);
    let rest_chars = chars_between(v, pos, v.len());
    assert(rest_chars@ =~= s);
    let newline = first_index(&rest_chars, '\n');
    let line = match newline {
        Some(k) => chars_between(&rest_chars, 0, k),
        None => chars_between(&rest_chars, 0, rest_chars.len()),
    };
    proof {
        lemma_first_index_of(s, '\n');
        if newline is Some {
            assert(line@ =~= s.take(first_index_of(s, '\n')));
        } else {
            assert(line@ =~= s);
        }
    }
    let classified = classify_line(&line);
    let next_table = match &classified {
        ConfigLine::Table(name) => name.clone(),
        _ => table.clone(),
    };
    let tail: Result<Vec<ConfigItem>, (usize, String)> = match newline {
        None => {
            let empty: Vec<ConfigItem> = Vec::new();
            assert(item_views(empty@) =~= Seq::<ItemView>::empty());
            Ok(empty)
        },
        Some(k) => {
            proof {
                assert(v@.skip(pos + k + 1) =~= s.skip(k + 1));
            }
            items_from(v, pos + k + 1, line_no + 1, next_table)
        },
    };
    match classified {
        ConfigLine::Malformed(why) => Err((line_no, why)),
        ConfigLine::Blank => tail,
        ConfigLine::Table(name) => match tail {
            Ok(mut items) => {
                let ghost before = items@;
                let header = ConfigItem::Header { line: line_no, name };
                items.insert(0, header);
                assert(item_views(items@) =~= seq![item_view(header)] + item_views(before));
                Ok(items)
            },
            Err(e) => Err(e),
        },
        ConfigLine::Entry(key, value) => match tail {
            Ok(mut items) => {
                let ghost before = items@;
                let entry = ConfigItem::Entry { line: line_no, table, key, value };
                items.insert(0, entry);
                assert(item_views(items@) =~= seq![item_view(entry)] + item_views(before));
                Ok(items)
            },
            Err(e) => Err(e),
        },
    }
}

/// Two items define the same table, or the same key of the same table.
pub open spec fn same_slot(a: ItemView, b: ItemView) -> bool {
    match (a, b) {
        (ItemView::Header(_, x), ItemView::Header(_, y)) => x == y,
        (ItemView::Entry(_, t1, k1, _), ItemView::Entry(_, t2, k2, _)) => t1 == t2 && k1 == k2,
        _ => false,
    }
}

/// The index of the first item that repeats an earlier one.
pub open spec fn first_duplicate(items: Seq<ItemView>) -> Option<int>
    decreases items.len(),
{
    if items.len() == 0 {
        None
    } else {
        match first_duplicate(items.drop_last()) {
            Some(i) => Some(i),
            None => if exists|j: int| 0 <= j < items.len() - 1 && same_slot(#[trigger] items[j], items.last()) {
                Some(items.len() - 1)
            } else {
                None
            },
        }
    }
}

/// Whether two items define the same slot.
fn same_slot_items(a: &ConfigItem, b: &ConfigItem) -> (r: bool)
    ensures
        r == same_slot(item_view(*a), item_view(*b)),
{
    match (a, b) {
        (ConfigItem::Header { name: x, .. }, ConfigItem::Header { name: y, .. }) => crate::text::text_eq(
            x.as_str(),
            y.as_str(),
        ),
        (ConfigItem::Entry { table: t1, key: k1, .. }, ConfigItem::Entry { table: t2, key: k2, .. }) => {
            crate::text::text_eq(t1.as_str(), t2.as_str()) && crate::text::text_eq(k1.as_str(), k2.as_str())
        },
        _ => false,
    }
}

/// Finds the first item that repeats an earlier one.
fn find_duplicate(items: &Vec<ConfigItem>) -> (r: Option<usize>)
    ensures
        match first_duplicate(item_views(items@)) {
            None => r is None,
            Some(i) => r == Some(i as usize) && 0 <= i < items@.len(),
        },
{
    let ghost all = item_views(items@);
    let mut i: usize = 0;
    assert(all.take(0) =~= Seq::<ItemView>::empty());
    while i < items.len()
        invariant
            i <= items@.len(),
            all == item_views(items@),
            first_duplicate(all.take(i as int)) is None,
        decreases items@.len() - i,
    {
        let ghost prefix = all.take(i + 1);
        assert(prefix.drop_last() =~= all.take(i as int));
        assert(prefix.last() == item_view(items@[i as int]));
        let mut j: usize = 0;
        while j < i
            invariant
                j <= i < items@.len(),
                all == item_views(items@),
                prefix == all.take(i + 1),
                prefix.len() == i + 1,
                first_duplicate(prefix.drop_last()) is None,
                forall|q: int| 0 <= q < j ==> !same_slot(#[trigger] prefix[q], prefix.last()),
            decreases i - j,
        {
            if same_slot_items(&items[j], &items[i]) {
                assert(same_slot(prefix[j as int], prefix.last()));
                assert(first_duplicate(prefix) == Some(i as int));
                proof {
                    lemma_duplicate_prefix(all, i as int + 1);
                }
                return Some(i);
            }
            j = j + 1;
        }
        assert(first_duplicate(prefix) is None);
        i = i + 1;
    }
    assert(all.take(items@.len() as int) =~= all);
    None
}

/// A duplicate in a prefix is the first duplicate of the whole.
proof fn lemma_duplicate_prefix(all: Seq<ItemView>, n: int)
    requires
        0 <= n <= all.len(),
        first_duplicate(all.take(n)) is Some,
    ensures
        first_duplicate(all) == first_duplicate(all.take(n)),
    decreases all.len() - n,
{
    if n < all.len() {
        assert(all.take(n + 1).drop_last() =~= all.take(n));
        lemma_duplicate_prefix(all, n + 1);
    } else {
        assert(all.take(n) =~= all);
    }
}

/// The value of the last entry `key` of table `table`.
pub open spec fn lookup(items: Seq<ItemView>, table: Seq<char>, key: Seq<char>) -> Option<ValueView>
    decreases items.len(),
{
    if items.len() == 0 {
        None
    } else {
        match items.last() {
            ItemView::Entry(_, t, k, v) => if t == table && k == key {
                Some(v)
            } else {
                lookup(items.drop_last(), table, key)
            },
            _ => lookup(items.drop_last(), table, key),
        }
    }
}

/// The shapes a field's value can be required to have.
#[derive(Debug, Clone, Copy, PartialEq, Eq)]
pub enum FieldKind {
    /// An integer from 1 to `u32::MAX`.
    PositiveInteger,
    /// A string.
    Name,
    /// A `#RRGGBB` color.
    Color,
    /// The string `repository_graph`.
    LayoutKind,
    /// An array of strings.
    PathList,
}

/// A hex digit.
pub open spec fn is_hex_digit(c: char) -> bool {
    ('0' <= c && c <= '9') || ('a' <= c && c <= 'f') || ('A' <= c && c <= 'F')
}

/// `#` and six hex digits.
pub open spec fn is_hex_color(t: Seq<char>) -> bool {
    t.len() == 7 && t[0] == '#' && forall|i: int| 1 <= i < 7 ==> is_hex_digit(#[trigger] t[i])
}

/// A value has the shape a field asks for.
pub open spec fn is_valid(kind: FieldKind, v: ValueView) -> bool {
    match kind {
        FieldKind::PositiveInteger => v is Integer && 1 <= v->Integer_0 <= u32::MAX,
        FieldKind::Name => v is Text,
        FieldKind::Color => v is Text && is_hex_color(v->Text_0),
        FieldKind::LayoutKind => v is Text && v->Text_0 == "repository_graph"@,
        FieldKind::PathList => v is TextArray,
    }
}

/// How a field's expected shape is described.
pub open spec fn shape(kind: FieldKind) -> Seq<char> {
    match kind {
        FieldKind::PositiveInteger => "a positive integer"@,
        FieldKind::Name => "a string"@,
        FieldKind::Color => "a #RRGGBB color"@,
        FieldKind::LayoutKind => "\"repository_graph\""@,
        FieldKind::PathList => "an array of path strings"@,
    }
}

/// The name of a field in messages: `table.key`, or `key` at the top level.
pub open spec fn qualified(table: Seq<char>, key: Seq<char>) -> Seq<char> {
    if table.len() == 0 {
        key
    } else {
        table + "."@ + key
    }
}

/// The diagnostic of one field: none, or one line saying it is missing or
/// has the wrong shape.
pub open spec fn field_diagnostic(
    items: Seq<ItemView>,
    table: Seq<char>,
    key: Seq<char>,
    kind: FieldKind,
    required: bool,
) -> Seq<Seq<char>> {
    match lookup(items, table, key) {
        None => if required {
            seq!["- "@ + qualified(table, key) + ": missing required field; expected "@ + shape(kind)]
        } else {
            Seq::empty()
        },
        Some(v) => if is_valid(kind, v) {
            Seq::empty()
        } else {
            seq!["- "@ + qualified(table, key) + ": expected "@ + shape(kind)]
        },
    }
}

/// The diagnostics of the fields of a Render Configuration, in order.
pub open spec fn field_diagnostics(items: Seq<ItemView>) -> Seq<Seq<char>> {
    field_diagnostic(items, ""@, "frame_width"@, FieldKind::PositiveInteger, true)
        + field_diagnostic(items, ""@, "frame_height"@, FieldKind::PositiveInteger, true)
        + field_diagnostic(items, ""@, "frames_per_second"@, FieldKind::PositiveInteger, true)
        + field_diagnostic(items, "theme"@, "name"@, FieldKind::Name, true)
        + field_diagnostic(items, "theme"@, "background_color"@, FieldKind::Color, true)
        + field_diagnostic(items, "theme"@, "entity_color"@, FieldKind::Color, true)
        + field_diagnostic(items, "theme"@, "contributor_color"@, FieldKind::Color, true)
        + field_diagnostic(items, "layout"@, "kind"@, FieldKind::LayoutKind, true)
        + field_diagnostic(items, "layout"@, "entity_spacing"@, FieldKind::PositiveInteger, true)
        + field_diagnostic(items, "layout"@, "settle_iterations"@, FieldKind::PositiveInteger, true)
        + field_diagnostic(items, "filters"@, "included_paths"@, FieldKind::PathList, false)
}

/// The fields a table knows, listed for messages; empty for unknown tables.
pub open spec fn known_fields(table: Seq<char>) -> Seq<char> {
    if table.len() == 0 {
        "frame_width, frame_height, frames_per_second"@
    } else if table == "theme"@ {
        "name, background_color, entity_color, contributor_color"@
    } else if table == "layout"@ {
        "kind, entity_spacing, settle_iterations"@
    } else if table == "filters"@ {
        "included_paths"@
    } else {
        Seq::empty()
    }
}

/// A table of the document.
pub open spec fn is_known_table(name: Seq<char>) -> bool {
    name == "theme"@ || name == "layout"@ || name == "filters"@
}

/// A key that table `table` knows.
pub open spec fn is_known_field(table: Seq<char>, key: Seq<char>) -> bool {
    if table.len() == 0 {
        key == "frame_width"@ || key == "frame_height"@ || key == "frames_per_second"@
    } else if table == "theme"@ {
        key == "name"@ || key == "background_color"@ || key == "entity_color"@ || key == "contributor_color"@
    } else if table == "layout"@ {
        key == "kind"@ || key == "entity_spacing"@ || key == "settle_iterations"@
    } else {
        key == "included_paths"@
    }
}

/// The diagnostic of an item the document does not know: a table other
/// than theme, layout and filters, or an unknown field of a known table.
pub open spec fn unknown_diagnostic(i: ItemView) -> Seq<Seq<char>> {
    match i {
        ItemView::Header(_, name) => if is_known_table(name) {
            Seq::empty()
        } else {
            seq!["- "@ + name + ": unknown table; known tables: theme, layout, filters"@]
        },
        ItemView::Entry(_, table, key, _) => if (table.len() == 0 || is_known_table(table)) && !is_known_field(
            table,
            key,
        ) {
            seq!["- "@ + qualified(table, key) + ": unknown field; known fields: "@ + known_fields(table)]
        } else {
            Seq::empty()
        },
    }
}

/// The diagnostics of unknown items, in document order.
pub open spec fn unknown_diagnostics(items: Seq<ItemView>) -> Seq<Seq<char>>
    decreases items.len(),
{
    if items.len() == 0 {
        Seq::empty()
    } else {
        unknown_diagnostics(items.drop_last()) + unknown_diagnostic(items.last())
    }
}

/// The line of an item.
pub open spec fn item_line(i: ItemView) -> int {
    match i {
        ItemView::Header(l, _) => l,
        ItemView::Entry(l, _, _, _) => l,
    }
}

/// Why an item repeats an earlier one.
pub open spec fn duplicate_detail(i: ItemView) -> Seq<char> {
    match i {
        ItemView::Header(_, name) => "duplicate table `["@ + name + "]`"@,
        ItemView::Entry(_, table, key, _) => "duplicate key `"@ + qualified(table, key) + "`"@,
    }
}

/// What reading a Render Configuration text gives.
pub enum ReadOutcome {
    /// The items of a valid configuration.
    Parsed(Seq<ItemView>),
    /// The text is not a document of this form: the line, and why.
    ParseError(int, Seq<char>),
    /// The document's fields are wrong: one line per problem.
    Invalid(Seq<Seq<char>>),
}

/// Reads a Render Configuration text.
pub open spec fn read_configuration(s: Seq<char>) -> ReadOutcome {
    match document_items(s, 1, Seq::empty()) {
        Err((line, why)) => ReadOutcome::ParseError(line, why),
        Ok(items) => match first_duplicate(items) {
            Some(i) => ReadOutcome::ParseError(item_line(items[i]), duplicate_detail(items[i])),
            None => {
                let diagnostics = field_diagnostics(items) + unknown_diagnostics(items);
                if diagnostics.len() > 0 {
                    ReadOutcome::Invalid(diagnostics)
                } else {
                    ReadOutcome::Parsed(items)
                }
            },
        },
    }
}

/// The integer of a field.
pub open spec fn int_field(items: Seq<ItemView>, table: Seq<char>, key: Seq<char>) -> int {
    lookup(items, table, key).unwrap()->Integer_0
}

/// The text of a field.
pub open spec fn text_field(items: Seq<ItemView>, table: Seq<char>, key: Seq<char>) -> Seq<char> {
    lookup(items, table, key).unwrap()->Text_0
}

/// `cv` is the Render Configuration a valid document's items describe: the
/// `flow` metaphor, the theme, the Repository Graph with the given spacing
/// and settle iterations, the frame size and rate, the default Level of
/// Detail, and the included paths (none when absent).
pub open spec fn configuration_of(items: Seq<ItemView>, cv: RenderConfigurationView) -> bool {
    &&& cv.visual_metaphor == "flow"@
    &&& cv.theme.name == text_field(items, "theme"@, "name"@)
    &&& cv.theme.background_color == text_field(items, "theme"@, "background_color"@)
    &&& cv.theme.entity_color == text_field(items, "theme"@, "entity_color"@)
    &&& cv.theme.contributor_color == text_field(items, "theme"@, "contributor_color"@)
    &&& cv.layout is RepositoryGraphWithParameters
    &&& cv.layout.spacing_value() == int_field(items, "layout"@, "entity_spacing"@)
    &&& cv.layout.settle_value() == int_field(items, "layout"@, "settle_iterations"@)
    &&& cv.frame_size.0 == int_field(items, ""@, "frame_width"@)
    &&& cv.frame_size.1 == int_field(items, ""@, "frame_height"@)
    &&& cv.frames_per_second == int_field(items, ""@, "frames_per_second"@)
    &&& cv.dense_directory_threshold == DEFAULT_DENSE_DIRECTORY_THRESHOLD
    &&& cv.included_paths == match lookup(items, "filters"@, "included_paths"@) {
        Some(ValueView::TextArray(xs)) => xs,
        _ => Seq::empty(),
    }
}

/// The value of the last entry `key` of table `table`.
fn lookup_value<'a>(items: &'a Vec<ConfigItem>, table: &str, key: &str) -> (r: Option<&'a ConfigValue>)
    ensures
        match lookup(item_views(items@), table@, key@) {
            None => r is None,
            Some(v) => r matches Some(x) && value_view(*x) == v,
        },
{
    let ghost all = item_views(items@);
    let mut i: usize = items.len();
    assert(all.take(all.len() as int) =~= all);
    while i > 0
        invariant
            i <= items@.len(),
            all == item_views(items@),
            lookup(all, table@, key@) == lookup(all.take(i as int), table@, key@),
        decreases i,
    {
        let ghost prefix = all.take(i as int);
        assert(prefix.drop_last() =~= all.take(i - 1));
        assert(prefix.last() == item_view(items@[i - 1]));
        match &items[i - 1] {
            ConfigItem::Entry { table: t, key: k, value, .. } => {
                if crate::text::text_eq(t.as_str(), table) && crate::text::text_eq(k.as_str(), key) {
                    return Some(value);
                }
            },
            _ => {},
        }
        i = i - 1;
    }
    None
}

/// Whether `t` is `#` and six hex digits.
fn hex_color_text(t: &str) -> (r: bool)
    ensures
        r == is_hex_color(t@),
{
    let v = chars_of(t);
    if v.len() != 7 || v[0] != '#' {
        return false;
    }
    let mut i: usize = 1;
    while i < 7
        invariant
            1 <= i <= 7,
            v@ == t@,
            v@.len() == 7,
            forall|j: int| 1 <= j < i ==> is_hex_digit(#[trigger] v@[j]),
        decreases 7 - i,
    {
        let c = v[i];
        if !(('0' <= c && c <= '9') || ('a' <= c && c <= 'f') || ('A' <= c && c <= 'F')) {
            assert(!is_hex_digit(v@[i as int]));
            return false;
        }
        i = i + 1;
    }
    true
}

/// Whether a value has the shape a field asks for.
fn valid_value(kind: FieldKind, v: &ConfigValue) -> (r: bool)
    ensures
        r == is_valid(kind, value_view(*v)),
{
    proof {
        reveal_strlit("repository_graph");
    }
    match kind {
        FieldKind::PositiveInteger => match v {
            ConfigValue::Integer(n) => 1 <= *n && *n <= 4294967295,
            _ => false,
        },
        FieldKind::Name => match v {
            ConfigValue::Text(_) => true,
            _ => false,
        },
        FieldKind::Color => match v {
            ConfigValue::Text(t) => hex_color_text(t.as_str()),
            _ => false,
        },
        FieldKind::LayoutKind => match v {
            ConfigValue::Text(t) => crate::text::text_eq(t.as_str(), "repository_graph"),
            _ => false,
        },
        FieldKind::PathList => match v {
            ConfigValue::TextArray(_) => true,
            _ => false,
        },
    }
}

/// The description of a shape.
fn shape_text(kind: FieldKind) -> (r: &'static str)
    ensures
        r@ == shape(kind),
{
    match kind {
        FieldKind::PositiveInteger => "a positive integer",
        FieldKind::Name => "a string",
        FieldKind::Color => "a #RRGGBB color",
        FieldKind::LayoutKind => "\"repository_graph\"",
        FieldKind::PathList => "an array of path strings",
    }
}

/// The name of a field in messages.
fn qualified_text(table: &str, key: &str) -> (r: String)
    ensures
        r@ == qualified(table@, key@),
{
    if table.is_empty() {
        crate::text::owned(key)
    } else {
        let mut s = crate::text::owned(table);
        crate::text::push_text(&mut s, ".");
        crate::text::push_text(&mut s, key);
        s
    }
}

/// Appends the diagnostic of one field.
fn push_field_diagnostic(
    diagnostics: &mut Vec<String>,
    items: &Vec<ConfigItem>,
    table: &str,
    key: &str,
    kind: FieldKind,
    required: bool,
)
    ensures
        crate::text::texts(final(diagnostics)@) == crate::text::texts(old(diagnostics)@) + field_diagnostic(
            item_views(items@),
            table@,
            key@,
            kind,
            required,
        ),
{
    let ghost before = diagnostics@;
    let found = lookup_value(items, table, key);
    let problem = match found {
        None => required,
        Some(v) => !valid_value(kind, v),
    };
    if problem {
        let mut line = crate::text::owned("- ");
        let name = qualified_text(table, key);
        crate::text::push_text(&mut line, name.as_str());
        match found {
            None => crate::text::push_text(&mut line, ": missing required field; expected "),
            Some(_) => crate::text::push_text(&mut line, ": expected "),
        }
        crate::text::push_text(&mut line, shape_text(kind));
        diagnostics.push(line);
        assert(crate::text::texts(diagnostics@) =~= crate::text::texts(before) + field_diagnostic(
            item_views(items@),
            table@,
            key@,
            kind,
            required,
        ));
    } else {
        assert(crate::text::texts(diagnostics@) =~= crate::text::texts(before) + field_diagnostic(
            item_views(items@),
            table@,
            key@,
            kind,
            required,
        ));
    }
}

/// Whether `name` is a table of the document.
fn known_table(name: &str) -> (r: bool)
    ensures
        r == is_known_table(name@),
{
    crate::text::text_eq(name, "theme") || crate::text::text_eq(name, "layout") || crate::text::text_eq(name, "filters")
}

/// Whether table `table` (empty at the top level, else a known table) knows
/// `key`.
fn known_field(table: &str, key: &str) -> (r: bool)
    ensures
        r == is_known_field(table@, key@),
{
    let eq = crate::text::text_eq;
    if table.is_empty() {
        eq(key, "frame_width") || eq(key, "frame_height") || eq(key, "frames_per_second")
    } else if eq(table, "theme") {
        eq(key, "name") || eq(key, "background_color") || eq(key, "entity_color") || eq(key, "contributor_color")
    } else if eq(table, "layout") {
        eq(key, "kind") || eq(key, "entity_spacing") || eq(key, "settle_iterations")
    } else {
        eq(key, "included_paths")
    }
}

/// The fields a table knows, listed for messages.
fn known_fields_text(table: &str) -> (r: &'static str)
    ensures
        r@ == known_fields(table@),
{
    let eq = crate::text::text_eq;
    proof {
        reveal_strlit("");
    }
    if table.is_empty() {
        "frame_width, frame_height, frames_per_second"
    } else if eq(table, "theme") {
        "name, background_color, entity_color, contributor_color"
    } else if eq(table, "layout") {
        "kind, entity_spacing, settle_iterations"
    } else if eq(table, "filters") {
        "included_paths"
    } else {
        ""
    }
}

/// Appends the diagnostics of unknown items.
fn push_unknown_diagnostics(diagnostics: &mut Vec<String>, items: &Vec<ConfigItem>)
    ensures
        crate::text::texts(final(diagnostics)@) == crate::text::texts(old(diagnostics)@) + unknown_diagnostics(
            item_views(items@),
        ),
{
    let ghost start = crate::text::texts(diagnostics@);
    let ghost all = item_views(items@);
    let mut i: usize = 0;
    assert(all.take(0) =~= Seq::<ItemView>::empty());
    assert(start + Seq::<Seq<char>>::empty() =~= start);
    while i < items.len()
        invariant
            i <= items@.len(),
            all == item_views(items@),
            crate::text::texts(diagnostics@) == start + unknown_diagnostics(all.take(i as int)),
        decreases items@.len() - i,
    {
        let ghost before = crate::text::texts(diagnostics@);
        assert(all.take(i + 1).drop_last() =~= all.take(i as int));
        assert(all.take(i + 1).last() == item_view(items@[i as int]));
        match &items[i] {
            ConfigItem::Header { name, .. } => {
                if !known_table(name.as_str()) {
                    let mut line = crate::text::owned("- ");
                    crate::text::push_text(&mut line, name.as_str());
                    crate::text::push_text(&mut line, ": unknown table; known tables: theme, layout, filters");
                    diagnostics.push(line);
                }
            },
            ConfigItem::Entry { table, key, .. } => {
                if (table.as_str().is_empty() || known_table(table.as_str())) && !known_field(table.as_str(), key.as_str()) {
                    let mut line = crate::text::owned("- ");
                    let name = qualified_text(table.as_str(), key.as_str());
                    crate::text::push_text(&mut line, name.as_str());
                    crate::text::push_text(&mut line, ": unknown field; known fields: ");
                    crate::text::push_text(&mut line, known_fields_text(table.as_str()));
                    diagnostics.push(line);
                }
            },
        }
        assert(crate::text::texts(diagnostics@) =~= before + unknown_diagnostic(all[i as int]));
        assert(start + unknown_diagnostics(all.take(i + 1)) =~= start + unknown_diagnostics(all.take(i as int))
            + unknown_diagnostic(all[i as int]));
        i = i + 1;
    }
    assert(all.take(items@.len() as int) =~= all);
}

/// Why a Render Configuration text was refused.
#[derive(Debug, Clone, PartialEq, Eq)]
pub enum RenderConfigurationError {
    /// The text is not a document of the expected form.
    Parse {
        /// The line at fault.
        line: usize,
        /// What is wrong with it.
        detail: String,
    },
    /// The document's fields are missing, unknown or of the wrong shape.
    Invalid {
        /// One line per problem.
        diagnostics: Vec<String>,
    },
}

/// Lines joined with newlines.
pub open spec fn lines_joined(lines: Seq<Seq<char>>) -> Seq<char>
    decreases lines.len(),
{
    if lines.len() == 0 {
        Seq::empty()
    } else if lines.len() == 1 {
        lines[0]
    } else {
        lines_joined(lines.drop_last()) + "\n"@ + lines.last()
    }
}

/// The message of a refusal.
pub open spec fn configuration_error_message(e: RenderConfigurationError) -> Seq<char> {
    match e {
        RenderConfigurationError::Parse { line, detail } => "expected a valid TOML Render Configuration; toml parse error at line "@
            + crate::text::decimal(line as nat) + ": "@ + detail@,
        RenderConfigurationError::Invalid { diagnostics } => "invalid Render Configuration:\n"@ + lines_joined(
            crate::text::texts(diagnostics@),
        ),
    }
}

/// The message a Render Configuration text is refused with; empty for a
/// text that is accepted.
pub open spec fn refusal_message(t: Seq<char>) -> Seq<char> {
    match read_configuration(t) {
        ReadOutcome::ParseError(line, why) => "expected a valid TOML Render Configuration; toml parse error at line "@
            + crate::text::decimal(line as nat) + ": "@ + why,
        ReadOutcome::Invalid(lines) => "invalid Render Configuration:\n"@ + lines_joined(lines),
        ReadOutcome::Parsed(_) => Seq::empty(),
    }
}

impl RenderConfigurationError {
    /// Describes the refusal for a person.
    pub fn message(&self) -> (r: String)
        ensures
            r@ == configuration_error_message(*self),
    {
        match self {
            RenderConfigurationError::Parse { line, detail } => {
                let mut s = crate::text::owned("expected a valid TOML Render Configuration; toml parse error at line ");
                let number = crate::text::decimal_text(*line as u64);
                crate::text::push_text(&mut s, number.as_str());
                crate::text::push_text(&mut s, ": ");
                crate::text::push_text(&mut s, detail.as_str());
                s
            },
            RenderConfigurationError::Invalid { diagnostics } => {
                let mut s = crate::text::owned("invalid Render Configuration:\n");
                let ghost head = s@;
                let ghost all = crate::text::texts(diagnostics@);
                let mut i: usize = 0;
                assert(all.take(0) =~= Seq::<Seq<char>>::empty());
                assert(head + Seq::<char>::empty() =~= head);
                while i < diagnostics.len()
                    invariant
                        i <= diagnostics@.len(),
                        all == crate::text::texts(diagnostics@),
                        s@ == head + lines_joined(all.take(i as int)),
                    decreases diagnostics@.len() - i,
                {
                    if i > 0 {
                        crate::text::push_text(&mut s, "\n");
                    }
                    crate::text::push_text(&mut s, diagnostics[i].as_str());
                    assert(all.take(i + 1).drop_last() =~= all.take(i as int));
                    assert(all.take(i + 1).last() == diagnostics@[i as int]@);
                    proof {
                        if i == 0 {
                            assert(all.take(1)[0] == diagnostics@[0]@);
                            assert(s@ =~= head + lines_joined(all.take(1)));
                        } else {
                            assert(s@ =~= head + lines_joined(all.take(i + 1)));
                        }
                    }
                    i = i + 1;
                }
                assert(all.take(diagnostics@.len() as int) =~= all);
                s
            },
        }
    }
}

/// The integer of a field that holds one.
fn integer_field(items: &Vec<ConfigItem>, table: &str, key: &str) -> (r: u32)
    requires
        lookup(item_views(items@), table@, key@) matches Some(v) && is_valid(FieldKind::PositiveInteger, v),
    ensures
        r == int_field(item_views(items@), table@, key@),
{
    match lookup_value(items, table, key) {
        Some(ConfigValue::Integer(n)) => *n as u32,
        _ => {
            proof {
                assert(false);
            }
            0
        },
    }
}

/// The text of a field that holds one.
fn text_field_value(items: &Vec<ConfigItem>, table: &str, key: &str) -> (r: String)
    requires
        lookup(item_views(items@), table@, key@) matches Some(v) && v is Text,
    ensures
        r@ == text_field(item_views(items@), table@, key@),
{
    match lookup_value(items, table, key) {
        Some(ConfigValue::Text(t)) => t.clone(),
        _ => {
            proof {
                assert(false);
            }
            String::new()
        },
    }
}

impl RenderConfiguration {
    /// Reads a Render Configuration from its TOML text; a text that is not
    /// such a document, or whose fields are missing, unknown or of the wrong
    /// shape, is refused with the reason.
    pub fn from_toml_str(text: &str) -> (r: Result<Self, RenderConfigurationError>)
        requires
            text@.len() < usize::MAX,
        ensures
            match read_configuration(text@) {
                ReadOutcome::ParseError(line, why) => r matches Err(RenderConfigurationError::Parse { line: l, detail })
                    && l == line && detail@ == why,
                ReadOutcome::Invalid(lines) => r matches Err(RenderConfigurationError::Invalid { diagnostics })
                    && crate::text::texts(diagnostics@) == lines,
                ReadOutcome::Parsed(items) => r matches Ok(c) && configuration_of(items, c@),
            },
    {
        let v = chars_of(text);
        assert(v@.skip(0) =~= v@);
        let items = match items_from(&v, 0, 1, String::new()) {
            Ok(items) => items,
            Err((line, detail)) => {
                return Err(RenderConfigurationError::Parse { line, detail });
            },
        };
        let ghost iv = item_views(items@);
        if let Some(i) = find_duplicate(&items) {
            return match &items[i] {
                ConfigItem::Header { line, name } => {
                    let mut detail = crate::text::owned("duplicate table `[");
                    crate::text::push_text(&mut detail, name.as_str());
                    crate::text::push_text(&mut detail, "]`");
                    Err(RenderConfigurationError::Parse { line: *line, detail })
                },
                ConfigItem::Entry { line, table, key, .. } => {
                    let mut detail = crate::text::owned("duplicate key `");
                    let name = qualified_text(table.as_str(), key.as_str());
                    crate::text::push_text(&mut detail, name.as_str());
                    crate::text::push_text(&mut detail, "`");
                    Err(RenderConfigurationError::Parse { line: *line, detail })
                },
            };
        }
        let mut diagnostics: Vec<String> = Vec::new();
        assert(crate::text::texts(diagnostics@) =~= Seq::<Seq<char>>::empty());
        push_field_diagnostic(&mut diagnostics, &items, "", "frame_width", FieldKind::PositiveInteger, true);
        push_field_diagnostic(&mut diagnostics, &items, "", "frame_height", FieldKind::PositiveInteger, true);
        push_field_diagnostic(&mut diagnostics, &items, "", "frames_per_second", FieldKind::PositiveInteger, true);
        push_field_diagnostic(&mut diagnostics, &items, "theme", "name", FieldKind::Name, true);
        push_field_diagnostic(&mut diagnostics, &items, "theme", "background_color", FieldKind::Color, true);
        push_field_diagnostic(&mut diagnostics, &items, "theme", "entity_color", FieldKind::Color, true);
        push_field_diagnostic(&mut diagnostics, &items, "theme", "contributor_color", FieldKind::Color, true);
        push_field_diagnostic(&mut diagnostics, &items, "layout", "kind", FieldKind::LayoutKind, true);
        push_field_diagnostic(&mut diagnostics, &items, "layout", "entity_spacing", FieldKind::PositiveInteger, true);
        push_field_diagnostic(&mut diagnostics, &items, "layout", "settle_iterations", FieldKind::PositiveInteger, true);
        push_field_diagnostic(&mut diagnostics, &items, "filters", "included_paths", FieldKind::PathList, false);
        assert(crate::text::texts(diagnostics@) =~= field_diagnostics(iv));
        push_unknown_diagnostics(&mut diagnostics, &items);
        if diagnostics.len() > 0 {
            return Err(RenderConfigurationError::Invalid { diagnostics });
        }
        proof {
            assert(field_diagnostics(iv).len() == 0);
        }
        let width = integer_field(&items, "", "frame_width");
        let height = integer_field(&items, "", "frame_height");
        let fps = integer_field(&items, "", "frames_per_second");
        let spacing = integer_field(&items, "layout", "entity_spacing");
        let settle = integer_field(&items, "layout", "settle_iterations");
        let name = text_field_value(&items, "theme", "name");
        let background = text_field_value(&items, "theme", "background_color");
        let entity = text_field_value(&items, "theme", "entity_color");
        let contributor = text_field_value(&items, "theme", "contributor_color");
        let theme = Theme::with_colors(
            name.as_str(),
            HexColor::new(background.as_str()),
            HexColor::new(entity.as_str()),
            HexColor::new(contributor.as_str()),
        );
        let layout = Layout::RepositoryGraphWithParameters(
            RepositoryGraphLayout::new(EntitySpacing::new(spacing), SettleIterations::new(settle)),
        );
        let filter = match lookup_value(&items, "filters", "included_paths") {
            Some(ConfigValue::TextArray(paths)) => ExplicitPathFilter::new(paths.clone()),
            _ => ExplicitPathFilter::all(),
        };
        let configuration = RenderConfiguration::new(VisualMetaphor::new("flow"), theme, layout)
            .with_frame_size(FrameSize::new(width, height))
            .with_frames_per_second(FramesPerSecond::new(fps))
            .with_explicit_path_filter(filter);
        Ok(configuration)
    }
}

} // verus!
