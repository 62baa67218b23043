//! Character-level text helpers: building strings, ordering them, and
//! comparing them.

use vstd::prelude::*;

verus! {

/// Appends one character to a `String` (`String::push`): the new text is the
/// old text followed by `c`.
#[verifier::external_body]
pub(crate) fn push_char(s: &mut String, c: char)
    ensures
        final(s)@ == old(s)@.push(c),
{
    s.push(c);
}

/// Returns the characters of a string in order.
pub fn chars_of(s: &str) -> (v: Vec<char>)
    ensures
        v@ == s@,
{
    let mut v: Vec<char> = Vec::new();
    for c in it: s.chars()
        invariant
            v@ == it.seq().take(it.index() as int),
    {
        v.push(c);
    }
    v
}

/// Builds a `String` from characters.
pub fn string_from_chars(v: &Vec<char>) -> (s: String)
    ensures
        s@ == v@,
{
    let mut s = String::new();
    for i in 0..v.len()
        invariant
            s@ == v@.take(i as int),
    {
        push_char(&mut s, v[i]);
        assert(v@.take(i + 1) == v@.take(i as int).push(v@[i as int]));
    }
    assert(v@.take(v.len() as int) == v@);
    s
}

/// Appends the characters of `v` to `s`.
pub(crate) fn push_chars(s: &mut String, v: &Vec<char>)
    ensures
        final(s)@ == old(s)@ + v@,
{
    let ghost start = s@;
    for i in 0..v.len()
        invariant
            s@ == start + v@.take(i as int),
    {
        push_char(s, v[i]);
        assert(v@.take(i + 1) == v@.take(i as int).push(v@[i as int]));
    }
    assert(v@.take(v.len() as int) == v@);
}

/// Appends the text of `t` to `s`.
pub(crate) fn push_text(s: &mut String, t: &str)
    ensures
        final(s)@ == old(s)@ + t@,
{
    let v = chars_of(t);
    push_chars(s, &v);
}

/// Returns `a` followed by `b`.
pub(crate) fn concat(a: &str, b: &str) -> (r: String)
    ensures
        r@ == a@ + b@,
{
    let mut r = a.to_owned();
    push_text(&mut r, b);
    r
}

/// Copies a string slice into an owned `String`.
pub(crate) fn owned(a: &str) -> (r: String)
    ensures
        r@ == a@,
{
    a.to_owned()
}

/// The character of a decimal digit.
pub open spec fn digit_char(d: int) -> char {
    if d == 0 {
        '0'
    } else if d == 1 {
        '1'
    } else if d == 2 {
        '2'
    } else if d == 3 {
        '3'
    } else if d == 4 {
        '4'
    } else if d == 5 {
        '5'
    } else if d == 6 {
        '6'
    } else if d == 7 {
        '7'
    } else if d == 8 {
        '8'
    } else {
        '9'
    }
}

/// The decimal text of a natural number, without leading zeros.
pub open spec fn decimal(n: nat) -> Seq<char>
    decreases n,
{
    if n < 10 {
        seq![digit_char(n as int)]
    } else {
        decimal(n / 10).push(digit_char((n % 10) as int))
    }
}

/// The value of the decimal digits `d`.
pub open spec fn digits_value(d: Seq<char>) -> int
    decreases d.len(),
{
    if d.len() == 0 {
        0
    } else {
        digits_value(d.drop_last()) * 10 + (d.last() as int - '0' as int)
    }
}

/// Reading the decimal text of `n` gives back `n`.
pub proof fn lemma_decimal_value(n: nat)
    ensures
        digits_value(decimal(n)) == n,
    decreases n,
{
    if n < 10 {
        assert(decimal(n).drop_last() =~= Seq::<char>::empty());
        assert(digit_char(n as int) as int - '0' as int == n);
        assert(decimal(n).last() == digit_char(n as int));
    } else {
        lemma_decimal_value(n / 10);
        assert(decimal(n).drop_last() =~= decimal(n / 10));
        assert(decimal(n).last() == digit_char((n % 10) as int));
        assert(digit_char((n % 10) as int) as int - '0' as int == n % 10);
        assert((n / 10) * 10 + n % 10 == n) by (nonlinear_arith);
    }
    assert(decimal(n).len() > 0);
    assert(digits_value(decimal(n)) == digits_value(decimal(n).drop_last()) * 10 + (decimal(n).last() as int
        - '0' as int));
}

/// Leading zeros do not change the value of decimal digits.
pub proof fn lemma_leading_zeros_value(k: nat, s: Seq<char>)
    ensures
        digits_value(zeros(k) + s) == digits_value(s),
    decreases s.len(), k,
{
    if s.len() == 0 {
        assert(zeros(k) + s =~= zeros(k));
        if k > 0 {
            assert(zeros(k).drop_last() =~= zeros((k - 1) as nat) + s);
            lemma_leading_zeros_value((k - 1) as nat, s);
        }
    } else {
        assert((zeros(k) + s).drop_last() =~= zeros(k) + s.drop_last());
        lemma_leading_zeros_value(k, s.drop_last());
    }
}

/// Reading the zero-padded decimal text of `n` gives back `n`.
pub proof fn lemma_zero_padded_value(n: nat, width: nat)
    ensures
        digits_value(zero_padded(n, width)) == n,
{
    lemma_decimal_value(n);
    if decimal(n).len() < width {
        lemma_leading_zeros_value((width - decimal(n).len()) as nat, decimal(n));
    }
}

/// The decimal text of an integer, with a leading `-` when it is negative.
pub open spec fn signed_decimal(n: int) -> Seq<char> {
    if n < 0 {
        seq!['-'] + decimal((-n) as nat)
    } else {
        decimal(n as nat)
    }
}

/// `n` zeros.
pub open spec fn zeros(n: nat) -> Seq<char> {
    Seq::new(n, |i: int| '0')
}

/// The decimal text of `n`, left-padded with zeros to at least `width`
/// characters.
pub open spec fn zero_padded(n: nat, width: nat) -> Seq<char> {
    if decimal(n).len() < width {
        zeros((width - decimal(n).len()) as nat) + decimal(n)
    } else {
        decimal(n)
    }
}

/// The character of a decimal digit.
pub(crate) fn digit(d: u64) -> (c: char)
    requires
        d < 10,
    ensures
        c == digit_char(d as int),
{
    if d == 0 {
        '0'
    } else if d == 1 {
        '1'
    } else if d == 2 {
        '2'
    } else if d == 3 {
        '3'
    } else if d == 4 {
        '4'
    } else if d == 5 {
        '5'
    } else if d == 6 {
        '6'
    } else if d == 7 {
        '7'
    } else if d == 8 {
        '8'
    } else {
        '9'
    }
}

/// Appends the decimal digits of `n` to `out`.
fn push_decimal(out: &mut Vec<char>, n: u64)
    ensures
        final(out)@ == old(out)@ + decimal(n as nat),
    decreases n,
{
    if n >= 10 {
        push_decimal(out, n / 10);
    }
    out.push(digit(n % 10));
    proof {
        if n >= 10 {
            assert(decimal(n as nat) == decimal((n / 10) as nat).push(digit_char((n % 10) as int)));
        }
    }
}

/// The decimal text of an unsigned integer.
pub fn decimal_text(n: u64) -> (r: String)
    ensures
        r@ == decimal(n as nat),
{
    let mut v: Vec<char> = Vec::new();
    push_decimal(&mut v, n);
    assert(v@ =~= decimal(n as nat));
    string_from_chars(&v)
}

/// The decimal text of a signed integer.
pub fn signed_decimal_text(n: i32) -> (r: String)
    ensures
        r@ == signed_decimal(n as int),
{
    let mut v: Vec<char> = Vec::new();
    if n < 0 {
        v.push('-');
        let magnitude: u64 = (0i64 - (n as i64)) as u64;
        push_decimal(&mut v, magnitude);
        assert(v@ =~= seq!['-'] + decimal((-n) as nat));
    } else {
        push_decimal(&mut v, n as u64);
        assert(v@ =~= decimal(n as nat));
    }
    string_from_chars(&v)
}

/// The decimal text of `n`, left-padded with zeros to at least `width`
/// characters.
pub fn zero_padded_text(n: u64, width: usize) -> (r: String)
    ensures
        r@ == zero_padded(n as nat, width as nat),
{
    let mut digits: Vec<char> = Vec::new();
    push_decimal(&mut digits, n);
    assert(digits@ =~= decimal(n as nat));
    let mut v: Vec<char> = Vec::new();
    if digits.len() < width {
        let pad = width - digits.len();
        let mut i: usize = 0;
        while i < pad
            invariant
                i <= pad,
                v@ =~= zeros(i as nat),
            decreases pad - i,
        {
            v.push('0');
            i = i + 1;
        }
    }
    let mut j: usize = 0;
    let ghost prefix = v@;
    while j < digits.len()
        invariant
            j <= digits.len(),
            v@ =~= prefix + digits@.take(j as int),
        decreases digits.len() - j,
    {
        v.push(digits[j]);
        assert(digits@.take(j + 1) =~= digits@.take(j as int).push(digits@[j as int]));
        j = j + 1;
    }
    assert(digits@.take(digits.len() as int) =~= digits@);
    string_from_chars(&v)
}

/// Unicode `White_Space` characters, the characters `char::is_whitespace`
/// accepts.
pub open spec fn is_white_space(c: char) -> bool {
    let n = c as int;
    ||| 9 <= n <= 13
    ||| n == 32
    ||| n == 0x85
    ||| n == 0xa0
    ||| n == 0x1680
    ||| 0x2000 <= n <= 0x200a
    ||| n == 0x2028
    ||| n == 0x2029
    ||| n == 0x202f
    ||| n == 0x205f
    ||| n == 0x3000
}

/// Decides `is_white_space`.
pub fn white_space(c: char) -> (r: bool)
    ensures
        r == is_white_space(c),
{
    let n = c as u32;
    (9 <= n && n <= 13) || n == 32 || n == 0x85 || n == 0xa0 || n == 0x1680 || (0x2000 <= n && n <= 0x200a)
        || n == 0x2028 || n == 0x2029 || n == 0x202f || n == 0x205f || n == 0x3000
}

/// `s` without leading white space.
pub open spec fn trim_start(s: Seq<char>) -> Seq<char>
    decreases s.len(),
{
    if s.len() > 0 && is_white_space(s[0]) {
        trim_start(s.drop_first())
    } else {
        s
    }
}

/// `s` without trailing white space.
pub open spec fn trim_end(s: Seq<char>) -> Seq<char>
    decreases s.len(),
{
    if s.len() > 0 && is_white_space(s.last()) {
        trim_end(s.drop_last())
    } else {
        s
    }
}

/// `s` without leading and trailing white space (`str::trim`).
pub open spec fn trim(s: Seq<char>) -> Seq<char> {
    trim_end(trim_start(s))
}

/// Index of the first occurrence of `c` in `s`, or -1.
pub open spec fn first_index_of(s: Seq<char>, c: char) -> int
    decreases s.len(),
{
    if s.len() == 0 {
        -1
    } else if s[0] == c {
        0
    } else {
        let r = first_index_of(s.drop_first(), c);
        if r < 0 {
            -1
        } else {
            r + 1
        }
    }
}

/// The first line of `s` (split at `\n`) that is not blank, trimmed.
pub open spec fn first_nonempty_line(s: Seq<char>) -> Option<Seq<char>>
    decreases s.len(),
{
    let k = first_index_of(s, '\n');
    let line = if k < 0 {
        s
    } else {
        s.take(k)
    };
    if trim(line).len() > 0 {
        Some(trim(line))
    } else if k < 0 {
        None
    } else {
        proof {
            lemma_first_index_of(s, '\n');
        }
        first_nonempty_line(s.skip(k + 1))
    }
}

pub proof fn lemma_first_index_of(s: Seq<char>, c: char)
    ensures
        -1 <= first_index_of(s, c) < s.len(),
        first_index_of(s, c) >= 0 ==> s[first_index_of(s, c)] == c,
        forall|j: int| 0 <= j < s.len() && (first_index_of(s, c) < 0 || j < first_index_of(s, c)) ==> s[j] != c,
    decreases s.len(),
{
    if s.len() > 0 && s[0] != c {
        lemma_first_index_of(s.drop_first(), c);
        assert forall|j: int| 0 <= j < s.len() && (first_index_of(s, c) < 0 || j < first_index_of(s, c)) implies s[j] != c by {
            if j > 0 {
                assert(s[j] == s.drop_first()[j - 1]);
            }
        }
    }
}

/// `s` without leading and trailing white space.
pub fn trimmed(s: &str) -> (r: String)
    ensures
        r@ == trim(s@),
{
    let v = chars_of(s);
    let t = trimmed_range(&v, 0, v.len());
    assert(v@.subrange(0, v@.len() as int) =~= v@);
    string_from_chars(&t)
}

/// The characters of `v` from `start` up to `end`, without leading and
/// trailing white space.
pub(crate) fn trimmed_range(v: &Vec<char>, start: usize, end: usize) -> (r: Vec<char>)
    requires
        start <= end <= v.len(),
    ensures
        r@ == trim(v@.subrange(start as int, end as int)),
{
    let ghost line = v@.subrange(start as int, end as int);
    let mut a: usize = start;
    while a < end && white_space(v[a])
        invariant
            start <= a <= end,
            end <= v.len(),
            line == v@.subrange(start as int, end as int),
            trim_start(line) == trim_start(v@.subrange(a as int, end as int)),
        decreases end - a,
    {
        assert(v@.subrange(a as int, end as int).drop_first() =~= v@.subrange(a + 1, end as int));
        a = a + 1;
    }
    assert(trim_start(v@.subrange(a as int, end as int)) == v@.subrange(a as int, end as int));
    let mut b: usize = end;
    while b > a && white_space(v[b - 1])
        invariant
            a <= b <= end,
            end <= v.len(),
            trim_end(v@.subrange(a as int, end as int)) == trim_end(v@.subrange(a as int, b as int)),
        decreases b - a,
    {
        assert(v@.subrange(a as int, b as int).drop_last() =~= v@.subrange(a as int, b - 1));
        b = b - 1;
    }
    assert(trim_end(v@.subrange(a as int, b as int)) == v@.subrange(a as int, b as int));
    let mut r: Vec<char> = Vec::new();
    let mut i: usize = a;
    while i < b
        invariant
            a <= i <= b,
            b <= v.len(),
            r@ == v@.subrange(a as int, i as int),
        decreases b - i,
    {
        r.push(v[i]);
        assert(v@.subrange(a as int, i + 1) =~= v@.subrange(a as int, i as int).push(v@[i as int]));
        i = i + 1;
    }
    r
}

/// Returns the first line of `text` that is not blank, trimmed.
pub fn first_nonempty_line_of(text: &str) -> (r: Option<String>)
    ensures
        r is Some == first_nonempty_line(text@) is Some,
        r matches Some(line) ==> line@ == first_nonempty_line(text@).unwrap(),
{
    let v = chars_of(text);
    let mut pos: usize = 0;
    assert(v@.skip(0) =~= v@);
    while pos <= v.len()
        invariant
            pos <= v.len(),
            v@ == text@,
            first_nonempty_line(text@) == first_nonempty_line(v@.skip(pos as int)),
        decreases v.len() + 1 - pos,
    {
        let ghost rest = v@.skip(pos as int);
        let mut end: usize = pos;
        while end < v.len() && v[end] != '\n'
            invariant
                pos <= end <= v.len(),
                forall|j: int| pos <= j < end ==> v@[j] != '\n',
            decreases v.len() - end,
        {
            end = end + 1;
        }
        proof {
            lemma_first_index_of(rest, '\n');
            let k = first_index_of(rest, '\n');
            if end < v.len() {
                assert(rest[end - pos] == '\n');
                if k < 0 || k > end - pos {
                    assert(rest[end - pos] != '\n');
                }
                if k < end - pos {
                    assert(rest[k] == v@[pos + k]);
                }
                assert(k == end - pos);
                assert(rest.take(k) =~= v@.subrange(pos as int, end as int));
            } else {
                if k >= 0 {
                    assert(rest[k] == v@[pos + k]);
                }
                assert(k < 0);
                assert(rest =~= v@.subrange(pos as int, end as int));
            }
        }
        let line = trimmed_range(&v, pos, end);
        if line.len() > 0 {
            return Some(string_from_chars(&line));
        }
        if end == v.len() {
            return None;
        }
        proof {
            assert(rest.skip(end - pos + 1) =~= v@.skip(end + 1));
        }
        pos = end + 1;
    }
    None
}

/// Strict lexicographic order on character sequences, comparing characters
/// by their scalar values. This is the order of `str`'s `Ord`.
pub open spec fn seq_lt(a: Seq<char>, b: Seq<char>) -> bool
    decreases a.len(),
{
    if a.len() == 0 {
        b.len() > 0
    } else if b.len() == 0 {
        false
    } else if (a[0] as int) < (b[0] as int) {
        true
    } else if a[0] == b[0] {
        seq_lt(a.drop_first(), b.drop_first())
    } else {
        false
    }
}

/// A sequence of texts in strictly increasing lexicographic order (so also
/// without repeats).
pub open spec fn strictly_sorted(s: Seq<Seq<char>>) -> bool {
    forall|i: int, j: int| 0 <= i < j < s.len() ==> seq_lt(#[trigger] s[i], #[trigger] s[j])
}

/// The texts of a sequence of strings.
pub open spec fn texts(v: Seq<String>) -> Seq<Seq<char>> {
    v.map_values(|s: String| s@)
}

pub proof fn lemma_seq_lt_irreflexive(a: Seq<char>)
    ensures
        !seq_lt(a, a),
    decreases a.len(),
{
    if a.len() > 0 {
        lemma_seq_lt_irreflexive(a.drop_first());
    }
}

pub proof fn lemma_seq_lt_transitive(a: Seq<char>, b: Seq<char>, c: Seq<char>)
    requires
        seq_lt(a, b),
        seq_lt(b, c),
    ensures
        seq_lt(a, c),
    decreases a.len(),
{
    if a.len() > 0 && b.len() > 0 && c.len() > 0 && a[0] == b[0] && b[0] == c[0] {
        lemma_seq_lt_transitive(a.drop_first(), b.drop_first(), c.drop_first());
    }
}

pub proof fn lemma_seq_lt_total(a: Seq<char>, b: Seq<char>)
    ensures
        a == b || seq_lt(a, b) || seq_lt(b, a),
    decreases a.len(),
{
    if a.len() > 0 && b.len() > 0 {
        if a[0] == b[0] {
            lemma_seq_lt_total(a.drop_first(), b.drop_first());
            if a.drop_first() == b.drop_first() {
                assert(a =~= seq![a[0]] + a.drop_first());
                assert(b =~= seq![b[0]] + b.drop_first());
            }
        } else {
            assert((a[0] as int) != (b[0] as int));
        }
    } else if a.len() == 0 && b.len() == 0 {
        assert(a =~= b);
    }
}

pub proof fn lemma_seq_lt_asymmetric(a: Seq<char>, b: Seq<char>)
    requires
        seq_lt(a, b),
    ensures
        !seq_lt(b, a),
{
    if seq_lt(b, a) {
        lemma_seq_lt_transitive(a, b, a);
        lemma_seq_lt_irreflexive(a);
    }
}

/// Decides `seq_lt` on two character vectors.
pub fn chars_lt(a: &Vec<char>, b: &Vec<char>) -> (r: bool)
    ensures
        r == seq_lt(a@, b@),
{
    let mut i: usize = 0;
    assert(a@.skip(0) =~= a@);
    assert(b@.skip(0) =~= b@);
    while i < a.len() && i < b.len()
        invariant
            i <= a.len(),
            i <= b.len(),
            seq_lt(a@, b@) == seq_lt(a@.skip(i as int), b@.skip(i as int)),
        decreases a.len() - i,
    {
        assert(a@.skip(i as int)[0] == a@[i as int]);
        assert(b@.skip(i as int)[0] == b@[i as int]);
        if a[i] < b[i] {
            return true;
        }
        if a[i] != b[i] {
            return false;
        }
        assert(a@.skip(i as int).drop_first() =~= a@.skip(i + 1));
        assert(b@.skip(i as int).drop_first() =~= b@.skip(i + 1));
        i = i + 1;
    }
    i == a.len() && i < b.len()
}

/// Decides `seq_lt` on two strings.
pub fn text_lt(a: &str, b: &str) -> (r: bool)
    ensures
        r == seq_lt(a@, b@),
{
    let av = chars_of(a);
    let bv = chars_of(b);
    chars_lt(&av, &bv)
}

/// Decides equality of two strings.
pub fn text_eq(a: &str, b: &str) -> (r: bool)
    ensures
        r == (a@ == b@),
{
    let av = chars_of(a);
    let bv = chars_of(b);
    if av.len() != bv.len() {
        return false;
    }
    for i in 0..av.len()
        invariant
            av@ == a@,
            bv@ == b@,
            av@.len() == bv@.len(),
            forall|k: int| 0 <= k < i ==> av@[k] == bv@[k],
    {
        if av[i] != bv[i] {
            assert(av@[i as int] != bv@[i as int]);
            return false;
        }
    }
    assert(av@ =~= bv@);
    true
}

/// Position at which `x` belongs in a strictly sorted vector of strings, and
/// whether it is already there.
pub fn sorted_position(v: &Vec<String>, x: &str) -> (r: (usize, bool))
    requires
        strictly_sorted(texts(v@)),
    ensures
        r.0 <= v.len(),
        r.1 ==> r.0 < v.len() && v@[r.0 as int]@ == x@,
        !r.1 ==> forall|k: int| 0 <= k < v.len() ==> v@[k]@ != x@,
        forall|k: int| 0 <= k < r.0 ==> seq_lt(#[trigger] v@[k]@, x@),
        forall|k: int| r.0 <= k < v.len() && !(r.1 && k == r.0) ==> seq_lt(x@, #[trigger] v@[k]@),
{
    let mut i: usize = 0;
    while i < v.len()
        invariant
            i <= v.len(),
            strictly_sorted(texts(v@)),
            forall|k: int| 0 <= k < i ==> seq_lt(#[trigger] v@[k]@, x@),
        decreases v.len() - i,
    {
        if !text_lt(v[i].as_str(), x) {
            let same = text_eq(v[i].as_str(), x);
            proof {
                lemma_seq_lt_total(v@[i as int]@, x@);
                assert forall|k: int| i <= k < v.len() && !(same && k == i) implies seq_lt(x@, #[trigger] v@[k]@) by {
                    if k > i {
                        assert(seq_lt(texts(v@)[i as int], texts(v@)[k]));
                        if !same {
                            lemma_seq_lt_transitive(x@, v@[i as int]@, v@[k]@);
                        }
                    }
                }
                if !same {
                    assert forall|k: int| 0 <= k < v.len() implies v@[k]@ != x@ by {
                        if k < i {
                            assert(seq_lt(v@[k]@, x@));
                            lemma_seq_lt_irreflexive(x@);
                        } else {
                            assert(seq_lt(x@, v@[k]@));
                            lemma_seq_lt_irreflexive(x@);
                        }
                    }
                }
            }
            return (i, same);
        }
        i = i + 1;
    }
    proof {
        assert forall|k: int| 0 <= k < v.len() implies v@[k]@ != x@ by {
            assert(seq_lt(v@[k]@, x@));
            lemma_seq_lt_irreflexive(x@);
        }
    }
    (i, false)
}

/// Inserts `x` at `pos` in a strictly sorted vector, where every string
/// before `pos` orders before `x` and every string from `pos` on orders after
/// it; the vector stays strictly sorted and gains exactly `x`.
pub fn insert_absent(v: &mut Vec<String>, pos: usize, x: String)
    requires
        strictly_sorted(texts(old(v)@)),
        pos <= old(v).len(),
        forall|k: int| 0 <= k < pos ==> seq_lt(#[trigger] old(v)@[k]@, x@),
        forall|k: int| pos <= k < old(v).len() ==> seq_lt(x@, #[trigger] old(v)@[k]@),
    ensures
        strictly_sorted(texts(final(v)@)),
        texts(final(v)@) == texts(old(v)@).insert(pos as int, x@),
        texts(final(v)@).to_set() == texts(old(v)@).to_set().insert(x@),
        final(v)@ == old(v)@.insert(pos as int, x),
{
    let ghost xv = x@;
    let ghost before = v@;
    v.insert(pos, x);
    proof {
        assert forall|i: int, j: int| 0 <= i < j < texts(v@).len() implies seq_lt(
            #[trigger] texts(v@)[i],
            #[trigger] texts(v@)[j],
        ) by {
            if j < pos {
                assert(seq_lt(texts(before)[i], texts(before)[j]));
            } else if i > pos {
                assert(seq_lt(texts(before)[i - 1], texts(before)[j - 1]));
            } else if i == pos {
                assert(seq_lt(xv, before[j - 1]@));
            } else if j == pos {
                assert(seq_lt(before[i]@, xv));
            } else {
                assert(seq_lt(texts(before)[i], texts(before)[j - 1]));
            }
        }
        assert(texts(v@) =~= texts(before).insert(pos as int, xv));
        assert forall|t: Seq<char>| texts(v@).to_set().contains(t) <==> texts(before).to_set().insert(xv).contains(t) by {
            if texts(v@).to_set().contains(t) {
                let k = texts(v@).index_of(t);
                if k < pos {
                    assert(texts(before)[k] == t);
                } else if k > pos {
                    assert(texts(before)[k - 1] == t);
                }
            }
            if texts(before).to_set().contains(t) {
                let k = texts(before).index_of(t);
                if k < pos {
                    assert(texts(v@)[k] == t);
                } else {
                    assert(texts(v@)[k + 1] == t);
                }
            }
            if t == xv {
                assert(texts(v@)[pos as int] == t);
            }
        }
        assert(texts(v@).to_set() =~= texts(before).to_set().insert(xv));
    }
}

/// Adds `x` to a strictly sorted vector of strings, keeping it strictly
/// sorted; does nothing when `x` is already present.
pub fn sorted_insert(v: &mut Vec<String>, x: String)
    requires
        strictly_sorted(texts(old(v)@)),
    ensures
        strictly_sorted(texts(final(v)@)),
        texts(final(v)@).to_set() == texts(old(v)@).to_set().insert(x@),
{
    let (pos, found) = sorted_position(v, x.as_str());
    if !found {
        insert_absent(v, pos, x);
    } else {
        proof {
            assert(texts(v@)[pos as int] == x@);
            assert(texts(v@).to_set().contains(x@));
            assert(texts(v@).to_set() =~= texts(v@).to_set().insert(x@));
        }
    }
}

/// The distinct texts of `v`, strictly sorted.
pub fn sorted_texts(v: &Vec<String>) -> (r: Vec<String>)
    ensures
        strictly_sorted(texts(r@)),
        texts(r@).to_set() == texts(v@).to_set(),
{
    let mut r: Vec<String> = Vec::new();
    let mut i: usize = 0;
    assert(texts(r@).to_set() =~= texts(v@).take(0).to_set());
    while i < v.len()
        invariant
            i <= v@.len(),
            strictly_sorted(texts(r@)),
            texts(r@).to_set() == texts(v@).take(i as int).to_set(),
        decreases v@.len() - i,
    {
        sorted_insert(&mut r, v[i].clone());
        assert(texts(v@).take(i + 1) =~= texts(v@).take(i as int).push(v@[i as int]@));
        proof {
            texts(v@).take(i as int).lemma_push_to_set_commute(v@[i as int]@);
        }
        i = i + 1;
    }
    assert(texts(v@).take(v@.len() as int) =~= texts(v@));
    r
}

/// Two strictly sorted sequences of texts with the same elements are equal.
pub proof fn lemma_sorted_unique(a: Seq<Seq<char>>, b: Seq<Seq<char>>)
    requires
        strictly_sorted(a),
        strictly_sorted(b),
        a.to_set() == b.to_set(),
    ensures
        a == b,
    decreases a.len(),
{
    if a.len() == 0 {
        if b.len() > 0 {
            assert(b.to_set().contains(b[0]));
            assert(!a.to_set().contains(b[0]));
        }
        assert(a =~= b);
    } else if b.len() == 0 {
        assert(a.to_set().contains(a[0]));
        assert(!b.to_set().contains(a[0]));
    } else {
        assert(a.to_set().contains(a[0]));
        assert(b.to_set().contains(b[0]));
        let i = a.index_of(b[0]);
        let j = b.index_of(a[0]);
        if a[0] != b[0] {
            assert(i > 0 && j > 0);
            assert(seq_lt(a[0], a[i]));
            assert(seq_lt(b[0], b[j]));
            lemma_seq_lt_asymmetric(a[0], b[0]);
        }
        let a1 = a.drop_first();
        let b1 = b.drop_first();
        assert(strictly_sorted(a1)) by {
            assert forall|x: int, y: int| 0 <= x < y < a1.len() implies seq_lt(#[trigger] a1[x], #[trigger] a1[y]) by {
                assert(a1[x] == a[x + 1] && a1[y] == a[y + 1]);
            }
        }
        assert(strictly_sorted(b1)) by {
            assert forall|x: int, y: int| 0 <= x < y < b1.len() implies seq_lt(#[trigger] b1[x], #[trigger] b1[y]) by {
                assert(b1[x] == b[x + 1] && b1[y] == b[y + 1]);
            }
        }
        assert(a1.to_set() =~= b1.to_set()) by {
            assert forall|q: Seq<char>| #[trigger] a1.to_set().contains(q) <==> b1.to_set().contains(q) by {
                if a1.to_set().contains(q) {
                    let x = a1.index_of(q);
                    assert(a[x + 1] == q);
                    assert(seq_lt(a[0], q));
                    lemma_seq_lt_irreflexive(q);
                    assert(b.to_set().contains(q));
                    let y = b.index_of(q);
                    assert(y != 0);
                    assert(b1[y - 1] == q);
                }
                if b1.to_set().contains(q) {
                    let y = b1.index_of(q);
                    assert(b[y + 1] == q);
                    assert(seq_lt(b[0], q));
                    lemma_seq_lt_irreflexive(q);
                    assert(a.to_set().contains(q));
                    let x = a.index_of(q);
                    assert(x != 0);
                    assert(a1[x - 1] == q);
                }
            }
        }
        lemma_sorted_unique(a1, b1);
        assert(a =~= seq![a[0]] + a1);
        assert(b =~= seq![b[0]] + b1);
    }
}

} // verus!
