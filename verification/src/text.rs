//! Character-level text handling: lines, words and trimming, as the
//! standard library's `str::lines`, `str::split_whitespace` and `str::trim` define them.

use vstd::prelude::*;
use vstd::utf8::{decode_utf8, valid_utf8};

verus! {

broadcast use vstd::string::group_string_axioms;

/// The characters that carry the Unicode `White_Space` property, which is what
/// `char::is_whitespace` tests.
pub open spec fn is_ws(c: char) -> bool {
    ||| ('\u{9}' <= c && c <= '\u{d}')
    ||| c == ' '
    ||| c == '\u{85}'
    ||| c == '\u{a0}'
    ||| c == '\u{1680}'
    ||| ('\u{2000}' <= c && c <= '\u{200a}')
    ||| c == '\u{2028}'
    ||| c == '\u{2029}'
    ||| c == '\u{202f}'
    ||| c == '\u{205f}'
    ||| c == '\u{3000}'
}

/// Position of the first line feed in `s`, or `s.len()` when there is none.
pub open spec fn newline_pos(s: Seq<char>) -> nat
    decreases s.len(),
{
    if s.len() == 0 || s[0] == '\n' {
        0
    } else {
        1 + newline_pos(s.drop_first())
    }
}

/// `l` without one trailing carriage return.
pub open spec fn strip_cr(l: Seq<char>) -> Seq<char> {
    if l.len() > 0 && l.last() == '\r' {
        l.drop_last()
    } else {
        l
    }
}

/// The lines of `s`: pieces separated by `\n`, a `\r` before the `\n` removed,
/// and no empty last piece after a final line feed.
pub open spec fn lines_of(s: Seq<char>) -> Seq<Seq<char>>
    decreases s.len(),
{
    if s.len() == 0 {
        seq![]
    } else {
        let k = newline_pos(s);
        if k < s.len() {
            seq![strip_cr(s.take(k as int))] + lines_of(s.skip(k + 1 as int))
        } else {
            seq![s]
        }
    }
}

/// Length of the run of non-whitespace characters that `s` starts with.
pub open spec fn word_len(s: Seq<char>) -> nat
    decreases s.len(),
{
    if s.len() > 0 && !is_ws(s[0]) {
        1 + word_len(s.drop_first())
    } else {
        0
    }
}

pub proof fn lemma_word_len_bound(s: Seq<char>)
    ensures
        word_len(s) <= s.len(),
    decreases s.len(),
{
    if s.len() > 0 && !is_ws(s[0]) {
        lemma_word_len_bound(s.drop_first());
    }
}

/// The words of `s`: its maximal runs of non-whitespace characters, in order.
pub open spec fn words_of(s: Seq<char>) -> Seq<Seq<char>>
    decreases s.len(),
{
    if s.len() == 0 {
        seq![]
    } else if is_ws(s[0]) {
        words_of(s.drop_first())
    } else {
        let n = word_len(s);
        proof {
            lemma_word_len_bound(s);
        }
        seq![s.take(n as int)] + words_of(s.skip(n as int))
    }
}

/// `s` without its leading whitespace.
pub open spec fn trim_start_of(s: Seq<char>) -> Seq<char>
    decreases s.len(),
{
    if s.len() > 0 && is_ws(s[0]) {
        trim_start_of(s.drop_first())
    } else {
        s
    }
}

/// `s` without its trailing whitespace.
pub open spec fn trim_end_of(s: Seq<char>) -> Seq<char>
    decreases s.len(),
{
    if s.len() > 0 && is_ws(s.last()) {
        trim_end_of(s.drop_last())
    } else {
        s
    }
}

/// `s` without leading and trailing whitespace.
pub open spec fn trim_of(s: Seq<char>) -> Seq<char> {
    trim_end_of(trim_start_of(s))
}

/// Whether `c` has the Unicode `White_Space` property.
pub fn is_whitespace(c: char) -> (r: bool)
    ensures
        r == is_ws(c),
{
    ('\u{9}' <= c && c <= '\u{d}') || c == ' ' || c == '\u{85}' || c == '\u{a0}' || c == '\u{1680}'
        || ('\u{2000}' <= c && c <= '\u{200a}') || c == '\u{2028}' || c == '\u{2029}' || c
        == '\u{202f}' || c == '\u{205f}' || c == '\u{3000}'
}

/// The characters of `s`, in order.
pub fn chars_of(s: &str) -> (r: Vec<char>)
    ensures
        r@ == s@,
{
    let mut out: Vec<char> = Vec::new();
    for c in it: s.chars()
        invariant
            out@ == it.seq().take(it.index() as int),
            it.seq() == s@,
    {
        out.push(c);
    }
    out
}

/// `String::push`: appends `c` to `s`.
#[verifier::external_body]
pub(crate) fn push_char(s: &mut String, c: char)
    ensures
        final(s)@ == old(s)@.push(c),
{
    s.push(c);
}

/// The string made of the characters `c[from..to]`.
pub fn string_of(c: &Vec<char>, from: usize, to: usize) -> (r: String)
    requires
        from <= to <= c.len(),
    ensures
        r@ == c@.subrange(from as int, to as int),
{
    let mut out = String::new();
    let mut i = from;
    while i < to
        invariant
            from <= i <= to <= c.len(),
            out@ == c@.subrange(from as int, i as int),
        decreases to - i,
    {
        push_char(&mut out, c[i]);
        assert(c@.subrange(from as int, i + 1) =~= c@.subrange(from as int, i as int).push(c@[i as int]));
        i += 1;
    }
    out
}

/// The characters `c[from..to]`.
pub fn chars_between(c: &Vec<char>, from: usize, to: usize) -> (r: Vec<char>)
    requires
        from <= to <= c.len(),
    ensures
        r@ == c@.subrange(from as int, to as int),
{
    let mut out: Vec<char> = Vec::new();
    let mut i = from;
    while i < to
        invariant
            from <= i <= to <= c.len(),
            out@ == c@.subrange(from as int, i as int),
        decreases to - i,
    {
        out.push(c[i]);
        assert(c@.subrange(from as int, i + 1) =~= c@.subrange(from as int, i as int).push(c@[i as int]));
        i += 1;
    }
    out
}

/// Whether the characters of `c` are exactly those of `s`.
pub fn chars_equal(c: &Vec<char>, s: &str) -> (r: bool)
    ensures
        r == (c@ == s@),
{
    let t = chars_of(s);
    if c.len() != t.len() {
        return false;
    }
    let mut i: usize = 0;
    while i < c.len()
        invariant
            c.len() == t.len(),
            i <= c.len(),
            t@ == s@,
            forall|k: int| 0 <= k < i ==> c@[k] == t@[k],
        decreases c.len() - i,
    {
        if c[i] != t[i] {
            return false;
        }
        i += 1;
    }
    assert(c@ =~= t@);
    true
}

/// Whether `c` starts with the characters of `s`.
pub fn chars_start_with(c: &Vec<char>, s: &str) -> (r: bool)
    ensures
        r == (s@.len() <= c@.len() && c@.take(s@.len() as int) == s@),
{
    let t = chars_of(s);
    if c.len() < t.len() {
        return false;
    }
    let mut i: usize = 0;
    while i < t.len()
        invariant
            t.len() <= c.len(),
            i <= t.len(),
            t@ == s@,
            forall|k: int| 0 <= k < i ==> c@[k] == t@[k],
        decreases t.len() - i,
    {
        if c[i] != t[i] {
            assert(c@.take(t@.len() as int)[i as int] != t@[i as int]);
            return false;
        }
        i += 1;
    }
    assert(c@.take(t@.len() as int) =~= t@);
    true
}

/// The lines of `c`, as `str::lines` yields them.
pub fn split_lines(c: &Vec<char>) -> (r: Vec<Vec<char>>)
    ensures
        r.deep_view() == lines_of(c@),
{
    let n = c.len();
    let mut out: Vec<Vec<char>> = Vec::new();
    let mut start: usize = 0;
    assert(c@.skip(0) =~= c@);
    while start < n
        invariant
            n == c.len(),
            start <= n,
            out.deep_view() + lines_of(c@.skip(start as int)) == lines_of(c@),
        decreases n - start,
    {
        let ghost rest = c@.skip(start as int);
        let mut j = start;
        while j < n && c[j] != '\n'
            invariant
                n == c.len(),
                start <= j <= n,
                rest == c@.skip(start as int),
                newline_pos(rest) == (j - start) + newline_pos(c@.skip(j as int)),
            decreases n - j,
        {
            assert(c@.skip(j as int).drop_first() =~= c@.skip(j + 1));
            j += 1;
        }
        let ghost k = newline_pos(rest);
        assert(k == j - start);
        assert(rest.take(k as int) =~= c@.subrange(start as int, j as int));
        let line;
        if j < n {
            let mut end = j;
            if end > start && c[end - 1] == '\r' {
                end = end - 1;
            }
            line = chars_between(c, start, end);
            assert(line@ =~= strip_cr(rest.take(k as int)));
            assert(rest.skip(k + 1 as int) =~= c@.skip(j + 1));
            assert(lines_of(rest) == seq![line@] + lines_of(c@.skip(j + 1)));
            start = j + 1;
        } else {
            line = chars_between(c, start, n);
            assert(line@ =~= rest);
            assert(lines_of(rest) == seq![line@]);
            assert(c@.skip(n as int) =~= Seq::<char>::empty());
            start = n;
        }
        let ghost before = out.deep_view();
        assert(line.deep_view() =~= line@);
        out.push(line);
        assert(out.deep_view() =~= before.push(line@));
        assert(out.deep_view() + lines_of(c@.skip(start as int)) =~= before + lines_of(rest));
    }
    assert(c@.skip(n as int) =~= Seq::<char>::empty());
    assert(out.deep_view() + Seq::<Seq<char>>::empty() =~= out.deep_view());
    out
}

/// The words of `c`, as `str::split_whitespace` yields them.
pub fn split_words(c: &Vec<char>) -> (r: Vec<Vec<char>>)
    ensures
        r.deep_view() == words_of(c@),
{
    let n = c.len();
    let mut out: Vec<Vec<char>> = Vec::new();
    let mut i: usize = 0;
    assert(c@.skip(0) =~= c@);
    while i < n
        invariant
            n == c.len(),
            i <= n,
            out.deep_view() + words_of(c@.skip(i as int)) == words_of(c@),
        decreases n - i,
    {
        let ghost rest = c@.skip(i as int);
        if is_whitespace(c[i]) {
            assert(rest.drop_first() =~= c@.skip(i + 1));
            i += 1;
        } else {
            let mut j = i;
            while j < n && !is_whitespace(c[j])
                invariant
                    n == c.len(),
                    i <= j <= n,
                    rest == c@.skip(i as int),
                    word_len(rest) == (j - i) + word_len(c@.skip(j as int)),
                decreases n - j,
            {
                assert(c@.skip(j as int).drop_first() =~= c@.skip(j + 1));
                j += 1;
            }
            let word = chars_between(c, i, j);
            assert(word@ =~= rest.take((j - i) as int));
            assert(rest.skip((j - i) as int) =~= c@.skip(j as int));
            assert(words_of(rest) == seq![word@] + words_of(c@.skip(j as int)));
            let ghost before = out.deep_view();
            assert(word.deep_view() =~= word@);
            out.push(word);
            assert(out.deep_view() =~= before.push(word@));
            assert(out.deep_view() + words_of(c@.skip(j as int)) =~= before + words_of(rest));
            i = j;
        }
    }
    assert(c@.skip(n as int) =~= Seq::<char>::empty());
    assert(out.deep_view() + Seq::<Seq<char>>::empty() =~= out.deep_view());
    out
}

/// `c` without leading and trailing whitespace, as `str::trim` gives it.
pub fn trim_chars(c: &Vec<char>) -> (r: Vec<char>)
    ensures
        r@ == trim_of(c@),
{
    let n = c.len();
    let mut a: usize = 0;
    assert(c@.skip(0) =~= c@);
    while a < n && is_whitespace(c[a])
        invariant
            n == c.len(),
            a <= n,
            trim_start_of(c@) == trim_start_of(c@.skip(a as int)),
        decreases n - a,
    {
        assert(c@.skip(a as int).drop_first() =~= c@.skip(a + 1));
        a += 1;
    }
    assert(c@.skip(a as int) =~= c@.subrange(a as int, n as int));
    let mut b: usize = n;
    while b > a && is_whitespace(c[b - 1])
        invariant
            n == c.len(),
            a <= b <= n,
            trim_start_of(c@) == c@.subrange(a as int, n as int),
            trim_of(c@) == trim_end_of(c@.subrange(a as int, b as int)),
        decreases b - a,
    {
        assert(c@.subrange(a as int, b as int).drop_last() =~= c@.subrange(a as int, b - 1));
        b -= 1;
    }
    chars_between(c, a, b)
}

/// What `String::from_utf8_lossy` makes of `bytes`: the decoded characters,
/// each invalid sequence replaced by U+FFFD.
pub uninterp spec fn utf8_lossy(bytes: Seq<u8>) -> Seq<char>;

/// `String::from_utf8_lossy`, made owned. Its result is named `utf8_lossy`; where
/// `bytes` are valid UTF-8 its documentation says that nothing is replaced, so the
/// result is their decoding.
#[verifier::external_body]
pub(crate) fn decode_lossy(bytes: &[u8]) -> (r: String)
    ensures
        r@ == utf8_lossy(bytes@),
        valid_utf8(bytes@) ==> r@ == decode_utf8(bytes@),
{
    String::from_utf8_lossy(bytes).into_owned()
}

/// The digit character for `d`, which is below ten.
pub open spec fn digit_char(d: nat) -> char {
    if d == 0 {
        '0'
    } else if d == 1 {
        '1'
    } else if d == 2 {
        '2'
    } else if d == 3 {
        '3'
    } else if d == 4 {
        '4'
    } else if d == 5 {
        '5'
    } else if d == 6 {
        '6'
    } else if d == 7 {
        '7'
    } else if d == 8 {
        '8'
    } else {
        '9'
    }
}

/// The decimal digits of `n`, most significant first, without leading zeros.
pub open spec fn decimal_of(n: nat) -> Seq<char>
    decreases n,
{
    if n < 10 {
        seq![digit_char(n)]
    } else {
        decimal_of(n / 10).push(digit_char(n % 10))
    }
}

/// How `{}` prints an integer: its decimal digits, after a minus sign when negative.
pub open spec fn signed_decimal_of(n: int) -> Seq<char> {
    if n < 0 {
        seq!['-'] + decimal_of((-n) as nat)
    } else {
        decimal_of(n as nat)
    }
}

/// The digit character for `d`.
fn digit(d: u64) -> (c: char)
    requires
        d < 10,
    ensures
        c == digit_char(d as nat),
{
    match d {
        0 => '0',
        1 => '1',
        2 => '2',
        3 => '3',
        4 => '4',
        5 => '5',
        6 => '6',
        7 => '7',
        8 => '8',
        _ => '9',
    }
}

/// Appends the decimal digits of `n` to `s`.
pub fn push_decimal(s: &mut String, n: u64)
    ensures
        final(s)@ == old(s)@ + decimal_of(n as nat),
    decreases n,
{
    if n >= 10 {
        push_decimal(s, n / 10);
    }
    push_char(s, digit(n % 10));
    assert(old(s)@ + decimal_of(n as nat) =~= if n < 10 {
        old(s)@.push(digit_char(n as nat))
    } else {
        (old(s)@ + decimal_of((n / 10) as nat)).push(digit_char((n % 10) as nat))
    });
}

/// Appends `n` as `{}` prints it to `s`.
pub fn push_signed_decimal(s: &mut String, n: i32)
    ensures
        final(s)@ == old(s)@ + signed_decimal_of(n as int),
{
    if n < 0 {
        push_char(s, '-');
        let m: i64 = n as i64;
        push_decimal(s, (-m) as u64);
        assert(old(s)@.push('-') + decimal_of((-n) as nat) =~= old(s)@ + (seq!['-'] + decimal_of((-n) as nat)));
    } else {
        push_decimal(s, n as u64);
    }
}

proof fn lemma_newline_pos_bound(s: Seq<char>)
    ensures
        newline_pos(s) <= s.len(),
        newline_pos(s) < s.len() ==> s[newline_pos(s) as int] == '\n',
    decreases s.len(),
{
    if s.len() > 0 && s[0] != '\n' {
        lemma_newline_pos_bound(s.drop_first());
    }
}

proof fn lemma_newline_pos_push(s: Seq<char>, c: char)
    ensures
        newline_pos(s) < s.len() ==> newline_pos(s.push(c)) == newline_pos(s),
        newline_pos(s) == s.len() && c == '\n' ==> newline_pos(s.push(c)) == s.len(),
    decreases s.len(),
{
    lemma_newline_pos_bound(s);
    if s.len() > 0 {
        assert(s.push(c)[0] == s[0]);
        if s[0] != '\n' {
            assert(s.push(c).drop_first() =~= s.drop_first().push(c));
            lemma_newline_pos_push(s.drop_first(), c);
        }
    } else {
        assert(s.push(c)[0] == c);
    }
}

/// A final line ending adds no line: text that ends with neither a line feed nor
/// a carriage return has the same lines with a line feed after it.
pub proof fn lemma_final_line_feed(s: Seq<char>)
    requires
        s.len() > 0,
        s.last() != '\n',
        s.last() != '\r',
    ensures
        lines_of(s.push('\n')) == lines_of(s),
    decreases s.len(),
{
    let t = s.push('\n');
    let k = newline_pos(s);
    lemma_newline_pos_bound(s);
    lemma_newline_pos_push(s, '\n');
    if k < s.len() {
        assert(k < s.len() - 1);
        assert(t.take(k as int) =~= s.take(k as int));
        assert(t.skip(k + 1 as int) =~= s.skip(k + 1 as int).push('\n'));
        assert(s.skip(k + 1 as int).last() == s.last());
        lemma_final_line_feed(s.skip(k + 1 as int));
    } else {
        assert(t.take(k as int) =~= s);
        assert(t.skip(k + 1 as int) =~= Seq::<char>::empty());
        assert(lines_of(t) == seq![strip_cr(s)] + lines_of(Seq::<char>::empty()));
        assert(seq![strip_cr(s)] + Seq::<Seq<char>>::empty() =~= seq![s]);
    }
}

/// Whether `c` is one of the ten decimal digits.
pub open spec fn is_decimal_digit(c: char) -> bool {
    '0' <= c && c <= '9'
}

/// The number that a decimal digit stands for (none other than the ten digits
/// is asked of it).
pub open spec fn digit_value(c: char) -> int {
    if c == '1' {
        1
    } else if c == '2' {
        2
    } else if c == '3' {
        3
    } else if c == '4' {
        4
    } else if c == '5' {
        5
    } else if c == '6' {
        6
    } else if c == '7' {
        7
    } else if c == '8' {
        8
    } else if c == '9' {
        9
    } else {
        0
    }
}

/// The number that a string of decimal digits stands for, most significant first.
pub open spec fn value_of_digits(s: Seq<char>) -> int
    decreases s.len(),
{
    if s.len() == 0 {
        0
    } else {
        value_of_digits(s.drop_last()) * 10 + digit_value(s.last())
    }
}

/// The decimal text of `n` is made of digits, has no leading zero, and stands for `n`.
pub proof fn lemma_decimal_stands_for(n: nat)
    ensures
        decimal_of(n).len() > 0,
        forall|i: int| 0 <= i < decimal_of(n).len() ==> is_decimal_digit(#[trigger] decimal_of(n)[i]),
        n > 0 ==> decimal_of(n)[0] != '0',
        value_of_digits(decimal_of(n)) == n,
    decreases n,
{
    if n < 10 {
        assert(seq![digit_char(n)].drop_last() =~= Seq::<char>::empty());
        assert(digit_value(digit_char(n)) == n);
        assert(value_of_digits(Seq::<char>::empty()) == 0);
        assert(value_of_digits(seq![digit_char(n)]) == 0 * 10 + digit_value(digit_char(n)));
    } else {
        lemma_decimal_stands_for(n / 10);
        let d = decimal_of(n / 10);
        assert(decimal_of(n).drop_last() =~= d);
        assert(decimal_of(n)[0] == d[0]);
        let r = (n % 10) as nat;
        assert(r < 10);
        assert(digit_value(digit_char(r)) == r);
        assert(n == (n / 10) * 10 + r);
        assert(decimal_of(n).last() == digit_char(r));
        assert(value_of_digits(decimal_of(n)) == value_of_digits(d) * 10 + digit_value(digit_char(r)));
    }
}

/// `s.filter(p).map_values(f)` after one more element.
pub proof fn lemma_filter_map_step<A, B>(s: Seq<A>, p: spec_fn(A) -> bool, f: spec_fn(A) -> B)
    requires
        s.len() > 0,
    ensures
        s.filter(p).map_values(f) == (if p(s.last()) {
            s.drop_last().filter(p).map_values(f).push(f(s.last()))
        } else {
            s.drop_last().filter(p).map_values(f)
        }),
{
    reveal(Seq::filter);
    let before = s.drop_last().filter(p);
    if p(s.last()) {
        assert(before.push(s.last()).map_values(f) =~= before.map_values(f).push(f(s.last())));
    }
}

/// A line without a line feed is a line of its own.
pub proof fn lemma_single_line(t: Seq<char>)
    requires
        t.len() > 0,
        forall|i: int| 0 <= i < t.len() ==> t[i] != '\n',
    ensures
        lines_of(t) == seq![t],
{
    lemma_no_newline_pos(t);
}

proof fn lemma_no_newline_pos(t: Seq<char>)
    requires
        forall|i: int| 0 <= i < t.len() ==> t[i] != '\n',
    ensures
        newline_pos(t) == t.len(),
    decreases t.len(),
{
    if t.len() > 0 {
        assert forall|i: int| 0 <= i < t.drop_first().len() implies t.drop_first()[i] != '\n' by {
            assert(t.drop_first()[i] == t[i + 1]);
        }
        lemma_no_newline_pos(t.drop_first());
    }
}

proof fn lemma_word_len_of_word(a: Seq<char>, rest: Seq<char>)
    requires
        forall|i: int| 0 <= i < a.len() ==> !is_ws(#[trigger] a[i]),
        rest.len() == 0 || is_ws(rest[0]),
    ensures
        word_len(a + rest) == a.len(),
    decreases a.len(),
{
    if a.len() == 0 {
        assert(a + rest =~= rest);
    } else {
        assert((a + rest)[0] == a[0]);
        assert((a + rest).drop_first() =~= a.drop_first() + rest);
        assert forall|i: int| 0 <= i < a.drop_first().len() implies !is_ws(#[trigger] a.drop_first()[i]) by {
            assert(a.drop_first()[i] == a[i + 1]);
        }
        lemma_word_len_of_word(a.drop_first(), rest);
    }
}

/// A run of non-whitespace characters followed by whitespace or by nothing is
/// the first word.
pub proof fn lemma_words_of_word_then(a: Seq<char>, rest: Seq<char>)
    requires
        a.len() > 0,
        forall|i: int| 0 <= i < a.len() ==> !is_ws(#[trigger] a[i]),
        rest.len() == 0 || is_ws(rest[0]),
    ensures
        words_of(a + rest) == seq![a] + words_of(rest),
{
    lemma_word_len_of_word(a, rest);
    assert((a + rest)[0] == a[0]);
    assert((a + rest).take(a.len() as int) =~= a);
    assert((a + rest).skip(a.len() as int) =~= rest);
}

/// Whitespace before text adds no word.
pub proof fn lemma_words_of_space_then(c: char, rest: Seq<char>)
    requires
        is_ws(c),
    ensures
        words_of(seq![c] + rest) == words_of(rest),
{
    assert((seq![c] + rest)[0] == c);
    assert((seq![c] + rest).drop_first() =~= rest);
}

proof fn lemma_word_is_word(s: Seq<char>)
    ensures
        forall|j: int| 0 <= j < word_len(s) ==> !is_ws(#[trigger] s[j]),
    decreases s.len(),
{
    lemma_word_len_bound(s);
    if s.len() > 0 && !is_ws(s[0]) {
        lemma_word_is_word(s.drop_first());
        assert forall|j: int| 0 <= j < word_len(s) implies !is_ws(#[trigger] s[j]) by {
            if j > 0 {
                assert(s[j] == s.drop_first()[j - 1]);
            }
        }
    }
}

/// Every word is a non-empty run of characters none of which is whitespace.
pub proof fn lemma_words_are_words(s: Seq<char>)
    ensures
        forall|i: int|
            0 <= i < words_of(s).len() ==> (#[trigger] words_of(s)[i]).len() > 0 && forall|j: int|
                0 <= j < words_of(s)[i].len() ==> !is_ws(#[trigger] words_of(s)[i][j]),
    decreases s.len(),
{
    if s.len() > 0 {
        if is_ws(s[0]) {
            lemma_words_are_words(s.drop_first());
            assert(words_of(s) == words_of(s.drop_first()));
        } else {
            let n = word_len(s);
            lemma_word_len_bound(s);
            lemma_word_is_word(s);
            lemma_words_are_words(s.skip(n as int));
            let w = words_of(s);
            assert(w == seq![s.take(n as int)] + words_of(s.skip(n as int)));
            assert forall|i: int| 0 <= i < w.len() implies (#[trigger] w[i]).len() > 0 && forall|j: int|
                0 <= j < w[i].len() ==> !is_ws(#[trigger] w[i][j]) by {
                if i == 0 {
                    assert(w[0] == s.take(n as int));
                    assert forall|j: int| 0 <= j < w[0].len() implies !is_ws(#[trigger] w[0][j]) by {
                        assert(w[0][j] == s[j]);
                    }
                } else {
                    assert(w[i] == words_of(s.skip(n as int))[i - 1]);
                }
            }
        }
    }
}

/// No line holds a line feed.
pub proof fn lemma_lines_hold_no_line_feed(s: Seq<char>)
    ensures
        forall|i: int, j: int|
            0 <= i < lines_of(s).len() && 0 <= j < lines_of(s)[i].len() ==> #[trigger] lines_of(s)[i][j]
                != '\n',
    decreases s.len(),
{
    if s.len() > 0 {
        let k = newline_pos(s);
        lemma_newline_pos_bound(s);
        lemma_newline_prefix(s);
        if k < s.len() {
            lemma_lines_hold_no_line_feed(s.skip(k + 1 as int));
            let l = lines_of(s);
            let head = strip_cr(s.take(k as int));
            assert(l == seq![head] + lines_of(s.skip(k + 1 as int)));
            assert forall|i: int, j: int|
                0 <= i < l.len() && 0 <= j < l[i].len() implies #[trigger] l[i][j] != '\n' by {
                if i == 0 {
                    assert(l[0] == head);
                    assert(head[j] == s[j]);
                } else {
                    assert(l[i] == lines_of(s.skip(k + 1 as int))[i - 1]);
                }
            }
        } else {
            assert(lines_of(s) == seq![s]);
        }
    }
}

proof fn lemma_newline_prefix(s: Seq<char>)
    ensures
        forall|j: int| 0 <= j < newline_pos(s) ==> #[trigger] s[j] != '\n',
    decreases s.len(),
{
    lemma_newline_pos_bound(s);
    if s.len() > 0 && s[0] != '\n' {
        lemma_newline_prefix(s.drop_first());
        assert forall|j: int| 0 <= j < newline_pos(s) implies #[trigger] s[j] != '\n' by {
            if j > 0 {
                assert(s[j] == s.drop_first()[j - 1]);
            }
        }
    }
}

} // verus!
