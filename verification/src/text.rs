//! Text as sequences of characters: the vocabulary of the crate's contracts,
//! and the string operations that the rest of the crate is built from.
use vstd::prelude::*;
use vstd::string::*;

verus! {

/// What a sequence of values stands for, element by element.
pub open spec fn views<T: View>(s: Seq<T>) -> Seq<T::V> {
    Seq::new(s.len(), |i: int| s[i]@)
}

/// What an optional value stands for.
pub open spec fn opt_view<T: View>(o: Option<T>) -> Option<T::V> {
    match o {
        Some(v) => Some(v@),
        None => None,
    }
}

/// The smaller of two numbers.
pub open spec fn least(a: int, b: int) -> int {
    if a <= b {
        a
    } else {
        b
    }
}

/// The smaller of two numbers.
pub fn smaller(a: usize, b: usize) -> (r: usize)
    ensures
        r == least(a as int, b as int),
{
    if a <= b {
        a
    } else {
        b
    }
}

/// `String::push` puts the character behind the text that is there.
pub assume_specification[ String::push ](s: &mut String, c: char)
    ensures
        final(s)@ == old(s)@.push(c),
;

/// Whether two pieces of text hold the same characters.
pub fn same(a: &str, b: &str) -> (r: bool)
    ensures
        r == (a@ == b@),
{
    a.to_owned() == b.to_owned()
}

/// The characters of `s`, one by one.
pub fn chars_of(s: &str) -> (r: Vec<char>)
    ensures
        r@ == s@,
{
    let mut out: Vec<char> = Vec::new();
    for c in it: s.chars()
        invariant
            out@ == it.seq().take(it.index() as int),
            it.seq() == s@,
    {
        out.push(c);
    }
    out
}

/// The text that the characters from `from` up to `to` spell.
pub fn string_of(chars: &[char], from: usize, to: usize) -> (r: String)
    requires
        from <= to <= chars@.len(),
    ensures
        r@ == chars@.subrange(from as int, to as int),
{
    let mut out = String::new();
    let mut i: usize = from;
    while i < to
        invariant
            from <= i <= to <= chars@.len(),
            out@ == chars@.subrange(from as int, i as int),
        decreases to - i,
    {
        out.push(chars[i]);
        i += 1;
    }
    out
}

/// The pieces one after another, with `sep` between each two.
pub open spec fn joined(parts: Seq<Seq<char>>, sep: Seq<char>) -> Seq<char>
    decreases parts.len(),
{
    if parts.len() == 0 {
        Seq::empty()
    } else if parts.len() == 1 {
        parts[0]
    } else {
        joined(parts.drop_last(), sep) + sep + parts.last()
    }
}

/// Joins `parts` with `sep` between them.
pub fn join(parts: &[String], sep: &str) -> (r: String)
    ensures
        r@ == joined(views(parts@), sep@),
{
    let mut out = String::new();
    let mut i: usize = 0;
    while i < parts.len()
        invariant
            0 <= i <= parts@.len(),
            out@ == joined(views(parts@).take(i as int), sep@),
        decreases parts@.len() - i,
    {
        proof {
            assert(views(parts@).take(i + 1).drop_last() =~= views(parts@).take(i as int));
        }
        if i > 0 {
            out.append(sep);
        }
        out.append(parts[i].as_str());
        i += 1;
    }
    proof {
        assert(views(parts@).take(parts@.len() as int) =~= views(parts@));
    }
    out
}

/// The characters with Unicode's property `White_Space`.
pub open spec fn is_whitespace(c: char) -> bool {
    ||| '\u{9}' <= c <= '\u{d}'
    ||| c == '\u{20}'
    ||| c == '\u{85}'
    ||| c == '\u{a0}'
    ||| c == '\u{1680}'
    ||| '\u{2000}' <= c <= '\u{200a}'
    ||| c == '\u{2028}'
    ||| c == '\u{2029}'
    ||| c == '\u{202f}'
    ||| c == '\u{205f}'
    ||| c == '\u{3000}'
}

fn whitespace(c: char) -> (r: bool)
    ensures
        r == is_whitespace(c),
{
    ('\u{9}' <= c && c <= '\u{d}') || c == '\u{20}' || c == '\u{85}' || c == '\u{a0}' || c == '\u{1680}'
        || ('\u{2000}' <= c && c <= '\u{200a}') || c == '\u{2028}' || c == '\u{2029}' || c == '\u{202f}'
        || c == '\u{205f}' || c == '\u{3000}'
}

/// `s` without the whitespace in front.
pub open spec fn trimmed_start(s: Seq<char>) -> Seq<char>
    decreases s.len(),
{
    if s.len() > 0 && is_whitespace(s[0]) {
        trimmed_start(s.drop_first())
    } else {
        s
    }
}

/// `s` without the whitespace at its end.
pub open spec fn trimmed_end(s: Seq<char>) -> Seq<char>
    decreases s.len(),
{
    if s.len() > 0 && is_whitespace(s.last()) {
        trimmed_end(s.drop_last())
    } else {
        s
    }
}

/// `s` without whitespace at either end.
pub open spec fn trimmed(s: Seq<char>) -> Seq<char> {
    trimmed_end(trimmed_start(s))
}

/// Without whitespace in front, there is none in front once the end is cut.
proof fn start_stays_trimmed(s: Seq<char>)
    requires
        trimmed_start(s) == s,
    ensures
        trimmed_start(trimmed_end(s)) == trimmed_end(s),
    decreases s.len(),
{
    if s.len() > 0 && is_whitespace(s.last()) {
        if is_whitespace(s[0]) {
            start_is_no_longer(s.drop_first());
        }
        assert(!is_whitespace(s[0]));
        let t = s.drop_last();
        assert(t.len() > 0 ==> t[0] == s[0]);
        start_stays_trimmed(t);
    }
}

proof fn start_is_no_longer(s: Seq<char>)
    ensures
        trimmed_start(s).len() <= s.len(),
    decreases s.len(),
{
    if s.len() > 0 && is_whitespace(s[0]) {
        start_is_no_longer(s.drop_first());
    }
}

proof fn start_is_trimmed(s: Seq<char>)
    ensures
        trimmed_start(trimmed_start(s)) == trimmed_start(s),
    decreases s.len(),
{
    if s.len() > 0 && is_whitespace(s[0]) {
        start_is_trimmed(s.drop_first());
    }
}

proof fn end_is_trimmed(s: Seq<char>)
    ensures
        trimmed_end(trimmed_end(s)) == trimmed_end(s),
    decreases s.len(),
{
    if s.len() > 0 && is_whitespace(s.last()) {
        end_is_trimmed(s.drop_last());
    }
}

/// What was trimmed once has nothing more to trim.
pub proof fn trimmed_is_trimmed(s: Seq<char>)
    ensures
        trimmed(trimmed(s)) == trimmed(s),
{
    start_is_trimmed(s);
    start_stays_trimmed(trimmed_start(s));
    end_is_trimmed(trimmed_start(s));
}

/// Removes the whitespace at both ends.
pub fn trim(s: &str) -> (r: String)
    ensures
        r@ == trimmed(s@),
{
    let chars = chars_of(s);
    let mut from: usize = 0;
    proof {
        assert(s@.skip(0) =~= s@);
    }
    while from < chars.len() && whitespace(chars[from])
        invariant
            0 <= from <= chars@.len(),
            chars@ == s@,
            trimmed_start(s@) == trimmed_start(s@.skip(from as int)),
        decreases chars@.len() - from,
    {
        proof {
            assert(s@.skip(from as int).drop_first() =~= s@.skip(from + 1));
        }
        from += 1;
    }
    let ghost kept = s@.skip(from as int);
    assert(trimmed_start(s@) == kept);
    let mut to: usize = chars.len();
    proof {
        assert(kept.take(to - from) =~= kept);
    }
    while to > from && whitespace(chars[to - 1])
        invariant
            from <= to <= chars@.len(),
            chars@ == s@,
            kept == s@.skip(from as int),
            trimmed_end(kept) == trimmed_end(kept.take(to - from)),
        decreases to,
    {
        proof {
            assert(kept.take(to - from).drop_last() =~= kept.take(to - 1 - from));
            assert(kept.take(to - from).last() == chars@[to - 1]);
        }
        to -= 1;
    }
    proof {
        if to > from {
            assert(kept.take(to - from).last() == chars@[to - 1]);
        }
        assert(chars@.subrange(from as int, to as int) =~= kept.take(to - from));
    }
    string_of(&chars, from, to)
}

/// `s` without the line breaks at its end.
pub open spec fn without_line_end(s: Seq<char>) -> Seq<char>
    decreases s.len(),
{
    if s.len() > 0 && (s.last() == '\r' || s.last() == '\n') {
        without_line_end(s.drop_last())
    } else {
        s
    }
}

/// Removes every carriage return and line feed at the end of `s`.
pub fn trim_line_end(s: &str) -> (r: String)
    ensures
        r@ == without_line_end(s@),
{
    let chars = chars_of(s);
    let mut to: usize = chars.len();
    proof {
        assert(s@.take(to as int) =~= s@);
    }
    while to > 0 && (chars[to - 1] == '\r' || chars[to - 1] == '\n')
        invariant
            to <= chars@.len(),
            chars@ == s@,
            without_line_end(s@) == without_line_end(s@.take(to as int)),
        decreases to,
    {
        proof {
            assert(s@.take(to as int).drop_last() =~= s@.take(to - 1));
        }
        to -= 1;
    }
    proof {
        assert(chars@.subrange(0, to as int) =~= s@.take(to as int));
    }
    string_of(&chars, 0, to)
}

/// Whether `s` begins with `prefix`.
pub open spec fn has_prefix(s: Seq<char>, prefix: Seq<char>) -> bool {
    prefix.len() <= s.len() && s.take(prefix.len() as int) == prefix
}

/// Whether `s` ends with `suffix`.
pub open spec fn has_suffix(s: Seq<char>, suffix: Seq<char>) -> bool {
    suffix.len() <= s.len() && s.skip(s.len() - suffix.len()) == suffix
}

/// What stands behind `prefix`, if `s` begins with it.
pub fn strip_prefix(s: &str, prefix: &str) -> (r: Option<String>)
    ensures
        r is Some <==> has_prefix(s@, prefix@),
        r matches Some(rest) ==> rest@ == s@.skip(prefix@.len() as int),
{
    let chars = chars_of(s);
    let head = chars_of(prefix);
    if chars.len() < head.len() {
        return None;
    }
    let mut i: usize = 0;
    while i < head.len()
        invariant
            0 <= i <= head@.len() <= chars@.len(),
            chars@ == s@,
            head@ == prefix@,
            forall|j: int| 0 <= j < i ==> chars@[j] == head@[j],
        decreases head@.len() - i,
    {
        if chars[i] != head[i] {
            assert(s@.take(prefix@.len() as int)[i as int] == s@[i as int]);
            return None;
        }
        i += 1;
    }
    assert(s@.take(prefix@.len() as int) =~= prefix@);
    assert(chars@.subrange(head@.len() as int, chars@.len() as int) =~= s@.skip(prefix@.len() as int));
    Some(string_of(&chars, head.len(), chars.len()))
}

/// What stands before `suffix`, if `s` ends with it.
pub fn strip_suffix(s: &str, suffix: &str) -> (r: Option<String>)
    ensures
        r is Some <==> has_suffix(s@, suffix@),
        r matches Some(rest) ==> rest@ == s@.take(s@.len() - suffix@.len()),
{
    let chars = chars_of(s);
    let tail = chars_of(suffix);
    if chars.len() < tail.len() {
        return None;
    }
    let cut: usize = chars.len() - tail.len();
    let mut i: usize = 0;
    while i < tail.len()
        invariant
            0 <= i <= tail@.len() <= chars@.len(),
            cut == chars@.len() - tail@.len(),
            chars@.len() <= usize::MAX,
            chars@ == s@,
            tail@ == suffix@,
            forall|j: int| 0 <= j < i ==> chars@[cut + j] == tail@[j],
        decreases tail@.len() - i,
    {
        if chars[cut + i] != tail[i] {
            assert(s@.skip(cut as int)[i as int] == s@[cut + i]);
            return None;
        }
        i += 1;
    }
    assert(s@.skip(cut as int) =~= suffix@);
    assert(chars@.subrange(0, cut as int) =~= s@.take(cut as int));
    Some(string_of(&chars, 0, cut))
}

/// The ten digits, each at its value.
pub open spec fn digits() -> Seq<char> {
    seq!['0', '1', '2', '3', '4', '5', '6', '7', '8', '9']
}

/// Whether `c` is one of the ten ASCII digits.
pub open spec fn is_digit(c: char) -> bool {
    '0' <= c <= '9'
}

/// The value of a digit.
pub open spec fn digit_value(c: char) -> nat
    recommends
        is_digit(c),
{
    (c as int - '0' as int) as nat
}

/// `n` in decimal notation, without leading zeros.
pub open spec fn decimal(n: nat) -> Seq<char>
    decreases n,
{
    if n < 10 {
        seq![digits()[n as int]]
    } else {
        decimal(n / 10).push(digits()[(n % 10) as int])
    }
}

/// The number that a row of digits denotes.
pub open spec fn decimal_value(s: Seq<char>) -> nat
    decreases s.len(),
{
    if s.len() == 0 {
        0
    } else {
        decimal_value(s.drop_last()) * 10 + digit_value(s.last())
    }
}

/// Whether `s` is made of digits alone.
pub open spec fn all_digits(s: Seq<char>) -> bool {
    forall|i: int| 0 <= i < s.len() ==> is_digit(#[trigger] s[i])
}

/// Reading back what `decimal` wrote gives the number.
pub proof fn decimal_reads_back(n: nat)
    ensures
        all_digits(decimal(n)),
        decimal(n).len() > 0,
        decimal_value(decimal(n)) == n,
    decreases n,
{
    if n < 10 {
        let d = decimal(n);
        assert(d.drop_last() =~= Seq::empty());
        assert(decimal_value(d.drop_last()) == 0);
    } else {
        decimal_reads_back(n / 10);
        let d = decimal(n);
        assert(d.drop_last() =~= decimal(n / 10));
    }
}

/// Writes `n` in decimal notation.
pub fn decimal_text(n: u128) -> (r: String)
    ensures
        r@ == decimal(n as nat),
    decreases n,
{
    let mut out = if n < 10 {
        String::new()
    } else {
        decimal_text(n / 10)
    };
    let digit: u128 = n % 10;
    let c = if digit == 0 {
        '0'
    } else if digit == 1 {
        '1'
    } else if digit == 2 {
        '2'
    } else if digit == 3 {
        '3'
    } else if digit == 4 {
        '4'
    } else if digit == 5 {
        '5'
    } else if digit == 6 {
        '6'
    } else if digit == 7 {
        '7'
    } else if digit == 8 {
        '8'
    } else {
        '9'
    };
    out.push(c);
    assert(out@ =~= decimal(n as nat));
    out
}

/// The number that `s` denotes: nothing if `s` is empty, holds anything but
/// digits, or denotes a number that does not fit.
pub fn parse_digits(s: &str) -> (r: Option<u64>)
    ensures
        r is Some <==> s@.len() > 0 && all_digits(s@) && decimal_value(s@) <= u64::MAX,
        r matches Some(n) ==> n == decimal_value(s@),
{
    let chars = chars_of(s);
    if chars.len() == 0 {
        return None;
    }
    let mut fits: bool = true;
    let mut value: u64 = 0;
    let mut i: usize = 0;
    while i < chars.len()
        invariant
            0 <= i <= chars@.len(),
            chars@ == s@,
            all_digits(s@.take(i as int)),
            fits ==> value == decimal_value(s@.take(i as int)),
            !fits ==> decimal_value(s@.take(i as int)) > u64::MAX,
        decreases chars@.len() - i,
    {
        let c = chars[i];
        let ghost before = s@.take(i as int);
        let ghost after = s@.take(i + 1);
        proof {
            assert(after.drop_last() =~= before);
            assert(after =~= before.push(c));
        }
        if c < '0' || '9' < c {
            proof {
                assert(s@[i as int] == c);
            }
            return None;
        }
        let digit: u64 = (c as u64) - ('0' as u64);
        if fits {
            if value > (u64::MAX - digit) / 10 {
                fits = false;
            } else {
                value = value * 10 + digit;
            }
        }
        i += 1;
    }
    proof {
        assert(s@.take(i as int) =~= s@);
    }
    if fits {
        Some(value)
    } else {
        None
    }
}

/// The first line of `s`, without the line break that ends it: a line feed,
/// with a carriage return in front where there is one.
pub open spec fn first_line(s: Seq<char>) -> Seq<char> {
    if s.contains('\n') {
        let end = s.index_of_first('\n')->0;
        if end > 0 && s[end - 1] == '\r' {
            s.take(end - 1)
        } else {
            s.take(end)
        }
    } else {
        s
    }
}

/// The first line of `s`, if there is one.
pub fn line_one(s: &str) -> (r: Option<String>)
    ensures
        r is None <==> s@.len() == 0,
        r matches Some(line) ==> line@ == first_line(s@),
{
    let chars = chars_of(s);
    if chars.len() == 0 {
        return None;
    }
    let mut end: usize = 0;
    while end < chars.len() && chars[end] != '\n'
        invariant
            0 <= end <= chars@.len(),
            forall|j: int| 0 <= j < end ==> chars@[j] != '\n',
        decreases chars@.len() - end,
    {
        end += 1;
    }
    if end == chars.len() {
        assert(!s@.contains('\n'));
        assert(chars@.subrange(0, end as int) =~= s@);
        return Some(string_of(&chars, 0, end));
    }
    proof {
        assert(s@[end as int] == '\n');
        s@.index_of_first_ensures('\n');
        assert(s@.index_of_first('\n') == Some(end as int));
    }
    let cut: usize = if end > 0 && chars[end - 1] == '\r' {
        end - 1
    } else {
        end
    };
    assert(chars@.subrange(0, cut as int) =~= s@.take(cut as int));
    Some(string_of(&chars, 0, cut))
}

/// `s`, or its first `limit` characters and an ellipsis where it is longer.
pub open spec fn shortened(s: Seq<char>, limit: nat) -> Seq<char> {
    if s.len() > limit {
        s.take(limit as int) + "..."@
    } else {
        s
    }
}

/// Cuts `s` down to `limit` characters, and marks the cut.
pub fn shorten(s: &str, limit: usize) -> (r: String)
    ensures
        r@ == shortened(s@, limit as nat),
{
    let chars = chars_of(s);
    if chars.len() > limit {
        let mut out = string_of(&chars, 0, limit);
        assert(out@ =~= s@.take(limit as int));
        out.append("...");
        out
    } else {
        s.to_owned()
    }
}

/// `s` with a space in place of each line feed.
pub open spec fn on_one_line(s: Seq<char>) -> Seq<char> {
    s.map_values(
        |c: char|
            if c == '\n' {
                ' '
            } else {
                c
            },
    )
}

/// Puts a space in place of each line feed.
pub fn to_one_line(s: &str) -> (r: String)
    ensures
        r@ == on_one_line(s@),
{
    let chars = chars_of(s);
    let mut out = String::new();
    let mut i: usize = 0;
    while i < chars.len()
        invariant
            0 <= i <= chars@.len(),
            chars@ == s@,
            out@ == on_one_line(s@).take(i as int),
        decreases chars@.len() - i,
    {
        if chars[i] == '\n' {
            out.push(' ');
        } else {
            out.push(chars[i]);
        }
        assert(out@ =~= on_one_line(s@).take(i + 1));
        i += 1;
    }
    out
}

/// A letter in capitals, where it is one of the twenty-six.
pub open spec fn upper(c: char) -> char {
    if 'a' <= c <= 'z' {
        (c as int - 'a' as int + 'A' as int) as char
    } else {
        c
    }
}

/// A text in capitals.
pub open spec fn upper_case(s: Seq<char>) -> Seq<char> {
    s.map_values(|c: char| upper(c))
}

/// The characters that count as whitespace, by their code points.
pub proof fn whitespace_is_unicode(c: char)
    ensures
        is_whitespace(c) <==> {
            let n = c as int;
            9 <= n <= 13 || n == 32 || n == 133 || n == 160 || n == 5760 || 8192 <= n <= 8202 || n == 8232 || n
                == 8233 || n == 8239 || n == 8287 || n == 12288
        },
{
}

proof fn start_is_cut(s: Seq<char>)
    ensures
        exists|k: int|
            0 <= k <= s.len() && trimmed_start(s) == #[trigger] s.skip(k) && forall|i: int|
                0 <= i < k ==> is_whitespace(#[trigger] s[i]),
        trimmed_start(s).len() > 0 ==> !is_whitespace(trimmed_start(s)[0]),
    decreases s.len(),
{
    if s.len() > 0 && is_whitespace(s[0]) {
        let rest = s.drop_first();
        start_is_cut(rest);
        let k = choose|k: int|
            0 <= k <= rest.len() && trimmed_start(rest) == #[trigger] rest.skip(k) && forall|i: int|
                0 <= i < k ==> is_whitespace(#[trigger] rest[i]);
        assert(rest.skip(k) =~= s.skip(k + 1));
        assert forall|i: int| 0 <= i < k + 1 implies is_whitespace(#[trigger] s[i]) by {
            if i > 0 {
                assert(s[i] == rest[i - 1]);
            }
        }
    } else {
        assert(s.skip(0) =~= s);
    }
}

proof fn end_is_cut(s: Seq<char>)
    ensures
        exists|k: int|
            0 <= k <= s.len() && trimmed_end(s) == #[trigger] s.take(k) && forall|i: int|
                k <= i < s.len() ==> is_whitespace(#[trigger] s[i]),
        trimmed_end(s).len() > 0 ==> !is_whitespace(trimmed_end(s).last()),
    decreases s.len(),
{
    if s.len() > 0 && is_whitespace(s.last()) {
        let rest = s.drop_last();
        end_is_cut(rest);
        let k = choose|k: int|
            0 <= k <= rest.len() && trimmed_end(rest) == #[trigger] rest.take(k) && forall|i: int|
                k <= i < rest.len() ==> is_whitespace(#[trigger] rest[i]);
        assert(rest.take(k) =~= s.take(k));
        assert forall|i: int| k <= i < s.len() implies is_whitespace(#[trigger] s[i]) by {
            if i < rest.len() {
                assert(s[i] == rest[i]);
            }
        }
    } else {
        assert(s.take(s.len() as int) =~= s);
    }
}

/// What is trimmed off is whitespace at the two ends, and all of it: what is
/// left is a stretch of the text that neither begins nor ends with whitespace.
pub proof fn only_whitespace_is_trimmed(s: Seq<char>)
    ensures
        exists|from: int, to: int|
            0 <= from <= to <= s.len() && trimmed(s) == #[trigger] s.subrange(from, to) && (forall|i: int|
                0 <= i < from || to <= i < s.len() ==> is_whitespace(#[trigger] s[i])),
        trimmed(s).len() > 0 ==> !is_whitespace(trimmed(s)[0]) && !is_whitespace(trimmed(s).last()),
{
    let rest = trimmed_start(s);
    start_is_cut(s);
    end_is_cut(rest);
    let from = choose|k: int|
        0 <= k <= s.len() && trimmed_start(s) == #[trigger] s.skip(k) && forall|i: int|
            0 <= i < k ==> is_whitespace(#[trigger] s[i]);
    let n = choose|k: int|
        0 <= k <= rest.len() && trimmed_end(rest) == #[trigger] rest.take(k) && forall|i: int|
            k <= i < rest.len() ==> is_whitespace(#[trigger] rest[i]);
    assert(rest.take(n) =~= s.subrange(from, from + n));
    assert forall|i: int| 0 <= i < from || from + n <= i < s.len() implies is_whitespace(#[trigger] s[i]) by {
        if i >= from {
            assert(s[i] == rest[i - from]);
        }
    }
}

/// Every piece is part of what is joined, whole and in its place: what stands
/// in front is what the pieces before it are joined to.
pub proof fn joined_holds_each_part(parts: Seq<Seq<char>>, sep: Seq<char>, i: int)
    requires
        0 <= i < parts.len(),
    ensures
        i > 0 ==> joined(parts.take(i + 1), sep) == joined(parts.take(i), sep) + sep + parts[i],
        i == 0 ==> joined(parts.take(i + 1), sep) == parts[i],
        has_prefix(joined(parts, sep), joined(parts.take(i + 1), sep)),
    decreases parts.len(),
{
    let upto = parts.take(i + 1);
    assert(upto.drop_last() =~= parts.take(i));
    assert(upto.last() == parts[i]);
    let all = joined(parts, sep);
    let part = joined(upto, sep);
    if i == parts.len() - 1 {
        assert(upto =~= parts);
        assert(all.take(all.len() as int) =~= all);
    } else {
        let before = parts.drop_last();
        joined_holds_each_part(before, sep, i);
        assert(before.take(i + 1) =~= upto);
        assert(before.take(i) =~= parts.take(i));
        assert(all.take(part.len() as int) =~= joined(before, sep).take(part.len() as int));
    }
}

/// A number is written in one way: with no zero in front, but for zero itself.
pub proof fn decimal_has_no_leading_zero(n: nat)
    ensures
        n > 0 ==> decimal(n)[0] != '0',
        n < 10 ==> decimal(n).len() == 1,
        decimal(n * 10).len() == (if n == 0 {
            1nat
        } else {
            decimal(n).len() + 1
        }),
    decreases n,
{
    if n >= 10 {
        decimal_has_no_leading_zero(n / 10);
        assert(decimal(n)[0] == decimal(n / 10)[0]) by {
            decimal_reads_back(n / 10);
        }
    }
    assert((n * 10) / 10 == n);
}

/// What is shortened is the beginning of the text, and marked; what fits is
/// kept whole.
pub proof fn shortened_keeps_the_beginning(s: Seq<char>, limit: nat)
    ensures
        s.len() <= limit ==> shortened(s, limit) == s,
        s.len() > limit ==> shortened(s, limit).len() == limit + 3,
        forall|i: int| 0 <= i < s.len() && i < limit ==> #[trigger] shortened(s, limit)[i] == s[i],
        s.len() > limit ==> forall|i: int|
            limit <= i < limit + 3 ==> #[trigger] shortened(s, limit)[i] == '.',
{
    reveal_strlit("...");
}

/// The first line holds no line feed, begins the text, and ends where the text
/// does or before a line feed, which may have a carriage return in front.
pub proof fn first_line_ends_at_the_first_break(s: Seq<char>)
    ensures
        !first_line(s).contains('\n'),
        has_prefix(s, first_line(s)),
        !s.contains('\n') ==> first_line(s) == s,
        s.contains('\n') ==> first_line(s).len() < s.len() && {
            let n = first_line(s).len() as int;
            s[n] == '\n' || (s[n] == '\r' && n + 1 < s.len() && s[n + 1] == '\n')
        },
        s.contains('\n') && first_line(s).len() > 0 ==> !(first_line(s).last() == '\r' && s[first_line(
            s,
        ).len() as int] == '\n'),
{
    if s.contains('\n') {
        s.index_of_first_ensures('\n');
        let end = s.index_of_first('\n')->0;
        assert(s[end] == '\n');
        let line = first_line(s);
        assert(s.take(line.len() as int) =~= line);
        if line.contains('\n') {
            let i = choose|i: int| 0 <= i < line.len() && line[i] == '\n';
            assert(s[i] == '\n');
        }
    } else {
        assert(s.take(s.len() as int) =~= s);
    }
}

/// What is cut off at the end is line breaks, and all of them.
pub proof fn only_line_breaks_are_cut(s: Seq<char>)
    ensures
        has_prefix(s, without_line_end(s)),
        forall|i: int| without_line_end(s).len() <= i < s.len() ==> (#[trigger] s[i] == '\r' || s[i] == '\n'),
        without_line_end(s).len() > 0 ==> without_line_end(s).last() != '\r' && without_line_end(s).last()
            != '\n',
    decreases s.len(),
{
    if s.len() > 0 && (s.last() == '\r' || s.last() == '\n') {
        let rest = s.drop_last();
        only_line_breaks_are_cut(rest);
        let cut = without_line_end(rest);
        assert(s.take(cut.len() as int) =~= rest.take(cut.len() as int));
        assert forall|i: int| cut.len() <= i < s.len() implies (#[trigger] s[i] == '\r' || s[i] == '\n') by {
            if i < rest.len() {
                assert(s[i] == rest[i]);
            }
        }
    } else {
        assert(s.take(s.len() as int) =~= s);
    }
}

/// Putting a text on one line keeps its length and every character but the
/// line feeds, which become spaces.
pub proof fn one_line_keeps_the_rest(s: Seq<char>)
    ensures
        on_one_line(s).len() == s.len(),
        !on_one_line(s).contains('\n'),
        forall|i: int|
            0 <= i < s.len() ==> #[trigger] on_one_line(s)[i] == s[i] || (s[i] == '\n' && on_one_line(s)[i]
                == ' '),
{
}

/// Whether `part` stands somewhere in `s`.
pub open spec fn holds(s: Seq<char>, part: Seq<char>) -> bool {
    exists|at: int| 0 <= at <= s.len() - part.len() && #[trigger] s.subrange(at, at + part.len()) == part
}

/// What stands in a middle piece stands in the whole.
pub proof fn holds_in_the_middle(a: Seq<char>, b: Seq<char>, c: Seq<char>, part: Seq<char>)
    requires
        holds(b, part),
    ensures
        holds(a + b + c, part),
{
    let at = choose|at: int| 0 <= at <= b.len() - part.len() && #[trigger] b.subrange(at, at + part.len()) == part;
    let whole = a + b + c;
    let there = a.len() + at;
    assert(whole.subrange(there, there + part.len()) =~= part);
}

/// Every piece stands in what the pieces are joined to.
pub proof fn joined_holds_its_parts(parts: Seq<Seq<char>>, sep: Seq<char>, i: int)
    requires
        0 <= i < parts.len(),
    ensures
        holds(joined(parts, sep), parts[i]),
{
    joined_holds_each_part(parts, sep, i);
    let all = joined(parts, sep);
    let upto = joined(parts.take(i + 1), sep);
    let from = upto.len() - parts[i].len();
    assert(upto.subrange(from, upto.len() as int) =~= parts[i]);
    assert(all.take(upto.len() as int) == upto);
    assert(all.subrange(from, from + parts[i].len()) =~= upto.subrange(from, upto.len() as int));
}

/// A text in three parts holds the one in the middle.
pub proof fn stands_in_the_middle(a: Seq<char>, b: Seq<char>, c: Seq<char>)
    ensures
        holds(a + b + c, b),
{
    let at = a.len() as int;
    assert((a + b + c).subrange(at, at + b.len()) =~= b);
}

/// A text in two parts holds the second.
pub proof fn ends_with_its_end(first: Seq<char>, second: Seq<char>)
    ensures
        holds(first + second, second),
{
    let at = first.len() as int;
    assert((first + second).subrange(at, at + second.len()) =~= second);
}

/// The smaller of two numbers is one of them, above neither, and the same
/// whichever comes first.
pub proof fn least_is_the_smaller(a: int, b: int)
    ensures
        least(a, b) <= a && least(a, b) <= b,
        least(a, b) == a || least(a, b) == b,
        least(a, b) == least(b, a),
{
}

/// What a list stands for has one element for each of the list, in order, and
/// what an optional value stands for is there if and only if the value is.
pub proof fn nothing_is_lost_in_view<T: View>(s: Seq<T>, o: Option<T>)
    ensures
        views(s).len() == s.len(),
        forall|i: int| 0 <= i < s.len() ==> #[trigger] views(s)[i] == s[i]@,
        opt_view(o) is Some <==> o is Some,
        o matches Some(value) ==> opt_view(o) == Some(value@),
{
}

} // verus!
