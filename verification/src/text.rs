//! Comparing, cutting and joining text, with contracts over sequences of
//! characters.
use vstd::prelude::*;
use vstd::string::*;
use vstd::utf8::*;

verus! {

/// Whether two texts hold the same characters.
pub fn same_text(a: &str, b: &str) -> (r: bool)
    ensures
        r == (a@ == b@),
{
    let x = a.as_bytes();
    let y = b.as_bytes();
    proof {
        encode_utf8_decode_utf8(a@);
        encode_utf8_decode_utf8(b@);
    }
    if x.len() != y.len() {
        return false;
    }
    for i in 0..x.len()
        invariant
            x@ == encode_utf8(a@),
            y@ == encode_utf8(b@),
            x@.len() == y@.len(),
            forall|j: int| 0 <= j < i ==> x@[j] == y@[j],
    {
        if x[i] != y[i] {
            return false;
        }
    }
    assert(x@ =~= y@);
    true
}

/// The characters of a text, one by one.
pub fn chars_of(text: &str) -> (r: Vec<char>)
    ensures
        r@ == text@,
{
    let mut out: Vec<char> = Vec::new();
    for c in iter: text.chars()
        invariant
            out@ == iter.seq().take(iter.index() as int),
            iter.seq() == text@,
    {
        out.push(c);
    }
    assert(out@ =~= text@);
    out
}

/// The characters of `text` from `from` up to `to`.
pub fn cut(text: &str, from: usize, to: usize) -> (r: String)
    requires
        from <= to <= text@.len(),
    ensures
        r@ == text@.subrange(from as int, to as int),
{
    text.substring_char(from, to).to_owned()
}

/// `a` followed by `b`.
pub fn join2(a: &str, b: &str) -> (r: String)
    ensures
        r@ == a@ + b@,
{
    let mut out = a.to_owned();
    out.append(b);
    out
}

/// `a`, `b` and `c` in a row.
pub fn join3(a: &str, b: &str, c: &str) -> (r: String)
    ensures
        r@ == a@ + b@ + c@,
{
    let mut out = a.to_owned();
    out.append(b);
    out.append(c);
    out
}

/// A character with Unicode's `White_Space` property.
pub open spec fn white(c: char) -> bool {
    ||| '\u{9}' <= c <= '\u{d}'
    ||| c == ' '
    ||| c == '\u{85}'
    ||| c == '\u{a0}'
    ||| c == '\u{1680}'
    ||| '\u{2000}' <= c <= '\u{200a}'
    ||| c == '\u{2028}'
    ||| c == '\u{2029}'
    ||| c == '\u{202f}'
    ||| c == '\u{205f}'
    ||| c == '\u{3000}'
}

/// Whether a character is white space.
pub fn is_white(c: char) -> (r: bool)
    ensures
        r == white(c),
{
    ('\u{9}' <= c && c <= '\u{d}') || c == ' ' || c == '\u{85}' || c == '\u{a0}' || c == '\u{1680}'
        || ('\u{2000}' <= c && c <= '\u{200a}') || c == '\u{2028}' || c == '\u{2029}' || c
        == '\u{202f}' || c == '\u{205f}' || c == '\u{3000}'
}

/// A text of white space alone, or of nothing.
pub open spec fn blank(text: Seq<char>) -> bool {
    forall|i: int| 0 <= i < text.len() ==> white(#[trigger] text[i])
}

/// Whether a text is blank.
pub fn is_blank(text: &str) -> (r: bool)
    ensures
        r == blank(text@),
{
    let chars = chars_of(text);
    for i in 0..chars.len()
        invariant
            chars@ == text@,
            forall|j: int| 0 <= j < i ==> white(#[trigger] text@[j]),
    {
        if !is_white(chars[i]) {
            assert(!white(text@[i as int]));
            return false;
        }
    }
    true
}

/// The text without the white space at its two ends.
pub open spec fn trimmed(text: Seq<char>) -> Seq<char>
    decreases text.len(),
{
    if text.len() > 0 && white(text[0]) {
        trimmed(text.drop_first())
    } else if text.len() > 0 && white(text.last()) {
        trimmed(text.drop_last())
    } else {
        text
    }
}

/// Cuts the white space off both ends.
pub fn trim(text: &str) -> (r: String)
    ensures
        r@ == trimmed(text@),
{
    let chars = chars_of(text);
    let mut from: usize = 0;
    let mut to: usize = chars.len();
    assert(text@.subrange(0, text@.len() as int) =~= text@);
    while from < to && is_white(chars[from])
        invariant
            chars@ == text@,
            from <= to == chars@.len(),
            trimmed(text@.subrange(from as int, to as int)) == trimmed(text@),
        decreases to - from,
    {
        let ghost here = text@.subrange(from as int, to as int);
        assert(here.drop_first() =~= text@.subrange(from + 1, to as int));
        from = from + 1;
    }
    while from < to && is_white(chars[to - 1])
        invariant
            chars@ == text@,
            from <= to <= chars@.len(),
            from < to ==> !white(chars@[from as int]),
            trimmed(text@.subrange(from as int, to as int)) == trimmed(text@),
        decreases to - from,
    {
        let ghost here = text@.subrange(from as int, to as int);
        assert(here.drop_last() =~= text@.subrange(from as int, to - 1));
        assert(here[0] == chars@[from as int]);
        to = to - 1;
    }
    let ghost here = text@.subrange(from as int, to as int);
    assert(here.len() > 0 ==> here[0] == chars@[from as int] && here.last() == chars@[to - 1]);
    cut(text, from, to)
}

/// `text` begins with `prefix`.
pub open spec fn starts(text: Seq<char>, prefix: Seq<char>) -> bool {
    prefix.len() <= text.len() && text.take(prefix.len() as int) == prefix
}

/// What follows `prefix`, where `text` begins with it.
pub open spec fn stripped(text: Seq<char>, prefix: Seq<char>) -> Option<Seq<char>> {
    if starts(text, prefix) {
        Some(text.skip(prefix.len() as int))
    } else {
        None
    }
}

/// Where `pattern` first occurs.
pub open spec fn position(text: Seq<char>, pattern: Seq<char>) -> Option<nat>
    decreases text.len(),
{
    if starts(text, pattern) {
        Some(0)
    } else if text.len() == 0 {
        None
    } else {
        match position(text.drop_first(), pattern) {
            Some(n) => Some(n + 1),
            None => None,
        }
    }
}

/// What stands before and after the first occurrence of `pattern`.
pub open spec fn halves(text: Seq<char>, pattern: Seq<char>) -> Option<(Seq<char>, Seq<char>)> {
    match position(text, pattern) {
        Some(n) => Some((text.take(n as int), text.skip((n + pattern.len()) as int))),
        None => None,
    }
}

/// Whether `chars` holds `pattern` from position `at` on.
fn starts_at(chars: &Vec<char>, pattern: &Vec<char>, at: usize) -> (r: bool)
    requires
        at <= chars@.len(),
    ensures
        r == starts(chars@.skip(at as int), pattern@),
{
    let n: usize = chars.len();
    if pattern.len() > n - at {
        return false;
    }
    for i in 0..pattern.len()
        invariant
            at <= chars@.len() <= usize::MAX,
            pattern@.len() <= chars@.len() - at,
            forall|j: int| 0 <= j < i ==> chars@[at + j] == pattern@[j],
    {
        if chars[at + i] != pattern[i] {
            assert(chars@.skip(at as int).take(pattern@.len() as int)[i as int] != pattern@[i as int]);
            return false;
        }
    }
    assert(chars@.skip(at as int).take(pattern@.len() as int) =~= pattern@);
    true
}

/// Cuts a prefix off.
pub fn strip_prefix(text: &str, prefix: &str) -> (r: Option<String>)
    ensures
        r.deep_view() == stripped(text@, prefix@),
{
    let chars = chars_of(text);
    let head = chars_of(prefix);
    assert(chars@.skip(0) =~= chars@);
    if starts_at(&chars, &head, 0) {
        let rest = cut(text, head.len(), chars.len());
        assert(rest@ =~= text@.skip(prefix@.len() as int));
        Some(rest)
    } else {
        None
    }
}

/// Splits a text at the first occurrence of `pattern`.
pub fn split_once(text: &str, pattern: &str) -> (r: Option<(String, String)>)
    ensures
        r.deep_view() == halves(text@, pattern@),
{
    let chars = chars_of(text);
    let what = chars_of(pattern);
    let n: usize = chars.len();
    let mut i: usize = 0;
    assert(text@.skip(0) =~= text@);
    loop
        invariant
            chars@ == text@,
            what@ == pattern@,
            i <= n == chars@.len(),
            position(text@, pattern@) == (match position(text@.skip(i as int), pattern@) {
                Some(n) => Some((n + i) as nat),
                None => None,
            }),
        decreases chars@.len() - i,
    {
        let ghost here = text@.skip(i as int);
        if starts_at(&chars, &what, i) {
            assert(position(text@, pattern@) == Some(i as nat));
            let left = cut(text, 0, i);
            let right = cut(text, i + what.len(), chars.len());
            assert(left@ =~= text@.take(i as int));
            assert(right@ =~= text@.skip((i + what@.len()) as int));
            return Some((left, right));
        }
        if i == n {
            return None;
        }
        assert(here.drop_first() =~= text@.skip(i + 1));
        i = i + 1;
    }
}

/// Splitting at the first occurrence loses nothing but the pattern.
pub proof fn lemma_halves(text: Seq<char>, pattern: Seq<char>)
    ensures
        match halves(text, pattern) {
            Some((left, right)) => text == left + pattern + right,
            None => true,
        },
{
    lemma_position(text, pattern);
    match position(text, pattern) {
        Some(n) => {
            let tail = text.skip(n as int);
            assert(tail.take(pattern.len() as int) == pattern);
            assert(text =~= text.take(n as int) + pattern + text.skip((n + pattern.len()) as int))
                by {
                assert forall|i: int| n <= i < n + pattern.len() implies text[i] == pattern[i
                    - n] by {
                    assert(tail.take(pattern.len() as int)[i - n] == text[i]);
                }
            }
        },
        None => {},
    }
}

proof fn lemma_position(text: Seq<char>, pattern: Seq<char>)
    ensures
        position(text, pattern) matches Some(n) ==> n + pattern.len() <= text.len() && starts(
            text.skip(n as int),
            pattern,
        ),
    decreases text.len(),
{
    if starts(text, pattern) {
        assert(text.skip(0) =~= text);
    } else if text.len() > 0 {
        let rest = text.drop_first();
        lemma_position(rest, pattern);
        match position(rest, pattern) {
            Some(n) => {
                assert(rest.skip(n as int) =~= text.skip(n as int + 1));
            },
            None => {},
        }
    }
}

/// The digit that stands for a number below ten.
pub open spec fn digit(n: nat) -> char {
    (('0' as u32) + n) as char
}

/// A number in decimal.
pub open spec fn decimal(n: nat) -> Seq<char>
    decreases n,
{
    if n < 10 {
        seq![digit(n)]
    } else {
        decimal(n / 10).push(digit(n % 10))
    }
}

/// The number a row of digits stands for.
pub open spec fn digits_value(text: Seq<char>) -> Option<nat>
    decreases text.len(),
{
    if text.len() == 0 {
        Some(0)
    } else {
        match digits_value(text.drop_last()) {
            Some(n) if '0' <= text.last() <= '9' => Some(
                n * 10 + ((text.last() as u32) - ('0' as u32)) as nat,
            ),
            _ => None,
        }
    }
}

/// A whole number of 64 bits from zero up: digits, after a plus sign if any.
pub open spec fn u64_of(text: Seq<char>) -> Option<u64> {
    let digits = if text.len() > 0 && text[0] == '+' {
        text.drop_first()
    } else {
        text
    };
    if digits.len() == 0 {
        None
    } else {
        match digits_value(digits) {
            Some(n) if n <= u64::MAX => Some(n as u64),
            _ => None,
        }
    }
}

/// Writes a number in decimal.
pub fn write_u64(n: u64) -> (r: String)
    ensures
        r@ == decimal(n as nat),
    decreases n,
{
    let c = digit_char((n % 10) as u8);
    if n < 10 {
        let mut out = String::new();
        out.append(c);
        assert(out@ =~= decimal(n as nat));
        out
    } else {
        let mut out = write_u64(n / 10);
        out.append(c);
        assert(out@ =~= decimal(n as nat));
        out
    }
}

/// The digit of a number below ten, as a text.
fn digit_char(n: u8) -> (r: &'static str)
    requires
        n < 10,
    ensures
        r@ == seq![digit(n as nat)],
{
    proof {
        reveal_strlit("0");
        reveal_strlit("1");
        reveal_strlit("2");
        reveal_strlit("3");
        reveal_strlit("4");
        reveal_strlit("5");
        reveal_strlit("6");
        reveal_strlit("7");
        reveal_strlit("8");
        reveal_strlit("9");
    }
    let r = if n == 0 {
        "0"
    } else if n == 1 {
        "1"
    } else if n == 2 {
        "2"
    } else if n == 3 {
        "3"
    } else if n == 4 {
        "4"
    } else if n == 5 {
        "5"
    } else if n == 6 {
        "6"
    } else if n == 7 {
        "7"
    } else if n == 8 {
        "8"
    } else {
        "9"
    };
    assert(r@ =~= seq![digit(n as nat)]);
    r
}

/// Reads a number as [`u64_of`] says.
pub fn parse_u64(text: &str) -> (r: Option<u64>)
    ensures
        r == u64_of(text@),
{
    let chars = chars_of(text);
    let start: usize = if chars.len() > 0 && chars[0] == '+' {
        1
    } else {
        0
    };
    let ghost digits = text@.skip(start as int);
    assert(start == 0 ==> digits =~= text@);
    assert(start == 1 ==> digits =~= text@.drop_first());
    if start == chars.len() {
        return None;
    }
    let mut value: u64 = 0;
    assert(digits.take(0) =~= Seq::<char>::empty());
    for i in start..chars.len()
        invariant
            chars@ == text@,
            start <= i,
            digits == text@.skip(start as int),
            digits.len() == text@.len() - start,
            digits_value(digits.take(i - start)) == Some(value as nat),
            u64_of(text@) == (match digits_value(digits) {
                Some(n) if n <= u64::MAX => Some(n as u64),
                _ => None,
            }),
    {
        let c = chars[i];
        let ghost here = digits.take(i - start + 1);
        assert(here.drop_last() =~= digits.take(i - start));
        assert(here.last() == c);
        if c < '0' || '9' < c {
            proof {
                lemma_digits_prefix(digits, i - start + 1);
            }
            return None;
        }
        let d: u64 = (c as u32 - 0x30) as u64;
        let next: Option<u64> = match value.checked_mul(10) {
            Some(tens) => tens.checked_add(d),
            None => None,
        };
        match next {
            Some(n) => {
                value = n;
            },
            None => {
                proof {
                    lemma_digits_prefix(digits, i - start + 1);
                }
                return None;
            },
        }
    }
    assert(digits.take(digits.len() as int) =~= digits);
    Some(value)
}

/// A longer row of digits stands for no smaller a number, and a row with
/// something else in it for none.
proof fn lemma_digits_prefix(text: Seq<char>, n: int)
    requires
        0 <= n <= text.len(),
    ensures
        digits_value(text) matches Some(v) ==> (digits_value(text.take(n)) matches Some(u) && u
            <= v),
    decreases text.len(),
{
    if n == text.len() {
        assert(text.take(n) =~= text);
    } else {
        lemma_digits_prefix(text.drop_last(), n);
        assert(text.drop_last().take(n) =~= text.take(n));
    }
}

/// A number written in decimal is read back.
pub proof fn law_a_decimal_reads_back(n: u64)
    ensures
        u64_of(decimal(n as nat)) == Some(n),
{
    lemma_decimal_value(n as nat);
}

proof fn lemma_decimal_value(n: nat)
    ensures
        digits_value(decimal(n)) == Some(n),
        decimal(n).len() > 0,
        '0' <= decimal(n)[0] <= '9',
    decreases n,
{
    reveal_with_fuel(digits_value, 2);
    if n < 10 {
        assert(decimal(n).drop_last() =~= Seq::<char>::empty());
    } else {
        lemma_decimal_value(n / 10);
        assert(decimal(n).drop_last() =~= decimal(n / 10));
        assert(decimal(n)[0] == decimal(n / 10)[0]);
    }
}

/// A number in decimal is made of digits.
pub proof fn lemma_decimal_digits(n: nat)
    ensures
        decimal(n).len() > 0,
        forall|i: int| 0 <= i < decimal(n).len() ==> '0' <= #[trigger] decimal(n)[i] <= '9',
    decreases n,
{
    if n >= 10 {
        lemma_decimal_digits(n / 10);
    }
}

/// A text is cut in two where a pattern first occurs, and only there: nothing before
/// the cut holds the pattern, the two halves and the pattern are the text, and a
/// text that is not cut does not hold the pattern at all.
pub proof fn law_halves_meet_at_the_first_pattern(text: Seq<char>, pattern: Seq<char>)
    ensures
        match halves(text, pattern) {
            Some((left, right)) => {
                &&& text == left + pattern + right
                &&& forall|k: int|
                    0 <= k < left.len() ==> #[trigger] text.subrange(k, k + pattern.len())
                        != pattern
            },
            None => forall|k: int|
                0 <= k <= text.len() - pattern.len() ==> #[trigger] text.subrange(
                    k,
                    k + pattern.len(),
                ) != pattern,
        },
{
    lemma_halves(text, pattern);
    lemma_position(text, pattern);
    lemma_position_first(text, pattern);
    match position(text, pattern) {
        Some(n) => {
            assert(text.take(n as int).len() == n);
        },
        None => {},
    }
}

proof fn lemma_position_first(text: Seq<char>, pattern: Seq<char>)
    ensures
        match position(text, pattern) {
            Some(n) => forall|k: int|
                0 <= k < n && k + pattern.len() <= text.len() ==> #[trigger] text.subrange(
                    k,
                    k + pattern.len(),
                ) != pattern,
            None => forall|k: int|
                0 <= k <= text.len() - pattern.len() ==> #[trigger] text.subrange(
                    k,
                    k + pattern.len(),
                ) != pattern,
        },
    decreases text.len(),
{
    let m = pattern.len() as int;
    if !starts(text, pattern) {
        if m <= text.len() {
            assert(text.subrange(0, m) =~= text.take(m));
        }
        if text.len() > 0 {
            let rest = text.drop_first();
            lemma_position_first(rest, pattern);
            assert forall|k: int|
                0 < k <= text.len() - m && (position(rest, pattern) matches Some(n) ==> k < n
                    + 1) implies #[trigger] text.subrange(k, k + m) != pattern by {
                assert(rest.subrange(k - 1, k - 1 + m) =~= text.subrange(k, k + m));
            }
        }
    }
}

/// A prefix is taken off exactly where the text begins with it, and nothing else is.
pub proof fn law_a_prefix_is_taken_off(text: Seq<char>, prefix: Seq<char>, rest: Seq<char>)
    ensures
        stripped(text, prefix) == Some(rest) <==> text == prefix + rest,
{
    if starts(text, prefix) {
        assert(text =~= prefix + text.skip(prefix.len() as int));
    }
    if text == prefix + rest {
        assert(text.take(prefix.len() as int) =~= prefix);
        assert(text.skip(prefix.len() as int) =~= rest);
    }
}

/// Trimming takes white space off the two ends and nothing else: what is left does
/// not begin or end with any, and what was taken is white.
pub proof fn law_only_white_space_is_trimmed(text: Seq<char>) -> (ends: (Seq<char>, Seq<char>))
    ensures
        text == ends.0 + trimmed(text) + ends.1,
        blank(ends.0),
        blank(ends.1),
        trimmed(text).len() > 0 ==> !white(trimmed(text)[0]) && !white(trimmed(text).last()),
    decreases text.len(),
{
    if text.len() > 0 && white(text[0]) {
        let (left, right) = law_only_white_space_is_trimmed(text.drop_first());
        let more = seq![text[0]] + left;
        let rest = text.drop_first();
        assert(text =~= seq![text[0]] + rest);
        assert(seq![text[0]] + (left + trimmed(rest) + right) =~= more + trimmed(text) + right);
        (more, right)
    } else if text.len() > 0 && white(text.last()) {
        let (left, right) = law_only_white_space_is_trimmed(text.drop_last());
        let more = right.push(text.last());
        let rest = text.drop_last();
        assert(text =~= rest.push(text.last()));
        assert((left + trimmed(rest) + right).push(text.last()) =~= left + trimmed(text) + more);
        (left, more)
    } else {
        let none = Seq::<char>::empty();
        assert(text =~= none + text + none);
        (none, none)
    }
}

/// Spaces, tabs and the ends of lines are white; no letter, digit or mark of ASCII is.
pub proof fn law_what_is_white(c: char)
    ensures
        c == ' ' || c == '\t' || c == '\n' || c == '\r' ==> white(c),
        '!' <= c <= '~' ==> !white(c),
{
}

/// Digits are read from the first to the last, each worth ten times the next; a plus
/// sign before them changes nothing, and nothing else is a number.
pub proof fn law_digits_are_read_as_a_number(text: Seq<char>, c: char)
    ensures
        '0' <= c <= '9' ==> u64_of(seq![c]) == Some((c as u32 - '0' as u32) as u64),
        !('0' <= c <= '9') ==> u64_of(seq![c]) is None && u64_of(text.push(c)) is None,
        text.len() > 0 && '0' <= text[0] <= '9' && '0' <= c <= '9' ==> match u64_of(text) {
            Some(n) => u64_of(text.push(c)) == (if n * 10 + (c as u32 - '0' as u32) <= u64::MAX {
                Some((n * 10 + (c as u32 - '0' as u32)) as u64)
            } else {
                None
            }),
            None => u64_of(text.push(c)) is None,
        },
        text.len() > 0 && '0' <= text[0] <= '9' ==> u64_of(seq!['+'] + text) == u64_of(text),
{
    let one = seq![c];
    assert(one.drop_last() =~= Seq::<char>::empty());
    assert(digits_value(one.drop_last()) == Some(0nat));
    assert(one.drop_first() =~= Seq::<char>::empty());
    let longer = text.push(c);
    assert(longer.drop_last() =~= text);
    assert((seq!['+'] + text).drop_first() =~= text);
    if text.len() > 0 {
        assert(longer[0] == text[0]);
        assert(longer.drop_first() =~= text.drop_first().push(c));
        assert(longer.drop_first().drop_last() =~= text.drop_first());
    }
}

} // verus!
