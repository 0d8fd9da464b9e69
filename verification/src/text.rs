//! Text as sequences of characters: trimming, matching, replacing and decimal numbers.
use vstd::prelude::*;
use vstd::string::*;
use vstd::arithmetic::div_mod::lemma_div_denominator;
use vstd::arithmetic::power::{lemma_pow0, lemma_pow1, lemma_pow_adds, lemma_pow_positive, pow};

verus! {

/// `String::push` appends one character.
pub assume_specification[ String::push ](text: &mut String, c: char)
    ensures
        final(text)@ == old(text)@.push(c),
;

/// The characters with the Unicode property `White_Space`.
pub open spec fn is_white_space(c: char) -> bool {
    let n = c as u32;
    ||| 0x09 <= n <= 0x0D
    ||| n == 0x20
    ||| n == 0x85
    ||| n == 0xA0
    ||| n == 0x1680
    ||| 0x2000 <= n <= 0x200A
    ||| n == 0x2028
    ||| n == 0x2029
    ||| n == 0x202F
    ||| n == 0x205F
    ||| n == 0x3000
}

/// Whether `c` is white space.
pub fn white_space(c: char) -> (r: bool)
    ensures
        r == is_white_space(c),
{
    let n: u32 = c as u32;
    (0x09 <= n && n <= 0x0D) || n == 0x20 || n == 0x85 || n == 0xA0 || n == 0x1680 || (0x2000 <= n
        && n <= 0x200A) || n == 0x2028 || n == 0x2029 || n == 0x202F || n == 0x205F || n == 0x3000
}

/// The characters of `text` in order.
pub fn characters(text: &str) -> (r: Vec<char>)
    ensures
        r@ == text@,
{
    let mut out: Vec<char> = Vec::new();
    for c in it: text.chars()
        invariant
            out@ == it.seq().take(it.index()),
            it.seq() == text@,
    {
        out.push(c);
    }
    assert(text@.take(text@.len() as int) == text@);
    out
}

/// The text made of the characters `from..to` of `chars`.
pub fn text_between(chars: &Vec<char>, from: usize, to: usize) -> (r: String)
    requires
        from <= to <= chars.len(),
    ensures
        r@ == chars@.subrange(from as int, to as int),
{
    let mut out = String::new();
    let mut i: usize = from;
    while i < to
        invariant
            from <= i <= to <= chars.len(),
            out@ == chars@.subrange(from as int, i as int),
        decreases to - i,
    {
        out.push(chars[i]);
        i = i + 1;
    }
    out
}

/// Whether two texts hold the same characters.
pub fn same_text(a: &str, b: &str) -> (r: bool)
    ensures
        r == (a@ == b@),
{
    a.to_owned() == b.to_owned()
}

/// `s` without the white space at its start.
pub open spec fn trim_start(s: Seq<char>) -> Seq<char>
    decreases s.len(),
{
    if s.len() > 0 && is_white_space(s[0]) {
        trim_start(s.skip(1))
    } else {
        s
    }
}

/// `s` without the white space at its end.
pub open spec fn trim_end(s: Seq<char>) -> Seq<char>
    decreases s.len(),
{
    if s.len() > 0 && is_white_space(s.last()) {
        trim_end(s.drop_last())
    } else {
        s
    }
}

/// `s` without the white space at either end.
pub open spec fn trimmed(s: Seq<char>) -> Seq<char> {
    trim_end(trim_start(s))
}

/// `text` without the white space at either end.
pub fn trim<'a>(text: &'a str) -> (r: &'a str)
    ensures
        r@ == trimmed(text@),
{
    let chars = characters(text);
    let mut from: usize = 0;
    assert(text@.skip(0) == text@);
    while from < chars.len() && white_space(chars[from])
        invariant
            from <= chars.len(),
            chars@ == text@,
            trim_start(text@) == trim_start(text@.skip(from as int)),
        decreases chars.len() - from,
    {
        assert(text@.skip(from as int).skip(1) == text@.skip(from + 1));
        from = from + 1;
    }
    let ghost rest = text@.skip(from as int);
    assert(trim_start(text@) == rest);
    let mut to: usize = chars.len();
    assert(rest == text@.subrange(from as int, to as int));
    while from < to && white_space(chars[to - 1])
        invariant
            from <= to <= chars.len(),
            chars@ == text@,
            trim_end(rest) == trim_end(text@.subrange(from as int, to as int)),
        decreases to,
    {
        assert(text@.subrange(from as int, to as int).drop_last() == text@.subrange(
            from as int,
            to - 1,
        ));
        to = to - 1;
    }
    text.substring_char(from, to)
}

/// Trimming twice is trimming once.
pub proof fn trimming_is_idempotent(s: Seq<char>)
    ensures
        trimmed(trimmed(s)) == trimmed(s),
{
    let t = trim_start(s);
    trim_start_stops(s);
    trim_end_keeps_start(t);
    trim_end_stops(t);
}

proof fn trim_start_stops(s: Seq<char>)
    ensures
        trim_start(s).len() > 0 ==> !is_white_space(trim_start(s)[0]),
    decreases s.len(),
{
    if s.len() > 0 && is_white_space(s[0]) {
        trim_start_stops(s.skip(1));
    }
}

proof fn trim_end_stops(s: Seq<char>)
    ensures
        trim_end(s).len() > 0 ==> !is_white_space(trim_end(s).last()),
    decreases s.len(),
{
    if s.len() > 0 && is_white_space(s.last()) {
        trim_end_stops(s.drop_last());
    }
}

proof fn trim_end_keeps_start(s: Seq<char>)
    ensures
        trim_end(s).len() > 0 ==> trim_end(s)[0] == s[0],
    decreases s.len(),
{
    if s.len() > 0 && is_white_space(s.last()) {
        trim_end_keeps_start(s.drop_last());
    }
}

/// Whether `s` holds white space only.
pub open spec fn is_blank(s: Seq<char>) -> bool {
    forall|i: int| 0 <= i < s.len() ==> is_white_space(#[trigger] s[i])
}

/// Trimming removes the white space around a text that neither starts nor ends with any.
pub proof fn trimming_leaves_what_stands_between(before: Seq<char>, s: Seq<char>, after: Seq<char>)
    requires
        is_blank(before),
        is_blank(after),
        s.len() > 0,
        !is_white_space(s[0]),
        !is_white_space(s.last()),
    ensures
        trimmed(before + s + after) == s,
    decreases before.len() + after.len(),
{
    let whole = before + s + after;
    if before.len() > 0 {
        assert(whole[0] == before[0]);
        assert(whole.skip(1) == before.skip(1) + s + after);
        assert forall|i: int| 0 <= i < before.skip(1).len() implies is_white_space(
            #[trigger] before.skip(1)[i],
        ) by {
            assert(before.skip(1)[i] == before[i + 1]);
        }
        trimming_leaves_what_stands_between(before.skip(1), s, after);
    } else if after.len() > 0 {
        let less = before + s + after.drop_last();
        assert(whole[0] == s[0] && less[0] == s[0]);
        assert(trim_start(whole) == whole && trim_start(less) == less);
        assert(whole.last() == after[after.len() - 1]);
        assert(whole.drop_last() == less);
        assert forall|i: int| 0 <= i < after.drop_last().len() implies is_white_space(
            #[trigger] after.drop_last()[i],
        ) by {
            assert(after.drop_last()[i] == after[i]);
        }
        trimming_leaves_what_stands_between(before, s, after.drop_last());
    } else {
        assert(whole == s);
    }
}

/// Of a text that holds white space only, trimming leaves nothing.
pub proof fn blank_texts_are_trimmed_away(s: Seq<char>)
    requires
        is_blank(s),
    ensures
        trimmed(s).len() == 0,
    decreases s.len(),
{
    if s.len() > 0 {
        assert(is_white_space(s[0]));
        assert forall|i: int| 0 <= i < s.skip(1).len() implies is_white_space(
            #[trigger] s.skip(1)[i],
        ) by {
            assert(s.skip(1)[i] == s[i + 1]);
        }
        blank_texts_are_trimmed_away(s.skip(1));
    }
}

/// Trimming takes white space away at both ends and nothing else: what it leaves stands in the text
/// between white space, and neither starts nor ends with any.
pub proof fn trimming_takes_only_white_space(s: Seq<char>) -> (ends: (int, int))
    ensures
        0 <= ends.0 <= ends.1 <= s.len(),
        trimmed(s) == s.subrange(ends.0, ends.1),
        is_blank(s.take(ends.0)),
        is_blank(s.skip(ends.1)),
        trimmed(s).len() > 0 ==> !is_white_space(trimmed(s)[0]) && !is_white_space(
            trimmed(s).last(),
        ),
{
    let from = trim_start_takes_white_space(s);
    let t = trim_start(s);
    let to = trim_end_takes_white_space(t);
    trim_start_stops(s);
    trim_end_stops(t);
    trim_end_keeps_start(t);
    assert(trimmed(s) == s.subrange(from, from + to));
    assert forall|i: int| 0 <= i < s.skip(from + to).len() implies is_white_space(
        #[trigger] s.skip(from + to)[i],
    ) by {
        assert(s.skip(from + to)[i] == t.skip(to)[i]);
    }
    (from, from + to)
}

proof fn trim_start_takes_white_space(s: Seq<char>) -> (from: int)
    ensures
        0 <= from <= s.len(),
        trim_start(s) == s.skip(from),
        is_blank(s.take(from)),
    decreases s.len(),
{
    if s.len() > 0 && is_white_space(s[0]) {
        let rest = s.skip(1);
        let k = trim_start_takes_white_space(rest);
        assert(rest.skip(k) == s.skip(k + 1));
        assert forall|i: int| 0 <= i < s.take(k + 1).len() implies is_white_space(
            #[trigger] s.take(k + 1)[i],
        ) by {
            if i > 0 {
                assert(rest.take(k)[i - 1] == s[i]);
            }
        }
        k + 1
    } else {
        assert(s.skip(0) == s);
        0
    }
}

proof fn trim_end_takes_white_space(s: Seq<char>) -> (to: int)
    ensures
        0 <= to <= s.len(),
        trim_end(s) == s.take(to),
        is_blank(s.skip(to)),
    decreases s.len(),
{
    if s.len() > 0 && is_white_space(s.last()) {
        let rest = s.drop_last();
        let k = trim_end_takes_white_space(rest);
        assert(rest.take(k) == s.take(k));
        assert forall|i: int| 0 <= i < s.skip(k).len() implies is_white_space(
            #[trigger] s.skip(k)[i],
        ) by {
            if i < rest.skip(k).len() {
                assert(rest.skip(k)[i] == s[k + i]);
            }
        }
        k
    } else {
        assert(s.take(s.len() as int) == s);
        s.len() as int
    }
}

/// Trimming leaves something just where a character is not white space.
pub proof fn something_is_left_unless_all_is_white_space(s: Seq<char>)
    ensures
        trimmed(s).len() > 0 <==> exists|i: int|
            0 <= i < s.len() && !is_white_space(#[trigger] s[i]),
{
    let (from, to) = trimming_takes_only_white_space(s);
    if trimmed(s).len() > 0 {
        assert(trimmed(s)[0] == s[from]);
    } else if exists|i: int| 0 <= i < s.len() && !is_white_space(#[trigger] s[i]) {
        let i = choose|i: int| 0 <= i < s.len() && !is_white_space(#[trigger] s[i]);
        if i < from {
            assert(s.take(from)[i] == s[i]);
        } else {
            assert(s.skip(to)[i - to] == s[i]);
        }
    }
}

/// No letter, digit or sign of ASCII is white space.
pub proof fn visible_ascii_is_no_white_space(c: char)
    requires
        '!' <= c <= '~',
    ensures
        !is_white_space(c),
{
}

/// Lower case is the same text but for the 26 ASCII capitals, each of which becomes its small
/// letter.
pub proof fn lower_case_changes_ascii_capitals_alone(s: Seq<char>, i: int)
    requires
        0 <= i < s.len(),
    ensures
        ascii_lower(s).len() == s.len(),
        'A' <= s[i] <= 'Z' ==> 'a' <= ascii_lower(s)[i] <= 'z' && (ascii_lower(s)[i] as u32) - (
        'a' as u32) == (s[i] as u32) - ('A' as u32),
        !('A' <= s[i] <= 'Z') ==> ascii_lower(s)[i] == s[i],
{
}

/// `c`, or its lower case where `c` is an ASCII capital.
pub open spec fn lower_char(c: char) -> char {
    if 'A' <= c <= 'Z' {
        ((c as u32) + 32) as char
    } else {
        c
    }
}

/// `s` with its ASCII capitals in lower case.
pub open spec fn ascii_lower(s: Seq<char>) -> Seq<char> {
    s.map_values(|c: char| lower_char(c))
}

/// The characters of `text` with its ASCII capitals in lower case.
pub fn lower_characters(text: &str) -> (r: Vec<char>)
    ensures
        r@ == ascii_lower(text@),
{
    let chars = characters(text);
    let mut out: Vec<char> = Vec::new();
    let mut i: usize = 0;
    while i < chars.len()
        invariant
            i <= chars.len(),
            chars@ == text@,
            out@ == ascii_lower(text@.take(i as int)),
        decreases chars.len() - i,
    {
        let c = chars[i];
        let low: char = if 'A' <= c && c <= 'Z' {
            ((c as u8) + 32) as char
        } else {
            c
        };
        out.push(low);
        assert(text@.take(i + 1) == text@.take(i as int).push(c));
        assert(ascii_lower(text@.take(i + 1)) == ascii_lower(text@.take(i as int)).push(
            lower_char(c),
        ));
        i = i + 1;
    }
    assert(text@.take(text@.len() as int) == text@);
    out
}

/// Whether `p` stands in `s` at position `i`.
pub open spec fn occurs_at(s: Seq<char>, p: Seq<char>, i: int) -> bool {
    0 <= i && i + p.len() <= s.len() && s.subrange(i, i + p.len()) == p
}

/// Whether `p` stands somewhere in `s`.
pub open spec fn occurs(s: Seq<char>, p: Seq<char>) -> bool {
    exists|i: int| occurs_at(s, p, i)
}

/// What stands in a part of a text stands in the text.
pub proof fn parts_of_parts_occur(s: Seq<char>, part: Seq<char>, p: Seq<char>)
    requires
        occurs(s, part),
        occurs(part, p),
    ensures
        occurs(s, p),
{
    let i = choose|i: int| occurs_at(s, part, i);
    let j = choose|j: int| occurs_at(part, p, j);
    assert(s.subrange(i + j, i + j + p.len()) == s.subrange(i, i + part.len()).subrange(
        j,
        j + p.len(),
    ));
    assert(occurs_at(s, p, i + j));
}

/// Whether `pattern` stands in `chars` at position `i`.
pub fn stands_at(chars: &Vec<char>, pattern: &Vec<char>, i: usize) -> (r: bool)
    requires
        i <= chars.len(),
    ensures
        r == occurs_at(chars@, pattern@, i as int),
{
    if chars.len() - i < pattern.len() {
        return false;
    }
    let mut j: usize = 0;
    while j < pattern.len()
        invariant
            j <= pattern.len(),
            i + pattern.len() <= chars.len(),
            forall|k: int| 0 <= k < j ==> chars@[i + k] == pattern@[k],
        decreases pattern.len() - j,
    {
        if chars[i + j] != pattern[j] {
            assert(chars@.subrange(i as int, i + pattern@.len())[j as int] != pattern@[j as int]);
            return false;
        }
        j = j + 1;
    }
    assert(chars@.subrange(i as int, i + pattern@.len()) == pattern@);
    true
}

/// Whether `pattern` stands somewhere in `chars`.
pub fn contains(chars: &Vec<char>, pattern: &str) -> (r: bool)
    ensures
        r == occurs(chars@, pattern@),
{
    let p = characters(pattern);
    let mut i: usize = 0;
    while i < chars.len()
        invariant
            i <= chars.len(),
            p@ == pattern@,
            forall|k: int| 0 <= k < i ==> !occurs_at(chars@, pattern@, k),
        decreases chars.len() - i,
    {
        if stands_at(chars, &p, i) {
            return true;
        }
        i = i + 1;
    }
    let end: bool = stands_at(chars, &p, i);
    if !end {
        assert forall|k: int| !occurs_at(chars@, pattern@, k) by {}
    }
    end
}

/// `s` with `to` in place of each `from`, found from left to right without overlap.
pub open spec fn replaced(s: Seq<char>, from: Seq<char>, to: Seq<char>) -> Seq<char>
    decreases s.len(),
{
    if from.len() == 0 || s.len() == 0 {
        s
    } else if occurs_at(s, from, 0) {
        to + replaced(s.skip(from.len() as int), from, to)
    } else {
        seq![s[0]] + replaced(s.skip(1), from, to)
    }
}

/// `text` with `to` in place of each `from`.
pub fn replace(text: &str, from: &str, to: &str) -> (r: String)
    requires
        from@.len() > 0,
    ensures
        r@ == replaced(text@, from@, to@),
{
    let chars = characters(text);
    let pattern = characters(from);
    let mut out = String::new();
    let mut i: usize = 0;
    assert(text@.skip(0) == text@);
    while i < chars.len()
        invariant
            i <= chars.len(),
            chars@ == text@,
            pattern@ == from@,
            from@.len() > 0,
            replaced(text@, from@, to@) == out@ + replaced(text@.skip(i as int), from@, to@),
        decreases chars.len() - i,
    {
        let ghost rest = text@.skip(i as int);
        if stands_at(&chars, &pattern, i) {
            assert(rest.subrange(0, from@.len() as int) == text@.subrange(
                i as int,
                i + from@.len(),
            ));
            assert(rest.skip(from@.len() as int) == text@.skip(i + from@.len()));
            out.append(to);
            i = i + pattern.len();
        } else {
            assert(i + from@.len() <= text@.len() ==> rest.subrange(0, from@.len() as int)
                == text@.subrange(i as int, i + from@.len()));
            assert(rest.skip(1) == text@.skip(i + 1));
            out.push(chars[i]);
            i = i + 1;
        }
    }
    out
}

/// Whether `c` is an ASCII digit.
pub open spec fn is_digit(c: char) -> bool {
    '0' <= c <= '9'
}

/// Whether `s` holds ASCII digits only.
pub open spec fn all_digits(s: Seq<char>) -> bool {
    forall|i: int| 0 <= i < s.len() ==> is_digit(#[trigger] s[i])
}

/// The number that the digits `s` write.
pub open spec fn decimal_value(s: Seq<char>) -> nat
    decreases s.len(),
{
    if s.len() == 0 {
        0
    } else {
        decimal_value(s.drop_last()) * 10 + ((s.last() as u32) - ('0' as u32)) as nat
    }
}

/// The shortest decimal text of `n`.
pub open spec fn decimal(n: nat) -> Seq<char>
    decreases n,
{
    let digit = (('0' as u32) + n % 10) as char;
    if n < 10 {
        seq![digit]
    } else {
        decimal(n / 10).push(digit)
    }
}

/// Reading back the decimal text of a number gives the number.
pub proof fn decimal_reads_back(n: nat)
    ensures
        all_digits(decimal(n)),
        decimal(n).len() > 0,
        decimal_value(decimal(n)) == n,
    decreases n,
{
    if n < 10 {
        assert(decimal(n).drop_last() == Seq::<char>::empty());
        assert(decimal_value(decimal(n).drop_last()) == 0);
    } else {
        decimal_reads_back(n / 10);
        assert(decimal(n).drop_last() == decimal(n / 10));
    }
}

proof fn decimal_value_grows(s: Seq<char>, k: int)
    requires
        all_digits(s),
        0 <= k <= s.len(),
    ensures
        decimal_value(s.take(k)) <= decimal_value(s),
    decreases s.len(),
{
    if k < s.len() {
        decimal_value_grows(s.drop_last(), k);
        assert(s.drop_last().take(k) == s.take(k));
    } else {
        assert(s.take(k) == s);
    }
}

/// The number that `chars` from position `from` on write, where they are ASCII digits, at least
/// one, and the number is at most `u64::MAX`.
pub fn read_digits(chars: &Vec<char>, from: usize) -> (r: Option<u64>)
    requires
        from <= chars.len(),
    ensures
        ({
            let s = chars@.skip(from as int);
            let readable = s.len() > 0 && all_digits(s) && decimal_value(s) <= u64::MAX;
            &&& r is Some <==> readable
            &&& readable ==> r->0 == decimal_value(s)
        }),
{
    let ghost s = chars@.skip(from as int);
    if from == chars.len() {
        return None;
    }
    let mut value: u64 = 0;
    let mut i: usize = from;
    assert(s.take(0) == Seq::<char>::empty());
    while i < chars.len()
        invariant
            from <= i <= chars.len(),
            s == chars@.skip(from as int),
            all_digits(s.take(i - from)),
            value == decimal_value(s.take(i - from)),
        decreases chars.len() - i,
    {
        let c = chars[i];
        assert(s[i - from] == c);
        if !('0' <= c && c <= '9') {
            assert(!all_digits(s));
            return None;
        }
        let digit: u64 = (c as u32 - '0' as u32) as u64;
        assert(s.take(i + 1 - from).drop_last() == s.take(i - from));
        assert(decimal_value(s.take(i + 1 - from)) == value * 10 + digit);
        if value > u64::MAX / 10 || value * 10 > u64::MAX - digit {
            proof {
                if all_digits(s) {
                    decimal_value_grows(s, i + 1 - from);
                }
            }
            return None;
        }
        value = value * 10 + digit;
        i = i + 1;
        assert forall|k: int| 0 <= k < s.take(i - from).len() implies is_digit(
            #[trigger] s.take(i - from)[k],
        ) by {
            if k < i - 1 - from {
                assert(s.take(i - 1 - from)[k] == s.take(i - from)[k]);
            }
        }
    }
    assert(s.take(i - from) == s);
    Some(value)
}

/// What reading `s` as an unsigned number of at most `max` gives: digits, at least one, after a
/// plus sign or none.
pub open spec fn unsigned_value(s: Seq<char>, max: nat) -> Option<nat> {
    let digits = if s.len() > 0 && s[0] == '+' {
        s.skip(1)
    } else {
        s
    };
    if digits.len() > 0 && all_digits(digits) && decimal_value(digits) <= max {
        Some(decimal_value(digits))
    } else {
        None
    }
}

/// Reads `text` as a `u64`, with a leading plus sign allowed.
pub fn read_unsigned(text: &str) -> (r: Option<u64>)
    ensures
        match unsigned_value(text@, u64::MAX as nat) {
            Some(n) => r == Some(n as u64),
            None => r is None,
        },
{
    let chars = characters(text);
    if chars.len() > 0 && chars[0] == '+' {
        read_digits(&chars, 1)
    } else {
        assert(chars@.skip(0) == chars@);
        read_digits(&chars, 0)
    }
}

/// The shortest decimal text of `n`.
pub fn decimal_text(n: u64) -> (r: String)
    ensures
        r@ == decimal(n as nat),
    decreases n,
{
    let digit: char = (('0' as u8) + ((n % 10) as u8)) as char;
    let mut out = if n < 10 {
        String::new()
    } else {
        decimal_text(n / 10)
    };
    out.push(digit);
    out
}

/// The characters of each text.
pub open spec fn contents(texts: Seq<String>) -> Seq<Seq<char>> {
    texts.map_values(|text: String| text@)
}

/// The parts in order with `between` between each two.
pub open spec fn joined(parts: Seq<Seq<char>>, between: Seq<char>) -> Seq<char>
    decreases parts.len(),
{
    if parts.len() == 0 {
        Seq::empty()
    } else if parts.len() == 1 {
        parts[0]
    } else {
        joined(parts.drop_last(), between) + between + parts.last()
    }
}

/// The texts in order with `between` between each two.
pub fn join(parts: &Vec<String>, between: &str) -> (r: String)
    ensures
        r@ == joined(contents(parts@), between@),
{
    let ghost all = contents(parts@);
    let mut out = String::new();
    let mut i: usize = 0;
    while i < parts.len()
        invariant
            i <= parts.len(),
            all == contents(parts@),
            out@ == joined(all.take(i as int), between@),
        decreases parts.len() - i,
    {
        if i > 0 {
            out.append(between);
        }
        out.append(parts[i].as_str());
        i = i + 1;
        assert(all.take(i as int).drop_last() == all.take(i - 1));
    }
    assert(all.take(i as int) == all);
    out
}

/// Each part stands in the whole that the parts are joined to.
pub proof fn parts_occur_when_joined(parts: Seq<Seq<char>>, between: Seq<char>, k: int)
    requires
        0 <= k < parts.len(),
    ensures
        occurs(joined(parts, between), parts[k]),
    decreases parts.len(),
{
    let whole = joined(parts, between);
    let part = parts[k];
    if parts.len() == 1 {
        assert(whole.subrange(0, part.len() as int) == part);
        assert(occurs_at(whole, part, 0));
    } else if k == parts.len() - 1 {
        let at = whole.len() - part.len();
        assert(whole.subrange(at, whole.len() as int) == part);
        assert(occurs_at(whole, part, at));
    } else {
        let head = joined(parts.drop_last(), between);
        parts_occur_when_joined(parts.drop_last(), between, k);
        let p = choose|p: int| occurs_at(head, part, p);
        assert(whole.subrange(p, p + part.len()) == head.subrange(p, p + part.len()));
        assert(occurs_at(whole, part, p));
    }
}

/// Replacing a character in two texts one after the other replaces it in both.
pub proof fn replacing_a_character_distributes(
    a: Seq<char>,
    b: Seq<char>,
    c: char,
    to: Seq<char>,
)
    ensures
        replaced(a + b, seq![c], to) == replaced(a, seq![c], to) + replaced(b, seq![c], to),
    decreases a.len(),
{
    if a.len() == 0 {
        assert(a + b == b);
        assert(replaced(a, seq![c], to) + replaced(b, seq![c], to) == replaced(b, seq![c], to));
    } else {
        replacing_a_character_distributes(a.skip(1), b, c, to);
        assert((a + b).skip(1) == a.skip(1) + b);
        assert(occurs_at(a, seq![c], 0) == (a[0] == c)) by {
            assert(a.subrange(0, 1) == seq![a[0]]);
            assert(seq![a[0]][0] == a[0] && seq![c][0] == c);
        }
        assert(occurs_at(a + b, seq![c], 0) == (a[0] == c)) by {
            assert((a + b).subrange(0, 1) == seq![a[0]]);
            assert(seq![a[0]][0] == a[0] && seq![c][0] == c);
        }
        if a[0] == c {
            assert(to + (replaced(a.skip(1), seq![c], to) + replaced(b, seq![c], to)) == to
                + replaced(a.skip(1), seq![c], to) + replaced(b, seq![c], to));
        } else {
            assert(seq![a[0]] + (replaced(a.skip(1), seq![c], to) + replaced(b, seq![c], to))
                == seq![a[0]] + replaced(a.skip(1), seq![c], to) + replaced(b, seq![c], to));
        }
    }
}

/// Replacing a character in a text of one character.
pub proof fn replacing_in_one_character(x: char, c: char, to: Seq<char>)
    ensures
        replaced(seq![x], seq![c], to) == if x == c {
            to
        } else {
            seq![x]
        },
{
    assert(seq![x].subrange(0, 1) == seq![x]);
    assert(seq![x][0] == x && seq![c][0] == c);
    assert(seq![x].skip(1) == Seq::<char>::empty());
    assert(replaced(Seq::<char>::empty(), seq![c], to) == Seq::<char>::empty());
    assert(occurs_at(seq![x], seq![c], 0) == (x == c));
    assert(to + Seq::<char>::empty() == to);
    assert(seq![x] + Seq::<char>::empty() == seq![x]);
}

/// Replacing leaves the text before the first occurrence as it is, puts the new text in place of
/// that occurrence, and goes on behind it.
pub proof fn replacing_goes_from_left_to_right(
    s: Seq<char>,
    from: Seq<char>,
    to: Seq<char>,
    i: int,
)
    requires
        from.len() > 0,
        occurs_at(s, from, i),
        forall|k: int| 0 <= k < i ==> !#[trigger] occurs_at(s, from, k),
    ensures
        replaced(s, from, to) == s.take(i) + to + replaced(s.skip(i + from.len()), from, to),
    decreases i,
{
    if i == 0 {
        assert(s.take(0) + to + replaced(s.skip(from.len() as int), from, to) == to + replaced(
            s.skip(from.len() as int),
            from,
            to,
        ));
    } else {
        let rest = s.skip(1);
        assert(!occurs_at(s, from, 0));
        assert(rest.subrange(i - 1, i - 1 + from.len()) == s.subrange(i, i + from.len()));
        assert forall|k: int| 0 <= k < i - 1 implies !#[trigger] occurs_at(rest, from, k) by {
            if occurs_at(rest, from, k) {
                assert(s.subrange(k + 1, k + 1 + from.len()) == rest.subrange(k, k + from.len()));
                assert(occurs_at(s, from, k + 1));
            }
        }
        replacing_goes_from_left_to_right(rest, from, to, i - 1);
        assert(rest.skip(i - 1 + from.len()) == s.skip(i + from.len()));
        let tail = replaced(s.skip(i + from.len()), from, to);
        assert(seq![s[0]] + (rest.take(i - 1) + to + tail) == s.take(i) + to + tail);
    }
}

/// Where the old text does not occur, replacing changes nothing.
pub proof fn replacing_nothing_changes_nothing(s: Seq<char>, from: Seq<char>, to: Seq<char>)
    requires
        forall|k: int| !#[trigger] occurs_at(s, from, k),
    ensures
        replaced(s, from, to) == s,
    decreases s.len(),
{
    if from.len() > 0 && s.len() > 0 {
        let rest = s.skip(1);
        assert(!occurs_at(s, from, 0));
        assert forall|k: int| !#[trigger] occurs_at(rest, from, k) by {
            if occurs_at(rest, from, k) {
                assert(s.subrange(k + 1, k + 1 + from.len()) == rest.subrange(k, k + from.len()));
                assert(occurs_at(s, from, k + 1));
            }
        }
        replacing_nothing_changes_nothing(rest, from, to);
        assert(seq![s[0]] + rest == s);
    }
}

/// Joining parts puts the text between each two of them and nothing else: one part is the whole,
/// and a part behind others follows them and the text between.
pub proof fn joining_puts_the_text_between(
    parts: Seq<Seq<char>>,
    part: Seq<char>,
    between: Seq<char>,
)
    ensures
        joined(Seq::<Seq<char>>::empty(), between) == Seq::<char>::empty(),
        joined(seq![part], between) == part,
        parts.len() > 0 ==> joined(parts.push(part), between) == joined(parts, between) + between
            + part,
{
    assert(parts.push(part).drop_last() == parts);
}

/// The digit of a decimal text that stands `k` places from its end is that of the number.
pub proof fn decimal_digits_are_those_of_the_number(n: nat, k: nat)
    requires
        k < decimal(n).len(),
    ensures
        (decimal(n)[decimal(n).len() - 1 - k] as u32) - ('0' as u32) == (n / pow(10, k) as nat)
            % 10,
    decreases k,
{
    lemma_pow0(10);
    lemma_pow_positive(10, k);
    let digits = decimal(n);
    if k == 0 {
        assert(n / 1 == n);
        assert(digits.last() == (('0' as u32) + n % 10) as char);
    } else {
        let j = (k - 1) as nat;
        decimal_digits_are_those_of_the_number(n / 10, j);
        assert(digits[digits.len() - 1 - k] == decimal(n / 10)[decimal(n / 10).len() - 1 - j]);
        lemma_pow_adds(10, 1, j);
        lemma_pow1(10);
        lemma_pow_positive(10, j);
        lemma_div_denominator(n as int, 10, pow(10, j));
        assert((n / 10) / pow(10, j) as nat == n / pow(10, k) as nat);
    }
}

/// A decimal text has no zero in front, but for that of zero itself.
pub proof fn decimal_texts_are_shortest(n: nat)
    ensures
        decimal(n).len() > 0,
        n > 0 ==> decimal(n)[0] != '0',
        n == 0 ==> decimal(n) == seq!['0'],
    decreases n,
{
    if n >= 10 {
        decimal_texts_are_shortest(n / 10);
        assert(decimal(n)[0] == decimal(n / 10)[0]);
    } else if n == 0 {
        assert(decimal(0) =~= seq!['0']);
    }
}

/// A text is read as a number just where it is decimal digits behind a plus sign or none, and the
/// number is not too large; leading zeros do not count.
pub proof fn numbers_are_read_as_they_are_written(n: nat, max: nat)
    ensures
        n <= max ==> unsigned_value(decimal(n), max) == Some(n),
        n > max ==> unsigned_value(decimal(n), max) is None,
        n <= max ==> unsigned_value(seq!['+'] + decimal(n), max) == Some(n),
        n <= max ==> unsigned_value(seq!['0'] + decimal(n), max) == Some(n),
{
    decimal_reads_back(n);
    let digits = decimal(n);
    assert(is_digit(digits[0]));
    let plus = seq!['+'] + digits;
    assert(plus[0] == '+');
    assert(plus.skip(1) == digits);
    let zero = seq!['0'] + digits;
    assert(zero[0] == '0');
    assert forall|i: int| 0 <= i < zero.len() implies is_digit(#[trigger] zero[i]) by {
        if i > 0 {
            assert(zero[i] == digits[i - 1]);
        }
    }
    leading_zeros_do_not_count(digits);
}

proof fn leading_zeros_do_not_count(digits: Seq<char>)
    ensures
        decimal_value(seq!['0'] + digits) == decimal_value(digits),
    decreases digits.len(),
{
    let zero = seq!['0'] + digits;
    if digits.len() == 0 {
        assert(zero.drop_last() == Seq::<char>::empty());
        assert(zero.last() == '0');
        assert(decimal_value(zero.drop_last()) == 0);
    } else {
        leading_zeros_do_not_count(digits.drop_last());
        assert(zero.drop_last() == seq!['0'] + digits.drop_last());
        assert(zero.last() == digits.last());
    }
}

/// Text with anything but digits behind its sign is no number.
pub proof fn other_texts_are_no_numbers(s: Seq<char>, max: nat, i: int)
    requires
        0 <= i < s.len(),
        !('0' <= s[i] <= '9'),
        i > 0 || s[0] != '+',
    ensures
        unsigned_value(s, max) is None,
        unsigned_value(Seq::empty(), max) is None,
{
    if s[0] == '+' {
        assert(s.skip(1)[i - 1] == s[i]);
        assert(!is_digit(s.skip(1)[i - 1]));
    } else {
        assert(!is_digit(s[i]));
    }
}

} // verus!
