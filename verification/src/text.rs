//! Text primitives: scanning, trimming, splitting and decimal numbers over `char` sequences.
use vstd::prelude::*;

verus! {

/// `String::push`: appends one character at the end of the string.
pub assume_specification[ std::string::String::push ](s: &mut std::string::String, c: char)
    ensures
        final(s)@ == old(s)@.push(c),
;

/// The characters of `text`, in order.
pub fn chars_of(text: &str) -> (chars: Vec<char>)
    ensures
        chars@ == text@,
{
    let mut chars: Vec<char> = Vec::new();
    for c in it: text.chars()
        invariant
            it.seq() == text@,
            chars@ == it.seq().take(it.index()),
    {
        chars.push(c);
        assert(it.seq().take(it.index() + 1) =~= it.seq().take(it.index()).push(c));
    }
    assert(text@.take(text@.len() as int) =~= text@);
    chars
}

/// Collects the characters at positions `from..to` into a string.
pub fn text_between(chars: &Vec<char>, from: usize, to: usize) -> (text: String)
    requires
        from <= to <= chars@.len(),
    ensures
        text@ == chars@.subrange(from as int, to as int),
{
    let mut text: String = String::new();
    let mut i: usize = from;
    while i < to
        invariant
            from <= i <= to <= chars@.len(),
            text@ == chars@.subrange(from as int, i as int),
        decreases to - i,
    {
        text.push(chars[i]);
        i = i + 1;
        assert(text@ =~= chars@.subrange(from as int, i as int));
    }
    text
}

/// Position of the first `c` in `s`, or `s.len()` where there is none.
pub open spec fn first_position(s: Seq<char>, c: char) -> nat
    decreases s.len(),
{
    if s.len() == 0 || s[0] == c {
        0
    } else {
        1 + first_position(s.drop_first(), c)
    }
}

/// What `first_position` means: nothing before it is `c`, and it is `c` unless it is the end.
pub proof fn first_position_is_first(s: Seq<char>, c: char)
    ensures
        first_position(s, c) <= s.len(),
        first_position(s, c) < s.len() ==> s[first_position(s, c) as int] == c,
        forall|i: int| 0 <= i < first_position(s, c) ==> s[i] != c,
    decreases s.len(),
{
    if s.len() > 0 && s[0] != c {
        first_position_is_first(s.drop_first(), c);
        assert forall|i: int| 0 <= i < first_position(s, c) implies s[i] != c by {
            if i > 0 {
                assert(s.drop_first()[i - 1] == s[i]);
            }
        }
    }
}

proof fn first_position_at(s: Seq<char>, c: char, k: int)
    requires
        0 <= k <= s.len(),
        k < s.len() ==> s[k] == c,
        forall|i: int| 0 <= i < k ==> s[i] != c,
    ensures
        first_position(s, c) == k,
{
    first_position_is_first(s, c);
    let p: int = first_position(s, c) as int;
    if p < k {
        assert(s[p] != c);
    } else if k < p {
        assert(s[k] != c);
    }
}

fn find_char(chars: &Vec<char>, c: char) -> (k: usize)
    ensures
        k == first_position(chars@, c),
        k <= chars@.len(),
{
    let mut k: usize = 0;
    while k < chars.len() && chars[k] != c
        invariant
            k <= chars@.len(),
            forall|i: int| 0 <= i < k ==> chars@[i] != c,
        decreases chars@.len() - k,
    {
        k = k + 1;
    }
    proof {
        first_position_at(chars@, c, k as int);
    }
    k
}

/// The text before and after the first `c`, or `None` where `c` does not occur.
pub open spec fn split_first(s: Seq<char>, c: char) -> Option<(Seq<char>, Seq<char>)> {
    let k = first_position(s, c) as int;
    if k < s.len() {
        Some((s.take(k), s.skip(k + 1)))
    } else {
        None
    }
}

/// Splits `text` around the first `c`.
pub fn split_once(text: &str, c: char) -> (parts: Option<(String, String)>)
    ensures
        parts is Some <==> split_first(text@, c) is Some,
        parts matches Some(p) ==> split_first(text@, c) == Some((p.0@, p.1@)),
{
    let chars: Vec<char> = chars_of(text);
    let k: usize = find_char(&chars, c);
    if k < chars.len() {
        let before: String = text_between(&chars, 0, k);
        let after: String = text_between(&chars, k + 1, chars.len());
        assert(before@ =~= text@.take(k as int));
        assert(after@ =~= text@.skip(k + 1));
        Some((before, after))
    } else {
        None
    }
}

/// The text before the first `c`, the whole text where `c` does not occur.
pub open spec fn first_segment(s: Seq<char>, c: char) -> Seq<char> {
    s.take(first_position(s, c) as int)
}

/// The text between the first and the second `c`, or up to the end where there is no second one.
pub open spec fn second_segment(s: Seq<char>, c: char) -> Option<Seq<char>> {
    match split_first(s, c) {
        Some((_, rest)) => Some(first_segment(rest, c)),
        None => None,
    }
}

/// The first of the pieces that `c` cuts `text` into.
pub fn segment_first(text: &str, c: char) -> (segment: String)
    ensures
        segment@ == first_segment(text@, c),
{
    let chars: Vec<char> = chars_of(text);
    let k: usize = find_char(&chars, c);
    let segment: String = text_between(&chars, 0, k);
    assert(segment@ =~= first_segment(text@, c));
    segment
}

/// The second of the pieces that `c` cuts `text` into, if there is one.
pub fn segment_second(text: &str, c: char) -> (segment: Option<String>)
    ensures
        segment is Some <==> second_segment(text@, c) is Some,
        segment matches Some(s) ==> second_segment(text@, c) == Some(s@),
{
    match split_once(text, c) {
        Some((_, rest)) => Some(segment_first(rest.as_str(), c)),
        None => None,
    }
}

/// `s` without its leading `c`s.
pub open spec fn strip_leading(s: Seq<char>, c: char) -> Seq<char>
    decreases s.len(),
{
    if s.len() > 0 && s[0] == c {
        strip_leading(s.drop_first(), c)
    } else {
        s
    }
}

/// Removes every leading `c` from `text`.
pub fn trim_leading(text: &str, c: char) -> (rest: String)
    ensures
        rest@ == strip_leading(text@, c),
{
    let chars: Vec<char> = chars_of(text);
    let mut k: usize = 0;
    assert(chars@.skip(0) =~= chars@);
    while k < chars.len() && chars[k] == c
        invariant
            k <= chars@.len(),
            strip_leading(chars@, c) == strip_leading(chars@.skip(k as int), c),
        decreases chars@.len() - k,
    {
        assert(chars@.skip(k as int).drop_first() =~= chars@.skip(k + 1));
        k = k + 1;
    }
    let rest: String = text_between(&chars, k, chars.len());
    assert(rest@ =~= chars@.skip(k as int));
    rest
}

/// The characters with the Unicode property `White_Space`.
pub open spec fn whitespace(c: char) -> bool {
    ||| 0x9 <= c as u32 <= 0xd
    ||| c as u32 == 0x20
    ||| c as u32 == 0x85
    ||| c as u32 == 0xa0
    ||| c as u32 == 0x1680
    ||| 0x2000 <= c as u32 <= 0x200a
    ||| c as u32 == 0x2028
    ||| c as u32 == 0x2029
    ||| c as u32 == 0x202f
    ||| c as u32 == 0x205f
    ||| c as u32 == 0x3000
}

/// Whether `c` has the Unicode property `White_Space`.
pub fn is_whitespace(c: char) -> (b: bool)
    ensures
        b == whitespace(c),
{
    let n: u32 = c as u32;
    (n >= 0x9 && n <= 0xd) || n == 0x20 || n == 0x85 || n == 0xa0 || n == 0x1680 || (n >= 0x2000
        && n <= 0x200a) || n == 0x2028 || n == 0x2029 || n == 0x202f || n == 0x205f || n == 0x3000
}

/// `s` without its leading whitespace.
pub open spec fn trim_start(s: Seq<char>) -> Seq<char>
    decreases s.len(),
{
    if s.len() > 0 && whitespace(s[0]) {
        trim_start(s.drop_first())
    } else {
        s
    }
}

/// `s` without its trailing whitespace.
pub open spec fn trim_end(s: Seq<char>) -> Seq<char>
    decreases s.len(),
{
    if s.len() > 0 && whitespace(s.last()) {
        trim_end(s.drop_last())
    } else {
        s
    }
}

/// `s` without the whitespace at its two ends.
pub open spec fn trimmed(s: Seq<char>) -> Seq<char> {
    trim_end(trim_start(s))
}

/// Removes the whitespace at the two ends of `text`.
pub fn trim(text: &str) -> (middle: String)
    ensures
        middle@ == trimmed(text@),
{
    let chars: Vec<char> = chars_of(text);
    let mut from: usize = 0;
    assert(chars@.skip(0) =~= chars@);
    while from < chars.len() && is_whitespace(chars[from])
        invariant
            from <= chars@.len(),
            trim_start(chars@) == trim_start(chars@.skip(from as int)),
        decreases chars@.len() - from,
    {
        assert(chars@.skip(from as int).drop_first() =~= chars@.skip(from + 1));
        from = from + 1;
    }
    let ghost body = chars@.skip(from as int);
    assert(trim_start(chars@) == body);
    let mut to: usize = chars.len();
    assert(chars@.subrange(from as int, to as int) =~= body);
    while to > from && is_whitespace(chars[to - 1])
        invariant
            from <= to <= chars@.len(),
            trim_end(body) == trim_end(chars@.subrange(from as int, to as int)),
        decreases to - from,
    {
        assert(chars@.subrange(from as int, to as int).drop_last() =~= chars@.subrange(
            from as int,
            to - 1,
        ));
        to = to - 1;
    }
    text_between(&chars, from, to)
}

/// Whether `pattern` stands in `s` at position `at`.
pub open spec fn occurs_at(s: Seq<char>, pattern: Seq<char>, at: int) -> bool {
    0 <= at && at + pattern.len() <= s.len() && s.subrange(at, at + pattern.len()) == pattern
}

/// Whether `pattern` stands somewhere in `s`.
pub open spec fn occurs(s: Seq<char>, pattern: Seq<char>) -> bool {
    exists|at: int| occurs_at(s, pattern, at)
}

fn stands_at(chars: &Vec<char>, pattern: &Vec<char>, at: usize) -> (b: bool)
    requires
        at + pattern@.len() <= chars@.len(),
    ensures
        b == occurs_at(chars@, pattern@, at as int),
{
    let size: usize = chars.len();
    let mut i: usize = 0;
    let ghost piece = chars@.subrange(at as int, at + pattern@.len());
    while i < pattern.len()
        invariant
            i <= pattern@.len(),
            size == chars@.len(),
            at + pattern@.len() <= size,
            piece == chars@.subrange(at as int, at + pattern@.len()),
            forall|j: int| 0 <= j < i ==> piece[j] == pattern@[j],
        decreases pattern@.len() - i,
    {
        if chars[at + i] != pattern[i] {
            assert(piece[i as int] != pattern@[i as int]);
            return false;
        }
        i = i + 1;
    }
    assert(piece =~= pattern@);
    true
}

/// Whether `pattern` stands somewhere in `text`.
pub fn contains(text: &str, pattern: &str) -> (b: bool)
    ensures
        b == occurs(text@, pattern@),
{
    let chars: Vec<char> = chars_of(text);
    let wanted: Vec<char> = chars_of(pattern);
    if wanted.len() > chars.len() {
        return false;
    }
    let last: usize = chars.len() - wanted.len();
    let mut at: usize = 0;
    loop
        invariant
            at <= last,
            last + wanted@.len() == chars@.len(),
            chars@ == text@,
            wanted@ == pattern@,
            forall|i: int| 0 <= i < at ==> !occurs_at(text@, pattern@, i),
        decreases last - at,
    {
        if stands_at(&chars, &wanted, at) {
            return true;
        }
        if at == last {
            return false;
        }
        at = at + 1;
    }
}

/// The number of lines of `s`: each line feed ends one, and text behind the last one is one more.
pub open spec fn line_count(s: Seq<char>) -> nat {
    line_feeds(s) + if s.len() > 0 && s.last() != '\n' {
        1nat
    } else {
        0nat
    }
}

/// The number of line feeds in `s`.
pub open spec fn line_feeds(s: Seq<char>) -> nat
    decreases s.len(),
{
    if s.len() == 0 {
        0
    } else {
        line_feeds(s.drop_last()) + if s.last() == '\n' {
            1nat
        } else {
            0nat
        }
    }
}

/// Counts the lines of `text`.
pub fn count_lines(text: &str) -> (n: usize)
    ensures
        n == line_count(text@),
        n <= text@.len(),
{
    let chars: Vec<char> = chars_of(text);
    let mut n: usize = 0;
    let mut i: usize = 0;
    while i < chars.len()
        invariant
            i <= chars@.len(),
            n <= i,
            n == line_feeds(chars@.take(i as int)),
            i > 0 && chars@[i - 1] != '\n' ==> n < i,
        decreases chars@.len() - i,
    {
        assert(chars@.take(i + 1).drop_last() =~= chars@.take(i as int));
        if chars[i] == '\n' {
            n = n + 1;
        }
        i = i + 1;
    }
    assert(chars@.take(i as int) =~= chars@);
    if chars.len() > 0 && chars[chars.len() - 1] != '\n' {
        n = n + 1;
    }
    n
}

/// `c` with an ASCII capital letter turned into its small one.
pub open spec fn ascii_lower(c: char) -> char {
    if 'A' <= c <= 'Z' {
        (c as u32 + 32) as char
    } else {
        c
    }
}

/// Whether `s` spells `word` when the case of ASCII letters is disregarded.
pub open spec fn spells(s: Seq<char>, word: Seq<char>) -> bool {
    &&& s.len() == word.len()
    &&& forall|i: int| 0 <= i < s.len() ==> ascii_lower(#[trigger] s[i]) == word[i]
}

fn lower(c: char) -> (l: char)
    ensures
        l == ascii_lower(c),
{
    if 'A' <= c && c <= 'Z' {
        (c as u8 + 32) as char
    } else {
        c
    }
}

/// Whether `text` spells the small-letter `word`, in whatever case.
pub fn spells_word(text: &str, word: &str) -> (b: bool)
    ensures
        b == spells(text@, word@),
{
    let chars: Vec<char> = chars_of(text);
    let wanted: Vec<char> = chars_of(word);
    if chars.len() != wanted.len() {
        return false;
    }
    let mut i: usize = 0;
    while i < chars.len()
        invariant
            i <= chars@.len(),
            chars@ == text@,
            wanted@ == word@,
            chars@.len() == wanted@.len(),
            forall|j: int| 0 <= j < i ==> ascii_lower(#[trigger] chars@[j]) == wanted@[j],
        decreases chars@.len() - i,
    {
        if lower(chars[i]) != wanted[i] {
            return false;
        }
        i = i + 1;
    }
    true
}

/// The character of a decimal digit.
pub open spec fn digit_char(d: nat) -> char {
    (48 + d) as char
}

/// `n` in decimal, without leading zeros.
pub open spec fn decimal(n: nat) -> Seq<char>
    decreases n,
{
    if n < 10 {
        seq![digit_char(n)]
    } else {
        decimal(n / 10).push(digit_char(n % 10))
    }
}

/// A number below one hundred in two digits.
pub open spec fn two_digits(n: nat) -> Seq<char> {
    seq![digit_char(n / 10), digit_char(n % 10)]
}

/// Appends the character of one decimal digit.
pub fn push_digit(text: &mut String, d: u64)
    requires
        d < 10,
    ensures
        final(text)@ == old(text)@.push(digit_char(d as nat)),
{
    text.push((48u8 + d as u8) as char);
}

/// Appends `n` in decimal.
pub fn push_decimal(text: &mut String, n: u64)
    ensures
        final(text)@ == old(text)@ + decimal(n as nat),
    decreases n,
{
    if n >= 10 {
        push_decimal(text, n / 10);
    }
    push_digit(text, n % 10);
    assert(text@ =~= old(text)@ + decimal(n as nat));
}

/// `n` in decimal.
pub fn decimal_text(n: u64) -> (text: String)
    ensures
        text@ == decimal(n as nat),
{
    let mut text: String = String::new();
    push_decimal(&mut text, n);
    assert(text@ =~= decimal(n as nat));
    text
}

/// Whether `c` is a decimal digit.
pub open spec fn is_digit(c: char) -> bool {
    '0' <= c <= '9'
}

/// Whether `s` holds decimal digits alone.
pub open spec fn all_digits(s: Seq<char>) -> bool {
    forall|i: int| 0 <= i < s.len() ==> is_digit(#[trigger] s[i])
}

/// The number that a sequence of decimal digits writes.
pub open spec fn digits_value(s: Seq<char>) -> nat
    decreases s.len(),
{
    if s.len() == 0 {
        0
    } else {
        digits_value(s.drop_last()) * 10 + (s.last() as u32 - 48) as nat
    }
}

/// The digits of a number that may carry a plus sign.
pub open spec fn unsigned_part(s: Seq<char>) -> Seq<char> {
    if s.len() > 0 && s[0] == '+' {
        s.drop_first()
    } else {
        s
    }
}

/// Reads a port number: an optional plus sign, then at least one digit and nothing else, for a
/// number below 65536.
pub open spec fn port_number(s: Seq<char>) -> Option<u16> {
    let d = unsigned_part(s);
    if d.len() > 0 && all_digits(d) && digits_value(d) <= u16::MAX {
        Some(digits_value(d) as u16)
    } else {
        None
    }
}

/// Reads a port number.
pub fn parse_port(text: &str) -> (port: Option<u16>)
    ensures
        port == port_number(text@),
{
    let chars: Vec<char> = chars_of(text);
    let from: usize = if chars.len() > 0 && chars[0] == '+' {
        1
    } else {
        0
    };
    let ghost d = unsigned_part(text@);
    assert(d =~= chars@.skip(from as int));
    if from == chars.len() {
        return None;
    }
    let mut i: usize = from;
    let mut value: u32 = 0;
    let mut fits: bool = true;
    assert(d.take(0) =~= Seq::<char>::empty());
    while i < chars.len()
        invariant
            from <= i <= chars@.len(),
            from < chars@.len(),
            d == unsigned_part(text@),
            d == chars@.skip(from as int),
            forall|j: int| 0 <= j < i - from ==> is_digit(#[trigger] d[j]),
            fits ==> value == digits_value(d.take(i - from)) && value <= u16::MAX,
            !fits ==> digits_value(d.take(i - from)) > u16::MAX,
        decreases chars@.len() - i,
    {
        let c: char = chars[i];
        assert(c == d[i - from]);
        if c < '0' || c > '9' {
            assert(!is_digit(d[i - from]));
            return None;
        }
        assert(d.take(i + 1 - from).drop_last() =~= d.take(i - from));
        if fits {
            value = value * 10 + (c as u32 - 48);
            if value > 65535 {
                fits = false;
            }
        }
        i = i + 1;
    }
    assert(d.take(i - from) =~= d);
    if fits {
        Some(value as u16)
    } else {
        None
    }
}

proof fn decimal_reads_back(n: nat)
    ensures
        all_digits(decimal(n)),
        decimal(n).len() > 0,
        digits_value(decimal(n)) == n,
    decreases n,
{
    let s = decimal(n);
    if n < 10 {
        assert(s.drop_last() =~= Seq::<char>::empty());
        assert(digits_value(Seq::<char>::empty()) == 0);
    } else {
        decimal_reads_back(n / 10);
        assert(s.drop_last() =~= decimal(n / 10));
    }
}

/// Reading a port from its decimal text gives the port back.
pub proof fn port_text_reads_back(port: u16)
    ensures
        port_number(decimal(port as nat)) == Some(port),
{
    decimal_reads_back(port as nat);
    assert(is_digit(decimal(port as nat)[0]));
}

/// Different numbers have different decimal texts.
pub proof fn decimal_is_injective(a: nat, b: nat)
    requires
        decimal(a) == decimal(b),
    ensures
        a == b,
{
    decimal_reads_back(a);
    decimal_reads_back(b);
}

/// Trimmed text neither begins nor ends with whitespace, and trimming it again changes nothing.
pub proof fn trimmed_is_tight(s: Seq<char>)
    ensures
        trimmed(s).len() > 0 ==> !whitespace(trimmed(s)[0]) && !whitespace(trimmed(s).last()),
        trimmed(trimmed(s)) == trimmed(s),
{
    trim_start_is_tight(s);
    trim_end_is_tight(trim_start(s));
}

proof fn trim_start_is_tight(s: Seq<char>)
    ensures
        trim_start(s).len() > 0 ==> !whitespace(trim_start(s)[0]),
    decreases s.len(),
{
    if s.len() > 0 && whitespace(s[0]) {
        trim_start_is_tight(s.drop_first());
    }
}

proof fn trim_end_is_tight(s: Seq<char>)
    ensures
        trim_end(s).len() <= s.len(),
        trim_end(s).len() > 0 ==> !whitespace(trim_end(s).last()) && trim_end(s)[0] == s[0],
    decreases s.len(),
{
    if s.len() > 0 && whitespace(s.last()) {
        trim_end_is_tight(s.drop_last());
    }
}

/// Splitting loses nothing but the separator, which is the first one of the text; only a text
/// without the separator is not split.
pub proof fn splitting_parts_at_the_first(text: &str, c: char, parts: Option<(String, String)>)
    requires
        call_ensures(split_once, (text, c), parts),
    ensures
        parts is None <==> !text@.contains(c),
        parts matches Some(p) ==> text@ == p.0@ + seq![c] + p.1@ && !p.0@.contains(c),
{
    first_position_is_first(text@, c);
    let k = first_position(text@, c) as int;
    if k < text@.len() {
        assert(text@ =~= text@.take(k) + seq![c] + text@.skip(k + 1));
        assert(!text@.take(k).contains(c));
        assert(text@[k] == c);
    }
}

/// The first piece of a text reaches up to the first separator, or to the end where there is none.
pub proof fn first_piece_ends_at_the_separator(text: &str, c: char, segment: String)
    requires
        call_ensures(segment_first, (text, c), segment),
    ensures
        segment@.len() <= text@.len(),
        segment@ == text@.take(segment@.len() as int),
        !segment@.contains(c),
        segment@.len() < text@.len() ==> text@[segment@.len() as int] == c,
{
    first_position_is_first(text@, c);
}

/// The second piece of a text is what stands between its first two separators, or behind the only
/// one; a text without separators has none.
pub proof fn second_piece_is_between_separators(
    text: &str,
    c: char,
    first: Seq<char>,
    second: Seq<char>,
    rest: Seq<char>,
    segment: Option<String>,
)
    requires
        call_ensures(segment_second, (text, c), segment),
        !first.contains(c),
        !second.contains(c),
    ensures
        text@ == first ==> segment is None,
        text@ == first + seq![c] + second ==> (segment matches Some(s) && s@ == second),
        text@ == first + seq![c] + second + seq![c] + rest ==> (segment matches Some(s) && s@
            == second),
{
    if text@ == first {
        first_position_is_first(text@, c);
    }
    let k = first.len() as int;
    if text@ == first + seq![c] + second || text@ == first + seq![c] + second + seq![c] + rest {
        first_position_at(text@, c, k);
        let behind = text@.skip(k + 1);
        if text@ == first + seq![c] + second {
            assert(behind =~= second);
        } else {
            assert(behind =~= second + seq![c] + rest);
        }
        first_position_at(behind, c, second.len() as int);
        assert(first_segment(behind, c) =~= second);
    }
}

/// Removing a leading character takes away every one of it at the beginning, and nothing else.
pub proof fn only_leading_characters_go(text: &str, c: char, rest: String)
    requires
        call_ensures(trim_leading, (text, c), rest),
    ensures
        rest@.len() <= text@.len(),
        rest@ == text@.skip(text@.len() - rest@.len()),
        forall|i: int| 0 <= i < text@.len() - rest@.len() ==> text@[i] == c,
        rest@.len() > 0 ==> rest@[0] != c,
{
    strip_leading_parts(text@, c);
}

proof fn strip_leading_parts(s: Seq<char>, c: char)
    ensures
        strip_leading(s, c).len() <= s.len(),
        strip_leading(s, c) == s.skip(s.len() - strip_leading(s, c).len()),
        forall|i: int| 0 <= i < s.len() - strip_leading(s, c).len() ==> s[i] == c,
        strip_leading(s, c).len() > 0 ==> strip_leading(s, c)[0] != c,
    decreases s.len(),
{
    if s.len() > 0 && s[0] == c {
        let tail = s.drop_first();
        strip_leading_parts(tail, c);
        let n = strip_leading(s, c).len();
        assert(tail.skip(tail.len() - n) =~= s.skip(s.len() - n));
        assert forall|i: int| 0 <= i < s.len() - n implies s[i] == c by {
            if i > 0 {
                assert(tail[i - 1] == s[i]);
            }
        }
    } else {
        assert(s.skip(0) =~= s);
    }
}

/// Trimming takes the whitespace around a text away and leaves the text itself whole: what begins
/// and ends with other characters comes back as it is, whatever its length and its inside.
pub proof fn trimming_keeps_the_middle(
    text: &str,
    before: Seq<char>,
    inside: Seq<char>,
    after: Seq<char>,
    middle: String,
)
    requires
        call_ensures(trim, (text,), middle),
        text@ == before + inside + after,
        forall|i: int| 0 <= i < before.len() ==> whitespace(#[trigger] before[i]),
        forall|i: int| 0 <= i < after.len() ==> whitespace(#[trigger] after[i]),
        inside.len() > 0 ==> !whitespace(inside[0]) && !whitespace(inside.last()),
    ensures
        middle@ == inside,
{
    trimmed_is_the_middle(before, inside, after);
}

/// Text that neither begins nor ends with whitespace is all that trimming leaves of it between
/// any whitespace.
pub proof fn trimmed_is_the_middle(before: Seq<char>, inside: Seq<char>, after: Seq<char>)
    requires
        forall|i: int| 0 <= i < before.len() ==> whitespace(#[trigger] before[i]),
        forall|i: int| 0 <= i < after.len() ==> whitespace(#[trigger] after[i]),
        inside.len() > 0 ==> !whitespace(inside[0]) && !whitespace(inside.last()),
    ensures
        trimmed(before + inside + after) == inside,
    decreases before.len() + after.len(),
{
    let s = before + inside + after;
    if before.len() > 0 {
        assert(s[0] == before[0]);
        assert(s.drop_first() =~= before.drop_first() + inside + after);
        assert forall|i: int| 0 <= i < before.drop_first().len() implies whitespace(
            #[trigger] before.drop_first()[i],
        ) by {
            assert(whitespace(before[i + 1]));
        }
        trimmed_is_the_middle(before.drop_first(), inside, after);
    } else if inside.len() > 0 {
        assert(s[0] == inside[0]);
        assert(trim_start(s) == s);
        if after.len() > 0 {
            assert(s.last() == after.last());
            assert(s.drop_last() =~= before + inside + after.drop_last());
            trimmed_is_the_middle(before, inside, after.drop_last());
            assert(s.drop_last()[0] == inside[0]);
        } else {
            assert(s =~= inside);
        }
    } else if after.len() > 0 {
        assert(s =~= after);
        assert(s.drop_first() =~= before + inside + after.drop_first());
        assert forall|i: int| 0 <= i < after.drop_first().len() implies whitespace(
            #[trigger] after.drop_first()[i],
        ) by {
            assert(whitespace(after[i + 1]));
        }
        trimmed_is_the_middle(before, inside, after.drop_first());
    } else {
        assert(s =~= inside);
    }
}

/// No visible ASCII character is whitespace; the space, the tab and the ends of lines are.
pub proof fn visible_characters_are_not_whitespace(c: char, b: bool)
    requires
        call_ensures(is_whitespace, (c,), b),
    ensures
        0x21 <= c as u32 <= 0x7e ==> !b,
        c == ' ' || c == '\t' || c == '\n' || c == '\r' ==> b,
{
}

/// A pattern is found exactly where all of its characters follow each other in the text.
pub proof fn patterns_are_found_character_by_character(text: &str, pattern: &str, b: bool)
    requires
        call_ensures(contains, (text, pattern), b),
    ensures
        b <==> exists|at: int|
            0 <= at <= text@.len() - pattern@.len() && #[trigger] matches_from(
                text@,
                pattern@,
                at,
            ),
{
    let s = text@;
    let p = pattern@;
    if b {
        let at = choose|at: int| occurs_at(s, p, at);
        assert forall|j: int| 0 <= j < p.len() implies s[at + j] == p[j] by {
            assert(s.subrange(at, at + p.len())[j] == p[j]);
        }
        assert(matches_from(s, p, at));
    }
    if exists|at: int| 0 <= at <= s.len() - p.len() && #[trigger] matches_from(s, p, at) {
        let at = choose|at: int| 0 <= at <= s.len() - p.len() && #[trigger] matches_from(s, p, at);
        assert(s.subrange(at, at + p.len()) =~= p);
        assert(occurs_at(s, p, at));
    }
}

/// Whether the characters of `s` from `at` on are those of `pattern`.
pub open spec fn matches_from(s: Seq<char>, pattern: Seq<char>, at: int) -> bool {
    forall|j: int| 0 <= j < pattern.len() ==> s[at + j] == #[trigger] pattern[j]
}

proof fn line_feeds_add(a: Seq<char>, b: Seq<char>)
    ensures
        line_feeds(a + b) == line_feeds(a) + line_feeds(b),
    decreases b.len(),
{
    if b.len() == 0 {
        assert(a + b =~= a);
    } else {
        line_feeds_add(a, b.drop_last());
        assert((a + b).drop_last() =~= a + b.drop_last());
    }
}

proof fn no_line_feeds(s: Seq<char>)
    requires
        !s.contains('\n'),
    ensures
        line_feeds(s) == 0,
    decreases s.len(),
{
    if s.len() > 0 {
        assert(s[s.len() - 1] != '\n');
        assert forall|i: int| 0 <= i < s.drop_last().len() implies s.drop_last()[i] != '\n' by {
            assert(s[i] != '\n');
        }
        no_line_feeds(s.drop_last());
    }
}

/// A line put before a text adds one to its lines, and a line by itself is one unless it is empty.
pub proof fn lines_are_counted_one_by_one(
    line: Seq<char>,
    text: &str,
    n: usize,
    longer: &str,
    m: usize,
)
    requires
        call_ensures(count_lines, (text,), n),
        call_ensures(count_lines, (longer,), m),
        !line.contains('\n'),
        longer@ == line + seq!['\n'] + text@,
    ensures
        m == n + 1,
        text@ == line ==> n == if line.len() > 0 {
            1int
        } else {
            0
        },
{
    let end = seq!['\n'];
    line_feeds_add(line + end, text@);
    line_feeds_add(line, end);
    assert(end.drop_last() =~= Seq::empty());
    assert(line_feeds(end) == 1) by {
        assert(line_feeds(end.drop_last()) == 0);
    }
    no_line_feeds(line);
    if text@.len() > 0 {
        assert(longer@.last() == text@.last());
    } else {
        assert(longer@ =~= line + end);
    }
    if text@ == line && line.len() > 0 {
        assert(line[line.len() - 1] != '\n');
    }
}

/// A word without capitals is spelled by texts of its length that have at each place its own
/// character or the capital of it.
pub proof fn words_are_spelled_letter_by_letter(text: &str, word: &str, b: bool)
    requires
        call_ensures(spells_word, (text, word), b),
        forall|i: int| 0 <= i < word@.len() ==> !('A' <= #[trigger] word@[i] <= 'Z'),
    ensures
        b <==> text@.len() == word@.len() && forall|i: int|
            0 <= i < word@.len() ==> text@[i] == #[trigger] word@[i] || ('a' <= word@[i] <= 'z'
                && text@[i] as u32 + 32 == word@[i] as u32),
{
    if text@.len() == word@.len() {
        assert forall|i: int| 0 <= i < word@.len() implies (ascii_lower(#[trigger] text@[i])
            == word@[i] <==> (text@[i] == word@[i] || ('a' <= word@[i] <= 'z' && text@[i] as u32
            + 32 == word@[i] as u32))) by {
            assert(!('A' <= word@[i] <= 'Z'));
        }
        if b {
            assert forall|i: int| 0 <= i < word@.len() implies text@[i] == #[trigger] word@[i] || (
            'a' <= word@[i] <= 'z' && text@[i] as u32 + 32 == word@[i] as u32) by {
                assert(ascii_lower(text@[i]) == word@[i]);
            }
        }
        if forall|i: int|
            0 <= i < word@.len() ==> text@[i] == #[trigger] word@[i] || ('a' <= word@[i] <= 'z'
                && text@[i] as u32 + 32 == word@[i] as u32) {
            assert forall|i: int| 0 <= i < text@.len() implies ascii_lower(#[trigger] text@[i])
                == word@[i] by {
                assert(text@[i] == word@[i] || ('a' <= word@[i] <= 'z' && text@[i] as u32 + 32
                    == word@[i] as u32));
            }
        }
    }
}

/// The decimal text of a number is that of its tenth with the last digit behind it; below ten it
/// is the digit alone.
pub proof fn decimals_grow_digit_by_digit(n: u64, text: String, tenth: String)
    requires
        call_ensures(decimal_text, (n,), text),
        call_ensures(decimal_text, ((n / 10) as u64,), tenth),
    ensures
        n < 10 ==> text@ == seq![(48 + n) as char],
        n >= 10 ==> text@ == tenth@ + seq![(48 + n % 10) as char],
{
    decimal_steps(n as nat);
}

/// The decimal text of a number is that of its tenth with the last digit behind it; below ten it
/// is the digit alone.
pub proof fn decimal_steps(n: nat)
    ensures
        n < 10 ==> decimal(n) == seq![(48 + n) as char],
        n >= 10 ==> decimal(n) == decimal(n / 10) + seq![(48 + n % 10) as char],
        decimal(n).len() > 0,
        forall|i: int| 0 <= i < decimal(n).len() ==> '0' <= #[trigger] decimal(n)[i] <= '9',
        n > 0 ==> decimal(n)[0] != '0',
    decreases n,
{
    if n >= 10 {
        decimal_steps(n / 10);
        assert(decimal(n) =~= decimal(n / 10) + seq![(48 + n % 10) as char]);
    }
}

/// Two digits are the decimal text of a number below one hundred, with a zero before a single one.
pub proof fn two_digits_are_padded(n: nat)
    requires
        n < 100,
    ensures
        two_digits(n) == seq![(48 + n / 10) as char, (48 + n % 10) as char],
        n >= 10 ==> two_digits(n) == decimal(n),
        n < 10 ==> two_digits(n) == seq!['0'] + decimal(n),
{
    if n >= 10 {
        assert(decimal(n / 10) == seq![digit_char(n / 10)]);
        assert(two_digits(n) =~= decimal(n));
    } else {
        assert(two_digits(n) =~= seq!['0'] + decimal(n));
    }
}

proof fn zeros_add_nothing(zeros: Seq<char>, digits: Seq<char>)
    requires
        forall|i: int| 0 <= i < zeros.len() ==> zeros[i] == '0',
        all_digits(digits),
    ensures
        all_digits(zeros + digits),
        digits_value(zeros + digits) == digits_value(digits),
    decreases zeros.len() + digits.len(),
{
    let s = zeros + digits;
    if digits.len() > 0 {
        zeros_add_nothing(zeros, digits.drop_last());
        assert(s.drop_last() =~= zeros + digits.drop_last());
    } else if zeros.len() > 0 {
        zeros_add_nothing(zeros.drop_last(), digits);
        assert(s.drop_last() =~= zeros.drop_last() + digits);
    }
}

/// Every number up to 65535 is read from its decimal text, with zeros before it or not, with a
/// plus sign before those or not. Greater numbers are refused.
pub proof fn every_port_text_is_read(
    text: &str,
    sign: Seq<char>,
    zeros: Seq<char>,
    n: nat,
    port: Option<u16>,
)
    requires
        call_ensures(parse_port, (text,), port),
        sign == seq!['+'] || sign.len() == 0,
        forall|i: int| 0 <= i < zeros.len() ==> zeros[i] == '0',
        text@ == sign + zeros + decimal(n),
    ensures
        n <= 65535 ==> port == Some(n as u16),
        n > 65535 ==> port is None,
{
    decimal_reads_back(n);
    zeros_add_nothing(zeros, decimal(n));
    let digits = zeros + decimal(n);
    assert(is_digit(digits[0]));
    if sign.len() == 0 {
        assert(text@ =~= digits);
        assert(unsigned_part(text@) == digits);
    } else {
        assert(text@[0] == '+');
        assert(text@.drop_first() =~= digits);
    }
}

/// A text with a character that is no digit, other than a plus sign at its beginning, is no port
/// number, nor is a text without digits.
pub proof fn other_texts_are_no_ports(text: &str, i: int, port: Option<u16>)
    requires
        call_ensures(parse_port, (text,), port),
        text@.len() == 0 || text@ == seq!['+'] || (0 <= i < text@.len() && !('0' <= text@[i]
            <= '9') && (i > 0 || text@[i] != '+')),
    ensures
        port is None,
{
    let d = unsigned_part(text@);
    if 0 <= i < text@.len() && !('0' <= text@[i] <= '9') && (i > 0 || text@[i] != '+') {
        if text@[0] == '+' {
            assert(d[i - 1] == text@[i]);
            assert(!is_digit(d[i - 1]));
        } else {
            assert(!is_digit(d[i]));
        }
    }
}

} // verus!
