//! Text primitives over character sequences: trimming, splitting, matching and number rendering.
use vstd::prelude::*;

verus! {

/// `String::push` appends one character to the end of the string.
pub assume_specification[ std::string::String::push ](string: &mut std::string::String, ch: char)
    ensures
        final(string)@ == old(string)@.push(ch),
;

/// `text` in double quotes, with quotes, control and other special characters escaped.
pub uninterp spec fn quoted(text: Seq<char>) -> Seq<char>;

/// `format!` with `{:?}` renders a string slice in quotes and escapes; the result depends on the
/// characters alone.
#[verifier::external_body]
pub(crate) fn quote(text: &str) -> (result: String)
    ensures
        result@ == quoted(text@),
{
    format!("{:?}", text)
}

/// `name` and the quoted `value` of a field in a diagnostic form.
pub open spec fn field(name: Seq<char>, value: Seq<char>) -> Seq<char> {
    name + quoted(value)
}

/// Appends `name` and the quoted `value` of a field in a diagnostic form.
pub fn append_field(description: &mut String, name: &str, value: &str)
    ensures
        final(description)@ == old(description)@ + field(name@, value@),
{
    description.append(name);
    description.append(quote(value).as_str());
    assert(description@ =~= old(description)@ + field(name@, value@));
}

/// The characters of `bytes` that are not all UTF-8, with a replacement character for what is not.
pub uninterp spec fn utf8_lossy(bytes: Seq<u8>) -> Seq<char>;

/// The characters that `bytes` encode in UTF-8, with a replacement character for what is invalid.
pub open spec fn decoded(bytes: Seq<u8>) -> Seq<char> {
    if vstd::utf8::valid_utf8(bytes) {
        vstd::utf8::decode_utf8(bytes)
    } else {
        utf8_lossy(bytes)
    }
}

/// `String::from_utf8_lossy` decodes UTF-8 and puts replacement characters in place of invalid
/// sequences; the result depends on the bytes alone and is plain decoding where they are valid.
#[verifier::external_body]
pub(crate) fn from_utf8_lossy(bytes: &[u8]) -> (text: String)
    ensures
        text@ == if vstd::utf8::valid_utf8(bytes@) {
            vstd::utf8::decode_utf8(bytes@)
        } else {
            utf8_lossy(bytes@)
        },
{
    String::from_utf8_lossy(bytes).into_owned()
}

/// `std::str::from_utf8` decodes UTF-8 and fails exactly on bytes that are not valid UTF-8.
#[verifier::external_body]
pub(crate) fn from_utf8(bytes: &[u8]) -> (text: Option<String>)
    ensures
        match text {
            Some(text) => vstd::utf8::valid_utf8(bytes@) && text@ == vstd::utf8::decode_utf8(
                bytes@,
            ),
            None => !vstd::utf8::valid_utf8(bytes@),
        },
{
    std::str::from_utf8(bytes).ok().map(str::to_owned)
}

/// The Unicode `White_Space` property.
pub open spec fn is_white_space(c: char) -> bool {
    let n = c as u32;
    ||| 0x09 <= n <= 0x0d
    ||| n == 0x20
    ||| n == 0x85
    ||| n == 0xa0
    ||| n == 0x1680
    ||| 0x2000 <= n <= 0x200a
    ||| n == 0x2028
    ||| n == 0x2029
    ||| n == 0x202f
    ||| n == 0x205f
    ||| n == 0x3000
}

/// Whether `c` is Unicode white space.
pub fn white_space(c: char) -> (result: bool)
    ensures
        result == is_white_space(c),
{
    let n: u32 = c as u32;
    (0x09 <= n && n <= 0x0d) || n == 0x20 || n == 0x85 || n == 0xa0 || n == 0x1680 || (0x2000 <= n
        && n <= 0x200a) || n == 0x2028 || n == 0x2029 || n == 0x202f || n == 0x205f || n == 0x3000
}

/// `s` without its leading white space.
pub open spec fn trimmed_start(s: Seq<char>) -> Seq<char>
    decreases s.len(),
{
    if s.len() > 0 && is_white_space(s[0]) {
        trimmed_start(s.skip(1))
    } else {
        s
    }
}

/// `s` without its trailing white space.
pub open spec fn trimmed_end(s: Seq<char>) -> Seq<char>
    decreases s.len(),
{
    if s.len() > 0 && is_white_space(s.last()) {
        trimmed_end(s.drop_last())
    } else {
        s
    }
}

/// `s` without leading and trailing white space.
pub open spec fn trimmed(s: Seq<char>) -> Seq<char> {
    trimmed_end(trimmed_start(s))
}

/// The characters of `text`, indexable.
pub fn chars_of(text: &str) -> (chars: Vec<char>)
    ensures
        chars@ == text@,
{
    let mut chars: Vec<char> = Vec::new();
    for c in iter: text.chars()
        invariant
            chars@ == text@.take(iter.index() as int),
            iter.seq() == text@,
    {
        chars.push(c);
        assert(text@.take(iter.index() + 1) =~= text@.take(iter.index() as int).push(c));
    }
    assert(text@.take(text@.len() as int) =~= text@);
    chars
}

/// The text made of `chars`.
pub fn text_of(chars: &[char]) -> (text: String)
    ensures
        text@ == chars@,
{
    let mut text: String = String::new();
    let mut i: usize = 0;
    while i < chars.len()
        invariant
            i <= chars@.len(),
            text@ == chars@.take(i as int),
        decreases chars@.len() - i,
    {
        text.push(chars[i]);
        assert(chars@.take(i + 1) =~= chars@.take(i as int).push(chars@[i as int]));
        i += 1;
    }
    assert(chars@.take(chars@.len() as int) =~= chars@);
    text
}

/// Whether two texts hold the same characters.
pub fn same_text(left: &str, right: &str) -> (result: bool)
    ensures
        result == (left@ == right@),
{
    let left_owned: String = left.to_owned();
    let right_owned: String = right.to_owned();
    left_owned == right_owned
}

/// `text` without leading and trailing white space.
pub fn trim<'a>(text: &'a str) -> (result: &'a str)
    ensures
        result@ == trimmed(text@),
{
    let chars: Vec<char> = chars_of(text);
    let count: usize = chars.len();
    let mut start: usize = 0;
    assert(text@.skip(0) =~= text@);
    while start < count && white_space(chars[start])
        invariant
            start <= count,
            count == chars@.len(),
            chars@ == text@,
            trimmed_start(text@) == trimmed_start(text@.skip(start as int)),
        decreases count - start,
    {
        assert(text@.skip(start as int).skip(1) =~= text@.skip(start + 1));
        start += 1;
    }
    assert(trimmed_start(text@) == text@.skip(start as int));
    let mut end: usize = count;
    assert(text@.subrange(start as int, count as int) =~= text@.skip(start as int));
    while start < end && white_space(chars[end - 1])
        invariant
            start <= end <= count,
            count == chars@.len(),
            chars@ == text@,
            trimmed_end(text@.skip(start as int)) == trimmed_end(
                text@.subrange(start as int, end as int),
            ),
        decreases end,
    {
        assert(text@.subrange(start as int, end as int).drop_last() =~= text@.subrange(
            start as int,
            end - 1,
        ));
        end -= 1;
    }
    assert(text@.subrange(start as int, end as int).len() == end - start);
    text.substring_char(start, end)
}

/// The lower-case form of an ASCII letter; any other character unchanged.
pub open spec fn ascii_lower(c: char) -> char {
    if 'A' <= c <= 'Z' {
        ((c as u32) + 32) as char
    } else {
        c
    }
}

/// `s` with its ASCII letters in lower case.
pub open spec fn lowercased(s: Seq<char>) -> Seq<char> {
    s.map_values(|c: char| ascii_lower(c))
}

/// Whether `left` and `right` differ at most in the case of ASCII letters.
pub open spec fn same_ignoring_case(left: Seq<char>, right: Seq<char>) -> bool {
    lowercased(left) == lowercased(right)
}

/// Lower case is a fixed point.
pub proof fn lemma_lowercased_twice(s: Seq<char>)
    ensures
        lowercased(lowercased(s)) == lowercased(s),
{
    assert forall|i: int| 0 <= i < s.len() implies ascii_lower(ascii_lower(#[trigger] s[i]))
        == ascii_lower(s[i]) by {
        if 'A' <= s[i] <= 'Z' {
            assert(97 <= ascii_lower(s[i]) as u32 <= 122);
        }
    }
    assert(lowercased(lowercased(s)) =~= lowercased(s));
}

/// The lower-case form of an ASCII letter; any other character unchanged.
pub fn to_lower(c: char) -> (result: char)
    ensures
        result == ascii_lower(c),
{
    if 'A' <= c && c <= 'Z' {
        let n: u32 = c as u32;
        let lower: u8 = (n + 32) as u8;
        lower as char
    } else {
        c
    }
}

/// `text` with its ASCII letters in lower case.
pub fn to_lowercase(text: &str) -> (result: String)
    ensures
        result@ == lowercased(text@),
{
    let chars: Vec<char> = chars_of(text);
    let mut result: String = String::new();
    let mut i: usize = 0;
    while i < chars.len()
        invariant
            i <= chars@.len(),
            chars@ == text@,
            result@ == lowercased(text@.take(i as int)),
        decreases chars@.len() - i,
    {
        result.push(to_lower(chars[i]));
        assert(lowercased(text@.take(i + 1)) =~= lowercased(text@.take(i as int)).push(
            ascii_lower(text@[i as int]),
        ));
        i += 1;
    }
    assert(text@.take(text@.len() as int) =~= text@);
    result
}

/// Compares two texts, ignoring the case of ASCII letters.
pub fn eq_ignore_case(left: &str, right: &str) -> (result: bool)
    ensures
        result == same_ignoring_case(left@, right@),
{
    let left_lower: String = to_lowercase(left);
    let right_lower: String = to_lowercase(right);
    left_lower == right_lower
}

/// Whether `text` begins with `prefix`.
pub fn starts_with(text: &str, prefix: &str) -> (result: bool)
    ensures
        result == prefix@.is_prefix_of(text@),
{
    let text_len: usize = text.unicode_len();
    let prefix_len: usize = prefix.unicode_len();
    if prefix_len <= text_len {
        let result: bool = same_text(text.substring_char(0, prefix_len), prefix);
        assert(result == prefix@.is_prefix_of(text@)) by {
            assert(text@.subrange(0, prefix_len as int) =~= text@.take(prefix_len as int));
            if prefix@.is_prefix_of(text@) {
                assert(prefix@ =~= text@.subrange(0, prefix_len as int));
            }
        }
        result
    } else {
        false
    }
}

/// Whether `text` ends with `suffix`.
pub fn ends_with(text: &str, suffix: &str) -> (result: bool)
    ensures
        result == suffix@.is_suffix_of(text@),
{
    let text_len: usize = text.unicode_len();
    let suffix_len: usize = suffix.unicode_len();
    if suffix_len <= text_len {
        let result: bool = same_text(text.substring_char(text_len - suffix_len, text_len), suffix);
        assert(result == suffix@.is_suffix_of(text@)) by {
            if suffix@.is_suffix_of(text@) {
                assert(suffix@ =~= text@.subrange(text_len - suffix_len, text_len as int));
            }
        }
        result
    } else {
        false
    }
}

/// The first position from `i` on at which `s` holds `c`; the length of `s` where there is none.
pub open spec fn index_from(s: Seq<char>, c: char, i: int) -> int
    decreases s.len() - i,
{
    if i >= s.len() {
        s.len() as int
    } else if s[i] == c {
        i
    } else {
        index_from(s, c, i + 1)
    }
}

/// `s` without one trailing carriage return.
pub open spec fn without_carriage_return(s: Seq<char>) -> Seq<char> {
    if s.len() > 0 && s.last() == '\r' {
        s.drop_last()
    } else {
        s
    }
}

/// The lines of `s`: each ends at a line feed, with or without a carriage return before it, or at
/// the end of the text.
pub open spec fn text_lines(s: Seq<char>) -> Seq<Seq<char>>
    decreases s.len(),
{
    let end = index_from(s, '\n', 0);
    if s.len() == 0 {
        Seq::empty()
    } else if 0 <= end < s.len() {
        seq![without_carriage_return(s.take(end))] + text_lines(s.skip(end + 1))
    } else {
        seq![s]
    }
}

/// The character sequences that a list of strings holds.
pub open spec fn texts(list: Seq<String>) -> Seq<Seq<char>> {
    list.map_values(|text: String| text@)
}

/// The first position from `start` on at which `chars` holds `c`.
pub fn find_char(chars: &Vec<char>, c: char, start: usize) -> (position: usize)
    requires
        start <= chars@.len(),
    ensures
        position == index_from(chars@, c, start as int),
        start <= position <= chars@.len(),
        position < chars@.len() ==> chars@[position as int] == c,
        forall|k: int| start <= k < position ==> chars@[k] != c,
{
    let mut i: usize = start;
    while i < chars.len() && chars[i] != c
        invariant
            start <= i <= chars@.len(),
            index_from(chars@, c, start as int) == index_from(chars@, c, i as int),
            forall|k: int| start <= k < i ==> chars@[k] != c,
        decreases chars@.len() - i,
    {
        i += 1;
    }
    i
}

proof fn lemma_index_from_skip(s: Seq<char>, c: char, start: int, i: int)
    requires
        0 <= start <= i <= s.len(),
    ensures
        index_from(s.skip(start), c, i - start) == index_from(s, c, i) - start,
    decreases s.len() - i,
{
    if i < s.len() && s[i] != c {
        lemma_index_from_skip(s, c, start, i + 1);
    }
}

/// The lines of `text`.
pub fn lines(text: &str) -> (result: Vec<String>)
    ensures
        texts(result@) == text_lines(text@),
{
    let chars: Vec<char> = chars_of(text);
    let mut result: Vec<String> = Vec::new();
    let mut start: usize = 0;
    assert(text@.skip(0) =~= text@);
    assert(texts(result@) + text_lines(text@) =~= text_lines(text@));
    while start < chars.len()
        invariant
            start <= chars@.len(),
            chars@ == text@,
            texts(result@) + text_lines(text@.skip(start as int)) == text_lines(text@),
        decreases chars@.len() - start,
    {
        let end: usize = find_char(&chars, '\n', start);
        proof {
            lemma_index_from_skip(text@, '\n', start as int, start as int);
        }
        let ghost rest = text@.skip(start as int);
        let ghost before = texts(result@);
        if end < chars.len() {
            let stop: usize = if start < end && chars[end - 1] == '\r' {
                end - 1
            } else {
                end
            };
            let line: String = text.substring_char(start, stop).to_owned();
            assert(line@ =~= without_carriage_return(rest.take(end - start)));
            assert(rest.skip(end - start + 1) =~= text@.skip(end + 1));
            result.push(line);
            assert(texts(result@) =~= before.push(line@));
            assert(before + (seq![line@] + text_lines(text@.skip(end + 1))) =~= before.push(line@)
                + text_lines(text@.skip(end + 1)));
            start = end + 1;
        } else {
            let line: String = text.substring_char(start, end).to_owned();
            assert(line@ =~= rest);
            result.push(line);
            assert(texts(result@) =~= before.push(line@));
            assert(text_lines(text@.skip(end as int)) =~= Seq::<Seq<char>>::empty());
            assert(before + seq![line@] =~= before.push(line@) + text_lines(text@.skip(end as int)));
            start = end;
        }
    }
    assert(text@.skip(start as int) =~= Seq::<char>::empty());
    assert(texts(result@) + text_lines(text@.skip(start as int)) =~= texts(result@));
    result
}

/// Whether `pattern` stands in `s` at position `i`.
pub open spec fn occurs_at(s: Seq<char>, pattern: Seq<char>, i: int) -> bool {
    0 <= i && i + pattern.len() <= s.len() && s.subrange(i, i + pattern.len()) == pattern
}

/// Whether `pattern` stands anywhere in `s`.
pub open spec fn contains_text(s: Seq<char>, pattern: Seq<char>) -> bool {
    exists|i: int| occurs_at(s, pattern, i)
}

/// The first position from `i` on at which `pattern` stands in `s`.
pub open spec fn find_from(s: Seq<char>, pattern: Seq<char>, i: int) -> Option<int>
    decreases s.len() - i + 1,
{
    if i + pattern.len() > s.len() {
        None
    } else if occurs_at(s, pattern, i) {
        Some(i)
    } else {
        find_from(s, pattern, i + 1)
    }
}

/// What stands before and after the first occurrence of `pattern` in `s`.
pub open spec fn divided(s: Seq<char>, pattern: Seq<char>) -> Option<(Seq<char>, Seq<char>)> {
    match find_from(s, pattern, 0) {
        Some(i) => Some((s.take(i), s.skip(i + pattern.len()))),
        None => None,
    }
}

/// The first position at which `pattern` stands in `text`.
pub fn find(text: &str, pattern: &str) -> (position: Option<usize>)
    ensures
        match position {
            Some(i) => find_from(text@, pattern@, 0) == Some(i as int) && occurs_at(
                text@,
                pattern@,
                i as int,
            ),
            None => find_from(text@, pattern@, 0) is None && !contains_text(text@, pattern@),
        },
{
    let text_len: usize = text.unicode_len();
    let pattern_len: usize = pattern.unicode_len();
    if pattern_len > text_len {
        return None;
    }
    let mut i: usize = 0;
    while i <= text_len - pattern_len
        invariant
            pattern_len <= text_len,
            text_len == text@.len(),
            pattern_len == pattern@.len(),
            i <= text_len - pattern_len + 1,
            find_from(text@, pattern@, 0) == find_from(text@, pattern@, i as int),
            forall|k: int| 0 <= k < i ==> !occurs_at(text@, pattern@, k),
        decreases text_len - pattern_len + 1 - i,
    {
        if same_text(text.substring_char(i, i + pattern_len), pattern) {
            return Some(i);
        }
        if i == text_len - pattern_len {
            assert(find_from(text@, pattern@, i + 1) is None);
            return None;
        }
        i += 1;
    }
    None
}

/// Whether `pattern` stands anywhere in `text`.
pub fn contains(text: &str, pattern: &str) -> (result: bool)
    ensures
        result == contains_text(text@, pattern@),
{
    find(text, pattern).is_some()
}

/// What stands before and after the first occurrence of `pattern` in `text`.
pub fn split_once<'a>(text: &'a str, pattern: &str) -> (result: Option<(&'a str, &'a str)>)
    ensures
        match result {
            Some((before, after)) => divided(text@, pattern@) == Some((before@, after@)),
            None => divided(text@, pattern@) is None,
        },
{
    match find(text, pattern) {
        Some(i) => {
            let text_len: usize = text.unicode_len();
            let pattern_len: usize = pattern.unicode_len();
            let before: &'a str = text.substring_char(0, i);
            let after: &'a str = text.substring_char(i + pattern_len, text_len);
            assert(before@ =~= text@.take(i as int));
            assert(after@ =~= text@.skip(i + pattern_len));
            Some((before, after))
        },
        None => None,
    }
}

/// The first position from `i` on at which `s` holds white space; the length of `s` where there is
/// none.
pub open spec fn word_end(s: Seq<char>, i: int) -> int
    decreases s.len() - i,
{
    if i >= s.len() {
        s.len() as int
    } else if is_white_space(s[i]) {
        i
    } else {
        word_end(s, i + 1)
    }
}

/// The first word of `s` and what follows it; a word is a run without white space.
pub open spec fn first_word(s: Seq<char>) -> Option<(Seq<char>, Seq<char>)> {
    let start = trimmed_start(s);
    if start.len() == 0 {
        None
    } else {
        Some((start.take(word_end(start, 0)), start.skip(word_end(start, 0))))
    }
}

/// The first word of `text` and what follows it.
pub fn split_word<'a>(text: &'a str) -> (result: Option<(&'a str, &'a str)>)
    ensures
        match result {
            Some((word, rest)) => first_word(text@) == Some((word@, rest@)),
            None => first_word(text@) is None,
        },
{
    let chars: Vec<char> = chars_of(text);
    let count: usize = chars.len();
    let mut start: usize = 0;
    assert(text@.skip(0) =~= text@);
    while start < count && white_space(chars[start])
        invariant
            start <= count,
            count == chars@.len(),
            chars@ == text@,
            trimmed_start(text@) == trimmed_start(text@.skip(start as int)),
        decreases count - start,
    {
        assert(text@.skip(start as int).skip(1) =~= text@.skip(start + 1));
        start += 1;
    }
    let ghost rest = text@.skip(start as int);
    assert(trimmed_start(text@) == rest);
    if start == count {
        return None;
    }
    let mut end: usize = start;
    while end < count && !white_space(chars[end])
        invariant
            start <= end <= count,
            count == chars@.len(),
            chars@ == text@,
            rest == text@.skip(start as int),
            word_end(rest, 0) == word_end(rest, end - start),
        decreases count - end,
    {
        end += 1;
    }
    let word: &'a str = text.substring_char(start, end);
    let after: &'a str = text.substring_char(end, count);
    assert(word@ =~= rest.take(end - start));
    assert(after@ =~= rest.skip(end - start));
    Some((word, after))
}

/// The character for one digit of a number in base 16 or less.
pub open spec fn digit_char(digit: nat) -> char {
    if digit < 10 {
        (digit + 48) as char
    } else {
        (digit + 87) as char
    }
}

/// `n` in decimal notation.
pub open spec fn decimal(n: nat) -> Seq<char>
    decreases n,
{
    if n < 10 {
        seq![digit_char(n)]
    } else {
        decimal(n / 10).push(digit_char(n % 10))
    }
}

/// `n` in hexadecimal notation with lower-case digits.
pub open spec fn hexadecimal(n: nat) -> Seq<char>
    decreases n,
{
    if n < 16 {
        seq![digit_char(n)]
    } else {
        hexadecimal(n / 16).push(digit_char(n % 16))
    }
}

fn digit_of(digit: u8) -> (c: char)
    requires
        digit < 16,
    ensures
        c == digit_char(digit as nat),
{
    if digit < 10 {
        (digit + 48) as char
    } else {
        (digit + 87) as char
    }
}

/// `n` in decimal notation.
pub fn decimal_text(n: u64) -> (result: String)
    ensures
        result@ == decimal(n as nat),
    decreases n,
{
    if n < 10 {
        let mut result: String = String::new();
        result.push(digit_of(n as u8));
        assert(result@ =~= decimal(n as nat));
        result
    } else {
        let mut result: String = decimal_text(n / 10);
        result.push(digit_of((n % 10) as u8));
        result
    }
}

/// `n` in hexadecimal notation with lower-case digits.
pub fn hexadecimal_text(n: u64) -> (result: String)
    ensures
        result@ == hexadecimal(n as nat),
    decreases n,
{
    if n < 16 {
        let mut result: String = String::new();
        result.push(digit_of(n as u8));
        assert(result@ =~= hexadecimal(n as nat));
        result
    } else {
        let mut result: String = hexadecimal_text(n / 16);
        result.push(digit_of((n % 16) as u8));
        result
    }
}

/// `s` preceded by as many `fill` characters as a width of `width` needs.
pub open spec fn padded_start(s: Seq<char>, width: nat, fill: char) -> Seq<char> {
    if s.len() >= width {
        s
    } else {
        Seq::new((width - s.len()) as nat, |i: int| fill) + s
    }
}

/// `s` followed by as many `fill` characters as a width of `width` needs.
pub open spec fn padded_end(s: Seq<char>, width: nat, fill: char) -> Seq<char> {
    if s.len() >= width {
        s
    } else {
        s + Seq::new((width - s.len()) as nat, |i: int| fill)
    }
}

fn repeated(fill: char, count: usize) -> (result: String)
    ensures
        result@ == Seq::new(count as nat, |i: int| fill),
{
    let mut result: String = String::new();
    let mut i: usize = 0;
    while i < count
        invariant
            i <= count,
            result@ =~= Seq::new(i as nat, |k: int| fill),
        decreases count - i,
    {
        result.push(fill);
        i += 1;
    }
    result
}

/// `text` preceded by as many `fill` characters as a width of `width` needs.
pub fn pad_start(text: &str, width: usize, fill: char) -> (result: String)
    ensures
        result@ == padded_start(text@, width as nat, fill),
{
    let count: usize = text.unicode_len();
    if count >= width {
        text.to_owned()
    } else {
        let mut result: String = repeated(fill, width - count);
        result.append(text);
        result
    }
}

/// `text` followed by as many `fill` characters as a width of `width` needs.
pub fn pad_end(text: &str, width: usize, fill: char) -> (result: String)
    ensures
        result@ == padded_end(text@, width as nat, fill),
{
    let count: usize = text.unicode_len();
    let mut result: String = text.to_owned();
    if count < width {
        let padding: String = repeated(fill, width - count);
        result.append(padding.as_str());
    }
    result
}

/// The value of one digit of a number in base `radix`, at most 16; letters in either case.
pub open spec fn digit_value(c: char, radix: nat) -> Option<nat> {
    let n = c as u32;
    let value: int = if '0' <= c <= '9' {
        n - 48
    } else if 'a' <= c <= 'f' {
        n - 87
    } else if 'A' <= c <= 'F' {
        n - 55
    } else {
        16
    };
    if value < radix {
        Some(value as nat)
    } else {
        None
    }
}

/// Whether every character of `s` is a digit in base `radix`.
pub open spec fn all_digits(s: Seq<char>, radix: nat) -> bool {
    forall|i: int| 0 <= i < s.len() ==> digit_value(#[trigger] s[i], radix) is Some
}

/// The number that the digits of `s` write in base `radix`.
pub open spec fn digits_value(s: Seq<char>, radix: nat) -> nat
    decreases s.len(),
{
    if s.len() == 0 {
        0
    } else {
        digits_value(s.drop_last(), radix) * radix + digit_value(s.last(), radix).unwrap_or(0)
    }
}

/// The number that `s` writes in base `radix`: an optional plus sign and at least one digit, with a
/// value of at most `max`.
pub open spec fn parsed_unsigned(s: Seq<char>, radix: nat, max: nat) -> Option<nat> {
    let digits = if s.len() > 0 && s[0] == '+' {
        s.skip(1)
    } else {
        s
    };
    if digits.len() > 0 && all_digits(digits, radix) && digits_value(digits, radix) <= max {
        Some(digits_value(digits, radix))
    } else {
        None
    }
}

proof fn lemma_digits_value_grows(s: Seq<char>, radix: nat, i: int)
    requires
        0 <= i <= s.len(),
        radix > 0,
    ensures
        digits_value(s.take(i), radix) <= digits_value(s, radix),
    decreases s.len(),
{
    if i == s.len() {
        assert(s.take(i) =~= s);
    } else {
        lemma_digits_value_grows(s.drop_last(), radix, i);
        assert(s.drop_last().take(i) =~= s.take(i));
        let value = digits_value(s.drop_last(), radix);
        assert(value * radix >= value) by (nonlinear_arith)
            requires
                radix > 0,
        ;
    }
}

/// The number that `text` writes in base `radix`: an optional plus sign and at least one digit, with
/// a value of at most `max`.
pub fn parse_unsigned(text: &str, radix: u64, max: u64) -> (result: Option<u64>)
    requires
        radix == 10 || radix == 16,
    ensures
        match result {
            Some(value) => parsed_unsigned(text@, radix as nat, max as nat) == Some(value as nat),
            None => parsed_unsigned(text@, radix as nat, max as nat) is None,
        },
{
    let chars: Vec<char> = chars_of(text);
    let start: usize = if chars.len() > 0 && chars[0] == '+' {
        1
    } else {
        0
    };
    let ghost digits = text@.skip(start as int);
    assert(text@.skip(0) =~= text@);
    if start == chars.len() {
        return None;
    }
    let mut i: usize = start;
    let mut value: u64 = 0;
    assert(digits.take(0) =~= Seq::<char>::empty());
    while i < chars.len()
        invariant
            start <= i <= chars@.len(),
            chars@ == text@,
            digits == text@.skip(start as int),
            radix == 10 || radix == 16,
            value <= max,
            value == digits_value(digits.take(i - start), radix as nat),
            forall|k: int|
                0 <= k < i - start ==> digit_value(#[trigger] digits[k], radix as nat) is Some,
            parsed_unsigned(text@, radix as nat, max as nat) == (if all_digits(
                digits,
                radix as nat,
            ) && digits_value(digits, radix as nat) <= max {
                Some(digits_value(digits, radix as nat))
            } else {
                None
            }),
        decreases chars@.len() - i,
    {
        let c: char = chars[i];
        assert(digits[i - start] == c);
        let n: u32 = c as u32;
        let digit: u64 = if '0' <= c && c <= '9' {
            (n - 48) as u64
        } else if 'a' <= c && c <= 'f' {
            (n - 87) as u64
        } else if 'A' <= c && c <= 'F' {
            (n - 55) as u64
        } else {
            16
        };
        if digit >= radix {
            return None;
        }
        assert(digit_value(c, radix as nat) == Some(digit as nat));
        let wide: u128 = if radix == 10 {
            (value as u128) * 10 + (digit as u128)
        } else {
            (value as u128) * 16 + (digit as u128)
        };
        proof {
            assert(digits.take(i - start + 1).drop_last() =~= digits.take(i - start));
            assert(wide == digits_value(digits.take(i - start + 1), radix as nat));
            lemma_digits_value_grows(digits, radix as nat, i - start + 1);
        }
        if wide > max as u128 {
            return None;
        }
        value = wide as u64;
        i += 1;
    }
    assert(digits.take(digits.len() as int) =~= digits);
    Some(value)
}

/// The texts of `list` with `separator` between them.
pub open spec fn joined(list: Seq<Seq<char>>, separator: Seq<char>) -> Seq<char>
    decreases list.len(),
{
    if list.len() == 0 {
        Seq::empty()
    } else if list.len() == 1 {
        list[0]
    } else {
        joined(list.drop_last(), separator) + separator + list.last()
    }
}

/// The texts of `list` with `separator` between them.
pub fn join(list: &Vec<String>, separator: &str) -> (result: String)
    ensures
        result@ == joined(texts(list@), separator@),
{
    let mut result: String = String::new();
    let mut i: usize = 0;
    assert(texts(list@).take(0) =~= Seq::<Seq<char>>::empty());
    while i < list.len()
        invariant
            i <= list@.len(),
            result@ == joined(texts(list@).take(i as int), separator@),
        decreases list@.len() - i,
    {
        assert(texts(list@).take(i + 1).drop_last() =~= texts(list@).take(i as int));
        if i > 0 {
            result.append(separator);
        }
        result.append(list[i].as_str());
        assert(result@ =~= joined(texts(list@).take(i + 1), separator@));
        i += 1;
    }
    assert(texts(list@).take(list@.len() as int) =~= texts(list@));
    result
}

/// Whether `left` stands before `right` in dictionary order.
pub open spec fn precedes(left: Seq<char>, right: Seq<char>) -> bool
    decreases left.len(),
{
    if right.len() == 0 {
        false
    } else if left.len() == 0 {
        true
    } else if left[0] == right[0] {
        precedes(left.skip(1), right.skip(1))
    } else {
        left[0] < right[0]
    }
}

/// Dictionary order is strict and total.
pub proof fn lemma_precedes_total(left: Seq<char>, right: Seq<char>)
    ensures
        left == right ==> !precedes(left, right),
        left != right ==> precedes(left, right) != precedes(right, left),
    decreases left.len(),
{
    if left.len() > 0 && right.len() > 0 && left[0] == right[0] {
        lemma_precedes_total(left.skip(1), right.skip(1));
        if left.skip(1) == right.skip(1) {
            assert(left =~= seq![left[0]] + left.skip(1));
            assert(right =~= seq![right[0]] + right.skip(1));
        }
    } else if left.len() == 0 && right.len() == 0 {
        assert(left =~= right);
    }
}

/// Dictionary order is transitive.
pub proof fn lemma_precedes_transitive(left: Seq<char>, middle: Seq<char>, right: Seq<char>)
    requires
        precedes(left, middle),
        precedes(middle, right),
    ensures
        precedes(left, right),
    decreases left.len(),
{
    if left.len() > 0 && middle.len() > 0 && right.len() > 0 && left[0] == middle[0] && middle[0]
        == right[0] {
        lemma_precedes_transitive(left.skip(1), middle.skip(1), right.skip(1));
    }
}

/// Whether `left` stands before `right` in dictionary order.
pub fn text_before(left: &str, right: &str) -> (result: bool)
    ensures
        result == precedes(left@, right@),
{
    let left_chars: Vec<char> = chars_of(left);
    let right_chars: Vec<char> = chars_of(right);
    let mut i: usize = 0;
    assert(left@.skip(0) =~= left@);
    assert(right@.skip(0) =~= right@);
    while i < left_chars.len() && i < right_chars.len() && left_chars[i] == right_chars[i]
        invariant
            left_chars@ == left@,
            right_chars@ == right@,
            i <= left@.len(),
            i <= right@.len(),
            precedes(left@, right@) == precedes(left@.skip(i as int), right@.skip(i as int)),
        decreases left@.len() - i,
    {
        assert(left@.skip(i as int).skip(1) =~= left@.skip(i + 1));
        assert(right@.skip(i as int).skip(1) =~= right@.skip(i + 1));
        i += 1;
    }
    if i >= right_chars.len() {
        false
    } else if i >= left_chars.len() {
        true
    } else {
        left_chars[i] < right_chars[i]
    }
}

/// Whether `order` lists the positions of `keys` sorted by key, equal keys in their own order.
pub open spec fn is_stable_order(keys: Seq<Seq<char>>, order: Seq<usize>) -> bool {
    &&& order.len() == keys.len()
    &&& order.no_duplicates()
    &&& forall|i: int| 0 <= i < order.len() ==> #[trigger] order[i] < keys.len()
    &&& forall|i: int, j: int|
        #![trigger order[i], order[j]]
        0 <= i < j < order.len() ==> comes_first(keys, order[i] as int, order[j] as int)
}

/// Whether position `i` comes before position `j` in a stable sort of `keys`.
pub open spec fn comes_first(keys: Seq<Seq<char>>, i: int, j: int) -> bool {
    precedes(keys[i], keys[j]) || (keys[i] == keys[j] && i < j)
}

/// The positions of `keys` sorted by key, equal keys in their own order.
pub fn stable_order(keys: &Vec<String>) -> (order: Vec<usize>)
    ensures
        is_stable_order(texts(keys@), order@),
{
    let mut order: Vec<usize> = Vec::new();
    let ghost view = texts(keys@);
    let mut next: usize = 0;
    while next < keys.len()
        invariant
            next <= keys@.len(),
            view == texts(keys@),
            order@.len() == next,
            order@.no_duplicates(),
            forall|i: int| 0 <= i < order@.len() ==> #[trigger] order@[i] < next,
            forall|i: int, j: int|
                #![trigger order@[i], order@[j]]
                0 <= i < j < order@.len() ==> comes_first(
                    view,
                    order@[i] as int,
                    order@[j] as int,
                ),
        decreases keys@.len() - next,
    {
        let mut place: usize = order.len();
        while place > 0 && text_before(keys[next].as_str(), keys[order[place - 1]].as_str())
            invariant
                next < keys@.len(),
                view == texts(keys@),
                order@.len() == next,
                place <= order@.len(),
                forall|i: int| 0 <= i < order@.len() ==> #[trigger] order@[i] < next,
                forall|i: int|
                    place <= i < order@.len() ==> precedes(
                        view[next as int],
                        view[#[trigger] order@[i] as int],
                    ),
            decreases place,
        {
            place -= 1;
        }
        let ghost before = order@;
        proof {
            if place > 0 {
                let held = before[place - 1] as int;
                lemma_precedes_total(view[next as int], view[held]);
                assert forall|i: int| 0 <= i < place implies comes_first(
                    view,
                    #[trigger] before[i] as int,
                    next as int,
                ) by {
                    if i < place - 1 {
                        assert(comes_first(view, before[i] as int, before[place - 1] as int));
                        if precedes(view[before[i] as int], view[held]) && precedes(
                            view[held],
                            view[next as int],
                        ) {
                            lemma_precedes_transitive(
                                view[before[i] as int],
                                view[held],
                                view[next as int],
                            );
                        }
                    }
                }
            }
        }
        order.insert(place, next);
        proof {
            assert forall|i: int, j: int|
                #![trigger order@[i], order@[j]]
                0 <= i < j < order@.len() implies comes_first(
                view,
                order@[i] as int,
                order@[j] as int,
            ) by {
                let a = if i < place {
                    i
                } else {
                    i - 1
                };
                let b = if j < place {
                    j
                } else {
                    j - 1
                };
                if i != place {
                    assert(order@[i] == before[a]);
                }
                if j != place {
                    assert(order@[j] == before[b]);
                }
                if i != place && j != place {
                    assert(comes_first(view, before[a] as int, before[b] as int));
                }
            }
            assert forall|i: int, j: int|
                0 <= i < order@.len() && 0 <= j < order@.len() && i != j implies order@[i]
                != order@[j] by {
                let a = if i < place {
                    i
                } else {
                    i - 1
                };
                let b = if j < place {
                    j
                } else {
                    j - 1
                };
                if i != place {
                    assert(order@[i] == before[a]);
                }
                if j != place {
                    assert(order@[j] == before[b]);
                }
            }
        }
        next += 1;
    }
    order
}


proof fn lemma_digit_round_trip(digit: nat, radix: nat)
    requires
        digit < radix,
        radix == 10 || radix == 16,
    ensures
        digit_value(digit_char(digit), radix) == Some(digit),
        digit_char(digit) != '+',
{
}

proof fn lemma_decimal_digits(n: nat)
    ensures
        decimal(n).len() > 0,
        decimal(n)[0] != '+',
        all_digits(decimal(n), 10),
        digits_value(decimal(n), 10) == n,
    decreases n,
{
    if n < 10 {
        lemma_digit_round_trip(n, 10);
        reveal_with_fuel(digits_value, 2);
        assert(decimal(n).drop_last() =~= Seq::<char>::empty());
    } else {
        let before = decimal(n / 10);
        lemma_decimal_digits(n / 10);
        lemma_digit_round_trip(n % 10, 10);
        assert(decimal(n).drop_last() =~= before);
        assert forall|i: int| 0 <= i < decimal(n).len() implies digit_value(
            #[trigger] decimal(n)[i],
            10,
        ) is Some by {
            if i < before.len() {
                assert(decimal(n)[i] == before[i]);
            }
        }
    }
}

proof fn lemma_hexadecimal_digits(n: nat)
    ensures
        hexadecimal(n).len() > 0,
        hexadecimal(n)[0] != '+',
        all_digits(hexadecimal(n), 16),
        digits_value(hexadecimal(n), 16) == n,
    decreases n,
{
    if n < 16 {
        lemma_digit_round_trip(n, 16);
        reveal_with_fuel(digits_value, 2);
        assert(hexadecimal(n).drop_last() =~= Seq::<char>::empty());
    } else {
        let before = hexadecimal(n / 16);
        lemma_hexadecimal_digits(n / 16);
        lemma_digit_round_trip(n % 16, 16);
        assert(hexadecimal(n).drop_last() =~= before);
        assert forall|i: int| 0 <= i < hexadecimal(n).len() implies digit_value(
            #[trigger] hexadecimal(n)[i],
            16,
        ) is Some by {
            if i < before.len() {
                assert(hexadecimal(n)[i] == before[i]);
            }
        }
    }
}

/// A number written in decimal reads back as itself, and as nothing where it is too large.
pub proof fn law_decimal_reads_back(n: nat, max: nat)
    ensures
        n <= max ==> parsed_unsigned(decimal(n), 10, max) == Some(n),
        n > max ==> parsed_unsigned(decimal(n), 10, max) is None,
{
    lemma_decimal_digits(n);
}

/// A number written in hexadecimal reads back as itself, and as nothing where it is too large.
pub proof fn law_hexadecimal_reads_back(n: nat, max: nat)
    ensures
        n <= max ==> parsed_unsigned(hexadecimal(n), 16, max) == Some(n),
        n > max ==> parsed_unsigned(hexadecimal(n), 16, max) is None,
{
    lemma_hexadecimal_digits(n);
}

/// Decimal digits are the characters from `0` on; the ones after nine are the letters from `a` on,
/// and a capital letter counts as much as a small one.
pub proof fn law_digits_follow_the_alphabet(digit: nat)
    requires
        digit < 16,
    ensures
        digit < 10 ==> digit_char(digit) as int == '0' as int + digit,
        digit >= 10 ==> digit_char(digit) as int == 'a' as int + digit - 10,
        digit_value(digit_char(digit), 16) == Some(digit),
        digit >= 10 ==> digit_value(('A' as u32 + digit - 10) as char, 16) == Some(digit),
        digit >= 10 ==> digit_value(digit_char(digit), 10) is None,
{
}

/// One more digit at the end multiplies a number by the base and adds the digit.
pub proof fn law_digits_are_positional(s: Seq<char>, digit: nat, radix: nat, max: nat)
    requires
        radix == 10 || radix == 16,
        digit < radix,
        parsed_unsigned(s, radix, max) is Some,
    ensures
        parsed_unsigned(s.push(digit_char(digit)), radix, max) == (if parsed_unsigned(
            s,
            radix,
            max,
        )->Some_0 * radix + digit <= max {
            Some(parsed_unsigned(s, radix, max)->Some_0 * radix + digit)
        } else {
            None
        }),
{
    lemma_digit_round_trip(digit, radix);
    let longer = s.push(digit_char(digit));
    let signed = s[0] == '+';
    let digits = if signed {
        s.skip(1)
    } else {
        s
    };
    let all = if signed {
        longer.skip(1)
    } else {
        longer
    };
    assert(longer[0] == s[0]);
    assert(all =~= digits.push(digit_char(digit)));
    assert(all.drop_last() =~= digits);
    assert forall|i: int| 0 <= i < all.len() implies digit_value(#[trigger] all[i], radix)
        is Some by {
        if i < digits.len() {
            assert(all[i] == digits[i]);
        }
    }
}

/// A plus sign before a number changes nothing, and a text that is no number in the base, or none at
/// all, is none.
pub proof fn law_only_digits_are_a_number(s: Seq<char>, radix: nat, max: nat, i: int)
    ensures
        parsed_unsigned(Seq::empty(), radix, max) is None,
        parsed_unsigned(seq!['+'], radix, max) is None,
        0 < i < s.len() && digit_value(s[i], radix) is None ==> parsed_unsigned(s, radix, max)
            is None,
        s.len() > 0 && s[0] != '+' ==> parsed_unsigned(seq!['+'] + s, radix, max)
            == parsed_unsigned(s, radix, max),
{
    assert(seq!['+'].skip(1) =~= Seq::<char>::empty());
    assert((seq!['+'] + s).skip(1) =~= s);
    if 0 < i < s.len() && digit_value(s[i], radix) is None {
        assert(s.skip(1)[i - 1] == s[i]);
    }
}

proof fn lemma_trimmed_start(s: Seq<char>) -> (start: int)
    ensures
        0 <= start <= s.len(),
        trimmed_start(s) == s.skip(start),
        forall|i: int| 0 <= i < start ==> is_white_space(#[trigger] s[i]),
        start < s.len() ==> !is_white_space(s[start]),
    decreases s.len(),
{
    if s.len() > 0 && is_white_space(s[0]) {
        let rest = lemma_trimmed_start(s.skip(1));
        assert(s.skip(1).skip(rest) =~= s.skip(rest + 1));
        assert forall|i: int| 0 <= i < rest + 1 implies is_white_space(#[trigger] s[i]) by {
            if i > 0 {
                assert(s.skip(1)[i - 1] == s[i]);
            }
        }
        rest + 1
    } else {
        assert(s.skip(0) =~= s);
        0
    }
}

proof fn lemma_trimmed_end(s: Seq<char>) -> (end: int)
    ensures
        0 <= end <= s.len(),
        trimmed_end(s) == s.take(end),
        forall|i: int| end <= i < s.len() ==> is_white_space(#[trigger] s[i]),
        end > 0 ==> !is_white_space(s[end - 1]),
    decreases s.len(),
{
    if s.len() > 0 && is_white_space(s.last()) {
        let end = lemma_trimmed_end(s.drop_last());
        assert(s.drop_last().take(end) =~= s.take(end));
        assert forall|i: int| end <= i < s.len() implies is_white_space(#[trigger] s[i]) by {
            if i < s.len() - 1 {
                assert(s.drop_last()[i] == s[i]);
            }
        }
        end
    } else {
        assert(s.take(s.len() as int) =~= s);
        s.len() as int
    }
}

/// Whether every character of `s` is white space.
pub open spec fn blank(s: Seq<char>) -> bool {
    forall|i: int| 0 <= i < s.len() ==> is_white_space(#[trigger] s[i])
}

/// Trimming takes white space off both ends and nothing else: white space around a text that begins
/// and ends without any is all that goes.
pub proof fn law_trimming_takes_only_white_space(before: Seq<char>, s: Seq<char>, after: Seq<char>)
    requires
        blank(before),
        blank(after),
        s.len() > 0 ==> !is_white_space(s[0]) && !is_white_space(s.last()),
    ensures
        trimmed(before + s + after) == s,
{
    let all = before + s + after;
    let start = lemma_trimmed_start(all);
    let rest = all.skip(start);
    let end = lemma_trimmed_end(rest);
    if s.len() == 0 {
        if start < all.len() {
            assert(all[start] == (before + after)[start]);
            assert(start < before.len() ==> all[start] == before[start]);
            assert(start >= before.len() ==> all[start] == after[start - before.len()]);
        }
        assert(rest =~= Seq::<char>::empty());
        assert(trimmed(all) =~= s);
    } else {
        assert(all[before.len() as int] == s[0]);
        if start < before.len() {
            assert(all[start] == before[start]);
        }
        assert(start == before.len());
        assert(rest =~= s + after);
        assert(rest[s.len() - 1] == s.last());
        if end > s.len() {
            assert(rest[end - 1] == after[end - 1 - s.len()]);
        }
        assert(end == s.len());
        assert(trimmed(all) =~= s);
    }
}

/// Every text is what trimming leaves of it, with white space on both sides.
pub proof fn law_trimmed_text_stands_in_white_space(s: Seq<char>) -> (parts: (Seq<char>, Seq<char>))
    ensures
        s == parts.0 + trimmed(s) + parts.1,
        blank(parts.0),
        blank(parts.1),
        trimmed(s).len() > 0 ==> !is_white_space(trimmed(s)[0]) && !is_white_space(
            trimmed(s).last(),
        ),
{
    let start = lemma_trimmed_start(s);
    let rest = s.skip(start);
    let end = lemma_trimmed_end(rest);
    let parts = (s.take(start), rest.skip(end));
    assert(s =~= parts.0 + trimmed(s) + parts.1);
    assert forall|i: int| 0 <= i < parts.1.len() implies is_white_space(#[trigger] parts.1[i]) by {
        assert(parts.1[i] == rest[end + i]);
    }
    parts
}

/// Spaces, tabs and line ends are white space; letters, digits and what else prints in ASCII are
/// not.
pub proof fn law_printed_ascii_is_no_white_space(c: char)
    ensures
        '!' <= c <= '~' ==> !is_white_space(c),
        c == ' ' || c == '\t' || c == '\n' || c == '\r' ==> is_white_space(c),
{
}

/// Ignoring case, a capital ASCII letter is its small one and no other character changes.
pub proof fn law_case_is_of_ascii_letters_alone(left: Seq<char>, right: Seq<char>, i: int)
    requires
        same_ignoring_case(left, right),
        0 <= i < left.len(),
    ensures
        left.len() == right.len(),
        left[i] == right[i] || ('A' <= left[i] <= 'Z' && right[i] as int == left[i] as int + 32)
            || ('A' <= right[i] <= 'Z' && left[i] as int == right[i] as int + 32),
{
    assert(lowercased(left).len() == left.len());
    assert(lowercased(right).len() == right.len());
    assert(lowercased(left)[i] == ascii_lower(left[i]));
    assert(lowercased(right)[i] == ascii_lower(right[i]));
}

/// Two texts of one length whose characters are the same, but for the case of ASCII letters, are the
/// same ignoring case.
pub proof fn law_case_is_ignored(left: Seq<char>, right: Seq<char>)
    requires
        left.len() == right.len(),
        forall|i: int|
            0 <= i < left.len() ==> #[trigger] left[i] == right[i] || ('A' <= left[i] <= 'Z'
                && right[i] as int == left[i] as int + 32) || ('A' <= right[i] <= 'Z'
                && left[i] as int == right[i] as int + 32),
    ensures
        same_ignoring_case(left, right),
{
    assert forall|i: int| 0 <= i < left.len() implies lowercased(left)[i] == lowercased(right)[i] by {
        let l = left[i];
        let r = right[i];
        if l != r {
            if 'A' <= l <= 'Z' && r as int == l as int + 32 {
                assert(ascii_lower(l) as int == l as int + 32);
                assert(ascii_lower(l) == r);
            } else {
                assert(ascii_lower(r) as int == r as int + 32);
                assert(ascii_lower(r) == l);
            }
        }
    }
    assert(lowercased(left) =~= lowercased(right));
}

proof fn lemma_find_from(s: Seq<char>, pattern: Seq<char>, i: int)
    requires
        0 <= i,
    ensures
        match find_from(s, pattern, i) {
            Some(at) => {
                &&& i <= at
                &&& occurs_at(s, pattern, at)
                &&& forall|k: int| i <= k < at ==> !#[trigger] occurs_at(s, pattern, k)
            },
            None => forall|k: int| i <= k ==> !#[trigger] occurs_at(s, pattern, k),
        },
    decreases s.len() - i + 1,
{
    if i + pattern.len() <= s.len() && !occurs_at(s, pattern, i) {
        lemma_find_from(s, pattern, i + 1);
    }
}

/// A text is divided at the first place where the pattern stands, and not at all where it stands
/// nowhere: what is before, the pattern and what is after make the text again.
pub proof fn law_division_is_at_the_first_place(s: Seq<char>, pattern: Seq<char>)
    ensures
        match divided(s, pattern) {
            Some((before, after)) => {
                &&& s == before + pattern + after
                &&& forall|k: int| 0 <= k < before.len() ==> !#[trigger] occurs_at(s, pattern, k)
            },
            None => !contains_text(s, pattern),
        },
{
    lemma_find_from(s, pattern, 0);
    if let Some((before, after)) = divided(s, pattern) {
        assert(s =~= before + pattern + after);
    }
}

/// A text is divided at a character that does not stand before it.
pub proof fn law_division_finds_the_character(before: Seq<char>, c: char, after: Seq<char>)
    requires
        !before.contains(c),
    ensures
        divided(before + seq![c] + after, seq![c]) == Some((before, after)),
        divided(before, seq![c]) is None,
{
    let s = before + seq![c] + after;
    let at = before.len() as int;
    lemma_find_from(s, seq![c], 0);
    assert(s.subrange(at, at + 1) =~= seq![c]);
    assert(occurs_at(s, seq![c], at));
    let found = find_from(s, seq![c], 0)->Some_0;
    if found < at {
        assert(s.subrange(found, found + 1)[0] == c);
        assert(before[found] == c);
    }
    assert(s.take(at) =~= before);
    assert(s.skip(at + 1) =~= after);
    lemma_find_from(before, seq![c], 0);
    if let Some(place) = find_from(before, seq![c], 0) {
        assert(before.subrange(place, place + 1)[0] == c);
        assert(before[place] == c);
    }
}

proof fn lemma_word_end(s: Seq<char>, i: int)
    requires
        0 <= i <= s.len(),
    ensures
        i <= word_end(s, i) <= s.len(),
        forall|k: int| i <= k < word_end(s, i) ==> !is_white_space(#[trigger] s[k]),
        word_end(s, i) < s.len() ==> is_white_space(s[word_end(s, i)]),
    decreases s.len() - i,
{
    if i < s.len() && !is_white_space(s[i]) {
        lemma_word_end(s, i + 1);
    }
}

/// The first word of a text is the run of characters up to the first white space, after the white
/// space that the text begins with.
pub proof fn law_first_word_ends_at_white_space(before: Seq<char>, word: Seq<char>, rest: Seq<char>)
    requires
        blank(before),
        word.len() > 0,
        forall|i: int| 0 <= i < word.len() ==> !is_white_space(#[trigger] word[i]),
        rest.len() > 0 ==> is_white_space(rest[0]),
    ensures
        first_word(before + word + rest) == Some((word, rest)),
        first_word(before) is None,
{
    let s = before + word + rest;
    let start = lemma_trimmed_start(s);
    assert(s[before.len() as int] == word[0]);
    if start < before.len() {
        assert(s[start] == before[start]);
    }
    let tail = s.skip(start);
    assert(tail =~= word + rest);
    lemma_word_end(tail, 0);
    let end = word_end(tail, 0);
    if end < word.len() {
        assert(tail[end] == word[end]);
    }
    if end > word.len() {
        assert(tail[word.len() as int] == rest[0]);
    }
    assert(tail.take(end) =~= word);
    assert(tail.skip(end) =~= rest);
    let blank_start = lemma_trimmed_start(before);
    assert(trimmed_start(before).len() == 0);
}

/// Padding makes a text at least as wide as asked for, with the fill character on one side only.
pub proof fn law_padding_fills_the_width(s: Seq<char>, width: nat, fill: char, i: int)
    ensures
        padded_start(s, width, fill).len() == (if s.len() < width {
            width
        } else {
            s.len()
        }),
        padded_end(s, width, fill).len() == padded_start(s, width, fill).len(),
        s.is_suffix_of(padded_start(s, width, fill)),
        s.is_prefix_of(padded_end(s, width, fill)),
        0 <= i < padded_start(s, width, fill).len() - s.len() ==> padded_start(s, width, fill)[i]
            == fill,
        s.len() <= i < padded_end(s, width, fill).len() ==> padded_end(s, width, fill)[i] == fill,
{
    assert(s.is_suffix_of(padded_start(s, width, fill)));
    assert(s.is_prefix_of(padded_end(s, width, fill)));
}

/// Joining two lists puts the separator between them, and a list of one text is that text.
pub proof fn law_joined_lists(
    left: Seq<Seq<char>>,
    right: Seq<Seq<char>>,
    one: Seq<char>,
    separator: Seq<char>,
)
    requires
        left.len() > 0,
        right.len() > 0,
    ensures
        joined(left + right, separator) == joined(left, separator) + separator + joined(
            right,
            separator,
        ),
        joined(seq![one], separator) == one,
        joined(Seq::empty(), separator) == Seq::<char>::empty(),
    decreases right.len(),
{
    let all = left + right;
    assert(all.drop_last() =~= left + right.drop_last());
    assert(all.last() == right.last());
    if right.len() == 1 {
        assert(all.drop_last() =~= left);
        assert(joined(right, separator) == right[0]);
    } else {
        law_joined_lists(left, right.drop_last(), one, separator);
        assert(joined(all, separator) =~= joined(left, separator) + separator + joined(
            right,
            separator,
        ));
    }
}

/// Two texts stand in the order of the first character in which they differ, and a text stands
/// before every longer one that it begins.
pub proof fn law_order_is_of_the_first_difference(
    common: Seq<char>,
    left: Seq<char>,
    right: Seq<char>,
)
    ensures
        left.len() > 0 && right.len() > 0 && left[0] < right[0] ==> precedes(
            common + left,
            common + right,
        ) && !precedes(common + right, common + left),
        left.len() > 0 ==> precedes(common, common + left) && !precedes(common + left, common),
    decreases common.len(),
{
    if common.len() == 0 {
        assert(common + left =~= left);
        assert(common + right =~= right);
        assert(common =~= Seq::empty());
    } else {
        law_order_is_of_the_first_difference(common.skip(1), left, right);
        assert((common + left).skip(1) =~= common.skip(1) + left);
        assert((common + right).skip(1) =~= common.skip(1) + right);
    }
}


proof fn lemma_index_from(s: Seq<char>, c: char, i: int)
    requires
        0 <= i <= s.len(),
    ensures
        i <= index_from(s, c, i) <= s.len(),
        forall|k: int| i <= k < index_from(s, c, i) ==> #[trigger] s[k] != c,
        index_from(s, c, i) < s.len() ==> s[index_from(s, c, i)] == c,
    decreases s.len() - i,
{
    if i < s.len() && s[i] != c {
        lemma_index_from(s, c, i + 1);
    }
}

/// A line ends at the first line feed, and a carriage return before that is not part of it; what
/// follows the line feed makes the lines after it.
pub proof fn law_line_ends_at_the_line_feed(line: Seq<char>, rest: Seq<char>)
    requires
        !line.contains('\n'),
    ensures
        line.len() == 0 || line.last() != '\r' ==> text_lines(line + seq!['\n'] + rest) == seq![line]
            + text_lines(rest),
        text_lines(line + seq!['\r', '\n'] + rest) == seq![line] + text_lines(rest),
        line.len() > 0 ==> text_lines(line) == seq![line],
        text_lines(Seq::empty()) == Seq::<Seq<char>>::empty(),
{
    lemma_line(line, rest);
    let returned = line.push('\r');
    assert forall|i: int| 0 <= i < returned.len() implies returned[i] != '\n' by {
        if i < line.len() {
            assert(line.contains(line[i]));
        }
    }
    lemma_line(returned, rest);
    assert(returned + seq!['\n'] + rest =~= line + seq!['\r', '\n'] + rest);
    assert(returned.drop_last() =~= line);
    lemma_index_from(line, '\n', 0);
    let end = index_from(line, '\n', 0);
    if end < line.len() {
        assert(line.contains(line[end]));
    }
}

proof fn lemma_line(line: Seq<char>, rest: Seq<char>)
    requires
        !line.contains('\n'),
    ensures
        text_lines(line + seq!['\n'] + rest) == seq![without_carriage_return(line)] + text_lines(
            rest,
        ),
{
    let s = line + seq!['\n'] + rest;
    let at = line.len() as int;
    lemma_index_from(s, '\n', 0);
    let end = index_from(s, '\n', 0);
    assert(s[at] == '\n');
    if end < at {
        assert(s[end] == line[end]);
        assert(line.contains(line[end]));
    }
    assert(end == at);
    assert(s.take(at) =~= line);
    assert(s.skip(at + 1) =~= rest);
}

/// Trimming a line takes a carriage return off its end too.
pub proof fn lemma_trimmed_without_carriage_return(s: Seq<char>)
    ensures
        trimmed(without_carriage_return(s)) == trimmed(s),
{
    if s.len() > 0 && s.last() == '\r' {
        let rest = s.drop_last();
        let parts = law_trimmed_text_stands_in_white_space(rest);
        let after = parts.1.push('\r');
        assert forall|i: int| 0 <= i < after.len() implies is_white_space(#[trigger] after[i]) by {
            if i < parts.1.len() {
                assert(after[i] == parts.1[i]);
            }
        }
        assert(s =~= rest.push('\r'));
        assert(rest.push('\r') =~= parts.0 + trimmed(rest) + after);
        law_trimming_takes_only_white_space(parts.0, trimmed(rest), after);
    }
}

/// The first line of a text and what follows its line feed.
pub proof fn lemma_first_line(s: Seq<char>) -> (parts: (Seq<char>, Seq<char>))
    requires
        s.contains('\n'),
    ensures
        s == parts.0 + seq!['\n'] + parts.1,
        !parts.0.contains('\n'),
        parts.1.len() < s.len(),
        text_lines(s) == seq![without_carriage_return(parts.0)] + text_lines(parts.1),
{
    lemma_index_from(s, '\n', 0);
    let end = index_from(s, '\n', 0);
    let parts = (s.take(end), s.skip(end + 1));
    assert(s =~= parts.0 + seq!['\n'] + parts.1);
    assert forall|i: int| 0 <= i < parts.0.len() implies parts.0[i] != '\n' by {
        assert(parts.0[i] == s[i]);
    }
    lemma_line(parts.0, parts.1);
    parts
}

/// A number in decimal notation is one or more of the digits `0` to `9`.
pub proof fn law_decimal_is_of_digits(n: nat)
    ensures
        decimal(n).len() > 0,
        forall|i: int| 0 <= i < decimal(n).len() ==> '0' <= (#[trigger] decimal(n)[i]) <= '9',
    decreases n,
{
    if n < 10 {
        law_digits_follow_the_alphabet(n);
    } else {
        law_decimal_is_of_digits(n / 10);
        law_digits_follow_the_alphabet(n % 10);
    }
}

} // verus!
