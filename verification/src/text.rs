//! Text as a sequence of characters: the operations on strings that the rest of the library states its
//! messages and its rules over.

use vstd::prelude::*;
use vstd::slice::slice_subrange;
use vstd::utf8::encode_utf8;

verus! {

/// `String::push` of the standard library appends the character to the string.
pub assume_specification[ std::string::String::push ](text: &mut std::string::String, c: char)
    ensures
        final(text)@ == old(text)@.push(c),
;

/// The number of bytes a text takes in UTF-8.
pub open spec fn utf8_len(text: Seq<char>) -> nat {
    encode_utf8(text).len()
}

pub fn byte_len(text: &str) -> (length: usize)
    ensures
        length == utf8_len(text@),
{
    text.as_bytes().len()
}

pub fn same(left: &str, right: &str) -> (equal: bool)
    ensures
        equal == (left@ == right@),
{
    left.to_owned() == right.to_owned()
}

pub fn chars_of(text: &str) -> (chars: Vec<char>)
    ensures
        chars@ == text@,
{
    broadcast use vstd::string::axiom_spec_iter;
    let mut chars: Vec<char> = Vec::new();
    for c in iter: text.chars()
        invariant
            iter.seq() == text@,
            chars@ == text@.take(iter.index()),
    {
        chars.push(c);
    }
    chars
}

pub fn text_of(chars: &[char]) -> (text: String)
    ensures
        text@ == chars@,
{
    let mut text = String::new();
    for i in 0..chars.len()
        invariant
            text@ == chars@.take(i as int),
    {
        text.push(chars[i]);
    }
    text
}

pub fn cat2(a: &str, b: &str) -> (joined: String)
    ensures
        joined@ == a@ + b@,
{
    a.to_owned().concat(b)
}

pub fn cat3(a: &str, b: &str, c: &str) -> (joined: String)
    ensures
        joined@ == a@ + b@ + c@,
{
    a.to_owned().concat(b).concat(c)
}

pub fn cat4(a: &str, b: &str, c: &str, d: &str) -> (joined: String)
    ensures
        joined@ == a@ + b@ + c@ + d@,
{
    cat3(a, b, c).concat(d)
}

pub fn cat5(a: &str, b: &str, c: &str, d: &str, e: &str) -> (joined: String)
    ensures
        joined@ == a@ + b@ + c@ + d@ + e@,
{
    cat4(a, b, c, d).concat(e)
}

pub fn cat7(a: &str, b: &str, c: &str, d: &str, e: &str, f: &str, g: &str) -> (joined: String)
    ensures
        joined@ == a@ + b@ + c@ + d@ + e@ + f@ + g@,
{
    cat5(a, b, c, d, e).concat(f).concat(g)
}

/// The decimal digit of a number below ten.
pub open spec fn digit(n: nat) -> char {
    (('0' as u32) + n) as char
}

/// A number in decimal, without leading zeros.
pub open spec fn dec(n: nat) -> Seq<char>
    decreases n,
{
    if n < 10 {
        seq![digit(n)]
    } else {
        dec(n / 10).push(digit(n % 10))
    }
}

pub fn decimal(n: u64) -> (text: String)
    ensures
        text@ == dec(n as nat),
    decreases n,
{
    let unit: u8 = (n % 10) as u8;
    let mark: char = (48u8 + unit) as char;
    if n < 10 {
        let mut text = String::new();
        text.push(mark);
        text
    } else {
        let mut text = decimal(n / 10);
        text.push(mark);
        text
    }
}

/// A number in decimal, after a minus sign where it is below zero.
pub open spec fn dec_signed(n: int) -> Seq<char> {
    if n < 0 {
        "-"@ + dec((-n) as nat)
    } else {
        dec(n as nat)
    }
}

pub fn decimal_signed(n: i64) -> (text: String)
    ensures
        text@ == dec_signed(n as int),
{
    if n >= 0 {
        decimal(n as u64)
    } else if n == i64::MIN {
        cat2("-", decimal(9_223_372_036_854_775_808).as_str())
    } else {
        cat2("-", decimal((-n) as u64).as_str())
    }
}

pub open spec fn is_digit(c: char) -> bool {
    '0' <= c <= '9'
}

pub open spec fn all_digits(text: Seq<char>) -> bool {
    forall|i: int| 0 <= i < text.len() ==> is_digit(#[trigger] text[i])
}

/// The number that decimal digits write.
pub open spec fn digits_value(digits: Seq<char>) -> nat
    decreases digits.len(),
{
    if digits.len() == 0 {
        0
    } else {
        digits_value(digits.drop_last()) * 10 + (digits.last() as nat - '0' as nat) as nat
    }
}

/// A text without the one plus sign it may start with.
pub open spec fn unsigned_part(text: Seq<char>) -> Seq<char> {
    if text.len() > 0 && text[0] == '+' {
        text.skip(1)
    } else {
        text
    }
}

/// The whole number no greater than a limit that a text writes: decimal digits, after a plus sign or not.
pub open spec fn parsed_whole(text: Seq<char>, limit: nat) -> Option<nat> {
    let digits = unsigned_part(text);
    if digits.len() > 0 && all_digits(digits) && digits_value(digits) <= limit {
        Some(digits_value(digits))
    } else {
        None
    }
}

proof fn lemma_digits_value_grows(digits: Seq<char>, i: int)
    requires
        0 <= i <= digits.len(),
        all_digits(digits),
    ensures
        digits_value(digits.take(i)) <= digits_value(digits),
    decreases digits.len() - i,
{
    if i < digits.len() {
        assert(digits.take(i + 1).drop_last() =~= digits.take(i));
        lemma_digits_value_grows(digits, i + 1);
    } else {
        assert(digits.take(i) =~= digits);
    }
}

pub fn parse_u64(text: &str) -> (parsed: Option<u64>)
    ensures
        (match parsed {
            Some(n) => parsed_whole(text@, u64::MAX as nat) == Some(n as nat),
            None => parsed_whole(text@, u64::MAX as nat) is None,
        }),
{
    let chars: Vec<char> = chars_of(text);
    let start: usize = if chars.len() > 0 && chars[0] == '+' {
        1
    } else {
        0
    };
    let ghost digits = unsigned_part(text@);
    assert(digits =~= chars@.skip(start as int));
    if chars.len() == start {
        return None;
    }
    let mut value: u64 = 0;
    let mut i: usize = start;
    while i < chars.len()
        invariant
            start <= i <= chars@.len(),
            start < chars@.len(),
            digits == chars@.skip(start as int),
            digits == unsigned_part(text@),
            all_digits(digits.take(i - start)),
            value == digits_value(digits.take(i - start)),
        decreases chars@.len() - i,
    {
        let c: char = chars[i];
        let ghost k = i - start;
        assert(c == digits[k]);
        if !(c >= '0' && c <= '9') {
            return None;
        }
        let unit: u64 = c as u64 - 48;
        assert(digits.take(k + 1).drop_last() =~= digits.take(k));
        assert(all_digits(digits.take(k + 1)));
        if value > (u64::MAX - unit) / 10 {
            proof {
                if all_digits(digits) {
                    lemma_digits_value_grows(digits, k + 1);
                }
            }
            return None;
        }
        value = value * 10 + unit;
        i += 1;
    }
    assert(digits.take(i - start) =~= digits);
    Some(value)
}

pub fn parse_u32(text: &str) -> (parsed: Option<u32>)
    ensures
        (match parsed {
            Some(n) => parsed_whole(text@, u32::MAX as nat) == Some(n as nat),
            None => parsed_whole(text@, u32::MAX as nat) is None,
        }),
{
    match parse_u64(text) {
        Some(n) if n <= u32::MAX as u64 => Some(n as u32),
        _ => None,
    }
}

/// The whole number between two limits that a text writes: decimal digits, after a sign or not.
pub open spec fn parsed_signed(text: Seq<char>) -> Option<int> {
    if text.len() > 0 && text[0] == '-' {
        let digits = text.skip(1);
        if digits.len() > 0 && all_digits(digits) && digits_value(digits) <= i64::MAX + 1 {
            Some(-digits_value(digits))
        } else {
            None
        }
    } else {
        match parsed_whole(text, i64::MAX as nat) {
            Some(n) => Some(n as int),
            None => None,
        }
    }
}

pub fn parse_i64(text: &str) -> (parsed: Option<i64>)
    ensures
        (match parsed {
            Some(n) => parsed_signed(text@) == Some(n as int),
            None => parsed_signed(text@) is None,
        }),
{
    let chars: Vec<char> = chars_of(text);
    if chars.len() > 0 && chars[0] == '-' {
        let digits: String = text_of(slice_subrange(chars.as_slice(), 1, chars.len()));
        assert(digits@ =~= text@.skip(1));
        if chars.len() > 1 && chars[1] == '+' {
            assert(!is_digit(digits@[0]));
            return None;
        }
        assert(unsigned_part(digits@) == digits@);
        match parse_u64(digits.as_str()) {
            Some(n) if n <= i64::MAX as u64 => Some(-(n as i64)),
            Some(n) if n == 9_223_372_036_854_775_808 => Some(i64::MIN),
            _ => None,
        }
    } else {
        match parse_u64(text) {
            Some(n) if n <= i64::MAX as u64 => Some(n as i64),
            _ => None,
        }
    }
}

/// A text without the run of one character it ends in.
pub open spec fn trimmed_end(text: Seq<char>, c: char) -> Seq<char>
    decreases text.len(),
{
    if text.len() > 0 && text.last() == c {
        trimmed_end(text.drop_last(), c)
    } else {
        text
    }
}

pub fn trim_end_char(text: &str, c: char) -> (trimmed: String)
    ensures
        trimmed@ == trimmed_end(text@, c),
{
    let mut chars: Vec<char> = chars_of(text);
    while chars.len() > 0 && chars[chars.len() - 1] == c
        invariant
            trimmed_end(chars@, c) == trimmed_end(text@, c),
        decreases chars@.len(),
    {
        let ghost before = chars@;
        chars.pop();
        assert(chars@ =~= before.drop_last());
    }
    text_of(chars.as_slice())
}

/// Texts one after another, with a text between each two.
pub open spec fn joined_with(parts: Seq<Seq<char>>, between: Seq<char>) -> Seq<char>
    decreases parts.len(),
{
    if parts.len() == 0 {
        seq![]
    } else if parts.len() == 1 {
        parts[0]
    } else {
        joined_with(parts.drop_last(), between) + between + parts.last()
    }
}

pub fn join(parts: &Vec<String>, between: &str) -> (joined: String)
    ensures
        joined@ == joined_with(parts.deep_view(), between@),
{
    let ghost views = parts.deep_view();
    let mut joined = String::new();
    for i in 0..parts.len()
        invariant
            views == parts.deep_view(),
            joined@ == joined_with(views.take(i as int), between@),
    {
        assert(views.take(i as int + 1).drop_last() =~= views.take(i as int));
        if i > 0 {
            joined.append(between);
            joined.append(parts[i].as_str());
        } else {
            joined = parts[i].clone();
        }
    }
    assert(views.take(views.len() as int) =~= views);
    joined
}

/// The characters Unicode calls white space.
pub open spec fn is_white(c: char) -> bool {
    ||| '\u{9}' <= c <= '\u{d}'
    ||| c == ' '
    ||| c == '\u{85}'
    ||| c == '\u{a0}'
    ||| c == '\u{1680}'
    ||| '\u{2000}' <= c <= '\u{200a}'
    ||| c == '\u{2028}'
    ||| c == '\u{2029}'
    ||| c == '\u{202f}'
    ||| c == '\u{205f}'
    ||| c == '\u{3000}'
}

pub fn white(c: char) -> (answer: bool)
    ensures
        answer == is_white(c),
{
    (c >= '\u{9}' && c <= '\u{d}') || c == ' ' || c == '\u{85}' || c == '\u{a0}' || c == '\u{1680}' || (c
        >= '\u{2000}' && c <= '\u{200a}') || c == '\u{2028}' || c == '\u{2029}' || c == '\u{202f}' || c
        == '\u{205f}' || c == '\u{3000}'
}

/// A text without the white space it starts with.
pub open spec fn trimmed_left(text: Seq<char>) -> Seq<char>
    decreases text.len(),
{
    if text.len() > 0 && is_white(text[0]) {
        trimmed_left(text.drop_first())
    } else {
        text
    }
}

/// A text without the white space it ends in.
pub open spec fn trimmed_right(text: Seq<char>) -> Seq<char>
    decreases text.len(),
{
    if text.len() > 0 && is_white(text.last()) {
        trimmed_right(text.drop_last())
    } else {
        text
    }
}

/// A text without the white space around it.
pub open spec fn trimmed(text: Seq<char>) -> Seq<char> {
    trimmed_right(trimmed_left(text))
}

pub open spec fn all_white(text: Seq<char>) -> bool {
    forall|i: int| 0 <= i < text.len() ==> is_white(#[trigger] text[i])
}

proof fn lemma_trimmed_left(text: Seq<char>)
    ensures
        trimmed_left(text).len() <= text.len(),
        trimmed_left(text).len() == 0 <==> all_white(text),
        trimmed_left(text).len() > 0 ==> !is_white(trimmed_left(text)[0]),
    decreases text.len(),
{
    if text.len() > 0 && is_white(text[0]) {
        lemma_trimmed_left(text.drop_first());
        assert(all_white(text) ==> all_white(text.drop_first()));
        if all_white(text.drop_first()) {
            assert forall|i: int| 0 <= i < text.len() implies is_white(#[trigger] text[i]) by {
                if i > 0 {
                    assert(text.drop_first()[i - 1] == text[i]);
                }
            }
        }
    }
}

proof fn lemma_trimmed_right(text: Seq<char>)
    ensures
        trimmed_right(text).len() <= text.len(),
        trimmed_right(text) == text.take(trimmed_right(text).len() as int),
        trimmed_right(text).len() > 0 ==> !is_white(trimmed_right(text).last()),
        text.len() > 0 && !is_white(text[0]) ==> trimmed_right(text).len() > 0,
    decreases text.len(),
{
    if text.len() > 0 && is_white(text.last()) {
        lemma_trimmed_right(text.drop_last());
        assert(text.drop_last().take(trimmed_right(text).len() as int) =~= text.take(
            trimmed_right(text).len() as int,
        ));
    } else {
        assert(text.take(text.len() as int) =~= text);
    }
}

/// Nothing is left of a text exactly where all of it is white space.
pub proof fn lemma_trimmed_blank(text: Seq<char>)
    ensures
        trimmed(text).len() == 0 <==> all_white(text),
{
    lemma_trimmed_left(text);
    lemma_trimmed_right(trimmed_left(text));
}

/// What is left of a text neither starts nor ends with white space, and trimming it again changes nothing.
pub proof fn law_trimming_is_done_once(text: Seq<char>)
    ensures
        trimmed(trimmed(text)) == trimmed(text),
        trimmed(text).len() > 0 ==> !is_white(trimmed(text)[0]) && !is_white(trimmed(text).last()),
{
    lemma_trimmed_left(text);
    lemma_trimmed_right(trimmed_left(text));
    let left = trimmed(text);
    if left.len() > 0 {
        assert(left[0] == trimmed_left(text)[0]);
    }
}

pub fn is_blank(text: &str) -> (blank: bool)
    ensures
        blank == (trimmed(text@).len() == 0),
{
    proof {
        lemma_trimmed_blank(text@);
    }
    let chars: Vec<char> = chars_of(text);
    for i in 0..chars.len()
        invariant
            chars@ == text@,
            trimmed(text@).len() == 0 <==> all_white(text@),
            forall|k: int| 0 <= k < i ==> is_white(#[trigger] text@[k]),
    {
        if !white(chars[i]) {
            assert(!is_white(text@[i as int]));
            return false;
        }
    }
    true
}

pub fn trim(text: &str) -> (kept: String)
    ensures
        kept@ == trimmed(text@),
{
    let chars: Vec<char> = chars_of(text);
    let mut start: usize = 0;
    assert(chars@.skip(0) =~= chars@);
    while start < chars.len() && white(chars[start])
        invariant
            start <= chars@.len(),
            chars@ == text@,
            trimmed_left(chars@.skip(start as int)) == trimmed_left(text@),
        decreases chars@.len() - start,
    {
        assert(chars@.skip(start as int).drop_first() =~= chars@.skip(start as int + 1));
        start += 1;
    }
    let mut end: usize = chars.len();
    let ghost left = chars@.skip(start as int);
    assert(left =~= chars@.subrange(start as int, end as int));
    while end > start && white(chars[end - 1])
        invariant
            start <= end <= chars@.len(),
            trimmed_right(chars@.subrange(start as int, end as int)) == trimmed_right(left),
            left == trimmed_left(text@),
        decreases end,
    {
        assert(chars@.subrange(start as int, end as int).drop_last() =~= chars@.subrange(
            start as int,
            end as int - 1,
        ));
        end -= 1;
    }
    text_of(vstd::slice::slice_subrange(chars.as_slice(), start, end))
}

/// The bytes one character takes in UTF-8.
pub open spec fn width(c: char) -> nat {
    if (c as u32) < 0x80 {
        1
    } else if (c as u32) < 0x800 {
        2
    } else if (c as u32) < 0x10000 {
        3
    } else {
        4
    }
}

pub proof fn lemma_utf8_len_push(text: Seq<char>, c: char)
    ensures
        utf8_len(text.push(c)) == utf8_len(text) + width(c),
    decreases text.len(),
{
    if text.len() == 0 {
        assert(text.push(c).drop_first() =~= seq![]);
        assert(encode_utf8(text.push(c).drop_first()) =~= seq![]);
        assert(text.push(c)[0] == c);
    } else {
        assert(text.push(c).drop_first() =~= text.drop_first().push(c));
        lemma_utf8_len_push(text.drop_first(), c);
    }
}

/// The longest start of a text that fits a number of bytes, on a boundary between characters.
pub open spec fn cut_to(text: Seq<char>, bytes: nat) -> Seq<char>
    decreases text.len(),
{
    if text.len() == 0 || utf8_len(text) <= bytes {
        text
    } else {
        cut_to(text.drop_last(), bytes)
    }
}

proof fn lemma_prefix_grows(text: Seq<char>, i: int, k: int)
    requires
        0 <= i <= k <= text.len(),
    ensures
        utf8_len(text.take(i)) <= utf8_len(text.take(k)),
    decreases k - i,
{
    if i < k {
        lemma_prefix_grows(text, i, k - 1);
        assert(text.take(k) =~= text.take(k - 1).push(text[k - 1]));
        lemma_utf8_len_push(text.take(k - 1), text[k - 1]);
    }
}

proof fn lemma_cut_to(text: Seq<char>, bytes: nat, i: int)
    requires
        0 <= i <= text.len(),
        utf8_len(text.take(i)) <= bytes,
        i < text.len() ==> utf8_len(text.take(i + 1)) > bytes,
    ensures
        cut_to(text, bytes) == text.take(i),
    decreases text.len(),
{
    assert(text.take(text.len() as int) =~= text);
    if i < text.len() {
        lemma_prefix_grows(text, i + 1, text.len() as int);
        let shorter = text.drop_last();
        assert(shorter.take(i) =~= text.take(i));
        if i < shorter.len() {
            assert(shorter.take(i + 1) =~= text.take(i + 1));
        }
        lemma_cut_to(shorter, bytes, i);
    }
}

pub fn cut(text: &str, bytes: usize) -> (kept: String)
    ensures
        kept@ == cut_to(text@, bytes as nat),
{
    let chars: Vec<char> = chars_of(text);
    let mut used: usize = 0;
    let mut i: usize = 0;
    assert(text@.take(0) =~= seq![]);
    while i < chars.len()
        invariant
            i <= chars@.len(),
            chars@ == text@,
            used == utf8_len(text@.take(i as int)),
            used <= bytes,
        ensures
            i <= chars@.len(),
            used == utf8_len(text@.take(i as int)),
            used <= bytes,
            i < chars@.len() ==> utf8_len(text@.take(i as int + 1)) > bytes,
        decreases chars@.len() - i,
    {
        let c: char = chars[i];
        proof {
            assert(text@.take(i as int + 1) =~= text@.take(i as int).push(c));
            lemma_utf8_len_push(text@.take(i as int), c);
        }
        let more: usize = if (c as u32) < 0x80 {
            1
        } else if (c as u32) < 0x800 {
            2
        } else if (c as u32) < 0x10000 {
            3
        } else {
            4
        };
        if more > bytes - used {
            break;
        }
        used += more;
        i += 1;
    }
    proof {
        lemma_cut_to(text@, bytes as nat, i as int);
    }
    text_of(vstd::slice::slice_subrange(chars.as_slice(), 0, i))
}

/// What is kept of a text fits, starts the text, is all of it where it fits already, and is left alone when it
/// is cut again.
pub proof fn law_a_cut_text_fits(text: Seq<char>, bytes: nat)
    ensures
        utf8_len(cut_to(text, bytes)) <= bytes,
        cut_to(text, bytes).len() <= text.len(),
        cut_to(text, bytes) == text.take(cut_to(text, bytes).len() as int),
        utf8_len(text) <= bytes ==> cut_to(text, bytes) == text,
        cut_to(cut_to(text, bytes), bytes) == cut_to(text, bytes),
    decreases text.len(),
{
    if text.len() > 0 && utf8_len(text) > bytes {
        law_a_cut_text_fits(text.drop_last(), bytes);
        let kept = cut_to(text, bytes);
        assert(text.drop_last().take(kept.len() as int) =~= text.take(kept.len() as int));
    } else {
        assert(text.take(text.len() as int) =~= text);
    }
}

/// The position of the first of a character in a text.
pub open spec fn find_of(text: Seq<char>, c: char) -> Option<int>
    decreases text.len(),
{
    if text.len() == 0 {
        None
    } else if text[0] == c {
        Some(0)
    } else {
        match find_of(text.drop_first(), c) {
            Some(i) => Some(i + 1),
            None => None,
        }
    }
}

/// Where the first of a character stands: nothing before it is that character.
pub proof fn lemma_find(text: Seq<char>, c: char)
    ensures
        (match find_of(text, c) {
            Some(i) => 0 <= i < text.len() && text[i] == c && forall|k: int|
                0 <= k < i ==> #[trigger] text[k] != c,
            None => forall|k: int| 0 <= k < text.len() ==> #[trigger] text[k] != c,
        }),
    decreases text.len(),
{
    if text.len() > 0 && text[0] != c {
        let rest = text.drop_first();
        lemma_find(rest, c);
        match find_of(rest, c) {
            Some(i) => {
                assert(rest[i] == text[i + 1]);
                assert forall|k: int| 0 <= k < i + 1 implies #[trigger] text[k] != c by {
                    if k > 0 {
                        assert(rest[k - 1] == text[k]);
                    }
                }
            },
            None => {
                assert forall|k: int| 0 <= k < text.len() implies #[trigger] text[k] != c by {
                    if k > 0 {
                        assert(rest[k - 1] == text[k]);
                    }
                }
            },
        }
    }
}

/// Looks for a character from a position on; the position found is counted from there.
pub fn find_from(chars: &Vec<char>, from: usize, c: char) -> (found: Option<usize>)
    requires
        from <= chars@.len(),
    ensures
        (match found {
            Some(i) => from + i < chars@.len() && find_of(chars@.skip(from as int), c) == Some(i as int)
                && chars@[from + i] == c,
            None => find_of(chars@.skip(from as int), c) is None,
        }),
{
    let mut i: usize = from;
    while i < chars.len()
        invariant
            from <= i <= chars@.len(),
            find_of(chars@.skip(from as int), c) == (match find_of(chars@.skip(i as int), c) {
                Some(k) => Some(k + (i - from)),
                None => None,
            }),
        decreases chars@.len() - i,
    {
        if chars[i] == c {
            return Some(i - from);
        }
        assert(chars@.skip(i as int).drop_first() =~= chars@.skip(i as int + 1));
        i += 1;
    }
    None
}

pub open spec fn contains_of(text: Seq<char>, c: char) -> bool {
    exists|i: int| 0 <= i < text.len() && #[trigger] text[i] == c
}

pub fn contains_char(text: &str, c: char) -> (found: bool)
    ensures
        found == contains_of(text@, c),
{
    let chars: Vec<char> = chars_of(text);
    for i in 0..chars.len()
        invariant
            chars@ == text@,
            forall|k: int| 0 <= k < i ==> #[trigger] text@[k] != c,
    {
        if chars[i] == c {
            assert(text@[i as int] == c);
            return true;
        }
    }
    false
}

/// The parts of a text between the occurrences of a character: one more than there are of it.
pub open spec fn split_of(text: Seq<char>, c: char) -> Seq<Seq<char>>
    decreases text.len(),
{
    match find_of(text, c) {
        None => seq![text],
        Some(i) => if 0 <= i < text.len() {
            seq![text.take(i)] + split_of(text.skip(i + 1), c)
        } else {
            seq![text]
        },
    }
}

pub fn split(text: &str, c: char) -> (parts: Vec<String>)
    ensures
        parts.deep_view() == split_of(text@, c),
{
    let chars: Vec<char> = chars_of(text);
    let length: usize = chars.len();
    let mut parts: Vec<String> = Vec::new();
    let mut at: usize = 0;
    assert(chars@.skip(0) =~= chars@);
    assert(parts.deep_view() =~= seq![]);
    assert(seq![] + split_of(text@, c) =~= split_of(text@, c));
    loop
        invariant
            chars@ == text@,
            length == chars@.len(),
            at <= chars@.len(),
            parts.deep_view() + split_of(chars@.skip(at as int), c) == split_of(text@, c),
        decreases chars@.len() - at,
    {
        let ghost rest = chars@.skip(at as int);
        match find_from(&chars, at, c) {
            None => {
                let part: String = text_of(
                    vstd::slice::slice_subrange(chars.as_slice(), at, length),
                );
                assert(part@ =~= rest);
                let ghost before = parts.deep_view();
                crate::collect::keep(&mut parts, part);
                assert(parts.deep_view() =~= before + seq![rest]);
                return parts;
            },
            Some(i) => {
                let part: String = text_of(
                    vstd::slice::slice_subrange(chars.as_slice(), at, at + i),
                );
                assert(part@ =~= rest.take(i as int));
                assert(rest.skip(i as int + 1) =~= chars@.skip(at + i + 1));
                let ghost before = parts.deep_view();
                crate::collect::keep(&mut parts, part);
                assert(parts.deep_view() + split_of(chars@.skip(at + i + 1), c) =~= before + (seq![
                    rest.take(i as int),
                ] + split_of(chars@.skip(at + i + 1), c)));
                at = at + i + 1;
            },
        }
    }
}

pub open spec fn starts_with_of(text: Seq<char>, start: Seq<char>) -> bool {
    start.len() <= text.len() && text.take(start.len() as int) == start
}

/// A text with every occurrence of another replaced, from the left and without overlaps.
pub open spec fn replaced(text: Seq<char>, from: Seq<char>, to: Seq<char>) -> Seq<char>
    decreases text.len(),
{
    if text.len() == 0 {
        seq![]
    } else if from.len() > 0 && starts_with_of(text, from) {
        to + replaced(text.skip(from.len() as int), from, to)
    } else {
        seq![text[0]] + replaced(text.drop_first(), from, to)
    }
}

fn starts_at(chars: &Vec<char>, at: usize, start: &Vec<char>) -> (answer: bool)
    requires
        at <= chars@.len(),
    ensures
        answer == starts_with_of(chars@.skip(at as int), start@),
{
    let length: usize = chars.len();
    if start.len() > length - at {
        return false;
    }
    let ghost rest = chars@.skip(at as int);
    for i in 0..start.len()
        invariant
            length == chars@.len(),
            at + start@.len() <= chars@.len(),
            rest == chars@.skip(at as int),
            forall|k: int| 0 <= k < i ==> rest[k] == #[trigger] start@[k],
    {
        if chars[at + i] != start[i] {
            assert(rest.take(start@.len() as int)[i as int] != start@[i as int]);
            return false;
        }
    }
    assert(rest.take(start@.len() as int) =~= start@);
    true
}

pub fn replace(text: &str, from: &str, to: &str) -> (result: String)
    requires
        from@.len() > 0,
    ensures
        result@ == replaced(text@, from@, to@),
{
    let chars: Vec<char> = chars_of(text);
    let pattern: Vec<char> = chars_of(from);
    let mut result = String::new();
    let mut at: usize = 0;
    assert(chars@.skip(0) =~= chars@);
    assert(seq![] + replaced(text@, from@, to@) =~= replaced(text@, from@, to@));
    while at < chars.len()
        invariant
            chars@ == text@,
            pattern@ == from@,
            from@.len() > 0,
            at <= chars@.len(),
            result@ + replaced(chars@.skip(at as int), from@, to@) == replaced(text@, from@, to@),
        decreases chars@.len() - at,
    {
        let ghost rest = chars@.skip(at as int);
        let ghost before = result@;
        if starts_at(&chars, at, &pattern) {
            result.append(to);
            assert(rest.skip(from@.len() as int) =~= chars@.skip(at + from@.len()));
            assert(result@ + replaced(rest.skip(from@.len() as int), from@, to@) =~= before + (to@
                + replaced(rest.skip(from@.len() as int), from@, to@)));
            at = at + pattern.len();
        } else {
            result.push(chars[at]);
            assert(rest.drop_first() =~= chars@.skip(at as int + 1));
            assert(result@ + replaced(rest.drop_first(), from@, to@) =~= before + (seq![rest[0]]
                + replaced(rest.drop_first(), from@, to@)));
            at = at + 1;
        }
    }
    assert(result@ + replaced(chars@.skip(at as int), from@, to@) =~= result@);
    result
}

/// How often a character occurs in a text.
pub open spec fn occurrences(text: Seq<char>, c: char) -> nat
    decreases text.len(),
{
    if text.len() == 0 {
        0
    } else {
        occurrences(text.drop_first(), c) + if text[0] == c {
            1nat
        } else {
            0
        }
    }
}

pub proof fn lemma_occurrences_concat(left: Seq<char>, right: Seq<char>, c: char)
    ensures
        occurrences(left + right, c) == occurrences(left, c) + occurrences(right, c),
    decreases left.len(),
{
    if left.len() == 0 {
        assert(left + right =~= right);
    } else {
        assert((left + right).drop_first() =~= left.drop_first() + right);
        lemma_occurrences_concat(left.drop_first(), right, c);
    }
}

pub proof fn lemma_occurrences_none(text: Seq<char>, c: char)
    requires
        !contains_of(text, c),
    ensures
        occurrences(text, c) == 0,
    decreases text.len(),
{
    if text.len() > 0 {
        assert(text[0] != c);
        assert forall|i: int| 0 <= i < text.drop_first().len() implies #[trigger] text.drop_first()[i] != c by {
            assert(text.drop_first()[i] == text[i + 1]);
        }
        lemma_occurrences_none(text.drop_first(), c);
    }
}

/// The text in quotes, as the standard library's `Debug` writes it.
pub uninterp spec fn quoted(text: Seq<char>) -> Seq<char>;

/// `str`'s `Debug` of the standard library: the text in quotes, with its escapes, which depends on the text alone.
#[verifier::external_body]
pub(crate) fn quote(text: &str) -> (shown: String)
    ensures
        shown@ == quoted(text@),
{
    format!("{:?}", text)
}

pub fn parse_usize(text: &str) -> (parsed: Option<usize>)
    ensures
        (match parsed {
            Some(n) => parsed_whole(text@, usize::MAX as nat) == Some(n as nat),
            None => parsed_whole(text@, usize::MAX as nat) is None,
        }),
{
    match parse_u64(text) {
        Some(n) if n <= usize::MAX as u64 => Some(n as usize),
        _ => None,
    }
}

/// A character in lower case, where it is an ASCII letter.
pub open spec fn lower(c: char) -> char {
    if 'A' <= c <= 'Z' {
        ((c as u32) + 32) as char
    } else {
        c
    }
}

/// A character in upper case, where it is an ASCII letter.
pub open spec fn upper(c: char) -> char {
    if 'a' <= c <= 'z' {
        ((c as u32) - 32) as char
    } else {
        c
    }
}

pub fn to_lower(c: char) -> (result: char)
    ensures
        result == lower(c),
{
    if c >= 'A' && c <= 'Z' {
        ((c as u8) + 32) as char
    } else {
        c
    }
}

pub fn to_upper(c: char) -> (result: char)
    ensures
        result == upper(c),
{
    if c >= 'a' && c <= 'z' {
        ((c as u8) - 32) as char
    } else {
        c
    }
}

pub open spec fn lowered(text: Seq<char>) -> Seq<char> {
    text.map_values(|c: char| lower(c))
}

pub open spec fn uppered(text: Seq<char>) -> Seq<char> {
    text.map_values(|c: char| upper(c))
}

pub fn ascii_uppercase(text: &str) -> (result: String)
    ensures
        result@ == uppered(text@),
{
    let chars: Vec<char> = chars_of(text);
    let mut result = String::new();
    for i in 0..chars.len()
        invariant
            chars@ == text@,
            result@ == uppered(text@.take(i as int)),
    {
        result.push(to_upper(chars[i]));
        assert(result@ =~= uppered(text@.take(i as int + 1)));
    }
    assert(text@.take(text@.len() as int) =~= text@);
    result
}

pub fn ascii_lowercase(text: &str) -> (result: String)
    ensures
        result@ == lowered(text@),
{
    let chars: Vec<char> = chars_of(text);
    let mut result = String::new();
    for i in 0..chars.len()
        invariant
            chars@ == text@,
            result@ == lowered(text@.take(i as int)),
    {
        result.push(to_lower(chars[i]));
        assert(result@ =~= lowered(text@.take(i as int + 1)));
    }
    assert(text@.take(text@.len() as int) =~= text@);
    result
}

/// Two texts are the same but for the case of ASCII letters.
pub fn same_ignoring_case(left: &str, right: &str) -> (equal: bool)
    ensures
        equal == (lowered(left@) == lowered(right@)),
{
    same(ascii_lowercase(left).as_str(), ascii_lowercase(right).as_str())
}

pub open spec fn ends_with_of(text: Seq<char>, end: Seq<char>) -> bool {
    end.len() <= text.len() && text.skip(text.len() - end.len()) == end
}

pub fn ends_with(text: &str, end: &str) -> (answer: bool)
    ensures
        answer == ends_with_of(text@, end@),
{
    let chars: Vec<char> = chars_of(text);
    let tail: Vec<char> = chars_of(end);
    if tail.len() > chars.len() {
        return false;
    }
    let from: usize = chars.len() - tail.len();
    let found: bool = starts_at(&chars, from, &tail);
    assert(text@.skip(from as int).take(end@.len() as int) =~= text@.skip(from as int));
    found
}

pub fn starts_with(text: &str, start: &str) -> (answer: bool)
    ensures
        answer == starts_with_of(text@, start@),
{
    let chars: Vec<char> = chars_of(text);
    let head: Vec<char> = chars_of(start);
    assert(chars@.skip(0) =~= chars@);
    starts_at(&chars, 0, &head)
}

/// A text occurs in another.
pub open spec fn holds_of(text: Seq<char>, part: Seq<char>) -> bool {
    exists|i: int| 0 <= i <= text.len() && starts_with_of(#[trigger] text.skip(i), part)
}

pub fn holds(text: &str, part: &str) -> (found: bool)
    ensures
        found == holds_of(text@, part@),
{
    let chars: Vec<char> = chars_of(text);
    let wanted: Vec<char> = chars_of(part);
    let length: usize = chars.len();
    let mut at: usize = 0;
    loop
        invariant
            chars@ == text@,
            wanted@ == part@,
            length == chars@.len(),
            at <= length,
            forall|k: int| 0 <= k < at ==> !starts_with_of(#[trigger] text@.skip(k), part@),
        decreases length - at,
    {
        if starts_at(&chars, at, &wanted) {
            return true;
        }
        if at == length {
            return false;
        }
        at += 1;
    }
}

/// A text without the run of one character it starts with.
pub open spec fn trimmed_start(text: Seq<char>, c: char) -> Seq<char>
    decreases text.len(),
{
    if text.len() > 0 && text[0] == c {
        trimmed_start(text.drop_first(), c)
    } else {
        text
    }
}

pub fn trim_start_char(text: &str, c: char) -> (kept: String)
    ensures
        kept@ == trimmed_start(text@, c),
{
    let chars: Vec<char> = chars_of(text);
    let mut at: usize = 0;
    assert(chars@.skip(0) =~= chars@);
    while at < chars.len() && chars[at] == c
        invariant
            at <= chars@.len(),
            trimmed_start(chars@.skip(at as int), c) == trimmed_start(text@, c),
        decreases chars@.len() - at,
    {
        assert(chars@.skip(at as int).drop_first() =~= chars@.skip(at as int + 1));
        at += 1;
    }
    assert(chars@.skip(at as int) =~= chars@.subrange(at as int, chars@.len() as int));
    text_of(vstd::slice::slice_subrange(chars.as_slice(), at, chars.len()))
}

/// A text that stands in another from a place on.
pub open spec fn stands_at(text: Seq<char>, at: int, part: Seq<char>) -> bool {
    0 <= at && at + part.len() <= text.len() && text.subrange(at, at + part.len()) == part
}

/// Joining two lists and putting the text that goes between them comes to joining them all, and one text joined is
/// that text.
pub proof fn law_joined_texts_are_joined_in_turn(first: Seq<Seq<char>>, then: Seq<Seq<char>>, between: Seq<char>)
    ensures
        first.len() > 0 && then.len() > 0 ==> joined_with(first + then, between) == joined_with(
            first,
            between,
        ) + between + joined_with(then, between),
        first.len() == 1 ==> joined_with(first, between) == first[0],
        first.len() == 0 ==> joined_with(first, between).len() == 0,
    decreases then.len(),
{
    if first.len() > 0 && then.len() > 0 {
        let all = first + then;
        assert(all.last() == then.last());
        if then.len() == 1 {
            assert(all.drop_last() =~= first);
        } else {
            assert(all.drop_last() =~= first + then.drop_last());
            law_joined_texts_are_joined_in_turn(first, then.drop_last(), between);
            assert(joined_with(all, between) =~= joined_with(first, between) + between + joined_with(
                then,
                between,
            ));
        }
    }
}

/// Every text that is joined stands in what they come to.
pub proof fn law_every_part_stands_in_the_joined_text(parts: Seq<Seq<char>>, between: Seq<char>, i: int)
    requires
        0 <= i < parts.len(),
    ensures
        exists|at: int| #[trigger] stands_at(joined_with(parts, between), at, parts[i]),
    decreases parts.len(),
{
    let joined = joined_with(parts, between);
    if parts.len() == 1 {
        assert(joined.subrange(0, parts[0].len() as int) =~= parts[0]);
        assert(stands_at(joined, 0, parts[0]));
    } else {
        let before = joined_with(parts.drop_last(), between);
        if i == parts.len() - 1 {
            let at = (before.len() + between.len()) as int;
            assert(joined.subrange(at, at + parts[i].len()) =~= parts[i]);
            assert(stands_at(joined, at, parts[i]));
        } else {
            law_every_part_stands_in_the_joined_text(parts.drop_last(), between, i);
            assert(parts.drop_last()[i] == parts[i]);
            let at = choose|at: int| #[trigger] stands_at(before, at, parts[i]);
            assert(joined.subrange(at, at + parts[i].len()) =~= before.subrange(at, at + parts[i].len()));
            assert(stands_at(joined, at, parts[i]));
        }
    }
}

/// Decimal digits weigh ten times what stands to their right.
pub proof fn law_a_digit_more_is_ten_times_as_much(digits: Seq<char>, c: char)
    requires
        '0' <= c <= '9',
    ensures
        digits_value(digits.push(c)) == digits_value(digits) * 10 + (c as int - '0' as int),
        digits_value(Seq::<char>::empty()) == 0,
{
    assert(digits.push(c).drop_last() =~= digits);
}

proof fn lemma_dec_reads_back(n: nat)
    ensures
        dec(n).len() > 0,
        all_digits(dec(n)),
        digits_value(dec(n)) == n,
        n > 0 ==> dec(n)[0] != '0',
        n < 10 <==> dec(n).len() == 1,
    decreases n,
{
    if n < 10 {
        assert(dec(n).drop_last() =~= seq![]);
        assert(digits_value(dec(n).drop_last()) == 0);
    } else {
        lemma_dec_reads_back(n / 10);
        assert(dec(n).drop_last() =~= dec(n / 10));
    }
}

/// A number that was written is read back as itself, and is written without a sign it does not have, without leading
/// zeros and in digits alone.
pub proof fn law_a_written_number_reads_back(n: int)
    ensures
        i64::MIN <= n <= i64::MAX ==> parsed_signed(dec_signed(n)) == Some(n),
        n >= 0 ==> all_digits(dec_signed(n)) && digits_value(dec_signed(n)) == n && dec_signed(n).len() > 0,
        n >= 0 ==> dec_signed(n) == dec(n as nat),
        n > 0 ==> dec_signed(n)[0] != '0',
        n < 0 ==> dec_signed(n) == seq!['-'] + dec_signed(-n),
{
    lemma_dec_reads_back(n as nat);
    if n < 0 {
        reveal_strlit("-");
        lemma_dec_reads_back((-n) as nat);
        assert("-"@ =~= seq!['-']);
        assert(dec_signed(n).skip(1) =~= dec((-n) as nat));
    } else {
        assert(is_digit(dec(n as nat)[0]));
        assert(unsigned_part(dec(n as nat)) == dec(n as nat));
    }
}

proof fn lemma_left_is_white(text: Seq<char>) -> (cut: int)
    ensures
        0 <= cut <= text.len(),
        trimmed_left(text) == text.skip(cut),
        all_white(text.take(cut)),
    decreases text.len(),
{
    if text.len() > 0 && is_white(text[0]) {
        let rest = text.drop_first();
        let cut = lemma_left_is_white(rest);
        assert(rest.skip(cut) =~= text.skip(cut + 1));
        assert forall|i: int| 0 <= i < cut + 1 implies is_white(#[trigger] text.take(cut + 1)[i]) by {
            if i > 0 {
                assert(text.take(cut + 1)[i] == rest.take(cut)[i - 1]);
            }
        }
        cut + 1
    } else {
        assert(text.skip(0) =~= text);
        0
    }
}

proof fn lemma_right_is_white(text: Seq<char>)
    ensures
        all_white(text.skip(trimmed_right(text).len() as int)),
        trimmed_right(text).len() <= text.len(),
    decreases text.len(),
{
    if text.len() > 0 && is_white(text.last()) {
        let rest = text.drop_last();
        lemma_right_is_white(rest);
        let kept = trimmed_right(rest).len() as int;
        assert forall|i: int| 0 <= i < text.len() - kept implies is_white(#[trigger] text.skip(kept)[i]) by {
            if i < rest.len() - kept {
                assert(text.skip(kept)[i] == rest.skip(kept)[i]);
            }
        }
    }
}

/// Trimming takes white space off both ends and nothing else.
pub proof fn law_trimming_takes_only_white_space(text: Seq<char>) -> (cut: (int, int))
    ensures
        0 <= cut.0 <= cut.1 <= text.len(),
        trimmed(text) == text.subrange(cut.0, cut.1),
        all_white(text.subrange(0, cut.0)),
        all_white(text.subrange(cut.1, text.len() as int)),
        cut.0 < cut.1 ==> !is_white(text[cut.0]) && !is_white(text[cut.1 - 1]),
{
    let start = lemma_left_is_white(text);
    let left = text.skip(start);
    lemma_trimmed_left(text);
    lemma_trimmed_right(left);
    lemma_right_is_white(left);
    let kept = trimmed_right(left).len() as int;
    assert(trimmed(text) =~= text.subrange(start, start + kept));
    assert(text.subrange(0, start) =~= text.take(start));
    assert(text.subrange(start + kept, text.len() as int) =~= left.skip(kept));
    if kept > 0 {
        assert(trimmed_right(left)[0] == left[0]);
        assert(trimmed_right(left).last() == text[start + kept - 1]);
    }
    (start, start + kept)
}

/// What a text is split into comes back together with the character it was split on between the parts, and no part holds
/// that character.
pub proof fn law_what_was_split_joins_again(text: Seq<char>, c: char)
    ensures
        joined_with(split_of(text, c), seq![c]) == text,
        split_of(text, c).len() > 0,
        forall|i: int| 0 <= i < split_of(text, c).len() ==> !(#[trigger] split_of(text, c)[i]).contains(c),
    decreases text.len(),
{
    lemma_find(text, c);
    let parts = split_of(text, c);
    match find_of(text, c) {
        None => {
            assert(parts =~= seq![text]);
            if text.contains(c) {
                let k = choose|k: int| 0 <= k < text.len() && text[k] == c;
                assert(text[k] != c);
            }
        },
        Some(i) => {
            let first = text.take(i);
            let rest = text.skip(i + 1);
            law_what_was_split_joins_again(rest, c);
            assert(parts == seq![first] + split_of(rest, c));
            law_joined_texts_are_joined_in_turn(seq![first], split_of(rest, c), seq![c]);
            assert(joined_with(seq![first], seq![c]) == first);
            assert(first + seq![c] + rest =~= text);
            if first.contains(c) {
                let k = choose|k: int| 0 <= k < first.len() && first[k] == c;
                assert(text[k] != c);
            }
            assert forall|k: int| 0 <= k < parts.len() implies !(#[trigger] parts[k]).contains(c) by {
                if k > 0 {
                    assert(parts[k] == split_of(rest, c)[k - 1]);
                }
            }
        },
    }
}

/// A text without a run at its end is its longest start that does not end in that character; all that is left off is the
/// run.
pub proof fn law_only_the_run_at_the_end_goes(text: Seq<char>, c: char)
    ensures
        trimmed_end(text, c).len() <= text.len(),
        trimmed_end(text, c) == text.take(trimmed_end(text, c).len() as int),
        trimmed_end(text, c).len() > 0 ==> trimmed_end(text, c).last() != c,
        forall|i: int| trimmed_end(text, c).len() <= i < text.len() ==> #[trigger] text[i] == c,
    decreases text.len(),
{
    if text.len() > 0 && text.last() == c {
        law_only_the_run_at_the_end_goes(text.drop_last(), c);
        let kept = trimmed_end(text, c);
        assert(text.drop_last().take(kept.len() as int) =~= text.take(kept.len() as int));
        assert forall|i: int| kept.len() <= i < text.len() implies #[trigger] text[i] == c by {
            if i < text.len() - 1 {
                assert(text.drop_last()[i] == text[i]);
            }
        }
    } else {
        assert(text.take(text.len() as int) =~= text);
    }
}

/// So it is with a run at its start.
pub proof fn law_only_the_run_at_the_start_goes(text: Seq<char>, c: char)
    ensures
        trimmed_start(text, c).len() <= text.len(),
        trimmed_start(text, c) == text.skip(text.len() - trimmed_start(text, c).len()),
        trimmed_start(text, c).len() > 0 ==> trimmed_start(text, c)[0] != c,
        forall|i: int| 0 <= i < text.len() - trimmed_start(text, c).len() ==> #[trigger] text[i] == c,
    decreases text.len(),
{
    if text.len() > 0 && text[0] == c {
        let rest = text.drop_first();
        law_only_the_run_at_the_start_goes(rest, c);
        let kept = trimmed_start(text, c);
        assert(rest.skip(rest.len() - kept.len()) =~= text.skip(text.len() - kept.len()));
        assert forall|i: int| 0 <= i < text.len() - kept.len() implies #[trigger] text[i] == c by {
            if i > 0 {
                assert(rest[i - 1] == text[i]);
            }
        }
    } else {
        assert(text.skip(0) =~= text);
    }
}

/// A text is cut no shorter than it has to be: with one character more it would not fit.
pub proof fn law_a_text_is_cut_no_shorter_than_it_has_to_be(text: Seq<char>, bytes: nat)
    ensures
        cut_to(text, bytes).len() < text.len() ==> utf8_len(text.take(cut_to(text, bytes).len() as int + 1)) > bytes,
    decreases text.len(),
{
    if text.len() > 0 && utf8_len(text) > bytes {
        let shorter = text.drop_last();
        let kept = cut_to(text, bytes).len() as int;
        law_a_text_is_cut_no_shorter_than_it_has_to_be(shorter, bytes);
        law_a_cut_text_fits(shorter, bytes);
        if kept < shorter.len() {
            assert(shorter.take(kept + 1) =~= text.take(kept + 1));
        } else {
            assert(text.take(kept + 1) =~= text);
        }
    }
}

/// A text starts with another, ends with it, or holds it, where the other stands at its start, at its end, or anywhere.
pub proof fn law_where_a_part_stands(text: Seq<char>, part: Seq<char>)
    ensures
        starts_with_of(text, part) <==> stands_at(text, 0, part),
        ends_with_of(text, part) <==> stands_at(text, text.len() - part.len(), part),
        holds_of(text, part) <==> exists|at: int| #[trigger] stands_at(text, at, part),
{
    assert(part.len() <= text.len() ==> text.take(part.len() as int) =~= text.subrange(0, part.len() as int));
    assert(part.len() <= text.len() ==> text.skip(text.len() - part.len()) =~= text.subrange(
        text.len() - part.len(),
        text.len() as int,
    ));
    if holds_of(text, part) {
        let at = choose|at: int| 0 <= at <= text.len() && starts_with_of(#[trigger] text.skip(at), part);
        assert(text.skip(at).take(part.len() as int) =~= text.subrange(at, at + part.len()));
        assert(stands_at(text, at, part));
    }
    if exists|at: int| #[trigger] stands_at(text, at, part) {
        let at = choose|at: int| #[trigger] stands_at(text, at, part);
        assert(text.skip(at).take(part.len() as int) =~= text.subrange(at, at + part.len()));
        assert(starts_with_of(text.skip(at), part));
    }
}

/// Only ASCII letters have another case: a capital is lowered by 32, a small letter raised by 32, and any other
/// character stays.
pub proof fn law_only_ascii_letters_change_case(text: Seq<char>, i: int)
    requires
        0 <= i < text.len(),
    ensures
        lowered(text).len() == text.len(),
        uppered(text).len() == text.len(),
        'A' <= text[i] <= 'Z' ==> lowered(text)[i] as int == text[i] as int + 32,
        !('A' <= text[i] <= 'Z') ==> lowered(text)[i] == text[i],
        'a' <= text[i] <= 'z' ==> uppered(text)[i] as int == text[i] as int - 32,
        !('a' <= text[i] <= 'z') ==> uppered(text)[i] == text[i],
{
}

/// Characters are counted one by one.
pub proof fn law_characters_are_counted_one_by_one(left: Seq<char>, right: Seq<char>, c: char, d: char)
    ensures
        occurrences(left + right, c) == occurrences(left, c) + occurrences(right, c),
        occurrences(seq![d], c) == if c == d {
            1nat
        } else {
            0
        },
        occurrences(seq![], c) == 0,
{
    lemma_occurrences_concat(left, right, c);
    let one = seq![d];
    assert(one.drop_first() =~= seq![]);
    assert(occurrences(one.drop_first(), c) == 0);
}

/// Replacing one character by a text goes character by character.
pub proof fn law_replacing_goes_from_left_to_right(c: char, rest: Seq<char>, from: char, to: Seq<char>)
    ensures
        replaced(seq![c] + rest, seq![from], to) == (if c == from {
            to
        } else {
            seq![c]
        }) + replaced(rest, seq![from], to),
        replaced(seq![], seq![from], to).len() == 0,
{
    let text = seq![c] + rest;
    assert(text.drop_first() =~= rest);
    assert(text.skip(1) =~= rest);
    assert(text.take(1) =~= seq![c]);
    assert(seq![c] =~= seq![from] <==> c == from) by {
        assert(seq![c][0] == c && seq![from][0] == from);
    }
}

/// White space is what Unicode calls so, by its code points.
pub proof fn law_what_white_space_is(c: char)
    ensures
        is_white(c) <==> (0x9 <= c as int <= 0xd || c as int == 0x20 || c as int == 0x85 || c as int == 0xa0
            || c as int == 0x1680 || 0x2000 <= c as int <= 0x200a || c as int == 0x2028 || c as int == 0x2029
            || c as int == 0x202f || c as int == 0x205f || c as int == 0x3000),
{
}

/// A text writes a whole number exactly where it is digits, after a plus sign or not, that come to no more than a limit.
pub proof fn law_what_writes_a_whole_number(text: Seq<char>, limit: nat)
    ensures
        text.len() > 0 && all_digits(text) && digits_value(text) <= limit ==> parsed_whole(text, limit) == Some(
            digits_value(text),
        ),
        parsed_whole(seq!['+'] + text, limit) == (if text.len() > 0 && all_digits(text) && digits_value(text)
            <= limit {
            Some(digits_value(text))
        } else {
            None
        }),
        text.len() == 0 ==> parsed_whole(text, limit) is None,
        text.len() > 0 && text[0] != '+' && !all_digits(text) ==> parsed_whole(text, limit) is None,
        parsed_whole(text, limit) matches Some(n) ==> n <= limit,
{
    assert((seq!['+'] + text).skip(1) =~= text);
    if text.len() > 0 && all_digits(text) {
        assert(is_digit(text[0]));
    }
}

/// A place is the first of its character, and there is none where the character is not.
pub proof fn law_a_character_is_found_where_it_first_stands(text: Seq<char>, c: char)
    ensures
        find_of(text, c) is None <==> !text.contains(c),
        find_of(text, c) matches Some(i) ==> 0 <= i < text.len() && text[i] == c && forall|k: int|
            0 <= k < i ==> #[trigger] text[k] != c,
        contains_of(text, c) <==> text.contains(c),
{
    lemma_find(text, c);
    if let Some(i) = find_of(text, c) {
        assert(text.contains(text[i]));
    } else if text.contains(c) {
        let k = choose|k: int| 0 <= k < text.len() && text[k] == c;
        assert(text[k] != c);
    }
}

} // verus!
