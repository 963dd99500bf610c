//! Text on the level of characters: comparison, white space, decimal numerals, and the cut of
//! a long text.
use vstd::arithmetic::power::pow;
use vstd::prelude::*;
use vstd::string::StringExecFns;
use vstd::utf8::{
    decode_utf8, decode_utf8_encode_utf8, decode_utf8_split, encode_utf8, encode_utf8_decode_utf8,
    encode_utf8_valid_utf8, is_ascii_chars, is_ascii_chars_encode_utf8, is_char_boundary,
    length_of_first_scalar, pop_first_scalar, valid_utf8, valid_utf8_split,
};

verus! {

/// Unicode's White_Space property.
pub open spec fn is_white_space(c: char) -> bool {
    let code = c as u32;
    ||| 0x9 <= code <= 0xD
    ||| code == 0x20
    ||| code == 0x85
    ||| code == 0xA0
    ||| code == 0x1680
    ||| 0x2000 <= code <= 0x200A
    ||| code == 0x2028
    ||| code == 0x2029
    ||| code == 0x202F
    ||| code == 0x205F
    ||| code == 0x3000
}

/// The text from its first character on that is no white space.
pub open spec fn trimmed_start(text: Seq<char>) -> Seq<char>
    decreases text.len(),
{
    if text.len() > 0 && is_white_space(text[0]) {
        trimmed_start(text.drop_first())
    } else {
        text
    }
}

/// The text up to its last character that is no white space.
pub open spec fn trimmed_end(text: Seq<char>) -> Seq<char>
    decreases text.len(),
{
    if text.len() > 0 && is_white_space(text.last()) {
        trimmed_end(text.drop_last())
    } else {
        text
    }
}

/// The text without the white space at its ends.
pub open spec fn trimmed(text: Seq<char>) -> Seq<char> {
    trimmed_end(trimmed_start(text))
}

/// White space behind a text that starts and ends with other characters is all that
/// trimming takes off.
pub proof fn lemma_trimmed(text: Seq<char>, space: Seq<char>)
    requires
        text.len() > 0,
        !is_white_space(text[0]),
        !is_white_space(text.last()),
        forall|i: int| 0 <= i < space.len() ==> is_white_space(#[trigger] space[i]),
    ensures
        trimmed(text + space) == text,
{
    lemma_trimmed_end(text, space);
}

/// White space at the end of a text makes no difference to where it ends.
proof fn lemma_trimmed_end(text: Seq<char>, space: Seq<char>)
    requires
        forall|i: int| 0 <= i < space.len() ==> is_white_space(#[trigger] space[i]),
    ensures
        trimmed_end(text + space) == trimmed_end(text),
    decreases space.len(),
{
    if space.len() == 0 {
        assert(text + space =~= text);
    } else {
        assert((text + space).drop_last() =~= text + space.drop_last());
        assert((text + space).last() == space[space.len() - 1]);
        lemma_trimmed_end(text, space.drop_last());
    }
}

/// Trimming takes off the white space at both ends of a text that starts and ends with other
/// characters, and nothing else, whatever the text is.
pub proof fn lemma_trimmed_both(before: Seq<char>, text: Seq<char>, after: Seq<char>)
    requires
        text.len() > 0,
        !is_white_space(text[0]),
        !is_white_space(text.last()),
        forall|i: int| 0 <= i < before.len() ==> is_white_space(#[trigger] before[i]),
        forall|i: int| 0 <= i < after.len() ==> is_white_space(#[trigger] after[i]),
    ensures
        trimmed(before + text + after) == text,
    decreases before.len(),
{
    if before.len() == 0 {
        assert(before + text + after =~= text + after);
        lemma_trimmed(text, after);
    } else {
        assert((before + text + after)[0] == before[0]);
        assert((before + text + after).drop_first() =~= before.drop_first() + text + after);
        lemma_trimmed_both(before.drop_first(), text, after);
    }
}

/// Nothing is left of white space.
pub proof fn lemma_trimmed_blank(space: Seq<char>)
    requires
        forall|i: int| 0 <= i < space.len() ==> is_white_space(#[trigger] space[i]),
    ensures
        trimmed(space).len() == 0,
    decreases space.len(),
{
    if space.len() > 0 {
        lemma_trimmed_blank(space.drop_first());
    }
}

/// One of `0` to `9`.
pub open spec fn is_digit(c: char) -> bool {
    '0' <= c <= '9'
}

/// Nothing but digits, and at least one.
pub open spec fn is_numeral(text: Seq<char>) -> bool {
    text.len() > 0 && forall|i: int| 0 <= i < text.len() ==> is_digit(#[trigger] text[i])
}

/// The number that digits stand for in base ten.
pub open spec fn numeral_value(digits: Seq<char>) -> nat
    decreases digits.len(),
{
    if digits.len() == 0 {
        0
    } else {
        10 * numeral_value(digits.drop_last()) + (digits.last() as nat - '0' as nat) as nat
    }
}

/// The digits of a number in base ten, without leading zeros.
pub open spec fn decimal(n: nat) -> Seq<char>
    decreases n,
{
    let last = ('0' as nat + n % 10) as char;
    if n < 10 {
        seq![last]
    } else {
        decimal(n / 10).push(last)
    }
}

/// Digits, and at least one of them, are a numeral, and nothing else is. Each digit counts ten
/// times as much as the one behind it.
pub proof fn lemma_numeral(digits: Seq<char>, last: char)
    ensures
        is_numeral(digits) <==> digits.len() > 0 && forall|i: int|
            0 <= i < digits.len() ==> '0' <= #[trigger] digits[i] <= '9',
        numeral_value(Seq::empty()) == 0,
        '0' <= last <= '9' ==> numeral_value(digits.push(last)) == 10 * numeral_value(digits) + (
        last as int - '0' as int),
{
    if forall|i: int| 0 <= i < digits.len() ==> '0' <= #[trigger] digits[i] <= '9' {
        assert forall|i: int| 0 <= i < digits.len() implies is_digit(#[trigger] digits[i]) by {
            assert('0' <= digits[i] <= '9');
        }
    }
    if is_numeral(digits) {
        assert forall|i: int| 0 <= i < digits.len() implies '0' <= #[trigger] digits[i] <= '9' by {
            assert(is_digit(digits[i]));
        }
    }
    assert(digits.push(last).drop_last() =~= digits);
}

/// The digits of a number are a numeral for it, without a zero in front of others.
pub proof fn lemma_decimal(n: nat)
    ensures
        is_numeral(decimal(n)),
        numeral_value(decimal(n)) == n,
        decimal(n).len() > 1 ==> decimal(n)[0] != '0',
        decimal(n)[0] == '0' ==> n == 0,
    decreases n,
{
    let last = ('0' as nat + n % 10) as char;
    assert(last as nat == '0' as nat + n % 10);
    if n < 10 {
        assert(decimal(n).drop_last() =~= Seq::<char>::empty());
        assert(numeral_value(Seq::<char>::empty()) == 0);
    } else {
        lemma_decimal(n / 10);
        assert(decimal(n).drop_last() =~= decimal(n / 10));
        assert forall|i: int| 0 <= i < decimal(n).len() implies is_digit(
            #[trigger] decimal(n)[i],
        ) by {
            if i < decimal(n / 10).len() {
                assert(is_digit(decimal(n / 10)[i]));
            }
        }
    }
}

/// The first digits of a numeral stand for no more than all of them.
proof fn lemma_numeral_prefix(digits: Seq<char>, i: int)
    requires
        0 <= i <= digits.len(),
    ensures
        numeral_value(digits.take(i)) <= numeral_value(digits),
    decreases digits.len() - i,
{
    if i < digits.len() {
        lemma_numeral_prefix(digits, i + 1);
        assert(digits.take(i + 1).drop_last() =~= digits.take(i));
    } else {
        assert(digits.take(i) =~= digits);
    }
}

/// Tells whether two strings hold the same characters.
pub fn same_text(a: &str, b: &str) -> (same: bool)
    ensures
        same == (a@ == b@),
{
    let left: &[u8] = a.as_bytes();
    let right: &[u8] = b.as_bytes();
    proof {
        encode_utf8_decode_utf8(a@);
        encode_utf8_decode_utf8(b@);
    }
    if left.len() != right.len() {
        return false;
    }
    let mut i: usize = 0;
    while i < left.len()
        invariant
            i <= left@.len(),
            left@.len() == right@.len(),
            left@ == encode_utf8(a@),
            right@ == encode_utf8(b@),
            forall|k: int| 0 <= k < i ==> left@[k] == right@[k],
        decreases left@.len() - i,
    {
        if left[i] != right[i] {
            return false;
        }
        i += 1;
    }
    assert(left@ =~= right@);
    true
}

/// `std::str::from_utf8`: succeeds on the bytes that are UTF-8, and gives the text that
/// they encode.
#[verifier::external_body]
pub(crate) fn utf8_text(bytes: &[u8]) -> (text: Option<&str>)
    ensures
        match text {
            Some(t) => valid_utf8(bytes@) && t@ == decode_utf8(bytes@),
            None => !valid_utf8(bytes@),
        },
{
    match std::str::from_utf8(bytes) {
        Ok(text) => Some(text),
        Err(_) => None,
    }
}

/// The characters of a string.
pub fn characters(text: &str) -> (result: Vec<char>)
    ensures
        result@ == text@,
{
    let mut result: Vec<char> = Vec::new();
    for c in it: text.chars()
        invariant
            it.seq() == text@,
            result@ == text@.take(it.index() as int),
    {
        result.push(c);
        assert(result@ =~= text@.take(it.index() + 1));
    }
    assert(text@.take(text@.len() as int) =~= text@);
    result
}

/// Tells whether a character is white space.
pub fn white_space(c: char) -> (is: bool)
    ensures
        is == is_white_space(c),
{
    let code: u32 = c as u32;
    (0x9 <= code && code <= 0xD) || code == 0x20 || code == 0x85 || code == 0xA0 || code == 0x1680
        || (0x2000 <= code && code <= 0x200A) || code == 0x2028 || code == 0x2029 || code == 0x202F
        || code == 0x205F || code == 0x3000
}

/// Tells whether a text starts with another one.
pub fn starts_with(text: &[char], start: &[char]) -> (starts: bool)
    ensures
        starts == start@.is_prefix_of(text@),
{
    if text.len() < start.len() {
        return false;
    }
    let mut i: usize = 0;
    while i < start.len()
        invariant
            i <= start@.len() <= text@.len(),
            forall|k: int| 0 <= k < i ==> start@[k] == text@[k],
        decreases start@.len() - i,
    {
        if start[i] != text[i] {
            assert(start@[i as int] != text@.subrange(0, start@.len() as int)[i as int]);
            return false;
        }
        i += 1;
    }
    assert(start@ =~= text@.subrange(0, start@.len() as int));
    true
}

/// Takes the white space off both ends of a text.
pub fn trim(text: Vec<char>) -> (result: Vec<char>)
    ensures
        result@ == trimmed(text@),
{
    let mut from: usize = 0;
    assert(text@.skip(0) =~= text@);
    while from < text.len() && white_space(text[from])
        invariant
            from <= text@.len(),
            trimmed_start(text@.skip(from as int)) == trimmed_start(text@),
        decreases text@.len() - from,
    {
        assert(text@.skip(from as int).drop_first() =~= text@.skip(from + 1));
        from += 1;
    }
    let ghost start = text@.skip(from as int);
    let mut all = text;
    let mut result = all.split_off(from);
    assert(result@ =~= start);
    while result.len() > 0 && white_space(result[result.len() - 1])
        invariant
            trimmed_end(result@) == trimmed_end(start),
        decreases result@.len(),
    {
        let ghost before = result@;
        let _ = result.pop();
        assert(result@ =~= before.drop_last());
    }
    result
}

/// The number that a numeral stands for, where the text is one and the number fits.
pub fn parse_numeral(text: &[char]) -> (number: Option<usize>)
    ensures
        match number {
            Some(n) => is_numeral(text@) && numeral_value(text@) == n,
            None => !is_numeral(text@) || numeral_value(text@) > usize::MAX,
        },
{
    if text.len() == 0 {
        return None;
    }
    let mut number: usize = 0;
    let mut i: usize = 0;
    assert(numeral_value(text@.take(0)) == 0);
    while i < text.len()
        invariant
            i <= text@.len(),
            number == numeral_value(text@.take(i as int)),
            forall|k: int| 0 <= k < i ==> is_digit(#[trigger] text@[k]),
        decreases text@.len() - i,
    {
        let c: char = text[i];
        if c < '0' || '9' < c {
            return None;
        }
        let digit: usize = (c as u32 - '0' as u32) as usize;
        proof {
            assert(text@.take(i + 1).drop_last() =~= text@.take(i as int));
            lemma_numeral_prefix(text@, i + 1);
        }
        match number.checked_mul(10) {
            Some(tens) => match tens.checked_add(digit) {
                Some(sum) => {
                    number = sum;
                },
                None => return None,
            },
            None => return None,
        }
        i += 1;
    }
    assert(text@.take(i as int) =~= text@);
    Some(number)
}

/// Writes a number in base ten.
pub fn format_decimal(n: usize) -> (digits: Vec<char>)
    ensures
        digits@ == decimal(n as nat),
    decreases n,
{
    let digit: u8 = '0' as u8 + (n % 10) as u8;
    let last: char = digit as char;
    let mut digits: Vec<char> = if n < 10 {
        Vec::new()
    } else {
        format_decimal(n / 10)
    };
    digits.push(last);
    assert(digits@ =~= decimal(n as nat));
    digits
}

/// The bytes of an ASCII text.
pub fn ascii_bytes(text: &[char]) -> (bytes: Vec<u8>)
    requires
        is_ascii_chars(text@),
    ensures
        bytes@ == encode_utf8(text@),
{
    proof {
        is_ascii_chars_encode_utf8(text@);
    }
    let mut bytes: Vec<u8> = Vec::new();
    let mut i: usize = 0;
    while i < text.len()
        invariant
            i <= text@.len(),
            is_ascii_chars(text@),
            bytes@.len() == i,
            forall|k: int| 0 <= k < i ==> #[trigger] bytes@[k] == text@[k] as u8,
        decreases text@.len() - i,
    {
        bytes.push(text[i] as u8);
        i += 1;
    }
    assert(bytes@ =~= encode_utf8(text@));
    bytes
}

/// How many bytes of a text [`truncate_text`] keeps at most.
pub const TEXT_LIMIT: usize = 500;

/// The last place, at or before the limit, where no character stands across.
pub open spec fn cut_at(bytes: Seq<u8>, limit: int) -> int
    decreases limit,
{
    if limit <= 0 {
        0
    } else if is_char_boundary(bytes, limit) {
        limit
    } else {
        cut_at(bytes, limit - 1)
    }
}

/// The start of a long text, with a note of how many bytes the text has.
pub open spec fn truncated(text: Seq<char>) -> Seq<char> {
    let bytes = encode_utf8(text);
    if bytes.len() <= TEXT_LIMIT {
        text
    } else {
        decode_utf8(bytes.subrange(0, cut_at(bytes, TEXT_LIMIT as int))) + "... ("@ + decimal(
            bytes.len(),
        ) + " bytes total)"@
    }
}

/// Near every place in a text there is one before it where no character stands across.
proof fn lemma_boundary_near(bytes: Seq<u8>, limit: int) -> (place: int)
    requires
        valid_utf8(bytes),
        0 <= limit <= bytes.len(),
    ensures
        limit - 3 <= place <= limit,
        0 <= place,
        is_char_boundary(bytes, place),
    decreases bytes.len(),
{
    let first = length_of_first_scalar(bytes);
    if bytes.len() == 0 || limit < first {
        0
    } else {
        let later = lemma_boundary_near(pop_first_scalar(bytes), limit - first);
        later + first
    }
}

/// The cut is such a place, there is none between it and the limit, and it is near the limit.
pub proof fn lemma_cut_at(bytes: Seq<u8>, limit: int)
    requires
        valid_utf8(bytes),
        0 <= limit <= bytes.len(),
    ensures
        is_char_boundary(bytes, cut_at(bytes, limit)),
        0 <= cut_at(bytes, limit) <= limit,
        limit - 3 <= cut_at(bytes, limit),
        forall|place: int|
            cut_at(bytes, limit) < place <= limit ==> !#[trigger] is_char_boundary(bytes, place),
{
    lemma_cut_is_last(bytes, limit);
    let near = lemma_boundary_near(bytes, limit);
    assert(near <= cut_at(bytes, limit));
}

proof fn lemma_cut_is_last(bytes: Seq<u8>, limit: int)
    requires
        valid_utf8(bytes),
        0 <= limit,
    ensures
        is_char_boundary(bytes, cut_at(bytes, limit)),
        0 <= cut_at(bytes, limit) <= limit,
        forall|place: int|
            cut_at(bytes, limit) < place <= limit ==> !#[trigger] is_char_boundary(bytes, place),
    decreases limit,
{
    if limit > 0 && !is_char_boundary(bytes, limit) {
        lemma_cut_is_last(bytes, limit - 1);
    }
}

/// A text that follows another is encoded behind it.
proof fn lemma_encode_behind(first: Seq<char>, second: Seq<char>)
    ensures
        encode_utf8(first + second) == encode_utf8(first) + encode_utf8(second),
    decreases first.len(),
{
    if first.len() == 0 {
        assert(first + second =~= second);
    } else {
        lemma_encode_behind(first.drop_first(), second);
        assert((first + second).drop_first() =~= first.drop_first() + second);
    }
}

/// A number below a power of ten has no more digits than its exponent says.
proof fn lemma_decimal_length(n: nat, digits: nat)
    requires
        digits > 0,
        n < pow(10, digits),
    ensures
        decimal(n).len() <= digits,
    decreases digits,
{
    reveal(pow);
    if n >= 10 {
        assert(pow(10, digits) == 10 * pow(10, (digits - 1) as nat));
        assert(digits > 1) by {
            assert(digits == 1 ==> pow(10, 0) == 1);
        }
        lemma_decimal_length(n / 10, (digits - 1) as nat);
    }
}

/// A short text stays as it is. Of a long one there is left a start that has as many bytes as
/// the limit allows without a cut inside a character, with the note behind it.
pub proof fn lemma_truncated(text: Seq<char>)
    requires
        encode_utf8(text).len() <= usize::MAX,
    ensures
        encode_utf8(text).len() <= 500 ==> truncated(text) == text,
        encode_utf8(text).len() > 500 ==> exists|start: Seq<char>| #[trigger]
            start.is_prefix_of(text) && 497 <= encode_utf8(start).len() <= 500
                && truncated(text) == start + "... ("@ + decimal(encode_utf8(text).len())
                + " bytes total)"@,
        encode_utf8(truncated(text)).len() <= 538,
{
    let bytes = encode_utf8(text);
    if bytes.len() > TEXT_LIMIT {
        let cut = cut_at(bytes, TEXT_LIMIT as int);
        let head = bytes.subrange(0, cut);
        let start = decode_utf8(head);
        let count = decimal(bytes.len());
        encode_utf8_valid_utf8(text);
        encode_utf8_decode_utf8(text);
        lemma_cut_at(bytes, TEXT_LIMIT as int);
        valid_utf8_split(bytes, cut);
        decode_utf8_split(bytes, cut);
        decode_utf8_encode_utf8(head);
        assert(start.is_prefix_of(text));
        reveal_strlit("... (");
        reveal_strlit(" bytes total)");
        assert("... ("@.len() == 5);
        assert(" bytes total)"@.len() == 13);
        assert(count.len() <= 20) by {
            assert(pow(10, 20) == 100_000_000_000_000_000_000) by {
                reveal_with_fuel(pow, 21);
            }
            lemma_decimal_length(bytes.len(), 20);
        }
        lemma_decimal_ascii(bytes.len());
        is_ascii_chars_encode_utf8(count);
        is_ascii_chars_encode_utf8("... ("@);
        is_ascii_chars_encode_utf8(" bytes total)"@);
        lemma_encode_behind(start, "... ("@);
        lemma_encode_behind(start + "... ("@, count);
        lemma_encode_behind(start + "... ("@ + count, " bytes total)"@);
    }
}

/// Shortens a long text to its start, with a note of how many bytes it has.
pub fn truncate_text(text: &str) -> (result: String)
    ensures
        result@ == truncated(text@),
{
    let length = text.as_bytes().len();
    if length <= TEXT_LIMIT {
        return text.to_owned();
    }
    proof {
        encode_utf8_valid_utf8(text@);
    }
    let mut cut: usize = TEXT_LIMIT;
    while !text.is_char_boundary(cut)
        invariant
            valid_utf8(encode_utf8(text@)),
            cut_at(encode_utf8(text@), TEXT_LIMIT as int) == cut_at(
                encode_utf8(text@),
                cut as int,
            ),
        decreases cut,
    {
        cut -= 1;
    }
    let (start, _) = text.split_at(cut);
    let digits = format_decimal(length);
    proof {
        encode_utf8_decode_utf8(start@);
        lemma_decimal_ascii(length as nat);
    }
    let bytes = ascii_bytes(digits.as_slice());
    proof {
        encode_utf8_valid_utf8(digits@);
        encode_utf8_decode_utf8(digits@);
    }
    let mut result = start.to_owned();
    result.append("... (");
    if let Some(count) = utf8_text(bytes.as_slice()) {
        result.append(count);
    }
    result.append(" bytes total)");
    result
}

/// A number in base ten is ASCII.
pub proof fn lemma_decimal_ascii(n: nat)
    ensures
        is_ascii_chars(decimal(n)),
{
    lemma_decimal(n);
    assert forall|i: int| 0 <= i < decimal(n).len() implies '0' <= #[trigger] decimal(n)[i]
        <= '9' by {
        assert(is_digit(decimal(n)[i]));
    }
}

} // verus!
