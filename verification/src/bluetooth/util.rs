//! Helpers for the text that the operating system hands over.

use vstd::prelude::*;

verus! {

/// The character that stands in for a code unit that cannot be decoded.
pub const REPLACEMENT_CHARACTER: char = '\u{FFFD}';

/// The character that pads the name buffers of the operating system.
pub const NUL: char = '\0';

/// `char::from_u32` of std: `Some` of the character whose scalar value is
/// `i` where `i` is a Unicode scalar value, that is no surrogate and at most
/// `0x10FFFF`, and `None` otherwise.
pub assume_specification[ char::from_u32 ](i: u32) -> (r: Option<char>)
    ensures
        r == (if i <= 0xD7FF || 0xE000 <= i <= 0x10FFFF {
            Some(i as char)
        } else {
            None
        }),
;

/// `String::push` of std: appends the character to the end of the string.
pub assume_specification[ String::push ](s: &mut String, ch: char)
    ensures
        final(s)@ == old(s)@.push(ch),
;

/// A code unit that opens a surrogate pair.
pub open spec fn is_high_surrogate(unit: u16) -> bool {
    0xD800 <= unit <= 0xDBFF
}

/// A code unit that closes a surrogate pair.
pub open spec fn is_low_surrogate(unit: u16) -> bool {
    0xDC00 <= unit <= 0xDFFF
}

/// The scalar value that the surrogate pair `high`, `low` encodes.
pub open spec fn surrogate_pair_scalar(high: u16, low: u16) -> int {
    0x10000 + (high - 0xD800) * 0x400 + (low - 0xDC00)
}

/// Whether `units` begins with a well-formed surrogate pair.
pub open spec fn starts_with_pair(units: Seq<u16>) -> bool {
    units.len() >= 2 && is_high_surrogate(units[0]) && is_low_surrogate(units[1])
}

/// The first character that `units`, which is not empty, decodes to: the
/// character of a surrogate pair, the replacement character for a surrogate
/// that has no partner, and otherwise the character of the unit itself.
pub open spec fn first_char(units: Seq<u16>) -> char {
    if starts_with_pair(units) {
        surrogate_pair_scalar(units[0], units[1]) as char
    } else if is_high_surrogate(units[0]) || is_low_surrogate(units[0]) {
        REPLACEMENT_CHARACTER
    } else {
        units[0] as char
    }
}

/// The number of code units that the first character of `units` takes.
pub open spec fn first_char_units(units: Seq<u16>) -> int {
    if starts_with_pair(units) {
        2
    } else {
        1
    }
}

/// The text that a sequence of UTF-16 code units decodes to, where every
/// surrogate without a partner becomes one replacement character.
pub open spec fn utf16_lossy(units: Seq<u16>) -> Seq<char>
    decreases units.len(),
{
    if units.len() == 0 {
        Seq::empty()
    } else {
        seq![first_char(units)] + utf16_lossy(units.skip(first_char_units(units)))
    }
}

/// `text` without the NUL characters that it begins with.
pub open spec fn strip_leading_nul(text: Seq<char>) -> Seq<char>
    decreases text.len(),
{
    if text.len() > 0 && text[0] == NUL {
        strip_leading_nul(text.skip(1))
    } else {
        text
    }
}

/// `text` without the NUL characters that it ends with.
pub open spec fn strip_trailing_nul(text: Seq<char>) -> Seq<char>
    decreases text.len(),
{
    if text.len() > 0 && text.last() == NUL {
        strip_trailing_nul(text.drop_last())
    } else {
        text
    }
}

/// `text` without the NUL characters at either end. NUL characters inside
/// the text stay.
pub open spec fn trim_nul(text: Seq<char>) -> Seq<char> {
    strip_trailing_nul(strip_leading_nul(text))
}

/// `count` NUL characters.
pub open spec fn nuls(count: nat) -> Seq<char> {
    Seq::new(count, |i: int| NUL)
}

/// Whether `text` neither begins nor ends with a NUL character.
pub open spec fn has_clean_ends(text: Seq<char>) -> bool {
    text.len() == 0 || (text.first() != NUL && text.last() != NUL)
}

/// Units that are no surrogates decode one by one, each to the character of
/// its own value.
pub proof fn lemma_utf16_lossy_plain(units: Seq<u16>)
    requires
        forall|i: int|
            0 <= i < units.len() ==> !is_high_surrogate(#[trigger] units[i]) && !is_low_surrogate(
                units[i],
            ),
    ensures
        utf16_lossy(units) == units.map_values(|unit: u16| unit as char),
    decreases units.len(),
{
    if units.len() > 0 {
        let rest = units.skip(1);
        assert forall|i: int| 0 <= i < rest.len() implies !is_high_surrogate(#[trigger] rest[i])
            && !is_low_surrogate(rest[i]) by {
            assert(rest[i] == units[i + 1]);
        }
        lemma_utf16_lossy_plain(rest);
    }
    assert(utf16_lossy(units) =~= units.map_values(|unit: u16| unit as char));
}

/// Decoding may be done in two parts wherever the second part does not
/// begin with the closing half of a surrogate pair.
pub proof fn lemma_utf16_lossy_split(left: Seq<u16>, right: Seq<u16>)
    requires
        right.len() == 0 || !is_low_surrogate(right[0]),
    ensures
        utf16_lossy(left + right) == utf16_lossy(left) + utf16_lossy(right),
    decreases left.len(),
{
    let whole = left + right;
    if left.len() == 0 {
        assert(whole =~= right);
        assert(utf16_lossy(left) + utf16_lossy(right) =~= utf16_lossy(right));
    } else {
        assert(whole[0] == left[0]);
        if left.len() >= 2 {
            assert(whole[1] == left[1]);
        } else if right.len() > 0 {
            assert(whole[1] == right[0]);
        }
        assert(starts_with_pair(whole) == starts_with_pair(left));
        let taken = first_char_units(left);
        assert(whole.skip(taken) =~= left.skip(taken) + right);
        lemma_utf16_lossy_split(left.skip(taken), right);
        assert(utf16_lossy(whole) =~= utf16_lossy(left) + utf16_lossy(right));
    }
}

/// What is left after trimming neither begins nor ends with a NUL character.
pub proof fn lemma_trim_nul_has_clean_ends(text: Seq<char>)
    ensures
        has_clean_ends(trim_nul(text)),
{
    lemma_strip_leading_nul_begins_clean(text);
    lemma_strip_trailing_nul_ends_clean(strip_leading_nul(text));
}

/// Trimming takes NUL characters away from the two ends and nothing else:
/// a text that neither begins nor ends with one comes back as it is, however
/// many of them stand before and after it.
pub proof fn lemma_trim_nul_padded(before: nat, text: Seq<char>, after: nat)
    requires
        has_clean_ends(text),
    ensures
        trim_nul(nuls(before) + text + nuls(after)) == text,
{
    let rest = text + nuls(after);
    assert(nuls(before) + text + nuls(after) =~= nuls(before) + rest);
    lemma_strip_leading_padding(before, rest);
    if text.len() == 0 {
        assert(rest =~= nuls(after) + text);
        lemma_strip_leading_padding(after, text);
    } else {
        assert(rest[0] == text[0]);
        lemma_strip_trailing_padding(text, after);
    }
}

/// Trimming a second time changes nothing.
pub proof fn lemma_trim_nul_idempotent(text: Seq<char>)
    ensures
        trim_nul(trim_nul(text)) == trim_nul(text),
{
    lemma_trim_nul_has_clean_ends(text);
    let trimmed = trim_nul(text);
    lemma_trim_nul_padded(0, trimmed, 0);
    assert(nuls(0) + trimmed + nuls(0) =~= trimmed);
}

/// A name that the operating system has written into a buffer and padded
/// with NUL units comes back as the text of the name alone, where that text
/// neither begins nor ends with a NUL character.
pub proof fn lemma_padded_name(name: Seq<u16>, padding: nat)
    requires
        has_clean_ends(utf16_lossy(name)),
    ensures
        trim_nul(utf16_lossy(name + Seq::new(padding, |i: int| 0u16))) == utf16_lossy(name),
{
    let zeros = Seq::new(padding, |i: int| 0u16);
    lemma_utf16_lossy_split(name, zeros);
    lemma_utf16_lossy_plain(zeros);
    assert(utf16_lossy(zeros) =~= nuls(padding));
    let text = utf16_lossy(name);
    assert(nuls(0) + text + nuls(padding) =~= text + nuls(padding));
    lemma_trim_nul_padded(0, text, padding);
}

proof fn lemma_strip_leading_nul_begins_clean(text: Seq<char>)
    ensures
        strip_leading_nul(text).len() == 0 || strip_leading_nul(text).first() != NUL,
    decreases text.len(),
{
    if text.len() > 0 && text[0] == NUL {
        lemma_strip_leading_nul_begins_clean(text.skip(1));
    }
}

proof fn lemma_strip_trailing_nul_ends_clean(text: Seq<char>)
    ensures
        strip_trailing_nul(text).len() == 0 || strip_trailing_nul(text).last() != NUL,
        strip_trailing_nul(text).len() == 0 || strip_trailing_nul(text).first() == text.first(),
    decreases text.len(),
{
    if text.len() > 0 && text.last() == NUL {
        lemma_strip_trailing_nul_ends_clean(text.drop_last());
    }
}

proof fn lemma_strip_leading_padding(count: nat, text: Seq<char>)
    ensures
        strip_leading_nul(nuls(count) + text) == strip_leading_nul(text),
    decreases count,
{
    let padded = nuls(count) + text;
    if count == 0 {
        assert(padded =~= text);
    } else {
        assert(padded[0] == NUL);
        assert(padded.skip(1) =~= nuls((count - 1) as nat) + text);
        lemma_strip_leading_padding((count - 1) as nat, text);
    }
}

proof fn lemma_strip_trailing_padding(text: Seq<char>, count: nat)
    requires
        text.len() == 0 || text.last() != NUL,
    ensures
        strip_trailing_nul(text + nuls(count)) == text,
    decreases count,
{
    let padded = text + nuls(count);
    if count == 0 {
        assert(padded =~= text);
    } else {
        assert(padded.last() == NUL);
        assert(padded.drop_last() =~= text + nuls((count - 1) as nat));
        lemma_strip_trailing_padding(text, (count - 1) as nat);
    }
}

/// Decodes UTF-16 code units, one replacement character for every surrogate
/// that has no partner.
fn decode_utf16_lossy(slice: &[u16]) -> (chars: Vec<char>)
    ensures
        chars@ == utf16_lossy(slice@),
{
    let mut chars: Vec<char> = Vec::new();
    let mut i: usize = 0;
    assert(slice@.skip(0) =~= slice@);
    while i < slice.len()
        invariant
            i <= slice.len(),
            chars@ + utf16_lossy(slice@.skip(i as int)) == utf16_lossy(slice@),
        decreases slice.len() - i,
    {
        let ghost rest = slice@.skip(i as int);
        let unit: u16 = slice[i];
        let paired: bool = 0xD800 <= unit && unit <= 0xDBFF && i + 1 < slice.len() && 0xDC00
            <= slice[i + 1] && slice[i + 1] <= 0xDFFF;
        assert(rest[0] == unit);
        assert(paired == starts_with_pair(rest));
        let c: char = if paired {
            let high: u32 = (unit - 0xD800) as u32;
            let low: u32 = (slice[i + 1] - 0xDC00) as u32;
            char::from_u32(0x10000 + high * 0x400 + low).unwrap()
        } else if 0xD800 <= unit && unit <= 0xDFFF {
            REPLACEMENT_CHARACTER
        } else {
            char::from_u32(unit as u32).unwrap()
        };
        assert(c == first_char(rest));
        let step: usize = if paired {
            2
        } else {
            1
        };
        proof {
            assert(rest.skip(step as int) =~= slice@.skip(i + step));
            assert(chars@.push(c) + utf16_lossy(slice@.skip(i + step)) =~= chars@ + utf16_lossy(
                rest,
            ));
        }
        chars.push(c);
        i = i + step;
    }
    assert(chars@ + Seq::<char>::empty() =~= chars@);
    chars
}

/// Turns the null-padded UTF-16 buffer that the operating system fills into
/// text: the units are decoded, a surrogate without a partner becomes the
/// replacement character, and the NUL characters at both ends are dropped.
pub fn u16_slice_to_string(slice: &[u16]) -> (text: String)
    ensures
        text@ == trim_nul(utf16_lossy(slice@)),
{
    let chars = decode_utf16_lossy(slice);
    let mut start: usize = 0;
    assert(chars@.skip(0) =~= chars@);
    while start < chars.len() && chars[start] == NUL
        invariant
            start <= chars.len(),
            strip_leading_nul(chars@.skip(start as int)) == strip_leading_nul(chars@),
        decreases chars.len() - start,
    {
        assert(chars@.skip(start as int).skip(1) =~= chars@.skip(start + 1));
        start = start + 1;
    }
    let ghost body = chars@.skip(start as int);
    assert(strip_leading_nul(chars@) == body);
    let mut end: usize = chars.len();
    assert(chars@.subrange(start as int, end as int) =~= body);
    while end > start && chars[end - 1] == NUL
        invariant
            start <= end <= chars.len(),
            strip_trailing_nul(chars@.subrange(start as int, end as int)) == strip_trailing_nul(
                body,
            ),
        decreases end - start,
    {
        assert(chars@.subrange(start as int, end as int).drop_last() =~= chars@.subrange(
            start as int,
            end - 1,
        ));
        end = end - 1;
    }
    let ghost kept = chars@.subrange(start as int, end as int);
    assert(trim_nul(chars@) == kept);
    let mut text = String::new();
    let mut i: usize = start;
    while i < end
        invariant
            start <= i <= end <= chars.len(),
            text@ == chars@.subrange(start as int, i as int),
        decreases end - i,
    {
        text.push(chars[i]);
        assert(chars@.subrange(start as int, i as int).push(chars@[i as int]) =~= chars@.subrange(
            start as int,
            i + 1,
        ));
        i = i + 1;
    }
    text
}

} // verus!
