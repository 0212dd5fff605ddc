//! Small operations on text that the rest of the crate is stated over.

use vstd::prelude::*;

verus! {

/// The characters of each string of a sequence, in order.
pub open spec fn views_of(items: Seq<String>) -> Seq<Seq<char>> {
    items.map_values(|item: String| item@)
}

/// The characters of an optional string.
pub open spec fn text_of(value: Option<String>) -> Option<Seq<char>> {
    match value {
        Some(text) => Some(text@),
        None => None,
    }
}

/// The characters of each optional string of a sequence, in order.
pub open spec fn optional_views_of(items: Seq<Option<String>>) -> Seq<Option<Seq<char>>> {
    items.map_values(|item: Option<String>| text_of(item))
}

/// The code points that Unicode gives the property `White_Space`.
pub open spec fn is_space(c: char) -> bool {
    let code = c as u32;
    ||| 0x09 <= code <= 0x0d
    ||| code == 0x20
    ||| code == 0x85
    ||| code == 0xa0
    ||| code == 0x1680
    ||| 0x2000 <= code <= 0x200a
    ||| code == 0x2028
    ||| code == 0x2029
    ||| code == 0x202f
    ||| code == 0x205f
    ||| code == 0x3000
}

/// `text` without its leading white space.
pub open spec fn trimmed_start(text: Seq<char>) -> Seq<char>
    decreases text.len(),
{
    if text.len() > 0 && is_space(text[0]) {
        trimmed_start(text.drop_first())
    } else {
        text
    }
}

/// `text` without its trailing white space.
pub open spec fn trimmed_end(text: Seq<char>) -> Seq<char>
    decreases text.len(),
{
    if text.len() > 0 && is_space(text.last()) {
        trimmed_end(text.drop_last())
    } else {
        text
    }
}

/// `text` without leading and trailing white space.
pub open spec fn trimmed(text: Seq<char>) -> Seq<char> {
    trimmed_end(trimmed_start(text))
}

/// The pieces with `separator` between each two neighbours.
pub open spec fn joined(pieces: Seq<Seq<char>>, separator: Seq<char>) -> Seq<char>
    decreases pieces.len(),
{
    if pieces.len() == 0 {
        Seq::empty()
    } else if pieces.len() == 1 {
        pieces[0]
    } else {
        joined(pieces.drop_last(), separator) + separator + pieces.last()
    }
}

/// Whether `left` comes before `right`, or equals it, in the order of
/// strings: the first character in which they differ decides, by its code
/// point, and a prefix comes before what it is a prefix of.
pub open spec fn text_le(left: Seq<char>, right: Seq<char>) -> bool
    decreases left.len(),
{
    if left.len() == 0 {
        true
    } else if right.len() == 0 {
        false
    } else if left[0] != right[0] {
        (left[0] as u32) < (right[0] as u32)
    } else {
        text_le(left.drop_first(), right.drop_first())
    }
}

/// Whether `text` begins with `prefix`.
pub open spec fn has_prefix(text: Seq<char>, prefix: Seq<char>) -> bool {
    prefix.len() <= text.len() && text.subrange(0, prefix.len() as int) == prefix
}

/// The decimal digit for a value below ten.
pub open spec fn digit(value: int) -> char {
    (value + 48) as char
}

/// The decimal digits of a natural number, most significant first.
pub open spec fn digits(value: nat) -> Seq<char>
    decreases value,
{
    if value < 10 {
        seq![digit(value as int)]
    } else {
        digits(value / 10).push(digit((value % 10) as int))
    }
}

/// An integer in decimal, with a minus sign where it is negative.
pub open spec fn decimal(value: int) -> Seq<char> {
    if value < 0 {
        seq!['-'] + digits((-value) as nat)
    } else {
        digits(value as nat)
    }
}

/// Whether the character is white space.
pub fn is_white_space(c: char) -> (space: bool)
    ensures
        space == is_space(c),
{
    let code: u32 = c as u32;
    (0x09 <= code && code <= 0x0d) || code == 0x20 || code == 0x85 || code == 0xa0 || code
        == 0x1680 || (0x2000 <= code && code <= 0x200a) || code == 0x2028 || code == 0x2029
        || code == 0x202f || code == 0x205f || code == 0x3000
}

/// The text without the white space at either end.
pub fn trim(text: &str) -> (inner: String)
    ensures
        inner@ == trimmed(text@),
{
    let length: usize = text.unicode_len();
    let mut start: usize = 0;
    assert(text@.skip(0) =~= text@);
    while start < length && is_white_space(text.get_char(start))
        invariant
            start <= length,
            length == text@.len(),
            trimmed_start(text@) == trimmed_start(text@.skip(start as int)),
        decreases length - start,
    {
        assert(text@.skip(start as int)[0] == text@[start as int]);
        assert(text@.skip(start as int).drop_first() =~= text@.skip(start + 1));
        start += 1;
    }
    let ghost rest = text@.skip(start as int);
    assert(trimmed_start(text@) == rest) by {
        if start < length {
            assert(rest[0] == text@[start as int]);
        }
    }
    let mut end: usize = length;
    assert(rest.take(length - start) =~= rest);
    while end > start && is_white_space(text.get_char(end - 1))
        invariant
            start <= end <= length,
            length == text@.len(),
            rest == text@.skip(start as int),
            trimmed_end(rest) == trimmed_end(rest.take(end - start)),
        decreases end,
    {
        assert(rest.take(end - start).last() == text@[end - 1]);
        assert(rest.take(end - start).drop_last() =~= rest.take(end - 1 - start));
        end -= 1;
    }
    assert(trimmed_end(rest) == rest.take(end - start)) by {
        if end > start {
            assert(rest.take(end - start).last() == text@[end - 1]);
        }
    }
    assert(text@.subrange(start as int, end as int) =~= rest.take(end - start));
    text.substring_char(start, end).to_string()
}

/// The digit for a value below ten, as a string.
fn digit_text(value: u32) -> (text: &'static str)
    requires
        value < 10,
    ensures
        text@ == seq![digit(value as int)],
{
    proof {
        reveal_strlit("0");
        reveal_strlit("1");
        reveal_strlit("2");
        reveal_strlit("3");
        reveal_strlit("4");
        reveal_strlit("5");
        reveal_strlit("6");
        reveal_strlit("7");
        reveal_strlit("8");
        reveal_strlit("9");
    }
    let text = if value == 0 {
        "0"
    } else if value == 1 {
        "1"
    } else if value == 2 {
        "2"
    } else if value == 3 {
        "3"
    } else if value == 4 {
        "4"
    } else if value == 5 {
        "5"
    } else if value == 6 {
        "6"
    } else if value == 7 {
        "7"
    } else if value == 8 {
        "8"
    } else {
        "9"
    };
    assert(text@ =~= seq![digit(value as int)]);
    text
}

/// The number in decimal, with a minus sign where it is negative.
pub fn decimal_text(value: i32) -> (text: String)
    ensures
        text@ == decimal(value as int),
{
    let size: u32 = if value < 0 {
        (-(value as i64)) as u32
    } else {
        value as u32
    };
    let mut rest: u32 = size / 10;
    let mut shown = digit_text(size % 10).to_string();
    while rest > 0
        invariant
            rest > 0 ==> digits(size as nat) == digits(rest as nat) + shown@,
            rest == 0 ==> digits(size as nat) == shown@,
        decreases rest,
    {
        let front = digit_text(rest % 10).to_string();
        let ghost before = shown@;
        shown = front.concat(shown.as_str());
        proof {
            if rest < 10 {
                assert(digits(rest as nat) =~= seq![digit(rest as int)]);
            } else {
                assert(digits(rest as nat) =~= digits((rest / 10) as nat).push(
                    digit((rest % 10) as int),
                ));
                assert(digits((rest / 10) as nat).push(digit((rest % 10) as int)) + before
                    =~= digits((rest / 10) as nat) + shown@);
            }
        }
        rest = rest / 10;
    }
    if value < 0 {
        proof {
            reveal_strlit("-");
            assert("-"@ =~= seq!['-']);
        }
        "-".to_string().concat(shown.as_str())
    } else {
        shown
    }
}

/// Whether `left` comes before `right` in the order of strings, or equals it.
pub fn precedes(left: &str, right: &str) -> (le: bool)
    ensures
        le == text_le(left@, right@),
{
    let left_length: usize = left.unicode_len();
    let right_length: usize = right.unicode_len();
    let mut i: usize = 0;
    assert(left@.skip(0) =~= left@);
    assert(right@.skip(0) =~= right@);
    while i < left_length && i < right_length
        invariant
            i <= left_length,
            i <= right_length,
            left_length == left@.len(),
            right_length == right@.len(),
            text_le(left@, right@) == text_le(left@.skip(i as int), right@.skip(i as int)),
        decreases left_length - i,
    {
        let ours = left.get_char(i);
        let theirs = right.get_char(i);
        assert(left@.skip(i as int)[0] == ours);
        assert(right@.skip(i as int)[0] == theirs);
        if ours != theirs {
            return (ours as u32) < (theirs as u32);
        }
        assert(left@.skip(i as int).drop_first() =~= left@.skip(i + 1));
        assert(right@.skip(i as int).drop_first() =~= right@.skip(i + 1));
        i += 1;
    }
    i == left_length
}

/// Joins the pieces with `separator` between them.
pub fn join(pieces: &Vec<String>, separator: &str) -> (text: String)
    ensures
        text@ == joined(views_of(pieces@), separator@),
{
    let mut text = String::new();
    let mut i: usize = 0;
    while i < pieces.len()
        invariant
            i <= pieces.len(),
            text@ == joined(views_of(pieces@).take(i as int), separator@),
        decreases pieces.len() - i,
    {
        let ghost all = views_of(pieces@);
        assert(all.take(i + 1).drop_last() =~= all.take(i as int));
        assert(all.take(i + 1).last() == pieces[i as int]@);
        if i > 0 {
            text.append(separator);
        }
        text.append(pieces[i].as_str());
        assert(text@ =~= joined(all.take(i + 1), separator@)) by {
            if i == 0 {
                assert(joined(all.take(0), separator@) =~= Seq::<char>::empty());
            }
        }
        i += 1;
    }
    assert(views_of(pieces@).take(pieces.len() as int) =~= views_of(
        pieces@,
    ));
    text
}

/// Whether `text` begins with `prefix`.
pub fn starts_with(text: &str, prefix: &str) -> (found: bool)
    ensures
        found == has_prefix(text@, prefix@),
{
    let wanted: usize = prefix.unicode_len();
    if text.unicode_len() < wanted {
        return false;
    }
    let mut i: usize = 0;
    while i < wanted
        invariant
            i <= wanted,
            wanted == prefix@.len(),
            wanted <= text@.len(),
            text@.subrange(0, i as int) == prefix@.subrange(0, i as int),
        decreases wanted - i,
    {
        if text.get_char(i) != prefix.get_char(i) {
            assert(text@.subrange(0, wanted as int)[i as int] != prefix@[i as int]);
            return false;
        }
        assert(text@.subrange(0, i + 1) =~= text@.subrange(0, i as int).push(text@[i as int]));
        assert(prefix@.subrange(0, i + 1) =~= prefix@.subrange(0, i as int).push(
            prefix@[i as int],
        ));
        i += 1;
    }
    assert(prefix@.subrange(0, wanted as int) =~= prefix@);
    true
}

/// Of two strings, one comes before the other or they are equal.
pub proof fn lemma_text_le_total(left: Seq<char>, right: Seq<char>)
    ensures
        text_le(left, right) || text_le(right, left),
    decreases left.len(),
{
    if left.len() > 0 && right.len() > 0 {
        if left[0] == right[0] {
            lemma_text_le_total(left.drop_first(), right.drop_first());
        } else {
            vstd::utf8::char_u32_cast(left[0], left[0] as u32);
            vstd::utf8::char_u32_cast(right[0], right[0] as u32);
        }
    }
}

/// The order of strings is transitive.
pub proof fn lemma_text_le_transitive(first: Seq<char>, second: Seq<char>, third: Seq<char>)
    requires
        text_le(first, second),
        text_le(second, third),
    ensures
        text_le(first, third),
    decreases first.len(),
{
    if first.len() > 0 && second.len() > 0 && third.len() > 0 {
        if first[0] == second[0] && second[0] == third[0] {
            lemma_text_le_transitive(
                first.drop_first(),
                second.drop_first(),
                third.drop_first(),
            );
        }
    }
}

} // verus!
