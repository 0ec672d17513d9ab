//! Checks on what callers hand in: lengths of names, the shape of an email
//! address, the type of a file. Text is trimmed of white space before it is
//! measured.

use crate::logging::{decimal_text, push_decimal, text_is};
use vstd::prelude::*;
use vstd::string::*;

verus! {

/// Whether `c` is white space: the characters with the Unicode property
/// White_Space.
pub open spec fn is_white(c: char) -> bool {
    let code = c as u32;
    (0x09 <= code <= 0x0d) || code == 0x20 || code == 0x85 || code == 0xa0 || code == 0x1680 || (
    0x2000 <= code <= 0x200a) || code == 0x2028 || code == 0x2029 || code == 0x202f || code
        == 0x205f || code == 0x3000
}

/// Whether `c` is white space.
pub fn is_white_space(c: char) -> (yes: bool)
    ensures
        yes == is_white(c),
{
    let code = c as u32;
    (0x09 <= code && code <= 0x0d) || code == 0x20 || code == 0x85 || code == 0xa0 || code
        == 0x1680 || (0x2000 <= code && code <= 0x200a) || code == 0x2028 || code == 0x2029
        || code == 0x202f || code == 0x205f || code == 0x3000
}

/// The place of the first character of `text` that is not white space; the
/// length of `text` if there is none.
pub open spec fn trim_start(text: Seq<char>) -> int
    decreases text.len(),
{
    if text.len() == 0 || !is_white(text[0]) {
        0
    } else {
        1 + trim_start(text.skip(1))
    }
}

/// The place after the last character of `text` that is not white space; 0
/// if there is none.
pub open spec fn trim_end(text: Seq<char>) -> int
    decreases text.len(),
{
    if text.len() == 0 || !is_white(text.last()) {
        text.len() as int
    } else {
        trim_end(text.drop_last())
    }
}

/// `text` without the white space at its two ends.
pub open spec fn trimmed(text: Seq<char>) -> Seq<char> {
    if trim_start(text) >= trim_end(text) {
        Seq::empty()
    } else {
        text.subrange(trim_start(text), trim_end(text))
    }
}

/// Where the leading white space ends.
pub proof fn lemma_trim_start(text: Seq<char>, i: int)
    requires
        0 <= i <= text.len(),
        forall|j: int| 0 <= j < i ==> is_white(text[j]),
        i == text.len() || !is_white(text[i]),
    ensures
        trim_start(text) == i,
    decreases text.len(),
{
    if i > 0 {
        let rest = text.skip(1);
        assert forall|j: int| 0 <= j < i - 1 implies is_white(rest[j]) by {
            assert(rest[j] == text[j + 1]);
        }
        lemma_trim_start(rest, i - 1);
    }
}

/// Where the trailing white space starts.
pub proof fn lemma_trim_end(text: Seq<char>, i: int)
    requires
        0 <= i <= text.len(),
        forall|j: int| i <= j < text.len() ==> is_white(text[j]),
        i == 0 || !is_white(text[i - 1]),
    ensures
        trim_end(text) == i,
    decreases text.len(),
{
    if i < text.len() {
        let rest = text.drop_last();
        lemma_trim_end(rest, i);
    }
}

/// `text` without the white space at its two ends.
pub fn trim(text: &str) -> (inner: &str)
    ensures
        inner@ == trimmed(text@),
{
    let len = text.unicode_len();
    let mut start: usize = 0;
    while start < len && is_white_space(text.get_char(start))
        invariant
            start <= len,
            len == text@.len(),
            forall|j: int| 0 <= j < start ==> is_white(text@[j]),
        decreases len - start,
    {
        start += 1;
    }
    let mut end: usize = len;
    while end > 0 && is_white_space(text.get_char(end - 1))
        invariant
            end <= len,
            len == text@.len(),
            forall|j: int| end <= j < len ==> is_white(text@[j]),
        decreases end,
    {
        end -= 1;
    }
    proof {
        lemma_trim_start(text@, start as int);
        lemma_trim_end(text@, end as int);
    }
    if start >= end {
        let inner = text.substring_char(0, 0);
        assert(inner@ =~= Seq::<char>::empty());
        inner
    } else {
        text.substring_char(start, end)
    }
}

/// Whether `text` holds the character `c`.
pub fn has_char(text: &str, c: char) -> (yes: bool)
    ensures
        yes == text@.contains(c),
{
    let len = text.unicode_len();
    let mut i: usize = 0;
    while i < len
        invariant
            i <= len,
            len == text@.len(),
            forall|j: int| 0 <= j < i ==> text@[j] != c,
        decreases len - i,
    {
        if text.get_char(i) == c {
            return true;
        }
        i += 1;
    }
    false
}

/// The length of `text` in bytes of UTF-8.
pub open spec fn byte_len(text: Seq<char>) -> nat {
    vstd::utf8::encode_utf8(text).len()
}

/// What the length check says when it fails.
pub open spec fn length_message(field_name: Seq<char>, min: usize, max: usize) -> Seq<char> {
    field_name + " must be between "@ + decimal_text(min as nat) + " and "@ + decimal_text(
        max as nat,
    ) + " characters (after trimming whitespace)"@
}

/// Checks that `value`, trimmed, is between `min` and `max` bytes long.
pub fn validate_string_length(value: &str, min: usize, max: usize, field_name: &str) -> (outcome:
    Result<(), String>)
    ensures
        outcome.is_ok() == (min <= byte_len(trimmed(value@)) <= max),
        outcome.is_err() ==> outcome.unwrap_err()@ == length_message(field_name@, min, max),
{
    let inner = trim(value);
    let len = inner.as_bytes().len();
    if len < min || len > max {
        let mut message = String::from_str(field_name);
        message.append(" must be between ");
        push_decimal(&mut message, min as u64);
        message.append(" and ");
        push_decimal(&mut message, max as u64);
        message.append(" characters (after trimming whitespace)");
        return Err(message);
    }
    Ok(())
}

/// What the check of an email address comes to: the length is checked first,
/// then that the address holds an `@` and a dot.
pub open spec fn email_outcome(email: Seq<char>) -> Result<(), Seq<char>> {
    let inner = trimmed(email);
    if byte_len(inner) < 5 || byte_len(inner) > 100 {
        Err("Email must be between 5 and 100 characters (after trimming whitespace)"@)
    } else if !inner.contains('@') || !inner.contains('.') {
        Err("Invalid email format"@)
    } else {
        Ok(())
    }
}

/// What a result with a text as its error holds.
pub open spec fn outcome_view(outcome: Result<(), String>) -> Result<(), Seq<char>> {
    match outcome {
        Ok(_) => Ok(()),
        Err(message) => Err(message@),
    }
}

/// Checks the shape of an email address: trimmed, it is 5 to 100 bytes long
/// and holds an `@` and a dot.
pub fn validate_email(email: &str) -> (outcome: Result<(), String>)
    ensures
        outcome_view(outcome) == email_outcome(email@),
{
    let inner = trim(email);
    let len = inner.as_bytes().len();
    if len < 5 || len > 100 {
        return Err(
            String::from_str(
                "Email must be between 5 and 100 characters (after trimming whitespace)",
            ),
        );
    }
    if !has_char(inner, '@') || !has_char(inner, '.') {
        return Err(String::from_str("Invalid email format"));
    }
    Ok(())
}

/// What a list of texts holds.
pub open spec fn names_view(names: Seq<&str>) -> Seq<Seq<char>> {
    Seq::new(names.len(), |i: int| names[i]@)
}

/// The texts with ", " between them.
pub open spec fn joined(names: Seq<Seq<char>>) -> Seq<char>
    decreases names.len(),
{
    if names.len() == 0 {
        Seq::empty()
    } else if names.len() == 1 {
        names[0]
    } else {
        joined(names.drop_last()) + ", "@ + names.last()
    }
}

/// Checks that `file_type`, trimmed, is one of the allowed types.
pub fn validate_file_type(file_type: &str, allowed_types: &[&str]) -> (outcome: Result<(), String>)
    ensures
        outcome.is_ok() == names_view(allowed_types@).contains(trimmed(file_type@)),
        outcome.is_err() ==> outcome.unwrap_err()@ == "Unsupported file type. Allowed types: "@
            + joined(names_view(allowed_types@)),
{
    let inner = trim(file_type);
    let ghost names = names_view(allowed_types@);
    let mut i: usize = 0;
    while i < allowed_types.len()
        invariant
            i <= allowed_types@.len(),
            names == names_view(allowed_types@),
            inner@ == trimmed(file_type@),
            forall|j: int| 0 <= j < i ==> names[j] != inner@,
        decreases allowed_types@.len() - i,
    {
        if text_is(allowed_types[i], inner) {
            assert(names[i as int] == inner@);
            assert(names.contains(inner@));
            return Ok(());
        }
        i += 1;
    }
    let mut message = String::from_str("Unsupported file type. Allowed types: ");
    let ghost head = message@;
    let mut k: usize = 0;
    assert(message@ =~= head + joined(names.take(0)));
    while k < allowed_types.len()
        invariant
            k <= allowed_types@.len(),
            names == names_view(allowed_types@),
            message@ == head + joined(names.take(k as int)),
        decreases allowed_types@.len() - k,
    {
        proof {
            assert(names.take(k + 1).drop_last() =~= names.take(k as int));
            assert(names.take(k + 1).last() == allowed_types@[k as int]@);
            assert(names.take(k + 1)[0] == names[0]);
        }
        if k > 0 {
            message.append(", ");
        }
        message.append(allowed_types[k]);
        assert(message@ =~= head + joined(names.take(k + 1)));
        k += 1;
    }
    assert(names.take(k as int) =~= names);
    Err(message)
}

} // verus!
