//! Values in texts of separated keys and values, and in JSON.

use vstd::prelude::*;

use crate::error::{Error, ErrorView};
use crate::text::{
    parts_of_a_text_are_found, prefix_and_rest_are_the_text, trimming_leaves_what_is_between,
    white_space,
};
use crate::text::{split, split_text, strip_prefix, texts, trim, trimmed, without_prefix};

verus! {

/// The value in `part`, if it begins with `key` and then `inter_key_val`, white
/// space around the two and the value being left aside.
pub open spec fn part_value(
    part: Seq<char>,
    key: Seq<char>,
    inter_key_val: Seq<char>,
) -> Option<Seq<char>> {
    match strip_prefix(trimmed(part), key) {
        None => None,
        Some(x) => match strip_prefix(trimmed(x), inter_key_val) {
            None => None,
            Some(y) => Some(trimmed(y)),
        },
    }
}

/// The value in the first of the parts that has one.
pub open spec fn first_value(
    parts: Seq<Seq<char>>,
    key: Seq<char>,
    inter_key_val: Seq<char>,
) -> Option<Seq<char>>
    decreases parts.len(),
{
    if parts.len() == 0 {
        None
    } else {
        match part_value(parts[0], key, inter_key_val) {
            Some(v) => Some(v),
            None => first_value(parts.skip(1), key, inter_key_val),
        }
    }
}

/// First, this splits by `separate`, trims outer whitespace, sees if `key` is
/// prefixed, if so it also strips `inter_key_val` and returns the stripped and
/// trimmed value.
pub fn get_separated_val(
    input: &str,
    separate: &str,
    key: &str,
    inter_key_val: &str,
) -> (r: Result<String, Error>)
    ensures
        match first_value(split(input@, separate@), key@, inter_key_val@) {
            Some(v) => r is Ok && r->Ok_0@ == v,
            None => r is Err && r->Err_0@ == ErrorView::message(
                "get_separated_val() -> key \""@ + key@ + "\" not found"@,
            ),
        },
{
    let parts: Vec<String> = split_text(input, separate);
    let ghost all = texts(parts@);
    let mut i: usize = 0;
    assert(all.skip(0) =~= all);
    while i < parts.len()
        invariant
            i <= parts@.len(),
            all == texts(parts@),
            all == split(input@, separate@),
            first_value(all, key@, inter_key_val@) == first_value(
                all.skip(i as int),
                key@,
                inter_key_val@,
            ),
        decreases parts@.len() - i,
    {
        assert(all.skip(i as int)[0] == parts@[i as int]@);
        assert(all.skip(i as int).skip(1) =~= all.skip(i + 1));
        if let Some(x) = without_prefix(trim(parts[i].as_str()).as_str(), key) {
            if let Some(y) = without_prefix(trim(x.as_str()).as_str(), inter_key_val) {
                return Ok(trim(y.as_str()));
            }
        }
        i = i + 1;
    }
    let mut text: String = "get_separated_val() -> key \"".to_owned();
    text.append(key);
    text.append("\" not found");
    Err(Error::from_text(text))
}

/// All the characters are white space.
pub open spec fn is_blank(s: Seq<char>) -> bool {
    forall|i: int| 0 <= i < s.len() ==> white_space(#[trigger] s[i])
}

/// The value of a part is what stands behind the key and what comes between the two,
/// whatever white space is around the three.
pub proof fn value_is_found_behind_its_key(
    a: Seq<char>,
    key: Seq<char>,
    b: Seq<char>,
    inter_key_val: Seq<char>,
    c: Seq<char>,
    value: Seq<char>,
    d: Seq<char>,
)
    requires
        is_blank(a) && is_blank(b) && is_blank(c) && is_blank(d),
        key.len() > 0 && !white_space(key[0]),
        inter_key_val.len() > 0 && !white_space(inter_key_val[0]),
        value.len() > 0 && !white_space(value[0]) && !white_space(value.last()),
    ensures
        part_value(a + key + b + inter_key_val + c + value + d, key, inter_key_val) == Some(value),
{
    let none = Seq::<char>::empty();
    let part = a + key + b + inter_key_val + c + value + d;
    let y = c + value;
    let x = inter_key_val + y;
    let t = key + (b + x);
    assert(part =~= a + t + d);
    assert(t.last() == value.last());
    assert(t[0] == key[0]);
    trimming_leaves_what_is_between(a, t, d);
    parts_of_a_text_are_found(none, key, b + x);
    assert(x.last() == value.last());
    assert(x[0] == inter_key_val[0]);
    trimming_leaves_what_is_between(b, x, none);
    assert(b + x + none =~= b + x);
    parts_of_a_text_are_found(none, inter_key_val, y);
    trimming_leaves_what_is_between(c, value, none);
    assert(c + value + none =~= y);
}

/// A part has no value if it does not begin with the key, white space aside.
pub proof fn parts_without_the_key_have_no_value(
    part: Seq<char>,
    key: Seq<char>,
    inter_key_val: Seq<char>,
)
    requires
        !(trimmed(part).len() >= key.len() && trimmed(part).take(key.len() as int) == key),
    ensures
        part_value(part, key, inter_key_val) is None,
{
    prefix_and_rest_are_the_text(trimmed(part), key);
}

/// The value that is found is that of the first part that has one.
pub proof fn first_part_with_a_value_counts(
    parts: Seq<Seq<char>>,
    key: Seq<char>,
    inter_key_val: Seq<char>,
)
    ensures
        match first_value(parts, key, inter_key_val) {
            Some(v) => exists|k: int|
                {
                    &&& 0 <= k < parts.len()
                    &&& part_value(#[trigger] parts[k], key, inter_key_val) == Some(v)
                    &&& forall|j: int|
                        0 <= j < k ==> part_value(#[trigger] parts[j], key, inter_key_val) is None
                },
            None => forall|j: int|
                0 <= j < parts.len() ==> part_value(#[trigger] parts[j], key, inter_key_val)
                    is None,
        },
    decreases parts.len(),
{
    if parts.len() > 0 {
        let rest = parts.skip(1);
        first_part_with_a_value_counts(rest, key, inter_key_val);
        if part_value(parts[0], key, inter_key_val) is None {
            match first_value(parts, key, inter_key_val) {
                Some(v) => {
                    let k = choose|k: int|
                        {
                            &&& 0 <= k < rest.len()
                            &&& part_value(#[trigger] rest[k], key, inter_key_val) == Some(v)
                            &&& forall|j: int|
                                0 <= j < k ==> part_value(#[trigger] rest[j], key, inter_key_val)
                                    is None
                        };
                    assert(parts[k + 1] == rest[k]);
                    assert forall|j: int| 0 <= j < k + 1 implies part_value(
                        #[trigger] parts[j],
                        key,
                        inter_key_val,
                    ) is None by {
                        if j > 0 {
                            assert(rest[j - 1] == parts[j]);
                        }
                    }
                },
                None => {
                    assert forall|j: int| 0 <= j < parts.len() implies part_value(
                        #[trigger] parts[j],
                        key,
                        inter_key_val,
                    ) is None by {
                        if j > 0 {
                            assert(rest[j - 1] == parts[j]);
                        }
                    }
                },
            }
        } else {
            assert(part_value(parts[0], key, inter_key_val) is Some);
        }
    }
}

} // verus!
