//! The names and the first lines of the files of a new migration.

use vstd::prelude::*;
use vstd::string::StringExecFns;
use crate::clock::local_time;
use crate::text::{
    chars_of, find, first_at, lemma_first_at_is_unique, occurs, padded_decimal,
    padded_decimal_digits, parse_usize, parse_usize_spec,
};

verus! {

/// The number that a directory of a migration carries in front of its name:
/// what stands before the first `-`, where that is a decimal number that fits
/// 32 bits. A name without `-` carries none.
pub open spec fn sequence_number_spec(name: Seq<char>) -> Option<u32> {
    if !occurs(name, '-') {
        None
    } else {
        let at = choose|at: int| first_at(name, '-', at);
        match parse_usize_spec(name.take(at)) {
            Some(v) => if v <= u32::MAX {
                Some(v as u32)
            } else {
                None
            },
            None => None,
        }
    }
}

/// The number that the directory named `name` carries.
pub fn sequence_number(name: &str) -> (r: Option<u32>)
    ensures
        r == sequence_number_spec(name@),
{
    let chars = chars_of(name);
    let at = find(&chars, '-');
    if at == chars.len() {
        return None;
    }
    proof {
        assert(occurs(chars@, '-'));
        let chosen = choose|at: int| first_at(chars@, '-', at);
        lemma_first_at_is_unique(chars@, '-', chosen, at as int);
    }
    match parse_usize(&chars, at) {
        Some(v) => if v <= 0xffff_ffff {
            Some(v as u32)
        } else {
            None
        },
        None => None,
    }
}

/// Whether `max` is the largest number that one of `names` carries, or 0
/// where none carries a number.
pub open spec fn is_last_sequence_number(names: Seq<String>, max: u32) -> bool {
    &&& forall|i: int|
        0 <= i < names.len() ==> (sequence_number_spec(#[trigger] names[i]@) matches Some(v) ==> v
            <= max)
    &&& max == 0 || exists|i: int|
        0 <= i < names.len() && sequence_number_spec(#[trigger] names[i]@) == Some(max)
}

/// The largest number that one of the directories named `names` carries, or 0.
pub fn last_sequence_number(names: &Vec<String>) -> (max: u32)
    ensures
        is_last_sequence_number(names@, max),
{
    let mut max: u32 = 0;
    let mut i: usize = 0;
    while i < names.len()
        invariant
            i <= names.len(),
            is_last_sequence_number(names@.take(i as int), max),
        decreases names.len() - i,
    {
        let ghost seen = names@.take(i as int);
        let ghost grown = names@.take(i + 1);
        let ghost old_max = max;
        if let Some(v) = sequence_number(names[i].as_str()) {
            if v > max {
                max = v;
            }
        }
        proof {
            assert(grown[i as int] == names@[i as int]);
            assert forall|j: int| 0 <= j < grown.len() implies (sequence_number_spec(
                #[trigger] grown[j]@,
            ) matches Some(v) ==> v <= max) by {
                if j < i {
                    assert(seen[j] == grown[j]);
                }
            }
            if max != 0 {
                if max == old_max {
                    let j = choose|j: int|
                        0 <= j < seen.len() && sequence_number_spec(#[trigger] seen[j]@) == Some(
                            max,
                        );
                    assert(grown[j] == seen[j]);
                } else {
                    assert(sequence_number_spec(grown[i as int]@) == Some(max));
                }
            }
        }
        i = i + 1;
    }
    proof {
        assert(names@.take(names.len() as int) =~= names@);
    }
    max
}

/// The number for a new migration beside the directories named `names`: one
/// more than the largest that they carry. `None` where that does not fit 32
/// bits.
pub fn next_sequence_number(names: &Vec<String>) -> (next: Option<u32>)
    ensures
        match next {
            Some(n) => n >= 1 && is_last_sequence_number(names@, (n - 1) as u32),
            None => is_last_sequence_number(names@, u32::MAX),
        },
{
    last_sequence_number(names).checked_add(1)
}

/// A `-` or a space becomes a `_`; every other character stays.
pub open spec fn underscored(c: char) -> char {
    if c == '-' || c == ' ' {
        '_'
    } else {
        c
    }
}

/// How much of `s` is left when every `_` at its end is taken away, a `-` or
/// a space counting as a `_`.
pub open spec fn trimmed_len(s: Seq<char>) -> nat
    decreases s.len(),
{
    if s.len() > 0 && underscored(s.last()) == '_' {
        trimmed_len(s.drop_last())
    } else {
        s.len()
    }
}

/// The name of the directory of a new migration: the number in four digits
/// or more, a `-`, and the migration's name with `_` for each `-` and each
/// space, and without any `_` at its end.
pub open spec fn folder_name_spec(sequence_number: u32, migration_name: Seq<char>) -> Seq<char> {
    padded_decimal_digits(sequence_number as nat, 4) + seq!['-'] + migration_name.take(
        trimmed_len(migration_name) as int,
    ).map_values(|c: char| underscored(c))
}

/// The name of the directory of the migration `migration_name` with the
/// number `sequence_number`.
pub fn folder_name(sequence_number: u32, migration_name: &str) -> (name: String)
    ensures
        name@ == folder_name_spec(sequence_number, migration_name@),
{
    let chars = chars_of(migration_name);
    let mut end: usize = chars.len();
    proof {
        assert(chars@.take(end as int) =~= chars@);
    }
    while end > 0 && (chars[end - 1] == '_' || chars[end - 1] == '-' || chars[end - 1] == ' ')
        invariant
            end <= chars.len(),
            trimmed_len(chars@) == trimmed_len(chars@.take(end as int)),
        decreases end,
    {
        proof {
            assert(chars@.take(end as int).drop_last() =~= chars@.take(end - 1));
        }
        end = end - 1;
    }
    proof {
        if end > 0 {
            assert(chars@.take(end as int).last() == chars@[end - 1]);
        }
        assert(trimmed_len(chars@) == end);
    }
    let mut name = padded_decimal(sequence_number as usize, 4);
    name.push('-');
    let ghost head = name@;
    let ghost kept = chars@.take(end as int);
    let mut i: usize = 0;
    while i < end
        invariant
            i <= end <= chars.len(),
            kept == chars@.take(end as int),
            name@ == head + kept.take(i as int).map_values(|c: char| underscored(c)),
        decreases end - i,
    {
        let c = chars[i];
        let u = if c == '-' || c == ' ' {
            '_'
        } else {
            c
        };
        name.push(u);
        i = i + 1;
        assert(name@ =~= head + kept.take(i as int).map_values(|c: char| underscored(c)));
    }
    proof {
        assert(kept.take(end as int) =~= kept);
    }
    name
}

/// The line that a new script begins with: a comment that says which way the
/// script goes, which migration it belongs to and when it was made.
pub open spec fn placeholder_text(
    up_or_down: Seq<char>,
    folder_name: Seq<char>,
    current_date: Seq<char>,
) -> Seq<char> {
    "-- "@ + up_or_down + " migration `"@ + folder_name + "` generated at "@ + current_date
        + "."@
}

/// The line that a new script begins with.
pub fn placeholder(up_or_down: &str, folder_name: &str, current_date: &str) -> (text: String)
    ensures
        text@ == placeholder_text(up_or_down@, folder_name@, current_date@),
{
    let mut text = "-- ".to_owned();
    text.append(up_or_down);
    text.append(" migration `");
    text.append(folder_name);
    text.append("` generated at ");
    text.append(current_date);
    text.append(".");
    text
}

/// The lines that the two scripts of a new migration begin with, the forward
/// script first. Both carry the same date, that of the call.
pub fn placeholders(folder_name: &str) -> (texts: (String, String))
    ensures
        exists|current_date: Seq<char>|
            {
                &&& texts.0@ == #[trigger] placeholder_text("Up"@, folder_name@, current_date)
                &&& texts.1@ == placeholder_text("Down"@, folder_name@, current_date)
            },
{
    let current_date = local_time("%Y-%m-%d %H:%M:%S");
    let up = placeholder("Up", folder_name, current_date.as_str());
    let down = placeholder("Down", folder_name, current_date.as_str());
    proof {
        assert(up@ == placeholder_text("Up"@, folder_name@, current_date@));
    }
    (up, down)
}

} // verus!
