//! Per-guild named counters: the replies of the `inc_*` commands and the counting rule.

use vstd::prelude::*;
use crate::command::CommanderError;
use crate::text::{joined, join_strings, push_signed_decimal, push_str, signed_decimal, string_views};

verus! {

/// The longest name an incrementer may have.
pub const MAX_NAME_LEN: usize = 100;

/// The reply when an incrementer is created.
pub open spec fn created_text(name: Seq<char>, init: int) -> Seq<char> {
    "Created new incrementer "@ + name + " with count "@ + signed_decimal(init)
}

/// The reply when an incrementer of that name already exists.
pub open spec fn already_exists_text() -> Seq<char> {
    "An incrementer already exists with that name."@
}

/// The error text when no incrementer has the name.
pub open spec fn not_found_text(name: Seq<char>) -> Seq<char> {
    "No incrementer called "@ + name
}

/// The reply after creating an incrementer: `inserted` tells whether a new row was written.
pub fn create_reply(name: &str, init: i64, inserted: bool) -> (s: String)
    ensures
        inserted ==> s@ == created_text(name@, init as int),
        !inserted ==> s@ == already_exists_text(),
{
    if inserted {
        let mut s = String::new();
        push_str(&mut s, "Created new incrementer ");
        push_str(&mut s, name);
        push_str(&mut s, " with count ");
        push_signed_decimal(&mut s, init);
        s
    } else {
        proof { reveal_strlit("An incrementer already exists with that name."); }
        String::from_str("An incrementer already exists with that name.")
    }
}

/// The error for a missing incrementer.
pub fn not_found(name: &str) -> (e: CommanderError)
    ensures
        e matches CommanderError::RuntimeError(m) && m@ == not_found_text(name@),
{
    let mut s = String::new();
    push_str(&mut s, "No incrementer called ");
    push_str(&mut s, name);
    CommanderError::RuntimeError(s)
}

/// The value an incrementer takes when incremented: one more than its current value, which
/// must exist.
pub fn next_count(current: Option<i64>, name: &str) -> (r: Result<i64, CommanderError>)
    requires
        current matches Some(c) ==> c < i64::MAX,
    ensures
        current matches Some(c) ==> r == Ok::<i64, CommanderError>((c + 1) as i64),
        current is None ==> (r matches Err(CommanderError::RuntimeError(m)) && m@
            == not_found_text(name@)),
{
    match current {
        Some(c) => Ok(c + 1),
        None => Err(not_found(name)),
    }
}

/// The reply after incrementing.
pub open spec fn incremented_text(name: Seq<char>, value: int) -> Seq<char> {
    name + " is now "@ + signed_decimal(value)
}

/// The reply after incrementing `name` to `value`.
pub fn incremented_reply(name: &str, value: i64) -> (s: String)
    ensures
        s@ == incremented_text(name@, value as int),
{
    let mut s = String::new();
    push_str(&mut s, name);
    push_str(&mut s, " is now ");
    push_signed_decimal(&mut s, value);
    s
}

/// The reply showing an incrementer's value.
pub open spec fn value_text(name: Seq<char>, value: int) -> Seq<char> {
    name + " incremented "@ + signed_decimal(value) + " time(s)"@
}

/// The reply showing the value of `name`.
pub fn value_reply(name: &str, value: i64) -> (s: String)
    ensures
        s@ == value_text(name@, value as int),
{
    let mut s = String::new();
    push_str(&mut s, name);
    push_str(&mut s, " incremented ");
    push_signed_decimal(&mut s, value);
    push_str(&mut s, " time(s)");
    s
}

/// The reply listing the guild's incrementers.
pub open spec fn list_text(names: Seq<Seq<char>>) -> Seq<char> {
    if names.len() > 0 {
        "Incrementers:\n    "@ + joined(names, "\n    "@)
    } else {
        "There are no incrementers."@
    }
}

/// The reply listing the incrementers `names`, one per indented line.
pub fn list_reply(names: &Vec<String>) -> (s: String)
    ensures
        s@ == list_text(string_views(names@)),
{
    if names.len() > 0 {
        let mut s = String::new();
        push_str(&mut s, "Incrementers:\n    ");
        let rest = join_strings(names, "\n    ");
        push_str(&mut s, rest.as_str());
        s
    } else {
        proof { reveal_strlit("There are no incrementers."); }
        String::from_str("There are no incrementers.")
    }
}

/// The reply after deleting: `deleted` rows were removed.
pub open spec fn delete_text(name: Seq<char>, deleted: nat) -> Seq<char> {
    if deleted > 0 {
        "Deleted "@ + name
    } else {
        not_found_text(name)
    }
}

/// The reply after deleting the incrementer `name`, given how many rows went.
pub fn delete_reply(name: &str, deleted: usize) -> (s: String)
    ensures
        s@ == delete_text(name@, deleted as nat),
{
    let mut s = String::new();
    if deleted > 0 {
        push_str(&mut s, "Deleted ");
    } else {
        push_str(&mut s, "No incrementer called ");
    }
    push_str(&mut s, name);
    s
}

} // verus!
