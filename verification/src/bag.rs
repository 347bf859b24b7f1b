//! The guild bag: items go in, and come out at random.

use vstd::prelude::*;
use crate::command::CommanderError;
use crate::filters::{utf8_len, utf8_longer_than};
use crate::text::{decimal, joined, join_strings, push_decimal, push_str, string_views};

verus! {

/// The most items the bag holds.
pub const BAG_MAX_ITEMS: usize = 10;

/// The most UTF-8 bytes an item may take.
pub const BAG_ITEM_MAX_SIZE: usize = 50;

/// Why the bag refused.
#[derive(Debug, Clone)]
pub enum BagError {
    /// The bag is full; it holds this many items.
    BagFull(usize),
    /// The bag is empty.
    BagEmpty,
}

/// The text of a [`BagError`].
pub open spec fn bag_error_text(e: BagError) -> Seq<char> {
    match e {
        BagError::BagFull(n) => "The bag is full. It can only hold "@ + decimal(n as nat)
            + " items."@,
        BagError::BagEmpty => "The bag is empty."@,
    }
}

impl BagError {
    /// The error's text.
    pub fn message(&self) -> (s: String)
        ensures
            s@ == bag_error_text(*self),
    {
        match self {
            BagError::BagFull(n) => {
                let mut s = String::new();
                push_str(&mut s, "The bag is full. It can only hold ");
                push_decimal(&mut s, *n as u64);
                push_str(&mut s, " items.");
                s
            },
            BagError::BagEmpty => {
                proof { reveal_strlit("The bag is empty."); }
                String::from_str("The bag is empty.")
            },
        }
    }
}

/// The error text for an item that is too big.
pub open spec fn too_big_text() -> Seq<char> {
    "Item is too big!"@
}

/// An item may go in the bag only if it takes at most [`BAG_ITEM_MAX_SIZE`] bytes.
pub fn check_item(item: &str) -> (r: Result<(), CommanderError>)
    ensures
        utf8_len(item@) <= BAG_ITEM_MAX_SIZE ==> r is Ok,
        utf8_len(item@) > BAG_ITEM_MAX_SIZE ==> (r matches Err(CommanderError::RuntimeError(m))
            && m@ == too_big_text()),
{
    if utf8_longer_than(item, BAG_ITEM_MAX_SIZE) {
        proof { reveal_strlit("Item is too big!"); }
        Err(CommanderError::RuntimeError(String::from_str("Item is too big!")))
    } else {
        Ok(())
    }
}

/// The reply after adding an item: the database's error text, or a confirmation.
pub fn add_reply(res: Result<(), String>) -> (s: String)
    ensures
        res matches Err(m) ==> s@ == m@,
        res is Ok ==> s@ == "Added item to bag."@,
{
    match res {
        Err(m) => m,
        Ok(()) => {
            proof { reveal_strlit("Added item to bag."); }
            String::from_str("Added item to bag.")
        },
    }
}

/// The reply showing the bag's items.
pub open spec fn show_text(items: Seq<Seq<char>>) -> Seq<char> {
    if items.len() > 0 {
        "Bag contains:\n"@ + "    "@ + joined(items, "\n    "@)
    } else {
        "The bag is empty."@
    }
}

/// The reply showing the items in the bag, one per indented line.
pub fn show_reply(items: &Vec<String>) -> (s: String)
    ensures
        s@ == show_text(string_views(items@)),
{
    if items.len() > 0 {
        let mut s = String::new();
        push_str(&mut s, "Bag contains:");
        push_str(&mut s, "\n");
        push_str(&mut s, "    ");
        let rest = join_strings(items, "\n    ");
        push_str(&mut s, rest.as_str());
        proof {
            reveal_strlit("Bag contains:");
            reveal_strlit("\n");
            reveal_strlit("Bag contains:\n");
        }
        s
    } else {
        proof { reveal_strlit("The bag is empty."); }
        String::from_str("The bag is empty.")
    }
}

/// The reply after throwing an item out: the item, or the database's error text.
pub open spec fn yeet_text(res: Result<Seq<char>, Seq<char>>) -> Seq<char> {
    match res {
        Ok(item) => "Yeeted a(n) "@ + item,
        Err(m) => m,
    }
}

/// The reply after throwing the item out, or failing to.
pub fn yeet_reply(res: Result<String, String>) -> (s: String)
    ensures
        s@ == yeet_text(
            match res {
                Ok(i) => Ok(i@),
                Err(m) => Err(m@),
            },
        ),
{
    match res {
        Ok(item) => {
            let mut s = String::new();
            push_str(&mut s, "Yeeted a(n) ");
            push_str(&mut s, item.as_str());
            s
        },
        Err(m) => m,
    }
}

} // verus!
