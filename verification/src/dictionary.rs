//! The `define` command: which dictionary definitions are shown, and how they are labelled.

use vstd::prelude::*;
use crate::text::{decimal, push_decimal, push_str, str_eq};

verus! {

/// The most fields a Discord embed holds.
pub const DISCORD_EMBED_FIELD_LIMIT: u64 = 25;

/// The setting that limits how many definitions are shown.
pub const DEFINES_LIMIT_KEY: &'static str = "defines_limit";

/// The `define` command.
pub struct Define;

/// A definition from the dictionary: its part of speech and its text.
pub open spec fn def_view(d: (String, String)) -> (Seq<char>, Seq<char>) {
    (d.0@, d.1@)
}

/// Whether a definition of part of speech `p` is wanted: all are when no part was asked for.
pub open spec fn wanted(pos: Seq<Seq<char>>, p: Seq<char>) -> bool {
    pos.len() == 0 || pos.contains(p)
}

/// The definitions of the wanted parts of speech, in order.
pub open spec fn kept(rows: Seq<(Seq<char>, Seq<char>)>, pos: Seq<Seq<char>>) -> Seq<
    (Seq<char>, Seq<char>),
>
    decreases rows.len(),
{
    if rows.len() == 0 {
        Seq::empty()
    } else if wanted(pos, rows.last().0) {
        kept(rows.drop_last(), pos).push(rows.last())
    } else {
        kept(rows.drop_last(), pos)
    }
}

/// The field shown for the wanted definition at `index`: its number (counting from one)
/// and part of speech, and its text.
pub open spec fn labelled(index: int, d: (Seq<char>, Seq<char>)) -> (Seq<char>, Seq<char>) {
    (decimal((index + 1) as nat) + ": "@ + d.0, d.1)
}

/// The fields shown: the wanted definitions, numbered, after skipping `skip` of them, at
/// most `limit` of them.
pub open spec fn shown(
    rows: Seq<(Seq<char>, Seq<char>)>,
    pos: Seq<Seq<char>>,
    skip: int,
    limit: int,
) -> Seq<(Seq<char>, Seq<char>)> {
    let k = kept(rows, pos);
    let end = if skip + limit < k.len() {
        skip + limit
    } else {
        k.len() as int
    };
    if skip >= k.len() {
        Seq::empty()
    } else {
        Seq::new((end - skip) as nat, |j: int| labelled(skip + j, k[skip + j]))
    }
}

proof fn lemma_kept_len(rows: Seq<(Seq<char>, Seq<char>)>, pos: Seq<Seq<char>>)
    ensures
        kept(rows, pos).len() <= rows.len(),
    decreases rows.len(),
{
    if rows.len() > 0 {
        lemma_kept_len(rows.drop_last(), pos);
    }
}

/// The definitions kept are exactly the rows, in order, whose part of speech is any one of
/// those asked for (wherever it stands in the request), or all rows when none was asked for.
pub proof fn kept_rows_by_membership(rows: Seq<(Seq<char>, Seq<char>)>, pos: Seq<Seq<char>>)
    ensures
        kept(rows, pos) == rows.filter(|r: (Seq<char>, Seq<char>)| pos.len() == 0 || pos.contains(r.0)),
    decreases rows.len(),
{
    reveal_with_fuel(Seq::filter, 1);
    if rows.len() > 0 {
        kept_rows_by_membership(rows.drop_last(), pos);
    }
}

/// A row whose part of speech is the `j`-th asked for is kept, whatever `j` is: asking for
/// several parts of speech keeps the rows of each of them.
pub proof fn every_requested_part_is_kept(rows: Seq<(Seq<char>, Seq<char>)>, pos: Seq<Seq<char>>, i: int, j: int)
    requires
        0 <= i < rows.len(),
        0 <= j < pos.len(),
        rows[i].0 == pos[j],
    ensures
        kept(rows, pos).contains(rows[i]),
    decreases rows.len(),
{
    if i == rows.len() - 1 {
        assert(pos.contains(rows[i].0));
        assert(kept(rows, pos) == kept(rows.drop_last(), pos).push(rows.last()));
        assert(kept(rows, pos).last() == rows[i]);
    } else {
        every_requested_part_is_kept(rows.drop_last(), pos, i, j);
        let k = kept(rows.drop_last(), pos);
        let w = choose|x: int| 0 <= x < k.len() && k[x] == rows[i];
        if wanted(pos, rows.last().0) {
            assert(kept(rows, pos)[w] == rows[i]);
        }
    }
}

/// The number of definitions shown: the configured limit, but no more than an embed holds.
pub fn effective_limit(configured: u64) -> (l: u64)
    ensures
        l == if configured < DISCORD_EMBED_FIELD_LIMIT {
            configured
        } else {
            DISCORD_EMBED_FIELD_LIMIT
        },
{
    if configured < DISCORD_EMBED_FIELD_LIMIT {
        configured
    } else {
        DISCORD_EMBED_FIELD_LIMIT
    }
}

fn is_wanted(pos: &Vec<String>, p: &str) -> (b: bool)
    ensures
        b == wanted(pos@.map_values(|s: String| s@), p@),
{
    let ghost views = pos@.map_values(|s: String| s@);
    if pos.len() == 0 {
        return true;
    }
    let mut i: usize = 0;
    while i < pos.len()
        invariant
            i <= pos.len(),
            views == pos@.map_values(|s: String| s@),
            forall|k: int| 0 <= k < i ==> views[k] != p@,
        decreases pos.len() - i,
    {
        if str_eq(pos[i].as_str(), p) {
            assert(views[i as int] == p@);
            return true;
        }
        i = i + 1;
    }
    assert(!views.contains(p@));
    false
}

/// The definitions to show for the rows the dictionary gave (see [`shown`]).
pub fn select_definitions(
    rows: &Vec<(String, String)>,
    pos: &Vec<String>,
    skip: usize,
    limit: u64,
) -> (r: Vec<(String, String)>)
    ensures
        r@.map_values(|d: (String, String)| def_view(d)) == shown(
            rows@.map_values(|d: (String, String)| def_view(d)),
            pos@.map_values(|s: String| s@),
            skip as int,
            limit as int,
        ),
{
    let ghost rv = rows@.map_values(|d: (String, String)| def_view(d));
    let ghost pv = pos@.map_values(|s: String| s@);
    let mut out: Vec<(String, String)> = Vec::new();
    let mut count: usize = 0;
    proof { lemma_kept_len(rv.take(0), pv); }
    let mut i: usize = 0;
    assert(rv.take(0) =~= Seq::<(Seq<char>, Seq<char>)>::empty());
    while i < rows.len()
        invariant
            i <= rows.len(),
            rv == rows@.map_values(|d: (String, String)| def_view(d)),
            pv == pos@.map_values(|s: String| s@),
            count == kept(rv.take(i as int), pv).len(),
            count <= i,
            out@.map_values(|d: (String, String)| def_view(d)) == shown(
                rv.take(i as int),
                pv,
                skip as int,
                limit as int,
            ),
        decreases rows.len() - i,
    {
        let ghost k_before = kept(rv.take(i as int), pv);
        proof { lemma_kept_len(rv.take(i + 1), pv); }
        assert(rv.take(i + 1).drop_last() =~= rv.take(i as int));
        assert(rv.take(i + 1).last() == rv[i as int]);
        if is_wanted(pos, rows[i].0.as_str()) {
            let ghost k_after = kept(rv.take(i + 1), pv);
            assert(k_after == k_before.push(rv[i as int]));
            if count >= skip && ((count - skip) as u64) < limit {
                let mut label = String::new();
                push_decimal(&mut label, (count as u64) + 1);
                push_str(&mut label, ": ");
                push_str(&mut label, rows[i].0.as_str());
                let text = rows[i].1.clone();
                assert(text@ == rows@[i as int].1@);
                out.push((label, text));
            }
            count = count + 1;
            proof {
                let before = shown(rv.take(i as int), pv, skip as int, limit as int);
                let after = shown(rv.take(i + 1), pv, skip as int, limit as int);
                let n = k_before.len() as int;
                assert(k_after.len() == n + 1);
                if n >= skip && n - skip < limit {
                    assert(after =~= before.push(labelled(n, rv[i as int])));
                } else {
                    assert(after =~= before);
                }
            }
            assert(out@.map_values(|d: (String, String)| def_view(d)) =~= shown(
                rv.take(i + 1),
                pv,
                skip as int,
                limit as int,
            ));
        } else {
            assert(kept(rv.take(i + 1), pv) == k_before);
        }
        i = i + 1;
    }
    assert(rv.take(rows.len() as int) =~= rv);
    out
}

/// The footer of the definitions: the limit, how many were skipped if any, and the source.
pub open spec fn footer_text(limit: u64, skip: usize) -> Seq<char> {
    "Displaying up to "@ + decimal(limit as nat) + " definitions."@ + (if skip > 0 {
        " Skipped "@ + decimal(skip as nat) + "."@
    } else {
        Seq::empty()
    }) + " Copyright Wiktionary"@
}

/// The footer of the definitions (see [`footer_text`]).
pub fn footer(limit: u64, skip: usize) -> (s: String)
    ensures
        s@ == footer_text(limit, skip),
{
    let mut s = String::new();
    push_str(&mut s, "Displaying up to ");
    push_decimal(&mut s, limit);
    push_str(&mut s, " definitions.");
    if skip > 0 {
        push_str(&mut s, " Skipped ");
        push_decimal(&mut s, skip as u64);
        push_str(&mut s, ".");
    }
    push_str(&mut s, " Copyright Wiktionary");
    proof { reveal_strlit(""); }
    assert(s@ =~= footer_text(limit, skip));
    s
}

/// The UTF-8 bytes of `c`.
pub open spec fn utf8_bytes(c: char) -> Seq<u8> {
    let n = c as u32 as nat;
    if n < 0x80 {
        seq![n as u8]
    } else if n < 0x800 {
        seq![(0xC0 + n / 64) as u8, (0x80 + n % 64) as u8]
    } else if n < 0x10000 {
        seq![(0xE0 + n / 4096) as u8, (0x80 + (n / 64) % 64) as u8, (0x80 + n % 64) as u8]
    } else {
        seq![
            (0xF0 + n / 262144) as u8,
            (0x80 + (n / 4096) % 64) as u8,
            (0x80 + (n / 64) % 64) as u8,
            (0x80 + n % 64) as u8,
        ]
    }
}

/// An upper-case hexadecimal digit.
pub open spec fn hex_digit(d: nat) -> char {
    if d < 10 {
        (48 + d) as char
    } else {
        (55 + d) as char
    }
}

/// How `percent-encoding` writes one byte with the `NON_ALPHANUMERIC` set: an ASCII letter or
/// digit as itself, any other byte as `%` and two upper-case hex digits.
pub open spec fn encoded_byte(b: u8) -> Seq<char> {
    if (48 <= b <= 57) || (65 <= b <= 90) || (97 <= b <= 122) {
        seq![b as char]
    } else {
        seq!['%', hex_digit((b / 16) as nat), hex_digit((b % 16) as nat)]
    }
}

/// The encodings of a sequence of bytes, one after the other.
pub open spec fn encoded_bytes(bs: Seq<u8>) -> Seq<char>
    decreases bs.len(),
{
    if bs.len() == 0 {
        Seq::empty()
    } else {
        encoded_bytes(bs.drop_last()) + encoded_byte(bs.last())
    }
}

/// What `percent-encoding` makes of `s` with the `NON_ALPHANUMERIC` set: every UTF-8 byte
/// that is not an ASCII letter or digit written as `%` and two hex digits.
pub open spec fn percent_encoded(s: Seq<char>) -> Seq<char>
    decreases s.len(),
{
    if s.len() == 0 {
        Seq::empty()
    } else {
        percent_encoded(s.drop_last()) + encoded_bytes(utf8_bytes(s.last()))
    }
}

/// `utf8_percent_encode(s, NON_ALPHANUMERIC).to_string()`: each UTF-8 byte of `s` written as
/// [`encoded_byte`] says.
#[verifier::external_body]
fn percent_encode(s: &str) -> (r: String)
    ensures
        r@ == percent_encoded(s@),
{
    percent_encoding::utf8_percent_encode(s, percent_encoding::NON_ALPHANUMERIC).to_string()
}

/// The Wiktionary page of `word`.
pub fn wiktionary_url(word: &str) -> (s: String)
    ensures
        s@ == "https://en.wiktionary.org/wiki/"@ + percent_encoded(word@),
{
    let mut s = String::new();
    push_str(&mut s, "https://en.wiktionary.org/wiki/");
    let enc = percent_encode(word);
    push_str(&mut s, enc.as_str());
    s
}

} // verus!
