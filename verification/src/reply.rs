//! Replies in code blocks, and the splitting of long replies into several messages.

use vstd::prelude::*;
use crate::filters::{utf8_len, utf8_len_within, utf8_longer_than};
use crate::text::{chars_of, push_str, string_from_chars};

verus! {

/// The most bytes a message may have.
pub const MESSAGE_BYTE_LIMIT: usize = 2000;

/// `s` with every occurrence of `from` replaced by `to`, as `str::replace` does it: the
/// occurrences are found from the left and do not overlap.
pub open spec fn replace_all(s: Seq<char>, from: Seq<char>, to: Seq<char>) -> Seq<char>
    decreases s.len(),
{
    if s.len() == 0 {
        s
    } else if from.len() > 0 && s.len() >= from.len() && s.take(from.len() as int) == from {
        to + replace_all(s.skip(from.len() as int), from, to)
    } else {
        seq![s[0]] + replace_all(s.skip(1), from, to)
    }
}

/// What serenity's `normalize` makes of `text`: invite links broken with a one-dot leader,
/// direction marks and zero-width characters turned into spaces, and `@everyone` and `@here`
/// defused with a zero-width space, in that order.
pub open spec fn normalized(text: Seq<char>) -> Seq<char> {
    let t = replace_all(text, "discord.gg"@, "discord\u{2024}gg"@);
    let t = replace_all(t, "discord.me"@, "discord\u{2024}me"@);
    let t = replace_all(t, "discordlist.net"@, "discordlist\u{2024}net"@);
    let t = replace_all(t, "discordservers.com"@, "discordservers\u{2024}com"@);
    let t = replace_all(t, "discord.com/invite"@, "discord\u{2024}com/invite"@);
    let t = replace_all(t, "discordapp.com/invite"@, "discordapp\u{2024}com/invite"@);
    let t = replace_all(t, seq!['\u{202E}'], " "@);
    let t = replace_all(t, seq!['\u{200F}'], " "@);
    let t = replace_all(t, seq!['\u{202B}'], " "@);
    let t = replace_all(t, seq!['\u{200B}'], " "@);
    let t = replace_all(t, seq!['\u{200D}'], " "@);
    let t = replace_all(t, seq!['\u{200C}'], " "@);
    let t = replace_all(t, "@everyone"@, "@\u{200B}everyone"@);
    replace_all(t, "@here"@, "@\u{200B}here"@)
}

/// What serenity's `MessageBuilder::push_codeblock_safe` puts between the fences of a code
/// block: the content normalized, then every triple backtick replaced by a space.
pub open spec fn codeblock_body(content: Seq<char>) -> Seq<char> {
    replace_all(normalized(content), "```"@, " "@)
}

/// A code block holding `content`, defused as serenity does it.
pub open spec fn codeblock(content: Seq<char>) -> Seq<char> {
    "```\n"@ + codeblock_body(content) + "\n```"@
}

/// A code block holding `content` as it is.
pub open spec fn plain_codeblock(content: Seq<char>) -> Seq<char> {
    "```\n"@ + content + "\n```"@
}

/// `MessageBuilder::new().push_codeblock_safe(content, None).build()`: an opening fence and a
/// newline, the defused content (see [`codeblock_body`]), a newline and a closing fence.
#[verifier::external_body]
pub(crate) fn codeblock_safe(content: &str) -> (r: String)
    ensures
        r@ == "```\n"@ + codeblock_body(content@) + "\n```"@,
{
    serenity::utils::MessageBuilder::new().push_codeblock_safe(content, None).build()
}

/// A code block holding `content` as it is, as `MessageBuilder::push_codeblock` builds it.
pub fn codeblock_plain(content: &str) -> (r: String)
    ensures
        r@ == plain_codeblock(content@),
{
    let mut s = String::new();
    push_str(&mut s, "```\n");
    push_str(&mut s, content);
    push_str(&mut s, "\n```");
    proof {
        reveal_strlit("```\n");
        reveal_strlit("\n```");
    }
    s
}

/// The pieces of `s` between newlines, as `str::split("\n")` yields them.
pub open spec fn split_lines(s: Seq<char>) -> Seq<Seq<char>>
    decreases s.len(),
{
    if s.len() == 0 {
        seq![Seq::empty()]
    } else {
        let rest = split_lines(s.drop_last());
        if s.last() == '\n' {
            rest.push(Seq::empty())
        } else {
            rest.update(rest.len() - 1, rest.last().push(s.last()))
        }
    }
}

/// The messages sent while walking the lines of a long reply, and the text gathered for the
/// next one. A line that would take the gathered text over the limit (with room for the
/// fences) sends the gathered text as a code block and starts afresh, and is itself dropped.
pub open spec fn fold_lines(lines: Seq<Seq<char>>) -> (Seq<Seq<char>>, Seq<char>)
    decreases lines.len(),
{
    if lines.len() == 0 {
        (Seq::empty(), Seq::empty())
    } else {
        let (sent, acc) = fold_lines(lines.drop_last());
        let line = lines.last();
        if utf8_len(acc) + utf8_len(line) + 7 > MESSAGE_BYTE_LIMIT {
            (sent.push(plain_codeblock(acc)), Seq::empty())
        } else {
            (sent, acc + line + seq!['\n'])
        }
    }
}

/// The messages that say `s` in code blocks: one defused code block when `s` fits in a
/// message; otherwise the blocks gathered line by line, then a defused block of the rest.
pub open spec fn codeblock_messages(s: Seq<char>) -> Seq<Seq<char>> {
    if utf8_len(s) > MESSAGE_BYTE_LIMIT {
        let (sent, acc) = fold_lines(split_lines(s));
        sent.push(codeblock(acc))
    } else {
        seq![codeblock(s)]
    }
}

proof fn lemma_utf8_len_append(a: Seq<char>, b: Seq<char>)
    ensures
        utf8_len(a + b) == utf8_len(a) + utf8_len(b),
    decreases b.len(),
{
    if b.len() == 0 {
        assert(a + b =~= a);
    } else {
        lemma_utf8_len_append(a, b.drop_last());
        assert((a + b).drop_last() =~= a + b.drop_last());
    }
}

proof fn lemma_newline_len()
    ensures
        utf8_len(seq!['\n']) == 1,
{
    let s = seq!['\n'];
    assert(s.drop_last() =~= Seq::<char>::empty());
    assert(s.last() == '\n');
    assert(('\n' as u32) == 10);
    assert(utf8_len(s.drop_last()) == 0);
}

/// The pieces of the characters `cs` between newlines.
fn split_at_newlines(cs: &Vec<char>) -> (lines: Vec<Vec<char>>)
    ensures
        lines@.map_values(|l: Vec<char>| l@) == split_lines(cs@),
{
    let mut lines: Vec<Vec<char>> = Vec::new();
    lines.push(Vec::new());
    let mut i: usize = 0;
    assert(cs@.take(0) =~= Seq::<char>::empty());
    assert(lines@.map_values(|l: Vec<char>| l@) =~= split_lines(cs@.take(0)));
    while i < cs.len()
        invariant
            i <= cs.len(),
            lines@.len() >= 1,
            lines@.map_values(|l: Vec<char>| l@) == split_lines(cs@.take(i as int)),
        decreases cs.len() - i,
    {
        let c = cs[i];
        let ghost prefix = cs@.take(i as int);
        assert(cs@.take(i + 1).drop_last() =~= prefix);
        assert(cs@.take(i + 1).last() == c);
        if c == '\n' {
            lines.push(Vec::new());
            assert(lines@.map_values(|l: Vec<char>| l@) =~= split_lines(prefix).push(
                Seq::empty(),
            ));
        } else {
            let last = lines.len() - 1;
            let ghost before = lines@;
            let mut cur = lines.pop().unwrap();
            cur.push(c);
            lines.push(cur);
            assert(lines@.map_values(|l: Vec<char>| l@) =~= split_lines(prefix).update(
                last as int,
                split_lines(prefix).last().push(c),
            ));
        }
        i = i + 1;
    }
    assert(cs@.take(cs.len() as int) =~= cs@);
    lines
}

/// The messages that say `s` in code blocks (see [`codeblock_messages`]), in the order they
/// are sent.
pub fn codeblock_replies(s: &str) -> (msgs: Vec<String>)
    ensures
        msgs@.map_values(|m: String| m@) == codeblock_messages(s@),
{
    if !utf8_longer_than(s, MESSAGE_BYTE_LIMIT) {
        let mut msgs: Vec<String> = Vec::new();
        msgs.push(codeblock_safe(s));
        assert(msgs@.map_values(|m: String| m@) =~= seq![codeblock(s@)]);
        return msgs;
    }
    let cs = chars_of(s);
    let lines = split_at_newlines(&cs);
    let ghost views = lines@.map_values(|l: Vec<char>| l@);
    let mut sent: Vec<String> = Vec::new();
    let mut acc: Vec<char> = Vec::new();
    let mut acc_len: usize = 0;
    let mut i: usize = 0;
    assert(views.take(0) =~= Seq::<Seq<char>>::empty());
    while i < lines.len()
        invariant
            i <= lines.len(),
            views == lines@.map_values(|l: Vec<char>| l@),
            fold_lines(views.take(i as int)) == (sent@.map_values(|m: String| m@), acc@),
            acc_len == utf8_len(acc@),
            acc_len <= MESSAGE_BYTE_LIMIT,
        decreases lines.len() - i,
    {
        let ghost before_sent = sent@.map_values(|m: String| m@);
        let ghost before_acc = acc@;
        assert(views.take(i + 1).drop_last() =~= views.take(i as int));
        assert(views.take(i + 1).last() == lines@[i as int]@);
        let fits: Option<usize> = if acc_len + 7 > MESSAGE_BYTE_LIMIT {
            None
        } else {
            utf8_len_within(&lines[i], MESSAGE_BYTE_LIMIT - 7 - acc_len)
        };
        match fits {
            None => {
                let acc_str = string_from_chars(&acc);
                sent.push(codeblock_plain(acc_str.as_str()));
                acc = Vec::new();
                acc_len = 0;
                assert(sent@.map_values(|m: String| m@) =~= before_sent.push(
                    plain_codeblock(before_acc),
                ));
                assert(acc@ =~= Seq::<char>::empty());
            },
            Some(line_len) => {
                let line = &lines[i];
                let ghost line_view = line@;
                let mut j: usize = 0;
                while j < line.len()
                    invariant
                        j <= line.len(),
                        line@ == line_view,
                        acc@ == before_acc + line_view.take(j as int),
                    decreases line.len() - j,
                {
                    acc.push(line[j]);
                    j = j + 1;
                    assert(acc@ =~= before_acc + line_view.take(j as int));
                }
                acc.push('\n');
                proof {
                    assert(line_view.take(line_view.len() as int) =~= line_view);
                    lemma_utf8_len_append(before_acc, line_view);
                    lemma_utf8_len_append(before_acc + line_view, seq!['\n']);
                    lemma_newline_len();
                    assert(acc@ =~= before_acc + line_view + seq!['\n']);
                }
                acc_len = acc_len + line_len + 1;
            },
        }
        i = i + 1;
    }
    assert(views.take(lines.len() as int) =~= views);
    let rest = string_from_chars(&acc);
    sent.push(codeblock_safe(rest.as_str()));
    sent
}

} // verus!
