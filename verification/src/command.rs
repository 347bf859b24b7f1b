//! The prefixed-command grammar: `<prefix><name> arg arg "quoted \"arg\"" ...`.

use vstd::prelude::*;
use crate::text::{string_views, chars_of, is_ascii_alphanumeric, is_space, lemma_skip_space_bounds, push_char, skip_space, skip_space_at, string_from_chars};

verus! {

/// Errors raised while parsing or running a command.
#[derive(Debug, Clone, PartialEq, Eq)]
pub enum CommanderError {
    /// The input does not follow the command (or dice) grammar.
    BadCommandParse(String),
    /// The command failed with a message meant for the user.
    RuntimeError(String),
    /// Some lower-level failure, carrying its message.
    OtherError(String),
    /// The user may not run this command.
    InsufficientUserPerms(u64),
    /// The command failed, but nothing should be reported.
    Silent,
}

/// The message reported when a command does not follow the grammar.
pub open spec fn bad_command_message() -> Seq<char> {
    "The command could not be parsed."@
}

/// A command as typed by a user, split into its prefix, its name and its arguments.
#[derive(Debug, Clone)]
pub struct RawCmd {
    pub prefix: String,
    pub command: String,
    pub args: Vec<String>,
}

/// The parser for prefixed commands.
pub struct CommandParser;

/// The abstract result of parsing a command.
pub struct SpecRawCmd {
    pub prefix: Seq<char>,
    pub command: Seq<char>,
    pub args: Seq<Seq<char>>,
}

/// The end of a run of non-whitespace characters starting at `i`.
pub open spec fn word_end(s: Seq<char>, i: int) -> int
    decreases s.len() - i,
{
    if 0 <= i < s.len() && !is_space(s[i]) {
        word_end(s, i + 1)
    } else {
        i
    }
}

/// The position just after the closing quote of a quoted argument whose body starts at `i`,
/// where a backslash escapes the following character; `None` when the quote is never closed.
pub open spec fn quoted_end(s: Seq<char>, i: int) -> Option<int>
    decreases s.len() - i,
{
    if i < 0 || i >= s.len() {
        None
    } else if s[i] == '"' {
        Some(i + 1)
    } else if s[i] == '\\' {
        if i + 1 < s.len() {
            quoted_end(s, i + 2)
        } else {
            None
        }
    } else {
        quoted_end(s, i + 1)
    }
}

/// The end of the argument that starts at `i`: a quoted string followed by whitespace or the
/// end of input, or a run of non-whitespace characters that does not start with a quote.
pub open spec fn arg_end(s: Seq<char>, i: int) -> Option<int> {
    if 0 <= i < s.len() && s[i] == '"' {
        match quoted_end(s, i + 1) {
            Some(e) => if e == s.len() || is_space(s[e]) {
                Some(e)
            } else {
                None
            },
            None => None,
        }
    } else {
        Some(word_end(s, i))
    }
}

/// The raw arguments found from position `i` onwards, or `None` when one is malformed.
pub open spec fn args_from(s: Seq<char>, i: int) -> Option<Seq<Seq<char>>>
    decreases s.len() - i,
{
    let j = skip_space(s, i);
    if j < i || j >= s.len() {
        Some(Seq::empty())
    } else {
        match arg_end(s, j) {
            Some(e) => if j < e <= s.len() {
                match args_from(s, e) {
                    Some(rest) => Some(seq![s.subrange(j, e)] + rest),
                    None => None,
                }
            } else {
                None
            },
            None => None,
        }
    }
}

/// A command prefix: one character that is neither whitespace nor an ASCII letter or digit.
pub open spec fn is_prefix_char(c: char) -> bool {
    !is_space(c) && !is_ascii_alphanumeric(c)
}

/// The command that `s` spells, with its raw (still escaped) arguments.
pub open spec fn command_syntax(s: Seq<char>) -> Option<SpecRawCmd> {
    let p = skip_space(s, 0);
    if 0 <= p < s.len() && is_prefix_char(s[p]) {
        let e = word_end(s, p + 1);
        if e > p + 1 {
            match args_from(s, e) {
                Some(args) => Some(
                    SpecRawCmd { prefix: s.subrange(p, p + 1), command: s.subrange(p + 1, e), args },
                ),
                None => None,
            }
        } else {
            None
        }
    } else {
        None
    }
}

/// `s` with every `\"` replaced by `"`, scanning from the left.
pub open spec fn replace_escaped_quotes(s: Seq<char>) -> Seq<char>
    decreases s.len(),
{
    if s.len() < 2 {
        s
    } else if s[0] == '\\' && s[1] == '"' {
        seq!['"'] + replace_escaped_quotes(s.skip(2))
    } else {
        seq![s[0]] + replace_escaped_quotes(s.skip(1))
    }
}

/// An argument with its quoting removed: for a quoted argument, escaped quotes are
/// replaced and the first and last characters dropped; any other argument is unchanged.
pub open spec fn spec_unescape(s: Seq<char>) -> Seq<char> {
    if s.len() > 0 && s[0] == '"' {
        let r = replace_escaped_quotes(s);
        if r.len() >= 2 {
            r.subrange(1, r.len() - 1)
        } else {
            Seq::empty()
        }
    } else {
        s
    }
}

/// Every argument unescaped.
pub open spec fn unescape_all(args: Seq<Seq<char>>) -> Seq<Seq<char>> {
    args.map_values(|a: Seq<char>| spec_unescape(a))
}

/// The command that `s` spells, with its arguments unescaped.
pub open spec fn spec_parse_command(s: Seq<char>) -> Option<SpecRawCmd> {
    match command_syntax(s) {
        Some(c) => Some(
            SpecRawCmd {
                prefix: c.prefix,
                command: c.command,
                args: unescape_all(c.args),
            },
        ),
        None => None,
    }
}

proof fn lemma_no_escapes_unchanged(s: Seq<char>)
    requires
        forall|k: int| 0 <= k < s.len() ==> s[k] != '\\',
    ensures
        replace_escaped_quotes(s) == s,
    decreases s.len(),
{
    if s.len() >= 2 {
        lemma_no_escapes_unchanged(s.skip(1));
        assert(seq![s[0]] + s.skip(1) =~= s);
    }
}

/// The arguments of a parsed command are the raw arguments as written, each unescaped: same
/// number, same order, the `i`-th result being the `i`-th raw argument with its quoting
/// removed; the prefix and name are as written.
pub proof fn parsed_args_are_unescaped_raw_args(s: Seq<char>)
    requires
        spec_parse_command(s) is Some,
    ensures
        command_syntax(s) matches Some(raw) && spec_parse_command(s)->0.prefix == raw.prefix
            && spec_parse_command(s)->0.command == raw.command && spec_parse_command(s)->0.args.len()
            == raw.args.len() && forall|i: int|
            0 <= i < raw.args.len() ==> #[trigger] spec_parse_command(s)->0.args[i] == spec_unescape(
                raw.args[i],
            ),
{
}

/// A quoted argument without backslashes comes out as what stands between its quotes: its
/// quotes are removed and nothing else changes.
pub proof fn quoted_argument_loses_its_quotes(q: Seq<char>)
    requires
        forall|k: int| 0 <= k < q.len() ==> q[k] != '\\' && q[k] != '"',
    ensures
        spec_unescape(seq!['"'] + q + seq!['"']) == q,
{
    let s = seq!['"'] + q + seq!['"'];
    assert forall|k: int| 0 <= k < s.len() implies s[k] != '\\' by {
        if 0 < k < s.len() - 1 {
            assert(s[k] == q[k - 1]);
        }
    }
    lemma_no_escapes_unchanged(s);
    assert(s.subrange(1, s.len() - 1) =~= q);
}

/// An argument that does not start with a quote is passed on as written.
pub proof fn unquoted_argument_is_kept(a: Seq<char>)
    requires
        !(a.len() > 0 && a[0] == '"'),
    ensures
        spec_unescape(a) == a,
{
}

proof fn lemma_word_end_bounds(s: Seq<char>, i: int)
    ensures
        word_end(s, i) >= i,
        0 <= i <= s.len() ==> word_end(s, i) <= s.len(),
        0 <= word_end(s, i) < s.len() ==> is_space(s[word_end(s, i)]),
    decreases s.len() - i,
{
    if 0 <= i < s.len() && !is_space(s[i]) {
        lemma_word_end_bounds(s, i + 1);
    }
}

proof fn lemma_quoted_end_bounds(s: Seq<char>, i: int)
    ensures
        quoted_end(s, i) matches Some(e) ==> i < e <= s.len(),
    decreases s.len() - i,
{
    if 0 <= i < s.len() && s[i] != '"' {
        if s[i] == '\\' {
            if i + 1 < s.len() {
                lemma_quoted_end_bounds(s, i + 2);
            }
        } else {
            lemma_quoted_end_bounds(s, i + 1);
        }
    }
}

fn word_end_at(s: &Vec<char>, i: usize) -> (e: usize)
    requires
        i <= s.len(),
    ensures
        e as int == word_end(s@, i as int),
        i <= e <= s.len(),
{
    proof { lemma_word_end_bounds(s@, i as int); }
    let mut e = i;
    while e < s.len() && !(s[e] == ' ' || s[e] == '\t' || s[e] == '\n' || s[e] == '\r')
        invariant
            i <= e <= s.len(),
            word_end(s@, i as int) == word_end(s@, e as int),
        decreases s.len() - e,
    {
        e = e + 1;
    }
    e
}

fn quoted_end_at(s: &Vec<char>, i: usize) -> (r: Option<usize>)
    requires
        i <= s.len(),
    ensures
        r matches Some(e) ==> quoted_end(s@, i as int) == Some(e as int),
        r is None ==> quoted_end(s@, i as int) is None,
{
    let mut k = i;
    while k < s.len()
        invariant
            i <= k <= s.len() + 1,
            quoted_end(s@, i as int) == quoted_end(s@, k as int),
        decreases s.len() - k,
    {
        if s[k] == '"' {
            return Some(k + 1);
        } else if s[k] == '\\' {
            if k + 1 < s.len() {
                k = k + 2;
            } else {
                return None;
            }
        } else {
            k = k + 1;
        }
    }
    None
}

fn arg_end_at(s: &Vec<char>, i: usize) -> (r: Option<usize>)
    requires
        i < s.len(),
    ensures
        r matches Some(e) ==> arg_end(s@, i as int) == Some(e as int),
        r is None ==> arg_end(s@, i as int) is None,
{
    if s[i] == '"' {
        proof { lemma_quoted_end_bounds(s@, i + 1); }
        match quoted_end_at(s, i + 1) {
            Some(e) => {
                if e == s.len() || s[e] == ' ' || s[e] == '\t' || s[e] == '\n' || s[e] == '\r' {
                    Some(e)
                } else {
                    None
                }
            },
            None => None,
        }
    } else {
        Some(word_end_at(s, i))
    }
}

/// Parses a prefixed command such as `!roll 5d20` or `~say "a \"quoted\" word"`.
pub fn parse_command(s: &str) -> (r: Result<RawCmd, CommanderError>)
    ensures
        match spec_parse_command(s@) {
            Some(c) => r matches Ok(cmd) && cmd.prefix@ == c.prefix && cmd.command@ == c.command
                && string_views(cmd.args@) == c.args,
            None => r matches Err(CommanderError::BadCommandParse(m)) && m@ == bad_command_message(),
        },
{
    let cs = chars_of(s);
    let p = skip_space_at(&cs, 0);
    if p < cs.len() && cs[p] != ' ' && cs[p] != '\t' && cs[p] != '\n' && cs[p] != '\r' && !(
    ('0' <= cs[p] && cs[p] <= '9') || ('a' <= cs[p] && cs[p] <= 'z') || ('A' <= cs[p] && cs[p]
        <= 'Z')) {
        let e = word_end_at(&cs, p + 1);
        proof { lemma_word_end_bounds(cs@, p + 1); }
        if e > p + 1 {
            let mut args: Vec<String> = Vec::new();
            let ghost raw: Seq<Seq<char>> = Seq::empty();
            let mut i = e;
            loop
                invariant
                    cs@ == s@,
                    p < cs.len(),
                    p as int == skip_space(cs@, 0),
                    is_prefix_char(cs@[p as int]),
                    e as int == word_end(cs@, p + 1),
                    e > p + 1,
                    e <= i <= cs.len(),
                    i == cs.len() || is_space(cs@[i as int]),
                    args_from(cs@, e as int) == match args_from(cs@, i as int) {
                        Some(rest) => Some(raw + rest),
                        None => None,
                    },
                    string_views(args@) == unescape_all(raw),
                ensures
                    args_from(cs@, e as int) == Some(raw),
                    string_views(args@) == unescape_all(raw),
                decreases cs.len() - i,
            {
                let j = skip_space_at(&cs, i);
                proof { lemma_skip_space_bounds(cs@, i as int); }
                if j >= cs.len() {
                    proof {
                        assert(args_from(cs@, i as int) == Some(Seq::<Seq<char>>::empty()));
                        assert(raw + Seq::<Seq<char>>::empty() =~= raw);
                    }
                    break;
                }
                match arg_end_at(&cs, j) {
                    Some(a_end) => {
                        proof {
                            lemma_word_end_bounds(cs@, j as int);
                            lemma_quoted_end_bounds(cs@, j + 1);
                        }
                        assert(j < a_end <= cs.len());
                        let piece = slice_string(&cs, j, a_end);
                        let u = unescape(piece.as_str());
                        proof {
                            let ghost old_raw = raw;
                            raw = raw.push(cs@.subrange(j as int, a_end as int));
                            assert(unescape_all(raw) =~= unescape_all(old_raw).push(
                                spec_unescape(cs@.subrange(j as int, a_end as int)),
                            ));
                            match args_from(cs@, a_end as int) {
                                Some(rest) => {
                                    assert(raw + rest =~= old_raw + (seq![cs@.subrange(j as int, a_end as int)] + rest));
                                },
                                None => {},
                            }
                        }
                        args.push(u);
                        assert(string_views(args@) =~= unescape_all(raw));
                        i = a_end;
                    },
                    None => {
                        assert(args_from(cs@, e as int) is None);
                        let m = String::from_str("The command could not be parsed.");
                        proof { reveal_strlit("The command could not be parsed."); }
                        return Err(CommanderError::BadCommandParse(m));
                    },
                }
            }
            assert(args_from(cs@, e as int) == Some(raw));
            assert(command_syntax(s@) == Some(
                SpecRawCmd {
                    prefix: cs@.subrange(p as int, p + 1),
                    command: cs@.subrange(p + 1, e as int),
                    args: raw,
                },
            ));
            let prefix = slice_string(&cs, p, p + 1);
            let command = slice_string(&cs, p + 1, e);
            return Ok(RawCmd { prefix, command, args });
        }
    }
    let m = String::from_str("The command could not be parsed.");
    proof { reveal_strlit("The command could not be parsed."); }
    Err(CommanderError::BadCommandParse(m))
}

/// The characters `cs[from..to]` as a string.
fn slice_string(cs: &Vec<char>, from: usize, to: usize) -> (s: String)
    requires
        from <= to <= cs.len(),
    ensures
        s@ == cs@.subrange(from as int, to as int),
{
    let mut s = String::new();
    let mut k = from;
    while k < to
        invariant
            from <= k <= to,
            to <= cs.len(),
            s@ == cs@.subrange(from as int, k as int),
        decreases to - k,
    {
        push_char(&mut s, cs[k]);
        k = k + 1;
        assert(s@ =~= cs@.subrange(from as int, k as int));
    }
    s
}

/// Removes the quoting of an argument: a quoted argument loses its surrounding quotes and
/// has each `\"` turned into `"`; any other argument is returned unchanged.
pub fn unescape(s: &str) -> (r: String)
    ensures
        r@ == spec_unescape(s@),
{
    let cs = chars_of(s);
    if cs.len() > 0 && cs[0] == '"' {
        let mut out: Vec<char> = Vec::new();
        let mut i: usize = 0;
        assert(cs@.skip(0) =~= cs@);
        assert(out@ + cs@ =~= cs@);
        while i < cs.len()
            invariant
                i <= cs.len(),
                replace_escaped_quotes(cs@) == out@ + replace_escaped_quotes(cs@.skip(i as int)),
                cs@.len() > 0 && cs@[0] == '"',
                i > 0 ==> out@.len() > 0 && out@[0] == '"',
                i == 0 ==> out@.len() == 0,
            decreases cs.len() - i,
        {
            let ghost rest = cs@.skip(i as int);
            if i + 1 < cs.len() && cs[i] == '\\' && cs[i + 1] == '"' {
                out.push('"');
                assert(rest.skip(2) =~= cs@.skip(i + 2));
                i = i + 2;
            } else {
                out.push(cs[i]);
                proof {
                    if rest.len() >= 2 {
                        assert(rest.skip(1) =~= cs@.skip(i + 1));
                    } else {
                        assert(rest =~= seq![cs@[i as int]]);
                        assert(cs@.skip(i + 1) =~= Seq::<char>::empty());
                    }
                }
                i = i + 1;
            }
        }
        assert(cs@.skip(i as int) =~= Seq::<char>::empty());
        assert(replace_escaped_quotes(cs@) =~= out@);
        let n = out.len();
        if n >= 2 {
            slice_string(&out, 1, n - 1)
        } else {
            String::new()
        }
    } else {
        string_from_chars(&cs)
    }
}

} // verus!
