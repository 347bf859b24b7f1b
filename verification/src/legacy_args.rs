//! The argument grammars of the older `define` and `config` commands: the argument text is
//! split into shell words, which are then read against each command's options.

use vstd::prelude::*;
use crate::config::{read_uint, uint_failure, uint_value};
use crate::error::{Error, ErrorView};
use crate::text::{chars_of, push_char, push_str, str_eq, string_from_chars, string_views};

verus! {

/// What `shell_words::split` makes of `line`: its words, split and unquoted as a POSIX shell
/// would, or `None` when a quote is left open.
pub uninterp spec fn shell_words_split(line: Seq<char>) -> Option<Seq<Seq<char>>>;

/// `shell_words::split(line)`, whose only error is an unclosed quote. Which words it finds is
/// not stated; it is a function of the line alone.
#[verifier::external_body]
fn split_shell_words(line: &str) -> (r: Option<Vec<String>>)
    ensures
        match r {
            Some(v) => shell_words_split(line@) == Some(string_views(v@)),
            None => shell_words_split(line@) is None,
        },
{
    shell_words::split(line).ok()
}

/// The message of an option given without its value.
pub open spec fn missing_value_message(opt: Seq<char>) -> Seq<char> {
    "The argument '"@ + opt + "' requires a value but none was supplied"@
}

/// The message of an option given twice.
pub open spec fn duplicate_message(opt: Seq<char>) -> Seq<char> {
    "The argument '"@ + opt + "' was provided more than once"@
}

/// The message of a word that the command does not take.
pub open spec fn unexpected_message(t: Seq<char>) -> Seq<char> {
    "Found argument '"@ + t + "' which wasn't expected"@
}

/// The message of a `define` without a word to look up.
pub open spec fn missing_word_message() -> Seq<char> {
    "The following required argument was not provided: WORD"@
}

/// The message of a skip count that does not read as a number.
pub open spec fn bad_skip_message(m: Seq<char>) -> Seq<char> {
    "Invalid value for '-s': "@ + m
}

/// The message of a command line that does not split into words.
pub open spec fn unsplittable_message() -> Seq<char> {
    "An error occurred while parsing the arguments string: missing closing quote"@
}

/// The message of a `config` command with too few words for its subcommand.
pub open spec fn missing_arguments_message(sub: Seq<char>) -> Seq<char> {
    "The subcommand '"@ + sub + "' is missing required arguments"@
}

/// The message of a `config` command without a subcommand.
pub open spec fn no_subcommand_message() -> Seq<char> {
    "A subcommand is required: set, get or help"@
}

/// The pieces of `s` between commas, in order (one piece when there is no comma).
pub open spec fn split_commas(s: Seq<char>) -> Seq<Seq<char>>
    decreases s.len(),
{
    if s.len() == 0 {
        seq![Seq::<char>::empty()]
    } else {
        let rest = split_commas(s.drop_last());
        if s.last() == ',' {
            rest.push(Seq::<char>::empty())
        } else {
            rest.update(rest.len() - 1, rest.last().push(s.last()))
        }
    }
}

proof fn lemma_split_commas_nonempty(s: Seq<char>)
    ensures
        split_commas(s).len() >= 1,
    decreases s.len(),
{
    if s.len() > 0 {
        lemma_split_commas_nonempty(s.drop_last());
    }
}

/// What has been read of a `define` command line: the word, the parts of speech and the
/// skip count as written, each if given.
pub type DefineState = (Option<Seq<char>>, Option<Seq<Seq<char>>>, Option<Seq<char>>);

/// `t` is option `opt` with its value attached (`-pnoun`).
pub open spec fn attached(t: Seq<char>, opt: Seq<char>) -> bool {
    t.len() > opt.len() && t.take(opt.len() as int) == opt
}

/// Reads the words of a `define` command line from position `i` on: `-p` takes a
/// comma-separated list of parts of speech, `-s` or `--skip` a skip count, either as the next
/// word or attached (`-pnoun,verb`, `-s2`, `--skip=2`); each option may come once; any other
/// word starting with `-` is refused; the one remaining word is the word to look up.
pub open spec fn define_scan(ws: Seq<Seq<char>>, i: int, st: DefineState) -> Result<DefineState, Seq<char>>
    decreases ws.len() - i,
{
    if i < 0 || i >= ws.len() {
        Ok(st)
    } else {
        let t = ws[i];
        if t == "-p"@ {
            if st.1 is Some {
                Err(duplicate_message("-p"@))
            } else if i + 1 >= ws.len() {
                Err(missing_value_message("-p"@))
            } else {
                define_scan(ws, i + 2, (st.0, Some(split_commas(ws[i + 1])), st.2))
            }
        } else if attached(t, "-p"@) {
            if st.1 is Some {
                Err(duplicate_message("-p"@))
            } else {
                define_scan(ws, i + 1, (st.0, Some(split_commas(t.skip(2))), st.2))
            }
        } else if t == "-s"@ || t == "--skip"@ {
            if st.2 is Some {
                Err(duplicate_message("-s"@))
            } else if i + 1 >= ws.len() {
                Err(missing_value_message("-s"@))
            } else {
                define_scan(ws, i + 2, (st.0, st.1, Some(ws[i + 1])))
            }
        } else if attached(t, "--skip="@) {
            if st.2 is Some {
                Err(duplicate_message("-s"@))
            } else {
                define_scan(ws, i + 1, (st.0, st.1, Some(t.skip(7))))
            }
        } else if attached(t, "-s"@) {
            if st.2 is Some {
                Err(duplicate_message("-s"@))
            } else {
                define_scan(ws, i + 1, (st.0, st.1, Some(t.skip(2))))
            }
        } else if t.len() > 1 && t[0] == '-' {
            Err(unexpected_message(t))
        } else if st.0 is Some {
            Err(unexpected_message(t))
        } else {
            define_scan(ws, i + 1, (Some(t), st.1, st.2))
        }
    }
}

proof fn lemma_define_scan_suffix(ws: Seq<Seq<char>>, ws2: Seq<Seq<char>>, j: int, st: DefineState)
    requires
        ws.len() == ws2.len(),
        forall|k: int| j <= k < ws.len() ==> ws[k] == ws2[k],
    ensures
        define_scan(ws, j, st) == define_scan(ws2, j, st),
    decreases ws.len() - j,
{
    if 0 <= j < ws.len() {
        let t = ws[j];
        assert(ws2[j] == t);
        if j + 1 < ws.len() {
            assert(ws2[j + 1] == ws[j + 1]);
        }
        if t == "-p"@ {
            if j + 1 < ws.len() {
                lemma_define_scan_suffix(ws, ws2, j + 2, (st.0, Some(split_commas(ws[j + 1])), st.2));
            }
        } else if attached(t, "-p"@) {
            lemma_define_scan_suffix(ws, ws2, j + 1, (st.0, Some(split_commas(t.skip(2))), st.2));
        } else if t == "-s"@ || t == "--skip"@ {
            if j + 1 < ws.len() {
                lemma_define_scan_suffix(ws, ws2, j + 2, (st.0, st.1, Some(ws[j + 1])));
            }
        } else if attached(t, "--skip="@) {
            lemma_define_scan_suffix(ws, ws2, j + 1, (st.0, st.1, Some(t.skip(7))));
        } else if attached(t, "-s"@) {
            lemma_define_scan_suffix(ws, ws2, j + 1, (st.0, st.1, Some(t.skip(2))));
        } else if t.len() > 1 && t[0] == '-' {
        } else if st.0 is Some {
        } else {
            lemma_define_scan_suffix(ws, ws2, j + 1, (Some(t), st.1, st.2));
        }
    }
}

/// The long option `--skip` is read exactly as the short option `-s`: wherever the words are
/// read as options, writing `--skip` in place of `-s` changes nothing in what follows.
pub proof fn long_skip_reads_like_short_skip(ws: Seq<Seq<char>>, i: int, st: DefineState)
    requires
        0 <= i < ws.len(),
        ws[i] == "--skip"@,
    ensures
        define_scan(ws, i, st) == define_scan(ws.update(i, "-s"@), i, st),
{
    reveal_strlit("--skip");
    reveal_strlit("-s");
    reveal_strlit("-p");
    reveal_strlit("--skip=");
    let ws2 = ws.update(i, "-s"@);
    assert(ws2[i] == "-s"@);
    assert("--skip"@ != "-p"@);
    assert(!attached("--skip"@, "-p"@)) by {
        assert("--skip"@.take(2) != "-p"@) by {
            assert("--skip"@.take(2)[1] == '-');
        }
    }
    assert(!attached("-s"@, "-p"@));
    assert("-s"@ != "-p"@) by {
        assert("-s"@[1] != "-p"@[1]);
    }
    assert(define_scan(ws, i, st) == (if st.2 is Some {
        Err(duplicate_message("-s"@))
    } else if i + 1 >= ws.len() {
        Err(missing_value_message("-s"@))
    } else {
        define_scan(ws, i + 2, (st.0, st.1, Some(ws[i + 1])))
    }));
    assert(define_scan(ws2, i, st) == (if st.2 is Some {
        Err(duplicate_message("-s"@))
    } else if i + 1 >= ws2.len() {
        Err(missing_value_message("-s"@))
    } else {
        define_scan(ws2, i + 2, (st.0, st.1, Some(ws2[i + 1])))
    }));
    if i + 1 < ws.len() {
        assert(ws2[i + 1] == ws[i + 1]);
        match st.2 {
            Some(_) => {},
            None => {
                lemma_define_scan_suffix(ws, ws2, i + 2, (st.0, st.1, Some(ws[i + 1])));
            },
        }
    }
}

/// `define WORD --skip N` and `define WORD -s N` read the same, for every word and count.
pub proof fn long_and_short_skip_agree(w: Seq<char>, n: Seq<char>)
    requires
        !(w.len() > 1 && w[0] == '-'),
        w != "-p"@,
        w != "-s"@,
        w != "--skip"@,
        !attached(w, "-p"@),
        !attached(w, "-s"@),
        !attached(w, "--skip="@),
    ensures
        define_args_spec(seq![w, "--skip"@, n]) == define_args_spec(seq![w, "-s"@, n]),
{
    let ws = seq![w, "--skip"@, n];
    let ws2 = seq![w, "-s"@, n];
    assert(ws.update(1, "-s"@) =~= ws2);
    long_skip_reads_like_short_skip(ws, 1, (Some(w), None, None));
    assert(define_scan(ws, 0, (None, None, None)) == define_scan(ws, 1, (Some(w), None, None)));
    assert(define_scan(ws2, 0, (None, None, None)) == define_scan(ws2, 1, (Some(w), None, None)));
}

/// The arguments of `define` as the words `ws` give them: the word, the parts of speech
/// (none when not given) and the skip count (0 when not given), or the message of why they do
/// not read.
pub open spec fn define_args_spec(ws: Seq<Seq<char>>) -> Result<(Seq<char>, Seq<Seq<char>>, nat), Seq<char>> {
    match define_scan(ws, 0, (None, None, None)) {
        Err(m) => Err(m),
        Ok(st) => match st.0 {
            None => Err(missing_word_message()),
            Some(w) => {
                let skip = match st.2 {
                    Some(x) => x,
                    None => "0"@,
                };
                match uint_failure(skip, usize::MAX as nat) {
                    Some(m) => Err(bad_skip_message(m)),
                    None => Ok(
                        (
                            w,
                            match st.1 {
                                Some(p) => p,
                                None => Seq::<Seq<char>>::empty(),
                            },
                            uint_value(skip),
                        ),
                    ),
                }
            },
        },
    }
}

/// The arguments of the `define` command.
#[derive(Debug, Clone, PartialEq, Eq)]
pub struct DefineArgs {
    /// The word to look up.
    pub word: String,
    /// The parts of speech to keep; none means all.
    pub pos: Vec<String>,
    /// How many definitions to skip.
    pub skip: usize,
}

/// The error of an argument text that does not read: a user error with that message.
pub open spec fn arg_error(m: Seq<char>) -> ErrorView {
    ErrorView { message: m, user_error: true }
}

fn framed(before: &str, middle: &str, after: &str) -> (s: String)
    ensures
        s@ == before@ + middle@ + after@,
{
    let mut s = String::new();
    push_str(&mut s, before);
    push_str(&mut s, middle);
    push_str(&mut s, after);
    s
}

fn tail_string(t: &str, k: usize) -> (s: String)
    requires
        k <= t@.len(),
    ensures
        s@ == t@.skip(k as int),
{
    let cs = chars_of(t);
    let mut out: Vec<char> = Vec::new();
    let mut i = k;
    while i < cs.len()
        invariant
            k <= i <= cs.len(),
            cs@ == t@,
            out@ == cs@.subrange(k as int, i as int),
        decreases cs.len() - i,
    {
        out.push(cs[i]);
        i = i + 1;
        assert(out@ =~= cs@.subrange(k as int, i as int));
    }
    assert(cs@.subrange(k as int, cs.len() as int) =~= t@.skip(k as int));
    string_from_chars(&out)
}

/// The pieces of `s` between commas, in order.
pub fn split_on_commas(s: &str) -> (v: Vec<String>)
    ensures
        string_views(v@) == split_commas(s@),
{
    let cs = chars_of(s);
    let mut parts: Vec<String> = Vec::new();
    let mut cur = String::new();
    let mut i: usize = 0;
    assert(cs@.take(0) =~= Seq::<char>::empty());
    assert(string_views(parts@).push(cur@) =~= split_commas(cs@.take(0)));
    while i < cs.len()
        invariant
            i <= cs.len(),
            cs@ == s@,
            string_views(parts@).push(cur@) == split_commas(cs@.take(i as int)),
        decreases cs.len() - i,
    {
        let ghost pre = cs@.take(i as int);
        assert(cs@.take(i + 1).drop_last() =~= pre);
        assert(cs@.take(i + 1).last() == cs@[i as int]);
        proof { lemma_split_commas_nonempty(pre); }
        if cs[i] == ',' {
            let done = cur;
            parts.push(done);
            cur = String::new();
            assert(string_views(parts@) =~= split_commas(pre));
            assert(string_views(parts@).push(cur@) =~= split_commas(cs@.take(i + 1)));
        } else {
            let ghost before = cur@;
            push_char(&mut cur, cs[i]);
            assert(string_views(parts@).push(cur@) =~= split_commas(pre).update(
                split_commas(pre).len() - 1,
                before.push(cs@[i as int]),
            ));
        }
        i = i + 1;
    }
    assert(cs@.take(cs.len() as int) =~= cs@);
    parts.push(cur);
    assert(string_views(parts@) =~= split_commas(s@));
    parts
}

fn str_of(s: &String) -> (r: &str)
    ensures
        r@ == s@,
{
    s.as_str()
}

/// The view of a `define` reading state.
pub open spec fn define_state_view(word: Option<String>, pos: Option<Vec<String>>, skip: Option<String>) -> DefineState {
    (
        match word {
            Some(w) => Some(w@),
            None => None,
        },
        match pos {
            Some(p) => Some(string_views(p@)),
            None => None,
        },
        match skip {
            Some(k) => Some(k@),
            None => None,
        },
    )
}

fn refuse(m: String) -> (r: Result<DefineArgs, Error>)
    ensures
        r matches Err(e) && e@ == arg_error(m@),
{
    Err(Error::from_err(m, true))
}

/// Reads the `define` arguments from the words of the command line (see
/// [`define_args_spec`]).
pub fn define_args_from_words(ws: &Vec<String>) -> (r: Result<DefineArgs, Error>)
    ensures
        match define_args_spec(string_views(ws@)) {
            Ok((w, p, k)) => r matches Ok(a) && a.word@ == w && string_views(a.pos@) == p && a.skip == k,
            Err(m) => r matches Err(e) && e@ == arg_error(m),
        },
{
    proof {
        reveal_strlit("-p");
        reveal_strlit("-s");
        reveal_strlit("--skip=");
        reveal_strlit("--skip");
        reveal_strlit("");
    }
    let ghost views = string_views(ws@);
    let mut word: Option<String> = None;
    let mut pos: Option<Vec<String>> = None;
    let mut skip: Option<String> = None;
    let mut i: usize = 0;
    while i < ws.len()
        invariant
            i <= ws.len(),
            views == string_views(ws@),
            define_scan(views, 0, (None, None, None)) == define_scan(
                views,
                i as int,
                define_state_view(word, pos, skip),
            ),
        decreases ws.len() - i,
    {
        proof {
            reveal_strlit("-p");
            reveal_strlit("-s");
            reveal_strlit("--skip=");
            reveal_strlit("--skip");
        }
        let t = str_of(&ws[i]);
        assert(t@ == views[i as int]);
        let tc = chars_of(t);
        let is_p = str_eq(t, "-p");
        let att_p = crate::text::starts_with(t, "-p") && tc.len() > 2;
        let is_s = str_eq(t, "-s") || str_eq(t, "--skip");
        let att_skip = crate::text::starts_with(t, "--skip=") && tc.len() > 7;
        let att_s = crate::text::starts_with(t, "-s") && tc.len() > 2;
        let dash = tc.len() > 1 && tc[0] == '-';
        assert("-p"@.len() == 2 && "-s"@.len() == 2 && "--skip="@.len() == 7);
        assert(att_p == attached(t@, "-p"@));
        assert(att_skip == attached(t@, "--skip="@));
        assert(att_s == attached(t@, "-s"@));
        assert(dash == (t@.len() > 1 && t@[0] == '-'));
        if is_p {
            if pos.is_some() {
                return refuse(framed("The argument '", "-p", "' was provided more than once"));
            }
            if i + 1 >= ws.len() {
                return refuse(framed("The argument '", "-p", "' requires a value but none was supplied"));
            }
            let v = str_of(&ws[i + 1]);
            assert(v@ == views[i + 1]);
            pos = Some(split_on_commas(v));
            i = i + 2;
        } else if att_p {
            if pos.is_some() {
                return refuse(framed("The argument '", "-p", "' was provided more than once"));
            }
            let rest = tail_string(t, 2);
            pos = Some(split_on_commas(rest.as_str()));
            i = i + 1;
        } else if is_s {
            if skip.is_some() {
                return refuse(framed("The argument '", "-s", "' was provided more than once"));
            }
            if i + 1 >= ws.len() {
                return refuse(framed("The argument '", "-s", "' requires a value but none was supplied"));
            }
            skip = Some(ws[i + 1].clone());
            i = i + 2;
        } else if att_skip {
            if skip.is_some() {
                return refuse(framed("The argument '", "-s", "' was provided more than once"));
            }
            skip = Some(tail_string(t, 7));
            i = i + 1;
        } else if att_s {
            if skip.is_some() {
                return refuse(framed("The argument '", "-s", "' was provided more than once"));
            }
            skip = Some(tail_string(t, 2));
            i = i + 1;
        } else if dash {
            return refuse(framed("Found argument '", t, "' which wasn't expected"));
        } else if word.is_some() {
            return refuse(framed("Found argument '", t, "' which wasn't expected"));
        } else {
            word = Some(ws[i].clone());
            i = i + 1;
        }
    }
    assert(define_scan(views, i as int, define_state_view(word, pos, skip)) == Ok::<DefineState, Seq<char>>(
        define_state_view(word, pos, skip),
    ));
    let w = match word {
        None => return refuse(String::from_str("The following required argument was not provided: WORD")),
        Some(w) => w,
    };
    let skip_text = match skip {
        Some(k) => k,
        None => String::from_str("0"),
    };
    let n = match read_uint(skip_text.as_str(), usize::MAX as u64) {
        Err(m) => return refuse(framed("Invalid value for '-s': ", m.as_str(), "")),
        Ok(n) => n,
    };
    let p = match pos {
        Some(p) => p,
        None => Vec::new(),
    };
    assert(string_views(p@) =~= match define_state_view(None, pos, None).1 {
        Some(x) => x,
        None => Seq::<Seq<char>>::empty(),
    });
    Ok(DefineArgs { word: w, pos: p, skip: n as usize })
}

/// Reads the `define` arguments from the text after the command name: the text is split into
/// words by `shell_words`, which are read as [`define_args_from_words`] reads them.
pub fn parse_define_args(args: &str) -> (r: Result<DefineArgs, Error>)
    ensures
        match shell_words_split(args@) {
            None => r matches Err(e) && e@ == arg_error(unsplittable_message()),
            Some(ws) => match define_args_spec(ws) {
                Ok((w, p, k)) => r matches Ok(a) && a.word@ == w && string_views(a.pos@) == p && a.skip == k,
                Err(m) => r matches Err(e) && e@ == arg_error(m),
            },
        },
{
    match split_shell_words(args) {
        None => refuse(String::from_str("An error occurred while parsing the arguments string: missing closing quote")),
        Some(ws) => define_args_from_words(&ws),
    }
}

/// The subcommands of the older `config` command, as their words give them.
pub enum ConfigArgsView {
    SetValue(Seq<char>, Seq<char>),
    Get(Seq<char>),
    Help(Seq<char>),
}

/// What the words `ws` of an older `config` command line ask for: `set KEY VALUE`, `get KEY`
/// or `help KEY`, with no further words; otherwise the message of why they do not read.
pub open spec fn config_args_spec(ws: Seq<Seq<char>>) -> Result<ConfigArgsView, Seq<char>> {
    if ws.len() == 0 {
        Err(no_subcommand_message())
    } else if ws[0] == "set"@ {
        if ws.len() < 3 {
            Err(missing_arguments_message("set"@))
        } else if ws.len() > 3 {
            Err(unexpected_message(ws[3]))
        } else {
            Ok(ConfigArgsView::SetValue(ws[1], ws[2]))
        }
    } else if ws[0] == "get"@ || ws[0] == "help"@ {
        if ws.len() < 2 {
            Err(missing_arguments_message(ws[0]))
        } else if ws.len() > 2 {
            Err(unexpected_message(ws[2]))
        } else if ws[0] == "get"@ {
            Ok(ConfigArgsView::Get(ws[1]))
        } else {
            Ok(ConfigArgsView::Help(ws[1]))
        }
    } else {
        Err(unexpected_message(ws[0]))
    }
}

/// The subcommands of the older `config` command.
#[derive(Debug, Clone, PartialEq, Eq)]
pub enum ConfigArgs {
    /// Sets a key to a value.
    SetValue { key: String, value: String },
    /// Shows a key's value.
    Get { key: String },
    /// Shows a key's help.
    Help { key: String },
}

/// The view of the older `config` command's arguments.
pub open spec fn config_args_view(a: ConfigArgs) -> ConfigArgsView {
    match a {
        ConfigArgs::SetValue { key, value } => ConfigArgsView::SetValue(key@, value@),
        ConfigArgs::Get { key } => ConfigArgsView::Get(key@),
        ConfigArgs::Help { key } => ConfigArgsView::Help(key@),
    }
}

fn refuse_config(m: String) -> (r: Result<ConfigArgs, Error>)
    ensures
        r matches Err(e) && e@ == arg_error(m@),
{
    Err(Error::from_err(m, true))
}

/// Reads the older `config` command's arguments from the words of its command line (see
/// [`config_args_spec`]).
pub fn config_args_from_words(ws: &Vec<String>) -> (r: Result<ConfigArgs, Error>)
    ensures
        match config_args_spec(string_views(ws@)) {
            Ok(v) => r matches Ok(a) && config_args_view(a) == v,
            Err(m) => r matches Err(e) && e@ == arg_error(m),
        },
{
    let ghost views = string_views(ws@);
    if ws.len() == 0 {
        return refuse_config(String::from_str("A subcommand is required: set, get or help"));
    }
    let sub = str_of(&ws[0]);
    assert(sub@ == views[0]);
    if str_eq(sub, "set") {
        if ws.len() < 3 {
            return refuse_config(framed("The subcommand '", "set", "' is missing required arguments"));
        }
        if ws.len() > 3 {
            assert(ws@[3]@ == views[3]);
            return refuse_config(framed("Found argument '", ws[3].as_str(), "' which wasn't expected"));
        }
        assert(ws@[1]@ == views[1] && ws@[2]@ == views[2]);
        return Ok(ConfigArgs::SetValue { key: ws[1].clone(), value: ws[2].clone() });
    }
    let is_get = str_eq(sub, "get");
    if is_get || str_eq(sub, "help") {
        if ws.len() < 2 {
            return refuse_config(framed("The subcommand '", sub, "' is missing required arguments"));
        }
        if ws.len() > 2 {
            assert(ws@[2]@ == views[2]);
            return refuse_config(framed("Found argument '", ws[2].as_str(), "' which wasn't expected"));
        }
        assert(ws@[1]@ == views[1]);
        if is_get {
            return Ok(ConfigArgs::Get { key: ws[1].clone() });
        }
        return Ok(ConfigArgs::Help { key: ws[1].clone() });
    }
    refuse_config(framed("Found argument '", sub, "' which wasn't expected"))
}

/// Reads the older `config` command's arguments from the text after the command name: the
/// text is split into shell words, which are read as [`config_args_from_words`] reads
/// them.
pub fn parse_config_args(args: &str) -> (r: Result<ConfigArgs, Error>)
    ensures
        match shell_words_split(args@) {
            None => r matches Err(e) && e@ == arg_error(unsplittable_message()),
            Some(ws) => match config_args_spec(ws) {
                Ok(v) => r matches Ok(a) && config_args_view(a) == v,
                Err(m) => r matches Err(e) && e@ == arg_error(m),
            },
        },
{
    match split_shell_words(args) {
        None => refuse_config(
            String::from_str("An error occurred while parsing the arguments string: missing closing quote"),
        ),
        Some(ws) => config_args_from_words(&ws),
    }
}

/// The message of a `roles` command without a role and a subcommand.
pub open spec fn roles_subcommand_message() -> Seq<char> {
    "A role and a subcommand are required: add-user, rem-user or set-joinable"@
}

/// The message of a `set-joinable` value that is no boolean.
pub open spec fn bad_joinable_message() -> Seq<char> {
    "Invalid value for '<JOINABLE>': provided string was not `true` or `false`"@
}

/// The `roles` subcommands, as their words give them.
pub enum RolesArgsView {
    SetJoinable(Seq<char>, bool),
    AddUser(Seq<char>, Seq<char>),
    RemoveUser(Seq<char>, Seq<char>),
}

/// What the words `ws` of a `roles` command line ask for: `ROLE add-user USER`,
/// `ROLE rem-user USER` or `ROLE set-joinable [JOINABLE]` (a boolean, `true` when left out),
/// with no further words; a role starting with `-` is refused as an option.
pub open spec fn roles_args_spec(ws: Seq<Seq<char>>) -> Result<RolesArgsView, Seq<char>> {
    if ws.len() > 0 && ws[0].len() > 1 && ws[0][0] == '-' {
        Err(unexpected_message(ws[0]))
    } else if ws.len() < 2 {
        Err(roles_subcommand_message())
    } else if ws[1] == "add-user"@ || ws[1] == "rem-user"@ {
        if ws.len() < 3 {
            Err(missing_arguments_message(ws[1]))
        } else if ws.len() > 3 {
            Err(unexpected_message(ws[3]))
        } else if ws[1] == "add-user"@ {
            Ok(RolesArgsView::AddUser(ws[0], ws[2]))
        } else {
            Ok(RolesArgsView::RemoveUser(ws[0], ws[2]))
        }
    } else if ws[1] == "set-joinable"@ {
        if ws.len() > 3 {
            Err(unexpected_message(ws[3]))
        } else if ws.len() == 2 {
            Ok(RolesArgsView::SetJoinable(ws[0], true))
        } else if ws[2] == "true"@ {
            Ok(RolesArgsView::SetJoinable(ws[0], true))
        } else if ws[2] == "false"@ {
            Ok(RolesArgsView::SetJoinable(ws[0], false))
        } else {
            Err(bad_joinable_message())
        }
    } else {
        Err(unexpected_message(ws[1]))
    }
}

/// The arguments of the `roles` command.
#[derive(Debug, Clone, PartialEq, Eq)]
pub enum RolesArgs {
    /// Makes the role joinable, or no longer joinable.
    SetJoinable { role: String, joinable: bool },
    /// Gives the role to a user.
    AddUser { role: String, user: String },
    /// Takes the role from a user.
    RemoveUser { role: String, user: String },
}

/// The view of the `roles` command's arguments.
pub open spec fn roles_args_view(a: RolesArgs) -> RolesArgsView {
    match a {
        RolesArgs::SetJoinable { role, joinable } => RolesArgsView::SetJoinable(role@, joinable),
        RolesArgs::AddUser { role, user } => RolesArgsView::AddUser(role@, user@),
        RolesArgs::RemoveUser { role, user } => RolesArgsView::RemoveUser(role@, user@),
    }
}

fn refuse_roles(m: String) -> (r: Result<RolesArgs, Error>)
    ensures
        r matches Err(e) && e@ == arg_error(m@),
{
    Err(Error::from_err(m, true))
}

/// Reads the `roles` command's arguments from the words of its command line (see
/// [`roles_args_spec`]).
pub fn roles_args_from_words(ws: &Vec<String>) -> (r: Result<RolesArgs, Error>)
    ensures
        match roles_args_spec(string_views(ws@)) {
            Ok(v) => r matches Ok(a) && roles_args_view(a) == v,
            Err(m) => r matches Err(e) && e@ == arg_error(m),
        },
{
    let ghost views = string_views(ws@);
    if ws.len() > 0 {
        let first = str_of(&ws[0]);
        assert(first@ == views[0]);
        let fc = chars_of(first);
        if fc.len() > 1 && fc[0] == '-' {
            return refuse_roles(framed("Found argument '", first, "' which wasn't expected"));
        }
    }
    if ws.len() < 2 {
        return refuse_roles(
            String::from_str("A role and a subcommand are required: add-user, rem-user or set-joinable"),
        );
    }
    let sub = str_of(&ws[1]);
    assert(sub@ == views[1]);
    assert(ws@[0]@ == views[0]);
    let is_add = str_eq(sub, "add-user");
    if is_add || str_eq(sub, "rem-user") {
        if ws.len() < 3 {
            return refuse_roles(framed("The subcommand '", sub, "' is missing required arguments"));
        }
        if ws.len() > 3 {
            assert(ws@[3]@ == views[3]);
            return refuse_roles(framed("Found argument '", ws[3].as_str(), "' which wasn't expected"));
        }
        assert(ws@[2]@ == views[2]);
        if is_add {
            return Ok(RolesArgs::AddUser { role: ws[0].clone(), user: ws[2].clone() });
        }
        return Ok(RolesArgs::RemoveUser { role: ws[0].clone(), user: ws[2].clone() });
    }
    if str_eq(sub, "set-joinable") {
        if ws.len() > 3 {
            assert(ws@[3]@ == views[3]);
            return refuse_roles(framed("Found argument '", ws[3].as_str(), "' which wasn't expected"));
        }
        if ws.len() == 2 {
            return Ok(RolesArgs::SetJoinable { role: ws[0].clone(), joinable: true });
        }
        let v = str_of(&ws[2]);
        assert(v@ == views[2]);
        if str_eq(v, "true") {
            return Ok(RolesArgs::SetJoinable { role: ws[0].clone(), joinable: true });
        }
        if str_eq(v, "false") {
            return Ok(RolesArgs::SetJoinable { role: ws[0].clone(), joinable: false });
        }
        return refuse_roles(
            String::from_str("Invalid value for '<JOINABLE>': provided string was not `true` or `false`"),
        );
    }
    refuse_roles(framed("Found argument '", sub, "' which wasn't expected"))
}

/// Reads the `roles` command's arguments from the text after the command name: the text is
/// split into words by `shell_words`, which are read as [`roles_args_from_words`] reads them.
pub fn parse_roles_args(args: &str) -> (r: Result<RolesArgs, Error>)
    ensures
        match shell_words_split(args@) {
            None => r matches Err(e) && e@ == arg_error(unsplittable_message()),
            Some(ws) => match roles_args_spec(ws) {
                Ok(v) => r matches Ok(a) && roles_args_view(a) == v,
                Err(m) => r matches Err(e) && e@ == arg_error(m),
            },
        },
{
    match split_shell_words(args) {
        None => refuse_roles(
            String::from_str("An error occurred while parsing the arguments string: missing closing quote"),
        ),
        Some(ws) => roles_args_from_words(&ws),
    }
}

/// The message of a `me` command without a subcommand.
pub open spec fn me_subcommand_message() -> Seq<char> {
    "A subcommand is required: join-role or leave-role"@
}

/// The `me` subcommands, as their words give them: joining (`true`) or leaving a role.
pub enum MeArgsView {
    Role(bool, Seq<char>),
}

/// What the words `ws` of a `me` command line ask for: `join-role ROLE` or `leave-role ROLE`,
/// with no further words.
pub open spec fn me_args_spec(ws: Seq<Seq<char>>) -> Result<MeArgsView, Seq<char>> {
    if ws.len() == 0 {
        Err(me_subcommand_message())
    } else if ws[0] == "join-role"@ || ws[0] == "leave-role"@ {
        if ws.len() < 2 {
            Err(missing_arguments_message(ws[0]))
        } else if ws.len() > 2 {
            Err(unexpected_message(ws[2]))
        } else {
            Ok(MeArgsView::Role(ws[0] == "join-role"@, ws[1]))
        }
    } else {
        Err(unexpected_message(ws[0]))
    }
}

/// The arguments of the `me` command.
#[derive(Debug, Clone, PartialEq, Eq)]
pub enum MeArgs {
    /// Joins a joinable role.
    JoinRole { role: String },
    /// Leaves a joinable role.
    LeaveRole { role: String },
}

/// The view of the `me` command's arguments.
pub open spec fn me_args_view(a: MeArgs) -> MeArgsView {
    match a {
        MeArgs::JoinRole { role } => MeArgsView::Role(true, role@),
        MeArgs::LeaveRole { role } => MeArgsView::Role(false, role@),
    }
}

fn refuse_me(m: String) -> (r: Result<MeArgs, Error>)
    ensures
        r matches Err(e) && e@ == arg_error(m@),
{
    Err(Error::from_err(m, true))
}

/// Reads the `me` command's arguments from the words of its command line (see
/// [`me_args_spec`]).
pub fn me_args_from_words(ws: &Vec<String>) -> (r: Result<MeArgs, Error>)
    ensures
        match me_args_spec(string_views(ws@)) {
            Ok(v) => r matches Ok(a) && me_args_view(a) == v,
            Err(m) => r matches Err(e) && e@ == arg_error(m),
        },
{
    let ghost views = string_views(ws@);
    if ws.len() == 0 {
        return refuse_me(String::from_str("A subcommand is required: join-role or leave-role"));
    }
    let sub = str_of(&ws[0]);
    assert(sub@ == views[0]);
    let joining = str_eq(sub, "join-role");
    if joining || str_eq(sub, "leave-role") {
        if ws.len() < 2 {
            return refuse_me(framed("The subcommand '", sub, "' is missing required arguments"));
        }
        if ws.len() > 2 {
            assert(ws@[2]@ == views[2]);
            return refuse_me(framed("Found argument '", ws[2].as_str(), "' which wasn't expected"));
        }
        assert(ws@[1]@ == views[1]);
        if joining {
            return Ok(MeArgs::JoinRole { role: ws[1].clone() });
        }
        return Ok(MeArgs::LeaveRole { role: ws[1].clone() });
    }
    refuse_me(framed("Found argument '", sub, "' which wasn't expected"))
}

/// Reads the `me` command's arguments from the text after the command name: the text is split
/// into words by `shell_words`, which are read as [`me_args_from_words`] reads them.
pub fn parse_me_args(args: &str) -> (r: Result<MeArgs, Error>)
    ensures
        match shell_words_split(args@) {
            None => r matches Err(e) && e@ == arg_error(unsplittable_message()),
            Some(ws) => match me_args_spec(ws) {
                Ok(v) => r matches Ok(a) && me_args_view(a) == v,
                Err(m) => r matches Err(e) && e@ == arg_error(m),
            },
        },
{
    match split_shell_words(args) {
        None => refuse_me(
            String::from_str("An error occurred while parsing the arguments string: missing closing quote"),
        ),
        Some(ws) => me_args_from_words(&ws),
    }
}

} // verus!
