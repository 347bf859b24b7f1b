//! Validation of guild configuration values, and the replies of the `config` command.

use vstd::prelude::*;
use crate::pattern::{regex_is_match, regex_match};
use crate::text::{chars_of, is_digit, push_str};
use crate::dice::digits_value;

verus! {

/// The message of an integer parse of the empty string.
pub open spec fn empty_int_message() -> Seq<char> {
    "cannot parse integer from empty string"@
}

/// The message of an integer parse that met a character that is not a digit.
pub open spec fn invalid_digit_message() -> Seq<char> {
    "invalid digit found in string"@
}

/// The message of an integer parse whose value overflows the type.
pub open spec fn overflow_message() -> Seq<char> {
    "number too large to fit in target type"@
}

/// The message of a failed `bool` parse.
pub open spec fn bool_message() -> Seq<char> {
    "provided string was not `true` or `false`"@
}

/// Scans decimal digits from position `i` with `acc` read so far, failing on the first
/// character that is not a digit or on the first digit that takes the value past `max`.
pub open spec fn digits_failure(d: Seq<char>, i: int, acc: nat, max: nat) -> Option<Seq<char>>
    decreases d.len() - i,
{
    if i < 0 || i >= d.len() {
        None
    } else if !is_digit(d[i]) {
        Some(invalid_digit_message())
    } else {
        let v = acc * 10 + ((d[i] as int - '0' as int) as nat);
        if v > max {
            Some(overflow_message())
        } else {
            digits_failure(d, i + 1, v, max)
        }
    }
}

/// How parsing `s` as an unsigned integer no larger than `max` fails, if it does: an
/// optional `+` followed by decimal digits is accepted.
pub open spec fn uint_failure(s: Seq<char>, max: nat) -> Option<Seq<char>> {
    if s.len() == 0 {
        Some(empty_int_message())
    } else if s.len() == 1 && (s[0] == '+' || s[0] == '-') {
        Some(invalid_digit_message())
    } else if s[0] == '+' {
        digits_failure(s, 1, 0, max)
    } else {
        digits_failure(s, 0, 0, max)
    }
}

/// Types whose values can be read from strings, with the message of a failed read.
pub trait Parseable {
    /// The message of the failure of reading `s`, or `None` when it reads.
    spec fn parse_failure(s: Seq<char>) -> Option<Seq<char>>;

    /// Reads `s` and reports the failure message, if any.
    fn check_parse(s: &str) -> (r: Option<String>)
        ensures
            match Self::parse_failure(s@) {
                Some(m) => r matches Some(x) && x@ == m,
                None => r is None,
            },
    ;
}

fn static_message(t: &str) -> (r: Option<String>)
    ensures
        r matches Some(x) && x@ == t@,
{
    Some(String::from_str(t))
}

/// The digits of an unsigned integer as written: without its leading `+`, if any.
pub open spec fn uint_digits(s: Seq<char>) -> Seq<char> {
    if s.len() > 0 && s[0] == '+' {
        s.skip(1)
    } else {
        s
    }
}

/// The value of an unsigned integer as written.
pub open spec fn uint_value(s: Seq<char>) -> nat {
    digits_value(uint_digits(s))
}

/// Reads `s` as an unsigned integer no larger than `max`: its value, or the reason it does not
/// read.
pub fn read_uint(s: &str, max: u64) -> (r: Result<u64, String>)
    ensures
        match uint_failure(s@, max as nat) {
            Some(m) => r matches Err(x) && x@ == m,
            None => r matches Ok(v) && v == uint_value(s@) && v <= max,
        },
{
    proof {
        reveal_strlit("cannot parse integer from empty string");
        reveal_strlit("invalid digit found in string");
        reveal_strlit("number too large to fit in target type");
    }
    let cs = chars_of(s);
    if cs.len() == 0 {
        return Err(String::from_str("cannot parse integer from empty string"));
    }
    if cs.len() == 1 && (cs[0] == '+' || cs[0] == '-') {
        return Err(String::from_str("invalid digit found in string"));
    }
    let start: usize = if cs[0] == '+' { 1 } else { 0 };
    let mut i: usize = start;
    let mut acc: u64 = 0;
    assert(cs@.subrange(start as int, start as int) =~= Seq::<char>::empty());
    while i < cs.len()
        invariant
            start <= i <= cs.len(),
            start == (if cs@[0] == '+' { 1usize } else { 0usize }),
            cs@ == s@,
            cs@.len() > 0,
            acc <= max,
            acc == digits_value(cs@.subrange(start as int, i as int)),
            uint_failure(s@, max as nat) == digits_failure(cs@, i as int, acc as nat, max as nat),
        decreases cs.len() - i,
    {
        let c = cs[i];
        if !('0' <= c && c <= '9') {
            return Err(String::from_str("invalid digit found in string"));
        }
        let v: u128 = acc as u128 * 10 + (c as u32 - '0' as u32) as u128;
        if v > max as u128 {
            return Err(String::from_str("number too large to fit in target type"));
        }
        assert(cs@.subrange(start as int, i + 1).drop_last() =~= cs@.subrange(start as int, i as int));
        acc = v as u64;
        i = i + 1;
    }
    assert(cs@.subrange(start as int, cs@.len() as int) =~= uint_digits(s@));
    Ok(acc)
}

/// Reads `s` as an unsigned integer no larger than `max`.
fn check_uint(s: &str, max: u64) -> (r: Option<String>)
    ensures
        match uint_failure(s@, max as nat) {
            Some(m) => r matches Some(x) && x@ == m,
            None => r is None,
        },
{
    match read_uint(s, max) {
        Ok(_) => None,
        Err(m) => Some(m),
    }
}

/// The message of a `char` parse of the empty string.
pub open spec fn empty_char_message() -> Seq<char> {
    "cannot parse char from empty string"@
}

/// The message of a `char` parse of more than one character.
pub open spec fn too_many_chars_message() -> Seq<char> {
    "too many characters in string"@
}

impl Parseable for char {
    open spec fn parse_failure(s: Seq<char>) -> Option<Seq<char>> {
        if s.len() == 0 {
            Some(empty_char_message())
        } else if s.len() > 1 {
            Some(too_many_chars_message())
        } else {
            None
        }
    }

    fn check_parse(s: &str) -> (r: Option<String>) {
        proof {
            reveal_strlit("cannot parse char from empty string");
            reveal_strlit("too many characters in string");
        }
        let cs = chars_of(s);
        if cs.len() == 0 {
            static_message("cannot parse char from empty string")
        } else if cs.len() > 1 {
            static_message("too many characters in string")
        } else {
            None
        }
    }
}

impl Parseable for bool {
    open spec fn parse_failure(s: Seq<char>) -> Option<Seq<char>> {
        if s == "true"@ || s == "false"@ {
            None
        } else {
            Some(bool_message())
        }
    }

    fn check_parse(s: &str) -> (r: Option<String>) {
        proof {
            reveal_strlit("true");
            reveal_strlit("false");
            reveal_strlit("provided string was not `true` or `false`");
        }
        let cs = chars_of(s);
        let t = chars_of("true");
        let f = chars_of("false");
        if vec_eq(&cs, &t) || vec_eq(&cs, &f) {
            None
        } else {
            static_message("provided string was not `true` or `false`")
        }
    }
}

impl Parseable for u64 {
    open spec fn parse_failure(s: Seq<char>) -> Option<Seq<char>> {
        uint_failure(s, u64::MAX as nat)
    }

    fn check_parse(s: &str) -> (r: Option<String>) {
        check_uint(s, u64::MAX)
    }
}

impl Parseable for usize {
    open spec fn parse_failure(s: Seq<char>) -> Option<Seq<char>> {
        uint_failure(s, usize::MAX as nat)
    }

    fn check_parse(s: &str) -> (r: Option<String>) {
        check_uint(s, usize::MAX as u64)
    }
}

/// Whether two character vectors hold the same characters.
pub fn vec_eq(a: &Vec<char>, b: &Vec<char>) -> (r: bool)
    ensures
        r == (a@ == b@),
{
    if a.len() != b.len() {
        return false;
    }
    let mut i: usize = 0;
    while i < a.len()
        invariant
            i <= a.len(),
            a.len() == b.len(),
            forall|k: int| 0 <= k < i ==> a@[k] == b@[k],
        decreases a.len() - i,
    {
        if a[i] != b[i] {
            return false;
        }
        i = i + 1;
    }
    assert(a@ =~= b@);
    true
}

/// Whether `s` is a boolean: `true` or `false`.
pub fn valid_bool(s: &str) -> (r: bool)
    ensures
        r == (s@ == "true"@ || s@ == "false"@),
{
    valid_parseable::<bool>(s)
}

/// Whether `s` can be read as a `T`.
pub fn valid_parseable<T: Parseable>(s: &str) -> (r: bool)
    ensures
        r == T::parse_failure(s@) is None,
{
    T::check_parse(s).is_none()
}

/// `Ok` when `s` can be read as a `T`, otherwise the reason it cannot.
pub fn fallible_validator<T: Parseable>(s: String) -> (r: Result<(), String>)
    ensures
        match T::parse_failure(s@) {
            Some(m) => r matches Err(x) && x@ == m,
            None => r is Ok,
        },
{
    match T::check_parse(s.as_str()) {
        Some(m) => Err(m),
        None => Ok(()),
    }
}

/// The pattern a command prefix must match: a mathematical symbol or a punctuation mark.
pub open spec fn command_prefix_pattern() -> Seq<char> {
    "[\\p{Math Symbol}\\p{Punctuation}]"@
}

/// Whether `s` is a single character, and that character a mathematical symbol or a
/// punctuation mark, as the `regex` crate matches `[\p{Math Symbol}\p{Punctuation}]`.
pub fn validate_command_prefix(s: &str) -> (r: bool)
    ensures
        r == (s@.len() == 1 && regex_match(command_prefix_pattern(), s@) == Some(true)),
{
    let cs = crate::text::chars_of(s);
    if cs.len() != 1 {
        return false;
    }
    match regex_is_match("[\\p{Math Symbol}\\p{Punctuation}]", s) {
        Some(b) => b,
        None => false,
    }
}

/// The check a configuration value's input must pass.
#[derive(Debug, Clone, Copy, PartialEq, Eq)]
pub enum ConfigValidatorFn {
    /// `true` or `false`.
    Bool,
    /// An unsigned 64-bit integer.
    U64,
    /// A command prefix (see [`validate_command_prefix`]).
    CommandPrefix,
}

/// Whether input `s` passes check `v`.
pub open spec fn passes(v: ConfigValidatorFn, s: Seq<char>) -> bool {
    match v {
        ConfigValidatorFn::Bool => s == "true"@ || s == "false"@,
        ConfigValidatorFn::U64 => uint_failure(s, u64::MAX as nat) is None,
        ConfigValidatorFn::CommandPrefix => s.len() == 1 && regex_match(command_prefix_pattern(), s) == Some(true),
    }
}

/// A configuration value that can be validated: its name, help, check and default.
#[derive(Clone)]
pub struct Value {
    name: &'static str,
    help: &'static str,
    validator: ConfigValidatorFn,
    default: Option<String>,
}

/// The abstract content of a [`Value`].
pub struct ValueView {
    pub name: Seq<char>,
    pub help: Seq<char>,
    pub validator: ConfigValidatorFn,
    pub default: Option<Seq<char>>,
}

/// The view of an optional string.
pub open spec fn opt_view(o: Option<String>) -> Option<Seq<char>> {
    match o {
        Some(s) => Some(s@),
        None => None,
    }
}

impl View for Value {
    type V = ValueView;

    closed spec fn view(&self) -> ValueView {
        ValueView {
            name: self.name@,
            help: self.help@,
            validator: self.validator,
            default: opt_view(self.default),
        }
    }
}

impl Value {
    /// A value with the given name, help, check and optional default.
    pub fn new(
        name: &'static str,
        help: &'static str,
        validator: ConfigValidatorFn,
        default: Option<&str>,
    ) -> (v: Value)
        ensures
            v@.name == name@,
            v@.help == help@,
            v@.validator == validator,
            v@.default == match default {
                Some(d) => Some(d@),
                None => None::<Seq<char>>,
            },
    {
        let d = match default {
            Some(x) => Some(String::from_str(x)),
            None => None,
        };
        Value { name, help, validator, default: d }
    }

    /// The name of the configuration key.
    pub fn name(&self) -> (s: &'static str)
        ensures
            s@ == self@.name,
    {
        self.name
    }

    /// The help text of the configuration key.
    pub fn help(&self) -> (s: &'static str)
        ensures
            s@ == self@.help,
    {
        self.help
    }

    /// Whether `s` is an acceptable setting for this value.
    pub fn is_valid(&self, s: &str) -> (b: bool)
        ensures
            b == passes(self@.validator, s@),
    {
        match self.validator {
            ConfigValidatorFn::Bool => valid_bool(s),
            ConfigValidatorFn::U64 => valid_parseable::<u64>(s),
            ConfigValidatorFn::CommandPrefix => validate_command_prefix(s),
        }
    }

    /// The default setting, if the value has one.
    pub fn default(&self) -> (d: Option<&String>)
        ensures
            match self@.default {
                Some(x) => d matches Some(y) && y@ == x,
                None => d is None,
            },
    {
        self.default.as_ref()
    }
}

/// Why a configuration request failed.
#[derive(Debug, Clone, PartialEq, Eq)]
pub enum Error {
    /// There is no key with that name.
    NoSuchKey(String),
    /// The input is not valid for the named key.
    InvalidValue(String),
    /// The key has no default.
    NoDefault,
}

impl Error {
    /// The message shown to the user.
    pub fn message(&self) -> (m: String)
        ensures
            m@ == match self {
                Error::NoSuchKey(k) => "No such configuration key: "@ + k@,
                Error::InvalidValue(n) => "Config value is invalid: "@ + n@,
                Error::NoDefault => "There is no default value for that."@,
            },
    {
        match self {
            Error::NoSuchKey(k) => {
                let mut m = String::from_str("No such configuration key: ");
                push_str(&mut m, k.as_str());
                m
            },
            Error::InvalidValue(n) => {
                let mut m = String::from_str("Config value is invalid: ");
                push_str(&mut m, n.as_str());
                m
            },
            Error::NoDefault => String::from_str("There is no default value for that."),
        }
    }
}

/// The registry of configuration values that guild settings are checked against.
pub struct Validator {
    validators: Vec<Value>,
}

/// The position of the value named `key` among `vs`, searching from the front.
pub open spec fn position_of(vs: Seq<ValueView>, key: Seq<char>) -> Option<int>
    decreases vs.len(),
{
    if vs.len() == 0 {
        None
    } else if vs[0].name == key {
        Some(0)
    } else {
        match position_of(vs.skip(1), key) {
            Some(i) => Some(i + 1),
            None => None,
        }
    }
}

/// The value named `key` in the registry `vs`, if any.
pub open spec fn lookup(vs: Seq<ValueView>, key: Seq<char>) -> Option<ValueView> {
    match position_of(vs, key) {
        Some(i) => Some(vs[i]),
        None => None,
    }
}

/// The views of a sequence of values.
pub open spec fn value_views(vs: Seq<Value>) -> Seq<ValueView> {
    vs.map_values(|v: Value| v@)
}

proof fn lemma_position_of(vs: Seq<ValueView>, key: Seq<char>)
    ensures
        position_of(vs, key) matches Some(i) ==> 0 <= i < vs.len() && vs[i].name == key && forall|
            j: int,
        | 0 <= j < i ==> vs[j].name != key,
        position_of(vs, key) is None ==> forall|j: int| 0 <= j < vs.len() ==> vs[j].name != key,
    decreases vs.len(),
{
    if vs.len() > 0 && vs[0].name != key {
        lemma_position_of(vs.skip(1), key);
        assert forall|j: int| 1 <= j < vs.len() implies vs[j] == vs.skip(1)[j - 1] by {}
    }
}

impl Validator {
    /// A registry with no values.
    pub fn new() -> (v: Validator)
        ensures
            v.entries() == Seq::<ValueView>::empty(),
    {
        Validator { validators: Vec::new() }
    }

    /// The registered values, in the order they were added.
    pub closed spec fn entries(&self) -> Seq<ValueView> {
        value_views(self.validators@)
    }

    fn find(&self, key: &str) -> (r: Option<usize>)
        ensures
            match r {
                Some(i) => position_of(self.entries(), key@) == Some(i as int) && i
                    < self.validators@.len() && self.entries()[i as int]
                    == self.validators@[i as int]@ && lookup(self.entries(), key@) == Some(
                    self.validators@[i as int]@,
                ),
                None => position_of(self.entries(), key@) is None && lookup(
                    self.entries(),
                    key@,
                ) is None,
            },
    {
        proof { lemma_position_of(self.entries(), key@); }
        let k = chars_of(key);
        let mut i: usize = 0;
        while i < self.validators.len()
            invariant
                i <= self.validators.len(),
                k@ == key@,
                self.entries() == value_views(self.validators@),
                forall|j: int| 0 <= j < i ==> self.entries()[j].name != key@,
            decreases self.validators.len() - i,
        {
            let n = chars_of(self.validators[i].name);
            assert(self.entries()[i as int] == self.validators@[i as int]@);
            if vec_eq(&n, &k) {
                proof {
                    lemma_position_of(self.entries(), key@);
                    assert(self.entries()[i as int].name == key@);
                    match position_of(self.entries(), key@) {
                        Some(i2) => {
                            if i2 > i {
                                assert(self.entries()[i as int].name != key@);
                            }
                        },
                        None => {
                            assert(self.entries()[i as int].name != key@);
                        },
                    }
                }
                return Some(i);
            }
            i = i + 1;
        }
        None
    }

    /// Checks `value` against the key `config_name`.
    pub fn validate(&self, config_name: &str, value: &str) -> (r: Result<(), Error>)
        ensures
            match lookup(self.entries(), config_name@) {
                None => r matches Err(Error::NoSuchKey(k)) && k@ == config_name@,
                Some(v) => if passes(v.validator, value@) {
                    r is Ok
                } else {
                    r matches Err(Error::InvalidValue(n)) && n@ == v.name
                },
            },
    {
        match self.find(config_name) {
            Some(i) => {
                let cval = &self.validators[i];
                if cval.is_valid(value) {
                    Ok(())
                } else {
                    Err(Error::InvalidValue(String::from_str(cval.name)))
                }
            },
            None => Err(Error::NoSuchKey(String::from_str(config_name))),
        }
    }

    /// `Ok` when `key` is a registered configuration key.
    pub fn check_key(&self, key: &str) -> (r: Result<(), Error>)
        ensures
            match lookup(self.entries(), key@) {
                None => r matches Err(Error::NoSuchKey(k)) && k@ == key@,
                Some(_) => r is Ok,
            },
    {
        match self.find(key) {
            Some(_) => Ok(()),
            None => Err(Error::NoSuchKey(String::from_str(key))),
        }
    }

    /// Registers a value, replacing any value of the same name.
    pub fn add_value(&mut self, v: Value)
        ensures
            lookup(final(self).entries(), v@.name) == Some(v@),
            forall|k: Seq<char>| k != v@.name ==> lookup(final(self).entries(), k) == lookup(
                old(self).entries(),
                k,
            ),
    {
        let ghost before = self.entries();
        let ghost vv = v@;
        proof { lemma_position_of(before, v@.name); }
        match self.find(v.name) {
            Some(i) => {
                self.validators.set(i, v);
                proof {
                    let after = self.entries();
                    assert(after =~= before.update(i as int, vv));
                    lemma_position_of(after, vv.name);
                    match position_of(after, vv.name) {
                        Some(i2) => {
                            if i2 < i {
                                assert(before[i2].name == vv.name);
                            } else if i2 > i {
                                assert(after[i as int].name == vv.name);
                            }
                        },
                        None => {
                            assert(after[i as int].name == vv.name);
                        },
                    }
                    assert forall|k: Seq<char>| k != v@.name implies lookup(after, k) == lookup(
                        before,
                        k,
                    ) by {
                        lemma_position_of(after, k);
                        lemma_position_of(before, k);
                        lemma_same_position(before, after, k);
                    }
                }
            },
            None => {
                self.validators.push(v);
                proof {
                    let after = self.entries();
                    assert(after =~= before.push(vv));
                    lemma_position_of(after, vv.name);
                    match position_of(after, vv.name) {
                        Some(i2) => {
                            if i2 < before.len() {
                                assert(before[i2].name == vv.name);
                            }
                        },
                        None => {
                            assert(after[before.len() as int].name == vv.name);
                        },
                    }
                    assert forall|k: Seq<char>| k != v@.name implies lookup(after, k) == lookup(
                        before,
                        k,
                    ) by {
                        lemma_position_of(after, k);
                        lemma_position_of(before, k);
                        lemma_same_position(before, after, k);
                    }
                }
            },
        }
    }

    /// The default setting of `key`.
    pub fn default_for(&self, key: &str) -> (r: Result<&String, Error>)
        ensures
            match lookup(self.entries(), key@) {
                Some(v) => match v.default {
                    Some(d) => r matches Ok(x) && x@ == d,
                    None => r == Err::<&String, Error>(Error::NoDefault),
                },
                None => r == Err::<&String, Error>(Error::NoDefault),
            },
    {
        match self.find(key) {
            Some(i) => match self.validators[i].default() {
                Some(d) => Ok(d),
                None => Err(Error::NoDefault),
            },
            None => Err(Error::NoDefault),
        }
    }

    /// The help text of `key`.
    pub fn help_for(&self, key: &str) -> (r: Result<&'static str, Error>)
        ensures
            match lookup(self.entries(), key@) {
                Some(v) => r matches Ok(x) && x@ == v.help,
                None => r matches Err(Error::NoSuchKey(k)) && k@ == key@,
            },
    {
        match self.find(key) {
            Some(i) => Ok(self.validators[i].help()),
            None => Err(Error::NoSuchKey(String::from_str(key))),
        }
    }
}

/// Two registries that agree on every name but `changed`, where `after` is `before` with one
/// entry replaced or one entry added at the end, find any other name at the same place.
proof fn lemma_same_position(before: Seq<ValueView>, after: Seq<ValueView>, k: Seq<char>)
    requires
        after.len() >= before.len(),
        forall|j: int| 0 <= j < before.len() ==> (before[j].name == k) == (after[j].name == k),
        forall|j: int| 0 <= j < before.len() && before[j].name == k ==> after[j] == before[j],
        forall|j: int| before.len() <= j < after.len() ==> after[j].name != k,
    ensures
        lookup(after, k) == lookup(before, k),
{
    lemma_position_of(after, k);
    lemma_position_of(before, k);
    match position_of(before, k) {
        Some(i) => {
            match position_of(after, k) {
                Some(i2) => {
                    if i2 < i {
                        assert(before[i2].name == k);
                    } else if i < i2 {
                        assert(after[i].name == k);
                    }
                },
                None => {
                    assert(after[i].name == k);
                },
            }
        },
        None => {
            match position_of(after, k) {
                Some(i2) => {
                    if i2 < before.len() {
                        assert(before[i2].name == k);
                    }
                },
                None => {},
            }
        },
    }
}

/// The reply to `config help <key>`.
pub fn help_reply(key: &str, help: &str) -> (s: String)
    ensures
        s@ == key@ + ": "@ + help@,
{
    let mut s = String::from_str(key);
    push_str(&mut s, ": ");
    push_str(&mut s, help);
    s
}

/// The reply to `config get <key>`.
pub fn get_reply(key: &str, value: &str) -> (s: String)
    ensures
        s@ == key@ + " is set to "@ + value@,
{
    let mut s = String::from_str(key);
    push_str(&mut s, " is set to ");
    push_str(&mut s, value);
    s
}

/// The reply to `config set <key> <value>`.
pub fn set_reply(key: &str, value: &str) -> (s: String)
    ensures
        s@ == "Set "@ + key@ + " to "@ + value@,
{
    let mut s = String::from_str("Set ");
    push_str(&mut s, key);
    push_str(&mut s, " to ");
    push_str(&mut s, value);
    s
}

} // verus!
