//! Configuration of the ASR server: command-line options over `OTOA_ASR_*`
//! environment variables over built-in defaults, then validated.

use crate::number::{parse_unsigned, parse_unsigned_chars, IntErrorKind};
use crate::text::{
    decimal, push_decimal, push_str, ascii_lower_seq, ascii_upper_seq, chars_eq, chars_have_prefix, chars_of, concat, debug_quoted,
    has_prefix, owned, push_chars, push_debug_quoted, replace_char, replace_char_seq, string_of,
    to_ascii_lower, to_ascii_upper, trim_chars, trimmed,
};
use vstd::prelude::*;

verus! {

/// The views of a list of strings.
pub open spec fn strings_view(v: Seq<String>) -> Seq<Seq<char>> {
    v.map_values(|s: String| s@)
}

/// The views of a list of name/value pairs.
pub open spec fn pairs_view(v: Seq<(String, String)>) -> Seq<(Seq<char>, Seq<char>)> {
    v.map_values(|p: (String, String)| (p.0@, p.1@))
}

/// A list of name/value pairs read as a map; a later pair overrides an
/// earlier one with the same name, as inserting them in order into a
/// `HashMap` does.
pub open spec fn pairs_map(p: Seq<(Seq<char>, Seq<char>)>) -> Map<Seq<char>, Seq<char>>
    decreases p.len(),
{
    if p.len() == 0 {
        Map::empty()
    } else {
        pairs_map(p.drop_last()).insert(p.last().0, p.last().1)
    }
}

/// The value of `key` in `m`, if any.
pub open spec fn lookup(m: Map<Seq<char>, Seq<char>>, key: Seq<char>) -> Option<Seq<char>> {
    if m.dom().contains(key) {
        Some(m[key])
    } else {
        None
    }
}

/// A configuration error, by its content.
pub enum ConfigErrorView {
    UnexpectedArgument(Seq<char>),
    UnknownOption(Seq<char>),
    MissingValue(Seq<char>),
    InvalidNumber { name: Seq<char>, value: Seq<char>, kind: IntErrorKind },
    InvalidBoolean { name: Seq<char>, value: Seq<char> },
    EmptyHost,
    ZeroPort,
    PathWithoutSlash,
    ZeroThreads,
    ZeroMaxUtterance,
    ZeroPartialInterval,
}

/// Why the configuration was refused.
#[derive(Debug)]
pub enum ConfigError {
    /// An argument that is not an `--option`.
    UnexpectedArgument(String),
    /// An option that is not known; holds its name in `--` form without the dashes.
    UnknownOption(String),
    /// An option that needs a value was last, with none after it.
    MissingValue(String),
    /// The value of a numeric option (given by its underscore name) did not parse.
    InvalidNumber { name: String, value: String, kind: IntErrorKind },
    /// The value of a boolean option did not read as true or false.
    InvalidBoolean { name: String, value: String },
    EmptyHost,
    ZeroPort,
    PathWithoutSlash,
    ZeroThreads,
    ZeroMaxUtterance,
    ZeroPartialInterval,
}

impl View for ConfigError {
    type V = ConfigErrorView;

    open spec fn view(&self) -> ConfigErrorView {
        match self {
            ConfigError::UnexpectedArgument(a) => ConfigErrorView::UnexpectedArgument(a@),
            ConfigError::UnknownOption(a) => ConfigErrorView::UnknownOption(a@),
            ConfigError::MissingValue(a) => ConfigErrorView::MissingValue(a@),
            ConfigError::InvalidNumber { name, value, kind } => ConfigErrorView::InvalidNumber {
                name: name@,
                value: value@,
                kind: *kind,
            },
            ConfigError::InvalidBoolean { name, value } => ConfigErrorView::InvalidBoolean {
                name: name@,
                value: value@,
            },
            ConfigError::EmptyHost => ConfigErrorView::EmptyHost,
            ConfigError::ZeroPort => ConfigErrorView::ZeroPort,
            ConfigError::PathWithoutSlash => ConfigErrorView::PathWithoutSlash,
            ConfigError::ZeroThreads => ConfigErrorView::ZeroThreads,
            ConfigError::ZeroMaxUtterance => ConfigErrorView::ZeroMaxUtterance,
            ConfigError::ZeroPartialInterval => ConfigErrorView::ZeroPartialInterval,
        }
    }
}

/// The environment variable that stands for an option: `OTOA_ASR_` and the
/// option's name in upper case.
pub open spec fn env_key(name: Seq<char>) -> Seq<char> {
    "OTOA_ASR_"@ + ascii_upper_seq(name)
}

/// How `std::num::ParseIntError` describes each kind.
pub open spec fn int_error_text(kind: IntErrorKind) -> Seq<char> {
    match kind {
        IntErrorKind::Empty => "cannot parse integer from empty string"@,
        IntErrorKind::InvalidDigit => "invalid digit found in string"@,
        IntErrorKind::PosOverflow => "number too large to fit in target type"@,
    }
}

/// The text of each error.
pub open spec fn config_error_text(e: ConfigErrorView) -> Seq<char> {
    match e {
        ConfigErrorView::UnexpectedArgument(a) => "unexpected argument: "@ + a,
        ConfigErrorView::UnknownOption(a) => "unknown option: --"@ + a,
        ConfigErrorView::MissingValue(a) => "option --"@ + a + " requires a value"@,
        ConfigErrorView::InvalidNumber { name, value, kind } => env_key(name)
            + " has an invalid value "@ + debug_quoted(value) + ": "@ + int_error_text(kind),
        ConfigErrorView::InvalidBoolean { name, value } => env_key(name)
            + " has an invalid boolean value "@ + debug_quoted(value),
        ConfigErrorView::EmptyHost => "host must not be empty"@,
        ConfigErrorView::ZeroPort => "port must be between 1 and 65535"@,
        ConfigErrorView::PathWithoutSlash => "path must start with '/'"@,
        ConfigErrorView::ZeroThreads => "asr_threads must be positive"@,
        ConfigErrorView::ZeroMaxUtterance => "max_utterance_ms must be positive"@,
        ConfigErrorView::ZeroPartialInterval => "partial_interval_ms must be positive"@,
    }
}

impl ConfigError {
    /// The error as text.
    pub fn message(&self) -> (r: String)
        ensures
            r@ == config_error_text(self@),
    {
        match self {
            ConfigError::UnexpectedArgument(a) => concat("unexpected argument: ", a.as_str()),
            ConfigError::UnknownOption(a) => concat("unknown option: --", a.as_str()),
            ConfigError::MissingValue(a) => {
                let mut r = concat("option --", a.as_str());
                let t = chars_of(" requires a value");
                push_chars(&mut r, t.as_slice());
                r
            },
            ConfigError::InvalidNumber { name, value, kind } => {
                let mut r = env_key_string(name.as_str());
                push_chars(&mut r, chars_of(" has an invalid value ").as_slice());
                push_debug_quoted(&mut r, chars_of(value.as_str()).as_slice());
                push_chars(&mut r, chars_of(": ").as_slice());
                let k = match kind {
                    IntErrorKind::Empty => "cannot parse integer from empty string",
                    IntErrorKind::InvalidDigit => "invalid digit found in string",
                    IntErrorKind::PosOverflow => "number too large to fit in target type",
                };
                push_chars(&mut r, chars_of(k).as_slice());
                r
            },
            ConfigError::InvalidBoolean { name, value } => {
                let mut r = env_key_string(name.as_str());
                push_chars(&mut r, chars_of(" has an invalid boolean value ").as_slice());
                push_debug_quoted(&mut r, chars_of(value.as_str()).as_slice());
                r
            },
            ConfigError::EmptyHost => owned("host must not be empty"),
            ConfigError::ZeroPort => owned("port must be between 1 and 65535"),
            ConfigError::PathWithoutSlash => owned("path must start with '/'"),
            ConfigError::ZeroThreads => owned("asr_threads must be positive"),
            ConfigError::ZeroMaxUtterance => owned("max_utterance_ms must be positive"),
            ConfigError::ZeroPartialInterval => owned("partial_interval_ms must be positive"),
        }
    }
}

fn env_key_string(name: &str) -> (r: String)
    ensures
        r@ == env_key(name@),
{
    let mut r = owned("OTOA_ASR_");
    let upper = to_ascii_upper(chars_of(name).as_slice());
    push_chars(&mut r, upper.as_slice());
    r
}

/// The options the server knows, by their underscore names.
pub open spec fn is_known_option(name: Seq<char>) -> bool {
    ||| name == "host"@
    ||| name == "port"@
    ||| name == "path"@
    ||| name == "asr_model_dir"@
    ||| name == "asr_threads"@
    ||| name == "max_utterance_ms"@
    ||| name == "pseudo_stream"@
    ||| name == "partial_interval_ms"@
    ||| name == "auth_token"@
    ||| name == "dump_dir"@
}

/// Index of the first `c` in `s` at or after `k`, if any.
pub open spec fn first_index_from(s: Seq<char>, c: char, k: nat) -> Option<nat>
    decreases s.len() - k,
{
    if k >= s.len() {
        None
    } else if s[k as int] == c {
        Some(k)
    } else {
        first_index_from(s, c, k + 1)
    }
}

/// `str::split_once('=')`: the name, and the value after the first `=` if any.
pub open spec fn split_at_equals(s: Seq<char>) -> (Seq<char>, Option<Seq<char>>) {
    match first_index_from(s, '=', 0) {
        Some(i) => (s.take(i as int), Some(s.skip(i + 1int))),
        None => (s, None),
    }
}

/// An option name with `-` turned to `_`.
pub open spec fn underscored(s: Seq<char>) -> Seq<char> {
    replace_char_seq(s, '-', '_')
}

/// An option name with `_` turned to `-`, as messages show it.
pub open spec fn dashed(s: Seq<char>) -> Seq<char> {
    replace_char_seq(s, '_', '-')
}

/// Reads the arguments from index `i` on into the option map `acc`.
/// `--name=value` and `--name value` both set an option; `--pseudo-stream`
/// takes a following value only when that does not start with `-`, and
/// otherwise means `true`.
pub open spec fn parse_args_from(
    args: Seq<Seq<char>>,
    i: nat,
    acc: Map<Seq<char>, Seq<char>>,
) -> Result<Map<Seq<char>, Seq<char>>, ConfigErrorView>
    decreases args.len() - i,
{
    if i >= args.len() {
        Ok(acc)
    } else {
        let a = args[i as int];
        if !has_prefix(a, seq!['-', '-']) {
            Err(ConfigErrorView::UnexpectedArgument(a))
        } else {
            let (raw, inline) = split_at_equals(a.skip(2int));
            let name = underscored(raw);
            if !is_known_option(name) {
                Err(ConfigErrorView::UnknownOption(dashed(name)))
            } else {
                match inline {
                    Some(v) => parse_args_from(args, i + 1, acc.insert(name, v)),
                    None => if name == "pseudo_stream"@ {
                        if i + 1 < args.len() && !has_prefix(args[i + 1 as int], seq!['-']) {
                            parse_args_from(args, i + 2, acc.insert(name, args[i + 1 as int]))
                        } else {
                            parse_args_from(args, i + 1, acc.insert(name, "true"@))
                        }
                    } else if i + 1 < args.len() {
                        parse_args_from(args, i + 2, acc.insert(name, args[i + 1 as int]))
                    } else {
                        Err(ConfigErrorView::MissingValue(dashed(name)))
                    },
                }
            }
        }
    }
}

/// An option's value: the argument if given, else its environment variable.
pub open spec fn resolved(
    args: Map<Seq<char>, Seq<char>>,
    env: Map<Seq<char>, Seq<char>>,
    name: Seq<char>,
) -> Option<Seq<char>> {
    if args.dom().contains(name) {
        Some(args[name])
    } else {
        lookup(env, env_key(name))
    }
}

/// A numeric option: its default when unset, else its value parsed.
pub open spec fn number_option(
    args: Map<Seq<char>, Seq<char>>,
    env: Map<Seq<char>, Seq<char>>,
    name: Seq<char>,
    max: nat,
    default: nat,
) -> Result<nat, ConfigErrorView> {
    match resolved(args, env, name) {
        None => Ok(default),
        Some(v) => match parse_unsigned(v, max) {
            Ok(n) => Ok(n),
            Err(kind) => Err(ConfigErrorView::InvalidNumber { name, value: v, kind }),
        },
    }
}

/// How a boolean value reads, after trimming and lower-casing.
pub open spec fn bool_text(v: Seq<char>) -> Option<bool> {
    let t = ascii_lower_seq(trimmed(v));
    if t == "1"@ || t == "true"@ || t == "yes"@ || t == "on"@ {
        Some(true)
    } else if t == "0"@ || t == "false"@ || t == "no"@ || t == "off"@ {
        Some(false)
    } else {
        None
    }
}

/// A boolean option: its default when unset, else its value read.
pub open spec fn bool_option(
    args: Map<Seq<char>, Seq<char>>,
    env: Map<Seq<char>, Seq<char>>,
    name: Seq<char>,
    default: bool,
) -> Result<bool, ConfigErrorView> {
    match resolved(args, env, name) {
        None => Ok(default),
        Some(v) => match bool_text(v) {
            Some(b) => Ok(b),
            None => Err(ConfigErrorView::InvalidBoolean { name, value: v }),
        },
    }
}

/// An optional string option: unset and empty both mean none.
pub open spec fn optional_option(
    args: Map<Seq<char>, Seq<char>>,
    env: Map<Seq<char>, Seq<char>>,
    name: Seq<char>,
) -> Option<Seq<char>> {
    match resolved(args, env, name) {
        Some(v) => if v.len() == 0 {
            None
        } else {
            Some(v)
        },
        None => None,
    }
}

/// A string option, or its default when unset.
pub open spec fn string_option(
    args: Map<Seq<char>, Seq<char>>,
    env: Map<Seq<char>, Seq<char>>,
    name: Seq<char>,
    default: Seq<char>,
) -> Seq<char> {
    match resolved(args, env, name) {
        Some(v) => v,
        None => default,
    }
}

/// A configuration, by its content.
pub struct ConfigView {
    pub host: Seq<char>,
    pub port: nat,
    pub path: Seq<char>,
    pub asr_model_dir: Seq<char>,
    pub asr_threads: nat,
    pub max_utterance_ms: nat,
    pub pseudo_stream: bool,
    pub partial_interval_ms: nat,
    pub partial_tail_margin_chars: nat,
    pub auth_token: Option<Seq<char>>,
    pub dump_dir: Option<Seq<char>>,
}

/// The defaults.
pub open spec fn default_config() -> ConfigView {
    ConfigView {
        host: "127.0.0.1"@,
        port: 8770,
        path: "/asr/v1"@,
        asr_model_dir: "models/reazonspeech-k2-v2"@,
        asr_threads: 2,
        max_utterance_ms: 25_000,
        pseudo_stream: false,
        partial_interval_ms: 500,
        partial_tail_margin_chars: 0,
        auth_token: None,
        dump_dir: None,
    }
}

/// The first rule that `c` breaks, if any.
pub open spec fn validation_error(c: ConfigView) -> Option<ConfigErrorView> {
    if c.host.len() == 0 {
        Some(ConfigErrorView::EmptyHost)
    } else if c.port == 0 {
        Some(ConfigErrorView::ZeroPort)
    } else if !has_prefix(c.path, seq!['/']) {
        Some(ConfigErrorView::PathWithoutSlash)
    } else if c.asr_threads == 0 {
        Some(ConfigErrorView::ZeroThreads)
    } else if c.max_utterance_ms == 0 {
        Some(ConfigErrorView::ZeroMaxUtterance)
    } else if c.partial_interval_ms == 0 {
        Some(ConfigErrorView::ZeroPartialInterval)
    } else {
        None
    }
}

/// The configuration that the arguments and the environment give.
pub open spec fn config_from_sources(
    args: Seq<Seq<char>>,
    env: Seq<(Seq<char>, Seq<char>)>,
) -> Result<ConfigView, ConfigErrorView> {
    match parse_args_from(args, 0, Map::empty()) {
        Err(e) => Err(e),
        Ok(a) => {
            let e = pairs_map(env);
            let d = default_config();
            match number_option(a, e, "port"@, 0xffff, d.port) {
                Err(x) => Err(x),
                Ok(port) => match number_option(a, e, "asr_threads"@, usize::MAX as nat, d.asr_threads) {
                    Err(x) => Err(x),
                    Ok(threads) => match number_option(a, e, "max_utterance_ms"@, u32::MAX as nat, d.max_utterance_ms) {
                        Err(x) => Err(x),
                        Ok(max_ms) => match bool_option(a, e, "pseudo_stream"@, d.pseudo_stream) {
                            Err(x) => Err(x),
                            Ok(pseudo) => match number_option(a, e, "partial_interval_ms"@, u32::MAX as nat, d.partial_interval_ms) {
                                Err(x) => Err(x),
                                Ok(interval) => {
                                    let c = ConfigView {
                                        host: string_option(a, e, "host"@, d.host),
                                        port,
                                        path: string_option(a, e, "path"@, d.path),
                                        asr_model_dir: string_option(a, e, "asr_model_dir"@, d.asr_model_dir),
                                        asr_threads: threads,
                                        max_utterance_ms: max_ms,
                                        pseudo_stream: pseudo,
                                        partial_interval_ms: interval,
                                        partial_tail_margin_chars: d.partial_tail_margin_chars,
                                        auth_token: optional_option(a, e, "auth_token"@),
                                        dump_dir: optional_option(a, e, "dump_dir"@),
                                    };
                                    match validation_error(c) {
                                        Some(err) => Err(err),
                                        None => Ok(c),
                                    }
                                },
                            },
                        },
                    },
                },
            }
        },
    }
}

/// Configuration of the ASR server.
pub struct Config {
    pub host: String,
    pub port: u16,
    pub path: String,
    pub asr_model_dir: String,
    pub asr_threads: usize,
    /// Cut an utterance that the client never finalizes at this length; the
    /// recognizer handles about 30 seconds at once.
    pub max_utterance_ms: u32,
    pub pseudo_stream: bool,
    pub partial_interval_ms: u32,
    /// Characters held back from the end of agreed partial text.
    pub partial_tail_margin_chars: usize,
    pub auth_token: Option<String>,
    /// Where to write the audio handed to the recognizer, as WAV, if anywhere.
    pub dump_dir: Option<String>,
}

pub open spec fn option_view(o: Option<String>) -> Option<Seq<char>> {
    match o {
        Some(s) => Some(s@),
        None => None,
    }
}

/// `true` or `false`, as `{:?}` writes a `bool`.
pub open spec fn bool_text_of(b: bool) -> Seq<char> {
    if b {
        "true"@
    } else {
        "false"@
    }
}

/// A configuration as `{:?}` shows it, with the auth token hidden.
pub open spec fn config_debug(c: ConfigView) -> Seq<char> {
    "Config { host: "@ + debug_quoted(c.host) + ", port: "@ + decimal(c.port) + ", path: "@
        + debug_quoted(c.path) + ", asr_model_dir: "@ + debug_quoted(c.asr_model_dir)
        + ", asr_threads: "@ + decimal(c.asr_threads) + ", max_utterance_ms: "@ + decimal(
        c.max_utterance_ms,
    ) + ", pseudo_stream: "@ + bool_text_of(c.pseudo_stream) + ", partial_interval_ms: "@ + decimal(
        c.partial_interval_ms,
    ) + ", auth_token: "@ + (match c.auth_token {
        Some(_) => "Some(\"***\")"@,
        None => "None"@,
    }) + ", dump_dir: "@ + (match c.dump_dir {
        Some(d) => "Some("@ + debug_quoted(d) + ")"@,
        None => "None"@,
    }) + " }"@
}

impl View for Config {
    type V = ConfigView;

    open spec fn view(&self) -> ConfigView {
        ConfigView {
            host: self.host@,
            port: self.port as nat,
            path: self.path@,
            asr_model_dir: self.asr_model_dir@,
            asr_threads: self.asr_threads as nat,
            max_utterance_ms: self.max_utterance_ms as nat,
            pseudo_stream: self.pseudo_stream,
            partial_interval_ms: self.partial_interval_ms as nat,
            partial_tail_margin_chars: self.partial_tail_margin_chars as nat,
            auth_token: option_view(self.auth_token),
            dump_dir: option_view(self.dump_dir),
        }
    }
}

fn lit(s: &str) -> (r: Vec<char>)
    ensures
        r@ == s@,
{
    chars_of(s)
}

fn is_known(name: &[char]) -> (r: bool)
    ensures
        r == is_known_option(name@),
{
    chars_eq(name, lit("host").as_slice()) || chars_eq(name, lit("port").as_slice()) || chars_eq(
        name,
        lit("path").as_slice(),
    ) || chars_eq(name, lit("asr_model_dir").as_slice()) || chars_eq(
        name,
        lit("asr_threads").as_slice(),
    ) || chars_eq(name, lit("max_utterance_ms").as_slice()) || chars_eq(
        name,
        lit("pseudo_stream").as_slice(),
    ) || chars_eq(name, lit("partial_interval_ms").as_slice()) || chars_eq(
        name,
        lit("auth_token").as_slice(),
    ) || chars_eq(name, lit("dump_dir").as_slice())
}

fn split_equals(s: &[char]) -> (r: (Vec<char>, Option<Vec<char>>))
    ensures
        r.0@ == split_at_equals(s@).0,
        match split_at_equals(s@).1 {
            Some(v) => r.1 matches Some(w) && w@ == v,
            None => r.1 is None,
        },
{
    let mut i: usize = 0;
    while i < s.len() && s[i] != '='
        invariant
            0 <= i <= s@.len(),
            first_index_from(s@, '=', 0) == first_index_from(s@, '=', i as nat),
        decreases s.len() - i,
    {
        i = i + 1;
    }
    let mut name: Vec<char> = Vec::new();
    let mut k: usize = 0;
    while k < i
        invariant
            i <= s@.len(),
            0 <= k <= i,
            name@ =~= s@.take(k as int),
        decreases i - k,
    {
        name.push(s[k]);
        k = k + 1;
    }
    if i == s.len() {
        assert(s@.take(i as int) =~= s@);
        return (name, None);
    }
    let mut value: Vec<char> = Vec::new();
    let mut k: usize = i + 1;
    while k < s.len()
        invariant
            i < s@.len(),
            i + 1 <= k <= s@.len(),
            value@ =~= s@.subrange(i + 1, k as int),
        decreases s.len() - k,
    {
        value.push(s[k]);
        k = k + 1;
    }
    (name, Some(value))
}

pub open spec fn char_pairs_view(v: Seq<(Vec<char>, Vec<char>)>) -> Seq<(Seq<char>, Seq<char>)> {
    v.map_values(|p: (Vec<char>, Vec<char>)| (p.0@, p.1@))
}

fn lookup_chars(pairs: &Vec<(Vec<char>, Vec<char>)>, key: &[char]) -> (r: Option<Vec<char>>)
    ensures
        match lookup(pairs_map(char_pairs_view(pairs@)), key@) {
            Some(v) => r matches Some(w) && w@ == v,
            None => r is None,
        },
{
    let ghost pv = char_pairs_view(pairs@);
    let mut i = pairs.len();
    assert(pv.take(i as int) =~= pv);
    while i > 0
        invariant
            i <= pairs@.len(),
            pv == char_pairs_view(pairs@),
            lookup(pairs_map(pv), key@) == lookup(pairs_map(pv.take(i as int)), key@),
        decreases i,
    {
        let ghost t = pv.take(i as int);
        assert(t.drop_last() =~= pv.take(i - 1));
        if chars_eq(pairs[i - 1].0.as_slice(), key) {
            let mut v: Vec<char> = Vec::new();
            let mut k: usize = 0;
            while k < pairs[i - 1].1.len()
                invariant
                    0 < i <= pairs@.len(),
                    0 <= k <= pairs@[i - 1].1@.len(),
                    v@ =~= pairs@[i - 1].1@.take(k as int),
                decreases pairs@[i - 1].1@.len() - k,
            {
                v.push(pairs[i - 1].1[k]);
                k = k + 1;
            }
            assert(pairs@[i - 1].1@.take(pairs@[i - 1].1@.len() as int) =~= pairs@[i - 1].1@);
            return Some(v);
        }
        i = i - 1;
    }
    assert(pv.take(0) =~= Seq::<(Seq<char>, Seq<char>)>::empty());
    None
}

fn lookup_env(env: &[(String, String)], key: &[char]) -> (r: Option<Vec<char>>)
    ensures
        match lookup(pairs_map(pairs_view(env@)), key@) {
            Some(v) => r matches Some(w) && w@ == v,
            None => r is None,
        },
{
    let ghost pv = pairs_view(env@);
    let mut i = env.len();
    assert(pv.take(i as int) =~= pv);
    while i > 0
        invariant
            i <= env@.len(),
            pv == pairs_view(env@),
            lookup(pairs_map(pv), key@) == lookup(pairs_map(pv.take(i as int)), key@),
        decreases i,
    {
        let ghost t = pv.take(i as int);
        assert(t.drop_last() =~= pv.take(i - 1));
        let name = chars_of(env[i - 1].0.as_str());
        if chars_eq(name.as_slice(), key) {
            return Some(chars_of(env[i - 1].1.as_str()));
        }
        i = i - 1;
    }
    assert(pv.take(0) =~= Seq::<(Seq<char>, Seq<char>)>::empty());
    None
}

/// The arguments read into name/value pairs (underscore names).
fn parse_arguments(args: &[String]) -> (r: Result<Vec<(Vec<char>, Vec<char>)>, ConfigError>)
    ensures
        match parse_args_from(strings_view(args@), 0, Map::empty()) {
            Ok(m) => r matches Ok(p) && pairs_map(char_pairs_view(p@)) == m,
            Err(e) => r matches Err(x) && x@ == e,
        },
{
    let ghost av = strings_view(args@);
    let mut values: Vec<(Vec<char>, Vec<char>)> = Vec::new();
    let mut index: usize = 0;
    assert(pairs_map(char_pairs_view(values@)) =~= Map::<Seq<char>, Seq<char>>::empty());
    while index < args.len()
        invariant
            av == strings_view(args@),
            index <= args@.len(),
            parse_args_from(av, 0, Map::empty()) == parse_args_from(
                av,
                index as nat,
                pairs_map(char_pairs_view(values@)),
            ),
        decreases args.len() - index,
    {
        let ghost acc = pairs_map(char_pairs_view(values@));
        let argument = chars_of(args[index].as_str());
        assert(argument@ == av[index as int]);
        if !(argument.len() >= 2 && argument[0] == '-' && argument[1] == '-') {
            proof {
                if has_prefix(argument@, seq!['-', '-']) {
                    assert(argument@.subrange(0, 2)[0] == '-');
                    assert(argument@.subrange(0, 2)[1] == '-');
                }
            }
            return Err(ConfigError::UnexpectedArgument(string_of(argument.as_slice())));
        }
        assert(argument@.subrange(0, 2) =~= seq!['-', '-']);
        let mut option: Vec<char> = Vec::new();
        let mut k: usize = 2;
        while k < argument.len()
            invariant
                2 <= k <= argument@.len(),
                option@ =~= argument@.subrange(2, k as int),
            decreases argument.len() - k,
        {
            option.push(argument[k]);
            k = k + 1;
        }
        assert(option@ =~= argument@.skip(2));
        let (raw, inline) = split_equals(option.as_slice());
        let name = replace_char(raw.as_slice(), '-', '_');
        if !is_known(name.as_slice()) {
            let shown = replace_char(name.as_slice(), '_', '-');
            return Err(ConfigError::UnknownOption(string_of(shown.as_slice())));
        }
        let ghost name_v = name@;
        let value: Vec<char>;
        match inline {
            Some(v) => {
                value = v;
                index = index + 1;
            },
            None => {
                if chars_eq(name.as_slice(), lit("pseudo_stream").as_slice()) {
                    let take_next = if index + 1 < args.len() {
                        let next = chars_of(args[index + 1].as_str());
                        !(next.len() >= 1 && next[0] == '-')
                    } else {
                        false
                    };
                    proof {
                        if index + 1 < args@.len() {
                            let nx = av[index + 1];
                            if has_prefix(nx, seq!['-']) {
                                assert(nx.subrange(0, 1)[0] == '-');
                            }
                            if nx.len() >= 1 && nx[0] == '-' {
                                assert(nx.subrange(0, 1) =~= seq!['-']);
                            }
                        }
                    }
                    if take_next {
                        value = chars_of(args[index + 1].as_str());
                        index = index + 2;
                    } else {
                        value = lit("true");
                        index = index + 1;
                    }
                } else if index + 1 < args.len() {
                    value = chars_of(args[index + 1].as_str());
                    index = index + 2;
                } else {
                    let shown = replace_char(name.as_slice(), '_', '-');
                    return Err(ConfigError::MissingValue(string_of(shown.as_slice())));
                }
            },
        }
        let ghost vv = value@;
        let ghost before = values@;
        values.push((name, value));
        proof {
            let cv = char_pairs_view(values@);
            assert(cv.drop_last() =~= char_pairs_view(before));
            assert(cv.last() == (name_v, vv));
        }
        assert(pairs_map(char_pairs_view(values@)) == acc.insert(name_v, vv));
    }
    Ok(values)
}

fn env_key_chars(name: &str) -> (r: Vec<char>)
    ensures
        r@ == env_key(name@),
{
    chars_of(env_key_string(name).as_str())
}

/// An option's value: the argument if given, else its environment variable.
fn resolved_value(args: &Vec<(Vec<char>, Vec<char>)>, env: &[(String, String)], name: &str) -> (r:
    Option<Vec<char>>)
    ensures
        match resolved(pairs_map(char_pairs_view(args@)), pairs_map(pairs_view(env@)), name@) {
            Some(v) => r matches Some(w) && w@ == v,
            None => r is None,
        },
{
    let key = lit(name);
    match lookup_chars(args, key.as_slice()) {
        Some(v) => Some(v),
        None => {
            let k = env_key_chars(name);
            lookup_env(env, k.as_slice())
        },
    }
}

fn string_value(
    args: &Vec<(Vec<char>, Vec<char>)>,
    env: &[(String, String)],
    name: &str,
    default: &str,
) -> (r: String)
    ensures
        r@ == string_option(
            pairs_map(char_pairs_view(args@)),
            pairs_map(pairs_view(env@)),
            name@,
            default@,
        ),
{
    match resolved_value(args, env, name) {
        Some(v) => string_of(v.as_slice()),
        None => owned(default),
    }
}

fn optional_string_value(args: &Vec<(Vec<char>, Vec<char>)>, env: &[(String, String)], name: &str) -> (r:
    Option<String>)
    ensures
        option_view(r) == optional_option(
            pairs_map(char_pairs_view(args@)),
            pairs_map(pairs_view(env@)),
            name@,
        ),
{
    match resolved_value(args, env, name) {
        Some(v) => if v.len() == 0 {
            None
        } else {
            Some(string_of(v.as_slice()))
        },
        None => None,
    }
}

fn number_value(
    args: &Vec<(Vec<char>, Vec<char>)>,
    env: &[(String, String)],
    name: &str,
    max: u64,
    default: u64,
) -> (r: Result<u64, ConfigError>)
    requires
        default <= max,
    ensures
        match number_option(
            pairs_map(char_pairs_view(args@)),
            pairs_map(pairs_view(env@)),
            name@,
            max as nat,
            default as nat,
        ) {
            Ok(n) => r matches Ok(m) && m == n && m <= max,
            Err(e) => r matches Err(x) && x@ == e,
        },
{
    match resolved_value(args, env, name) {
        None => Ok(default),
        Some(v) => match parse_unsigned_chars(v.as_slice(), max) {
            Ok(n) => Ok(n),
            Err(kind) => Err(
                ConfigError::InvalidNumber { name: owned(name), value: string_of(v.as_slice()), kind },
            ),
        },
    }
}

fn bool_of(v: &[char]) -> (r: Option<bool>)
    ensures
        r == bool_text(v@),
{
    let t = to_ascii_lower(trim_chars(v).as_slice());
    let t = t.as_slice();
    if chars_eq(t, lit("1").as_slice()) || chars_eq(t, lit("true").as_slice()) || chars_eq(
        t,
        lit("yes").as_slice(),
    ) || chars_eq(t, lit("on").as_slice()) {
        Some(true)
    } else if chars_eq(t, lit("0").as_slice()) || chars_eq(t, lit("false").as_slice()) || chars_eq(
        t,
        lit("no").as_slice(),
    ) || chars_eq(t, lit("off").as_slice()) {
        Some(false)
    } else {
        None
    }
}

fn bool_value(
    args: &Vec<(Vec<char>, Vec<char>)>,
    env: &[(String, String)],
    name: &str,
    default: bool,
) -> (r: Result<bool, ConfigError>)
    ensures
        match bool_option(
            pairs_map(char_pairs_view(args@)),
            pairs_map(pairs_view(env@)),
            name@,
            default,
        ) {
            Ok(b) => r == Ok::<bool, ConfigError>(b),
            Err(e) => r matches Err(x) && x@ == e,
        },
{
    match resolved_value(args, env, name) {
        None => Ok(default),
        Some(v) => match bool_of(v.as_slice()) {
            Some(b) => Ok(b),
            None => Err(ConfigError::InvalidBoolean { name: owned(name), value: string_of(v.as_slice()) }),
        },
    }
}

impl Config {
    /// The defaults.
    pub fn default() -> (r: Self)
        ensures
            r@ == default_config(),
    {
        Config {
            host: owned("127.0.0.1"),
            port: 8770,
            path: owned("/asr/v1"),
            asr_model_dir: owned("models/reazonspeech-k2-v2"),
            asr_threads: 2,
            max_utterance_ms: 25_000,
            pseudo_stream: false,
            partial_interval_ms: 500,
            partial_tail_margin_chars: 0,
            auth_token: None,
            dump_dir: None,
        }
    }

    /// The configuration as its debug form shows it; the auth token is
    /// never shown, only whether there is one.
    pub fn redacted_debug(&self) -> (r: String)
        ensures
            r@ == config_debug(self@),
    {
        let mut r = owned("Config { host: ");
        push_debug_quoted(&mut r, chars_of(self.host.as_str()).as_slice());
        push_str(&mut r, ", port: ");
        push_decimal(&mut r, self.port as u64);
        push_str(&mut r, ", path: ");
        push_debug_quoted(&mut r, chars_of(self.path.as_str()).as_slice());
        push_str(&mut r, ", asr_model_dir: ");
        push_debug_quoted(&mut r, chars_of(self.asr_model_dir.as_str()).as_slice());
        push_str(&mut r, ", asr_threads: ");
        push_decimal(&mut r, self.asr_threads as u64);
        push_str(&mut r, ", max_utterance_ms: ");
        push_decimal(&mut r, self.max_utterance_ms as u64);
        push_str(&mut r, ", pseudo_stream: ");
        push_str(&mut r, if self.pseudo_stream { "true" } else { "false" });
        push_str(&mut r, ", partial_interval_ms: ");
        push_decimal(&mut r, self.partial_interval_ms as u64);
        push_str(&mut r, ", auth_token: ");
        match &self.auth_token {
            Some(_) => push_str(&mut r, "Some(\"***\")"),
            None => push_str(&mut r, "None"),
        }
        push_str(&mut r, ", dump_dir: ");
        match &self.dump_dir {
            Some(d) => {
                push_str(&mut r, "Some(");
                push_debug_quoted(&mut r, chars_of(d.as_str()).as_slice());
                push_str(&mut r, ")");
            },
            None => push_str(&mut r, "None"),
        }
        push_str(&mut r, " }");
        r
    }

    /// The first rule this configuration breaks, if any.
    pub fn validate(&self) -> (r: Result<(), ConfigError>)
        ensures
            match validation_error(self@) {
                Some(e) => r matches Err(x) && x@ == e,
                None => r is Ok,
            },
    {
        let path = chars_of(self.path.as_str());
        if chars_of(self.host.as_str()).len() == 0 {
            return Err(ConfigError::EmptyHost);
        }
        if self.port == 0 {
            return Err(ConfigError::ZeroPort);
        }
        if !(path.len() >= 1 && path[0] == '/') {
            proof {
                if has_prefix(path@, seq!['/']) {
                    assert(path@.subrange(0, 1)[0] == '/');
                }
            }
            return Err(ConfigError::PathWithoutSlash);
        }
        assert(path@.subrange(0, 1) =~= seq!['/']);
        if self.asr_threads == 0 {
            return Err(ConfigError::ZeroThreads);
        }
        if self.max_utterance_ms == 0 {
            return Err(ConfigError::ZeroMaxUtterance);
        }
        if self.partial_interval_ms == 0 {
            return Err(ConfigError::ZeroPartialInterval);
        }
        Ok(())
    }

    /// Resolves the arguments (without the program name) over the
    /// environment's `OTOA_ASR_*` variables and the defaults, and validates the
    /// result. The environment is a list of name/value pairs, a later pair
    /// overriding an earlier one of the same name.
    pub fn from_sources(args: &[String], environment: &[(String, String)]) -> (r: Result<
        Self,
        ConfigError,
    >)
        ensures
            match config_from_sources(strings_view(args@), pairs_view(environment@)) {
                Ok(c) => r matches Ok(x) && x@ == c,
                Err(e) => r matches Err(x) && x@ == e,
            },
    {
        let arguments = match parse_arguments(args) {
            Ok(a) => a,
            Err(e) => {
                return Err(e);
            },
        };
        let port = match number_value(&arguments, environment, "port", 0xffff, 8770) {
            Ok(n) => n as u16,
            Err(e) => {
                return Err(e);
            },
        };
        let asr_threads = match number_value(
            &arguments,
            environment,
            "asr_threads",
            usize::MAX as u64,
            2,
        ) {
            Ok(n) => n as usize,
            Err(e) => {
                return Err(e);
            },
        };
        let max_utterance_ms = match number_value(
            &arguments,
            environment,
            "max_utterance_ms",
            0xffff_ffff,
            25_000,
        ) {
            Ok(n) => n as u32,
            Err(e) => {
                return Err(e);
            },
        };
        let pseudo_stream = match bool_value(&arguments, environment, "pseudo_stream", false) {
            Ok(b) => b,
            Err(e) => {
                return Err(e);
            },
        };
        let partial_interval_ms = match number_value(
            &arguments,
            environment,
            "partial_interval_ms",
            0xffff_ffff,
            500,
        ) {
            Ok(n) => n as u32,
            Err(e) => {
                return Err(e);
            },
        };
        let config = Config {
            host: string_value(&arguments, environment, "host", "127.0.0.1"),
            port,
            path: string_value(&arguments, environment, "path", "/asr/v1"),
            asr_model_dir: string_value(
                &arguments,
                environment,
                "asr_model_dir",
                "models/reazonspeech-k2-v2",
            ),
            asr_threads,
            max_utterance_ms,
            pseudo_stream,
            partial_interval_ms,
            partial_tail_margin_chars: 0,
            auth_token: optional_string_value(&arguments, environment, "auth_token"),
            dump_dir: optional_string_value(&arguments, environment, "dump_dir"),
        };
        match config.validate() {
            Ok(()) => Ok(config),
            Err(e) => Err(e),
        }
    }

    /// Whether `--help` or `-h` is among the arguments; it is answered before
    /// any option is checked.
    pub fn help_requested(args: &[String]) -> (r: bool)
        ensures
            r == exists|i: int|
                0 <= i < args@.len() && (#[trigger] args@[i]@ == "--help"@ || args@[i]@
                    == "-h"@),
    {
        let mut i: usize = 0;
        while i < args.len()
            invariant
                0 <= i <= args@.len(),
                forall|j: int| 0 <= j < i ==> !(#[trigger] args@[j]@ == "--help"@ || args@[j]@ == "-h"@),
            decreases args.len() - i,
        {
            let a = chars_of(args[i].as_str());
            if chars_eq(a.as_slice(), lit("--help").as_slice()) || chars_eq(a.as_slice(), lit("-h").as_slice()) {
                return true;
            }
            i = i + 1;
        }
        false
    }
}

proof fn lemma_no_char_from(s: Seq<char>, c: char, k: nat)
    requires
        forall|j: int| k <= j < s.len() ==> s[j] != c,
    ensures
        first_index_from(s, c, k) is None,
    decreases s.len() - k,
{
    if k < s.len() {
        lemma_no_char_from(s, c, k + 1);
    }
}

/// How the bare flag `--pseudo-stream` reads: an option, named
/// `pseudo_stream`, with no value of its own.
proof fn lemma_pseudo_stream_flag()
    ensures
        has_prefix("--pseudo-stream"@, seq!['-', '-']),
        has_prefix("--pseudo-stream"@, seq!['-']),
        split_at_equals("--pseudo-stream"@.skip(2)) == ("--pseudo-stream"@.skip(2), None::<Seq<char>>),
        underscored("--pseudo-stream"@.skip(2)) == "pseudo_stream"@,
        bool_text("true"@) == Some(true),
{
    reveal_strlit("--pseudo-stream");
    reveal_strlit("pseudo_stream");
    reveal_strlit("true");
    let f = "--pseudo-stream"@;
    assert(f.subrange(0, 2) =~= seq!['-', '-']);
    assert(f.subrange(0, 1) =~= seq!['-']);
    let name = f.skip(2);
    lemma_no_char_from(name, '=', 0);
    assert(underscored(name) =~= "pseudo_stream"@);
    let t = "true"@;
    assert(!crate::text::is_white_space(t[0]) && !crate::text::is_white_space(t.last()));
    assert(trimmed(t) == t);
    assert(ascii_lower_seq(t) =~= t);
}

/// Appending a bare `--pseudo-stream` to arguments that read on their own
/// reads as they do, with `pseudo_stream` set to `true`.
proof fn lemma_flag_appended(p: Seq<Seq<char>>, i: nat, acc: Map<Seq<char>, Seq<char>>)
    requires
        i <= p.len(),
    ensures
        parse_args_from(p, i, acc) matches Ok(m) ==> parse_args_from(p.push("--pseudo-stream"@), i, acc)
            == Ok::<Map<Seq<char>, Seq<char>>, ConfigErrorView>(m.insert("pseudo_stream"@, "true"@)),
    decreases p.len() - i,
{
    let f = "--pseudo-stream"@;
    let q = p.push(f);
    lemma_pseudo_stream_flag();
    if i == p.len() {
        assert(q[i as int] == f);
        let acc2 = acc.insert("pseudo_stream"@, "true"@);
        assert(parse_args_from(q, i + 1, acc2) == Ok::<Map<Seq<char>, Seq<char>>, ConfigErrorView>(acc2));
        assert(split_at_equals(f.skip(2int)) == (f.skip(2int), None::<Seq<char>>));
    } else {
        assert(q[i as int] == p[i as int]);
        let a = p[i as int];
        if has_prefix(a, seq!['-', '-']) {
            let (raw, inline) = split_at_equals(a.skip(2int));
            let name = underscored(raw);
            if is_known_option(name) {
                match inline {
                    Some(v) => lemma_flag_appended(p, i + 1, acc.insert(name, v)),
                    None => {
                        if name == "pseudo_stream"@ {
                            if i + 1 < p.len() {
                                assert(q[i + 1 as int] == p[i + 1 as int]);
                                if !has_prefix(p[i + 1 as int], seq!['-']) {
                                    lemma_flag_appended(p, i + 2, acc.insert(name, p[i + 1 as int]));
                                } else {
                                    lemma_flag_appended(p, i + 1, acc.insert(name, "true"@));
                                }
                            } else {
                                assert(q[i + 1 as int] == f);
                                lemma_flag_appended(p, i + 1, acc.insert(name, "true"@));
                            }
                        } else if i + 1 < p.len() {
                            assert(q[i + 1 as int] == p[i + 1 as int]);
                            lemma_flag_appended(p, i + 2, acc.insert(name, p[i + 1 as int]));
                        }
                    },
                }
            }
        }
    }
}

/// A bare `--pseudo-stream` at the end of the arguments turns
/// pseudo-streaming on, whatever the environment says: the configuration
/// read is the one without the flag with `pseudo_stream` set, and the flag
/// itself can never be the reason for a refusal.
pub proof fn law_a_bare_pseudo_stream_flag_turns_it_on(
    p: Seq<Seq<char>>,
    env: Seq<(Seq<char>, Seq<char>)>,
)
    requires
        parse_args_from(p, 0, Map::empty()) is Ok,
    ensures
        config_from_sources(p.push("--pseudo-stream"@), env) matches Ok(c) ==> c.pseudo_stream,
        !(config_from_sources(p.push("--pseudo-stream"@), env) is Err && config_from_sources(
            p.push("--pseudo-stream"@),
            env,
        )->Err_0 is InvalidBoolean),
        config_from_sources(p, env) matches Ok(c0) ==> config_from_sources(
            p.push("--pseudo-stream"@),
            env,
        ) == Ok::<ConfigView, ConfigErrorView>(ConfigView { pseudo_stream: true, ..c0 }),
{
    lemma_flag_appended(p, 0, Map::empty());
    lemma_pseudo_stream_flag();
    reveal_strlit("pseudo_stream");
    reveal_strlit("port");
    reveal_strlit("asr_threads");
    reveal_strlit("max_utterance_ms");
    reveal_strlit("partial_interval_ms");
    reveal_strlit("host");
    reveal_strlit("path");
    reveal_strlit("asr_model_dir");
    reveal_strlit("auth_token");
    reveal_strlit("dump_dir");
    let ps = "pseudo_stream"@;
    assert(ps != "asr_model_dir"@) by {
        assert(ps[0] != "asr_model_dir"@[0]);
    }
}

} // verus!
