//! The benchmark's command line: options, defaults and validation.

use vstd::prelude::*;

use crate::text::{
    push_str, parse_usize, str_chars, str_equals, string_from_chars,
    trim_text, trimmed, usize_text_value,
};

verus! {

/// The benchmark's settings.
#[derive(Debug, Clone)]
pub struct Config {
    pub requests: usize,
    pub warmup: usize,
    pub concurrency: Vec<usize>,
    pub body_bytes: usize,
    pub rounds: usize,
    pub output_dir: String,
    pub tokio_bin: String,
    pub compio_bin: String,
    pub only: Option<String>,
    pub show_proxy_output: bool,
    pub help: bool,
}

/// One proxy implementation to measure: its name and the path of its binary.
#[derive(Debug, Clone)]
pub struct ProxyConfig {
    pub name: &'static str,
    pub path: String,
}

/// Why the command line was refused.
#[derive(Debug, Clone, PartialEq, Eq)]
pub enum ConfigError {
    UnknownArgument(String),
    MissingValue(String),
    InvalidValue { name: String, value: String },
    InvalidConcurrency(String),
    InvalidOnly,
    RequestsZero,
    ConcurrencyZero,
    BodyBytesZero,
    RoundsZero,
}

pub struct ConfigView {
    pub requests: usize,
    pub warmup: usize,
    pub concurrency: Seq<usize>,
    pub body_bytes: usize,
    pub rounds: usize,
    pub output_dir: Seq<char>,
    pub tokio_bin: Seq<char>,
    pub compio_bin: Seq<char>,
    pub only: Option<Seq<char>>,
    pub show_proxy_output: bool,
    pub help: bool,
}

pub enum ConfigErrorView {
    UnknownArgument(Seq<char>),
    MissingValue(Seq<char>),
    InvalidValue { name: Seq<char>, value: Seq<char> },
    InvalidConcurrency(Seq<char>),
    InvalidOnly,
    RequestsZero,
    ConcurrencyZero,
    BodyBytesZero,
    RoundsZero,
}

pub open spec fn option_text_view(o: Option<String>) -> Option<Seq<char>> {
    match o {
        Some(s) => Some(s@),
        None => None,
    }
}

impl View for Config {
    type V = ConfigView;

    open spec fn view(&self) -> ConfigView {
        ConfigView {
            requests: self.requests,
            warmup: self.warmup,
            concurrency: self.concurrency@,
            body_bytes: self.body_bytes,
            rounds: self.rounds,
            output_dir: self.output_dir@,
            tokio_bin: self.tokio_bin@,
            compio_bin: self.compio_bin@,
            only: option_text_view(self.only),
            show_proxy_output: self.show_proxy_output,
            help: self.help,
        }
    }
}

impl View for ConfigError {
    type V = ConfigErrorView;

    open spec fn view(&self) -> ConfigErrorView {
        match self {
            ConfigError::UnknownArgument(a) => ConfigErrorView::UnknownArgument(a@),
            ConfigError::MissingValue(n) => ConfigErrorView::MissingValue(n@),
            ConfigError::InvalidValue { name, value } => ConfigErrorView::InvalidValue {
                name: name@,
                value: value@,
            },
            ConfigError::InvalidConcurrency(p) => ConfigErrorView::InvalidConcurrency(p@),
            ConfigError::InvalidOnly => ConfigErrorView::InvalidOnly,
            ConfigError::RequestsZero => ConfigErrorView::RequestsZero,
            ConfigError::ConcurrencyZero => ConfigErrorView::ConcurrencyZero,
            ConfigError::BodyBytesZero => ConfigErrorView::BodyBytesZero,
            ConfigError::RoundsZero => ConfigErrorView::RoundsZero,
        }
    }
}

/// The texts of a list of strings.
pub open spec fn texts(v: Seq<String>) -> Seq<Seq<char>> {
    v.map_values(|s: String| s@)
}

/// The pieces of `s` between commas (one piece when there is no comma, and
/// empty pieces where commas touch each other or an end).
pub open spec fn split_commas(s: Seq<char>) -> Seq<Seq<char>>
    decreases s.len(),
{
    if s.len() == 0 {
        seq![seq![]]
    } else {
        let prev = split_commas(s.drop_last());
        if s.last() == ',' {
            prev.push(seq![])
        } else {
            prev.update(prev.len() - 1, prev.last().push(s.last()))
        }
    }
}

/// The values of the comma-separated pieces, each trimmed and read as a
/// number; or the first piece (untrimmed) that is not a number.
pub open spec fn piece_values(parts: Seq<Seq<char>>) -> Result<Seq<usize>, Seq<char>>
    decreases parts.len(),
{
    if parts.len() == 0 {
        Ok(seq![])
    } else {
        match piece_values(parts.drop_last()) {
            Err(p) => Err(p),
            Ok(vs) => match usize_text_value(trimmed(parts.last())) {
                Some(v) => Ok(vs.push(v)),
                None => Err(parts.last()),
            },
        }
    }
}

/// What `parse_concurrency` gives for `s`.
pub open spec fn concurrency_result(s: Seq<char>) -> Result<Seq<usize>, ConfigErrorView> {
    match piece_values(split_commas(s)) {
        Ok(vs) => Ok(vs),
        Err(p) => Err(ConfigErrorView::InvalidConcurrency(p)),
    }
}

/// The settings before any option is read.
pub open spec fn default_config(tokio_bin: Seq<char>, compio_bin: Seq<char>) -> ConfigView {
    ConfigView {
        requests: 2000,
        warmup: 200,
        concurrency: seq![1usize, 16, 64],
        body_bytes: 16384,
        rounds: 1,
        output_dir: "target/socks5-bench"@,
        tokio_bin,
        compio_bin,
        only: None,
        show_proxy_output: false,
        help: false,
    }
}

/// True for the options that take a value.
pub open spec fn takes_value(a: Seq<char>) -> bool {
    a == "--requests"@ || a == "--warmup"@ || a == "--concurrency"@ || a == "--body-bytes"@ || a
        == "--rounds"@ || a == "--output-dir"@ || a == "--tokio-bin"@ || a == "--compio-bin"@
        || a == "--only"@
}

/// The effect of the option at the front of `args`: the new settings and how
/// many arguments it used, or the error it causes.
pub open spec fn option_step(cfg: ConfigView, args: Seq<Seq<char>>) -> Result<
    (ConfigView, nat),
    ConfigErrorView,
> {
    let a = args[0];
    if a == "-h"@ || a == "--help"@ {
        Ok((ConfigView { help: true, ..cfg }, 1))
    } else if a == "--show-proxy-output"@ {
        Ok((ConfigView { show_proxy_output: true, ..cfg }, 1))
    } else if !takes_value(a) {
        Err(ConfigErrorView::UnknownArgument(a))
    } else if args.len() < 2 {
        Err(ConfigErrorView::MissingValue(a))
    } else {
        let v = args[1];
        if a == "--requests"@ || a == "--warmup"@ || a == "--body-bytes"@ || a == "--rounds"@ {
            match usize_text_value(v) {
                None => Err(ConfigErrorView::InvalidValue { name: a, value: v }),
                Some(n) => if a == "--requests"@ {
                    Ok((ConfigView { requests: n, ..cfg }, 2))
                } else if a == "--warmup"@ {
                    Ok((ConfigView { warmup: n, ..cfg }, 2))
                } else if a == "--body-bytes"@ {
                    Ok((ConfigView { body_bytes: n, ..cfg }, 2))
                } else {
                    Ok((ConfigView { rounds: n, ..cfg }, 2))
                },
            }
        } else if a == "--concurrency"@ {
            match concurrency_result(v) {
                Ok(c) => Ok((ConfigView { concurrency: c, ..cfg }, 2)),
                Err(e) => Err(e),
            }
        } else if a == "--output-dir"@ {
            Ok((ConfigView { output_dir: v, ..cfg }, 2))
        } else if a == "--tokio-bin"@ {
            Ok((ConfigView { tokio_bin: v, ..cfg }, 2))
        } else if a == "--compio-bin"@ {
            Ok((ConfigView { compio_bin: v, ..cfg }, 2))
        } else if v != "tokio"@ && v != "compio"@ {
            Err(ConfigErrorView::InvalidOnly)
        } else {
            Ok((ConfigView { only: Some(v), ..cfg }, 2))
        }
    }
}

/// The settings after reading every option of `args` in order, or the first
/// error.
pub open spec fn apply_options(cfg: ConfigView, args: Seq<Seq<char>>) -> Result<
    ConfigView,
    ConfigErrorView,
>
    decreases args.len(),
{
    if args.len() == 0 {
        Ok(cfg)
    } else {
        match option_step(cfg, args) {
            Err(e) => Err(e),
            Ok((next, used)) => apply_options(next, args.skip(used as int)),
        }
    }
}

/// The checks made once every option is read.
pub open spec fn validated(cfg: ConfigView) -> Result<ConfigView, ConfigErrorView> {
    if cfg.requests == 0 {
        Err(ConfigErrorView::RequestsZero)
    } else if cfg.concurrency.len() == 0 || cfg.concurrency.contains(0) {
        Err(ConfigErrorView::ConcurrencyZero)
    } else if cfg.body_bytes == 0 {
        Err(ConfigErrorView::BodyBytesZero)
    } else if cfg.rounds == 0 {
        Err(ConfigErrorView::RoundsZero)
    } else {
        Ok(cfg)
    }
}

/// What `Config::from_args` gives.
pub open spec fn config_result(args: Seq<Seq<char>>, tokio_bin: Seq<char>, compio_bin: Seq<char>) -> Result<
    ConfigView,
    ConfigErrorView,
> {
    match apply_options(default_config(tokio_bin, compio_bin), args) {
        Err(e) => Err(e),
        Ok(cfg) => validated(cfg),
    }
}

/// The description of a command-line error.
pub open spec fn config_error_message(e: ConfigErrorView) -> Seq<char> {
    match e {
        ConfigErrorView::UnknownArgument(a) => "unknown argument: "@ + a,
        ConfigErrorView::MissingValue(n) => n + " requires a value"@,
        ConfigErrorView::InvalidValue { name, value } => "invalid value for "@ + name + ": "@
            + value,
        ConfigErrorView::InvalidConcurrency(p) => "invalid concurrency value: "@ + p,
        ConfigErrorView::InvalidOnly => "--only must be tokio or compio"@,
        ConfigErrorView::RequestsZero => "--requests must be greater than zero"@,
        ConfigErrorView::ConcurrencyZero => "--concurrency values must be greater than zero"@,
        ConfigErrorView::BodyBytesZero => "--body-bytes must be greater than zero"@,
        ConfigErrorView::RoundsZero => "--rounds must be greater than zero"@,
    }
}

/// The result of an exec call, read through the views.
pub open spec fn result_view<T: View>(r: Result<T, ConfigError>) -> Result<T::V, ConfigErrorView> {
    match r {
        Ok(v) => Ok(v@),
        Err(e) => Err(e@),
    }
}

fn text_of(s: &str) -> (res: String)
    ensures
        res@ == s@,
{
    s.to_owned()
}

/// Splits `value` at every comma.
fn split_at_commas(value: &str) -> (parts: Vec<String>)
    ensures
        texts(parts@) == split_commas(value@),
{
    let chars = str_chars(value);
    let mut parts: Vec<String> = Vec::new();
    let mut current: Vec<char> = Vec::new();
    let mut i: usize = 0;
    assert(chars@.subrange(0, 0) =~= seq![]);
    assert(texts(parts@).push(current@) =~= seq![seq![]]);
    while i < chars.len()
        invariant
            0 <= i <= chars.len(),
            chars@ == value@,
            texts(parts@).push(current@) == split_commas(chars@.subrange(0, i as int)),
        decreases chars.len() - i,
    {
        let c = chars[i];
        let ghost prefix = chars@.subrange(0, i + 1);
        assert(prefix.drop_last() =~= chars@.subrange(0, i as int));
        assert(prefix.last() == c);
        if c == ',' {
            let piece = string_from_chars(&current);
            parts.push(piece);
            current = Vec::new();
            assert(texts(parts@).push(current@) =~= split_commas(prefix));
        } else {
            let ghost before = texts(parts@).push(current@);
            current.push(c);
            assert(texts(parts@).push(current@) =~= before.update(
                before.len() - 1,
                before.last().push(c),
            ));
        }
        i = i + 1;
    }
    let piece = string_from_chars(&current);
    parts.push(piece);
    assert(chars@.subrange(0, chars@.len() as int) =~= chars@);
    assert(texts(parts@) =~= split_commas(value@));
    parts
}

/// Reads a comma-separated list of numbers, such as `1,16,64`; spaces around
/// each number are ignored.
pub fn parse_concurrency(value: &str) -> (res: Result<Vec<usize>, ConfigError>)
    ensures
        result_view(res) == concurrency_result(value@),
{
    let parts = split_at_commas(value);
    let mut values: Vec<usize> = Vec::new();
    let mut i: usize = 0;
    while i < parts.len()
        invariant
            0 <= i <= parts.len(),
            texts(parts@) == split_commas(value@),
            piece_values(texts(parts@).subrange(0, i as int)) == Ok::<Seq<usize>, Seq<char>>(
                values@,
            ),
        decreases parts.len() - i,
    {
        let ghost pre = texts(parts@).subrange(0, i + 1);
        assert(pre.drop_last() =~= texts(parts@).subrange(0, i as int));
        assert(pre.last() == parts@[i as int]@);
        let part = parts[i].as_str();
        let piece = trim_text(part);
        match parse_usize(piece.as_str()) {
            Some(v) => {
                values.push(v);
            },
            None => {
                proof {
                    lemma_piece_values_error_stays(texts(parts@), i as int + 1);
                }
                assert(texts(parts@).subrange(0, texts(parts@).len() as int) =~= texts(parts@));
                return Err(ConfigError::InvalidConcurrency(text_of(part)));
            },
        }
        i = i + 1;
    }
    assert(texts(parts@).subrange(0, i as int) =~= texts(parts@));
    Ok(values)
}

proof fn lemma_piece_values_error_stays(parts: Seq<Seq<char>>, k: int)
    requires
        0 <= k <= parts.len(),
        piece_values(parts.subrange(0, k)) is Err,
    ensures
        piece_values(parts) == piece_values(parts.subrange(0, k)),
    decreases parts.len() - k,
{
    if k < parts.len() {
        let p = parts.subrange(0, k + 1);
        assert(p.drop_last() =~= parts.subrange(0, k));
        lemma_piece_values_error_stays(parts, k + 1);
    } else {
        assert(parts.subrange(0, k) =~= parts);
    }
}

/// Takes the argument at `*pos` as the value of the option `name`.
pub fn take_arg(args: &Vec<String>, pos: &mut usize, name: &str) -> (res: Result<
    String,
    ConfigError,
>)
    ensures
        *old(pos) < args@.len() ==> res is Ok && res->Ok_0@ == args@[*old(pos) as int]@
            && *final(pos) == *old(pos) + 1,
        *old(pos) >= args@.len() ==> res is Err && res->Err_0@ == ConfigErrorView::MissingValue(
            name@,
        ) && *final(pos) == *old(pos),
{
    if *pos < args.len() {
        let value = args[*pos].clone();
        *pos = *pos + 1;
        Ok(value)
    } else {
        Err(ConfigError::MissingValue(text_of(name)))
    }
}

/// Takes the argument at `*pos` as the numeric value of the option `name`.
pub fn parse_arg(args: &Vec<String>, pos: &mut usize, name: &str) -> (res: Result<
    usize,
    ConfigError,
>)
    ensures
        *old(pos) < args@.len() ==> *final(pos) == *old(pos) + 1 && match usize_text_value(
            args@[*old(pos) as int]@,
        ) {
            Some(n) => res == Ok::<usize, ConfigError>(n),
            None => res is Err && res->Err_0@ == (ConfigErrorView::InvalidValue {
                name: name@,
                value: args@[*old(pos) as int]@,
            }),
        },
        *old(pos) >= args@.len() ==> res is Err && res->Err_0@ == ConfigErrorView::MissingValue(
            name@,
        ) && *final(pos) == *old(pos),
{
    let value = take_arg(args, pos, name)?;
    match parse_usize(value.as_str()) {
        Some(n) => Ok(n),
        None => Err(ConfigError::InvalidValue { name: text_of(name), value }),
    }
}


impl View for ProxyConfig {
    type V = (Seq<char>, Seq<char>);

    open spec fn view(&self) -> (Seq<char>, Seq<char>) {
        (self.name@, self.path@)
    }
}

/// The proxies to measure, in order: tokio unless only compio is asked for,
/// then compio unless only tokio is asked for.
pub open spec fn proxy_list(cfg: ConfigView) -> Seq<(Seq<char>, Seq<char>)> {
    let first: Seq<(Seq<char>, Seq<char>)> = if cfg.only != Some("compio"@) {
        seq![("tokio"@, cfg.tokio_bin)]
    } else {
        seq![]
    };
    let second: Seq<(Seq<char>, Seq<char>)> = if cfg.only != Some("tokio"@) {
        seq![("compio"@, cfg.compio_bin)]
    } else {
        seq![]
    };
    first + second
}

/// Reads the option at `args[pos]` (and its value, for an option that takes
/// one) into `config`; gives the position of the next option.
fn apply_option(config: &mut Config, args: &Vec<String>, pos: usize) -> (res: Result<
    usize,
    ConfigError,
>)
    requires
        pos < args@.len(),
    ensures
        match option_step(old(config)@, texts(args@).skip(pos as int)) {
            Ok((c, k)) => res == Ok::<usize, ConfigError>((pos + k) as usize) && final(config)@
                == c,
            Err(e) => res is Err && res->Err_0@ == e,
        },
{
    let ghost rest = texts(args@).skip(pos as int);
    assert(rest[0] == args@[pos as int]@);
    assert(pos + 1 < args@.len() ==> rest[1] == args@[pos + 1]@);
    let count = args.len();
    let arg = args[pos].as_str();
    let mut next = pos + 1;
    if str_equals(arg, "-h") || str_equals(arg, "--help") {
        config.help = true;
        return Ok(next);
    }
    if str_equals(arg, "--show-proxy-output") {
        config.show_proxy_output = true;
        return Ok(next);
    }
    if str_equals(arg, "--requests") {
        match parse_arg(args, &mut next, "--requests") {
            Ok(n) => {
                config.requests = n;
                Ok(next)
            },
            Err(e) => Err(e),
        }
    } else if str_equals(arg, "--warmup") {
        match parse_arg(args, &mut next, "--warmup") {
            Ok(n) => {
                config.warmup = n;
                Ok(next)
            },
            Err(e) => Err(e),
        }
    } else if str_equals(arg, "--body-bytes") {
        match parse_arg(args, &mut next, "--body-bytes") {
            Ok(n) => {
                config.body_bytes = n;
                Ok(next)
            },
            Err(e) => Err(e),
        }
    } else if str_equals(arg, "--rounds") {
        match parse_arg(args, &mut next, "--rounds") {
            Ok(n) => {
                config.rounds = n;
                Ok(next)
            },
            Err(e) => Err(e),
        }
    } else if str_equals(arg, "--concurrency") {
        match take_arg(args, &mut next, "--concurrency") {
            Ok(value) => match parse_concurrency(value.as_str()) {
                Ok(c) => {
                    config.concurrency = c;
                    Ok(next)
                },
                Err(e) => Err(e),
            },
            Err(e) => Err(e),
        }
    } else if str_equals(arg, "--output-dir") {
        match take_arg(args, &mut next, "--output-dir") {
            Ok(value) => {
                config.output_dir = value;
                Ok(next)
            },
            Err(e) => Err(e),
        }
    } else if str_equals(arg, "--tokio-bin") {
        match take_arg(args, &mut next, "--tokio-bin") {
            Ok(value) => {
                config.tokio_bin = value;
                Ok(next)
            },
            Err(e) => Err(e),
        }
    } else if str_equals(arg, "--compio-bin") {
        match take_arg(args, &mut next, "--compio-bin") {
            Ok(value) => {
                config.compio_bin = value;
                Ok(next)
            },
            Err(e) => Err(e),
        }
    } else if str_equals(arg, "--only") {
        match take_arg(args, &mut next, "--only") {
            Ok(value) => {
                if !str_equals(value.as_str(), "tokio") && !str_equals(value.as_str(), "compio") {
                    Err(ConfigError::InvalidOnly)
                } else {
                    config.only = Some(value);
                    Ok(next)
                }
            },
            Err(e) => Err(e),
        }
    } else {
        Err(ConfigError::UnknownArgument(text_of(arg)))
    }
}

fn has_zero(values: &Vec<usize>) -> (res: bool)
    ensures
        res == values@.contains(0),
{
    let mut i: usize = 0;
    while i < values.len()
        invariant
            0 <= i <= values.len(),
            forall|j: int| 0 <= j < i ==> values@[j] != 0,
        decreases values.len() - i,
    {
        if values[i] == 0 {
            assert(values@[i as int] == 0);
            return true;
        }
        i = i + 1;
    }
    false
}

impl Config {
    /// Reads the command-line options `args` (without the program name) over
    /// the defaults, where `tokio_bin` and `compio_bin` are the default paths
    /// of the two proxy binaries, then checks that every count is positive.
    pub fn from_args(args: &Vec<String>, tokio_bin: String, compio_bin: String) -> (res: Result<
        Config,
        ConfigError,
    >)
        ensures
            result_view(res) == config_result(texts(args@), tokio_bin@, compio_bin@),
    {
        let ghost init = default_config(tokio_bin@, compio_bin@);
        let mut config = Config {
            requests: 2000,
            warmup: 200,
            concurrency: vec![1, 16, 64],
            body_bytes: 16 * 1024,
            rounds: 1,
            output_dir: text_of("target/socks5-bench"),
            tokio_bin,
            compio_bin,
            only: None,
            show_proxy_output: false,
            help: false,
        };
        assert(config@.concurrency =~= seq![1usize, 16, 64]);
        assert(config@ == init);
        let mut pos: usize = 0;
        assert(texts(args@).skip(0) =~= texts(args@));
        while pos < args.len()
            invariant
                pos <= args@.len(),
                init == default_config(tokio_bin@, compio_bin@),
                apply_options(config@, texts(args@).skip(pos as int)) == apply_options(
                    init,
                    texts(args@),
                ),
            decreases args@.len() - pos,
        {
            let ghost rest = texts(args@).skip(pos as int);
            assert(rest.len() > 0);
            let ghost before = config@;
            match apply_option(&mut config, args, pos) {
                Ok(next) => {
                    proof {
                        let used = (next - pos) as nat;
                        assert(rest.skip(used as int) =~= texts(args@).skip(next as int));
                    }
                    pos = next;
                },
                Err(e) => {
                    assert(apply_options(before, rest) == Err::<ConfigView, ConfigErrorView>(e@));
                    return Err(e);
                },
            }
        }
        assert(texts(args@).skip(pos as int).len() == 0);
        if config.requests == 0 {
            return Err(ConfigError::RequestsZero);
        }
        if config.concurrency.len() == 0 || has_zero(&config.concurrency) {
            return Err(ConfigError::ConcurrencyZero);
        }
        if config.body_bytes == 0 {
            return Err(ConfigError::BodyBytesZero);
        }
        if config.rounds == 0 {
            return Err(ConfigError::RoundsZero);
        }
        Ok(config)
    }

    /// The proxies to measure.
    pub fn proxies(&self) -> (res: Vec<ProxyConfig>)
        ensures
            res@.map_values(|p: ProxyConfig| p@) == proxy_list(self@),
    {
        let mut proxies: Vec<ProxyConfig> = Vec::new();
        let not_compio = match &self.only {
            Some(only) => !str_equals(only.as_str(), "compio"),
            None => true,
        };
        let not_tokio = match &self.only {
            Some(only) => !str_equals(only.as_str(), "tokio"),
            None => true,
        };
        if not_compio {
            proxies.push(ProxyConfig { name: "tokio", path: self.tokio_bin.clone() });
        }
        if not_tokio {
            proxies.push(ProxyConfig { name: "compio", path: self.compio_bin.clone() });
        }
        assert(proxies@.map_values(|p: ProxyConfig| p@) =~= proxy_list(self@));
        proxies
    }
}

impl ConfigError {
    /// Describes the error in words.
    pub fn message(&self) -> (s: String)
        ensures
            s@ == config_error_message(self@),
    {
        let mut s = String::new();
        match self {
            ConfigError::UnknownArgument(a) => {
                push_str(&mut s, "unknown argument: ");
                push_str(&mut s, a.as_str());
            },
            ConfigError::MissingValue(n) => {
                push_str(&mut s, n.as_str());
                push_str(&mut s, " requires a value");
            },
            ConfigError::InvalidValue { name, value } => {
                push_str(&mut s, "invalid value for ");
                push_str(&mut s, name.as_str());
                push_str(&mut s, ": ");
                push_str(&mut s, value.as_str());
            },
            ConfigError::InvalidConcurrency(p) => {
                push_str(&mut s, "invalid concurrency value: ");
                push_str(&mut s, p.as_str());
            },
            ConfigError::InvalidOnly => {
                push_str(&mut s, "--only must be tokio or compio");
            },
            ConfigError::RequestsZero => {
                push_str(&mut s, "--requests must be greater than zero");
            },
            ConfigError::ConcurrencyZero => {
                push_str(&mut s, "--concurrency values must be greater than zero");
            },
            ConfigError::BodyBytesZero => {
                push_str(&mut s, "--body-bytes must be greater than zero");
            },
            ConfigError::RoundsZero => {
                push_str(&mut s, "--rounds must be greater than zero");
            },
        }
        assert(s@ =~= config_error_message(self@));
        s
    }
}

} // verus!
