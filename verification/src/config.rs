//! The server's settings: where they come from and what they default to.

use vstd::prelude::*;

use crate::line_facts::is_one_line;
use crate::profile::{behind_block, is_quote, profile_token, token_of, updated};
use crate::profile_laws::{is_plain, law_token_is_read_back};
use crate::text::{
    decimal, decimal_text, is_white_space, law_trim_twice, same, texts, to_chars, trim, trimmed,
};
use crate::token::{generate_token, is_generated, is_hex_digit, is_random, law_token_shape};

verus! {

/// The port that the server listens on unless told otherwise.
pub const DEFAULT_PORT: u16 = 37373;

/// The socket address that the server listens on unless told otherwise.
pub const DEFAULT_BIND: &'static str = "0.0.0.0:37373";

/// The help text before the default socket address.
pub const HELP_HEAD: &'static str = "pwsh-history-server

Usage:
  pwsh-history-server [--db PATH] [--port PORT] [--token TOKEN] [--install]

Options:
  --db PATH             default: $HOME/.local/share/pwsh-history/history.sqlite3
  --port PORT           port on all interfaces; default: ";

/// The help text behind the default socket address.
pub const HELP_TAIL: &'static str = "
  --token TOKEN         default: PWSH_HISTORY_TOKEN in $PROFILE.CurrentUserCurrentHost,
                        otherwise random 32-byte hex token printed at startup
  --install, --lazy     install pwsh-history.ps1 and update $PROFILE.CurrentUserCurrentHost
  -h, --help            show this help
";

/// An IP address, as far as a URL depends on it: how it is written, which
/// family it belongs to, and whether it is the unspecified address.
#[derive(Debug)]
pub struct HostIp {
    pub text: String,
    pub v6: bool,
    pub unspecified: bool,
}

/// A socket address: an IP address and a port.
#[derive(Debug)]
pub struct BindAddr {
    pub ip: HostIp,
    pub port: u16,
}

/// The settings that the server runs with.
#[derive(Debug)]
pub struct Config {
    pub db_path: String,
    pub token: String,
    pub bind: String,
    pub addr: BindAddr,
    pub url: String,
    pub lazy: bool,
}

/// What the settings depend on besides the command line.
#[derive(Debug)]
pub struct Environment {
    /// The variable `HOME`.
    pub home: Option<String>,
    /// What the PowerShell profile holds, if it can be read.
    pub profile: Option<String>,
    /// The address that the default route starts from, if there is one.
    pub route: Option<HostIp>,
}

/// What the command line says about the settings.
#[derive(Debug)]
pub struct Options {
    /// The path of the database.
    pub db: Option<String>,
    /// The port to listen on.
    pub port: u16,
    /// The token that requests have to carry.
    pub token: Option<String>,
    /// Whether to set up PowerShell first.
    pub install: bool,
}

/// What the command line asks for.
#[derive(Debug)]
pub enum CommandLine {
    /// To print the help text and nothing else.
    Help,
    /// To run the server.
    Run(Options),
}

/// What to do at startup.
#[derive(Debug)]
pub enum Startup {
    Help,
    Serve(Config),
}

/// Why there are no settings.
#[derive(Debug)]
pub enum ConfigError {
    UnknownArgument(String),
    MissingValue(String),
    InvalidPort(String),
    HomeNotSet,
    HomeEmpty,
    NoRandomness,
}

/// What [`Options`] say.
pub struct Wanted {
    pub db: Option<Seq<char>>,
    pub port: u16,
    pub token: Option<Seq<char>>,
    pub install: bool,
}

impl View for Options {
    type V = Wanted;

    open spec fn view(&self) -> Wanted {
        Wanted {
            db: opt_text(self.db),
            port: self.port,
            token: opt_text(self.token),
            install: self.install,
        }
    }
}

/// What a command line comes down to: a request, or an error and the argument
/// that it is about.
pub enum Asked {
    Help,
    Run(Wanted),
    Unknown(Seq<char>),
    NoValue(Seq<char>),
    BadPort(Seq<char>),
}

/// The text that an optional string holds.
pub open spec fn opt_text(value: Option<String>) -> Option<Seq<char>> {
    match value {
        Some(s) => Some(s@),
        None => None,
    }
}

/// A value as a setting: trimmed, and none if nothing is left.
pub open spec fn setting(value: Option<Seq<char>>) -> Option<Seq<char>> {
    match value {
        Some(s) if trimmed(s).len() > 0 => Some(trimmed(s)),
        _ => None,
    }
}

/// Whether `arg` asks for help.
pub open spec fn is_help(arg: Seq<char>) -> bool {
    arg == "-h"@ || arg == "--help"@
}

/// Whether all of `s` are decimal digits.
pub open spec fn are_digits(s: Seq<char>) -> bool {
    forall|i: int| 0 <= i < s.len() ==> '0' <= #[trigger] s[i] <= '9'
}

/// The number that decimal digits stand for.
pub open spec fn number(digits: Seq<char>) -> int
    decreases digits.len(),
{
    if digits.len() == 0 {
        0
    } else {
        10 * number(digits.drop_last()) + (digits.last() as int - '0' as int)
    }
}

/// The port that `text` stands for: decimal digits, and a number that fits.
pub open spec fn port_number(text: Seq<char>) -> Option<u16> {
    if text.len() > 0 && are_digits(text) && number(text) <= 65535 {
        Some(number(text) as u16)
    } else {
        None
    }
}

/// What an empty command line says.
pub open spec fn defaults() -> Wanted {
    Wanted { db: None, port: DEFAULT_PORT, token: None, install: false }
}

/// Whether a value follows the option `arg`.
pub open spec fn takes_value(arg: Seq<char>) -> bool {
    arg == "--db"@ || arg == "--port"@ || arg == "--token"@
}

/// `wanted` after the option `arg` with the value `value`. A port may be none.
pub open spec fn with_option(wanted: Wanted, arg: Seq<char>, value: Seq<char>) -> Option<Wanted> {
    if arg == "--db"@ {
        Some(Wanted { db: Some(value), ..wanted })
    } else if arg == "--token"@ {
        Some(Wanted { token: Some(value), ..wanted })
    } else {
        match port_number(value) {
            Some(port) => Some(Wanted { port, ..wanted }),
            None => None,
        }
    }
}

/// What the arguments `args` ask for behind others that say `wanted`. The first
/// one that asks for help or is an error decides; of two values for one option
/// the later counts.
pub open spec fn asked(args: Seq<Seq<char>>, wanted: Wanted) -> Asked
    decreases args.len(),
{
    if args.len() == 0 {
        Asked::Run(wanted)
    } else if is_help(args[0]) {
        Asked::Help
    } else if args[0] == "--install"@ || args[0] == "--lazy"@ {
        asked(args.skip(1), Wanted { install: true, ..wanted })
    } else if takes_value(args[0]) {
        if args.len() < 2 {
            Asked::NoValue(args[0])
        } else {
            match with_option(wanted, args[0], args[1]) {
                Some(next) => asked(args.skip(2), next),
                None => Asked::BadPort(args[1]),
            }
        }
    } else {
        Asked::Unknown(args[0])
    }
}

/// What an answer to a command line comes down to. No other errors come of it.
pub open spec fn answer(res: Result<CommandLine, ConfigError>) -> Option<Asked> {
    match res {
        Ok(CommandLine::Help) => Some(Asked::Help),
        Ok(CommandLine::Run(options)) => Some(Asked::Run(options@)),
        Err(ConfigError::UnknownArgument(arg)) => Some(Asked::Unknown(arg@)),
        Err(ConfigError::MissingValue(arg)) => Some(Asked::NoValue(arg@)),
        Err(ConfigError::InvalidPort(value)) => Some(Asked::BadPort(value@)),
        Err(_) => None,
    }
}

/// The path of `name` in the directory `dir`.
pub open spec fn child_path(dir: Seq<char>, name: Seq<char>) -> Seq<char> {
    if dir.len() == 0 || dir.last() == '/' {
        dir + name
    } else {
        dir.push('/') + name
    }
}

/// The path of the database in a home directory.
pub open spec fn db_path_in(home: Seq<char>) -> Seq<char> {
    child_path(
        child_path(child_path(child_path(home, ".local"@), "share"@), "pwsh-history"@),
        "history.sqlite3"@,
    )
}

/// Why `home` is no home directory, if it is none.
pub open spec fn home_error(home: Option<Seq<char>>) -> Option<ConfigError> {
    match home {
        None => Some(ConfigError::HomeNotSet),
        Some(s) if trimmed(s).len() == 0 => Some(ConfigError::HomeEmpty),
        _ => None,
    }
}

/// The URL of a server at `ip` and `port`.
pub open spec fn host_url(ip: HostIp, port: u16) -> Seq<char> {
    let host = if ip.v6 {
        seq!['['] + ip.text@ + seq![']']
    } else {
        ip.text@
    };
    "http://"@ + host + ":"@ + decimal(port as nat)
}

/// The URL of a server on all interfaces, given the address that the default
/// route starts from.
pub open spec fn route_url(route: Option<HostIp>, port: u16) -> Seq<char> {
    match route {
        Some(ip) => host_url(ip, port),
        None => "http://0.0.0.0:"@ + decimal(port as nat),
    }
}

/// The URL of a server that listens on `addr`.
pub open spec fn addr_url(addr: BindAddr, route: Option<HostIp>) -> Seq<char> {
    if addr.ip.unspecified {
        route_url(route, addr.port)
    } else {
        host_url(addr.ip, addr.port)
    }
}

/// The socket address of all interfaces at `port`.
pub open spec fn bind_for(port: u16) -> Seq<char> {
    "0.0.0.0:"@ + decimal(port as nat)
}

/// Whether `addr` is the address of all interfaces at `port`.
pub open spec fn is_any_addr(addr: BindAddr, port: u16) -> bool {
    &&& addr.ip.text@ == "0.0.0.0"@
    &&& !addr.ip.v6
    &&& addr.ip.unspecified
    &&& addr.port == port
}

/// Why there is no path for the database, if there is none.
pub open spec fn db_error(wanted: Wanted, env: Environment) -> Option<ConfigError> {
    if setting(wanted.db) is Some {
        None
    } else {
        home_error(opt_text(env.home))
    }
}

/// The token that is given: the one of the command line, or else the one in
/// the PowerShell profile.
pub open spec fn given_token(wanted: Wanted, env: Environment) -> Option<Seq<char>> {
    match (setting(wanted.token), env.profile) {
        (Some(token), _) => Some(token),
        (None, Some(profile)) => setting(token_of(profile@)),
        (None, None) => None,
    }
}

/// Whether `config` has the settings that `wanted` and `env` give, and `token`.
pub open spec fn configured(
    config: Config,
    wanted: Wanted,
    env: Environment,
    token: Seq<char>,
) -> bool {
    &&& config.db_path@ == match setting(wanted.db) {
        Some(path) => path,
        None => db_path_in(opt_text(env.home)->0),
    }
    &&& config.token@ == token
    &&& config.bind@ == bind_for(wanted.port)
    &&& is_any_addr(config.addr, wanted.port)
    &&& config.url@ == route_url(env.route, wanted.port)
    &&& config.lazy == wanted.install
}

/// The line of a setting as it is printed at startup.
pub open spec fn printed(name: Seq<char>, value: Seq<char>) -> Seq<char> {
    name.push('=') + value.push('\n')
}

/// What is printed of the settings at startup.
pub open spec fn startup_lines(config: Config) -> Seq<char> {
    printed("PWSH_HISTORY_DB"@, config.db_path@) + printed("PWSH_HISTORY_TOKEN"@, config.token@)
        + printed("PWSH_HISTORY_BIND"@, config.bind@) + printed("PWSH_HISTORY_URL"@, config.url@)
        + if config.lazy {
        printed("PWSH_HISTORY_LAZY"@, "1"@)
    } else {
        seq![]
    }
}

/// What an error says.
pub open spec fn error_text(error: ConfigError) -> Seq<char> {
    match error {
        ConfigError::UnknownArgument(arg) => "unknown argument: "@ + arg@,
        ConfigError::MissingValue(arg) => "missing value for "@ + arg@,
        ConfigError::InvalidPort(value) => "invalid --port: "@ + value@,
        ConfigError::HomeNotSet => "HOME is not set"@,
        ConfigError::HomeEmpty => "HOME is empty"@,
        ConfigError::NoRandomness => "failed to get random bytes for PWSH_HISTORY_TOKEN"@,
    }
}

/// A port is read back from its decimal digits.
pub proof fn law_port_is_read_back(port: u16)
    ensures
        port_number(decimal(port as nat)) == Some(port),
{
    lemma_number_of_decimal(port as nat);
}

proof fn lemma_number_of_decimal(n: nat)
    ensures
        decimal(n).len() > 0,
        are_digits(decimal(n)),
        number(decimal(n)) == n,
    decreases n,
{
    let digits = decimal(n);
    if n >= 10 {
        let more = decimal(n / 10);
        lemma_number_of_decimal(n / 10);
        assert(digits.drop_last() =~= more);
        assert forall|i: int| 0 <= i < digits.len() implies '0' <= #[trigger] digits[i] <= '9' by {
            if i < more.len() {
                assert(digits[i] == more[i]);
            }
        }
    } else {
        reveal_with_fuel(number, 2);
        assert(digits.drop_last() =~= Seq::<char>::empty());
    }
}

/// A setting never is empty, nor does white space stand around it.
pub proof fn law_setting_is_trimmed(value: Option<Seq<char>>)
    ensures
        setting(value) matches Some(s) ==> s.len() > 0 && trimmed(s) == s,
{
    if let Some(s) = value {
        law_trim_twice(s);
    }
}

/// A server that is started again without a token takes the one that it wrote
/// to the profile. Left out are profiles in which a line behind the block sets
/// another token, settings with a newline, tokens with typographic single
/// quotes, and tokens that are no setting: empty ones, and ones with white
/// space around them.
pub proof fn law_installed_token_is_kept(
    profile: Seq<char>,
    config: Config,
    script_path: Seq<char>,
    wanted: Wanted,
    env: Environment,
)
    requires
        env.profile matches Some(text) && text@ == updated(profile, config, script_path),
        setting(wanted.token) is None,
        token_of(behind_block(profile)) matches Some(token) ==> token == config.token@,
        is_plain(config, script_path),
        forall|i: int|
            0 <= i < config.token@.len() && is_quote(#[trigger] config.token@[i])
                ==> config.token@[i] == '\'',
        setting(Some(config.token@)) == Some(config.token@),
    ensures
        given_token(wanted, env) == Some(config.token@),
{
    law_token_is_read_back(profile, config, script_path);
}

/// A generated token can be a setting, holds no newline and no quote.
pub proof fn law_generated_token_is_plain(token: Seq<char>)
    requires
        is_generated(token),
    ensures
        setting(Some(token)) == Some(token),
        is_one_line(token),
        forall|i: int| 0 <= i < token.len() ==> !is_quote(#[trigger] token[i]),
{
    law_token_shape(token);
    assert(is_hex_digit(token[0]) && is_hex_digit(token[token.len() - 1]));
    assert(!is_white_space(token.first()) && !is_white_space(token.last()));
    assert(trimmed(token) == token);
    assert forall|i: int| 0 <= i < token.len() implies !is_quote(#[trigger] token[i]) && token[i]
        != '\n' by {
        assert(is_hex_digit(token[i]));
    }
}

/// The port that `text` stands for.
pub fn parse_port(text: &str) -> (res: Option<u16>)
    ensures
        res == port_number(text@),
{
    let chars = to_chars(text);
    if chars.len() == 0 {
        return None;
    }
    let mut n: u32 = 0;
    let mut i: usize = 0;
    while i < chars.len()
        invariant
            i <= chars.len(),
            chars@ == text@,
            are_digits(text@.take(i as int)),
            if n <= 65535 {
                n == number(text@.take(i as int))
            } else {
                n == 65536 && number(text@.take(i as int)) > 65535
            },
        decreases chars.len() - i,
    {
        let c = chars[i];
        if c < '0' || c > '9' {
            assert(!are_digits(text@)) by {
                assert(text@[i as int] == c);
            }
            return None;
        }
        let ghost next = text@.take(i + 1);
        assert(next.drop_last() =~= text@.take(i as int));
        assert(are_digits(next)) by {
            assert forall|j: int| 0 <= j < next.len() implies '0' <= #[trigger] next[j]
                <= '9' by {
                if j < i {
                    assert(next[j] == text@.take(i as int)[j]);
                }
            }
        }
        if n <= 65535 {
            n = 10 * n + (c as u32 - '0' as u32);
            if n > 65535 {
                n = 65536;
            }
        }
        i += 1;
    }
    assert(text@.take(text@.len() as int) =~= text@);
    if n <= 65535 {
        Some(n as u16)
    } else {
        None
    }
}

/// What the command line `args`, without the program's name, asks for.
pub fn parse_args(args: &Vec<String>) -> (res: Result<CommandLine, ConfigError>)
    ensures
        answer(res) == Some(asked(texts(args@), defaults())),
{
    let ghost all = texts(args@);
    let mut db: Option<String> = None;
    let mut port: u16 = DEFAULT_PORT;
    let mut token: Option<String> = None;
    let mut install = false;
    let mut i: usize = 0;
    assert(all.skip(0) =~= all);
    while i < args.len()
        invariant
            i <= args.len(),
            all == texts(args@),
            asked(all, defaults()) == asked(
                all.skip(i as int),
                (Wanted { db: opt_text(db), port, token: opt_text(token), install }),
            ),
        decreases args.len() - i,
    {
        let arg = args[i].as_str();
        let ghost rest = all.skip(i as int);
        assert(rest[0] == arg@);
        if same(arg, "-h") || same(arg, "--help") {
            return Ok(CommandLine::Help);
        }
        if same(arg, "--install") || same(arg, "--lazy") {
            install = true;
            assert(rest.skip(1) =~= all.skip(i + 1));
            i += 1;
            continue;
        }
        let takes_db = same(arg, "--db");
        let takes_token = same(arg, "--token");
        if !takes_db && !takes_token && !same(arg, "--port") {
            return Err(ConfigError::UnknownArgument(arg.to_owned()));
        }
        if i + 1 >= args.len() {
            return Err(ConfigError::MissingValue(arg.to_owned()));
        }
        let value = args[i + 1].as_str();
        proof {
            assert(rest[1] == value@);
            assert(rest.skip(2) =~= all.skip(i + 2));
        }
        if takes_db {
            db = Some(value.to_owned());
        } else if takes_token {
            token = Some(value.to_owned());
        } else {
            match parse_port(value) {
                Some(number) => {
                    port = number;
                },
                None => return Err(ConfigError::InvalidPort(value.to_owned())),
            }
        }
        i += 2;
    }
    assert(all.skip(i as int) =~= Seq::<Seq<char>>::empty());
    Ok(CommandLine::Run(Options { db, port, token, install }))
}

/// The setting that a value gives, if it is anything but white space.
pub fn optional_setting(value: &Option<String>) -> (res: Option<String>)
    ensures
        opt_text(res) == setting(opt_text(*value)),
{
    match value {
        Some(s) => {
            let bare = trim(s.as_str());
            if bare.as_str().is_empty() {
                None
            } else {
                Some(bare)
            }
        },
        None => None,
    }
}

/// The home directory, given the variable `HOME`. It is taken as it is set,
/// but neither missing nor blank.
pub fn home_dir(home: &Option<String>) -> (res: Result<String, ConfigError>)
    ensures
        match home_error(opt_text(*home)) {
            Some(error) => res == Err::<String, ConfigError>(error),
            None => res matches Ok(dir) && Some(dir@) == opt_text(*home),
        },
{
    match home {
        None => Err(ConfigError::HomeNotSet),
        Some(s) => {
            if trim(s.as_str()).as_str().is_empty() {
                Err(ConfigError::HomeEmpty)
            } else {
                Ok(s.clone())
            }
        },
    }
}

/// The path of `name` in the directory `dir`. `name` is relative.
pub(crate) fn join_path(dir: &str, name: &str) -> (res: String)
    requires
        name@.len() > 0 ==> name@[0] != '/',
    ensures
        res@ == child_path(dir@, name@),
{
    let chars = to_chars(dir);
    let mut res = dir.to_owned();
    if chars.len() > 0 && chars[chars.len() - 1] != '/' {
        res.push('/');
    }
    res.append(name);
    res
}

/// The path of the database, given the variable `HOME`.
pub fn default_db_path(home: &Option<String>) -> (res: Result<String, ConfigError>)
    ensures
        match home_error(opt_text(*home)) {
            Some(error) => res == Err::<String, ConfigError>(error),
            None => res matches Ok(path) && path@ == db_path_in(opt_text(*home)->0),
        },
{
    proof {
        reveal_strlit(".local");
        reveal_strlit("share");
        reveal_strlit("pwsh-history");
        reveal_strlit("history.sqlite3");
    }
    match home_dir(home) {
        Ok(dir) => {
            let local = join_path(dir.as_str(), ".local");
            let share = join_path(local.as_str(), "share");
            let own = join_path(share.as_str(), "pwsh-history");
            Ok(join_path(own.as_str(), "history.sqlite3"))
        },
        Err(error) => Err(error),
    }
}

/// The URL of a server at `ip` and `port`. An IPv6 address stands in brackets.
pub fn url_for_host(ip: &HostIp, port: u16) -> (res: String)
    ensures
        res@ == host_url(*ip, port),
{
    let mut res = "http://".to_owned();
    if ip.v6 {
        res.push('[');
    }
    res.append(ip.text.as_str());
    if ip.v6 {
        res.push(']');
    }
    res.append(":");
    res.append(decimal_text(port).as_str());
    assert(res@ =~= host_url(*ip, port));
    res
}

/// The URL of a server that listens on all interfaces, given the address that
/// the default route starts from, if there is one.
pub fn default_route_url(route: &Option<HostIp>, port: u16) -> (res: String)
    ensures
        res@ == route_url(*route, port),
{
    match route {
        Some(ip) => url_for_host(ip, port),
        None => {
            let mut res = "http://0.0.0.0:".to_owned();
            res.append(decimal_text(port).as_str());
            res
        },
    }
}

/// The URL of a server that listens on `addr`.
pub fn default_url_for_addr(addr: &BindAddr, route: &Option<HostIp>) -> (res: String)
    ensures
        res@ == addr_url(*addr, *route),
{
    if addr.ip.unspecified {
        default_route_url(route, addr.port)
    } else {
        url_for_host(&addr.ip, addr.port)
    }
}

/// The token that is given: the one of the command line, or else the one in
/// the PowerShell profile.
pub fn find_token(options: &Options, env: &Environment) -> (res: Option<String>)
    ensures
        opt_text(res) == given_token(options@, *env),
{
    let own = optional_setting(&options.token);
    if own.is_some() {
        return own;
    }
    match &env.profile {
        Some(profile) => optional_setting(&profile_token(profile.as_str())),
        None => None,
    }
}

impl Config {
    /// The settings that `options` and `env` give. `generated` is a fresh
    /// token, if there is one; it counts only where no token is given.
    pub fn from_options(options: &Options, env: &Environment, generated: Option<String>) -> (res:
        Result<Config, ConfigError>)
        ensures
            match db_error(options@, *env) {
                Some(error) => res == Err::<Config, ConfigError>(error),
                None => match (given_token(options@, *env), generated) {
                    (Some(token), _) => res matches Ok(config) && configured(
                        config,
                        options@,
                        *env,
                        token,
                    ),
                    (None, Some(token)) => res matches Ok(config) && configured(
                        config,
                        options@,
                        *env,
                        token@,
                    ),
                    (None, None) => res == Err::<Config, ConfigError>(ConfigError::NoRandomness),
                },
            },
    {
        let db_path = match optional_setting(&options.db) {
            Some(path) => path,
            None => match default_db_path(&env.home) {
                Ok(path) => path,
                Err(error) => return Err(error),
            },
        };
        let token = match find_token(options, env) {
            Some(token) => token,
            None => match generated {
                Some(token) => token,
                None => return Err(ConfigError::NoRandomness),
            },
        };
        let port = options.port;
        let bind = "0.0.0.0:".to_owned().concat(decimal_text(port).as_str());
        let ip = HostIp { text: "0.0.0.0".to_owned(), v6: false, unspecified: true };
        let addr = BindAddr { ip, port };
        let url = default_url_for_addr(&addr, &env.route);
        Ok(Config { db_path, token, bind, addr, url, lazy: options.install })
    }

    /// What the command line and the environment ask for. The token is the one
    /// of the command line, or else the one in the PowerShell profile; only
    /// where neither gives one, it is generated.
    pub fn from_env_and_args(args: &Vec<String>, env: &Environment) -> (res: Result<
        Startup,
        ConfigError,
    >)
        ensures
            match asked(texts(args@), defaults()) {
                Asked::Help => res == Ok::<Startup, ConfigError>(Startup::Help),
                Asked::Unknown(arg) => res matches Err(ConfigError::UnknownArgument(s)) && s@
                    == arg,
                Asked::NoValue(arg) => res matches Err(ConfigError::MissingValue(s)) && s@ == arg,
                Asked::BadPort(value) => res matches Err(ConfigError::InvalidPort(s)) && s@
                    == value,
                Asked::Run(wanted) => match db_error(wanted, *env) {
                    Some(error) => res == Err::<Startup, ConfigError>(error),
                    None => match given_token(wanted, *env) {
                        Some(token) => res matches Ok(Startup::Serve(config)) && configured(
                            config,
                            wanted,
                            *env,
                            token,
                        ),
                        None => match res {
                            Ok(Startup::Serve(config)) => configured(
                                config,
                                wanted,
                                *env,
                                config.token@,
                            ) && is_generated(config.token@) && is_random(Some(config.token@)),
                            Ok(Startup::Help) => false,
                            Err(error) => error == ConfigError::NoRandomness && is_random(None),
                        },
                    },
                },
            },
    {
        match parse_args(args) {
            Err(error) => Err(error),
            Ok(CommandLine::Help) => Ok(Startup::Help),
            Ok(CommandLine::Run(options)) => {
                let generated = if find_token(&options, env).is_none() {
                    generate_token()
                } else {
                    None
                };
                match Config::from_options(&options, env, generated) {
                    Ok(config) => Ok(Startup::Serve(config)),
                    Err(error) => Err(error),
                }
            },
        }
    }
}

/// Appends the line of a setting.
fn push_printed(output: &mut String, name: &str, value: &str)
    ensures
        final(output)@ == old(output)@ + printed(name@, value@),
{
    output.append(name);
    output.push('=');
    output.append(value);
    output.push('\n');
    assert(output@ =~= old(output)@ + printed(name@, value@));
}

/// What is printed of the settings at startup.
pub fn startup_config(config: &Config) -> (res: String)
    ensures
        res@ == startup_lines(*config),
{
    let mut res = String::new();
    push_printed(&mut res, "PWSH_HISTORY_DB", config.db_path.as_str());
    push_printed(&mut res, "PWSH_HISTORY_TOKEN", config.token.as_str());
    push_printed(&mut res, "PWSH_HISTORY_BIND", config.bind.as_str());
    push_printed(&mut res, "PWSH_HISTORY_URL", config.url.as_str());
    if config.lazy {
        push_printed(&mut res, "PWSH_HISTORY_LAZY", "1");
    }
    assert(res@ =~= startup_lines(*config));
    res
}

/// The help text.
pub fn help_text() -> (res: String)
    ensures
        res@ == HELP_HEAD@ + DEFAULT_BIND@ + HELP_TAIL@,
{
    HELP_HEAD.to_owned().concat(DEFAULT_BIND).concat(HELP_TAIL)
}

impl ConfigError {
    /// What the error says.
    pub fn message(&self) -> (res: String)
        ensures
            res@ == error_text(*self),
    {
        match self {
            ConfigError::UnknownArgument(arg) => "unknown argument: ".to_owned().concat(
                arg.as_str(),
            ),
            ConfigError::HomeNotSet => "HOME is not set".to_owned(),
            ConfigError::HomeEmpty => "HOME is empty".to_owned(),
            ConfigError::NoRandomness =>
                "failed to get random bytes for PWSH_HISTORY_TOKEN".to_owned(),
            ConfigError::MissingValue(arg) => "missing value for ".to_owned().concat(arg.as_str()),
            ConfigError::InvalidPort(value) => "invalid --port: ".to_owned().concat(
                value.as_str(),
            ),
        }
    }
}

} // verus!
