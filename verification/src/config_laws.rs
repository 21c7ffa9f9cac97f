//! What the command line and its surroundings mean for the settings.

use vstd::prelude::*;

use crate::config::{
    addr_url, answer, are_digits, asked, child_path, configured, db_error, db_path_in, defaults,
    error_text, given_token, home_error, host_url, is_help, number, port_number, route_url, setting,
    startup_lines, takes_value, with_option, Asked, BindAddr, CommandLine, Config, ConfigError,
    Environment, HostIp, Options, Wanted,
};
use crate::profile::token_of;
use crate::text::{decimal, trimmed};
use crate::text_laws::{is_bare, is_blank, law_blank_is_trimmed_away, law_trim_takes_blank_off};

verus! {

/// A value gives a setting without the white space around it; a blank one gives
/// none.
pub proof fn law_setting(a: Seq<char>, p: Seq<char>, b: Seq<char>)
    requires
        is_blank(a),
        is_bare(p),
        is_blank(b),
    ensures
        setting(Some(a + p + b)) == Some(p),
        setting(Some(a)) is None,
        setting(None) is None,
{
    law_trim_takes_blank_off(a, p, b);
    law_blank_is_trimmed_away(a);
}

/// An empty command line asks to run the server with the defaults.
pub proof fn law_empty_command_line(wanted: Wanted)
    ensures
        asked(seq![], wanted) == Asked::Run(wanted),
        defaults().db is None,
        defaults().port == 37373,
        defaults().token is None,
        !defaults().install,
{
}

/// What arguments ask for behind others depends on the others only by what they
/// say.
proof fn lemma_asked_append(
    args: Seq<Seq<char>>,
    more: Seq<Seq<char>>,
    wanted: Wanted,
    given: Wanted,
)
    requires
        asked(args, wanted) == Asked::Run(given),
    ensures
        asked(args + more, wanted) == asked(more, given),
    decreases args.len(),
{
    if args.len() == 0 {
        assert(args + more =~= more);
    } else {
        let all = args + more;
        assert(all[0] == args[0]);
        if args[0] == "--install"@ || args[0] == "--lazy"@ {
            assert(all.skip(1) =~= args.skip(1) + more);
            lemma_asked_append(
                args.skip(1),
                more,
                (Wanted { install: true, ..wanted }),
                given,
            );
        } else {
            assert(takes_value(args[0]) && args.len() >= 2);
            assert(all[1] == args[1]);
            assert(all.skip(2) =~= args.skip(2) + more);
            let next = with_option(wanted, args[0], args[1])->0;
            lemma_asked_append(args.skip(2), more, next, given);
        }
    }
}

proof fn lemma_option_names()
    ensures
        "--install"@ != "--db"@,
        "--install"@ != "--token"@,
        "--install"@ != "--port"@,
        "--lazy"@ != "--db"@,
        "--lazy"@ != "--token"@,
        "--lazy"@ != "--port"@,
        "--db"@ != "--token"@,
        "--db"@ != "--port"@,
        "--token"@ != "--port"@,
        "-h"@ != "--db"@ && "-h"@ != "--token"@ && "-h"@ != "--port"@,
        "-h"@ != "--install"@ && "-h"@ != "--lazy"@,
        "--help"@ != "--db"@ && "--help"@ != "--token"@ && "--help"@ != "--port"@,
        "--help"@ != "--install"@ && "--help"@ != "--lazy"@,
{
    reveal_strlit("--install");
    reveal_strlit("--lazy");
    reveal_strlit("--db");
    reveal_strlit("--token");
    reveal_strlit("--port");
    reveal_strlit("-h");
    reveal_strlit("--help");
    assert("--install"@.len() == 9 && "--db"@.len() == 4 && "-h"@.len() == 2);
    assert("--lazy"@[2] == 'l' && "--port"@[2] == 'p' && "--help"@[2] == 'h');
    assert("--token"@.len() == 7);
}

proof fn lemma_one_more(
    args: Seq<Seq<char>>,
    arg: Seq<char>,
    wanted: Wanted,
    given: Wanted,
)
    requires
        asked(args, wanted) == Asked::Run(given),
    ensures
        asked(args.push(arg), wanted) == asked(seq![arg], given),
{
    lemma_asked_append(args, seq![arg], wanted, given);
    assert(args + seq![arg] =~= args.push(arg));
}

proof fn lemma_two_more(
    args: Seq<Seq<char>>,
    arg: Seq<char>,
    value: Seq<char>,
    wanted: Wanted,
    given: Wanted,
)
    requires
        asked(args, wanted) == Asked::Run(given),
        takes_value(arg),
        !is_help(arg),
        arg != "--install"@ && arg != "--lazy"@,
    ensures
        asked(args.push(arg).push(value), wanted) == match with_option(given, arg, value) {
            Some(next) => Asked::Run(next),
            None => Asked::BadPort(value),
        },
{
    let more = seq![arg, value];
    lemma_asked_append(args, more, wanted, given);
    assert(args + more =~= args.push(arg).push(value));
    reveal_with_fuel(asked, 2);
    assert(more[0] == arg && more[1] == value);
    assert(more.skip(2) =~= Seq::<Seq<char>>::empty());
}

/// `--install`, or `--lazy`, behind a command line asks to set up PowerShell
/// and changes nothing else that the command line says.
pub proof fn law_install_option(args: Seq<Seq<char>>, wanted: Wanted, given: Wanted)
    requires
        asked(args, wanted) == Asked::Run(given),
    ensures
        ({
            let now = Wanted { db: given.db, port: given.port, token: given.token, install: true };
            &&& asked(args.push("--install"@), wanted) == Asked::Run(now)
            &&& asked(args.push("--lazy"@), wanted) == Asked::Run(now)
        }),
{
    lemma_option_names();
    lemma_one_more(args, "--install"@, wanted, given);
    lemma_one_more(args, "--lazy"@, wanted, given);
    reveal_with_fuel(asked, 2);
    assert(seq!["--install"@].skip(1) =~= Seq::<Seq<char>>::empty());
    assert(seq!["--lazy"@].skip(1) =~= Seq::<Seq<char>>::empty());
}

/// `--db` behind a command line gives the path of the database and changes
/// nothing else that the command line says.
pub proof fn law_db_option(args: Seq<Seq<char>>, path: Seq<char>, wanted: Wanted, given: Wanted)
    requires
        asked(args, wanted) == Asked::Run(given),
    ensures
        asked(args.push("--db"@).push(path), wanted) == Asked::Run(
            Wanted {
                db: Some(path),
                port: given.port,
                token: given.token,
                install: given.install,
            },
        ),
{
    lemma_option_names();
    lemma_two_more(args, "--db"@, path, wanted, given);
}

/// `--token` behind a command line gives the token and changes nothing else
/// that the command line says.
pub proof fn law_token_option(args: Seq<Seq<char>>, token: Seq<char>, wanted: Wanted, given: Wanted)
    requires
        asked(args, wanted) == Asked::Run(given),
    ensures
        asked(args.push("--token"@).push(token), wanted) == Asked::Run(
            Wanted {
                db: given.db,
                port: given.port,
                token: Some(token),
                install: given.install,
            },
        ),
{
    lemma_option_names();
    lemma_two_more(args, "--token"@, token, wanted, given);
}

/// `--port` behind a command line gives the port and changes nothing else that
/// the command line says, or is an error where no port is given.
pub proof fn law_port_option(
    args: Seq<Seq<char>>,
    value: Seq<char>,
    port: u16,
    wanted: Wanted,
    given: Wanted,
)
    requires
        asked(args, wanted) == Asked::Run(given),
    ensures
        port_number(value) == Some(port) ==> asked(args.push("--port"@).push(value), wanted)
            == Asked::Run(
            Wanted { db: given.db, port, token: given.token, install: given.install },
        ),
        port_number(value) is None ==> asked(args.push("--port"@).push(value), wanted)
            == Asked::BadPort(value),
{
    lemma_option_names();
    lemma_two_more(args, "--port"@, value, wanted, given);
}

/// A command line whose last option lacks its value is an error.
pub proof fn law_missing_value(args: Seq<Seq<char>>, wanted: Wanted, given: Wanted)
    requires
        asked(args, wanted) == Asked::Run(given),
    ensures
        asked(args.push("--db"@), wanted) == Asked::NoValue("--db"@),
        asked(args.push("--port"@), wanted) == Asked::NoValue("--port"@),
        asked(args.push("--token"@), wanted) == Asked::NoValue("--token"@),
{
    lemma_option_names();
    lemma_one_more(args, "--db"@, wanted, given);
    lemma_one_more(args, "--port"@, wanted, given);
    lemma_one_more(args, "--token"@, wanted, given);
}

/// `-h`, or `--help`, behind a command line asks for help.
pub proof fn law_help_option(args: Seq<Seq<char>>, wanted: Wanted, given: Wanted)
    requires
        asked(args, wanted) == Asked::Run(given),
    ensures
        asked(args.push("-h"@), wanted) == Asked::Help,
        asked(args.push("--help"@), wanted) == Asked::Help,
{
    lemma_one_more(args, "-h"@, wanted, given);
    lemma_one_more(args, "--help"@, wanted, given);
}

/// Any other argument behind a command line is an error.
pub proof fn law_unknown_argument(
    args: Seq<Seq<char>>,
    arg: Seq<char>,
    wanted: Wanted,
    given: Wanted,
)
    requires
        asked(args, wanted) == Asked::Run(given),
        arg != "--db"@ && arg != "--port"@ && arg != "--token"@,
        arg != "--install"@ && arg != "--lazy"@,
        arg != "-h"@ && arg != "--help"@,
    ensures
        asked(args.push(arg), wanted) == Asked::Unknown(arg),
{
    lemma_one_more(args, arg, wanted, given);
}

/// What stands behind a request for help or an error does not count.
pub proof fn law_first_stop_counts(
    args: Seq<Seq<char>>,
    more: Seq<Seq<char>>,
    wanted: Wanted,
)
    requires
        !(asked(args, wanted) is Run),
        !(asked(args, wanted) is NoValue),
    ensures
        asked(args + more, wanted) == asked(args, wanted),
    decreases args.len(),
{
    let all = args + more;
    assert(all[0] == args[0]);
    if is_help(args[0]) {
    } else if args[0] == "--install"@ || args[0] == "--lazy"@ {
        assert(all.skip(1) =~= args.skip(1) + more);
        law_first_stop_counts(args.skip(1), more, (Wanted { install: true, ..wanted }));
    } else if takes_value(args[0]) {
        assert(all[1] == args[1]);
        if let Some(next) = with_option(wanted, args[0], args[1]) {
            assert(all.skip(2) =~= args.skip(2) + more);
            law_first_stop_counts(args.skip(2), more, next);
        }
    }
}

/// Once a command line asks to set up PowerShell, no option undoes it.
pub proof fn law_install_is_not_undone(args: Seq<Seq<char>>, wanted: Wanted, given: Wanted)
    requires
        wanted.install,
        asked(args, wanted) == Asked::Run(given),
    ensures
        given.install,
    decreases args.len(),
{
    if args.len() > 0 {
        if args[0] == "--install"@ || args[0] == "--lazy"@ {
            law_install_is_not_undone(
                args.skip(1),
                (Wanted { install: true, ..wanted }),
                given,
            );
        } else {
            let next = with_option(wanted, args[0], args[1])->0;
            law_install_is_not_undone(args.skip(2), next, given);
        }
    }
}

/// Without `--install` and `--lazy` no command line asks to set up PowerShell.
pub proof fn law_install_is_asked_for(args: Seq<Seq<char>>, wanted: Wanted, given: Wanted)
    requires
        !wanted.install,
        asked(args, wanted) == Asked::Run(given),
        forall|i: int|
            0 <= i < args.len() ==> #[trigger] args[i] != "--install"@ && args[i] != "--lazy"@,
    ensures
        !given.install,
    decreases args.len(),
{
    if args.len() > 0 {
        assert(args[0] != "--install"@);
        let rest = args.skip(2);
        let next = with_option(wanted, args[0], args[1])->0;
        assert forall|i: int| 0 <= i < rest.len() implies #[trigger] rest[i] != "--install"@
            && rest[i] != "--lazy"@ by {
            assert(rest[i] == args[i + 2]);
        }
        law_install_is_asked_for(rest, next, given);
    }
}

/// What options say is what they hold, and an answer to a command line is what
/// it is about.
pub proof fn law_answers(options: Options, text: String)
    ensures
        options@.db is None <==> options.db is None,
        options.db matches Some(db) ==> options@.db == Some(db@),
        options@.port == options.port,
        options@.token is None <==> options.token is None,
        options.token matches Some(token) ==> options@.token == Some(token@),
        options@.install == options.install,
        answer(Ok(CommandLine::Help)) == Some(Asked::Help),
        answer(Ok(CommandLine::Run(options))) == Some(Asked::Run(options@)),
        answer(Err(ConfigError::UnknownArgument(text))) == Some(Asked::Unknown(text@)),
        answer(Err(ConfigError::MissingValue(text))) == Some(Asked::NoValue(text@)),
        answer(Err(ConfigError::InvalidPort(text))) == Some(Asked::BadPort(text@)),
        answer(Err(ConfigError::HomeNotSet)) is None,
        answer(Err(ConfigError::HomeEmpty)) is None,
        answer(Err(ConfigError::NoRandomness)) is None,
{
}

/// Digits are read from the left: each one behind others counts ones, and those
/// before it ten times as much.
pub proof fn law_number(digits: Seq<char>, d: int)
    requires
        0 <= d < 10,
    ensures
        number(seq![]) == 0,
        number(digits.push((48 + d) as char)) == 10 * number(digits) + d,
{
    assert(digits.push((48 + d) as char).drop_last() =~= digits);
}

/// A text is a port exactly if it is made of digits and the number is not too
/// great, and then it is that number.
pub proof fn law_ports(text: Seq<char>)
    ensures
        port_number(text) is Some <==> {
            &&& text.len() > 0
            &&& forall|i: int| 0 <= i < text.len() ==> 48 <= #[trigger] text[i] as int <= 57
            &&& number(text) < 65536
        },
        port_number(text) matches Some(port) ==> port as int == number(text),
{
    if are_digits(text) {
        lemma_number_is_not_negative(text);
        assert forall|i: int| 0 <= i < text.len() implies 48 <= #[trigger] text[i] as int <= 57 by {
            assert('0' <= text[i] <= '9');
        }
    } else {
        let i = choose|i: int| 0 <= i < text.len() && !('0' <= #[trigger] text[i] <= '9');
        assert(!(48 <= text[i] as int <= 57));
    }
}

proof fn lemma_number_is_not_negative(digits: Seq<char>)
    requires
        are_digits(digits),
    ensures
        number(digits) >= 0,
    decreases digits.len(),
{
    if digits.len() > 0 {
        let rest = digits.drop_last();
        assert forall|i: int| 0 <= i < rest.len() implies '0' <= #[trigger] rest[i] <= '9' by {
            assert(rest[i] == digits[i]);
        }
        assert('0' <= digits[digits.len() - 1] <= '9');
        lemma_number_is_not_negative(rest);
    }
}

/// The token is the one of the command line without the white space around it.
pub proof fn law_token_of_the_command_line_counts_first(
    a: Seq<char>,
    token: Seq<char>,
    b: Seq<char>,
    wanted: Wanted,
    env: Environment,
)
    requires
        is_blank(a),
        is_bare(token),
        is_blank(b),
        wanted.token == Some(a + token + b),
    ensures
        given_token(wanted, env) == Some(token),
{
    law_setting(a, token, b);
}

/// Where the command line has no token, or a blank one, the one that the profile
/// sets counts, without the white space around it. Where that is blank too, or
/// not set, no token is given.
pub proof fn law_token_of_the_profile_counts_next(
    blank: Seq<char>,
    a: Seq<char>,
    token: Seq<char>,
    b: Seq<char>,
    wanted: Wanted,
    env: Environment,
)
    requires
        is_blank(blank),
        wanted.token is None || wanted.token == Some(blank),
        is_blank(a),
        is_bare(token),
        is_blank(b),
    ensures
        env.profile matches Some(profile) ==> {
            &&& token_of(profile@) == Some(a + token + b) ==> given_token(wanted, env) == Some(
                token,
            )
            &&& token_of(profile@) is None || token_of(profile@) == Some(a) ==> given_token(
                wanted,
                env,
            ) is None
        },
        env.profile is None ==> given_token(wanted, env) is None,
{
    law_setting(blank, token, blank);
    law_setting(a, token, b);
}

/// The database is where the command line says, or else in the home directory;
/// without either there is an error.
pub proof fn law_database(
    a: Seq<char>,
    path: Seq<char>,
    b: Seq<char>,
    wanted: Wanted,
    env: Environment,
    config: Config,
    token: Seq<char>,
)
    requires
        is_blank(a),
        is_bare(path),
        is_blank(b),
    ensures
        wanted.db == Some(a + path + b) ==> db_error(wanted, env) is None && (configured(
            config,
            wanted,
            env,
            token,
        ) ==> config.db_path@ == path),
        wanted.db is None || wanted.db == Some(a) ==> {
            &&& env.home is None ==> db_error(wanted, env) == Some(ConfigError::HomeNotSet)
            &&& env.home matches Some(home) ==> {
                &&& is_blank(home@) ==> db_error(wanted, env) == Some(ConfigError::HomeEmpty)
                &&& !is_blank(home@) ==> db_error(wanted, env) is None && (configured(
                    config,
                    wanted,
                    env,
                    token,
                ) ==> config.db_path@ == if home@[home@.len() - 1] == '/' {
                    home@ + ".local/share/pwsh-history/history.sqlite3"@
                } else {
                    home@ + "/.local/share/pwsh-history/history.sqlite3"@
                })
            }
        },
{
    law_setting(a, path, b);
    if let Some(home) = env.home {
        if is_blank(home@) {
            law_blank_is_trimmed_away(home@);
        } else {
            if trimmed(home@).len() == 0 {
                crate::update_laws::lemma_trimmed_away_is_blank(home@);
            }
            assert(home@.len() > 0);
            law_database_path(home@);
        }
    }
}

/// The path of the database in a home directory, with one slash between them.
pub proof fn law_database_path(home: Seq<char>)
    requires
        home.len() > 0,
    ensures
        db_path_in(home) == if home[home.len() - 1] == '/' {
            home + ".local/share/pwsh-history/history.sqlite3"@
        } else {
            home + "/.local/share/pwsh-history/history.sqlite3"@
        },
{
    reveal_strlit(".local");
    reveal_strlit("share");
    reveal_strlit("pwsh-history");
    reveal_strlit("history.sqlite3");
    reveal_strlit(".local/share/pwsh-history/history.sqlite3");
    reveal_strlit("/.local/share/pwsh-history/history.sqlite3");
    let local = child_path(home, ".local"@);
    let share = child_path(local, "share"@);
    let own = child_path(share, "pwsh-history"@);
    assert(local.last() == 'l');
    assert(share.last() == 'e');
    assert(own.last() == 'y');
    if home.last() == '/' {
        assert(db_path_in(home) =~= home + ".local/share/pwsh-history/history.sqlite3"@);
    } else {
        assert(db_path_in(home) =~= home + "/.local/share/pwsh-history/history.sqlite3"@);
    }
}

/// The server runs with the token, the port on all interfaces and the setup
/// that it was told, and clients reach it at the address that the default route
/// starts from.
pub proof fn law_settings(config: Config, wanted: Wanted, env: Environment, token: Seq<char>)
    requires
        configured(config, wanted, env, token),
    ensures
        config.token@ == token,
        config.lazy == wanted.install,
        config.bind@ == "0.0.0.0:"@ + decimal(wanted.port as nat),
        config.addr.ip.text@ == "0.0.0.0"@,
        !config.addr.ip.v6 && config.addr.ip.unspecified,
        config.addr.port == wanted.port,
        env.route is None ==> config.url@ == "http://0.0.0.0:"@ + decimal(wanted.port as nat),
        env.route matches Some(ip) ==> config.url@ == if ip.v6 {
            "http://["@ + ip.text@ + "]:"@ + decimal(wanted.port as nat)
        } else {
            "http://"@ + ip.text@ + ":"@ + decimal(wanted.port as nat)
        },
{
    if let Some(ip) = env.route {
        law_host_url(ip, wanted.port);
    }
}

/// A URL names the scheme, the host, in brackets if it is an IPv6 address, and
/// the port.
pub proof fn law_host_url(ip: HostIp, port: u16)
    ensures
        host_url(ip, port) == if ip.v6 {
            "http://["@ + ip.text@ + "]:"@ + decimal(port as nat)
        } else {
            "http://"@ + ip.text@ + ":"@ + decimal(port as nat)
        },
{
    reveal_strlit("http://");
    reveal_strlit("http://[");
    reveal_strlit(":");
    reveal_strlit("]:");
    if ip.v6 {
        assert(host_url(ip, port) =~= "http://["@ + ip.text@ + "]:"@ + decimal(port as nat));
    }
}

/// The URL of a server names the address that it listens on, unless that is the
/// unspecified one: it names the default route's then, if there is one.
pub proof fn law_url_of_an_address(addr: BindAddr, route: Option<HostIp>)
    ensures
        !addr.ip.unspecified ==> addr_url(addr, route) == host_url(addr.ip, addr.port),
        addr.ip.unspecified && route is None ==> addr_url(addr, route) == "http://0.0.0.0:"@
            + decimal(addr.port as nat),
        addr.ip.unspecified ==> (route matches Some(ip) ==> addr_url(addr, route) == host_url(
            ip,
            addr.port,
        )),
        route_url(route, addr.port) == match route {
            Some(ip) => host_url(ip, addr.port),
            None => "http://0.0.0.0:"@ + decimal(addr.port as nat),
        },
{
}

/// A home directory is one that is set to anything but white space.
pub proof fn law_home(home: Option<Seq<char>>)
    ensures
        home is None ==> home_error(home) == Some(ConfigError::HomeNotSet),
        home matches Some(dir) ==> (is_blank(dir) ==> home_error(home) == Some(
            ConfigError::HomeEmpty,
        )) && (!is_blank(dir) ==> home_error(home) is None),
{
    if let Some(dir) = home {
        if is_blank(dir) {
            law_blank_is_trimmed_away(dir);
        } else if trimmed(dir).len() == 0 {
            crate::update_laws::lemma_trimmed_away_is_blank(dir);
        }
    }
}

/// The path of a name in a directory has one slash between them; in no
/// directory it is the name.
pub proof fn law_child_path(dir: Seq<char>, name: Seq<char>)
    ensures
        child_path(seq![], name) == name,
        child_path(dir.push('/'), name) == dir.push('/') + name,
        dir.len() > 0 && dir[dir.len() - 1] != '/' ==> child_path(dir, name) == dir.push('/')
            + name,
{
    assert(Seq::<char>::empty() + name =~= name);
}

/// What is printed of the settings names each of them and its value, a line for
/// each.
pub proof fn law_printed_settings(config: Config)
    ensures
        ({
            let four = "PWSH_HISTORY_DB="@ + config.db_path@ + "\nPWSH_HISTORY_TOKEN="@
                + config.token@ + "\nPWSH_HISTORY_BIND="@ + config.bind@ + "\nPWSH_HISTORY_URL="@
                + config.url@ + "\n"@;
            startup_lines(config) == if config.lazy {
                four + "PWSH_HISTORY_LAZY=1\n"@
            } else {
                four
            }
        }),
{
    reveal_strlit("PWSH_HISTORY_DB");
    reveal_strlit("PWSH_HISTORY_TOKEN");
    reveal_strlit("PWSH_HISTORY_BIND");
    reveal_strlit("PWSH_HISTORY_URL");
    reveal_strlit("PWSH_HISTORY_LAZY");
    reveal_strlit("1");
    reveal_strlit("\n");
    reveal_strlit("PWSH_HISTORY_DB=");
    reveal_strlit("\nPWSH_HISTORY_TOKEN=");
    reveal_strlit("\nPWSH_HISTORY_BIND=");
    reveal_strlit("\nPWSH_HISTORY_URL=");
    reveal_strlit("PWSH_HISTORY_LAZY=1\n");
    let db = "PWSH_HISTORY_DB="@ + config.db_path@;
    let token = "\nPWSH_HISTORY_TOKEN="@ + config.token@;
    let bind = "\nPWSH_HISTORY_BIND="@ + config.bind@;
    let url = "\nPWSH_HISTORY_URL="@ + config.url@ + "\n"@;
    let four = "PWSH_HISTORY_DB="@ + config.db_path@ + "\nPWSH_HISTORY_TOKEN="@ + config.token@
        + "\nPWSH_HISTORY_BIND="@ + config.bind@ + "\nPWSH_HISTORY_URL="@ + config.url@ + "\n"@;
    assert(four =~= db + token + bind + url);
    let eager = Config { lazy: false, ..config };
    assert(startup_lines(eager) =~= db + token + bind + url);
    if config.lazy {
        assert(startup_lines(config) =~= startup_lines(eager) + "PWSH_HISTORY_LAZY=1\n"@);
    }
}

/// An error names what it is about.
pub proof fn law_error_texts(text: String)
    ensures
        error_text(ConfigError::UnknownArgument(text)) == "unknown argument: "@ + text@,
        error_text(ConfigError::MissingValue(text)) == "missing value for "@ + text@,
        error_text(ConfigError::InvalidPort(text)) == "invalid --port: "@ + text@,
        error_text(ConfigError::HomeNotSet) == "HOME is not set"@,
        error_text(ConfigError::HomeEmpty) == "HOME is empty"@,
        error_text(ConfigError::NoRandomness)
            == "failed to get random bytes for PWSH_HISTORY_TOKEN"@,
{
}

} // verus!
