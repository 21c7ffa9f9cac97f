use pwsh_history_server::config::{
    default_db_path, default_route_url, default_url_for_addr, find_token, help_text, home_dir,
    optional_setting, parse_args, parse_port, startup_config, url_for_host, BindAddr, CommandLine,
    Config, ConfigError, Environment, HostIp, Options, Startup, DEFAULT_BIND,
};
use pwsh_history_server::profile::update_profile_content;

fn text(value: &str) -> Option<String> {
    Some(value.to_string())
}

fn args(values: &[&str]) -> Vec<String> {
    values.iter().map(|value| value.to_string()).collect()
}

fn ip(text: &str, v6: bool, unspecified: bool) -> HostIp {
    HostIp {
        text: text.to_string(),
        v6,
        unspecified,
    }
}

fn env(home: Option<String>, profile: Option<String>) -> Environment {
    Environment {
        home,
        profile,
        route: None,
    }
}

fn at_home() -> Environment {
    env(text("/home/me"), None)
}

fn options(values: &[&str]) -> Options {
    match parse_args(&args(values)) {
        Ok(CommandLine::Run(options)) => options,
        other => panic!("{other:?}"),
    }
}

fn config(values: &[&str], env: &Environment) -> Config {
    match Config::from_env_and_args(&args(values), env) {
        Ok(Startup::Serve(config)) => config,
        other => panic!("{other:?}"),
    }
}

fn profile_with(token: &str) -> Option<String> {
    Some(format!(
        "before\n# >>> pwsh-history-server >>>\n$env:PWSH_HISTORY_TOKEN = '{token}'\n# <<< pwsh-history-server <<<\n"
    ))
}

#[test]
fn default_bind_is_all_interfaces() {
    assert_eq!(DEFAULT_BIND, "0.0.0.0:37373");
}

#[test]
fn options_carry_their_values() {
    let none = options(&[]);
    assert_eq!((none.db, none.port, none.token), (None, 37373, None));
    assert!(!none.install);
    let all = options(&["--token", "t", "--install", "--port", "4000", "--db", "/d"]);
    assert_eq!((all.db, all.port, all.token), (text("/d"), 4000, text("t")));
    assert!(all.install);
    assert!(options(&["--lazy"]).install);
    let twice = options(&["--db", "a", "--port", "1", "--db", "--install", "--port", "2"]);
    assert_eq!((twice.db, twice.port), (text("--install"), 2));
    assert!(!twice.install);
}

#[test]
fn first_help_or_error_decides() {
    for help in ["-h", "--help"] {
        assert!(matches!(
            parse_args(&args(&["--install", "--port", "1", help, "--bad"])),
            Ok(CommandLine::Help)
        ));
    }
    match parse_args(&args(&["--lazy", "--LAZY", "-h"])) {
        Err(ConfigError::UnknownArgument(arg)) => assert_eq!(arg, "--LAZY"),
        other => panic!("{other:?}"),
    }
    assert!(matches!(
        parse_args(&args(&[""])),
        Err(ConfigError::UnknownArgument(_))
    ));
    for option in ["--db", "--port", "--token"] {
        match parse_args(&args(&["--install", option])) {
            Err(ConfigError::MissingValue(arg)) => assert_eq!(arg, option),
            other => panic!("{other:?}"),
        }
    }
    match parse_args(&args(&["--port", "http", "-h"])) {
        Err(ConfigError::InvalidPort(value)) => assert_eq!(value, "http"),
        other => panic!("{other:?}"),
    }
}

#[test]
fn ports_are_decimal_numbers_that_fit() {
    assert_eq!(parse_port("0"), Some(0));
    assert_eq!(parse_port("65535"), Some(65535));
    assert_eq!(parse_port("0004000"), Some(4000));
    for bad in ["", "65536", "655350", "99999999999999999999", "+1", "-1", " 1", "1 ", "0x1", "١"] {
        assert_eq!(parse_port(bad), None);
    }
    for port in [0, 9, 10, 4000, 37373, u16::MAX] {
        assert_eq!(parse_port(&port.to_string()), Some(port));
    }
}

#[test]
fn settings_are_trimmed_and_not_blank() {
    assert_eq!(optional_setting(&None), None);
    assert_eq!(optional_setting(&text("")), None);
    assert_eq!(optional_setting(&text(" \t\n")), None);
    assert_eq!(optional_setting(&text(" a b ")), text("a b"));
}

#[test]
fn home_is_taken_as_it_is() {
    assert_eq!(home_dir(&text(" /home/me ")).unwrap(), " /home/me ");
    assert!(matches!(home_dir(&None), Err(ConfigError::HomeNotSet)));
    assert!(matches!(home_dir(&text(" ")), Err(ConfigError::HomeEmpty)));
}

#[test]
fn database_is_in_the_home_directory() {
    assert_eq!(
        default_db_path(&text("/home/me")).unwrap(),
        "/home/me/.local/share/pwsh-history/history.sqlite3"
    );
    assert_eq!(
        default_db_path(&text("/")).unwrap(),
        "/.local/share/pwsh-history/history.sqlite3"
    );
    assert!(matches!(
        default_db_path(&None),
        Err(ConfigError::HomeNotSet)
    ));
    assert!(matches!(
        default_db_path(&text("")),
        Err(ConfigError::HomeEmpty)
    ));
}

#[test]
fn urls_name_host_and_port() {
    let v4 = ip("1.2.3.4", false, false);
    let v6 = ip("fe80::1", true, false);
    assert_eq!(url_for_host(&v4, 80), "http://1.2.3.4:80");
    assert_eq!(url_for_host(&v6, 37373), "http://[fe80::1]:37373");
    assert_eq!(default_route_url(&None, 5), "http://0.0.0.0:5");
    assert_eq!(
        default_route_url(&Some(ip("2001:db8::2", true, false)), 5),
        "http://[2001:db8::2]:5"
    );
    let route = Some(ip("10.0.0.9", false, false));
    let addr = |ip: HostIp| BindAddr { ip, port: 9 };
    assert_eq!(default_url_for_addr(&addr(v4), &route), "http://1.2.3.4:9");
    assert_eq!(default_url_for_addr(&addr(v6), &route), "http://[fe80::1]:9");
    assert_eq!(
        default_url_for_addr(&addr(ip("0.0.0.0", false, true)), &route),
        "http://10.0.0.9:9"
    );
    assert_eq!(
        default_url_for_addr(&addr(ip("::", true, true)), &None),
        "http://0.0.0.0:9"
    );
}

#[test]
fn command_line_gives_the_settings() {
    let values = [
        "--db",
        "/tmp/h.sqlite3",
        "--port",
        "4000",
        "--token",
        "tok",
        "--install",
    ];
    let config = config(&values, &at_home());
    assert_eq!(config.db_path, "/tmp/h.sqlite3");
    assert_eq!(config.token, "tok");
    assert_eq!(config.bind, "0.0.0.0:4000");
    assert_eq!(config.addr.ip.text, "0.0.0.0");
    assert!(!config.addr.ip.v6 && config.addr.ip.unspecified);
    assert_eq!(config.addr.port, 4000);
    assert_eq!(config.url, "http://0.0.0.0:4000");
    assert!(config.lazy);
}

#[test]
fn defaults_stand_in_for_what_is_not_set() {
    let mut env = at_home();
    env.route = Some(ip("10.0.0.9", false, false));
    let config = config(&[], &env);
    assert_eq!(
        config.db_path,
        "/home/me/.local/share/pwsh-history/history.sqlite3"
    );
    assert_eq!(config.token.len(), 64);
    assert!(config.token.chars().all(|c| c.is_ascii_hexdigit()));
    assert_eq!(config.bind, DEFAULT_BIND);
    assert_eq!(config.addr.port, 37373);
    assert_eq!(config.url, "http://10.0.0.9:37373");
    assert!(!config.lazy);
}

#[test]
fn token_is_found_in_order() {
    let with_profile = env(text("/home/me"), profile_with("profile"));
    let given = config(&["--token", " given "], &with_profile);
    assert_eq!(given.token, "given");
    let found = config(&["--token", " "], &with_profile);
    assert_eq!(found.token, "profile");
    assert_eq!(config(&[], &with_profile).token, "profile");
    assert_eq!(find_token(&options(&[]), &with_profile), text("profile"));
    let blank = env(text("/home/me"), profile_with(" "));
    assert_eq!(find_token(&options(&[]), &blank), None);
    assert_eq!(config(&[], &blank).token.len(), 64);
    let plain = env(text("/home/me"), text("$env:PWSH_HISTORY_TOKEN = 'x'\n"));
    assert_eq!(find_token(&options(&[]), &plain), text("x"));
    assert_eq!(config(&[], &plain).token, "x");
    let other = env(text("/home/me"), text("$env:PWSH_HISTORY_URL = 'x'\n"));
    assert_eq!(find_token(&options(&[]), &other), None);
    assert_eq!(find_token(&options(&[]), &at_home()), None);
}

#[test]
fn installed_token_is_kept() {
    let first = config(&["--install"], &at_home());
    let profile = update_profile_content("a\n", &first, "/s/pwsh-history.ps1");
    let second = config(&[], &env(text("/home/me"), Some(profile)));
    assert_eq!(second.token, first.token);
}

#[test]
fn settings_fail_without_home_or_token() {
    assert!(matches!(
        Config::from_env_and_args(&args(&[]), &env(None, None)),
        Err(ConfigError::HomeNotSet)
    ));
    assert!(matches!(
        Config::from_env_and_args(&args(&["--db", " "]), &env(text("\n"), None)),
        Err(ConfigError::HomeEmpty)
    ));
    assert!(matches!(
        Config::from_env_and_args(&args(&["-x"]), &env(None, None)),
        Err(ConfigError::UnknownArgument(_))
    ));
    assert!(matches!(
        Config::from_env_and_args(&args(&["--db"]), &env(None, None)),
        Err(ConfigError::MissingValue(_))
    ));
    assert!(matches!(
        Config::from_env_and_args(&args(&["--port", "65536"]), &env(None, None)),
        Err(ConfigError::InvalidPort(_))
    ));
    assert!(matches!(
        Config::from_env_and_args(&args(&["-h"]), &env(None, None)),
        Ok(Startup::Help)
    ));
    assert_eq!(config(&["--db", "/d"], &env(None, None)).db_path, "/d");
    assert!(matches!(
        Config::from_options(&options(&[]), &at_home(), None),
        Err(ConfigError::NoRandomness)
    ));
    assert!(matches!(
        Config::from_options(&options(&[]), &env(None, None), None),
        Err(ConfigError::HomeNotSet)
    ));
    let generated = Config::from_options(&options(&[]), &at_home(), text("fresh")).unwrap();
    assert_eq!(generated.token, "fresh");
    let given = Config::from_options(&options(&["--token", "t"]), &at_home(), text("fresh"));
    assert_eq!(given.unwrap().token, "t");
}

#[test]
fn settings_are_printed_line_by_line() {
    let values = ["--db", "/data/h.db", "--token", "token", "--port", "1", "--install"];
    let config = config(&values, &at_home());
    assert_eq!(
        startup_config(&config),
        "PWSH_HISTORY_DB=/data/h.db\nPWSH_HISTORY_TOKEN=token\nPWSH_HISTORY_BIND=0.0.0.0:1\nPWSH_HISTORY_URL=http://0.0.0.0:1\nPWSH_HISTORY_LAZY=1\n"
    );
    let eager = Config {
        lazy: false,
        ..config
    };
    assert!(startup_config(&eager).ends_with("PWSH_HISTORY_URL=http://0.0.0.0:1\n"));
}

#[test]
fn help_names_options_and_defaults() {
    assert_eq!(
        help_text(),
        "\
pwsh-history-server

Usage:
  pwsh-history-server [--db PATH] [--port PORT] [--token TOKEN] [--install]

Options:
  --db PATH             default: $HOME/.local/share/pwsh-history/history.sqlite3
  --port PORT           port on all interfaces; default: 0.0.0.0:37373
  --token TOKEN         default: PWSH_HISTORY_TOKEN in $PROFILE.CurrentUserCurrentHost,
                        otherwise random 32-byte hex token printed at startup
  --install, --lazy     install pwsh-history.ps1 and update $PROFILE.CurrentUserCurrentHost
  -h, --help            show this help
"
    );
}

#[test]
fn errors_say_what_is_wrong() {
    assert_eq!(
        ConfigError::UnknownArgument("--x".to_string()).message(),
        "unknown argument: --x"
    );
    assert_eq!(
        ConfigError::MissingValue("--db".to_string()).message(),
        "missing value for --db"
    );
    assert_eq!(
        ConfigError::InvalidPort("x".to_string()).message(),
        "invalid --port: x"
    );
    assert_eq!(ConfigError::HomeNotSet.message(), "HOME is not set");
    assert_eq!(ConfigError::HomeEmpty.message(), "HOME is empty");
    assert_eq!(
        ConfigError::NoRandomness.message(),
        "failed to get random bytes for PWSH_HISTORY_TOKEN"
    );
}
