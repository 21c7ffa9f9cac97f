use pwsh_history_server::config::{BindAddr, Config, HostIp};
use pwsh_history_server::profile::{
    is_pwsh_history_source_line, managed_profile_block, profile_token, ps_single_quote,
    remove_managed_profile_blocks, update_profile_content,
};

const SCRIPT: &str = "/home/me/.config/powershell/pwsh-history.ps1";

fn test_config() -> Config {
    Config {
        db_path: "/tmp/env.sqlite3".to_string(),
        token: "env-token".to_string(),
        bind: "1.2.3.4:9999".to_string(),
        addr: BindAddr {
            ip: HostIp {
                text: "1.2.3.4".to_string(),
                v6: false,
                unspecified: false,
            },
            port: 9999,
        },
        url: "http://history-host:9999".to_string(),
        lazy: true,
    }
}

const ENV_BLOCK: &str = "# >>> pwsh-history-server >>>
$env:PWSH_HISTORY_DB = '/tmp/env.sqlite3'
$env:PWSH_HISTORY_TOKEN = 'env-token'
$env:PWSH_HISTORY_BIND = '1.2.3.4:9999'
$env:PWSH_HISTORY_URL = 'http://history-host:9999'
# <<< pwsh-history-server <<<
";

const FULL_BLOCK: &str = "# >>> pwsh-history-server >>>
$env:PWSH_HISTORY_DB = '/tmp/env.sqlite3'
$env:PWSH_HISTORY_TOKEN = 'env-token'
$env:PWSH_HISTORY_BIND = '1.2.3.4:9999'
$env:PWSH_HISTORY_URL = 'http://history-host:9999'
. '/home/me/.config/powershell/pwsh-history.ps1'
# <<< pwsh-history-server <<<
";

fn updated(current: &str) -> String {
    update_profile_content(current, &test_config(), SCRIPT)
}

#[test]
fn managed_profile_block_writes_effective_environment_before_source() {
    let config = test_config();
    let block = managed_profile_block(
        &config,
        "/home/me/.config/powershell/pwsh-history.ps1",
        true,
    );
    let token_index = block.find("$env:PWSH_HISTORY_TOKEN").unwrap();
    let source_index = block
        .find(". '/home/me/.config/powershell/pwsh-history.ps1'")
        .unwrap();

    assert!(token_index < source_index);
    assert!(block.contains("$env:PWSH_HISTORY_DB = '/tmp/env.sqlite3'"));
    assert!(block.contains("$env:PWSH_HISTORY_TOKEN = 'env-token'"));
    assert!(block.contains("$env:PWSH_HISTORY_BIND = '1.2.3.4:9999'"));
    assert!(block.contains("$env:PWSH_HISTORY_URL = 'http://history-host:9999'"));
}

#[test]
fn profile_update_replaces_existing_managed_block() {
    let config = test_config();
    let current = "\
before
# >>> pwsh-history-server >>>
$env:PWSH_HISTORY_TOKEN = 'old'
. '/old/pwsh-history.ps1'
# <<< pwsh-history-server <<<
after
";

    let updated = update_profile_content(
        current,
        &config,
        "/home/me/.config/powershell/pwsh-history.ps1",
    );

    assert!(updated.contains("before"));
    assert!(updated.contains("after"));
    assert!(!updated.contains("old"));
    assert_eq!(updated.matches("# >>> pwsh-history-server >>>").count(), 1);
    assert!(updated.contains(". '/home/me/.config/powershell/pwsh-history.ps1'"));
}

#[test]
fn profile_update_places_env_block_before_existing_source() {
    let config = test_config();
    let current = "Write-Host hi\n. '/custom/pwsh-history.ps1'\n";
    let updated = update_profile_content(
        current,
        &config,
        "/home/me/.config/powershell/pwsh-history.ps1",
    );

    let token_index = updated.find("$env:PWSH_HISTORY_TOKEN").unwrap();
    let source_index = updated.find(". '/custom/pwsh-history.ps1'").unwrap();

    assert!(token_index < source_index);
    assert!(updated.contains(". '/custom/pwsh-history.ps1'"));
    assert!(!updated.contains(". '/home/me/.config/powershell/pwsh-history.ps1'"));
}

#[test]
fn profile_update_does_not_treat_comments_as_source() {
    let config = test_config();
    let current = "# source pwsh-history.ps1 later\n";
    let updated = update_profile_content(
        current,
        &config,
        "/home/me/.config/powershell/pwsh-history.ps1",
    );

    assert!(updated.contains("# source pwsh-history.ps1 later"));
    assert!(updated.contains(". '/home/me/.config/powershell/pwsh-history.ps1'"));
}

#[test]
fn remove_managed_profile_blocks_keeps_unmanaged_content() {
    let current = "\
one
# >>> pwsh-history-server >>>
managed
# <<< pwsh-history-server <<<
two
";
    assert_eq!(remove_managed_profile_blocks(current), "one\ntwo\n");
}

#[test]
fn managed_profile_block_is_exact() {
    assert_eq!(managed_profile_block(&test_config(), SCRIPT, false), ENV_BLOCK);
    assert_eq!(managed_profile_block(&test_config(), SCRIPT, true), FULL_BLOCK);
}

#[test]
fn quotes_are_doubled() {
    assert_eq!(ps_single_quote(""), "");
    assert_eq!(ps_single_quote("it's"), "it''s");
    assert_eq!(ps_single_quote("''"), "''''");
    let mut config = test_config();
    config.token = "a'b".to_string();
    let block = managed_profile_block(&config, "/x'y/pwsh-history.ps1", true);
    assert!(block.contains("$env:PWSH_HISTORY_TOKEN = 'a''b'\n"));
    assert!(block.contains(". '/x''y/pwsh-history.ps1'\n"));
}

#[test]
fn source_lines_are_told_by_dot_space_and_name() {
    assert!(is_pwsh_history_source_line(". '/x/pwsh-history.ps1'"));
    assert!(is_pwsh_history_source_line("  \t.\tC:\\PWSH-History.PS1 # x"));
    assert!(is_pwsh_history_source_line(".\u{a0}pwsh-history.ps1"));
    assert!(!is_pwsh_history_source_line("./pwsh-history.ps1"));
    assert!(!is_pwsh_history_source_line("."));
    assert!(!is_pwsh_history_source_line(""));
    assert!(!is_pwsh_history_source_line(". /x/pwsh-history.ps"));
    assert!(!is_pwsh_history_source_line("& pwsh-history.ps1"));
}

#[test]
fn removal_edge_cases() {
    assert_eq!(remove_managed_profile_blocks(""), "");
    assert_eq!(remove_managed_profile_blocks("\n"), "");
    assert_eq!(remove_managed_profile_blocks("\n\n"), "\n\n");
    assert_eq!(remove_managed_profile_blocks("\r\n"), "");
    assert_eq!(remove_managed_profile_blocks("a\r\nb"), "a\nb");
    assert_eq!(remove_managed_profile_blocks("a\r\n\r\n"), "a\n\n");
    assert_eq!(remove_managed_profile_blocks("a\r\r\nb\r"), "a\r\nb\r");
    assert_eq!(
        remove_managed_profile_blocks("a\r\n# <<< pwsh-history-server <<<"),
        "a"
    );
    assert_eq!(remove_managed_profile_blocks("a\rb\r"), "a\rb\r");
    // A block that is never closed runs to the end.
    assert_eq!(
        remove_managed_profile_blocks("a\n  # >>> pwsh-history-server >>>\t\nb\nc\n"),
        "a\n"
    );
    // A closing line alone is a marker too.
    assert_eq!(
        remove_managed_profile_blocks("a\n# <<< pwsh-history-server <<<\nb"),
        "a\nb"
    );
    let two = "a\n# >>> pwsh-history-server >>>\nx\n# <<< pwsh-history-server <<<\nb\n# >>> pwsh-history-server >>>\ny\n# <<< pwsh-history-server <<<\nc";
    assert_eq!(remove_managed_profile_blocks(two), "a\nb\nc");
}

/// Texts made of up to four of a few parts.
fn many_texts() -> Vec<String> {
    let parts = [
        "a",
        "\n",
        "\r\n",
        "\r",
        "# >>> pwsh-history-server >>>\n",
        " # <<< pwsh-history-server <<<\r\n",
        ". x/pwsh-history.ps1\r\n",
    ];
    let mut all = vec![String::new()];
    let mut last = all.clone();
    for _ in 0..4 {
        last = last
            .iter()
            .flat_map(|text| parts.iter().map(move |part| format!("{text}{part}")))
            .collect();
        all.extend(last.iter().cloned());
    }
    all
}

fn is_begin(line: &str) -> bool {
    line.trim() == "# >>> pwsh-history-server >>>"
}

fn is_end(line: &str) -> bool {
    line.trim() == "# <<< pwsh-history-server <<<"
}

#[test]
fn removal_joins_the_other_lines_with_newlines() {
    for text in many_texts() {
        let lines: Vec<&str> = text.lines().collect();
        let outside = |n: usize| {
            let marker = lines[..n].iter().rev().find(|line| is_begin(line) || is_end(line));
            !marker.is_some_and(|line| is_begin(line))
        };
        let kept: Vec<&str> = (0..lines.len())
            .filter(|&n| !is_begin(lines[n]) && !is_end(lines[n]) && outside(n))
            .map(|n| lines[n])
            .collect();
        let mut expected = kept.join("\n");
        if text.ends_with('\n') && !expected.is_empty() {
            expected.push('\n');
        }
        assert_eq!(remove_managed_profile_blocks(&text), expected);
    }
}

#[test]
fn update_without_a_block_is_made_from_the_removal() {
    for text in many_texts() {
        if text.lines().any(is_begin) {
            continue;
        }
        let left = remove_managed_profile_blocks(&text);
        let source = left.lines().position(is_pwsh_history_source_line);
        let mut expected = String::new();
        match source {
            Some(n) => {
                for (i, line) in left.lines().enumerate() {
                    if i == n {
                        expected.push_str(ENV_BLOCK);
                    }
                    expected.push_str(line);
                    expected.push('\n');
                }
            }
            None => {
                if !left.trim().is_empty() {
                    expected.push_str(left.strip_suffix('\n').unwrap_or(&left));
                    expected.push_str("\n\n");
                }
                expected.push_str(FULL_BLOCK);
            }
        }
        assert_eq!(updated(&text), expected);
    }
}

#[test]
fn update_is_stable() {
    for text in many_texts() {
        let once = updated(&text);
        assert_eq!(updated(&once), once);
        assert_eq!(once.lines().filter(|line| is_begin(line)).count(), 1);
        assert_eq!(profile_token(&once).as_deref(), Some("env-token"));
    }
}

const OLD_BLOCK: &str = "# >>> pwsh-history-server >>>
$env:PWSH_HISTORY_TOKEN = 'old'
. '/old/pwsh-history.ps1'
# <<< pwsh-history-server <<<
";

#[test]
fn update_appends_behind_an_empty_line() {
    assert_eq!(updated(""), FULL_BLOCK);
    assert_eq!(updated(" \n\t\n"), FULL_BLOCK);
    assert_eq!(updated("a"), format!("a\n\n{FULL_BLOCK}"));
    assert_eq!(updated("a\n"), format!("a\n\n{FULL_BLOCK}"));
    assert_eq!(updated("a\r\nb"), format!("a\nb\n\n{FULL_BLOCK}"));
    assert_eq!(updated("a\r\nb\r\n"), format!("a\nb\n\n{FULL_BLOCK}"));
}

#[test]
fn update_stands_before_the_first_source_line() {
    assert_eq!(
        updated("a\n. x/pwsh-history.ps1\nb\n. y/pwsh-history.ps1"),
        format!("a\n{ENV_BLOCK}. x/pwsh-history.ps1\nb\n. y/pwsh-history.ps1\n")
    );
    assert_eq!(
        updated("a\r\n. x/pwsh-history.ps1\r\nb"),
        format!("a\n{ENV_BLOCK}. x/pwsh-history.ps1\nb\n")
    );
}

#[test]
fn block_is_replaced_in_place() {
    for before in ["", "a\n", "a\n\n  b\n", "\n\n", "a\r\nb\r\n", " \t\n"] {
        for after in ["", "b", "b\n", "\n\n\nc\n", "c\r\n\r\nd", "  "] {
            assert_eq!(
                updated(&format!("{before}{OLD_BLOCK}{after}")),
                format!("{before}{FULL_BLOCK}{after}")
            );
        }
        for after in [". x/pwsh-history.ps1", "\nc\r\n. x/pwsh-history.ps1\r\nd"] {
            assert_eq!(
                updated(&format!("{before}{OLD_BLOCK}{after}")),
                format!("{before}{ENV_BLOCK}{after}")
            );
        }
    }
}

#[test]
fn block_without_newline_is_replaced_in_place() {
    let old = "# >>> pwsh-history-server >>>\nx\n# <<< pwsh-history-server <<<";
    assert_eq!(updated(&format!("a\n{old}")), format!("a\n{FULL_BLOCK}"));
    let open = "# >>> pwsh-history-server >>>\nx";
    assert_eq!(updated(&format!("a\n{open}")), format!("a\n{FULL_BLOCK}"));
}

#[test]
fn further_blocks_are_removed() {
    assert_eq!(
        updated(&format!("a\n{OLD_BLOCK}b\n{OLD_BLOCK}c")),
        format!("a\n{FULL_BLOCK}b\nc")
    );
    assert_eq!(
        updated(&format!("a\n# <<< pwsh-history-server <<<\n{OLD_BLOCK}b\n")),
        format!("a\n{FULL_BLOCK}b\n")
    );
}

#[test]
fn block_moves_before_a_source_line() {
    assert_eq!(
        updated(&format!("a\n. x/pwsh-history.ps1\n\nb\n{OLD_BLOCK}c")),
        format!("a\n{ENV_BLOCK}. x/pwsh-history.ps1\n\nb\nc")
    );
}

const PROFILES: [&str; 9] = [
    "",
    "\n \n",
    "a",
    "a\n",
    "a\r\n. x/pwsh-history.ps1",
    "a\n. x/pwsh-history.ps1\nb\n",
    "a\n# >>> pwsh-history-server >>>\nx\n# <<< pwsh-history-server <<<\nb",
    "a\n. x/pwsh-history.ps1\r\n# >>> pwsh-history-server >>>\nx\n",
    "# <<< pwsh-history-server <<<\r\n\r\n",
];

#[test]
fn update_twice_is_update_once() {
    for profile in PROFILES {
        let once = updated(profile);
        assert_eq!(updated(&once), once);
    }
}

#[test]
fn later_update_prevails() {
    let mut later = test_config();
    later.token = "later".to_string();
    for profile in PROFILES {
        let once = update_profile_content(profile, &later, "/other/pwsh-history.ps1");
        assert_eq!(updated(&once), updated(profile));
    }
}

#[test]
fn unmanaged_text_survives() {
    for profile in ["a\n\n b\n\n", "a\n\nb", "\n\n", "\r"] {
        assert_eq!(remove_managed_profile_blocks(profile), profile);
    }
}

#[test]
fn token_of_the_profile_is_read() {
    assert_eq!(profile_token(""), None);
    assert_eq!(profile_token(OLD_BLOCK).as_deref(), Some("old"));
    assert_eq!(
        profile_token(&format!("a\n{ENV_BLOCK}b")).as_deref(),
        Some("env-token")
    );
    // A line outside the block counts too, and the last one does.
    let line = "$env:PWSH_HISTORY_TOKEN = 'x'";
    assert_eq!(profile_token(line).as_deref(), Some("x"));
    assert_eq!(
        profile_token(&format!("{OLD_BLOCK}{ENV_BLOCK}")).as_deref(),
        Some("env-token")
    );
    assert_eq!(
        profile_token(&format!("{OLD_BLOCK}{line}\n")).as_deref(),
        Some("x")
    );
    assert_eq!(
        profile_token(&format!("{line}\r\n{OLD_BLOCK}")).as_deref(),
        Some("old")
    );
}

#[test]
fn lines_that_set_the_token_are_told() {
    for (line, token) in [
        ("$env:PWSH_HISTORY_TOKEN = 'it''s' \t", "it's"),
        ("$env:PWSH_HISTORY_TOKEN = ''", ""),
        ("  $Env:PWSH_HISTORY_TOKEN='a b'", "a b"),
        ("$ENV:PWSH_HISTORY_TOKEN\t=\t'a' # comment", "a"),
        ("$env:PWSH_HISTORY_TOKEN = \"a 'b' \"\"c\"\"\"", "a 'b' \"c\""),
        ("$env:PWSH_HISTORY_TOKEN = '$x`n\"'", "$x`n\""),
        ("$env:PWSH_HISTORY_TOKEN = \u{2018}a\u{2019}", "a"),
        ("$env:PWSH_HISTORY_TOKEN = \u{201c}a\u{201d}", "a"),
    ] {
        assert_eq!(profile_token(&format!("x\r\n{line}\r\ny")).as_deref(), Some(token));
    }
    for line in [
        "$env:PWSH_HISTORY_TOKEN = 'open",
        "$env:PWSH_HISTORY_TOKEN = 'a' + 'b'",
        "$env:PWSH_HISTORY_TOKEN = \"$x\"",
        "$env:PWSH_HISTORY_TOKEN = \"a`n\"",
        "$env:PWSH_HISTORY_TOKEN = a",
        "$env:PWSH_HISTORY_TOKEN =",
        "$env:PWSH_HISTORY_TOKEN",
        "$env:PWSH_HISTORY_TOKENS = 'a'",
        "$env:pwsh_history_token = 'a'",
        "$env:PWSH_HISTORY_URL = 'a'",
        "$PWSH_HISTORY_TOKEN = 'a'",
        "# $env:PWSH_HISTORY_TOKEN = 'a'",
        "$env",
    ] {
        assert_eq!(profile_token(line), None);
    }
}

#[test]
fn written_token_is_read_back() {
    for token in ["t", "it's", "''", " a b ", "é\"`$x", "0123456789abcdef"] {
        let mut config = test_config();
        config.token = token.to_string();
        for profile in PROFILES {
            let done = update_profile_content(profile, &config, SCRIPT);
            assert_eq!(profile_token(&done).as_deref(), Some(token));
        }
        let other = "$env:PWSH_HISTORY_TOKEN = 'other'\n";
        let done = update_profile_content(&format!("{other}{OLD_BLOCK}"), &config, SCRIPT);
        assert_eq!(profile_token(&done).as_deref(), Some(token));
        let done = update_profile_content(&format!("{OLD_BLOCK}{other}"), &config, SCRIPT);
        assert_eq!(profile_token(&done).as_deref(), Some("other"));
    }
}

#[test]
fn update_leaves_one_block_and_removal_none() {
    for profile in [
        "",
        "a",
        "a\r",
        ". x/pwsh-history.ps1",
        "a\n# >>> pwsh-history-server >>>\nx\n# <<< pwsh-history-server <<<\nb\n# >>> pwsh-history-server >>>\ny\n",
        " # <<< pwsh-history-server <<< \r\n# >>> pwsh-history-server >>>\r\n",
    ] {
        let done = updated(profile);
        let opening = done.lines().filter(|line| line.trim() == "# >>> pwsh-history-server >>>");
        assert_eq!(opening.count(), 1);
        let closing = done.lines().filter(|line| line.trim() == "# <<< pwsh-history-server <<<");
        assert_eq!(closing.count(), 1);
        assert!(!remove_managed_profile_blocks(&done).contains("pwsh-history-server"));
    }
}

#[test]
fn removal_undoes_update() {
    let undone = |profile: &str| remove_managed_profile_blocks(&updated(profile));
    assert_eq!(undone("a\n. x/pwsh-history.ps1\nb\n"), "a\n. x/pwsh-history.ps1\nb\n");
    assert_eq!(undone(". x/pwsh-history.ps1"), ". x/pwsh-history.ps1\n");
    assert_eq!(undone("a\n"), "a\n\n");
    assert_eq!(undone("a"), "a\n\n");
    assert_eq!(undone(" \n"), "");
    let profile = format!("a\r\n\r\n{OLD_BLOCK}b\n");
    assert_eq!(undone(&profile), remove_managed_profile_blocks(&profile));
}

#[test]
fn unmanaged_lines_are_kept_in_order() {
    let profile = "a\n# >>> pwsh-history-server >>>\nx\n# <<< pwsh-history-server <<<\n\nb\n  c";
    let left = remove_managed_profile_blocks(profile);
    assert_eq!(left.lines().collect::<Vec<_>>(), ["a", "", "b", "  c"]);
}

/// What PowerShell reads behind the quote that opens a literal.
fn read_literal(text: &str) -> (String, String) {
    let chars: Vec<char> = text.chars().collect();
    let quote = |c: char| c == '\'' || ('\u{2018}'..='\u{201b}').contains(&c);
    let mut value = String::new();
    let mut i = 0;
    while !quote(chars[i]) || (i + 1 < chars.len() && quote(chars[i + 1])) {
        if quote(chars[i]) {
            i += 1;
        }
        value.push(chars[i]);
        i += 1;
    }
    (value, chars[i + 1..].iter().collect())
}

#[test]
fn quoted_values_are_read_back() {
    for value in ["", "'", "it's", "''a'", "a\nb", "$env:X `n \"q\""] {
        let literal = format!("{}'\n", ps_single_quote(value));
        assert_eq!(read_literal(&literal), (value.to_string(), "\n".to_string()));
    }
}
