use pwsh_history_server::config::{BindAddr, Config, ConfigError, HostIp};
use pwsh_history_server::install::{
    current_user_current_host_profile, install_paths, install_report, needs_write, new_profile,
    profile_path, FileText,
};
use pwsh_history_server::profile::managed_profile_block;

fn config() -> Config {
    Config {
        db_path: "/d".to_string(),
        token: "t".to_string(),
        bind: "0.0.0.0:1".to_string(),
        addr: BindAddr {
            ip: HostIp {
                text: "0.0.0.0".to_string(),
                v6: false,
                unspecified: true,
            },
            port: 1,
        },
        url: "http://h:1".to_string(),
        lazy: true,
    }
}

#[test]
fn paths_are_in_the_home_directory() {
    let paths = install_paths(&Some("/home/me".to_string())).unwrap();
    assert_eq!(paths.powershell_dir, "/home/me/.config/powershell");
    assert_eq!(
        paths.script_path,
        "/home/me/.config/powershell/pwsh-history.ps1"
    );
    assert_eq!(
        paths.fallback_profile,
        "/home/me/.config/powershell/profile.ps1"
    );
    assert!(matches!(install_paths(&None), Err(ConfigError::HomeNotSet)));
    assert!(matches!(
        install_paths(&Some("\t".to_string())),
        Err(ConfigError::HomeEmpty)
    ));
}

#[test]
fn profile_is_the_one_that_powershell_names() {
    let paths = install_paths(&Some("/h".to_string())).unwrap();
    let named = current_user_current_host_profile(true, b" /p/profile.ps1\r\n".to_vec());
    assert_eq!(named.as_deref(), Some("/p/profile.ps1"));
    assert_eq!(profile_path(&paths, named), "/p/profile.ps1");
    assert_eq!(
        profile_path(&paths, None),
        "/h/.config/powershell/profile.ps1"
    );
    assert_eq!(current_user_current_host_profile(false, b"/p".to_vec()), None);
    assert_eq!(current_user_current_host_profile(true, b"\n ".to_vec()), None);
    assert_eq!(current_user_current_host_profile(true, vec![0xff]), None);
}

fn holding(text: &str) -> FileText {
    FileText::Text(text.to_string())
}

#[test]
fn files_are_written_only_if_they_change() {
    assert!(needs_write(&FileText::Absent, "text"));
    assert!(needs_write(&FileText::Unreadable, "text"));
    assert!(needs_write(&holding("text\n"), "text"));
    assert!(!needs_write(&holding("text"), "text"));
    assert!(needs_write(&FileText::Absent, ""));
}

#[test]
fn profile_gets_the_block() {
    let script = "/s/pwsh-history.ps1";
    let block = managed_profile_block(&config(), script, true);
    assert_eq!(
        new_profile(&FileText::Absent, &config(), script),
        Some(block.clone())
    );
    assert_eq!(
        new_profile(&holding("a"), &config(), script),
        Some(format!("a\n\n{block}"))
    );
    let again = new_profile(&holding(&block), &config(), script).unwrap();
    assert!(!needs_write(&holding(&block), &again));
}

#[test]
fn nothing_is_written_to_an_unreadable_profile() {
    assert_eq!(
        new_profile(&FileText::Unreadable, &config(), "/s/pwsh-history.ps1"),
        None
    );
}

#[test]
fn report_names_both_files() {
    assert_eq!(
        install_report("/s", "/p"),
        "Installed PowerShell history client: /s\nUpdated PowerShell profile: /p\n"
    );
}
