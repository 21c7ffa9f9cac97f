//! The setup of PowerShell for the client: which files there are, and what is
//! written to them.

use vstd::prelude::*;
use vstd::utf8::{
    decode_utf8, encode_utf8, encode_utf8_decode_utf8, encode_utf8_valid_utf8, valid_utf8,
};

use crate::config::{child_path, home_dir, home_error, join_path, opt_text, Config, ConfigError};
use crate::profile::{update_profile_content, updated, SCRIPT_NAME};
use crate::text::{same, text_from_utf8, trim, trimmed};
use crate::text_laws::{is_bare, is_blank, law_blank_is_trimmed_away, law_trim_takes_blank_off};

verus! {

/// The places that the setup writes to.
#[derive(Debug)]
pub struct InstallPaths {
    /// The directory of PowerShell's configuration.
    pub powershell_dir: String,
    /// The client script.
    pub script_path: String,
    /// The profile, unless PowerShell names another one.
    pub fallback_profile: String,
}

/// What is known of a file.
#[derive(Debug)]
pub enum FileText {
    /// There is no such file.
    Absent,
    /// It is there, but cannot be read as text.
    Unreadable,
    /// It holds this text.
    Text(String),
}

/// The directory of PowerShell's configuration in a home directory.
pub open spec fn powershell_dir_in(home: Seq<char>) -> Seq<char> {
    child_path(child_path(home, ".config"@), "powershell"@)
}

/// The path that PowerShell printed, if it ran well and printed one.
pub open spec fn printed_path(success: bool, output: Seq<u8>) -> Option<Seq<char>> {
    if success && valid_utf8(output) && trimmed(decode_utf8(output)).len() > 0 {
        Some(trimmed(decode_utf8(output)))
    } else {
        None
    }
}

/// What the user is told at the end.
pub open spec fn report(script_path: Seq<char>, profile_path: Seq<char>) -> Seq<char> {
    "Installed PowerShell history client: "@ + script_path + "\nUpdated PowerShell profile: "@
        + profile_path + "\n"@
}

/// The path that PowerShell printed is taken as it is, without the white space
/// around it. There is none where PowerShell failed, or printed nothing else, or
/// printed what is not in UTF-8.
pub proof fn law_printed_path(a: Seq<char>, path: Seq<char>, b: Seq<char>, output: Seq<u8>)
    requires
        is_blank(a),
        is_bare(path),
        is_blank(b),
    ensures
        printed_path(true, encode_utf8(a + path + b)) == Some(path),
        printed_path(true, encode_utf8(a)) is None,
        printed_path(false, output) is None,
        !valid_utf8(output) ==> printed_path(true, output) is None,
{
    law_trim_takes_blank_off(a, path, b);
    law_blank_is_trimmed_away(a);
    encode_utf8_valid_utf8(a + path + b);
    encode_utf8_decode_utf8(a + path + b);
    encode_utf8_valid_utf8(a);
    encode_utf8_decode_utf8(a);
}

/// PowerShell's configuration, with the client script and the profile in it,
/// is in the home directory, with one slash between them.
pub proof fn law_setup_paths(home: Seq<char>)
    requires
        home.len() > 0,
    ensures
        home[home.len() - 1] != '/' ==> {
            let dir = powershell_dir_in(home);
            &&& dir == home + "/.config/powershell"@
            &&& child_path(dir, SCRIPT_NAME@) == home + "/.config/powershell/pwsh-history.ps1"@
            &&& child_path(dir, "profile.ps1"@) == home + "/.config/powershell/profile.ps1"@
        },
        home[home.len() - 1] == '/' ==> {
            let dir = powershell_dir_in(home);
            &&& dir == home + ".config/powershell"@
            &&& child_path(dir, SCRIPT_NAME@) == home + ".config/powershell/pwsh-history.ps1"@
            &&& child_path(dir, "profile.ps1"@) == home + ".config/powershell/profile.ps1"@
        },
{
    reveal_strlit(".config");
    reveal_strlit("powershell");
    reveal_strlit("pwsh-history.ps1");
    reveal_strlit("profile.ps1");
    reveal_strlit("/.config/powershell");
    reveal_strlit("/.config/powershell/pwsh-history.ps1");
    reveal_strlit("/.config/powershell/profile.ps1");
    reveal_strlit(".config/powershell");
    reveal_strlit(".config/powershell/pwsh-history.ps1");
    reveal_strlit(".config/powershell/profile.ps1");
    let dir = powershell_dir_in(home);
    assert(child_path(home, ".config"@).last() == 'g');
    assert(dir.last() == 'l');
    if home.last() == '/' {
        assert(dir =~= home + ".config/powershell"@);
        assert(child_path(dir, SCRIPT_NAME@) =~= home + ".config/powershell/pwsh-history.ps1"@);
        assert(child_path(dir, "profile.ps1"@) =~= home + ".config/powershell/profile.ps1"@);
    } else {
        assert(dir =~= home + "/.config/powershell"@);
        assert(child_path(dir, SCRIPT_NAME@) =~= home + "/.config/powershell/pwsh-history.ps1"@);
        assert(child_path(dir, "profile.ps1"@) =~= home + "/.config/powershell/profile.ps1"@);
    }
}

/// The places that the setup writes to, given the variable `HOME`.
pub fn install_paths(home: &Option<String>) -> (res: Result<InstallPaths, ConfigError>)
    ensures
        match home_error(opt_text(*home)) {
            Some(error) => res == Err::<InstallPaths, ConfigError>(error),
            None => {
                let dir = powershell_dir_in(opt_text(*home)->0);
                res matches Ok(paths) && paths.powershell_dir@ == dir && paths.script_path@
                    == child_path(dir, SCRIPT_NAME@) && paths.fallback_profile@ == child_path(
                    dir,
                    "profile.ps1"@,
                )
            },
        },
{
    proof {
        reveal_strlit(".config");
        reveal_strlit("powershell");
        reveal_strlit("pwsh-history.ps1");
        reveal_strlit("profile.ps1");
    }
    match home_dir(home) {
        Ok(dir) => {
            let config_dir = join_path(dir.as_str(), ".config");
            let powershell_dir = join_path(config_dir.as_str(), "powershell");
            let script_path = join_path(powershell_dir.as_str(), SCRIPT_NAME);
            let fallback_profile = join_path(powershell_dir.as_str(), "profile.ps1");
            Ok(InstallPaths { powershell_dir, script_path, fallback_profile })
        },
        Err(error) => Err(error),
    }
}

/// The profile that PowerShell names for its own host and the current user,
/// given whether it ran well and what it printed.
pub fn current_user_current_host_profile(success: bool, output: Vec<u8>) -> (res: Option<String>)
    ensures
        opt_text(res) == printed_path(success, output@),
{
    if !success {
        return None;
    }
    match text_from_utf8(output) {
        Ok(text) => {
            let path = trim(text.as_str());
            if path.as_str().is_empty() {
                None
            } else {
                Some(path)
            }
        },
        Err(_) => None,
    }
}

/// The profile to update: the one that PowerShell names, or else the one in
/// its configuration directory.
pub fn profile_path(paths: &InstallPaths, named: Option<String>) -> (res: String)
    ensures
        res@ == match named {
            Some(path) => path@,
            None => paths.fallback_profile@,
        },
{
    match named {
        Some(path) => path,
        None => paths.fallback_profile.clone(),
    }
}

/// Whether `content` has to be written to a file. One that holds it already is
/// left alone.
pub fn needs_write(current: &FileText, content: &str) -> (res: bool)
    ensures
        res == !(current matches FileText::Text(text) && text@ == content@),
{
    match current {
        FileText::Text(text) => !same(text.as_str(), content),
        _ => true,
    }
}

/// What the profile is to hold. There is nothing to write to a profile that is
/// there and cannot be read: what it holds would be lost.
pub fn new_profile(current: &FileText, config: &Config, script_path: &str) -> (res: Option<String>)
    ensures
        match *current {
            FileText::Absent => res matches Some(text) && text@ == updated(
                seq![],
                *config,
                script_path@,
            ),
            FileText::Unreadable => res is None,
            FileText::Text(old) => res matches Some(text) && text@ == updated(
                old@,
                *config,
                script_path@,
            ),
        },
{
    match current {
        FileText::Absent => {
            let empty = String::new();
            Some(update_profile_content(empty.as_str(), config, script_path))
        },
        FileText::Unreadable => None,
        FileText::Text(text) => Some(update_profile_content(text.as_str(), config, script_path)),
    }
}

/// What the user is told at the end.
pub fn install_report(script_path: &str, profile_path: &str) -> (res: String)
    ensures
        res@ == report(script_path@, profile_path@),
        res@ == "Installed PowerShell history client: "@ + script_path@
            + "\nUpdated PowerShell profile: "@ + profile_path@ + "\n"@,
{
    "Installed PowerShell history client: ".to_owned().concat(script_path).concat(
        "\nUpdated PowerShell profile: ",
    ).concat(profile_path).concat("\n")
}

} // verus!
