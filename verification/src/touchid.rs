//! Touch ID for `sudo`: whether it is set up, and what enabling or disabling it does.
use vstd::prelude::*;

use crate::path::{join, join_exec};
use crate::text::{concat, contains_seq, contains_str, push_char, push_str, chars_of, str_eq, trim, trim_seq};

verus! {

/// Whether a PAM configuration enables Touch ID: it mentions `pam_tid.so`.
pub open spec fn pam_enables_touchid(content: Seq<char>) -> bool {
    contains_seq(content, "pam_tid.so"@)
}

/// Whether Touch ID is set up for `sudo`, from the contents of `/etc/pam.d/sudo_local`
/// and `/etc/pam.d/sudo` (`None`: missing or unreadable).
pub open spec fn touchid_configured_spec(sudo_local: Option<Seq<char>>, sudo: Option<Seq<char>>) -> bool {
    (sudo_local matches Some(c) && pam_enables_touchid(c)) || (sudo matches Some(c) && pam_enables_touchid(c))
}

/// Whether Touch ID is set up for `sudo`, from the two PAM files.
pub fn touchid_configured_from(sudo_local: Option<&str>, sudo: Option<&str>) -> (r: bool)
    ensures
        r == touchid_configured_spec(
            match sudo_local {
                Some(c) => Some(c@),
                None => None,
            },
            match sudo {
                Some(c) => Some(c@),
                None => None,
            },
        ),
{
    let a = match sudo_local {
        Some(c) => contains_str(c, "pam_tid.so"),
        None => false,
    };
    a || match sudo {
        Some(c) => contains_str(c, "pam_tid.so"),
        None => false,
    }
}

/// Whether this Mac supports Touch ID: `bioutil -r` reports it, or the machine is Apple
/// Silicon (`aarch64`).
pub fn touchid_supported_from(bioutil_output: Option<&str>, arch: &str) -> (r: bool)
    ensures
        r == ((bioutil_output matches Some(o) && contains_seq(o@, "Touch ID"@)) || arch@ == "aarch64"@),
{
    let a = match bioutil_output {
        Some(o) => contains_str(o, "Touch ID"),
        None => false,
    };
    a || str_eq(arch, "aarch64")
}

/// What a Touch ID change leaves to do.
#[derive(Clone, Copy, Debug, PartialEq, Eq, Structural)]
pub enum TouchIdFollowUp {
    /// Nothing: the answer is final.
    Nothing,
    /// Open Terminal to run the change with the user's password.
    OpenTerminal,
}

/// Enabling Touch ID: nothing to do when it is already set up, a preview in a dry run,
/// otherwise Terminal is opened to make the change.
pub fn enable_touchid(dry_run: bool, configured: bool) -> (r: (bool, String, TouchIdFollowUp))
    ensures
        r.0,
        configured ==> r.1@ == "Touch ID is already enabled for sudo"@ && r.2 == TouchIdFollowUp::Nothing,
        !configured && dry_run ==> r.1@ == "[DRY RUN] Would write 'auth sufficient pam_tid.so' to /etc/pam.d/sudo_local"@
            && r.2 == TouchIdFollowUp::Nothing,
        !configured && !dry_run ==> r.1@
            == "Opened Terminal to configure Touch ID. Please enter your password in Terminal to complete setup."@
            && r.2 == TouchIdFollowUp::OpenTerminal,
{
    if configured {
        return (true, "Touch ID is already enabled for sudo".to_string(), TouchIdFollowUp::Nothing);
    }
    if dry_run {
        return (
            true,
            "[DRY RUN] Would write 'auth sufficient pam_tid.so' to /etc/pam.d/sudo_local".to_string(),
            TouchIdFollowUp::Nothing,
        );
    }
    (
        true,
        "Opened Terminal to configure Touch ID. Please enter your password in Terminal to complete setup.".to_string(),
        TouchIdFollowUp::OpenTerminal,
    )
}

/// Disabling Touch ID: nothing to do when it is not set up, a preview in a dry run,
/// otherwise Terminal is opened to make the change.
pub fn disable_touchid(dry_run: bool, configured: bool) -> (r: (bool, String, TouchIdFollowUp))
    ensures
        r.0,
        !configured ==> r.1@ == "Touch ID is not currently configured"@ && r.2 == TouchIdFollowUp::Nothing,
        configured && dry_run ==> r.1@ == "[DRY RUN] Would remove pam_tid.so configuration from /etc/pam.d/sudo_local"@
            && r.2 == TouchIdFollowUp::Nothing,
        configured && !dry_run ==> r.1@ == "Opened Terminal to disable Touch ID for sudo."@ && r.2
            == TouchIdFollowUp::OpenTerminal,
{
    if !configured {
        return (true, "Touch ID is not currently configured".to_string(), TouchIdFollowUp::Nothing);
    }
    if dry_run {
        return (
            true,
            "[DRY RUN] Would remove pam_tid.so configuration from /etc/pam.d/sudo_local".to_string(),
            TouchIdFollowUp::Nothing,
        );
    }
    (true, "Opened Terminal to disable Touch ID for sudo.".to_string(), TouchIdFollowUp::OpenTerminal)
}

/// `s` with every `"` preceded by a backslash, as AppleScript strings need.
pub open spec fn escape_quotes(s: Seq<char>) -> Seq<char>
    decreases s.len(),
{
    if s.len() == 0 {
        Seq::empty()
    } else {
        escape_quotes(s.drop_last()) + if s.last() == '"' {
            seq!['\\', '"']
        } else {
            seq![s.last()]
        }
    }
}

/// Appends `s` with its quotes escaped.
pub fn push_escaped(out: &mut String, s: &str)
    ensures
        final(out)@ == old(out)@ + escape_quotes(s@),
{
    let v = chars_of(s);
    let mut i: usize = 0;
    while i < v.len()
        invariant
            i <= v.len(),
            v@ == s@,
            out@ == old(out)@ + escape_quotes(v@.take(i as int)),
        decreases v.len() - i,
    {
        assert(v@.take(i + 1).drop_last() =~= v@.take(i as int));
        if v[i] == '"' {
            push_char(out, '\\');
            push_char(out, '"');
        } else {
            push_char(out, v[i]);
        }
        assert(out@ =~= old(out)@ + escape_quotes(v@.take(i + 1)));
        i = i + 1;
    }
    assert(v@.take(v.len() as int) =~= v@);
}

/// The AppleScript that asks for administrator rights: through `sudo -v` with the
/// native prompt when Touch ID is set up, or a password dialog otherwise.
pub fn admin_prompt_script(prompt: &str, touchid: bool) -> (out: String)
    ensures
        touchid ==> out@ == "do shell script \"sudo -v\" with prompt \""@ + escape_quotes(prompt@)
            + "\" with administrator privileges"@,
        !touchid ==> out@ == "display dialog \""@ + escape_quotes(prompt@)
            + "\" default answer \"\" with title \"Pantau Deep Scan\" with icon caution with hidden answer"@,
{
    let mut out = String::new();
    if touchid {
        push_str(&mut out, "do shell script \"sudo -v\" with prompt \"");
        push_escaped(&mut out, prompt);
        push_str(&mut out, "\" with administrator privileges");
    } else {
        push_str(&mut out, "display dialog \"");
        push_escaped(&mut out, prompt);
        push_str(&mut out, "\" default answer \"\" with title \"Pantau Deep Scan\" with icon caution with hidden answer");
    }
    out
}

/// The locations whose access the app checks, with their labels.
pub open spec fn access_check_paths_spec(home: Seq<char>) -> Seq<(Seq<char>, Seq<char>)> {
    seq![
        ("User Caches"@, join(home, "Library/Caches"@)),
        ("Application Support"@, join(home, "Library/Application Support"@)),
        ("Containers & Logs"@, join(home, "Library/Containers"@)),
    ]
}

/// The locations whose access the app checks, with their labels.
pub fn access_check_paths(home: &str) -> (out: Vec<(&'static str, String)>)
    ensures
        out@.map_values(|t: (&'static str, String)| (t.0@, t.1@)) == access_check_paths_spec(home@),
{
    let out = vec![
        ("User Caches", join_exec(home, "Library/Caches")),
        ("Application Support", join_exec(home, "Library/Application Support")),
        ("Containers & Logs", join_exec(home, "Library/Containers")),
    ];
    assert(out@.map_values(|t: (&'static str, String)| (t.0@, t.1@)) =~= access_check_paths_spec(home@));
    out
}

/// The shell command that runs the command-line cleaner with `subcommand`: cleaning
/// runs under `sudo`, an empty subcommand opens the menu.
pub open spec fn pnt_command(sub: Seq<char>) -> Seq<char> {
    if sub == "clean"@ || sub == "clean --dry-run"@ {
        "sudo pnt "@ + sub
    } else if sub.len() == 0 {
        "pnt"@
    } else {
        "pnt "@ + sub
    }
}

/// The AppleScript that opens Terminal on the command-line cleaner with `subcommand`
/// (trimmed), with `~/.local/bin` put first on the `PATH`.
pub open spec fn terminal_script_spec(subcommand: Seq<char>) -> Seq<char> {
    let shell = "export PATH=\"$HOME/.local/bin:$PATH\"; "@ + pnt_command(trim_seq(subcommand));
    "tell application \"Terminal\"\nactivate\ndo script \""@ + escape_quotes(shell) + "\"\nend tell"@
}

/// The AppleScript that opens Terminal on the command-line cleaner.
pub fn terminal_script(subcommand: &str) -> (out: String)
    ensures
        out@ == terminal_script_spec(subcommand@),
{
    let sub = trim(subcommand);
    let cmd = if str_eq(sub.as_str(), "clean") || str_eq(sub.as_str(), "clean --dry-run") {
        concat("sudo pnt ", sub.as_str())
    } else if str_eq(sub.as_str(), "") {
        proof {
            reveal_strlit("");
        }
        "pnt".to_string()
    } else {
        proof {
            reveal_strlit("");
            if sub@.len() == 0 {
                assert(sub@ =~= ""@);
            }
        }
        concat("pnt ", sub.as_str())
    };
    let shell = concat("export PATH=\"$HOME/.local/bin:$PATH\"; ", cmd.as_str());
    let mut out = String::new();
    push_str(&mut out, "tell application \"Terminal\"\nactivate\ndo script \"");
    push_escaped(&mut out, shell.as_str());
    push_str(&mut out, "\"\nend tell");
    out
}

} // verus!
