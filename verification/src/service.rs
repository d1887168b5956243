//! The systemd user service and the udev rules: what is written and in which
//! order things are done.
use vstd::prelude::*;
use vstd::string::*;

use crate::config::{join, joined, texts};
use crate::text::{
    chars_of, eq_ignore_ascii_case, found_in, law_case_is_that_of_ascii_letters,
    same_ignoring_ascii_case, trim, trimmed,
};

verus! {

// ---------------------------------------------------------------------------
// Questions
// ---------------------------------------------------------------------------

/// Whether an answer is a yes.
pub open spec fn is_yes(input: Seq<char>) -> bool {
    same_ignoring_ascii_case(trimmed(input), "y"@)
}

/// Whether the answer to a question allows to overwrite a file. Anything but
/// a yes is a no.
pub fn confirm_overwrite(input: &str) -> (r: bool)
    ensures
        r == is_yes(input@),
{
    eq_ignore_ascii_case(trim(input), "y")
}

/// The question whether to overwrite a file.
pub fn overwrite_question(label: &str) -> (r: String)
    ensures
        r@ == label@ + " already exists. Overwrite? [y/N] "@,
{
    let mut s = label.to_owned();
    s.append(" already exists. Overwrite? [y/N] ");
    s
}

// ---------------------------------------------------------------------------
// The service
// ---------------------------------------------------------------------------

/// The name of the file of the service.
pub fn service_file_name() -> (r: &'static str)
    ensures
        r@ == "pcpanel.service"@,
{
    "pcpanel.service"
}

/// Whether a character has a meaning of its own between double quotes in a
/// unit file: it ends them, it escapes, or it starts a variable.
pub open spec fn is_special(c: char) -> bool {
    c == '"' || c == '\\' || c == '$'
}

/// The first special character from `i` on.
pub open spec fn special_from(path: Seq<char>, i: int) -> Option<char>
    decreases path.len() - i,
{
    if i >= path.len() {
        None
    } else if is_special(path[i]) {
        Some(path[i])
    } else {
        special_from(path, i + 1)
    }
}

/// The message for a path with a special character. `shown` is the path as it
/// is shown.
pub open spec fn special_message(bad: char, shown: Seq<char>) -> Seq<char> {
    "binary path contains the special character `"@ + seq![bad] + "` ("@ + shown
        + "); move or rename the binary to a path without `\"`, `\\`, or `$`"@
}

/// Whether a path can stand in the unit file. It is rejected rather than
/// escaped: no installation needs such a path. `shown` is the path as the
/// message is to show it.
pub fn binary_path(path: &str, shown: &str) -> (r: Result<(), String>)
    ensures
        match r {
            Ok(_) => special_from(path@, 0) is None,
            Err(m) => special_from(path@, 0) matches Some(bad) && m@ == special_message(
                bad,
                shown@,
            ),
        },
{
    let v = chars_of(path);
    let mut i: usize = 0;
    while i < v.len()
        invariant
            v@ == path@,
            i <= v@.len(),
            special_from(path@, 0) == special_from(path@, i as int),
        decreases v@.len() - i,
    {
        if v[i] == '"' || v[i] == '\\' || v[i] == '$' {
            let bad = path.substring_char(i, i + 1);
            assert(bad@ =~= seq![path@[i as int]]);
            let mut m = "binary path contains the special character `".to_owned();
            m.append(bad);
            m.append("` (");
            m.append(shown);
            m.append("); move or rename the binary to a path without `\"`, `\\`, or `$`");
            return Err(m);
        }
        i = i + 1;
    }
    Ok(())
}

/// The unit file of the service.
pub open spec fn unit_file(bin_path: Seq<char>) -> Seq<char> {
    "[Unit]\nDescription=PCPanel Pro Controller\nAfter=graphical-session.target\nWants=graphical-session.target\n\n[Service]\nExecStart=\""@
        + bin_path
        + "\"\nRestart=on-failure\nRestartSec=5\n\n# Hardening\nNoNewPrivileges=yes\nProtectSystem=strict\nProtectHome=read-only\nPrivateTmp=yes\nProtectKernelTunables=yes\nProtectKernelModules=yes\nProtectKernelLogs=yes\nProtectControlGroups=yes\nProtectClock=yes\nRestrictNamespaces=yes\nRestrictRealtime=yes\nRestrictSUIDSGID=yes\nLockPersonality=yes\nMemoryDenyWriteExecute=yes\nRestrictAddressFamilies=AF_UNIX AF_INET AF_INET6\nSystemCallFilter=@system-service\nSystemCallArchitectures=native\n\n[Install]\nWantedBy=default.target\n"@
}

/// The unit file of the service. The restrictions in it leave the service
/// what it needs: the HID device, the sockets of PulseAudio and OBS, and
/// D-Bus.
pub fn generate_service_file(bin_path: &str) -> (r: String)
    ensures
        r@ == unit_file(bin_path@),
{
    let mut s = "[Unit]\nDescription=PCPanel Pro Controller\nAfter=graphical-session.target\nWants=graphical-session.target\n\n[Service]\nExecStart=\"".to_owned();
    s.append(bin_path);
    s.append("\"\nRestart=on-failure\nRestartSec=5\n\n# Hardening\nNoNewPrivileges=yes\nProtectSystem=strict\nProtectHome=read-only\nPrivateTmp=yes\nProtectKernelTunables=yes\nProtectKernelModules=yes\nProtectKernelLogs=yes\nProtectControlGroups=yes\nProtectClock=yes\nRestrictNamespaces=yes\nRestrictRealtime=yes\nRestrictSUIDSGID=yes\nLockPersonality=yes\nMemoryDenyWriteExecute=yes\nRestrictAddressFamilies=AF_UNIX AF_INET AF_INET6\nSystemCallFilter=@system-service\nSystemCallArchitectures=native\n\n[Install]\nWantedBy=default.target\n");
    s
}

/// A step of an installation.
#[derive(Debug)]
pub enum ServiceStep {
    /// Ask whether to overwrite, and stop on a no.
    Confirm,
    /// Run `systemctl --user`. A failure ends the installation unless it may
    /// be ignored.
    Systemctl { args: Vec<String>, may_fail: bool },
    CreateDirectory,
    WriteFile,
    RemoveFile,
    Say(String),
}

/// The content of a [`ServiceStep`].
pub enum ServiceStepView {
    Confirm,
    Systemctl { args: Seq<Seq<char>>, may_fail: bool },
    CreateDirectory,
    WriteFile,
    RemoveFile,
    Say(Seq<char>),
}

impl View for ServiceStep {
    type V = ServiceStepView;

    open spec fn view(&self) -> ServiceStepView {
        match *self {
            ServiceStep::Confirm => ServiceStepView::Confirm,
            ServiceStep::Systemctl { args, may_fail } => ServiceStepView::Systemctl {
                args: texts(args@),
                may_fail,
            },
            ServiceStep::CreateDirectory => ServiceStepView::CreateDirectory,
            ServiceStep::WriteFile => ServiceStepView::WriteFile,
            ServiceStep::RemoveFile => ServiceStepView::RemoveFile,
            ServiceStep::Say(line) => ServiceStepView::Say(line@),
        }
    }
}

/// The contents of a row of steps.
pub open spec fn steps(v: Seq<ServiceStep>) -> Seq<ServiceStepView> {
    Seq::new(v.len(), |i: int| v[i]@)
}

/// A step that runs `systemctl --user` on the service.
pub open spec fn unit_step(verb: Seq<char>, may_fail: bool) -> ServiceStepView {
    ServiceStepView::Systemctl { args: seq![verb, "pcpanel"@], may_fail }
}

/// The step that lets systemd read the unit files again.
pub open spec fn reload_step() -> ServiceStepView {
    ServiceStepView::Systemctl { args: seq!["daemon-reload"@], may_fail: false }
}

/// The steps that end a running service. They may fail: it need not run.
pub open spec fn ending_steps() -> Seq<ServiceStepView> {
    seq![unit_step("stop"@, true), unit_step("disable"@, true)]
}

/// The steps that install the service from `path`, where the file is there
/// already or not.
pub open spec fn install_steps(exists: bool, path: Seq<char>, bin: Seq<char>) -> Seq<
    ServiceStepView,
> {
    let replace = if exists {
        seq![ServiceStepView::Confirm] + ending_steps()
    } else {
        Seq::empty()
    };
    replace + seq![
        ServiceStepView::CreateDirectory,
        ServiceStepView::WriteFile,
        ServiceStepView::Say("Created "@ + path),
        ServiceStepView::Say("Binary: "@ + bin),
        reload_step(),
        unit_step("enable"@, false),
        unit_step("start"@, false),
        ServiceStepView::Say("Service enabled and started."@),
        ServiceStepView::Say(""@),
        ServiceStepView::Say("Useful commands:"@),
        ServiceStepView::Say("  systemctl --user status pcpanel    # check status"@),
        ServiceStepView::Say("  journalctl --user -u pcpanel -f    # follow logs"@),
        ServiceStepView::Say("  systemctl --user restart pcpanel   # restart"@),
        ServiceStepView::Say("  systemctl --user stop pcpanel      # stop"@),
    ]
}

/// The steps that remove the service.
pub open spec fn remove_steps(exists: bool) -> Seq<ServiceStepView> {
    if exists {
        ending_steps() + seq![
            ServiceStepView::RemoveFile,
            reload_step(),
            ServiceStepView::Say("Service stopped, disabled, and removed."@),
        ]
    } else {
        seq![ServiceStepView::Say("Service is not installed."@)]
    }
}

fn push_step(v: &mut Vec<ServiceStep>, step: ServiceStep)
    ensures
        steps(final(v)@) == steps(old(v)@).push(step@),
{
    v.push(step);
    assert(steps(v@) =~= steps(old(v)@).push(step@));
}

fn say(v: &mut Vec<ServiceStep>, line: &str)
    ensures
        steps(final(v)@) == steps(old(v)@).push(ServiceStepView::Say(line@)),
{
    push_step(v, ServiceStep::Say(line.to_owned()));
}

fn push_unit(v: &mut Vec<ServiceStep>, verb: &str, may_fail: bool)
    ensures
        steps(final(v)@) == steps(old(v)@).push(unit_step(verb@, may_fail)),
{
    let mut args: Vec<String> = Vec::new();
    args.push(verb.to_owned());
    args.push("pcpanel".to_owned());
    assert(texts(args@) =~= seq![verb@, "pcpanel"@]);
    push_step(v, ServiceStep::Systemctl { args, may_fail });
}

fn push_reload(v: &mut Vec<ServiceStep>)
    ensures
        steps(final(v)@) == steps(old(v)@).push(reload_step()),
{
    let mut args: Vec<String> = Vec::new();
    args.push("daemon-reload".to_owned());
    assert(texts(args@) =~= seq!["daemon-reload"@]);
    push_step(v, ServiceStep::Systemctl { args, may_fail: false });
}

fn labelled(intro: &str, text: &str) -> (r: String)
    ensures
        r@ == intro@ + text@,
{
    let mut s = intro.to_owned();
    s.append(text);
    s
}

/// The steps that install the service.
pub fn install(exists: bool, path: &str, bin: &str) -> (r: Vec<ServiceStep>)
    ensures
        steps(r@) == install_steps(exists, path@, bin@),
{
    let mut v: Vec<ServiceStep> = Vec::new();
    assert(steps(v@) =~= Seq::<ServiceStepView>::empty());
    if exists {
        push_step(&mut v, ServiceStep::Confirm);
        push_unit(&mut v, "stop", true);
        push_unit(&mut v, "disable", true);
    }
    push_step(&mut v, ServiceStep::CreateDirectory);
    push_step(&mut v, ServiceStep::WriteFile);
    push_step(&mut v, ServiceStep::Say(labelled("Created ", path)));
    push_step(&mut v, ServiceStep::Say(labelled("Binary: ", bin)));
    push_reload(&mut v);
    push_unit(&mut v, "enable", false);
    push_unit(&mut v, "start", false);
    say(&mut v, "Service enabled and started.");
    say(&mut v, "");
    say(&mut v, "Useful commands:");
    say(&mut v, "  systemctl --user status pcpanel    # check status");
    say(&mut v, "  journalctl --user -u pcpanel -f    # follow logs");
    say(&mut v, "  systemctl --user restart pcpanel   # restart");
    say(&mut v, "  systemctl --user stop pcpanel      # stop");
    assert(steps(v@) =~= install_steps(exists, path@, bin@));
    v
}

/// The steps that remove the service.
pub fn remove(exists: bool) -> (r: Vec<ServiceStep>)
    ensures
        steps(r@) == remove_steps(exists),
{
    let mut v: Vec<ServiceStep> = Vec::new();
    assert(steps(v@) =~= Seq::<ServiceStepView>::empty());
    if exists {
        push_unit(&mut v, "stop", true);
        push_unit(&mut v, "disable", true);
        push_step(&mut v, ServiceStep::RemoveFile);
        push_reload(&mut v);
        say(&mut v, "Service stopped, disabled, and removed.");
    } else {
        say(&mut v, "Service is not installed.");
    }
    assert(steps(v@) =~= remove_steps(exists));
    v
}

/// The message for a `systemctl --user` that failed.
pub fn systemctl(args: &Vec<String>, stderr: &str) -> (r: String)
    ensures
        r@ == "systemctl --user "@ + joined(texts(args@), " "@) + " failed: "@ + trimmed(stderr@),
{
    let mut m = "systemctl --user ".to_owned();
    m.append(join(args, " ").as_str());
    m.append(" failed: ");
    m.append(trim(stderr));
    m
}

// ---------------------------------------------------------------------------
// The udev rules
// ---------------------------------------------------------------------------

/// Where the rules are installed. The number puts them before the rules of
/// systemd that look for their tag.
pub open spec fn rules_path_text() -> Seq<char> {
    "/etc/udev/rules.d/70-pcpanel.rules"@
}

/// Where the rules are installed.
pub fn rules_path() -> (r: &'static str)
    ensures
        r@ == rules_path_text(),
{
    "/etc/udev/rules.d/70-pcpanel.rules"
}

/// The steps that install the rules.
pub open spec fn rules_steps(exists: bool) -> Seq<ServiceStepView> {
    let replace = if exists {
        seq![ServiceStepView::Confirm]
    } else {
        Seq::empty()
    };
    replace + seq![
        ServiceStepView::WriteFile,
        ServiceStepView::Say("Created "@ + rules_path_text()),
        ServiceStepView::Say("Reload rules with:"@),
        ServiceStepView::Say("  sudo udevadm control --reload-rules"@),
        ServiceStepView::Say("  sudo udevadm trigger"@),
    ]
}

/// The message for a user who is not root.
pub open spec fn root_message(program: Seq<char>) -> Seq<char> {
    "Creating udev rules requires root privileges.\nRun again with: sudo "@ + program
        + " --create-udev-rules"@
}

/// The steps that install the rules, which takes root. `program` is the name
/// under which the program was started.
pub fn create_udev_rules(is_root: bool, exists: bool, program: Option<String>) -> (r: Result<
    Vec<ServiceStep>,
    String,
>)
    ensures
        match r {
            Ok(v) => is_root && steps(v@) == rules_steps(exists),
            Err(m) => !is_root && m@ == root_message(
                match program {
                    Some(p) => p@,
                    None => "pcp_rust"@,
                },
            ),
        },
{
    if !is_root {
        let mut m = "Creating udev rules requires root privileges.\nRun again with: sudo ".to_owned();
        match program {
            Some(p) => m.append(p.as_str()),
            None => m.append("pcp_rust"),
        }
        m.append(" --create-udev-rules");
        return Err(m);
    }
    let mut v: Vec<ServiceStep> = Vec::new();
    assert(steps(v@) =~= Seq::<ServiceStepView>::empty());
    if exists {
        push_step(&mut v, ServiceStep::Confirm);
    }
    push_step(&mut v, ServiceStep::WriteFile);
    push_step(&mut v, ServiceStep::Say(labelled("Created ", rules_path())));
    say(&mut v, "Reload rules with:");
    say(&mut v, "  sudo udevadm control --reload-rules");
    say(&mut v, "  sudo udevadm trigger");
    assert(steps(v@) =~= rules_steps(exists));
    Ok(v)
}

// ---------------------------------------------------------------------------
// Laws
// ---------------------------------------------------------------------------

/// Where a file is there already, the first thing that happens is that the
/// user is asked, so nothing is changed unasked.
pub proof fn law_nothing_is_overwritten_unasked(path: Seq<char>, bin: Seq<char>)
    ensures
        install_steps(true, path, bin)[0] == ServiceStepView::Confirm,
        rules_steps(true)[0] == ServiceStepView::Confirm,
{
}

/// A file is written only once, after its directory is there, and systemd is
/// told of it before the service starts.
pub proof fn law_service_starts_after_its_file(exists: bool, path: Seq<char>, bin: Seq<char>)
    ensures
        ({
            let s = install_steps(exists, path, bin);
            let at = if exists {
                3int
            } else {
                0int
            };
            &&& s[at] == ServiceStepView::CreateDirectory
            &&& s[at + 1] == ServiceStepView::WriteFile
            &&& s[at + 4] == reload_step()
            &&& s[at + 6] == unit_step("start"@, false)
            &&& forall|j: int|
                0 <= j < s.len() && j != at + 1 ==> #[trigger] s[j] != ServiceStepView::WriteFile
        }),
{
}

/// A path that is accepted cannot end or change the quotes around it: it has
/// no special character.
pub proof fn law_accepted_paths_are_plain(path: Seq<char>, i: int)
    requires
        special_from(path, 0) is None,
        0 <= i < path.len(),
    ensures
        !is_special(path[i]),
{
    lemma_plain_from(path, 0, i);
}

proof fn lemma_plain_from(path: Seq<char>, from: int, i: int)
    requires
        special_from(path, from) is None,
        from <= i < path.len(),
    ensures
        !is_special(path[i]),
    decreases i - from,
{
    if from < i {
        lemma_plain_from(path, from + 1, i);
    }
}

/// An answer is a yes where it is the letter y, small or capital, with nothing
/// but white space around it.
pub proof fn law_yes_is_the_letter(input: Seq<char>)
    ensures
        is_yes(input) <==> trimmed(input) == seq!['y'] || trimmed(input) == seq!['Y'],
{
    reveal_strlit("y");
    law_case_is_that_of_ascii_letters(trimmed(input), "y"@);
    if is_yes(input) {
        let c = trimmed(input)[0];
        assert(c == 'y' || c == 'Y');
        assert(trimmed(input) =~= seq![c]);
    }
}

/// A path is rejected where it has a double quote, a backslash or a dollar
/// sign, with the first of these, and accepted otherwise.
pub proof fn law_special_characters_are_found(path: Seq<char>, shown: Seq<char>)
    ensures
        match special_from(path, 0) {
            Some(c) => exists|i: int|
                {
                    &&& 0 <= i < path.len()
                    &&& #[trigger] path[i] == c
                    &&& c == '"' || c == '\\' || c == '$'
                    &&& forall|j: int|
                        0 <= j < i ==> #[trigger] path[j] != '"' && path[j] != '\\' && path[j]
                            != '$'
                },
            None => forall|j: int|
                0 <= j < path.len() ==> #[trigger] path[j] != '"' && path[j] != '\\' && path[j]
                    != '$',
        },
        forall|c: char|
            #[trigger] special_message(c, shown) == "binary path contains the special character `"@
                + seq![c] + "` ("@ + shown
                + "); move or rename the binary to a path without `\"`, `\\`, or `$`"@,
{
    lemma_special_from(path, 0);
}

proof fn lemma_special_from(path: Seq<char>, from: int)
    requires
        0 <= from,
    ensures
        match special_from(path, from) {
            Some(c) => exists|i: int|
                {
                    &&& from <= i < path.len()
                    &&& #[trigger] path[i] == c
                    &&& is_special(c)
                    &&& forall|j: int| from <= j < i ==> !is_special(#[trigger] path[j])
                },
            None => forall|j: int| from <= j < path.len() ==> !is_special(#[trigger] path[j]),
        },
    decreases path.len() - from,
{
    if from < path.len() {
        if is_special(path[from]) {
            assert(path[from] == path[from]);
        } else {
            lemma_special_from(path, from + 1);
            if let Some(c) = special_from(path, from + 1) {
                let i = choose|i: int|
                    {
                        &&& from + 1 <= i < path.len()
                        &&& #[trigger] path[i] == c
                        &&& is_special(c)
                        &&& forall|j: int| from + 1 <= j < i ==> !is_special(#[trigger] path[j])
                    };
                assert(path[i] == c);
            }
        }
    }
}

/// The service that is installed runs the binary at its path, in quotes.
pub proof fn law_service_runs_the_binary(bin: Seq<char>)
    ensures
        found_in("\nExecStart=\""@ + bin + "\"\n"@, unit_file(bin)),
{
    let head = "[Unit]\nDescription=PCPanel Pro Controller\nAfter=graphical-session.target\nWants=graphical-session.target\n\n[Service]\nExecStart=\""@;
    let tail = "\"\nRestart=on-failure\nRestartSec=5\n\n# Hardening\nNoNewPrivileges=yes\nProtectSystem=strict\nProtectHome=read-only\nPrivateTmp=yes\nProtectKernelTunables=yes\nProtectKernelModules=yes\nProtectKernelLogs=yes\nProtectControlGroups=yes\nProtectClock=yes\nRestrictNamespaces=yes\nRestrictRealtime=yes\nRestrictSUIDSGID=yes\nLockPersonality=yes\nMemoryDenyWriteExecute=yes\nRestrictAddressFamilies=AF_UNIX AF_INET AF_INET6\nSystemCallFilter=@system-service\nSystemCallArchitectures=native\n\n[Install]\nWantedBy=default.target\n"@;
    let start = "\nExecStart=\""@;
    let end = "\"\n"@;
    reveal_strlit("[Unit]\nDescription=PCPanel Pro Controller\nAfter=graphical-session.target\nWants=graphical-session.target\n\n[Service]\nExecStart=\"");
    reveal_strlit("\"\nRestart=on-failure\nRestartSec=5\n\n# Hardening\nNoNewPrivileges=yes\nProtectSystem=strict\nProtectHome=read-only\nPrivateTmp=yes\nProtectKernelTunables=yes\nProtectKernelModules=yes\nProtectKernelLogs=yes\nProtectControlGroups=yes\nProtectClock=yes\nRestrictNamespaces=yes\nRestrictRealtime=yes\nRestrictSUIDSGID=yes\nLockPersonality=yes\nMemoryDenyWriteExecute=yes\nRestrictAddressFamilies=AF_UNIX AF_INET AF_INET6\nSystemCallFilter=@system-service\nSystemCallArchitectures=native\n\n[Install]\nWantedBy=default.target\n");
    reveal_strlit("\nExecStart=\"");
    reveal_strlit("\"\n");
    let before = head.take(head.len() - start.len());
    let behind = tail.skip(end.len() as int);
    assert(head =~= before + start);
    assert(tail =~= end + behind);
    assert(unit_file(bin) =~= before + (start + bin + end) + behind);
}

/// Whether a step runs `systemctl --user` with a verb on the service.
pub open spec fn runs(step: ServiceStepView, verb: Seq<char>, may_fail: bool) -> bool {
    step == (ServiceStepView::Systemctl { args: seq![verb, "pcpanel"@], may_fail })
}

/// A service that is there is stopped and disabled before its file is
/// replaced, and before it is removed; that may fail, for it need not run. A
/// new file is told to systemd, which enables and starts the service; these
/// must not fail. A removed file is told to systemd last.
pub proof fn law_services_are_stopped_first(path: Seq<char>, bin: Seq<char>)
    ensures
        ({
            let fresh = install_steps(false, path, bin);
            let again = install_steps(true, path, bin);
            let reload = ServiceStepView::Systemctl {
                args: seq!["daemon-reload"@],
                may_fail: false,
            };
            &&& fresh[0] is CreateDirectory && fresh[1] is WriteFile
            &&& fresh[2] == ServiceStepView::Say("Created "@ + path)
            &&& fresh[3] == ServiceStepView::Say("Binary: "@ + bin)
            &&& fresh[4] == reload && runs(fresh[5], "enable"@, false) && runs(
                fresh[6],
                "start"@,
                false,
            )
            &&& fresh[7] == ServiceStepView::Say("Service enabled and started."@)
            &&& forall|i: int| 7 <= i < fresh.len() ==> (#[trigger] fresh[i]) is Say
            &&& again[0] is Confirm && runs(again[1], "stop"@, true) && runs(
                again[2],
                "disable"@,
                true,
            )
            &&& again.skip(3) == fresh
            &&& remove_steps(true).len() == 5
            &&& runs(remove_steps(true)[0], "stop"@, true) && runs(
                remove_steps(true)[1],
                "disable"@,
                true,
            )
            &&& remove_steps(true)[2] is RemoveFile && remove_steps(true)[3] == reload
            &&& remove_steps(true)[4] == ServiceStepView::Say(
                "Service stopped, disabled, and removed."@,
            )
            &&& remove_steps(false) == seq![ServiceStepView::Say("Service is not installed."@)]
        }),
{
    assert(install_steps(true, path, bin).skip(3) =~= install_steps(false, path, bin));
}

/// The rules are written to their place, after a question where they are there
/// already, and the user is told how to load them; one who is not root is told
/// how to become it.
pub proof fn law_rules_are_written_to_their_place(program: Seq<char>)
    ensures
        ({
            let fresh = rules_steps(false);
            &&& fresh.len() == 5 && fresh[0] is WriteFile
            &&& fresh[1] == ServiceStepView::Say(
                "Created "@ + "/etc/udev/rules.d/70-pcpanel.rules"@,
            )
            &&& fresh[3] == ServiceStepView::Say("  sudo udevadm control --reload-rules"@)
            &&& fresh[4] == ServiceStepView::Say("  sudo udevadm trigger"@)
            &&& rules_steps(true)[0] is Confirm && rules_steps(true).skip(1) == fresh
            &&& root_message(program)
                == "Creating udev rules requires root privileges.\nRun again with: sudo "@ + program
                + " --create-udev-rules"@
        }),
{
    assert(rules_steps(true).skip(1) =~= rules_steps(false));
}

/// A row of steps is read step by step, in its order.
pub proof fn law_steps_keep_their_order(v: Seq<ServiceStep>)
    ensures
        steps(v).len() == v.len(),
        forall|i: int| 0 <= i < v.len() ==> #[trigger] steps(v)[i] == v[i]@,
{
}

} // verus!
