//! The command line: what the program does, and which configuration it takes.
use vstd::prelude::*;
use vstd::string::*;

verus! {

/// What the program is asked to do.
#[derive(Debug, Clone, Copy, PartialEq, Eq, Structural)]
pub enum Mode {
    CreateUdevRules,
    InstallService,
    RemoveService,
    ListApps,
    Run,
}

/// What the program does. Where several things are asked for, the first of
/// them is done.
pub fn select_mode(
    create_udev_rules: bool,
    install_service: bool,
    remove_service: bool,
    list_apps: bool,
) -> (r: Mode)
    ensures
        r == if create_udev_rules {
            Mode::CreateUdevRules
        } else if install_service {
            Mode::InstallService
        } else if remove_service {
            Mode::RemoveService
        } else if list_apps {
            Mode::ListApps
        } else {
            Mode::Run
        },
{
    if create_udev_rules {
        Mode::CreateUdevRules
    } else if install_service {
        Mode::InstallService
    } else if remove_service {
        Mode::RemoveService
    } else if list_apps {
        Mode::ListApps
    } else {
        Mode::Run
    }
}

/// The configuration file: the one that was given, or else the default one.
pub fn config_path<P>(given: Option<P>, default: Option<P>) -> (r: Result<P, String>)
    ensures
        match r {
            Ok(path) => match given {
                Some(p) => path == p,
                None => default == Some(path),
            },
            Err(m) => given is None && default is None && m@ == "could not determine config path"@,
        },
{
    match given {
        Some(path) => Ok(path),
        None => match default {
            Some(path) => Ok(path),
            None => Err("could not determine config path".to_owned()),
        },
    }
}

/// The message for a configuration file that is not there.
pub fn missing_config(path: &str) -> (r: String)
    ensures
        r@ == "Config file not found: "@ + path@
            + "\nCreate one or specify a path with --config"@,
{
    let mut m = "Config file not found: ".to_owned();
    m.append(path);
    m.append("\nCreate one or specify a path with --config");
    m
}

/// Whether a signal of logind tells that the system has woken up. The signal
/// carries whether the system is about to sleep; a signal that carries
/// anything else tells nothing.
pub fn is_resume(going_to_sleep: Option<bool>) -> (r: bool)
    ensures
        r == (going_to_sleep == Some(false)),
{
    match going_to_sleep {
        Some(sleeps) => !sleeps,
        None => false,
    }
}

} // verus!
