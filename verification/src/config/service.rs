//! Rules on a service as a whole.

use crate::config::container;
use crate::config::container::{
    validate_bridge_command_endpoint, validate_container, ContainerConfig, RawContainerConfig,
};
use crate::config::error;
use crate::config::error::{fail, ExpectedError};
use crate::config::merge::fields;
use crate::config::raw::RawService;
use crate::text_map::TextMap;
use vstd::prelude::*;
use vstd::string::*;

verus! {

/// The container block of a service.
pub open spec fn block_of(s: RawService) -> Option<RawContainerConfig> {
    match s {
        RawService::LlamaCpp(lc) => lc.container,
        RawService::Command(cmd) => cmd.container,
    }
}

/// The name of a service; empty where it has none.
pub open spec fn shown_name(s: RawService) -> Seq<char> {
    match s.shared().name {
        Some(n) => n@,
        None => Seq::empty(),
    }
}

/// The setting of a service that a container leaves no room for.
pub open spec fn exclusion(s: RawService) -> Option<Seq<char>> {
    match s {
        RawService::LlamaCpp(lc) => if lc.launcher is Some {
            Some(": launcher and [service.container] are mutually exclusive"@)
        } else {
            None
        },
        RawService::Command(cmd) => if cmd.shutdown_command is Some {
            Some(": shutdown_command is not allowed with [service.container]"@)
        } else {
            None
        },
    }
}

/// What is wrong with a service that runs in the container `raw`. A setting
/// that the container leaves no room for comes first, then what is wrong
/// with the block itself, then a command that never binds what is published.
pub open spec fn service_fault(s: RawService, raw: RawContainerConfig) -> Option<Seq<char>> {
    let name = shown_name(s);
    match exclusion(s) {
        Some(m) => Some("service "@ + name + m),
        None => match container::container_fault(raw) {
            Some(f) => Some(container::fault_text(name, raw, f)),
            None => match s {
                RawService::LlamaCpp(_) => None,
                RawService::Command(cmd) => container::endpoint_complaint(
                    name,
                    container::network_of(raw)->0,
                    fields::list_of(cmd.command),
                    container::pairs_of(cmd.common.env),
                    container::pairs_of(raw.env),
                ),
            },
        },
    }
}

/// The container that a service runs in, once every rule on it holds; none
/// where it runs on the host.
pub fn service_container(s: &RawService) -> (r: Result<Option<ContainerConfig>, ExpectedError>)
    ensures
        match block_of(*s) {
            None => r matches Ok(out) && out is None,
            Some(raw) => match service_fault(*s, raw) {
                Some(m) => r matches Err(e) && error::rejects(e, m),
                None => r matches Ok(Some(out)) && container::container_agrees(out, raw),
            },
        },
{
    let name: &str = match &s.common().name {
        Some(n) => n.as_str(),
        None => "",
    };
    proof {
        reveal_strlit("");
        assert(name@ =~= shown_name(*s));
    }
    match s {
        RawService::LlamaCpp(lc) => match &lc.container {
            None => Ok(None),
            Some(raw) => {
                if lc.launcher.is_some() {
                    return Err(
                        fail(
                            "service ".to_owned().concat(name).concat(
                                ": launcher and [service.container] are mutually exclusive",
                            ),
                        ),
                    );
                }
                match validate_container(name, raw) {
                    Ok(out) => Ok(Some(out)),
                    Err(e) => Err(e),
                }
            },
        },
        RawService::Command(cmd) => match &cmd.container {
            None => Ok(None),
            Some(raw) => {
                if cmd.shutdown_command.is_some() {
                    return Err(
                        fail(
                            "service ".to_owned().concat(name).concat(
                                ": shutdown_command is not allowed with [service.container]",
                            ),
                        ),
                    );
                }
                let out: ContainerConfig = match validate_container(name, raw) {
                    Ok(out) => out,
                    Err(e) => {
                        return Err(e);
                    },
                };
                let none: Vec<String> = Vec::new();
                let command: &Vec<String> = match &cmd.command {
                    Some(c) => c,
                    None => &none,
                };
                let nothing: TextMap<String> = TextMap::new();
                let env: &TextMap<String> = match &cmd.common.env {
                    Some(m) => m,
                    None => &nothing,
                };
                assert(command@ =~= fields::list_of(cmd.command));
                assert(env.pairs() =~= container::pairs_of(cmd.common.env));
                match validate_bridge_command_endpoint(name, &out, command.as_slice(), env) {
                    Ok(_) => Ok(Some(out)),
                    Err(e) => Err(e),
                }
            },
        },
    }
}

} // verus!
