//! From the services as written to the services as they run.

use crate::config::error::ExpectedError;
use crate::config::merge::migrations;
use crate::config::merge::migrations::{resolve_migrations, Migration};
use crate::config::merge::resolve;
use crate::config::merge::resolve::resolve_inheritance;
use crate::config::raw::{RawConfig, RawService};
use vstd::prelude::*;

verus! {

/// Whether `inherited` stands between `services` and `out`: inheritance is
/// resolved first, and renames are collected of what it leaves.
pub open spec fn stands_between(
    services: Seq<RawService>,
    inherited: Seq<RawService>,
    r: Result<Vec<Migration>, ExpectedError>,
    out: Seq<RawService>,
) -> bool {
    ||| resolve::inheritance(services, Ok(()), inherited) && migrations::migration(
        inherited,
        r,
        out,
    )
    ||| r matches Err(e) && resolve::inheritance(services, Err(e), inherited) && out == inherited
}

/// Resolves inheritance between the services, then collects their renames.
pub fn resolve_services(cfg: &mut RawConfig) -> (r: Result<Vec<Migration>, ExpectedError>)
    ensures
        exists|inherited: Seq<RawService>|
            #[trigger] stands_between(old(cfg).services@, inherited, r, final(cfg).services@),
{
    let ghost services = cfg.services@;
    match resolve_inheritance(cfg) {
        Ok(_) => {},
        Err(e) => {
            assert(stands_between(services, cfg.services@, Err(e), cfg.services@));
            return Err(e);
        },
    }
    let ghost inherited = cfg.services@;
    let r: Result<Vec<Migration>, ExpectedError> = resolve_migrations(cfg);
    assert(stands_between(services, inherited, r, cfg.services@));
    r
}

/// Services that resolve all have names, so a refusal of their renames is
/// always a cycle.
pub proof fn lemma_resolved_services_named(
    services: Seq<RawService>,
    inherited: Seq<RawService>,
)
    requires
        resolve::inheritance(services, Ok(()), inherited),
    ensures
        migrations::all_named(inherited),
{
    let source = crate::config::merge::by_name(services);
    crate::config::merge::lemma_by_name_len(services);
    crate::text_map::lemma_keys_listed(source);
    let names = crate::text_map::ordered_keys(source);
    assert forall|i: int| 0 <= i < inherited.len() implies crate::config::merge::name_of(
        #[trigger] inherited[i],
    ) is Some by {
        resolve::lemma_names_are_own(inherited, source, i);
        assert(names.contains(names[i]));
        assert(source.contains_key(names[i]));
        crate::config::merge::lemma_by_name(services, names[i]);
    }
}

} // verus!
