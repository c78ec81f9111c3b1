//! Renames of services.

use crate::config::error;
use crate::config::error::{fail, ExpectedError};
use crate::config::merge;
use crate::config::raw::{RawConfig, RawService, RawServiceCommon};
use crate::text;
use crate::text_map;
use crate::text_map::TextMap;
use vstd::prelude::*;
use vstd::string::*;

verus! {

/// One service that gets a new name.
#[derive(Debug, PartialEq, Eq)]
pub struct Migration {
    /// The name it is recorded under.
    pub old_name: String,
    /// The name it gets.
    pub new_name: String,
}

impl Clone for Migration {
    fn clone(&self) -> (r: Self)
        ensures
            r == *self,
    {
        Migration { old_name: self.old_name.clone(), new_name: self.new_name.clone() }
    }
}

/// A rename, as the old and the new name.
pub open spec fn rename(m: Migration) -> (Seq<char>, Seq<char>) {
    (m.old_name@, m.new_name@)
}

/// Renames, as old and new names.
pub open spec fn renames(list: Seq<Migration>) -> Seq<(Seq<char>, Seq<char>)> {
    list.map_values(|m: Migration| rename(m))
}

/// The name that a service had before.
pub open spec fn former_name(s: RawService) -> Option<Seq<char>> {
    merge::text_of(s.shared().migrate_from)
}

/// Whether `list` has a rename to `name`.
pub open spec fn renames_to(list: Seq<(Seq<char>, Seq<char>)>, name: Seq<char>) -> bool {
    exists|i: int| 0 <= i < list.len() && (#[trigger] list[i]).1 == name
}

/// `list` with the rename to `name` behind it, and before that one the
/// renames that its old name depends on. A name that is among the `pending`
/// ones, whose own renames wait for this one, closes a cycle and is given
/// back as the error. A chain that is no cycle has no more than `fuel` links
/// where `fuel` and `pending` make up for all services.
pub open spec fn extended(
    services: Map<Seq<char>, RawService>,
    list: Seq<(Seq<char>, Seq<char>)>,
    pending: Seq<Seq<char>>,
    name: Seq<char>,
    fuel: nat,
) -> Result<Seq<(Seq<char>, Seq<char>)>, Seq<char>>
    decreases fuel,
{
    if renames_to(list, name) {
        Ok(list)
    } else if pending.contains(name) {
        Err(name)
    } else {
        match former_name(services[name]) {
            None => Ok(list),
            Some(old_name) => if !services.contains_key(old_name) {
                Ok(list.push((old_name, name)))
            } else if fuel == 0 {
                Err(name)
            } else {
                match extended(
                    services,
                    list,
                    pending.push(name),
                    old_name,
                    (fuel - 1) as nat,
                ) {
                    Ok(before) => Ok(before.push((old_name, name))),
                    Err(at) => Err(at),
                }
            },
        }
    }
}

/// The renames to the first `n` of `names`, each behind those it depends on.
pub open spec fn plan(
    services: Map<Seq<char>, RawService>,
    names: Seq<Seq<char>>,
    n: nat,
) -> Result<Seq<(Seq<char>, Seq<char>)>, Seq<char>>
    decreases n,
{
    if n == 0 {
        Ok(Seq::empty())
    } else {
        match plan(services, names, (n - 1) as nat) {
            Ok(list) => extended(
                services,
                list,
                Seq::empty(),
                names[n - 1],
                services.dom().len(),
            ),
            Err(at) => Err(at),
        }
    }
}

/// All renames that the services ask for.
pub open spec fn all_renames(services: Map<Seq<char>, RawService>) -> Result<
    Seq<(Seq<char>, Seq<char>)>,
    Seq<char>,
> {
    let names = text_map::ordered_keys(services);
    plan(services, names, names.len())
}

/// Whether `formers` has the former name of every service.
spec fn tells_formers(
    formers: Map<Seq<char>, Option<String>>,
    services: Map<Seq<char>, RawService>,
) -> bool {
    &&& formers.dom() == services.dom()
    &&& forall|k: Seq<char>| #[trigger]
        formers.contains_key(k) ==> merge::text_of(formers[k]) == former_name(services[k])
}

fn has_rename_to(list: &Vec<Migration>, name: &str) -> (r: bool)
    ensures
        r == renames_to(renames(list@), name@),
{
    for i in 0..list.len()
        invariant
            forall|j: int| 0 <= j < i ==> (#[trigger] list@[j]).new_name@ != name@,
    {
        if text::same(list[i].new_name.as_str(), name) {
            assert(renames(list@)[i as int].1 == name@);
            return true;
        }
    }
    proof {
        if renames_to(renames(list@), name@) {
            let j = choose|j: int|
                0 <= j < renames(list@).len() && (#[trigger] renames(list@)[j]).1 == name@;
            assert(list@[j].new_name@ == name@);
        }
    }
    false
}

/// Adds the rename to `name`, behind those it depends on.
fn visit(
    name: &str,
    formers: &TextMap<Option<String>>,
    Ghost(services): Ghost<Map<Seq<char>, RawService>>,
    pending: &mut Vec<String>,
    out: &mut Vec<Migration>,
    fuel: usize,
) -> (r: Result<(), String>)
    requires
        tells_formers(formers@, services),
        formers@.contains_key(name@),
    ensures
        match extended(
            services,
            renames(old(out)@),
            merge::views(old(pending)@),
            name@,
            fuel as nat,
        ) {
            Ok(list) => r is Ok && renames(final(out)@) == list && final(pending)@ == old(pending)@,
            Err(at) => r matches Err(e) && e@ == at,
        },
    decreases fuel,
{
    if has_rename_to(out, name) {
        return Ok(());
    }
    if merge::holds(pending, name) {
        return Err(name.to_owned());
    }
    let old_name: &String = match formers.get(name) {
        Some(Some(o)) => o,
        _ => {
            return Ok(());
        },
    };
    let ghost waiting = pending@;
    if formers.contains_key(old_name.as_str()) {
        if fuel == 0 {
            return Err(name.to_owned());
        }
        pending.push(name.to_owned());
        assert(merge::views(pending@) =~= merge::views(waiting).push(name@));
        match visit(old_name.as_str(), formers, Ghost(services), pending, out, fuel - 1) {
            Ok(_) => {},
            Err(at) => {
                return Err(at);
            },
        }
        let _ = pending.pop();
        assert(pending@ =~= waiting);
    }
    let ghost before = out@;
    out.push(Migration { old_name: old_name.clone(), new_name: name.to_owned() });
    assert(renames(out@) =~= renames(before).push((old_name@, name@)));
    Ok(())
}

/// The former name of every service, by its name; nothing where a service
/// has no name.
fn collect_formers(services: &Vec<RawService>) -> (r: Option<TextMap<Option<String>>>)
    ensures
        match r {
            Some(m) => all_named(services@) && tells_formers(m@, merge::by_name(services@)),
            None => !all_named(services@),
        },
{
    let mut m: TextMap<Option<String>> = TextMap::new();
    assert(services@.take(0) =~= Seq::empty());
    assert(m@.dom() =~= merge::by_name(services@.take(0)).dom());
    for i in 0..services.len()
        invariant
            forall|j: int|
                0 <= j < i ==> merge::name_of(#[trigger] services@[j]) is Some,
            tells_formers(m@, merge::by_name(services@.take(i as int))),
    {
        let common: &RawServiceCommon = services[i].common();
        let name: String = match &common.name {
            Some(n) => n.clone(),
            None => {
                assert(merge::name_of(services@[i as int]) is None);
                return None;
            },
        };
        let former: Option<String> = match &common.migrate_from {
            Some(o) => Some(o.clone()),
            None => None,
        };
        let ghost before = m@;
        let _ = m.insert(name, former);
        proof {
            let upto = services@.take(i + 1);
            assert(upto.drop_last() =~= services@.take(i as int));
            assert(upto.last() == services@[i as int]);
            assert(m@.dom() =~= merge::by_name(upto).dom());
        }
    }
    assert(services@.take(services@.len() as int) =~= services@);
    Some(m)
}

/// The service without its former name.
pub open spec fn forgotten(s: RawService) -> RawService {
    s.with_shared((RawServiceCommon { migrate_from: None, ..s.shared() }))
}

/// Whether every service has a name.
pub open spec fn all_named(services: Seq<RawService>) -> bool {
    forall|i: int| 0 <= i < services.len() ==> merge::name_of(#[trigger] services[i]) is Some
}

/// Whether `r` and `out` come of collecting the renames of `services`.
pub open spec fn migration(
    services: Seq<RawService>,
    r: Result<Vec<Migration>, ExpectedError>,
    out: Seq<RawService>,
) -> bool {
    &&& if !all_named(services) {
        refused(r, "service without a name during migrate_from resolution"@)
    } else {
        match all_renames(merge::by_name(services)) {
            Ok(list) => r matches Ok(found) && renames(found@) == list,
            Err(at) => refused(r, "migrate_from cycle involving "@ + at),
        }
    }
    &&& match r {
        Ok(_) => out == services.map_values(|s: RawService| forgotten(s)),
        Err(_) => out == services,
    }
}

/// The renames the services ask for, each behind those it depends on, and in
/// order of names otherwise. The services then forget their former names. A
/// cycle, or a service without a name, is refused and leaves the config as
/// it was.
pub fn resolve_migrations(cfg: &mut RawConfig) -> (r: Result<Vec<Migration>, ExpectedError>)
    ensures
        migration(old(cfg).services@, r, final(cfg).services@),
{
    let formers: TextMap<Option<String>> = match collect_formers(&cfg.services) {
        Some(m) => m,
        None => {
            return Err(
                fail("service without a name during migrate_from resolution".to_owned()),
            );
        },
    };
    let ghost services = merge::by_name(cfg.services@);
    let n: usize = formers.len();
    let ghost names = text_map::ordered_keys(formers@);
    proof {
        assert forall|k: Seq<char>| #[trigger] services.contains_key(k) <==> names.contains(k) by {
            assert(formers@.contains_key(k) <==> names.contains(k));
        }
        text_map::lemma_ordered_keys(names, services);
    }
    let mut out: Vec<Migration> = Vec::new();
    assert(renames(out@) =~= Seq::empty());
    for i in 0..n
        invariant
            n == formers.pairs().len(),
            n == services.dom().len(),
            n == names.len(),
            names == Seq::new(n as nat, |i: int| formers.pairs()[i].0),
            names == text_map::ordered_keys(services),
            tells_formers(formers@, services),
            services == merge::by_name(old(cfg).services@),
            cfg.services@ == old(cfg).services@,
            all_named(old(cfg).services@),
            plan(services, names, i as nat) == Ok::<Seq<(Seq<char>, Seq<char>)>, Seq<char>>(
                renames(out@),
            ),
    {
        let mut pending: Vec<String> = Vec::new();
        assert(merge::views(pending@) =~= Seq::<Seq<char>>::empty());
        let _ = formers.value_at(i);
        match visit(formers.key_at(i), &formers, Ghost(services), &mut pending, &mut out, n) {
            Ok(_) => {},
            Err(at) => {
                proof {
                    lemma_plan_refused(services, names, (i + 1) as nat, n as nat, at@);
                }
                return Err(fail("migrate_from cycle involving ".to_owned().concat(at.as_str())));
            },
        }
    }
    let ghost before = cfg.services@;
    let count: usize = cfg.services.len();
    for i in 0..count
        invariant
            count == before.len(),
            cfg.services@.len() == before.len(),
            forall|j: int| 0 <= j < i ==> #[trigger] cfg.services@[j] == forgotten(before[j]),
            forall|j: int| i <= j < before.len() ==> #[trigger] cfg.services@[j] == before[j],
    {
        cfg.services[i].common_mut().migrate_from = None;
    }
    assert(cfg.services@ =~= before.map_values(|s: RawService| forgotten(s)));
    Ok(out)
}

/// Whether `r` refuses the config for the reason `fault`.
pub open spec fn refused(r: Result<Vec<Migration>, ExpectedError>, fault: Seq<char>) -> bool {
    r matches Err(e) && error::rejects(e, fault)
}

proof fn lemma_plan_refused(
    services: Map<Seq<char>, RawService>,
    names: Seq<Seq<char>>,
    n: nat,
    more: nat,
    at: Seq<char>,
)
    requires
        n <= more,
        plan(services, names, n) == Err::<Seq<(Seq<char>, Seq<char>)>, Seq<char>>(at),
    ensures
        plan(services, names, more) == Err::<Seq<(Seq<char>, Seq<char>)>, Seq<char>>(at),
    decreases more,
{
    if n < more {
        lemma_plan_refused(services, names, n, (more - 1) as nat, at);
    }
}

/// Whether `list` holds only renames that the services ask for, each once
/// and each behind the rename of the service it takes its old name from.
pub open spec fn orderly(
    services: Map<Seq<char>, RawService>,
    list: Seq<(Seq<char>, Seq<char>)>,
) -> bool {
    &&& forall|i: int, j: int|
        0 <= i < j < list.len() ==> (#[trigger] list[i]).1 != (#[trigger] list[j]).1
    &&& forall|i: int|
        0 <= i < list.len() ==> services.contains_key((#[trigger] list[i]).1) && former_name(
            services[list[i].1],
        ) == Some(list[i].0)
    &&& forall|j: int|
        0 <= j < list.len() && services.contains_key((#[trigger] list[j]).0) && former_name(
            services[list[j].0],
        ) is Some ==> renames_to(list.take(j), list[j].0)
}

proof fn lemma_extended_orderly(
    services: Map<Seq<char>, RawService>,
    list: Seq<(Seq<char>, Seq<char>)>,
    pending: Seq<Seq<char>>,
    name: Seq<char>,
    fuel: nat,
)
    requires
        orderly(services, list),
        services.contains_key(name),
    ensures
        extended(services, list, pending, name, fuel) matches Ok(out) ==> {
            &&& orderly(services, out)
            &&& list.is_prefix_of(out)
            &&& former_name(services[name]) is Some ==> renames_to(out, name)
            &&& forall|k: Seq<char>|
                pending.contains(k) && !renames_to(list, k) ==> !#[trigger] renames_to(out, k)
        },
    decreases fuel,
{
    if let Ok(out) = extended(services, list, pending, name, fuel) {
        if !renames_to(list, name) && !pending.contains(name) {
            if let Some(old_name) = former_name(services[name]) {
                let before = if services.contains_key(old_name) {
                    lemma_extended_orderly(
                        services,
                        list,
                        pending.push(name),
                        old_name,
                        (fuel - 1) as nat,
                    );
                    assert(pending.push(name)[pending.len() as int] == name);
                    assert forall|k: Seq<char>| pending.contains(k) implies pending.push(
                        name,
                    ).contains(k) by {
                        let i = pending.index_of(k);
                        assert(pending.push(name)[i] == k);
                    }
                    extended(services, list, pending.push(name), old_name, (fuel - 1) as nat)->Ok_0
                } else {
                    list
                };
                assert(out == before.push((old_name, name)));
                lemma_pushed_orderly(services, before, old_name, name);
                assert(out[before.len() as int].1 == name);
                assert forall|k: Seq<char>|
                    pending.contains(k) && !renames_to(list, k) implies !#[trigger] renames_to(
                    out,
                    k,
                ) by {
                    assert(!renames_to(before, k));
                    if renames_to(out, k) {
                        let i = choose|i: int| 0 <= i < out.len() && (#[trigger] out[i]).1 == k;
                        if i < before.len() {
                            assert(before[i] == out[i]);
                        }
                    }
                }
            }
        }
    }
}

proof fn lemma_pushed_orderly(
    services: Map<Seq<char>, RawService>,
    before: Seq<(Seq<char>, Seq<char>)>,
    old_name: Seq<char>,
    name: Seq<char>,
)
    requires
        orderly(services, before),
        services.contains_key(name),
        former_name(services[name]) == Some(old_name),
        !renames_to(before, name),
        services.contains_key(old_name) && former_name(services[old_name]) is Some ==> renames_to(
            before,
            old_name,
        ),
    ensures
        orderly(services, before.push((old_name, name))),
{
    let out = before.push((old_name, name));
    assert forall|i: int, j: int| 0 <= i < j < out.len() implies (#[trigger] out[i]).1 != (
    #[trigger] out[j]).1 by {
        assert(out[i] == before[i]);
        if j < before.len() {
            assert(out[j] == before[j]);
        }
    }
    assert forall|j: int|
        0 <= j < out.len() && services.contains_key((#[trigger] out[j]).0) && former_name(
            services[out[j].0],
        ) is Some implies renames_to(out.take(j), out[j].0) by {
        if j < before.len() {
            assert(out[j] == before[j]);
            assert(out.take(j) =~= before.take(j));
        } else {
            assert(out.take(j) =~= before);
        }
    }
}

proof fn lemma_plan_orderly(
    services: Map<Seq<char>, RawService>,
    names: Seq<Seq<char>>,
    n: nat,
)
    requires
        n <= names.len(),
        forall|i: int| 0 <= i < names.len() ==> services.contains_key(#[trigger] names[i]),
    ensures
        plan(services, names, n) matches Ok(out) ==> {
            &&& orderly(services, out)
            &&& forall|i: int|
                0 <= i < n && former_name(services[#[trigger] names[i]]) is Some ==> renames_to(
                    out,
                    names[i],
                )
        },
    decreases n,
{
    if n > 0 {
        let less = (n - 1) as nat;
        lemma_plan_orderly(services, names, less);
        if let Ok(list) = plan(services, names, less) {
            lemma_extended_orderly(
                services,
                list,
                Seq::empty(),
                names[n - 1],
                services.dom().len(),
            );
            if let Ok(out) = plan(services, names, n) {
                assert forall|i: int|
                    0 <= i < n && former_name(services[#[trigger] names[i]])
                        is Some implies renames_to(out, names[i]) by {
                    if i < less {
                        let j = choose|j: int|
                            0 <= j < list.len() && (#[trigger] list[j]).1 == names[i];
                        assert(out[j] == list[j]);
                    }
                }
            }
        }
    }
}

/// Sources come before dependents: where one rename gives a service the name
/// that another takes away, it stands first. Each service with a former name
/// is renamed exactly once, from that name, and no other service is.
pub proof fn lemma_sources_before_dependents(
    services: Map<Seq<char>, RawService>,
    list: Seq<(Seq<char>, Seq<char>)>,
)
    requires
        services.dom().finite(),
        all_renames(services) == Ok::<Seq<(Seq<char>, Seq<char>)>, Seq<char>>(list),
    ensures
        forall|i: int, j: int|
            0 <= i < list.len() && 0 <= j < list.len() && (#[trigger] list[i]).1 == (
            #[trigger] list[j]).0 ==> i < j,
        forall|i: int, j: int|
            0 <= i < j < list.len() ==> (#[trigger] list[i]).1 != (#[trigger] list[j]).1,
        forall|k: Seq<char>|
            #![trigger renames_to(list, k)]
            renames_to(list, k) <==> services.contains_key(k) && former_name(services[k]) is Some,
        forall|i: int|
            0 <= i < list.len() ==> former_name(services[(#[trigger] list[i]).1]) == Some(
                list[i].0,
            ),
{
    text_map::lemma_keys_listed(services);
    let names = text_map::ordered_keys(services);
    assert forall|i: int| 0 <= i < names.len() implies services.contains_key(
        #[trigger] names[i],
    ) by {
        assert(names.contains(names[i]));
    }
    lemma_plan_orderly(services, names, names.len());
    assert forall|k: Seq<char>|
        #![trigger renames_to(list, k)]
        services.contains_key(k) && former_name(services[k]) is Some implies renames_to(
        list,
        k,
    ) by {
        assert(names.contains(k));
        let i = names.index_of(k);
        assert(names[i] == k);
    }
    assert forall|i: int, j: int|
        0 <= i < list.len() && 0 <= j < list.len() && (#[trigger] list[i]).1 == (
        #[trigger] list[j]).0 implies i < j by {
        assert(former_name(services[list[j].0]) is Some);
        let front = list.take(j);
        assert(renames_to(front, list[j].0));
        let x = choose|x: int| 0 <= x < front.len() && (#[trigger] front[x]).1 == list[j].0;
        assert(front[x] == list[x]);
        assert(list[x].1 == list[i].1);
    }
}

/// The service that following the former name of `name` through the
/// configured services leads to, after `steps` such names. Nothing where it
/// ends before.
pub open spec fn followed(
    services: Map<Seq<char>, RawService>,
    name: Seq<char>,
    steps: nat,
) -> Option<Seq<char>>
    decreases steps,
{
    if steps == 0 {
        Some(name)
    } else {
        match followed(services, name, (steps - 1) as nat) {
            Some(at) => match former_name(services[at]) {
                Some(old_name) => if services.contains_key(old_name) {
                    Some(old_name)
                } else {
                    None
                },
                None => None,
            },
            None => None,
        }
    }
}

/// Whether following former names from the service `name` leads back to it.
pub open spec fn leads_back(services: Map<Seq<char>, RawService>, name: Seq<char>) -> bool {
    &&& services.contains_key(name)
    &&& exists|steps: nat| steps > 0 && #[trigger] followed(services, name, steps) == Some(name)
}

/// Whether following former names leads some service back to itself.
pub open spec fn has_cycle(services: Map<Seq<char>, RawService>) -> bool {
    exists|name: Seq<char>| #[trigger] leads_back(services, name)
}

/// Whether each of the `pending` services had the name of the next, and the
/// last of them `name`.
spec fn is_chain(
    services: Map<Seq<char>, RawService>,
    pending: Seq<Seq<char>>,
    name: Seq<char>,
) -> bool {
    forall|i: int|
        0 <= i < pending.len() ==> services.contains_key(#[trigger] pending[i]) && former_name(
            services[pending[i]],
        ) == Some(pending.push(name)[i + 1])
}

proof fn lemma_chain_followed(
    services: Map<Seq<char>, RawService>,
    pending: Seq<Seq<char>>,
    name: Seq<char>,
    i: int,
    steps: nat,
)
    requires
        is_chain(services, pending, name),
        services.contains_key(name),
        0 <= i,
        i + steps <= pending.len(),
    ensures
        followed(services, pending.push(name)[i], steps) == Some(pending.push(name)[i + steps]),
    decreases steps,
{
    if steps > 0 {
        lemma_chain_followed(services, pending, name, i, (steps - 1) as nat);
        let at = i + steps - 1;
        assert(pending.push(name)[at] == pending[at]);
        if at + 1 < pending.len() {
            assert(services.contains_key(pending[at + 1]));
        }
    }
}

proof fn lemma_extended_refused(
    services: Map<Seq<char>, RawService>,
    list: Seq<(Seq<char>, Seq<char>)>,
    pending: Seq<Seq<char>>,
    name: Seq<char>,
    fuel: nat,
)
    requires
        services.dom().finite(),
        services.contains_key(name),
        pending.no_duplicates(),
        is_chain(services, pending, name),
        pending.len() + fuel >= services.dom().len(),
    ensures
        extended(services, list, pending, name, fuel) matches Err(at) ==> leads_back(services, at),
    decreases fuel,
{
    if !renames_to(list, name) {
        if pending.contains(name) {
            let i = pending.index_of(name);
            let steps = (pending.len() - i) as nat;
            lemma_chain_followed(services, pending, name, i, steps);
            assert(followed(services, name, steps) == Some(name));
        } else if let Some(old_name) = former_name(services[name]) {
            if services.contains_key(old_name) {
                if fuel == 0 {
                    merge::lemma_all_below(services, pending, name);
                } else {
                    let longer = pending.push(name);
                    assert forall|i: int| 0 <= i < longer.len() implies services.contains_key(
                        #[trigger] longer[i],
                    ) && former_name(services[longer[i]]) == Some(
                        longer.push(old_name)[i + 1],
                    ) by {
                        if i < pending.len() {
                            assert(services.contains_key(pending[i]));
                        }
                    }
                    lemma_extended_refused(
                        services,
                        list,
                        longer,
                        old_name,
                        (fuel - 1) as nat,
                    );
                }
            }
        }
    }
}

proof fn lemma_plan_cycle(
    services: Map<Seq<char>, RawService>,
    names: Seq<Seq<char>>,
    n: nat,
)
    requires
        services.dom().finite(),
        n <= names.len(),
        forall|i: int| 0 <= i < names.len() ==> services.contains_key(#[trigger] names[i]),
    ensures
        plan(services, names, n) matches Err(at) ==> leads_back(services, at),
    decreases n,
{
    if n > 0 {
        lemma_plan_cycle(services, names, (n - 1) as nat);
        if let Ok(list) = plan(services, names, (n - 1) as nat) {
            lemma_extended_refused(
                services,
                list,
                Seq::empty(),
                names[n - 1],
                services.dom().len(),
            );
        }
    }
}

proof fn lemma_follow_starts(services: Map<Seq<char>, RawService>, name: Seq<char>, steps: nat)
    requires
        steps > 0,
        followed(services, name, steps) is Some,
    ensures
        former_name(services[name]) is Some,
    decreases steps,
{
    if steps > 1 {
        lemma_follow_starts(services, name, (steps - 1) as nat);
    } else {
        assert(followed(services, name, 0) == Some(name));
    }
}

/// Where all renames are in order, each name that is followed to and is
/// itself a new name has its rename before that of the start.
proof fn lemma_followed_earlier(
    services: Map<Seq<char>, RawService>,
    list: Seq<(Seq<char>, Seq<char>)>,
    j: int,
    steps: nat,
) -> (x: int)
    requires
        services.dom().finite(),
        all_renames(services) == Ok::<Seq<(Seq<char>, Seq<char>)>, Seq<char>>(list),
        0 <= j < list.len(),
        followed(services, list[j].1, steps) matches Some(at) && former_name(services[at]) is Some,
        services.contains_key(list[j].1),
    ensures
        0 <= x <= j,
        steps > 0 ==> x < j,
        Some(list[x].1) == followed(services, list[j].1, steps),
    decreases steps,
{
    if steps == 0 {
        j
    } else {
        lemma_sources_before_dependents(services, list);
        let less = (steps - 1) as nat;
        let y = lemma_followed_earlier(services, list, j, less);
        let at = followed(services, list[j].1, steps)->0;
        assert(list[y].0 == at);
        assert(renames_to(list, at));
        let x = choose|x: int| 0 <= x < list.len() && (#[trigger] list[x]).1 == at;
        assert(list[x].1 == list[y].0);
        x
    }
}

/// The renames are refused exactly where following former names through the
/// configured services leads some service back to itself, and the refusal
/// names such a service.
pub proof fn lemma_refused_iff_cycle(services: Map<Seq<char>, RawService>)
    requires
        services.dom().finite(),
    ensures
        all_renames(services) is Err <==> has_cycle(services),
        all_renames(services) matches Err(at) ==> leads_back(services, at),
{
    text_map::lemma_keys_listed(services);
    let names = text_map::ordered_keys(services);
    assert forall|i: int| 0 <= i < names.len() implies services.contains_key(
        #[trigger] names[i],
    ) by {
        assert(names.contains(names[i]));
    }
    lemma_plan_cycle(services, names, names.len());
    if let Ok(list) = all_renames(services) {
        if has_cycle(services) {
            let name = choose|name: Seq<char>| #[trigger] leads_back(services, name);
            let steps = choose|steps: nat|
                steps > 0 && #[trigger] followed(services, name, steps) == Some(name);
            lemma_follow_starts(services, name, steps);
            lemma_sources_before_dependents(services, list);
            assert(renames_to(list, name));
            let j = choose|j: int| 0 <= j < list.len() && (#[trigger] list[j]).1 == name;
            let x = lemma_followed_earlier(services, list, j, steps);
            assert(list[x].1 == list[j].1);
        }
    }
}

/// `resolve_migrations` refuses a config exactly where a service has no
/// name, or following `migrate_from` through the configured services leads
/// from one of them back to it. A former name that no service has is no
/// reason to refuse.
pub proof fn lemma_migrations_refused(
    services: Seq<RawService>,
    r: Result<Vec<Migration>, ExpectedError>,
    out: Seq<RawService>,
)
    requires
        migration(services, r, out),
    ensures
        r is Err <==> !all_named(services) || has_cycle(merge::by_name(services)),
{
    merge::lemma_by_name_len(services);
    lemma_refused_iff_cycle(merge::by_name(services));
}

/// What the renames are, once they are accepted: each from the former name
/// that a service writes to that service's own, one for every service that
/// writes one, and a name is vacated before another service takes it. Every
/// service then writes no former name, and is unchanged otherwise.
pub proof fn lemma_renames_told(
    services: Seq<RawService>,
    found: Vec<Migration>,
    out: Seq<RawService>,
)
    requires
        migration(services, Ok(found), out),
    ensures
        forall|i: int|
            0 <= i < found@.len() ==> exists|k: int|
                0 <= k < services.len() && writes(
                    #[trigger] services[k],
                    (#[trigger] found@[i]).new_name@,
                    found@[i].old_name@,
                ),
        forall|name: Seq<char>| #[trigger]
            merge::by_name(services).contains_key(name) && merge::by_name(
                services,
            )[name].shared().migrate_from is Some ==> exists|i: int|
                0 <= i < found@.len() && (#[trigger] found@[i]).new_name@ == name,
        forall|i: int, j: int|
            0 <= i < found@.len() && 0 <= j < found@.len() && (#[trigger] found@[i]).new_name@ == (
            #[trigger] found@[j]).old_name@ ==> i < j,
        out.len() == services.len(),
        forall|k: int|
            0 <= k < out.len() ==> (#[trigger] out[k]).shared().migrate_from is None && out[k]
                == services[k].with_shared(
                (RawServiceCommon { migrate_from: None, ..services[k].shared() }),
            ),
{
    let source = merge::by_name(services);
    let list = renames(found@);
    merge::lemma_by_name_len(services);
    lemma_sources_before_dependents(source, list);
    assert forall|i: int| 0 <= i < found@.len() implies exists|k: int|
        0 <= k < services.len() && writes(
            #[trigger] services[k],
            (#[trigger] found@[i]).new_name@,
            found@[i].old_name@,
        ) by {
        assert(list[i] == (found@[i].old_name@, found@[i].new_name@));
        let name = list[i].1;
        assert(renames_to(list, name));
        merge::lemma_by_name(services, name);
        let k = choose|k: int|
            0 <= k < services.len() && #[trigger] services[k] == source[name] && merge::name_of(
                services[k],
            ) == Some(name);
        assert(former_name(source[name]) == Some(list[i].0));
        assert(writes(services[k], found@[i].new_name@, found@[i].old_name@));
    }
    assert forall|name: Seq<char>| #[trigger]
        source.contains_key(name) && source[name].shared().migrate_from is Some implies exists|
        i: int,
    | 0 <= i < found@.len() && (#[trigger] found@[i]).new_name@ == name by {
        assert(former_name(source[name]) is Some);
        assert(renames_to(list, name));
        let i = choose|i: int| 0 <= i < list.len() && (#[trigger] list[i]).1 == name;
        assert(found@[i].new_name@ == name);
    }
    assert forall|i: int, j: int|
        0 <= i < found@.len() && 0 <= j < found@.len() && (#[trigger] found@[i]).new_name@ == (
        #[trigger] found@[j]).old_name@ implies i < j by {
        assert(list[i].1 == list[j].0);
    }
}

/// Whether a service of the name `name` writes the former name `old_name`.
pub open spec fn writes(s: RawService, name: Seq<char>, old_name: Seq<char>) -> bool {
    &&& s.shared().name matches Some(n) && n@ == name
    &&& s.shared().migrate_from matches Some(o) && o@ == old_name
}

/// Renames that are refused leave the services as they were, and the
/// operator reads why: a service has no name, or a name on a cycle.
pub proof fn lemma_refused_renames_told(
    services: Seq<RawService>,
    e: ExpectedError,
    out: Seq<RawService>,
)
    requires
        migration(services, Err(e), out),
    ensures
        out == services,
        (exists|i: int|
            0 <= i < services.len() && (#[trigger] services[i]).shared().name is None)
            ==> error::rejects(e, "service without a name during migrate_from resolution"@),
        (forall|i: int|
            0 <= i < services.len() ==> (#[trigger] services[i]).shared().name is Some) ==> exists|
            at: Seq<char>,
        |
            leads_back(merge::by_name(services), at) && error::rejects(
                e,
                #[trigger] ("migrate_from cycle involving "@ + at),
            ),
{
    merge::lemma_by_name_len(services);
    lemma_refused_iff_cycle(merge::by_name(services));
    if forall|i: int| 0 <= i < services.len() ==> (#[trigger] services[i]).shared().name is Some {
        assert forall|i: int| 0 <= i < services.len() implies merge::name_of(
            #[trigger] services[i],
        ) is Some by {
            assert(services[i].shared().name is Some);
        }
        assert(all_named(services));
        let at = all_renames(merge::by_name(services))->Err_0;
        assert(error::rejects(e, "migrate_from cycle involving "@ + at));
    }
    if exists|i: int| 0 <= i < services.len() && (#[trigger] services[i]).shared().name is None {
        let i = choose|i: int|
            0 <= i < services.len() && (#[trigger] services[i]).shared().name is None;
        assert(merge::name_of(services[i]) is None);
        assert(!all_named(services));
    }
}

} // verus!
