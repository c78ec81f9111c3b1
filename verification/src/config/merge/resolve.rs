//! Chains of services that extend each other.

use crate::config::error;
use crate::config::error::{fail, ExpectedError};
use crate::config::merge;
use crate::config::merge::fields;
use crate::config::merge::fields::merge_service;
use crate::config::raw;
use crate::config::raw::{RawConfig, RawService};
use crate::text;
use crate::text_map;
use crate::text_map::TextMap;
use vstd::prelude::*;
use vstd::string::*;

verus! {

/// The name of the service that `s` extends.
pub open spec fn parent_of(s: RawService) -> Option<Seq<char>> {
    merge::text_of(s.shared().extends)
}

/// The first service, from position `i` on, without a name or with the name
/// of an earlier one, and what is wrong with it.
pub open spec fn naming_fault(services: Seq<RawService>, i: int) -> Option<Seq<char>>
    decreases services.len() - i,
{
    if i < 0 || i >= services.len() {
        None
    } else {
        match merge::name_of(services[i]) {
            None => Some("service block missing name"@),
            Some(n) => if exists|j: int|
                0 <= j < i && merge::name_of(#[trigger] services[j]) == Some(n) {
                Some("duplicate service name: "@ + n)
            } else {
                naming_fault(services, i + 1)
            },
        }
    }
}

/// What is wrong with the chain of services that `name` extends, where the
/// services `below` are already on it. A fault further up the chain comes
/// before a template that does not match. A chain that is not cyclic has no
/// more than `fuel` links where `fuel` and `below` make up for all services.
pub open spec fn chain_fault(
    source: Map<Seq<char>, RawService>,
    below: Seq<Seq<char>>,
    name: Seq<char>,
    fuel: nat,
) -> Option<Seq<char>>
    decreases fuel,
{
    if below.contains(name) {
        Some("extends cycle involving service "@ + name)
    } else {
        match parent_of(source[name]) {
            None => None,
            Some(parent) => if !source.contains_key(parent) {
                Some("service "@ + name + " extends "@ + parent + " which does not exist"@)
            } else if fuel == 0 {
                None
            } else {
                match chain_fault(source, below.push(name), parent, (fuel - 1) as nat) {
                    Some(fault) => Some(fault),
                    None => if fields::same_template(source[parent], source[name]) {
                        None
                    } else {
                        Some(fields::template_complaint(name, source[name], source[parent]))
                    },
                }
            },
        }
    }
}

/// What is wrong with the chain that starts at `name`.
pub open spec fn fault_of(source: Map<Seq<char>, RawService>, name: Seq<char>) -> Option<
    Seq<char>,
> {
    chain_fault(source, Seq::empty(), name, source.dom().len())
}

/// Whether `name` is the first service, in order of names, whose chain is
/// faulty.
pub open spec fn first_faulty(source: Map<Seq<char>, RawService>, name: Seq<char>) -> bool {
    &&& source.contains_key(name)
    &&& fault_of(source, name) is Some
    &&& forall|other: Seq<char>|
        source.contains_key(other) && text::precedes(other, name) ==> #[trigger] fault_of(
            source,
            other,
        ) is None
}

/// Whether the chain that starts at `name` ends, after at most `fuel` links,
/// and has one template throughout.
pub open spec fn sound(source: Map<Seq<char>, RawService>, name: Seq<char>, fuel: nat) -> bool
    decreases fuel,
{
    source.contains_key(name) && match parent_of(source[name]) {
        None => true,
        Some(parent) => fuel > 0 && source.contains_key(parent) && fields::same_template(
            source[parent],
            source[name],
        ) && sound(source, parent, (fuel - 1) as nat),
    }
}

/// How many links the chain that starts at `name` has.
spec fn depth(source: Map<Seq<char>, RawService>, name: Seq<char>, fuel: nat) -> nat
    decreases fuel,
{
    match parent_of(source[name]) {
        Some(parent) => if fuel > 0 {
            1 + depth(source, parent, (fuel - 1) as nat)
        } else {
            0
        },
        None => 0,
    }
}

proof fn lemma_depth(
    source: Map<Seq<char>, RawService>,
    name: Seq<char>,
    less: nat,
    more: nat,
)
    requires
        sound(source, name, less),
        less <= more,
    ensures
        sound(source, name, more),
        depth(source, name, more) == depth(source, name, less),
    decreases less,
{
    if let Some(parent) = parent_of(source[name]) {
        lemma_depth(source, parent, (less - 1) as nat, (more - 1) as nat);
    }
}

proof fn lemma_sound(
    source: Map<Seq<char>, RawService>,
    below: Seq<Seq<char>>,
    name: Seq<char>,
    fuel: nat,
)
    requires
        source.dom().finite(),
        below.no_duplicates(),
        forall|i: int| 0 <= i < below.len() ==> source.contains_key(#[trigger] below[i]),
        below.len() + fuel >= source.dom().len(),
        source.contains_key(name),
        chain_fault(source, below, name, fuel) is None,
    ensures
        sound(source, name, fuel),
    decreases fuel,
{
    if let Some(parent) = parent_of(source[name]) {
        if fuel == 0 {
            merge::lemma_all_below(source, below, name);
        } else {
            lemma_sound(source, below.push(name), parent, (fuel - 1) as nat);
        }
    }
}

/// Whether `out` is what the services in `source` resolve to: each once, in
/// order of names, as it stands where it extends nothing, and else merged
/// with what its parent resolves to.
pub open spec fn resolution(out: Seq<RawService>, source: Map<Seq<char>, RawService>) -> bool {
    let names = text_map::ordered_keys(source);
    &&& out.len() == names.len()
    &&& forall|i: int| 0 <= i < out.len() ==> #[trigger] settled(out, source, i)
}

/// Whether the service at position `i` of `out` is resolved.
pub open spec fn settled(
    out: Seq<RawService>,
    source: Map<Seq<char>, RawService>,
    i: int,
) -> bool {
    let names = text_map::ordered_keys(source);
    let own = source[names[i]];
    match parent_of(own) {
        None => raw::service_kept(own, out[i]),
        Some(parent) => exists|j: int|
            0 <= j < out.len() && names[j] == parent && fields::service_merged(
                out[i],
                #[trigger] out[j],
                own,
            ),
    }
}

/// Whether the entry of `name` in `resolved` is what it resolves to.
spec fn entry_settled(
    resolved: Map<Seq<char>, RawService>,
    source: Map<Seq<char>, RawService>,
    name: Seq<char>,
) -> bool {
    &&& source.contains_key(name)
    &&& fields::same_template(resolved[name], source[name])
    &&& match parent_of(source[name]) {
        None => raw::service_kept(source[name], resolved[name]),
        Some(parent) => resolved.contains_key(parent) && fields::service_merged(
            resolved[name],
            resolved[parent],
            source[name],
        ),
    }
}

spec fn all_settled(
    resolved: Map<Seq<char>, RawService>,
    source: Map<Seq<char>, RawService>,
) -> bool {
    forall|k: Seq<char>| #[trigger] resolved.contains_key(k) ==> entry_settled(resolved, source, k)
}

fn find_chain_fault(
    source: &TextMap<RawService>,
    below: &mut Vec<String>,
    name: &str,
    fuel: usize,
) -> (r: Option<String>)
    requires
        source@.contains_key(name@),
    ensures
        merge::text_of(r) == chain_fault(source@, merge::views(old(below)@), name@, fuel as nat),
        r is None ==> final(below)@ == old(below)@,
    decreases fuel,
{
    if merge::holds(below, name) {
        return Some("extends cycle involving service ".to_owned().concat(name));
    }
    let own: &RawService = match source.get(name) {
        Some(s) => s,
        None => {
            return None;
        },
    };
    let parent: &str = match &own.common().extends {
        Some(p) => p.as_str(),
        None => {
            return None;
        },
    };
    let above: &RawService = match source.get(parent) {
        Some(s) => s,
        None => {
            return Some(
                "service ".to_owned().concat(name).concat(" extends ").concat(parent).concat(
                    " which does not exist",
                ),
            );
        },
    };
    if fuel == 0 {
        return None;
    }
    let ghost start = below@;
    below.push(name.to_owned());
    assert(merge::views(below@) =~= merge::views(start).push(name@));
    match find_chain_fault(source, below, parent, fuel - 1) {
        Some(fault) => Some(fault),
        None => {
            let _ = below.pop();
            assert(below@ =~= start);
            if fields::is_same_template(above, own) {
                None
            } else {
                Some(fields::cross_template(name, own, above))
            }
        },
    }
}

fn resolve_one(
    name: &str,
    source: &TextMap<RawService>,
    resolved: &mut TextMap<RawService>,
    fuel: usize,
)
    requires
        sound(source@, name@, fuel as nat),
        all_settled(old(resolved)@, source@),
    ensures
        final(resolved)@.contains_key(name@),
        grown(old(resolved)@, final(resolved)@, source@, name@, fuel as nat),
    decreases fuel,
{
    if resolved.contains_key(name) {
        return ;
    }
    let ghost start = resolved@;
    let own: &RawService = match source.get(name) {
        Some(s) => s,
        None => {
            return ;
        },
    };
    let merged: RawService = match &own.common().extends {
        None => own.clone(),
        Some(parent_name) => {
            resolve_one(parent_name.as_str(), source, resolved, fuel - 1);
            proof {
                lemma_grown_child(start, resolved@, source@, name@, fuel as nat);
            }
            match resolved.get(parent_name.as_str()) {
                Some(parent) => match merge_service(parent, own, name) {
                    Ok(m) => m,
                    Err(_) => {
                        return ;
                    },
                },
                None => {
                    return ;
                },
            }
        },
    };
    let ghost before = resolved@;
    let _ = resolved.insert(name.to_owned(), merged);
    proof {
        lemma_settled_insert(before, source@, name@, merged);
        assert(grown(start, resolved@, source@, name@, fuel as nat));
    }
}

/// Whether `after` is `before` with settled entries added, all of services on
/// the chain that starts at `name`.
spec fn grown(
    before: Map<Seq<char>, RawService>,
    after: Map<Seq<char>, RawService>,
    source: Map<Seq<char>, RawService>,
    name: Seq<char>,
    fuel: nat,
) -> bool {
    &&& all_settled(after, source)
    &&& forall|k: Seq<char>| #[trigger]
        before.contains_key(k) ==> after.contains_key(k) && after[k] == before[k]
    &&& forall|k: Seq<char>| #[trigger]
        after.contains_key(k) && !before.contains_key(k) ==> sound(source, k, fuel) && depth(
            source,
            k,
            fuel,
        ) <= depth(source, name, fuel)
}

/// Resolving the parent of a service does not resolve the service itself.
proof fn lemma_grown_child(
    before: Map<Seq<char>, RawService>,
    after: Map<Seq<char>, RawService>,
    source: Map<Seq<char>, RawService>,
    name: Seq<char>,
    fuel: nat,
)
    requires
        !before.contains_key(name),
        sound(source, name, fuel),
        fuel > 0,
        parent_of(source[name]) matches Some(parent) && grown(
            before,
            after,
            source,
            parent,
            (fuel - 1) as nat,
        ),
    ensures
        !after.contains_key(name),
        grown(before, after, source, name, fuel),
{
    let less = (fuel - 1) as nat;
    let parent = parent_of(source[name])->0;
    lemma_depth(source, parent, less, fuel);
    if after.contains_key(name) {
        lemma_depth(source, name, less, fuel);
    }
    assert forall|k: Seq<char>| #[trigger]
        after.contains_key(k) && !before.contains_key(k) implies sound(source, k, fuel) && depth(
        source,
        k,
        fuel,
    ) <= depth(source, name, fuel) by {
        lemma_depth(source, k, less, fuel);
    }
}

/// Adding a settled entry under a new name keeps all others settled.
proof fn lemma_settled_insert(
    before: Map<Seq<char>, RawService>,
    source: Map<Seq<char>, RawService>,
    name: Seq<char>,
    merged: RawService,
)
    requires
        all_settled(before, source),
        !before.contains_key(name),
        entry_settled(before.insert(name, merged), source, name),
    ensures
        all_settled(before.insert(name, merged), source),
{
    let after = before.insert(name, merged);
    assert forall|k: Seq<char>| #[trigger] after.contains_key(k) implies entry_settled(
        after,
        source,
        k,
    ) by {
        if k != name {
            assert(before.contains_key(k));
            assert(entry_settled(before, source, k));
            if let Some(parent) = parent_of(source[k]) {
                assert(parent != name);
            }
        }
    }
}

/// Services by name, or what is wrong with their names.
fn index_services(services: Vec<RawService>) -> (r: Result<TextMap<RawService>, String>)
    ensures
        match r {
            Ok(m) => naming_fault(services@, 0) is None && m@ == merge::by_name(services@),
            Err(fault) => naming_fault(services@, 0) == Some(fault@),
        },
{
    let ghost all = services@;
    let mut rest: Vec<RawService> = services;
    let mut m: TextMap<RawService> = TextMap::new();
    let ghost mut done: int = 0;
    proof {
        assert(all.take(0) =~= Seq::empty());
        assert(all.skip(0) =~= all);
    }
    while rest.len() > 0
        invariant
            all == services@,
            0 <= done <= all.len(),
            rest@ == all.skip(done),
            m@ == merge::by_name(all.take(done)),
            naming_fault(all, 0) == naming_fault(all, done),
        decreases rest@.len(),
    {
        let s: RawService = rest.remove(0);
        assert(s == all[done]);
        let name: String = match &s.common().name {
            Some(n) => n.clone(),
            None => {
                return Err("service block missing name".to_owned());
            },
        };
        proof {
            let before = all.take(done);
            merge::lemma_by_name(before, name@);
            if exists|j: int|
                0 <= j < done && merge::name_of(#[trigger] all[j]) == Some(name@) {
                let j = choose|j: int|
                    0 <= j < done && merge::name_of(#[trigger] all[j]) == Some(name@);
                assert(before[j] == all[j]);
            }
            if m@.contains_key(name@) {
                let j = choose|j: int|
                    0 <= j < before.len() && merge::name_of(#[trigger] before[j]) == Some(name@);
                assert(all[j] == before[j]);
            }
            assert(all.take(done + 1).drop_last() =~= before);
            assert(all.take(done + 1).last() == s);
        }
        if m.insert(name.clone(), s).is_some() {
            return Err("duplicate service name: ".to_owned().concat(name.as_str()));
        }
        proof {
            done = done + 1;
            assert(rest@ =~= all.skip(done));
        }
    }
    assert(all.take(done) =~= all);
    Ok(m)
}

/// Whether `out` and `r` come of resolving `services`.
pub open spec fn inheritance(
    services: Seq<RawService>,
    r: Result<(), ExpectedError>,
    out: Seq<RawService>,
) -> bool {
    let source = merge::by_name(services);
    match naming_fault(services, 0) {
        Some(fault) => refused(r, fault) && out.len() == 0,
        None => match r {
            Ok(_) => {
                &&& forall|k: Seq<char>|
                    source.contains_key(k) ==> #[trigger] fault_of(source, k) is None
                &&& resolution(out, source)
            },
            Err(e) => {
                &&& exists|k: Seq<char>| #[trigger]
                    first_faulty(source, k) && error::rejects(e, fault_of(source, k)->0)
                &&& out.len() == 0
            },
        },
    }
}

/// Replaces every service by what it resolves to: itself where it extends
/// nothing, and else itself with what it lacks taken from its resolved
/// parent. The services come out in order of their names; a config that is
/// refused comes out without services.
pub fn resolve_inheritance(cfg: &mut RawConfig) -> (r: Result<(), ExpectedError>)
    ensures
        inheritance(old(cfg).services@, r, final(cfg).services@),
{
    let mut services: Vec<RawService> = Vec::new();
    std::mem::swap(&mut services, &mut cfg.services);
    let source: TextMap<RawService> = match index_services(services) {
        Ok(m) => m,
        Err(fault) => {
            return Err(fail(fault));
        },
    };
    let n: usize = source.len();
    let ghost names = text_map::ordered_keys(source@);
    for i in 0..n
        invariant
            n == source.pairs().len(),
            n == source@.dom().len(),
            source@ == merge::by_name(old(cfg).services@),
            naming_fault(old(cfg).services@, 0) is None,
            text_map::ascending(source.pairs()),
            text_map::lists_keys(names, source@),
            names == Seq::new(n as nat, |i: int| source.pairs()[i].0),
            cfg.services@.len() == 0,
            forall|j: int| 0 <= j < i ==> fault_of(source@, #[trigger] names[j]) is None,
    {
        let mut below: Vec<String> = Vec::new();
        let _ = source.value_at(i);
        assert(merge::views(below@) =~= Seq::<Seq<char>>::empty());
        if let Some(fault) = find_chain_fault(&source, &mut below, source.key_at(i), n) {
            proof {
                let k = names[i as int];
                assert forall|other: Seq<char>|
                    source@.contains_key(other) && text::precedes(
                        other,
                        k,
                    ) implies #[trigger] fault_of(source@, other) is None by {
                    let j = choose|j: int|
                        0 <= j < source.pairs().len() && (#[trigger] source.pairs()[j]).0 == other;
                    assert(names[j] == other);
                    text::lemma_precedes_irreflexive(k);
                    if j > i {
                        assert(text::precedes(source.pairs()[i as int].0, source.pairs()[j].0));
                        text::lemma_precedes_transitive(k, other, k);
                    }
                }
                assert(first_faulty(source@, k));
            }
            return Err(fail(fault));
        }
    }
    assert forall|k: Seq<char>| source@.contains_key(k) implies #[trigger] fault_of(source@, k)
        is None by {
        let j = choose|j: int|
            0 <= j < source.pairs().len() && (#[trigger] source.pairs()[j]).0 == k;
        assert(names[j] == k);
    }
    let mut resolved: TextMap<RawService> = TextMap::new();
    for i in 0..n
        invariant
            n == source.pairs().len(),
            n == source@.dom().len(),
            source@.dom().finite(),
            text_map::lists_keys(names, source@),
            names == Seq::new(n as nat, |i: int| source.pairs()[i].0),
            forall|k: Seq<char>|
                source@.contains_key(k) ==> #[trigger] fault_of(source@, k) is None,
            all_settled(resolved@, source@),
            forall|j: int| 0 <= j < i ==> resolved@.contains_key(#[trigger] names[j]),
    {
        let _ = source.value_at(i);
        proof {
            let k = names[i as int];
            assert(fault_of(source@, k) is None);
            lemma_sound(source@, Seq::empty(), k, n as nat);
        }
        resolve_one(source.key_at(i), &source, &mut resolved, n);
    }
    proof {
        lemma_same_names(resolved@, source@, names);
    }
    let m: usize = resolved.len();
    let ghost before = resolved.pairs();
    let ghost entries = resolved@;
    cfg.services = resolved.into_values();
    proof {
        lemma_resolution(cfg.services@, before, entries, source@);
    }
    Ok(())
}

/// Whether `r` refuses the config for the reason `fault`.
pub open spec fn refused(r: Result<(), ExpectedError>, fault: Seq<char>) -> bool {
    r matches Err(e) && error::rejects(e, fault)
}

proof fn lemma_same_names(
    resolved: Map<Seq<char>, RawService>,
    source: Map<Seq<char>, RawService>,
    names: Seq<Seq<char>>,
)
    requires
        all_settled(resolved, source),
        text_map::lists_keys(names, source),
        forall|j: int| 0 <= j < names.len() ==> resolved.contains_key(#[trigger] names[j]),
    ensures
        text_map::ordered_keys(resolved) == names,
        text_map::ordered_keys(source) == names,
{
    assert forall|k: Seq<char>| #[trigger] resolved.contains_key(k) <==> names.contains(k) by {
        if resolved.contains_key(k) {
            assert(entry_settled(resolved, source, k));
            assert(source.contains_key(k));
        }
        if names.contains(k) {
            let j = names.index_of(k);
            assert(names[j] == k);
        }
    }
    text_map::lemma_ordered_keys(names, resolved);
    text_map::lemma_ordered_keys(names, source);
}

proof fn lemma_resolution(
    out: Seq<RawService>,
    pairs: Seq<(Seq<char>, RawService)>,
    resolved: Map<Seq<char>, RawService>,
    source: Map<Seq<char>, RawService>,
)
    requires
        text_map::ascending(pairs),
        resolved == text_map::as_map(pairs),
        all_settled(resolved, source),
        text_map::ordered_keys(source) == Seq::new(pairs.len(), |i: int| pairs[i].0),
        out.len() == pairs.len(),
        forall|i: int| 0 <= i < out.len() ==> #[trigger] out[i] == pairs[i].1,
    ensures
        resolution(out, source),
{
    let names = text_map::ordered_keys(source);
    assert forall|i: int| 0 <= i < out.len() implies #[trigger] settled(out, source, i) by {
        text_map::lemma_entry(pairs, i);
        let k = names[i];
        assert(entry_settled(resolved, source, k));
        if let Some(parent) = parent_of(source[k]) {
            assert(resolved.contains_key(parent));
            let j = choose|j: int| 0 <= j < pairs.len() && (#[trigger] pairs[j]).0 == parent;
            text_map::lemma_entry(pairs, j);
            assert(out[j] == resolved[parent]);
            assert(names[j] == parent);
        }
    }
}

/// A chain without a fault ends: it is no cycle, every service it names is
/// there, and all have one template.
pub proof fn lemma_accepted_chain_ends(source: Map<Seq<char>, RawService>, name: Seq<char>)
    requires
        source.dom().finite(),
        source.contains_key(name),
        fault_of(source, name) is None,
    ensures
        sound(source, name, source.dom().len()),
{
    lemma_sound(source, Seq::empty(), name, source.dom().len());
}

proof fn lemma_sound_has_no_fault(
    source: Map<Seq<char>, RawService>,
    below: Seq<Seq<char>>,
    name: Seq<char>,
    fuel: nat,
    limit: nat,
)
    requires
        sound(source, name, limit),
        forall|i: int|
            0 <= i < below.len() ==> depth(source, #[trigger] below[i], limit) > depth(
                source,
                name,
                limit,
            ),
    ensures
        chain_fault(source, below, name, fuel) is None,
    decreases fuel,
{
    if below.contains(name) {
        let i = below.index_of(name);
        assert(below[i] == name);
    } else if let Some(parent) = parent_of(source[name]) {
        lemma_depth(source, parent, (limit - 1) as nat, limit);
        if fuel > 0 {
            let longer = below.push(name);
            assert forall|i: int| 0 <= i < longer.len() implies depth(
                source,
                #[trigger] longer[i],
                limit,
            ) > depth(source, parent, limit) by {
                if i < below.len() {
                    assert(longer[i] == below[i]);
                }
            }
            lemma_sound_has_no_fault(source, longer, parent, (fuel - 1) as nat, limit);
        }
    }
}

/// Whether every service has a name that no other has.
pub open spec fn well_named(services: Seq<RawService>) -> bool {
    &&& forall|i: int| 0 <= i < services.len() ==> merge::name_of(#[trigger] services[i]) is Some
    &&& forall|i: int, j: int|
        0 <= i < j < services.len() ==> merge::name_of(#[trigger] services[i]) != merge::name_of(
            #[trigger] services[j],
        )
}

proof fn lemma_naming_fault(services: Seq<RawService>, i: int)
    requires
        0 <= i <= services.len(),
        well_named(services.take(i)),
    ensures
        naming_fault(services, i) is None <==> well_named(services),
    decreases services.len() - i,
{
    if i == services.len() {
        assert(services.take(i) =~= services);
    } else {
        let n = merge::name_of(services[i]);
        if n is Some && !exists|j: int|
            0 <= j < i && merge::name_of(#[trigger] services[j]) == n {
            let more = services.take(i + 1);
            assert forall|x: int| 0 <= x < more.len() implies merge::name_of(#[trigger] more[x])
                is Some by {
                if x < i {
                    assert(services.take(i)[x] == more[x]);
                }
            }
            assert forall|x: int, y: int| 0 <= x < y < more.len() implies merge::name_of(
                #[trigger] more[x],
            ) != merge::name_of(#[trigger] more[y]) by {
                assert(services.take(i)[x] == more[x]);
                assert(more[x] == services[x]);
                if y < i {
                    assert(services.take(i)[y] == more[y]);
                }
            }
            lemma_naming_fault(services, i + 1);
        }
    }
}

/// `resolve_inheritance` accepts a config exactly where every service has a
/// name of its own and its chain of parents ends, each parent there and of
/// the same template. It refuses a cycle, a parent that does not exist and
/// one of another template, and nothing else.
pub proof fn lemma_inheritance_accepted(
    services: Seq<RawService>,
    r: Result<(), ExpectedError>,
    out: Seq<RawService>,
)
    requires
        inheritance(services, r, out),
    ensures
        r is Ok <==> well_named(services) && forall|k: Seq<char>|
            merge::by_name(services).contains_key(k) ==> #[trigger] sound(
                merge::by_name(services),
                k,
                merge::by_name(services).dom().len(),
            ),
{
    let source = merge::by_name(services);
    let limit = source.dom().len();
    merge::lemma_by_name_len(services);
    lemma_naming_fault(services, 0);
    assert forall|k: Seq<char>| source.contains_key(k) implies (fault_of(source, k) is None
        <==> #[trigger] sound(source, k, limit)) by {
        if fault_of(source, k) is None {
            lemma_accepted_chain_ends(source, k);
        }
        if sound(source, k, limit) {
            lemma_sound_has_no_fault(source, Seq::empty(), k, limit, limit);
        }
    }
    if naming_fault(services, 0) is None {
        match r {
            Ok(_) => {
                assert forall|k: Seq<char>| source.contains_key(k) implies #[trigger] sound(
                    source,
                    k,
                    limit,
                ) by {
                    assert(fault_of(source, k) is None);
                }
            },
            Err(e) => {
                let k = choose|k: Seq<char>| #[trigger]
                    first_faulty(source, k) && error::rejects(e, fault_of(source, k)->0);
                assert(!sound(source, k, limit));
            },
        }
    }
}

/// Inheritance changes no service's name and no former name: neither is ever
/// taken from a parent.
pub proof fn lemma_names_are_own(
    out: Seq<RawService>,
    source: Map<Seq<char>, RawService>,
    i: int,
)
    requires
        resolution(out, source),
        0 <= i < out.len(),
    ensures
        ({
            let own = source[text_map::ordered_keys(source)[i]];
            &&& merge::name_of(out[i]) == merge::name_of(own)
            &&& parent_of(out[i]) == parent_of(own)
            &&& merge::text_of(out[i].shared().migrate_from) == merge::text_of(
                own.shared().migrate_from,
            )
        }),
{
    assert(settled(out, source, i));
}

/// What the operator reads where naming goes wrong, by the first service
/// that it goes wrong with: that a block has no name, or which name it has
/// that an earlier one has too.
pub proof fn lemma_naming_fault_told(services: Seq<RawService>, i: int)
    requires
        0 <= i < services.len(),
        forall|j: int| 0 <= j < i ==> (#[trigger] services[j]).shared().name is Some,
        forall|j: int, k: int|
            0 <= j < k < i ==> merge::name_of(#[trigger] services[j]) != merge::name_of(
                #[trigger] services[k],
            ),
    ensures
        services[i].shared().name is None ==> naming_fault(services, 0) == Some(
            "service block missing name"@,
        ),
        services[i].shared().name matches Some(n) ==> ((exists|j: int|
            0 <= j < i && merge::name_of(#[trigger] services[j]) == Some(n@)) ==> naming_fault(
            services,
            0,
        ) == Some("duplicate service name: "@ + n@)),
{
    lemma_naming_reaches(services, 0, i);
}

proof fn lemma_naming_reaches(services: Seq<RawService>, at: int, i: int)
    requires
        0 <= at <= i < services.len(),
        forall|j: int| 0 <= j < i ==> (#[trigger] services[j]).shared().name is Some,
        forall|j: int, k: int|
            0 <= j < k < i ==> merge::name_of(#[trigger] services[j]) != merge::name_of(
                #[trigger] services[k],
            ),
    ensures
        naming_fault(services, at) == naming_fault(services, i),
    decreases i - at,
{
    if at < i {
        assert(services[at].shared().name is Some);
        lemma_naming_reaches(services, at + 1, i);
    }
}

/// What the operator reads where a chain goes wrong at its first link: which
/// service extends one that is not there, extends itself, or extends one of
/// another template.
pub proof fn lemma_chain_fault_told(
    source: Map<Seq<char>, RawService>,
    name: Seq<char>,
    parent: Seq<char>,
)
    requires
        source.dom().finite(),
        source.contains_key(name),
        source[name].shared().extends is Some,
        source[name].shared().extends->0@ == parent,
    ensures
        !source.contains_key(parent) ==> fault_of(source, name) == Some(
            "service "@ + name + " extends "@ + parent + " which does not exist"@,
        ),
        parent == name ==> fault_of(source, name) == Some(
            "extends cycle involving service "@ + name,
        ),
        source.contains_key(parent) && parent != name && source[parent].shared().extends is None
            && source[parent] is LlamaCpp != source[name] is LlamaCpp ==> fault_of(source, name)
            == Some(fields::template_complaint(name, source[name], source[parent])),
        source.contains_key(parent) && parent != name && source[parent].shared().extends is None
            && source[parent] is LlamaCpp == source[name] is LlamaCpp ==> fault_of(source, name)
            is None,
{
    reveal_with_fuel(chain_fault, 3);
    let none = Seq::<Seq<char>>::empty();
    let below = none.push(name);
    assert(!none.contains(name));
    assert(below[0] == name);
    assert(below.contains(name));
    assert(parent != name ==> !below.contains(parent));
    assert(source.dom().contains(name));
    if source.dom().len() == 0 {
        assert(source.dom() =~= Set::empty());
    }
}

} // verus!
