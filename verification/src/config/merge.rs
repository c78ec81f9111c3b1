//! Inheritance between services and renames of services.

use crate::config::raw::RawService;
use crate::text;
use vstd::prelude::*;

pub mod fields;
pub mod laws;
pub mod migrations;
pub mod resolve;

verus! {

/// The text of an optional setting.
pub open spec fn text_of(s: Option<String>) -> Option<Seq<char>> {
    match s {
        Some(t) => Some(t@),
        None => None,
    }
}

/// A service's name.
pub open spec fn name_of(s: RawService) -> Option<Seq<char>> {
    text_of(s.shared().name)
}

/// Services by name. Of two with one name the later stands; those without a
/// name are left out.
pub open spec fn by_name(services: Seq<RawService>) -> Map<Seq<char>, RawService>
    decreases services.len(),
{
    if services.len() == 0 {
        Map::empty()
    } else {
        let rest = by_name(services.drop_last());
        match name_of(services.last()) {
            Some(n) => rest.insert(n, services.last()),
            None => rest,
        }
    }
}

/// A service is found under a name exactly where one has it.
pub proof fn lemma_by_name(services: Seq<RawService>, n: Seq<char>)
    ensures
        by_name(services).contains_key(n) <==> exists|i: int|
            0 <= i < services.len() && name_of(#[trigger] services[i]) == Some(n),
        by_name(services).contains_key(n) ==> exists|i: int|
            0 <= i < services.len() && #[trigger] services[i] == by_name(services)[n] && name_of(
                services[i],
            ) == Some(n),
    decreases services.len(),
{
    if services.len() > 0 {
        let rest = services.drop_last();
        lemma_by_name(rest, n);
        if by_name(rest).contains_key(n) {
            let i = choose|i: int|
                0 <= i < rest.len() && #[trigger] rest[i] == by_name(rest)[n] && name_of(rest[i])
                    == Some(n);
            assert(services[i] == rest[i]);
        }
        if name_of(services.last()) == Some(n) {
            assert(services[services.len() - 1] == services.last());
        }
        if exists|i: int| 0 <= i < services.len() && name_of(#[trigger] services[i]) == Some(n) {
            let i = choose|i: int|
                0 <= i < services.len() && name_of(#[trigger] services[i]) == Some(n);
            if i < rest.len() {
                assert(rest[i] == services[i]);
            }
        }
    }
}

/// There are no more names than services.
pub proof fn lemma_by_name_len(services: Seq<RawService>)
    ensures
        by_name(services).dom().finite(),
        by_name(services).dom().len() <= services.len(),
    decreases services.len(),
{
    if services.len() > 0 {
        lemma_by_name_len(services.drop_last());
    }
}

/// The views of a list of names.
pub open spec fn views(names: Seq<String>) -> Seq<Seq<char>> {
    names.map_values(|s: String| s@)
}

/// Whether `name` is one of `names`.
pub fn holds(names: &Vec<String>, name: &str) -> (r: bool)
    ensures
        r == views(names@).contains(name@),
{
    for i in 0..names.len()
        invariant
            forall|j: int| 0 <= j < i ==> (#[trigger] names@[j])@ != name@,
    {
        if text::same(names[i].as_str(), name) {
            assert(views(names@)[i as int] == name@);
            return true;
        }
    }
    proof {
        if views(names@).contains(name@) {
            let j = views(names@).index_of(name@);
            assert(names@[j]@ == name@);
        }
    }
    false
}

/// Names that are all different and all known cannot outnumber the services.
pub(crate) proof fn lemma_all_below(
    source: Map<Seq<char>, RawService>,
    below: Seq<Seq<char>>,
    name: Seq<char>,
)
    requires
        source.dom().finite(),
        below.no_duplicates(),
        forall|i: int| 0 <= i < below.len() ==> source.contains_key(#[trigger] below[i]),
        below.len() >= source.dom().len(),
        source.contains_key(name),
    ensures
        below.contains(name),
{
    below.unique_seq_to_set();
    assert(below.to_set().subset_of(source.dom())) by {
        assert forall|k: Seq<char>| below.to_set().contains(k) implies source.dom().contains(
            k,
        ) by {
            let i = below.index_of(k);
            assert(below[i] == k);
        }
    }
    vstd::set_lib::lemma_len_subset(below.to_set(), source.dom());
    vstd::set_lib::lemma_subset_equality(below.to_set(), source.dom());
    assert(below.to_set().contains(name));
}

/// Of two services with one name the later stands, and a service without a
/// name stands nowhere.
pub proof fn lemma_later_stands(services: Seq<RawService>, s: RawService)
    ensures
        by_name(Seq::<RawService>::empty()) == Map::<Seq<char>, RawService>::empty(),
        s.shared().name matches Some(n) ==> by_name(services.push(s)) == by_name(services).insert(
            n@,
            s,
        ),
        s.shared().name is None ==> by_name(services.push(s)) == by_name(services),
{
    assert(services.push(s).drop_last() =~= services);
}

} // verus!
