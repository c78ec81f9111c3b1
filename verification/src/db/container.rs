//! Who owns the containers, and those about to be launched.

use crate::config::error;
use crate::config::error::ExpectedError;
use crate::db::models::ContainerLaunchIntent;
use crate::db::order;
use crate::text;
use vstd::prelude::*;
use vstd::string::*;

verus! {

/// The only row of the installation's own data.
pub const INSTALLATION_VERSION: i64 = 1;

/// The origin recorded for an owner that cannot be read.
pub const INSTALLATION_ORIGIN: &'static str = "<installation_metadata>";

/// State of an intent whose container was created.
pub const ATTACHED: &'static str = "attached";

/// State of an intent whose container could not be cleaned up.
pub const BLOCKED: &'static str = "blocked";

/// Whether `uuid::Uuid::parse_str` accepts a text.
pub uninterp spec fn is_uuid(text: Seq<char>) -> bool;

/// Calls `uuid::Uuid::parse_str` and tells whether it accepts `text`, which
/// depends on the text alone.
#[verifier::external_body]
fn parses(text: &str) -> (r: bool)
    ensures
        r == is_uuid(text@),
{
    uuid::Uuid::parse_str(text).is_ok()
}

/// Calls `uuid::Uuid::new_v4` and writes what it gives, hyphenated as
/// `Display` does. Which text comes is left to chance; that
/// `uuid::Uuid::parse_str` accepts it is not.
#[verifier::external_body]
fn fresh() -> (r: String)
    ensures
        is_uuid(r@),
{
    uuid::Uuid::new_v4().to_string()
}

/// What the operator reads of an owner that is no UUID.
pub open spec fn corrupt_owner(uuid: Seq<char>) -> Seq<char> {
    "stored owner_uuid `"@ + uuid + "` is not a valid UUID"@
}

/// Whether `error` rejects the stored owner `uuid`.
pub open spec fn rejects_owner(error: ExpectedError, uuid: Seq<char>) -> bool {
    error::unparseable(error, INSTALLATION_ORIGIN@, corrupt_owner(uuid))
}

/// Rejects the owner `uuid` where it is not `valid`.
pub fn check_owner(uuid: &str, valid: bool) -> (r: Result<(), ExpectedError>)
    ensures
        match r {
            Ok(_) => valid,
            Err(e) => !valid && rejects_owner(e, uuid@),
        },
{
    if valid {
        Ok(())
    } else {
        Err(
            ExpectedError::config_unparseable(
                INSTALLATION_ORIGIN,
                "stored owner_uuid `".to_owned().concat(uuid).concat("` is not a valid UUID"),
            ),
        )
    }
}

/// Rejects an owner that is no UUID.
pub fn validate_owner_uuid(uuid: &str) -> (r: Result<(), ExpectedError>)
    ensures
        match r {
            Ok(_) => is_uuid(uuid@),
            Err(e) => !is_uuid(uuid@) && rejects_owner(e, uuid@),
        },
{
    check_owner(uuid, parses(uuid))
}

/// Whether `r` is the answer to who owns the containers, where `stored` is
/// recorded: nobody yet, or the recorded owner. One that is no UUID is never
/// answered.
pub open spec fn owner_answer(
    stored: Option<Seq<char>>,
    r: Result<Option<String>, ExpectedError>,
) -> bool {
    match stored {
        None => r matches Ok(o) && o is None,
        Some(u) => if is_uuid(u) {
            r matches Ok(Some(o)) && o@ == u
        } else {
            r matches Err(e) && rejects_owner(e, u)
        },
    }
}

/// Who owns the containers, where `stored` is recorded.
pub fn owner_uuid(stored: Option<String>) -> (r: Result<Option<String>, ExpectedError>)
    ensures
        owner_answer(crate::config::merge::text_of(stored), r),
{
    match stored {
        None => Ok(None),
        Some(uuid) => match validate_owner_uuid(uuid.as_str()) {
            Ok(_) => Ok(Some(uuid)),
            Err(e) => Err(e),
        },
    }
}

/// An owner, and whether it is still to be recorded.
#[derive(Debug, PartialEq, Eq)]
pub struct Owner {
    pub uuid: String,
    pub minted: bool,
}

/// The owner that is recorded, where it is `valid`.
pub fn recorded_owner(uuid: String, valid: bool) -> (r: Result<Owner, ExpectedError>)
    ensures
        match r {
            Ok(o) => valid && o.uuid == uuid && !o.minted,
            Err(e) => !valid && rejects_owner(e, uuid@),
        },
{
    match check_owner(uuid.as_str(), valid) {
        Ok(_) => Ok(Owner { uuid, minted: false }),
        Err(e) => Err(e),
    }
}

/// The owner of an installation that had none.
pub fn new_owner(uuid: String) -> (r: Owner)
    ensures
        r.uuid == uuid,
        r.minted,
{
    Owner { uuid, minted: true }
}

/// Whether `r` settles who owns the containers, where `stored` is recorded:
/// the recorded owner, or a new one where there is none. One that is no UUID
/// is never replaced.
pub open spec fn owner_settled(
    stored: Option<Seq<char>>,
    r: Result<Owner, ExpectedError>,
) -> bool {
    match stored {
        None => r matches Ok(o) && o.minted && is_uuid(o.uuid@),
        Some(u) => if is_uuid(u) {
            r matches Ok(o) && !o.minted && o.uuid@ == u
        } else {
            r matches Err(e) && rejects_owner(e, u)
        },
    }
}

/// Who owns the containers, where `stored` is recorded; a new owner where
/// there is none.
pub fn ensure_owner_uuid(stored: Option<String>) -> (r: Result<Owner, ExpectedError>)
    ensures
        owner_settled(crate::config::merge::text_of(stored), r),
{
    match stored {
        Some(uuid) => {
            let valid: bool = parses(uuid.as_str());
            recorded_owner(uuid, valid)
        },
        None => Ok(new_owner(fresh())),
    }
}

/// The owner is created once: whoever is settled on, once recorded, is
/// answered and settled on ever after, and nobody new is minted.
pub proof fn lemma_owner_created_once(
    stored: Option<Seq<char>>,
    first: Owner,
    answer: Result<Option<String>, ExpectedError>,
    again: Result<Owner, ExpectedError>,
)
    requires
        owner_settled(stored, Ok(first)),
        owner_answer(Some(first.uuid@), answer),
        owner_settled(Some(first.uuid@), again),
    ensures
        answer matches Ok(Some(u)) && u@ == first.uuid@,
        again matches Ok(o) && !o.minted && o.uuid@ == first.uuid@,
{
}

/// A corrupt owner is refused by both, never replaced.
pub proof fn lemma_corrupt_owner_refused(
    stored: Seq<char>,
    answer: Result<Option<String>, ExpectedError>,
    settled: Result<Owner, ExpectedError>,
)
    requires
        !is_uuid(stored),
        owner_answer(Some(stored), answer),
        owner_settled(Some(stored), settled),
    ensures
        answer is Err,
        settled is Err,
{
}

impl ContainerLaunchIntent {
    /// Records the container that was created.
    pub fn attach(&mut self, container_id: &str)
        ensures
            final(self).container_id matches Some(id) && id@ == container_id@,
            final(self).state@ == ATTACHED@,
            *final(self) == (ContainerLaunchIntent {
                container_id: final(self).container_id,
                state: final(self).state,
                ..*old(self)
            }),
    {
        self.container_id = Some(container_id.to_owned());
        self.state = ATTACHED.to_owned();
    }

    /// Records that its container could not be cleaned up.
    pub fn block(&mut self)
        ensures
            final(self).state@ == BLOCKED@,
            *final(self) == (ContainerLaunchIntent { state: final(self).state, ..*old(self) }),
    {
        self.state = BLOCKED.to_owned();
    }
}

/// Which intents are `owner`'s.
pub open spec fn owned_by(owner: Seq<char>) -> spec_fn(ContainerLaunchIntent) -> bool {
    |i: ContainerLaunchIntent| i.owner_uuid@ == owner
}

/// The intents of one owner.
pub open spec fn of_owner(rows: Seq<ContainerLaunchIntent>, owner: Seq<char>) -> Seq<
    ContainerLaunchIntent,
> {
    rows.filter(owned_by(owner))
}

/// The intents of one service.
pub open spec fn of_service(rows: Seq<ContainerLaunchIntent>, service_id: i64) -> Seq<
    ContainerLaunchIntent,
> {
    rows.filter(|i: ContainerLaunchIntent| i.service_id == service_id)
}

/// The numbers of intents.
pub open spec fn numbers(rows: Seq<ContainerLaunchIntent>) -> Seq<(i64, i64)> {
    rows.map_values(|i: ContainerLaunchIntent| (i.intent_id, 0i64))
}

/// Whether `out` holds the intents `own`, each once, in order of their
/// numbers.
pub open spec fn in_order_of_number(
    out: Seq<ContainerLaunchIntent>,
    own: Seq<ContainerLaunchIntent>,
) -> bool {
    exists|o: Seq<usize>| #[trigger]
        order::is_order(o, numbers(own)) && out == order::picked(own, o)
}

fn ordered_intents(own: Vec<ContainerLaunchIntent>) -> (r: Vec<ContainerLaunchIntent>)
    ensures
        in_order_of_number(r@, own@),
{
    let mut keys: Vec<(i64, i64)> = Vec::new();
    for i in 0..own.len()
        invariant
            keys@ == numbers(own@.take(i as int)),
    {
        keys.push((own[i].intent_id, 0));
        assert(keys@ =~= numbers(own@.take(i + 1)));
    }
    assert(own@.take(own@.len() as int) =~= own@);
    let order: Vec<usize> = order::ascending_order(keys.as_slice());
    let mut r: Vec<ContainerLaunchIntent> = Vec::new();
    for i in 0..order.len()
        invariant
            order::is_order(order@, keys@),
            keys@.len() == own@.len(),
            r@ == order::picked(own@, order@.take(i as int)),
    {
        r.push(own[order[i]].clone());
        assert(r@ =~= order::picked(own@, order@.take(i + 1)));
    }
    assert(order@.take(order@.len() as int) =~= order@);
    assert(order::is_order(order@, numbers(own@)));
    r
}

/// The intents of one owner, in order of their numbers. Another
/// installation's intents are not among them.
pub fn list_launch_intents(rows: &[ContainerLaunchIntent], owner: &str) -> (r: Vec<
    ContainerLaunchIntent,
>)
    ensures
        in_order_of_number(r@, of_owner(rows@, owner@)),
{
    let ghost wanted = owned_by(owner@);
    let mut own: Vec<ContainerLaunchIntent> = Vec::new();
    proof {
        reveal(Seq::filter);
        assert(rows@.take(0).filter(wanted) =~= Seq::empty());
    }
    for i in 0..rows.len()
        invariant
            wanted == owned_by(owner@),
            own@ == rows@.take(i as int).filter(wanted),
    {
        let row: &ContainerLaunchIntent = &rows[i];
        proof {
            let upto = rows@.take(i + 1);
            assert(upto.drop_last() =~= rows@.take(i as int));
            assert(upto.last() == *row);
            reveal(Seq::filter);
        }
        if text::same(row.owner_uuid.as_str(), owner) {
            own.push(row.clone());
        }
    }
    assert(rows@.take(rows@.len() as int) =~= rows@);
    ordered_intents(own)
}

/// The intents of one service, in order of their numbers.
pub fn launch_intents_for_service(rows: &[ContainerLaunchIntent], service_id: i64) -> (r: Vec<
    ContainerLaunchIntent,
>)
    ensures
        in_order_of_number(r@, of_service(rows@, service_id)),
{
    let ghost wanted = |i: ContainerLaunchIntent| i.service_id == service_id;
    let mut own: Vec<ContainerLaunchIntent> = Vec::new();
    proof {
        reveal(Seq::filter);
        assert(rows@.take(0).filter(wanted) =~= Seq::empty());
    }
    for i in 0..rows.len()
        invariant
            wanted == (|i: ContainerLaunchIntent| i.service_id == service_id),
            own@ == rows@.take(i as int).filter(wanted),
    {
        let row: &ContainerLaunchIntent = &rows[i];
        proof {
            let upto = rows@.take(i + 1);
            assert(upto.drop_last() =~= rows@.take(i as int));
            assert(upto.last() == *row);
            reveal(Seq::filter);
        }
        if row.service_id == service_id {
            own.push(row.clone());
        }
    }
    assert(rows@.take(rows@.len() as int) =~= rows@);
    ordered_intents(own)
}

/// An owner is listed exactly its own intents: every one of them, none twice
/// that is stored once, in ascending order of their numbers, and none of
/// another owner.
pub proof fn lemma_owner_sees_its_own(
    out: Seq<ContainerLaunchIntent>,
    rows: Seq<ContainerLaunchIntent>,
    owner: Seq<char>,
)
    requires
        in_order_of_number(out, of_owner(rows, owner)),
    ensures
        out.len() == of_owner(rows, owner).len(),
        forall|i: ContainerLaunchIntent| #[trigger]
            out.contains(i) <==> rows.contains(i) && i.owner_uuid@ == owner,
        forall|i: int, j: int|
            0 <= i < j < out.len() ==> (#[trigger] out[i]).intent_id <= (
            #[trigger] out[j]).intent_id,
{
    let wanted = owned_by(owner);
    let own = of_owner(rows, owner);
    let o = choose|o: Seq<usize>| #[trigger]
        order::is_order(o, numbers(own)) && out == order::picked(own, o);
    assert forall|i: int, j: int| 0 <= i < j < out.len() implies (#[trigger] out[i]).intent_id <= (
    #[trigger] out[j]).intent_id by {
        assert(order::in_turn(numbers(own), o[i], o[j]));
    }
    assert forall|i: ContainerLaunchIntent| #[trigger] out.contains(i) implies rows.contains(i)
        && i.owner_uuid@ == owner by {
        let k = out.index_of(i);
        let p = o[k] as int;
        assert(i == own[p]);
        rows.lemma_filter_contains_rev(wanted, i);
        rows.lemma_filter_pred(wanted, p);
    }
    assert forall|i: ContainerLaunchIntent|
        rows.contains(i) && i.owner_uuid@ == owner implies #[trigger] out.contains(i) by {
        let k = rows.index_of(i);
        rows.lemma_filter_contains(wanted, k);
        let p = own.index_of(i);
        order::lemma_order_covers(o, numbers(own), p);
        let n = choose|n: int| 0 <= n < o.len() && #[trigger] o[n] == p;
        assert(out[n] == i);
    }
}

} // verus!
