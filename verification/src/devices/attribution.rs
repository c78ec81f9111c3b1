//! Which processes belong to a service, and the memory they hold.

use crate::text;
use vstd::prelude::*;
use vstd::string::*;

verus! {

/// The parent of a process, in a list of processes and their parents.
pub open spec fn parent_of(parents: Seq<(u32, u32)>, pid: u32) -> Option<u32>
    decreases parents.len(),
{
    if parents.len() == 0 {
        None
    } else if parents[0].0 == pid {
        Some(parents[0].1)
    } else {
        parent_of(parents.skip(1), pid)
    }
}

/// Whether `root` is `pid`, or one of its ancestors at most `steps` away.
pub open spec fn reaches(parents: Seq<(u32, u32)>, pid: u32, root: u32, steps: nat) -> bool
    decreases steps,
{
    pid == root || (steps > 0 && match parent_of(parents, pid) {
        Some(p) => reaches(parents, p, root, (steps - 1) as nat),
        None => false,
    })
}

/// Whether `pid` descends from `root`, or is it. A chain of parents has no
/// more links than there are processes.
pub open spec fn descends(parents: Seq<(u32, u32)>, pid: u32, root: u32) -> bool {
    reaches(parents, pid, root, parents.len())
}

fn parent(parents: &[(u32, u32)], pid: u32) -> (r: Option<u32>)
    ensures
        r == parent_of(parents@, pid),
{
    assert(parents@.skip(0) =~= parents@);
    for i in 0..parents.len()
        invariant
            parent_of(parents@, pid) == parent_of(parents@.skip(i as int), pid),
    {
        assert(parents@.skip(i as int)[0] == parents@[i as int]);
        assert(parents@.skip(i as int).skip(1) =~= parents@.skip(i + 1));
        if parents[i].0 == pid {
            return Some(parents[i].1);
        }
    }
    None
}

fn is_descendant(parents: &[(u32, u32)], pid: u32, root: u32) -> (r: bool)
    ensures
        r == descends(parents@, pid, root),
{
    let mut at: u32 = pid;
    let mut steps: usize = parents.len();
    while steps > 0
        invariant
            descends(parents@, pid, root) == reaches(parents@, at, root, steps as nat),
        decreases steps,
    {
        if at == root {
            return true;
        }
        match parent(parents, at) {
            Some(p) => {
                at = p;
            },
            None => {
                return false;
            },
        }
        steps -= 1;
    }
    at == root
}

/// Whether `pid` descends from one of `roots`.
pub open spec fn descends_from_any(
    parents: Seq<(u32, u32)>,
    roots: Seq<u32>,
    pid: u32,
) -> bool {
    exists|i: int| 0 <= i < roots.len() && descends(parents, pid, #[trigger] roots[i])
}

fn descends_from(parents: &[(u32, u32)], roots: &[u32], pid: u32) -> (r: bool)
    ensures
        r == descends_from_any(parents@, roots@, pid),
{
    for i in 0..roots.len()
        invariant
            forall|j: int| 0 <= j < i ==> !descends(parents@, pid, #[trigger] roots@[j]),
    {
        if is_descendant(parents, pid, roots[i]) {
            return true;
        }
    }
    false
}

/// Whether the cgroup `path` is `parent` or stands under it.
pub open spec fn under(path: Seq<char>, parent: Seq<char>) -> bool {
    path == parent || (parent + "/"@).is_prefix_of(path)
}

/// Whether the cgroup `path` is `parent` or stands under it.
pub fn in_cgroup_subtree(path: &str, parent: &str) -> (r: bool)
    ensures
        r == under(path@, parent@),
{
    if text::same(path, parent) {
        return true;
    }
    let lead: String = parent.to_owned().concat("/");
    text::starts_with(path, lead.as_str())
}

/// Whether `pid` lives in the declared cgroup, where one is declared.
pub open spec fn lives_under(
    cgroups: Seq<(u32, String)>,
    cgroup_parent: Option<&str>,
    pid: u32,
) -> bool {
    match cgroup_parent {
        Some(parent) => exists|i: int|
            0 <= i < cgroups.len() && (#[trigger] cgroups[i]).0 == pid && under(
                cgroups[i].1@,
                parent@,
            ),
        None => false,
    }
}

/// Whether `pid` belongs to a service: it descends from a registered
/// process, or lives in the declared cgroup.
pub open spec fn belongs(
    registered: Seq<u32>,
    cgroup_parent: Option<&str>,
    parents: Seq<(u32, u32)>,
    cgroups: Seq<(u32, String)>,
    pid: u32,
) -> bool {
    descends_from_any(parents, registered, pid) || lives_under(cgroups, cgroup_parent, pid)
}

/// Whether `pids` are in strictly ascending order.
pub open spec fn ascending(pids: Seq<u32>) -> bool {
    forall|i: int, j: int| 0 <= i < j < pids.len() ==> #[trigger] pids[i] < #[trigger] pids[j]
}

/// Adds `pid` in its place.
fn put(pids: &mut Vec<u32>, pid: u32)
    requires
        ascending(old(pids)@),
    ensures
        ascending(final(pids)@),
        forall|x: u32| #[trigger] final(pids)@.contains(x) <==> old(pids)@.contains(x) || x == pid,
{
    let ghost before = pids@;
    let mut at: usize = 0;
    while at < pids.len() && pids[at] < pid
        invariant
            pids@ == before,
            ascending(before),
            at <= before.len(),
            forall|j: int| 0 <= j < at ==> #[trigger] before[j] < pid,
        decreases before.len() - at,
    {
        at += 1;
    }
    if at < pids.len() && pids[at] == pid {
        assert(before[at as int] == pid);
        return ;
    }
    pids.insert(at, pid);
    proof {
        assert(pids@ =~= before.insert(at as int, pid));
        assert forall|i: int, j: int| 0 <= i < j < pids@.len() implies #[trigger] pids@[i]
            < #[trigger] pids@[j] by {
            if at < before.len() {
                assert(pid < before[at as int]);
            }
            if i == at {
                assert(pids@[j] == before[j - 1]);
                if j - 1 > at {
                    assert(before[at as int] < before[j - 1]);
                }
            } else if i < at {
                assert(pids@[i] == before[i]);
                if j > at {
                    assert(pids@[j] == before[j - 1]);
                } else if j < at {
                    assert(pids@[j] == before[j]);
                }
            } else {
                assert(pids@[i] == before[i - 1]);
                assert(pids@[j] == before[j - 1]);
            }
        }
        assert forall|x: u32| #[trigger] pids@.contains(x) <==> before.contains(x) || x == pid by {
            if before.contains(x) {
                let k = before.index_of(x);
                if k < at {
                    assert(pids@[k] == x);
                } else {
                    assert(pids@[k + 1] == x);
                }
            }
            assert(pids@[at as int] == pid);
            if pids@.contains(x) && x != pid {
                let k = pids@.index_of(x);
                if k < at {
                    assert(before[k] == x);
                } else {
                    assert(before[k - 1] == x);
                }
            }
        }
    }
}

/// Whether `pids` are the processes of a service, in ascending order.
pub open spec fn is_attributed_to(
    pids: Seq<u32>,
    registered: Seq<u32>,
    cgroup_parent: Option<&str>,
    parents: Seq<(u32, u32)>,
    cgroups: Seq<(u32, String)>,
) -> bool {
    &&& ascending(pids)
    &&& forall|pid: u32| #[trigger]
        pids.contains(pid) <==> belongs(registered, cgroup_parent, parents, cgroups, pid)
}

/// The processes of a service, in ascending order, each once: the
/// registered ones with all their descendants, and those in the declared
/// cgroup.
pub fn attributed_pid_set(
    registered: &[u32],
    cgroup_parent: Option<&str>,
    parents: &[(u32, u32)],
    cgroups: &[(u32, String)],
) -> (r: Vec<u32>)
    ensures
        is_attributed_to(r@, registered@, cgroup_parent, parents@, cgroups@),
{
    let mut r: Vec<u32> = Vec::new();
    for i in 0..registered.len()
        invariant
            ascending(r@),
            forall|pid: u32| #[trigger]
                r@.contains(pid) <==> exists|j: int|
                    0 <= j < i && #[trigger] registered@[j] == pid,
    {
        put(&mut r, registered[i]);
    }
    let ghost roots = r@;
    for i in 0..parents.len()
        invariant
            ascending(r@),
            forall|pid: u32| #[trigger]
                r@.contains(pid) <==> roots.contains(pid) || exists|j: int|
                    0 <= j < i && (#[trigger] parents@[j]).0 == pid && descends_from_any(
                        parents@,
                        registered@,
                        pid,
                    ),
    {
        if descends_from(parents, registered, parents[i].0) {
            put(&mut r, parents[i].0);
        }
    }
    assert forall|pid: u32| #[trigger]
        r@.contains(pid) <==> descends_from_any(parents@, registered@, pid) by {
        if roots.contains(pid) {
            let j = choose|j: int| 0 <= j < registered@.len() && #[trigger] registered@[j] == pid;
            assert(descends(parents@, pid, registered@[j]));
        }
        if descends_from_any(parents@, registered@, pid) {
            let k = choose|k: int|
                0 <= k < registered@.len() && descends(parents@, pid, #[trigger] registered@[k]);
            if pid != registered@[k] {
                lemma_parent_listed(parents@, pid);
            } else {
                assert(roots.contains(pid));
            }
        }
    }
    let ghost family = r@;
    if let Some(parent) = cgroup_parent {
        for i in 0..cgroups.len()
            invariant
                ascending(r@),
                cgroup_parent == Some(parent),
                forall|pid: u32| #[trigger]
                    r@.contains(pid) <==> family.contains(pid) || exists|j: int|
                        0 <= j < i && (#[trigger] cgroups@[j]).0 == pid && under(
                            cgroups@[j].1@,
                            parent@,
                        ),
        {
            if in_cgroup_subtree(cgroups[i].1.as_str(), parent) {
                put(&mut r, cgroups[i].0);
            }
        }
    }
    r
}

proof fn lemma_parent_listed(parents: Seq<(u32, u32)>, pid: u32)
    requires
        parent_of(parents, pid) is Some,
    ensures
        exists|i: int| 0 <= i < parents.len() && (#[trigger] parents[i]).0 == pid,
    decreases parents.len(),
{
    if parents[0].0 != pid {
        lemma_parent_listed(parents.skip(1), pid);
        let i = choose|i: int|
            0 <= i < parents.skip(1).len() && (#[trigger] parents.skip(1)[i]).0 == pid;
        assert(parents[i + 1].0 == pid);
    }
}

/// The ancestor of `pid` that is `k` links away.
spec fn ancestor(parents: Seq<(u32, u32)>, pid: u32, k: nat) -> Option<u32>
    decreases k,
{
    if k == 0 {
        Some(pid)
    } else {
        match parent_of(parents, pid) {
            Some(p) => ancestor(parents, p, (k - 1) as nat),
            None => None,
        }
    }
}

proof fn lemma_ancestor_reached(
    parents: Seq<(u32, u32)>,
    pid: u32,
    root: u32,
    k: nat,
    steps: nat,
)
    requires
        ancestor(parents, pid, k) == Some(root),
        k <= steps,
    ensures
        reaches(parents, pid, root, steps),
    decreases k,
{
    if k > 0 {
        lemma_ancestor_reached(
            parents,
            parent_of(parents, pid)->0,
            root,
            (k - 1) as nat,
            (steps - 1) as nat,
        );
    }
}

proof fn lemma_reached_ancestor(
    parents: Seq<(u32, u32)>,
    pid: u32,
    root: u32,
    steps: nat,
) -> (k: nat)
    requires
        reaches(parents, pid, root, steps),
    ensures
        ancestor(parents, pid, k) == Some(root),
        k <= steps,
    decreases steps,
{
    if pid == root {
        0
    } else {
        let k = lemma_reached_ancestor(
            parents,
            parent_of(parents, pid)->0,
            root,
            (steps - 1) as nat,
        );
        k + 1
    }
}

proof fn lemma_ancestor_of_ancestor(parents: Seq<(u32, u32)>, pid: u32, i: nat, j: nat)
    requires
        ancestor(parents, pid, i + j) is Some,
    ensures
        ancestor(parents, pid, i) is Some,
        ancestor(parents, pid, i + j) == ancestor(parents, ancestor(parents, pid, i)->0, j),
    decreases i,
{
    if i > 0 {
        let p = parent_of(parents, pid)->0;
        assert((i + j - 1) as nat == (i - 1) as nat + j);
        lemma_ancestor_of_ancestor(parents, p, (i - 1) as nat, j);
    }
}

/// A chain with more links than there are processes runs in a circle, and
/// can be cut short.
proof fn lemma_cut_short(
    parents: Seq<(u32, u32)>,
    pid: u32,
    root: u32,
    k: nat,
) -> (less: nat)
    requires
        ancestor(parents, pid, k) == Some(root),
        k > parents.len(),
    ensures
        less < k,
        ancestor(parents, pid, less) == Some(root),
{
    let chain = Seq::new(k, |i: int| ancestor(parents, pid, i as nat)->0);
    let keys = parents.map_values(|p: (u32, u32)| p.0);
    keys.lemma_cardinality_of_set();
    vstd::seq_lib::seq_to_set_is_finite(keys);
    assert forall|i: int| 0 <= i < k implies keys.contains(#[trigger] chain[i]) by {
        lemma_ancestor_of_ancestor(parents, pid, i as nat, (k - i) as nat);
        let at = chain[i];
        assert(ancestor(parents, at, (k - i) as nat) is Some);
        lemma_parent_listed(parents, at);
        let x = choose|x: int| 0 <= x < parents.len() && (#[trigger] parents[x]).0 == at;
        assert(keys[x] == at);
    }
    if chain.no_duplicates() {
        chain.unique_seq_to_set();
        assert(chain.to_set().subset_of(keys.to_set())) by {
            assert forall|x: u32| chain.to_set().contains(x) implies keys.to_set().contains(x) by {
                assert(chain[chain.index_of(x)] == x);
            }
        }
        vstd::set_lib::lemma_len_subset(chain.to_set(), keys.to_set());
        assert(false);
    }
    let (i, j) = choose|i: int, j: int|
        0 <= i < j < chain.len() && #[trigger] chain[i] == #[trigger] chain[j];
    let less = (i + (k - j)) as nat;
    lemma_ancestor_of_ancestor(parents, pid, j as nat, (k - j) as nat);
    lemma_ancestor_of_ancestor(parents, pid, i as nat, (j - i) as nat);
    lemma_ancestor_joins(parents, pid, i as nat, (k - j) as nat);
    less
}

proof fn lemma_ancestor_joins(parents: Seq<(u32, u32)>, pid: u32, i: nat, j: nat)
    requires
        ancestor(parents, pid, i) is Some,
    ensures
        ancestor(parents, pid, i + j) == ancestor(parents, ancestor(parents, pid, i)->0, j),
    decreases i,
{
    if i > 0 {
        let p = parent_of(parents, pid)->0;
        assert((i + j - 1) as nat == (i - 1) as nat + j);
        lemma_ancestor_joins(parents, p, (i - 1) as nat, j);
    }
}

proof fn lemma_within_bound(parents: Seq<(u32, u32)>, pid: u32, root: u32, k: nat)
    requires
        ancestor(parents, pid, k) == Some(root),
    ensures
        descends(parents, pid, root),
    decreases k,
{
    if k <= parents.len() {
        lemma_ancestor_reached(parents, pid, root, k, parents.len());
    } else {
        let less = lemma_cut_short(parents, pid, root, k);
        lemma_within_bound(parents, pid, root, less);
    }
}

/// However long the chain of parents that leads to a process, whatever it
/// leads to counts as an ancestor.
pub proof fn lemma_any_chain_counts(
    parents: Seq<(u32, u32)>,
    pid: u32,
    root: u32,
    steps: nat,
)
    requires
        reaches(parents, pid, root, steps),
    ensures
        descends(parents, pid, root),
{
    let k = lemma_reached_ancestor(parents, pid, root, steps);
    lemma_within_bound(parents, pid, root, k);
}

/// A registered process belongs to its service, and so does every child of a
/// process that descends from it.
pub proof fn lemma_children_belong(
    registered: Seq<u32>,
    cgroup_parent: Option<&str>,
    parents: Seq<(u32, u32)>,
    cgroups: Seq<(u32, String)>,
    pid: u32,
)
    ensures
        registered.contains(pid) ==> belongs(registered, cgroup_parent, parents, cgroups, pid),
        parent_of(parents, pid) matches Some(p) && descends_from_any(parents, registered, p)
            ==> belongs(registered, cgroup_parent, parents, cgroups, pid),
{
    if registered.contains(pid) {
        let i = registered.index_of(pid);
        assert(descends(parents, pid, registered[i]));
    }
    if let Some(p) = parent_of(parents, pid) {
        if descends_from_any(parents, registered, p) {
            let i = choose|i: int|
                0 <= i < registered.len() && descends(parents, p, #[trigger] registered[i]);
            assert(reaches(parents, pid, registered[i], parents.len() + 1));
            lemma_any_chain_counts(parents, pid, registered[i], parents.len() + 1);
        }
    }
}

/// A process that holds memory of a GPU.
#[derive(Debug, PartialEq, Eq)]
pub struct GpuProcess {
    pub pid: u32,
    pub used_bytes: u64,
    pub name: String,
}

/// The host memory of a process: all of it, what is its own, and what maps
/// files.
#[derive(Debug, Clone, Copy, PartialEq, Eq, Structural)]
pub struct Rss {
    pub total: u64,
    pub owned: u64,
    pub file: u64,
}

/// The memory that a service is seen to hold, on GPUs and on the host.
#[derive(Debug, Clone, Copy, PartialEq, Eq, Structural)]
pub struct AttributedBytes {
    pub vram: u64,
    pub rss: Rss,
}

/// `a + b`, or the largest number where that is more.
pub open spec fn saturated(a: int, b: int) -> int {
    if a + b > u64::MAX {
        u64::MAX as int
    } else {
        a + b
    }
}

/// What the processes of `pids` hold of one GPU, on top of `start`.
pub open spec fn held(processes: Seq<GpuProcess>, pids: Seq<u32>, start: int) -> int
    decreases processes.len(),
{
    if processes.len() == 0 {
        start
    } else {
        let before = held(processes.drop_last(), pids, start);
        if pids.contains(processes.last().pid) {
            saturated(before, processes.last().used_bytes as int)
        } else {
            before
        }
    }
}

/// What the processes of `pids` hold of all GPUs.
pub open spec fn held_in_all(gpus: Seq<(u32, Vec<GpuProcess>)>, pids: Seq<u32>) -> int
    decreases gpus.len(),
{
    if gpus.len() == 0 {
        0
    } else {
        held(gpus.last().1@, pids, held_in_all(gpus.drop_last(), pids))
    }
}

/// The sum of all that could be read, of one part of the host memory.
pub open spec fn read_sum(readings: Seq<Option<Rss>>, part: spec_fn(Rss) -> u64) -> int
    decreases readings.len(),
{
    if readings.len() == 0 {
        0
    } else {
        let before = read_sum(readings.drop_last(), part);
        match readings.last() {
            Some(x) => saturated(before, part(x) as int),
            None => before,
        }
    }
}

fn listed(pids: &[u32], pid: u32) -> (r: bool)
    ensures
        r == pids@.contains(pid),
{
    for i in 0..pids.len()
        invariant
            forall|j: int| 0 <= j < i ==> #[trigger] pids@[j] != pid,
    {
        if pids[i] == pid {
            return true;
        }
    }
    false
}

/// Whether `r` is what the processes of `pids` hold, of all GPUs and, as far
/// as it could be read, of the host.
pub open spec fn attributes(
    r: AttributedBytes,
    pids: Seq<u32>,
    gpus: Seq<(u32, Vec<GpuProcess>)>,
    readings: Seq<Option<Rss>>,
) -> bool {
    &&& r.vram == held_in_all(gpus, pids)
    &&& r.rss.total == read_sum(readings, |x: Rss| x.total)
    &&& r.rss.owned == read_sum(readings, |x: Rss| x.owned)
    &&& r.rss.file == read_sum(readings, |x: Rss| x.file)
}

/// The memory that the processes of `pids` hold: of all GPUs, and of the
/// host as far as `readings` could be made of them. The two are never added
/// up.
pub fn attributed_bytes_split(
    pids: &[u32],
    gpu_processes: &[(u32, Vec<GpuProcess>)],
    readings: &[Option<Rss>],
) -> (r: AttributedBytes)
    ensures
        attributes(r, pids@, gpu_processes@, readings@),
{
    let mut vram: u64 = 0;
    for g in 0..gpu_processes.len()
        invariant
            vram == held_in_all(gpu_processes@.take(g as int), pids@),
    {
        let processes: &Vec<GpuProcess> = &gpu_processes[g].1;
        let ghost before = vram as int;
        proof {
            assert(gpu_processes@.take(g + 1).drop_last() =~= gpu_processes@.take(g as int));
            assert(gpu_processes@.take(g + 1).last() == gpu_processes@[g as int]);
        }
        for i in 0..processes.len()
            invariant
                vram == held(processes@.take(i as int), pids@, before),
        {
            proof {
                assert(processes@.take(i + 1).drop_last() =~= processes@.take(i as int));
                assert(processes@.take(i + 1).last() == processes@[i as int]);
            }
            if listed(pids, processes[i].pid) {
                vram = vram.saturating_add(processes[i].used_bytes);
            }
        }
        assert(processes@.take(processes@.len() as int) =~= processes@);
    }
    assert(gpu_processes@.take(gpu_processes@.len() as int) =~= gpu_processes@);
    let ghost totals = |x: Rss| x.total;
    let ghost owns = |x: Rss| x.owned;
    let ghost files = |x: Rss| x.file;
    let mut total: u64 = 0;
    let mut owned: u64 = 0;
    let mut file: u64 = 0;
    for i in 0..readings.len()
        invariant
            totals == (|x: Rss| x.total),
            owns == (|x: Rss| x.owned),
            files == (|x: Rss| x.file),
            total == read_sum(readings@.take(i as int), totals),
            owned == read_sum(readings@.take(i as int), owns),
            file == read_sum(readings@.take(i as int), files),
    {
        proof {
            assert(readings@.take(i + 1).drop_last() =~= readings@.take(i as int));
            assert(readings@.take(i + 1).last() == readings@[i as int]);
        }
        if let Some(x) = readings[i] {
            total = total.saturating_add(x.total);
            owned = owned.saturating_add(x.owned);
            file = file.saturating_add(x.file);
        }
    }
    assert(readings@.take(readings@.len() as int) =~= readings@);
    AttributedBytes { vram, rss: Rss { total, owned, file } }
}

/// Whether a service can be looked for at all.
pub fn is_tracked(registered: &[u32], cgroup_parent: Option<&str>) -> (r: bool)
    ensures
        r == (registered@.len() > 0 || cgroup_parent is Some),
{
    registered.len() > 0 || cgroup_parent.is_some()
}

impl AttributedBytes {
    /// Whether anything was seen. Nothing at all is a gap in what could be
    /// read, not a service that holds nothing.
    pub fn is_reading(&self) -> (r: bool)
        ensures
            r == (self.vram + self.rss.total > 0),
    {
        self.vram > 0 || self.rss.total > 0
    }
}

proof fn lemma_held_from(processes: Seq<GpuProcess>, pids: Seq<u32>, start: int)
    requires
        0 <= start <= u64::MAX,
    ensures
        held(processes, pids, start) == saturated(held(processes, pids, 0), start),
        start <= held(processes, pids, start) <= u64::MAX,
    decreases processes.len(),
{
    if processes.len() > 0 {
        lemma_held_from(processes.drop_last(), pids, start);
        lemma_held_from(processes.drop_last(), pids, 0);
    }
}

proof fn lemma_held_range(gpus: Seq<(u32, Vec<GpuProcess>)>, pids: Seq<u32>)
    ensures
        0 <= held_in_all(gpus, pids) <= u64::MAX,
    decreases gpus.len(),
{
    if gpus.len() > 0 {
        lemma_held_range(gpus.drop_last(), pids);
        lemma_held_from(gpus.last().1@, pids, held_in_all(gpus.drop_last(), pids));
    }
}

proof fn lemma_held_joined(
    a: Seq<(u32, Vec<GpuProcess>)>,
    b: Seq<(u32, Vec<GpuProcess>)>,
    pids: Seq<u32>,
)
    ensures
        held_in_all(a + b, pids) == saturated(held_in_all(a, pids), held_in_all(b, pids)),
    decreases b.len(),
{
    lemma_held_range(a, pids);
    if b.len() == 0 {
        assert(a + b =~= a);
    } else {
        let rest = b.drop_last();
        assert((a + b).drop_last() =~= a + rest);
        lemma_held_joined(a, rest, pids);
        lemma_held_range(rest, pids);
        lemma_held_range(a + rest, pids);
        lemma_held_from(b.last().1@, pids, held_in_all(a + rest, pids));
        lemma_held_from(b.last().1@, pids, held_in_all(rest, pids));
        lemma_held_from(b.last().1@, pids, 0);
    }
}

/// What a service holds of two sets of GPUs together is what it holds of
/// the one and of the other, up to the largest count there is.
pub proof fn lemma_gpus_add_up(
    a: Seq<(u32, Vec<GpuProcess>)>,
    b: Seq<(u32, Vec<GpuProcess>)>,
    pids: Seq<u32>,
    of_a: AttributedBytes,
    of_b: AttributedBytes,
    of_both: AttributedBytes,
    readings: Seq<Option<Rss>>,
)
    requires
        attributes(of_a, pids, a, readings),
        attributes(of_b, pids, b, readings),
        attributes(of_both, pids, a + b, readings),
    ensures
        of_a.vram + of_b.vram <= u64::MAX ==> of_both.vram == of_a.vram + of_b.vram,
        of_a.vram + of_b.vram > u64::MAX ==> of_both.vram == u64::MAX,
        of_both.rss == of_a.rss,
{
    lemma_held_joined(a, b, pids);
}

/// One more process on one more card raises what a service holds by exactly
/// what the process uses, where it is one of the service's, and by nothing
/// where it is not. No cards hold nothing.
pub proof fn lemma_process_adds_its_bytes(
    gpus: Seq<(u32, Vec<GpuProcess>)>,
    card: (u32, Vec<GpuProcess>),
    longer: (u32, Vec<GpuProcess>),
    process: GpuProcess,
    pids: Seq<u32>,
    before: AttributedBytes,
    after: AttributedBytes,
    readings: Seq<Option<Rss>>,
)
    requires
        longer.1@ == card.1@.push(process),
        attributes(before, pids, gpus.push(card), readings),
        attributes(after, pids, gpus.push(longer), readings),
    ensures
        pids.contains(process.pid) && before.vram + process.used_bytes <= u64::MAX ==> after.vram
            == before.vram + process.used_bytes,
        pids.contains(process.pid) && before.vram + process.used_bytes > u64::MAX ==> after.vram
            == u64::MAX,
        !pids.contains(process.pid) ==> after.vram == before.vram,
        after.rss == before.rss,
{
    assert(gpus.push(card).drop_last() =~= gpus);
    assert(gpus.push(longer).drop_last() =~= gpus);
    assert(longer.1@.drop_last() =~= card.1@);
}

/// A service without cards, or whose cards run nothing of its own, holds no
/// GPU memory.
pub proof fn lemma_nothing_held_without_processes(
    gpus: Seq<(u32, Vec<GpuProcess>)>,
    pids: Seq<u32>,
    r: AttributedBytes,
    readings: Seq<Option<Rss>>,
)
    requires
        attributes(r, pids, gpus, readings),
        forall|g: int, i: int|
            0 <= g < gpus.len() && 0 <= i < (#[trigger] gpus[g]).1@.len() ==> !pids.contains(
                (#[trigger] gpus[g].1@[i]).pid,
            ),
    ensures
        r.vram == 0,
{
    lemma_nothing_held(gpus, pids);
}

proof fn lemma_nothing_held(gpus: Seq<(u32, Vec<GpuProcess>)>, pids: Seq<u32>)
    requires
        forall|g: int, i: int|
            0 <= g < gpus.len() && 0 <= i < (#[trigger] gpus[g]).1@.len() ==> !pids.contains(
                (#[trigger] gpus[g].1@[i]).pid,
            ),
    ensures
        held_in_all(gpus, pids) == 0,
    decreases gpus.len(),
{
    if gpus.len() > 0 {
        let rest = gpus.drop_last();
        assert forall|g: int, i: int|
            0 <= g < rest.len() && 0 <= i < (#[trigger] rest[g]).1@.len() implies !pids.contains(
            (#[trigger] rest[g].1@[i]).pid,
        ) by {
            assert(gpus[g] == rest[g]);
            assert(!pids.contains(gpus[g].1@[i].pid));
        }
        lemma_nothing_held(rest, pids);
        let last = gpus.last().1@;
        assert forall|i: int| 0 <= i < last.len() implies !pids.contains((#[trigger] last[i]).pid) by {
            assert(!pids.contains(gpus[gpus.len() - 1].1@[i].pid));
        }
        lemma_card_holds_nothing(last, pids);
    }
}

proof fn lemma_card_holds_nothing(processes: Seq<GpuProcess>, pids: Seq<u32>)
    requires
        forall|i: int| 0 <= i < processes.len() ==> !pids.contains((#[trigger] processes[i]).pid),
    ensures
        held(processes, pids, 0) == 0,
    decreases processes.len(),
{
    if processes.len() > 0 {
        lemma_card_holds_nothing(processes.drop_last(), pids);
    }
}

/// One more reading of the host adds each of its three parts to that part;
/// one that could not be made adds nothing. Without readings there is none.
/// The GPUs have no part in it.
pub proof fn lemma_reading_adds_its_parts(
    readings: Seq<Option<Rss>>,
    reading: Option<Rss>,
    pids: Seq<u32>,
    gpus: Seq<(u32, Vec<GpuProcess>)>,
    before: AttributedBytes,
    after: AttributedBytes,
)
    requires
        attributes(before, pids, gpus, readings),
        attributes(after, pids, gpus, readings.push(reading)),
    ensures
        readings.len() == 0 ==> before.rss.total == 0 && before.rss.owned == 0 && before.rss.file
            == 0,
        reading is None ==> after.rss == before.rss,
        reading matches Some(x) ==> {
            &&& before.rss.total + x.total <= u64::MAX ==> after.rss.total == before.rss.total
                + x.total
            &&& before.rss.owned + x.owned <= u64::MAX ==> after.rss.owned == before.rss.owned
                + x.owned
            &&& before.rss.file + x.file <= u64::MAX ==> after.rss.file == before.rss.file + x.file
            &&& before.rss.total + x.total > u64::MAX ==> after.rss.total == u64::MAX
            &&& before.rss.owned + x.owned > u64::MAX ==> after.rss.owned == u64::MAX
            &&& before.rss.file + x.file > u64::MAX ==> after.rss.file == u64::MAX
        },
        after.vram == before.vram,
{
    assert(readings.push(reading).drop_last() =~= readings);
}

/// The parent of a process is what the first entry for it says.
pub proof fn lemma_parent_by_first_entry(parents: Seq<(u32, u32)>, pid: u32)
    ensures
        match parent_of(parents, pid) {
            Some(p) => exists|i: int|
                0 <= i < parents.len() && #[trigger] parents[i] == (pid, p) && forall|j: int|
                    0 <= j < i ==> (#[trigger] parents[j]).0 != pid,
            None => forall|i: int| 0 <= i < parents.len() ==> (#[trigger] parents[i]).0 != pid,
        },
    decreases parents.len(),
{
    if parents.len() > 0 {
        let rest = parents.skip(1);
        lemma_parent_by_first_entry(rest, pid);
        if parents[0].0 == pid {
            assert(parents[0] == (pid, parents[0].1));
        } else {
            match parent_of(rest, pid) {
                Some(p) => {
                    let i = choose|i: int|
                        0 <= i < rest.len() && #[trigger] rest[i] == (pid, p) && forall|j: int|
                            0 <= j < i ==> (#[trigger] rest[j]).0 != pid;
                    assert(parents[i + 1] == (pid, p));
                    assert forall|j: int| 0 <= j < i + 1 implies (#[trigger] parents[j]).0
                        != pid by {
                        if j > 0 {
                            assert(rest[j - 1] == parents[j]);
                        }
                    }
                },
                None => {
                    assert forall|i: int| 0 <= i < parents.len() implies (#[trigger] parents[i]).0
                        != pid by {
                        if i > 0 {
                            assert(rest[i - 1] == parents[i]);
                        }
                    }
                },
            }
        }
    }
}

/// The processes of a service hold every registered one, every one in the
/// declared cgroup or below it, and with a process that descends from a
/// registered one every child of it. They are listed once each, in
/// ascending order.
pub proof fn lemma_own_processes_found(
    pids: Seq<u32>,
    registered: Seq<u32>,
    cgroup_parent: Option<&str>,
    parents: Seq<(u32, u32)>,
    cgroups: Seq<(u32, String)>,
)
    requires
        is_attributed_to(pids, registered, cgroup_parent, parents, cgroups),
    ensures
        forall|i: int| 0 <= i < registered.len() ==> pids.contains(#[trigger] registered[i]),
        forall|i: int|
            0 <= i < cgroups.len() && (cgroup_parent matches Some(c) && ((#[trigger] cgroups[i]).1@
                == c@ || exists|rest: Seq<char>| cgroups[i].1@ == c@ + "/"@ + rest)) ==> pids.contains(
                cgroups[i].0,
            ),
        cgroup_parent is None ==> forall|i: int|
            0 <= i < parents.len() && pids.contains((#[trigger] parents[i]).1) && (forall|j: int|
                0 <= j < i ==> (#[trigger] parents[j]).0 != parents[i].0) ==> pids.contains(
                parents[i].0,
            ),
        forall|i: int, j: int| 0 <= i < j < pids.len() ==> #[trigger] pids[i] < #[trigger] pids[j],
{
    assert forall|i: int| 0 <= i < registered.len() implies pids.contains(
        #[trigger] registered[i],
    ) by {
        assert(descends(parents, registered[i], registered[i]));
        assert(belongs(registered, cgroup_parent, parents, cgroups, registered[i]));
    }
    if let Some(c) = cgroup_parent {
        assert forall|i: int|
            0 <= i < cgroups.len() && ((#[trigger] cgroups[i]).1@ == c@ || exists|rest: Seq<char>|
                cgroups[i].1@ == c@ + "/"@ + rest) implies pids.contains(cgroups[i].0) by {
            let path = cgroups[i].1@;
            if path != c@ {
                let rest = choose|rest: Seq<char>| path == c@ + "/"@ + rest;
                assert((c@ + "/"@).is_prefix_of(path));
            }
            assert(under(path, c@));
            assert(belongs(registered, cgroup_parent, parents, cgroups, cgroups[i].0));
        }
    } else {
        assert forall|i: int|
            0 <= i < parents.len() && pids.contains((#[trigger] parents[i]).1) && (forall|j: int|
                0 <= j < i ==> (#[trigger] parents[j]).0 != parents[i].0) implies pids.contains(
            parents[i].0,
        ) by {
            let pid = parents[i].0;
            lemma_parent_by_first_entry(parents, pid);
            let p = parent_of(parents, pid)->0;
            let k = choose|k: int|
                0 <= k < parents.len() && #[trigger] parents[k] == (pid, p) && forall|j: int|
                    0 <= j < k ==> (#[trigger] parents[j]).0 != pid;
            assert(k == i);
            assert(belongs(registered, cgroup_parent, parents, cgroups, p));
            lemma_children_belong(registered, cgroup_parent, parents, cgroups, pid);
        }
    }
}

/// The processes of a service hold no others: whatever holds the registered
/// processes and those in the cgroup, and with every process its children,
/// holds them all.
pub proof fn lemma_no_other_processes_found(
    pids: Seq<u32>,
    registered: Seq<u32>,
    cgroup_parent: Option<&str>,
    parents: Seq<(u32, u32)>,
    cgroups: Seq<(u32, String)>,
    others: Set<u32>,
)
    requires
        is_attributed_to(pids, registered, cgroup_parent, parents, cgroups),
        forall|i: int| 0 <= i < registered.len() ==> others.contains(#[trigger] registered[i]),
        forall|i: int|
            0 <= i < parents.len() && others.contains((#[trigger] parents[i]).1) ==> others.contains(
                parents[i].0,
            ),
        forall|i: int|
            0 <= i < cgroups.len() && (cgroup_parent matches Some(c) && ((#[trigger] cgroups[i]).1@
                == c@ || exists|rest: Seq<char>| cgroups[i].1@ == c@ + "/"@ + rest))
                ==> others.contains(cgroups[i].0),
    ensures
        forall|pid: u32| #[trigger] pids.contains(pid) ==> others.contains(pid),
{
    assert forall|pid: u32| #[trigger] pids.contains(pid) implies others.contains(pid) by {
        assert(belongs(registered, cgroup_parent, parents, cgroups, pid));
        if descends_from_any(parents, registered, pid) {
            let i = choose|i: int|
                0 <= i < registered.len() && descends(parents, pid, #[trigger] registered[i]);
            lemma_reached_within(parents, pid, registered[i], parents.len(), others);
        } else {
            let c = cgroup_parent->0;
            let i = choose|i: int|
                0 <= i < cgroups.len() && (#[trigger] cgroups[i]).0 == pid && under(
                    cgroups[i].1@,
                    c@,
                );
            let path = cgroups[i].1@;
            if path != c@ {
                let lead = c@ + "/"@;
                let rest = path.skip(lead.len() as int);
                assert(path =~= c@ + "/"@ + rest);
            }
        }
    }
}

proof fn lemma_reached_within(
    parents: Seq<(u32, u32)>,
    pid: u32,
    root: u32,
    steps: nat,
    others: Set<u32>,
)
    requires
        reaches(parents, pid, root, steps),
        others.contains(root),
        forall|i: int|
            0 <= i < parents.len() && others.contains((#[trigger] parents[i]).1) ==> others.contains(
                parents[i].0,
            ),
    ensures
        others.contains(pid),
    decreases steps,
{
    if pid != root {
        let p = parent_of(parents, pid)->0;
        lemma_reached_within(parents, p, root, (steps - 1) as nat, others);
        lemma_parent_by_first_entry(parents, pid);
        let i = choose|i: int|
            0 <= i < parents.len() && #[trigger] parents[i] == (pid, p) && forall|j: int|
                0 <= j < i ==> (#[trigger] parents[j]).0 != pid;
        assert(others.contains(parents[i].1));
    }
}

} // verus!
