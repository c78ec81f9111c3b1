//! The memory that services are seen to use.

use ananke::devices::attribution::{
    attributed_bytes_split, attributed_pid_set, in_cgroup_subtree, is_tracked, AttributedBytes,
    GpuProcess, Rss,
};
use ananke::devices::snapshot::{CpuSnapshot, DeviceSnapshot, GpuInfo, GpuMemory};

fn cgroups(list: &[(u32, &str)]) -> Vec<(u32, String)> {
    list.iter().map(|(p, c)| (*p, c.to_string())).collect()
}

#[test]
fn attribution_includes_descendants() {
    // Tree: 100 (registered) → 200 (worker) → 300 (sub-worker).
    // Unrelated pid 999 must not be picked up.
    let parents = [(200, 100), (300, 200), (999, 1)];
    let pids = attributed_pid_set(&[100], None, &parents, &[]);
    assert_eq!(pids, vec![100, 200, 300]);
}

#[test]
fn attribution_unions_cgroup_pids() {
    let parents = [(50, 10), (700, 1), (701, 1)];
    let groups = cgroups(&[
        (700, "/system.slice/ananke-comfyui.slice/docker-abc.scope"),
        // Sibling cgroup that must NOT match.
        (701, "/system.slice/other.scope"),
    ]);
    let pids = attributed_pid_set(
        &[10],
        Some("/system.slice/ananke-comfyui.slice"),
        &parents,
        &groups,
    );
    assert_eq!(pids, vec![10, 50, 700]);
}

#[test]
fn container_cgroup_worker_is_attributed() {
    let parents = [(900, 1), (901, 900), (950, 1)];
    let groups = cgroups(&[
        (
            900,
            "/ananke.slice/ananke-muse-glimmer.slice/docker-deadbeef.scope",
        ),
        (
            901,
            "/ananke.slice/ananke-muse-glimmer.slice/docker-deadbeef.scope",
        ),
        (950, "/ananke.slice/ananke-ninfer.slice/docker-cafe.scope"),
    ]);
    let pids = attributed_pid_set(
        &[],
        Some("/ananke.slice/ananke-muse-glimmer.slice"),
        &parents,
        &groups,
    );
    assert_eq!(pids, vec![900, 901]);
}

#[test]
fn descendants_of_pid_zero_reach_everything() {
    // The real /proc shape: init and kthreadd both report ppid 0.
    let parents = [(1, 0), (2, 0), (500, 1), (501, 500)];
    let everything = attributed_pid_set(&[0], None, &parents, &[]);
    assert!(
        everything.len() > 4,
        "registering pid 0 sweeps up unrelated processes: {everything:?}"
    );
    // A real pid stays confined to its own subtree.
    let confined = attributed_pid_set(&[500], None, &parents, &[]);
    assert_eq!(
        confined,
        vec![500, 501],
        "a real root attributes only its own descendants"
    );
}

#[test]
fn a_circle_of_parents_is_walked_once() {
    let parents = [(1, 2), (2, 3), (3, 1), (9, 3)];
    assert_eq!(attributed_pid_set(&[1], None, &parents, &[]), vec![1, 2, 3, 9]);
    assert_eq!(attributed_pid_set(&[9], None, &parents, &[]), vec![9]);
    assert_eq!(attributed_pid_set(&[7, 7], None, &parents, &[]), vec![7]);
}

#[test]
fn a_cgroup_holds_itself_and_what_stands_under_it() {
    assert!(in_cgroup_subtree("/a.slice", "/a.slice"));
    assert!(in_cgroup_subtree("/a.slice/b", "/a.slice"));
    assert!(!in_cgroup_subtree("/a.slice2", "/a.slice"));
    assert!(!in_cgroup_subtree("/", "/a.slice"));
}

#[test]
fn attributed_bytes_split_keeps_vram_and_rss_apart() {
    let pid_set = [10, 50, 700];
    let gpu_processes = vec![(
        0u32,
        vec![GpuProcess {
            pid: 700,
            used_bytes: 10_000_000_000, // 10 GB VRAM on the container pid.
            name: "python".into(),
        }],
    )];
    let readings = [
        None,
        // 1 GB RSS on a descendant.
        Some(Rss {
            total: 1_000_000_000,
            owned: 0,
            file: 0,
        }),
        None,
    ];
    let AttributedBytes { vram, rss, .. } =
        attributed_bytes_split(&pid_set, &gpu_processes, &readings);
    assert_eq!(vram, 10_000_000_000);
    assert_eq!(rss.total, 1_000_000_000);
}

#[test]
fn sums_stop_at_the_largest_number() {
    let process = |pid: u32, used_bytes: u64| GpuProcess {
        pid,
        used_bytes,
        name: String::new(),
    };
    let gpus = vec![
        (0u32, vec![process(1, u64::MAX), process(2, 5)]),
        (1u32, vec![process(1, 3)]),
    ];
    let held = attributed_bytes_split(&[1], &gpus, &[]);
    assert_eq!(held.vram, u64::MAX);
    assert_eq!(held.rss.total, 0);
    assert!(held.is_reading());
    let parts = Rss {
        total: 6,
        owned: 2,
        file: 4,
    };
    let host = attributed_bytes_split(&[9], &gpus, &[Some(parts), Some(parts)]);
    assert_eq!(
        (host.vram, host.rss.total, host.rss.owned, host.rss.file),
        (0, 12, 4, 8)
    );
    assert!(!attributed_bytes_split(&[9], &gpus, &[None]).is_reading());
}

#[test]
fn attribution_empty_when_no_inputs() {
    let set = attributed_pid_set(&[], None, &[], &[]);
    assert!(set.is_empty());
    assert!(!is_tracked(&[], None));
    assert!(is_tracked(&[1], None));
    assert!(is_tracked(&[], Some("/a")));
}

#[test]
fn sampler_populates_snapshot() {
    let gib: u64 = 1024 * 1024 * 1024;
    let listed = vec![
        (
            GpuInfo {
                id: 0,
                name: "Test".into(),
                total_bytes: 24 * gib,
            },
            Some(GpuMemory {
                total_bytes: 24 * gib,
                free_bytes: 20 * gib,
            }),
        ),
        (
            GpuInfo {
                id: 1,
                name: "Gone".into(),
                total_bytes: 24 * gib,
            },
            None,
        ),
    ];
    let s = DeviceSnapshot::new(&listed[..1], None, 5);
    assert_eq!(s.gpus.len(), 1);
    assert_eq!(s.gpus[0].free_bytes, 20 * gib);
    assert_eq!(s.gpus[0].name, "Test");
    assert_eq!(s.taken_at_ms, 5);
    assert!(!s.is_empty());
    // A GPU whose memory could not be asked for shows nothing.
    let both = DeviceSnapshot::new(&listed, None, 5);
    assert_eq!((both.gpus[1].total_bytes, both.gpus[1].free_bytes), (0, 0));
    assert!(DeviceSnapshot::new(&[], None, 5).is_empty());
    let host = CpuSnapshot {
        total_bytes: 2,
        available_bytes: 1,
    };
    assert!(!DeviceSnapshot::new(&[], Some(host), 5).is_empty());
}
