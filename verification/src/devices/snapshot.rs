//! The memory of all devices at one time.

use vstd::prelude::*;

verus! {

/// A GPU as the driver lists it.
#[derive(Debug, PartialEq, Eq)]
pub struct GpuInfo {
    pub id: u32,
    pub name: String,
    pub total_bytes: u64,
}

/// The memory of a GPU as the driver tells it.
#[derive(Debug, Clone, Copy, PartialEq, Eq, Structural)]
pub struct GpuMemory {
    pub total_bytes: u64,
    pub free_bytes: u64,
}

/// The memory of a GPU in a snapshot.
#[derive(Debug, PartialEq, Eq)]
pub struct GpuSnapshot {
    pub id: u32,
    pub name: String,
    pub total_bytes: u64,
    pub free_bytes: u64,
}

/// The memory of the host in a snapshot.
#[derive(Debug, Clone, Copy, PartialEq, Eq, Structural)]
pub struct CpuSnapshot {
    pub total_bytes: u64,
    pub available_bytes: u64,
}

/// The memory of all devices at one time.
#[derive(Debug, PartialEq, Eq)]
pub struct DeviceSnapshot {
    pub gpus: Vec<GpuSnapshot>,
    pub cpu: Option<CpuSnapshot>,
    pub taken_at_ms: u64,
}

/// Whether `g` shows the listed GPU, with nothing where its memory could not
/// be asked for.
pub open spec fn shows(g: GpuSnapshot, info: GpuInfo, memory: Option<GpuMemory>) -> bool {
    &&& g.id == info.id
    &&& g.name@ == info.name@
    &&& g.total_bytes == (match memory {
        Some(m) => m.total_bytes,
        None => 0,
    })
    &&& g.free_bytes == (match memory {
        Some(m) => m.free_bytes,
        None => 0,
    })
}

impl DeviceSnapshot {
    /// The snapshot of the listed GPUs, in their order, and of the host.
    pub fn new(
        listed: &[(GpuInfo, Option<GpuMemory>)],
        cpu: Option<CpuSnapshot>,
        taken_at_ms: u64,
    ) -> (r: Self)
        ensures
            r.gpus@.len() == listed@.len(),
            forall|i: int|
                0 <= i < listed@.len() ==> shows(
                    #[trigger] r.gpus@[i],
                    listed@[i].0,
                    listed@[i].1,
                ),
            r.cpu == cpu,
            r.taken_at_ms == taken_at_ms,
    {
        let mut gpus: Vec<GpuSnapshot> = Vec::new();
        for i in 0..listed.len()
            invariant
                gpus@.len() == i,
                forall|j: int|
                    0 <= j < i ==> shows(#[trigger] gpus@[j], listed@[j].0, listed@[j].1),
        {
            let (total_bytes, free_bytes): (u64, u64) = match listed[i].1 {
                Some(m) => (m.total_bytes, m.free_bytes),
                None => (0, 0),
            };
            gpus.push(
                GpuSnapshot {
                    id: listed[i].0.id,
                    name: listed[i].0.name.clone(),
                    total_bytes,
                    free_bytes,
                },
            );
        }
        DeviceSnapshot { gpus, cpu, taken_at_ms }
    }

    /// Whether nothing could be read at all.
    pub fn is_empty(&self) -> (r: bool)
        ensures
            r == (self.gpus@.len() == 0 && self.cpu is None),
    {
        self.gpus.len() == 0 && self.cpu.is_none()
    }
}

/// A snapshot tells of each GPU what the driver told of that one: its number
/// and name as listed, its memory as asked for, and none where the driver
/// did not answer.
pub proof fn lemma_gpu_shown(g: GpuSnapshot, info: GpuInfo, memory: Option<GpuMemory>)
    requires
        shows(g, info, memory),
    ensures
        g.id == info.id,
        g.name@ == info.name@,
        memory matches Some(m) ==> g.total_bytes == m.total_bytes && g.free_bytes == m.free_bytes,
        memory is None ==> g.total_bytes == 0 && g.free_bytes == 0,
{
}

} // verus!
