//! The record that the findings are assembled into.
use crate::gpu::{or_unknown, GpuSpec};
use crate::storage::StorageSpec;
use vstd::prelude::*;

verus! {

/// The memory of the host.
#[derive(Debug, Clone, PartialEq, Eq)]
pub struct RamSpec {
    /// The size of the memory in bytes.
    pub size_bytes: u64,
    /// The memory technology, such as `DDR4`, or `Unknown`.
    pub technology: String,
}

/// The processor of the host.
#[derive(Debug, Clone, Copy, PartialEq, Eq, Structural)]
pub struct CpuSpec {
    /// The number of logical processors.
    pub core_count: u32,
    /// The clock rate of the first of them, in hertz; 0 where none is known.
    pub clock_hz: u64,
}

/// The hardware of the host.
#[derive(Debug, Clone, PartialEq, Eq)]
pub struct Resource {
    pub ram: RamSpec,
    pub storage: StorageSpec,
    /// The GPUs, in the order in which they were found. Never empty: a host
    /// on which none was found has the one unknown model.
    pub gpus: Vec<GpuSpec>,
    pub cpu: CpuSpec,
}

/// The inventory of a host.
#[derive(Debug, Clone, PartialEq, Eq)]
pub struct ResourceReport {
    pub name: String,
    pub description: String,
    pub network: String,
    pub kind: String,
    pub resource: Resource,
}

/// What the operating system reports of processor and memory at one moment.
#[derive(Debug, Clone, PartialEq, Eq)]
pub struct HostSnapshot {
    /// The clock rate of each logical processor, in megahertz, in the order
    /// in which the system reports them.
    pub cpu_mhz: Vec<u64>,
    /// The size of the memory, in bytes.
    pub total_memory_bytes: u64,
}

/// A `HostSnapshot` as a mathematical value.
pub struct SnapshotModel {
    pub cpu_mhz: Seq<u64>,
    pub total_memory_bytes: u64,
}

/// A `Resource` as a mathematical value.
pub struct ResourceModel {
    pub ram_size_bytes: u64,
    pub ram_technology: Seq<char>,
    pub storage: StorageSpec,
    pub gpus: Seq<Seq<char>>,
    pub cpu: CpuSpec,
}

/// A `ResourceReport` as a mathematical value.
pub struct ReportModel {
    pub name: Seq<char>,
    pub description: Seq<char>,
    pub network: Seq<char>,
    pub kind: Seq<char>,
    pub resource: ResourceModel,
}

impl View for HostSnapshot {
    type V = SnapshotModel;

    open spec fn view(&self) -> SnapshotModel {
        SnapshotModel { cpu_mhz: self.cpu_mhz@, total_memory_bytes: self.total_memory_bytes }
    }
}

impl DeepView for Resource {
    type V = ResourceModel;

    open spec fn deep_view(&self) -> ResourceModel {
        ResourceModel {
            ram_size_bytes: self.ram.size_bytes,
            ram_technology: self.ram.technology@,
            storage: self.storage,
            gpus: self.gpus.deep_view(),
            cpu: self.cpu,
        }
    }
}

impl DeepView for ResourceReport {
    type V = ReportModel;

    open spec fn deep_view(&self) -> ReportModel {
        ReportModel {
            name: self.name@,
            description: self.description@,
            network: self.network@,
            kind: self.kind@,
            resource: self.resource.deep_view(),
        }
    }
}

impl SnapshotModel {
    /// The clock rate of the first processor in hertz, and 0 where the
    /// system reports no processor.
    pub open spec fn clock_hz(self) -> int {
        if self.cpu_mhz.len() > 0 {
            self.cpu_mhz[0] * 1_000_000
        } else {
            0
        }
    }

    /// Whether the clock rate in hertz can be held in 64 bits.
    pub open spec fn clock_fits(self) -> bool {
        self.clock_hz() <= u64::MAX
    }

    /// The processor that the snapshot describes: as many cores as the
    /// system reports processors, counted in 32 bits.
    pub open spec fn cpu(self) -> CpuSpec {
        CpuSpec { core_count: self.cpu_mhz.len() as u32, clock_hz: self.clock_hz() as u64 }
    }
}

impl ReportModel {
    /// What every report holds: the four fixed texts, and at least one GPU.
    pub open spec fn wf(self) -> bool {
        &&& self.name == "example"@
        &&& self.description == "Configuration"@
        &&& self.network == "dev"@
        &&& self.kind == "operator"@
        &&& self.resource.gpus.len() > 0
    }
}

/// The report of a host with this memory and processor, on which the
/// detectors found this memory technology, storage and list of GPUs.
pub open spec fn report_of(
    ram_size_bytes: u64,
    cpu: CpuSpec,
    ram_technology: Seq<char>,
    storage: StorageSpec,
    gpus: Seq<Seq<char>>,
) -> ReportModel {
    ReportModel {
        name: "example"@,
        description: "Configuration"@,
        network: "dev"@,
        kind: "operator"@,
        resource: ResourceModel {
            ram_size_bytes,
            ram_technology,
            storage,
            gpus: or_unknown(gpus),
            cpu,
        },
    }
}

/// The processor that `snapshot` describes.
pub fn cpu_of(snapshot: &HostSnapshot) -> (cpu: CpuSpec)
    requires
        snapshot@.clock_fits(),
    ensures
        cpu == snapshot@.cpu(),
        snapshot.cpu_mhz.len() <= u32::MAX ==> cpu.core_count == snapshot.cpu_mhz.len(),
        snapshot.cpu_mhz.len() == 0 ==> cpu.clock_hz == 0,
        snapshot.cpu_mhz.len() > 0 ==> cpu.clock_hz == snapshot.cpu_mhz[0] * 1_000_000,
{
    let core_count: u32 = #[verifier::truncate]
    (snapshot.cpu_mhz.len() as u32);
    let clock_hz: u64 = if snapshot.cpu_mhz.len() > 0 {
        snapshot.cpu_mhz[0] * 1_000_000
    } else {
        0
    };
    CpuSpec { core_count, clock_hz }
}

/// Assembles the report from the findings.
pub fn assemble(
    ram_size_bytes: u64,
    cpu: CpuSpec,
    ram_technology: String,
    storage: StorageSpec,
    gpus: Vec<GpuSpec>,
) -> (report: ResourceReport)
    ensures
        report.deep_view() == report_of(
            ram_size_bytes,
            cpu,
            ram_technology@,
            storage,
            gpus.deep_view(),
        ),
        report.deep_view().wf(),
{
    let mut listed: Vec<GpuSpec> = gpus;
    if listed.len() == 0 {
        listed.push(GpuSpec { model: String::from_str("Unknown GPU") });
        assert(listed.deep_view() =~= or_unknown(gpus.deep_view()));
    }
    ResourceReport {
        name: String::from_str("example"),
        description: String::from_str("Configuration"),
        network: String::from_str("dev"),
        kind: String::from_str("operator"),
        resource: Resource {
            ram: RamSpec { size_bytes: ram_size_bytes, technology: ram_technology },
            storage,
            gpus: listed,
            cpu,
        },
    }
}

} // verus!
