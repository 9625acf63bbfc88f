//! The survey of a host: the three detectors one after the other, and the
//! report at the end.
use crate::command::{CommandOutcome, OutcomeModel, Step, StepModel, ToolModel};
use crate::error::ErrorModel;
use crate::gpu::{
    get_gpu_info, gpu_advance, gpu_begin, gpu_run, gpu_run_ends, lemma_gpu_advance_wf, GpuScan,
    GpuScanModel, GpuSpec,
};
use crate::platform::{is_supported, unsupported};
use crate::ram::{get_ram_type, ram_advance, ram_begin, ram_type, RamTypeProbe};
use crate::report::{
    assemble, cpu_of, report_of, CpuSpec, HostSnapshot, ReportModel, ResourceReport,
    SnapshotModel,
};
use crate::storage::{
    get_storage_info, lemma_storage_advance_wf, storage_advance, storage_begin, storage_run,
    storage_run_ends, StorageScan, StorageScanModel, StorageSpec,
};
use vstd::prelude::*;

verus! {

/// What is known of a host before any tool has run.
#[derive(Debug, PartialEq, Eq)]
pub struct Host {
    /// The name of its operating system.
    pub os: String,
    /// The size of its memory in bytes.
    pub ram_size_bytes: u64,
    pub cpu: CpuSpec,
}

/// A `Host` as a mathematical value.
pub struct HostModel {
    pub os: Seq<char>,
    pub ram_size_bytes: u64,
    pub cpu: CpuSpec,
}

impl View for Host {
    type V = HostModel;

    open spec fn view(&self) -> HostModel {
        HostModel { os: self.os@, ram_size_bytes: self.ram_size_bytes, cpu: self.cpu }
    }
}

/// The detector that a survey is at, with what the detectors before it
/// found.
#[derive(Debug, PartialEq, Eq)]
pub enum SurveyPhase {
    RamType(RamTypeProbe),
    Storage { ram_technology: String, scan: StorageScan },
    Gpus { ram_technology: String, storage: StorageSpec, probing: GpuScan },
}

/// A `SurveyPhase` as a mathematical value.
pub enum SurveyPhaseModel {
    RamType,
    Storage { ram_technology: Seq<char>, scan: StorageScanModel },
    Gpus { ram_technology: Seq<char>, storage: StorageSpec, probing: GpuScanModel },
}

impl View for SurveyPhase {
    type V = SurveyPhaseModel;

    open spec fn view(&self) -> SurveyPhaseModel {
        match self {
            SurveyPhase::RamType(_) => SurveyPhaseModel::RamType,
            SurveyPhase::Storage { ram_technology, scan } => SurveyPhaseModel::Storage {
                ram_technology: ram_technology@,
                scan: scan@,
            },
            SurveyPhase::Gpus { ram_technology, storage, probing: scan } => SurveyPhaseModel::Gpus {
                ram_technology: ram_technology@,
                storage: *storage,
                probing: scan@,
            },
        }
    }
}

/// Where a survey stands while it waits for a tool.
#[derive(Debug, PartialEq, Eq)]
pub struct Survey {
    pub host: Host,
    pub phase: SurveyPhase,
}

/// A `Survey` as a mathematical value.
pub struct SurveyModel {
    pub host: HostModel,
    pub phase: SurveyPhaseModel,
}

impl View for Survey {
    type V = SurveyModel;

    open spec fn view(&self) -> SurveyModel {
        SurveyModel { host: self.host@, phase: self.phase@ }
    }
}

impl SurveyModel {
    /// A state that a survey can be in: the host runs Linux, and the
    /// detector that the survey is at is in a state that it can be in.
    pub open spec fn wf(self) -> bool {
        &&& is_supported(self.host.os)
        &&& match self.phase {
            SurveyPhaseModel::RamType => true,
            SurveyPhaseModel::Storage { ram_technology, scan } => scan.wf(),
            SurveyPhaseModel::Gpus { ram_technology, storage, probing: scan } => scan.wf(),
        }
    }
}

impl Survey {
    /// A state that a survey can be in.
    pub open spec fn wf(&self) -> bool {
        &&& self@.wf()
        &&& match self.phase {
            SurveyPhase::RamType(_) => true,
            SurveyPhase::Storage { ram_technology, scan } => scan.wf(),
            SurveyPhase::Gpus { ram_technology, storage, probing: scan } => scan.wf(),
        }
    }
}

/// The host that a survey starts from.
pub open spec fn host_of(os: Seq<char>, snapshot: SnapshotModel) -> HostModel {
    HostModel { os, ram_size_bytes: snapshot.total_memory_bytes, cpu: snapshot.cpu() }
}

/// The survey's step when the GPU detector has made `step`: the survey
/// waits where the detector waits and fails where it fails, and the
/// detector's finding completes the report.
pub open spec fn survey_after_gpus(
    host: HostModel,
    ram_technology: Seq<char>,
    storage: StorageSpec,
    step: StepModel<GpuScanModel, Seq<Seq<char>>>,
) -> StepModel<SurveyModel, ReportModel> {
    match step {
        StepModel::Run(tool, scan) => StepModel::Run(
            tool,
            SurveyModel { host, phase: SurveyPhaseModel::Gpus { ram_technology, storage, probing: scan } },
        ),
        StepModel::Failed(e) => StepModel::Failed(e),
        StepModel::Done(gpus) => StepModel::Done(
            report_of(host.ram_size_bytes, host.cpu, ram_technology, storage, gpus),
        ),
    }
}

/// The survey's step when the storage detector has made `step`: the survey
/// waits where the detector waits and fails where it fails, and after the
/// detector's finding the GPU detector begins.
pub open spec fn survey_after_storage(
    host: HostModel,
    ram_technology: Seq<char>,
    step: StepModel<StorageScanModel, StorageSpec>,
) -> StepModel<SurveyModel, ReportModel> {
    match step {
        StepModel::Run(tool, scan) => StepModel::Run(
            tool,
            SurveyModel { host, phase: SurveyPhaseModel::Storage { ram_technology, scan } },
        ),
        StepModel::Failed(e) => StepModel::Failed(e),
        StepModel::Done(storage) => survey_after_gpus(
            host,
            ram_technology,
            storage,
            gpu_begin(host.os),
        ),
    }
}

/// The survey's step when the RAM type detector has made `step`: the survey
/// waits where the detector waits and fails where it fails, and after the
/// detector's finding the storage detector begins.
pub open spec fn survey_after_ram(host: HostModel, step: StepModel<(), Seq<char>>) -> StepModel<
    SurveyModel,
    ReportModel,
> {
    match step {
        StepModel::Run(tool, _) => StepModel::Run(
            tool,
            SurveyModel { host, phase: SurveyPhaseModel::RamType },
        ),
        StepModel::Failed(e) => StepModel::Failed(e),
        StepModel::Done(ram_technology) => survey_after_storage(
            host,
            ram_technology,
            storage_begin(host.os),
        ),
    }
}

/// The first step of the survey of `host`: that of the RAM type detector.
pub open spec fn survey_begin(host: HostModel) -> StepModel<SurveyModel, ReportModel> {
    survey_after_ram(host, ram_begin(host.os))
}

/// The step of the survey in state `survey` when the tool that it waited
/// for came back with `outcome`: the outcome goes to the detector that the
/// survey is at.
pub open spec fn survey_advance(survey: SurveyModel, outcome: OutcomeModel) -> StepModel<
    SurveyModel,
    ReportModel,
> {
    match survey.phase {
        SurveyPhaseModel::RamType => survey_after_ram(survey.host, ram_advance(outcome)),
        SurveyPhaseModel::Storage { ram_technology, scan } => survey_after_storage(
            survey.host,
            ram_technology,
            storage_advance(scan, outcome),
        ),
        SurveyPhaseModel::Gpus { ram_technology, storage, probing: scan } => survey_after_gpus(
            survey.host,
            ram_technology,
            storage,
            gpu_advance(scan, outcome),
        ),
    }
}

/// The error with which the detector that `survey` is at fails when the
/// tool that it waited for comes back with `outcome`, if it fails.
pub open spec fn detector_failure(survey: SurveyModel, outcome: OutcomeModel) -> Option<
    ErrorModel,
> {
    match survey.phase {
        SurveyPhaseModel::RamType => match ram_advance(outcome) {
            StepModel::Failed(e) => Some(e),
            _ => None,
        },
        SurveyPhaseModel::Storage { ram_technology, scan } => match storage_advance(
            scan,
            outcome,
        ) {
            StepModel::Failed(e) => Some(e),
            _ => None,
        },
        SurveyPhaseModel::Gpus { ram_technology, storage, probing: scan } => match gpu_advance(
            scan,
            outcome,
        ) {
            StepModel::Failed(e) => Some(e),
            _ => None,
        },
    }
}

/// A survey begins with `dmidecode` for the RAM type detector, and on a
/// host that does not run Linux it fails before any tool has run.
pub proof fn lemma_survey_begins(host: HostModel)
    ensures
        is_supported(host.os) ==> survey_begin(host) == StepModel::<
            SurveyModel,
            ReportModel,
        >::Run(ToolModel::Dmidecode, SurveyModel { host, phase: SurveyPhaseModel::RamType }),
        !is_supported(host.os) ==> survey_begin(host) == StepModel::<
            SurveyModel,
            ReportModel,
        >::Failed(unsupported()),
{
}

/// A survey fails exactly when the detector that it is at fails, and with
/// that detector's error: no detector runs after one that has failed.
pub proof fn lemma_survey_fails_with_detector(survey: SurveyModel, outcome: OutcomeModel)
    requires
        survey.wf(),
    ensures
        match survey_advance(survey, outcome) {
            StepModel::Failed(e) => detector_failure(survey, outcome) == Some(e),
            _ => detector_failure(survey, outcome) is None,
        },
{
}

/// A survey goes through the detectors in one order: RAM type, storage,
/// GPUs. While it waits it keeps the host and what the detectors before
/// found, and the state that it waits in is one that it can be in.
pub proof fn lemma_survey_order(survey: SurveyModel, outcome: OutcomeModel)
    requires
        survey.wf(),
    ensures
        survey_advance(survey, outcome) matches StepModel::Run(tool, next) ==> {
            &&& next.wf()
            &&& next.host == survey.host
            &&& match survey.phase {
                SurveyPhaseModel::RamType => tool == ToolModel::Lsblk && next.phase
                    == (SurveyPhaseModel::Storage {
                    ram_technology: ram_type(outcome->stdout),
                    scan: StorageScanModel::Listing,
                }),
                SurveyPhaseModel::Storage { ram_technology, scan } => match next.phase {
                    SurveyPhaseModel::RamType => false,
                    SurveyPhaseModel::Storage { ram_technology: kept, scan: _ } => kept
                        == ram_technology,
                    SurveyPhaseModel::Gpus { ram_technology: kept, storage, probing: begun } => {
                        &&& kept == ram_technology
                        &&& tool == ToolModel::Lspci
                        &&& begun == GpuScanModel::Listing
                        &&& storage_advance(scan, outcome) == StepModel::<
                            StorageScanModel,
                            StorageSpec,
                        >::Done(storage)
                    },
                },
                SurveyPhaseModel::Gpus { ram_technology, storage, probing: scan } => match next.phase {
                    SurveyPhaseModel::Gpus { ram_technology: kept, storage: found, probing: _ } => kept
                        == ram_technology && found == storage,
                    _ => false,
                },
            }
        },
{
    match survey.phase {
        SurveyPhaseModel::RamType => {},
        SurveyPhaseModel::Storage { ram_technology, scan } => {
            lemma_storage_advance_wf(scan, outcome);
        },
        SurveyPhaseModel::Gpus { ram_technology, storage, probing: scan } => {
            lemma_gpu_advance_wf(scan, outcome);
        },
    }
}

/// A survey ends with a report only at the GPU detector, and the report
/// holds the host's memory and processor, what the detectors before found,
/// and the GPU detector's finding, which is never empty.
pub proof fn lemma_survey_report(survey: SurveyModel, outcome: OutcomeModel)
    requires
        survey.wf(),
    ensures
        survey_advance(survey, outcome) matches StepModel::Done(report) ==> {
            &&& report.wf()
            &&& report.resource.ram_size_bytes == survey.host.ram_size_bytes
            &&& report.resource.cpu == survey.host.cpu
            &&& survey.phase matches SurveyPhaseModel::Gpus { ram_technology, storage, probing: scan }
            &&& report.resource.ram_technology == ram_technology
            &&& report.resource.storage == storage
            &&& gpu_advance(scan, outcome) == StepModel::<GpuScanModel, Seq<Seq<char>>>::Done(
                report.resource.gpus,
            )
        },
{
    match survey.phase {
        SurveyPhaseModel::Gpus { ram_technology, storage, probing: scan } => {
            lemma_gpu_advance_wf(scan, outcome);
        },
        _ => {},
    }
}

/// The step that the survey has come to from `step` once the tools that it
/// asked for have come back with `outcomes`, one after the other.
pub open spec fn survey_run(
    step: StepModel<SurveyModel, ReportModel>,
    outcomes: Seq<OutcomeModel>,
) -> StepModel<SurveyModel, ReportModel>
    decreases outcomes.len(),
{
    match step {
        StepModel::Run(_, survey) => if outcomes.len() > 0 {
            survey_run(survey_advance(survey, outcomes[0]), outcomes.drop_first())
        } else {
            step
        },
        _ => step,
    }
}

/// While the GPU detector runs, the survey does what the detector does, and
/// ends as the detector's end says.
pub proof fn lemma_survey_runs_gpus(
    host: HostModel,
    ram_technology: Seq<char>,
    storage: StorageSpec,
    step: StepModel<GpuScanModel, Seq<Seq<char>>>,
    outcomes: Seq<OutcomeModel>,
)
    requires
        gpu_run_ends(step, outcomes),
    ensures
        survey_run(survey_after_gpus(host, ram_technology, storage, step), outcomes)
            == survey_after_gpus(host, ram_technology, storage, gpu_run(step, outcomes)),
        !(gpu_run(step, outcomes) is Run),
    decreases outcomes.len(),
{
    match step {
        StepModel::Run(_, scan) => {
            lemma_survey_runs_gpus(
                host,
                ram_technology,
                storage,
                gpu_advance(scan, outcomes[0]),
                outcomes.drop_first(),
            );
        },
        _ => {},
    }
}

/// While the storage detector runs, the survey does what the detector does;
/// when it has ended, the survey goes on as the detector's end says.
pub proof fn lemma_survey_runs_storage(
    host: HostModel,
    ram_technology: Seq<char>,
    step: StepModel<StorageScanModel, StorageSpec>,
    outcomes: Seq<OutcomeModel>,
    later: Seq<OutcomeModel>,
)
    requires
        storage_run_ends(step, outcomes),
    ensures
        survey_run(survey_after_storage(host, ram_technology, step), outcomes + later)
            == survey_run(
            survey_after_storage(host, ram_technology, storage_run(step, outcomes)),
            later,
        ),
        !(storage_run(step, outcomes) is Run),
    decreases outcomes.len(),
{
    match step {
        StepModel::Run(_, scan) => {
            let all = outcomes + later;
            assert(all[0] == outcomes[0]);
            assert(all.drop_first() =~= outcomes.drop_first() + later);
            lemma_survey_runs_storage(
                host,
                ram_technology,
                storage_advance(scan, outcomes[0]),
                outcomes.drop_first(),
                later,
            );
        },
        _ => {
            assert(outcomes + later =~= later);
        },
    }
}

/// A survey on Linux ends as its detectors end. Let `dmidecode` come back
/// with `memory`, let the storage detector ask for exactly the tools that
/// `disks` answers, and the GPU detector for exactly those that `cards`
/// answers. Then the survey asks for these tools in this order, and it ends
/// with the error of the first detector that fails, the RAM type detector
/// coming first, then storage, then GPUs; where none fails it ends with
/// the report of their three findings.
pub proof fn lemma_survey_run(
    host: HostModel,
    memory: OutcomeModel,
    disks: Seq<OutcomeModel>,
    cards: Seq<OutcomeModel>,
)
    requires
        is_supported(host.os),
        storage_run_ends(storage_begin(host.os), disks),
        gpu_run_ends(gpu_begin(host.os), cards),
    ensures
        ({
            let end = survey_run(survey_begin(host), seq![memory] + disks + cards);
            match ram_advance(memory) {
                StepModel::Failed(e) => end == StepModel::<SurveyModel, ReportModel>::Failed(e),
                StepModel::Done(ram_technology) => match storage_run(
                    storage_begin(host.os),
                    disks,
                ) {
                    StepModel::Failed(e) => end == StepModel::<SurveyModel, ReportModel>::Failed(
                        e,
                    ),
                    StepModel::Done(storage) => match gpu_run(gpu_begin(host.os), cards) {
                        StepModel::Failed(e) => end == StepModel::<
                            SurveyModel,
                            ReportModel,
                        >::Failed(e),
                        StepModel::Done(gpus) => end == StepModel::<
                            SurveyModel,
                            ReportModel,
                        >::Done(
                            report_of(
                                host.ram_size_bytes,
                                host.cpu,
                                ram_technology,
                                storage,
                                gpus,
                            ),
                        ),
                        StepModel::Run(_, _) => false,
                    },
                    StepModel::Run(_, _) => false,
                },
                StepModel::Run(_, _) => false,
            }
        }),
{
    let all = seq![memory] + disks + cards;
    let later = disks + cards;
    let waiting = SurveyModel { host, phase: SurveyPhaseModel::RamType };
    let after = survey_advance(waiting, memory);
    assert(all[0] == memory);
    assert(all.drop_first() =~= later);
    assert(survey_run(survey_begin(host), all) == survey_run(after, later));
    match ram_advance(memory) {
        StepModel::Done(ram_technology) => {
            lemma_survey_runs_storage(
                host,
                ram_technology,
                storage_begin(host.os),
                disks,
                cards,
            );
            match storage_run(storage_begin(host.os), disks) {
                StepModel::Done(storage) => {
                    lemma_survey_runs_gpus(
                        host,
                        ram_technology,
                        storage,
                        gpu_begin(host.os),
                        cards,
                    );
                },
                StepModel::Failed(e) => {
                    assert(survey_run(StepModel::<SurveyModel, ReportModel>::Failed(e), cards)
                        == StepModel::<SurveyModel, ReportModel>::Failed(e));
                },
                StepModel::Run(_, _) => {},
            }
        },
        StepModel::Failed(e) => {
            assert(survey_run(after, later) == after);
        },
        StepModel::Run(_, _) => {},
    }
}

/// The survey's step when the GPU detector has made `step`.
fn after_gpus(
    host: Host,
    ram_technology: String,
    storage: StorageSpec,
    step: Step<GpuScan, Vec<GpuSpec>>,
) -> (r: Step<Survey, ResourceReport>)
    requires
        step matches Step::Run(_, scan) ==> scan.wf() && is_supported(host.os@),
    ensures
        r@ == survey_after_gpus(host@, ram_technology@, storage, step@),
        r matches Step::Run(_, next) ==> next.wf(),
{
    match step {
        Step::Run(tool, scan) => Step::Run(
            tool,
            Survey { host, phase: SurveyPhase::Gpus { ram_technology, storage, probing: scan } },
        ),
        Step::Failed(e) => Step::Failed(e),
        Step::Done(gpus) => Step::Done(
            assemble(host.ram_size_bytes, host.cpu, ram_technology, storage, gpus),
        ),
    }
}

/// The survey's step when the storage detector has made `step`.
fn after_storage(host: Host, ram_technology: String, step: Step<StorageScan, StorageSpec>) -> (r:
    Step<Survey, ResourceReport>)
    requires
        step matches Step::Run(_, scan) ==> scan.wf() && is_supported(host.os@),
    ensures
        r@ == survey_after_storage(host@, ram_technology@, step@),
        r matches Step::Run(_, next) ==> next.wf(),
{
    match step {
        Step::Run(tool, scan) => Step::Run(
            tool,
            Survey { host, phase: SurveyPhase::Storage { ram_technology, scan } },
        ),
        Step::Failed(e) => Step::Failed(e),
        Step::Done(storage) => {
            let begun: Step<GpuScan, Vec<GpuSpec>> = get_gpu_info(host.os.as_str());
            after_gpus(host, ram_technology, storage, begun)
        },
    }
}

/// The survey's step when the RAM type detector has made `step`.
fn after_ram(host: Host, step: Step<RamTypeProbe, String>) -> (r: Step<Survey, ResourceReport>)
    requires
        step is Run ==> is_supported(host.os@),
    ensures
        r@ == survey_after_ram(host@, step@),
        r matches Step::Run(_, next) ==> next.wf(),
{
    match step {
        Step::Run(tool, probe) => Step::Run(
            tool,
            Survey { host, phase: SurveyPhase::RamType(probe) },
        ),
        Step::Failed(e) => Step::Failed(e),
        Step::Done(ram_technology) => {
            let begun: Step<StorageScan, StorageSpec> = get_storage_info(host.os.as_str());
            after_storage(host, ram_technology, begun)
        },
    }
}

/// Begins the survey of a host whose operating system is `os` and of which
/// the system reports `snapshot`: asks for the first tool, or fails where
/// the host does not run Linux.
pub fn get_system_info(os: &str, snapshot: &HostSnapshot) -> (r: Step<Survey, ResourceReport>)
    requires
        snapshot@.clock_fits(),
    ensures
        r@ == survey_begin(host_of(os@, snapshot@)),
        r matches Step::Run(_, next) ==> next.wf(),
{
    let host = Host {
        os: String::from_str(os),
        ram_size_bytes: snapshot.total_memory_bytes,
        cpu: cpu_of(snapshot),
    };
    let begun: Step<RamTypeProbe, String> = get_ram_type(os);
    after_ram(host, begun)
}

impl Survey {
    /// Takes the outcome of the tool that the survey waited for, and says
    /// what comes next: another tool, the report, or the error that ends
    /// the survey.
    pub fn advance(self, outcome: CommandOutcome) -> (r: Step<Survey, ResourceReport>)
        requires
            self.wf(),
        ensures
            r@ == survey_advance(self@, outcome@),
            r matches Step::Run(_, next) ==> next.wf(),
            r matches Step::Done(report) ==> report.deep_view().wf(),
    {
        proof {
            lemma_survey_report(self@, outcome@);
        }
        let Survey { host, phase } = self;
        match phase {
            SurveyPhase::RamType(probe) => after_ram(host, probe.advance(outcome)),
            SurveyPhase::Storage { ram_technology, scan } => {
                let step: Step<StorageScan, StorageSpec> = scan.advance(outcome);
                after_storage(host, ram_technology, step)
            },
            SurveyPhase::Gpus { ram_technology, storage, probing: scan } => {
                let step: Step<GpuScan, Vec<GpuSpec>> = scan.advance(outcome);
                after_gpus(host, ram_technology, storage, step)
            },
        }
    }
}

} // verus!
