//! The storage detector: the largest block device that `lsblk` lists, and
//! what kind of drive it is.
use crate::command::{
    require_stdout, stdout_if_successful, successful_stdout, required_stdout, CommandOutcome,
    OutcomeModel, Step, StepModel, Tool, ToolModel,
};
use crate::error::{ErrorModel, PlatformError};
use crate::fields::{lines, lines_of, words, words_of};
use crate::number::{parse_u64_or_zero, parse_unsigned};
use crate::platform::{check_platform, is_supported, unsupported};
use crate::text::{
    chars_of, contains, starts_with, str_contains, str_is, str_starts_with, string_of, views,
};
use vstd::prelude::*;

verus! {

/// The kind of drive that the largest block device is.
#[derive(Debug, Clone, Copy, PartialEq, Eq, Structural)]
pub enum StorageTechnology {
    NvmeGen4,
    NvmeGen3,
    Nvme,
    SataSsd,
    SataHdd,
    Unknown,
}

impl StorageTechnology {
    /// The name under which a report gives the kind.
    pub open spec fn label_text(self) -> Seq<char> {
        match self {
            StorageTechnology::NvmeGen4 => "NVMeGen4"@,
            StorageTechnology::NvmeGen3 => "NVMeGen3"@,
            StorageTechnology::Nvme => "NVMe"@,
            StorageTechnology::SataSsd => "SATA SSD"@,
            StorageTechnology::SataHdd => "SATA HDD"@,
            StorageTechnology::Unknown => "Unknown"@,
        }
    }

    /// The kind that a report gives under `name`, if `name` is the label of
    /// a kind.
    pub fn from_label(name: &str) -> (r: Option<StorageTechnology>)
        ensures
            match r {
                Some(kind) => kind.label_text() == name@,
                None => forall|kind: StorageTechnology| kind.label_text() != name@,
            },
    {
        let found: Option<StorageTechnology> = if str_is(name, "NVMeGen4") {
            Some(StorageTechnology::NvmeGen4)
        } else if str_is(name, "NVMeGen3") {
            Some(StorageTechnology::NvmeGen3)
        } else if str_is(name, "NVMe") {
            Some(StorageTechnology::Nvme)
        } else if str_is(name, "SATA SSD") {
            Some(StorageTechnology::SataSsd)
        } else if str_is(name, "SATA HDD") {
            Some(StorageTechnology::SataHdd)
        } else if str_is(name, "Unknown") {
            Some(StorageTechnology::Unknown)
        } else {
            None
        };
        proof {
            if found is None {
                assert forall|kind: StorageTechnology| kind.label_text() != name@ by {
                    match kind {
                        StorageTechnology::NvmeGen4 => {},
                        StorageTechnology::NvmeGen3 => {},
                        StorageTechnology::Nvme => {},
                        StorageTechnology::SataSsd => {},
                        StorageTechnology::SataHdd => {},
                        StorageTechnology::Unknown => {},
                    }
                }
            }
        }
        found
    }

    /// The name under which a report gives the kind.
    pub fn label(&self) -> (name: String)
        ensures
            name@ == self.label_text(),
    {
        match self {
            StorageTechnology::NvmeGen4 => String::from_str("NVMeGen4"),
            StorageTechnology::NvmeGen3 => String::from_str("NVMeGen3"),
            StorageTechnology::Nvme => String::from_str("NVMe"),
            StorageTechnology::SataSsd => String::from_str("SATA SSD"),
            StorageTechnology::SataHdd => String::from_str("SATA HDD"),
            StorageTechnology::Unknown => String::from_str("Unknown"),
        }
    }
}

/// What the storage detector finds: the size of the largest block device,
/// and the kind of drive.
#[derive(Debug, Clone, Copy, PartialEq, Eq, Structural)]
pub struct StorageSpec {
    pub size_bytes: u64,
    pub technology: StorageTechnology,
}

impl DeepView for StorageSpec {
    type V = StorageSpec;

    open spec fn deep_view(&self) -> StorageSpec {
        *self
    }
}

/// One row of the table of block devices.
#[derive(Debug, Clone, PartialEq, Eq)]
pub struct BlockDevice {
    /// The device's name under `/dev`.
    pub name: String,
    /// Its size in bytes; 0 where the row gives none that can be read.
    pub size: u64,
    /// How it is attached, where the row says so.
    pub transport: Option<String>,
}

/// A `BlockDevice` as a mathematical value.
pub struct BlockDeviceModel {
    pub name: Seq<char>,
    pub size: u64,
    pub transport: Option<Seq<char>>,
}

impl View for BlockDevice {
    type V = BlockDeviceModel;

    open spec fn view(&self) -> BlockDeviceModel {
        BlockDeviceModel {
            name: self.name@,
            size: self.size,
            transport: match self.transport {
                Some(t) => Some(t@),
                None => None,
            },
        }
    }
}

/// The device that a row of the table describes: its first word is the
/// name, its third the size, its fourth, if there is one, the transport. A
/// row of fewer than three words describes none.
pub open spec fn device_of_line(line: Seq<char>) -> Option<BlockDeviceModel> {
    let w = words(line);
    if w.len() >= 3 {
        Some(
            BlockDeviceModel {
                name: w[0],
                size: parse_u64_or_zero(w[2]),
                transport: if w.len() > 3 {
                    Some(w[3])
                } else {
                    None
                },
            },
        )
    } else {
        None
    }
}

/// The devices that the rows describe, in the order of the rows.
pub open spec fn devices_of_lines(rows: Seq<Seq<char>>) -> Seq<BlockDeviceModel>
    decreases rows.len(),
{
    if rows.len() == 0 {
        seq![]
    } else {
        match device_of_line(rows.last()) {
            Some(device) => devices_of_lines(rows.drop_last()).push(device),
            None => devices_of_lines(rows.drop_last()),
        }
    }
}

/// The lines of a table below its header line.
pub open spec fn table_rows(output: Seq<char>) -> Seq<Seq<char>> {
    let all = lines(output);
    if all.len() > 0 {
        all.drop_first()
    } else {
        all
    }
}

/// The devices that the output of `lsblk` lists.
pub open spec fn devices(output: Seq<char>) -> Seq<BlockDeviceModel> {
    devices_of_lines(table_rows(output))
}

/// The tool that can tell the kind of `device`: `nvme list` for a device
/// whose name begins with `nvme`, else `smartctl` for one attached by SATA.
pub open spec fn probe_for(device: BlockDeviceModel) -> Option<ToolModel> {
    if starts_with(device.name, "nvme"@) {
        Some(ToolModel::NvmeList)
    } else if device.transport == Some("sata"@) {
        Some(ToolModel::Smartctl(device.name))
    } else {
        None
    }
}

/// The generation of an NVMe drive, read from the output of `nvme list`.
pub open spec fn nvme_generation(listing: Seq<char>) -> StorageTechnology {
    if contains(listing, "PCIe 4.0"@) {
        StorageTechnology::NvmeGen4
    } else if contains(listing, "PCIe 3.0"@) {
        StorageTechnology::NvmeGen3
    } else {
        StorageTechnology::Nvme
    }
}

/// The kind of a SATA drive, read from the output of `smartctl -i`.
pub open spec fn sata_kind(identity: Seq<char>) -> StorageTechnology {
    if contains(identity, "Solid State Device"@) {
        StorageTechnology::SataSsd
    } else {
        StorageTechnology::SataHdd
    }
}

/// The kind of drive after the probe of `device` has come back: what its
/// output says, or `prior` where the probe failed.
pub open spec fn classify(
    prior: StorageTechnology,
    device: BlockDeviceModel,
    outcome: OutcomeModel,
) -> StorageTechnology {
    match successful_stdout(outcome) {
        None => prior,
        Some(text) => if starts_with(device.name, "nvme"@) {
            nvme_generation(text)
        } else {
            sata_kind(text)
        },
    }
}

/// The error of a table that lists no device of positive size.
pub open spec fn no_storage() -> ErrorModel {
    ErrorModel::CommandFailed("Could not determine storage size"@)
}

/// Where the storage detector stands while it waits for a tool.
#[derive(Debug, PartialEq, Eq)]
pub enum StorageScan {
    /// It waits for `lsblk`.
    Listing,
    /// It waits for the probe of `devices[position]`, the largest device so
    /// far; `technology` is the kind found before.
    Probing { devices: Vec<BlockDevice>, position: usize, technology: StorageTechnology },
}

/// A `StorageScan` as a mathematical value.
pub enum StorageScanModel {
    Listing,
    /// The devices from the one being probed on, and the kind found before.
    Probing { pending: Seq<BlockDeviceModel>, technology: StorageTechnology },
}

impl View for StorageScan {
    type V = StorageScanModel;

    open spec fn view(&self) -> StorageScanModel {
        match self {
            StorageScan::Listing => StorageScanModel::Listing,
            StorageScan::Probing { devices, position, technology } => StorageScanModel::Probing {
                pending: views(devices@).skip(*position as int),
                technology: *technology,
            },
        }
    }
}

impl StorageScanModel {
    /// A state that a run of the detector can be in: the device being
    /// probed exists, has a positive size and has a probe.
    pub open spec fn wf(self) -> bool {
        match self {
            StorageScanModel::Listing => true,
            StorageScanModel::Probing { pending, technology } => {
                &&& pending.len() > 0
                &&& pending[0].size > 0
                &&& probe_for(pending[0]) is Some
            },
        }
    }
}

impl StorageScan {
    /// A state that a run of the detector can be in.
    pub open spec fn wf(&self) -> bool {
        match self {
            StorageScan::Listing => true,
            StorageScan::Probing { devices, position, technology } => *position < devices.len()
                && self@.wf(),
        }
    }
}

/// What the detector does with the devices not yet looked at, `largest`
/// being the largest size seen and `technology` the kind found so far.
///
/// A device that is not larger than `largest` is passed over, so of two
/// devices of one size the earlier counts. A larger one becomes the largest;
/// where it has a probe the detector asks for it and waits, else the kind
/// stays as it is. After the last device the finding is the largest size
/// with the kind, and an error where no device had a positive size.
pub open spec fn storage_next(
    largest: u64,
    technology: StorageTechnology,
    pending: Seq<BlockDeviceModel>,
) -> StepModel<StorageScanModel, StorageSpec>
    decreases pending.len(),
{
    if pending.len() == 0 {
        if largest == 0 {
            StepModel::Failed(no_storage())
        } else {
            StepModel::Done(StorageSpec { size_bytes: largest, technology })
        }
    } else if pending[0].size > largest {
        match probe_for(pending[0]) {
            Some(tool) => StepModel::Run(tool, StorageScanModel::Probing { pending, technology }),
            None => storage_next(pending[0].size, technology, pending.drop_first()),
        }
    } else {
        storage_next(largest, technology, pending.drop_first())
    }
}

/// The first step of the detector on a host whose operating system is `os`.
pub open spec fn storage_begin(os: Seq<char>) -> StepModel<StorageScanModel, StorageSpec> {
    if is_supported(os) {
        StepModel::Run(ToolModel::Lsblk, StorageScanModel::Listing)
    } else {
        StepModel::Failed(unsupported())
    }
}

/// The step of the detector in state `scan` when the tool that it waited
/// for came back with `outcome`.
pub open spec fn storage_advance(scan: StorageScanModel, outcome: OutcomeModel) -> StepModel<
    StorageScanModel,
    StorageSpec,
> {
    match scan {
        StorageScanModel::Listing => match required_stdout(
            "lsblk"@,
            "lsblk command failed"@,
            outcome,
        ) {
            Err(e) => StepModel::Failed(e),
            Ok(output) => storage_next(0, StorageTechnology::Unknown, devices(output)),
        },
        StorageScanModel::Probing { pending, technology } => storage_next(
            pending[0].size,
            classify(technology, pending[0], outcome),
            pending.drop_first(),
        ),
    }
}

/// The step that the detector has come to from `step` once the tools that
/// it asked for have come back with `outcomes`, one after the other.
pub open spec fn storage_run(
    step: StepModel<StorageScanModel, StorageSpec>,
    outcomes: Seq<OutcomeModel>,
) -> StepModel<StorageScanModel, StorageSpec>
    decreases outcomes.len(),
{
    match step {
        StepModel::Run(_, scan) => if outcomes.len() > 0 {
            storage_run(storage_advance(scan, outcomes[0]), outcomes.drop_first())
        } else {
            step
        },
        _ => step,
    }
}

/// Whether the detector, from `step` on, asks for exactly as many tools as
/// there are `outcomes` before it ends.
pub open spec fn storage_run_ends(
    step: StepModel<StorageScanModel, StorageSpec>,
    outcomes: Seq<OutcomeModel>,
) -> bool
    decreases outcomes.len(),
{
    match step {
        StepModel::Run(_, scan) => outcomes.len() > 0 && storage_run_ends(
            storage_advance(scan, outcomes[0]),
            outcomes.drop_first(),
        ),
        _ => outcomes.len() == 0,
    }
}

/// The size of the largest of `list`, and 0 where `list` is empty.
pub open spec fn max_size(list: Seq<BlockDeviceModel>) -> u64
    decreases list.len(),
{
    if list.len() == 0 {
        0
    } else if list[0].size > max_size(list.drop_first()) {
        list[0].size
    } else {
        max_size(list.drop_first())
    }
}

/// The larger of two sizes.
pub open spec fn larger(a: u64, b: u64) -> u64 {
    if a > b {
        a
    } else {
        b
    }
}

/// Whether `row` describes no device of a positive size: it has fewer than
/// three words, or its third word writes no number or writes 0.
pub open spec fn is_sizeless(row: Seq<char>) -> bool {
    match device_of_line(row) {
        Some(device) => device.size == 0,
        None => true,
    }
}

/// No device is larger than `max_size` says, and a list that is not empty
/// holds a device of that size.
pub proof fn lemma_max_size(list: Seq<BlockDeviceModel>)
    ensures
        forall|i: int| 0 <= i < list.len() ==> (#[trigger] list[i]).size <= max_size(list),
        list.len() > 0 ==> exists|i: int| 0 <= i < list.len() && (#[trigger] list[i]).size
            == max_size(list),
    decreases list.len(),
{
    if list.len() > 0 {
        let rest = list.drop_first();
        lemma_max_size(rest);
        assert forall|i: int| 0 <= i < list.len() implies (#[trigger] list[i]).size <= max_size(
            list,
        ) by {
            if i > 0 {
                assert(list[i] == rest[i - 1]);
            }
        }
        if list[0].size > max_size(rest) || rest.len() == 0 {
            assert(list[0].size == max_size(list));
        } else {
            let j = choose|j: int| 0 <= j < rest.len() && (#[trigger] rest[j]).size == max_size(rest);
            assert(list[j + 1] == rest[j]);
        }
    }
}

/// Rows of which none describes a device of a positive size list devices of
/// size 0 only.
pub proof fn lemma_sizeless_rows(rows: Seq<Seq<char>>)
    requires
        forall|i: int| 0 <= i < rows.len() ==> is_sizeless(#[trigger] rows[i]),
    ensures
        max_size(devices_of_lines(rows)) == 0,
    decreases rows.len(),
{
    if rows.len() > 0 {
        let before = rows.drop_last();
        assert(is_sizeless(rows[rows.len() - 1]));
        assert forall|i: int| 0 <= i < before.len() implies is_sizeless(#[trigger] before[i]) by {
            assert(before[i] == rows[i]);
        }
        lemma_sizeless_rows(before);
        lemma_max_size(devices_of_lines(before));
        let list = devices_of_lines(rows);
        lemma_max_size(list);
        if list.len() > 0 {
            let j = choose|j: int| 0 <= j < list.len() && (#[trigger] list[j]).size == max_size(list);
            if j < devices_of_lines(before).len() {
                assert(list[j] == devices_of_lines(before)[j]);
            }
        }
    }
}

/// Where the detector waits it waits for a probe, in a state that it can
/// be in; where it ends it has found a positive size; and it fails only for
/// want of a device of positive size.
pub proof fn lemma_storage_next_wf(
    largest: u64,
    technology: StorageTechnology,
    pending: Seq<BlockDeviceModel>,
)
    ensures
        match storage_next(largest, technology, pending) {
            StepModel::Run(tool, scan) => scan.wf() && (scan matches StorageScanModel::Probing {
                pending: waiting,
                technology: _,
            } && probe_for(waiting[0]) == Some(tool)),
            StepModel::Done(found) => found.size_bytes > 0,
            StepModel::Failed(e) => e == no_storage(),
        },
    decreases pending.len(),
{
    if pending.len() > 0 {
        if pending[0].size > largest {
            if probe_for(pending[0]) is None {
                lemma_storage_next_wf(pending[0].size, technology, pending.drop_first());
            }
        } else {
            lemma_storage_next_wf(largest, technology, pending.drop_first());
        }
    }
}

/// After a tool has come back, the detector waits in a state that it can be
/// in, or ends with a positive size, or fails: because `lsblk` did, or for
/// want of a device of positive size.
pub proof fn lemma_storage_advance_wf(scan: StorageScanModel, outcome: OutcomeModel)
    ensures
        match storage_advance(scan, outcome) {
            StepModel::Run(_, next) => next.wf(),
            StepModel::Done(found) => found.size_bytes > 0,
            StepModel::Failed(e) => e == no_storage() || (scan is Listing && required_stdout(
                "lsblk"@,
                "lsblk command failed"@,
                outcome,
            ) == Err::<Seq<char>, _>(e)),
        },
{
    match scan {
        StorageScanModel::Listing => {
            match required_stdout("lsblk"@, "lsblk command failed"@, outcome) {
                Ok(output) => {
                    lemma_storage_next_wf(0, StorageTechnology::Unknown, devices(output));
                },
                Err(_) => {},
            }
        },
        StorageScanModel::Probing { pending, technology } => {
            lemma_storage_next_wf(
                pending[0].size,
                classify(technology, pending[0], outcome),
                pending.drop_first(),
            );
        },
    }
}

/// However the probes come back, and from any point of the list on, a run
/// that ends finds the size of the largest device seen, and ends in the
/// error of no storage exactly where that size is 0. A run that has not
/// ended waits in a state that it can be in.
pub proof fn lemma_storage_run_from(
    largest: u64,
    technology: StorageTechnology,
    pending: Seq<BlockDeviceModel>,
    outcomes: Seq<OutcomeModel>,
)
    ensures
        match storage_run(storage_next(largest, technology, pending), outcomes) {
            StepModel::Done(found) => found.size_bytes == larger(largest, max_size(pending))
                && found.size_bytes > 0,
            StepModel::Failed(e) => e == no_storage() && larger(largest, max_size(pending)) == 0,
            StepModel::Run(_, scan) => scan.wf(),
        },
    decreases pending.len(),
{
    if pending.len() == 0 {
    } else {
        let rest = pending.drop_first();
        if pending[0].size > largest {
            match probe_for(pending[0]) {
                Some(tool) => {
                    if outcomes.len() > 0 {
                        lemma_storage_run_from(
                            pending[0].size,
                            classify(technology, pending[0], outcomes[0]),
                            rest,
                            outcomes.drop_first(),
                        );
                    }
                },
                None => {
                    lemma_storage_run_from(pending[0].size, technology, rest, outcomes);
                },
            }
        } else {
            lemma_storage_run_from(largest, technology, rest, outcomes);
        }
    }
}

/// A probe that fails changes nothing: in a run in which no probe comes
/// back with success, the kind found at the end is the kind that the run
/// began with.
pub proof fn lemma_failed_probes_keep_the_kind(
    largest: u64,
    technology: StorageTechnology,
    pending: Seq<BlockDeviceModel>,
    outcomes: Seq<OutcomeModel>,
)
    requires
        forall|i: int|
            0 <= i < outcomes.len() ==> successful_stdout(#[trigger] outcomes[i]) is None,
    ensures
        storage_run(storage_next(largest, technology, pending), outcomes) matches StepModel::Done(
            found,
        ) ==> found.technology == technology,
    decreases pending.len(),
{
    if pending.len() > 0 {
        let rest = pending.drop_first();
        if pending[0].size > largest {
            match probe_for(pending[0]) {
                Some(tool) => {
                    if outcomes.len() > 0 {
                        let later = outcomes.drop_first();
                        assert(successful_stdout(outcomes[0]) is None);
                        assert forall|i: int| 0 <= i < later.len() implies successful_stdout(
                            #[trigger] later[i],
                        ) is None by {
                            assert(later[i] == outcomes[i + 1]);
                        }
                        lemma_failed_probes_keep_the_kind(
                            pending[0].size,
                            technology,
                            rest,
                            later,
                        );
                    }
                },
                None => {
                    lemma_failed_probes_keep_the_kind(pending[0].size, technology, rest, outcomes);
                },
            }
        } else {
            lemma_failed_probes_keep_the_kind(largest, technology, rest, outcomes);
        }
    }
}

/// The kind found comes from the last probe: when the probe of the device
/// that the detector waits for comes back with success, and no device after
/// it is larger, the kind found is what that probe says.
pub proof fn lemma_last_probe_gives_the_kind(scan: StorageScanModel, outcome: OutcomeModel)
    requires
        scan.wf(),
        scan matches StorageScanModel::Probing { pending, technology } && max_size(
            pending.drop_first(),
        ) <= pending[0].size,
        successful_stdout(outcome) is Some,
    ensures
        scan matches StorageScanModel::Probing { pending, technology } && storage_advance(
            scan,
            outcome,
        ) == StepModel::<StorageScanModel, StorageSpec>::Done(
            StorageSpec {
                size_bytes: pending[0].size,
                technology: if starts_with(pending[0].name, "nvme"@) {
                    nvme_generation(successful_stdout(outcome)->0)
                } else {
                    sata_kind(successful_stdout(outcome)->0)
                },
            },
        ),
{
    match scan {
        StorageScanModel::Probing { pending, technology } => {
            lemma_all_passed_over(
                pending[0].size,
                classify(technology, pending[0], outcome),
                pending.drop_first(),
            );
        },
        _ => {},
    }
}

/// On Linux, when `lsblk` has printed `output`, then however the probes
/// come back a run that ends finds the size of the largest device that the
/// output lists, and ends in the error of no storage exactly where the
/// output lists no device of a positive size.
pub proof fn lemma_storage_detection(os: Seq<char>, output: Seq<char>, probes: Seq<OutcomeModel>)
    requires
        is_supported(os),
    ensures
        match storage_run(
            storage_begin(os),
            seq![OutcomeModel::Exited { success: true, stdout: output }] + probes,
        ) {
            StepModel::Done(found) => found.size_bytes == max_size(devices(output))
                && found.size_bytes > 0,
            StepModel::Failed(e) => e == no_storage() && max_size(devices(output)) == 0,
            StepModel::Run(_, scan) => scan.wf(),
        },
{
    let listed = OutcomeModel::Exited { success: true, stdout: output };
    let outcomes = seq![listed] + probes;
    assert(outcomes[0] == listed);
    assert(outcomes.drop_first() =~= probes);
    lemma_storage_run_from(0, StorageTechnology::Unknown, devices(output), probes);
}

/// Where every row of the table that `lsblk` has printed is without a
/// positive size, the detector asks for no other tool and ends in the error
/// of no storage.
pub proof fn lemma_no_positive_size(output: Seq<char>)
    requires
        forall|i: int|
            0 <= i < table_rows(output).len() ==> is_sizeless(#[trigger] table_rows(output)[i]),
    ensures
        storage_advance(
            StorageScanModel::Listing,
            OutcomeModel::Exited { success: true, stdout: output },
        ) == StepModel::<StorageScanModel, StorageSpec>::Failed(no_storage()),
{
    lemma_sizeless_rows(table_rows(output));
    lemma_all_passed_over(0, StorageTechnology::Unknown, devices(output));
}

/// Devices none of which is larger than the largest seen change nothing.
pub proof fn lemma_all_passed_over(
    largest: u64,
    technology: StorageTechnology,
    pending: Seq<BlockDeviceModel>,
)
    requires
        max_size(pending) <= largest,
    ensures
        storage_next(largest, technology, pending) == storage_next(
            largest,
            technology,
            Seq::empty(),
        ),
    decreases pending.len(),
{
    if pending.len() > 0 {
        lemma_all_passed_over(largest, technology, pending.drop_first());
    }
}

/// The device that `line` describes, if it describes one.
pub fn parse_device(line: &Vec<char>) -> (r: Option<BlockDevice>)
    ensures
        match r {
            Some(device) => device_of_line(line@) == Some(device@),
            None => device_of_line(line@) is None,
        },
{
    let w: Vec<Vec<char>> = words_of(line);
    if w.len() >= 3 {
        assert(views(w@)[0] == w@[0]@);
        assert(views(w@)[2] == w@[2]@);
        let size: u64 = match parse_unsigned(&w[2]) {
            Some(n) => n,
            None => 0,
        };
        let transport: Option<String> = if w.len() > 3 {
            assert(views(w@)[3] == w@[3]@);
            Some(string_of(&w[3]))
        } else {
            None
        };
        Some(BlockDevice { name: string_of(&w[0]), size, transport })
    } else {
        None
    }
}

/// The devices that the output of `lsblk` lists.
pub fn parse_lsblk(output: &str) -> (r: Vec<BlockDevice>)
    ensures
        views(r@) == devices(output@),
{
    let all: Vec<Vec<char>> = lines_of(&chars_of(output));
    let mut r: Vec<BlockDevice> = Vec::new();
    if all.len() == 0 {
        assert(views(r@) =~= devices(output@));
        return r;
    }
    let ghost rows = table_rows(output@);
    let mut i: usize = 1;
    assert(rows.take(0) =~= Seq::<Seq<char>>::empty());
    assert(views(r@) =~= devices_of_lines(rows.take(0)));
    while i < all.len()
        invariant
            1 <= i <= all.len(),
            views(all@) == lines(output@),
            rows == table_rows(output@),
            views(r@) == devices_of_lines(rows.take(i - 1)),
        decreases all.len() - i,
    {
        let found: Option<BlockDevice> = parse_device(&all[i]);
        proof {
            let upto = rows.take(i as int);
            assert(upto.drop_last() =~= rows.take(i - 1));
            assert(upto.last() == views(all@)[i as int]);
            assert(views(all@)[i as int] == all@[i as int]@);
        }
        match found {
            Some(device) => {
                assert(views(r@.push(device)) =~= views(r@).push(device@));
                r.push(device);
            },
            None => {},
        }
        i += 1;
    }
    assert(rows.take(all.len() - 1) =~= rows);
    r
}

/// The tool that can tell the kind of `device`, if there is one.
pub fn probe_of(device: &BlockDevice) -> (r: Option<Tool>)
    ensures
        match r {
            Some(tool) => probe_for(device@) == Some(tool@),
            None => probe_for(device@) is None,
        },
{
    if str_starts_with(device.name.as_str(), "nvme") {
        Some(Tool::NvmeList)
    } else {
        let sata: bool = match &device.transport {
            Some(t) => str_is(t.as_str(), "sata"),
            None => false,
        };
        if sata {
            Some(Tool::Smartctl(device.name.clone()))
        } else {
            None
        }
    }
}

/// The generation of an NVMe drive, read from the output of `nvme list`.
pub fn parse_nvme_list(listing: &str) -> (r: StorageTechnology)
    ensures
        r == nvme_generation(listing@),
{
    if str_contains(listing, "PCIe 4.0") {
        StorageTechnology::NvmeGen4
    } else if str_contains(listing, "PCIe 3.0") {
        StorageTechnology::NvmeGen3
    } else {
        StorageTechnology::Nvme
    }
}

/// The kind of a SATA drive, read from the output of `smartctl -i`.
pub fn parse_smartctl(identity: &str) -> (r: StorageTechnology)
    ensures
        r == sata_kind(identity@),
{
    if str_contains(identity, "Solid State Device") {
        StorageTechnology::SataSsd
    } else {
        StorageTechnology::SataHdd
    }
}

/// The kind of drive after the probe of `device` has come back.
pub fn classified(prior: StorageTechnology, device: &BlockDevice, outcome: CommandOutcome) -> (r:
    StorageTechnology)
    ensures
        r == classify(prior, device@, outcome@),
{
    match stdout_if_successful(outcome) {
        None => prior,
        Some(text) => {
            if str_starts_with(device.name.as_str(), "nvme") {
                parse_nvme_list(text.as_str())
            } else {
                parse_smartctl(text.as_str())
            }
        },
    }
}

/// Goes on through `devices` from position `from`.
pub fn scan_devices(
    devices: Vec<BlockDevice>,
    from: usize,
    largest: u64,
    technology: StorageTechnology,
) -> (r: Step<StorageScan, StorageSpec>)
    requires
        from <= devices.len(),
    ensures
        r@ == storage_next(largest, technology, views(devices@).skip(from as int)),
        r matches Step::Run(_, next) ==> next.wf(),
{
    let ghost all = views(devices@);
    let mut best: u64 = largest;
    let mut i: usize = from;
    while i < devices.len()
        invariant
            from <= i <= devices.len(),
            all == views(devices@),
            storage_next(best, technology, all.skip(i as int)) == storage_next(
                largest,
                technology,
                all.skip(from as int),
            ),
        decreases devices.len() - i,
    {
        let size: u64 = devices[i].size;
        proof {
            assert(all.skip(i as int)[0] == devices@[i as int]@);
            assert(all.skip(i as int).drop_first() =~= all.skip(i + 1));
        }
        if size > best {
            match probe_of(&devices[i]) {
                Some(tool) => {
                    return Step::Run(tool, StorageScan::Probing { devices, position: i, technology });
                },
                None => {
                    best = size;
                },
            }
        }
        i += 1;
    }
    if best == 0 {
        Step::Failed(
            PlatformError::CommandFailed(String::from_str("Could not determine storage size")),
        )
    } else {
        Step::Done(StorageSpec { size_bytes: best, technology })
    }
}

/// Begins the detection of the storage on a host whose operating system is
/// `os`: asks for `lsblk`, or fails where the host does not run Linux.
pub fn get_storage_info(os: &str) -> (r: Step<StorageScan, StorageSpec>)
    ensures
        r@ == storage_begin(os@),
        r matches Step::Run(_, next) ==> next.wf(),
{
    match check_platform(os) {
        Ok(()) => Step::Run(Tool::Lsblk, StorageScan::Listing),
        Err(e) => Step::Failed(e),
    }
}

impl StorageScan {
    /// Takes the outcome of the tool that the detector waited for, and says
    /// what comes next.
    pub fn advance(self, outcome: CommandOutcome) -> (r: Step<StorageScan, StorageSpec>)
        requires
            self.wf(),
        ensures
            r@ == storage_advance(self@, outcome@),
            r matches Step::Run(_, next) ==> next.wf(),
            r matches Step::Done(found) ==> found.size_bytes > 0,
    {
        proof {
            lemma_storage_advance_wf(self@, outcome@);
        }
        match self {
            StorageScan::Listing => match require_stdout("lsblk", "lsblk command failed", outcome) {
                Err(e) => Step::Failed(e),
                Ok(output) => {
                    let devices: Vec<BlockDevice> = parse_lsblk(output.as_str());
                    assert(views(devices@).skip(0) =~= views(devices@));
                    scan_devices(devices, 0, 0, StorageTechnology::Unknown)
                },
            },
            StorageScan::Probing { devices, position, technology } => {
                assert(position < devices.len());
                let size: u64 = devices[position].size;
                let technology: StorageTechnology = classified(
                    technology,
                    &devices[position],
                    outcome,
                );
                proof {
                    let all = views(devices@);
                    assert(all.skip(position as int)[0] == devices@[position as int]@);
                    assert(all.skip(position as int).drop_first() =~= all.skip(position + 1));
                }
                scan_devices(devices, position + 1, size, technology)
            },
        }
    }
}

} // verus!
