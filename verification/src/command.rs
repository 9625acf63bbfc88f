//! The tools that the detectors ask for, and what comes back from a run.
use crate::error::{ErrorModel, PlatformError};
use vstd::prelude::*;

verus! {

/// A diagnostic tool that a detector asks its caller to run.
#[derive(Debug, Clone, PartialEq, Eq)]
pub enum Tool {
    /// `lspci -v`: the PCI devices.
    Lspci,
    /// `nvidia-smi`: the product names of the NVIDIA cards.
    NvidiaSmi,
    /// `dmidecode --type 17`, as root: the memory modules.
    Dmidecode,
    /// `lsblk`: the block devices, one per row, sizes in bytes.
    Lsblk,
    /// `nvme list`, as root: the NVMe drives.
    NvmeList,
    /// `smartctl -i`, as root, on the block device of this name.
    Smartctl(String),
}

/// A `Tool` as a mathematical value.
pub enum ToolModel {
    Lspci,
    NvidiaSmi,
    Dmidecode,
    Lsblk,
    NvmeList,
    Smartctl(Seq<char>),
}

impl ToolModel {
    /// The program to start.
    pub open spec fn program(self) -> Seq<char> {
        match self {
            ToolModel::Lspci => "lspci"@,
            ToolModel::NvidiaSmi => "nvidia-smi"@,
            ToolModel::Lsblk => "lsblk"@,
            ToolModel::Dmidecode | ToolModel::NvmeList | ToolModel::Smartctl(_) => "sudo"@,
        }
    }

    /// The arguments to start it with.
    pub open spec fn arguments(self) -> Seq<Seq<char>> {
        match self {
            ToolModel::Lspci => seq!["-v"@],
            ToolModel::NvidiaSmi => seq!["--query-gpu=gpu_name"@, "--format=csv,noheader"@],
            ToolModel::Dmidecode => seq!["dmidecode"@, "--type"@, "17"@],
            ToolModel::Lsblk => seq!["-d"@, "-o"@, "NAME,TYPE,SIZE,TRAN"@, "--bytes"@],
            ToolModel::NvmeList => seq!["nvme"@, "list"@],
            ToolModel::Smartctl(device) => seq!["smartctl"@, "-i"@, "/dev/"@ + device],
        }
    }
}

impl View for Tool {
    type V = ToolModel;

    open spec fn view(&self) -> ToolModel {
        match self {
            Tool::Lspci => ToolModel::Lspci,
            Tool::NvidiaSmi => ToolModel::NvidiaSmi,
            Tool::Dmidecode => ToolModel::Dmidecode,
            Tool::Lsblk => ToolModel::Lsblk,
            Tool::NvmeList => ToolModel::NvmeList,
            Tool::Smartctl(device) => ToolModel::Smartctl(device@),
        }
    }
}

impl Tool {
    /// The program to start.
    pub fn program(&self) -> (name: String)
        ensures
            name@ == self@.program(),
    {
        match self {
            Tool::Lspci => String::from_str("lspci"),
            Tool::NvidiaSmi => String::from_str("nvidia-smi"),
            Tool::Lsblk => String::from_str("lsblk"),
            Tool::Dmidecode => String::from_str("sudo"),
            Tool::NvmeList => String::from_str("sudo"),
            Tool::Smartctl(_) => String::from_str("sudo"),
        }
    }

    /// The arguments to start it with.
    pub fn arguments(&self) -> (list: Vec<String>)
        ensures
            crate::text::views(list@) == self@.arguments(),
    {
        let mut list: Vec<String> = Vec::new();
        match self {
            Tool::Lspci => {
                list.push(String::from_str("-v"));
            },
            Tool::NvidiaSmi => {
                list.push(String::from_str("--query-gpu=gpu_name"));
                list.push(String::from_str("--format=csv,noheader"));
            },
            Tool::Dmidecode => {
                list.push(String::from_str("dmidecode"));
                list.push(String::from_str("--type"));
                list.push(String::from_str("17"));
            },
            Tool::Lsblk => {
                list.push(String::from_str("-d"));
                list.push(String::from_str("-o"));
                list.push(String::from_str("NAME,TYPE,SIZE,TRAN"));
                list.push(String::from_str("--bytes"));
            },
            Tool::NvmeList => {
                list.push(String::from_str("nvme"));
                list.push(String::from_str("list"));
            },
            Tool::Smartctl(device) => {
                list.push(String::from_str("smartctl"));
                list.push(String::from_str("-i"));
                list.push(String::from_str("/dev/").concat(device.as_str()));
            },
        }
        assert(crate::text::views(list@) =~= self@.arguments());
        list
    }
}

/// What came of running a tool.
#[derive(Debug, Clone, PartialEq, Eq)]
pub enum CommandOutcome {
    /// The tool could not be started; the text says why.
    NotStarted(String),
    /// The tool ran to its end: whether it reported success, and what it
    /// printed on its standard output.
    Exited { success: bool, stdout: String },
}

/// A `CommandOutcome` as a mathematical value.
pub enum OutcomeModel {
    NotStarted(Seq<char>),
    Exited { success: bool, stdout: Seq<char> },
}

impl View for CommandOutcome {
    type V = OutcomeModel;

    open spec fn view(&self) -> OutcomeModel {
        match self {
            CommandOutcome::NotStarted(reason) => OutcomeModel::NotStarted(reason@),
            CommandOutcome::Exited { success, stdout } => OutcomeModel::Exited {
                success: *success,
                stdout: stdout@,
            },
        }
    }
}

/// What a tool that the detection cannot do without has printed. Where the
/// tool `name` could not be started the error says so and why; where it
/// reported failure the error is `failure`.
pub open spec fn required_stdout(
    name: Seq<char>,
    failure: Seq<char>,
    outcome: OutcomeModel,
) -> Result<Seq<char>, ErrorModel> {
    match outcome {
        OutcomeModel::NotStarted(reason) => Err(
            ErrorModel::CommandFailed("Failed to execute "@ + name + ": "@ + reason),
        ),
        OutcomeModel::Exited { success, stdout } => if success {
            Ok(stdout)
        } else {
            Err(ErrorModel::CommandFailed(failure))
        },
    }
}

/// What a tool has printed, where it was started and reported success.
pub open spec fn successful_stdout(outcome: OutcomeModel) -> Option<Seq<char>> {
    match outcome {
        OutcomeModel::Exited { success: true, stdout } => Some(stdout),
        _ => None,
    }
}

/// Computes `required_stdout`.
pub fn require_stdout(name: &str, failure: &str, outcome: CommandOutcome) -> (r: Result<
    String,
    PlatformError,
>)
    ensures
        match r {
            Ok(text) => required_stdout(name@, failure@, outcome@) == Ok::<_, ErrorModel>(text@),
            Err(e) => required_stdout(name@, failure@, outcome@) == Err::<Seq<char>, _>(e@),
        },
{
    match outcome {
        CommandOutcome::NotStarted(reason) => Err(
            PlatformError::CommandFailed(
                String::from_str("Failed to execute ").concat(name).concat(": ").concat(
                    reason.as_str(),
                ),
            ),
        ),
        CommandOutcome::Exited { success, stdout } => if success {
            Ok(stdout)
        } else {
            Err(PlatformError::CommandFailed(String::from_str(failure)))
        },
    }
}

/// Computes `successful_stdout`.
pub fn stdout_if_successful(outcome: CommandOutcome) -> (r: Option<String>)
    ensures
        match r {
            Some(text) => successful_stdout(outcome@) == Some(text@),
            None => successful_stdout(outcome@) is None,
        },
{
    match outcome {
        CommandOutcome::Exited { success, stdout } => if success {
            Some(stdout)
        } else {
            None
        },
        CommandOutcome::NotStarted(_) => None,
    }
}

/// What a detector says after each thing it learns.
#[derive(Debug, PartialEq, Eq)]
pub enum Step<S, T> {
    /// Run this tool, and hand its outcome to this state.
    Run(Tool, S),
    /// The detection is over, with this finding.
    Done(T),
    /// The detection is over, without a finding.
    Failed(PlatformError),
}

/// A `Step` as a mathematical value.
pub enum StepModel<S, T> {
    Run(ToolModel, S),
    Done(T),
    Failed(ErrorModel),
}

impl<S: View, T: DeepView> View for Step<S, T> {
    type V = StepModel<S::V, T::V>;

    open spec fn view(&self) -> StepModel<S::V, T::V> {
        match self {
            Step::Run(tool, state) => StepModel::Run(tool@, state@),
            Step::Done(finding) => StepModel::Done(finding.deep_view()),
            Step::Failed(error) => StepModel::Failed(error@),
        }
    }
}

} // verus!
