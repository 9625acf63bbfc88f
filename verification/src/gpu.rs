//! The GPU detector: the display controllers that `lspci` lists, each under
//! the product name that `nvidia-smi` gives where it is an NVIDIA card and
//! the tool answers.
use crate::command::{
    require_stdout, required_stdout, stdout_if_successful, successful_stdout, CommandOutcome,
    OutcomeModel, Step, StepModel, Tool, ToolModel,
};
use crate::fields::{lines, lines_of, split, split_on};
use crate::platform::{check_platform, is_supported, unsupported};
use crate::text::{chars_of, contains, includes, string_of, trim, trimmed, views};
use vstd::prelude::*;

verus! {

/// One GPU of the host.
#[derive(Debug, Clone, PartialEq, Eq)]
pub struct GpuSpec {
    /// The model's name, as a tool printed it.
    pub model: String,
}

impl DeepView for GpuSpec {
    type V = Seq<char>;

    open spec fn deep_view(&self) -> Seq<char> {
        self.model@
    }
}

/// A line of `lspci` that names a display controller.
#[derive(Debug, Clone, PartialEq, Eq)]
pub struct GpuCandidate {
    /// Whether the line names NVIDIA.
    pub nvidia: bool,
    /// The model's name as the line gives it.
    pub lspci_model: String,
}

/// A `GpuCandidate` as a mathematical value.
pub struct GpuCandidateModel {
    pub nvidia: bool,
    pub lspci_model: Seq<char>,
}

impl View for GpuCandidate {
    type V = GpuCandidateModel;

    open spec fn view(&self) -> GpuCandidateModel {
        GpuCandidateModel { nvidia: self.nvidia, lspci_model: self.lspci_model@ }
    }
}

/// The model's name where none can be found.
pub open spec fn unknown_gpu() -> Seq<char> {
    "Unknown GPU"@
}

/// Whether `line` names a display controller.
pub open spec fn is_display_line(line: Seq<char>) -> bool {
    contains(line, "VGA"@) || contains(line, "3D controller"@)
}

/// The model's name as `line` gives it: what stands between its second and
/// its third colon, or after the second where there is no third, without
/// the white space around it.
pub open spec fn lspci_model(line: Seq<char>) -> Seq<char> {
    let parts = split(line, ':');
    if parts.len() > 2 {
        trim(parts[2])
    } else {
        unknown_gpu()
    }
}

/// The candidate that `line` makes, where it names a display controller.
pub open spec fn candidate_of_line(line: Seq<char>) -> Option<GpuCandidateModel> {
    if is_display_line(line) {
        Some(
            GpuCandidateModel {
                nvidia: contains(line, "NVIDIA"@),
                lspci_model: lspci_model(line),
            },
        )
    } else {
        None
    }
}

/// The candidates that the lines make, in the order of the lines.
pub open spec fn candidates_of_lines(rows: Seq<Seq<char>>) -> Seq<GpuCandidateModel>
    decreases rows.len(),
{
    if rows.len() == 0 {
        seq![]
    } else {
        match candidate_of_line(rows.last()) {
            Some(candidate) => candidates_of_lines(rows.drop_last()).push(candidate),
            None => candidates_of_lines(rows.drop_last()),
        }
    }
}

/// The candidates that the output of `lspci` lists.
pub open spec fn candidates(output: Seq<char>) -> Seq<GpuCandidateModel> {
    candidates_of_lines(lines(output))
}

/// The product name that `nvidia-smi` gave: what it printed, without the
/// white space around it, where it reported success and that is not empty.
pub open spec fn probed_model(outcome: OutcomeModel) -> Option<Seq<char>> {
    match successful_stdout(outcome) {
        Some(text) => if trim(text).len() > 0 {
            Some(trim(text))
        } else {
            None
        },
        None => None,
    }
}

/// The model's name of an NVIDIA candidate once `nvidia-smi` has come back.
pub open spec fn model_after_probe(candidate: GpuCandidateModel, outcome: OutcomeModel) -> Seq<
    char,
> {
    match probed_model(outcome) {
        Some(name) => name,
        None => candidate.lspci_model,
    }
}

/// The list of models that is reported: `models`, or the one unknown model
/// where `models` is empty.
pub open spec fn or_unknown(models: Seq<Seq<char>>) -> Seq<Seq<char>> {
    if models.len() == 0 {
        seq![unknown_gpu()]
    } else {
        models
    }
}

/// Where the GPU detector stands while it waits for a tool.
#[derive(Debug, PartialEq, Eq)]
pub enum GpuScan {
    /// It waits for `lspci`.
    Listing,
    /// It waits for `nvidia-smi` on behalf of `candidates[position]`;
    /// `models` are the names found for the candidates before it.
    Probing { candidates: Vec<GpuCandidate>, position: usize, models: Vec<GpuSpec> },
}

/// A `GpuScan` as a mathematical value.
pub enum GpuScanModel {
    Listing,
    /// The candidates from the one being probed on, and the names found
    /// before.
    Probing { pending: Seq<GpuCandidateModel>, models: Seq<Seq<char>> },
}

impl View for GpuScan {
    type V = GpuScanModel;

    open spec fn view(&self) -> GpuScanModel {
        match self {
            GpuScan::Listing => GpuScanModel::Listing,
            GpuScan::Probing { candidates, position, models } => GpuScanModel::Probing {
                pending: views(candidates@).skip(*position as int),
                models: models.deep_view(),
            },
        }
    }
}

impl GpuScanModel {
    /// A state that a run of the detector can be in: the candidate being
    /// probed exists and names NVIDIA.
    pub open spec fn wf(self) -> bool {
        match self {
            GpuScanModel::Listing => true,
            GpuScanModel::Probing { pending, models } => pending.len() > 0 && pending[0].nvidia,
        }
    }
}

impl GpuScan {
    /// A state that a run of the detector can be in.
    pub open spec fn wf(&self) -> bool {
        match self {
            GpuScan::Listing => true,
            GpuScan::Probing { candidates, position, models } => *position < candidates.len()
                && self@.wf(),
        }
    }
}

/// What the detector does with the candidates not yet looked at, `models`
/// being the names found so far.
///
/// A candidate that does not name NVIDIA gets the name that its line gives.
/// At one that does, the detector asks for `nvidia-smi` and waits. After the
/// last candidate the finding is the list of names, in the order of the
/// lines, or the one unknown model where there was no candidate.
pub open spec fn gpu_next(models: Seq<Seq<char>>, pending: Seq<GpuCandidateModel>) -> StepModel<
    GpuScanModel,
    Seq<Seq<char>>,
>
    decreases pending.len(),
{
    if pending.len() == 0 {
        StepModel::Done(or_unknown(models))
    } else if pending[0].nvidia {
        StepModel::Run(ToolModel::NvidiaSmi, GpuScanModel::Probing { pending, models })
    } else {
        gpu_next(models.push(pending[0].lspci_model), pending.drop_first())
    }
}

/// The first step of the detector on a host whose operating system is `os`.
pub open spec fn gpu_begin(os: Seq<char>) -> StepModel<GpuScanModel, Seq<Seq<char>>> {
    if is_supported(os) {
        StepModel::Run(ToolModel::Lspci, GpuScanModel::Listing)
    } else {
        StepModel::Failed(unsupported())
    }
}

/// The step of the detector in state `scan` when the tool that it waited
/// for came back with `outcome`.
pub open spec fn gpu_advance(scan: GpuScanModel, outcome: OutcomeModel) -> StepModel<
    GpuScanModel,
    Seq<Seq<char>>,
> {
    match scan {
        GpuScanModel::Listing => match required_stdout(
            "lspci"@,
            "lspci command failed"@,
            outcome,
        ) {
            Err(e) => StepModel::Failed(e),
            Ok(output) => gpu_next(seq![], candidates(output)),
        },
        GpuScanModel::Probing { pending, models } => gpu_next(
            models.push(model_after_probe(pending[0], outcome)),
            pending.drop_first(),
        ),
    }
}

/// The step that the detector has come to from `step` once the tools that
/// it asked for have come back with `outcomes`, one after the other.
pub open spec fn gpu_run(
    step: StepModel<GpuScanModel, Seq<Seq<char>>>,
    outcomes: Seq<OutcomeModel>,
) -> StepModel<GpuScanModel, Seq<Seq<char>>>
    decreases outcomes.len(),
{
    match step {
        StepModel::Run(_, scan) => if outcomes.len() > 0 {
            gpu_run(gpu_advance(scan, outcomes[0]), outcomes.drop_first())
        } else {
            step
        },
        _ => step,
    }
}

/// Whether the detector, from `step` on, asks for exactly as many tools as
/// there are `outcomes` before it ends.
pub open spec fn gpu_run_ends(
    step: StepModel<GpuScanModel, Seq<Seq<char>>>,
    outcomes: Seq<OutcomeModel>,
) -> bool
    decreases outcomes.len(),
{
    match step {
        StepModel::Run(_, scan) => outcomes.len() > 0 && gpu_run_ends(
            gpu_advance(scan, outcomes[0]),
            outcomes.drop_first(),
        ),
        _ => outcomes.len() == 0,
    }
}

/// The number of candidates that name NVIDIA.
pub open spec fn nvidia_count(list: Seq<GpuCandidateModel>) -> nat
    decreases list.len(),
{
    if list.len() == 0 {
        0
    } else if list[0].nvidia {
        1 + nvidia_count(list.drop_first())
    } else {
        nvidia_count(list.drop_first())
    }
}

/// One name for each candidate, in their order: for a candidate that does
/// not name NVIDIA the name that its line gives, and for one that does the
/// name after its probe, the probes being taken from `probes` in turn.
pub open spec fn resolved(list: Seq<GpuCandidateModel>, probes: Seq<OutcomeModel>) -> Seq<
    Seq<char>,
>
    decreases list.len(),
{
    if list.len() == 0 {
        seq![]
    } else if list[0].nvidia && probes.len() > 0 {
        seq![model_after_probe(list[0], probes[0])] + resolved(
            list.drop_first(),
            probes.drop_first(),
        )
    } else {
        seq![list[0].lspci_model] + resolved(list.drop_first(), probes)
    }
}

/// Lines of which none names a display controller make no candidate.
pub proof fn lemma_no_candidates(rows: Seq<Seq<char>>)
    requires
        forall|i: int| 0 <= i < rows.len() ==> !is_display_line(#[trigger] rows[i]),
    ensures
        candidates_of_lines(rows).len() == 0,
    decreases rows.len(),
{
    if rows.len() > 0 {
        assert(!is_display_line(rows[rows.len() - 1]));
        assert forall|i: int| 0 <= i < rows.drop_last().len() implies !is_display_line(
            #[trigger] rows.drop_last()[i],
        ) by {
            assert(rows.drop_last()[i] == rows[i]);
        }
        lemma_no_candidates(rows.drop_last());
    }
}

/// Where no line of the output of `lspci` names a display controller, the
/// detector asks for no other tool, and its finding is the one unknown
/// model.
pub proof fn lemma_no_display_line(output: Seq<char>)
    requires
        forall|i: int|
            0 <= i < lines(output).len() ==> !is_display_line(#[trigger] lines(output)[i]),
    ensures
        gpu_advance(GpuScanModel::Listing, OutcomeModel::Exited { success: true, stdout: output })
            == StepModel::<GpuScanModel, Seq<Seq<char>>>::Done(seq![unknown_gpu()]),
{
    lemma_no_candidates(lines(output));
}

/// Where the detector waits it waits in a state that it can be in, and
/// where it ends its finding is not empty.
pub proof fn lemma_gpu_next_wf(models: Seq<Seq<char>>, pending: Seq<GpuCandidateModel>)
    ensures
        match gpu_next(models, pending) {
            StepModel::Run(tool, scan) => tool == ToolModel::NvidiaSmi && scan.wf(),
            StepModel::Done(found) => found.len() > 0,
            StepModel::Failed(_) => false,
        },
    decreases pending.len(),
{
    if pending.len() > 0 && !pending[0].nvidia {
        lemma_gpu_next_wf(models.push(pending[0].lspci_model), pending.drop_first());
    }
}

/// After a tool has come back, the detector waits for `nvidia-smi` in a
/// state that it can be in, or ends with a finding that is not empty, or
/// fails because `lspci` did.
pub proof fn lemma_gpu_advance_wf(scan: GpuScanModel, outcome: OutcomeModel)
    ensures
        match gpu_advance(scan, outcome) {
            StepModel::Run(tool, next) => tool == ToolModel::NvidiaSmi && next.wf(),
            StepModel::Done(found) => found.len() > 0,
            StepModel::Failed(e) => scan is Listing && required_stdout(
                "lspci"@,
                "lspci command failed"@,
                outcome,
            ) == Err::<Seq<char>, _>(e),
        },
{
    match scan {
        GpuScanModel::Listing => {
            match required_stdout("lspci"@, "lspci command failed"@, outcome) {
                Ok(output) => {
                    lemma_gpu_next_wf(seq![], candidates(output));
                },
                Err(_) => {},
            }
        },
        GpuScanModel::Probing { pending, models } => {
            lemma_gpu_next_wf(
                models.push(model_after_probe(pending[0], outcome)),
                pending.drop_first(),
            );
        },
    }
}

/// There is one resolved name for each candidate.
pub proof fn lemma_resolved_len(list: Seq<GpuCandidateModel>, probes: Seq<OutcomeModel>)
    ensures
        resolved(list, probes).len() == list.len(),
    decreases list.len(),
{
    if list.len() == 0 {
    } else if list[0].nvidia && probes.len() > 0 {
        lemma_resolved_len(list.drop_first(), probes.drop_first());
    } else {
        lemma_resolved_len(list.drop_first(), probes);
    }
}

/// From any point of the list on, a run in which `nvidia-smi` comes back
/// once for each candidate that names NVIDIA asks for nothing more, and
/// ends with the names found before and one resolved name for each
/// candidate left, in their order.
pub proof fn lemma_gpu_run_from(
    models: Seq<Seq<char>>,
    pending: Seq<GpuCandidateModel>,
    probes: Seq<OutcomeModel>,
)
    requires
        probes.len() == nvidia_count(pending),
    ensures
        gpu_run_ends(gpu_next(models, pending), probes),
        gpu_run(gpu_next(models, pending), probes) == StepModel::<
            GpuScanModel,
            Seq<Seq<char>>,
        >::Done(or_unknown(models + resolved(pending, probes))),
    decreases pending.len(),
{
    if pending.len() == 0 {
        assert(models + resolved(pending, probes) =~= models);
    } else if pending[0].nvidia {
        let name = model_after_probe(pending[0], probes[0]);
        lemma_gpu_run_from(models.push(name), pending.drop_first(), probes.drop_first());
        assert(models.push(name) + resolved(pending.drop_first(), probes.drop_first()) =~= models
            + resolved(pending, probes));
    } else {
        let name = pending[0].lspci_model;
        lemma_gpu_run_from(models.push(name), pending.drop_first(), probes);
        assert(models.push(name) + resolved(pending.drop_first(), probes) =~= models + resolved(
            pending,
            probes,
        ));
    }
}

/// On Linux, when `lspci` has printed `output` and `nvidia-smi` comes back
/// once for each line that names a display controller and NVIDIA, the
/// detector asks for nothing more, and ends with one name for each line
/// that names a display controller, in the order of the lines, or with the
/// one unknown model where there is no such line.
pub proof fn lemma_gpu_detection(os: Seq<char>, output: Seq<char>, probes: Seq<OutcomeModel>)
    requires
        is_supported(os),
        probes.len() == nvidia_count(candidates(output)),
    ensures
        gpu_run_ends(
            gpu_begin(os),
            seq![OutcomeModel::Exited { success: true, stdout: output }] + probes,
        ),
        gpu_run(
            gpu_begin(os),
            seq![OutcomeModel::Exited { success: true, stdout: output }] + probes,
        ) == StepModel::<GpuScanModel, Seq<Seq<char>>>::Done(
            or_unknown(resolved(candidates(output), probes)),
        ),
        resolved(candidates(output), probes).len() == candidates(output).len(),
{
    let listed = OutcomeModel::Exited { success: true, stdout: output };
    let outcomes = seq![listed] + probes;
    assert(outcomes[0] == listed);
    assert(outcomes.drop_first() =~= probes);
    lemma_gpu_run_from(seq![], candidates(output), probes);
    assert(Seq::<Seq<char>>::empty() + resolved(candidates(output), probes) =~= resolved(
        candidates(output),
        probes,
    ));
    lemma_resolved_len(candidates(output), probes);
}

/// The model's name as `line` gives it.
pub fn model_of_line(line: &Vec<char>) -> (name: String)
    ensures
        name@ == lspci_model(line@),
{
    let parts: Vec<Vec<char>> = split_on(line, ':');
    if parts.len() > 2 {
        assert(views(parts@)[2] == parts@[2]@);
        string_of(&trimmed(&parts[2]))
    } else {
        String::from_str("Unknown GPU")
    }
}

/// The candidate that `line` makes, where it names a display controller.
pub fn parse_candidate(line: &Vec<char>) -> (r: Option<GpuCandidate>)
    ensures
        match r {
            Some(candidate) => candidate_of_line(line@) == Some(candidate@),
            None => candidate_of_line(line@) is None,
        },
{
    if includes(line, &chars_of("VGA")) || includes(line, &chars_of("3D controller")) {
        Some(
            GpuCandidate {
                nvidia: includes(line, &chars_of("NVIDIA")),
                lspci_model: model_of_line(line),
            },
        )
    } else {
        None
    }
}

/// The candidates that the output of `lspci` lists.
pub fn parse_lspci(output: &str) -> (r: Vec<GpuCandidate>)
    ensures
        views(r@) == candidates(output@),
{
    let all: Vec<Vec<char>> = lines_of(&chars_of(output));
    let ghost rows = lines(output@);
    let mut r: Vec<GpuCandidate> = Vec::new();
    let mut i: usize = 0;
    assert(rows.take(0) =~= Seq::<Seq<char>>::empty());
    assert(views(r@) =~= candidates_of_lines(rows.take(0)));
    while i < all.len()
        invariant
            i <= all.len(),
            views(all@) == rows,
            views(r@) == candidates_of_lines(rows.take(i as int)),
        decreases all.len() - i,
    {
        let found: Option<GpuCandidate> = parse_candidate(&all[i]);
        proof {
            let upto = rows.take(i + 1);
            assert(upto.drop_last() =~= rows.take(i as int));
            assert(upto.last() == views(all@)[i as int]);
            assert(views(all@)[i as int] == all@[i as int]@);
        }
        match found {
            Some(candidate) => {
                assert(views(r@.push(candidate)) =~= views(r@).push(candidate@));
                r.push(candidate);
            },
            None => {},
        }
        i += 1;
    }
    assert(rows.take(all.len() as int) =~= rows);
    r
}

/// The product name that `nvidia-smi` gave, if it gave one.
pub fn parse_nvidia_smi(outcome: CommandOutcome) -> (r: Option<String>)
    ensures
        match r {
            Some(name) => probed_model(outcome@) == Some(name@),
            None => probed_model(outcome@) is None,
        },
{
    match stdout_if_successful(outcome) {
        Some(text) => {
            let name: Vec<char> = trimmed(&chars_of(text.as_str()));
            if name.len() > 0 {
                Some(string_of(&name))
            } else {
                None
            }
        },
        None => None,
    }
}

/// Goes on through `candidates` from position `from`.
pub fn scan_candidates(candidates: Vec<GpuCandidate>, from: usize, models: Vec<GpuSpec>) -> (r:
    Step<GpuScan, Vec<GpuSpec>>)
    requires
        from <= candidates.len(),
    ensures
        r@ == gpu_next(models.deep_view(), views(candidates@).skip(from as int)),
        r matches Step::Run(_, next) ==> next.wf(),
{
    let ghost all = views(candidates@);
    let mut found: Vec<GpuSpec> = models;
    let mut i: usize = from;
    while i < candidates.len()
        invariant
            from <= i <= candidates.len(),
            all == views(candidates@),
            gpu_next(found.deep_view(), all.skip(i as int)) == gpu_next(
                models.deep_view(),
                all.skip(from as int),
            ),
        decreases candidates.len() - i,
    {
        proof {
            assert(all.skip(i as int)[0] == candidates@[i as int]@);
            assert(all.skip(i as int).drop_first() =~= all.skip(i + 1));
        }
        if candidates[i].nvidia {
            return Step::Run(
                Tool::NvidiaSmi,
                GpuScan::Probing { candidates, position: i, models: found },
            );
        }
        let ghost before = found.deep_view();
        let spec = GpuSpec { model: candidates[i].lspci_model.clone() };
        found.push(spec);
        assert(found.deep_view() =~= before.push(spec.deep_view()));
        i += 1;
    }
    if found.len() == 0 {
        found.push(GpuSpec { model: String::from_str("Unknown GPU") });
        assert(found.deep_view() =~= seq![unknown_gpu()]);
    }
    Step::Done(found)
}

/// Begins the detection of the GPUs on a host whose operating system is
/// `os`: asks for `lspci`, or fails where the host does not run Linux.
pub fn get_gpu_info(os: &str) -> (r: Step<GpuScan, Vec<GpuSpec>>)
    ensures
        r@ == gpu_begin(os@),
        r matches Step::Run(_, next) ==> next.wf(),
{
    match check_platform(os) {
        Ok(()) => Step::Run(Tool::Lspci, GpuScan::Listing),
        Err(e) => Step::Failed(e),
    }
}

impl GpuScan {
    /// Takes the outcome of the tool that the detector waited for, and says
    /// what comes next.
    pub fn advance(self, outcome: CommandOutcome) -> (r: Step<GpuScan, Vec<GpuSpec>>)
        requires
            self.wf(),
        ensures
            r@ == gpu_advance(self@, outcome@),
            r matches Step::Run(_, next) ==> next.wf(),
            r matches Step::Done(found) ==> found.len() > 0,
    {
        proof {
            lemma_gpu_advance_wf(self@, outcome@);
        }
        match self {
            GpuScan::Listing => match require_stdout("lspci", "lspci command failed", outcome) {
                Err(e) => Step::Failed(e),
                Ok(output) => {
                    let candidates: Vec<GpuCandidate> = parse_lspci(output.as_str());
                    let models: Vec<GpuSpec> = Vec::new();
                    assert(views(candidates@).skip(0) =~= views(candidates@));
                    assert(models.deep_view() =~= Seq::<Seq<char>>::empty());
                    scan_candidates(candidates, 0, models)
                },
            },
            GpuScan::Probing { candidates, position, models } => {
                let model: String = match parse_nvidia_smi(outcome) {
                    Some(name) => name,
                    None => candidates[position].lspci_model.clone(),
                };
                let mut models: Vec<GpuSpec> = models;
                let ghost before = models.deep_view();
                let spec = GpuSpec { model };
                models.push(spec);
                proof {
                    let all = views(candidates@);
                    assert(all.skip(position as int)[0] == candidates@[position as int]@);
                    assert(all.skip(position as int).drop_first() =~= all.skip(position + 1));
                    assert(models.deep_view() =~= before.push(spec.deep_view()));
                }
                scan_candidates(candidates, position + 1, models)
            },
        }
    }
}

} // verus!
