//! The RAM type detector: the memory technology that `dmidecode` names.
use crate::command::{
    require_stdout, required_stdout, CommandOutcome, OutcomeModel, Step, StepModel, Tool,
    ToolModel,
};
use crate::fields::{lines, lines_of, split, split_on};
use crate::platform::{check_platform, is_supported, unsupported};
use crate::text::{begins_with, chars_of, contains, includes, starts_with, string_of, trim, trimmed, views};
use vstd::prelude::*;

verus! {

/// The technology where `dmidecode` names none.
pub open spec fn unknown_ram() -> Seq<char> {
    "Unknown"@
}

/// What `dmidecode` says where it could not do its work.
pub open spec fn dmidecode_failure() -> Seq<char> {
    "dmidecode command failed. Make sure you have sudo privileges and dmidecode is installed"@
}

/// The memory technology that `line` names: what stands between its first
/// and its second colon, without the white space around it, where the line
/// holds `Type:` and that text begins with `DDR`.
pub open spec fn ram_type_of_line(line: Seq<char>) -> Option<Seq<char>> {
    let parts = split(line, ':');
    if contains(line, "Type:"@) && parts.len() > 1 && starts_with(trim(parts[1]), "DDR"@) {
        Some(trim(parts[1]))
    } else {
        None
    }
}

/// The technology that the first of `rows` to name one names, or the
/// unknown technology where none of them does.
pub open spec fn first_ram_type(rows: Seq<Seq<char>>) -> Seq<char>
    decreases rows.len(),
{
    if rows.len() == 0 {
        unknown_ram()
    } else {
        match ram_type_of_line(rows[0]) {
            Some(technology) => technology,
            None => first_ram_type(rows.drop_first()),
        }
    }
}

/// The memory technology that the output of `dmidecode` names.
pub open spec fn ram_type(output: Seq<char>) -> Seq<char> {
    first_ram_type(lines(output))
}

/// Where the RAM type detector stands while it waits for `dmidecode`.
#[derive(Debug, PartialEq, Eq)]
pub struct RamTypeProbe {}

impl View for RamTypeProbe {
    type V = ();

    open spec fn view(&self) -> () {
        ()
    }
}

/// The first step of the detector on a host whose operating system is `os`.
pub open spec fn ram_begin(os: Seq<char>) -> StepModel<(), Seq<char>> {
    if is_supported(os) {
        StepModel::Run(ToolModel::Dmidecode, ())
    } else {
        StepModel::Failed(unsupported())
    }
}

/// The step of the detector when `dmidecode` came back with `outcome`: the
/// technology that it names, or the error of a tool that failed.
pub open spec fn ram_advance(outcome: OutcomeModel) -> StepModel<(), Seq<char>> {
    match required_stdout("dmidecode"@, dmidecode_failure(), outcome) {
        Err(e) => StepModel::Failed(e),
        Ok(output) => StepModel::Done(ram_type(output)),
    }
}

/// Where the row at position `i` is the first to name a memory technology,
/// that is the technology of the rows.
pub proof fn lemma_first_ram_type_of_rows(rows: Seq<Seq<char>>, i: int)
    requires
        0 <= i < rows.len(),
        ram_type_of_line(rows[i]) is Some,
        forall|j: int| 0 <= j < i ==> ram_type_of_line(#[trigger] rows[j]) is None,
    ensures
        first_ram_type(rows) == ram_type_of_line(rows[i])->0,
    decreases i,
{
    if i > 0 {
        let rest = rows.drop_first();
        assert(ram_type_of_line(rows[0]) is None);
        assert(rest[i - 1] == rows[i]);
        assert forall|j: int| 0 <= j < i - 1 implies ram_type_of_line(#[trigger] rest[j]) is None by {
            assert(rest[j] == rows[j + 1]);
        }
        lemma_first_ram_type_of_rows(rest, i - 1);
    }
}

/// Where no row names a memory technology, the technology of the rows is
/// the unknown one.
pub proof fn lemma_no_ram_type_in_rows(rows: Seq<Seq<char>>)
    requires
        forall|j: int| 0 <= j < rows.len() ==> ram_type_of_line(#[trigger] rows[j]) is None,
    ensures
        first_ram_type(rows) == unknown_ram(),
    decreases rows.len(),
{
    if rows.len() > 0 {
        let rest = rows.drop_first();
        assert(ram_type_of_line(rows[0]) is None);
        assert forall|j: int| 0 <= j < rest.len() implies ram_type_of_line(#[trigger] rest[j]) is None by {
            assert(rest[j] == rows[j + 1]);
        }
        lemma_no_ram_type_in_rows(rest);
    }
}

/// When `dmidecode` has printed `output`, the detector finds the
/// technology that the first line to name one names.
pub proof fn lemma_first_ram_type(output: Seq<char>, i: int)
    requires
        0 <= i < lines(output).len(),
        ram_type_of_line(lines(output)[i]) is Some,
        forall|j: int| 0 <= j < i ==> ram_type_of_line(#[trigger] lines(output)[j]) is None,
    ensures
        ram_advance(OutcomeModel::Exited { success: true, stdout: output }) == StepModel::<
            (),
            Seq<char>,
        >::Done(ram_type_of_line(lines(output)[i])->0),
{
    lemma_first_ram_type_of_rows(lines(output), i);
}

/// When `dmidecode` has printed `output` and no line of it names a memory
/// technology, the detector does not fail: it finds the unknown technology.
pub proof fn lemma_no_ram_type(output: Seq<char>)
    requires
        forall|j: int|
            0 <= j < lines(output).len() ==> ram_type_of_line(#[trigger] lines(output)[j]) is None,
    ensures
        ram_advance(OutcomeModel::Exited { success: true, stdout: output }) == StepModel::<
            (),
            Seq<char>,
        >::Done(unknown_ram()),
{
    lemma_no_ram_type_in_rows(lines(output));
}

/// The memory technology that `line` names, if it names one.
pub fn parse_ram_line(line: &Vec<char>) -> (r: Option<String>)
    ensures
        match r {
            Some(technology) => ram_type_of_line(line@) == Some(technology@),
            None => ram_type_of_line(line@) is None,
        },
{
    if !includes(line, &chars_of("Type:")) {
        return None;
    }
    let parts: Vec<Vec<char>> = split_on(line, ':');
    if parts.len() > 1 {
        assert(views(parts@)[1] == parts@[1]@);
        let technology: Vec<char> = trimmed(&parts[1]);
        if begins_with(&technology, &chars_of("DDR")) {
            return Some(string_of(&technology));
        }
    }
    None
}

/// The memory technology that the output of `dmidecode` names.
pub fn parse_ram_type(output: &str) -> (technology: String)
    ensures
        technology@ == ram_type(output@),
{
    let all: Vec<Vec<char>> = lines_of(&chars_of(output));
    let ghost rows = lines(output@);
    let mut i: usize = 0;
    assert(rows.skip(0) =~= rows);
    while i < all.len()
        invariant
            i <= all.len(),
            views(all@) == rows,
            rows == lines(output@),
            first_ram_type(rows.skip(i as int)) == first_ram_type(rows),
        decreases all.len() - i,
    {
        proof {
            assert(rows.skip(i as int)[0] == all@[i as int]@);
            assert(rows.skip(i as int).drop_first() =~= rows.skip(i + 1));
        }
        match parse_ram_line(&all[i]) {
            Some(technology) => {
                return technology;
            },
            None => {},
        }
        i += 1;
    }
    String::from_str("Unknown")
}

/// Begins the detection of the RAM type on a host whose operating system is
/// `os`: asks for `dmidecode`, or fails where the host does not run Linux.
pub fn get_ram_type(os: &str) -> (r: Step<RamTypeProbe, String>)
    ensures
        r@ == ram_begin(os@),
{
    match check_platform(os) {
        Ok(()) => Step::Run(Tool::Dmidecode, RamTypeProbe {  }),
        Err(e) => Step::Failed(e),
    }
}

impl RamTypeProbe {
    /// Takes the outcome of `dmidecode`, and says what comes next: the
    /// finding, or the error.
    pub fn advance(self, outcome: CommandOutcome) -> (r: Step<RamTypeProbe, String>)
        ensures
            r@ == ram_advance(outcome@),
    {
        match require_stdout(
            "dmidecode",
            "dmidecode command failed. Make sure you have sudo privileges and dmidecode is installed",
            outcome,
        ) {
            Err(e) => Step::Failed(e),
            Ok(output) => Step::Done(parse_ram_type(output.as_str())),
        }
    }
}

} // verus!
