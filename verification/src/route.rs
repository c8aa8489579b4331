//! Routing: which sheets are written, and where to, for given options.

use crate::delimiter::{extension_of, Delimiter};
use crate::filter::{
    filter_names, lemma_kept_names_are_given, pattern_view, FilterError, FilterErrorView, Patterns,
};
use crate::selector::{SelectorView, SheetSelector};
use vstd::prelude::*;
use vstd::string::*;

verus! {

/// The options that decide what is written and where to.
#[derive(Debug)]
pub struct Options {
    /// How many output paths are given.
    pub outputs: usize,
    /// Whether the sheet names are to be listed.
    pub list: bool,
    /// The sheet to write to the standard output, if one is selected.
    pub select: Option<SheetSelector>,
    /// Whether each sheet goes to a file that is named after it.
    pub use_sheet_names: bool,
    /// Whether a working directory is given for those files.
    pub workdir: bool,
    /// The pattern that a sheet name must match to be written.
    pub include_pattern: Option<String>,
    /// The pattern that a sheet name must not match to be written.
    pub exclude_pattern: Option<String>,
    /// Whether both patterns match without regard to case.
    pub ignore_case: bool,
    /// The field delimiter of what is written.
    pub delimiter: Delimiter,
}

/// The options with their texts as sequences of characters.
pub struct OptionsView {
    pub outputs: usize,
    pub list: bool,
    pub select: Option<SelectorView>,
    pub use_sheet_names: bool,
    pub workdir: bool,
    pub include_pattern: Option<Seq<char>>,
    pub exclude_pattern: Option<Seq<char>>,
    pub ignore_case: bool,
    pub delimiter: u8,
}

impl View for Options {
    type V = OptionsView;

    open spec fn view(&self) -> OptionsView {
        OptionsView {
            outputs: self.outputs,
            list: self.list,
            select: match self.select {
                Some(selector) => Some(selector@),
                None => None,
            },
            use_sheet_names: self.use_sheet_names,
            workdir: self.workdir,
            include_pattern: pattern_view(&self.include_pattern),
            exclude_pattern: pattern_view(&self.exclude_pattern),
            ignore_case: self.ignore_case,
            delimiter: self.delimiter.0,
        }
    }
}

/// The four ways to put a workbook out.
#[derive(Clone, Copy, Debug, PartialEq, Eq, Structural)]
pub enum OutputMode {
    /// The sheet names are printed and nothing is written.
    List,
    /// Each sheet that passes the patterns goes to a file named after it.
    NamedFiles,
    /// One sheet goes to the standard output.
    SingleStream,
    /// The sheets go to the given output paths, one after the other.
    PositionalFiles,
}

/// An option by its name.
#[derive(Clone, Copy, Debug, PartialEq, Eq, Structural)]
pub enum OptionName {
    Output,
    List,
    Select,
    UseSheetNames,
    Workdir,
    IncludePattern,
    ExcludePattern,
    IgnoreCase,
}

/// A rule on which options go together.
#[derive(Clone, Copy, Debug, PartialEq, Eq, Structural)]
pub enum Rule {
    /// The two options must not both be given.
    Conflict(OptionName, OptionName),
    /// Where the first option is given, the second must be given too.
    Requires(OptionName, OptionName),
}

/// The rules, in the order in which they are checked.
pub open spec fn rules() -> Seq<Rule> {
    seq![
        Rule::Conflict(OptionName::List, OptionName::Output),
        Rule::Conflict(OptionName::List, OptionName::Select),
        Rule::Conflict(OptionName::List, OptionName::UseSheetNames),
        Rule::Conflict(OptionName::Select, OptionName::Output),
        Rule::Conflict(OptionName::UseSheetNames, OptionName::Output),
        Rule::Conflict(OptionName::Workdir, OptionName::Output),
        Rule::Requires(OptionName::Workdir, OptionName::UseSheetNames),
        Rule::Requires(OptionName::IncludePattern, OptionName::UseSheetNames),
        Rule::Requires(OptionName::ExcludePattern, OptionName::UseSheetNames),
        Rule::Requires(OptionName::IgnoreCase, OptionName::UseSheetNames),
    ]
}

impl OptionsView {
    /// Whether the option is given.
    pub open spec fn gives(self, name: OptionName) -> bool {
        match name {
            OptionName::Output => self.outputs > 0,
            OptionName::List => self.list,
            OptionName::Select => self.select is Some,
            OptionName::UseSheetNames => self.use_sheet_names,
            OptionName::Workdir => self.workdir,
            OptionName::IncludePattern => self.include_pattern is Some,
            OptionName::ExcludePattern => self.exclude_pattern is Some,
            OptionName::IgnoreCase => self.ignore_case,
        }
    }

    /// Whether the options break the rule.
    pub open spec fn breaks(self, rule: Rule) -> bool {
        match rule {
            Rule::Conflict(first, second) => self.gives(first) && self.gives(second),
            Rule::Requires(first, second) => self.gives(first) && !self.gives(second),
        }
    }

    /// Whether the options break none of the rules.
    pub open spec fn consistent(self) -> bool {
        forall|i: int| 0 <= i < rules().len() ==> !self.breaks(#[trigger] rules()[i])
    }

    /// The way to put the workbook out. The first of these decides: the
    /// list option, the option to name files after sheets, the absence of
    /// output paths.
    pub open spec fn mode(self) -> OutputMode {
        if self.list {
            OutputMode::List
        } else if self.use_sheet_names {
            OutputMode::NamedFiles
        } else if self.outputs == 0 {
            OutputMode::SingleStream
        } else {
            OutputMode::PositionalFiles
        }
    }

    /// The two patterns with their case option.
    pub open spec fn patterns(self) -> Patterns {
        Patterns {
            include_pattern: self.include_pattern,
            exclude_pattern: self.exclude_pattern,
            ignore_case: self.ignore_case,
        }
    }
}

/// The rules as a list to walk through.
fn rule_list() -> (list: Vec<Rule>)
    ensures
        list@ == rules(),
{
    vec![
        Rule::Conflict(OptionName::List, OptionName::Output),
        Rule::Conflict(OptionName::List, OptionName::Select),
        Rule::Conflict(OptionName::List, OptionName::UseSheetNames),
        Rule::Conflict(OptionName::Select, OptionName::Output),
        Rule::Conflict(OptionName::UseSheetNames, OptionName::Output),
        Rule::Conflict(OptionName::Workdir, OptionName::Output),
        Rule::Requires(OptionName::Workdir, OptionName::UseSheetNames),
        Rule::Requires(OptionName::IncludePattern, OptionName::UseSheetNames),
        Rule::Requires(OptionName::ExcludePattern, OptionName::UseSheetNames),
        Rule::Requires(OptionName::IgnoreCase, OptionName::UseSheetNames),
    ]
}

impl Options {
    /// Whether the option is given.
    pub fn gives(&self, name: OptionName) -> (given: bool)
        ensures
            given == self@.gives(name),
    {
        match name {
            OptionName::Output => self.outputs > 0,
            OptionName::List => self.list,
            OptionName::Select => self.select.is_some(),
            OptionName::UseSheetNames => self.use_sheet_names,
            OptionName::Workdir => self.workdir,
            OptionName::IncludePattern => self.include_pattern.is_some(),
            OptionName::ExcludePattern => self.exclude_pattern.is_some(),
            OptionName::IgnoreCase => self.ignore_case,
        }
    }

    /// Whether the options break the rule.
    pub fn breaks(&self, rule: Rule) -> (broken: bool)
        ensures
            broken == self@.breaks(rule),
    {
        match rule {
            Rule::Conflict(first, second) => self.gives(first) && self.gives(second),
            Rule::Requires(first, second) => self.gives(first) && !self.gives(second),
        }
    }

    /// Checks the options against the rules and names the first rule that
    /// they break.
    pub fn validate(&self) -> (checked: Result<(), Rule>)
        ensures
            checked is Ok <==> self@.consistent(),
            checked matches Err(rule) ==> exists|i: int|
                0 <= i < rules().len() && rules()[i] == rule && self@.breaks(rule) && forall|j: int|
                    0 <= j < i ==> !self@.breaks(#[trigger] rules()[j]),
    {
        let list = rule_list();
        let mut i: usize = 0;
        while i < list.len()
            invariant
                i <= list.len(),
                list@ == rules(),
                forall|j: int| 0 <= j < i ==> !self@.breaks(#[trigger] rules()[j]),
            decreases list.len() - i,
        {
            if self.breaks(list[i]) {
                return Err(list[i]);
            }
            i += 1;
        }
        Ok(())
    }

    /// The way to put the workbook out.
    pub fn mode(&self) -> (mode: OutputMode)
        ensures
            mode == self@.mode(),
    {
        if self.list {
            OutputMode::List
        } else if self.use_sheet_names {
            OutputMode::NamedFiles
        } else if self.outputs == 0 {
            OutputMode::SingleStream
        } else {
            OutputMode::PositionalFiles
        }
    }
}

/// Where the text of a sheet goes.
#[derive(Debug)]
pub enum Destination {
    /// To the standard output.
    Stdout,
    /// To the output path at this position among those given.
    Output(usize),
    /// To the file of this name in the working directory.
    SheetFile(String),
}

/// A destination with its file name as a sequence of characters.
pub enum DestinationView {
    Stdout,
    Output(usize),
    SheetFile(Seq<char>),
}

impl View for Destination {
    type V = DestinationView;

    open spec fn view(&self) -> DestinationView {
        match self {
            Destination::Stdout => DestinationView::Stdout,
            Destination::Output(position) => DestinationView::Output(*position),
            Destination::SheetFile(name) => DestinationView::SheetFile(name@),
        }
    }
}

/// One sheet to write, and where to.
#[derive(Debug)]
pub struct Job {
    /// The name of the sheet, as the workbook gives it.
    pub sheet: String,
    /// Where the text of the sheet goes.
    pub destination: Destination,
}

/// A job with its texts as sequences of characters.
pub struct JobView {
    pub sheet: Seq<char>,
    pub destination: DestinationView,
}

impl View for Job {
    type V = JobView;

    open spec fn view(&self) -> JobView {
        JobView { sheet: self.sheet@, destination: self.destination@ }
    }
}

impl DeepView for Job {
    type V = JobView;

    open spec fn deep_view(&self) -> JobView {
        self@
    }
}

/// What is to be done with a workbook.
#[derive(Debug)]
pub enum Plan {
    /// These names are printed, one on each line.
    List(Vec<String>),
    /// These sheets are written, one after the other.
    Export(Vec<Job>),
}

/// A plan with its texts as sequences of characters.
pub enum PlanView {
    List(Seq<Seq<char>>),
    Export(Seq<JobView>),
}

impl View for Plan {
    type V = PlanView;

    open spec fn view(&self) -> PlanView {
        match self {
            Plan::List(names) => PlanView::List(names.deep_view()),
            Plan::Export(jobs) => PlanView::Export(jobs.deep_view()),
        }
    }
}

/// Why there is no plan.
#[derive(Debug)]
pub enum PlanError {
    /// The first sheet is asked for and the workbook has no sheet.
    NoSheets,
    /// A pattern is no regular expression.
    Filter(FilterError),
    /// The selector picks no sheet; the text says why.
    Selector(String),
}

/// A plan error with its text as a sequence of characters.
pub enum PlanErrorView {
    NoSheets,
    Filter(FilterErrorView),
    Selector(Seq<char>),
}

impl View for PlanError {
    type V = PlanErrorView;

    open spec fn view(&self) -> PlanErrorView {
        match self {
            PlanError::NoSheets => PlanErrorView::NoSheets,
            PlanError::Filter(error) => PlanErrorView::Filter(error@),
            PlanError::Selector(message) => PlanErrorView::Selector(message@),
        }
    }
}

/// The name of the file that a sheet goes to: the sheet's name, a dot, and
/// the extension that goes with the delimiter.
pub open spec fn sheet_file_name(sheet: Seq<char>, delimiter: u8) -> Seq<char> {
    sheet + "."@ + extension_of(delimiter)
}

/// The job that sends a sheet to the file named after it.
pub open spec fn named_job(sheet: Seq<char>, delimiter: u8) -> JobView {
    JobView {
        sheet,
        destination: DestinationView::SheetFile(sheet_file_name(sheet, delimiter)),
    }
}

/// The job that sends a sheet to the standard output.
pub open spec fn stream_job(sheet: Seq<char>) -> JobView {
    JobView { sheet, destination: DestinationView::Stdout }
}

/// The number of sheets that are paired with an output path: as many as
/// there are of the fewer.
pub open spec fn paired(sheets: nat, outputs: nat) -> nat {
    if sheets <= outputs {
        sheets
    } else {
        outputs
    }
}

/// The jobs that pair the sheets with the output paths by position. What is
/// left over of either is passed by.
pub open spec fn positional_jobs(names: Seq<Seq<char>>, outputs: usize) -> Seq<JobView> {
    Seq::new(
        paired(names.len(), outputs as nat),
        |i: int| JobView { sheet: names[i], destination: DestinationView::Output(i as usize) },
    )
}

/// What is to be done with a workbook whose sheets have these names. In
/// list mode the names are printed. Where files are named after sheets,
/// each sheet that passes the patterns goes to its file. Without output
/// paths the selected sheet, or the first where none is selected, goes to
/// the standard output. With output paths the sheets are paired with them.
pub open spec fn planned(options: OptionsView, names: Seq<Seq<char>>) -> Result<
    PlanView,
    PlanErrorView,
> {
    match options.mode() {
        OutputMode::List => Ok(PlanView::List(names)),
        OutputMode::NamedFiles => match options.patterns().filtered(names) {
            Ok(kept) => Ok(
                PlanView::Export(
                    kept.map_values(|sheet: Seq<char>| named_job(sheet, options.delimiter)),
                ),
            ),
            Err(error) => Err(PlanErrorView::Filter(error)),
        },
        OutputMode::SingleStream => match options.select {
            Some(selector) => match selector.resolve(names) {
                Ok(sheet) => Ok(PlanView::Export(seq![stream_job(sheet)])),
                Err(message) => Err(PlanErrorView::Selector(message)),
            },
            None => if names.len() > 0 {
                Ok(PlanView::Export(seq![stream_job(names[0])]))
            } else {
                Err(PlanErrorView::NoSheets)
            },
        },
        OutputMode::PositionalFiles => Ok(
            PlanView::Export(positional_jobs(names, options.outputs)),
        ),
    }
}

/// The outcome of planning, with its texts as sequences of characters.
pub open spec fn plan_view(outcome: Result<Plan, PlanError>) -> Result<PlanView, PlanErrorView> {
    match outcome {
        Ok(plan) => Ok(plan@),
        Err(error) => Err(error@),
    }
}

/// The name of the file that a sheet goes to.
pub fn file_name_for(sheet: &str, delimiter: Delimiter) -> (name: String)
    ensures
        name@ == sheet_file_name(sheet@, delimiter.0),
{
    let mut name = String::from_str(sheet);
    name.append(".");
    name.append(delimiter.to_file_extension().as_str());
    name
}

/// The names, copied in their order.
fn copy_names(names: &[String]) -> (copy: Vec<String>)
    ensures
        copy.deep_view() == names.deep_view(),
{
    let mut copy: Vec<String> = Vec::new();
    let mut i: usize = 0;
    while i < names.len()
        invariant
            i <= names.len(),
            copy.len() == i,
            forall|j: int| 0 <= j < i ==> copy[j]@ == names[j]@,
        decreases names.len() - i,
    {
        copy.push(names[i].clone());
        i += 1;
    }
    copy
}

/// The jobs that send each of the kept sheets to the file named after it.
fn named_jobs(kept: &Vec<String>, delimiter: Delimiter) -> (jobs: Vec<Job>)
    ensures
        jobs.deep_view() == kept.deep_view().map_values(
            |sheet: Seq<char>| named_job(sheet, delimiter.0),
        ),
{
    let mut jobs: Vec<Job> = Vec::new();
    let mut i: usize = 0;
    while i < kept.len()
        invariant
            i <= kept.len(),
            jobs.len() == i,
            forall|j: int| 0 <= j < i ==> jobs[j]@ == named_job(kept[j]@, delimiter.0),
        decreases kept.len() - i,
    {
        let file = file_name_for(kept[i].as_str(), delimiter);
        jobs.push(Job { sheet: kept[i].clone(), destination: Destination::SheetFile(file) });
        i += 1;
    }
    jobs
}

/// The jobs that pair the sheets with the output paths by position.
fn pair_by_position(names: &[String], outputs: usize) -> (jobs: Vec<Job>)
    ensures
        jobs.deep_view() == positional_jobs(names.deep_view(), outputs),
{
    let count = if names.len() <= outputs {
        names.len()
    } else {
        outputs
    };
    let mut jobs: Vec<Job> = Vec::new();
    let mut i: usize = 0;
    while i < count
        invariant
            i <= count <= names.len(),
            jobs.len() == i,
            forall|j: int|
                0 <= j < i ==> jobs[j]@ == (JobView {
                    sheet: names[j]@,
                    destination: DestinationView::Output(j as usize),
                }),
        decreases count - i,
    {
        jobs.push(Job { sheet: names[i].clone(), destination: Destination::Output(i) });
        i += 1;
    }
    jobs
}

/// Plans what is to be done with a workbook whose sheets have these names,
/// in the order of the workbook.
pub fn plan(options: &Options, names: &[String]) -> (outcome: Result<Plan, PlanError>)
    ensures
        plan_view(outcome) == planned(options@, names.deep_view()),
{
    match options.mode() {
        OutputMode::List => Ok(Plan::List(copy_names(names))),
        OutputMode::NamedFiles => {
            match filter_names(
                names,
                &options.include_pattern,
                &options.exclude_pattern,
                options.ignore_case,
            ) {
                Ok(kept) => Ok(Plan::Export(named_jobs(&kept, options.delimiter))),
                Err(error) => Err(PlanError::Filter(error)),
            }
        },
        OutputMode::SingleStream => {
            let sheet = match &options.select {
                Some(selector) => match selector.find_in(names) {
                    Ok(sheet) => sheet.clone(),
                    Err(message) => {
                        return Err(PlanError::Selector(message));
                    },
                },
                None => if names.len() > 0 {
                    names[0].clone()
                } else {
                    return Err(PlanError::NoSheets);
                },
            };
            let mut jobs: Vec<Job> = Vec::new();
            jobs.push(Job { sheet, destination: Destination::Stdout });
            assert(jobs.deep_view() =~= seq![stream_job(sheet@)]);
            Ok(Plan::Export(jobs))
        },
        OutputMode::PositionalFiles => Ok(Plan::Export(pair_by_position(names, options.outputs))),
    }
}

/// The lines that list mode prints: each name, in order, with a line feed
/// after it.
pub open spec fn lines(names: Seq<Seq<char>>) -> Seq<char>
    decreases names.len(),
{
    if names.len() == 0 {
        Seq::empty()
    } else {
        lines(names.drop_last()) + names.last() + "\n"@
    }
}

/// The text that list mode prints.
pub fn listing(names: &[String]) -> (text: String)
    ensures
        text@ == lines(names.deep_view()),
{
    let mut text = String::new();
    let mut i: usize = 0;
    while i < names.len()
        invariant
            i <= names.len(),
            text@ == lines(names.deep_view().take(i as int)),
        decreases names.len() - i,
    {
        proof {
            let before = names.deep_view().take(i as int);
            assert(names.deep_view().take(i + 1).drop_last() =~= before);
        }
        text.append(names[i].as_str());
        text.append("\n");
        i += 1;
    }
    assert(names.deep_view().take(i as int) =~= names.deep_view());
    text
}

/// Every sheet that a plan writes or lists is a sheet of the workbook: no
/// name is made up.
pub proof fn lemma_plan_names_only_given_sheets(options: OptionsView, names: Seq<Seq<char>>)
    ensures
        planned(options, names) matches Ok(PlanView::Export(jobs)) ==> forall|i: int|
            0 <= i < jobs.len() ==> names.contains((#[trigger] jobs[i]).sheet),
        planned(options, names) matches Ok(PlanView::List(listed)) ==> listed == names,
{
    if let Ok(PlanView::Export(jobs)) = planned(options, names) {
        assert forall|i: int| 0 <= i < jobs.len() implies names.contains(
            (#[trigger] jobs[i]).sheet,
        ) by {
            if options.mode() == OutputMode::NamedFiles {
                lemma_kept_names_are_given(options.patterns(), names, i);
            }
        }
    }
}

/// With the list option the plan is to print the names of the sheets in the
/// order of the workbook, and to write nothing.
pub proof fn lemma_list_mode_prints_names_in_order(options: OptionsView, names: Seq<Seq<char>>)
    requires
        options.list,
    ensures
        planned(options, names) == Ok::<PlanView, PlanErrorView>(PlanView::List(names)),
{
}

/// With output paths and neither the list option nor the option to name
/// files after sheets, the sheets are paired with the paths by position:
/// there are as many jobs as there are of the fewer, and the job at each
/// position sends the sheet at that position to the path at that position.
pub proof fn lemma_positional_mode_pairs_by_position(options: OptionsView, names: Seq<Seq<char>>)
    requires
        options.mode() == OutputMode::PositionalFiles,
    ensures
        planned(options, names) matches Ok(PlanView::Export(jobs)) && jobs.len() == paired(
            names.len(),
            options.outputs as nat,
        ) && forall|i: int|
            0 <= i < jobs.len() ==> (#[trigger] jobs[i]).sheet == names[i] && jobs[i].destination
                == DestinationView::Output(i as usize),
{
}

/// Options that break no rule settle the way out: the list option stands
/// alone, output paths come with neither a selector nor files named after
/// sheets, and each option that belongs to the files named after sheets
/// comes with that way.
pub proof fn lemma_consistent_options_settle_mode(options: OptionsView)
    requires
        options.consistent(),
    ensures
        options.list ==> options.outputs == 0 && options.select is None
            && !options.use_sheet_names,
        options.outputs > 0 ==> options.mode() == OutputMode::PositionalFiles
            && options.select is None && !options.workdir,
        options.workdir || options.include_pattern is Some || options.exclude_pattern is Some
            || options.ignore_case ==> options.mode() == OutputMode::NamedFiles,
{
    assert(rules().len() == 10);
}

} // verus!
