//! Batches: one job for each input path, one item for each job once it has
//! run, and the lines that sum a batch up.

use crate::actions::ActionError;
use crate::log::{spec_with_start_line, with_start_line, LogKind};
use crate::text::{decimal, join, spec_decimal};
use human_duration::human_duration;
use std::time::Duration;
use vstd::prelude::*;
use vstd::string::*;

verus! {

/// What an input path leads to.
#[derive(Clone, Copy, Debug, PartialEq, Eq, Structural)]
pub enum PathState {
    Missing,
    File,
    Directory,
    Other,
}

/// What is done with an input path.
#[derive(Clone, Copy, Debug, PartialEq, Eq, Structural)]
pub enum Task {
    /// Seal the file as a stream.
    EncryptFile,
    /// Pack the directory and seal the pack.
    PackDirectory,
    /// Open the stream that the file holds.
    DecryptFile,
    /// Open the pack that the file holds and unpack it.
    UnpackPack,
    /// Leave it alone: it is of no type that can be handled.
    Skip,
}

/// The job for one input path.
#[derive(Clone, Debug, PartialEq, Eq)]
pub struct Job {
    pub task: Task,
    pub source: String,
    pub destination: String,
    pub delete_original: bool,
}

/// A job as contracts see it: its paths as sequences of characters.
pub struct JobModel {
    pub task: Task,
    pub source: Seq<char>,
    pub destination: Seq<char>,
    pub delete_original: bool,
}

impl View for Job {
    type V = JobModel;

    open spec fn view(&self) -> JobModel {
        JobModel {
            task: self.task,
            source: self.source@,
            destination: self.destination@,
            delete_original: self.delete_original,
        }
    }
}

/// How a job ended.
#[derive(Clone, Copy, Debug, PartialEq, Eq, Structural)]
pub enum Outcome {
    Success,
    Skipped,
    Failed,
}

/// How the job of one input path ended, with what it left.
#[derive(Clone, Debug, PartialEq, Eq)]
pub enum Status {
    Success { output: String },
    Skipped,
    Failed { error: ActionError },
}

/// One input path and how its job ended.
#[derive(Clone, Debug, PartialEq, Eq)]
pub struct BatchItem {
    pub path: String,
    pub status: Status,
}

/// The items of a batch, in the order of its input paths.
#[derive(Clone, Debug, PartialEq, Eq)]
pub struct BatchReport {
    pub items: Vec<BatchItem>,
}

/// Which of the two batch commands a summary is for.
#[derive(Clone, Copy, Debug, PartialEq, Eq, Structural)]
pub enum Verb {
    Encrypt,
    Decrypt,
}

/// One line of a summary, with the kind of message it is.
#[derive(Clone, Debug, PartialEq, Eq)]
pub struct ReportLine {
    pub kind: LogKind,
    pub text: String,
}

/// A line of a summary as contracts see it.
pub struct LineModel {
    pub kind: LogKind,
    pub text: Seq<char>,
}

impl View for ReportLine {
    type V = LineModel;

    open spec fn view(&self) -> LineModel {
        LineModel { kind: self.kind, text: self.text@ }
    }
}

/// The views of a list of lines.
pub open spec fn spec_lines(lines: Seq<ReportLine>) -> Seq<LineModel> {
    Seq::new(lines.len(), |i: int| lines[i]@)
}

/// What `human_duration` writes for a duration of this many milliseconds.
pub uninterp spec fn human_duration_text(millis: u64) -> Seq<char>;

/// `human_duration` of the `human-duration` crate, on the duration that
/// `Duration::from_millis` makes of `millis`.
#[verifier::external_body]
fn format_duration(millis: u64) -> (text: String)
    ensures
        text@ == human_duration_text(millis),
{
    human_duration(&Duration::from_millis(millis))
}

/// How a status counts.
pub open spec fn spec_outcome(status: Status) -> Outcome {
    match status {
        Status::Success { .. } => Outcome::Success,
        Status::Skipped => Outcome::Skipped,
        Status::Failed { .. } => Outcome::Failed,
    }
}

/// How a job that ended with `result` counts: a skipped path counts as
/// skipped whatever came back.
pub open spec fn spec_job_outcome(task: Task, result: Result<(), ActionError>) -> Outcome {
    if task == Task::Skip {
        Outcome::Skipped
    } else if result is Ok {
        Outcome::Success
    } else {
        Outcome::Failed
    }
}

/// Number of items that ended with `outcome`.
pub open spec fn spec_count(items: Seq<BatchItem>, outcome: Outcome) -> nat
    decreases items.len(),
{
    if items.len() == 0 {
        0
    } else {
        spec_count(items.drop_last(), outcome) + if spec_outcome(items.last().status) == outcome {
            1nat
        } else {
            0nat
        }
    }
}

/// The kind of message that tells of an outcome.
pub open spec fn spec_line_kind(outcome: Outcome) -> LogKind {
    match outcome {
        Outcome::Success => LogKind::Success,
        Outcome::Skipped => LogKind::Info,
        Outcome::Failed => LogKind::Error,
    }
}

/// The paths of the items that ended with `outcome`, each as a line of
/// detail: indented by four spaces and one more.
pub open spec fn spec_details(items: Seq<BatchItem>, outcome: Outcome) -> Seq<LineModel>
    decreases items.len(),
{
    if items.len() == 0 {
        Seq::empty()
    } else {
        let head = spec_details(items.drop_last(), outcome);
        if spec_outcome(items.last().status) == outcome {
            head.push(
                LineModel {
                    kind: spec_line_kind(outcome),
                    text: spec_with_start_line(items.last().path@, "    "@),
                },
            )
        } else {
            head
        }
    }
}

/// The line that says how many items ended with `outcome`.
pub open spec fn spec_headline(verb: Verb, outcome: Outcome, count: nat, duration: Seq<char>) -> Seq<
    char,
> {
    match outcome {
        Outcome::Success => (match verb {
            Verb::Encrypt => "Encrypted "@,
            Verb::Decrypt => "Decrypted "@,
        }) + spec_decimal(count) + " files in "@ + duration,
        Outcome::Failed => (match verb {
            Verb::Encrypt => "Failed to encrypt "@,
            Verb::Decrypt => "Failed to decrypt "@,
        }) + spec_decimal(count) + " files"@,
        Outcome::Skipped => spec_decimal(count) + (if count == 1 {
            " entry"@
        } else {
            " entries"@
        }) + " were skipped (unknown type)"@,
    }
}

/// The lines for one outcome: none where no item ended with it; else the
/// headline and, where details are asked for, a line for each such item.
pub open spec fn spec_section(
    items: Seq<BatchItem>,
    verb: Verb,
    outcome: Outcome,
    duration: Seq<char>,
    debug: bool,
) -> Seq<LineModel> {
    let count = spec_count(items, outcome);
    let kind = spec_line_kind(outcome);
    if count == 0 {
        Seq::empty()
    } else {
        let headline = seq![LineModel { kind, text: spec_headline(verb, outcome, count, duration) }];
        if debug {
            headline + spec_details(items, outcome)
        } else {
            headline
        }
    }
}

/// The summary of a batch: successes, then failures, then skipped paths.
pub open spec fn spec_summary(
    items: Seq<BatchItem>,
    verb: Verb,
    duration: Seq<char>,
    debug: bool,
) -> Seq<LineModel> {
    spec_section(items, verb, Outcome::Success, duration, debug) + spec_section(
        items,
        verb,
        Outcome::Failed,
        duration,
        debug,
    ) + spec_section(items, verb, Outcome::Skipped, duration, debug)
}

/// Every item ended in exactly one of the three ways.
pub proof fn lemma_counts_partition(items: Seq<BatchItem>)
    ensures
        spec_count(items, Outcome::Success) + spec_count(items, Outcome::Skipped) + spec_count(
            items,
            Outcome::Failed,
        ) == items.len(),
    decreases items.len(),
{
    if items.len() > 0 {
        lemma_counts_partition(items.drop_last());
    }
}

/// How a status counts.
pub fn outcome_of(status: &Status) -> (outcome: Outcome)
    ensures
        outcome == spec_outcome(*status),
{
    match status {
        Status::Success { .. } => Outcome::Success,
        Status::Skipped => Outcome::Skipped,
        Status::Failed { .. } => Outcome::Failed,
    }
}

/// The kind of message that tells of an outcome.
pub fn line_kind(outcome: Outcome) -> (kind: LogKind)
    ensures
        kind == spec_line_kind(outcome),
{
    match outcome {
        Outcome::Success => LogKind::Success,
        Outcome::Skipped => LogKind::Info,
        Outcome::Failed => LogKind::Error,
    }
}

/// The line that says how many items ended with `outcome`.
pub fn headline(verb: Verb, outcome: Outcome, count: usize, duration: &str) -> (text: String)
    ensures
        text@ == spec_headline(verb, outcome, count as nat, duration@),
{
    let number = decimal(count);
    match outcome {
        Outcome::Success => {
            let lead = match verb {
                Verb::Encrypt => "Encrypted ",
                Verb::Decrypt => "Decrypted ",
            };
            let mut text = join(lead, number.as_str());
            text.append(" files in ");
            text.append(duration);
            text
        },
        Outcome::Failed => {
            let lead = match verb {
                Verb::Encrypt => "Failed to encrypt ",
                Verb::Decrypt => "Failed to decrypt ",
            };
            let mut text = join(lead, number.as_str());
            text.append(" files");
            text
        },
        Outcome::Skipped => {
            let noun = if count == 1 {
                " entry"
            } else {
                " entries"
            };
            let mut text = join(number.as_str(), noun);
            text.append(" were skipped (unknown type)");
            text
        },
    }
}

impl BatchReport {
    /// A report with no items yet.
    pub fn new() -> (report: BatchReport)
        ensures
            report.items@.len() == 0,
    {
        BatchReport { items: Vec::new() }
    }

    /// Adds the item of a job that has run, or was skipped: the path is the
    /// job's source; a skipped path counts as skipped, a job that ended
    /// well leaves its destination, and one that failed its error.
    pub fn record(&mut self, job: &Job, result: Result<(), ActionError>)
        ensures
            final(self).items@ == old(self).items@.push(final(self).items@.last()),
            final(self).items@.last().path@ == job.source@,
            spec_outcome(final(self).items@.last().status) == spec_job_outcome(job.task, result),
            final(self).items@.last().status matches Status::Success { output } ==> output@
                == job.destination@,
            final(self).items@.last().status matches Status::Failed { error } ==> result
                == Err::<(), ActionError>(error),
    {
        let status = match job.task {
            Task::Skip => Status::Skipped,
            _ => match result {
                Ok(_) => Status::Success { output: job.destination.clone() },
                Err(error) => Status::Failed { error },
            },
        };
        let item = BatchItem { path: job.source.clone(), status };
        self.items.push(item);
    }

    /// Number of items that ended with `outcome`.
    pub fn count(&self, outcome: Outcome) -> (n: usize)
        ensures
            n == spec_count(self.items@, outcome),
    {
        let mut n: usize = 0;
        let mut i: usize = 0;
        while i < self.items.len()
            invariant
                i <= self.items@.len(),
                n == spec_count(self.items@.take(i as int), outcome),
                n <= i,
            decreases self.items@.len() - i,
        {
            assert(self.items@.take(i + 1).drop_last() =~= self.items@.take(i as int));
            if outcome_of(&self.items[i].status) == outcome {
                n += 1;
            }
            i += 1;
        }
        assert(self.items@.take(i as int) =~= self.items@);
        n
    }

    /// The numbers of successes, skipped paths and failures: together, the
    /// number of items.
    pub fn counts(&self) -> (n: (usize, usize, usize))
        ensures
            n.0 == spec_count(self.items@, Outcome::Success),
            n.1 == spec_count(self.items@, Outcome::Skipped),
            n.2 == spec_count(self.items@, Outcome::Failed),
            n.0 + n.1 + n.2 == self.items@.len(),
    {
        proof {
            lemma_counts_partition(self.items@);
        }
        (self.count(Outcome::Success), self.count(Outcome::Skipped), self.count(Outcome::Failed))
    }

    /// Appends the lines for one outcome to `lines`.
    fn section(
        &self,
        lines: &mut Vec<ReportLine>,
        verb: Verb,
        outcome: Outcome,
        duration: &str,
        debug: bool,
    )
        ensures
            spec_lines(final(lines)@) == spec_lines(old(lines)@) + spec_section(
                self.items@,
                verb,
                outcome,
                duration@,
                debug,
            ),
    {
        let ghost before = spec_lines(lines@);
        let count = self.count(outcome);
        let kind = line_kind(outcome);
        if count == 0 {
            assert(before + Seq::<LineModel>::empty() =~= before);
            return ;
        }
        let first = ReportLine { kind, text: headline(verb, outcome, count, duration) };
        let ghost head = seq![first@];
        assert(spec_lines(lines@.push(first)) =~= before + head);
        lines.push(first);
        if !debug {
            return ;
        }
        let mut i: usize = 0;
        assert(before + head + spec_details(self.items@.take(0), outcome) =~= before + head);
        while i < self.items.len()
            invariant
                i <= self.items@.len(),
                kind == spec_line_kind(outcome),
                spec_lines(lines@) == before + head + spec_details(
                    self.items@.take(i as int),
                    outcome,
                ),
            decreases self.items@.len() - i,
        {
            let ghost so_far = spec_details(self.items@.take(i as int), outcome);
            assert(self.items@.take(i + 1).drop_last() =~= self.items@.take(i as int));
            if outcome_of(&self.items[i].status) == outcome {
                let line = ReportLine {
                    kind,
                    text: with_start_line(self.items[i].path.as_str(), "    "),
                };
                proof {
                    assert(spec_lines(lines@.push(line)) =~= spec_lines(lines@).push(line@));
                    assert((before + head + so_far).push(line@) =~= before + head + so_far.push(
                        line@,
                    ));
                }
                lines.push(line);
            }
            i += 1;
        }
        proof {
            assert(self.items@.take(i as int) =~= self.items@);
            let details = spec_details(self.items@, outcome);
            assert(before + head + details =~= before + (head + details));
        }
    }

    /// The summary of the batch, with the elapsed time already written out.
    pub fn summary_with(&self, verb: Verb, duration: &str, debug: bool) -> (lines: Vec<ReportLine>)
        ensures
            spec_lines(lines@) == spec_summary(self.items@, verb, duration@, debug),
    {
        let mut lines: Vec<ReportLine> = Vec::new();
        self.section(&mut lines, verb, Outcome::Success, duration, debug);
        self.section(&mut lines, verb, Outcome::Failed, duration, debug);
        self.section(&mut lines, verb, Outcome::Skipped, duration, debug);
        proof {
            let a = spec_section(self.items@, verb, Outcome::Success, duration@, debug);
            let b = spec_section(self.items@, verb, Outcome::Failed, duration@, debug);
            let c = spec_section(self.items@, verb, Outcome::Skipped, duration@, debug);
            assert(Seq::<LineModel>::empty() + a + b + c =~= a + b + c);
        }
        lines
    }

    /// The summary of the batch: successes, then failures, then skipped
    /// paths, with the elapsed time as `human_duration` writes it.
    pub fn summary(&self, verb: Verb, elapsed_millis: u64, debug: bool) -> (lines: Vec<ReportLine>)
        ensures
            spec_lines(lines@) == spec_summary(
                self.items@,
                verb,
                human_duration_text(elapsed_millis),
                debug,
            ),
    {
        let duration = format_duration(elapsed_millis);
        self.summary_with(verb, duration.as_str(), debug)
    }
}

} // verus!
