//! A run over several files: whether it passes, and what to do after each file.

use vstd::prelude::*;
use crate::config::{Config, Rule};
use crate::error::Error;
use crate::lint::{document_violations, lint_text};
use crate::violation::{all_placed, violation_views, Violation, ViolationView};
use crate::xml::parsed_text;

verus! {

/// How writing out the violations of one file ended.
#[derive(Debug, PartialEq)]
pub enum Written {
    /// All of them were written.
    Done,
    /// The reader of the output has gone away.
    BrokenPipe,
    /// Writing failed otherwise; the cause, as text.
    Failed(String),
}

/// What a run does after a file.
#[derive(Debug, PartialEq)]
pub enum Next {
    /// It goes on to the next file; the flag says whether every file so far
    /// met the rules.
    Continue(bool),
    /// It ends early; the flag says whether the run passes.
    Finish(bool),
    /// It ends with an error.
    Abort(Error),
}

/// Decides what a run does after a file, from whether every earlier file met
/// the rules, the number of violations found in this file, and how writing
/// them out ended.
///
/// A file with a violation makes the run fail. When the reader of the output
/// has gone away and a violation is known, the run ends at once and fails,
/// as nothing more can be printed; any other failure to write is an error.
pub fn next_step(meets_requirements: bool, violations: usize, written: Written) -> (next: Next)
    ensures
        next == (match written {
            Written::Done => Next::Continue(meets_requirements && violations == 0),
            Written::BrokenPipe => if meets_requirements && violations == 0 {
                Next::Continue(true)
            } else {
                Next::Finish(false)
            },
            Written::Failed(cause) => Next::Abort(Error::WriteOutput(cause)),
        }),
{
    let still = meets_requirements && violations == 0;
    match written {
        Written::Done => Next::Continue(still),
        Written::BrokenPipe => if still {
            Next::Continue(true)
        } else {
            Next::Finish(false)
        },
        Written::Failed(cause) => Next::Abort(Error::WriteOutput(cause)),
    }
}

/// The exit status of a run: 0 when every file met the rules, 1 when a
/// violation was found, 2 when the run ended with an error.
pub fn exit_status(outcome: &Result<bool, Error>) -> (status: u8)
    ensures
        status == (match *outcome {
            Ok(true) => 0u8,
            Ok(false) => 1u8,
            Err(_) => 2u8,
        }),
{
    match outcome {
        Ok(true) => 0,
        Ok(false) => 1,
        Err(_) => 2,
    }
}

/// What a run over several files found.
pub struct Report {
    /// The violations: file by file, and within a file in document order.
    pub violations: Vec<Violation>,
    /// Whether no violation was found in any file.
    pub meets_requirements: bool,
}

/// Whether every one of the given texts is a document.
pub open spec fn all_parse(files: Seq<(String, String)>) -> bool {
    forall|i: int| 0 <= i < files.len() ==> parsed_text((#[trigger] files[i]).1@) is Some
}

/// The violations of the given files, each a path and a text: those of each
/// file that is a document, in the order of the files.
pub open spec fn files_violations(files: Seq<(String, String)>, rules: Map<Seq<char>, Rule>) -> Seq<
    ViolationView,
>
    decreases files.len(),
{
    if files.len() == 0 {
        Seq::empty()
    } else {
        files_violations(files.drop_last(), rules) + (match parsed_text(files.last().1@) {
            Some(doc) => document_violations(files.last().0@, doc, rules),
            None => Seq::empty(),
        })
    }
}

/// Lints several files, each given as its path and its text. The run passes
/// when no violation is found in any of them. The first text that is no
/// document ends the run with an error that names its file.
pub fn lint_files(files: &Vec<(String, String)>, config: &Config) -> (outcome: Result<Report, Error>)
    requires
        config.wf(),
    ensures
        match outcome {
            Ok(report) => {
                &&& all_parse(files@)
                &&& violation_views(report.violations@) == files_violations(files@, config@)
                &&& all_placed(report.violations@)
                &&& report.meets_requirements == (report.violations@.len() == 0)
            },
            Err(error) => exists|i: int|
                {
                    &&& 0 <= i < files@.len()
                    &&& all_parse(files@.take(i))
                    &&& parsed_text((#[trigger] files@[i]).1@) is None
                    &&& error is ParseXML
                    &&& error->ParseXML_0@ == files@[i].0@
                },
        },
{
    let mut violations: Vec<Violation> = Vec::new();
    let mut i: usize = 0;
    assert(violation_views(violations@) =~= files_violations(files@.take(0), config@));
    while i < files.len()
        invariant
            config.wf(),
            i <= files.len(),
            all_parse(files@.take(i as int)),
            violation_views(violations@) == files_violations(files@.take(i as int), config@),
            all_placed(violations@),
        decreases files.len() - i,
    {
        let file = &files[i];
        match lint_text(&file.0, file.1.as_str(), config) {
            Ok(mut found) => {
                let ghost before = violation_views(violations@);
                let ghost added = violation_views(found@);
                violations.append(&mut found);
                proof {
                    assert(files@.take(i + 1).drop_last() =~= files@.take(i as int));
                    assert(files@.take(i + 1).last() == files@[i as int]);
                    assert(violation_views(violations@) =~= before + added);
                    assert forall|j: int| 0 <= j < i + 1 implies parsed_text(
                        (#[trigger] files@.take(i + 1)[j]).1@,
                    ) is Some by {
                        if j < i {
                            assert(files@.take(i as int)[j] == files@.take(i + 1)[j]);
                        }
                    }
                }
            },
            Err(error) => {
                return Err(error);
            },
        }
        i += 1;
    }
    assert(files@.take(i as int) =~= files@);
    let meets_requirements = violations.len() == 0;
    Ok(Report { violations, meets_requirements })
}

} // verus!
