//! What to do with each line that the downloader prints while it runs.

use vstd::prelude::*;
use crate::errors::{classified, classify, DownloadError, DownloadErrorModel, ERROR_MARKER};
use crate::text::{chars_of, contains, contains_text, string_views};

verus! {

/// The marker that the downloader puts on the lines that report progress.
pub const PROGRESS_MARKER: &'static str = "[download]";

/// How much of the downloader's output is shown.
#[derive(Debug, Clone, Copy, PartialEq, Eq, Structural)]
pub enum Verbosity {
    Quiet,
    Default,
    Verbose,
}

/// Whether and how a line is shown.
#[derive(Debug, Clone, Copy, PartialEq, Eq, Structural)]
pub enum Echo {
    /// The line is not shown.
    Silent,
    /// The line is shown as it is.
    Plain,
    /// The line is shown marked as an error.
    Highlighted,
}

/// How a line is shown under a verbosity.
///
/// Nothing is shown when quiet. By default a progress line is shown as it
/// is, another line only if it reports an error, and then marked. When
/// verbose every line is shown, the error lines marked.
pub open spec fn echo_of(line: Seq<char>, verbosity: Verbosity) -> Echo {
    let progress = contains_text(line, PROGRESS_MARKER@);
    let error = contains_text(line, ERROR_MARKER@);
    match verbosity {
        Verbosity::Quiet => Echo::Silent,
        Verbosity::Default => if progress {
            Echo::Plain
        } else if error {
            Echo::Highlighted
        } else {
            Echo::Silent
        },
        Verbosity::Verbose => if error {
            Echo::Highlighted
        } else {
            Echo::Plain
        },
    }
}

/// The views of the failures of `v`, in order.
pub open spec fn error_models(v: Seq<DownloadError>) -> Seq<DownloadErrorModel> {
    Seq::new(v.len(), |k: int| v[k]@)
}

/// The failures that the lines report, in the order of the lines.
pub open spec fn errors_of(lines: Seq<Seq<char>>) -> Seq<DownloadErrorModel>
    decreases lines.len(),
{
    if lines.len() == 0 {
        Seq::empty()
    } else {
        match classified(lines.last()) {
            Some(e) => errors_of(lines.drop_last()).push(e),
            None => errors_of(lines.drop_last()),
        }
    }
}

/// How each of the lines is shown, in the order of the lines.
pub open spec fn echoes_of(lines: Seq<Seq<char>>, verbosity: Verbosity) -> Seq<Echo> {
    Seq::new(lines.len(), |k: int| echo_of(lines[k], verbosity))
}

/// Decides how one line is shown.
pub fn echo_for(line: &str, verbosity: &Verbosity) -> (echo: Echo)
    ensures
        echo == echo_of(line@, *verbosity),
{
    let text = chars_of(line);
    match verbosity {
        Verbosity::Quiet => Echo::Silent,
        Verbosity::Default => {
            if contains(&text, &chars_of(PROGRESS_MARKER)) {
                Echo::Plain
            } else if contains(&text, &chars_of(ERROR_MARKER)) {
                Echo::Highlighted
            } else {
                Echo::Silent
            }
        },
        Verbosity::Verbose => {
            if contains(&text, &chars_of(ERROR_MARKER)) {
                Echo::Highlighted
            } else {
                Echo::Plain
            }
        },
    }
}

/// The failures seen so far in one run of the downloader.
pub struct RunLog {
    errors: Vec<DownloadError>,
}

impl View for RunLog {
    type V = Seq<DownloadErrorModel>;

    closed spec fn view(&self) -> Seq<DownloadErrorModel> {
        error_models(self.errors@)
    }
}

impl RunLog {
    /// The log of a run that has printed nothing yet.
    pub fn new() -> (log: RunLog)
        ensures
            log@ == Seq::<DownloadErrorModel>::empty(),
    {
        RunLog { errors: Vec::new() }
    }

    /// Takes note of one line of output and says how to show it.
    ///
    /// A line that reports a failure is recorded whatever the verbosity.
    pub fn observe(&mut self, line: &str, verbosity: &Verbosity) -> (echo: Echo)
        ensures
            echo == echo_of(line@, *verbosity),
            final(self)@ == match classified(line@) {
                Some(e) => old(self)@.push(e),
                None => old(self)@,
            },
    {
        let echo = echo_for(line, verbosity);
        match classify(line) {
            Some(e) => {
                self.errors.push(e);
                assert(self@ =~= old(self)@.push(e@));
            },
            None => {},
        }
        echo
    }

    /// Ends the run: the failures in the order in which they were seen, or
    /// nothing if there was none.
    pub fn finish(self) -> (r: Option<Vec<DownloadError>>)
        ensures
            r is None <==> self@.len() == 0,
            r is Some ==> error_models(r->Some_0@) == self@,
    {
        if self.errors.len() == 0 {
            None
        } else {
            Some(self.errors)
        }
    }
}

/// Goes through the whole output of one run.
///
/// Returns how each line is shown, and the failures that the lines report:
/// nothing if there was none.
pub fn run_command(lines: &Vec<String>, verbosity: &Verbosity) -> (r: (
    Vec<Echo>,
    Option<Vec<DownloadError>>,
))
    ensures
        r.0@ == echoes_of(string_views(lines@), *verbosity),
        r.1 is None <==> errors_of(string_views(lines@)).len() == 0,
        r.1 is Some ==> error_models(r.1->Some_0@) == errors_of(string_views(lines@)),
{
    let mut log = RunLog::new();
    let mut echoes: Vec<Echo> = Vec::new();
    let mut i: usize = 0;
    while i < lines.len()
        invariant
            i <= lines.len(),
            echoes@ == echoes_of(string_views(lines@).subrange(0, i as int), *verbosity),
            log@ == errors_of(string_views(lines@).subrange(0, i as int)),
        decreases lines.len() - i,
    {
        let ghost longer = string_views(lines@).subrange(0, i + 1);
        proof {
            assert(longer.drop_last() == string_views(lines@).subrange(0, i as int));
            assert(longer.last() == lines@[i as int]@);
        }
        let echo = log.observe(lines[i].as_str(), verbosity);
        echoes.push(echo);
        i += 1;
    }
    assert(string_views(lines@).subrange(0, lines.len() as int) == string_views(lines@));
    (echoes, log.finish())
}

} // verus!
