//! The course of one run, as a machine that the caller drives: each step
//! returns the next piece of outside work (read, solve, print, create, list,
//! write), and the caller hands back its outcome.
use vstd::prelude::*;
use crate::batch::{generation_jobs, targets, GenerationJob};
use crate::cli::{get_level_input_path, sub_level_name, Cli};
use crate::error::HarnessError;
use crate::lines::{lines_of, render, render_lines, split_lines};
use crate::paths::{expected_output_path, expected_path_of, level_dir, level_dir_of, path_of};
use crate::solver::SolverRegistry;
use crate::validate::{
    compare_output, report_of, validation_report, verdict_of, ValidationConfig, Verdict,
};

verus! {

/// The outside work that a run asks for next.
pub enum Action {
    /// Read the file at `path`.
    Read { path: String },
    /// Run the solver of `level` on `input_lines`.
    Solve { level: usize, input_lines: Vec<String> },
    /// Show `text` on standard output as it is.
    Print { text: String },
    /// Create the directory `path` and its parents, if missing.
    CreateDir { path: String },
    /// List the file names of the directory `path`.
    List { path: String },
    /// Write `contents` to the file `path`, replacing it.
    Write { path: String, contents: String },
    /// The run is over.
    Finish,
    /// The run stops with `error`.
    Fail { error: HarnessError },
}

/// What came of the work that the last action asked for.
pub enum Outcome {
    /// The content of the file read, or `None` when it could not be read.
    Read(Option<String>),
    /// What the solver returned.
    Solved(Result<Vec<String>, HarnessError>),
    /// Whether a creation, a write or a print succeeded.
    Done(bool),
    /// The file names of the directory listed, or `None` when it could not be listed.
    Listed(Option<Vec<String>>),
}

/// Where a run stands.
pub enum Phase {
    /// Waiting for the input file at `path`.
    Input { path: String },
    /// Waiting for the solver's result on the input.
    SolvingInput,
    /// Waiting for the example output at `path`, to compare `output` with.
    Expected { path: String, output: Vec<String> },
    /// The validation report was shown; `generate` tells whether generation follows.
    Shown { generate: bool },
    /// Waiting for the output directory at `path` to be created.
    Dir { path: String },
    /// Waiting for the listing of the input directory at `path`.
    Listing { path: String },
    /// Waiting for the input of job `next`.
    Target { jobs: Vec<GenerationJob>, next: usize },
    /// Waiting for the solver's result on the input of job `next`.
    SolvingTarget { jobs: Vec<GenerationJob>, next: usize },
    /// Waiting for the output of job `next` to be written.
    Writing { jobs: Vec<GenerationJob>, next: usize },
    /// The write of a job was reported; job `next` comes next.
    Written { jobs: Vec<GenerationJob>, next: usize },
    /// Nothing more to do.
    Over,
}

/// One run: single-run mode solves one numbered input and prints the result;
/// validation mode solves the example, compares it with the example output and,
/// on a match, generates the output of every other input of the level.
pub struct Session {
    pub level: usize,
    pub single: bool,
    pub config: ValidationConfig,
    pub phase: Phase,
}

pub open spec fn reads(a: Action, p: Seq<char>) -> bool {
    match a {
        Action::Read { path } => path@ == p,
        _ => false,
    }
}

pub open spec fn solves(a: Action, level: usize, lines: Seq<Seq<char>>) -> bool {
    match a {
        Action::Solve { level: l, input_lines } => l == level && input_lines.deep_view() == lines,
        _ => false,
    }
}

pub open spec fn prints(a: Action, text: Seq<char>) -> bool {
    match a {
        Action::Print { text: t } => t@ == text,
        _ => false,
    }
}

pub open spec fn creates_dir(a: Action, p: Seq<char>) -> bool {
    match a {
        Action::CreateDir { path } => path@ == p,
        _ => false,
    }
}

pub open spec fn lists(a: Action, p: Seq<char>) -> bool {
    match a {
        Action::List { path } => path@ == p,
        _ => false,
    }
}

pub open spec fn writes(a: Action, p: Seq<char>, contents: Seq<char>) -> bool {
    match a {
        Action::Write { path, contents: c } => path@ == p && c@ == contents,
        _ => false,
    }
}

/// The run stops on an error of reading `p`.
pub open spec fn fails_reading(a: Action, p: Seq<char>) -> bool {
    match a {
        Action::Fail { error: HarnessError::ReadFile { path } } => path@ == p,
        _ => false,
    }
}

pub open spec fn fails_creating_dir(a: Action, p: Seq<char>) -> bool {
    match a {
        Action::Fail { error: HarnessError::CreateDir { path } } => path@ == p,
        _ => false,
    }
}

pub open spec fn fails_listing(a: Action, p: Seq<char>) -> bool {
    match a {
        Action::Fail { error: HarnessError::ListDir { path } } => path@ == p,
        _ => false,
    }
}

pub open spec fn fails_creating_file(a: Action, p: Seq<char>) -> bool {
    match a {
        Action::Fail { error: HarnessError::CreateFile { path } } => path@ == p,
        _ => false,
    }
}

/// The line that reports a written output file.
pub open spec fn written_note(p: Seq<char>) -> Seq<char> {
    "Output written to: "@ + p + "\n"@
}

/// The jobs that a listing of the input directory gives.
pub open spec fn jobs_for(jobs: Seq<GenerationJob>, level: nat, names: Seq<Seq<char>>) -> bool {
    &&& jobs.len() == targets(level, names).len()
    &&& forall|i: int| 0 <= i < jobs.len() ==> (#[trigger] jobs[i]).is_job_of(level, targets(level, names)[i])
}

/// The action that starts job `next`, or ends the run after the last job.
pub open spec fn job_start(a: Action, jobs: Seq<GenerationJob>, next: int) -> bool {
    if next < jobs.len() {
        reads(a, jobs[next].input_path@)
    } else {
        a is Finish
    }
}

impl Phase {
    /// The phase that follows job `next`'s start.
    pub open spec fn at_job(self, jobs: Seq<GenerationJob>, next: int) -> bool {
        if next < jobs.len() {
            self matches Phase::Target { jobs: j, next: n } && j@ == jobs && n == next
        } else {
            self is Over
        }
    }
}

/// One step of a run: from `s`, with `o` the outcome of its last action, the
/// run moves to `t` and asks for `a`.
pub open spec fn transition(s: Session, o: Outcome, t: Session, a: Action) -> bool {
    let level = s.level;
    &&& t.level == s.level
    &&& t.single == s.single
    &&& t.config == s.config
    &&& match s.phase {
        Phase::Input { path } => match o {
            Outcome::Read(Some(c)) => solves(a, level, lines_of(c@)) && t.phase is SolvingInput,
            _ => fails_reading(a, path@) && t.phase is Over,
        },
        Phase::SolvingInput => match o {
            Outcome::Solved(Ok(out)) => if s.single {
                prints(a, render(out.deep_view())) && t.phase == (Phase::Shown { generate: false })
            } else {
                &&& reads(a, expected_path_of(level as nat))
                &&& t.phase matches Phase::Expected { path, output } && path@ == expected_path_of(
                    level as nat,
                ) && output.deep_view() == out.deep_view()
            },
            Outcome::Solved(Err(e)) => a == (Action::Fail { error: e }) && t.phase is Over,
            _ => a is Finish && t.phase is Over,
        },
        Phase::Expected { path, output } => match o {
            Outcome::Read(Some(c)) => {
                let verdict = verdict_of(output.deep_view(), lines_of(c@), s.config.force_write);
                &&& prints(a, report_of(verdict, output.deep_view(), lines_of(c@)) + "\n"@)
                &&& t.phase == (Phase::Shown { generate: !(verdict is Mismatch) })
            },
            _ => fails_reading(a, path@) && t.phase is Over,
        },
        Phase::Shown { generate } => if generate {
            &&& creates_dir(a, level_dir_of(level as nat, true))
            &&& t.phase matches Phase::Dir { path } && path@ == level_dir_of(level as nat, true)
        } else {
            a is Finish && t.phase is Over
        },
        Phase::Dir { path } => if o == Outcome::Done(true) {
            &&& lists(a, level_dir_of(level as nat, false))
            &&& t.phase matches Phase::Listing { path: p } && p@ == level_dir_of(level as nat, false)
        } else {
            fails_creating_dir(a, path@) && t.phase is Over
        },
        Phase::Listing { path } => match o {
            Outcome::Listed(Some(names)) => {
                let subs = targets(level as nat, names.deep_view());
                if subs.len() == 0 {
                    a is Finish && t.phase is Over
                } else {
                    &&& reads(a, path_of(level as nat, subs[0], false))
                    &&& t.phase matches Phase::Target { jobs, next } && next == 0 && jobs_for(
                        jobs@,
                        level as nat,
                        names.deep_view(),
                    )
                }
            },
            _ => fails_listing(a, path@) && t.phase is Over,
        },
        Phase::Target { jobs, next } => if next < jobs.len() {
            match o {
                Outcome::Read(Some(c)) => {
                    &&& solves(a, level, lines_of(c@))
                    &&& t.phase matches Phase::SolvingTarget { jobs: j, next: n } && j@ == jobs@
                        && n == next
                },
                _ => fails_reading(a, jobs@[next as int].input_path@) && t.phase is Over,
            }
        } else {
            a is Finish && t.phase is Over
        },
        Phase::SolvingTarget { jobs, next } => if next < jobs.len() {
            match o {
                Outcome::Solved(Ok(out)) => {
                    &&& writes(a, jobs@[next as int].output_path@, render(out.deep_view()))
                    &&& t.phase matches Phase::Writing { jobs: j, next: n } && j@ == jobs@ && n
                        == next
                },
                Outcome::Solved(Err(e)) => a == (Action::Fail { error: e }) && t.phase is Over,
                _ => a is Finish && t.phase is Over,
            }
        } else {
            a is Finish && t.phase is Over
        },
        Phase::Writing { jobs, next } => if next < jobs.len() {
            if o == Outcome::Done(true) {
                &&& prints(a, written_note(jobs@[next as int].output_path@))
                &&& t.phase matches Phase::Written { jobs: j, next: n } && j@ == jobs@ && n
                    == next + 1
            } else {
                fails_creating_file(a, jobs@[next as int].output_path@) && t.phase is Over
            }
        } else {
            a is Finish && t.phase is Over
        },
        Phase::Written { jobs, next } => job_start(a, jobs@, next as int) && t.phase.at_job(
            jobs@,
            next as int,
        ),
        Phase::Over => a is Finish && t.phase is Over,
    }
}

/// Whether `o` is the kind of outcome that the work of `a` gives.
pub open spec fn answers(a: Action, o: Outcome) -> bool {
    match a {
        Action::Read { .. } => o is Read,
        Action::Solve { .. } => o is Solved,
        Action::List { .. } => o is Listed,
        Action::Print { .. } | Action::CreateDir { .. } | Action::Write { .. } => o is Done,
        _ => false,
    }
}

/// In validation mode, when the example output cannot be read, the run stops
/// with a read error on that path, right after solving the example: nothing is
/// created, listed, read, solved or written after it.
pub proof fn lemma_missing_reference_stops_run(
    s: Session,
    output: Vec<String>,
    t: Session,
    a: Action,
    t2: Session,
    a2: Action,
)
    requires
        s.phase is SolvingInput,
        !s.single,
        transition(s, Outcome::Solved(Ok(output)), t, a),
        transition(t, Outcome::Read(None), t2, a2),
    ensures
        reads(a, expected_path_of(s.level as nat)),
        fails_reading(a2, expected_path_of(s.level as nat)),
        t2.phase is Over,
        forall|o: Outcome| !t2.expects(o),
{
}

/// Unforced, a result that differs from the example output is shown beside it,
/// and the run then ends without any directory or file work.
pub proof fn lemma_mismatch_ends_run(
    s: Session,
    output: Seq<Seq<char>>,
    content: String,
    t: Session,
    a: Action,
    o2: Outcome,
    t2: Session,
    a2: Action,
)
    requires
        s.phase matches Phase::Expected { output: v, .. } && v.deep_view() == output,
        !s.config.force_write,
        output != lines_of(content@),
        transition(s, Outcome::Read(Some(content)), t, a),
        transition(t, o2, t2, a2),
    ensures
        prints(a, report_of(Verdict::Mismatch, output, lines_of(content@)) + "\n"@),
        a2 is Finish,
        t2.phase is Over,
{
}

/// Unforced, a result equal to the example output is reported as a match, and
/// the run goes on to create the level's output directory.
pub proof fn lemma_match_starts_generation(
    s: Session,
    output: Seq<Seq<char>>,
    content: String,
    t: Session,
    a: Action,
    t2: Session,
    a2: Action,
)
    requires
        s.phase matches Phase::Expected { output: v, .. } && v.deep_view() == output,
        !s.config.force_write,
        output == lines_of(content@),
        transition(s, Outcome::Read(Some(content)), t, a),
        transition(t, Outcome::Done(true), t2, a2),
    ensures
        prints(a, report_of(Verdict::Matches, output, lines_of(content@)) + "\n"@),
        creates_dir(a2, level_dir_of(s.level as nat, true)),
        t2.phase is Dir,
{
}

/// During generation, the input of a job is solved as read, and the output file
/// of the job receives what the level's registered solver gives for those lines.
pub proof fn lemma_job_writes_solver_output<S: Fn(Vec<String>) -> Vec<String>>(
    registry: SolverRegistry<S>,
    s: Session,
    jobs: Seq<GenerationJob>,
    next: int,
    content: String,
    t: Session,
    a: Action,
    input_lines: Vec<String>,
    output: Vec<String>,
    t2: Session,
    a2: Action,
)
    requires
        s.phase matches Phase::Target { jobs: j, next: n } && j@ == jobs && n == next,
        0 <= next < jobs.len(),
        transition(s, Outcome::Read(Some(content)), t, a),
        a == (Action::Solve { level: s.level, input_lines }),
        call_ensures(registry.solver_for(s.level), (input_lines,), output),
        transition(t, Outcome::Solved(Ok(output)), t2, a2),
    ensures
        input_lines.deep_view() == lines_of(content@),
        call_ensures(registry.solver_for(s.level), (input_lines,), output),
        writes(a2, jobs[next].output_path@, render(output.deep_view())),
{
}

impl Session {
    /// Whether `outcome` is the kind of outcome that the last action asked for.
    pub open spec fn expects(&self, outcome: Outcome) -> bool {
        match self.phase {
            Phase::Input { .. } | Phase::Expected { .. } | Phase::Target { .. } => outcome is Read,
            Phase::SolvingInput | Phase::SolvingTarget { .. } => outcome is Solved,
            Phase::Listing { .. } => outcome is Listed,
            Phase::Over => false,
            _ => outcome is Done,
        }
    }

    /// Starts a run of `args`: its first action reads the input file.
    pub fn start(args: &Cli, config: ValidationConfig) -> (r: (Session, Action))
        ensures
            r.0.level == args.level,
            r.0.single == (args.sub_level is Some),
            r.0.config == config,
            reads(r.1, path_of(args.level as nat, sub_level_name(args.sub_level), false)),
            r.0.phase matches Phase::Input { path } && reads(r.1, path@),
            forall|o: Outcome| answers(r.1, o) ==> r.0.expects(o),
    {
        let path = get_level_input_path(args);
        let first = Action::Read { path: path.clone() };
        let single = match args.sub_level {
            Some(_) => true,
            None => false,
        };
        (Session { level: args.level, single, config, phase: Phase::Input { path } }, first)
    }
}

impl Session {
    /// Whether `outcome` is the kind of outcome that the last action asked for.
    pub fn accepts(&self, outcome: &Outcome) -> (r: bool)
        ensures
            r == self.expects(*outcome),
    {
        match self.phase {
            Phase::Input { .. } | Phase::Expected { .. } | Phase::Target { .. } => {
                matches!(outcome, Outcome::Read(_))
            },
            Phase::SolvingInput | Phase::SolvingTarget { .. } => {
                matches!(outcome, Outcome::Solved(_))
            },
            Phase::Listing { .. } => matches!(outcome, Outcome::Listed(_)),
            Phase::Over => false,
            _ => matches!(outcome, Outcome::Done(_)),
        }
    }

    /// Hands back the outcome of the last action and returns the next one.
    pub fn step(&mut self, outcome: Outcome) -> (r: Action)
        requires
            old(self).expects(outcome),
        ensures
            transition(*old(self), outcome, *final(self), r),
            forall|o: Outcome| answers(r, o) ==> final(self).expects(o),
    {
        let mut phase = Phase::Over;
        core::mem::swap(&mut self.phase, &mut phase);
        let level: usize = self.level;
        match phase {
            Phase::Input { path } => match outcome {
                Outcome::Read(Some(content)) => {
                    self.phase = Phase::SolvingInput;
                    Action::Solve { level, input_lines: split_lines(content.as_str()) }
                },
                _ => Action::Fail { error: HarnessError::ReadFile { path } },
            },
            Phase::SolvingInput => match outcome {
                Outcome::Solved(Ok(output)) => {
                    if self.single {
                        self.phase = Phase::Shown { generate: false };
                        Action::Print { text: render_lines(&output) }
                    } else {
                        let path = expected_output_path(level);
                        let next = Action::Read { path: path.clone() };
                        self.phase = Phase::Expected { path, output };
                        next
                    }
                },
                Outcome::Solved(Err(error)) => Action::Fail { error },
                _ => Action::Finish,
            },
            Phase::Expected { path, output } => match outcome {
                Outcome::Read(Some(content)) => {
                    let expected = split_lines(content.as_str());
                    let verdict = compare_output(&output, &expected, &self.config);
                    let mut text = validation_report(verdict, &output, &expected);
                    text.append("\n");
                    self.phase = Phase::Shown { generate: verdict.generates() };
                    Action::Print { text }
                },
                _ => Action::Fail { error: HarnessError::ReadFile { path } },
            },
            Phase::Shown { generate } => {
                if generate {
                    let path = level_dir(level, true);
                    let next = Action::CreateDir { path: path.clone() };
                    self.phase = Phase::Dir { path };
                    next
                } else {
                    Action::Finish
                }
            },
            Phase::Dir { path } => {
                if let Outcome::Done(true) = outcome {
                    let input_dir = level_dir(level, false);
                    let next = Action::List { path: input_dir.clone() };
                    self.phase = Phase::Listing { path: input_dir };
                    next
                } else {
                    Action::Fail { error: HarnessError::CreateDir { path } }
                }
            },
            Phase::Listing { path } => match outcome {
                Outcome::Listed(Some(names)) => {
                    let jobs = generation_jobs(level, &names);
                    if jobs.len() == 0 {
                        Action::Finish
                    } else {
                        let next = Action::Read { path: jobs[0].input_path.clone() };
                        self.phase = Phase::Target { jobs, next: 0 };
                        next
                    }
                },
                _ => Action::Fail { error: HarnessError::ListDir { path } },
            },
            Phase::Target { jobs, next } => {
                if next < jobs.len() {
                    match outcome {
                        Outcome::Read(Some(content)) => {
                            self.phase = Phase::SolvingTarget { jobs, next };
                            Action::Solve { level, input_lines: split_lines(content.as_str()) }
                        },
                        _ => Action::Fail {
                            error: HarnessError::ReadFile { path: jobs[next].input_path.clone() },
                        },
                    }
                } else {
                    Action::Finish
                }
            },
            Phase::SolvingTarget { jobs, next } => {
                if next < jobs.len() {
                    match outcome {
                        Outcome::Solved(Ok(output)) => {
                            let action = Action::Write {
                                path: jobs[next].output_path.clone(),
                                contents: render_lines(&output),
                            };
                            self.phase = Phase::Writing { jobs, next };
                            action
                        },
                        Outcome::Solved(Err(error)) => Action::Fail { error },
                        _ => Action::Finish,
                    }
                } else {
                    Action::Finish
                }
            },
            Phase::Writing { jobs, next } => {
                if next < jobs.len() {
                    if let Outcome::Done(true) = outcome {
                        let mut text = String::from_str("Output written to: ");
                        text.append(jobs[next].output_path.as_str());
                        text.append("\n");
                        self.phase = Phase::Written { jobs, next: next + 1 };
                        Action::Print { text }
                    } else {
                        Action::Fail {
                            error: HarnessError::CreateFile { path: jobs[next].output_path.clone() },
                        }
                    }
                } else {
                    Action::Finish
                }
            },
            Phase::Written { jobs, next } => {
                if next < jobs.len() {
                    let action = Action::Read { path: jobs[next].input_path.clone() };
                    self.phase = Phase::Target { jobs, next };
                    action
                } else {
                    Action::Finish
                }
            },
            Phase::Over => Action::Finish,
        }
    }
}

} // verus!
