//! Steps to take on a host, and what follows where one cannot be taken.
use vstd::prelude::*;

use crate::service_control::sc_stopped;
use crate::text::{contains, has_part, texts};

verus! {

/// Something to do on a host.
#[derive(Debug)]
pub enum Action {
    MakeDir(String),
    WriteFile { path: String, contents: String },
    CopyFile { from: String, to: String },
    RenameFile { from: String, to: String },
    /// What follows where the file is not there, `missing` says.
    RemoveFile { path: String, missing: IfMissing },
    /// A program is run with its arguments. Where it fails with a text of
    /// `harmless` in its output, it counts as done.
    Run { argv: Vec<String>, harmless: Vec<String> },
    /// The DNS of the host is led to the server.
    ConfigureDns,
    /// The DNS of the host is led back to where it led.
    RestoreDns,
    /// The server is waited for until it answers.
    AwaitServer,
    /// The service is told to stop and waited for until it has.
    StopService,
}

/// What follows where a file that is to be removed is not there.
#[derive(Debug, Clone, Copy, PartialEq, Eq, Structural)]
pub enum IfMissing {
    /// It counts as removed.
    Done,
    /// No more steps, and no error.
    Leave,
    /// It counts as one that cannot be removed.
    Fail,
}

/// What follows where something cannot be done.
#[derive(Debug)]
pub enum OnFailure {
    /// No more steps, and an error.
    Stop,
    /// One more action, and an error.
    StopAfter(Action),
    /// No more steps, and no error.
    Leave,
    /// A warning, no more steps, and no error.
    WarnAndLeave,
    /// A warning, and the next step.
    Warn,
    /// The next step.
    Ignore,
}

/// A step: what to do, what follows where that cannot be done at all, and what
/// follows where a program was run and failed.
#[derive(Debug)]
pub struct Step {
    pub action: Action,
    pub cannot: OnFailure,
    pub refused: OnFailure,
}

/// Something to do on a host.
pub enum ActionView {
    MakeDir(Seq<char>),
    WriteFile { path: Seq<char>, contents: Seq<char> },
    CopyFile { from: Seq<char>, to: Seq<char> },
    RenameFile { from: Seq<char>, to: Seq<char> },
    RemoveFile { path: Seq<char>, missing: IfMissing },
    Run { argv: Seq<Seq<char>>, harmless: Seq<Seq<char>> },
    ConfigureDns,
    RestoreDns,
    AwaitServer,
    StopService,
}

/// What follows where something cannot be done.
pub enum FailureView {
    Stop,
    StopAfter(ActionView),
    Leave,
    WarnAndLeave,
    Warn,
    Ignore,
}

/// A step.
pub struct StepView {
    pub action: ActionView,
    pub cannot: FailureView,
    pub refused: FailureView,
}

impl View for Action {
    type V = ActionView;

    open spec fn view(&self) -> ActionView {
        match self {
            Action::MakeDir(p) => ActionView::MakeDir(p@),
            Action::WriteFile { path, contents } => ActionView::WriteFile {
                path: path@,
                contents: contents@,
            },
            Action::CopyFile { from, to } => ActionView::CopyFile { from: from@, to: to@ },
            Action::RenameFile { from, to } => ActionView::RenameFile { from: from@, to: to@ },
            Action::RemoveFile { path, missing } => ActionView::RemoveFile {
                path: path@,
                missing: *missing,
            },
            Action::Run { argv, harmless } => ActionView::Run {
                argv: texts(argv@),
                harmless: texts(harmless@),
            },
            Action::ConfigureDns => ActionView::ConfigureDns,
            Action::RestoreDns => ActionView::RestoreDns,
            Action::AwaitServer => ActionView::AwaitServer,
            Action::StopService => ActionView::StopService,
        }
    }
}

impl View for OnFailure {
    type V = FailureView;

    open spec fn view(&self) -> FailureView {
        match self {
            OnFailure::Stop => FailureView::Stop,
            OnFailure::StopAfter(a) => FailureView::StopAfter(a@),
            OnFailure::Leave => FailureView::Leave,
            OnFailure::WarnAndLeave => FailureView::WarnAndLeave,
            OnFailure::Warn => FailureView::Warn,
            OnFailure::Ignore => FailureView::Ignore,
        }
    }
}

impl View for Step {
    type V = StepView;

    open spec fn view(&self) -> StepView {
        StepView { action: self.action@, cannot: self.cannot@, refused: self.refused@ }
    }
}

/// Steps in their order.
pub open spec fn steps(v: Seq<Step>) -> Seq<StepView> {
    v.map_values(|s: Step| s@)
}

/// A step that must succeed.
pub open spec fn must(a: ActionView) -> StepView {
    StepView { action: a, cannot: FailureView::Stop, refused: FailureView::Stop }
}

/// A step that should succeed.
pub open spec fn should(a: ActionView) -> StepView {
    StepView { action: a, cannot: FailureView::Warn, refused: FailureView::Warn }
}

/// A step that may fail.
pub open spec fn may(a: ActionView) -> StepView {
    StepView { action: a, cannot: FailureView::Ignore, refused: FailureView::Ignore }
}

/// A program that is run.
pub open spec fn run(argv: Seq<Seq<char>>) -> ActionView {
    ActionView::Run { argv, harmless: Seq::empty() }
}

pub(crate) fn add_step(v: &mut Vec<Step>, action: Action, cannot: OnFailure, refused: OnFailure)
    ensures
        steps(final(v)@) == steps(old(v)@).push(
            StepView { action: action@, cannot: cannot@, refused: refused@ },
        ),
{
    v.push(Step { action, cannot, refused });
    assert(steps(v@) =~= steps(old(v)@).push(
        StepView { action: action@, cannot: cannot@, refused: refused@ },
    ));
}

pub(crate) fn add_must(v: &mut Vec<Step>, action: Action)
    ensures
        steps(final(v)@) == steps(old(v)@).push(must(action@)),
{
    add_step(v, action, OnFailure::Stop, OnFailure::Stop);
}

pub(crate) fn add_should(v: &mut Vec<Step>, action: Action)
    ensures
        steps(final(v)@) == steps(old(v)@).push(should(action@)),
{
    add_step(v, action, OnFailure::Warn, OnFailure::Warn);
}

pub(crate) fn add_may(v: &mut Vec<Step>, action: Action)
    ensures
        steps(final(v)@) == steps(old(v)@).push(may(action@)),
{
    add_step(v, action, OnFailure::Ignore, OnFailure::Ignore);
}

pub(crate) fn add_steps(v: &mut Vec<Step>, more: Vec<Step>)
    ensures
        steps(final(v)@) == steps(old(v)@) + steps(more@),
{
    let mut more = more;
    let ghost theirs = more@;
    let ghost mine = v@;
    v.append(&mut more);
    assert(steps(v@) =~= steps(mine) + steps(theirs));
}

/// The texts of some slices.
pub open spec fn shown(v: Seq<&str>) -> Seq<Seq<char>> {
    v.map_values(|s: &str| s@)
}

pub(crate) fn owned<const N: usize>(a: [&str; N]) -> (r: Vec<String>)
    ensures
        texts(r@) == shown(a@),
{
    let mut r: Vec<String> = Vec::new();
    let mut i: usize = 0;
    while i < N
        invariant
            i <= N,
            r@.len() == i,
            forall|j: int| 0 <= j < i ==> (#[trigger] r@[j])@ == a@[j]@,
        decreases N - i,
    {
        r.push(a[i].to_owned());
        i += 1;
    }
    assert(texts(r@) =~= shown(a@));
    r
}

pub(crate) fn run_program<const N: usize>(a: [&str; N]) -> (r: Action)
    ensures
        r@ == run(shown(a@)),
{
    let harmless: Vec<String> = Vec::new();
    assert(texts(harmless@) =~= Seq::<Seq<char>>::empty());
    Action::Run { argv: owned(a), harmless }
}

pub(crate) fn run2(a: &str, b: &str) -> (r: Action)
    ensures
        r@ == run(seq![a@, b@]),
{
    let r = run_program([a, b]);
    assert(r@->Run_argv =~= seq![a@, b@]);
    r
}

pub(crate) fn run3(a: &str, b: &str, c: &str) -> (r: Action)
    ensures
        r@ == run(seq![a@, b@, c@]),
{
    let r = run_program([a, b, c]);
    assert(r@->Run_argv =~= seq![a@, b@, c@]);
    r
}

pub(crate) fn run4(a: &str, b: &str, c: &str, d: &str) -> (r: Action)
    ensures
        r@ == run(seq![a@, b@, c@, d@]),
{
    let r = run_program([a, b, c, d]);
    assert(r@->Run_argv =~= seq![a@, b@, c@, d@]);
    r
}

pub(crate) fn run5(a: &str, b: &str, c: &str, d: &str, e: &str) -> (r: Action)
    ensures
        r@ == run(seq![a@, b@, c@, d@, e@]),
{
    let r = run_program([a, b, c, d, e]);
    assert(r@->Run_argv =~= seq![a@, b@, c@, d@, e@]);
    r
}

/// Whether a program counts as done, by whether it succeeded and by its output.
pub fn ran(success: bool, output: &str, harmless: &Vec<String>) -> (b: bool)
    ensures
        b == (success || exists|i: int|
            0 <= i < harmless@.len() && has_part(output@, (#[trigger] harmless@[i])@)),
{
    if success {
        return true;
    }
    let mut i: usize = 0;
    while i < harmless.len()
        invariant
            i <= harmless.len(),
            forall|j: int| 0 <= j < i ==> !has_part(output@, (#[trigger] harmless@[j])@),
        decreases harmless.len() - i,
    {
        if contains(output, harmless[i].as_str()) {
            return true;
        }
        i += 1;
    }
    false
}

/// What came of an action.
#[derive(Debug, Clone, Copy, PartialEq, Eq, Structural)]
pub enum Attempt {
    Done,
    /// The file that was to be removed is not there.
    Missing,
    /// A program was run and failed.
    Refused,
    /// It could not be done at all.
    Failed,
}

/// What follows a step: whether there is a warning, and how it goes on.
pub enum Next<'a> {
    /// With the next step.
    GoOn { warn: bool },
    /// With no more steps, and no error.
    Leave { warn: bool },
    /// With no more steps but one action at most, and an error.
    Stop { last: Option<&'a Action> },
}

/// What follows a step.
pub enum NextView {
    GoOn { warn: bool },
    Leave { warn: bool },
    Stop { last: Option<ActionView> },
}

impl<'a> View for Next<'a> {
    type V = NextView;

    open spec fn view(&self) -> NextView {
        match self {
            Next::GoOn { warn } => NextView::GoOn { warn: *warn },
            Next::Leave { warn } => NextView::Leave { warn: *warn },
            Next::Stop { last } => NextView::Stop {
                last: match last {
                    Some(a) => Some(a@),
                    None => None,
                },
            },
        }
    }
}

/// What follows a failure.
pub open spec fn next_after(f: FailureView) -> NextView {
    match f {
        FailureView::Stop => NextView::Stop { last: None },
        FailureView::StopAfter(a) => NextView::Stop { last: Some(a) },
        FailureView::Leave => NextView::Leave { warn: false },
        FailureView::WarnAndLeave => NextView::Leave { warn: true },
        FailureView::Warn => NextView::GoOn { warn: true },
        FailureView::Ignore => NextView::GoOn { warn: false },
    }
}

/// What follows a step, by what came of its action.
pub open spec fn next_of(s: StepView, a: Attempt) -> NextView {
    match a {
        Attempt::Done => NextView::GoOn { warn: false },
        Attempt::Refused => next_after(s.refused),
        Attempt::Failed => next_after(s.cannot),
        Attempt::Missing => match s.action {
            ActionView::RemoveFile { missing: IfMissing::Done, .. } => NextView::GoOn {
                warn: false,
            },
            ActionView::RemoveFile { missing: IfMissing::Leave, .. } => NextView::Leave {
                warn: false,
            },
            _ => next_after(s.cannot),
        },
    }
}

fn after_failure<'a>(f: &'a OnFailure) -> (n: Next<'a>)
    ensures
        n@ == next_after(f@),
{
    match f {
        OnFailure::Stop => Next::Stop { last: None },
        OnFailure::StopAfter(a) => Next::Stop { last: Some(a) },
        OnFailure::Leave => Next::Leave { warn: false },
        OnFailure::WarnAndLeave => Next::Leave { warn: true },
        OnFailure::Warn => Next::GoOn { warn: true },
        OnFailure::Ignore => Next::GoOn { warn: false },
    }
}

/// What follows a step, by what came of its action.
pub fn after_step<'a>(step: &'a Step, a: Attempt) -> (n: Next<'a>)
    ensures
        n@ == next_of(step@, a),
{
    match a {
        Attempt::Done => Next::GoOn { warn: false },
        Attempt::Refused => after_failure(&step.refused),
        Attempt::Failed => after_failure(&step.cannot),
        Attempt::Missing => match &step.action {
            Action::RemoveFile { missing: IfMissing::Done, .. } => Next::GoOn { warn: false },
            Action::RemoveFile { missing: IfMissing::Leave, .. } => Next::Leave { warn: false },
            _ => after_failure(&step.cannot),
        },
    }
}

/// How often a service that is to stop is asked for.
pub const STOP_TRIES: u32 = 20;

/// How often a server that is to answer is asked.
pub const START_TRIES: u32 = 10;

/// The time between two tries, in milliseconds.
pub const TRY_MS: u64 = 500;

/// What follows a try.
#[derive(Debug, Clone, Copy, PartialEq, Eq, Structural)]
pub enum Wait {
    /// It is as it should be.
    Done,
    /// It is tried again after so many milliseconds.
    Again(u64),
    /// It is given up.
    GiveUp,
}

/// What follows a try to see whether the service has stopped, by the number of
/// tries before it and the answer to `sc query`, where there was one.
pub fn stop_wait(tries: u32, output: Option<&str>) -> (w: Wait)
    ensures
        w == (if output matches Some(t) && (has_part(t@, "STOPPED"@) || has_part(t@, "1060"@)) {
            Wait::Done
        } else if tries + 1 < STOP_TRIES {
            Wait::Again(TRY_MS)
        } else {
            Wait::GiveUp
        }),
{
    if let Some(t) = output {
        if sc_stopped(t) {
            return Wait::Done;
        }
    }
    if tries < STOP_TRIES - 1 {
        Wait::Again(TRY_MS)
    } else {
        Wait::GiveUp
    }
}

/// What follows a try to reach the server, by the number of tries before it and
/// whether it answered.
pub fn start_wait(tries: u32, answered: bool) -> (w: Wait)
    ensures
        w == (if answered {
            Wait::Done
        } else if tries + 1 < START_TRIES {
            Wait::Again(TRY_MS)
        } else {
            Wait::GiveUp
        }),
{
    if answered {
        Wait::Done
    } else if tries < START_TRIES - 1 {
        Wait::Again(TRY_MS)
    } else {
        Wait::GiveUp
    }
}

/// The default configuration of an installation: its directory and its path, what
/// it holds, and whether there is a file at the path.
pub struct DefaultConfig<'a> {
    pub dir: &'a str,
    pub path: &'a str,
    pub template: &'a str,
    pub exists: bool,
}

/// The steps that write the default configuration. One that is there stays. Where
/// it cannot be written there is a warning.
pub open spec fn default_config_plan(c: DefaultConfig) -> Seq<StepView> {
    if c.exists {
        Seq::empty()
    } else {
        seq![
            StepView {
                action: ActionView::MakeDir(c.dir@),
                cannot: FailureView::WarnAndLeave,
                refused: FailureView::WarnAndLeave,
            },
            should(ActionView::WriteFile { path: c.path@, contents: c.template@ }),
        ]
    }
}

/// The steps that write the default configuration.
pub fn write_default_config(c: &DefaultConfig) -> (v: Vec<Step>)
    ensures
        steps(v@) == default_config_plan(*c),
{
    let mut v: Vec<Step> = Vec::new();
    assert(steps(v@) =~= Seq::<StepView>::empty());
    if !c.exists {
        add_step(
            &mut v,
            Action::MakeDir(c.dir.to_owned()),
            OnFailure::WarnAndLeave,
            OnFailure::WarnAndLeave,
        );
        add_should(
            &mut v,
            Action::WriteFile { path: c.path.to_owned(), contents: c.template.to_owned() },
        );
    }
    assert(steps(v@) =~= default_config_plan(*c));
    v
}

/// The step that leads the DNS of the host to the server, where that is wanted.
pub open spec fn dns_plan(skip_system_dns: bool) -> Seq<StepView> {
    if skip_system_dns {
        Seq::empty()
    } else {
        seq![should(ActionView::ConfigureDns)]
    }
}

/// What an optional text holds.
pub open spec fn text_of(s: Option<&str>) -> Option<Seq<char>> {
    match s {
        Some(t) => Some(t@),
        None => None,
    }
}

/// The files of a host after an action that was done. Only what it does to
/// files counts.
pub open spec fn after_action(a: ActionView, files: Map<Seq<char>, Seq<char>>) -> Map<
    Seq<char>,
    Seq<char>,
> {
    match a {
        ActionView::WriteFile { path, contents } => files.insert(path, contents),
        ActionView::CopyFile { from, to } => files.insert(to, files[from]),
        ActionView::RenameFile { from, to } => files.insert(to, files[from]).remove(from),
        ActionView::RemoveFile { path, .. } => files.remove(path),
        _ => files,
    }
}

/// The files of a host after steps that were taken.
pub open spec fn after_steps(v: Seq<StepView>, files: Map<Seq<char>, Seq<char>>) -> Map<
    Seq<char>,
    Seq<char>,
>
    decreases v.len(),
{
    if v.len() == 0 {
        files
    } else {
        after_action(v.last().action, after_steps(v.drop_last(), files))
    }
}

} // verus!
