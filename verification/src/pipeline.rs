//! The run as a whole: locate, download, extract.
//!
//! The stages follow one another in a line. A stage that fails ends the
//! run: nothing is retried and nothing that an earlier stage did is undone.

use vstd::prelude::*;
use crate::config::Config;
use crate::error::{
    DownloadError,
    DownloadErrorView,
    Error,
    ErrorKind,
    ErrorView,
    ExtractError,
    ExtractErrorView,
    LocateError,
    kind_of,
};

verus! {

/// Where a run stands.
#[derive(Debug, Clone, Copy, PartialEq, Eq, Structural)]
pub enum Stage {
    /// Nothing has been asked for yet.
    Start,
    /// Waiting for the target directory to be resolved.
    LocateTarget,
    /// Waiting for the archive to be fetched.
    Download,
    /// Waiting for the archive to be extracted.
    Extract,
    /// The run succeeded. Nothing more will happen.
    Done,
    /// The run failed. Nothing more will happen.
    Failed,
}

/// What the driver reports.
#[derive(Debug, PartialEq, Eq)]
pub enum PipelineEvent {
    /// The run is to begin.
    Begin,
    /// The search for the target directory ended.
    Located(Result<String, LocateError>),
    /// The download ended.
    Fetched(Result<(), DownloadError>),
    /// The extraction ended.
    Extracted(Result<(), ExtractError>),
}

/// What a `PipelineEvent` holds.
pub enum PipelineEventView {
    Begin,
    Located(Result<Seq<char>, LocateError>),
    Fetched(Result<(), DownloadErrorView>),
    Extracted(Result<(), ExtractErrorView>),
}

impl View for PipelineEvent {
    type V = PipelineEventView;

    open spec fn view(&self) -> PipelineEventView {
        match self {
            PipelineEvent::Begin => PipelineEventView::Begin,
            PipelineEvent::Located(outcome) => PipelineEventView::Located(
                match outcome {
                    Ok(root) => Ok(root@),
                    Err(error) => Err(*error),
                },
            ),
            PipelineEvent::Fetched(outcome) => PipelineEventView::Fetched(
                match outcome {
                    Ok(_) => Ok(()),
                    Err(error) => Err(error@),
                },
            ),
            PipelineEvent::Extracted(outcome) => PipelineEventView::Extracted(
                match outcome {
                    Ok(_) => Ok(()),
                    Err(error) => Err(error@),
                },
            ),
        }
    }
}

/// What the driver is asked to do.
#[derive(Debug, Clone, PartialEq, Eq)]
pub enum PipelineAction {
    /// Resolve the target directory; answer with `Located`.
    Locate,
    /// Fetch the archive; answer with `Fetched`.
    Fetch,
    /// Extract the archive into `root`; answer with `Extracted`.
    Extract { root: String },
    /// Report success.
    Finish,
    /// Report this error.
    Abort(Error),
}

/// What a `PipelineAction` holds.
pub enum PipelineActionView {
    Locate,
    Fetch,
    Extract { root: Seq<char> },
    Finish,
    Abort(ErrorView),
}

impl View for PipelineAction {
    type V = PipelineActionView;

    open spec fn view(&self) -> PipelineActionView {
        match self {
            PipelineAction::Locate => PipelineActionView::Locate,
            PipelineAction::Fetch => PipelineActionView::Fetch,
            PipelineAction::Extract { root } => PipelineActionView::Extract { root: root@ },
            PipelineAction::Finish => PipelineActionView::Finish,
            PipelineAction::Abort(error) => PipelineActionView::Abort(error@),
        }
    }
}

/// The state of one run.
#[derive(Debug)]
pub struct Pipeline {
    config: Config,
    stage: Stage,
    root: Option<String>,
}

/// What a `Pipeline` holds.
pub struct PipelineView {
    /// The settings that the run was begun with.
    pub config: Config,
    pub stage: Stage,
    /// The target directory, once it is resolved.
    pub root: Option<Seq<char>>,
}

impl View for Pipeline {
    type V = PipelineView;

    closed spec fn view(&self) -> PipelineView {
        PipelineView {
            config: self.config,
            stage: self.stage,
            root: match self.root {
                Some(root) => Some(root@),
                None => None,
            },
        }
    }
}

/// The state in which every run begins.
pub open spec fn pipeline_start(config: Config) -> PipelineView {
    PipelineView { config, stage: Stage::Start, root: None }
}

/// The state and action with which a run fails.
pub open spec fn aborting(state: PipelineView, error: ErrorView) -> Option<
    (PipelineView, PipelineActionView),
> {
    Some((PipelineView { stage: Stage::Failed, ..state }, PipelineActionView::Abort(error)))
}

/// The transition function: the state and action that follow from `state`
/// on `event`, or none where `state` does not await `event`.
pub open spec fn pipeline_next(state: PipelineView, event: PipelineEventView) -> Option<
    (PipelineView, PipelineActionView),
> {
    match (state.stage, event) {
        (Stage::Start, PipelineEventView::Begin) => Some(
            (PipelineView { stage: Stage::LocateTarget, ..state }, PipelineActionView::Locate),
        ),
        (Stage::LocateTarget, PipelineEventView::Located(Ok(root))) => Some(
            (
                PipelineView { stage: Stage::Download, root: Some(root), ..state },
                PipelineActionView::Fetch,
            ),
        ),
        (Stage::LocateTarget, PipelineEventView::Located(Err(error))) => aborting(
            state,
            ErrorView::Locate(error),
        ),
        (Stage::Download, PipelineEventView::Fetched(Ok(_))) => match state.root {
            Some(root) => Some(
                (
                    PipelineView { stage: Stage::Extract, ..state },
                    PipelineActionView::Extract { root },
                ),
            ),
            None => None,
        },
        (Stage::Download, PipelineEventView::Fetched(Err(error))) => aborting(
            state,
            ErrorView::Download(error),
        ),
        (Stage::Extract, PipelineEventView::Extracted(Ok(_))) => Some(
            (PipelineView { stage: Stage::Done, ..state }, PipelineActionView::Finish),
        ),
        (Stage::Extract, PipelineEventView::Extracted(Err(error))) => aborting(
            state,
            ErrorView::Extract(error),
        ),
        _ => None,
    }
}

/// What holds of every state that a run passes through: from the download
/// on, the target directory is known.
pub open spec fn pipeline_invariant(state: PipelineView) -> bool {
    (state.stage == Stage::Download || state.stage == Stage::Extract) ==> state.root is Some
}

impl Pipeline {
    #[verifier::type_invariant]
    spec fn well_formed(&self) -> bool {
        pipeline_invariant(self@)
    }

    /// A run that has not begun.
    pub fn new(config: Config) -> (pipeline: Pipeline)
        ensures
            pipeline@ == pipeline_start(config),
    {
        Pipeline { config, stage: Stage::Start, root: None }
    }

    /// The settings that the run was begun with.
    pub fn config(&self) -> (config: &Config)
        ensures
            *config == self@.config,
    {
        &self.config
    }

    /// Where the run stands.
    pub fn stage(&self) -> (stage: Stage)
        ensures
            stage == self@.stage,
    {
        self.stage
    }

    fn abort(&mut self, error: Error) -> (action: Option<PipelineAction>)
        ensures
            aborting(old(self)@, error@) == Some((final(self)@, action->0@)),
            action is Some,
    {
        self.stage = Stage::Failed;
        Some(PipelineAction::Abort(error))
    }

    /// Takes an event and answers with the next action. An event that the
    /// current stage does not await changes nothing and is answered with none.
    pub fn step(&mut self, event: PipelineEvent) -> (action: Option<PipelineAction>)
        ensures
            match pipeline_next(old(self)@, event@) {
                Some((state, todo)) => {
                    &&& final(self)@ == state
                    &&& action matches Some(a)
                    &&& a@ == todo
                },
                None => final(self)@ == old(self)@ && action is None,
            },
    {
        proof {
            use_type_invariant(&*self);
        }
        match self.stage {
            Stage::Start => match event {
                PipelineEvent::Begin => {
                    self.stage = Stage::LocateTarget;
                    Some(PipelineAction::Locate)
                },
                _ => None,
            },
            Stage::LocateTarget => match event {
                PipelineEvent::Located(outcome) => match outcome {
                    Ok(root) => {
                        self.root = Some(root);
                        self.stage = Stage::Download;
                        Some(PipelineAction::Fetch)
                    },
                    Err(error) => self.abort(Error::Locate(error)),
                },
                _ => None,
            },
            Stage::Download => match event {
                PipelineEvent::Fetched(outcome) => match outcome {
                    Ok(_) => {
                        let root = match &self.root {
                            Some(root) => root.clone(),
                            None => String::new(),
                        };
                        self.stage = Stage::Extract;
                        Some(PipelineAction::Extract { root })
                    },
                    Err(error) => self.abort(Error::Download(error)),
                },
                _ => None,
            },
            Stage::Extract => match event {
                PipelineEvent::Extracted(outcome) => match outcome {
                    Ok(_) => {
                        self.stage = Stage::Done;
                        Some(PipelineAction::Finish)
                    },
                    Err(error) => self.abort(Error::Extract(error)),
                },
                _ => None,
            },
            Stage::Done => None,
            Stage::Failed => None,
        }
    }
}

/// The state after a run of events, each taken in turn. An event that is
/// not awaited is passed over.
pub open spec fn pipeline_run(state: PipelineView, events: Seq<PipelineEventView>) -> PipelineView
    decreases events.len(),
{
    if events.len() == 0 {
        state
    } else {
        let before = pipeline_run(state, events.drop_last());
        match pipeline_next(before, events.last()) {
            Some((after, _)) => after,
            None => before,
        }
    }
}

/// The actions that a run of events is answered with, in order.
pub open spec fn pipeline_actions(state: PipelineView, events: Seq<PipelineEventView>) -> Seq<
    PipelineActionView,
>
    decreases events.len(),
{
    if events.len() == 0 {
        Seq::empty()
    } else {
        let before = pipeline_run(state, events.drop_last());
        let asked = pipeline_actions(state, events.drop_last());
        match pipeline_next(before, events.last()) {
            Some((_, action)) => asked.push(action),
            None => asked,
        }
    }
}

/// The stages' actions in the one order in which they can be asked for.
pub open spec fn in_line(stage: Stage, root: Option<Seq<char>>, asked: Seq<PipelineActionView>) -> bool {
    match stage {
        Stage::Start => asked.len() == 0,
        Stage::LocateTarget => asked == seq![PipelineActionView::Locate],
        Stage::Download => asked == seq![PipelineActionView::Locate, PipelineActionView::Fetch],
        Stage::Extract => root matches Some(r) && asked == seq![
            PipelineActionView::Locate,
            PipelineActionView::Fetch,
            PipelineActionView::Extract { root: r },
        ],
        Stage::Done => root matches Some(r) && asked == seq![
            PipelineActionView::Locate,
            PipelineActionView::Fetch,
            PipelineActionView::Extract { root: r },
            PipelineActionView::Finish,
        ],
        Stage::Failed => {
            ||| asked.len() == 2 && asked[0] == PipelineActionView::Locate && (asked[1] matches PipelineActionView::Abort(
                e,
            ) && kind_of(e) == ErrorKind::Locate)
            ||| asked.len() == 3 && asked[0] == PipelineActionView::Locate && asked[1]
                == PipelineActionView::Fetch && (asked[2] matches PipelineActionView::Abort(e)
                && kind_of(e) == ErrorKind::Download)
            ||| asked.len() == 4 && asked[0] == PipelineActionView::Locate && asked[1]
                == PipelineActionView::Fetch && asked[2] is Extract && (
            asked[3] matches PipelineActionView::Abort(e) && (kind_of(e) == ErrorKind::Decode
                || kind_of(e) == ErrorKind::Extract || kind_of(e) == ErrorKind::Cleanup))
        },
    }
}

/// Whatever the driver reports, the stages are asked for in a line: locate,
/// then fetch, then extract into the directory that was located, then
/// finish. A failure is answered with one `Abort` of the failed stage's kind,
/// after which nothing more is asked for; no stage is asked for twice.
pub proof fn lemma_stages_follow_in_line(config: Config, events: Seq<PipelineEventView>)
    ensures
        in_line(
            pipeline_run(pipeline_start(config), events).stage,
            pipeline_run(pipeline_start(config), events).root,
            pipeline_actions(pipeline_start(config), events),
        ),
        pipeline_invariant(pipeline_run(pipeline_start(config), events)),
        pipeline_run(pipeline_start(config), events).config == config,
    decreases events.len(),
{
    let start = pipeline_start(config);
    if events.len() > 0 {
        let init = events.drop_last();
        lemma_stages_follow_in_line(config, init);
        let before = pipeline_run(start, init);
        let asked = pipeline_actions(start, init);
        match pipeline_next(before, events.last()) {
            Some((after, action)) => {
                let now = asked.push(action);
                assert(now.len() == asked.len() + 1);
                assert(forall|i: int| 0 <= i < asked.len() ==> now[i] == asked[i]);
                assert(now[asked.len() as int] == action);
                match after.stage {
                    Stage::LocateTarget => {
                        assert(now =~= seq![PipelineActionView::Locate]);
                    },
                    Stage::Download => {
                        assert(now =~= seq![PipelineActionView::Locate, PipelineActionView::Fetch]);
                    },
                    Stage::Extract => {
                        assert(now =~= seq![
                            PipelineActionView::Locate,
                            PipelineActionView::Fetch,
                            PipelineActionView::Extract { root: after.root->0 },
                        ]);
                    },
                    Stage::Done => {
                        assert(now =~= seq![
                            PipelineActionView::Locate,
                            PipelineActionView::Fetch,
                            PipelineActionView::Extract { root: after.root->0 },
                            PipelineActionView::Finish,
                        ]);
                    },
                    _ => {},
                }
            },
            None => {},
        }
    }
}

/// A run that has ended, well or badly, takes no further event: no stage
/// is tried again.
pub proof fn lemma_ended_run_stays_ended(state: PipelineView, event: PipelineEventView)
    requires
        state.stage == Stage::Done || state.stage == Stage::Failed,
    ensures
        pipeline_next(state, event) is None,
{
}

} // verus!
