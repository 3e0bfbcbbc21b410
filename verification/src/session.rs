//! A whole run: first the packages, then the cache, then the package bases.
use crate::action::{Action, ActionView};
use crate::builds::{bases_from, rpc_count, start_bases, Build, BuildView};
use crate::cache::{CacheStep, CacheStepView};
use crate::config::{Plan, PlanView};
use crate::failure::{Failure, FailureView};
use crate::packages::{PackageStep, PackageStepView};
use crate::reply::{Reply, ReplyView, Turn};
use vstd::prelude::*;

verus! {

/// The model of `Stage`.
pub enum StageView {
    Packages { packages: PackageStepView },
    Cache { cache: CacheStepView },
    Builds { build: BuildView },
    Done { rpc_checked: nat, git_checked: nat },
    Failed { failure: FailureView },
}

/// How far a run is.
#[derive(Debug, PartialEq, Eq)]
pub enum Stage {
    /// Packages are being removed and installed.
    Packages { packages: PackageStep },
    /// The cache is being cleared of what is of no use.
    Cache { cache: CacheStep },
    /// Package bases are being built.
    Builds { build: Build },
    /// The run is over.
    Done { rpc_checked: usize, git_checked: usize },
    /// The run is over, and has failed.
    Failed { failure: Failure },
}

impl View for Stage {
    type V = StageView;

    open spec fn view(&self) -> StageView {
        match self {
            Stage::Packages { packages } => StageView::Packages { packages: packages@ },
            Stage::Cache { cache } => StageView::Cache { cache: cache@ },
            Stage::Builds { build } => StageView::Builds { build: build@ },
            Stage::Done { rpc_checked, git_checked } => StageView::Done {
                rpc_checked: *rpc_checked as nat,
                git_checked: *git_checked as nat,
            },
            Stage::Failed { failure } => StageView::Failed { failure: failure@ },
        }
    }
}

/// The model of `Session`.
pub struct SessionView {
    pub plan: PlanView,
    pub stage: StageView,
}

/// A run of a plan.
#[derive(Debug, PartialEq, Eq)]
pub struct Session {
    pub plan: Plan,
    pub stage: Stage,
}

impl View for Session {
    type V = SessionView;

    open spec fn view(&self) -> SessionView {
        SessionView { plan: self.plan@, stage: self.stage@ }
    }
}

/// The first stage of the bases.
pub open spec fn first_base(plan: PlanView) -> StageView {
    match bases_from(plan, 0, 0, 0) {
        Turn::On { step } => StageView::Builds { build: step },
        Turn::Over => StageView::Done { rpc_checked: 0, git_checked: 0 },
        Turn::Failed { failure } => StageView::Failed { failure },
    }
}

/// The stage that a turn of the bases leads to.
pub open spec fn build_stage(build: BuildView, turn: Turn<BuildView, FailureView>) -> StageView {
    match turn {
        Turn::On { step } => StageView::Builds { build: step },
        Turn::Over => StageView::Done {
            rpc_checked: build.rpc_checked,
            git_checked: build.git_checked,
        },
        Turn::Failed { failure } => StageView::Failed { failure },
    }
}

impl SessionView {
    /// The start of a run.
    pub open spec fn start(plan: PlanView) -> SessionView {
        SessionView { plan, stage: StageView::Packages { packages: PackageStepView::Orphans } }
    }

    /// The plan and the counters of the stage are in order.
    pub open spec fn well_formed(self) -> bool {
        &&& self.plan.well_formed()
        &&& match self.stage {
            StageView::Packages { packages } => packages.well_formed(),
            StageView::Cache { .. } => true,
            StageView::Builds { build } => build.well_formed(self.plan),
            StageView::Done { rpc_checked, git_checked } => {
                &&& rpc_checked == rpc_count(self.plan.pkgbuilds)
                &&& rpc_checked + git_checked == self.plan.pkgbuilds.len()
            },
            StageView::Failed { .. } => true,
        }
    }

    /// What the run waits for, or how it has ended.
    pub open spec fn pending(self) -> ActionView {
        match self.stage {
            StageView::Packages { packages } => packages.pending(self.plan),
            StageView::Cache { cache } => cache.pending(),
            StageView::Builds { build } => build.pending(self.plan),
            StageView::Done { rpc_checked, git_checked } => ActionView::Complete {
                rpc_checked,
                git_checked,
            },
            StageView::Failed { failure } => ActionView::Fail { failure },
        }
    }

    /// The run once a reply is there.
    pub open spec fn next(self, reply: ReplyView) -> SessionView {
        let stage = match self.stage {
            StageView::Packages { packages } => match packages.turn(self.plan, reply) {
                Turn::On { step } => StageView::Packages { packages: step },
                Turn::Over => StageView::Cache { cache: CacheStepView::Open },
                Turn::Failed { failure } => StageView::Failed { failure },
            },
            StageView::Cache { cache } => match cache.turn(self.plan, reply) {
                Turn::On { step } => StageView::Cache { cache: step },
                Turn::Over => first_base(self.plan),
                Turn::Failed { failure } => StageView::Failed { failure },
            },
            StageView::Builds { build } => build_stage(build, build.turn(self.plan, reply)),
            StageView::Done { .. } => self.stage,
            StageView::Failed { .. } => self.stage,
        };
        SessionView { plan: self.plan, stage }
    }
}

/// A run after these replies.
pub open spec fn after(session: SessionView, replies: Seq<ReplyView>) -> SessionView
    decreases replies.len(),
{
    if replies.len() == 0 {
        session
    } else {
        after(session, replies.drop_last()).next(replies.last())
    }
}

/// The run of a plan after these replies.
pub open spec fn reached(plan: PlanView, replies: Seq<ReplyView>) -> SessionView {
    after(SessionView::start(plan), replies)
}

/// May the program run, and on which configuration? Not as the superuser, nor
/// without one.
pub fn preflight(is_root: bool, path: Option<String>) -> (start: Result<String, Failure>)
    ensures
        is_root ==> start == Err::<String, Failure>(Failure::Root),
        !is_root ==> match path {
            Some(path) => start == Ok::<String, Failure>(path),
            None => start == Err::<String, Failure>(Failure::NoConfiguration),
        },
{
    if is_root {
        return Err(Failure::Root);
    }
    match path {
        Some(path) => Ok(path),
        None => Err(Failure::NoConfiguration),
    }
}

proof fn lemma_next_well_formed(before: SessionView, reply: ReplyView)
    requires
        before.well_formed(),
        before.stage matches StageView::Builds { build } && build.turn(
            before.plan,
            reply,
        ) is Over,
    ensures
        before.next(reply).well_formed(),
{
    let build = before.stage->build;
    let all = before.plan.pkgbuilds;
    assert(build.index + 1 >= all.len());
    assert(all.take(build.index as int + 1) =~= all);
}

impl Session {
    /// Starts a run.
    pub fn begin(plan: Plan) -> (session: Session)
        requires
            plan@.well_formed(),
        ensures
            session@ == SessionView::start(plan@),
            session@.well_formed(),
    {
        Session { plan, stage: Stage::Packages { packages: PackageStep::Orphans } }
    }

    /// What the run waits for, or how it has ended.
    pub fn pending(&self) -> (action: Action)
        requires
            self@.well_formed(),
        ensures
            action@ == self@.pending(),
    {
        match &self.stage {
            Stage::Packages { packages } => packages.pending(&self.plan),
            Stage::Cache { cache } => cache.pending(),
            Stage::Builds { build } => build.pending(&self.plan),
            Stage::Done { rpc_checked, git_checked } => Action::Complete {
                rpc_checked: *rpc_checked,
                git_checked: *git_checked,
            },
            Stage::Failed { failure } => Action::Fail { failure: failure.copy() },
        }
    }

    /// Goes on with a reply to what the run waits for. Any other reply changes
    /// nothing.
    pub fn step(self, reply: Reply) -> (session: Session)
        requires
            self@.well_formed(),
        ensures
            session@ == self@.next(reply@),
            session@.well_formed(),
    {
        let ghost before = self@;
        let ghost told = reply@;
        let Session { plan, stage } = self;
        let stage = match stage {
            Stage::Packages { packages } => match packages.turn(&plan, reply) {
                Turn::On { step } => Stage::Packages { packages: step },
                Turn::Over => Stage::Cache { cache: CacheStep::Open },
                Turn::Failed { failure } => Stage::Failed { failure },
            },
            Stage::Cache { cache } => match cache.turn(&plan, reply) {
                Turn::On { step } => Stage::Cache { cache: step },
                Turn::Over => {
                    proof {
                        assert(plan@.pkgbuilds.take(0).len() == 0);
                    }
                    match start_bases(&plan, 0, 0, 0) {
                        Turn::On { step } => Stage::Builds { build: step },
                        Turn::Over => {
                            assert(plan@.pkgbuilds =~= plan@.pkgbuilds.take(0));
                            Stage::Done { rpc_checked: 0, git_checked: 0 }
                        },
                        Turn::Failed { failure } => Stage::Failed { failure },
                    }
                },
                Turn::Failed { failure } => Stage::Failed { failure },
            },
            Stage::Builds { build } => {
                let rpc_checked: usize = build.rpc_checked;
                let git_checked: usize = build.git_checked;
                match build.turn(&plan, reply) {
                    Turn::On { step } => Stage::Builds { build: step },
                    Turn::Over => {
                        proof {
                            lemma_next_well_formed(before, told);
                        }
                        Stage::Done { rpc_checked, git_checked }
                    },
                    Turn::Failed { failure } => Stage::Failed { failure },
                }
            },
            Stage::Done { rpc_checked, git_checked } => Stage::Done { rpc_checked, git_checked },
            Stage::Failed { failure } => Stage::Failed { failure },
        };
        Session { plan, stage }
    }
}

/// A run starts with the orphans, goes through the packages, then the cache, then
/// the bases from the first one on, and ends after the last with how many were
/// checked in each way. A failure ends it at once.
pub proof fn law_order_of_a_run(session: SessionView, reply: ReplyView)
    ensures
        SessionView::start(session.plan).pending() is ListOrphans,
        SessionView::start(session.plan).plan == session.plan,
        session.next(reply).plan == session.plan,
        ({
            let later = session.next(reply);
            match session.stage {
                StageView::Packages { packages } => {
                    &&& session.pending() == packages.pending(session.plan)
                    &&& match packages.turn(session.plan, reply) {
                        Turn::On { step } => later.stage == (StageView::Packages {
                            packages: step,
                        }),
                        Turn::Over => later.pending() is OpenCache,
                        Turn::Failed { failure } => later.pending() == (ActionView::Fail {
                            failure,
                        }),
                    }
                },
                StageView::Cache { cache } => {
                    &&& session.pending() == cache.pending()
                    &&& match cache.turn(session.plan, reply) {
                        Turn::On { step } => later.stage == (StageView::Cache { cache: step }),
                        Turn::Over => if session.plan.pkgbuilds.len() == 0 {
                            later.pending() == (ActionView::Complete {
                                rpc_checked: 0,
                                git_checked: 0,
                            })
                        } else {
                            &&& later.pending() == (ActionView::Locate {
                                base: session.plan.pkgbuilds[0].base,
                            })
                            &&& later.stage->build.index == 0
                        },
                        Turn::Failed { failure } => later.pending() == (ActionView::Fail {
                            failure,
                        }),
                    }
                },
                StageView::Builds { build } => {
                    &&& session.pending() == build.pending(session.plan)
                    &&& match build.turn(session.plan, reply) {
                        Turn::On { step } => later.stage == (StageView::Builds { build: step }),
                        Turn::Over => later.pending() == (ActionView::Complete {
                            rpc_checked: build.rpc_checked,
                            git_checked: build.git_checked,
                        }),
                        Turn::Failed { failure } => later.pending() == (ActionView::Fail {
                            failure,
                        }),
                    }
                },
                StageView::Done { rpc_checked, git_checked } => session.pending() == (
                ActionView::Complete { rpc_checked, git_checked }),
                StageView::Failed { failure } => session.pending() == (ActionView::Fail {
                    failure,
                }),
            }
        }),
{
}

/// The model of a run holds all that the run does.
pub proof fn law_session_model(session: Session)
    ensures
        session@.plan == session.plan@,
        match session.stage {
            Stage::Packages { packages } => session@.stage == (StageView::Packages {
                packages: packages@,
            }),
            Stage::Cache { cache } => session@.stage == (StageView::Cache { cache: cache@ }),
            Stage::Builds { build } => session@.stage == (StageView::Builds { build: build@ }),
            Stage::Done { rpc_checked, git_checked } => session@.stage == (StageView::Done {
                rpc_checked: rpc_checked as nat,
                git_checked: git_checked as nat,
            }),
            Stage::Failed { failure } => session@.stage == (StageView::Failed {
                failure: failure@,
            }),
        },
{
}

} // verus!
