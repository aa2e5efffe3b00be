//! The run over the selected targets, one at a time. The caller performs
//! each action (start the build, copy the file) and reports what happened;
//! the run decides what comes next and records one outcome per target. A
//! skipped or failed target never stops the targets after it.

use vstd::prelude::*;
use crate::artifact::{TargetError, resolution, resolve_artifact};
use crate::catalog::{BuildTarget, TargetView};
use crate::publish::{published_name, published_name_spec};
use crate::toolchain::{HostFacts, SkipReason, Toolchain, build_args, build_args_spec, decide_toolchain, toolchain_for};

verus! {

/// What became of one target, as plain values.
pub enum OutcomeView {
    Published(Seq<char>),
    Skipped(SkipReason),
    SpawnFailed(Seq<char>),
    BuildFailed,
    ArtifactNotFound(Seq<char>),
    PublishFailed(Seq<char>),
}

pub open spec fn outcome_view(o: Result<String, TargetError>) -> OutcomeView {
    match o {
        Ok(name) => OutcomeView::Published(name@),
        Err(TargetError::Skipped(r)) => OutcomeView::Skipped(r),
        Err(TargetError::SpawnFailed(m)) => OutcomeView::SpawnFailed(m@),
        Err(TargetError::BuildFailed) => OutcomeView::BuildFailed,
        Err(TargetError::ArtifactNotFound { expected_dir }) => OutcomeView::ArtifactNotFound(
            expected_dir@,
        ),
        Err(TargetError::PublishFailed(m)) => OutcomeView::PublishFailed(m@),
    }
}

/// A copy to make: the built library at `source` goes into the output
/// directory as `file_name`.
pub struct PublishJob {
    pub source: String,
    pub file_name: String,
}

/// Where the current target stands.
pub enum Stage {
    /// No action is out for it yet.
    Ready,
    /// Its build was handed out.
    Building,
    /// Its library is being copied under the given name.
    Publishing(String),
}

pub enum StageView {
    Ready,
    Building,
    Publishing(Seq<char>),
}

/// A run as plain values: the targets, one outcome for each finished target
/// in order, and the stage of the next one.
pub struct RunView {
    pub targets: Seq<TargetView>,
    pub outcomes: Seq<OutcomeView>,
    pub stage: StageView,
}

impl RunView {
    /// The target now in hand: the first without an outcome.
    pub open spec fn current(self) -> TargetView {
        self.targets[self.outcomes.len() as int]
    }

    pub open spec fn is_done(self) -> bool {
        self.outcomes.len() == self.targets.len()
    }

    /// The run after recording outcome `o` for the current target.
    pub open spec fn record(self, o: OutcomeView) -> RunView {
        RunView { targets: self.targets, outcomes: self.outcomes.push(o), stage: StageView::Ready }
    }
}

/// A run over a list of targets.
pub struct Orchestrator {
    targets: Vec<BuildTarget>,
    outcomes: Vec<Result<String, TargetError>>,
    stage: Stage,
}

impl View for Orchestrator {
    type V = RunView;

    closed spec fn view(&self) -> RunView {
        RunView {
            targets: self.targets@.map_values(|t: BuildTarget| t@),
            outcomes: self.outcomes@.map_values(|o: Result<String, TargetError>| outcome_view(o)),
            stage: match self.stage {
                Stage::Ready => StageView::Ready,
                Stage::Building => StageView::Building,
                Stage::Publishing(n) => StageView::Publishing(n@),
            },
        }
    }
}

impl Orchestrator {
    /// Every target has at most one outcome, and only a target in hand has a
    /// stage other than ready.
    pub closed spec fn wf(&self) -> bool {
        &&& self.outcomes@.len() <= self.targets@.len()
        &&& self.outcomes@.len() == self.targets@.len() ==> self.stage is Ready
    }

    proof fn lemma_view_lens(&self)
        ensures
            self@.targets.len() == self.targets@.len(),
            self@.outcomes.len() == self.outcomes@.len(),
            forall|i: int| 0 <= i < self.targets@.len() ==> self@.targets[i] == #[trigger] self.targets@[i]@,
    {
    }

    /// A run that has done nothing yet.
    pub fn new(targets: Vec<BuildTarget>) -> (r: Self)
        ensures
            r.wf(),
            r@.targets == targets@.map_values(|t: BuildTarget| t@),
            r@.outcomes.len() == 0,
            r@.stage is Ready,
    {
        let r = Orchestrator { targets, outcomes: Vec::new(), stage: Stage::Ready };
        assert(r@.outcomes =~= Seq::<OutcomeView>::empty());
        r
    }

    /// Whether every target has its outcome.
    pub fn is_done(&self) -> (r: bool)
        requires
            self.wf(),
        ensures
            r == self@.is_done(),
    {
        proof {
            self.lemma_view_lens();
        }
        self.outcomes.len() == self.targets.len()
    }

    /// The target in hand, if any is left.
    pub fn current(&self) -> (r: Option<BuildTarget>)
        requires
            self.wf(),
        ensures
            match r {
                Some(t) => !self@.is_done() && t@ == self@.current(),
                None => self@.is_done(),
            },
    {
        proof {
            self.lemma_view_lens();
        }
        if self.outcomes.len() < self.targets.len() {
            Some(self.targets[self.outcomes.len()])
        } else {
            None
        }
    }

    /// The outcomes so far, one per finished target, in target order.
    pub fn outcomes(&self) -> (r: &Vec<Result<String, TargetError>>)
        ensures
            r@.map_values(|o: Result<String, TargetError>| outcome_view(o)) == self@.outcomes,
    {
        &self.outcomes
    }

    fn record(&mut self, o: Result<String, TargetError>)
        requires
            old(self).wf(),
            !old(self)@.is_done(),
        ensures
            final(self).wf(),
            final(self)@ == old(self)@.record(outcome_view(o)),
    {
        proof {
            self.lemma_view_lens();
        }
        let ghost before = self@;
        self.outcomes.push(o);
        self.stage = Stage::Ready;
        assert(self@.outcomes =~= before.outcomes.push(outcome_view(o)));
    }

    /// Takes up the current target with what was found on the host. A target
    /// that is skipped gets its outcome at once, and the run moves to the next
    /// target; otherwise the arguments for the build tool come back and the
    /// target waits for its build.
    pub fn begin(&mut self, facts: &HostFacts) -> (r: Option<Vec<String>>)
        requires
            old(self).wf(),
            !old(self)@.is_done(),
            old(self)@.stage is Ready,
        ensures
            final(self).wf(),
            match toolchain_for(old(self)@.current(), facts) {
                Err(reason) => r is None && final(self)@ == old(self)@.record(
                    OutcomeView::Skipped(reason),
                ),
                Ok(tc) => r is Some && r->0@.map_values(|a: String| a@) == build_args_spec(
                    old(self)@.current(),
                    tc,
                ) && final(self)@ == (RunView { stage: StageView::Building, ..old(self)@ }),
            },
    {
        proof {
            self.lemma_view_lens();
        }
        let t = self.targets[self.outcomes.len()];
        match decide_toolchain(&t, facts) {
            Err(reason) => {
                self.record(Err(TargetError::Skipped(reason)));
                None
            },
            Ok(tc) => {
                self.stage = Stage::Building;
                Some(build_args(&t, tc))
            },
        }
    }

    /// Takes the end of the current target's build: `run` is the exit status
    /// (`Ok(true)` for success) or why the build tool could not start, and
    /// `found` the candidates its progress lines reported. A failure gets its
    /// outcome and the run moves on; otherwise the chosen library's path and
    /// the name to publish it under come back.
    pub fn finish_build(
        &mut self,
        run: Result<bool, String>,
        found: &Vec<String>,
        project: &str,
    ) -> (r: Option<PublishJob>)
        requires
            old(self).wf(),
            !old(self)@.is_done(),
            old(self)@.stage is Building,
        ensures
            final(self).wf(),
            match run {
                Err(msg) => r is None && final(self)@ == old(self)@.record(
                    OutcomeView::SpawnFailed(msg@),
                ),
                Ok(exit_ok) => match resolution(
                    exit_ok,
                    found@.map_values(|f: String| f@),
                    old(self)@.current(),
                    project@,
                ) {
                    Err(None) => r is None && final(self)@ == old(self)@.record(OutcomeView::BuildFailed),
                    Err(Some(d)) => r is None && final(self)@ == old(self)@.record(
                        OutcomeView::ArtifactNotFound(d),
                    ),
                    Ok(path) => r is Some && r->0.source@ == path && r->0.file_name@ == published_name_spec(
                        path,
                        old(self)@.current(),
                    ) && final(self)@ == (RunView {
                        stage: StageView::Publishing(r->0.file_name@),
                        ..old(self)@
                    }),
                },
            },
    {
        proof {
            self.lemma_view_lens();
        }
        let t = self.targets[self.outcomes.len()];
        match run {
            Err(msg) => {
                self.record(Err(TargetError::SpawnFailed(msg)));
                None
            },
            Ok(exit_ok) => match resolve_artifact(exit_ok, found, &t, project) {
                Err(e) => {
                    self.record(Err(e));
                    None
                },
                Ok(path) => {
                    let name = published_name(path.as_str(), &t);
                    let shown = String::from_str(name.as_str());
                    self.stage = Stage::Publishing(name);
                    Some(PublishJob { source: path, file_name: shown })
                },
            },
        }
    }

    /// Takes the end of the current target's copy into the output directory:
    /// the target is published under the name handed out, or gets the error.
    pub fn finish_publish(&mut self, copied: Result<(), String>)
        requires
            old(self).wf(),
            !old(self)@.is_done(),
            old(self)@.stage is Publishing,
        ensures
            final(self).wf(),
            match copied {
                Ok(()) => final(self)@ == old(self)@.record(
                    OutcomeView::Published(old(self)@.stage->Publishing_0),
                ),
                Err(msg) => final(self)@ == old(self)@.record(OutcomeView::PublishFailed(msg@)),
            },
    {
        let name = match &self.stage {
            Stage::Publishing(n) => String::from_str(n.as_str()),
            _ => String::from_str(""),
        };
        match copied {
            Ok(()) => self.record(Ok(name)),
            Err(msg) => self.record(Err(TargetError::PublishFailed(msg))),
        }
    }
}

} // verus!

verus! {

/// Recording an outcome keeps every earlier outcome as it was and moves the
/// run to the next target, whatever the outcome was.
pub proof fn lemma_record_moves_on(v: RunView, o: OutcomeView)
    requires
        v.outcomes.len() < v.targets.len(),
    ensures
        v.record(o).targets == v.targets,
        v.record(o).outcomes.subrange(0, v.outcomes.len() as int) == v.outcomes,
        v.record(o).outcomes.last() == o,
        v.outcomes.len() + 1 < v.targets.len() ==> !v.record(o).is_done() && v.record(o).current()
            == v.targets[v.outcomes.len() + 1int],
        v.outcomes.len() + 1 == v.targets.len() ==> v.record(o).is_done(),
{
    assert(v.record(o).outcomes.subrange(0, v.outcomes.len() as int) =~= v.outcomes);
}

/// A target that needs a macOS cross compiler, with `CC` unset and no cross
/// compiler on the path, is skipped, and the run then takes up the next target.
pub proof fn lemma_skip_moves_on(v: RunView, f: &HostFacts)
    requires
        v.outcomes.len() < v.targets.len(),
        v.current().needs_mac,
        f.cc is None,
        !f.zig,
        !f.o64_clang,
        !f.oa64_clang,
    ensures
        toolchain_for(v.current(), f) == Err::<Toolchain, SkipReason>(SkipReason::NoMacCompiler),
        v.outcomes.len() + 1 < v.targets.len() ==> !v.record(
            OutcomeView::Skipped(SkipReason::NoMacCompiler),
        ).is_done() && v.record(OutcomeView::Skipped(SkipReason::NoMacCompiler)).current()
            == v.targets[v.outcomes.len() + 1int],
{
    lemma_record_moves_on(v, OutcomeView::Skipped(SkipReason::NoMacCompiler));
}

} // verus!
