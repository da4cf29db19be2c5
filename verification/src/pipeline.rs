//! The orchestration state machine. The pipeline runs
//! `Idle -> Extracting -> Preprocessing -> Discovering -> Composing ->
//! Done`, with `Failed` reachable from every working stage on an
//! unrecoverable collaborator error.
//!
//! All process invocation and file I/O lives in the driver around the
//! library: the driver performs the action each transition asks for
//! and reports the outcome back as plain values. A failure of one
//! preprocessing or composition item is collected and reported but
//! never aborts its sibling items; only stage-fatal errors (extraction,
//! discovery) halt the run.

use vstd::prelude::*;

use crate::commands::{lemma_montage_names_distinct, montage_file_name, montage_name_spec};
use crate::layout::{
    layout_computable, layout_spec, FrameSet, LayoutCalculator, LayoutError, ThumbnailLayout,
};
use crate::resolution::{Resolution, ResolutionSet};

verus! {

/// The pipeline stages that can fail.
#[derive(Clone, Copy, PartialEq, Eq, Structural, Debug)]
pub enum Stage {
    /// Scene-change extraction from the source video.
    Extraction,
    /// Per-frame preprocessing.
    Preprocessing,
    /// Counting frames and reading their resolution.
    Discovery,
    /// Per-resolution montage composition.
    Composition,
}

/// Why a stage failed.
#[derive(Clone, Copy, PartialEq, Eq, Structural, Debug)]
pub enum FailureReason {
    /// A collaborator process failed or was unreachable.
    ExternalTool,
    /// A directory or file could not be read.
    Io,
    /// The discovered configuration admits no layout.
    InvalidConfig,
}

/// Where a run stands.
#[derive(Clone, Copy, PartialEq, Eq, Structural, Debug)]
pub enum PipelineState {
    /// Nothing has happened yet.
    Idle,
    /// The frame extractor is running.
    Extracting,
    /// Frames are being preprocessed.
    Preprocessing,
    /// The frame count and resolution are being read.
    Discovering,
    /// Per-resolution composition jobs are running.
    Composing,
    /// The run finished; per-item failures may have been collected.
    Done,
    /// The run halted on an unrecoverable error.
    Failed { stage: Stage, reason: FailureReason },
}

/// What the driver must do next.
#[derive(Clone, Copy, PartialEq, Eq, Structural, Debug)]
pub enum Action {
    /// Run the frame extractor on the source video.
    RunExtract,
    /// Preprocess every raw frame, one job per frame.
    RunPreprocess,
    /// Count the preprocessed frames and read one frame's resolution.
    RunDiscovery,
    /// Run the planned composition jobs, one per resolution.
    RunCompositions,
    /// Stop; the run is over.
    Halt,
}

/// The run's fixed configuration, handed in by the caller.
pub struct PipelineConfig {
    /// A source video was supplied, so scenes must be extracted.
    pub extract_requested: bool,
    /// The caller opted in to reusing a previous preprocessing run.
    pub skip_preprocess: bool,
    /// The preprocessed-frames directory already exists.
    pub preprocessed_exists: bool,
    /// The target resolutions, in order.
    pub resolutions: ResolutionSet,
}

/// Preprocessing runs unless the caller opted in to reuse and the
/// previous output is actually there; reuse is an explicit policy,
/// never an automatic freshness check.
pub open spec fn preprocess_needed(skip: bool, exists: bool) -> bool {
    !(skip && exists)
}

/// One planned composition: a resolution, its layout, and the output
/// file it writes.
#[derive(Debug)]
pub struct CompositionJob {
    /// The target display resolution.
    pub resolution: Resolution,
    /// The layout computed for it.
    pub layout: ThumbnailLayout,
    /// The output file name, distinct per resolution.
    pub output_name: String,
}

/// A file name ending in `.png`, the only files discovery counts.
pub open spec fn is_png_name(s: Seq<char>) -> bool {
    s.len() >= 5 && s[s.len() - 4] == '.' && s[s.len() - 3] == 'p' && s[s.len() - 2] == 'n' && s[
        s.len() - 1] == 'g'
}

/// How many of the names are PNG files.
pub open spec fn count_png_spec(names: Seq<Seq<char>>) -> int
    decreases names.len(),
{
    if names.len() == 0 {
        0
    } else {
        count_png_spec(names.drop_last()) + if is_png_name(names.last()) {
            1int
        } else {
            0int
        }
    }
}

/// Count the PNG files among the directory entries discovery read.
pub fn count_png_names(names: &Vec<String>) -> (n: usize)
    ensures
        n == count_png_spec(names.deep_view()),
{
    let ghost dv = names.deep_view();
    let mut n: usize = 0;
    let mut i: usize = 0;
    while i < names.len()
        invariant
            0 <= i <= names@.len(),
            dv == names.deep_view(),
            dv.len() == names@.len(),
            0 <= n <= i,
            n == count_png_spec(dv.take(i as int)),
        decreases names@.len() - i,
    {
        let s = names[i].as_str();
        let len = s.unicode_len();
        let hit = len >= 5 && s.get_char(len - 4) == '.' && s.get_char(len - 3) == 'p'
            && s.get_char(len - 2) == 'n' && s.get_char(len - 1) == 'g';
        proof {
            assert(dv[i as int] == names@[i as int]@);
            assert(hit == is_png_name(dv[i as int]));
            assert(dv.take(i + 1).drop_last() =~= dv.take(i as int));
            assert(dv.take(i + 1).last() == dv[i as int]);
        }
        if hit {
            n = n + 1;
        }
        i = i + 1;
    }
    proof {
        assert(dv.take(i as int) =~= dv);
    }
    n
}

/// Drives one run of the pipeline.
pub struct Orchestrator {
    /// The run's configuration.
    pub cfg: PipelineConfig,
    /// Where the run stands.
    pub state: PipelineState,
    /// What discovery found, once it has run.
    pub frames: Option<FrameSet>,
    /// How many preprocessing items failed (non-fatal).
    pub failed_preprocess_items: u64,
    /// How many composition items failed (non-fatal).
    pub failed_composition_items: u64,
}

impl Orchestrator {
    /// A fresh run over `cfg`.
    pub fn new(cfg: PipelineConfig) -> (s: Self)
        ensures
            s.state is Idle,
            s.cfg == cfg,
            s.frames is None,
            s.failed_preprocess_items == 0,
            s.failed_composition_items == 0,
    {
        Orchestrator {
            cfg,
            state: PipelineState::Idle,
            frames: None,
            failed_preprocess_items: 0,
            failed_composition_items: 0,
        }
    }

    /// Leave `Idle`: extract if a source was supplied, otherwise go
    /// straight to preprocessing or, under the reuse policy, to
    /// discovery.
    pub fn start(&mut self) -> (a: Action)
        requires
            old(self).state is Idle,
        ensures
            final(self).cfg == old(self).cfg,
            final(self).frames == old(self).frames,
            old(self).cfg.extract_requested ==> final(self).state is Extracting && a
                is RunExtract,
            !old(self).cfg.extract_requested && preprocess_needed(
                old(self).cfg.skip_preprocess,
                old(self).cfg.preprocessed_exists,
            ) ==> final(self).state is Preprocessing && a is RunPreprocess,
            !old(self).cfg.extract_requested && !preprocess_needed(
                old(self).cfg.skip_preprocess,
                old(self).cfg.preprocessed_exists,
            ) ==> final(self).state is Discovering && a is RunDiscovery,
    {
        if self.cfg.extract_requested {
            self.state = PipelineState::Extracting;
            Action::RunExtract
        } else if self.cfg.skip_preprocess && self.cfg.preprocessed_exists {
            self.state = PipelineState::Discovering;
            Action::RunDiscovery
        } else {
            self.state = PipelineState::Preprocessing;
            Action::RunPreprocess
        }
    }

    /// Extraction came back. A failure is fatal: there is nothing to
    /// lay out without frames.
    pub fn on_extract_finished(&mut self, ok: bool) -> (a: Action)
        requires
            old(self).state is Extracting,
        ensures
            final(self).cfg == old(self).cfg,
            final(self).frames == old(self).frames,
            !ok ==> final(self).state == (PipelineState::Failed {
                stage: Stage::Extraction,
                reason: FailureReason::ExternalTool,
            }) && a is Halt,
            ok && preprocess_needed(
                old(self).cfg.skip_preprocess,
                old(self).cfg.preprocessed_exists,
            ) ==> final(self).state is Preprocessing && a is RunPreprocess,
            ok && !preprocess_needed(
                old(self).cfg.skip_preprocess,
                old(self).cfg.preprocessed_exists,
            ) ==> final(self).state is Discovering && a is RunDiscovery,
    {
        if !ok {
            self.state = PipelineState::Failed {
                stage: Stage::Extraction,
                reason: FailureReason::ExternalTool,
            };
            Action::Halt
        } else if self.cfg.skip_preprocess && self.cfg.preprocessed_exists {
            self.state = PipelineState::Discovering;
            Action::RunDiscovery
        } else {
            self.state = PipelineState::Preprocessing;
            Action::RunPreprocess
        }
    }

    /// Preprocessing came back. Item failures are collected, never
    /// fatal; discovery judges whether enough frames remain.
    pub fn on_preprocess_finished(&mut self, failed_items: u64) -> (a: Action)
        requires
            old(self).state is Preprocessing,
        ensures
            final(self).cfg == old(self).cfg,
            final(self).frames == old(self).frames,
            final(self).failed_preprocess_items == failed_items,
            final(self).state is Discovering,
            a is RunDiscovery,
    {
        self.failed_preprocess_items = failed_items;
        self.state = PipelineState::Discovering;
        Action::RunDiscovery
    }

    /// Discovery came back. An unreadable directory is a fatal I/O
    /// failure; an empty one is a fatal configuration failure; never a
    /// division by zero later on.
    pub fn on_discovery_finished(&mut self, frames: Option<FrameSet>) -> (a: Action)
        requires
            old(self).state is Discovering,
        ensures
            final(self).cfg == old(self).cfg,
            frames is None ==> final(self).state == (PipelineState::Failed {
                stage: Stage::Discovery,
                reason: FailureReason::Io,
            }) && a is Halt,
            frames matches Some(fs) && fs.count == 0 ==> final(self).state
                == (PipelineState::Failed {
                stage: Stage::Discovery,
                reason: FailureReason::InvalidConfig,
            }) && a is Halt,
            frames matches Some(fs) && fs.count >= 1 ==> final(self).state is Composing && a
                is RunCompositions && final(self).frames == frames,
    {
        match frames {
            None => {
                self.state = PipelineState::Failed {
                    stage: Stage::Discovery,
                    reason: FailureReason::Io,
                };
                Action::Halt
            },
            Some(fs) => {
                if fs.count == 0 {
                    self.state = PipelineState::Failed {
                        stage: Stage::Discovery,
                        reason: FailureReason::InvalidConfig,
                    };
                    Action::Halt
                } else {
                    self.frames = Some(fs);
                    self.state = PipelineState::Composing;
                    Action::RunCompositions
                }
            },
        }
    }

    /// One planned job per requested resolution, each independent of
    /// its siblings: its own layout, its own output file. A resolution
    /// whose layout is not computable gets its error in place, without
    /// touching the other jobs.
    pub fn plan_compositions(&self) -> (jobs: Vec<Result<CompositionJob, LayoutError>>)
        requires
            self.state is Composing,
            self.frames is Some,
        ensures
            jobs@.len() == self.cfg.resolutions@.len(),
            forall|i: int|
                0 <= i < jobs@.len() ==> {
                    let r = self.cfg.resolutions@[i];
                    let fs = self.frames->0;
                    match #[trigger] jobs@[i] {
                        Ok(j) => layout_computable(
                            r.width as int,
                            r.height as int,
                            fs.count as int,
                            fs.frame_width as int,
                            fs.frame_height as int,
                        ) && j.resolution == r && j.layout == layout_spec(
                            r.width as int,
                            r.height as int,
                            fs.count as int,
                            fs.frame_width as int,
                            fs.frame_height as int,
                        ) && j.output_name@ == montage_name_spec(r),
                        Err(e) => !layout_computable(
                            r.width as int,
                            r.height as int,
                            fs.count as int,
                            fs.frame_width as int,
                            fs.frame_height as int,
                        ) && e == LayoutError::InvalidConfig,
                    }
                },
            // distinct resolutions write distinct files, so parallel
            // jobs never interfere
            forall|i: int, k: int|
                0 <= i < jobs@.len() && 0 <= k < jobs@.len() && i != k
                    && self.cfg.resolutions@[i] != self.cfg.resolutions@[k] && jobs@[i] is Ok
                    && jobs@[k] is Ok ==> (#[trigger] jobs@[i])->Ok_0.output_name@ != (
                #[trigger] jobs@[k])->Ok_0.output_name@,
    {
        let fs = match &self.frames {
            Some(f) => *f,
            None => {
                proof {
                    assert(false);
                }
                FrameSet { count: 0, frame_width: 0, frame_height: 0 }
            },
        };
        let n = self.cfg.resolutions.items.len();
        let mut jobs: Vec<Result<CompositionJob, LayoutError>> = Vec::new();
        let mut i: usize = 0;
        while i < n
            invariant
                0 <= i <= n == self.cfg.resolutions@.len(),
                self.frames == Some(fs),
                jobs@.len() == i,
                forall|k: int|
                    0 <= k < i ==> {
                        let r = self.cfg.resolutions@[k];
                        match #[trigger] jobs@[k] {
                            Ok(j) => layout_computable(
                                r.width as int,
                                r.height as int,
                                fs.count as int,
                                fs.frame_width as int,
                                fs.frame_height as int,
                            ) && j.resolution == r && j.layout == layout_spec(
                                r.width as int,
                                r.height as int,
                                fs.count as int,
                                fs.frame_width as int,
                                fs.frame_height as int,
                            ) && j.output_name@ == montage_name_spec(r),
                            Err(e) => !layout_computable(
                                r.width as int,
                                r.height as int,
                                fs.count as int,
                                fs.frame_width as int,
                                fs.frame_height as int,
                            ) && e == LayoutError::InvalidConfig,
                        }
                    },
            decreases n - i,
        {
            let r = self.cfg.resolutions.items[i];
            match LayoutCalculator::compute(
                r.width,
                r.height,
                fs.count,
                fs.frame_width,
                fs.frame_height,
            ) {
                Ok(layout) => {
                    let name = montage_file_name(&r);
                    jobs.push(Ok(CompositionJob { resolution: r, layout, output_name: name }));
                },
                Err(e) => {
                    jobs.push(Err(e));
                },
            }
            i = i + 1;
        }
        proof {
            assert forall|i2: int, k: int|
                0 <= i2 < jobs@.len() && 0 <= k < jobs@.len() && i2 != k
                    && self.cfg.resolutions@[i2] != self.cfg.resolutions@[k] && jobs@[i2] is Ok
                    && jobs@[k] is Ok implies (#[trigger] jobs@[i2])->Ok_0.output_name@ != (
                #[trigger] jobs@[k])->Ok_0.output_name@ by {
                let a = self.cfg.resolutions@[i2];
                let b = self.cfg.resolutions@[k];
                lemma_montage_names_distinct(a, b);
            }
        }
        jobs
    }

    /// Composition came back. Item failures were reported per item and
    /// never fail the run as a whole: the remaining outputs are in
    /// place.
    pub fn on_compositions_finished(&mut self, failed_items: u64) -> (a: Action)
        requires
            old(self).state is Composing,
        ensures
            final(self).cfg == old(self).cfg,
            final(self).frames == old(self).frames,
            final(self).failed_composition_items == failed_items,
            final(self).state is Done,
            a is Halt,
    {
        self.failed_composition_items = failed_items;
        self.state = PipelineState::Done;
        Action::Halt
    }
}

} // verus!
