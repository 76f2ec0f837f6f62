//! The order of the steps of a regeneration cycle.
//!
//! The caller carries out each action and hands back its answer; this module
//! decides what follows. A fired event of a shader file asks whether both
//! files of its pair exist; an absent file ends the cycle with a report; an
//! existing pair is read and generated from; an artifact is written only
//! after a generation that succeeded; and the imports of the changed file
//! are resolved whatever the generation yielded.

use crate::cycle::{
    generate_types_file, generation_outcome, triggered, triggered_pair, GenerationError, GenerationErrorView,
};
use crate::debounce::{key_of, WatchEvent, WatchEventView};
use crate::generator::{Dialect, GeneratedArtifact, GeneratedArtifactView};
use crate::pairing::{absent_side, pairing_filter, PairingError, PairingErrorView, ShaderPair, ShaderPairView};
use vstd::prelude::*;

verus! {

/// Why a cycle yields no artifact, or could not store it.
#[derive(Clone, Debug, PartialEq, Eq)]
pub enum CycleError {
    /// One file of the pair is absent.
    Pairing(PairingError),
    /// A source does not parse, or the two interfaces disagree.
    Generation(GenerationError),
    /// The file at this path could not be read or written.
    Io(String),
}

/// Where a cycle stands.
#[derive(Clone, Debug, PartialEq, Eq)]
pub enum Phase {
    /// No cycle is under way.
    Idle,
    /// The caller was asked whether the two files of the pair exist.
    Pairing { pair: ShaderPair, trigger: String },
    /// The caller was asked for the texts of the two files.
    Reading { pair: ShaderPair, trigger: String },
    /// The generation is over; the imports of the changed file are still to
    /// be resolved.
    Concluding { trigger: String },
}

/// The settings of a watch session and the phase of its current cycle.
#[derive(Clone, Debug, PartialEq, Eq)]
pub struct CycleState {
    pub output_folder: String,
    pub dialect: Dialect,
    pub phase: Phase,
}

/// What the caller hands back.
#[derive(Clone, Debug, PartialEq, Eq)]
pub enum CycleAnswer {
    /// The debouncer handed out this event.
    Fired(WatchEvent),
    /// Whether the vertex and the fragment shader of the pair exist.
    Exists { vertex: bool, fragment: bool },
    /// The texts of the two files of the pair.
    Sources { vertex: String, fragment: String },
    /// The file at this path could not be read or written.
    Failed(String),
    /// The last action was carried out.
    Done,
}

/// What the caller is to do next.
#[derive(Clone, Debug, PartialEq, Eq)]
pub enum CycleAction {
    /// Nothing: wait for the next event.
    Ignore,
    /// Look whether both files of the pair exist.
    AskExists(ShaderPair),
    /// Read both files of the pair.
    Read(ShaderPair),
    /// Write the artifact.
    Write(GeneratedArtifact),
    /// Report the error.
    Report(CycleError),
    /// Resolve the imports of the file at this path.
    ResolveImports(String),
}

/// The mathematical model of a `CycleError`.
pub ghost enum CycleErrorView {
    Pairing(PairingErrorView),
    Generation(GenerationErrorView),
    Io(Seq<char>),
}

/// The mathematical model of a `Phase`.
pub ghost enum PhaseView {
    Idle,
    Pairing { pair: ShaderPairView, trigger: Seq<char> },
    Reading { pair: ShaderPairView, trigger: Seq<char> },
    Concluding { trigger: Seq<char> },
}

/// The mathematical model of a `CycleState`.
pub ghost struct CycleStateView {
    pub output_folder: Seq<char>,
    pub dialect: Dialect,
    pub phase: PhaseView,
}

/// The mathematical model of a `CycleAnswer`.
pub ghost enum CycleAnswerView {
    Fired(WatchEventView),
    Exists { vertex: bool, fragment: bool },
    Sources { vertex: Seq<char>, fragment: Seq<char> },
    Failed(Seq<char>),
    Done,
}

/// The mathematical model of a `CycleAction`.
pub ghost enum CycleActionView {
    Ignore,
    AskExists(ShaderPairView),
    Read(ShaderPairView),
    Write(GeneratedArtifactView),
    Report(CycleErrorView),
    ResolveImports(Seq<char>),
}

impl View for CycleError {
    type V = CycleErrorView;

    open spec fn view(&self) -> CycleErrorView {
        match self {
            CycleError::Pairing(error) => CycleErrorView::Pairing(error@),
            CycleError::Generation(error) => CycleErrorView::Generation(error@),
            CycleError::Io(path) => CycleErrorView::Io(path@),
        }
    }
}

impl View for Phase {
    type V = PhaseView;

    open spec fn view(&self) -> PhaseView {
        match self {
            Phase::Idle => PhaseView::Idle,
            Phase::Pairing { pair, trigger } => PhaseView::Pairing { pair: pair@, trigger: trigger@ },
            Phase::Reading { pair, trigger } => PhaseView::Reading { pair: pair@, trigger: trigger@ },
            Phase::Concluding { trigger } => PhaseView::Concluding { trigger: trigger@ },
        }
    }
}

impl View for CycleState {
    type V = CycleStateView;

    open spec fn view(&self) -> CycleStateView {
        CycleStateView { output_folder: self.output_folder@, dialect: self.dialect, phase: self.phase@ }
    }
}

impl View for CycleAnswer {
    type V = CycleAnswerView;

    open spec fn view(&self) -> CycleAnswerView {
        match self {
            CycleAnswer::Fired(event) => CycleAnswerView::Fired(event@),
            CycleAnswer::Exists { vertex, fragment } => CycleAnswerView::Exists {
                vertex: *vertex,
                fragment: *fragment,
            },
            CycleAnswer::Sources { vertex, fragment } => CycleAnswerView::Sources {
                vertex: vertex@,
                fragment: fragment@,
            },
            CycleAnswer::Failed(path) => CycleAnswerView::Failed(path@),
            CycleAnswer::Done => CycleAnswerView::Done,
        }
    }
}

impl View for CycleAction {
    type V = CycleActionView;

    open spec fn view(&self) -> CycleActionView {
        match self {
            CycleAction::Ignore => CycleActionView::Ignore,
            CycleAction::AskExists(pair) => CycleActionView::AskExists(pair@),
            CycleAction::Read(pair) => CycleActionView::Read(pair@),
            CycleAction::Write(artifact) => CycleActionView::Write(artifact@),
            CycleAction::Report(error) => CycleActionView::Report(error@),
            CycleAction::ResolveImports(path) => CycleActionView::ResolveImports(path@),
        }
    }
}

/// The phase and the action that follow an answer. An answer that the phase
/// does not wait for ends the cycle and is ignored.
pub open spec fn next_phase(state: CycleStateView, answer: CycleAnswerView) -> (PhaseView, CycleActionView) {
    match state.phase {
        PhaseView::Idle => match answer {
            CycleAnswerView::Fired(event) => match triggered(event) {
                Some((vertex_path, fragment_path)) => {
                    let pair = ShaderPairView { vertex_path, fragment_path };
                    (PhaseView::Pairing { pair, trigger: key_of(event)->0 }, CycleActionView::AskExists(pair))
                },
                None => (PhaseView::Idle, CycleActionView::Ignore),
            },
            _ => (PhaseView::Idle, CycleActionView::Ignore),
        },
        PhaseView::Pairing { pair, trigger } => match answer {
            CycleAnswerView::Exists { vertex, fragment } => match absent_side(pair, vertex, fragment) {
                Some(error) => (PhaseView::Idle, CycleActionView::Report(CycleErrorView::Pairing(error))),
                None => (PhaseView::Reading { pair, trigger }, CycleActionView::Read(pair)),
            },
            _ => (PhaseView::Idle, CycleActionView::Ignore),
        },
        PhaseView::Reading { pair, trigger } => match answer {
            CycleAnswerView::Sources { vertex, fragment } => match generation_outcome(
                vertex,
                fragment,
                pair.vertex_path,
                state.output_folder,
                state.dialect,
            ) {
                Ok(artifact) => (PhaseView::Concluding { trigger }, CycleActionView::Write(artifact)),
                Err(error) => (
                    PhaseView::Concluding { trigger },
                    CycleActionView::Report(CycleErrorView::Generation(error)),
                ),
            },
            CycleAnswerView::Failed(path) => (
                PhaseView::Concluding { trigger },
                CycleActionView::Report(CycleErrorView::Io(path)),
            ),
            _ => (PhaseView::Idle, CycleActionView::Ignore),
        },
        PhaseView::Concluding { trigger } => match answer {
            CycleAnswerView::Failed(path) => (
                PhaseView::Concluding { trigger },
                CycleActionView::Report(CycleErrorView::Io(path)),
            ),
            _ => (PhaseView::Idle, CycleActionView::ResolveImports(trigger)),
        },
    }
}

/// The state and the action that follow an answer: the settings stay, the
/// phase moves on.
pub open spec fn stepped(state: CycleStateView, answer: CycleAnswerView) -> (CycleStateView, CycleActionView) {
    (CycleStateView { phase: next_phase(state, answer).0, ..state }, next_phase(state, answer).1)
}

impl CycleState {
    /// The state of a session in which no cycle is under way.
    pub fn new(output_folder: String, dialect: Dialect) -> (state: CycleState)
        ensures
            state == (CycleState { output_folder, dialect, phase: Phase::Idle }),
    {
        CycleState { output_folder, dialect, phase: Phase::Idle }
    }
}

/// Takes in the answer to the last action and says what is to be done next.
pub fn cycle_step(state: CycleState, answer: CycleAnswer) -> (next: (CycleState, CycleAction))
    ensures
        next.0@ == stepped(state@, answer@).0,
        next.1@ == stepped(state@, answer@).1,
{
    let CycleState { output_folder, dialect, phase } = state;
    let (phase, action) = match phase {
        Phase::Idle => match answer {
            CycleAnswer::Fired(event) => match triggered_pair(&event) {
                Some(pair) => {
                    let trigger = event.paths[0].clone();
                    assert(trigger@ == key_of(event@)->0);
                    let asked = ShaderPair {
                        vertex_path: pair.vertex_path.clone(),
                        fragment_path: pair.fragment_path.clone(),
                    };
                    (Phase::Pairing { pair, trigger }, CycleAction::AskExists(asked))
                },
                None => (Phase::Idle, CycleAction::Ignore),
            },
            _ => (Phase::Idle, CycleAction::Ignore),
        },
        Phase::Pairing { pair, trigger } => match answer {
            CycleAnswer::Exists { vertex, fragment } => match pairing_filter(pair, vertex, fragment) {
                Ok(pair) => {
                    let read = ShaderPair {
                        vertex_path: pair.vertex_path.clone(),
                        fragment_path: pair.fragment_path.clone(),
                    };
                    (Phase::Reading { pair, trigger }, CycleAction::Read(read))
                },
                Err(error) => (Phase::Idle, CycleAction::Report(CycleError::Pairing(error))),
            },
            _ => (Phase::Idle, CycleAction::Ignore),
        },
        Phase::Reading { pair, trigger } => match answer {
            CycleAnswer::Sources { vertex, fragment } => {
                let outcome = generate_types_file(
                    pair.vertex_path.as_str(),
                    vertex.as_str(),
                    fragment.as_str(),
                    output_folder.as_str(),
                    dialect,
                );
                match outcome {
                    Ok(artifact) => (Phase::Concluding { trigger }, CycleAction::Write(artifact)),
                    Err(error) => (
                        Phase::Concluding { trigger },
                        CycleAction::Report(CycleError::Generation(error)),
                    ),
                }
            },
            CycleAnswer::Failed(path) => (Phase::Concluding { trigger }, CycleAction::Report(CycleError::Io(path))),
            _ => (Phase::Idle, CycleAction::Ignore),
        },
        Phase::Concluding { trigger } => match answer {
            CycleAnswer::Failed(path) => (Phase::Concluding { trigger }, CycleAction::Report(CycleError::Io(path))),
            _ => (Phase::Idle, CycleAction::ResolveImports(trigger)),
        },
    };
    (CycleState { output_folder, dialect, phase }, action)
}

/// A pairing error ends the cycle: after it nothing is pending, and the next
/// action is to report it.
pub proof fn lemma_pairing_error_ends_cycle(state: CycleStateView, vertex: bool, fragment: bool)
    requires
        state.phase is Pairing,
        !vertex || !fragment,
    ensures
        stepped(state, CycleAnswerView::Exists { vertex, fragment }).0.phase == PhaseView::Idle,
        stepped(state, CycleAnswerView::Exists { vertex, fragment }).1 matches CycleActionView::Report(
            CycleErrorView::Pairing(error),
        ) && Some(error) == absent_side(state.phase->Pairing_pair, vertex, fragment),
{
}

/// An artifact is written only after a generation that succeeded, and it is
/// the artifact of that generation.
pub proof fn lemma_write_follows_success(state: CycleStateView, answer: CycleAnswerView)
    requires
        stepped(state, answer).1 is Write,
    ensures
        state.phase is Reading,
        answer is Sources,
        generation_outcome(
            answer->Sources_vertex,
            answer->Sources_fragment,
            state.phase->Reading_pair.vertex_path,
            state.output_folder,
            state.dialect,
        ) == Ok::<GeneratedArtifactView, GenerationErrorView>(stepped(state, answer).1->Write_0),
{
}

/// The imports of the changed file are resolved whatever the generation
/// yielded: once the sources are in, the step after next asks for it.
pub proof fn lemma_imports_follow_any_outcome(
    state: CycleStateView,
    vertex: Seq<char>,
    fragment: Seq<char>,
    acknowledged: CycleAnswerView,
)
    requires
        state.phase is Reading,
        !(acknowledged is Failed),
    ensures
        stepped(
            stepped(state, CycleAnswerView::Sources { vertex, fragment }).0,
            acknowledged,
        ).1 == CycleActionView::ResolveImports(state.phase->Reading_trigger),
        stepped(stepped(state, CycleAnswerView::Sources { vertex, fragment }).0, acknowledged).0.phase
            == PhaseView::Idle,
{
}

} // verus!
