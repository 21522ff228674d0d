//! The request pipeline as a state machine.
//!
//! The caller owns the processes, the file system and the network. It asks the
//! pipeline for its [`Action`], performs it, and reports what happened as an
//! [`Event`]; the pipeline decides what comes next and, at the end, what the
//! result is:
//!
//! stage (by the caller) → compile → disassemble each function, in request
//! order → remove the artifact → remove the staged source → forward the source
//! (not awaited) → finish with `{compiler: listing}`.
//!
//! A compiler that rejects the source is an expected outcome: the result is an
//! empty listing and no disassembler runs. A failing disassembler run is fatal
//! and ends the per-function work. Cleanup failures on the success path are
//! fatal too. On the two failure paths the files are still removed, on a best
//! effort basis whose outcome does not change the result, so that a rejected
//! or failed request leaves no staged source behind.
use vstd::prelude::*;
use crate::command::{
    compile_command,
    compile_command_of,
    disassemble_command,
    disassemble_command_of,
    CommandView,
    ProcessCommand,
};
use crate::forward::{forward_body, forward_body_of};
use crate::lines::{output_lines, output_lines_of};
use crate::normalize::{block_of, blocks_of, flatten_blocks, listing, normalize_block};
use crate::paths::{
    artifact_path,
    artifact_path_of,
    lemma_paths_never_collide,
    source_path,
    source_path_of,
};

verus! {

/// One request: the source, the functions wanted (in the order of the output),
/// the compiler to run and its extra arguments.
#[derive(Debug)]
pub struct CompilationRequest {
    pub source: String,
    pub functions: Vec<String>,
    pub compiler: String,
    pub args: Vec<String>,
}

/// What a [`CompilationRequest`] holds, as character sequences.
pub struct RequestView {
    pub source: Seq<char>,
    pub functions: Seq<Seq<char>>,
    pub compiler: Seq<char>,
    pub args: Seq<Seq<char>>,
}

impl View for CompilationRequest {
    type V = RequestView;

    open spec fn view(&self) -> RequestView {
        RequestView {
            source: self.source@,
            functions: self.functions.deep_view(),
            compiler: self.compiler@,
            args: self.args.deep_view(),
        }
    }
}

/// The result of a request: one compiler and its flat listing.
#[derive(Debug)]
pub struct CompilerOutput {
    pub compiler: String,
    pub lines: Vec<String>,
}

/// What a [`CompilerOutput`] holds, as character sequences.
pub struct OutputView {
    pub compiler: Seq<char>,
    pub lines: Seq<Seq<char>>,
}

impl View for CompilerOutput {
    type V = OutputView;

    open spec fn view(&self) -> OutputView {
        OutputView { compiler: self.compiler@, lines: self.lines.deep_view() }
    }
}

/// The errors that end a request without a listing.
#[derive(Debug)]
pub enum PipelineError {
    /// The disassembler failed on this function.
    DisassemblyFailure { function: String },
    /// This file could not be removed.
    CleanupFailure { path: String },
}

/// What a [`PipelineError`] holds, as character sequences.
pub enum ErrorView {
    DisassemblyFailure(Seq<char>),
    CleanupFailure(Seq<char>),
}

impl View for PipelineError {
    type V = ErrorView;

    open spec fn view(&self) -> ErrorView {
        match self {
            PipelineError::DisassemblyFailure { function } => ErrorView::DisassemblyFailure(
                function@,
            ),
            PipelineError::CleanupFailure { path } => ErrorView::CleanupFailure(path@),
        }
    }
}

/// What the caller reports after performing an action.
#[derive(Debug)]
pub enum Event {
    /// The process ran to its end; `stdout` is what it printed.
    ProcessExited { success: bool, stdout: Vec<u8> },
    /// The file removal was attempted.
    FileRemoved { success: bool },
    /// The forwarding was handed to a background worker.
    ForwardDispatched,
}

/// What an [`Event`] holds, as character sequences.
pub enum EventView {
    ProcessExited { success: bool, stdout: Seq<u8> },
    FileRemoved { success: bool },
    ForwardDispatched,
}

impl View for Event {
    type V = EventView;

    open spec fn view(&self) -> EventView {
        match self {
            Event::ProcessExited { success, stdout } => EventView::ProcessExited {
                success: *success,
                stdout: stdout@,
            },
            Event::FileRemoved { success } => EventView::FileRemoved { success: *success },
            Event::ForwardDispatched => EventView::ForwardDispatched,
        }
    }
}

/// What the caller is to do next.
#[derive(Debug)]
pub enum Action {
    /// Run this process and report its exit status and output.
    RunProcess(ProcessCommand),
    /// Remove the file at this path and report whether that worked.
    RemoveFile(String),
    /// Send this body to the persistence service in the background, without
    /// waiting for it; its outcome is never reported back.
    Forward(String),
    /// The request is over, with this result.
    Finish(Result<CompilerOutput, PipelineError>),
}

/// What an [`Action`] holds, as character sequences.
pub enum ActionView {
    RunProcess(CommandView),
    RemoveFile(Seq<char>),
    Forward(Seq<char>),
    Finish(Result<OutputView, ErrorView>),
}

impl View for Action {
    type V = ActionView;

    open spec fn view(&self) -> ActionView {
        match self {
            Action::RunProcess(c) => ActionView::RunProcess(c@),
            Action::RemoveFile(p) => ActionView::RemoveFile(p@),
            Action::Forward(b) => ActionView::Forward(b@),
            Action::Finish(r) => ActionView::Finish(
                match r {
                    Ok(o) => Ok(o@),
                    Err(e) => Err(e@),
                },
            ),
        }
    }
}

/// Where a request stands.
#[derive(Clone, Copy, Debug, PartialEq, Eq, Structural)]
pub enum Phase {
    Compiling,
    Disassembling,
    RemovingArtifact,
    RemovingSource,
    Forwarding,
    Done,
}

/// The result a request is heading for.
#[derive(Clone, Copy, Debug, PartialEq, Eq, Structural)]
pub enum Outcome {
    /// The listing of every requested function.
    Listing,
    /// The compiler rejected the source: an empty listing.
    CompileRejected,
    /// The disassembler failed on the current function.
    DisassemblyFailed,
    /// The artifact could not be removed.
    ArtifactNotRemoved,
    /// The staged source could not be removed.
    SourceNotRemoved,
}

/// The state of a request, as character sequences. `raws` are the
/// disassembler's output lines for the functions done so far, `blocks` their
/// normalised blocks.
pub struct PipelineView {
    pub source: Seq<char>,
    pub functions: Seq<Seq<char>>,
    pub compiler: Seq<char>,
    pub args: Seq<Seq<char>>,
    pub request_id: Seq<char>,
    pub source_path: Seq<char>,
    pub artifact_path: Seq<char>,
    pub phase: Phase,
    pub outcome: Outcome,
    pub next: nat,
    pub raws: Seq<Seq<Seq<char>>>,
    pub blocks: Seq<Seq<Seq<char>>>,
}

/// The state in which request `req`, staged under `id`, starts: compiling.
pub open spec fn initial_of(req: RequestView, id: Seq<char>) -> PipelineView {
    PipelineView {
        source: req.source,
        functions: req.functions,
        compiler: req.compiler,
        args: req.args,
        request_id: id,
        source_path: source_path_of(id),
        artifact_path: artifact_path_of(id),
        phase: Phase::Compiling,
        outcome: Outcome::Listing,
        next: 0,
        raws: Seq::empty(),
        blocks: Seq::empty(),
    }
}

/// The states a request can be in.
pub open spec fn well_formed(s: PipelineView) -> bool {
    &&& s.source_path == source_path_of(s.request_id)
    &&& s.artifact_path == artifact_path_of(s.request_id)
    &&& s.next <= s.functions.len()
    &&& s.raws.len() == s.next
    &&& s.blocks == blocks_of(s.functions.take(s.next as int), s.raws)
    &&& s.phase == Phase::Compiling ==> s.next == 0 && s.outcome == Outcome::Listing
    &&& s.phase == Phase::Disassembling ==> s.next < s.functions.len() && s.outcome
        == Outcome::Listing
    &&& s.phase == Phase::Forwarding ==> s.outcome == Outcome::Listing
    &&& s.outcome == Outcome::DisassemblyFailed ==> s.next < s.functions.len()
    &&& (s.outcome == Outcome::ArtifactNotRemoved || s.outcome == Outcome::SourceNotRemoved)
        ==> s.phase == Phase::Done
    &&& (s.outcome == Outcome::Listing && s.phase != Phase::Compiling && s.phase
        != Phase::Disassembling) ==> s.next == s.functions.len()
}

/// The result a finished request answers with.
pub open spec fn result_of(s: PipelineView) -> Result<OutputView, ErrorView> {
    match s.outcome {
        Outcome::Listing => Ok(OutputView { compiler: s.compiler, lines: listing(s.blocks) }),
        Outcome::CompileRejected => Ok(OutputView { compiler: s.compiler, lines: Seq::empty() }),
        Outcome::DisassemblyFailed => Err(ErrorView::DisassemblyFailure(s.functions[s.next as int])),
        Outcome::ArtifactNotRemoved => Err(ErrorView::CleanupFailure(s.artifact_path)),
        Outcome::SourceNotRemoved => Err(ErrorView::CleanupFailure(s.source_path)),
    }
}

/// What the caller is to do in state `s`.
pub open spec fn action_of(s: PipelineView) -> ActionView {
    match s.phase {
        Phase::Compiling => ActionView::RunProcess(
            compile_command_of(s.compiler, s.source_path, s.artifact_path, s.args),
        ),
        Phase::Disassembling => ActionView::RunProcess(
            disassemble_command_of(s.artifact_path, s.functions[s.next as int]),
        ),
        Phase::RemovingArtifact => ActionView::RemoveFile(s.artifact_path),
        Phase::RemovingSource => ActionView::RemoveFile(s.source_path),
        Phase::Forwarding => ActionView::Forward(forward_body_of(s.source, s.request_id)),
        Phase::Done => ActionView::Finish(result_of(s)),
    }
}

/// The state after event `e` in state `s`. An event that does not answer the
/// pending action leaves the state as it is.
pub open spec fn step_of(s: PipelineView, e: EventView) -> PipelineView {
    match (s.phase, e) {
        (Phase::Compiling, EventView::ProcessExited { success, stdout }) => {
            if !success {
                PipelineView {
                    phase: Phase::RemovingSource,
                    outcome: Outcome::CompileRejected,
                    ..s
                }
            } else if s.functions.len() == 0 {
                PipelineView { phase: Phase::RemovingArtifact, ..s }
            } else {
                PipelineView { phase: Phase::Disassembling, ..s }
            }
        },
        (Phase::Disassembling, EventView::ProcessExited { success, stdout }) => {
            let lines = output_lines_of(stdout);
            if !success {
                PipelineView {
                    phase: Phase::RemovingArtifact,
                    outcome: Outcome::DisassemblyFailed,
                    ..s
                }
            } else {
                PipelineView {
                    phase: if s.next + 1 < s.functions.len() {
                        Phase::Disassembling
                    } else {
                        Phase::RemovingArtifact
                    },
                    next: s.next + 1,
                    raws: s.raws.push(lines),
                    blocks: s.blocks.push(block_of(s.functions[s.next as int], lines)),
                    ..s
                }
            }
        },
        (Phase::RemovingArtifact, EventView::FileRemoved { success }) => {
            if !success && s.outcome == Outcome::Listing {
                PipelineView { phase: Phase::Done, outcome: Outcome::ArtifactNotRemoved, ..s }
            } else {
                PipelineView { phase: Phase::RemovingSource, ..s }
            }
        },
        (Phase::RemovingSource, EventView::FileRemoved { success }) => {
            if s.outcome != Outcome::Listing {
                PipelineView { phase: Phase::Done, ..s }
            } else if success {
                PipelineView { phase: Phase::Forwarding, ..s }
            } else {
                PipelineView { phase: Phase::Done, outcome: Outcome::SourceNotRemoved, ..s }
            }
        },
        (Phase::Forwarding, EventView::ForwardDispatched) => PipelineView { phase: Phase::Done, ..s },
        _ => s,
    }
}

/// The state after the events `events`, in their order, starting in `s`.
pub open spec fn run_events(s: PipelineView, events: Seq<EventView>) -> PipelineView
    decreases events.len(),
{
    if events.len() == 0 {
        s
    } else {
        run_events(step_of(s, events[0]), events.drop_first())
    }
}

proof fn lemma_rejection_is_kept(t: PipelineView, events: Seq<EventView>)
    requires
        t.outcome == Outcome::CompileRejected,
        t.phase == Phase::RemovingSource || t.phase == Phase::Done,
    ensures
        run_events(t, events).outcome == Outcome::CompileRejected,
        run_events(t, events).phase == Phase::RemovingSource || run_events(t, events).phase
            == Phase::Done,
        run_events(t, events).compiler == t.compiler,
        run_events(t, events).source_path == t.source_path,
    decreases events.len(),
{
    if events.len() > 0 {
        lemma_rejection_is_kept(step_of(t, events[0]), events.drop_first());
    }
}

/// When the compiler rejects the source, no disassembler ever runs: whatever
/// is reported afterwards, the only action left is the removal of the staged
/// source, and the result is exactly an empty listing for the compiler.
pub proof fn lemma_compile_rejection(
    s: PipelineView,
    stdout: Seq<u8>,
    events: Seq<EventView>,
)
    requires
        well_formed(s),
        s.phase == Phase::Compiling,
    ensures
        ({
            let t = run_events(
                step_of(s, EventView::ProcessExited { success: false, stdout }),
                events,
            );
            ||| action_of(t) == ActionView::RemoveFile(s.source_path)
            ||| action_of(t) == ActionView::Finish(
                Ok(OutputView { compiler: s.compiler, lines: Seq::empty() }),
            )
        }),
        forall|removed: bool|
            action_of(
                #[trigger] step_of(
                    step_of(s, EventView::ProcessExited { success: false, stdout }),
                    EventView::FileRemoved { success: removed },
                ),
            ) == ActionView::Finish(
                Ok(OutputView { compiler: s.compiler, lines: Seq::<Seq<char>>::empty() }),
            ),
{
    lemma_rejection_is_kept(
        step_of(s, EventView::ProcessExited { success: false, stdout }),
        events,
    );
}

/// A request that finishes with a listing answers with the listing of every
/// requested function, in request order, each built from the disassembler's
/// lines for it.
pub proof fn lemma_completed_listing(s: PipelineView)
    requires
        well_formed(s),
        s.phase == Phase::Done,
        s.outcome == Outcome::Listing,
    ensures
        s.raws.len() == s.functions.len(),
        action_of(s) == ActionView::Finish(
            Ok(OutputView { compiler: s.compiler, lines: listing(blocks_of(s.functions, s.raws)) }),
        ),
{
    assert(s.functions.take(s.functions.len() as int) =~= s.functions);
}

/// Two requests with distinct identifiers never touch the same file.
pub proof fn lemma_requests_never_share_files(a: PipelineView, b: PipelineView)
    requires
        well_formed(a),
        well_formed(b),
        a.request_id != b.request_id,
    ensures
        a.source_path != b.source_path,
        a.source_path != b.artifact_path,
        a.artifact_path != b.source_path,
        a.artifact_path != b.artifact_path,
{
    lemma_paths_never_collide(a.request_id, b.request_id);
    lemma_paths_never_collide(b.request_id, a.request_id);
}

/// A request in flight.
pub struct Pipeline {
    request: CompilationRequest,
    request_id: String,
    source_path: String,
    artifact_path: String,
    phase: Phase,
    outcome: Outcome,
    next: usize,
    raws: Ghost<Seq<Seq<Seq<char>>>>,
    blocks: Vec<Vec<String>>,
}

impl View for Pipeline {
    type V = PipelineView;

    closed spec fn view(&self) -> PipelineView {
        PipelineView {
            source: self.request.source@,
            functions: self.request.functions.deep_view(),
            compiler: self.request.compiler@,
            args: self.request.args.deep_view(),
            request_id: self.request_id@,
            source_path: self.source_path@,
            artifact_path: self.artifact_path@,
            phase: self.phase,
            outcome: self.outcome,
            next: self.next as nat,
            raws: self.raws@,
            blocks: self.blocks.deep_view(),
        }
    }
}

impl Pipeline {
    /// Starts request `request`, whose source the caller has staged at
    /// `source_path(request_id)`.
    pub fn new(request: CompilationRequest, request_id: String) -> (r: Pipeline)
        ensures
            r@ == initial_of(request@, request_id@),
            well_formed(r@),
    {
        let source_path = source_path(&request_id);
        let artifact_path = artifact_path(&request_id);
        let r = Pipeline {
            request,
            request_id,
            source_path,
            artifact_path,
            phase: Phase::Compiling,
            outcome: Outcome::Listing,
            next: 0,
            raws: Ghost(Seq::empty()),
            blocks: Vec::new(),
        };
        proof {
            assert(r@.blocks =~= blocks_of(r@.functions.take(0), r@.raws));
            assert(r@.blocks =~= Seq::<Seq<Seq<char>>>::empty());
            assert(r@ =~= initial_of(request@, request_id@));
        }
        r
    }

    /// Whether the request is over, its result being the action's.
    pub fn is_done(&self) -> (r: bool)
        ensures
            r == (self@.phase == Phase::Done),
    {
        self.phase == Phase::Done
    }

    /// What the caller is to do now.
    pub fn action(&self) -> (r: Action)
        requires
            well_formed(self@),
        ensures
            r@ == action_of(self@),
    {
        match self.phase {
            Phase::Compiling => Action::RunProcess(
                compile_command(
                    &self.request.compiler,
                    &self.source_path,
                    &self.artifact_path,
                    &self.request.args,
                ),
            ),
            Phase::Disassembling => Action::RunProcess(
                disassemble_command(&self.artifact_path, &self.request.functions[self.next]),
            ),
            Phase::RemovingArtifact => Action::RemoveFile(self.artifact_path.clone()),
            Phase::RemovingSource => Action::RemoveFile(self.source_path.clone()),
            Phase::Forwarding => Action::Forward(
                forward_body(&self.request.source, &self.request_id),
            ),
            Phase::Done => Action::Finish(self.result()),
        }
    }

    fn result(&self) -> (r: Result<CompilerOutput, PipelineError>)
        requires
            well_formed(self@),
        ensures
            match r {
                Ok(o) => result_of(self@) == Ok::<OutputView, ErrorView>(o@),
                Err(e) => result_of(self@) == Err::<OutputView, ErrorView>(e@),
            },
    {
        match self.outcome {
            Outcome::Listing => Ok(
                CompilerOutput {
                    compiler: self.request.compiler.clone(),
                    lines: flatten_blocks(&self.blocks),
                },
            ),
            Outcome::CompileRejected => {
                let lines: Vec<String> = Vec::new();
                proof {
                    assert(lines.deep_view() =~= Seq::<Seq<char>>::empty());
                }
                Ok(CompilerOutput { compiler: self.request.compiler.clone(), lines })
            },
            Outcome::DisassemblyFailed => Err(
                PipelineError::DisassemblyFailure {
                    function: self.request.functions[self.next].clone(),
                },
            ),
            Outcome::ArtifactNotRemoved => Err(
                PipelineError::CleanupFailure { path: self.artifact_path.clone() },
            ),
            Outcome::SourceNotRemoved => Err(
                PipelineError::CleanupFailure { path: self.source_path.clone() },
            ),
        }
    }

    /// Takes in what happened when the caller performed the pending action.
    pub fn step(&mut self, event: Event)
        requires
            well_formed(old(self)@),
        ensures
            well_formed(final(self)@),
            final(self)@ == step_of(old(self)@, event@),
    {
        let ghost s = self@;
        let ghost e = event@;
        match event {
            Event::ProcessExited { success, stdout } => {
                if self.phase == Phase::Compiling {
                    if !success {
                        self.phase = Phase::RemovingSource;
                        self.outcome = Outcome::CompileRejected;
                    } else if self.request.functions.len() == 0 {
                        self.phase = Phase::RemovingArtifact;
                    } else {
                        self.phase = Phase::Disassembling;
                    }
                } else if self.phase == Phase::Disassembling {
                    if !success {
                        self.phase = Phase::RemovingArtifact;
                        self.outcome = Outcome::DisassemblyFailed;
                    } else {
                        assert(self.request.functions.deep_view().len()
                            == self.request.functions.len());
                        let stdout_lines = output_lines(&stdout);
                        let block = normalize_block(
                            &self.request.functions[self.next],
                            &stdout_lines,
                        );
                        let ghost before = self.blocks.deep_view();
                        self.blocks.push(block);
                        self.raws = Ghost(self.raws@.push(stdout_lines.deep_view()));
                        self.next = self.next + 1;
                        if self.next >= self.request.functions.len() {
                            self.phase = Phase::RemovingArtifact;
                        }
                        proof {
                            assert(self.blocks.deep_view() =~= before.push(block.deep_view()));
                            assert(self@.blocks =~= blocks_of(
                                self@.functions.take(self@.next as int),
                                self@.raws,
                            ));
                        }
                    }
                }
            },
            Event::FileRemoved { success } => {
                if self.phase == Phase::RemovingArtifact {
                    if !success && self.outcome == Outcome::Listing {
                        self.phase = Phase::Done;
                        self.outcome = Outcome::ArtifactNotRemoved;
                    } else {
                        self.phase = Phase::RemovingSource;
                    }
                } else if self.phase == Phase::RemovingSource {
                    if self.outcome != Outcome::Listing {
                        self.phase = Phase::Done;
                    } else if success {
                        self.phase = Phase::Forwarding;
                    } else {
                        self.phase = Phase::Done;
                        self.outcome = Outcome::SourceNotRemoved;
                    }
                }
            },
            Event::ForwardDispatched => {
                if self.phase == Phase::Forwarding {
                    self.phase = Phase::Done;
                }
            },
        }
        proof {
            assert(self@ =~= step_of(s, e));
        }
    }
}

} // verus!
