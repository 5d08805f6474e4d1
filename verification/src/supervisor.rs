//! The export supervisor: what to do at each event of a running export.
//!
//! The supervisor runs no process and reads no stream. Whoever does tells
//! it what happened, one event at a time, and does what it answers. An
//! export is `Idle` until started, `Running` until it ends, and ends as
//! `Completed`, `Cancelled` or `Failed`.

use vstd::prelude::*;
use vstd::string::*;
use crate::capability::{optional_text, FFmpegProcessor};
use crate::command::{
    build_export_command, export_command, launch_failure_message, launch_failure_text,
    targets_webm,
};
use crate::decimal::{append_int, int_text};
use crate::encoders::{encoder_text, GpuFamily};
use crate::models::Project;
use crate::progress::{line_progress, progress_from_line, FULL_PROGRESS};
use crate::text::{push_text, texts};

verus! {

/// Where an export stands.
#[derive(Debug, Clone, Copy, PartialEq, Eq, Structural)]
pub enum ExportPhase {
    Idle,
    Running,
    Completed,
    Cancelled,
    Failed,
}

/// How an export ended.
#[derive(Debug, Clone)]
pub struct ExportResult {
    pub success: bool,
    pub cancelled: bool,
    pub error: Option<String>,
    pub encoder: Option<String>,
    pub gpu_accelerated: bool,
    /// Wall-clock time the export took, in microseconds.
    pub duration_micros: u64,
}

/// What an [`ExportResult`] holds, as mathematical values.
pub struct ExportResultView {
    pub success: bool,
    pub cancelled: bool,
    pub error: Option<Seq<char>>,
    pub encoder: Option<Seq<char>>,
    pub gpu_accelerated: bool,
    pub duration_micros: nat,
}

impl View for ExportResult {
    type V = ExportResultView;

    open spec fn view(&self) -> ExportResultView {
        ExportResultView {
            success: self.success,
            cancelled: self.cancelled,
            error: optional_text(self.error),
            encoder: optional_text(self.encoder),
            gpu_accelerated: self.gpu_accelerated,
            duration_micros: self.duration_micros as nat,
        }
    }
}

/// What to do after a line of the progress channel.
#[derive(Debug, Clone)]
pub enum LineAction {
    /// Read on.
    Continue,
    /// Report this progress to whoever observes the export, then read on.
    Progress(u64),
    /// Stop the engine, delete the file at `output_path` if there is one,
    /// and return `result`.
    Cancel { output_path: String, result: ExportResult },
}

/// What a [`LineAction`] holds, as mathematical values.
pub enum LineActionView {
    Continue,
    Progress(nat),
    Cancel { output_path: Seq<char>, result: ExportResultView },
}

impl View for LineAction {
    type V = LineActionView;

    open spec fn view(&self) -> LineActionView {
        match self {
            LineAction::Continue => LineActionView::Continue,
            LineAction::Progress(p) => LineActionView::Progress(*p as nat),
            LineAction::Cancel { output_path, result } => LineActionView::Cancel {
                output_path: output_path@,
                result: result@,
            },
        }
    }
}

/// The supervisor of exports, one at a time.
pub struct ExportSupervisor {
    phase: ExportPhase,
    cancel_requested: bool,
    output_path: String,
    total: u128,
    gpu: Option<GpuFamily>,
}

/// What an [`ExportSupervisor`] holds, as mathematical values.
pub struct SupervisorView {
    pub phase: ExportPhase,
    /// Whether cancellation has been asked for since the last start.
    pub cancel_requested: bool,
    /// Where the current export writes.
    pub output_path: Seq<char>,
    /// Length of the video being exported, in microseconds.
    pub total: nat,
    /// The hardware family the current export encodes with.
    pub gpu: Option<GpuFamily>,
}

impl View for ExportSupervisor {
    type V = SupervisorView;

    closed spec fn view(&self) -> SupervisorView {
        SupervisorView {
            phase: self.phase,
            cancel_requested: self.cancel_requested,
            output_path: self.output_path@,
            total: self.total as nat,
            gpu: self.gpu,
        }
    }
}

/// The options that make the engine report progress on its standard output
/// and nothing else.
pub open spec fn progress_arguments() -> Seq<Seq<char>> {
    seq!["-progress"@, "pipe:1"@, "-nostats"@]
}

/// The message for an engine that ended with exit code `code`; `-1` stands
/// for an engine that ended without one.
pub open spec fn exit_failure_text(code: Option<i32>) -> Seq<char> {
    "FFmpeg a termine avec le code "@ + int_text(
        match code {
            Some(c) => c as int,
            None => -1,
        },
    )
}

impl SupervisorView {
    /// A supervisor that has not run an export yet.
    pub open spec fn initial() -> SupervisorView {
        SupervisorView {
            phase: ExportPhase::Idle,
            cancel_requested: false,
            output_path: Seq::empty(),
            total: 0,
            gpu: None,
        }
    }

    /// The supervisor after cancellation has been asked for.
    pub open spec fn cancelling(self) -> SupervisorView {
        SupervisorView { cancel_requested: true, ..self }
    }

    /// The supervisor in another phase.
    pub open spec fn in_phase(self, phase: ExportPhase) -> SupervisorView {
        SupervisorView { phase, ..self }
    }

    /// The supervisor at the start of an export: running, with no
    /// cancellation asked for.
    pub open spec fn started(
        output_path: Seq<char>,
        total: nat,
        gpu: Option<GpuFamily>,
    ) -> SupervisorView {
        SupervisorView {
            phase: ExportPhase::Running,
            cancel_requested: false,
            output_path,
            total,
            gpu,
        }
    }

    /// The result of the current export, ended in the given way.
    pub open spec fn result(
        self,
        success: bool,
        cancelled: bool,
        error: Option<Seq<char>>,
        elapsed: nat,
    ) -> ExportResultView {
        ExportResultView {
            success,
            cancelled,
            error,
            encoder: Some(encoder_text(self.gpu)),
            gpu_accelerated: self.gpu is Some,
            duration_micros: elapsed,
        }
    }

    /// The result of an export that was cancelled.
    pub open spec fn cancelled_result(self, elapsed: nat) -> ExportResultView {
        self.result(false, true, None, elapsed)
    }

    /// The result of an export whose engine has ended.
    pub open spec fn exit_result(self, success: bool, code: Option<i32>, elapsed: nat) -> ExportResultView {
        self.result(
            success,
            false,
            if success {
                None
            } else {
                Some(exit_failure_text(code))
            },
            elapsed,
        )
    }

    /// What to do after a line of the progress channel, and the supervisor
    /// after it.
    ///
    /// Outside a running export lines mean nothing. In one, a pending
    /// cancellation is honoured before the line is looked at: the export is
    /// cancelled. Otherwise the line's progress, if it reports any, is
    /// passed on.
    pub open spec fn after_line(self, line: Seq<char>, elapsed: nat) -> (SupervisorView, LineActionView) {
        if self.phase != ExportPhase::Running {
            (self, LineActionView::Continue)
        } else if self.cancel_requested {
            (
                self.in_phase(ExportPhase::Cancelled),
                LineActionView::Cancel {
                    output_path: self.output_path,
                    result: self.cancelled_result(elapsed),
                },
            )
        } else {
            (
                self,
                match line_progress(line, self.total) {
                    Some(p) => LineActionView::Progress(p),
                    None => LineActionView::Continue,
                },
            )
        }
    }

    /// The supervisor after the engine has ended: a running export is
    /// completed or failed; anything else stays as it is.
    pub open spec fn after_exit(self, success: bool) -> SupervisorView {
        if self.phase == ExportPhase::Running {
            self.in_phase(
                if success {
                    ExportPhase::Completed
                } else {
                    ExportPhase::Failed
                },
            )
        } else {
            self
        }
    }

    /// The supervisor after the engine could not be started or waited for:
    /// a running export has failed; anything else stays as it is.
    pub open spec fn after_failure(self) -> SupervisorView {
        self.after_exit(false)
    }
}

impl ExportSupervisor {
    /// A supervisor that has not run an export yet.
    pub fn new() -> (supervisor: ExportSupervisor)
        ensures
            supervisor@ == SupervisorView::initial(),
    {
        ExportSupervisor {
            phase: ExportPhase::Idle,
            cancel_requested: false,
            output_path: String::new(),
            total: 0,
            gpu: None,
        }
    }

    /// Where the export stands.
    pub fn phase(&self) -> (phase: ExportPhase)
        ensures
            phase == self@.phase,
    {
        self.phase
    }

    /// Whether cancellation has been asked for since the last start.
    pub fn cancel_requested(&self) -> (requested: bool)
        ensures
            requested == self@.cancel_requested,
    {
        self.cancel_requested
    }

    /// Starts an export of `project` to `output_path` and returns the
    /// engine's argument list.
    ///
    /// While an export is running no other is started: the answer is `None`
    /// and nothing changes. Otherwise any earlier request to cancel is
    /// forgotten, the export is running, and the arguments are those of
    /// [`build_export_command`] without a preview length, followed by the
    /// options that switch the progress channel on.
    pub fn export_project(
        &mut self,
        ffmpeg: &FFmpegProcessor,
        project: &Project,
        output_path: &str,
        use_gpu: bool,
        speed_preset: &str,
    ) -> (command: Option<Vec<String>>)
        ensures
            match command {
                None => old(self)@.phase == ExportPhase::Running && final(self)@ == old(self)@,
                Some(arguments) => {
                    &&& old(self)@.phase != ExportPhase::Running
                    &&& texts(arguments@) == export_command(
                        project@,
                        output_path@,
                        None,
                        ffmpeg@.selected_gpu(use_gpu),
                        speed_preset@,
                        targets_webm(output_path@),
                    ) + progress_arguments()
                    &&& final(self)@ == SupervisorView::started(
                        output_path@,
                        project@.video_duration(),
                        ffmpeg@.selected_gpu(use_gpu),
                    )
                },
            },
    {
        match self.phase {
            ExportPhase::Running => {
                return None;
            },
            _ => {},
        }
        let mut command = build_export_command(
            ffmpeg,
            project,
            output_path,
            None,
            use_gpu,
            speed_preset,
        );
        let ghost built = texts(command@);
        push_text(&mut command, "-progress");
        push_text(&mut command, "pipe:1");
        push_text(&mut command, "-nostats");
        proof {
            assert(texts(command@) =~= built + progress_arguments());
        }
        self.phase = ExportPhase::Running;
        self.cancel_requested = false;
        self.output_path = String::from_str(output_path);
        self.total = project.get_video_duration();
        self.gpu = ffmpeg.selected_gpu(use_gpu);
        Some(command)
    }

    /// Asks for the running export to be cancelled. The request is honoured
    /// at the next line of the progress channel.
    pub fn cancel_export(&mut self)
        ensures
            final(self)@ == old(self)@.cancelling(),
    {
        self.cancel_requested = true;
    }

    fn result(&self, success: bool, cancelled: bool, error: Option<String>, elapsed: u64) -> (result:
        ExportResult)
        ensures
            result@ == self@.result(success, cancelled, optional_text(error), elapsed as nat),
    {
        let encoder: &str = match self.gpu {
            Some(family) => family.encoder(),
            None => "libx264",
        };
        ExportResult {
            success,
            cancelled,
            error,
            encoder: Some(String::from_str(encoder)),
            gpu_accelerated: self.gpu.is_some(),
            duration_micros: elapsed,
        }
    }

    /// Takes a line of the progress channel, read `elapsed` microseconds
    /// after the start, and says what to do.
    pub fn on_line(&mut self, line: &str, elapsed: u64) -> (action: LineAction)
        ensures
            (final(self)@, action@) == old(self)@.after_line(line@, elapsed as nat),
            action matches LineAction::Progress(p) ==> p <= FULL_PROGRESS,
    {
        match self.phase {
            ExportPhase::Running => {},
            _ => {
                return LineAction::Continue;
            },
        }
        if self.cancel_requested {
            let result = self.result(false, true, None, elapsed);
            let output_path = self.output_path.clone();
            self.phase = ExportPhase::Cancelled;
            return LineAction::Cancel { output_path, result };
        }
        match progress_from_line(line, self.total) {
            Some(p) => LineAction::Progress(p),
            None => LineAction::Continue,
        }
    }

    /// Takes the end of the engine, `elapsed` microseconds after the start,
    /// and returns the export's result: success where the engine reports
    /// it, otherwise a failure whose message holds the engine's exit code.
    pub fn on_exit(&mut self, success: bool, code: Option<i32>, elapsed: u64) -> (result:
        ExportResult)
        ensures
            final(self)@ == old(self)@.after_exit(success),
            result@ == old(self)@.exit_result(success, code, elapsed as nat),
    {
        let error: Option<String> = if success {
            None
        } else {
            let mut message = String::from_str("FFmpeg a termine avec le code ");
            let shown: i32 = match code {
                Some(c) => c,
                None => -1,
            };
            append_int(&mut message, shown as i64);
            Some(message)
        };
        let result = self.result(success, false, error, elapsed);
        match self.phase {
            ExportPhase::Running => {
                self.phase = if success {
                    ExportPhase::Completed
                } else {
                    ExportPhase::Failed
                };
            },
            _ => {},
        }
        result
    }

    /// Takes the failure to start the engine, with the system's description
    /// of it, and returns the message to report. A running export has
    /// failed.
    pub fn on_launch_failed(&mut self, detail: &str) -> (message: String)
        ensures
            final(self)@ == old(self)@.after_failure(),
            message@ == launch_failure_text("ffmpeg"@, detail@),
    {
        match self.phase {
            ExportPhase::Running => {
                self.phase = ExportPhase::Failed;
            },
            _ => {},
        }
        launch_failure_message("ffmpeg", detail)
    }

    /// Takes the failure to wait for the engine. A running export has
    /// failed.
    pub fn on_wait_failed(&mut self)
        ensures
            final(self)@ == old(self)@.after_failure(),
    {
        match self.phase {
            ExportPhase::Running => {
                self.phase = ExportPhase::Failed;
            },
            _ => {},
        }
    }
}

/// Once cancellation has been asked for during an export, the next line of
/// the progress channel, whatever it holds, ends the export: the answer is
/// to stop the engine and delete the export's own output file, the result
/// says cancelled and not successful, and the export is over.
pub proof fn lemma_cancel_ends_at_next_line(
    supervisor: SupervisorView,
    line: Seq<char>,
    elapsed: nat,
)
    requires
        supervisor.phase == ExportPhase::Running,
    ensures
        ({
            let (after, action) = supervisor.cancelling().after_line(line, elapsed);
            &&& after.phase == ExportPhase::Cancelled
            &&& action matches LineActionView::Cancel { output_path, result }
            &&& output_path == supervisor.output_path
            &&& result.cancelled
            &&& !result.success
            &&& result.error is None
            &&& after.after_line(line, elapsed) == (after, LineActionView::Continue)
        }),
{
}

/// A request to cancel made before an export starts does not reach it:
/// starting forgets the request, and the first line is read as usual.
pub proof fn lemma_start_forgets_cancel(
    output_path: Seq<char>,
    total: nat,
    gpu: Option<GpuFamily>,
    line: Seq<char>,
    elapsed: nat,
)
    ensures
        !SupervisorView::started(output_path, total, gpu).cancel_requested,
        SupervisorView::started(output_path, total, gpu).after_line(line, elapsed).0
            == SupervisorView::started(output_path, total, gpu),
{
}

/// An export leaves `Running` only for `Completed`, `Cancelled` or
/// `Failed`, and an export that is over stays as it ended whatever event
/// still arrives.
pub proof fn lemma_phases(supervisor: SupervisorView, line: Seq<char>, elapsed: nat, success: bool)
    ensures
        supervisor.phase == ExportPhase::Running ==> {
            ||| supervisor.after_line(line, elapsed).0.phase == ExportPhase::Running
            ||| supervisor.after_line(line, elapsed).0.phase == ExportPhase::Cancelled
        },
        supervisor.phase == ExportPhase::Running ==> {
            ||| supervisor.after_exit(success).phase == ExportPhase::Completed
            ||| supervisor.after_exit(success).phase == ExportPhase::Failed
        },
        supervisor.phase != ExportPhase::Running ==> {
            &&& supervisor.after_line(line, elapsed).0 == supervisor
            &&& supervisor.after_exit(success) == supervisor
            &&& supervisor.after_failure() == supervisor
        },
{
}

} // verus!
