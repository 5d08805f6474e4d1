use video_musique::capability::FFmpegProcessor;
use video_musique::models::{Project, ProjectSettings, VideoClip};
use video_musique::supervisor::{ExportPhase, ExportSupervisor, LineAction};

fn project() -> Project {
    Project {
        videos: vec![
            VideoClip { path: "a.mp4".to_string(), name: String::new(), duration: 6_000_000 },
            VideoClip { path: "b.mp4".to_string(), name: String::new(), duration: 5_000_000 },
        ],
        audio_tracks: vec![],
        settings: ProjectSettings::default(),
    }
}

fn started() -> ExportSupervisor {
    let mut supervisor = ExportSupervisor::new();
    let command =
        supervisor.export_project(&FFmpegProcessor::new(), &project(), "/out/film.mp4", true, "fast");
    assert!(command.is_some());
    supervisor
}

#[test]
fn supervisor_starts_idle() {
    let supervisor = ExportSupervisor::new();
    assert_eq!(supervisor.phase(), ExportPhase::Idle);
    assert!(!supervisor.cancel_requested());
}

#[test]
fn start_builds_the_command_with_the_progress_channel() {
    let mut supervisor = ExportSupervisor::new();
    let ffmpeg = FFmpegProcessor::new();
    let command = supervisor.export_project(&ffmpeg, &project(), "/out/film.mp4", true, "fast");
    let command = command.expect("nothing is running");
    let mut expected = video_musique::command::build_export_command(
        &ffmpeg,
        &project(),
        "/out/film.mp4",
        None,
        true,
        "fast",
    );
    expected.push("-progress".to_string());
    expected.push("pipe:1".to_string());
    expected.push("-nostats".to_string());
    assert_eq!(command, expected);
    assert_eq!(command[0], "ffmpeg");
    assert_eq!(command[command.len() - 4], "/out/film.mp4");
    assert_eq!(supervisor.phase(), ExportPhase::Running);
}

#[test]
fn only_one_export_runs_at_a_time() {
    let mut supervisor = started();
    let second =
        supervisor.export_project(&FFmpegProcessor::new(), &project(), "/out/other.mp4", true, "fast");
    assert!(second.is_none());
    assert_eq!(supervisor.phase(), ExportPhase::Running);
    supervisor.cancel_export();
    match supervisor.on_line("progress=continue", 1) {
        LineAction::Cancel { output_path, .. } => assert_eq!(output_path, "/out/film.mp4"),
        _ => panic!("cancellation was asked for"),
    }
}

#[test]
fn progress_lines_are_passed_on() {
    let mut supervisor = started();
    // The video is 6 s + 5 s - 1 s of crossfade = 10 s.
    assert!(matches!(supervisor.on_line("frame=100", 10), LineAction::Continue));
    assert!(matches!(
        supervisor.on_line("out_time_ms=2500", 20),
        LineAction::Progress(25_000_000)
    ));
    assert!(matches!(
        supervisor.on_line("out_time_ms=20000", 30),
        LineAction::Progress(100_000_000)
    ));
    assert_eq!(supervisor.phase(), ExportPhase::Running);
}

#[test]
fn cancellation_ends_the_export_at_the_next_line() {
    let mut supervisor = started();
    assert!(matches!(supervisor.on_line("out_time_ms=1000", 5), LineAction::Progress(_)));
    supervisor.cancel_export();
    assert!(supervisor.cancel_requested());
    assert_eq!(supervisor.phase(), ExportPhase::Running);
    match supervisor.on_line("out_time_ms=2000", 1_250_000) {
        LineAction::Cancel { output_path, result } => {
            assert_eq!(output_path, "/out/film.mp4");
            assert!(result.cancelled);
            assert!(!result.success);
            assert_eq!(result.error, None);
            assert_eq!(result.encoder, Some("libx264".to_string()));
            assert!(!result.gpu_accelerated);
            assert_eq!(result.duration_micros, 1_250_000);
        }
        _ => panic!("cancellation was asked for"),
    }
    assert_eq!(supervisor.phase(), ExportPhase::Cancelled);
    assert!(matches!(supervisor.on_line("out_time_ms=3000", 9), LineAction::Continue));
    assert_eq!(supervisor.phase(), ExportPhase::Cancelled);
}

#[test]
fn cancellation_asked_for_earlier_does_not_reach_the_next_export() {
    let mut supervisor = ExportSupervisor::new();
    supervisor.cancel_export();
    assert!(supervisor.cancel_requested());
    supervisor
        .export_project(&FFmpegProcessor::new(), &project(), "/out/film.mp4", false, "fast")
        .expect("nothing is running");
    assert!(!supervisor.cancel_requested());
    assert!(matches!(supervisor.on_line("out_time_ms=5000", 1), LineAction::Progress(50_000_000)));
}

#[test]
fn successful_end() {
    let mut supervisor = started();
    let result = supervisor.on_exit(true, Some(0), 3_000_000);
    assert!(result.success);
    assert!(!result.cancelled);
    assert_eq!(result.error, None);
    assert_eq!(result.encoder, Some("libx264".to_string()));
    assert!(!result.gpu_accelerated);
    assert_eq!(result.duration_micros, 3_000_000);
    assert_eq!(supervisor.phase(), ExportPhase::Completed);
}

#[test]
fn failed_end_carries_the_exit_code() {
    let mut supervisor = started();
    let result = supervisor.on_exit(false, Some(1), 7);
    assert!(!result.success);
    assert!(!result.cancelled);
    assert_eq!(result.error, Some("FFmpeg a termine avec le code 1".to_string()));
    assert_eq!(supervisor.phase(), ExportPhase::Failed);
    let mut killed = started();
    let result = killed.on_exit(false, None, 7);
    assert_eq!(result.error, Some("FFmpeg a termine avec le code -1".to_string()));
    let mut odd = started();
    let result = odd.on_exit(false, Some(-11), 7);
    assert_eq!(result.error, Some("FFmpeg a termine avec le code -11".to_string()));
}

#[test]
fn engine_that_cannot_be_started() {
    let mut supervisor = started();
    let message = supervisor.on_launch_failed("No such file or directory (os error 2)");
    assert_eq!(message, "Impossible de lancer ffmpeg: No such file or directory (os error 2)");
    assert_eq!(supervisor.phase(), ExportPhase::Failed);
    let mut waiting = started();
    waiting.on_wait_failed();
    assert_eq!(waiting.phase(), ExportPhase::Failed);
}

#[test]
fn a_finished_export_stays_as_it_ended() {
    let mut supervisor = started();
    supervisor.on_exit(true, Some(0), 1);
    supervisor.cancel_export();
    assert!(matches!(supervisor.on_line("out_time_ms=1", 2), LineAction::Continue));
    supervisor.on_exit(false, Some(1), 3);
    supervisor.on_wait_failed();
    supervisor.on_launch_failed("late");
    assert_eq!(supervisor.phase(), ExportPhase::Completed);
}

#[test]
fn a_new_export_may_follow_a_finished_one() {
    let mut supervisor = started();
    supervisor.cancel_export();
    assert!(matches!(supervisor.on_line("x", 1), LineAction::Cancel { .. }));
    let again =
        supervisor.export_project(&FFmpegProcessor::new(), &project(), "/out/two.mp4", false, "fast");
    assert!(again.is_some());
    assert_eq!(supervisor.phase(), ExportPhase::Running);
    assert!(!supervisor.cancel_requested());
    assert!(matches!(supervisor.on_line("out_time_ms=10000", 1), LineAction::Progress(100_000_000)));
}

#[test]
fn lines_before_any_export_mean_nothing() {
    let mut supervisor = ExportSupervisor::new();
    supervisor.cancel_export();
    assert!(matches!(supervisor.on_line("out_time_ms=1", 2), LineAction::Continue));
    assert_eq!(supervisor.phase(), ExportPhase::Idle);
}
