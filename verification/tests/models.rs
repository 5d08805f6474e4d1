use video_musique::models::{
    default_audio_crossfade, default_last_directory, default_music_volume, default_speed_preset,
    default_theme, default_true, default_video_crossfade, default_video_volume, default_volume,
    default_window_height, default_window_width, directory_or_empty, AudioTrack, Config, Project,
    ProjectSettings, VideoClip,
};
use video_musique::AppState;

fn clip(path: &str, duration: u64) -> VideoClip {
    VideoClip { path: path.to_string(), name: path.to_string(), duration }
}

fn track(name: &str, volume: u64, mute: bool, solo: bool) -> AudioTrack {
    AudioTrack {
        path: format!("/music/{}.mp3", name),
        volume,
        name: name.to_string(),
        duration: 60_000_000,
        mute,
        solo,
    }
}

fn project(videos: Vec<VideoClip>, audio_tracks: Vec<AudioTrack>, video_crossfade: u64) -> Project {
    let mut settings = ProjectSettings::default();
    settings.video_crossfade = video_crossfade;
    Project { videos, audio_tracks, settings }
}

fn names(tracks: Vec<&AudioTrack>) -> Vec<String> {
    let mut out = Vec::new();
    for t in tracks {
        out.push(t.name.clone());
    }
    out
}

#[test]
fn empty_project_has_no_length_and_no_active_track() {
    let p = Project::default();
    assert_eq!(p.get_video_duration(), 0);
    assert_eq!(p.get_music_duration(), 0);
    assert!(p.get_active_tracks().is_empty());
}

#[test]
fn one_clip_loses_nothing_to_crossfade() {
    let p = project(vec![clip("a", 5_000_000)], vec![], 1_000_000);
    assert_eq!(p.get_video_duration(), 5_000_000);
}

#[test]
fn two_clips_overlap_once() {
    let p = project(vec![clip("a", 5_000_000), clip("b", 3_000_000)], vec![], 1_000_000);
    assert_eq!(p.get_video_duration(), 7_000_000);
}

#[test]
fn three_clips_overlap_twice() {
    let p = project(
        vec![clip("a", 5_000_000), clip("b", 3_000_000), clip("c", 4_250_000)],
        vec![],
        1_500_000,
    );
    assert_eq!(p.get_video_duration(), 9_250_000);
}

#[test]
fn crossfade_longer_than_clips_gives_zero_not_negative() {
    let p = project(
        vec![clip("a", 1_000_000), clip("b", 500_000), clip("c", 1_000_000)],
        vec![],
        2_000_000,
    );
    assert_eq!(p.get_video_duration(), 0);
}

#[test]
fn crossfade_exactly_eating_the_sum_gives_zero() {
    let p = project(vec![clip("a", 1_000_000), clip("b", 1_000_000)], vec![], 2_000_000);
    assert_eq!(p.get_video_duration(), 0);
}

#[test]
fn durations_near_the_top_of_the_range_add_up_exactly() {
    let p = project(vec![clip("a", u64::MAX), clip("b", u64::MAX), clip("c", 7)], vec![], 0);
    assert_eq!(p.get_video_duration(), 2 * (u64::MAX as u128) + 7);
}

#[test]
fn solo_track_silences_the_others() {
    let p = project(
        vec![],
        vec![
            track("A", 1_000_000, false, true),
            track("B", 1_000_000, false, false),
            track("C", 1_000_000, true, false),
        ],
        0,
    );
    assert_eq!(names(p.get_active_tracks()), vec!["A".to_string()]);
}

#[test]
fn without_solo_every_unmuted_track_is_active() {
    let p = project(
        vec![],
        vec![track("A", 1_000_000, false, false), track("B", 1_000_000, true, false)],
        0,
    );
    assert_eq!(names(p.get_active_tracks()), vec!["A".to_string()]);
}

#[test]
fn muted_solo_track_does_not_silence_the_others() {
    let p = project(
        vec![],
        vec![track("A", 1_000_000, true, true), track("B", 1_000_000, false, false)],
        0,
    );
    assert_eq!(names(p.get_active_tracks()), vec!["B".to_string()]);
}

#[test]
fn only_muted_tracks_leave_nothing_active() {
    let p = project(
        vec![],
        vec![track("A", 1_000_000, true, true), track("B", 1_000_000, true, false)],
        0,
    );
    assert!(p.get_active_tracks().is_empty());
}

#[test]
fn active_tracks_keep_timeline_order() {
    let p = project(
        vec![],
        vec![
            track("A", 1_000_000, false, true),
            track("B", 1_000_000, false, false),
            track("C", 1_000_000, false, true),
            track("D", 1_000_000, true, true),
        ],
        0,
    );
    assert_eq!(names(p.get_active_tracks()), vec!["A".to_string(), "C".to_string()]);
}

#[test]
fn music_duration_adds_active_tracks_only() {
    let mut a = track("A", 1_000_000, false, false);
    a.duration = 10_000_000;
    let mut b = track("B", 1_000_000, true, false);
    b.duration = 20_000_000;
    let mut c = track("C", 1_000_000, false, false);
    c.duration = 2_500_000;
    let p = project(vec![], vec![a, b, c], 0);
    assert_eq!(p.get_music_duration(), 12_500_000);
}

#[test]
fn effective_volume_is_capped() {
    assert_eq!(track("A", 1_500_000, false, false).get_effective_volume(), 1_100_000);
    assert_eq!(track("A", 1_100_000, false, false).get_effective_volume(), 1_100_000);
    assert_eq!(track("A", 1_099_999, false, false).get_effective_volume(), 1_099_999);
    assert_eq!(track("A", 0, false, false).get_effective_volume(), 0);
}

#[test]
fn muted_track_has_no_volume_whatever_is_stored() {
    assert_eq!(track("A", 1_500_000, true, false).get_effective_volume(), 0);
    assert_eq!(track("A", 300_000, true, true).get_effective_volume(), 0);
}

#[test]
fn settings_defaults() {
    let s = ProjectSettings::default();
    assert!(s.include_video_audio);
    assert!(s.include_music);
    assert_eq!(s.audio_crossfade, 10_000_000);
    assert_eq!(s.video_crossfade, 1_000_000);
    assert!(!s.cut_music_at_end);
    assert_eq!(s.video_volume, 100_000_000);
    assert_eq!(s.music_volume, 70_000_000);
    assert!(s.use_gpu);
    assert_eq!(s.speed_preset, "balanced");
}

#[test]
fn default_functions() {
    assert!(default_true());
    assert_eq!(default_volume(), 1_000_000);
    assert_eq!(default_audio_crossfade(), 10_000_000);
    assert_eq!(default_video_crossfade(), 1_000_000);
    assert_eq!(default_video_volume(), 100_000_000);
    assert_eq!(default_music_volume(), 70_000_000);
    assert_eq!(default_speed_preset(), "balanced");
    assert_eq!(default_theme(), "modern");
    assert_eq!(default_window_width(), 1100);
    assert_eq!(default_window_height(), 700);
}

#[test]
fn config_defaults() {
    let c = Config::default();
    assert_eq!(c.theme, "modern");
    assert_eq!(c.window_width, 1100);
    assert_eq!(c.window_height, 700);
    assert_eq!(c.audio_crossfade, 10_000_000);
    assert_eq!(c.video_crossfade, 1_000_000);
    assert_eq!(c.music_volume, 70_000_000);
    assert_eq!(c.video_volume, 100_000_000);
    assert!(c.use_gpu);
    assert_eq!(c.speed_preset, "balanced");
    assert_eq!(c.last_directory, default_last_directory());
}

#[test]
fn default_directory_is_the_home_directory() {
    let home = dirs::home_dir().map(|p| p.to_string_lossy().to_string()).unwrap_or_default();
    assert_eq!(default_last_directory(), home);
}

#[test]
fn config_with_directory_keeps_it() {
    let c = Config::with_last_directory("/home/alice/films".to_string());
    assert_eq!(c.last_directory, "/home/alice/films");
    assert_eq!(c.theme, "modern");
    assert_eq!(c.speed_preset, "balanced");
}

#[test]
fn new_application_state_remembers_nothing() {
    let state = AppState::new();
    assert!(!state.ffmpeg.gpu_checked());
    assert!(state.ffmpeg.available_gpu_encoder().is_none());
    assert!(state.ffmpeg.cached_duration("/videos/a.mp4", 0).is_none());
    assert!(!state.export.cancel_requested());
}

#[test]
fn a_missing_home_directory_gives_the_empty_path() {
    assert_eq!(directory_or_empty(None), "");
    assert_eq!(directory_or_empty(Some("/home/alice".to_string())), "/home/alice");
    assert_eq!(directory_or_empty(Some(String::new())), "");
}
