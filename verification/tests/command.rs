use video_musique::capability::{DetectionStep, FFmpegProcessor};
use video_musique::command::{
    build_export_command, build_export_graph, create_preview, export_arguments,
    has_webm_extension, launch_failure_message, play_preview, preview_file_name, preview_outcome,
};
use video_musique::encoders::GpuFamily;
use video_musique::models::{AudioTrack, Project, ProjectSettings, VideoClip};

fn clip(path: &str, duration: u64) -> VideoClip {
    VideoClip { path: path.to_string(), name: String::new(), duration }
}

fn track(path: &str) -> AudioTrack {
    AudioTrack {
        path: path.to_string(),
        volume: 1_000_000,
        name: String::new(),
        duration: 30_000_000,
        mute: false,
        solo: false,
    }
}

fn project(videos: Vec<VideoClip>, audio_tracks: Vec<AudioTrack>) -> Project {
    Project { videos, audio_tracks, settings: ProjectSettings::default() }
}

fn words(command: &[&str]) -> Vec<String> {
    let mut out = Vec::new();
    for w in command {
        out.push(w.to_string());
    }
    out
}

fn processor_with(family: GpuFamily) -> FFmpegProcessor {
    let mut ffmpeg = FFmpegProcessor::new();
    assert!(matches!(ffmpeg.detect_gpu_encoder(), DetectionStep::ListEncoders));
    let mut step = ffmpeg.encoders_listed(Some("h264_nvenc h264_qsv h264_amf h264_vaapi"));
    loop {
        match step {
            DetectionStep::TestEncoder(probe) => {
                let found = probe.family() == family;
                step = ffmpeg.encoder_tested(probe, found);
            }
            DetectionStep::Resolved(result) => {
                assert_eq!(result, Some(family));
                return ffmpeg;
            }
            DetectionStep::ListEncoders => panic!("the list was given already"),
        }
    }
}

const ONE_CLIP_GRAPH: &str = "[0:v]format=yuv420p,setsar=1[v0];[0:a]anull[va0];[va0]volume=1[va]";

#[test]
fn software_export_of_one_clip() {
    let p = project(vec![clip("/videos/a.mp4", 5_000_000)], vec![]);
    let command =
        build_export_command(&FFmpegProcessor::new(), &p, "/out/final.mp4", None, false, "balanced");
    assert_eq!(
        command,
        words(&[
            "ffmpeg", "-y", "-i", "/videos/a.mp4", "-filter_complex", ONE_CLIP_GRAPH, "-map",
            "[v0]", "-map", "[va]", "-c:v", "libx264", "-preset", "medium", "-crf", "20", "-c:a",
            "aac", "-b:a", "192k", "/out/final.mp4",
        ])
    );
}

#[test]
fn one_clip_without_crossfade_is_copied() {
    let mut p = project(vec![clip("/videos/a.mp4", 5_000_000)], vec![]);
    p.settings.video_crossfade = 0;
    let command =
        build_export_command(&FFmpegProcessor::new(), &p, "/out/final.mp4", None, true, "quality");
    assert_eq!(
        command,
        words(&[
            "ffmpeg", "-y", "-i", "/videos/a.mp4", "-filter_complex", ONE_CLIP_GRAPH, "-map",
            "[v0]", "-map", "[va]", "-c:v", "copy", "-c:a", "aac", "-b:a", "192k",
            "/out/final.mp4",
        ])
    );
}

#[test]
fn two_clips_are_encoded_even_without_crossfade() {
    let mut p = project(vec![clip("a.mp4", 5_000_000), clip("b.mp4", 5_000_000)], vec![]);
    p.settings.video_crossfade = 0;
    let command = export_arguments(&p, "out.mp4", None, None, "fast", false);
    assert!(command.windows(2).any(|w| w[0] == "-c:v" && w[1] == "libx264"));
    assert!(command.windows(2).any(|w| w[0] == "-preset" && w[1] == "veryfast"));
}

#[test]
fn nvidia_export_with_music() {
    let p = project(
        vec![clip("a.mp4", 5_000_000), clip("b.mp4", 3_000_000)],
        vec![track("music.mp3")],
    );
    let ffmpeg = processor_with(GpuFamily::Nvidia);
    let command = build_export_command(&ffmpeg, &p, "out.mp4", None, true, "fast");
    assert_eq!(
        command,
        words(&[
            "ffmpeg",
            "-y",
            "-hwaccel",
            "cuda",
            "-i",
            "a.mp4",
            "-i",
            "b.mp4",
            "-i",
            "music.mp3",
            "-filter_complex",
            "[0:v]format=yuv420p,setsar=1[v0];[0:a]anull[va0];\
             [1:v]format=yuv420p,setsar=1[v1];[1:a]anull[va1];\
             [v0][v1]xfade=transition=fade:duration=1:offset=4[vx1];\
             [va0][va1]acrossfade=d=1:c1=qsin:c2=qsin[vax1];\
             [vax1]volume=1[va];[2:a]volume=1[ma0];\
             [va][ma0]amix=inputs=2:duration=longest:dropout_transition=0[aout]",
            "-map",
            "[vx1]",
            "-map",
            "[aout]",
            "-c:v",
            "h264_nvenc",
            "-preset",
            "p4",
            "-rc",
            "vbr",
            "-cq",
            "20",
            "-b:v",
            "0",
            "-c:a",
            "aac",
            "-b:a",
            "192k",
            "out.mp4",
        ])
    );
}

#[test]
fn hardware_is_used_only_where_asked_for() {
    let p = project(vec![clip("a.mp4", 5_000_000)], vec![]);
    let ffmpeg = processor_with(GpuFamily::Nvidia);
    let command = build_export_command(&ffmpeg, &p, "out.mp4", None, false, "fast");
    assert!(!command.contains(&"-hwaccel".to_string()));
    assert!(command.contains(&"libx264".to_string()));
}

#[test]
fn amd_options() {
    let p = project(vec![clip("a.mp4", 5_000_000)], vec![]);
    let command = export_arguments(&p, "out.mp4", None, Some(GpuFamily::Amd), "ultrafast", false);
    assert_eq!(
        command,
        words(&[
            "ffmpeg", "-y", "-i", "a.mp4", "-filter_complex", ONE_CLIP_GRAPH, "-map", "[v0]",
            "-map", "[va]", "-c:v", "h264_amf", "-quality", "speed", "-rc", "vbr_latency",
            "-qp_p", "20", "-qp_i", "20", "-c:a", "aac", "-b:a", "192k", "out.mp4",
        ])
    );
}

#[test]
fn intel_options() {
    let p = project(vec![clip("a.mp4", 5_000_000)], vec![]);
    let command = export_arguments(&p, "out.mp4", None, Some(GpuFamily::Intel), "quality", false);
    assert_eq!(
        command,
        words(&[
            "ffmpeg", "-y", "-hwaccel", "qsv", "-i", "a.mp4", "-filter_complex", ONE_CLIP_GRAPH,
            "-map", "[v0]", "-map", "[va]", "-c:v", "h264_qsv", "-preset", "veryslow",
            "-global_quality", "20", "-look_ahead", "1", "-c:a", "aac", "-b:a", "192k", "out.mp4",
        ])
    );
}

#[test]
fn vaapi_selects_the_device_and_uploads_the_frames() {
    let p = project(vec![clip("a.mp4", 5_000_000)], vec![]);
    let command = export_arguments(&p, "out.mp4", None, Some(GpuFamily::Vaapi), "fast", false);
    assert_eq!(
        command,
        words(&[
            "ffmpeg",
            "-y",
            "-vaapi_device",
            "/dev/dri/renderD128",
            "-i",
            "a.mp4",
            "-filter_complex",
            "[0:v]format=yuv420p,setsar=1[v0];[0:a]anull[va0];[va0]volume=1[va];\
             [v0]format=nv12,hwupload[vhw]",
            "-map",
            "[vhw]",
            "-map",
            "[va]",
            "-c:v",
            "h264_vaapi",
            "-qp",
            "20",
            "-c:a",
            "aac",
            "-b:a",
            "192k",
            "out.mp4",
        ])
    );
}

#[test]
fn vaapi_uploads_the_joined_picture_of_several_clips() {
    let p = project(
        vec![clip("a.mp4", 5_000_000), clip("b.mp4", 3_000_000)],
        vec![track("music.mp3")],
    );
    let ffmpeg = processor_with(GpuFamily::Vaapi);
    let command = build_export_command(&ffmpeg, &p, "out.mp4", None, true, "balanced");
    let graph = &command[11];
    assert_eq!(command[10], "-filter_complex");
    assert!(graph.ends_with(
        "[va][ma0]amix=inputs=2:duration=longest:dropout_transition=0[aout];\
         [vx1]format=nv12,hwupload[vhw]"
    ));
    assert_eq!(command[2..4].to_vec(), words(&["-vaapi_device", "/dev/dri/renderD128"]));
    assert_eq!(command[4], "-i");
    assert_eq!(command[12..16].to_vec(), words(&["-map", "[vhw]", "-map", "[aout]"]));
    assert_eq!(command[16..20].to_vec(), words(&["-c:v", "h264_vaapi", "-qp", "20"]));
    assert!(!command.contains(&"-preset".to_string()));
}

#[test]
fn frames_are_uploaded_only_for_a_device_encoder() {
    let mut p = project(vec![clip("a.mp4", 5_000_000)], vec![]);
    for family in [GpuFamily::Nvidia, GpuFamily::Intel, GpuFamily::Amd] {
        let command = export_arguments(&p, "out.mp4", None, Some(family), "fast", false);
        assert!(command.windows(2).any(|w| w[0] == "-map" && w[1] == "[v0]"));
        assert!(!command.iter().any(|w| w.contains("hwupload")));
    }
    let software = export_arguments(&p, "out.mp4", None, None, "fast", false);
    assert!(!software.iter().any(|w| w.contains("hwupload")));
    // A WebM file is encoded in software, so nothing is uploaded.
    let webm = export_arguments(&p, "out.webm", None, Some(GpuFamily::Vaapi), "fast", true);
    assert!(!webm.iter().any(|w| w.contains("hwupload")));
    assert!(webm.windows(2).any(|w| w[0] == "-map" && w[1] == "[v0]"));
    // A picture that is copied is not uploaded either.
    p.settings.video_crossfade = 0;
    let copied = export_arguments(&p, "out.mp4", None, Some(GpuFamily::Vaapi), "fast", false);
    assert!(!copied.iter().any(|w| w.contains("hwupload")));
    assert!(copied.windows(2).any(|w| w[0] == "-c:v" && w[1] == "copy"));
}

#[test]
fn export_graph_with_and_without_upload() {
    let p = project(vec![clip("a.mp4", 5_000_000)], vec![]);
    let plain = build_export_graph(&p, None, false);
    assert_eq!(plain.description, ONE_CLIP_GRAPH);
    assert_eq!(plain.video_output, "[v0]");
    let device = build_export_graph(&p, Some(GpuFamily::Vaapi), false);
    assert_eq!(device.description, format!("{};[v0]format=nv12,hwupload[vhw]", ONE_CLIP_GRAPH));
    assert_eq!(device.video_output, "[vhw]");
    assert_eq!(device.audio_output, "[va]");
    let empty = build_export_graph(&Project::default(), Some(GpuFamily::Vaapi), false);
    assert_eq!(empty.video_output, "");
    assert!(GpuFamily::Vaapi.takes_device_frames());
    assert!(!GpuFamily::Nvidia.takes_device_frames());
}

#[test]
fn unknown_preset_is_left_out() {
    let p = project(vec![clip("a.mp4", 5_000_000)], vec![]);
    let command = export_arguments(&p, "out.mp4", None, None, "turbo", false);
    assert_eq!(
        command,
        words(&[
            "ffmpeg", "-y", "-i", "a.mp4", "-filter_complex", ONE_CLIP_GRAPH, "-map", "[v0]",
            "-map", "[va]", "-c:v", "libx264", "-crf", "20", "-c:a", "aac", "-b:a", "192k",
            "out.mp4",
        ])
    );
    let nvidia = export_arguments(&p, "out.mp4", None, Some(GpuFamily::Nvidia), "turbo", false);
    assert!(!nvidia.contains(&"-preset".to_string()));
    assert!(nvidia.windows(2).any(|w| w[0] == "-rc" && w[1] == "vbr"));
}

#[test]
fn webm_is_always_encoded_in_software() {
    let p = project(vec![clip("a.mp4", 5_000_000)], vec![]);
    let ffmpeg = processor_with(GpuFamily::Nvidia);
    let command = build_export_command(&ffmpeg, &p, "/out/film.webm", None, true, "fast");
    assert_eq!(
        command,
        words(&[
            "ffmpeg", "-y", "-hwaccel", "cuda", "-i", "a.mp4", "-filter_complex", ONE_CLIP_GRAPH,
            "-map", "[v0]", "-map", "[va]", "-c:v", "libvpx-vp9", "-b:v", "0", "-crf", "30",
            "-c:a", "libvorbis", "/out/film.webm",
        ])
    );
}

#[test]
fn webm_extension_is_told_whatever_its_case() {
    let p = project(vec![clip("a.mp4", 5_000_000)], vec![]);
    for path in ["FILM.WEBM", "film.WebM", "film.webm"] {
        let command = build_export_command(&FFmpegProcessor::new(), &p, path, None, false, "fast");
        assert!(command.contains(&"libvpx-vp9".to_string()));
        assert!(!command.contains(&"aac".to_string()));
    }
    for path in ["film.webm.mp4", "webm", "film.webmx", "film.mkv"] {
        let command = build_export_command(&FFmpegProcessor::new(), &p, path, None, false, "fast");
        assert!(!command.contains(&"libvpx-vp9".to_string()));
        assert!(command.contains(&"aac".to_string()));
    }
}

#[test]
fn lowercase_names_ending_in_webm() {
    assert!(has_webm_extension("film.webm"));
    assert!(has_webm_extension(".webm"));
    assert!(!has_webm_extension("film.WEBM"));
    assert!(!has_webm_extension("film.web"));
    assert!(!has_webm_extension(""));
}

#[test]
fn preview_length_forces_ultrafast_and_limits_the_output() {
    let p = project(vec![clip("a.mp4", 5_000_000)], vec![]);
    let command = export_arguments(&p, "out.mkv", Some(30), None, "quality", false);
    assert_eq!(
        command,
        words(&[
            "ffmpeg", "-y", "-i", "a.mp4", "-filter_complex", ONE_CLIP_GRAPH, "-map", "[v0]",
            "-map", "[va]", "-c:v", "libx264", "-preset", "ultrafast", "-crf", "20", "-c:a",
            "aac", "-b:a", "192k", "-t", "30", "out.mkv",
        ])
    );
    let negative = export_arguments(&p, "out.mkv", Some(-5), None, "quality", false);
    assert!(negative.windows(2).any(|w| w[0] == "-t" && w[1] == "-5"));
}

#[test]
fn export_without_sound() {
    let mut p = project(vec![clip("a.mp4", 5_000_000)], vec![]);
    p.settings.include_video_audio = false;
    let command = export_arguments(&p, "out.mp4", None, None, "balanced", false);
    assert_eq!(
        command,
        words(&[
            "ffmpeg", "-y", "-i", "a.mp4", "-filter_complex", ONE_CLIP_GRAPH, "-map", "[v0]",
            "-an", "-c:v", "libx264", "-preset", "medium", "-crf", "20", "-c:a", "aac", "-b:a",
            "192k", "out.mp4",
        ])
    );
}

#[test]
fn export_of_an_empty_project() {
    let command = export_arguments(&Project::default(), "out.mp4", None, None, "balanced", false);
    assert_eq!(
        command,
        words(&[
            "ffmpeg", "-y", "-filter_complex", ";volume=1[va]", "-map", "0:v:0", "-map", "[va]",
            "-c:v", "libx264", "-preset", "medium", "-crf", "20", "-c:a", "aac", "-b:a", "192k",
            "out.mp4",
        ])
    );
}

#[test]
fn clips_come_before_tracks_and_muted_tracks_are_no_input() {
    let mut muted = track("muted.mp3");
    muted.mute = true;
    let p = project(
        vec![clip("a.mp4", 5_000_000), clip("b.mp4", 5_000_000)],
        vec![track("m.mp3"), muted, track("n.mp3")],
    );
    let command = export_arguments(&p, "out.mp4", None, None, "balanced", false);
    assert_eq!(
        command[..10].to_vec(),
        words(&["ffmpeg", "-y", "-i", "a.mp4", "-i", "b.mp4", "-i", "m.mp3", "-i", "n.mp3"])
    );
    assert_eq!(command[10], "-filter_complex");
    assert_eq!(command[command.len() - 1], "out.mp4");
}

#[test]
fn same_input_gives_the_same_command() {
    let build = || {
        let p = project(
            vec![clip("a.mp4", 5_000_000), clip("b.mp4", 3_250_000)],
            vec![track("m.mp3"), track("n.mp3")],
        );
        let ffmpeg = processor_with(GpuFamily::Intel);
        build_export_command(&ffmpeg, &p, "out.mp4", Some(12), true, "fast")
    };
    let first = build();
    let second = build();
    assert_eq!(first, second);
    let p = project(vec![clip("a.mp4", 5_000_000)], vec![track("m.mp3")]);
    let ffmpeg = FFmpegProcessor::new();
    assert_eq!(
        build_export_command(&ffmpeg, &p, "out.mp4", None, true, "fast"),
        build_export_command(&ffmpeg, &p, "out.mp4", None, true, "fast")
    );
}

#[test]
fn preview_defaults_to_sixty_seconds_with_hardware() {
    let p = project(vec![clip("a.mp4", 5_000_000)], vec![]);
    let ffmpeg = processor_with(GpuFamily::Nvidia);
    let command = create_preview(&ffmpeg, &p, "/tmp/preview_42.mkv", None);
    assert_eq!(
        command,
        words(&[
            "ffmpeg", "-y", "-hwaccel", "cuda", "-i", "a.mp4", "-filter_complex", ONE_CLIP_GRAPH,
            "-map", "[v0]", "-map", "[va]", "-c:v", "h264_nvenc", "-preset", "p1", "-rc", "vbr",
            "-cq", "20", "-b:v", "0", "-c:a", "aac", "-b:a", "192k", "-t", "60",
            "/tmp/preview_42.mkv",
        ])
    );
    let shorter = create_preview(&ffmpeg, &p, "/tmp/preview_42.mkv", Some(10));
    assert!(shorter.windows(2).any(|w| w[0] == "-t" && w[1] == "10"));
}

#[test]
fn preview_files_are_named_after_the_process() {
    assert_eq!(preview_file_name(42), "preview_42.mkv");
    assert_eq!(preview_file_name(0), "preview_0.mkv");
    assert_eq!(preview_file_name(u32::MAX), "preview_4294967295.mkv");
}

#[test]
fn preview_outcomes() {
    assert_eq!(preview_outcome(true, "/tmp/p.mkv".to_string()), Ok("/tmp/p.mkv".to_string()));
    assert_eq!(
        preview_outcome(false, "/tmp/p.mkv".to_string()),
        Err("La generation de la preview a echoue".to_string())
    );
}

#[test]
fn launch_failures_name_the_tool() {
    assert_eq!(
        launch_failure_message("ffmpeg", "No such file or directory (os error 2)"),
        "Impossible de lancer ffmpeg: No such file or directory (os error 2)"
    );
    assert_eq!(launch_failure_message("ffplay", "denied"), "Impossible de lancer ffplay: denied");
}

#[test]
fn player_command() {
    assert_eq!(
        play_preview("/tmp/preview_1.mkv"),
        words(&[
            "ffplay", "-autoexit", "-loglevel", "quiet", "-window_title", "Preview",
            "/tmp/preview_1.mkv",
        ])
    );
}
