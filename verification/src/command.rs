//! The engine's argument list for an export: inputs, filter graph, stream
//! mapping, codec and quality options, and the output path, in the order the
//! engine needs them.

use vstd::prelude::*;
use vstd::string::*;
use crate::capability::FFmpegProcessor;
use crate::decimal::{append_int, append_nat, int_text, nat_text};
use crate::encoders::{encoder_text, get_encoder_config, preset_arguments, GpuFamily};
use crate::filters::{
    exported_tracks, filter_graph, filter_graph_with, music_tracks, FilterGraph, FilterGraphView,
};
use crate::models::{
    clip_views, track_ref_views, AudioTrack, AudioTrackView, Project, ProjectView, VideoClip,
    VideoClipView,
};
use crate::outside::{lowercase, lowercase_text};
use crate::text::{chars_of, ends_with, has_suffix, lemma_texts_push, push_text, texts};

verus! {

/// The options that switch on hardware decoding, or select the device, for
/// a family, before any input. The AMD path has none.
pub open spec fn hardware_arguments(gpu: Option<GpuFamily>) -> Seq<Seq<char>> {
    match gpu {
        Some(GpuFamily::Nvidia) => seq!["-hwaccel"@, "cuda"@],
        Some(GpuFamily::Intel) => seq!["-hwaccel"@, "qsv"@],
        Some(GpuFamily::Vaapi) => seq!["-vaapi_device"@, "/dev/dri/renderD128"@],
        _ => Seq::empty(),
    }
}

/// One input option per path, in order: `-i`, then the path.
pub open spec fn input_arguments(paths: Seq<Seq<char>>) -> Seq<Seq<char>> {
    Seq::new(
        2 * paths.len(),
        |k: int|
            if k % 2 == 0 {
                "-i"@
            } else {
                paths[k / 2]
            },
    )
}

/// The paths of the clips, in timeline order.
pub open spec fn clip_paths(clips: Seq<VideoClipView>) -> Seq<Seq<char>> {
    Seq::new(clips.len(), |i: int| clips[i].path)
}

/// The paths of the tracks, in order.
pub open spec fn track_paths(tracks: Seq<AudioTrackView>) -> Seq<Seq<char>> {
    Seq::new(tracks.len(), |i: int| tracks[i].path)
}

/// Whether the picture has to be encoded anew: with more than one clip or
/// with a crossfade. Otherwise the one clip's picture is copied as it is.
pub open spec fn must_reencode(project: ProjectView) -> bool {
    project.videos.len() > 1 || project.settings.video_crossfade > 0
}

/// Whether the finished picture is handed to an encoder that takes its
/// frames from device memory: the picture is encoded anew, not for a WebM
/// file, by a hardware family of that kind, and there is a picture at all.
pub open spec fn uploads_picture(project: ProjectView, gpu: Option<GpuFamily>, webm: bool) -> bool {
    &&& !webm
    &&& must_reencode(project)
    &&& project.videos.len() > 0
    &&& gpu matches Some(family) && family.encodes_device_frames()
}

/// The node that brings the picture `source` to the device's pixel format
/// and uploads it into device memory.
pub open spec fn upload_node(source: Seq<char>) -> Seq<char> {
    source + "format=nv12,hwupload[vhw]"@
}

/// The filter graph of an export. It is the project's graph; where the
/// encoder takes its frames from device memory, the upload node follows as
/// the graph's last node, behind the finished picture, and its output is the
/// picture to export.
pub open spec fn export_graph(
    project: ProjectView,
    gpu: Option<GpuFamily>,
    webm: bool,
) -> FilterGraphView {
    let graph = filter_graph(project);
    if uploads_picture(project, gpu, webm) {
        FilterGraphView {
            description: graph.description + ";"@ + upload_node(graph.video_output),
            video_output: "[vhw]"@,
            audio_output: graph.audio_output,
        }
    } else {
        graph
    }
}

/// The options that pick the streams to export: the finished picture, or the
/// first input's picture where the graph has none; then the sound, or `-an`
/// where the export has none.
pub open spec fn map_arguments(graph: FilterGraphView) -> Seq<Seq<char>> {
    seq![
        "-map"@,
        if graph.video_output.len() > 0 {
            graph.video_output
        } else {
            "0:v:0"@
        },
    ] + (if graph.audio_output.len() > 0 {
        seq!["-map"@, graph.audio_output]
    } else {
        seq!["-an"@]
    })
}

/// The quality and rate control options of each encoder.
pub open spec fn quality_arguments(gpu: Option<GpuFamily>) -> Seq<Seq<char>> {
    match gpu {
        Some(GpuFamily::Nvidia) => seq!["-rc"@, "vbr"@, "-cq"@, "20"@, "-b:v"@, "0"@],
        Some(GpuFamily::Amd) => seq!["-rc"@, "vbr_latency"@, "-qp_p"@, "20"@, "-qp_i"@, "20"@],
        Some(GpuFamily::Intel) => seq!["-global_quality"@, "20"@, "-look_ahead"@, "1"@],
        Some(GpuFamily::Vaapi) => seq!["-qp"@, "20"@],
        None => seq!["-crf"@, "20"@],
    }
}

/// The speed preset in force: a preview is always made at `ultrafast`.
pub open spec fn effective_preset(preview_seconds: Option<i32>, speed_preset: Seq<char>) -> Seq<
    char,
> {
    if preview_seconds is Some {
        "ultrafast"@
    } else {
        speed_preset
    }
}

/// The options that choose the picture encoder: the encoder, its word for
/// the speed preset where it has one, and its quality options; or a plain
/// copy where nothing has to be encoded.
pub open spec fn video_codec_arguments(
    project: ProjectView,
    preview_seconds: Option<i32>,
    gpu: Option<GpuFamily>,
    speed_preset: Seq<char>,
) -> Seq<Seq<char>> {
    if must_reencode(project) {
        seq!["-c:v"@, encoder_text(gpu)] + preset_arguments(
            gpu,
            effective_preset(preview_seconds, speed_preset),
        ) + quality_arguments(gpu)
    } else {
        seq!["-c:v"@, "copy"@]
    }
}

/// The codec options. A WebM file always gets VP9 and Vorbis from the
/// software encoders; any other file gets the picture encoder chosen above
/// and AAC at 192k.
pub open spec fn codec_arguments(
    project: ProjectView,
    preview_seconds: Option<i32>,
    gpu: Option<GpuFamily>,
    speed_preset: Seq<char>,
    webm: bool,
) -> Seq<Seq<char>> {
    if webm {
        seq!["-c:v"@, "libvpx-vp9"@, "-b:v"@, "0"@, "-crf"@, "30"@, "-c:a"@, "libvorbis"@]
    } else {
        video_codec_arguments(project, preview_seconds, gpu, speed_preset) + seq![
            "-c:a"@,
            "aac"@,
            "-b:a"@,
            "192k"@,
        ]
    }
}

/// The option that limits the output to the length of a preview.
pub open spec fn limit_arguments(preview_seconds: Option<i32>) -> Seq<Seq<char>> {
    match preview_seconds {
        Some(seconds) => seq!["-t"@, int_text(seconds as int)],
        None => Seq::empty(),
    }
}

/// The whole argument list of an export, program name first and output path
/// last.
///
/// Clips are the engine's inputs `0..n`, the exported tracks the inputs that
/// follow, which is the numbering the filter graph relies on. A family
/// whose encoder works on device memory gets its device selected before the
/// inputs and its frames uploaded at the end of the graph.
pub open spec fn export_command(
    project: ProjectView,
    output_path: Seq<char>,
    preview_seconds: Option<i32>,
    gpu: Option<GpuFamily>,
    speed_preset: Seq<char>,
    webm: bool,
) -> Seq<Seq<char>> {
    seq!["ffmpeg"@, "-y"@] + hardware_arguments(gpu) + input_arguments(clip_paths(project.videos))
        + input_arguments(track_paths(music_tracks(project))) + seq![
        "-filter_complex"@,
        export_graph(project, gpu, webm).description,
    ] + map_arguments(export_graph(project, gpu, webm)) + codec_arguments(
        project,
        preview_seconds,
        gpu,
        speed_preset,
        webm,
    ) + limit_arguments(preview_seconds) + seq![output_path]
}

/// Whether a file name, already in lowercase, is that of a WebM file.
pub open spec fn is_webm_name(lowered: Seq<char>) -> bool {
    has_suffix(lowered, ".webm"@)
}

/// Whether an output path names a WebM file, whatever the case of its
/// letters.
pub open spec fn targets_webm(output_path: Seq<char>) -> bool {
    is_webm_name(lowercase_text(output_path))
}

/// Tests whether a file name, already in lowercase, ends in `.webm`.
pub fn has_webm_extension(lowered: &str) -> (webm: bool)
    ensures
        webm == is_webm_name(lowered@),
{
    let name = chars_of(lowered);
    let extension = chars_of(".webm");
    ends_with(name.as_slice(), extension.as_slice())
}

fn push_clip_inputs(command: &mut Vec<String>, clips: &[VideoClip])
    ensures
        texts(final(command)@) == texts(old(command)@) + input_arguments(
            clip_paths(clip_views(clips@)),
        ),
{
    let ghost before = texts(command@);
    let ghost paths = clip_paths(clip_views(clips@));
    let mut i: usize = 0;
    proof {
        assert(texts(command@) =~= before + input_arguments(paths.take(0)));
    }
    while i < clips.len()
        invariant
            i <= clips@.len(),
            paths == clip_paths(clip_views(clips@)),
            texts(command@) == before + input_arguments(paths.take(i as int)),
        decreases clips@.len() - i,
    {
        push_text(command, "-i");
        push_text(command, clips[i].path.as_str());
        proof {
            assert(before + input_arguments(paths.take(i + 1)) =~= (before + input_arguments(
                paths.take(i as int),
            )).push("-i"@).push(clips@[i as int].path@));
        }
        i = i + 1;
    }
    proof {
        assert(paths.take(clips@.len() as int) =~= paths);
    }
}

fn push_track_inputs(command: &mut Vec<String>, tracks: &[&AudioTrack])
    ensures
        texts(final(command)@) == texts(old(command)@) + input_arguments(
            track_paths(track_ref_views(tracks@)),
        ),
{
    let ghost before = texts(command@);
    let ghost paths = track_paths(track_ref_views(tracks@));
    let mut i: usize = 0;
    proof {
        assert(texts(command@) =~= before + input_arguments(paths.take(0)));
    }
    while i < tracks.len()
        invariant
            i <= tracks@.len(),
            paths == track_paths(track_ref_views(tracks@)),
            texts(command@) == before + input_arguments(paths.take(i as int)),
        decreases tracks@.len() - i,
    {
        push_text(command, "-i");
        push_text(command, tracks[i].path.as_str());
        proof {
            assert(before + input_arguments(paths.take(i + 1)) =~= (before + input_arguments(
                paths.take(i as int),
            )).push("-i"@).push(tracks@[i as int].path@));
        }
        i = i + 1;
    }
    proof {
        assert(paths.take(tracks@.len() as int) =~= paths);
    }
}

fn push_hardware_options(options: &mut Vec<String>, gpu: Option<GpuFamily>)
    ensures
        texts(final(options)@) == texts(old(options)@) + hardware_arguments(gpu),
{
    match gpu {
        Some(GpuFamily::Nvidia) => {
            push_text(options, "-hwaccel");
            push_text(options, "cuda");
        },
        Some(GpuFamily::Intel) => {
            push_text(options, "-hwaccel");
            push_text(options, "qsv");
        },
        Some(GpuFamily::Vaapi) => {
            push_text(options, "-vaapi_device");
            push_text(options, "/dev/dri/renderD128");
        },
        _ => {},
    }
    proof {
        assert(texts(options@) =~= texts(old(options)@) + hardware_arguments(gpu));
    }
}

fn push_map_options(options: &mut Vec<String>, graph: &FilterGraph)
    ensures
        texts(final(options)@) == texts(old(options)@) + map_arguments(graph@),
{
    push_text(options, "-map");
    if graph.video_output.as_str().is_empty() {
        push_text(options, "0:v:0");
    } else {
        push_text(options, graph.video_output.as_str());
    }
    if graph.audio_output.as_str().is_empty() {
        push_text(options, "-an");
    } else {
        push_text(options, "-map");
        push_text(options, graph.audio_output.as_str());
    }
    proof {
        assert(texts(options@) =~= texts(old(options)@) + map_arguments(graph@));
    }
}

fn push_quality_options(options: &mut Vec<String>, gpu: Option<GpuFamily>)
    ensures
        texts(final(options)@) == texts(old(options)@) + quality_arguments(gpu),
{
    match gpu {
        Some(GpuFamily::Nvidia) => {
            push_text(options, "-rc");
            push_text(options, "vbr");
            push_text(options, "-cq");
            push_text(options, "20");
            push_text(options, "-b:v");
            push_text(options, "0");
        },
        Some(GpuFamily::Amd) => {
            push_text(options, "-rc");
            push_text(options, "vbr_latency");
            push_text(options, "-qp_p");
            push_text(options, "20");
            push_text(options, "-qp_i");
            push_text(options, "20");
        },
        Some(GpuFamily::Intel) => {
            push_text(options, "-global_quality");
            push_text(options, "20");
            push_text(options, "-look_ahead");
            push_text(options, "1");
        },
        Some(GpuFamily::Vaapi) => {
            push_text(options, "-qp");
            push_text(options, "20");
        },
        None => {
            push_text(options, "-crf");
            push_text(options, "20");
        },
    }
    proof {
        assert(texts(options@) =~= texts(old(options)@) + quality_arguments(gpu));
    }
}

/// The name under which the encoder settings are looked up: the family's
/// own, or `cpu` for the software encoder.
fn settings_name(gpu: Option<GpuFamily>) -> (name: &'static str)
    ensures
        GpuFamily::named(name@) == gpu,
{
    match gpu {
        Some(family) => {
            proof {
                family.lemma_named_own_name();
            }
            family.name()
        },
        None => {
            proof {
                reveal_strlit("cpu");
                reveal_strlit("nvidia");
                reveal_strlit("intel");
                reveal_strlit("amd");
                reveal_strlit("vaapi");
                assert("cpu"@.len() == 3);
                assert("amd"@[0] == 'a');
                assert("cpu"@[0] == 'c');
            }
            "cpu"
        },
    }
}

fn push_video_codec_options(
    options: &mut Vec<String>,
    project: &Project,
    preview_seconds: Option<i32>,
    gpu: Option<GpuFamily>,
    speed_preset: &str,
)
    ensures
        texts(final(options)@) == texts(old(options)@) + video_codec_arguments(
            project@,
            preview_seconds,
            gpu,
            speed_preset@,
        ),
{
    let ghost before = texts(options@);
    let reencode: bool = project.videos.len() > 1 || project.settings.video_crossfade > 0;
    push_text(options, "-c:v");
    if reencode {
        let preset: &str = if preview_seconds.is_some() {
            "ultrafast"
        } else {
            speed_preset
        };
        let config = get_encoder_config(settings_name(gpu));
        push_text(options, config.encoder);
        match config.preset_flag {
            Some(flag) => {
                match config.preset(preset) {
                    Some(value) => {
                        push_text(options, flag);
                        push_text(options, value);
                    },
                    None => {},
                }
            },
            None => {},
        }
        proof {
            assert(texts(options@) =~= before + (seq!["-c:v"@, encoder_text(gpu)]
                + preset_arguments(gpu, effective_preset(preview_seconds, speed_preset@))));
        }
        let ghost chosen = texts(options@);
        push_quality_options(options, gpu);
        proof {
            assert(texts(options@) =~= before + video_codec_arguments(
                project@,
                preview_seconds,
                gpu,
                speed_preset@,
            ));
        }
    } else {
        push_text(options, "copy");
        proof {
            assert(texts(options@) =~= before + seq!["-c:v"@, "copy"@]);
        }
    }
}

fn push_codec_options(
    options: &mut Vec<String>,
    project: &Project,
    preview_seconds: Option<i32>,
    gpu: Option<GpuFamily>,
    speed_preset: &str,
    webm: bool,
)
    ensures
        texts(final(options)@) == texts(old(options)@) + codec_arguments(
            project@,
            preview_seconds,
            gpu,
            speed_preset@,
            webm,
        ),
{
    let ghost before = texts(options@);
    if webm {
        push_text(options, "-c:v");
        push_text(options, "libvpx-vp9");
        push_text(options, "-b:v");
        push_text(options, "0");
        push_text(options, "-crf");
        push_text(options, "30");
        push_text(options, "-c:a");
        push_text(options, "libvorbis");
    } else {
        push_video_codec_options(options, project, preview_seconds, gpu, speed_preset);
        push_text(options, "-c:a");
        push_text(options, "aac");
        push_text(options, "-b:a");
        push_text(options, "192k");
    }
    proof {
        assert(texts(options@) =~= before + codec_arguments(
            project@,
            preview_seconds,
            gpu,
            speed_preset@,
            webm,
        ));
    }
}

/// Builds the filter graph of an export of `project` with the given hardware
/// family, for a WebM file or another.
pub fn build_export_graph(project: &Project, gpu: Option<GpuFamily>, webm: bool) -> (graph:
    FilterGraph)
    ensures
        graph@ == export_graph(project@, gpu, webm),
{
    let tracks = exported_tracks(project);
    export_graph_with(project, tracks.as_slice(), gpu, webm)
}

fn export_graph_with(
    project: &Project,
    tracks: &[&AudioTrack],
    gpu: Option<GpuFamily>,
    webm: bool,
) -> (graph: FilterGraph)
    requires
        track_ref_views(tracks@) == music_tracks(project@),
    ensures
        graph@ == export_graph(project@, gpu, webm),
{
    let graph = filter_graph_with(project, tracks);
    let reencode: bool = project.videos.len() > 1 || project.settings.video_crossfade > 0;
    let device_frames: bool = match gpu {
        Some(family) => family.takes_device_frames(),
        None => false,
    };
    if !webm && reencode && project.videos.len() > 0 && device_frames {
        let FilterGraph { description, video_output, audio_output } = graph;
        let mut description = description;
        description.append(";");
        description.append(video_output.as_str());
        description.append("format=nv12,hwupload[vhw]");
        proof {
            assert(description@ =~= filter_graph(project@).description + ";"@ + upload_node(
                video_output@,
            ));
        }
        FilterGraph { description, video_output: String::from_str("[vhw]"), audio_output }
    } else {
        graph
    }
}

/// Builds the argument list of an export for a resolved hardware family and
/// a known container.
///
/// `gpu` is the hardware family to encode with, if any; `webm` says whether
/// the output is a WebM file. A preview length, where given, forces the
/// `ultrafast` preset and limits the output to that many seconds.
pub fn export_arguments(
    project: &Project,
    output_path: &str,
    preview_seconds: Option<i32>,
    gpu: Option<GpuFamily>,
    speed_preset: &str,
    webm: bool,
) -> (command: Vec<String>)
    ensures
        texts(command@) == export_command(
            project@,
            output_path@,
            preview_seconds,
            gpu,
            speed_preset@,
            webm,
        ),
{
    let tracks = exported_tracks(project);
    let mut command: Vec<String> = Vec::new();
    push_text(&mut command, "ffmpeg");
    push_text(&mut command, "-y");
    proof {
        assert(texts(command@) =~= seq!["ffmpeg"@, "-y"@]);
    }
    push_hardware_options(&mut command, gpu);
    push_clip_inputs(&mut command, project.videos.as_slice());
    push_track_inputs(&mut command, tracks.as_slice());
    let graph = export_graph_with(project, tracks.as_slice(), gpu, webm);
    let ghost inputs = texts(command@);
    push_text(&mut command, "-filter_complex");
    push_text(&mut command, graph.description.as_str());
    proof {
        assert(texts(command@) =~= inputs + seq![
            "-filter_complex"@,
            export_graph(project@, gpu, webm).description,
        ]);
    }
    push_map_options(&mut command, &graph);
    push_codec_options(&mut command, project, preview_seconds, gpu, speed_preset, webm);
    let ghost coded = texts(command@);
    match preview_seconds {
        Some(seconds) => {
            push_text(&mut command, "-t");
            let mut limit = String::new();
            append_int(&mut limit, seconds as i64);
            proof {
                assert(limit@ =~= int_text(seconds as int));
                lemma_texts_push(command@, limit);
            }
            command.push(limit);
        },
        None => {},
    }
    proof {
        assert(texts(command@) =~= coded + limit_arguments(preview_seconds));
    }
    let ghost limited = texts(command@);
    push_text(&mut command, output_path);
    proof {
        assert(texts(command@) =~= limited + seq![output_path@]);
    }
    command
}

/// Builds the argument list that exports `project` to `output_path`.
///
/// Hardware is used only where `use_gpu` asks for it and detection has found
/// a family; run the detection first. The container is told from the output
/// path's extension.
pub fn build_export_command(
    ffmpeg: &FFmpegProcessor,
    project: &Project,
    output_path: &str,
    preview_seconds: Option<i32>,
    use_gpu: bool,
    speed_preset: &str,
) -> (command: Vec<String>)
    ensures
        texts(command@) == export_command(
            project@,
            output_path@,
            preview_seconds,
            ffmpeg@.selected_gpu(use_gpu),
            speed_preset@,
            targets_webm(output_path@),
        ),
{
    let gpu = ffmpeg.selected_gpu(use_gpu);
    let lowered = lowercase(output_path);
    let webm = has_webm_extension(lowered.as_str());
    export_arguments(project, output_path, preview_seconds, gpu, speed_preset, webm)
}

/// Length of a preview where none is asked for, in seconds.
pub const DEFAULT_PREVIEW_SECONDS: i32 = 60;

/// The length of a preview: the one asked for, or sixty seconds.
pub open spec fn preview_length(clip_seconds: Option<i32>) -> i32 {
    match clip_seconds {
        Some(seconds) => seconds,
        None => DEFAULT_PREVIEW_SECONDS,
    }
}

/// The file name of the preview made by the process `pid`.
pub open spec fn preview_name(pid: nat) -> Seq<char> {
    "preview_"@ + nat_text(pid) + ".mkv"@
}

/// The file name of the preview made by the process `pid`.
pub fn preview_file_name(pid: u32) -> (name: String)
    ensures
        name@ == preview_name(pid as nat),
{
    let mut name = String::from_str("preview_");
    append_nat(&mut name, pid as u128);
    name.append(".mkv");
    name
}

/// Builds the argument list that renders a preview of `project` to
/// `temp_path`: an export with hardware asked for, at the `ultrafast`
/// preset, limited to `clip_seconds` or, where none is given, to sixty
/// seconds.
pub fn create_preview(
    ffmpeg: &FFmpegProcessor,
    project: &Project,
    temp_path: &str,
    clip_seconds: Option<i32>,
) -> (command: Vec<String>)
    ensures
        texts(command@) == export_command(
            project@,
            temp_path@,
            Some(preview_length(clip_seconds)),
            ffmpeg@.selected_gpu(true),
            "ultrafast"@,
            targets_webm(temp_path@),
        ),
{
    let seconds: i32 = match clip_seconds {
        Some(seconds) => seconds,
        None => DEFAULT_PREVIEW_SECONDS,
    };
    build_export_command(ffmpeg, project, temp_path, Some(seconds), true, "ultrafast")
}

/// What a finished preview run returns: the path of the preview where the
/// engine succeeded, a message where it failed.
pub fn preview_outcome(success: bool, temp_path: String) -> (outcome: Result<String, String>)
    ensures
        success ==> outcome == Ok::<String, String>(temp_path),
        !success ==> outcome is Err && outcome->Err_0@ == "La generation de la preview a echoue"@,
{
    if success {
        Ok(temp_path)
    } else {
        Err(String::from_str("La generation de la preview a echoue"))
    }
}

/// The message for a tool that could not be started.
pub open spec fn launch_failure_text(tool: Seq<char>, detail: Seq<char>) -> Seq<char> {
    "Impossible de lancer "@ + tool + ": "@ + detail
}

/// The message for a tool that could not be started, with the system's
/// description of what went wrong.
pub fn launch_failure_message(tool: &str, detail: &str) -> (message: String)
    ensures
        message@ == launch_failure_text(tool@, detail@),
{
    let mut message = String::from_str("Impossible de lancer ");
    message.append(tool);
    message.append(": ");
    message.append(detail);
    message
}

/// The arguments that play the file at `path` in a window, quietly, and
/// quit at its end.
pub open spec fn player_arguments(path: Seq<char>) -> Seq<Seq<char>> {
    seq!["ffplay"@, "-autoexit"@, "-loglevel"@, "quiet"@, "-window_title"@, "Preview"@, path]
}

/// Builds the argument list that plays the preview at `path`.
pub fn play_preview(path: &str) -> (command: Vec<String>)
    ensures
        texts(command@) == player_arguments(path@),
{
    let mut command: Vec<String> = Vec::new();
    push_text(&mut command, "ffplay");
    push_text(&mut command, "-autoexit");
    push_text(&mut command, "-loglevel");
    push_text(&mut command, "quiet");
    push_text(&mut command, "-window_title");
    push_text(&mut command, "Preview");
    push_text(&mut command, path);
    proof {
        assert(texts(command@) =~= player_arguments(path@));
    }
    command
}

/// The argument list depends on nothing but what the timeline, the paths
/// and the options hold: two runs on inputs that hold the same values build
/// lists of the same length with the same text at every place.
pub proof fn lemma_same_input_same_command(
    first: Vec<String>,
    second: Vec<String>,
    project: Project,
    same_project: Project,
    output_path: Seq<char>,
    preview_seconds: Option<i32>,
    gpu: Option<GpuFamily>,
    speed_preset: Seq<char>,
    webm: bool,
)
    requires
        project@ == same_project@,
        texts(first@) == export_command(
            project@,
            output_path,
            preview_seconds,
            gpu,
            speed_preset,
            webm,
        ),
        texts(second@) == export_command(
            same_project@,
            output_path,
            preview_seconds,
            gpu,
            speed_preset,
            webm,
        ),
    ensures
        first@.len() == second@.len(),
        forall|i: int| 0 <= i < first@.len() ==> (#[trigger] first@[i])@ == second@[i]@,
{
    assert(texts(first@).len() == first@.len());
    assert(texts(second@).len() == second@.len());
    assert forall|i: int| 0 <= i < first@.len() implies (#[trigger] first@[i])@ == second@[i]@ by {
        assert(texts(first@)[i] == first@[i]@);
        assert(texts(second@)[i] == second@[i]@);
    }
}

} // verus!
