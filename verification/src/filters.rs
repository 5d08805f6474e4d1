//! The filter graph: how clips and tracks are wired into one video stream
//! and one audio stream.
//!
//! A graph is a list of nodes separated by `;`. Each node names its inputs
//! and its output in square brackets. Clip `i` is engine input `i`; active
//! track `i` is engine input `base + i`, where `base` is the number of clips.

use vstd::prelude::*;
use vstd::string::*;
use crate::decimal::{
    append_decimal, append_nat, decimal_text, decimal_to_string, lemma_nat_text_distinct,
    nat_text,
};
use crate::models::{
    clip_views, clips_duration, floored_sub, track_ref_views, AudioTrack, AudioTrackView, Project,
    ProjectView, VideoClip, VideoClipView,
};
use crate::text::{join, join_texts, lemma_texts_push, texts};

verus! {

/// Tag of track `index` after its volume node.
pub open spec fn track_tag(index: nat) -> Seq<char> {
    "ma"@ + nat_text(index)
}

/// Tag of the mix of tracks `0..=index`. The mix of track 0 alone is the
/// track itself.
pub open spec fn mix_tag(index: nat) -> Seq<char> {
    if index == 0 {
        track_tag(0)
    } else {
        "mx"@ + nat_text(index)
    }
}

/// The node that sets a track's gain: `[input:a]volume=gain[ma index]`.
pub open spec fn volume_node(input: nat, gain: nat, index: nat) -> Seq<char> {
    "["@ + nat_text(input) + ":a]volume="@ + decimal_text(gain, 6) + "["@ + track_tag(index) + "]"@
}

/// The node that fades the audio `first` into the audio `second` over
/// `length` seconds, with an equal-power curve on both legs.
pub open spec fn audio_crossfade_node(
    first: Seq<char>,
    second: Seq<char>,
    length: Seq<char>,
    out: Seq<char>,
) -> Seq<char> {
    "["@ + first + "]["@ + second + "]acrossfade=d="@ + length + ":c1=qsin:c2=qsin["@ + out + "]"@
}

/// The first `count` volume nodes of the audio branch.
pub open spec fn volume_nodes(tracks: Seq<AudioTrackView>, base: nat, count: nat) -> Seq<
    Seq<char>,
> {
    Seq::new(count, |i: int| volume_node(base + i as nat, tracks[i].effective_volume(), i as nat))
}

/// The first `count` crossfade nodes of the audio branch: node `k` fades the
/// mix of tracks `0..=k` into track `k + 1`, over `length` microseconds.
pub open spec fn mix_nodes(length: nat, count: nat) -> Seq<Seq<char>> {
    Seq::new(
        count,
        |k: int|
            audio_crossfade_node(
                mix_tag(k as nat),
                track_tag((k + 1) as nat),
                decimal_text(length, 6),
                mix_tag((k + 1) as nat),
            ),
    )
}

/// The nodes of the audio branch: one volume node per track, then the
/// crossfades that fold the tracks left to right.
pub open spec fn audio_nodes(tracks: Seq<AudioTrackView>, length: nat, base: nat) -> Seq<
    Seq<char>,
> {
    volume_nodes(tracks, base, tracks.len()) + mix_nodes(length, floored_sub(tracks.len(), 1))
}

/// The audio branch as text.
pub open spec fn audio_graph(tracks: Seq<AudioTrackView>, length: nat, base: nat) -> Seq<char> {
    join_texts(audio_nodes(tracks, length, base), ";"@)
}

/// The bracketed tag of the audio branch's last node.
pub open spec fn audio_terminal(tracks: Seq<AudioTrackView>) -> Seq<char> {
    "["@ + mix_tag(floored_sub(tracks.len(), 1)) + "]"@
}

fn track_tag_string(index: usize) -> (tag: String)
    ensures
        tag@ == track_tag(index as nat),
{
    let mut tag = String::from_str("ma");
    append_nat(&mut tag, index as u128);
    tag
}

fn mix_tag_string(index: usize) -> (tag: String)
    ensures
        tag@ == mix_tag(index as nat),
{
    if index == 0 {
        track_tag_string(0)
    } else {
        let mut tag = String::from_str("mx");
        append_nat(&mut tag, index as u128);
        tag
    }
}

fn bracketed(tag: &str) -> (out: String)
    ensures
        out@ == "["@ + tag@ + "]"@,
{
    let mut out = String::from_str("[");
    out.append(tag);
    out.append("]");
    out
}

fn audio_crossfade_string(first: &str, second: &str, length: &str, out: &str) -> (node: String)
    ensures
        node@ == audio_crossfade_node(first@, second@, length@, out@),
{
    let mut node = String::from_str("[");
    node.append(first);
    node.append("][");
    node.append(second);
    node.append("]acrossfade=d=");
    node.append(length);
    node.append(":c1=qsin:c2=qsin[");
    node.append(out);
    node.append("]");
    node
}

/// Builds the audio branch for `tracks`, whose engine inputs start at
/// `base_input_index`, with crossfades of `crossfade_duration`
/// microseconds.
///
/// Returns the graph text and the bracketed tag of its last node. One track
/// needs no crossfade and its volume node is the last node. More tracks are
/// folded left to right: track 0 fades into track 1, that mix into track 2,
/// and so on.
pub fn build_audio_crossfade_filter(
    tracks: &[&AudioTrack],
    crossfade_duration: u64,
    base_input_index: usize,
) -> (branch: (String, String))
    ensures
        branch.0@ == audio_graph(
            track_ref_views(tracks@),
            crossfade_duration as nat,
            base_input_index as nat,
        ),
        branch.1@ == audio_terminal(track_ref_views(tracks@)),
{
    let ghost views = track_ref_views(tracks@);
    let ghost base = base_input_index as nat;
    let n: usize = tracks.len();
    let mut parts: Vec<String> = Vec::new();
    let mut i: usize = 0;
    proof {
        assert(texts(parts@) =~= volume_nodes(views, base, 0));
    }
    while i < n
        invariant
            i <= n == tracks@.len(),
            views == track_ref_views(tracks@),
            base == base_input_index as nat,
            texts(parts@) == volume_nodes(views, base, i as nat),
        decreases n - i,
    {
        let gain: u64 = tracks[i].get_effective_volume();
        let mut node = String::from_str("[");
        append_nat(&mut node, base_input_index as u128 + i as u128);
        node.append(":a]volume=");
        append_decimal(&mut node, gain as u128, 6);
        node.append("[");
        node.append(track_tag_string(i).as_str());
        node.append("]");
        proof {
            assert(node@ == volume_node(base + i as nat, views[i as int].effective_volume(), i as nat));
            lemma_texts_push(parts@, node);
            assert(volume_nodes(views, base, (i + 1) as nat) =~= volume_nodes(
                views,
                base,
                i as nat,
            ).push(node@));
        }
        parts.push(node);
        i = i + 1;
    }
    let length = decimal_to_string(crossfade_duration as u128, 6);
    let ghost volumes = volume_nodes(views, base, n as nat);
    let mut last: usize = 0;
    proof {
        assert(texts(parts@) =~= volumes + mix_nodes(crossfade_duration as nat, 0));
    }
    while last + 1 < n
        invariant
            last < n || n == 0,
            n == tracks@.len(),
            n == 0 ==> last == 0,
            length@ == decimal_text(crossfade_duration as nat, 6),
            texts(parts@) == volumes + mix_nodes(crossfade_duration as nat, last as nat),
        decreases n - last,
    {
        let node = audio_crossfade_string(
            mix_tag_string(last).as_str(),
            track_tag_string(last + 1).as_str(),
            length.as_str(),
            mix_tag_string(last + 1).as_str(),
        );
        proof {
            lemma_texts_push(parts@, node);
            assert(volumes + mix_nodes(crossfade_duration as nat, (last + 1) as nat) =~= (volumes
                + mix_nodes(crossfade_duration as nat, last as nat)).push(node@));
        }
        parts.push(node);
        last = last + 1;
    }
    proof {
        assert(last as nat == floored_sub(n as nat, 1));
    }
    (join(&parts, ";"), bracketed(mix_tag_string(last).as_str()))
}

/// Tag of clip `index`'s picture after normalization.
pub open spec fn clip_video_tag(index: nat) -> Seq<char> {
    "v"@ + nat_text(index)
}

/// Tag of clip `index`'s own sound.
pub open spec fn clip_audio_tag(index: nat) -> Seq<char> {
    "va"@ + nat_text(index)
}

/// Tag of the picture of clips `0..=index` joined.
pub open spec fn joined_video_tag(index: nat) -> Seq<char> {
    if index == 0 {
        clip_video_tag(0)
    } else {
        "vx"@ + nat_text(index)
    }
}

/// Tag of the sound of clips `0..=index` joined.
pub open spec fn joined_audio_tag(index: nat) -> Seq<char> {
    if index == 0 {
        clip_audio_tag(0)
    } else {
        "vax"@ + nat_text(index)
    }
}

/// The node that brings clip `index`'s picture to one pixel format and
/// square pixels.
pub open spec fn format_node(index: nat) -> Seq<char> {
    "["@ + nat_text(index) + ":v]format=yuv420p,setsar=1["@ + clip_video_tag(index) + "]"@
}

/// The node that passes clip `index`'s sound through unchanged.
pub open spec fn passthrough_node(index: nat) -> Seq<char> {
    "["@ + nat_text(index) + ":a]anull["@ + clip_audio_tag(index) + "]"@
}

/// The node that fades the picture `first` into the picture `second` over
/// `length` seconds, starting `offset` seconds into `first`.
pub open spec fn video_crossfade_node(
    first: Seq<char>,
    second: Seq<char>,
    length: Seq<char>,
    offset: Seq<char>,
    out: Seq<char>,
) -> Seq<char> {
    "["@ + first + "]["@ + second + "]xfade=transition=fade:duration="@ + length + ":offset="@
        + offset + "["@ + out + "]"@
}

/// Length of the joined picture of clips `0..index`, for `index >= 1`: the
/// first clip in full, and of each later clip what is left of it after the
/// crossfade that leads into it, never less than nothing.
pub open spec fn timeline_before(clips: Seq<VideoClipView>, crossfade: nat, index: nat) -> nat
    decreases index,
{
    if index == 0 {
        0
    } else if index == 1 {
        clips[0].duration
    } else {
        timeline_before(clips, crossfade, (index - 1) as nat) + floored_sub(
            clips[index - 1].duration,
            crossfade,
        )
    }
}

/// Where in the joined picture the fade into clip `index` begins: one
/// crossfade before the end of what precedes the clip, never before zero.
pub open spec fn transition_offset(clips: Seq<VideoClipView>, crossfade: nat, index: nat) -> nat {
    floored_sub(timeline_before(clips, crossfade, index), crossfade)
}

/// The normalization nodes of the first `count` clips: for each clip its
/// format node, then its pass-through node.
pub open spec fn input_nodes(count: nat) -> Seq<Seq<char>> {
    Seq::new(
        2 * count,
        |k: int|
            if k % 2 == 0 {
                format_node((k / 2) as nat)
            } else {
                passthrough_node((k / 2) as nat)
            },
    )
}

/// The node that fades the joined picture into clip `index`.
pub open spec fn picture_transition(clips: Seq<VideoClipView>, crossfade: nat, index: nat) -> Seq<
    char,
> {
    video_crossfade_node(
        joined_video_tag((index - 1) as nat),
        clip_video_tag(index),
        decimal_text(crossfade, 6),
        decimal_text(transition_offset(clips, crossfade, index), 6),
        joined_video_tag(index),
    )
}

/// The node that fades the joined sound into clip `index`'s sound.
pub open spec fn sound_transition(crossfade: nat, index: nat) -> Seq<char> {
    audio_crossfade_node(
        joined_audio_tag((index - 1) as nat),
        clip_audio_tag(index),
        decimal_text(crossfade, 6),
        joined_audio_tag(index),
    )
}

/// The transition nodes into clips `1..=count`: for each clip the picture
/// transition, then the sound transition.
pub open spec fn transition_nodes(clips: Seq<VideoClipView>, crossfade: nat, count: nat) -> Seq<
    Seq<char>,
> {
    Seq::new(
        2 * count,
        |k: int|
            if k % 2 == 0 {
                picture_transition(clips, crossfade, (k / 2 + 1) as nat)
            } else {
                sound_transition(crossfade, (k / 2 + 1) as nat)
            },
    )
}

/// The nodes of the video branch: normalization of every clip, then the
/// transitions that fold the clips left to right.
pub open spec fn video_nodes(clips: Seq<VideoClipView>, crossfade: nat) -> Seq<Seq<char>> {
    input_nodes(clips.len()) + transition_nodes(clips, crossfade, floored_sub(clips.len(), 1))
}

/// The video branch as text.
pub open spec fn video_graph(clips: Seq<VideoClipView>, crossfade: nat) -> Seq<char> {
    join_texts(video_nodes(clips, crossfade), ";"@)
}

/// The bracketed tag of the finished picture; empty where there is no clip.
pub open spec fn video_terminal(clips: Seq<VideoClipView>) -> Seq<char> {
    if clips.len() == 0 {
        Seq::empty()
    } else {
        "["@ + joined_video_tag((clips.len() - 1) as nat) + "]"@
    }
}

/// The bracketed tag of the clips' joined sound; empty where there is no
/// clip.
pub open spec fn video_audio_terminal(clips: Seq<VideoClipView>) -> Seq<char> {
    if clips.len() == 0 {
        Seq::empty()
    } else {
        "["@ + joined_audio_tag((clips.len() - 1) as nat) + "]"@
    }
}

fn clip_video_tag_string(index: usize) -> (tag: String)
    ensures
        tag@ == clip_video_tag(index as nat),
{
    let mut tag = String::from_str("v");
    append_nat(&mut tag, index as u128);
    tag
}

fn clip_audio_tag_string(index: usize) -> (tag: String)
    ensures
        tag@ == clip_audio_tag(index as nat),
{
    let mut tag = String::from_str("va");
    append_nat(&mut tag, index as u128);
    tag
}

fn joined_video_tag_string(index: usize) -> (tag: String)
    ensures
        tag@ == joined_video_tag(index as nat),
{
    if index == 0 {
        clip_video_tag_string(0)
    } else {
        let mut tag = String::from_str("vx");
        append_nat(&mut tag, index as u128);
        tag
    }
}

fn joined_audio_tag_string(index: usize) -> (tag: String)
    ensures
        tag@ == joined_audio_tag(index as nat),
{
    if index == 0 {
        clip_audio_tag_string(0)
    } else {
        let mut tag = String::from_str("vax");
        append_nat(&mut tag, index as u128);
        tag
    }
}

fn format_node_string(index: usize) -> (node: String)
    ensures
        node@ == format_node(index as nat),
{
    let mut node = String::from_str("[");
    append_nat(&mut node, index as u128);
    node.append(":v]format=yuv420p,setsar=1[");
    node.append(clip_video_tag_string(index).as_str());
    node.append("]");
    node
}

fn passthrough_node_string(index: usize) -> (node: String)
    ensures
        node@ == passthrough_node(index as nat),
{
    let mut node = String::from_str("[");
    append_nat(&mut node, index as u128);
    node.append(":a]anull[");
    node.append(clip_audio_tag_string(index).as_str());
    node.append("]");
    node
}

fn video_crossfade_string(first: &str, second: &str, length: &str, offset: &str, out: &str) -> (node:
    String)
    ensures
        node@ == video_crossfade_node(first@, second@, length@, offset@, out@),
{
    let mut node = String::from_str("[");
    node.append(first);
    node.append("][");
    node.append(second);
    node.append("]xfade=transition=fade:duration=");
    node.append(length);
    node.append(":offset=");
    node.append(offset);
    node.append("[");
    node.append(out);
    node.append("]");
    node
}

/// Builds the video branch for `clips` with crossfades of
/// `crossfade_duration` microseconds.
///
/// Returns the graph text, the bracketed tag of the finished picture and the
/// bracketed tag of the clips' joined sound. One clip needs no transition.
/// More clips are folded left to right; the fade into each clip starts one
/// crossfade before the end of what has been joined so far. Without clips
/// the graph and both tags are empty.
pub fn build_video_crossfade_filter(clips: &[VideoClip], crossfade_duration: u64) -> (branch: (
    String,
    String,
    String,
))
    ensures
        branch.0@ == video_graph(clip_views(clips@), crossfade_duration as nat),
        branch.1@ == video_terminal(clip_views(clips@)),
        branch.2@ == video_audio_terminal(clip_views(clips@)),
{
    let ghost views = clip_views(clips@);
    let ghost crossfade = crossfade_duration as nat;
    let n: usize = clips.len();
    let mut parts: Vec<String> = Vec::new();
    let mut i: usize = 0;
    proof {
        assert(texts(parts@) =~= input_nodes(0));
    }
    while i < n
        invariant
            i <= n == clips@.len(),
            texts(parts@) == input_nodes(i as nat),
        decreases n - i,
    {
        let picture = format_node_string(i);
        let sound = passthrough_node_string(i);
        proof {
            lemma_texts_push(parts@, picture);
            lemma_texts_push(parts@.push(picture), sound);
            assert(input_nodes((i + 1) as nat) =~= input_nodes(i as nat).push(picture@).push(
                sound@,
            ));
        }
        parts.push(picture);
        parts.push(sound);
        i = i + 1;
    }
    if n == 0 {
        return (join(&parts, ";"), String::new(), String::new());
    }
    let length = decimal_to_string(crossfade_duration as u128, 6);
    let ghost inputs = input_nodes(n as nat);
    let mut joined: u128 = clips[0].duration as u128;
    let mut j: usize = 1;
    proof {
        assert(texts(parts@) =~= inputs + transition_nodes(views, crossfade, 0));
    }
    while j < n
        invariant
            1 <= j <= n == clips@.len(),
            views == clip_views(clips@),
            crossfade == crossfade_duration as nat,
            length@ == decimal_text(crossfade, 6),
            joined == timeline_before(views, crossfade, j as nat),
            joined <= j * 0xFFFF_FFFF_FFFF_FFFF,
            texts(parts@) == inputs + transition_nodes(views, crossfade, (j - 1) as nat),
        decreases n - j,
    {
        let offset: u128 = if joined > crossfade_duration as u128 {
            joined - crossfade_duration as u128
        } else {
            0
        };
        let picture = video_crossfade_string(
            joined_video_tag_string(j - 1).as_str(),
            clip_video_tag_string(j).as_str(),
            length.as_str(),
            decimal_to_string(offset, 6).as_str(),
            joined_video_tag_string(j).as_str(),
        );
        let sound = audio_crossfade_string(
            joined_audio_tag_string(j - 1).as_str(),
            clip_audio_tag_string(j).as_str(),
            length.as_str(),
            joined_audio_tag_string(j).as_str(),
        );
        proof {
            assert(picture@ == picture_transition(views, crossfade, j as nat));
            assert(sound@ == sound_transition(crossfade, j as nat));
            lemma_texts_push(parts@, picture);
            lemma_texts_push(parts@.push(picture), sound);
            assert(inputs + transition_nodes(views, crossfade, j as nat) =~= (inputs
                + transition_nodes(views, crossfade, (j - 1) as nat)).push(picture@).push(sound@));
        }
        parts.push(picture);
        parts.push(sound);
        let duration: u64 = clips[j].duration;
        joined = joined + if duration > crossfade_duration {
            (duration - crossfade_duration) as u128
        } else {
            0
        };
        j = j + 1;
    }
    (
        join(&parts, ";"),
        bracketed(joined_video_tag_string(n - 1).as_str()),
        bracketed(joined_audio_tag_string(n - 1).as_str()),
    )
}

/// The tracks that go into the export: the active tracks, or none where the
/// project leaves music out.
pub open spec fn music_tracks(project: ProjectView) -> Seq<AudioTrackView> {
    if project.settings.include_music {
        project.active_tracks()
    } else {
        Seq::empty()
    }
}

/// The node that scales the clips' joined sound by the project's video
/// volume. The setting runs from 0 to 100; the engine takes 0 to 1.
pub open spec fn video_volume_node(source: Seq<char>, volume: nat) -> Seq<char> {
    source + "volume="@ + decimal_text(volume, 8) + "[va]"@
}

/// The node that cuts the music off after `duration` microseconds.
pub open spec fn music_trim_node(source: Seq<char>, duration: nat) -> Seq<char> {
    source + "atrim=duration="@ + decimal_text(duration, 6) + "[mus]"@
}

/// The node that mixes the clips' sound with the music. The mix lasts as
/// long as the longer of the two and does not fade when one of them ends.
pub open spec fn final_mix_node(music: Seq<char>) -> Seq<char> {
    "[va]"@ + music + "amix=inputs=2:duration=longest:dropout_transition=0[aout]"@
}

/// The nodes of the music branch: the audio branch of the exported tracks
/// and, where the music is to end with the video, the node that cuts it to
/// the video's length. Nothing where no track is exported.
pub open spec fn music_nodes(project: ProjectView) -> Seq<Seq<char>> {
    let tracks = music_tracks(project);
    if tracks.len() == 0 {
        Seq::empty()
    } else {
        let branch = audio_graph(
            tracks,
            project.settings.audio_crossfade,
            project.videos.len(),
        );
        if project.settings.cut_music_at_end {
            seq![branch, music_trim_node(audio_terminal(tracks), project.video_duration())]
        } else {
            seq![branch]
        }
    }
}

/// The bracketed tag of the music branch's last node; empty where no track
/// is exported.
pub open spec fn music_output(project: ProjectView) -> Seq<char> {
    let tracks = music_tracks(project);
    if tracks.len() == 0 {
        Seq::empty()
    } else if project.settings.cut_music_at_end {
        "[mus]"@
    } else {
        audio_terminal(tracks)
    }
}

/// Whether the export mixes the clips' sound with music.
pub open spec fn mixes_both(project: ProjectView) -> bool {
    project.settings.include_video_audio && music_tracks(project).len() > 0
}

/// Every node of the project's filter graph, in order: the video branch, the
/// video volume node, the music branch, and the final mix where both the
/// clips' sound and music are exported.
pub open spec fn filter_nodes(project: ProjectView) -> Seq<Seq<char>> {
    seq![
        video_graph(project.videos, project.settings.video_crossfade),
        video_volume_node(video_audio_terminal(project.videos), project.settings.video_volume),
    ] + music_nodes(project) + (if mixes_both(project) {
        seq![final_mix_node(music_output(project))]
    } else {
        Seq::empty()
    })
}

/// The tag of the audio stream to export: the final mix where there are two
/// sources, the one source where there is one, and the empty text where the
/// export has no sound.
pub open spec fn audio_output(project: ProjectView) -> Seq<char> {
    if mixes_both(project) {
        "[aout]"@
    } else if project.settings.include_video_audio {
        "[va]"@
    } else {
        music_output(project)
    }
}

/// A filter graph and the tags of the two streams to export from it.
#[derive(Debug, Clone)]
pub struct FilterGraph {
    pub description: String,
    pub video_output: String,
    pub audio_output: String,
}

/// What a [`FilterGraph`] holds, as mathematical values.
pub struct FilterGraphView {
    pub description: Seq<char>,
    pub video_output: Seq<char>,
    pub audio_output: Seq<char>,
}

impl View for FilterGraph {
    type V = FilterGraphView;

    open spec fn view(&self) -> FilterGraphView {
        FilterGraphView {
            description: self.description@,
            video_output: self.video_output@,
            audio_output: self.audio_output@,
        }
    }
}

/// The filter graph of a project.
pub open spec fn filter_graph(project: ProjectView) -> FilterGraphView {
    FilterGraphView {
        description: join_texts(filter_nodes(project), ";"@),
        video_output: video_terminal(project.videos),
        audio_output: audio_output(project),
    }
}

/// The tracks that go into the export of `project`, in timeline order.
pub fn exported_tracks(project: &Project) -> (tracks: Vec<&AudioTrack>)
    ensures
        track_ref_views(tracks@) == music_tracks(project@),
{
    if project.settings.include_music {
        project.get_active_tracks()
    } else {
        let tracks: Vec<&AudioTrack> = Vec::new();
        proof {
            assert(track_ref_views(tracks@) =~= Seq::empty());
        }
        tracks
    }
}

/// Builds the filter graph of `project` for the given exported tracks.
pub(crate) fn filter_graph_with(project: &Project, tracks: &[&AudioTrack]) -> (graph: FilterGraph)
    requires
        track_ref_views(tracks@) == music_tracks(project@),
    ensures
        graph@ == filter_graph(project@),
{
    let settings = &project.settings;
    let (video, video_output, video_sound) = build_video_crossfade_filter(
        project.videos.as_slice(),
        settings.video_crossfade,
    );
    let mut parts: Vec<String> = Vec::new();
    proof {
        lemma_texts_push(parts@, video);
    }
    parts.push(video);
    let mut volume = video_sound;
    volume.append("volume=");
    append_decimal(&mut volume, settings.video_volume as u128, 8);
    volume.append("[va]");
    proof {
        lemma_texts_push(parts@, volume);
    }
    parts.push(volume);
    let mut music = String::new();
    let has_music: bool = tracks.len() > 0;
    if has_music {
        let (branch, terminal) = build_audio_crossfade_filter(
            tracks,
            settings.audio_crossfade,
            project.videos.len(),
        );
        proof {
            lemma_texts_push(parts@, branch);
        }
        parts.push(branch);
        music = terminal;
        if settings.cut_music_at_end {
            let mut trim = music;
            trim.append("atrim=duration=");
            append_decimal(&mut trim, project.get_video_duration(), 6);
            trim.append("[mus]");
            proof {
                lemma_texts_push(parts@, trim);
            }
            parts.push(trim);
            music = String::from_str("[mus]");
        }
    }
    proof {
        assert(music@ =~= music_output(project@));
    }
    let audio_output = if settings.include_video_audio && has_music {
        let mut mix = String::from_str("[va]");
        mix.append(music.as_str());
        mix.append("amix=inputs=2:duration=longest:dropout_transition=0[aout]");
        proof {
            lemma_texts_push(parts@, mix);
        }
        parts.push(mix);
        String::from_str("[aout]")
    } else if settings.include_video_audio {
        String::from_str("[va]")
    } else {
        music
    };
    proof {
        assert(texts(parts@) =~= filter_nodes(project@));
    }
    FilterGraph { description: join(&parts, ";"), video_output, audio_output }
}

/// Builds the filter graph of `project`: its description and the tags of
/// the video and audio streams to export. The audio tag is empty where the
/// export has no sound.
pub fn build_filter_graph(project: &Project) -> (graph: FilterGraph)
    ensures
        graph@ == filter_graph(project@),
{
    let tracks = exported_tracks(project);
    filter_graph_with(project, tracks.as_slice())
}

/// Without clips and without tracks the video has no length and the graph
/// has no music branch: it holds the empty video branch and the video volume
/// node, and nothing else.
pub proof fn lemma_empty_timeline(project: ProjectView)
    requires
        project.videos.len() == 0,
        project.audio_tracks.len() == 0,
    ensures
        project.video_duration() == 0,
        project.active_tracks().len() == 0,
        music_nodes(project).len() == 0,
        music_output(project).len() == 0,
        filter_nodes(project) == seq![
            Seq::<char>::empty(),
            video_volume_node(Seq::empty(), project.settings.video_volume),
        ],
{
    reveal(Seq::filter);
    assert(input_nodes(0) =~= Seq::empty());
    assert(transition_nodes(project.videos, project.settings.video_crossfade, 0) =~= Seq::empty());
    assert(video_nodes(project.videos, project.settings.video_crossfade) =~= Seq::empty());
    assert(filter_nodes(project) =~= seq![
        Seq::<char>::empty(),
        video_volume_node(Seq::empty(), project.settings.video_volume),
    ]);
}

/// Every track and every clip has tags of its own: two tags of one kind
/// with different indices differ.
pub proof fn lemma_tags_unique(i: nat, j: nat)
    requires
        i != j,
    ensures
        track_tag(i) != track_tag(j),
        clip_video_tag(i) != clip_video_tag(j),
        clip_audio_tag(i) != clip_audio_tag(j),
{
    lemma_nat_text_distinct(i, j);
    assert(track_tag(i).skip("ma"@.len() as int) =~= nat_text(i));
    assert(track_tag(j).skip("ma"@.len() as int) =~= nat_text(j));
    assert(clip_video_tag(i).skip("v"@.len() as int) =~= nat_text(i));
    assert(clip_video_tag(j).skip("v"@.len() as int) =~= nat_text(j));
    assert(clip_audio_tag(i).skip("va"@.len() as int) =~= nat_text(i));
    assert(clip_audio_tag(j).skip("va"@.len() as int) =~= nat_text(j));
}

/// Where no clip after the first is shorter than the crossfade, the joined
/// picture of the first `count` clips is as long as the clips together, less
/// one crossfade for each boundary between them.
pub proof fn lemma_timeline_length(clips: Seq<VideoClipView>, crossfade: nat, count: nat)
    requires
        1 <= count <= clips.len(),
        forall|k: int| 1 <= k < count ==> (#[trigger] clips[k]).duration >= crossfade,
    ensures
        timeline_before(clips, crossfade, count) + crossfade * (count - 1)
            == clips_duration(clips.take(count as int)),
    decreases count,
{
    if count == 1 {
        assert(clips.take(1).drop_last() =~= Seq::<VideoClipView>::empty());
        assert(clips.take(1).last() == clips[0]);
        assert(clips_duration(clips.take(1).drop_last()) == 0);
        assert(crossfade * 0 == 0);
    } else {
        lemma_timeline_length(clips, crossfade, (count - 1) as nat);
        assert(clips.take(count as int).drop_last() =~= clips.take(count - 1));
        assert(clips.take(count as int).last() == clips[count - 1]);
        assert(clips[count - 1].duration >= crossfade);
        assert(crossfade * (count - 1) == crossfade * (count - 2) + crossfade)
            by (nonlinear_arith);
    }
}

/// Where no clip after the first is shorter than the crossfade, the timeline
/// that places the transitions ends exactly at the project's video duration:
/// the graph and the duration agree on how long the video is.
pub proof fn lemma_timeline_ends_at_duration(project: ProjectView)
    requires
        project.videos.len() >= 1,
        forall|k: int|
            1 <= k < project.videos.len() ==> (#[trigger] project.videos[k]).duration
                >= project.settings.video_crossfade,
    ensures
        timeline_before(project.videos, project.settings.video_crossfade, project.videos.len())
            == project.video_duration(),
{
    lemma_timeline_length(project.videos, project.settings.video_crossfade, project.videos.len());
    assert(project.videos.take(project.videos.len() as int) =~= project.videos);
}

/// Whatever the clips, a project that exports no track has no music branch
/// in its graph.
pub proof fn lemma_no_music_no_branch(project: ProjectView)
    requires
        music_tracks(project).len() == 0,
    ensures
        filter_nodes(project) == seq![
            video_graph(project.videos, project.settings.video_crossfade),
            video_volume_node(video_audio_terminal(project.videos), project.settings.video_volume),
        ],
        audio_output(project) == (if project.settings.include_video_audio {
            "[va]"@
        } else {
            Seq::empty()
        }),
{
    assert(filter_nodes(project) =~= seq![
        video_graph(project.videos, project.settings.video_crossfade),
        video_volume_node(video_audio_terminal(project.videos), project.settings.video_volume),
    ]);
}

} // verus!
