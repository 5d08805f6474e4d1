//! The timeline: clips, tracks, settings, and what is derived from them.
//!
//! Seconds and gains are held as integer counts of millionths (see
//! [`crate::decimal`]): a `duration` of 2_500_000 is two and a half seconds, a
//! `volume` of 1_000_000 is unity gain. The two volume settings are on a
//! 0 to 100 scale, also in millionths, so full volume is 100_000_000.

use vstd::prelude::*;
use vstd::string::*;
use crate::outside::home_directory;

verus! {

/// Highest gain a track is ever mixed at: 1.1.
pub const MAX_TRACK_VOLUME: u64 = 1_100_000;

/// An audio track laid under the video.
#[derive(Debug, Clone)]
pub struct AudioTrack {
    pub path: String,
    pub volume: u64,
    pub name: String,
    pub duration: u64,
    pub mute: bool,
    pub solo: bool,
}

/// What an [`AudioTrack`] holds, as mathematical values.
pub struct AudioTrackView {
    pub path: Seq<char>,
    pub volume: nat,
    pub name: Seq<char>,
    pub duration: nat,
    pub mute: bool,
    pub solo: bool,
}

impl View for AudioTrack {
    type V = AudioTrackView;

    open spec fn view(&self) -> AudioTrackView {
        AudioTrackView {
            path: self.path@,
            volume: self.volume as nat,
            name: self.name@,
            duration: self.duration as nat,
            mute: self.mute,
            solo: self.solo,
        }
    }
}

impl AudioTrackView {
    /// The gain the track is mixed at: nothing when muted, otherwise the
    /// stored volume capped at 1.1.
    pub open spec fn effective_volume(self) -> nat {
        if self.mute {
            0
        } else if self.volume < MAX_TRACK_VOLUME {
            self.volume
        } else {
            MAX_TRACK_VOLUME as nat
        }
    }

    /// Whether the track is heard under the given selection rule: never when
    /// muted, and when `solo_only`, only if soloed.
    pub open spec fn audible(self, solo_only: bool) -> bool {
        !self.mute && (self.solo || !solo_only)
    }
}

impl AudioTrack {
    /// The gain the track is mixed at.
    pub fn get_effective_volume(&self) -> (volume: u64)
        ensures
            volume == self@.effective_volume(),
            volume <= MAX_TRACK_VOLUME,
            self.mute ==> volume == 0,
    {
        if self.mute {
            0
        } else if self.volume < MAX_TRACK_VOLUME {
            self.volume
        } else {
            MAX_TRACK_VOLUME
        }
    }
}

/// A video clip on the timeline. Its duration is taken as given.
#[derive(Debug, Clone)]
pub struct VideoClip {
    pub path: String,
    pub name: String,
    pub duration: u64,
}

/// What a [`VideoClip`] holds, as mathematical values.
pub struct VideoClipView {
    pub path: Seq<char>,
    pub name: Seq<char>,
    pub duration: nat,
}

impl View for VideoClip {
    type V = VideoClipView;

    open spec fn view(&self) -> VideoClipView {
        VideoClipView { path: self.path@, name: self.name@, duration: self.duration as nat }
    }
}

/// Mixing and compositing settings of a project.
#[derive(Debug, Clone)]
pub struct ProjectSettings {
    pub include_video_audio: bool,
    pub include_music: bool,
    pub audio_crossfade: u64,
    pub video_crossfade: u64,
    pub cut_music_at_end: bool,
    pub video_volume: u64,
    pub music_volume: u64,
    pub use_gpu: bool,
    pub speed_preset: String,
}

/// What a [`ProjectSettings`] holds, as mathematical values.
pub struct ProjectSettingsView {
    pub include_video_audio: bool,
    pub include_music: bool,
    pub audio_crossfade: nat,
    pub video_crossfade: nat,
    pub cut_music_at_end: bool,
    pub video_volume: nat,
    pub music_volume: nat,
    pub use_gpu: bool,
    pub speed_preset: Seq<char>,
}

impl View for ProjectSettings {
    type V = ProjectSettingsView;

    open spec fn view(&self) -> ProjectSettingsView {
        ProjectSettingsView {
            include_video_audio: self.include_video_audio,
            include_music: self.include_music,
            audio_crossfade: self.audio_crossfade as nat,
            video_crossfade: self.video_crossfade as nat,
            cut_music_at_end: self.cut_music_at_end,
            video_volume: self.video_volume as nat,
            music_volume: self.music_volume as nat,
            use_gpu: self.use_gpu,
            speed_preset: self.speed_preset@,
        }
    }
}

/// Default for flags that are on unless switched off.
pub fn default_true() -> (flag: bool)
    ensures
        flag,
{
    true
}

/// Default track volume: unity gain.
pub fn default_volume() -> (volume: u64)
    ensures
        volume == 1_000_000,
{
    1_000_000
}

/// Default audio crossfade: ten seconds.
pub fn default_audio_crossfade() -> (length: u64)
    ensures
        length == 10_000_000,
{
    10_000_000
}

/// Default video crossfade: one second.
pub fn default_video_crossfade() -> (length: u64)
    ensures
        length == 1_000_000,
{
    1_000_000
}

/// Default video volume: 100 on the 0 to 100 scale.
pub fn default_video_volume() -> (volume: u64)
    ensures
        volume == 100_000_000,
{
    100_000_000
}

/// Default music volume: 70 on the 0 to 100 scale.
pub fn default_music_volume() -> (volume: u64)
    ensures
        volume == 70_000_000,
{
    70_000_000
}

/// Default speed preset.
pub fn default_speed_preset() -> (preset: String)
    ensures
        preset@ == "balanced"@,
{
    String::from_str("balanced")
}

impl ProjectSettingsView {
    /// The settings of a new project.
    pub open spec fn initial() -> ProjectSettingsView {
        ProjectSettingsView {
            include_video_audio: true,
            include_music: true,
            audio_crossfade: 10_000_000,
            video_crossfade: 1_000_000,
            cut_music_at_end: false,
            video_volume: 100_000_000,
            music_volume: 70_000_000,
            use_gpu: true,
            speed_preset: "balanced"@,
        }
    }
}

impl Default for ProjectSettings {
    fn default() -> (settings: ProjectSettings)
        ensures
            settings@ == ProjectSettingsView::initial(),
    {
        ProjectSettings {
            include_video_audio: default_true(),
            include_music: default_true(),
            audio_crossfade: default_audio_crossfade(),
            video_crossfade: default_video_crossfade(),
            cut_music_at_end: false,
            video_volume: default_video_volume(),
            music_volume: default_music_volume(),
            use_gpu: default_true(),
            speed_preset: default_speed_preset(),
        }
    }
}

/// A timeline: clips in playing order, tracks in mixing order, settings.
#[derive(Debug, Clone)]
pub struct Project {
    pub videos: Vec<VideoClip>,
    pub audio_tracks: Vec<AudioTrack>,
    pub settings: ProjectSettings,
}

/// What a [`Project`] holds, as mathematical values.
pub struct ProjectView {
    pub videos: Seq<VideoClipView>,
    pub audio_tracks: Seq<AudioTrackView>,
    pub settings: ProjectSettingsView,
}

/// The views of a sequence of clips.
pub open spec fn clip_views(clips: Seq<VideoClip>) -> Seq<VideoClipView> {
    Seq::new(clips.len(), |i: int| clips[i]@)
}

/// The views of a sequence of tracks.
pub open spec fn track_views(tracks: Seq<AudioTrack>) -> Seq<AudioTrackView> {
    Seq::new(tracks.len(), |i: int| tracks[i]@)
}

/// The views of a sequence of borrowed tracks.
pub open spec fn track_ref_views(tracks: Seq<&AudioTrack>) -> Seq<AudioTrackView> {
    Seq::new(tracks.len(), |i: int| tracks[i]@)
}

impl View for Project {
    type V = ProjectView;

    open spec fn view(&self) -> ProjectView {
        ProjectView {
            videos: clip_views(self.videos@),
            audio_tracks: track_views(self.audio_tracks@),
            settings: self.settings@,
        }
    }
}

/// `a - b`, or zero where that would be negative.
pub open spec fn floored_sub(a: nat, b: nat) -> nat {
    if a > b {
        (a - b) as nat
    } else {
        0
    }
}

impl AudioTrackView {
    /// Whether the track is soloed and can be heard: a muted track's solo
    /// flag counts for nothing.
    pub open spec fn heard_solo(self) -> bool {
        self.solo && !self.mute
    }
}

/// Whether some track is soloed and not muted.
pub open spec fn has_solo(tracks: Seq<AudioTrackView>) -> bool {
    exists|i: int| 0 <= i < tracks.len() && (#[trigger] tracks[i]).heard_solo()
}

/// The tracks that take part in the mix, in timeline order: if some track
/// is soloed and not muted, the soloed tracks that are not muted; otherwise
/// every track that is not muted.
pub open spec fn active_tracks(tracks: Seq<AudioTrackView>) -> Seq<AudioTrackView> {
    let solo_only = has_solo(tracks);
    tracks.filter(|t: AudioTrackView| t.audible(solo_only))
}

/// Sum of the clips' durations.
pub open spec fn clips_duration(clips: Seq<VideoClipView>) -> nat
    decreases clips.len(),
{
    if clips.len() == 0 {
        0
    } else {
        clips_duration(clips.drop_last()) + clips.last().duration
    }
}

/// Sum of the tracks' durations.
pub open spec fn tracks_duration(tracks: Seq<AudioTrackView>) -> nat
    decreases tracks.len(),
{
    if tracks.len() == 0 {
        0
    } else {
        tracks_duration(tracks.drop_last()) + tracks.last().duration
    }
}

impl ProjectView {
    /// A project with nothing on the timeline and the initial settings.
    pub open spec fn initial() -> ProjectView {
        ProjectView {
            videos: Seq::empty(),
            audio_tracks: Seq::empty(),
            settings: ProjectSettingsView::initial(),
        }
    }

    /// The tracks that take part in the mix.
    pub open spec fn active_tracks(self) -> Seq<AudioTrackView> {
        active_tracks(self.audio_tracks)
    }

    /// Length of the finished video: the clips' durations added up, less one
    /// video crossfade for each boundary between two clips, never below zero.
    pub open spec fn video_duration(self) -> nat {
        let boundaries = floored_sub(self.videos.len(), 1);
        floored_sub(clips_duration(self.videos), self.settings.video_crossfade * boundaries)
    }

    /// Sum of the active tracks' durations.
    pub open spec fn music_duration(self) -> nat {
        tracks_duration(self.active_tracks())
    }
}

/// The length of the finished video, spelled out: nothing without clips;
/// with clips, their durations added up less one crossfade per boundary,
/// or nothing where the crossfades would take more than there is.
pub proof fn lemma_video_duration(project: ProjectView)
    ensures
        project.videos.len() == 0 ==> project.video_duration() == 0,
        project.videos.len() == 1 ==> project.video_duration() == project.videos[0].duration,
        project.videos.len() >= 1 ==> project.video_duration() == (if clips_duration(
            project.videos,
        ) - project.settings.video_crossfade * (project.videos.len() - 1) > 0 {
            clips_duration(project.videos) - project.settings.video_crossfade * (
            project.videos.len() - 1)
        } else {
            0
        }),
{
    if project.videos.len() == 0 {
        assert(project.settings.video_crossfade * 0 == 0);
    }
    if project.videos.len() == 1 {
        assert(project.settings.video_crossfade * 1 == project.settings.video_crossfade);
        assert(project.videos.drop_last() =~= Seq::<VideoClipView>::empty());
        assert(clips_duration(project.videos.drop_last()) == 0);
        assert(project.videos.last() == project.videos[0]);
        assert(floored_sub(1, 1) == 0);
        assert(project.settings.video_crossfade * 0 == 0);
    }
}

impl Default for Project {
    fn default() -> (project: Project)
        ensures
            project@ == ProjectView::initial(),
    {
        let project = Project {
            videos: Vec::new(),
            audio_tracks: Vec::new(),
            settings: ProjectSettings::default(),
        };
        proof {
            assert(project@.videos =~= Seq::empty());
            assert(project@.audio_tracks =~= Seq::empty());
        }
        project
    }
}

impl Project {
    /// The tracks that take part in the mix, in timeline order.
    pub fn get_active_tracks(&self) -> (active: Vec<&AudioTrack>)
        ensures
            track_ref_views(active@) == self@.active_tracks(),
    {
        let ghost all = self@.audio_tracks;
        let count: usize = self.audio_tracks.len();
        let mut solo_only = false;
        let mut i: usize = 0;
        while i < count
            invariant
                i <= count == self.audio_tracks@.len(),
                all == track_views(self.audio_tracks@),
                solo_only == has_solo(all.take(i as int)),
            decreases count - i,
        {
            if self.audio_tracks[i].solo && !self.audio_tracks[i].mute {
                solo_only = true;
                assert(all.take(i + 1)[i as int].heard_solo());
            } else {
                proof {
                    if has_solo(all.take(i + 1)) {
                        let j = choose|j: int|
                            0 <= j < all.take(i + 1).len() && (#[trigger] all.take(
                                i + 1,
                            )[j]).heard_solo();
                        assert(all.take(i as int)[j].heard_solo());
                    } else if has_solo(all.take(i as int)) {
                        let j = choose|j: int|
                            0 <= j < all.take(i as int).len() && (#[trigger] all.take(
                                i as int,
                            )[j]).heard_solo();
                        assert(all.take(i + 1)[j].heard_solo());
                    }
                }
            }
            i = i + 1;
        }
        proof {
            assert(all.take(count as int) =~= all);
        }
        let ghost keep = |t: AudioTrackView| t.audible(solo_only);
        let mut active: Vec<&AudioTrack> = Vec::new();
        let mut k: usize = 0;
        proof {
            reveal(Seq::filter);
            assert(track_ref_views(active@) =~= all.take(0).filter(keep));
        }
        while k < count
            invariant
                k <= count == self.audio_tracks@.len(),
                all == track_views(self.audio_tracks@),
                keep == |t: AudioTrackView| t.audible(solo_only),
                track_ref_views(active@) == all.take(k as int).filter(keep),
            decreases count - k,
        {
            let track = &self.audio_tracks[k];
            proof {
                reveal(Seq::filter);
                assert(all.take(k + 1).drop_last() =~= all.take(k as int));
                assert(all.take(k + 1).last() == track@);
            }
            if !track.mute && (track.solo || !solo_only) {
                let ghost before = active@;
                active.push(track);
                proof {
                    assert(track_ref_views(active@) =~= track_ref_views(before).push(track@));
                }
            }
            k = k + 1;
        }
        proof {
            assert(all.take(count as int) =~= all);
        }
        active
    }

    /// Length of the finished video, in microseconds.
    pub fn get_video_duration(&self) -> (duration: u128)
        ensures
            duration == self@.video_duration(),
    {
        let ghost clips = self@.videos;
        let count: usize = self.videos.len();
        let mut sum: u128 = 0;
        let mut i: usize = 0;
        while i < count
            invariant
                i <= count == self.videos@.len(),
                clips == clip_views(self.videos@),
                sum == clips_duration(clips.take(i as int)),
                sum <= i * 0xFFFF_FFFF_FFFF_FFFF,
            decreases count - i,
        {
            proof {
                assert(clips.take(i + 1).drop_last() =~= clips.take(i as int));
                assert(clips.take(i + 1).last() == self.videos@[i as int]@);
            }
            sum = sum + self.videos[i].duration as u128;
            i = i + 1;
        }
        proof {
            assert(clips.take(count as int) =~= clips);
        }
        if count == 0 {
            return 0;
        }
        let boundaries: u128 = (count - 1) as u128;
        proof {
            assert(self.settings.video_crossfade as int * boundaries as int
                <= 0xFFFF_FFFF_FFFF_FFFF * 0xFFFF_FFFF_FFFF_FFFF) by (nonlinear_arith)
                requires
                    self.settings.video_crossfade <= 0xFFFF_FFFF_FFFF_FFFF,
                    boundaries <= 0xFFFF_FFFF_FFFF_FFFF,
            ;
        }
        let overlap: u128 = self.settings.video_crossfade as u128 * boundaries;
        if sum > overlap {
            sum - overlap
        } else {
            0
        }
    }

    /// Sum of the active tracks' durations, in microseconds.
    pub fn get_music_duration(&self) -> (duration: u128)
        ensures
            duration == self@.music_duration(),
    {
        let active = self.get_active_tracks();
        let ghost views = track_ref_views(active@);
        let count: usize = active.len();
        let mut sum: u128 = 0;
        let mut i: usize = 0;
        while i < count
            invariant
                i <= count == active@.len(),
                views == track_ref_views(active@),
                sum == tracks_duration(views.take(i as int)),
                sum <= i * 0xFFFF_FFFF_FFFF_FFFF,
            decreases count - i,
        {
            proof {
                assert(views.take(i + 1).drop_last() =~= views.take(i as int));
                assert(views.take(i + 1).last() == active@[i as int]@);
            }
            sum = sum + active[i].duration as u128;
            i = i + 1;
        }
        proof {
            assert(views.take(count as int) =~= views);
        }
        sum
    }
}

/// Application defaults kept between sessions.
#[derive(Debug, Clone)]
pub struct Config {
    pub last_directory: String,
    pub theme: String,
    pub window_width: i32,
    pub window_height: i32,
    pub audio_crossfade: u64,
    pub video_crossfade: u64,
    pub music_volume: u64,
    pub video_volume: u64,
    pub use_gpu: bool,
    pub speed_preset: String,
}

/// What a [`Config`] holds, as mathematical values.
pub struct ConfigView {
    pub last_directory: Seq<char>,
    pub theme: Seq<char>,
    pub window_width: int,
    pub window_height: int,
    pub audio_crossfade: nat,
    pub video_crossfade: nat,
    pub music_volume: nat,
    pub video_volume: nat,
    pub use_gpu: bool,
    pub speed_preset: Seq<char>,
}

impl View for Config {
    type V = ConfigView;

    open spec fn view(&self) -> ConfigView {
        ConfigView {
            last_directory: self.last_directory@,
            theme: self.theme@,
            window_width: self.window_width as int,
            window_height: self.window_height as int,
            audio_crossfade: self.audio_crossfade as nat,
            video_crossfade: self.video_crossfade as nat,
            music_volume: self.music_volume as nat,
            video_volume: self.video_volume as nat,
            use_gpu: self.use_gpu,
            speed_preset: self.speed_preset@,
        }
    }
}

impl ConfigView {
    /// The built-in configuration for a user whose files were last opened
    /// in `last_directory`.
    pub open spec fn initial(last_directory: Seq<char>) -> ConfigView {
        ConfigView {
            last_directory,
            theme: "modern"@,
            window_width: 1100,
            window_height: 700,
            audio_crossfade: 10_000_000,
            video_crossfade: 1_000_000,
            music_volume: 70_000_000,
            video_volume: 100_000_000,
            use_gpu: true,
            speed_preset: "balanced"@,
        }
    }
}

/// The directory that file dialogs open in, given the home directory as the
/// system reports it: the home directory itself, or the empty path where
/// there is none.
pub fn directory_or_empty(home: Option<String>) -> (directory: String)
    ensures
        directory@ == (match home {
            Some(path) => path@,
            None => Seq::<char>::empty(),
        }),
{
    match home {
        Some(path) => path,
        None => String::new(),
    }
}

/// Default directory for file dialogs: the user's home directory, or the
/// empty path when it cannot be determined.
///
/// Which directory that is depends on the host, so nothing is promised of
/// the result here; [`directory_or_empty`] says what is made of each answer
/// of the system.
pub fn default_last_directory() -> (directory: String) {
    directory_or_empty(home_directory())
}

/// Default theme.
pub fn default_theme() -> (theme: String)
    ensures
        theme@ == "modern"@,
{
    String::from_str("modern")
}

/// Default window width in pixels.
pub fn default_window_width() -> (width: i32)
    ensures
        width == 1100,
{
    1100
}

/// Default window height in pixels.
pub fn default_window_height() -> (height: i32)
    ensures
        height == 700,
{
    700
}

impl Config {
    /// The built-in configuration with the given directory for file dialogs.
    pub fn with_last_directory(last_directory: String) -> (config: Config)
        ensures
            config@ == ConfigView::initial(last_directory@),
    {
        Config {
            last_directory,
            theme: default_theme(),
            window_width: default_window_width(),
            window_height: default_window_height(),
            audio_crossfade: default_audio_crossfade(),
            video_crossfade: default_video_crossfade(),
            music_volume: default_music_volume(),
            video_volume: default_video_volume(),
            use_gpu: default_true(),
            speed_preset: default_speed_preset(),
        }
    }
}

impl Default for Config {
    /// The built-in configuration. The directory for file dialogs is the
    /// user's home directory as the system reports it; every other field is
    /// fixed.
    fn default() -> (config: Config)
        ensures
            config@ == ConfigView::initial(config@.last_directory),
    {
        Config::with_last_directory(default_last_directory())
    }
}

} // verus!
