//! What the host can do and what is known about media files: hardware
//! encoder detection and file durations, both remembered once found.
//!
//! Nothing here runs a process or touches a file. Each lookup is a short
//! exchange: a method says what to run next, the caller runs it and hands
//! the outcome to the next method.

use std::collections::HashMap;
use vstd::prelude::*;
use vstd::string::*;
use crate::decimal::{parse_seconds, seconds_micros};
use crate::encoders::{GpuFamily, CANDIDATE_COUNT};
use crate::outside::{json_text_fields, read_json_fields};
use crate::text::{
    chars_equal, chars_of, contains, occurs_in, push_text, str_equals, texts, trim, trimmed,
};

verus! {

/// Whether a hardware encoder is available, and which.
#[derive(Debug, Clone)]
pub struct GpuInfo {
    pub available: bool,
    pub gpu_type: Option<String>,
    pub encoder: Option<String>,
}

/// Which of the external tools are installed.
#[derive(Debug, Clone, Copy, PartialEq, Eq, Structural)]
pub struct Dependencies {
    pub has_ffmpeg: bool,
    pub has_ffprobe: bool,
    pub has_ffplay: bool,
}

/// A detection that has the engine's encoder list and is waiting for the
/// outcome of one family's trial encode.
#[derive(Debug, Clone)]
pub struct GpuProbe {
    listing: Vec<char>,
    family: GpuFamily,
}

/// What a [`GpuProbe`] holds, as mathematical values.
pub struct GpuProbeView {
    pub listing: Seq<char>,
    pub family: GpuFamily,
}

impl View for GpuProbe {
    type V = GpuProbeView;

    closed spec fn view(&self) -> GpuProbeView {
        GpuProbeView { listing: self.listing@, family: self.family }
    }
}

/// What the caller of a detection does next.
#[derive(Debug, Clone)]
pub enum DetectionStep {
    /// Nothing: detection is over with this result.
    Resolved(Option<GpuFamily>),
    /// Run [`list_encoders_command`] and hand its output to
    /// [`FFmpegProcessor::encoders_listed`].
    ListEncoders,
    /// Run the probe's command and hand its outcome to
    /// [`FFmpegProcessor::encoder_tested`].
    TestEncoder(GpuProbe),
}

/// What a [`DetectionStep`] holds, as mathematical values.
pub enum DetectionStepView {
    Resolved(Option<GpuFamily>),
    ListEncoders,
    TestEncoder(GpuProbeView),
}

impl View for DetectionStep {
    type V = DetectionStepView;

    open spec fn view(&self) -> DetectionStepView {
        match self {
            DetectionStep::Resolved(family) => DetectionStepView::Resolved(*family),
            DetectionStep::ListEncoders => DetectionStepView::ListEncoders,
            DetectionStep::TestEncoder(probe) => DetectionStepView::TestEncoder(probe@),
        }
    }
}

/// The first family, in detection order from place `from` on, whose encoder
/// the engine lists.
pub open spec fn first_listed(listing: Seq<char>, from: nat) -> Option<GpuFamily>
    decreases CANDIDATE_COUNT - from,
{
    match GpuFamily::candidate_at(from as int) {
        None => None,
        Some(family) => if occurs_in(listing, family.encoder_text()) {
            Some(family)
        } else {
            first_listed(listing, from + 1)
        },
    }
}

/// The step that tries the first listed family from place `from` on, or
/// ends the detection without a result where none is left.
pub open spec fn trial_from(listing: Seq<char>, from: nat) -> DetectionStepView {
    match first_listed(listing, from) {
        Some(family) => DetectionStepView::TestEncoder(GpuProbeView { listing, family }),
        None => DetectionStepView::Resolved(None),
    }
}

/// The first family, in detection order from place `from` on, whose encoder
/// the engine lists and whose trial encode succeeds, where `works` says
/// which trials succeed.
pub open spec fn first_working(
    listing: Seq<char>,
    works: spec_fn(GpuFamily) -> bool,
    from: nat,
) -> Option<GpuFamily>
    decreases CANDIDATE_COUNT - from,
{
    match GpuFamily::candidate_at(from as int) {
        None => None,
        Some(family) => if occurs_in(listing, family.encoder_text()) && works(family) {
            Some(family)
        } else {
            first_working(listing, works, from + 1)
        },
    }
}

/// The number of families that can still be tried at a step.
pub open spec fn trials_left(step: DetectionStepView) -> nat {
    match step {
        DetectionStepView::TestEncoder(probe) => (CANDIDATE_COUNT - probe.family.rank_of()) as nat,
        _ => 0,
    }
}

/// Where a detection that stands at `step` ends when every step is taken
/// and `works` says which trials succeed.
pub open spec fn detection_outcome(
    step: DetectionStepView,
    works: spec_fn(GpuFamily) -> bool,
) -> Option<GpuFamily>
    decreases trials_left(step),
    via detection_outcome_decreases
{
    match step {
        DetectionStepView::Resolved(result) => result,
        DetectionStepView::ListEncoders => None,
        DetectionStepView::TestEncoder(probe) => if works(probe.family) {
            Some(probe.family)
        } else {
            detection_outcome(trial_from(probe.listing, probe.family.rank_of() + 1), works)
        },
    }
}

#[via_fn]
proof fn detection_outcome_decreases(step: DetectionStepView, works: spec_fn(GpuFamily) -> bool) {
    match step {
        DetectionStepView::TestEncoder(probe) => {
            lemma_first_listed_place(probe.listing, probe.family.rank_of() + 1);
        },
        _ => {},
    }
}

/// A family found from place `from` on stands at that place or later.
pub proof fn lemma_first_listed_place(listing: Seq<char>, from: nat)
    ensures
        first_listed(listing, from) matches Some(family) ==> from <= family.rank_of()
            < CANDIDATE_COUNT && occurs_in(listing, family.encoder_text()),
    decreases CANDIDATE_COUNT - from,
{
    if from < CANDIDATE_COUNT {
        lemma_first_listed_place(listing, from + 1);
    }
}

/// A detection that goes through its trials ends with the first family, in
/// detection order, that is listed and whose trial succeeds, and without a
/// result where there is no such family.
pub proof fn lemma_first_success_wins(
    listing: Seq<char>,
    works: spec_fn(GpuFamily) -> bool,
    from: nat,
)
    ensures
        detection_outcome(trial_from(listing, from), works) == first_working(listing, works, from),
    decreases CANDIDATE_COUNT - from,
{
    if from < CANDIDATE_COUNT {
        lemma_first_success_wins(listing, works, from + 1);
        let family = GpuFamily::candidate_at(from as int)->0;
        if occurs_in(listing, family.encoder_text()) {
            assert(family.rank_of() == from);
            if !works(family) {
                assert(detection_outcome(trial_from(listing, from), works) == detection_outcome(
                    trial_from(listing, from + 1),
                    works,
                ));
            }
        } else {
            assert(trial_from(listing, from) == trial_from(listing, from + 1));
        }
    }
}

/// The arguments of the trial encode for `family`: a tenth of a second of
/// black frames through the family's encoder, output discarded.
pub open spec fn trial_command(family: GpuFamily) -> Seq<Seq<char>> {
    seq!["ffmpeg"@, "-hide_banner"@, "-f"@, "lavfi"@, "-i"@, "color=black:s=256x256:d=0.1"@] + (
    if family.encodes_device_frames() {
        seq!["-vaapi_device"@, "/dev/dri/renderD128"@, "-vf"@, "format=nv12,hwupload"@]
    } else {
        Seq::empty()
    }) + seq!["-c:v"@, family.encoder_text(), "-f"@, "null"@, "-"@]
}

/// The arguments that make the engine list its encoders.
pub fn list_encoders_command() -> (command: Vec<String>)
    ensures
        texts(command@) == seq!["ffmpeg"@, "-hide_banner"@, "-encoders"@],
{
    let mut command: Vec<String> = Vec::new();
    push_text(&mut command, "ffmpeg");
    push_text(&mut command, "-hide_banner");
    push_text(&mut command, "-encoders");
    proof {
        assert(texts(command@) =~= seq!["ffmpeg"@, "-hide_banner"@, "-encoders"@]);
    }
    command
}

impl GpuProbe {
    /// The family on trial.
    pub fn family(&self) -> (family: GpuFamily)
        ensures
            family == self@.family,
    {
        self.family
    }

    /// The arguments of the trial encode.
    pub fn command(&self) -> (command: Vec<String>)
        ensures
            texts(command@) == trial_command(self@.family),
    {
        let mut command: Vec<String> = Vec::new();
        push_text(&mut command, "ffmpeg");
        push_text(&mut command, "-hide_banner");
        push_text(&mut command, "-f");
        push_text(&mut command, "lavfi");
        push_text(&mut command, "-i");
        push_text(&mut command, "color=black:s=256x256:d=0.1");
        if self.family.takes_device_frames() {
            push_text(&mut command, "-vaapi_device");
            push_text(&mut command, "/dev/dri/renderD128");
            push_text(&mut command, "-vf");
            push_text(&mut command, "format=nv12,hwupload");
        }
        push_text(&mut command, "-c:v");
        push_text(&mut command, self.family.encoder());
        push_text(&mut command, "-f");
        push_text(&mut command, "null");
        push_text(&mut command, "-");
        proof {
            assert(texts(command@) =~= trial_command(self@.family));
        }
        command
    }
}

fn next_trial(listing: Vec<char>, from: usize) -> (step: DetectionStep)
    ensures
        step@ == trial_from(listing@, from as nat),
{
    let mut place: usize = from;
    while place < CANDIDATE_COUNT
        invariant
            first_listed(listing@, from as nat) == first_listed(listing@, place as nat),
        decreases CANDIDATE_COUNT - place,
    {
        match GpuFamily::candidate(place) {
            Some(family) => {
                let name = chars_of(family.encoder());
                if contains(listing.as_slice(), name.as_slice()) {
                    return DetectionStep::TestEncoder(GpuProbe { listing, family });
                }
            },
            None => {},
        }
        place = place + 1;
    }
    DetectionStep::Resolved(None)
}

/// The text in an optional string.
pub open spec fn optional_text(s: Option<String>) -> Option<Seq<char>> {
    match s {
        Some(s) => Some(s@),
        None => None,
    }
}

/// The durations that a structured probe reports, as it writes them: one
/// for the container and one for each stream. Any of them may be missing.
#[derive(Debug, Clone)]
pub struct ProbeDocument {
    pub format_duration: Option<String>,
    pub stream_durations: Option<Vec<Option<String>>>,
}

/// What a [`ProbeDocument`] holds, as mathematical values.
pub struct ProbeDocumentView {
    pub format_duration: Option<Seq<char>>,
    pub stream_durations: Option<Seq<Option<Seq<char>>>>,
}

impl View for ProbeDocument {
    type V = ProbeDocumentView;

    open spec fn view(&self) -> ProbeDocumentView {
        ProbeDocumentView {
            format_duration: optional_text(self.format_duration),
            stream_durations: match self.stream_durations {
                Some(streams) => Some(Seq::new(streams@.len(), |i: int| optional_text(streams@[i]))),
                None => None,
            },
        }
    }
}

/// The microseconds that a duration text stands for: it must be a plain
/// decimal numeral of seconds, and the count must fit in 64 bits.
pub open spec fn duration_value(text: Seq<char>) -> Option<nat> {
    match seconds_micros(text) {
        Some(v) => if v <= u64::MAX {
            Some(v)
        } else {
            None
        },
        None => None,
    }
}

/// What the quick probe found: its output without surrounding white space,
/// read as a duration. Empty output and `N/A` are no duration.
pub open spec fn quick_duration(output: Seq<char>) -> Option<nat> {
    let text = trimmed(output);
    if text.len() == 0 || text == "N/A"@ {
        None
    } else {
        duration_value(text)
    }
}

/// What a stream reports: its duration where it has one that is not `N/A`
/// and reads as a duration.
pub open spec fn stream_duration(reported: Option<Seq<char>>) -> Option<nat> {
    match reported {
        Some(text) => if text == "N/A"@ {
            None
        } else {
            duration_value(text)
        },
        None => None,
    }
}

/// The duration of the first stream that reports one.
pub open spec fn first_stream_duration(streams: Seq<Option<Seq<char>>>) -> Option<nat>
    decreases streams.len(),
{
    if streams.len() == 0 {
        None
    } else {
        match stream_duration(streams[0]) {
            Some(v) => Some(v),
            None => first_stream_duration(streams.drop_first()),
        }
    }
}

/// What the structured probe found. The container's duration decides
/// wherever it is present and not `N/A`, even if it cannot be read as a
/// duration; otherwise the first stream that reports a duration decides.
pub open spec fn structured_duration(document: ProbeDocumentView) -> Option<nat> {
    match document.format_duration {
        Some(text) if text != "N/A"@ => duration_value(text),
        _ => match document.stream_durations {
            Some(streams) => first_stream_duration(streams),
            None => None,
        },
    }
}

/// What the structured probe's output holds: nothing where it is not JSON.
pub open spec fn structured_output_duration(output: Seq<u8>) -> Option<nat> {
    match json_text_fields(output, "format"@, "streams"@, "duration"@) {
        Some(document) => structured_duration(document),
        None => None,
    }
}

/// Reads a duration text as microseconds.
pub fn read_duration(text: &str) -> (duration: Option<u64>)
    ensures
        match duration {
            Some(d) => duration_value(text@) == Some(d as nat),
            None => duration_value(text@) is None,
        },
{
    let chars = chars_of(text);
    parse_seconds(chars.as_slice())
}

/// Reads the output of the quick probe.
pub fn read_quick_output(output: &str) -> (duration: Option<u64>)
    ensures
        match duration {
            Some(d) => quick_duration(output@) == Some(d as nat),
            None => quick_duration(output@) is None,
        },
{
    let chars = chars_of(output);
    let text = trim(chars.as_slice());
    let marker = chars_of("N/A");
    if text.len() == 0 || chars_equal(text.as_slice(), marker.as_slice()) {
        None
    } else {
        parse_seconds(text.as_slice())
    }
}

fn read_stream(reported: &Option<String>) -> (duration: Option<u64>)
    ensures
        match duration {
            Some(d) => stream_duration(optional_text(*reported)) == Some(d as nat),
            None => stream_duration(optional_text(*reported)) is None,
        },
{
    match reported {
        Some(text) => {
            if str_equals(text.as_str(), "N/A") {
                None
            } else {
                read_duration(text.as_str())
            }
        },
        None => None,
    }
}

/// Picks the duration out of what a structured probe reported.
pub fn read_probe_document(document: &ProbeDocument) -> (duration: Option<u64>)
    ensures
        match duration {
            Some(d) => structured_duration(document@) == Some(d as nat),
            None => structured_duration(document@) is None,
        },
{
    match &document.format_duration {
        Some(text) => {
            if !str_equals(text.as_str(), "N/A") {
                return read_duration(text.as_str());
            }
        },
        None => {},
    }
    match &document.stream_durations {
        Some(streams) => {
            let ghost all = document@.stream_durations->0;
            let mut i: usize = 0;
            proof {
                assert(all.skip(0) =~= all);
            }
            while i < streams.len()
                invariant
                    i <= streams@.len(),
                    all == Seq::new(streams@.len(), |k: int| optional_text(streams@[k])),
                    structured_duration(document@) == first_stream_duration(all),
                    first_stream_duration(all) == first_stream_duration(all.skip(i as int)),
                decreases streams@.len() - i,
            {
                proof {
                    assert(all.skip(i as int)[0] == optional_text(streams@[i as int]));
                    assert(all.skip(i as int).drop_first() =~= all.skip(i + 1));
                }
                match read_stream(&streams[i]) {
                    Some(d) => {
                        return Some(d);
                    },
                    None => {},
                }
                i = i + 1;
            }
            None
        },
        None => None,
    }
}

/// Reads the output of the structured probe.
pub fn read_structured_output(output: &[u8]) -> (duration: Option<u64>)
    ensures
        match duration {
            Some(d) => structured_output_duration(output@) == Some(d as nat),
            None => structured_output_duration(output@) is None,
        },
{
    match read_json_fields(output, "format", "streams", "duration") {
        Ok(document) => read_probe_document(&document),
        Err(_) => None,
    }
}

/// What is known of a file before its duration is looked up.
#[derive(Debug, Clone, Copy, PartialEq, Eq, Structural)]
pub enum FileStamp {
    /// There is no such file.
    Missing,
    /// The file exists and this is the stamp of its last modification: a
    /// count that differs whenever the file has changed, so in the finest
    /// unit the system gives; zero where the time cannot be had.
    Modified(u64),
}

/// A file whose duration is asked for.
#[derive(Debug, Clone)]
pub struct MediaFile {
    pub path: String,
    pub stamp: FileStamp,
}

/// What the caller of a duration lookup does next.
#[derive(Debug, Clone, Copy, PartialEq, Eq, Structural)]
pub enum DurationStep {
    /// Nothing: this is the duration, in microseconds.
    Known(u64),
    /// Run [`quick_probe_command`] and hand its output to
    /// [`FFmpegProcessor::quick_probe_finished`].
    ProbeQuick,
    /// Run [`structured_probe_command`] and hand its output to
    /// [`FFmpegProcessor::structured_probe_finished`].
    ProbeStructured,
}

/// The arguments of the quick probe: the container's duration as a bare
/// number.
pub open spec fn quick_probe_arguments(path: Seq<char>) -> Seq<Seq<char>> {
    seq![
        "ffprobe"@,
        "-v"@,
        "error"@,
        "-show_entries"@,
        "format=duration"@,
        "-of"@,
        "default=nw=1:nk=1"@,
        path,
    ]
}

/// The arguments of the structured probe: the durations of the container and
/// of every stream, as JSON.
pub open spec fn structured_probe_arguments(path: Seq<char>) -> Seq<Seq<char>> {
    seq![
        "ffprobe"@,
        "-v"@,
        "error"@,
        "-print_format"@,
        "json"@,
        "-show_entries"@,
        "format=duration,stream=duration"@,
        path,
    ]
}

/// The arguments of the quick probe of the file at `path`.
pub fn quick_probe_command(path: &str) -> (command: Vec<String>)
    ensures
        texts(command@) == quick_probe_arguments(path@),
{
    let mut command: Vec<String> = Vec::new();
    push_text(&mut command, "ffprobe");
    push_text(&mut command, "-v");
    push_text(&mut command, "error");
    push_text(&mut command, "-show_entries");
    push_text(&mut command, "format=duration");
    push_text(&mut command, "-of");
    push_text(&mut command, "default=nw=1:nk=1");
    push_text(&mut command, path);
    proof {
        assert(texts(command@) =~= quick_probe_arguments(path@));
    }
    command
}

/// The arguments of the structured probe of the file at `path`.
pub fn structured_probe_command(path: &str) -> (command: Vec<String>)
    ensures
        texts(command@) == structured_probe_arguments(path@),
{
    let mut command: Vec<String> = Vec::new();
    push_text(&mut command, "ffprobe");
    push_text(&mut command, "-v");
    push_text(&mut command, "error");
    push_text(&mut command, "-print_format");
    push_text(&mut command, "json");
    push_text(&mut command, "-show_entries");
    push_text(&mut command, "format=duration,stream=duration");
    push_text(&mut command, path);
    proof {
        assert(texts(command@) =~= structured_probe_arguments(path@));
    }
    command
}

/// What the application reports about hardware encoding, as mathematical
/// values.
pub struct GpuInfoView {
    pub available: bool,
    pub gpu_type: Option<Seq<char>>,
    pub encoder: Option<Seq<char>>,
}

impl View for GpuInfo {
    type V = GpuInfoView;

    open spec fn view(&self) -> GpuInfoView {
        GpuInfoView {
            available: self.available,
            gpu_type: optional_text(self.gpu_type),
            encoder: optional_text(self.encoder),
        }
    }
}

/// The report for a detection result.
pub open spec fn gpu_info(family: Option<GpuFamily>) -> GpuInfoView {
    match family {
        Some(f) => GpuInfoView {
            available: true,
            gpu_type: Some(f.name_text()),
            encoder: Some(f.encoder_text()),
        },
        None => GpuInfoView { available: false, gpu_type: None, encoder: None },
    }
}

/// One remembered duration among those of one modification time.
struct DurationEntry {
    path: String,
    duration: u64,
}

impl DurationEntry {
    spec fn key(self) -> Seq<char> {
        self.path@
    }
}

/// The map from path to duration that a list of entries stands for. Where
/// two entries share a path, the later one counts.
spec fn entries_map(entries: Seq<DurationEntry>) -> Map<Seq<char>, nat>
    decreases entries.len(),
{
    if entries.len() == 0 {
        Map::empty()
    } else {
        entries_map(entries.drop_last()).insert(
            entries.last().key(),
            entries.last().duration as nat,
        )
    }
}

proof fn lemma_entries_without_key(entries: Seq<DurationEntry>, key: Seq<char>)
    requires
        forall|j: int| 0 <= j < entries.len() ==> (#[trigger] entries[j]).key() != key,
    ensures
        !entries_map(entries).dom().contains(key),
    decreases entries.len(),
{
    if entries.len() > 0 {
        assert(entries.last() == entries[entries.len() - 1]);
        assert forall|j: int| 0 <= j < entries.drop_last().len() implies (
        #[trigger] entries.drop_last()[j]).key() != key by {
            assert(entries.drop_last()[j] == entries[j]);
        }
        lemma_entries_without_key(entries.drop_last(), key);
    }
}

proof fn lemma_entries_last_match(entries: Seq<DurationEntry>, at: int)
    requires
        0 <= at < entries.len(),
        forall|j: int| at < j < entries.len() ==> (#[trigger] entries[j]).key() != entries[at].key(),
    ensures
        entries_map(entries).dom().contains(entries[at].key()),
        entries_map(entries)[entries[at].key()] == entries[at].duration as nat,
    decreases entries.len(),
{
    if at < entries.len() - 1 {
        assert(entries.last() == entries[entries.len() - 1]);
        assert(entries.drop_last()[at] == entries[at]);
        assert forall|j: int| at < j < entries.drop_last().len() implies (
        #[trigger] entries.drop_last()[j]).key() != entries.drop_last()[at].key() by {
            assert(entries.drop_last()[j] == entries[j]);
        }
        lemma_entries_last_match(entries.drop_last(), at);
    }
}

proof fn lemma_entries_replace(entries: Seq<DurationEntry>, at: int, entry: DurationEntry)
    requires
        0 <= at < entries.len(),
        entry.key() == entries[at].key(),
        forall|j: int| at < j < entries.len() ==> (#[trigger] entries[j]).key() != entries[at].key(),
    ensures
        entries_map(entries.update(at, entry)) == entries_map(entries).insert(
            entry.key(),
            entry.duration as nat,
        ),
    decreases entries.len(),
{
    let changed = entries.update(at, entry);
    if at == entries.len() - 1 {
        assert(changed.drop_last() =~= entries.drop_last());
        assert(changed.last() == entry);
        assert(entries_map(changed) =~= entries_map(entries).insert(
            entry.key(),
            entry.duration as nat,
        ));
    } else {
        assert(entries.last() == entries[entries.len() - 1]);
        assert(changed.drop_last() =~= entries.drop_last().update(at, entry));
        assert(changed.last() == entries.last());
        assert(entries.drop_last()[at] == entries[at]);
        assert forall|j: int| at < j < entries.drop_last().len() implies (
        #[trigger] entries.drop_last()[j]).key() != entries.drop_last()[at].key() by {
            assert(entries.drop_last()[j] == entries[j]);
        }
        lemma_entries_replace(entries.drop_last(), at, entry);
        assert(entries_map(changed) =~= entries_map(entries).insert(
            entry.key(),
            entry.duration as nat,
        ));
    }
}

/// What is remembered of hardware detection. A family can only be
/// remembered once a detection has been started.
enum Detection {
    NotStarted,
    Started(Option<GpuFamily>),
}

/// The durations that a cache holds, by path and modification time. The
/// cache is a hash map from modification time to the entries of that time.
spec fn cache_map(cache: Map<u64, Vec<DurationEntry>>) -> Map<(Seq<char>, nat), nat> {
    Map::new(
        |key: (Seq<char>, nat)|
            key.1 <= u64::MAX && cache.dom().contains(key.1 as u64) && entries_map(
                cache[key.1 as u64]@,
            ).dom().contains(key.0),
        |key: (Seq<char>, nat)| entries_map(cache[key.1 as u64]@)[key.0],
    )
}

/// The capability cache: what detection found and the durations looked up
/// so far.
pub struct FFmpegProcessor {
    duration_cache: HashMap<u64, Vec<DurationEntry>>,
    detection: Detection,
}

/// What an [`FFmpegProcessor`] remembers, as mathematical values.
pub struct ProcessorView {
    /// Durations in microseconds, by path and modification time.
    pub durations: Map<(Seq<char>, nat), nat>,
    /// Whether a detection has been started.
    pub gpu_checked: bool,
    /// The family that detection found.
    pub gpu: Option<GpuFamily>,
}

impl View for FFmpegProcessor {
    type V = ProcessorView;

    closed spec fn view(&self) -> ProcessorView {
        ProcessorView {
            durations: cache_map(self.duration_cache@),
            gpu_checked: self.detection is Started,
            gpu: match self.detection {
                Detection::Started(family) => family,
                Detection::NotStarted => None,
            },
        }
    }
}

impl ProcessorView {
    /// A cache that remembers nothing.
    pub open spec fn initial() -> ProcessorView {
        ProcessorView { durations: Map::empty(), gpu_checked: false, gpu: None }
    }

    /// The cache after a detection has been started.
    pub open spec fn checked(self) -> ProcessorView {
        ProcessorView { durations: self.durations, gpu_checked: true, gpu: self.gpu }
    }

    /// The cache after detection has found `family`.
    pub open spec fn resolved(self, family: GpuFamily) -> ProcessorView {
        ProcessorView { durations: self.durations, gpu_checked: true, gpu: Some(family) }
    }

    /// The cache after the duration of a file has been found.
    pub open spec fn remembering(self, path: Seq<char>, mtime: nat, duration: nat) -> ProcessorView {
        ProcessorView {
            durations: self.durations.insert((path, mtime), duration),
            gpu_checked: self.gpu_checked,
            gpu: self.gpu,
        }
    }

    /// The remembered duration of the file at `path` as modified at `mtime`.
    pub open spec fn remembered(self, path: Seq<char>, mtime: nat) -> Option<nat> {
        if self.durations.dom().contains((path, mtime)) {
            Some(self.durations[(path, mtime)])
        } else {
            None
        }
    }

    /// Whether the cache remembers a family only after a detection has been
    /// started. Every cache does: see [`FFmpegProcessor::lemma_consistent`].
    pub open spec fn consistent(self) -> bool {
        self.gpu is Some ==> self.gpu_checked
    }

    /// The result of a whole detection on a host where the engine lists
    /// `listing`, or cannot be run where that is `None`, and where `works`
    /// says which trial encodes succeed: what is remembered where a
    /// detection was started before, otherwise the first family in
    /// detection order that is listed and works.
    pub open spec fn detection_result(
        self,
        listing: Option<Seq<char>>,
        works: spec_fn(GpuFamily) -> bool,
    ) -> Option<GpuFamily> {
        if self.gpu_checked {
            self.gpu
        } else {
            match listing {
                Some(text) => first_working(text, works, 0),
                None => None,
            }
        }
    }

    /// The cache after that whole detection: marked, and remembering the
    /// family where one was found.
    pub open spec fn after_detection(
        self,
        listing: Option<Seq<char>>,
        works: spec_fn(GpuFamily) -> bool,
    ) -> ProcessorView {
        match self.detection_result(listing, works) {
            Some(family) => self.checked().resolved(family),
            None => self.checked(),
        }
    }

    /// How a detection begins: with the remembered result where one was
    /// started before, and with the encoder list otherwise.
    pub open spec fn detection_start(self) -> DetectionStepView {
        if self.gpu_checked {
            DetectionStepView::Resolved(self.gpu)
        } else {
            DetectionStepView::ListEncoders
        }
    }

    /// The family to use for a run that asks for hardware or not.
    pub open spec fn selected_gpu(self, use_gpu: bool) -> Option<GpuFamily> {
        if use_gpu {
            self.gpu
        } else {
            None
        }
    }

    /// How a duration lookup begins: a missing file has no length, a
    /// remembered duration is the answer, anything else needs the quick
    /// probe.
    pub open spec fn duration_start(self, path: Seq<char>, file: FileStamp) -> DurationStep {
        match file {
            FileStamp::Missing => DurationStep::Known(0),
            FileStamp::Modified(mtime) => match self.remembered(path, mtime as nat) {
                Some(duration) => DurationStep::Known(duration as u64),
                None => DurationStep::ProbeQuick,
            },
        }
    }
}

impl FFmpegProcessor {
    /// A cache that remembers nothing.
    pub fn new() -> (processor: FFmpegProcessor)
        ensures
            processor@ == ProcessorView::initial(),
    {
        let processor = FFmpegProcessor {
            duration_cache: HashMap::new(),
            detection: Detection::NotStarted,
        };
        proof {
            assert(processor@.durations =~= Map::empty());
        }
        processor
    }

    /// A cache remembers a family only after a detection has been started.
    pub proof fn lemma_consistent(&self)
        ensures
            self@.consistent(),
    {
    }

    /// Every remembered duration fits in 64 bits.
    pub proof fn lemma_durations_fit(&self, path: Seq<char>, mtime: nat)
        ensures
            self@.remembered(path, mtime) matches Some(d) ==> d <= u64::MAX,
    {
        if mtime <= u64::MAX && self.duration_cache@.dom().contains(mtime as u64) {
            Self::lemma_entries_fit(self.duration_cache@[mtime as u64]@, path);
        }
    }

    proof fn lemma_entries_fit(entries: Seq<DurationEntry>, key: Seq<char>)
        ensures
            entries_map(entries).dom().contains(key) ==> entries_map(entries)[key] <= u64::MAX,
        decreases entries.len(),
    {
        if entries.len() > 0 {
            Self::lemma_entries_fit(entries.drop_last(), key);
        }
    }

    /// Whether a detection has been started.
    pub fn gpu_checked(&self) -> (checked: bool)
        ensures
            checked == self@.gpu_checked,
    {
        match self.detection {
            Detection::Started(_) => true,
            Detection::NotStarted => false,
        }
    }

    /// The family that detection found. There is none before a detection
    /// has been started.
    pub fn available_gpu_encoder(&self) -> (family: Option<GpuFamily>)
        ensures
            family == self@.gpu,
            family is Some ==> self@.gpu_checked,
    {
        match self.detection {
            Detection::Started(family) => family,
            Detection::NotStarted => None,
        }
    }

    /// The family to use for a run: the one detection found where the run
    /// asks for hardware, none otherwise.
    pub fn selected_gpu(&self, use_gpu: bool) -> (family: Option<GpuFamily>)
        ensures
            family == self@.selected_gpu(use_gpu),
    {
        if use_gpu {
            self.available_gpu_encoder()
        } else {
            None
        }
    }

    /// Begins a detection.
    ///
    /// Where one was begun before, its result is returned and nothing
    /// changes; this holds for a detection that found nothing, too. The
    /// first time, the cache is marked and the caller is asked for the
    /// engine's encoder list.
    pub fn detect_gpu_encoder(&mut self) -> (step: DetectionStep)
        ensures
            step@ == old(self)@.detection_start(),
            final(self)@ == old(self)@.checked(),
            old(self)@.gpu_checked ==> final(self)@ == old(self)@,
    {
        match self.detection {
            Detection::Started(family) => DetectionStep::Resolved(family),
            Detection::NotStarted => {
                self.detection = Detection::Started(None);
                DetectionStep::ListEncoders
            },
        }
    }

    /// Takes the engine's encoder list, or `None` where the engine could not
    /// be run, and says which family to try first.
    ///
    /// Without a list detection ends without a result. With one, the
    /// families are gone through in their fixed order and the first whose
    /// encoder the list names is put on trial; where it names none,
    /// detection ends without a result.
    pub fn encoders_listed(&self, listing: Option<&str>) -> (step: DetectionStep)
        ensures
            step@ == (match listing {
                Some(text) => trial_from(text@, 0),
                None => DetectionStepView::Resolved(None),
            }),
    {
        match listing {
            Some(text) => next_trial(chars_of(text), 0),
            None => DetectionStep::Resolved(None),
        }
    }

    /// Takes the outcome of a trial encode.
    ///
    /// A family whose trial succeeded is the result and is remembered. After
    /// a failed trial the next listed family in order is tried; where none
    /// is left, detection ends without a result.
    pub fn encoder_tested(&mut self, probe: GpuProbe, success: bool) -> (step: DetectionStep)
        ensures
            success ==> {
                &&& step@ == DetectionStepView::Resolved(Some(probe@.family))
                &&& final(self)@ == old(self)@.resolved(probe@.family)
            },
            !success ==> {
                &&& step@ == trial_from(probe@.listing, probe@.family.rank_of() + 1)
                &&& final(self)@ == old(self)@
            },
    {
        if success {
            self.detection = Detection::Started(Some(probe.family));
            DetectionStep::Resolved(Some(probe.family))
        } else {
            let place: usize = probe.family.rank() + 1;
            next_trial(probe.listing, place)
        }
    }

    /// What to report about hardware encoding, from what detection found.
    pub fn get_gpu_info(&self) -> (info: GpuInfo)
        ensures
            info@ == gpu_info(self@.gpu),
    {
        match self.available_gpu_encoder() {
            Some(family) => GpuInfo {
                available: true,
                gpu_type: Some(String::from_str(family.name())),
                encoder: Some(String::from_str(family.encoder())),
            },
            None => GpuInfo { available: false, gpu_type: None, encoder: None },
        }
    }

    fn find_entry(entries: &Vec<DurationEntry>, path: &str) -> (found: Option<usize>)
        ensures
            match found {
                Some(at) => at < entries@.len() && entries@[at as int].key() == path@ && forall|
                    j: int,
                |
                    at < j < entries@.len() ==> (#[trigger] entries@[j]).key() != path@,
                None => forall|j: int|
                    0 <= j < entries@.len() ==> (#[trigger] entries@[j]).key() != path@,
            },
    {
        let mut at: usize = entries.len();
        while at > 0
            invariant
                at <= entries@.len(),
                forall|j: int| at <= j < entries@.len() ==> (#[trigger] entries@[j]).key() != path@,
            decreases at,
        {
            at = at - 1;
            if str_equals(entries[at].path.as_str(), path) {
                return Some(at);
            }
        }
        None
    }

    /// The remembered duration of the file at `path` as modified at `mtime`.
    pub fn cached_duration(&self, path: &str, mtime: u64) -> (duration: Option<u64>)
        ensures
            match duration {
                Some(d) => self@.remembered(path@, mtime as nat) == Some(d as nat),
                None => self@.remembered(path@, mtime as nat) is None,
            },
    {
        match self.duration_cache.get(&mtime) {
            Some(entries) => match Self::find_entry(entries, path) {
                Some(at) => {
                    proof {
                        lemma_entries_last_match(entries@, at as int);
                    }
                    Some(entries[at].duration)
                },
                None => {
                    proof {
                        lemma_entries_without_key(entries@, path@);
                    }
                    None
                },
            },
            None => None,
        }
    }

    /// Remembers the duration of the file at `path` as modified at `mtime`.
    /// What was remembered for the same path and time is replaced; nothing
    /// else changes.
    pub fn remember_duration(&mut self, path: &str, mtime: u64, duration: u64)
        ensures
            final(self)@ == old(self)@.remembering(path@, mtime as nat, duration as nat),
    {
        let ghost before = self.duration_cache@;
        let entry = DurationEntry { path: String::from_str(path), duration };
        let mut entries: Vec<DurationEntry> = match self.duration_cache.remove(&mtime) {
            Some(entries) => entries,
            None => Vec::new(),
        };
        let ghost held = entries@;
        match Self::find_entry(&entries, path) {
            Some(at) => {
                proof {
                    lemma_entries_replace(entries@, at as int, entry);
                }
                entries.set(at, entry);
            },
            None => {
                proof {
                    assert(entries@.push(entry).drop_last() =~= entries@);
                }
                entries.push(entry);
            },
        }
        proof {
            assert(entries_map(entries@) == entries_map(held).insert(path@, duration as nat));
        }
        self.duration_cache.insert(mtime, entries);
        proof {
            let after = self.duration_cache@;
            let key = (path@, mtime as nat);
            assert(cache_map(after) =~= cache_map(before).insert(key, duration as nat));
        }
    }

    /// Begins the lookup of a file's duration.
    pub fn get_duration(&self, path: &str, file: FileStamp) -> (step: DurationStep)
        ensures
            step == self@.duration_start(path@, file),
    {
        match file {
            FileStamp::Missing => DurationStep::Known(0),
            FileStamp::Modified(mtime) => match self.cached_duration(path, mtime) {
                Some(duration) => DurationStep::Known(duration),
                None => DurationStep::ProbeQuick,
            },
        }
    }

    /// Begins the lookup of several files' durations: for each file, in
    /// order, what [`FFmpegProcessor::get_duration`] answers for it. The
    /// lookups do not depend on one another, so the probes that are asked
    /// for may be run side by side.
    pub fn get_durations_parallel(&self, files: &[MediaFile]) -> (steps: Vec<DurationStep>)
        ensures
            steps@.len() == files@.len(),
            forall|i: int|
                0 <= i < files@.len() ==> #[trigger] steps@[i] == self@.duration_start(
                    files@[i].path@,
                    files@[i].stamp,
                ),
    {
        let mut steps: Vec<DurationStep> = Vec::new();
        let mut i: usize = 0;
        while i < files.len()
            invariant
                i <= files@.len(),
                steps@.len() == i,
                forall|k: int|
                    0 <= k < i ==> #[trigger] steps@[k] == self@.duration_start(
                        files@[k].path@,
                        files@[k].stamp,
                    ),
            decreases files@.len() - i,
        {
            let step = self.get_duration(files[i].path.as_str(), files[i].stamp);
            steps.push(step);
            i = i + 1;
        }
        steps
    }

    /// Takes the output of the quick probe, or `None` where the probe could
    /// not be run.
    ///
    /// A duration read from the output is the answer and is remembered.
    /// Otherwise nothing changes and the structured probe is next.
    pub fn quick_probe_finished(&mut self, path: &str, mtime: u64, output: Option<&str>) -> (step:
        DurationStep)
        ensures
            match output {
                Some(text) => match quick_duration(text@) {
                    Some(d) => {
                        &&& step == DurationStep::Known(d as u64)
                        &&& final(self)@ == old(self)@.remembering(path@, mtime as nat, d)
                    },
                    None => step == DurationStep::ProbeStructured && final(self)@ == old(self)@,
                },
                None => step == DurationStep::ProbeStructured && final(self)@ == old(self)@,
            },
    {
        let found: Option<u64> = match output {
            Some(text) => read_quick_output(text),
            None => None,
        };
        match found {
            Some(duration) => {
                self.remember_duration(path, mtime, duration);
                DurationStep::Known(duration)
            },
            None => DurationStep::ProbeStructured,
        }
    }

    /// Takes what the structured probe found, or `None` where it found
    /// nothing. The duration, zero where there is none, is the answer and is
    /// remembered.
    pub fn structured_duration_found(&mut self, path: &str, mtime: u64, found: Option<u64>) -> (duration:
        u64)
        ensures
            duration == (match found {
                Some(d) => d,
                None => 0,
            }),
            final(self)@ == old(self)@.remembering(path@, mtime as nat, duration as nat),
    {
        let duration: u64 = match found {
            Some(d) => d,
            None => 0,
        };
        self.remember_duration(path, mtime, duration);
        duration
    }

    /// Takes the output of the structured probe, or `None` where the probe
    /// could not be run. The duration read from it, zero where there is
    /// none, is the answer and is remembered.
    pub fn structured_probe_finished(&mut self, path: &str, mtime: u64, output: Option<&[u8]>) -> (duration:
        u64)
        ensures
            duration == (match output {
                Some(bytes) => match structured_output_duration(bytes@) {
                    Some(d) => d,
                    None => 0,
                },
                None => 0,
            }),
            final(self)@ == old(self)@.remembering(path@, mtime as nat, duration as nat),
    {
        let found: Option<u64> = match output {
            Some(bytes) => read_structured_output(bytes),
            None => None,
        };
        self.structured_duration_found(path, mtime, found)
    }
}

/// Once a detection has been started, every later one returns what is
/// remembered, asks for no probe and changes nothing.
pub proof fn lemma_detection_runs_once(cache: ProcessorView)
    ensures
        cache.checked().gpu_checked,
        cache.checked().detection_start() == DetectionStepView::Resolved(cache.gpu),
        cache.checked().checked() == cache.checked(),
{
}

/// After any detection the remembered family is the detection's result,
/// whether a family was found or not, and every later detection returns
/// that result at once.
pub proof fn lemma_remembered_family_is_the_result(
    cache: ProcessorView,
    listing: Option<Seq<char>>,
    works: spec_fn(GpuFamily) -> bool,
)
    requires
        cache.consistent(),
    ensures
        cache.after_detection(listing, works).gpu == cache.detection_result(listing, works),
        cache.after_detection(listing, works).gpu_checked,
        cache.after_detection(listing, works).consistent(),
        cache.after_detection(listing, works).detection_start() == DetectionStepView::Resolved(
            cache.detection_result(listing, works),
        ),
        cache.after_detection(listing, works).durations == cache.durations,
{
}

/// A family that detection has found is what every later detection returns,
/// without a probe.
pub proof fn lemma_found_family_is_remembered(cache: ProcessorView, family: GpuFamily)
    ensures
        cache.resolved(family).detection_start() == DetectionStepView::Resolved(Some(family)),
        cache.resolved(family).checked() == cache.resolved(family),
        cache.resolved(family).selected_gpu(true) == Some(family),
{
}

/// A remembered duration answers for its own path and modification time
/// only. A lookup for the same path with another modification time finds
/// what it found before the duration was remembered; where that was
/// nothing, the file is probed again.
pub proof fn lemma_duration_keyed_by_mtime(
    cache: ProcessorView,
    path: Seq<char>,
    mtime: u64,
    duration: nat,
    other_mtime: u64,
)
    requires
        other_mtime != mtime,
    ensures
        cache.remembering(path, mtime as nat, duration).remembered(path, mtime as nat) == Some(
            duration,
        ),
        cache.remembering(path, mtime as nat, duration).remembered(path, other_mtime as nat)
            == cache.remembered(path, other_mtime as nat),
        cache.remembering(path, mtime as nat, duration).duration_start(
            path,
            FileStamp::Modified(other_mtime),
        ) == cache.duration_start(path, FileStamp::Modified(other_mtime)),
        cache.remembered(path, other_mtime as nat) is None ==> cache.remembering(
            path,
            mtime as nat,
            duration,
        ).duration_start(path, FileStamp::Modified(other_mtime)) == DurationStep::ProbeQuick,
{
}

} // verus!
