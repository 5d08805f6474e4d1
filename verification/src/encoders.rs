//! Hardware families and the encoder settings that go with each.

use vstd::prelude::*;
use vstd::string::*;
use crate::text::str_equals;

verus! {

/// A GPU vendor's encode path.
#[derive(Debug, Clone, Copy, PartialEq, Eq, Structural)]
pub enum GpuFamily {
    Nvidia,
    Intel,
    Amd,
    Vaapi,
}

/// Number of hardware families that detection tries.
pub const CANDIDATE_COUNT: usize = 4;

impl GpuFamily {
    /// The family's name as the rest of the application knows it.
    pub open spec fn name_text(self) -> Seq<char> {
        match self {
            GpuFamily::Nvidia => "nvidia"@,
            GpuFamily::Intel => "intel"@,
            GpuFamily::Amd => "amd"@,
            GpuFamily::Vaapi => "vaapi"@,
        }
    }

    /// The engine's name for the family's H.264 encoder.
    pub open spec fn encoder_text(self) -> Seq<char> {
        match self {
            GpuFamily::Nvidia => "h264_nvenc"@,
            GpuFamily::Intel => "h264_qsv"@,
            GpuFamily::Amd => "h264_amf"@,
            GpuFamily::Vaapi => "h264_vaapi"@,
        }
    }

    /// The family that goes by `name`, if any.
    pub open spec fn named(name: Seq<char>) -> Option<GpuFamily> {
        if name == "nvidia"@ {
            Some(GpuFamily::Nvidia)
        } else if name == "amd"@ {
            Some(GpuFamily::Amd)
        } else if name == "intel"@ {
            Some(GpuFamily::Intel)
        } else if name == "vaapi"@ {
            Some(GpuFamily::Vaapi)
        } else {
            None
        }
    }

    /// The families in the order detection tries them: nvidia, intel, amd,
    /// vaapi.
    pub open spec fn candidate_at(index: int) -> Option<GpuFamily> {
        if index == 0 {
            Some(GpuFamily::Nvidia)
        } else if index == 1 {
            Some(GpuFamily::Intel)
        } else if index == 2 {
            Some(GpuFamily::Amd)
        } else if index == 3 {
            Some(GpuFamily::Vaapi)
        } else {
            None
        }
    }

    /// Whether the family's encoder takes its frames from device memory, so
    /// that frames have to be brought to the device's format and uploaded
    /// before they reach it. Of the four, only VAAPI does.
    pub open spec fn encodes_device_frames(self) -> bool {
        self == GpuFamily::Vaapi
    }

    /// Tests whether the family's encoder takes its frames from device
    /// memory.
    pub fn takes_device_frames(self) -> (answer: bool)
        ensures
            answer == self.encodes_device_frames(),
    {
        match self {
            GpuFamily::Vaapi => true,
            _ => false,
        }
    }

    /// The family's place in the order of detection, from zero.
    pub open spec fn rank_of(self) -> nat {
        match self {
            GpuFamily::Nvidia => 0,
            GpuFamily::Intel => 1,
            GpuFamily::Amd => 2,
            GpuFamily::Vaapi => 3,
        }
    }

    /// The family's place in the order of detection.
    pub fn rank(self) -> (rank: usize)
        ensures
            rank == self.rank_of(),
            rank < CANDIDATE_COUNT,
            GpuFamily::candidate_at(rank as int) == Some(self),
    {
        match self {
            GpuFamily::Nvidia => 0,
            GpuFamily::Intel => 1,
            GpuFamily::Amd => 2,
            GpuFamily::Vaapi => 3,
        }
    }

    /// The family's name.
    pub fn name(self) -> (name: &'static str)
        ensures
            name@ == self.name_text(),
    {
        match self {
            GpuFamily::Nvidia => "nvidia",
            GpuFamily::Intel => "intel",
            GpuFamily::Amd => "amd",
            GpuFamily::Vaapi => "vaapi",
        }
    }

    /// The engine's name for the family's encoder.
    pub fn encoder(self) -> (encoder: &'static str)
        ensures
            encoder@ == self.encoder_text(),
    {
        match self {
            GpuFamily::Nvidia => "h264_nvenc",
            GpuFamily::Intel => "h264_qsv",
            GpuFamily::Amd => "h264_amf",
            GpuFamily::Vaapi => "h264_vaapi",
        }
    }

    /// Looks a family up by name.
    pub fn from_name(name: &str) -> (family: Option<GpuFamily>)
        ensures
            family == GpuFamily::named(name@),
    {
        if str_equals(name, "nvidia") {
            Some(GpuFamily::Nvidia)
        } else if str_equals(name, "amd") {
            Some(GpuFamily::Amd)
        } else if str_equals(name, "intel") {
            Some(GpuFamily::Intel)
        } else if str_equals(name, "vaapi") {
            Some(GpuFamily::Vaapi)
        } else {
            None
        }
    }

    /// The `index`-th family that detection tries.
    pub fn candidate(index: usize) -> (family: Option<GpuFamily>)
        ensures
            family == GpuFamily::candidate_at(index as int),
            family is Some <==> index < CANDIDATE_COUNT,
    {
        if index == 0 {
            Some(GpuFamily::Nvidia)
        } else if index == 1 {
            Some(GpuFamily::Intel)
        } else if index == 2 {
            Some(GpuFamily::Amd)
        } else if index == 3 {
            Some(GpuFamily::Vaapi)
        } else {
            None
        }
    }

    /// Every family is found again under its own name.
    pub proof fn lemma_named_own_name(self)
        ensures
            GpuFamily::named(self.name_text()) == Some(self),
    {
        reveal_strlit("nvidia");
        reveal_strlit("intel");
        reveal_strlit("amd");
        reveal_strlit("vaapi");
        assert("nvidia"@.len() == 6);
        assert("intel"@.len() == 5);
        assert("amd"@.len() == 3);
        assert("vaapi"@.len() == 5);
        assert("intel"@[0] == 'i');
        assert("vaapi"@[0] == 'v');
    }
}

/// The encoder's name for a resolved family, or the software encoder's when
/// there is none.
pub open spec fn encoder_text(family: Option<GpuFamily>) -> Seq<char> {
    match family {
        Some(f) => f.encoder_text(),
        None => "libx264"@,
    }
}

/// The option that selects a speed preset on the family's encoder. The VAAPI
/// encoder has none.
pub open spec fn preset_flag_text(family: Option<GpuFamily>) -> Option<Seq<char>> {
    match family {
        Some(GpuFamily::Nvidia) => Some("-preset"@),
        Some(GpuFamily::Amd) => Some("-quality"@),
        Some(GpuFamily::Intel) => Some("-preset"@),
        Some(GpuFamily::Vaapi) => None,
        None => Some("-preset"@),
    }
}

/// The family's own word for each of the four speed presets, as pairs of
/// preset name and encoder value.
pub open spec fn preset_table(family: Option<GpuFamily>) -> Seq<(Seq<char>, Seq<char>)> {
    match family {
        Some(GpuFamily::Nvidia) => seq![
            ("ultrafast"@, "p1"@),
            ("fast"@, "p4"@),
            ("balanced"@, "p5"@),
            ("quality"@, "p7"@),
        ],
        Some(GpuFamily::Amd) => seq![
            ("ultrafast"@, "speed"@),
            ("fast"@, "balanced"@),
            ("balanced"@, "balanced"@),
            ("quality"@, "quality"@),
        ],
        Some(GpuFamily::Intel) => seq![
            ("ultrafast"@, "veryfast"@),
            ("fast"@, "fast"@),
            ("balanced"@, "medium"@),
            ("quality"@, "veryslow"@),
        ],
        Some(GpuFamily::Vaapi) => Seq::empty(),
        None => seq![
            ("ultrafast"@, "ultrafast"@),
            ("fast"@, "veryfast"@),
            ("balanced"@, "medium"@),
            ("quality"@, "slow"@),
        ],
    }
}

/// The value paired with `name` in `table`: that of the first pair whose
/// name matches.
pub open spec fn table_value(table: Seq<(Seq<char>, Seq<char>)>, name: Seq<char>) -> Option<
    Seq<char>,
>
    decreases table.len(),
{
    if table.len() == 0 {
        None
    } else if table[0].0 == name {
        Some(table[0].1)
    } else {
        table_value(table.drop_first(), name)
    }
}

/// The arguments that select `preset` on the family's encoder: the preset
/// option and the family's word for the preset. Nothing where the family has
/// no preset option or no word for `preset`.
pub open spec fn preset_arguments(family: Option<GpuFamily>, preset: Seq<char>) -> Seq<Seq<char>> {
    match (preset_flag_text(family), table_value(preset_table(family), preset)) {
        (Some(flag), Some(value)) => seq![flag, value],
        _ => Seq::empty(),
    }
}

/// One line of a preset table.
#[derive(Debug, Clone, Copy)]
pub struct PresetEntry {
    pub name: &'static str,
    pub value: &'static str,
}

/// The encoder settings of one family.
#[derive(Debug, Clone)]
pub struct EncoderConfig {
    pub encoder: &'static str,
    pub preset_flag: Option<&'static str>,
    pub presets: Vec<PresetEntry>,
}

/// What an [`EncoderConfig`] holds, as mathematical values.
pub struct EncoderConfigView {
    pub encoder: Seq<char>,
    pub preset_flag: Option<Seq<char>>,
    pub presets: Seq<(Seq<char>, Seq<char>)>,
}

impl View for EncoderConfig {
    type V = EncoderConfigView;

    open spec fn view(&self) -> EncoderConfigView {
        EncoderConfigView {
            encoder: self.encoder@,
            preset_flag: match self.preset_flag {
                Some(flag) => Some(flag@),
                None => None,
            },
            presets: Seq::new(
                self.presets@.len(),
                |i: int| (self.presets@[i].name@, self.presets@[i].value@),
            ),
        }
    }
}

/// The settings of the family named `family`, or of the software encoder
/// where no family goes by that name.
pub open spec fn encoder_config(family: Option<GpuFamily>) -> EncoderConfigView {
    EncoderConfigView {
        encoder: encoder_text(family),
        preset_flag: preset_flag_text(family),
        presets: preset_table(family),
    }
}

fn four_presets(
    ultrafast: &'static str,
    fast: &'static str,
    balanced: &'static str,
    quality: &'static str,
) -> (presets: Vec<PresetEntry>)
    ensures
        presets@.len() == 4,
        presets@[0].name@ == "ultrafast"@ && presets@[0].value@ == ultrafast@,
        presets@[1].name@ == "fast"@ && presets@[1].value@ == fast@,
        presets@[2].name@ == "balanced"@ && presets@[2].value@ == balanced@,
        presets@[3].name@ == "quality"@ && presets@[3].value@ == quality@,
{
    let mut presets: Vec<PresetEntry> = Vec::new();
    presets.push(PresetEntry { name: "ultrafast", value: ultrafast });
    presets.push(PresetEntry { name: "fast", value: fast });
    presets.push(PresetEntry { name: "balanced", value: balanced });
    presets.push(PresetEntry { name: "quality", value: quality });
    presets
}

/// The encoder settings for a family given by name. Any name that is not a
/// family's selects the software encoder.
pub fn get_encoder_config(gpu_type: &str) -> (config: EncoderConfig)
    ensures
        config@ == encoder_config(GpuFamily::named(gpu_type@)),
{
    let family = GpuFamily::from_name(gpu_type);
    let config = match family {
        Some(GpuFamily::Nvidia) => EncoderConfig {
            encoder: "h264_nvenc",
            preset_flag: Some("-preset"),
            presets: four_presets("p1", "p4", "p5", "p7"),
        },
        Some(GpuFamily::Amd) => EncoderConfig {
            encoder: "h264_amf",
            preset_flag: Some("-quality"),
            presets: four_presets("speed", "balanced", "balanced", "quality"),
        },
        Some(GpuFamily::Intel) => EncoderConfig {
            encoder: "h264_qsv",
            preset_flag: Some("-preset"),
            presets: four_presets("veryfast", "fast", "medium", "veryslow"),
        },
        Some(GpuFamily::Vaapi) => EncoderConfig {
            encoder: "h264_vaapi",
            preset_flag: None,
            presets: Vec::new(),
        },
        None => EncoderConfig {
            encoder: "libx264",
            preset_flag: Some("-preset"),
            presets: four_presets("ultrafast", "veryfast", "medium", "slow"),
        },
    };
    proof {
        assert(config@.presets =~= preset_table(family));
    }
    config
}

impl EncoderConfig {
    /// The encoder's word for the speed preset `name`, if it has one.
    pub fn preset(&self, name: &str) -> (value: Option<&'static str>)
        ensures
            match value {
                Some(v) => table_value(self@.presets, name@) == Some(v@),
                None => table_value(self@.presets, name@) is None,
            },
    {
        let ghost table = self@.presets;
        let mut i: usize = 0;
        proof {
            assert(table.skip(0) =~= table);
        }
        while i < self.presets.len()
            invariant
                i <= self.presets@.len(),
                table == self@.presets,
                table_value(table, name@) == table_value(table.skip(i as int), name@),
            decreases self.presets@.len() - i,
        {
            let entry = self.presets[i];
            proof {
                assert(table.skip(i as int)[0] == table[i as int]);
                assert(table.skip(i as int).drop_first() =~= table.skip(i + 1));
            }
            if str_equals(entry.name, name) {
                return Some(entry.value);
            }
            i = i + 1;
        }
        None
    }
}

} // verus!
