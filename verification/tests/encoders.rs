use video_musique::encoders::{get_encoder_config, GpuFamily, CANDIDATE_COUNT};

#[test]
fn nvidia_settings() {
    let c = get_encoder_config("nvidia");
    assert_eq!(c.encoder, "h264_nvenc");
    assert_eq!(c.preset_flag, Some("-preset"));
    assert_eq!(c.preset("ultrafast"), Some("p1"));
    assert_eq!(c.preset("fast"), Some("p4"));
    assert_eq!(c.preset("balanced"), Some("p5"));
    assert_eq!(c.preset("quality"), Some("p7"));
    assert_eq!(c.preset("turbo"), None);
}

#[test]
fn amd_settings() {
    let c = get_encoder_config("amd");
    assert_eq!(c.encoder, "h264_amf");
    assert_eq!(c.preset_flag, Some("-quality"));
    assert_eq!(c.preset("ultrafast"), Some("speed"));
    assert_eq!(c.preset("fast"), Some("balanced"));
    assert_eq!(c.preset("balanced"), Some("balanced"));
    assert_eq!(c.preset("quality"), Some("quality"));
}

#[test]
fn intel_settings() {
    let c = get_encoder_config("intel");
    assert_eq!(c.encoder, "h264_qsv");
    assert_eq!(c.preset_flag, Some("-preset"));
    assert_eq!(c.preset("ultrafast"), Some("veryfast"));
    assert_eq!(c.preset("fast"), Some("fast"));
    assert_eq!(c.preset("balanced"), Some("medium"));
    assert_eq!(c.preset("quality"), Some("veryslow"));
}

#[test]
fn vaapi_has_no_presets() {
    let c = get_encoder_config("vaapi");
    assert_eq!(c.encoder, "h264_vaapi");
    assert_eq!(c.preset_flag, None);
    assert!(c.presets.is_empty());
    assert_eq!(c.preset("fast"), None);
}

#[test]
fn any_other_name_selects_the_software_encoder() {
    for name in ["cpu", "", "NVIDIA", "nvidia ", "apple"] {
        let c = get_encoder_config(name);
        assert_eq!(c.encoder, "libx264");
        assert_eq!(c.preset_flag, Some("-preset"));
        assert_eq!(c.preset("ultrafast"), Some("ultrafast"));
        assert_eq!(c.preset("fast"), Some("veryfast"));
        assert_eq!(c.preset("balanced"), Some("medium"));
        assert_eq!(c.preset("quality"), Some("slow"));
        assert_eq!(c.preset("Fast"), None);
    }
}

#[test]
fn families_are_found_under_their_names() {
    for family in [GpuFamily::Nvidia, GpuFamily::Intel, GpuFamily::Amd, GpuFamily::Vaapi] {
        assert_eq!(GpuFamily::from_name(family.name()), Some(family));
        assert_eq!(GpuFamily::candidate(family.rank()), Some(family));
        assert_eq!(get_encoder_config(family.name()).encoder, family.encoder());
    }
    assert_eq!(GpuFamily::from_name("cpu"), None);
}

#[test]
fn detection_order_is_nvidia_intel_amd_vaapi() {
    assert_eq!(CANDIDATE_COUNT, 4);
    assert_eq!(GpuFamily::candidate(0), Some(GpuFamily::Nvidia));
    assert_eq!(GpuFamily::candidate(1), Some(GpuFamily::Intel));
    assert_eq!(GpuFamily::candidate(2), Some(GpuFamily::Amd));
    assert_eq!(GpuFamily::candidate(3), Some(GpuFamily::Vaapi));
    assert_eq!(GpuFamily::candidate(4), None);
    assert_eq!(GpuFamily::candidate(usize::MAX), None);
}

#[test]
fn encoder_names() {
    assert_eq!(GpuFamily::Nvidia.encoder(), "h264_nvenc");
    assert_eq!(GpuFamily::Intel.encoder(), "h264_qsv");
    assert_eq!(GpuFamily::Amd.encoder(), "h264_amf");
    assert_eq!(GpuFamily::Vaapi.encoder(), "h264_vaapi");
}
