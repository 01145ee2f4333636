use rigel::encoder::{
    match_vendor_to_encoder, select_best_encoder, EncoderPreset, GpuInfo, TimeSegment,
};

fn gpu(name: &str, device_type: &str) -> GpuInfo {
    GpuInfo {
        name: String::from(name),
        backend: String::from("Vulkan"),
        device_type: String::from(device_type),
    }
}

#[test]
fn vendor_names_map_to_presets() {
    assert!(matches!(
        match_vendor_to_encoder("NVIDIA GeForce RTX 4070"),
        EncoderPreset::Nvidia(s) if s == "hevc_nvenc"
    ));
    assert!(matches!(
        match_vendor_to_encoder("Intel(R) UHD Graphics 770"),
        EncoderPreset::Intel(s) if s == "hevc_qsv"
    ));
    assert!(matches!(
        match_vendor_to_encoder("AMD Radeon RX 7800"),
        EncoderPreset::Amd(s) if s == "hevc_amf"
    ));
    assert!(matches!(
        match_vendor_to_encoder("Radeon Pro 560"),
        EncoderPreset::Amd(s) if s == "hevc_amf"
    ));
    assert!(matches!(
        match_vendor_to_encoder("Apple M2"),
        EncoderPreset::Apple(s) if s == "hevc_videotoolbox"
    ));
    assert!(matches!(
        match_vendor_to_encoder("llvmpipe"),
        EncoderPreset::Cpu(s) if s == "libx265"
    ));
}

#[test]
fn discrete_gpu_wins_over_integrated() {
    let gpus = vec![
        gpu("Intel(R) UHD Graphics 770", "IntegratedGpu"),
        gpu("NVIDIA GeForce RTX 4070", "DiscreteGpu"),
    ];
    assert!(matches!(
        select_best_encoder(&gpus),
        EncoderPreset::Nvidia(s) if s == "hevc_nvenc"
    ));
}

#[test]
fn integrated_gpu_is_second_choice() {
    let gpus = vec![
        gpu("Microsoft Basic Render Driver", "Cpu"),
        gpu("Intel(R) Iris Xe", "IntegratedGpu"),
    ];
    assert!(matches!(
        select_best_encoder(&gpus),
        EncoderPreset::Intel(s) if s == "hevc_qsv"
    ));
}

#[test]
fn no_usable_gpu_falls_back_to_software() {
    assert!(matches!(
        select_best_encoder(&[]),
        EncoderPreset::Cpu(s) if s == "libx265"
    ));
    let gpus = vec![gpu("Some Virtual Adapter", "VirtualGpu")];
    assert!(matches!(
        select_best_encoder(&gpus),
        EncoderPreset::Cpu(s) if s == "libx265"
    ));
}

#[test]
fn ffmpeg_args_per_preset() {
    let nvidia = EncoderPreset::Nvidia(String::from("hevc_nvenc"));
    assert_eq!(
        nvidia.to_ffmpeg_args(),
        vec!["-c:v", "hevc_nvenc", "-cq", "28", "-c:a", "aac"]
    );
    let intel = EncoderPreset::Intel(String::from("hevc_qsv"));
    assert_eq!(
        intel.to_ffmpeg_args(),
        vec!["-c:v", "hevc_qsv", "-global_quality", "25", "-c:a", "aac"]
    );
    let apple = EncoderPreset::Apple(String::from("hevc_videotoolbox"));
    assert_eq!(
        apple.to_ffmpeg_args(),
        vec!["-c:v", "hevc_videotoolbox", "-q:v", "60", "-c:a", "aac"]
    );
    let amd = EncoderPreset::Amd(String::from("hevc_amf"));
    assert_eq!(amd.to_ffmpeg_args(), vec!["-c:v", "hevc_amf", "-c:a", "aac"]);
    let cpu = EncoderPreset::Cpu(String::from("libx265"));
    assert_eq!(
        cpu.to_ffmpeg_args(),
        vec!["-c:v", "libx265", "-crf", "28", "-c:a", "aac"]
    );
}

#[test]
fn time_segment_carries_bounds() {
    let seg = TimeSegment { start: String::from("00:00:10"), end: String::from("00:00:20") };
    let copy = seg.clone();
    assert_eq!(copy.start, "00:00:10");
    assert_eq!(copy.end, "00:00:20");
}
