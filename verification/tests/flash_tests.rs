use daisy_nam::flash::{collect_blobs, detect_args, dfu_device_present, flash_args, flash_outcome, image_summary};
use daisy_nam::image_builder::{build, pack_preset_blob};
use daisy_nam::types::{IrInfo, ModelInfo, Preset};
use daisy_nam::wav::IrTaps;

fn model(id: &str, name: &str) -> ModelInfo {
    ModelInfo {
        id: id.into(),
        name: name.into(),
        size_bytes: 3,
        imported_at: "t".into(),
        tone3000_id: None,
        tone3000_model_id: None,
    }
}

fn ir(id: &str, name: &str) -> IrInfo {
    IrInfo {
        id: id.into(),
        name: name.into(),
        tap_count: 2,
        sample_rate: 48000,
        trimmed: false,
        size_bytes: 100,
        imported_at: "t".into(),
    }
}

#[test]
fn blobs_from_library() {
    let models = vec![model("m1", "amp")];
    let data = vec![vec![1u8, 2, 3]];
    let irs = vec![ir("i1", "cab")];
    let taps = vec![IrTaps { taps: vec![1.0f32.to_bits(), 0.5f32.to_bits()], sample_rate: 44100, trimmed: false }];
    let presets = vec![
        Preset {
            id: "p1".into(),
            name: "lead".into(),
            model_id: Some("m1".into()),
            ir_id: Some("gone".into()),
            input_gain_bits: 1.0f32.to_bits(),
            output_volume_bits: 0.5f32.to_bits(),
            bypass: true,
        },
    ];
    let blobs = collect_blobs(&models, &data, &irs, &taps, &presets);
    assert_eq!(blobs.len(), 3);
    assert_eq!(blobs[0].entry_type, 0);
    assert_eq!(blobs[0].data, vec![1, 2, 3]);
    assert_eq!(blobs[1].entry_type, 1);
    assert_eq!(blobs[1].samplerate, 44100);
    assert_eq!(blobs[1].data.len(), 8);
    assert_eq!(blobs[2].entry_type, 2);
    assert_eq!(blobs[2].name, "lead");
    assert_eq!(blobs[2].data, pack_preset_blob("amp", "", 1.0f32.to_bits(), 0.5f32.to_bits(), true));
}

#[test]
fn summary_of_built_image() {
    let models = vec![model("m1", "amp")];
    let blobs = collect_blobs(&models, &vec![vec![7u8; 10]], &Vec::new(), &Vec::new(), &Vec::new());
    let built = build(&blobs);
    let s = image_summary(&built, "/tmp/img.bin".into());
    assert_eq!(s.total_bytes, 8192);
    assert_eq!(s.partition_bytes, 6291456);
    assert_eq!(s.free_bytes, 6291456 - 8192);
    assert_eq!(s.entries.len(), 1);
    assert_eq!(s.entries[0].entry_type, "model");
    assert_eq!(s.entries[0].name, "amp");
    assert_eq!(s.entries[0].offset, 4096);
    assert_eq!(s.entries[0].size_bytes, 10);
    assert_eq!(s.image_path, "/tmp/img.bin");
}

#[test]
fn dfu_listing() {
    assert!(dfu_device_present("Found DFU: [0483:df11] ver=0200"));
    assert!(!dfu_device_present("No DFU capable USB device available"));
    assert_eq!(detect_args(), vec!["-l"]);
}

#[test]
fn flash_result_from_output() {
    assert_eq!(flash_outcome("Download done.\nFile downloaded successfully"), Ok(()));
    assert_eq!(flash_outcome("dfu-util: Error during download"), Err("dfu-util reported an error:\ndfu-util: Error during download".to_string()));
    assert!(flash_outcome("an error occurred").is_err());
    assert_eq!(
        flash_args("/x/img.bin"),
        vec!["-a", "0", "-s", "0x90200000:leave", "-D", "/x/img.bin", "-d", ",0483:df11"]
    );
}
