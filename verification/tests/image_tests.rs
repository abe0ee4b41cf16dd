use daisy_nam::image_builder::{align_up, build, image_fits, pack_preset_blob, partition_size, write_name, Blob};
use daisy_nam::wav::{sample_kind, taps_to_bytes, trim_to_max_taps, SampleKind};

fn blob(t: u8, name: &str, data: Vec<u8>, sr: u32) -> Blob {
    Blob { entry_type: t, name: name.into(), data, samplerate: sr }
}

fn le32(b: &[u8]) -> u32 {
    u32::from_le_bytes([b[0], b[1], b[2], b[3]])
}

#[test]
fn partition_is_six_megabytes() {
    assert_eq!(partition_size(), 6 * 1024 * 1024);
}

#[test]
fn empty_image_is_one_sector_with_header() {
    let b: Vec<Blob> = Vec::new();
    assert!(image_fits(&b));
    let img = build(&b);
    assert_eq!(img.data.len(), 4096);
    assert_eq!(&img.data[0..8], &[0x4E, 0x41, 0x4D, 0x44, 1, 0, 0, 0]);
    assert!(img.data[8..].iter().all(|&x| x == 0xFF));
    assert!(img.entries.is_empty());
}

#[test]
fn image_layout_of_two_blobs() {
    let blobs = vec![blob(0, "amp", vec![1, 2, 3], 0), blob(1, "cab", vec![9; 5000], 48000)];
    assert!(image_fits(&blobs));
    let img = build(&blobs);
    assert_eq!(img.data.len(), 4096 + 4096 + 8192);
    assert_eq!(&img.data[0..4], b"NAMD");
    assert_eq!(u16::from_le_bytes([img.data[6], img.data[7]]), 2);
    // directory entry 0
    assert_eq!(img.data[8], 0);
    assert_eq!(&img.data[9..12], b"amp");
    assert!(img.data[12..40].iter().all(|&x| x == 0));
    assert_eq!(le32(&img.data[40..44]), 4096);
    assert_eq!(le32(&img.data[44..48]), 3);
    assert_eq!(le32(&img.data[48..52]), 0);
    assert_eq!(le32(&img.data[52..56]), 0);
    // directory entry 1
    assert_eq!(img.data[56], 1);
    assert_eq!(le32(&img.data[56 + 32..56 + 36]), 8192);
    assert_eq!(le32(&img.data[56 + 36..56 + 40]), 5000);
    assert_eq!(le32(&img.data[56 + 40..56 + 44]), 48000);
    // data
    assert_eq!(&img.data[4096..4099], &[1, 2, 3]);
    assert!(img.data[4099..8192].iter().all(|&x| x == 0xFF));
    assert!(img.data[8192..13192].iter().all(|&x| x == 9));
    assert!(img.data[13192..].iter().all(|&x| x == 0xFF));
    assert_eq!(img.entries.len(), 2);
    assert_eq!(img.entries[0], (0, "amp".to_string(), 4096, 3));
    assert_eq!(img.entries[1], (1, "cab".to_string(), 8192, 5000));
}

#[test]
fn empty_first_blob_skips_a_sector() {
    let blobs = vec![blob(2, "p", vec![], 0), blob(2, "q", vec![], 0), blob(0, "m", vec![7], 0)];
    let img = build(&blobs);
    assert_eq!(img.entries[0].2, 4096);
    assert_eq!(img.entries[1].2, 8192);
    assert_eq!(img.entries[2].2, 8192);
    assert_eq!(img.data.len(), 12288);
    assert_eq!(img.data[8192], 7);
}

#[test]
fn long_names_are_cut_to_thirty_bytes() {
    let name = "abcdefghijklmnopqrstuvwxyz0123456789";
    let img = build(&[blob(0, name, vec![1], 0)]);
    assert_eq!(&img.data[9..39], &name.as_bytes()[..30]);
    assert_eq!(img.data[39], 0);
    assert_eq!(img.entries[0].1, name);
}

#[test]
fn directory_beyond_count_field_does_not_fit() {
    let blobs: Vec<Blob> = (0..70000).map(|_| blob(2, "p", Vec::new(), 0)).collect();
    assert!(!image_fits(&blobs));
    let small: Vec<Blob> = (0..100).map(|_| blob(2, "p", Vec::new(), 0)).collect();
    assert!(image_fits(&small));
    assert_eq!(build(&small).data.len(), 12288);
}

#[test]
fn preset_blob_layout() {
    let g = 1.5f32.to_bits();
    let v = 0.25f32.to_bits();
    let b = pack_preset_blob("amp", "cab", g, v, true);
    assert_eq!(b.len(), 74);
    assert_eq!(&b[0..3], b"amp");
    assert!(b[3..31].iter().all(|&x| x == 0));
    assert_eq!(&b[31..34], b"cab");
    assert!(b[34..62].iter().all(|&x| x == 0));
    assert_eq!(f32::from_le_bytes([b[62], b[63], b[64], b[65]]), 1.5);
    assert_eq!(f32::from_le_bytes([b[66], b[67], b[68], b[69]]), 0.25);
    assert_eq!(&b[70..74], &[1, 0, 0, 0]);
    let off = pack_preset_blob("", "", 0, 0, false);
    assert_eq!(off[70], 0);
}

#[test]
fn taps_bytes_little_endian() {
    let taps = [0.5f32.to_bits(), (-1.0f32).to_bits()];
    let b = taps_to_bytes(&taps);
    assert_eq!(b.len(), 8);
    assert_eq!(&b[0..4], &0.5f32.to_le_bytes());
    assert_eq!(&b[4..8], &(-1.0f32).to_le_bytes());
}

#[test]
fn taps_are_trimmed_to_512() {
    let t = trim_to_max_taps(vec![0u32; 600], 44100);
    assert!(t.trimmed);
    assert_eq!(t.taps.len(), 512);
    assert_eq!(t.sample_rate, 44100);
    let u = trim_to_max_taps(vec![1u32; 512], 48000);
    assert!(!u.trimmed);
    assert_eq!(u.taps.len(), 512);
}

#[test]
fn wav_formats() {
    assert_eq!(sample_kind(true, 32), Ok(SampleKind::Float32));
    assert_eq!(sample_kind(false, 16), Ok(SampleKind::Int16));
    assert_eq!(sample_kind(false, 24), Ok(SampleKind::Int24));
    assert_eq!(
        sample_kind(false, 8),
        Err("Unsupported WAV format: Int 8-bit. Use 16-bit, 24-bit int, or 32-bit float.".to_string())
    );
    assert_eq!(
        sample_kind(true, 64),
        Err("Unsupported WAV format: Float 64-bit. Use 16-bit, 24-bit int, or 32-bit float.".to_string())
    );
}

#[test]
fn taps_serialize_bit_exact() {
    let taps = [1.0f32.to_bits(), (-2.0f32).to_bits()];
    assert_eq!(taps_to_bytes(&taps), vec![0, 0, 0x80, 0x3F, 0, 0, 0, 0xC0]);
    assert!(taps_to_bytes(&[]).is_empty());
}

#[test]
fn align_up_rounds_to_the_sector() {
    assert_eq!(align_up(4097, 4096), 8192);
    assert_eq!(align_up(4096, 4096), 4096);
    assert_eq!(align_up(0, 4096), 0);
    assert_eq!(align_up(5, 8), 8);
}

#[test]
fn name_field_is_31_bytes_with_a_final_zero() {
    let mut buf = vec![9u8];
    write_name(&mut buf, "amp");
    assert_eq!(buf.len(), 32);
    assert_eq!(&buf[1..4], b"amp");
    assert!(buf[4..].iter().all(|&b| b == 0));
    let mut long = Vec::new();
    write_name(&mut long, &"x".repeat(40));
    assert_eq!(long.len(), 31);
    assert!(long[..30].iter().all(|&b| b == b'x'));
    assert_eq!(long[30], 0);
}
