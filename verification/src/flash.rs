//! Building the flash image from the library, and reading what the DFU
//! flashing tool reports.
use crate::image_builder::{
    name_field, pack_preset_blob, preset_blob, BuiltImage, Blob, ENTRY_IR, ENTRY_MODEL, ENTRY_PRESET, PARTITION_SIZE,
};
use crate::library::{
    ir_name_for, law_ir_reference_names_the_ir, law_model_reference_names_the_model, model_name_for, resolve_ir_name,
    resolve_model_name,
};
use crate::text::{contains_text, text_contains};
use crate::types::{ImageEntry, ImageSummary, IrInfo, ModelInfo, Preset};
use crate::wav::{taps_to_bytes, words_le, IrTaps};
use vstd::prelude::*;

verus! {

/// USB id of the device in DFU mode.
pub const DFU_DEVICE_ID: &'static str = "0483:df11";

/// The blob of model `i`.
pub open spec fn model_blob_ok(b: Blob, m: ModelInfo, data: Seq<u8>) -> bool {
    b.entry_type == ENTRY_MODEL && b.name@ == m.name@ && b.data@ == data && b.samplerate == 0
}

/// The blob of IR `i`: its taps as bytes, at the sample rate of the file.
pub open spec fn ir_blob_ok(b: Blob, r: IrInfo, taps: IrTaps<u32>) -> bool {
    b.entry_type == ENTRY_IR && b.name@ == r.name@ && b.data@ == words_le(taps.taps@) && b.samplerate
        == taps.sample_rate
}

/// The blob of a preset, with the names of the model and IR it refers to.
pub open spec fn preset_blob_ok(b: Blob, p: Preset, models: Seq<ModelInfo>, irs: Seq<IrInfo>) -> bool {
    &&& b.entry_type == ENTRY_PRESET
    &&& b.name@ == p.name@
    &&& b.data@ == preset_blob(
        model_name_for(models, p.model_id),
        ir_name_for(irs, p.ir_id),
        p.input_gain_bits,
        p.output_volume_bits,
        p.bypass,
    )
    &&& b.samplerate == 0
}

/// The blobs of an image of the library: every model (its stored bytes),
/// then every IR (its taps), then every preset.
pub fn collect_blobs(
    models: &Vec<ModelInfo>,
    model_data: &Vec<Vec<u8>>,
    irs: &Vec<IrInfo>,
    ir_taps: &Vec<IrTaps<u32>>,
    presets: &Vec<Preset>,
) -> (r: Vec<Blob>)
    requires
        model_data@.len() == models@.len(),
        ir_taps@.len() == irs@.len(),
    ensures
        r@.len() == models@.len() + irs@.len() + presets@.len(),
        forall|i: int| 0 <= i < models@.len() ==> model_blob_ok(#[trigger] r@[i], models@[i], model_data@[i]@),
        forall|i: int|
            0 <= i < irs@.len() ==> ir_blob_ok(#[trigger] r@[models@.len() + i], irs@[i], ir_taps@[i]),
        forall|i: int|
            0 <= i < presets@.len() ==> preset_blob_ok(
                #[trigger] r@[models@.len() + irs@.len() + i],
                presets@[i],
                models@,
                irs@,
            ),
{
    let mut blobs: Vec<Blob> = Vec::new();
    let nm = models.len();
    let ni = irs.len();
    let mut i: usize = 0;
    while i < nm
        invariant
            nm == models@.len(),
            model_data@.len() == nm,
            i <= nm,
            blobs@.len() == i,
            forall|k: int| 0 <= k < i ==> model_blob_ok(#[trigger] blobs@[k], models@[k], model_data@[k]@),
        decreases nm - i,
    {
        let data = model_data[i].clone();
        assert(data@ =~= model_data@[i as int]@);
        blobs.push(Blob { entry_type: ENTRY_MODEL, name: models[i].name.clone(), data, samplerate: 0 });
        i += 1;
    }
    let mut j: usize = 0;
    while j < ni
        invariant
            nm == models@.len(),
            ni == irs@.len(),
            ir_taps@.len() == ni,
            j <= ni,
            blobs@.len() == nm + j,
            forall|k: int| 0 <= k < nm ==> model_blob_ok(#[trigger] blobs@[k], models@[k], model_data@[k]@),
            forall|k: int| 0 <= k < j ==> ir_blob_ok(#[trigger] blobs@[nm + k], irs@[k], ir_taps@[k]),
        decreases ni - j,
    {
        let t = &ir_taps[j];
        let data = taps_to_bytes(t.taps.as_slice());
        blobs.push(Blob { entry_type: ENTRY_IR, name: irs[j].name.clone(), data, samplerate: t.sample_rate });
        j += 1;
    }
    let np = presets.len();
    let mut k: usize = 0;
    while k < np
        invariant
            nm == models@.len(),
            ni == irs@.len(),
            np == presets@.len(),
            k <= np,
            blobs@.len() == nm + ni + k,
            forall|x: int| 0 <= x < nm ==> model_blob_ok(#[trigger] blobs@[x], models@[x], model_data@[x]@),
            forall|x: int| 0 <= x < ni ==> ir_blob_ok(#[trigger] blobs@[nm + x], irs@[x], ir_taps@[x]),
            forall|x: int| 0 <= x < k ==> preset_blob_ok(#[trigger] blobs@[nm + ni + x], presets@[x], models@, irs@),
        decreases np - k,
    {
        let p = &presets[k];
        let model_name = resolve_model_name(models, &p.model_id);
        let ir_name = resolve_ir_name(irs, &p.ir_id);
        let data = pack_preset_blob(
            model_name.as_str(),
            ir_name.as_str(),
            p.input_gain_bits,
            p.output_volume_bits,
            p.bypass,
        );
        blobs.push(Blob { entry_type: ENTRY_PRESET, name: p.name.clone(), data, samplerate: 0 });
        k += 1;
    }
    blobs
}

/// How an entry type is reported.
pub open spec fn entry_type_text(t: u8) -> Seq<char> {
    if t == ENTRY_MODEL {
        "model"@
    } else if t == ENTRY_IR {
        "ir"@
    } else {
        "preset"@
    }
}

fn entry_type_name(t: u8) -> (r: String)
    ensures
        r@ == entry_type_text(t),
{
    if t == ENTRY_MODEL {
        String::from_str("model")
    } else if t == ENTRY_IR {
        String::from_str("ir")
    } else {
        String::from_str("preset")
    }
}

/// What a built image is reported as: each entry with its type, name,
/// size and offset; the image size; the partition size; and the room left,
/// zero when the image is larger than the partition. The size is taken as
/// a `u32`, truncated as `as` does; `build` never makes a larger image.
pub fn image_summary(built: &BuiltImage, image_path: String) -> (r: ImageSummary)
    ensures
        r.entries@.len() == built.entries@.len(),
        forall|i: int|
            0 <= i < built.entries@.len() ==> {
                &&& (#[trigger] r.entries@[i]).entry_type@ == entry_type_text(built.entries@[i].0)
                &&& r.entries@[i].name@ == built.entries@[i].1@
                &&& r.entries@[i].offset == built.entries@[i].2
                &&& r.entries@[i].size_bytes == built.entries@[i].3
            },
        r.total_bytes == built.data@.len() as u32,
        r.partition_bytes == PARTITION_SIZE,
        r.free_bytes == if r.total_bytes <= PARTITION_SIZE { PARTITION_SIZE - r.total_bytes } else { 0 },
        r.image_path == image_path,
{
    let total_bytes = built.data.len() as u32;
    let partition = crate::image_builder::partition_size();
    let mut entries: Vec<ImageEntry> = Vec::with_capacity(built.entries.len());
    let mut i: usize = 0;
    while i < built.entries.len()
        invariant
            i <= built.entries@.len(),
            entries@.len() == i,
            forall|k: int|
                0 <= k < i ==> {
                    &&& (#[trigger] entries@[k]).entry_type@ == entry_type_text(built.entries@[k].0)
                    &&& entries@[k].name@ == built.entries@[k].1@
                    &&& entries@[k].offset == built.entries@[k].2
                    &&& entries@[k].size_bytes == built.entries@[k].3
                },
        decreases built.entries@.len() - i,
    {
        let e = &built.entries[i];
        entries.push(ImageEntry { entry_type: entry_type_name(e.0), name: e.1.clone(), size_bytes: e.3, offset: e.2 });
        i += 1;
    }
    let free_bytes = if total_bytes <= partition { partition - total_bytes } else { 0 };
    ImageSummary { entries, total_bytes, partition_bytes: partition, free_bytes, image_path }
}

/// Whether the listing of `dfu-util -l` shows the device in DFU mode.
pub fn dfu_device_present(output: &str) -> (r: bool)
    ensures
        r == contains_text(output@, DFU_DEVICE_ID@),
{
    text_contains(output, DFU_DEVICE_ID)
}

/// The outcome of flashing, from the tool's output: any mention of "Error"
/// or "error" is a failure that carries the whole output.
pub fn flash_outcome(output: &str) -> (r: Result<(), String>)
    ensures
        r is Ok <==> !(contains_text(output@, "Error"@) || contains_text(output@, "error"@)),
        r matches Err(m) ==> m@ == "dfu-util reported an error:\n"@ + output@,
{
    if text_contains(output, "Error") || text_contains(output, "error") {
        let mut m = String::from_str("dfu-util reported an error:\n");
        m.append(output);
        Err(m)
    } else {
        Ok(())
    }
}

fn text(s: &str) -> (r: String)
    ensures
        r@ == s@,
{
    String::from_str(s)
}

/// Arguments of `dfu-util` that list the attached DFU devices.
pub fn detect_args() -> (r: Vec<String>)
    ensures
        r.deep_view() == seq!["-l"@],
{
    let mut v: Vec<String> = Vec::new();
    v.push(text("-l"));
    assert(v.deep_view() =~= seq!["-l"@]);
    v
}

/// Arguments of `dfu-util` that write the image at `image_path` to the
/// data partition (alternate setting 0, address 0x90200000) and leave DFU.
pub fn flash_args(image_path: &str) -> (r: Vec<String>)
    ensures
        r.deep_view() == seq![
            "-a"@,
            "0"@,
            "-s"@,
            "0x90200000:leave"@,
            "-D"@,
            image_path@,
            "-d"@,
            ",0483:df11"@,
        ],
{
    let mut v: Vec<String> = Vec::new();
    v.push(text("-a"));
    v.push(text("0"));
    v.push(text("-s"));
    v.push(text("0x90200000:leave"));
    v.push(text("-D"));
    v.push(text(image_path));
    v.push(text("-d"));
    v.push(text(",0483:df11"));
    assert(v.deep_view() =~= seq![
        "-a"@,
        "0"@,
        "-s"@,
        "0x90200000:leave"@,
        "-D"@,
        image_path@,
        "-d"@,
        ",0483:df11"@,
    ]);
    v
}

/// Each image entry is reported under the name of its own type: type byte
/// 0 (a model) as "model", 1 (an IR) as "ir", 2 (a preset) as "preset".
pub proof fn law_entry_types_are_named(t: u8)
    ensures
        ENTRY_MODEL == 0 && ENTRY_IR == 1 && ENTRY_PRESET == 2,
        entry_type_text(0) == "model"@,
        entry_type_text(1) == "ir"@,
        entry_type_text(2) == "preset"@,
        t != 0 && t != 1 ==> entry_type_text(t) == "preset"@,
{
}

/// A preset's blob names what the preset refers to: its first 31 bytes are
/// the name field of the referenced model's `name`, the next 31 that of the
/// referenced IR's `name` (the first model and IR with those ids).
pub proof fn law_preset_blob_names(
    b: Blob,
    p: Preset,
    models: Seq<ModelInfo>,
    irs: Seq<IrInfo>,
    model_id: String,
    m: int,
    ir_id: String,
    k: int,
)
    requires
        preset_blob_ok(b, p, models, irs),
        p.model_id == Some(model_id),
        0 <= m < models.len(),
        models[m].id@ == model_id@,
        forall|j: int| 0 <= j < m ==> models[j].id@ != model_id@,
        p.ir_id == Some(ir_id),
        0 <= k < irs.len(),
        irs[k].id@ == ir_id@,
        forall|j: int| 0 <= j < k ==> irs[j].id@ != ir_id@,
    ensures
        b.entry_type == 2,
        b.data@.len() == 74,
        b.data@.subrange(0, 31) == name_field(models[m].name@),
        b.data@.subrange(31, 62) == name_field(irs[k].name@),
{
    law_model_reference_names_the_model(models, model_id, m);
    law_ir_reference_names_the_ir(irs, ir_id, k);
    let mf = name_field(models[m].name@);
    let rf = name_field(irs[k].name@);
    assert(mf.len() == 31);
    assert(rf.len() == 31);
    assert(b.data@.subrange(0, 31) =~= mf);
    assert(b.data@.subrange(31, 62) =~= rf);
}

} // verus!
