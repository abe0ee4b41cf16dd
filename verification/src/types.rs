//! Records of the library: models, impulse responses, presets, and what an
//! image build reports.
use vstd::prelude::*;

verus! {

/// A model in the library.
pub struct ModelInfo {
    pub id: String,
    pub name: String,
    pub size_bytes: u64,
    pub imported_at: String,
    pub tone3000_id: Option<String>,
    pub tone3000_model_id: Option<String>,
}

/// An impulse response in the library.
pub struct IrInfo {
    pub id: String,
    pub name: String,
    pub tap_count: u32,
    pub sample_rate: u32,
    /// The file had more than 512 taps; the image keeps the first 512.
    pub trimmed: bool,
    pub size_bytes: u64,
    pub imported_at: String,
}

/// A preset: a model, an IR and the two gains. The gains are kept as the
/// bit patterns of their `f32` values (`f32::to_bits`): input gain in
/// 0.0..2.0, output volume in 0.0..1.0.
pub struct Preset {
    pub id: String,
    pub name: String,
    pub model_id: Option<String>,
    pub ir_id: Option<String>,
    pub input_gain_bits: u32,
    pub output_volume_bits: u32,
    pub bypass: bool,
}

/// One entry of a built image, as reported to the user.
pub struct ImageEntry {
    /// "model", "ir" or "preset".
    pub entry_type: String,
    pub name: String,
    pub size_bytes: u32,
    pub offset: u32,
}

/// What an image build reports.
pub struct ImageSummary {
    pub entries: Vec<ImageEntry>,
    pub total_bytes: u32,
    pub partition_bytes: u32,
    pub free_bytes: u32,
    pub image_path: String,
}

/// Whether the flashing device is attached.
pub struct DeviceStatus {
    pub connected: bool,
}

/// A copy of an optional string.
pub fn copy_opt(s: &Option<String>) -> (r: Option<String>)
    ensures
        r == *s,
{
    match s {
        Some(x) => Some(x.clone()),
        None => None,
    }
}

impl ModelInfo {
    /// A field-by-field copy.
    pub fn duplicate(&self) -> (r: ModelInfo)
        ensures
            r == *self,
    {
        ModelInfo {
            id: self.id.clone(),
            name: self.name.clone(),
            size_bytes: self.size_bytes,
            imported_at: self.imported_at.clone(),
            tone3000_id: copy_opt(&self.tone3000_id),
            tone3000_model_id: copy_opt(&self.tone3000_model_id),
        }
    }
}

impl IrInfo {
    /// A field-by-field copy.
    pub fn duplicate(&self) -> (r: IrInfo)
        ensures
            r == *self,
    {
        IrInfo {
            id: self.id.clone(),
            name: self.name.clone(),
            tap_count: self.tap_count,
            sample_rate: self.sample_rate,
            trimmed: self.trimmed,
            size_bytes: self.size_bytes,
            imported_at: self.imported_at.clone(),
        }
    }
}

impl Preset {
    /// A field-by-field copy.
    pub fn duplicate(&self) -> (r: Preset)
        ensures
            r == *self,
    {
        Preset {
            id: self.id.clone(),
            name: self.name.clone(),
            model_id: copy_opt(&self.model_id),
            ir_id: copy_opt(&self.ir_id),
            input_gain_bits: self.input_gain_bits,
            output_volume_bits: self.output_volume_bits,
            bypass: self.bypass,
        }
    }
}

} // verus!
