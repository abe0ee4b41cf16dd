//! The QSPI data image: models, IRs and presets packed into one binary.
//!
//! Binary layout (all little-endian):
//!   header (8 bytes): magic(4) version(2) count(2)
//!   directory entries (48 bytes each): type(1) name(31) offset(4) length(4) sr(4) reserved(4)
//!   blobs, 4 KB-aligned
//!
//! Preset blob (74 bytes, packed): model_name(31) ir_name(31) input_gain(4)
//!                                  output_volume(4) bypass(1) pad(3)
use crate::le_bytes::{le16, le32, push_u16_le, push_u32_le};
use vstd::prelude::*;
use vstd::arithmetic::power2::{lemma_pow2_pos, pow2};
use vstd::bits::{lemma_u32_low_bits_mask_is_mod, lemma_u32_pow2_no_overflow, low_bits_mask};
use vstd::utf8::encode_utf8;

verus! {

/// 'NAMD' read as a little-endian u32.
pub const NAM_DATA_MAGIC: u32 = 0x444D_414E;
pub const NAM_DATA_VERSION: u16 = 1;
pub const SECTOR_SIZE: u32 = 4096;
/// Size of the QSPI data partition: 6 MB.
pub const PARTITION_SIZE: u32 = 6 * 1024 * 1024;

pub const ENTRY_MODEL: u8 = 0;
pub const ENTRY_IR: u8 = 1;
pub const ENTRY_PRESET: u8 = 2;

/// Bytes of a name field; the last one is always a terminating zero.
pub const NAME_LEN: usize = 31;
pub const HEADER_SIZE: u32 = 8;
pub const ENTRY_SIZE: u32 = 48;
pub const PRESET_BLOB_SIZE: usize = 74;

/// One item to place in the image.
pub struct Blob {
    pub entry_type: u8,
    pub name: String,
    pub data: Vec<u8>,
    pub samplerate: u32,
}

/// A finished image and, for each blob, (type, name, offset, length).
pub struct BuiltImage {
    pub data: Vec<u8>,
    pub entries: Vec<(u8, String, u32, u32)>,
}

/// `n` zero bytes.
pub open spec fn zeros(n: int) -> Seq<u8> {
    Seq::new(n as nat, |i: int| 0u8)
}

/// How many bytes of a name's UTF-8 encoding are kept: at most 30.
pub open spec fn name_kept(name: Seq<char>) -> int {
    let b = encode_utf8(name);
    if b.len() < NAME_LEN - 1 { b.len() as int } else { NAME_LEN - 1 }
}

/// A 31-byte name field: the UTF-8 bytes of `name` cut to 30, then zeros.
pub open spec fn name_field(name: Seq<char>) -> Seq<u8> {
    encode_utf8(name).take(name_kept(name)) + zeros(NAME_LEN - name_kept(name))
}

/// The 8-byte image header.
pub open spec fn header_bytes(count: u16) -> Seq<u8> {
    le32(NAM_DATA_MAGIC) + le16(NAM_DATA_VERSION) + le16(count)
}

/// A 48-byte directory entry.
pub open spec fn entry_bytes(entry_type: u8, name: Seq<char>, offset: u32, length: u32, samplerate: u32) -> Seq<u8> {
    seq![entry_type] + name_field(name) + le32(offset) + le32(length) + le32(samplerate) + le32(0)
}

/// The 74-byte preset blob; the two gains are given as the bit patterns of
/// their `f32` values.
pub open spec fn preset_blob(
    model_name: Seq<char>,
    ir_name: Seq<char>,
    input_gain_bits: u32,
    output_volume_bits: u32,
    bypass: bool,
) -> Seq<u8> {
    name_field(model_name) + name_field(ir_name) + le32(input_gain_bits) + le32(output_volume_bits)
        + seq![if bypass { 1u8 } else { 0u8 }] + zeros(3)
}

/// The least multiple of `a` that is at least `v`.
pub open spec fn round_up(v: int, a: int) -> int {
    ((v + a - 1) / a) * a
}

/// Rounds `v` up with the mask of `align`; for the sector size that is the
/// least multiple of 4096 that is at least `v`.
pub fn align_up(v: u32, align: u32) -> (r: u32)
    requires
        align >= 1,
        v + align - 1 <= u32::MAX,
    ensures
        r == ((v + align - 1) as u32) & !((align - 1) as u32),
        align == SECTOR_SIZE ==> r == round_up(v as int, SECTOR_SIZE as int),
{
    let s = v + (align - 1);
    let m = align - 1;
    if align == SECTOR_SIZE {
        assert((s & !4095u32) == s - s % 4096) by (bit_vector);
        assert(s - s % 4096 == (s / 4096) * 4096) by (nonlinear_arith);
    }
    s & !m
}

/// Appends the 31-byte name field of `name` to `buf`.
pub fn write_name(buf: &mut Vec<u8>, name: &str)
    ensures
        final(buf)@ == old(buf)@ + name_field(name@),
{
    let bytes = name.as_bytes();
    let ghost start = buf@;
    let len = if bytes.len() < NAME_LEN - 1 { bytes.len() } else { NAME_LEN - 1 };
    assert(len == name_kept(name@));
    let mut i: usize = 0;
    while i < len
        invariant
            0 <= i <= len,
            len <= bytes@.len(),
            buf@ == start + bytes@.take(i as int),
        decreases len - i,
    {
        buf.push(bytes[i]);
        i += 1;
        assert(bytes@.take(i as int) == bytes@.take(i - 1) + seq![bytes@[i - 1]]);
    }
    let mut j: usize = len;
    while j < NAME_LEN
        invariant
            len <= j <= NAME_LEN,
            buf@ == start + bytes@.take(len as int) + zeros(j - len),
        decreases NAME_LEN - j,
    {
        buf.push(0u8);
        j += 1;
        assert(zeros(j - len) == zeros(j - 1 - len) + seq![0u8]);
    }
}

/// Appends one 48-byte directory entry to `buf`.
pub fn write_entry(buf: &mut Vec<u8>, entry_type: u8, name: &str, offset: u32, length: u32, samplerate: u32)
    ensures
        final(buf)@ == old(buf)@ + entry_bytes(entry_type, name@, offset, length, samplerate),
{
    let ghost start = buf@;
    buf.push(entry_type);
    write_name(buf, name);
    push_u32_le(buf, offset);
    push_u32_le(buf, length);
    push_u32_le(buf, samplerate);
    push_u32_le(buf, 0);
    assert(buf@ == start + entry_bytes(entry_type, name@, offset, length, samplerate));
}

/// Packs a preset into its 74-byte blob. The gains are passed as the bit
/// patterns of their `f32` values (`f32::to_bits`), which is exactly what the
/// little-endian float encoding writes.
pub fn pack_preset_blob(
    model_name: &str,
    ir_name: &str,
    input_gain_bits: u32,
    output_volume_bits: u32,
    bypass: bool,
) -> (r: Vec<u8>)
    ensures
        r@ == preset_blob(model_name@, ir_name@, input_gain_bits, output_volume_bits, bypass),
        r@.len() == PRESET_BLOB_SIZE,
{
    let mut buf: Vec<u8> = Vec::with_capacity(PRESET_BLOB_SIZE);
    write_name(&mut buf, model_name);
    write_name(&mut buf, ir_name);
    push_u32_le(&mut buf, input_gain_bits);
    push_u32_le(&mut buf, output_volume_bits);
    buf.push(if bypass { 1u8 } else { 0u8 });
    buf.push(0u8);
    buf.push(0u8);
    buf.push(0u8);
    assert(buf@ == preset_blob(model_name@, ir_name@, input_gain_bits, output_volume_bits, bypass));
    buf
}

/// Size of the data partition the image is flashed to.
pub fn partition_size() -> (r: u32)
    ensures
        r == PARTITION_SIZE,
        r == 6291456,
{
    PARTITION_SIZE
}

/// End of the directory for `n` blobs; the count field is 16 bits wide, so
/// the directory is sized for `n` modulo 65536 entries.
pub open spec fn dir_end(n: nat) -> int {
    HEADER_SIZE + ENTRY_SIZE * (n % 65536)
}

/// First sector after the directory, and never below the second sector.
pub open spec fn blob_area_start(n: nat) -> int {
    let r = round_up(dir_end(n), SECTOR_SIZE as int);
    if r < SECTOR_SIZE { SECTOR_SIZE as int } else { r }
}

/// Where the next blob goes after one of `len` bytes placed at `cursor`:
/// the next sector boundary, skipping one more sector when an empty first
/// blob would leave the cursor at the start of the blob area.
pub open spec fn next_cursor(start: int, cursor: int, len: int) -> int {
    let c = round_up(cursor + len, SECTOR_SIZE as int);
    if c == start { c + SECTOR_SIZE } else { c }
}

/// Length of the data of blob `i`.
pub open spec fn blob_len(blobs: Seq<Blob>, i: int) -> int {
    blobs[i].data@.len() as int
}

/// The placement cursor after the first `k` blobs have been placed.
pub open spec fn cursor_at(blobs: Seq<Blob>, k: nat) -> int
    decreases k,
{
    if k == 0 {
        blob_area_start(blobs.len())
    } else {
        next_cursor(
            blob_area_start(blobs.len()),
            cursor_at(blobs, (k - 1) as nat),
            blob_len(blobs, k - 1),
        )
    }
}

/// Offset in the image of blob `i`.
pub open spec fn blob_offset(blobs: Seq<Blob>, i: int) -> int {
    cursor_at(blobs, i as nat)
}

/// Total size of the image.
pub open spec fn image_size(blobs: Seq<Blob>) -> int {
    cursor_at(blobs, blobs.len())
}

/// The size arithmetic stays within `u32` and every directory entry lies
/// inside the image: exactly the inputs on which `build` runs to the end.
pub open spec fn build_fits(blobs: Seq<Blob>) -> bool {
    &&& forall|k: int|
        0 <= k < blobs.len() ==> #[trigger] cursor_at(blobs, k as nat) + blob_len(blobs, k)
            + SECTOR_SIZE - 1 <= u32::MAX
    &&& HEADER_SIZE + ENTRY_SIZE * blobs.len() <= image_size(blobs)
}

/// `s` with `t` written over it from `pos` on.
pub open spec fn splice(s: Seq<u8>, pos: int, t: Seq<u8>) -> Seq<u8> {
    s.take(pos) + t + s.skip(pos + t.len())
}

/// Directory entry of blob `i`.
pub open spec fn entry_of(blobs: Seq<Blob>, i: int) -> Seq<u8> {
    entry_bytes(
        blobs[i].entry_type,
        blobs[i].name@,
        blob_offset(blobs, i) as u32,
        blob_len(blobs, i) as u32,
        blobs[i].samplerate,
    )
}

/// An erased (all 0xFF) image with the header and the first `k` directory
/// entries written over it.
pub open spec fn image_with_entries(blobs: Seq<Blob>, k: nat) -> Seq<u8>
    decreases k,
{
    if k == 0 {
        splice(
            Seq::new(image_size(blobs) as nat, |i: int| 0xFFu8),
            0,
            header_bytes((blobs.len() % 65536) as u16),
        )
    } else {
        splice(
            image_with_entries(blobs, (k - 1) as nat),
            HEADER_SIZE + ENTRY_SIZE * (k - 1),
            entry_of(blobs, k - 1),
        )
    }
}

/// The image with the whole directory and then the data of the first `k`
/// blobs written over it.
pub open spec fn image_with_data(blobs: Seq<Blob>, k: nat) -> Seq<u8>
    decreases k,
{
    if k == 0 {
        image_with_entries(blobs, blobs.len())
    } else {
        splice(image_with_data(blobs, (k - 1) as nat), blob_offset(blobs, k - 1), blobs[k - 1].data@)
    }
}

/// The bytes of the image built from `blobs`.
pub open spec fn image_bytes(blobs: Seq<Blob>) -> Seq<u8> {
    image_with_data(blobs, blobs.len())
}

pub(crate) proof fn lemma_round_up(v: int)
    requires
        v >= 0,
    ensures
        v <= round_up(v, SECTOR_SIZE as int) < v + SECTOR_SIZE,
        round_up(v, SECTOR_SIZE as int) % (SECTOR_SIZE as int) == 0,
        v % (SECTOR_SIZE as int) == 0 ==> round_up(v, SECTOR_SIZE as int) == v,
{
    let q = (v + 4095) / 4096;
    assert(v + 4095 == 4096 * q + (v + 4095) % 4096);
    assert((q * 4096) % 4096 == 0) by (nonlinear_arith);
}

/// The cursor never falls below the start of the blob area, stays on
/// sector boundaries, and moves past each blob it places.
pub(crate) proof fn lemma_cursor_step(blobs: Seq<Blob>, k: nat)
    requires
        k <= blobs.len(),
    ensures
        cursor_at(blobs, k) >= blob_area_start(blobs.len()) >= SECTOR_SIZE,
        cursor_at(blobs, k) % (SECTOR_SIZE as int) == 0,
        k < blobs.len() ==> cursor_at(blobs, k + 1) >= cursor_at(blobs, k) + blob_len(blobs, k as int),
        k < blobs.len() ==> cursor_at(blobs, k + 1) > blob_area_start(blobs.len()),
    decreases k,
{
    lemma_round_up(dir_end(blobs.len()));
    if k > 0 {
        lemma_cursor_step(blobs, (k - 1) as nat);
    }
    if k < blobs.len() {
        lemma_round_up(cursor_at(blobs, k) + blob_len(blobs, k as int));
        assert(cursor_at(blobs, k + 1) == next_cursor(
            blob_area_start(blobs.len()),
            cursor_at(blobs, k),
            blob_len(blobs, k as int),
        ));
    }
}

/// The cursor only moves forward.
pub(crate) proof fn lemma_cursor_mono(blobs: Seq<Blob>, j: nat, k: nat)
    requires
        j <= k <= blobs.len(),
    ensures
        cursor_at(blobs, j) <= cursor_at(blobs, k),
    decreases k - j,
{
    if j < k {
        lemma_cursor_step(blobs, j);
        lemma_cursor_mono(blobs, j + 1, k);
    }
}

/// Writes `src` over `image` from `pos` on.
fn copy_into(image: &mut Vec<u8>, pos: usize, src: &[u8])
    requires
        pos + src@.len() <= old(image)@.len(),
    ensures
        final(image)@ == splice(old(image)@, pos as int, src@),
{
    let ghost start = image@;
    let ilen = image.len();
    let mut j: usize = 0;
    while j < src.len()
        invariant
            pos + src@.len() <= start.len(),
            start.len() == ilen,
            j <= src@.len(),
            image@.len() == start.len(),
            image@ == splice(start, pos as int, src@.take(j as int)),
        decreases src@.len() - j,
    {
        image[pos + j] = src[j];
        j += 1;
        assert(image@ =~= splice(start, pos as int, src@.take(j as int)));
    }
    assert(src@.take(src@.len() as int) =~= src@);
}

/// Offsets of all blobs, computed with the same `u32` arithmetic as the image.
fn place_blobs(blobs: &[Blob]) -> (res: (Vec<u32>, u32))
    requires
        build_fits(blobs@),
    ensures
        res.1 == image_size(blobs@),
        res.0@.len() == blobs@.len(),
        forall|k: int| 0 <= k < blobs@.len() ==> res.0@[k] == #[trigger] cursor_at(blobs@, k as nat),
{
    let ghost bs = blobs@;
    let n = blobs.len();
    let count: u16 = (n % 65536) as u16;
    let dir_end = HEADER_SIZE + ENTRY_SIZE * (count as u32);
    let aligned_dir_end = align_up(dir_end, SECTOR_SIZE);
    let area_start = if aligned_dir_end < SECTOR_SIZE { SECTOR_SIZE } else { aligned_dir_end };
    proof {
        lemma_round_up(dir_end as int);
        lemma_round_up(area_start as int);
    }
    let start_aligned = align_up(area_start, SECTOR_SIZE);
    let mut offsets: Vec<u32> = Vec::with_capacity(n);
    let mut cursor = area_start;
    let mut i: usize = 0;
    while i < n
        invariant
            n == bs.len(),
            bs == blobs@,
            build_fits(bs),
            i <= n,
            area_start == blob_area_start(n as nat),
            start_aligned == area_start,
            area_start <= 8 + 48 * 65535 + SECTOR_SIZE,
            cursor == cursor_at(bs, i as nat),
            offsets@.len() == i,
            forall|k: int| 0 <= k < i ==> offsets@[k] == #[trigger] cursor_at(bs, k as nat),
        decreases n - i,
    {
        offsets.push(cursor);
        let ghost k = i as int;
        assert(cursor_at(bs, k as nat) + blob_len(bs, k) + SECTOR_SIZE - 1 <= u32::MAX);
        let len = blobs[i].data.len() as u32;
        cursor = align_up(cursor + len, SECTOR_SIZE);
        if cursor == start_aligned {
            cursor = cursor + SECTOR_SIZE;
        }
        i += 1;
        assert(cursor == cursor_at(bs, i as nat));
    }
    (offsets, cursor)
}

/// Writes the directory entries over `image` and returns what each says.
fn write_directory(image: &mut Vec<u8>, blobs: &[Blob], offsets: &Vec<u32>) -> (entries: Vec<(u8, String, u32, u32)>)
    requires
        HEADER_SIZE + ENTRY_SIZE * blobs@.len() <= image_size(blobs@) <= u32::MAX,
        forall|k: int| 0 <= k < blobs@.len() ==> #[trigger] blob_len(blobs@, k) <= u32::MAX,
        old(image)@ == image_with_entries(blobs@, 0),
        old(image)@.len() == image_size(blobs@),
        offsets@.len() == blobs@.len(),
        forall|k: int| 0 <= k < blobs@.len() ==> offsets@[k] == #[trigger] cursor_at(blobs@, k as nat),
    ensures
        final(image)@ == image_with_entries(blobs@, blobs@.len()),
        final(image)@.len() == old(image)@.len(),
        entries@.len() == blobs@.len(),
        forall|k: int|
            0 <= k < blobs@.len() ==> {
                &&& (#[trigger] entries@[k]).0 == blobs@[k].entry_type
                &&& entries@[k].1@ == blobs@[k].name@
                &&& entries@[k].2 == blob_offset(blobs@, k)
                &&& entries@[k].3 == blob_len(blobs@, k)
            },
{
    let ghost bs = blobs@;
    let n = blobs.len();
    let total = image.len();
    let mut entries: Vec<(u8, String, u32, u32)> = Vec::with_capacity(n);
    let mut i: usize = 0;
    while i < n
        invariant
            n == bs.len(),
            bs == blobs@,
            HEADER_SIZE + ENTRY_SIZE * n <= total <= u32::MAX,
            forall|k: int| 0 <= k < n ==> #[trigger] blob_len(bs, k) <= u32::MAX,
            i <= n,
            total == image_size(bs),
            offsets@.len() == n,
            forall|k: int| 0 <= k < n ==> offsets@[k] == #[trigger] cursor_at(bs, k as nat),
            image@ == image_with_entries(bs, i as nat),
            image@.len() == total,
            entries@.len() == i,
            forall|k: int|
                0 <= k < i ==> {
                    &&& (#[trigger] entries@[k]).0 == bs[k].entry_type
                    &&& entries@[k].1@ == bs[k].name@
                    &&& entries@[k].2 == blob_offset(bs, k)
                    &&& entries@[k].3 == blob_len(bs, k)
                },
        decreases n - i,
    {
        let off = offsets[i];
        assert(blob_len(bs, i as int) <= u32::MAX);
        let length = blobs[i].data.len() as u32;
        let iu = i as u32;
        assert(iu == i);
        assert(HEADER_SIZE + ENTRY_SIZE * iu + ENTRY_SIZE <= total);
        let pos = (HEADER_SIZE + ENTRY_SIZE * iu) as usize;
        let mut e: Vec<u8> = Vec::with_capacity(48);
        write_entry(&mut e, blobs[i].entry_type, blobs[i].name.as_str(), off, length, blobs[i].samplerate);
        assert(e@ == entry_of(bs, i as int));
        let ghost prev = image@;
        copy_into(image, pos, e.as_slice());
        assert(image@ == splice(prev, pos as int, entry_of(bs, i as int)));
        assert(image_with_entries(bs, (i + 1) as nat) == splice(prev, pos as int, entry_of(bs, i as int)));
        entries.push((blobs[i].entry_type, blobs[i].name.clone(), off, length));
        i += 1;
    }
    entries
}

/// Writes every blob's data over `image` at its offset.
fn write_blobs(image: &mut Vec<u8>, blobs: &[Blob], offsets: &Vec<u32>)
    requires
        build_fits(blobs@),
        old(image)@ == image_with_data(blobs@, 0),
        old(image)@.len() == image_size(blobs@),
        offsets@.len() == blobs@.len(),
        forall|k: int| 0 <= k < blobs@.len() ==> offsets@[k] == #[trigger] cursor_at(blobs@, k as nat),
    ensures
        final(image)@ == image_bytes(blobs@),
        final(image)@.len() == old(image)@.len(),
{
    let ghost bs = blobs@;
    let n = blobs.len();
    let total = image.len();
    let mut i: usize = 0;
    while i < n
        invariant
            n == bs.len(),
            bs == blobs@,
            i <= n,
            total == image_size(bs),
            offsets@.len() == n,
            forall|k: int| 0 <= k < n ==> offsets@[k] == #[trigger] cursor_at(bs, k as nat),
            image@ == image_with_data(bs, i as nat),
            image@.len() == total,
        decreases n - i,
    {
        let off = offsets[i] as usize;
        proof {
            lemma_cursor_step(bs, i as nat);
            lemma_cursor_mono(bs, (i + 1) as nat, n as nat);
        }
        copy_into(image, off, blobs[i].data.as_slice());
        i += 1;
    }
}

/// Builds the data image: header, a directory entry per blob, and each
/// blob's data at the next 4 KB boundary; bytes not written are 0xFF.
pub fn build(blobs: &[Blob]) -> (r: BuiltImage)
    requires
        build_fits(blobs@),
    ensures
        r.data@ == image_bytes(blobs@),
        r.data@.len() == image_size(blobs@),
        image_size(blobs@) <= u32::MAX,
        r.data@.subrange(0, HEADER_SIZE as int) == header_bytes((blobs@.len() % 65536) as u16),
        blobs@.len() < 65536 ==> forall|i: int|
            0 <= i < blobs@.len() ==> #[trigger] r.data@.subrange(
                HEADER_SIZE + ENTRY_SIZE * i,
                HEADER_SIZE + ENTRY_SIZE * i + ENTRY_SIZE,
            ) == entry_of(blobs@, i),
        forall|i: int|
            0 <= i < blobs@.len() ==> #[trigger] r.data@.subrange(
                blob_offset(blobs@, i),
                blob_offset(blobs@, i) + blob_len(blobs@, i),
            ) == blobs@[i].data@,
        r.entries@.len() == blobs@.len(),
        forall|i: int|
            0 <= i < blobs@.len() ==> {
                &&& (#[trigger] r.entries@[i]).0 == blobs@[i].entry_type
                &&& r.entries@[i].1@ == blobs@[i].name@
                &&& r.entries@[i].2 == blob_offset(blobs@, i)
                &&& r.entries@[i].3 == blob_len(blobs@, i)
            },
{
    let ghost bs = blobs@;
    let n = blobs.len();
    let count: u16 = (n % 65536) as u16;
    let (offsets, total) = place_blobs(blobs);
    proof {
        lemma_cursor_step(bs, n as nat);
    }
    let mut image = vec![0xFFu8; total as usize];
    assert(image@ =~= Seq::new(image_size(bs) as nat, |k: int| 0xFFu8));

    let mut header: Vec<u8> = Vec::with_capacity(8);
    push_u32_le(&mut header, NAM_DATA_MAGIC);
    push_u16_le(&mut header, NAM_DATA_VERSION);
    push_u16_le(&mut header, count);
    copy_into(&mut image, 0, header.as_slice());

    assert forall|k: int| 0 <= k < n implies #[trigger] blob_len(bs, k) <= u32::MAX by {
        assert(cursor_at(bs, k as nat) + blob_len(bs, k) + SECTOR_SIZE - 1 <= u32::MAX);
    }
    let entries = write_directory(&mut image, blobs, &offsets);
    write_blobs(&mut image, blobs, &offsets);
    proof {
        crate::image_laws::law_header(bs);
        if n < 65536 {
            assert forall|i: int| 0 <= i < n implies #[trigger] image@.subrange(
                HEADER_SIZE + ENTRY_SIZE * i,
                HEADER_SIZE + ENTRY_SIZE * i + ENTRY_SIZE,
            ) == entry_of(bs, i) by {
                crate::image_laws::law_directory(bs, i);
            }
        }
        assert forall|i: int| 0 <= i < n implies #[trigger] image@.subrange(
            blob_offset(bs, i),
            blob_offset(bs, i) + blob_len(bs, i),
        ) == bs[i].data@ by {
            crate::image_laws::law_blob_data(bs, i);
        }
    }
    BuiltImage { data: image, entries }
}

/// Whether `build` can lay out these blobs: the check a caller makes
/// before building.
pub fn image_fits(blobs: &[Blob]) -> (r: bool)
    ensures
        r == build_fits(blobs@),
{
    let ghost bs = blobs@;
    let n = blobs.len();
    let count: u16 = (n % 65536) as u16;
    let dir_end = HEADER_SIZE + ENTRY_SIZE * (count as u32);
    let aligned_dir_end = align_up(dir_end, SECTOR_SIZE);
    let area_start = if aligned_dir_end < SECTOR_SIZE { SECTOR_SIZE } else { aligned_dir_end };
    proof {
        lemma_round_up(dir_end as int);
        lemma_round_up(area_start as int);
    }
    let mut cursor: u32 = area_start;
    let mut i: usize = 0;
    while i < n
        invariant
            n == bs.len(),
            bs == blobs@,
            i <= n,
            area_start == blob_area_start(n as nat),
            area_start <= 8 + 48 * 65535 + SECTOR_SIZE,
            cursor == cursor_at(bs, i as nat),
            forall|k: int|
                0 <= k < i ==> #[trigger] cursor_at(bs, k as nat) + blob_len(bs, k) + SECTOR_SIZE - 1 <= u32::MAX,
        decreases n - i,
    {
        let len = blobs[i].data.len();
        let ghost k = i as int;
        if len > (u32::MAX - cursor) as usize || (u32::MAX - cursor) as usize - len < (SECTOR_SIZE - 1) as usize {
            assert(!(cursor_at(bs, k as nat) + blob_len(bs, k) + SECTOR_SIZE - 1 <= u32::MAX));
            return false;
        }
        let c = align_up(cursor + len as u32, SECTOR_SIZE);
        cursor = if c == area_start { c + SECTOR_SIZE } else { c };
        i += 1;
        assert(cursor == cursor_at(bs, i as nat));
    }
    let room: u64 = cursor as u64;
    if n as u64 > 100000000 {
        assert(HEADER_SIZE + ENTRY_SIZE * n > u32::MAX);
        return false;
    }
    8 + 48 * (n as u64) <= room
}

/// For a power-of-two alignment, the mask `align_up` computes is the least
/// multiple of the alignment that is at least `v`.
pub proof fn law_align_up(v: u32, n: nat)
    requires
        n < 32,
        v + pow2(n) - 1 <= u32::MAX,
    ensures
        ({
            let a = pow2(n) as u32;
            let r = ((v + a - 1) as u32) & !((a - 1) as u32);
            &&& r % a == 0
            &&& v <= r
            &&& r < v + a
        }),
{
    lemma_u32_pow2_no_overflow(n);
    lemma_pow2_pos(n);
    let a = pow2(n) as u32;
    let s = (v + a - 1) as u32;
    let m = (a - 1) as u32;
    assert(m == low_bits_mask(n) as u32);
    lemma_u32_low_bits_mask_is_mod(s, n);
    assert((s & !m) == s - (s & m)) by (bit_vector);
    let si = s as int;
    let ai = a as int;
    assert((si - si % ai) % ai == 0) by (nonlinear_arith)
        requires
            ai > 0,
    ;
    assert(si % ai < ai) by (nonlinear_arith)
        requires
            ai > 0,
    ;
}

} // verus!
