//! What a reader of a built image finds in it: the header, one directory
//! entry per blob that records where the blob is, and each blob's bytes at
//! its own sector-aligned place.
use crate::image_builder::{
    blob_area_start, blob_len, blob_offset, build_fits, cursor_at, dir_end, entry_bytes, entry_of,
    header_bytes, image_bytes, image_size, image_with_data, image_with_entries, name_field,
    name_kept, splice, Blob, ENTRY_SIZE, HEADER_SIZE, NAME_LEN, NAM_DATA_MAGIC, NAM_DATA_VERSION,
    SECTOR_SIZE,
};
use crate::image_builder::{lemma_cursor_mono, lemma_cursor_step};
use crate::le_bytes::{from_le16, from_le32, le16, le32, lemma_le16_roundtrip, lemma_le32_roundtrip};
use vstd::prelude::*;
use vstd::utf8::encode_utf8;

verus! {

proof fn lemma_splice_len(s: Seq<u8>, pos: int, t: Seq<u8>)
    requires
        0 <= pos,
        pos + t.len() <= s.len(),
    ensures
        splice(s, pos, t).len() == s.len(),
{
}

proof fn lemma_splice_inside(s: Seq<u8>, pos: int, t: Seq<u8>)
    requires
        0 <= pos,
        pos + t.len() <= s.len(),
    ensures
        splice(s, pos, t).subrange(pos, pos + t.len()) == t,
{
    assert(splice(s, pos, t).subrange(pos, pos + t.len()) =~= t);
}

proof fn lemma_splice_outside(s: Seq<u8>, pos: int, t: Seq<u8>, a: int, b: int)
    requires
        0 <= pos,
        pos + t.len() <= s.len(),
        0 <= a <= b <= s.len(),
        b <= pos || pos + t.len() <= a,
    ensures
        splice(s, pos, t).subrange(a, b) == s.subrange(a, b),
{
    assert(splice(s, pos, t).subrange(a, b) =~= s.subrange(a, b));
}

/// A name field is 31 bytes and ends in a zero byte.
pub proof fn law_name_field(name: Seq<char>)
    ensures
        name_field(name).len() == NAME_LEN,
        name_field(name)[NAME_LEN - 1] == 0,
        name_field(name).take(name_kept(name)) == encode_utf8(name).take(name_kept(name)),
{
    assert(name_field(name).take(name_kept(name)) =~= encode_utf8(name).take(name_kept(name)));
}

/// A directory entry is 48 bytes: the type byte, the name field, then the
/// offset, length and sample rate as little-endian words.
pub proof fn law_entry_fields(entry_type: u8, name: Seq<char>, offset: u32, length: u32, samplerate: u32)
    ensures
        entry_bytes(entry_type, name, offset, length, samplerate).len() == ENTRY_SIZE,
        entry_bytes(entry_type, name, offset, length, samplerate)[0] == entry_type,
        entry_bytes(entry_type, name, offset, length, samplerate).subrange(1, 32) == name_field(name),
        from_le32(entry_bytes(entry_type, name, offset, length, samplerate).subrange(32, 36)) == offset,
        from_le32(entry_bytes(entry_type, name, offset, length, samplerate).subrange(36, 40)) == length,
        from_le32(entry_bytes(entry_type, name, offset, length, samplerate).subrange(40, 44)) == samplerate,
        from_le32(entry_bytes(entry_type, name, offset, length, samplerate).subrange(44, 48)) == 0,
{
    law_name_field(name);
    let e = entry_bytes(entry_type, name, offset, length, samplerate);
    lemma_le32_roundtrip(offset);
    lemma_le32_roundtrip(length);
    lemma_le32_roundtrip(samplerate);
    lemma_le32_roundtrip(0);
    assert(e.subrange(1, 32) =~= name_field(name));
    assert(e.subrange(32, 36) =~= le32(offset));
    assert(e.subrange(36, 40) =~= le32(length));
    assert(e.subrange(40, 44) =~= le32(samplerate));
    assert(e.subrange(44, 48) =~= le32(0));
}

proof fn lemma_entry_of_len(blobs: Seq<Blob>, i: int)
    ensures
        entry_of(blobs, i).len() == ENTRY_SIZE,
{
    law_name_field(blobs[i].name@);
}

/// Each blob lies inside the image, after the previous one.
proof fn lemma_blob_in_image(blobs: Seq<Blob>, i: int)
    requires
        0 <= i < blobs.len(),
    ensures
        blob_area_start(blobs.len()) <= blob_offset(blobs, i),
        blob_offset(blobs, i) + blob_len(blobs, i) <= cursor_at(blobs, (i + 1) as nat),
        cursor_at(blobs, (i + 1) as nat) <= image_size(blobs),
{
    lemma_cursor_step(blobs, i as nat);
    lemma_cursor_mono(blobs, (i + 1) as nat, blobs.len());
}

proof fn lemma_entries_len(blobs: Seq<Blob>, k: nat)
    requires
        build_fits(blobs),
        k <= blobs.len(),
    ensures
        image_with_entries(blobs, k).len() == image_size(blobs),
    decreases k,
{
    lemma_cursor_step(blobs, blobs.len());
    if k > 0 {
        lemma_entries_len(blobs, (k - 1) as nat);
        lemma_entry_of_len(blobs, k - 1);
    }
}

proof fn lemma_data_len(blobs: Seq<Blob>, k: nat)
    requires
        build_fits(blobs),
        k <= blobs.len(),
    ensures
        image_with_data(blobs, k).len() == image_size(blobs),
    decreases k,
{
    if k == 0 {
        lemma_entries_len(blobs, blobs.len());
    } else {
        lemma_data_len(blobs, (k - 1) as nat);
        lemma_blob_in_image(blobs, k - 1);
    }
}

/// The built image is as long as the layout says.
pub proof fn law_image_len(blobs: Seq<Blob>)
    requires
        build_fits(blobs),
    ensures
        image_bytes(blobs).len() == image_size(blobs),
{
    lemma_data_len(blobs, blobs.len());
}

/// Blobs are placed in order on sector boundaries after the directory, one
/// after the other without overlap, and the image ends on a sector boundary.
pub proof fn law_layout(blobs: Seq<Blob>, i: int, j: int)
    requires
        0 <= i < j < blobs.len(),
    ensures
        blob_offset(blobs, i) % (SECTOR_SIZE as int) == 0,
        dir_end(blobs.len()) <= blob_area_start(blobs.len()) <= blob_offset(blobs, i),
        blob_offset(blobs, i) + blob_len(blobs, i) <= blob_offset(blobs, j),
        blob_offset(blobs, j) + blob_len(blobs, j) <= image_size(blobs),
        image_size(blobs) % (SECTOR_SIZE as int) == 0,
{
    lemma_blob_in_image(blobs, i);
    lemma_blob_in_image(blobs, j);
    lemma_cursor_mono(blobs, (i + 1) as nat, j as nat);
    lemma_cursor_step(blobs, i as nat);
    lemma_cursor_step(blobs, blobs.len());
    crate::image_builder::lemma_round_up(dir_end(blobs.len()));
}

/// Directory entries leave the header alone.
proof fn lemma_entries_keep_header(blobs: Seq<Blob>, k: nat)
    requires
        build_fits(blobs),
        k <= blobs.len(),
    ensures
        image_with_entries(blobs, k).subrange(0, 8) == header_bytes((blobs.len() % 65536) as u16),
    decreases k,
{
    lemma_cursor_step(blobs, blobs.len());
    if k > 0 {
        lemma_entries_keep_header(blobs, (k - 1) as nat);
        lemma_entries_len(blobs, (k - 1) as nat);
        lemma_entry_of_len(blobs, k - 1);
        lemma_splice_outside(
            image_with_entries(blobs, (k - 1) as nat),
            HEADER_SIZE + ENTRY_SIZE * (k - 1),
            entry_of(blobs, k - 1),
            0,
            8,
        );
    } else {
        assert(header_bytes((blobs.len() % 65536) as u16).len() == 8);
        lemma_splice_inside(
            Seq::new(image_size(blobs) as nat, |i: int| 0xFFu8),
            0,
            header_bytes((blobs.len() % 65536) as u16),
        );
    }
}

/// Blob data leaves the header alone.
proof fn lemma_data_keep_header(blobs: Seq<Blob>, d: nat)
    requires
        build_fits(blobs),
        d <= blobs.len(),
    ensures
        image_with_data(blobs, d).subrange(0, 8) == header_bytes((blobs.len() % 65536) as u16),
    decreases d,
{
    if d > 0 {
        lemma_data_keep_header(blobs, (d - 1) as nat);
        lemma_data_len(blobs, (d - 1) as nat);
        lemma_blob_in_image(blobs, d - 1);
        lemma_cursor_step(blobs, 0);
        lemma_splice_outside(
            image_with_data(blobs, (d - 1) as nat),
            blob_offset(blobs, d - 1),
            blobs[d - 1].data@,
            0,
            8,
        );
    } else {
        lemma_entries_keep_header(blobs, blobs.len());
    }
}

/// The image starts with the magic number, the format version and the
/// number of blobs (modulo 65536, the width of the count field).
pub proof fn law_header(blobs: Seq<Blob>)
    requires
        build_fits(blobs),
    ensures
        image_bytes(blobs).subrange(0, 8) == header_bytes((blobs.len() % 65536) as u16),
        from_le32(image_bytes(blobs).subrange(0, 4)) == NAM_DATA_MAGIC,
        from_le16(image_bytes(blobs).subrange(4, 6)) == NAM_DATA_VERSION,
        from_le16(image_bytes(blobs).subrange(6, 8)) == blobs.len() % 65536,
{
    lemma_data_keep_header(blobs, blobs.len());
    law_image_len(blobs);
    lemma_cursor_step(blobs, blobs.len());
    let img = image_bytes(blobs);
    let h = header_bytes((blobs.len() % 65536) as u16);
    let top = img.subrange(0, 8);
    assert(top == h);
    lemma_le32_roundtrip(NAM_DATA_MAGIC);
    lemma_le16_roundtrip(NAM_DATA_VERSION);
    lemma_le16_roundtrip((blobs.len() % 65536) as u16);
    assert(img.subrange(0, 4) =~= top.subrange(0, 4));
    assert(img.subrange(4, 6) =~= top.subrange(4, 6));
    assert(img.subrange(6, 8) =~= top.subrange(6, 8));
    assert(h.subrange(0, 4) =~= le32(NAM_DATA_MAGIC));
    assert(h.subrange(4, 6) =~= le16(NAM_DATA_VERSION));
    assert(h.subrange(6, 8) =~= le16((blobs.len() % 65536) as u16));
}

/// Position of directory entry `i`.
pub open spec fn entry_pos(i: int) -> int {
    HEADER_SIZE + ENTRY_SIZE * i
}

/// Later directory entries leave entry `i` alone.
proof fn lemma_entries_keep_entry(blobs: Seq<Blob>, i: int, k: nat)
    requires
        build_fits(blobs),
        0 <= i < k <= blobs.len(),
    ensures
        image_with_entries(blobs, k).subrange(entry_pos(i), entry_pos(i) + ENTRY_SIZE) == entry_of(blobs, i),
    decreases k,
{
    lemma_entries_len(blobs, (k - 1) as nat);
    lemma_entry_of_len(blobs, k - 1);
    if k == i + 1 {
        lemma_splice_inside(image_with_entries(blobs, (k - 1) as nat), entry_pos(i), entry_of(blobs, i));
    } else {
        lemma_entries_keep_entry(blobs, i, (k - 1) as nat);
        lemma_splice_outside(
            image_with_entries(blobs, (k - 1) as nat),
            entry_pos(k - 1),
            entry_of(blobs, k - 1),
            entry_pos(i),
            entry_pos(i) + ENTRY_SIZE,
        );
    }
}

/// Blob data, which starts after the whole directory, leaves entry `i` alone.
proof fn lemma_data_keep_entry(blobs: Seq<Blob>, i: int, d: nat)
    requires
        build_fits(blobs),
        blobs.len() < 65536,
        0 <= i < blobs.len(),
        d <= blobs.len(),
    ensures
        image_with_data(blobs, d).subrange(entry_pos(i), entry_pos(i) + ENTRY_SIZE) == entry_of(blobs, i),
    decreases d,
{
    if d == 0 {
        lemma_entries_keep_entry(blobs, i, blobs.len());
    } else {
        lemma_data_keep_entry(blobs, i, (d - 1) as nat);
        lemma_data_len(blobs, (d - 1) as nat);
        lemma_blob_in_image(blobs, d - 1);
        crate::image_builder::lemma_round_up(dir_end(blobs.len()));
        lemma_entry_of_len(blobs, i);
        lemma_splice_outside(
            image_with_data(blobs, (d - 1) as nat),
            blob_offset(blobs, d - 1),
            blobs[d - 1].data@,
            entry_pos(i),
            entry_pos(i) + ENTRY_SIZE,
        );
    }
}

/// With fewer than 65536 blobs, directory entry `i` of the image holds the
/// type, name, offset, length and sample rate of blob `i`.
pub proof fn law_directory(blobs: Seq<Blob>, i: int)
    requires
        build_fits(blobs),
        blobs.len() < 65536,
        0 <= i < blobs.len(),
    ensures
        image_bytes(blobs).subrange(entry_pos(i), entry_pos(i) + ENTRY_SIZE) == entry_of(blobs, i),
        image_bytes(blobs)[entry_pos(i)] == blobs[i].entry_type,
        image_bytes(blobs).subrange(entry_pos(i) + 1, entry_pos(i) + 32) == name_field(blobs[i].name@),
        from_le32(image_bytes(blobs).subrange(entry_pos(i) + 32, entry_pos(i) + 36)) == blob_offset(blobs, i),
        from_le32(image_bytes(blobs).subrange(entry_pos(i) + 36, entry_pos(i) + 40)) == blob_len(blobs, i),
        from_le32(image_bytes(blobs).subrange(entry_pos(i) + 40, entry_pos(i) + 44)) == blobs[i].samplerate,
{
    lemma_data_keep_entry(blobs, i, blobs.len());
    law_image_len(blobs);
    lemma_blob_in_image(blobs, i);
    assert(blob_len(blobs, i) <= u32::MAX);
    let e = entry_of(blobs, i);
    law_entry_fields(
        blobs[i].entry_type,
        blobs[i].name@,
        blob_offset(blobs, i) as u32,
        blob_len(blobs, i) as u32,
        blobs[i].samplerate,
    );
    let img = image_bytes(blobs);
    let p = entry_pos(i);
    let top = img.subrange(p, p + ENTRY_SIZE);
    assert(img[p] == top[0]);
    assert(img.subrange(p + 1, p + 32) =~= top.subrange(1, 32));
    assert(img.subrange(p + 32, p + 36) =~= top.subrange(32, 36));
    assert(img.subrange(p + 36, p + 40) =~= top.subrange(36, 40));
    assert(img.subrange(p + 40, p + 44) =~= top.subrange(40, 44));
}

/// Data written for later blobs leaves blob `i` alone.
proof fn lemma_data_keep_blob(blobs: Seq<Blob>, i: int, d: nat)
    requires
        build_fits(blobs),
        0 <= i < d <= blobs.len(),
    ensures
        image_with_data(blobs, d).subrange(blob_offset(blobs, i), blob_offset(blobs, i) + blob_len(blobs, i))
            == blobs[i].data@,
    decreases d,
{
    lemma_data_len(blobs, (d - 1) as nat);
    lemma_blob_in_image(blobs, d - 1);
    lemma_blob_in_image(blobs, i);
    if d == i + 1 {
        lemma_splice_inside(image_with_data(blobs, (d - 1) as nat), blob_offset(blobs, i), blobs[i].data@);
    } else {
        lemma_data_keep_blob(blobs, i, (d - 1) as nat);
        lemma_cursor_mono(blobs, (i + 1) as nat, (d - 1) as nat);
        lemma_splice_outside(
            image_with_data(blobs, (d - 1) as nat),
            blob_offset(blobs, d - 1),
            blobs[d - 1].data@,
            blob_offset(blobs, i),
            blob_offset(blobs, i) + blob_len(blobs, i),
        );
    }
}

/// The bytes of the image at a blob's offset are that blob's data.
pub proof fn law_blob_data(blobs: Seq<Blob>, i: int)
    requires
        build_fits(blobs),
        0 <= i < blobs.len(),
    ensures
        image_bytes(blobs).subrange(blob_offset(blobs, i), blob_offset(blobs, i) + blob_len(blobs, i))
            == blobs[i].data@,
{
    lemma_data_keep_blob(blobs, i, blobs.len());
}

/// Byte `p` lies in the data of some blob.
pub open spec fn in_some_blob(blobs: Seq<Blob>, p: int) -> bool {
    exists|i: int| 0 <= i < blobs.len() && #[trigger] blob_offset(blobs, i) <= p < blob_offset(blobs, i) + blob_len(blobs, i)
}

proof fn lemma_splice_index_outside(s: Seq<u8>, pos: int, t: Seq<u8>, p: int)
    requires
        0 <= pos,
        pos + t.len() <= s.len(),
        0 <= p < s.len(),
        p < pos || pos + t.len() <= p,
    ensures
        splice(s, pos, t)[p] == s[p],
{
}

proof fn lemma_entries_leave_erased(blobs: Seq<Blob>, k: nat, p: int)
    requires
        build_fits(blobs),
        k <= blobs.len(),
        HEADER_SIZE + ENTRY_SIZE * blobs.len() <= p < image_size(blobs),
    ensures
        image_with_entries(blobs, k)[p] == 0xFF,
    decreases k,
{
    lemma_cursor_step(blobs, blobs.len());
    if k == 0 {
        assert(header_bytes((blobs.len() % 65536) as u16).len() == 8);
        lemma_splice_index_outside(
            Seq::new(image_size(blobs) as nat, |i: int| 0xFFu8),
            0,
            header_bytes((blobs.len() % 65536) as u16),
            p,
        );
    } else {
        lemma_entries_leave_erased(blobs, (k - 1) as nat, p);
        lemma_entries_len(blobs, (k - 1) as nat);
        lemma_entry_of_len(blobs, k - 1);
        lemma_splice_index_outside(image_with_entries(blobs, (k - 1) as nat), entry_pos(k - 1), entry_of(blobs, k - 1), p);
    }
}

proof fn lemma_data_leave_erased(blobs: Seq<Blob>, d: nat, p: int)
    requires
        build_fits(blobs),
        d <= blobs.len(),
        HEADER_SIZE + ENTRY_SIZE * blobs.len() <= p < image_size(blobs),
        !in_some_blob(blobs, p),
    ensures
        image_with_data(blobs, d)[p] == 0xFF,
    decreases d,
{
    if d == 0 {
        lemma_entries_leave_erased(blobs, blobs.len(), p);
    } else {
        lemma_data_leave_erased(blobs, (d - 1) as nat, p);
        lemma_data_len(blobs, (d - 1) as nat);
        lemma_blob_in_image(blobs, d - 1);
        let i = d - 1;
        assert(!(blob_offset(blobs, i) <= p < blob_offset(blobs, i) + blob_len(blobs, i)));
        lemma_splice_index_outside(image_with_data(blobs, (d - 1) as nat), blob_offset(blobs, i), blobs[i].data@, p);
    }
}

/// Every byte after the directory that no blob occupies keeps the erased
/// flash value 0xFF.
pub proof fn law_unused_bytes_erased(blobs: Seq<Blob>, p: int)
    requires
        build_fits(blobs),
        HEADER_SIZE + ENTRY_SIZE * blobs.len() <= p < image_size(blobs),
        !in_some_blob(blobs, p),
    ensures
        image_bytes(blobs)[p] == 0xFF,
{
    lemma_data_leave_erased(blobs, blobs.len(), p);
}

} // verus!
