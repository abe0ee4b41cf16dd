//! The model and impulse-response library: which files can be imported,
//! under what name, and how the lists change on rename and delete.
use crate::store::{ends_with, is_verbatim, joined, model_file_name, relative_name, AppDirs};
use crate::types::{IrInfo, ModelInfo};
use vstd::prelude::*;

verus! {

/// A bare file name: no separator or drive colon, and not `.` or `..`,
/// so on every platform the whole text is the path's file name.
pub open spec fn bare_name(s: Seq<char>) -> bool {
    &&& s.len() > 0
    &&& s != seq!['.']
    &&& s != seq!['.', '.']
    &&& !s.contains('/')
    &&& !s.contains('\\')
    &&& !s.contains(':')
}

/// Index of the last `c` in `s`, or -1.
pub open spec fn last_index(s: Seq<char>, c: char) -> int
    decreases s.len(),
{
    if s.len() == 0 {
        -1
    } else if s.last() == c {
        s.len() - 1
    } else {
        last_index(s.drop_last(), c)
    }
}

/// The extension of a file name: the text after its last `.`, none when it
/// has no `.` or its only `.` comes first.
pub open spec fn ext_of(s: Seq<char>) -> Option<Seq<char>> {
    if last_index(s, '.') <= 0 {
        None
    } else {
        Some(s.subrange(last_index(s, '.') + 1, s.len() as int))
    }
}

/// The stem of a file name: the text before its last `.`, or the whole
/// name when it has no extension.
pub open spec fn stem_of(s: Seq<char>) -> Seq<char> {
    if last_index(s, '.') <= 0 {
        s
    } else {
        s.subrange(0, last_index(s, '.'))
    }
}

/// The text after the last `/` of `s` (all of `s` when it has none).
pub open spec fn last_segment(s: Seq<char>) -> Seq<char> {
    s.subrange(last_index(s, '/') + 1, s.len() as int)
}

/// A path whose components every platform splits alike: `/` is its only
/// separator, it has no `\` or drive colon, it does not start with `//`
/// (a network share on Windows), and its text after the last `/` is a bare
/// file name, which is then the path's file name.
pub open spec fn plain_path(s: Seq<char>) -> bool {
    &&& !s.contains('\\')
    &&& !s.contains(':')
    &&& !(s.len() >= 2 && s[0] == '/' && s[1] == '/')
    &&& bare_name(last_segment(s))
}

/// What holds of the extension `ext` that `Path::extension` finds in
/// `path`: it has no `.`, a path with no `.` has none, and for a plain path
/// it is the extension of the text after the last `/`.
pub open spec fn extension_fits(path: Seq<char>, ext: Option<Seq<char>>) -> bool {
    &&& (ext matches Some(e) ==> !e.contains('.'))
    &&& (!path.contains('.') ==> ext is None)
    &&& (plain_path(path) ==> ext == ext_of(last_segment(path)))
}

/// What holds of the stem `stem` that `Path::file_stem` finds in `path`:
/// it is not empty, and for a plain path it is the stem of the text after
/// the last `/`.
pub open spec fn stem_fits(path: Seq<char>, stem: Option<Seq<char>>) -> bool {
    &&& (stem matches Some(s) ==> s.len() > 0)
    &&& (plain_path(path) ==> stem == Some(stem_of(last_segment(path))))
}

/// The extension of the file name of `path`, by
/// `std::path::Path::extension`: the part after the last `.` of the last
/// component, none when that component has no `.` or only a leading one.
/// Which characters separate components depends on the platform, so the
/// answer is stated for plain paths, where every platform agrees; of other
/// paths only that the extension has no `.` and that a path without `.`
/// has none.
#[verifier::external_body]
fn path_extension(path: &str) -> (r: Option<String>)
    ensures
        extension_fits(path@, opt_view(r)),
{
    std::path::Path::new(path).extension().and_then(|e| e.to_str()).map(|e| e.to_string())
}

/// The file stem of `path`, by `std::path::Path::file_stem`: the file name
/// without its extension, never empty. Which characters separate
/// components depends on the platform, so the stem is stated for plain
/// paths, where every platform agrees.
#[verifier::external_body]
fn path_file_stem(path: &str) -> (r: Option<String>)
    ensures
        stem_fits(path@, opt_view(r)),
{
    std::path::Path::new(path).file_stem().and_then(|s| s.to_str()).map(|s| s.to_string())
}

/// The outcome of checking a `.nam` path, from its extension and stem.
pub open spec fn nam_check(ext: Option<Seq<char>>, stem: Option<Seq<char>>) -> Result<Seq<char>, Seq<char>> {
    match ext {
        Some(e) => if e == "nam"@ {
            Ok(
                match stem {
                    Some(s) => s,
                    None => "model"@,
                },
            )
        } else {
            Err("Expected a .nam file, got ."@ + e)
        },
        None => Err("File has no extension"@),
    }
}

/// The view of an optional string.
pub open spec fn opt_view(s: Option<String>) -> Option<Seq<char>> {
    match s {
        Some(x) => Some(x@),
        None => None,
    }
}

/// The view of a result of strings.
pub open spec fn res_view(r: Result<String, String>) -> Result<Seq<char>, Seq<char>> {
    match r {
        Ok(x) => Ok(x@),
        Err(x) => Err(x@),
    }
}

/// Decides a `.nam` import from the path's extension and stem: the model
/// name (the stem, or "model"), or why the file is refused.
pub fn nam_name(ext: Option<String>, stem: Option<String>) -> (r: Result<String, String>)
    ensures
        res_view(r) == nam_check(opt_view(ext), opt_view(stem)),
{
    match ext {
        Some(e) => {
            if e == String::from_str("nam") {
                match stem {
                    Some(s) => Ok(s),
                    None => Ok(String::from_str("model")),
                }
            } else {
                let mut msg = String::from_str("Expected a .nam file, got .");
                msg.append(e.as_str());
                Err(msg)
            }
        },
        None => Err(String::from_str("File has no extension")),
    }
}

/// Checks that `path` names a `.nam` file and returns the model name.
pub fn validate_nam_path(path: &str) -> (r: Result<String, String>)
    ensures
        exists|ext: Option<Seq<char>>, stem: Option<Seq<char>>|
            {
                &&& extension_fits(path@, ext)
                &&& stem_fits(path@, stem)
                &&& res_view(r) == nam_check(ext, stem)
            },
        plain_path(path@) ==> res_view(r) == nam_check(
            ext_of(last_segment(path@)),
            Some(stem_of(last_segment(path@))),
        ),
        !path@.contains('.') ==> res_view(r) == Err::<Seq<char>, Seq<char>>("File has no extension"@),
{
    let ext = path_extension(path);
    let stem = path_file_stem(path);
    let ghost e = opt_view(ext);
    let ghost s = opt_view(stem);
    let r = nam_name(ext, stem);
    assert(extension_fits(path@, e) && stem_fits(path@, s) && res_view(r) == nam_check(e, s));
    r
}

/// The outcome of checking an import path that must have extension
/// `wanted`: the stem (or `fallback`), or the refusal message.
pub open spec fn import_check(
    ext: Option<Seq<char>>,
    stem: Option<Seq<char>>,
    wanted: Seq<char>,
    fallback: Seq<char>,
    refusal: Seq<char>,
) -> Result<Seq<char>, Seq<char>> {
    if ext == Some(wanted) {
        Ok(
            match stem {
                Some(s) => s,
                None => fallback,
            },
        )
    } else {
        Err(refusal)
    }
}

/// Decides an import from the path's extension and stem.
pub fn import_name(ext: Option<String>, stem: Option<String>, wanted: &str, fallback: &str, refusal: &str) -> (r: Result<String, String>)
    ensures
        res_view(r) == import_check(opt_view(ext), opt_view(stem), wanted@, fallback@, refusal@),
{
    let wanted_s = String::from_str(wanted);
    match ext {
        Some(e) if e == wanted_s => match stem {
            Some(s) => Ok(s),
            None => Ok(String::from_str(fallback)),
        },
        _ => Err(String::from_str(refusal)),
    }
}

/// The name a `.namb` model file is imported under.
pub fn model_import_name(path: &str) -> (r: Result<String, String>)
    ensures
        exists|ext: Option<Seq<char>>, stem: Option<Seq<char>>|
            {
                &&& extension_fits(path@, ext)
                &&& stem_fits(path@, stem)
                &&& res_view(r) == import_check(ext, stem, "namb"@, "model"@, "File must have a .namb extension"@)
            },
        plain_path(path@) ==> res_view(r) == import_check(
            ext_of(last_segment(path@)),
            Some(stem_of(last_segment(path@))),
            "namb"@,
            "model"@,
            "File must have a .namb extension"@,
        ),
        !path@.contains('.') ==> res_view(r) == Err::<Seq<char>, Seq<char>>("File must have a .namb extension"@),
{
    let ext = path_extension(path);
    let stem = path_file_stem(path);
    let ghost e = opt_view(ext);
    let ghost s = opt_view(stem);
    let r = import_name(ext, stem, "namb", "model", "File must have a .namb extension");
    assert(extension_fits(path@, e) && stem_fits(path@, s));
    assert(res_view(r) == import_check(e, s, "namb"@, "model"@, "File must have a .namb extension"@));
    r
}

/// The name a `.wav` impulse response is imported under.
pub fn ir_import_name(path: &str) -> (r: Result<String, String>)
    ensures
        exists|ext: Option<Seq<char>>, stem: Option<Seq<char>>|
            {
                &&& extension_fits(path@, ext)
                &&& stem_fits(path@, stem)
                &&& res_view(r) == import_check(ext, stem, "wav"@, "ir"@, "File must have a .wav extension"@)
            },
        plain_path(path@) ==> res_view(r) == import_check(
            ext_of(last_segment(path@)),
            Some(stem_of(last_segment(path@))),
            "wav"@,
            "ir"@,
            "File must have a .wav extension"@,
        ),
        !path@.contains('.') ==> res_view(r) == Err::<Seq<char>, Seq<char>>("File must have a .wav extension"@),
{
    let ext = path_extension(path);
    let stem = path_file_stem(path);
    let ghost e = opt_view(ext);
    let ghost s = opt_view(stem);
    let r = import_name(ext, stem, "wav", "ir", "File must have a .wav extension");
    assert(extension_fits(path@, e) && stem_fits(path@, s));
    assert(res_view(r) == import_check(e, s, "wav"@, "ir"@, "File must have a .wav extension"@));
    r
}

/// `i` is the first position of a model with id `id`.
pub open spec fn first_model_with_id(models: Seq<ModelInfo>, id: Seq<char>, i: int) -> bool {
    &&& 0 <= i < models.len()
    &&& models[i].id@ == id
    &&& forall|j: int| 0 <= j < i ==> (#[trigger] models[j]).id@ != id
}

/// No model has id `id`.
pub open spec fn no_model_with_id(models: Seq<ModelInfo>, id: Seq<char>) -> bool {
    forall|j: int| 0 <= j < models.len() ==> (#[trigger] models[j]).id@ != id
}

/// The position of the first model with id `id`, if any.
pub fn find_model(models: &Vec<ModelInfo>, id: &str) -> (r: Option<usize>)
    ensures
        r matches Some(i) ==> first_model_with_id(models@, id@, i as int),
        r is None ==> no_model_with_id(models@, id@),
{
    let key = String::from_str(id);
    let mut i: usize = 0;
    while i < models.len()
        invariant
            key@ == id@,
            i <= models@.len(),
            forall|j: int| 0 <= j < i ==> (#[trigger] models@[j]).id@ != id@,
        decreases models@.len() - i,
    {
        if models[i].id == key {
            return Some(i);
        }
        i += 1;
    }
    None
}

/// `i` is the first position of an IR with id `id`.
pub open spec fn first_ir_with_id(irs: Seq<IrInfo>, id: Seq<char>, i: int) -> bool {
    &&& 0 <= i < irs.len()
    &&& irs[i].id@ == id
    &&& forall|j: int| 0 <= j < i ==> (#[trigger] irs[j]).id@ != id
}

/// No IR has id `id`.
pub open spec fn no_ir_with_id(irs: Seq<IrInfo>, id: Seq<char>) -> bool {
    forall|j: int| 0 <= j < irs.len() ==> (#[trigger] irs[j]).id@ != id
}

/// The position of the first IR with id `id`, if any.
pub fn find_ir(irs: &Vec<IrInfo>, id: &str) -> (r: Option<usize>)
    ensures
        r matches Some(i) ==> first_ir_with_id(irs@, id@, i as int),
        r is None ==> no_ir_with_id(irs@, id@),
{
    let key = String::from_str(id);
    let mut i: usize = 0;
    while i < irs.len()
        invariant
            key@ == id@,
            i <= irs@.len(),
            forall|j: int| 0 <= j < i ==> (#[trigger] irs@[j]).id@ != id@,
        decreases irs@.len() - i,
    {
        if irs[i].id == key {
            return Some(i);
        }
        i += 1;
    }
    None
}

/// A planned model rename: which entry, and the file to move when its
/// stored path changes.
pub struct ModelRename {
    pub pos: usize,
    pub old_path: String,
    pub new_path: String,
    pub move_file: bool,
}

/// Plans renaming model `id` to `new_name`: the entry to change and the
/// old and new stored paths; "Model not found" when no model has that id.
pub fn plan_model_rename(dirs: &AppDirs, models: &Vec<ModelInfo>, id: &str, new_name: &str) -> (r: Result<ModelRename, String>)
    ensures
        r matches Err(m) ==> no_model_with_id(models@, id@) && m@ == "Model not found"@,
        r matches Ok(p) ==> {
            &&& first_model_with_id(models@, id@, p.pos as int)
            &&& p.move_file == (p.old_path@ != p.new_path@)
            &&& !is_verbatim(dirs.models@) ==> ends_with(
                p.old_path@,
                model_file_name(models@[p.pos as int].id@, models@[p.pos as int].name@),
            )
            &&& !is_verbatim(dirs.models@) ==> ends_with(p.new_path@, model_file_name(id@, new_name@))
            &&& !is_verbatim(dirs.models@) && relative_name(
                model_file_name(models@[p.pos as int].id@, models@[p.pos as int].name@),
            ) ==> joined(
                dirs.models@,
                model_file_name(models@[p.pos as int].id@, models@[p.pos as int].name@),
                p.old_path@,
            )
            &&& !is_verbatim(dirs.models@) && relative_name(model_file_name(id@, new_name@)) ==> joined(
                dirs.models@,
                model_file_name(id@, new_name@),
                p.new_path@,
            )
        },
        r is Ok <==> !no_model_with_id(models@, id@),
{
    match find_model(models, id) {
        None => Err(String::from_str("Model not found")),
        Some(pos) => {
            let old_path = dirs.model_path(models[pos].id.as_str(), models[pos].name.as_str());
            let new_path = dirs.model_path(id, new_name);
            let move_file = old_path != new_path;
            Ok(ModelRename { pos, old_path, new_path, move_file })
        },
    }
}

/// The list with the model at `pos` renamed to `new_name`.
pub open spec fn renamed(models: Seq<ModelInfo>, pos: int, new_name: String) -> Seq<ModelInfo> {
    models.update(pos, ModelInfo { name: new_name, ..models[pos] })
}

/// Gives the model at `pos` the name `new_name`; every other entry, and
/// every other field, stays as it was.
pub fn apply_model_rename(models: &mut Vec<ModelInfo>, pos: usize, new_name: String) -> (r: ModelInfo)
    requires
        pos < old(models)@.len(),
    ensures
        final(models)@ == renamed(old(models)@, pos as int, new_name),
        r == final(models)@[pos as int],
{
    let old = models[pos].duplicate();
    let updated = ModelInfo { name: new_name, ..old };
    models.set(pos, updated);
    models[pos].duplicate()
}

/// Removes the first model with id `id` and hands it back, so that its file
/// can be deleted; the list is unchanged when there is none.
pub fn remove_model(models: &mut Vec<ModelInfo>, id: &str) -> (r: Option<ModelInfo>)
    ensures
        r matches Some(m) ==> exists|i: int|
            first_model_with_id(old(models)@, id@, i) && m == old(models)@[i] && final(models)@ == old(models)@.remove(i),
        r is None ==> no_model_with_id(old(models)@, id@) && final(models)@ == old(models)@,
{
    match find_model(models, id) {
        None => None,
        Some(pos) => Some(models.remove(pos)),
    }
}

/// Removes the first IR with id `id` and hands it back, so that its file can
/// be deleted; the list is unchanged when there is none.
pub fn remove_ir(irs: &mut Vec<IrInfo>, id: &str) -> (r: Option<IrInfo>)
    ensures
        r matches Some(m) ==> exists|i: int|
            first_ir_with_id(old(irs)@, id@, i) && m == old(irs)@[i] && final(irs)@ == old(irs)@.remove(i),
        r is None ==> no_ir_with_id(old(irs)@, id@) && final(irs)@ == old(irs)@,
{
    match find_ir(irs, id) {
        None => None,
        Some(pos) => Some(irs.remove(pos)),
    }
}

/// A lowercase hexadecimal digit.
pub open spec fn is_lower_hex(c: char) -> bool {
    ('0' <= c && c <= '9') || ('a' <= c && c <= 'f')
}

/// Text of a UUID in hyphenated lowercase form, 8-4-4-4-12, version 4.
pub open spec fn is_uuid_v4_text(s: Seq<char>) -> bool {
    &&& s.len() == 36
    &&& forall|i: int|
        0 <= i < 36 ==> if i == 8 || i == 13 || i == 18 || i == 23 {
            s[i] == '-'
        } else {
            is_lower_hex(#[trigger] s[i])
        }
    &&& s[14] == '4'
    &&& (s[19] == '8' || s[19] == '9' || s[19] == 'a' || s[19] == 'b')
}

/// A fresh random id: `uuid::Uuid::new_v4().to_string()`, which writes the
/// 16 random bytes (version nibble 4) as 32 lowercase hex digits with
/// hyphens after the 8th, 12th, 16th and 20th; the version digit is 4 and
/// the variant digit one of 8, 9, a, b. Which id comes out is chance.
#[verifier::external_body]
pub(crate) fn new_uuid() -> (r: String)
    ensures
        is_uuid_v4_text(r@),
{
    uuid::Uuid::new_v4().to_string()
}

/// A fresh id for a new library entry: a random version-4 UUID.
pub fn fresh_id() -> (r: String)
    ensures
        is_uuid_v4_text(r@),
{
    new_uuid()
}

/// The record of a model imported from a file.
pub fn imported_model_info(id: String, name: String, size_bytes: u64, imported_at: String) -> (r: ModelInfo)
    ensures
        r == (ModelInfo { id, name, size_bytes, imported_at, tone3000_id: None, tone3000_model_id: None }),
{
    ModelInfo { id, name, size_bytes, imported_at, tone3000_id: None, tone3000_model_id: None }
}

/// The record of an imported impulse response with `tap_count` taps (kept
/// as a `u32`, truncated as `as` does).
pub fn imported_ir_info(
    id: String,
    name: String,
    tap_count: usize,
    sample_rate: u32,
    trimmed: bool,
    size_bytes: u64,
    imported_at: String,
) -> (r: IrInfo)
    ensures
        r == (IrInfo { id, name, tap_count: tap_count as u32, sample_rate, trimmed, size_bytes, imported_at }),
{
    IrInfo { id, name, tap_count: tap_count as u32, sample_rate, trimmed, size_bytes, imported_at }
}

proof fn lemma_first_model_unique(models: Seq<ModelInfo>, id: Seq<char>, i: int, j: int)
    requires
        first_model_with_id(models, id, i),
        first_model_with_id(models, id, j),
    ensures
        i == j,
{
    if i < j {
        assert(models[i].id@ != id);
    } else if j < i {
        assert(models[j].id@ != id);
    }
}

proof fn lemma_first_ir_unique(irs: Seq<IrInfo>, id: Seq<char>, i: int, j: int)
    requires
        first_ir_with_id(irs, id, i),
        first_ir_with_id(irs, id, j),
    ensures
        i == j,
{
    if i < j {
        assert(irs[i].id@ != id);
    } else if j < i {
        assert(irs[j].id@ != id);
    }
}

/// The name of the first model with id `id`, or empty text.
pub open spec fn model_name_for(models: Seq<ModelInfo>, id: Option<String>) -> Seq<char> {
    match id {
        Some(i) => if exists|k: int| first_model_with_id(models, i@, k) {
            models[choose|k: int| first_model_with_id(models, i@, k)].name@
        } else {
            Seq::empty()
        },
        None => Seq::empty(),
    }
}

/// The name of the first IR with id `id`, or empty text.
pub open spec fn ir_name_for(irs: Seq<IrInfo>, id: Option<String>) -> Seq<char> {
    match id {
        Some(i) => if exists|k: int| first_ir_with_id(irs, i@, k) {
            irs[choose|k: int| first_ir_with_id(irs, i@, k)].name@
        } else {
            Seq::empty()
        },
        None => Seq::empty(),
    }
}

/// Looks up the name of the model a preset refers to; empty when it
/// refers to none or to one that is gone.
pub fn resolve_model_name(models: &Vec<ModelInfo>, id: &Option<String>) -> (r: String)
    ensures
        r@ == model_name_for(models@, *id),
{
    match id {
        Some(i) => match find_model(models, i.as_str()) {
            Some(k) => {
                proof {
                    let c = choose|c: int| first_model_with_id(models@, i@, c);
                    lemma_first_model_unique(models@, i@, k as int, c);
                }
                models[k].name.clone()
            },
            None => {
                assert(!exists|c: int| first_model_with_id(models@, i@, c));
                String::new()
            },
        },
        None => String::new(),
    }
}

/// Looks up the name of the IR a preset refers to; empty when it refers to
/// none or to one that is gone.
pub fn resolve_ir_name(irs: &Vec<IrInfo>, id: &Option<String>) -> (r: String)
    ensures
        r@ == ir_name_for(irs@, *id),
{
    match id {
        Some(i) => match find_ir(irs, i.as_str()) {
            Some(k) => {
                proof {
                    let c = choose|c: int| first_ir_with_id(irs@, i@, c);
                    lemma_first_ir_unique(irs@, i@, k as int, c);
                }
                irs[k].name.clone()
            },
            None => {
                assert(!exists|c: int| first_ir_with_id(irs@, i@, c));
                String::new()
            },
        },
        None => String::new(),
    }
}

/// Arguments of the `nam2namb` converter: slim the model to half and
/// convert `input` into `output`.
pub fn conversion_args(input: &str, output: &str) -> (r: Vec<String>)
    ensures
        r.deep_view() == seq!["--slim"@, "0.5"@, input@, output@],
{
    let mut v: Vec<String> = Vec::new();
    v.push(String::from_str("--slim"));
    v.push(String::from_str("0.5"));
    v.push(String::from_str(input));
    v.push(String::from_str(output));
    assert(v.deep_view() =~= seq!["--slim"@, "0.5"@, input@, output@]);
    v
}

/// The error reported when the converter fails, with what it wrote to
/// standard error.
pub fn conversion_failure(stderr: &str) -> (r: String)
    ensures
        r@ == "Conversion failed: "@ + stderr@,
{
    let mut m = String::from_str("Conversion failed: ");
    m.append(stderr);
    m
}

/// No two models share an id.
pub open spec fn model_ids_unique(models: Seq<ModelInfo>) -> bool {
    forall|i: int, j: int| 0 <= i < j < models.len() ==> (#[trigger] models[i]).id@ != (#[trigger] models[j]).id@
}

/// Deleting a model from a list with distinct ids leaves no model with that
/// id, and the ids stay distinct.
pub proof fn law_remove_model_unique(models: Seq<ModelInfo>, id: Seq<char>, i: int)
    requires
        model_ids_unique(models),
        first_model_with_id(models, id, i),
    ensures
        no_model_with_id(models.remove(i), id),
        model_ids_unique(models.remove(i)),
{
    let r = models.remove(i);
    assert forall|k: int| 0 <= k < r.len() implies (#[trigger] r[k]).id@ != id by {
        if k < i {
            assert(r[k] == models[k]);
        } else {
            assert(r[k] == models[k + 1]);
            assert(models[i].id@ != models[k + 1].id@);
        }
    }
    assert forall|a: int, b: int| 0 <= a < b < r.len() implies (#[trigger] r[a]).id@ != (#[trigger] r[b]).id@ by {
        let a2 = if a < i { a } else { a + 1 };
        let b2 = if b < i { b } else { b + 1 };
        assert(r[a] == models[a2]);
        assert(r[b] == models[b2]);
        assert(models[a2].id@ != models[b2].id@);
    }
}

/// Renaming a model changes no id, so distinct ids stay distinct and the
/// renamed model is still found under its id.
pub proof fn law_rename_keeps_ids(models: Seq<ModelInfo>, pos: int, new_name: String)
    requires
        0 <= pos < models.len(),
    ensures
        forall|k: int|
            0 <= k < models.len() ==> (#[trigger] renamed(models, pos, new_name)[k]).id@
                == models[k].id@,
        model_ids_unique(models) ==> model_ids_unique(renamed(models, pos, new_name)),
        renamed(models, pos, new_name)[pos].name == new_name,
{
    let r = renamed(models, pos, new_name);
    assert forall|k: int| 0 <= k < models.len() implies (#[trigger] r[k]).id@ == models[k].id@ by {}
    if model_ids_unique(models) {
        assert forall|a: int, b: int| 0 <= a < b < r.len() implies (#[trigger] r[a]).id@ != (#[trigger] r[b]).id@ by {
            assert(r[a].id@ == models[a].id@);
            assert(r[b].id@ == models[b].id@);
        }
    }
}

/// Deleting a model that was just added under an id no other model had
/// gives back the list as it was before the import.
pub proof fn law_remove_undoes_add(models: Seq<ModelInfo>, m: ModelInfo)
    requires
        no_model_with_id(models, m.id@),
    ensures
        first_model_with_id(models.push(m), m.id@, models.len() as int),
        models.push(m).remove(models.len() as int) == models,
{
    assert(models.push(m).remove(models.len() as int) =~= models);
}

/// A preset's model reference resolves to the name of the model it
/// refers to: the `name` of the first model whose id it is, and to empty
/// text when no model has that id.
pub proof fn law_model_reference_names_the_model(models: Seq<ModelInfo>, id: String, k: int)
    requires
        0 <= k < models.len(),
        models[k].id@ == id@,
        forall|j: int| 0 <= j < k ==> models[j].id@ != id@,
    ensures
        model_name_for(models, Some(id)) == models[k].name@,
{
    assert(first_model_with_id(models, id@, k));
    let c = choose|c: int| first_model_with_id(models, id@, c);
    lemma_first_model_unique(models, id@, k, c);
}

/// A preset's IR reference resolves to the name of the IR it refers to:
/// the `name` of the first IR whose id it is.
pub proof fn law_ir_reference_names_the_ir(irs: Seq<IrInfo>, id: String, k: int)
    requires
        0 <= k < irs.len(),
        irs[k].id@ == id@,
        forall|j: int| 0 <= j < k ==> irs[j].id@ != id@,
    ensures
        ir_name_for(irs, Some(id)) == irs[k].name@,
{
    let key = id@;
    assert(first_ir_with_id(irs, key, k));
    assert(exists|c: int| first_ir_with_id(irs, key, c));
    let c = choose|c: int| first_ir_with_id(irs, key, c);
    lemma_first_ir_unique(irs, key, k, c);
    assert(c == k);
    let o: Option<String> = Some(id);
    assert(o matches Some(i) && i@ == key);
    assert(ir_name_for(irs, o) == irs[choose|c: int| first_ir_with_id(irs, key, c)].name@);
}

/// A reference to no IR, or to an id that no IR has, resolves to empty
/// text.
pub proof fn law_missing_ir_reference_is_empty(irs: Seq<IrInfo>, id: Option<String>)
    requires
        id matches Some(i) ==> forall|j: int| 0 <= j < irs.len() ==> irs[j].id@ != i@,
    ensures
        ir_name_for(irs, id) == Seq::<char>::empty(),
{
    match id {
        Some(i) => {
            assert(forall|j: int| 0 <= j < irs.len() ==> irs[j].id@ != i@);
            assert(!exists|c: int| first_ir_with_id(irs, i@, c)) by {
                if exists|c: int| first_ir_with_id(irs, i@, c) {
                    let c = choose|c: int| first_ir_with_id(irs, i@, c);
                    assert(irs[c].id@ == i@);
                }
            }
        },
        None => {},
    }
}

} // verus!
