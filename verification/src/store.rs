//! Where the library keeps its files under the app data directory.
use vstd::prelude::*;

verus! {

/// `s` ends with `t`.
pub open spec fn ends_with(s: Seq<char>, t: Seq<char>) -> bool {
    t.len() <= s.len() && s.subrange(s.len() - t.len(), s.len() as int) == t
}

/// A Windows verbatim path (`\\?\...`), which `Path::join` normalizes.
pub open spec fn is_verbatim(p: Seq<char>) -> bool {
    p.len() >= 4 && p.take(4) == seq!['\\', '\\', '?', '\\']
}

/// A name that `Path::join` appends, on every platform: it does not start
/// with a separator (so has no root) and has no drive colon at index 1 (so
/// has no prefix).
pub open spec fn relative_name(s: Seq<char>) -> bool {
    (s.len() == 0 || (s[0] != '/' && s[0] != '\\')) && !(s.len() >= 2 && s[1] == ':')
}

/// A bare drive such as `C:`, after which Windows adds no separator.
pub open spec fn bare_drive(base: Seq<char>) -> bool {
    base.len() == 2 && base[1] == ':'
}

/// `r` is `base`, then a separator where one is needed, then `rel`: none
/// after an empty base or one that ends in `/`; one of `/` and `\` after a
/// base that does not end in a separator and is not a bare drive; after a
/// base ending in `\` or a bare drive, where the platforms differ,
/// nothing or one separator.
pub open spec fn joined(base: Seq<char>, rel: Seq<char>, r: Seq<char>) -> bool {
    if base.len() == 0 || base.last() == '/' {
        r == base + rel
    } else if base.last() == '\\' || bare_drive(base) {
        r == base + rel || r == base + seq!['/'] + rel || r == base + seq!['\\'] + rel
    } else {
        r == base + seq!['/'] + rel || r == base + seq!['\\'] + rel
    }
}

/// `base` joined with `rel` by `std::path::Path::join`, as text.
/// `PathBuf::push` appends a relative `rel` after a separator, the
/// platform's own one, unless `base` is empty, ends with a separator or is
/// a bare drive; it replaces `base` when `rel` has a root or a prefix; and
/// under a verbatim base it normalizes `.` and `..` away. Either way,
/// outside a verbatim base, the result ends with `rel`. Which separator is
/// written depends on the platform and is not stated, nor is the result
/// under a verbatim base.
#[verifier::external_body]
fn join_path(base: &str, rel: &str) -> (r: String)
    ensures
        !is_verbatim(base@) ==> ends_with(r@, rel@),
        !is_verbatim(base@) && relative_name(rel@) ==> joined(base@, rel@, r@),
{
    std::path::Path::new(base).join(rel).to_string_lossy().into_owned()
}

/// The app data directory and its subdirectories for models, IRs and
/// temporary files.
pub struct AppDirs {
    pub root: String,
    pub models: String,
    pub irs: String,
    pub tmp: String,
}

/// File name of a stored model.
pub open spec fn model_file_name(id: Seq<char>, name: Seq<char>) -> Seq<char> {
    id + "_"@ + name + ".namb"@
}

/// File name of a stored impulse response.
pub open spec fn ir_file_name(id: Seq<char>, name: Seq<char>) -> Seq<char> {
    id + "_"@ + name + ".wav"@
}

fn file_name(id: &str, name: &str, ext: &str) -> (r: String)
    ensures
        r@ == id@ + "_"@ + name@ + ext@,
{
    let mut s = String::from_str(id);
    s.append("_");
    s.append(name);
    s.append(ext);
    s
}

impl AppDirs {
    /// The directory layout under `app_data_dir`: `models`, `irs` and `tmp`.
    /// Creating the directories is left to the caller.
    pub fn new(app_data_dir: &str) -> (r: AppDirs)
        ensures
            r.root@ == app_data_dir@,
            !is_verbatim(app_data_dir@) ==> {
                &&& joined(app_data_dir@, "models"@, r.models@)
                &&& joined(app_data_dir@, "irs"@, r.irs@)
                &&& joined(app_data_dir@, "tmp"@, r.tmp@)
            },
    {
        proof {
            reveal_strlit("models");
            reveal_strlit("irs");
            reveal_strlit("tmp");
        }
        let root = String::from_str(app_data_dir);
        let models = join_path(app_data_dir, "models");
        let irs = join_path(app_data_dir, "irs");
        let tmp = join_path(app_data_dir, "tmp");
        AppDirs { root, models, irs, tmp }
    }

    /// The preset list file.
    pub fn presets_json(&self) -> (r: String)
        ensures
            !is_verbatim(self.root@) ==> joined(self.root@, "presets.json"@, r@),
    {
        proof {
            reveal_strlit("presets.json");
        }
        join_path(self.root.as_str(), "presets.json")
    }

    /// The model list file.
    pub fn model_meta(&self) -> (r: String)
        ensures
            !is_verbatim(self.root@) ==> joined(self.root@, "models.json"@, r@),
    {
        proof {
            reveal_strlit("models.json");
        }
        join_path(self.root.as_str(), "models.json")
    }

    /// The IR list file.
    pub fn ir_meta(&self) -> (r: String)
        ensures
            !is_verbatim(self.root@) ==> joined(self.root@, "irs.json"@, r@),
    {
        proof {
            reveal_strlit("irs.json");
        }
        join_path(self.root.as_str(), "irs.json")
    }

    /// The stored tone3000 tokens.
    pub fn tokens_json(&self) -> (r: String)
        ensures
            !is_verbatim(self.root@) ==> joined(self.root@, "tone3000_tokens.json"@, r@),
    {
        proof {
            reveal_strlit("tone3000_tokens.json");
        }
        join_path(self.root.as_str(), "tone3000_tokens.json")
    }

    /// Where model `id` named `name` is stored: `{id}_{name}.namb` in the
    /// models directory.
    pub fn model_path(&self, id: &str, name: &str) -> (r: String)
        ensures
            !is_verbatim(self.models@) ==> ends_with(r@, model_file_name(id@, name@)),
            !is_verbatim(self.models@) && relative_name(model_file_name(id@, name@)) ==> joined(
                self.models@,
                model_file_name(id@, name@),
                r@,
            ),
    {
        let f = file_name(id, name, ".namb");
        join_path(self.models.as_str(), f.as_str())
    }

    /// Where IR `id` named `name` is stored: `{id}_{name}.wav` in the IRs
    /// directory.
    pub fn ir_path(&self, id: &str, name: &str) -> (r: String)
        ensures
            !is_verbatim(self.irs@) ==> ends_with(r@, ir_file_name(id@, name@)),
            !is_verbatim(self.irs@) && relative_name(ir_file_name(id@, name@)) ==> joined(
                self.irs@,
                ir_file_name(id@, name@),
                r@,
            ),
    {
        let f = file_name(id, name, ".wav");
        join_path(self.irs.as_str(), f.as_str())
    }

    /// Where a built image is written: `data_image.bin` in the temporary
    /// directory.
    pub fn image_path(&self) -> (r: String)
        ensures
            !is_verbatim(self.tmp@) ==> joined(self.tmp@, "data_image.bin"@, r@),
    {
        proof {
            reveal_strlit("data_image.bin");
        }
        join_path(self.tmp.as_str(), "data_image.bin")
    }

    /// Temporary input and output files of a `.nam` to `.namb` conversion
    /// run: `{run_id}_input.nam` and `{run_id}_output.namb` in the temporary
    /// directory.
    pub fn conversion_paths(&self, run_id: &str) -> (r: (String, String))
        ensures
            !is_verbatim(self.tmp@) ==> ends_with(r.0@, run_id@ + "_input.nam"@),
            !is_verbatim(self.tmp@) ==> ends_with(r.1@, run_id@ + "_output.namb"@),
            !is_verbatim(self.tmp@) && relative_name(run_id@ + "_input.nam"@) ==> joined(
                self.tmp@,
                run_id@ + "_input.nam"@,
                r.0@,
            ),
            !is_verbatim(self.tmp@) && relative_name(run_id@ + "_output.namb"@) ==> joined(
                self.tmp@,
                run_id@ + "_output.namb"@,
                r.1@,
            ),
    {
        let mut input = String::from_str(run_id);
        input.append("_input.nam");
        let mut output = String::from_str(run_id);
        output.append("_output.namb");
        (join_path(self.tmp.as_str(), input.as_str()), join_path(self.tmp.as_str(), output.as_str()))
    }
}

} // verus!
