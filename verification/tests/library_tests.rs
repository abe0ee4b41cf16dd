use daisy_nam::library::{
    apply_model_rename, conversion_args, conversion_failure, find_model, fresh_id, import_name,
    imported_ir_info, imported_model_info, ir_import_name, model_import_name, nam_name, plan_model_rename,
    remove_ir, remove_model, validate_nam_path,
};
use daisy_nam::store::AppDirs;
use daisy_nam::types::{IrInfo, ModelInfo};

#[test]
fn validate_nam_rejects_namb() {
    assert!(validate_nam_path("model.namb").is_err());
}

#[test]
fn validate_nam_rejects_no_extension() {
    assert!(validate_nam_path("modelfile").is_err());
}

#[test]
fn validate_nam_accepts_and_returns_stem() {
    let name = validate_nam_path("/some/path/my-model.nam").unwrap();
    assert_eq!(name, "my-model");
}

#[test]
fn validate_nam_messages() {
    assert_eq!(validate_nam_path("model.namb"), Err("Expected a .nam file, got .namb".to_string()));
    assert_eq!(validate_nam_path("modelfile"), Err("File has no extension".to_string()));
}

#[test]
fn nam_name_decisions() {
    assert_eq!(nam_name(Some("nam".into()), Some("amp".into())), Ok("amp".to_string()));
    assert_eq!(nam_name(Some("nam".into()), None), Ok("model".to_string()));
    assert_eq!(nam_name(Some("wav".into()), Some("x".into())), Err("Expected a .nam file, got .wav".to_string()));
    assert_eq!(nam_name(None, Some("x".into())), Err("File has no extension".to_string()));
}

#[test]
fn import_names() {
    assert_eq!(model_import_name("/a/b/Clean Amp.namb"), Ok("Clean Amp".to_string()));
    assert_eq!(model_import_name("/a/b/amp.nam"), Err("File must have a .namb extension".to_string()));
    assert_eq!(ir_import_name("cab.wav"), Ok("cab".to_string()));
    assert_eq!(ir_import_name("cab.WAV"), Err("File must have a .wav extension".to_string()));
    assert_eq!(import_name(Some("wav".into()), None, "wav", "ir", "no"), Ok("ir".to_string()));
}

fn model(id: &str, name: &str) -> ModelInfo {
    ModelInfo {
        id: id.into(),
        name: name.into(),
        size_bytes: 10,
        imported_at: "t".into(),
        tone3000_id: None,
        tone3000_model_id: None,
    }
}

#[test]
fn find_model_first_match() {
    let ms = vec![model("a", "x"), model("b", "y"), model("b", "z")];
    assert_eq!(find_model(&ms, "b"), Some(1));
    assert_eq!(find_model(&ms, "c"), None);
}

#[test]
fn rename_plan_and_apply() {
    let dirs = AppDirs::new("/data");
    let mut ms = vec![model("a", "x"), model("b", "y")];
    assert_eq!(plan_model_rename(&dirs, &ms, "zz", "n").err(), Some("Model not found".to_string()));
    let plan = plan_model_rename(&dirs, &ms, "b", "new").unwrap();
    assert_eq!(plan.pos, 1);
    assert!(plan.move_file);
    assert!(plan.old_path.ends_with("b_y.namb"));
    assert!(plan.new_path.ends_with("b_new.namb"));
    let same = plan_model_rename(&dirs, &ms, "b", "y").unwrap();
    assert!(!same.move_file);
    let r = apply_model_rename(&mut ms, 1, "new".to_string());
    assert_eq!(r.name, "new");
    assert_eq!(r.id, "b");
    assert_eq!(ms[1].name, "new");
    assert_eq!(ms[0].name, "x");
}

#[test]
fn remove_model_and_ir() {
    let mut ms = vec![model("a", "x"), model("b", "y")];
    let gone = remove_model(&mut ms, "a").unwrap();
    assert_eq!(gone.name, "x");
    assert_eq!(ms.len(), 1);
    assert_eq!(ms[0].id, "b");
    assert!(remove_model(&mut ms, "a").is_none());
    assert_eq!(ms.len(), 1);

    let mut irs = vec![imported_ir_info("i1".into(), "cab".into(), 512, 48000, true, 99, "t".into())];
    assert!(remove_ir(&mut irs, "nope").is_none());
    let r: IrInfo = remove_ir(&mut irs, "i1").unwrap();
    assert_eq!(r.tap_count, 512);
    assert!(r.trimmed);
    assert!(irs.is_empty());
}

#[test]
fn fresh_ids_are_uuids() {
    let a = fresh_id();
    let b = fresh_id();
    assert_eq!(a.len(), 36);
    assert_eq!(a.as_bytes()[8], b'-');
    assert_eq!(a.as_bytes()[14], b'4');
    assert_ne!(a, b);
}

#[test]
fn imported_model_record() {
    let m = imported_model_info("id1".into(), "amp".into(), 123, "2024".into());
    assert_eq!(m.id, "id1");
    assert_eq!(m.size_bytes, 123);
    assert!(m.tone3000_id.is_none() && m.tone3000_model_id.is_none());
}

#[test]
fn converter_arguments_and_failure() {
    assert_eq!(conversion_args("in.nam", "out.namb"), vec!["--slim", "0.5", "in.nam", "out.namb"]);
    assert_eq!(conversion_failure("boom"), "Conversion failed: boom");
}

#[test]
fn store_paths() {
    let dirs = AppDirs::new("/data/app");
    assert_eq!(dirs.root, "/data/app");
    assert!(dirs.models.ends_with("models"));
    assert!(dirs.irs.ends_with("irs"));
    assert!(dirs.tmp.ends_with("tmp"));
    assert!(dirs.presets_json().ends_with("presets.json"));
    assert!(dirs.model_meta().ends_with("models.json"));
    assert!(dirs.ir_meta().ends_with("irs.json"));
    assert!(dirs.tokens_json().ends_with("tone3000_tokens.json"));
    assert!(dirs.model_path("id", "amp").ends_with("id_amp.namb"));
    assert!(dirs.ir_path("id", "cab").ends_with("id_cab.wav"));
    assert!(dirs.image_path().ends_with("data_image.bin"));
    let (i, o) = dirs.conversion_paths("run");
    assert!(i.ends_with("run_input.nam"));
    assert!(o.ends_with("run_output.namb"));
    assert!(dirs.model_path("id", "amp").starts_with("/data/app"));
}

#[test]
fn remove_after_add_restores_list() {
    let mut ms = vec![model("a", "x")];
    let m = imported_model_info(fresh_id(), "amp".into(), 1, "t".into());
    let id = m.id.clone();
    ms.push(m);
    assert_eq!(find_model(&ms, &id), Some(1));
    remove_model(&mut ms, &id);
    assert_eq!(ms.len(), 1);
    assert_eq!(ms[0].id, "a");
}

#[test]
fn app_dirs_join_under_the_root() {
    let dirs = AppDirs::new("/d");
    assert_eq!(dirs.models, "/d/models");
    assert_eq!(dirs.irs, "/d/irs");
    assert_eq!(dirs.tmp, "/d/tmp");
    assert_eq!(dirs.presets_json(), "/d/presets.json");
    assert_eq!(dirs.model_meta(), "/d/models.json");
    assert_eq!(dirs.ir_meta(), "/d/irs.json");
    assert_eq!(dirs.tokens_json(), "/d/tone3000_tokens.json");
    assert_eq!(dirs.image_path(), "/d/tmp/data_image.bin");
}

#[test]
fn stored_file_paths_lie_in_their_directories() {
    let dirs = AppDirs {
        root: "/d".to_string(),
        models: "/d/models".to_string(),
        irs: "/d/irs".to_string(),
        tmp: "/d/tmp".to_string(),
    };
    assert_eq!(dirs.model_path("abc", "amp"), "/d/models/abc_amp.namb");
    assert_eq!(dirs.ir_path("abc", "cab"), "/d/irs/abc_cab.wav");
}

#[test]
fn nam_path_of_a_bare_name() {
    assert_eq!(validate_nam_path("model.nam"), Ok("model".to_string()));
    assert_eq!(validate_nam_path("x.NAM"), Err("Expected a .nam file, got .NAM".to_string()));
    assert_eq!(validate_nam_path("noext"), Err("File has no extension".to_string()));
    assert_eq!(validate_nam_path("my.amp.nam"), Ok("my.amp".to_string()));
}

#[test]
fn fresh_id_has_the_v4_variant() {
    let id = fresh_id();
    let b = id.as_bytes();
    assert_eq!(b[14], b'4');
    assert!(matches!(b[19], b'8' | b'9' | b'a' | b'b'));
}

#[test]
fn import_names_come_from_the_last_component() {
    assert_eq!(ir_import_name("/music/irs/cab.wav"), Ok("cab".to_string()));
    assert_eq!(ir_import_name("/music/irs/cab.mp3"), Err("File must have a .wav extension".to_string()));
    assert_eq!(ir_import_name("/music.d/noext"), Err("File must have a .wav extension".to_string()));
    assert_eq!(model_import_name("/a/b/amp.namb"), Ok("amp".to_string()));
    assert_eq!(model_import_name("/a/b/amp.nam"), Err("File must have a .namb extension".to_string()));
    assert_eq!(validate_nam_path("/some/path/a.b.nam"), Ok("a.b".to_string()));
    assert_eq!(validate_nam_path(".nam"), Err("File has no extension".to_string()));
}
