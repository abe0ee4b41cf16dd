use daisy_nam::presets::{delete_preset, find_preset, reorder_presets, save_preset, upsert_preset};
use daisy_nam::types::Preset;

fn preset(id: &str, name: &str) -> Preset {
    Preset {
        id: id.into(),
        name: name.into(),
        model_id: None,
        ir_id: None,
        input_gain_bits: 1.0f32.to_bits(),
        output_volume_bits: 0.5f32.to_bits(),
        bypass: false,
    }
}

fn ids(ps: &[Preset]) -> Vec<String> {
    ps.iter().map(|p| p.id.clone()).collect()
}

#[test]
fn new_preset_gets_fresh_id_and_goes_last() {
    let mut ps = vec![preset("a", "A")];
    let saved = save_preset(&mut ps, preset("", "New"));
    assert_eq!(saved.id.len(), 36);
    assert_eq!(saved.name, "New");
    assert_eq!(ps.len(), 2);
    assert_eq!(ps[1].id, saved.id);
}

#[test]
fn existing_preset_is_replaced_in_place() {
    let mut ps = vec![preset("a", "A"), preset("b", "B"), preset("c", "C")];
    let saved = save_preset(&mut ps, preset("b", "B2"));
    assert_eq!(saved.id, "b");
    assert_eq!(ids(&ps), vec!["a", "b", "c"]);
    assert_eq!(ps[1].name, "B2");
}

#[test]
fn unknown_id_is_treated_as_new() {
    let mut ps = vec![preset("a", "A")];
    let saved = upsert_preset(&mut ps, preset("zz", "Z"), "unused".into());
    assert_eq!(saved.id, "zz");
    assert_eq!(ids(&ps), vec!["a", "zz"]);
    let fresh = upsert_preset(&mut ps, preset("", "N"), "fresh".into());
    assert_eq!(fresh.id, "fresh");
    assert_eq!(ids(&ps), vec!["a", "zz", "fresh"]);
    assert_eq!(find_preset(&ps, "fresh"), Some(2));
}

#[test]
fn delete_removes_every_match() {
    let mut ps = vec![preset("a", "A"), preset("b", "B"), preset("a", "A2"), preset("c", "C")];
    delete_preset(&mut ps, "a");
    assert_eq!(ids(&ps), vec!["b", "c"]);
    delete_preset(&mut ps, "nope");
    assert_eq!(ids(&ps), vec!["b", "c"]);
}

#[test]
fn reorder_follows_list_then_keeps_rest() {
    let ps = vec![preset("a", "A"), preset("b", "B"), preset("c", "C"), preset("d", "D"), preset("e", "E")];
    let order = vec!["d".to_string(), "b".to_string(), "x".to_string()];
    let r = reorder_presets(ps, &order);
    assert_eq!(ids(&r), vec!["d", "b", "a", "c", "e"]);
}

#[test]
fn reorder_duplicates_use_first_position() {
    let ps = vec![preset("a", "A1"), preset("b", "B"), preset("a", "A2")];
    let order = vec!["a".to_string(), "b".to_string(), "a".to_string()];
    let r = reorder_presets(ps, &order);
    assert_eq!(r.iter().map(|p| p.name.clone()).collect::<Vec<_>>(), vec!["A1", "A2", "B"]);
}

#[test]
fn reorder_empty_order_keeps_list() {
    let ps = vec![preset("b", "B"), preset("a", "A")];
    let r = reorder_presets(ps, &Vec::new());
    assert_eq!(ids(&r), vec!["b", "a"]);
}

#[test]
fn reorder_twice_is_reorder_once() {
    let ps = vec![preset("a", "A"), preset("b", "B"), preset("c", "C"), preset("a", "A2")];
    let order = vec!["c".to_string(), "a".to_string()];
    let once = reorder_presets(ps, &order);
    let once_ids = ids(&once);
    let twice = reorder_presets(once, &order);
    assert_eq!(ids(&twice), once_ids);
    assert_eq!(once_ids, vec!["c", "a", "a", "b"]);
}

#[test]
fn delete_after_save_restores_list() {
    let mut ps = vec![preset("a", "A"), preset("b", "B")];
    let saved = save_preset(&mut ps, preset("new", "N"));
    assert_eq!(ps.len(), 3);
    delete_preset(&mut ps, &saved.id);
    assert_eq!(ids(&ps), vec!["a", "b"]);
}
