use orbit::config::{ConfigSnapshot, Document, ModulesEntry, RawFlag};
use orbit::module::{ModuleId, ModuleInfo};
use orbit::orbit::Orbit;
use orbit::reconcile::ConfigInstruction;
use orbit::reload::{plan_instruction, Step};
use orbit::yaml::parse_config;

fn snapshot(enables: &[(&str, bool)], blocks: &[(&str, &str)]) -> ConfigSnapshot {
    ConfigSnapshot {
        enables: enables.iter().map(|(n, b)| (n.to_string(), *b)).collect(),
        blocks: blocks.iter().map(|(n, b)| (n.to_string(), b.to_string())).collect(),
    }
}

fn instruction_of(d: &[(String, ConfigInstruction)], name: &str) -> ConfigInstruction {
    let hits: Vec<&ConfigInstruction> = d.iter().filter(|(n, _)| n == name).map(|(_, i)| i).collect();
    assert_eq!(hits.len(), 1, "one instruction per name");
    *hits[0]
}

const NOTHING: ConfigInstruction = ConfigInstruction {
    should_unrealize: false,
    should_realize: false,
    config_changed: false,
};

fn registry(names: &[&str]) -> Orbit<u32> {
    let modules: Vec<ModuleInfo> = names
        .iter()
        .map(|n| ModuleInfo::new(n.to_string(), format!("/m/{n}.so")))
        .collect();
    Orbit::new(modules, ConfigSnapshot::empty())
}

#[test]
fn identity_diff_is_a_no_op() {
    let s = snapshot(&[("bar", true), ("wallpaper", false)], &[("bar", "height: 32\n"), ("clock", "x: 1\n")]);
    let d = Orbit::<u32>::compare_configs(&s, &s);
    assert_eq!(d.len(), 3);
    for (_, i) in &d {
        assert_eq!(*i, NOTHING);
    }
}

#[test]
fn realize_and_unrealize_never_together() {
    let a = snapshot(&[("a", true), ("b", false), ("c", true)], &[("a", "x")]);
    let b = snapshot(&[("a", false), ("b", true), ("d", true)], &[("a", "y"), ("d", "z")]);
    let d = Orbit::<u32>::compare_configs(&a, &b);
    assert_eq!(d.len(), 4);
    for (_, i) in &d {
        assert!(!(i.should_realize && i.should_unrealize));
    }
    assert_eq!(instruction_of(&d, "a"), ConfigInstruction { should_unrealize: true, should_realize: false, config_changed: false });
    assert_eq!(instruction_of(&d, "b"), ConfigInstruction { should_unrealize: false, should_realize: true, config_changed: false });
    assert_eq!(instruction_of(&d, "c"), ConfigInstruction { should_unrealize: true, should_realize: false, config_changed: false });
    assert_eq!(instruction_of(&d, "d"), ConfigInstruction { should_unrealize: false, should_realize: true, config_changed: true });
}

#[test]
fn disabled_module_reports_no_config_change() {
    let a = snapshot(&[("bar", false)], &[("bar", "height: 32\n")]);
    let b = snapshot(&[("bar", false)], &[("bar", "height: 40\n")]);
    assert_eq!(instruction_of(&Orbit::<u32>::compare_configs(&a, &b), "bar"), NOTHING);
}

#[test]
fn height_change_pushes_config_to_realized_bar() {
    let old = parse_config("modules:\n  bar: true\nbar:\n  height: 32\n").expect("valid");
    let new = parse_config("modules:\n  bar: true\nbar:\n  height: 40\n").expect("valid");
    let d = Orbit::<u32>::compare_configs(&old, &new);
    assert_eq!(d.len(), 1);
    assert_eq!(d[0].0, "bar");
    assert_eq!(d[0].1, ConfigInstruction { should_unrealize: false, should_realize: false, config_changed: true });
    assert_eq!(plan_instruction(d[0].1), vec![Step::Validate, Step::PushConfig]);

    let mut o = registry(&["bar"]);
    o.commit_config(old);
    let plan = o.plan_reload(&new);
    assert!(plan.errors.is_empty());
    assert_eq!(plan.steps.len(), 1);
    assert_eq!(plan.steps[0].0, ModuleId(0));
    assert_eq!(plan.steps[0].1, vec![Step::Validate, Step::PushConfig]);
}

#[test]
fn disabling_bar_unrealizes_it() {
    let old = parse_config("modules:\n  bar: true\n").expect("valid");
    let new = parse_config("modules:\n  bar: false\n").expect("valid");
    let d = Orbit::<u32>::compare_configs(&old, &new);
    assert_eq!(d.len(), 1);
    assert_eq!(d[0].1, ConfigInstruction { should_unrealize: true, should_realize: false, config_changed: false });
    let mut o = registry(&["bar"]);
    o.commit_config(old);
    let plan = o.plan_reload(&new);
    assert_eq!(plan.steps.len(), 1);
    assert_eq!(plan.steps[0].1, vec![Step::Unrealize]);
}

#[test]
fn enabling_plans_validate_then_realize() {
    let i = ConfigInstruction { should_unrealize: false, should_realize: true, config_changed: true };
    assert_eq!(plan_instruction(i), vec![Step::Validate, Step::Realize]);
    assert_eq!(plan_instruction(NOTHING), Vec::<Step>::new());
}

#[test]
fn unknown_module_is_reported_and_others_planned() {
    let mut o = registry(&["bar"]);
    o.commit_config(snapshot(&[], &[]));
    let new = snapshot(&[("bar", true), ("ghost", true)], &[]);
    let plan = o.plan_reload(&new);
    assert_eq!(plan.errors, vec!["Module ghost could not be found.".to_string()]);
    assert_eq!(plan.steps.len(), 1);
    assert_eq!(plan.steps[0].0, ModuleId(0));
    assert_eq!(plan.steps[0].1, vec![Step::Validate, Step::Realize]);
}

#[test]
fn malformed_config_reports_module_names() {
    let r = parse_config("modules:\n  bar: 3\n  clock: true\n  dock: yes please\n");
    let errors = r.err().expect("rejected");
    assert_eq!(
        errors,
        vec![
            "Module value for bar is not a bool!".to_string(),
            "Module value for dock is not a bool!".to_string(),
        ]
    );
}

#[test]
fn malformed_config_leaves_config_in_force() {
    let mut o = registry(&["bar"]);
    let first = parse_config("modules:\n  bar: true\nbar:\n  height: 32\n").expect("valid");
    o.commit_config(first);
    assert!(parse_config("modules: [bar]\n").is_err());
    assert_eq!(o.config.enables, vec![("bar".to_string(), true)]);
    assert_eq!(o.config.blocks.len(), 1);
}

#[test]
fn unparsable_text_is_rejected() {
    assert_eq!(parse_config("- a\n- b\n").err(), Some(vec!["Config could not be parsed!".to_string()]));
    assert_eq!(parse_config("modules: [\n").err(), Some(vec!["Config could not be parsed!".to_string()]));
}

#[test]
fn modules_entry_that_is_not_a_mapping_is_rejected() {
    let doc = Document { modules: ModulesEntry::Malformed, blocks: Vec::new() };
    assert_eq!(
        ConfigSnapshot::from_document(doc).err(),
        Some(vec!["The modules entry is not a mapping!".to_string()])
    );
}

#[test]
fn absent_modules_entry_enables_nothing() {
    let doc = Document { modules: ModulesEntry::Absent, blocks: vec![("bar".to_string(), "height: 1\n".to_string())] };
    let s = ConfigSnapshot::from_document(doc).ok().expect("accepted");
    assert!(s.enables.is_empty());
    assert_eq!(s.blocks.len(), 1);
    let parsed = parse_config("bar:\n  height: 1\n").expect("valid");
    assert!(parsed.enables.is_empty());
    assert_eq!(parsed.blocks[0].0, "bar");
}

#[test]
fn from_raw_keeps_flags_in_order() {
    let raw = vec![
        ("a".to_string(), RawFlag::Bool(true)),
        ("b".to_string(), RawFlag::Bool(false)),
    ];
    let s = ConfigSnapshot::from_raw(raw, Vec::new()).ok().expect("accepted");
    assert_eq!(s.enables, vec![("a".to_string(), true), ("b".to_string(), false)]);
}

#[test]
fn is_enabled_records_missing_module_as_disabled() {
    let mut s = snapshot(&[("bar", true)], &[]);
    assert!(s.is_enabled(&"bar".to_string()));
    assert!(!s.is_enabled(&"clock".to_string()));
    assert_eq!(s.enables, vec![("bar".to_string(), true), ("clock".to_string(), false)]);
    assert!(!s.is_enabled(&"clock".to_string()));
    assert_eq!(s.enables.len(), 2);
}

#[test]
fn block_text_differs_when_height_differs() {
    let a = parse_config("bar:\n  height: 32\n").expect("valid");
    let b = parse_config("bar:\n  height: 40\n").expect("valid");
    assert_ne!(a.blocks[0].1, b.blocks[0].1);
    assert!(b.blocks[0].1.contains("40"));
}

#[test]
fn enabled_modules_lists_and_records_every_module() {
    let modules = vec![
        ModuleInfo::new("bar".to_string(), "/m/bar.so".to_string()),
        ModuleInfo::new("clock".to_string(), "/m/clock.so".to_string()),
        ModuleInfo::new("dock".to_string(), "/m/dock.so".to_string()),
    ];
    let mut o: Orbit<u32> = Orbit::new(modules, snapshot(&[("dock", true), ("bar", false)], &[]));
    assert_eq!(o.enabled_modules(), vec![ModuleId(2)]);
    assert_eq!(
        o.config.enables,
        vec![("dock".to_string(), true), ("bar".to_string(), false), ("clock".to_string(), false)]
    );
}

#[test]
fn reordered_block_is_not_a_change() {
    let old = parse_config("modules:\n  bar: true\nbar:\n  height: 32\n  font: mono\n").expect("valid");
    let new = parse_config("modules:\n  bar: true\nbar:\n  font: mono\n  height: 32\n").expect("valid");
    assert_ne!(old.blocks[0].1, new.blocks[0].1);
    let d = Orbit::<u32>::compare_configs(&old, &new);
    assert_eq!(instruction_of(&d, "bar"), NOTHING);
}

#[test]
fn modules_entry_text_that_is_not_a_mapping_is_rejected() {
    assert_eq!(
        parse_config("modules: [bar]\n").err(),
        Some(vec!["The modules entry is not a mapping!".to_string()])
    );
}

#[test]
fn each_module_is_planned_once() {
    let mut o = registry(&["bar", "clock"]);
    o.commit_config(snapshot(&[("clock", true)], &[("clock", "x: 1\n")]));
    let new = snapshot(&[("bar", true), ("clock", true)], &[("bar", "h: 1\n"), ("clock", "x: 2\n")]);
    let plan = o.plan_reload(&new);
    assert!(plan.errors.is_empty());
    let mut ids: Vec<u32> = plan.steps.iter().map(|(m, _)| m.0).collect();
    ids.sort();
    assert_eq!(ids, vec![0, 1]);
}

#[test]
fn failed_reload_keeps_config_in_force() {
    let mut o = registry(&["bar"]);
    o.commit_config(snapshot(&[("bar", true)], &[]));
    let r = o.settle_reload(snapshot(&[("bar", false)], &[]), vec!["bad".to_string()]);
    assert_eq!(r, Err(vec!["bad".to_string()]));
    assert_eq!(o.config.enables, vec![("bar".to_string(), true)]);
    assert_eq!(o.settle_reload(snapshot(&[("bar", false)], &[]), Vec::new()), Ok(()));
    assert_eq!(o.config.enables, vec![("bar".to_string(), false)]);
}
