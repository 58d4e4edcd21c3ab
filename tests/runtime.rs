use orbit::config::ConfigSnapshot;
use orbit::control::{Address, ControlAction, DbusEvent, OrbitLoop};
use orbit::module::{discover, name_less, plugin_stem, ModuleId, ModuleInfo};
use orbit::orbit::{Orbit, PushOutcome, SurfaceId, TargetId, Toggle};
use orbit::paths::{cfg_path, join_path, modules_dir};
use orbit::wallpaper::{default_time_format, PerTarget, Wallpaper};
use orbit::watch::{after_read, should_reload, FsChange, LoadStep};

fn registry(names: &[&str]) -> Orbit<u32> {
    let modules: Vec<ModuleInfo> = names
        .iter()
        .map(|n| ModuleInfo::new(n.to_string(), format!("/m/{n}.so")))
        .collect();
    Orbit::new(modules, ConfigSnapshot::empty())
}

/// Shows module `m` with two surfaces and the given timers.
fn realize(o: &mut Orbit<u32>, m: ModuleId, first_surface: u64, timers: Vec<u32>) {
    o.mark_loaded(m);
    o.show_module(m);
    assert!(o.attach_target(m, TargetId(first_surface * 10), SurfaceId(first_surface)));
    assert!(o.attach_target(m, TargetId(first_surface * 10 + 1), SurfaceId(first_surface + 1)));
    let replaced = o.add_subscriptions(m, timers);
    assert!(replaced.is_empty());
}

#[test]
fn toggle_twice_restores_state_and_timers() {
    let mut o = registry(&["bar", "clock"]);
    let bar = ModuleId(0);
    assert_eq!(o.timers[0].len(), 0);
    match o.toggle(&"bar".to_string()) {
        Toggle::Shown { module, load } => {
            assert_eq!(module, bar);
            assert!(load);
        }
        _ => panic!("bar was hidden"),
    }
    assert!(o.modules[0].toggled);
    match o.toggle(&"bar".to_string()) {
        Toggle::Hidden(module, t) => {
            assert_eq!(module, bar);
            assert!(t.timers.is_empty());
        }
        _ => panic!("bar was shown"),
    }
    assert!(!o.modules[0].toggled);
    assert_eq!(o.timers[0].len(), 0);
}

#[test]
fn toggle_off_then_on_cancels_every_timer() {
    let mut o = registry(&["bar"]);
    let bar = ModuleId(0);
    realize(&mut o, bar, 1, vec![7, 8, 9]);
    assert_eq!(o.timers[0].len(), 3);
    let t = match o.toggle(&"bar".to_string()) {
        Toggle::Hidden(_, t) => t,
        _ => panic!("bar was shown"),
    };
    assert_eq!(t.timers, vec![7, 8, 9]);
    assert_eq!(t.surfaces, vec![SurfaceId(1), SurfaceId(2)]);
    assert_eq!(t.targets, vec![TargetId(10), TargetId(11)]);
    assert!(o.targets.is_empty());
    assert!(o.modules[0].loaded);
    match o.toggle(&"bar".to_string()) {
        Toggle::Shown { load, .. } => assert!(!load),
        _ => panic!("bar was hidden"),
    }
    assert!(o.modules[0].toggled);
    assert!(o.add_subscriptions(bar, vec![4, 5, 6]).is_empty());
    assert_eq!(o.timers[0].len(), 3);
}

#[test]
fn toggle_unknown_module_changes_nothing() {
    let mut o = registry(&["bar"]);
    assert!(matches!(o.toggle(&"nope".to_string()), Toggle::Unknown));
    assert!(!o.modules[0].toggled);
}

#[test]
fn unrealize_keeps_library_loaded() {
    let mut o = registry(&["bar", "clock"]);
    realize(&mut o, ModuleId(0), 1, vec![1]);
    realize(&mut o, ModuleId(1), 5, vec![2, 3]);
    let t = o.hide_module(ModuleId(0));
    assert_eq!(t.surfaces, vec![SurfaceId(1), SurfaceId(2)]);
    assert_eq!(t.timers, vec![1]);
    assert!(o.modules[0].loaded);
    assert!(!o.modules[0].toggled);
    assert_eq!(o.targets.len(), 2);
    assert!(o.targets.iter().all(|e| e.module == ModuleId(1)));
    assert_eq!(o.timers[1], vec![2, 3]);
}

#[test]
fn unload_hides_and_unloads() {
    let mut o = registry(&["bar"]);
    realize(&mut o, ModuleId(0), 1, vec![1, 2]);
    let t = o.unload_module(ModuleId(0));
    assert_eq!(t.timers, vec![1, 2]);
    assert!(!o.modules[0].loaded);
    assert!(!o.modules[0].toggled);
    assert!(o.targets.is_empty());
}

#[test]
fn attach_refuses_hidden_module_and_duplicate_surface() {
    let mut o = registry(&["bar", "clock"]);
    assert!(!o.attach_target(ModuleId(0), TargetId(1), SurfaceId(1)));
    assert!(!o.attach_target(ModuleId(9), TargetId(1), SurfaceId(1)));
    o.show_module(ModuleId(0));
    o.show_module(ModuleId(1));
    assert!(o.attach_target(ModuleId(0), TargetId(1), SurfaceId(1)));
    assert!(!o.attach_target(ModuleId(1), TargetId(2), SurfaceId(1)));
    assert_eq!(o.targets.len(), 1);
}

#[test]
fn hidden_module_gets_its_timers_back() {
    let mut o = registry(&["bar"]);
    assert_eq!(o.add_subscriptions(ModuleId(0), vec![1, 2]), vec![1, 2]);
    assert!(o.timers[0].is_empty());
}

#[test]
fn resubscribe_hands_back_replaced_set() {
    let mut o = registry(&["bar"]);
    realize(&mut o, ModuleId(0), 1, vec![1, 2]);
    assert_eq!(o.add_subscriptions(ModuleId(0), vec![3]), vec![1, 2]);
    assert_eq!(o.remove_subscriptions(ModuleId(0)), vec![3]);
    assert!(o.timers[0].is_empty());
}

#[test]
fn events_route_to_owning_targets() {
    let mut o = registry(&["bar", "clock"]);
    realize(&mut o, ModuleId(0), 1, vec![]);
    realize(&mut o, ModuleId(1), 5, vec![]);
    assert_eq!(o.deliveries(Address::Surface(SurfaceId(6))), vec![(TargetId(51), ModuleId(1))]);
    assert_eq!(o.deliveries(Address::Surface(SurfaceId(99))), vec![]);
    assert_eq!(o.deliveries(Address::Everywhere).len(), 4);
    assert_eq!(
        o.deliveries(Address::Module(ModuleId(0))),
        vec![(TargetId(10), ModuleId(0)), (TargetId(11), ModuleId(0))]
    );
    assert_eq!(o.route_surface(SurfaceId(2)), Some((TargetId(11), ModuleId(0))));
    assert_eq!(o.targets_of(ModuleId(1)), vec![TargetId(50), TargetId(51)]);
}

#[test]
fn listing_shows_status() {
    let mut o = registry(&["bar", "clock"]);
    o.mark_loaded(ModuleId(0));
    o.show_module(ModuleId(0));
    assert_eq!(
        o.list_modules(),
        "Modules:\n\tbar (loaded, shown)\n\tclock (unloaded, hidden)\n"
    );
}

#[test]
fn control_commands() {
    let mut o = registry(&["bar"]);
    let mut ctl = OrbitLoop::new();
    match o.handle_control(DbusEvent::Modules, &mut ctl) {
        ControlAction::Reply(s) => assert_eq!(s, "Modules:\n\tbar (unloaded, hidden)\n"),
        _ => panic!("expected a reply"),
    }
    match o.handle_control(DbusEvent::Toggle("bar".to_string()), &mut ctl) {
        ControlAction::Toggle(Toggle::Shown { module, load }) => {
            assert_eq!(module, ModuleId(0));
            assert!(load);
        }
        _ => panic!("expected a toggle"),
    }
    o.mark_loaded(ModuleId(0));
    assert!(o.attach_target(ModuleId(0), TargetId(3), SurfaceId(4)));
    match o.handle_control(DbusEvent::Reload, &mut ctl) {
        ControlAction::Reload(t) => {
            assert_eq!(t.surfaces, vec![SurfaceId(4)]);
            assert_eq!(t.loaded, vec![ModuleId(0)]);
        }
        _ => panic!("expected a reload"),
    }
    assert!(o.targets.is_empty());
    assert!(!ctl.should_close());
    assert!(matches!(o.handle_control(DbusEvent::Exit, &mut ctl), ControlAction::Exit));
    assert!(ctl.should_close());
}

#[test]
fn loop_flag_closes_once_asked() {
    let mut l = OrbitLoop::default();
    assert!(!l.should_close());
    l.close();
    assert!(l.should_close());
}

#[test]
fn user_plugin_shadows_system_plugin() {
    let system = vec!["foo.so".to_string(), "zeta.so".to_string(), "readme.txt".to_string()];
    let user = vec!["foo.so".to_string(), "alpha.so".to_string()];
    let found = discover("/usr/lib/orbit", &system, "/home/u/.config/orbit/modules/", &user);
    let names: Vec<&str> = found.iter().map(|m| m.name.as_str()).collect();
    assert_eq!(names, vec!["alpha", "foo", "zeta"]);
    let foo: Vec<&ModuleInfo> = found.iter().filter(|m| m.name == "foo").collect();
    assert_eq!(foo.len(), 1);
    assert_eq!(foo[0].path, "/home/u/.config/orbit/modules/foo.so");
    assert_eq!(found[2].path, "/usr/lib/orbit/zeta.so");
    assert!(found.iter().all(|m| !m.loaded && !m.toggled));
}

#[test]
fn plugin_stems() {
    assert_eq!(plugin_stem("bar.so"), Some("bar".to_string()));
    assert_eq!(plugin_stem("a.b.so"), Some("a.b".to_string()));
    assert_eq!(plugin_stem(".so"), None);
    assert_eq!(plugin_stem("bar.dll"), None);
    assert_eq!(plugin_stem("so"), None);
}

#[test]
fn names_sort_by_code_point() {
    assert!(name_less("abc", "abd"));
    assert!(name_less("ab", "abc"));
    assert!(!name_less("abc", "abc"));
    assert!(!name_less("b", "abc"));
    assert!(name_less("", "a"));
}

#[test]
fn config_paths() {
    assert_eq!(modules_dir("/home/u/.config/orbit"), "/home/u/.config/orbit/modules");
    assert_eq!(cfg_path("/home/u/.config/orbit/"), "/home/u/.config/orbit/config.yaml");
    assert_eq!(join_path("", "x"), "x");
}

#[test]
fn wallpaper_cleanup_releases_each_texture_once() {
    let mut w = Wallpaper::new();
    for (i, tex) in [11u64, 12, 13].iter().enumerate() {
        w.targets.push((
            TargetId(i as u64),
            PerTarget { size: None, file: format!("/p/{i}.png"), tex: *tex },
        ));
    }
    assert_eq!(w.cleanup(), vec![11, 12, 13]);
    assert!(w.targets.is_empty());
    assert_eq!(w.cleanup(), Vec::<u64>::new());
}

#[test]
fn wallpaper_clock_format_default() {
    assert_eq!(default_time_format(), "%H:%M");
}

#[test]
fn reload_debounce_and_filter() {
    let names = vec!["other.yaml".to_string(), "config.yaml".to_string()];
    let cfg = "config.yaml".to_string();
    assert!(should_reload(&names, &cfg, FsChange::Data, 150));
    assert!(!should_reload(&names, &cfg, FsChange::Data, 149));
    assert!(!should_reload(&names, &cfg, FsChange::Other, 1000));
    assert!(!should_reload(&vec!["other.yaml".to_string()], &cfg, FsChange::Create, 1000));
}

#[test]
fn load_retries_until_deadline() {
    assert_eq!(after_read(true, 5000), LoadStep::Parse);
    assert_eq!(after_read(false, 100), LoadStep::Retry);
    assert_eq!(after_read(false, 750), LoadStep::UseDefault);
}

#[test]
fn config_push_without_rebuild_keeps_surfaces() {
    let mut o = registry(&["bar"]);
    realize(&mut o, ModuleId(0), 1, vec![7]);
    match o.after_config_push(ModuleId(0), false) {
        PushOutcome::Refresh(t) => assert_eq!(t, vec![7]),
        _ => panic!("no rebuild was asked for"),
    }
    assert_eq!(o.targets.len(), 2);
    assert!(o.modules[0].toggled);
    assert!(o.add_subscriptions(ModuleId(0), vec![8]).is_empty());
    match o.after_config_push(ModuleId(0), true) {
        PushOutcome::Rebuild(t) => {
            assert_eq!(t.surfaces, vec![SurfaceId(1), SurfaceId(2)]);
            assert_eq!(t.timers, vec![8]);
        }
        _ => panic!("a rebuild was asked for"),
    }
    assert!(o.targets.is_empty());
    assert!(o.modules[0].toggled);
}
