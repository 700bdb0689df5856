use herdr_telescope::keys::{from_configs, Keys};

fn keys_from(map: &[(&str, &str)], shadow: &[&str]) -> Keys {
    Keys::new(
        map.iter().map(|(a, b)| (a.to_string(), b.to_string())).collect(),
        shadow.iter().map(|s| s.to_string()).collect(),
    )
}

#[test]
fn renders_prefix_binding() {
    let k = keys_from(&[("split_vertical", "prefix+v")], &[]);
    assert_eq!(k.shortcut("split_vertical", None), "ctrl+b v");
}

#[test]
fn renders_direct_binding() {
    let k = keys_from(&[("zoom", "prefix+z")], &[]);
    assert_eq!(k.shortcut("zoom", None), "ctrl+b z");
}

#[test]
fn unbound_and_missing_render_empty() {
    let k = keys_from(&[("close_pane", "")], &[]);
    assert_eq!(k.shortcut("close_pane", None), "");
    assert_eq!(k.shortcut("nope", None), "");
    assert_eq!(k.shortcut(":", None), "");
}

#[test]
fn fills_indexed_and_drops_unfillable() {
    let k = keys_from(&[("switch_tab", "prefix+1..9")], &[]);
    assert_eq!(k.shortcut("switch_tab", Some(3)), "ctrl+b 3");
    assert_eq!(k.shortcut("switch_tab", None), "");
}

#[test]
fn shadowed_binding_is_empty() {
    let k = keys_from(&[("zoom", "prefix+z")], &["prefix+z"]);
    assert_eq!(k.shortcut("zoom", None), "");
}

#[test]
fn a_key_without_prefix_renders_as_typed() {
    let k = keys_from(&[("zoom", "alt+z")], &[]);
    assert_eq!(k.shortcut("zoom", None), "alt+z");
}

#[test]
fn the_prefix_binding_sets_the_prefix() {
    let k = keys_from(&[("prefix", "ctrl+a"), ("zoom", "prefix+z")], &[]);
    assert_eq!(k.prefix, "ctrl+a");
    assert_eq!(k.shortcut("zoom", None), "ctrl+a z");
}

#[test]
fn later_assignment_wins() {
    let k = keys_from(&[("zoom", "prefix+z"), ("zoom", "prefix+m")], &[]);
    assert_eq!(k.shortcut("zoom", None), "ctrl+b m");
}

#[test]
fn is_shadowed_reports_claimed_bindings() {
    let k = keys_from(&[], &["prefix+z"]);
    assert!(k.is_shadowed("prefix+z"));
    assert!(!k.is_shadowed("prefix+x"));
}

#[test]
fn user_config_wins_over_commented_defaults() {
    let defaults = "[keys]\n# prefix = \"ctrl+b\"\n# zoom = \"prefix+z\"\n# close_pane = \"prefix+x\"\n";
    let user = "[keys]\nzoom = \"prefix+m\"\n";
    let k = from_configs(Some(defaults), Some(user));
    assert_eq!(k.shortcut("zoom", None), "ctrl+b m");
    assert_eq!(k.shortcut("close_pane", None), "ctrl+b x");
}

#[test]
fn defaults_are_read_only_uncommented() {
    let defaults = "[keys]\n# zoom = \"prefix+z\"\n";
    let k = from_configs(Some(defaults), None);
    assert_eq!(k.shortcut("zoom", None), "ctrl+b z");
    assert_eq!(k.prefix, "ctrl+b");
}

#[test]
fn user_command_block_shadows_a_default() {
    let defaults = "[keys]\n# zoom = \"prefix+z\"\n";
    let user = "[[keys.command]]\nkey = \"prefix+z\"\ntype = \"plugin_action\"\ncommand = \"telescope.open\"\n";
    let k = from_configs(Some(defaults), Some(user));
    assert!(k.is_shadowed("prefix+z"));
    assert_eq!(k.shortcut("zoom", None), "");
}

#[test]
fn broken_config_adds_nothing() {
    let k = from_configs(Some("[keys\n# zoom = \"prefix+z\""), Some("not toml = = ="));
    assert_eq!(k.shortcut("zoom", None), "");
    assert_eq!(k.prefix, "ctrl+b");
}

#[test]
fn collect_shadow_lists_command_keys() {
    let user = "[[keys.command]]\nkey = \"prefix+p\"\n[[keys.command]]\nkey = \"prefix+o\"\n";
    assert_eq!(
        herdr_telescope::keys::collect_shadow(user),
        vec!["prefix+p".to_string(), "prefix+o".to_string()]
    );
    assert!(herdr_telescope::keys::collect_shadow("[keys]\nzoom = \"x\"\n").is_empty());
}

#[test]
fn explicit_empty_user_binding_unbinds() {
    let defaults = "[keys]\n# zoom = \"prefix+z\"\n";
    let user = "[keys]\nzoom = \"\"\n";
    let k = from_configs(Some(defaults), Some(user));
    assert_eq!(k.shortcut("zoom", None), "");
}

#[test]
fn empty_user_prefix_keeps_the_default() {
    let defaults = "[keys]\n# prefix = \"ctrl+a\"\n# zoom = \"prefix+z\"\n";
    let user = "[keys]\nprefix = \"\"\n";
    let k = from_configs(Some(defaults), Some(user));
    assert_eq!(k.prefix, "ctrl+a");
    assert_eq!(k.shortcut("zoom", None), "ctrl+a z");
    let k = keys_from(&[("prefix", "")], &[]);
    assert_eq!(k.prefix, "ctrl+b");
}
