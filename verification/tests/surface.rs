//! The reader's surfaces and their registry.
use qsl_desktop::surface::{
    parent, register_parent, remove_parent, LinuxGtkParent, ParentRegistry,
};

fn fresh_sentinel() -> LinuxGtkParent {
    LinuxGtkParent::install(720, 560)
}

#[test]
fn parent_registry_round_trip() {
    let mut registry = ParentRegistry::new();
    let p = fresh_sentinel();
    register_parent(&mut registry, "main", p);
    assert!(parent(&registry, "main").is_some());
    assert!(parent(&registry, "missing").is_none());
    remove_parent(&mut registry, "main");
    assert!(parent(&registry, "main").is_none());
}

#[test]
fn registry_overwrites_same_label() {
    let mut registry = ParentRegistry::new();
    register_parent(&mut registry, "main", fresh_sentinel());
    register_parent(&mut registry, "main", fresh_sentinel());
    assert!(parent(&registry, "main").is_some());
}
