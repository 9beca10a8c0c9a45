use server_fns::registry::{RegistryError, RouteRegistry};

fn one() -> u32 {
    1
}

fn two() -> u32 {
    2
}

#[test]
fn registry_keeps_order_and_refuses_late_registration() {
    let mut registry: RouteRegistry<fn() -> u32> = RouteRegistry::new();
    assert_eq!(registry.register("/a".to_string(), one), Ok(()));
    assert_eq!(registry.register("/b".to_string(), two), Ok(()));
    registry.seal();
    assert_eq!(registry.register("/c".to_string(), one), Err(RegistryError::Sealed));
    let entries = registry.entries();
    assert_eq!(entries.len(), 2);
    assert_eq!(entries[0].path, "/a");
    assert_eq!((entries[1].router_fn)(), 2);
}

#[test]
fn duplicate_paths_are_left_to_the_router() {
    let mut registry: RouteRegistry<fn() -> u32> = RouteRegistry::new();
    assert_eq!(registry.register("/a".to_string(), one), Ok(()));
    assert_eq!(registry.register("/a".to_string(), two), Ok(()));
    registry.seal();
    assert_eq!(registry.entries().len(), 2);
}
