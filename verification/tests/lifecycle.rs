use shellext::get_class_object;
use shellext::ComponentFactory;
use shellext::ExtState;
use shellext::LifetimeTracker;
use shellext::ShellError;
use shellext::ShellExtension;
use shellext::COMPONENT_ID;
use shellext::IID_CLASS_FACTORY;
use shellext::IID_CONTEXT_MENU;
use shellext::IID_SHELL_EXT_INIT;
use shellext::IID_UNKNOWN;

#[test]
fn module_handle_is_recorded_once_and_read_back() {
    let mut tracker = LifetimeTracker::new();
    assert_eq!(tracker.module_handle(), None);
    tracker.record_module_handle(0x4A0000);
    assert_eq!(tracker.module_handle(), Some(0x4A0000));
}

#[test]
fn fresh_module_is_unloadable() {
    let tracker = LifetimeTracker::new();
    assert!(tracker.can_unload());
}

#[test]
fn counter_returns_to_its_prior_value_after_balanced_use() {
    let mut tracker = LifetimeTracker::new();
    let factory = ComponentFactory::new(&mut tracker);
    assert!(!tracker.can_unload());

    // Interleaved creations and releases, three instances in all.
    let a = ShellExtension::create(&mut tracker);
    let b = ShellExtension::create(&mut tracker);
    a.release(&mut tracker);
    let c = ShellExtension::create(&mut tracker);
    b.release(&mut tracker);
    c.release(&mut tracker);
    assert!(!tracker.can_unload());

    factory.release(&mut tracker);
    assert!(tracker.can_unload());
}

#[test]
fn factory_counts_as_a_live_object_on_its_own() {
    let mut tracker = LifetimeTracker::new();
    let factory = ComponentFactory::new(&mut tracker);
    assert!(!tracker.can_unload());
    factory.release(&mut tracker);
    assert!(tracker.can_unload());
}

#[test]
fn aggregation_is_refused() {
    let mut tracker = LifetimeTracker::new();
    let factory = ComponentFactory::new(&mut tracker);
    let r = factory.create_instance(&mut tracker, true, Some(&IID_CONTEXT_MENU));
    assert!(matches!(r, Err(ShellError::AggregationNotSupported)));
    factory.release(&mut tracker);
    assert!(tracker.can_unload());
}

#[test]
fn missing_capability_identifier_is_invalid() {
    let mut tracker = LifetimeTracker::new();
    let factory = ComponentFactory::new(&mut tracker);
    let r = factory.create_instance(&mut tracker, false, None);
    assert!(matches!(r, Err(ShellError::InvalidArgument)));
    factory.release(&mut tracker);
}

#[test]
fn unsupported_capability_releases_the_new_instance() {
    let mut tracker = LifetimeTracker::new();
    let factory = ComponentFactory::new(&mut tracker);
    // Only the factory is live; a failed capability query must not leak the
    // partially constructed instance.
    let r = factory.create_instance(&mut tracker, false, Some(&IID_CLASS_FACTORY));
    assert!(matches!(r, Err(ShellError::UnsupportedCapability)));
    factory.release(&mut tracker);
    assert!(tracker.can_unload());
}

#[test]
fn supported_capabilities_yield_an_uninitialized_instance() {
    let mut tracker = LifetimeTracker::new();
    let factory = ComponentFactory::new(&mut tracker);
    for iid in [IID_UNKNOWN, IID_SHELL_EXT_INIT, IID_CONTEXT_MENU] {
        match factory.create_instance(&mut tracker, false, Some(&iid)) {
            Ok(instance) => {
                assert_eq!(instance.state(), ExtState::Uninitialized);
                assert_eq!(instance.selection().len(), 0);
                instance.release(&mut tracker);
            }
            Err(_) => panic!("capability should be supported"),
        }
    }
    factory.release(&mut tracker);
    assert!(tracker.can_unload());
}

#[test]
fn lock_server_always_acknowledges() {
    let mut tracker = LifetimeTracker::new();
    let factory = ComponentFactory::new(&mut tracker);
    assert_eq!(factory.lock_server(true), Ok(()));
    assert_eq!(factory.lock_server(false), Ok(()));
    // No keep-alive reference was taken: releasing the factory suffices.
    factory.release(&mut tracker);
    assert!(tracker.can_unload());
}

#[test]
fn wrong_component_identifier_is_class_not_available() {
    let mut tracker = LifetimeTracker::new();
    let other: u128 = COMPONENT_ID ^ 1;
    let r = get_class_object(&mut tracker, Some(&other), Some(&IID_CLASS_FACTORY), true);
    assert!(matches!(r, Err(ShellError::ClassNotAvailable)));
    assert!(tracker.can_unload());
}

#[test]
fn missing_identifiers_or_slot_are_invalid_arguments() {
    let mut tracker = LifetimeTracker::new();
    let r = get_class_object(&mut tracker, None, Some(&IID_CLASS_FACTORY), true);
    assert!(matches!(r, Err(ShellError::InvalidArgument)));
    let r = get_class_object(&mut tracker, Some(&COMPONENT_ID), None, true);
    assert!(matches!(r, Err(ShellError::InvalidArgument)));
    let r = get_class_object(&mut tracker, Some(&COMPONENT_ID), Some(&IID_CLASS_FACTORY), false);
    assert!(matches!(r, Err(ShellError::InvalidArgument)));
    assert!(tracker.can_unload());
}

#[test]
fn class_object_request_yields_a_counted_factory() {
    let mut tracker = LifetimeTracker::new();
    match get_class_object(&mut tracker, Some(&COMPONENT_ID), Some(&IID_CLASS_FACTORY), true) {
        Ok(factory) => {
            assert!(!tracker.can_unload());
            factory.release(&mut tracker);
            assert!(tracker.can_unload());
        }
        Err(_) => panic!("factory request should succeed"),
    }
}

#[test]
fn class_object_request_for_a_foreign_capability_does_not_leak() {
    let mut tracker = LifetimeTracker::new();
    let r = get_class_object(&mut tracker, Some(&COMPONENT_ID), Some(&IID_CONTEXT_MENU), true);
    assert!(matches!(r, Err(ShellError::UnsupportedCapability)));
    assert!(tracker.can_unload());
}
