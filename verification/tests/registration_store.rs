use shellext::component_id_string;
use shellext::register_server;
use shellext::standard_transaction;
use shellext::unregister_server;
use shellext::ConfigStore;
use shellext::ShellError;
use shellext::StoreFault;

const CLSID_KEY: &str = "SOFTWARE\\Classes\\CLSID\\{5AB29D2B-CC1D-45A2-AF6E-6853BF59909B}";
const INPROC_KEY: &str =
    "SOFTWARE\\Classes\\CLSID\\{5AB29D2B-CC1D-45A2-AF6E-6853BF59909B}\\InprocServer32";
const HANDLER_KEY: &str = "SOFTWARE\\Classes\\*\\ShellEx\\ContextMenuHandlers\\My Rust Shell Extension";
const APPROVED_KEY: &str = "SOFTWARE\\Microsoft\\Windows\\CurrentVersion\\Shell Extensions\\Approved";

fn store_with_approved_key() -> ConfigStore {
    let mut store = ConfigStore::new();
    assert_eq!(store.create_key(&APPROVED_KEY.to_string()), Ok(()));
    store
}

#[test]
fn component_id_has_the_canonical_braced_text() {
    assert_eq!(component_id_string(), "{5AB29D2B-CC1D-45A2-AF6E-6853BF59909B}");
}

#[test]
fn standard_transaction_holds_the_four_entries_in_order() {
    let tx = standard_transaction(&"C:\\ext\\handler.dll".to_string());
    assert_eq!(tx.entries.len(), 4);
    assert_eq!(tx.entries[0].path, CLSID_KEY);
    assert!(tx.entries[0].create);
    assert_eq!(tx.entries[0].default_value, Some("My Rust Shell Extension Factory".to_string()));
    assert_eq!(tx.entries[1].path, INPROC_KEY);
    assert_eq!(tx.entries[1].default_value, Some("C:\\ext\\handler.dll".to_string()));
    assert_eq!(tx.entries[1].values.len(), 1);
    assert_eq!(tx.entries[1].values[0].name, "ThreadingModel");
    assert_eq!(tx.entries[1].values[0].data, "Apartment");
    assert_eq!(tx.entries[2].path, HANDLER_KEY);
    assert_eq!(tx.entries[2].default_value, Some(component_id_string()));
    assert_eq!(tx.entries[3].path, APPROVED_KEY);
    assert!(!tx.entries[3].create);
    assert_eq!(tx.entries[3].values[0].name, component_id_string());
    assert_eq!(tx.entries[3].values[0].data, "My Rust Shell Extension");
}

#[test]
fn apply_writes_every_entry() {
    let mut store = store_with_approved_key();
    let tx = standard_transaction(&"C:\\ext\\handler.dll".to_string());
    assert_eq!(tx.apply(&mut store), Ok(()));
    assert!(store.key_exists(&CLSID_KEY.to_string()));
    assert_eq!(
        store.read_default(&CLSID_KEY.to_string()),
        Some("My Rust Shell Extension Factory".to_string())
    );
    assert_eq!(store.read_default(&INPROC_KEY.to_string()), Some("C:\\ext\\handler.dll".to_string()));
    assert_eq!(
        store.read_value(&INPROC_KEY.to_string(), &"ThreadingModel".to_string()),
        Some("Apartment".to_string())
    );
    assert_eq!(store.read_default(&HANDLER_KEY.to_string()), Some(component_id_string()));
    assert_eq!(
        store.read_value(&APPROVED_KEY.to_string(), &component_id_string()),
        Some("My Rust Shell Extension".to_string())
    );
}

#[test]
fn apply_twice_overwrites_with_the_same_values() {
    let mut store = store_with_approved_key();
    let tx = standard_transaction(&"C:\\ext\\handler.dll".to_string());
    assert_eq!(tx.apply(&mut store), Ok(()));
    assert_eq!(tx.apply(&mut store), Ok(()));
    assert_eq!(
        store.read_value(&INPROC_KEY.to_string(), &"ThreadingModel".to_string()),
        Some("Apartment".to_string())
    );
}

#[test]
fn apply_then_unapply_leaves_no_residue() {
    let mut store = store_with_approved_key();
    let tx = standard_transaction(&"C:\\ext\\handler.dll".to_string());
    assert_eq!(tx.apply(&mut store), Ok(()));
    tx.unapply(&mut store);
    assert!(!store.key_exists(&CLSID_KEY.to_string()));
    assert!(!store.key_exists(&INPROC_KEY.to_string()));
    assert!(!store.key_exists(&HANDLER_KEY.to_string()));
    // The approved-extensions key is a pre-existing system key: only this
    // extension's value is removed, the key itself stays.
    assert!(store.key_exists(&APPROVED_KEY.to_string()));
    assert_eq!(store.read_value(&APPROVED_KEY.to_string(), &component_id_string()), None);
}

#[test]
fn unapply_twice_is_a_no_op_the_second_time() {
    let mut store = store_with_approved_key();
    let tx = standard_transaction(&"C:\\ext\\handler.dll".to_string());
    assert_eq!(tx.apply(&mut store), Ok(()));
    tx.unapply(&mut store);
    let before = store.clone();
    tx.unapply(&mut store);
    assert_eq!(store, before);
}

#[test]
fn unapply_on_a_store_without_the_entries_changes_nothing() {
    let mut store = store_with_approved_key();
    store.create_key(&"SOFTWARE\\Other\\Key".to_string()).unwrap();
    let before = store.clone();
    let tx = standard_transaction(&"C:\\ext\\handler.dll".to_string());
    tx.unapply(&mut store);
    assert_eq!(store, before);
}

#[test]
fn value_write_on_a_missing_key_is_key_not_found() {
    let mut store = ConfigStore::new();
    assert_eq!(
        store.set_value(&"missing".to_string(), &"n".to_string(), &"d".to_string()),
        Err(StoreFault::KeyNotFound)
    );
    assert_eq!(
        store.set_default(&"missing".to_string(), &"d".to_string()),
        Err(StoreFault::KeyNotFound)
    );
}

#[test]
fn writes_at_a_denied_path_are_access_denied() {
    let mut store = ConfigStore::new();
    store.deny_path(&"locked".to_string());
    assert_eq!(store.create_key(&"locked".to_string()), Err(StoreFault::AccessDenied));
    assert_eq!(
        store.set_value(&"locked".to_string(), &"n".to_string(), &"d".to_string()),
        Err(StoreFault::AccessDenied)
    );
}

#[test]
fn apply_stops_at_the_first_refused_entry_and_reports_it() {
    let mut store = store_with_approved_key();
    store.deny_path(&INPROC_KEY.to_string());
    let tx = standard_transaction(&"C:\\ext\\handler.dll".to_string());
    let r = tx.apply(&mut store);
    assert_eq!(
        r,
        Err(ShellError::RegistrationFailed {
            entry_path: INPROC_KEY.to_string(),
            fault: StoreFault::AccessDenied,
        })
    );
    // No automatic rollback: the first entry's write is still there.
    assert!(store.key_exists(&CLSID_KEY.to_string()));
    assert!(!store.key_exists(&HANDLER_KEY.to_string()));
}

#[test]
fn missing_approved_key_fails_the_last_entry() {
    let mut store = ConfigStore::new();
    let tx = standard_transaction(&"C:\\ext\\handler.dll".to_string());
    assert_eq!(
        tx.apply(&mut store),
        Err(ShellError::RegistrationFailed {
            entry_path: APPROVED_KEY.to_string(),
            fault: StoreFault::KeyNotFound,
        })
    );
}

#[test]
fn install_success_then_uninstall_cleans_up() {
    let mut store = store_with_approved_key();
    assert_eq!(register_server(&mut store, &"C:\\ext\\handler.dll".to_string()), Ok(()));
    assert!(store.key_exists(&CLSID_KEY.to_string()));
    unregister_server(&mut store, &"C:\\ext\\handler.dll".to_string());
    assert!(!store.key_exists(&CLSID_KEY.to_string()));
    assert!(!store.key_exists(&INPROC_KEY.to_string()));
    assert!(!store.key_exists(&HANDLER_KEY.to_string()));
    assert!(store.key_exists(&APPROVED_KEY.to_string()));
}

#[test]
fn failed_install_rolls_its_partial_writes_back() {
    let mut store = store_with_approved_key();
    store.deny_path(&HANDLER_KEY.to_string());
    let before_keys = store.keys.clone();
    let r = register_server(&mut store, &"C:\\ext\\handler.dll".to_string());
    assert_eq!(
        r,
        Err(ShellError::RegistrationFailed {
            entry_path: HANDLER_KEY.to_string(),
            fault: StoreFault::AccessDenied,
        })
    );
    // The compensating unapply removed the partial writes again.
    assert_eq!(store.keys, before_keys);
}
