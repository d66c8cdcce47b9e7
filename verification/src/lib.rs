//! Core logic of a file-manager shell extension: the component lifecycle and
//! capability-query model, the selection-capture / menu-contribution /
//! command-dispatch protocol state machine, and the transactional
//! installation and removal of the extension's configuration-store entries.
//!
//! Everything here is plain data and decisions; the host-facing adapter that
//! talks to the operating system hands these types plain values and carries
//! their results back out.
//!
//! - [`errors`]: the status codes the extension reports.
//! - [`ident`]: the component and capability identifiers.
//! - [`lifetime`]: the live-instance counter and module location handle.
//! - [`extension`]: the shell-extension instance and its protocol.
//! - [`factory`]: the component factory and the instantiation entry point.
//! - [`store`]: the model of the hierarchical configuration store.
//! - [`registration`]: the install/uninstall transaction over that store.

mod errors;
mod extension;
mod factory;
mod ident;
mod lifetime;
mod registration;
mod store;

pub use errors::ShellError;
pub use errors::StoreFault;

pub use ident::COMPONENT_ID;
pub use ident::IID_CLASS_FACTORY;
pub use ident::IID_CONTEXT_MENU;
pub use ident::IID_SHELL_EXT_INIT;
pub use ident::IID_UNKNOWN;
pub use ident::braced_id_text;
pub use ident::component_id_string;
pub use ident::component_id_text;
pub use ident::hex_digit;
pub use ident::hex_text;
pub use ident::lemma_component_id_text_matches_value;

pub use lifetime::CounterStep;
pub use lifetime::LifetimeTracker;
pub use lifetime::acquires_in;
pub use lifetime::count_after;
pub use lifetime::lemma_count_after;
pub use lifetime::lemma_counter_balanced;
pub use lifetime::releases_in;

pub use extension::CMF_DEFAULT_ONLY;
pub use extension::DropRendering;
pub use extension::DropView;
pub use extension::ExtModel;
pub use extension::ExtState;
pub use extension::HostMenu;
pub use extension::InvocationInfo;
pub use extension::MenuEntry;
pub use extension::MenuEntryModel;
pub use extension::MenuModel;
pub use extension::PATH_BUFFER_UNITS;
pub use extension::PATH_CAPTURE_LIMIT;
pub use extension::ShellExtension;
pub use extension::captured_path;
pub use extension::captured_selection;
pub use extension::lemma_protocol_walk;
pub use extension::menu_entry_text;
pub use extension::path_views;
pub use extension::spec_initialize;
pub use extension::spec_invoke_command;
pub use extension::spec_query_context_menu;

pub use factory::ComponentFactory;
pub use factory::factory_supports;
pub use factory::get_class_object;
pub use factory::instance_supports;

pub use store::ConfigStore;
pub use store::KeyModel;
pub use store::StoreKey;
pub use store::StoreModel;
pub use store::ValueEntry;
pub use store::ValueModel;
pub use store::has_val;
pub use store::lemma_delete_key_props;
pub use store::lemma_m_create_key_props;
pub use store::lemma_m_delete_value_props;
pub use store::lemma_m_set_default_props;
pub use store::lemma_m_set_value_props;
pub use store::lemma_push_key_props;
pub use store::lemma_update_key_props;
pub use store::m_create_key;
pub use store::m_delete_key;
pub use store::m_delete_value;
pub use store::m_set_default;
pub use store::m_set_value;
pub use store::opt_text;
pub use store::val_index;
pub use store::val_lookup;
pub use store::val_views;

pub use registration::EntryModel;
pub use registration::RegEntry;
pub use registration::RegTransaction;
pub use registration::entry_apply;
pub use registration::entry_unapply;
pub use registration::lemma_apply_then_unapply;
pub use registration::lemma_entry_apply_props;
pub use registration::lemma_entry_unapply_props;
pub use registration::lemma_tx_apply_props;
pub use registration::lemma_tx_unapply_cleans;
pub use registration::lemma_tx_unapply_props;
pub use registration::lemma_unapply_absent_noop;
pub use registration::lemma_vals_apply_props;
pub use registration::lemma_vals_unapply_absent;
pub use registration::lemma_vals_unapply_noop;
pub use registration::lemma_vals_unapply_props;
pub use registration::register_server;
pub use registration::spec_standard_transaction;
pub use registration::standard_transaction;
pub use registration::tx_apply;
pub use registration::tx_unapply;
pub use registration::unregister_server;
pub use registration::vals_apply;
pub use registration::vals_unapply;
pub use registration::write_fault;
