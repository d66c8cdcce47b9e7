use shellext::DropRendering;
use shellext::ExtState;
use shellext::HostMenu;
use shellext::InvocationInfo;
use shellext::ShellError;
use shellext::ShellExtension;
use shellext::CMF_DEFAULT_ONLY;

fn utf16(s: &str) -> Vec<u16> {
    s.encode_utf16().collect()
}

fn captured_strings(ext: &ShellExtension) -> Vec<String> {
    ext.selection().iter().map(|p| String::from_utf16_lossy(p)).collect()
}

#[test]
fn initialize_without_data_object_is_missing_data() {
    let mut ext = ShellExtension::new();
    assert_eq!(ext.initialize(None), Err(ShellError::MissingData));
    assert_eq!(ext.state(), ExtState::Uninitialized);
}

#[test]
fn initialize_without_file_drop_rendering_is_unsupported_format() {
    let mut ext = ShellExtension::new();
    let data = DropRendering::Unavailable;
    assert_eq!(ext.initialize(Some(&data)), Err(ShellError::UnsupportedFormat));
    assert_eq!(ext.state(), ExtState::Uninitialized);
}

#[test]
fn initialize_with_zero_files_is_empty_selection() {
    let mut ext = ShellExtension::new();
    let data = DropRendering::FileDrop(Vec::new());
    assert_eq!(ext.initialize(Some(&data)), Err(ShellError::EmptySelection));
    assert_eq!(ext.state(), ExtState::Uninitialized);
}

#[test]
fn selection_capture_keeps_paths_in_order() {
    // Two paths in, a selection of length two out, same order.
    let mut ext = ShellExtension::new();
    let data = DropRendering::FileDrop(vec![utf16("C:\\a.txt"), utf16("C:\\b.txt")]);
    assert_eq!(ext.initialize(Some(&data)), Ok(()));
    assert_eq!(ext.state(), ExtState::SelectionCaptured);
    assert_eq!(captured_strings(&ext), vec!["C:\\a.txt".to_string(), "C:\\b.txt".to_string()]);

    // Menu contribution with the host window [1, 0x7FFF] inserts one entry
    // with identifier 1 and reports consumption count 1.
    let mut menu = HostMenu { entries: Vec::new(), accepting: true };
    assert_eq!(ext.query_context_menu(&mut menu, 0, 1, 0x7FFF, 0), Ok(1));
    assert_eq!(ext.state(), ExtState::MenuContributed);
    assert_eq!(menu.entries.len(), 1);
    assert_eq!(menu.entries[0].command_id, 1);
    assert_eq!(menu.entries[0].text, "i am a menu item 1");
}

#[test]
fn capture_truncates_at_the_path_buffer() {
    // 300 units go in, only 259 survive: the 260-unit buffer keeps one unit
    // for the terminator.
    let long: Vec<u16> = vec![0x41u16; 300];
    let mut ext = ShellExtension::new();
    let data = DropRendering::FileDrop(vec![long]);
    assert_eq!(ext.initialize(Some(&data)), Ok(()));
    assert_eq!(ext.selection().len(), 1);
    assert_eq!(ext.selection()[0].len(), 259);
}

#[test]
fn capture_cuts_at_the_first_terminator() {
    let mut raw = utf16("C:\\cut.txt");
    raw.push(0);
    raw.extend(utf16("garbage"));
    let mut ext = ShellExtension::new();
    let data = DropRendering::FileDrop(vec![raw]);
    assert_eq!(ext.initialize(Some(&data)), Ok(()));
    assert_eq!(captured_strings(&ext), vec!["C:\\cut.txt".to_string()]);
}

#[test]
fn default_menu_only_contributes_nothing() {
    // Regardless of selection state: straight after construction.
    let mut ext = ShellExtension::new();
    let mut menu = HostMenu { entries: Vec::new(), accepting: true };
    assert_eq!(ext.query_context_menu(&mut menu, 0, 1, 0x7FFF, CMF_DEFAULT_ONLY), Ok(0));
    assert_eq!(menu.entries.len(), 0);
    assert_eq!(ext.state(), ExtState::Uninitialized);

    // And after capture too.
    let data = DropRendering::FileDrop(vec![utf16("C:\\a.txt")]);
    assert_eq!(ext.initialize(Some(&data)), Ok(()));
    assert_eq!(ext.query_context_menu(&mut menu, 0, 1, 0x7FFF, CMF_DEFAULT_ONLY | 0x40), Ok(0));
    assert_eq!(menu.entries.len(), 0);
    assert_eq!(ext.state(), ExtState::SelectionCaptured);
}

#[test]
fn refused_insertion_claims_no_identifier() {
    let mut ext = ShellExtension::new();
    let data = DropRendering::FileDrop(vec![utf16("C:\\a.txt")]);
    assert_eq!(ext.initialize(Some(&data)), Ok(()));
    let mut menu = HostMenu { entries: Vec::new(), accepting: false };
    assert_eq!(
        ext.query_context_menu(&mut menu, 0, 1, 0x7FFF, 0),
        Err(ShellError::MenuInsertionFailed)
    );
    assert_eq!(menu.entries.len(), 0);
    assert_eq!(ext.state(), ExtState::SelectionCaptured);
}

#[test]
fn menu_entry_inserts_at_the_given_position() {
    let mut ext = ShellExtension::new();
    let data = DropRendering::FileDrop(vec![utf16("C:\\a.txt")]);
    assert_eq!(ext.initialize(Some(&data)), Ok(()));
    let mut menu = HostMenu {
        entries: vec![
            shellext::MenuEntry { command_id: 90, text: "open".to_string() },
            shellext::MenuEntry { command_id: 91, text: "properties".to_string() },
        ],
        accepting: true,
    };
    assert_eq!(ext.query_context_menu(&mut menu, 1, 5, 6, 0), Ok(1));
    assert_eq!(menu.entries.len(), 3);
    assert_eq!(menu.entries[0].command_id, 90);
    assert_eq!(menu.entries[1].command_id, 5);
    assert_eq!(menu.entries[2].command_id, 91);
}

#[test]
fn invoke_with_string_verb_tag_is_unsupported() {
    let ext = ShellExtension::new();
    // Any non-zero low-order tag bits mean a string verb: refused.
    let info = InvocationInfo { verb: 0x7F3A_21C1 };
    assert_eq!(ext.invoke_command(Some(&info)), Err(ShellError::UnsupportedVerb));
    let info = InvocationInfo { verb: 0xFF };
    assert_eq!(ext.invoke_command(Some(&info)), Err(ShellError::UnsupportedVerb));
}

#[test]
fn invoke_with_identifier_verb_succeeds() {
    let ext = ShellExtension::new();
    let info = InvocationInfo { verb: 0x0003_0000 };
    assert_eq!(ext.invoke_command(Some(&info)), Ok(()));
    assert_eq!(ext.invoke_command(None), Err(ShellError::MissingData));
}

#[test]
fn command_string_query_is_a_silent_success() {
    let ext = ShellExtension::new();
    assert_eq!(ext.get_command_string(0, 0), Ok(()));
    assert_eq!(ext.get_command_string(7, 4), Ok(()));
}
