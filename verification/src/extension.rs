//! The shell-extension instance: a stateful object implementing the
//! selection-capture, menu-contribution and command-dispatch protocol.
//!
//! The instance moves *Uninitialized → SelectionCaptured → MenuContributed*.
//! Command dispatch may follow menu contribution and does not move the state
//! machine. Each instance is independently stateful: the selection and the
//! protocol state are instance-local.
//!
//! The host delivers its data as plain values: the file-drop rendering of the
//! data transfer object as the raw UTF-16 unit sequences of the selected
//! paths, and the menu as a [`HostMenu`] the adapter keeps in step with the
//! host's own menu structure.

use vstd::prelude::*;

use crate::errors::ShellError;

verus! {

/// Flag bit of the menu-contribution call meaning the host wants the default
/// menu only: the extension must contribute nothing.
pub const CMF_DEFAULT_ONLY: u32 = 0x0000_0001;

/// Capacity, in UTF-16 units, of the fixed buffer one path is read into.
pub const PATH_BUFFER_UNITS: usize = 260;

/// Most UTF-16 units of one path that survive capture: one buffer unit is
/// kept for the terminator. Longer paths are truncated, not rejected; this
/// mirrors the host's fixed-buffer path query and is deliberate.
pub const PATH_CAPTURE_LIMIT: usize = PATH_BUFFER_UNITS - 1;

/// What the host produced when asked for a file-drop rendering of the data
/// transfer object.
pub enum DropRendering {
    /// The host cannot supply the file-drop rendering.
    Unavailable,
    /// The file-drop payload: one raw UTF-16 unit sequence per selected path,
    /// in selection order, as the host's indexed path queries report them.
    FileDrop(Vec<Vec<u16>>),
}

/// Mathematical form of [`DropRendering`].
pub enum DropView {
    Unavailable,
    FileDrop(Seq<Seq<u16>>),
}

impl View for DropRendering {
    type V = DropView;

    open spec fn view(&self) -> DropView {
        match self {
            DropRendering::Unavailable => DropView::Unavailable,
            DropRendering::FileDrop(paths) => DropView::FileDrop(path_views(paths)),
        }
    }
}

/// The views of a vector of raw UTF-16 path buffers.
pub open spec fn path_views(paths: &Vec<Vec<u16>>) -> Seq<Seq<u16>> {
    paths@.map(|i: int, p: Vec<u16>| p@)
}

/// Protocol position of a shell-extension instance.
#[derive(Debug, Clone, Copy, PartialEq, Eq, Structural)]
pub enum ExtState {
    Uninitialized,
    SelectionCaptured,
    MenuContributed,
}

/// One command entry contributed to the host-owned menu.
#[derive(Debug, Clone, PartialEq, Eq)]
pub struct MenuEntry {
    /// The command identifier the entry consumes, drawn from the host's
    /// [first, last] identifier window.
    pub command_id: u32,
    /// The display text of the entry.
    pub text: String,
}

/// Mathematical form of [`MenuEntry`].
pub struct MenuEntryModel {
    pub command_id: u32,
    pub text: Seq<char>,
}

impl View for MenuEntry {
    type V = MenuEntryModel;

    open spec fn view(&self) -> MenuEntryModel {
        MenuEntryModel { command_id: self.command_id, text: self.text@ }
    }
}

/// The host-owned menu structure, as the extension observes it: the entries
/// in order, and whether the host is accepting insertions. A host that
/// refuses an insertion surfaces as `accepting == false`; the adapter sets
/// this from the outcome of the host's own insertion primitive.
pub struct HostMenu {
    pub entries: Vec<MenuEntry>,
    pub accepting: bool,
}

/// Mathematical form of [`HostMenu`].
pub struct MenuModel {
    pub entries: Seq<MenuEntryModel>,
    pub accepting: bool,
}

impl View for HostMenu {
    type V = MenuModel;

    open spec fn view(&self) -> MenuModel {
        MenuModel { entries: self.entries@.map(|i: int, e: MenuEntry| e@), accepting: self.accepting }
    }
}

/// The invocation data of a command dispatch, reduced to what the decision
/// reads: the raw representation of the verb field. Hosts tag string verbs
/// with non-zero low-order bits; identifier verbs have them clear.
pub struct InvocationInfo {
    pub verb: usize,
}

/// A shell-extension instance.
pub struct ShellExtension {
    /// Protocol position.
    pub state: ExtState,
    /// The captured selection: one path per selected file, in order, each
    /// truncated to the capture buffer and cut at its first terminator.
    /// Empty until capture succeeds; capture of an empty selection fails.
    pub selection: Vec<Vec<u16>>,
}

/// Mathematical form of [`ShellExtension`].
pub struct ExtModel {
    pub state: ExtState,
    pub selection: Seq<Seq<u16>>,
}

impl View for ShellExtension {
    type V = ExtModel;

    open spec fn view(&self) -> ExtModel {
        ExtModel { state: self.state, selection: path_views(&self.selection) }
    }
}

/// Units of `p` before its first zero unit.
pub open spec fn nul_free_len(p: Seq<u16>) -> int
    decreases p.len(),
{
    if p.len() == 0 || p[0] == 0 {
        0
    } else {
        1 + nul_free_len(p.drop_first())
    }
}

/// How many units of `p` survive capture: capture stops at the first zero
/// unit and at the buffer limit, whichever comes first.
pub open spec fn capture_limit(p: Seq<u16>) -> int {
    if nul_free_len(p) <= PATH_CAPTURE_LIMIT {
        nul_free_len(p)
    } else {
        PATH_CAPTURE_LIMIT as int
    }
}

/// The captured form of one raw path.
pub open spec fn captured_path(p: Seq<u16>) -> Seq<u16> {
    p.take(capture_limit(p))
}

/// The captured form of a whole payload.
pub open spec fn captured_selection(paths: Seq<Seq<u16>>) -> Seq<Seq<u16>> {
    paths.map(|i: int, p: Seq<u16>| captured_path(p))
}

/// `nul_free_len` is the length of the zero-free prefix: in bounds, zero-free
/// throughout, and ended by a zero unit unless the whole sequence is.
pub proof fn lemma_nul_free_len(p: Seq<u16>)
    ensures
        0 <= nul_free_len(p) <= p.len(),
        forall|i: int| 0 <= i < nul_free_len(p) ==> p[i] != 0,
        nul_free_len(p) < p.len() ==> p[nul_free_len(p)] == 0,
    decreases p.len(),
{
    if p.len() != 0 && p[0] != 0 {
        lemma_nul_free_len(p.drop_first());
        assert forall|i: int| 0 <= i < nul_free_len(p) implies p[i] != 0 by {
            if i > 0 {
                assert(p.drop_first()[i - 1] == p[i]);
            }
        }
        if nul_free_len(p) < p.len() {
            assert(p.drop_first()[nul_free_len(p) - 1] == p[nul_free_len(p)]);
        }
    }
}

/// The view of a drop rendering handed by reference.
pub open spec fn rendering_view(data: Option<&DropRendering>) -> Option<DropView> {
    match data {
        None => None,
        Some(d) => Some(d@),
    }
}

/// The verb carried by an invocation, if any.
pub open spec fn invocation_verb(info: Option<&InvocationInfo>) -> Option<usize> {
    match info {
        None => None,
        Some(i) => Some(i.verb),
    }
}

/// What selection capture does: the next instance state and the status
/// reported to the host, for a given prior state and host payload.
pub open spec fn spec_initialize(m: ExtModel, data: Option<DropView>) -> (ExtModel, Result<
    (),
    ShellError,
>) {
    match data {
        None => (m, Err(ShellError::MissingData)),
        Some(DropView::Unavailable) => (m, Err(ShellError::UnsupportedFormat)),
        Some(DropView::FileDrop(paths)) => {
            if paths.len() == 0 {
                (m, Err(ShellError::EmptySelection))
            } else {
                (
                    ExtModel {
                        state: ExtState::SelectionCaptured,
                        selection: captured_selection(paths),
                    },
                    Ok(()),
                )
            }
        },
    }
}

/// The display text of the one menu entry this extension contributes.
pub open spec fn menu_entry_text() -> Seq<char> {
    "i am a menu item 1"@
}

/// What menu contribution does: the next instance state, the next menu
/// state, and the reported consumption count or error.
pub open spec fn spec_query_context_menu(
    m: ExtModel,
    menu: MenuModel,
    insertion_index: int,
    id_first: u32,
    flags: u32,
) -> (ExtModel, MenuModel, Result<u32, ShellError>) {
    if flags & CMF_DEFAULT_ONLY != 0 {
        (m, menu, Ok(0))
    } else if !menu.accepting {
        (m, menu, Err(ShellError::MenuInsertionFailed))
    } else {
        (
            ExtModel { state: ExtState::MenuContributed, selection: m.selection },
            MenuModel {
                entries: menu.entries.insert(
                    insertion_index,
                    MenuEntryModel { command_id: id_first, text: menu_entry_text() },
                ),
                accepting: menu.accepting,
            },
            Ok(1),
        )
    }
}

/// What command dispatch reports for a given invocation.
pub open spec fn spec_invoke_command(verb: Option<usize>) -> Result<(), ShellError> {
    match verb {
        None => Err(ShellError::MissingData),
        Some(v) => {
            if v & 0xFF != 0 {
                Err(ShellError::UnsupportedVerb)
            } else {
                Ok(())
            }
        },
    }
}

impl ShellExtension {
    /// A fresh instance, before selection capture.
    pub fn new() -> (r: ShellExtension)
        ensures
            r@.state is Uninitialized,
            r@.selection.len() == 0,
    {
        ShellExtension { state: ExtState::Uninitialized, selection: Vec::new() }
    }

    /// Captures one raw path: at most [`PATH_CAPTURE_LIMIT`] units, cut at
    /// the first zero unit.
    fn capture_one(p: &Vec<u16>) -> (r: Vec<u16>)
        ensures
            r@ == captured_path(p@),
    {
        let mut r: Vec<u16> = Vec::new();
        let mut i: usize = 0;
        proof {
            lemma_nul_free_len(p@);
        }
        while i < p.len() && i < PATH_CAPTURE_LIMIT && p[i] != 0
            invariant
                i <= p@.len(),
                i <= PATH_CAPTURE_LIMIT,
                r@ == p@.take(i as int),
                forall|j: int| 0 <= j < i ==> p@[j] != 0,
            decreases p@.len() - i,
        {
            r.push(p[i]);
            assert(r@ =~= p@.take(i + 1));
            i = i + 1;
        }
        proof {
            lemma_nul_free_len(p@);
            if i < p.len() && i < PATH_CAPTURE_LIMIT {
                // the loop stopped on a zero unit
                assert(nul_free_len(p@) == i);
            } else if i == p.len() {
                assert(nul_free_len(p@) == i);
            } else {
                assert(nul_free_len(p@) >= i);
            }
            assert(capture_limit(p@) == i);
        }
        r
    }

    /// Selection capture. Valid only before any capture has happened; the
    /// host calls it once per instance.
    ///
    /// Fails with `MissingData` when the host supplied no data object, with
    /// `UnsupportedFormat` when the file-drop rendering is unavailable, and
    /// with `EmptySelection` when the payload holds zero paths: an empty
    /// selection is a capture failure, not a valid zero-length state. On
    /// success the instance holds the captured selection, in payload order,
    /// and has moved to *SelectionCaptured*.
    pub fn initialize(&mut self, data: Option<&DropRendering>) -> (r: Result<(), ShellError>)
        requires
            old(self)@.state is Uninitialized,
        ensures
            final(self)@ == spec_initialize(old(self)@, rendering_view(data)).0,
            r == spec_initialize(old(self)@, rendering_view(data)).1,
            r is Ok <==> (rendering_view(data) matches Some(DropView::FileDrop(paths))
                && paths.len() > 0),
    {
        match data {
            None => Err(ShellError::MissingData),
            Some(DropRendering::Unavailable) => Err(ShellError::UnsupportedFormat),
            Some(DropRendering::FileDrop(paths)) => {
                if paths.len() == 0 {
                    Err(ShellError::EmptySelection)
                } else {
                    let mut sel: Vec<Vec<u16>> = Vec::new();
                    let mut i: usize = 0;
                    while i < paths.len()
                        invariant
                            i <= paths@.len(),
                            sel@.len() == i,
                            forall|j: int| 0 <= j < i ==> sel@[j]@ == captured_path(paths@[j]@),
                        decreases paths@.len() - i,
                    {
                        let captured = Self::capture_one(&paths[i]);
                        sel.push(captured);
                        i = i + 1;
                    }
                    assert(path_views(&sel) =~= captured_selection(path_views(paths)));
                    self.selection = sel;
                    self.state = ExtState::SelectionCaptured;
                    Ok(())
                }
            },
        }
    }

    /// Menu contribution. Valid once a selection has been captured, except
    /// that a default-menu-only request is answered from any state.
    ///
    /// When the host asks for the default menu only, nothing is inserted,
    /// zero consumed identifiers are reported, and the instance does not
    /// move. Otherwise exactly one entry is inserted at `insertion_index`
    /// with command identifier `id_first` — the low end of the host's
    /// [`id_first`, `id_last`] identifier window — and the fixed display
    /// text; the instance moves to *MenuContributed* and the result carries
    /// the count of consumed identifiers, here one. The host adds this count
    /// to its success baseline, so the count must never be reported as a
    /// plain success. If the host menu refuses the entry, the call fails
    /// with `MenuInsertionFailed` and the instance claims no identifier and
    /// does not move.
    pub fn query_context_menu(
        &mut self,
        menu: &mut HostMenu,
        insertion_index: u32,
        id_first: u32,
        id_last: u32,
        flags: u32,
    ) -> (r: Result<u32, ShellError>)
        requires
            flags & CMF_DEFAULT_ONLY != 0 || {
                &&& old(self)@.state !is Uninitialized
                &&& insertion_index as int <= old(menu)@.entries.len()
                &&& id_first <= id_last
            },
        ensures
            final(self)@ == spec_query_context_menu(
                old(self)@,
                old(menu)@,
                insertion_index as int,
                id_first,
                flags,
            ).0,
            final(menu)@ == spec_query_context_menu(
                old(self)@,
                old(menu)@,
                insertion_index as int,
                id_first,
                flags,
            ).1,
            r == spec_query_context_menu(
                old(self)@,
                old(menu)@,
                insertion_index as int,
                id_first,
                flags,
            ).2,
            r matches Ok(n) ==> final(menu)@.entries.len() == old(menu)@.entries.len() + n,
            flags & CMF_DEFAULT_ONLY != 0 ==> r == Ok::<u32, ShellError>(0) && final(menu)@
                == old(menu)@ && final(self)@ == old(self)@,
    {
        if flags & CMF_DEFAULT_ONLY != 0 {
            return Ok(0u32);
        }
        if !menu.accepting {
            return Err(ShellError::MenuInsertionFailed);
        }
        let entry = MenuEntry { command_id: id_first, text: "i am a menu item 1".to_owned() };
        menu.entries.insert(insertion_index as usize, entry);
        self.state = ExtState::MenuContributed;
        assert(menu@.entries =~= spec_query_context_menu(
            old(self)@,
            old(menu)@,
            insertion_index as int,
            id_first,
            flags,
        ).1.entries);
        Ok(1u32)
    }

    /// Command dispatch. May follow menu contribution; it never moves the
    /// state machine and touches nothing besides reporting its status.
    ///
    /// Fails with `MissingData` when the host supplied no invocation data,
    /// and with `UnsupportedVerb` whenever the low-order tag bits of the
    /// verb's raw representation are non-zero: only identifier-based
    /// invocation is accepted, and then the menu action is performed by the
    /// host-facing adapter.
    pub fn invoke_command(&self, info: Option<&InvocationInfo>) -> (r: Result<(), ShellError>)
        ensures
            r == spec_invoke_command(invocation_verb(info)),
            (invocation_verb(info) matches Some(v) && v & 0xFF != 0) ==> r == Err::<
                (),
                ShellError,
            >(ShellError::UnsupportedVerb),
    {
        match info {
            None => Err(ShellError::MissingData),
            Some(invocation) => {
                if invocation.verb & 0xFF != 0 {
                    Err(ShellError::UnsupportedVerb)
                } else {
                    Ok(())
                }
            },
        }
    }

    /// The status-text query: a deliberate minimal-compliance no-op. The
    /// extension offers no status-bar help text or tooltip, so every query
    /// succeeds with no text.
    pub fn get_command_string(&self, command_id: usize, flags: u32) -> (r: Result<(), ShellError>)
        ensures
            r is Ok,
    {
        Ok(())
    }

    /// The captured selection, in capture order.
    pub fn selection(&self) -> (r: &Vec<Vec<u16>>)
        ensures
            path_views(r) == self@.selection,
    {
        &self.selection
    }

    /// The current protocol position.
    pub fn state(&self) -> (r: ExtState)
        ensures
            r == self@.state,
    {
        self.state
    }
}

/// For every valid non-empty file-drop payload, capture followed by menu
/// contribution (without the default-menu-only flag, against a host menu
/// that accepts the entry) walks *Uninitialized → SelectionCaptured →
/// MenuContributed*, and the reported consumption count equals the number of
/// menu entries actually inserted — both are one.
pub proof fn lemma_protocol_walk(
    m0: ExtModel,
    data: Option<DropView>,
    menu0: MenuModel,
    insertion_index: int,
    id_first: u32,
    flags: u32,
)
    requires
        m0.state is Uninitialized,
        data matches Some(DropView::FileDrop(paths)) && paths.len() > 0,
        flags & CMF_DEFAULT_ONLY == 0,
        menu0.accepting,
        0 <= insertion_index <= menu0.entries.len(),
    ensures
        ({
            let (m1, r1) = spec_initialize(m0, data);
            let (m2, menu2, r2) = spec_query_context_menu(
                m1,
                menu0,
                insertion_index,
                id_first,
                flags,
            );
            &&& r1 == Ok::<(), ShellError>(())
            &&& m1.state is SelectionCaptured
            &&& r2 == Ok::<u32, ShellError>(1)
            &&& m2.state is MenuContributed
            &&& menu2.entries.len() == menu0.entries.len() + 1
        }),
{
}

} // verus!
