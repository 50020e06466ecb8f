use vstd::prelude::*;

use crate::controls::{loword, hiword, selection_from_raw_index};
use crate::registry::{NativeWindowData, RegistryModel};
use crate::types::{ControlId, ControlKind, MenuActionId, NativeHandle, WindowId};

verus! {

// Native message tags.
pub const WM_DRAWITEM: u32 = 0x002B;
pub const WM_MEASUREITEM: u32 = 0x002C;
pub const WM_DELETEITEM: u32 = 0x002D;
pub const WM_COMPAREITEM: u32 = 0x0039;
pub const WM_NOTIFY: u32 = 0x004E;
pub const WM_COMMAND: u32 = 0x0111;
pub const WM_HSCROLL: u32 = 0x0114;
pub const WM_VSCROLL: u32 = 0x0115;
pub const WM_CTLCOLOREDIT: u32 = 0x0133;
pub const WM_CTLCOLORLISTBOX: u32 = 0x0134;
pub const WM_CTLCOLORBTN: u32 = 0x0135;
pub const WM_CTLCOLORDLG: u32 = 0x0136;
pub const WM_CTLCOLORSCROLLBAR: u32 = 0x0137;
pub const WM_CTLCOLORSTATIC: u32 = 0x0138;
pub const WM_PARENTNOTIFY: u32 = 0x0210;
pub const WM_DESTROY: u32 = 0x0002;
pub const WM_SIZE: u32 = 0x0005;
pub const WM_CLOSE: u32 = 0x0010;
pub const WM_APP: u32 = 0x8000;
pub const WM_APP_MAIN_WINDOW_UI_SETUP_COMPLETE: u32 = 0x8101;
pub const WM_APP_SPLITTER_DRAGGING: u32 = 0x8102;
pub const WM_APP_SPLITTER_DRAG_ENDED: u32 = 0x8103;

// Control notification codes carried in the high word of a command's wparam.
pub const BN_CLICKED: i32 = 0;
pub const CBN_SELCHANGE: i32 = 1;
pub const CBN_DROPDOWN: i32 = 7;
pub const CBN_CLOSEUP: i32 = 8;
pub const EN_CHANGE: i32 = 0x0300;
pub const EN_VSCROLL: i32 = 0x0602;

/// Debounce delay, in milliseconds, between an edit change and its text event.
pub const INPUT_DEBOUNCE_MS: u32 = 300;

/// Which paint behavior a control-color notification gets.
#[derive(Clone, Copy, Debug, PartialEq, Eq, Structural)]
pub enum PaintRoute {
    LabelStatic,
    Edit,
    ComboListBox,
    Button,
    Default,
}

/// The routing table. Every tag a kind is known to arrive with maps to that
/// kind's route; any other pair gets `Default`.
pub open spec fn paint_route_spec(kind: ControlKind, msg: u32) -> PaintRoute {
    match kind {
        ControlKind::Edit => if msg == WM_CTLCOLORSTATIC || msg == WM_CTLCOLOREDIT {
            PaintRoute::Edit
        } else {
            PaintRoute::Default
        },
        ControlKind::ComboBox => if msg == WM_CTLCOLORLISTBOX || msg == WM_CTLCOLORSTATIC || msg
            == WM_CTLCOLOREDIT {
            PaintRoute::ComboListBox
        } else {
            PaintRoute::Default
        },
        ControlKind::Button => if msg == WM_CTLCOLORBTN {
            PaintRoute::Button
        } else {
            PaintRoute::Default
        },
        ControlKind::RadioButton | ControlKind::CheckBox => if msg == WM_CTLCOLORBTN || msg
            == WM_CTLCOLORSTATIC {
            PaintRoute::Button
        } else {
            PaintRoute::Default
        },
        ControlKind::Static => if msg == WM_CTLCOLORSTATIC {
            PaintRoute::LabelStatic
        } else {
            PaintRoute::Default
        },
        _ => PaintRoute::Default,
    }
}

pub fn resolve_paint_route(kind: ControlKind, msg: u32) -> (r: PaintRoute)
    ensures
        r == paint_route_spec(kind, msg),
{
    match kind {
        ControlKind::Edit => if msg == WM_CTLCOLORSTATIC || msg == WM_CTLCOLOREDIT {
            PaintRoute::Edit
        } else {
            PaintRoute::Default
        },
        ControlKind::ComboBox => if msg == WM_CTLCOLORLISTBOX || msg == WM_CTLCOLORSTATIC || msg
            == WM_CTLCOLOREDIT {
            PaintRoute::ComboListBox
        } else {
            PaintRoute::Default
        },
        ControlKind::Button => if msg == WM_CTLCOLORBTN {
            PaintRoute::Button
        } else {
            PaintRoute::Default
        },
        ControlKind::RadioButton | ControlKind::CheckBox => if msg == WM_CTLCOLORBTN || msg
            == WM_CTLCOLORSTATIC {
            PaintRoute::Button
        } else {
            PaintRoute::Default
        },
        ControlKind::Static => if msg == WM_CTLCOLORSTATIC {
            PaintRoute::LabelStatic
        } else {
            PaintRoute::Default
        },
        _ => PaintRoute::Default,
    }
}

/// Route by message tag alone, for controls whose kind is unknown.
pub open spec fn fallback_route_spec(msg: u32) -> PaintRoute {
    if msg == WM_CTLCOLOREDIT {
        PaintRoute::Edit
    } else if msg == WM_CTLCOLORSTATIC {
        PaintRoute::LabelStatic
    } else if msg == WM_CTLCOLORLISTBOX {
        PaintRoute::ComboListBox
    } else if msg == WM_CTLCOLORBTN {
        PaintRoute::Button
    } else {
        PaintRoute::Default
    }
}

pub fn fallback_ctlcolor_route(msg: u32) -> (r: PaintRoute)
    ensures
        r == fallback_route_spec(msg),
{
    if msg == WM_CTLCOLOREDIT {
        PaintRoute::Edit
    } else if msg == WM_CTLCOLORSTATIC {
        PaintRoute::LabelStatic
    } else if msg == WM_CTLCOLORLISTBOX {
        PaintRoute::ComboListBox
    } else if msg == WM_CTLCOLORBTN {
        PaintRoute::Button
    } else {
        PaintRoute::Default
    }
}

/// The native parent `owner` is a registered combo box (its dropdown list or
/// edit face is a child the registry never saw).
pub open spec fn combo_owned_spec(data: &NativeWindowData, owner: Option<NativeHandle>) -> bool {
    match owner {
        Some(h) => !h.spec_is_invalid() && exists|id: ControlId|
            #[trigger] data@.handles.contains_key(id) && data@.handles[id] == h
                && data@.kinds.contains_key(id) && data@.kinds[id] == ControlKind::ComboBox,
        None => false,
    }
}

/// Route of a control-color notification from the child whose dialog id is
/// `control_id_raw` (zero when it has none) and whose native parent is `owner`.
pub open spec fn ctlcolor_route_spec(
    data: &NativeWindowData,
    control_id_raw: i32,
    owner: Option<NativeHandle>,
    msg: u32,
    owner_is_combo: bool,
) -> PaintRoute {
    let id = ControlId(control_id_raw);
    if control_id_raw != 0 && data@.kinds.contains_key(id) {
        paint_route_spec(data@.kinds[id], msg)
    } else if owner_is_combo {
        PaintRoute::ComboListBox
    } else if control_id_raw != 0 && msg == WM_CTLCOLORLISTBOX {
        PaintRoute::ComboListBox
    } else {
        fallback_route_spec(msg)
    }
}

/// Decides the paint route of a control-color notification.
///
/// Registered kinds go through the routing table. Children the registry does
/// not know are styled as combo parts when their parent is a registered combo
/// box, or when the message is a list-box color request; otherwise the tag decides.
pub fn resolve_ctlcolor_route(
    data: &NativeWindowData,
    control_id_raw: i32,
    owner: Option<NativeHandle>,
    msg: u32,
) -> (r: PaintRoute)
    requires
        data.wf(),
    ensures
        r == ctlcolor_route_spec(data, control_id_raw, owner, msg, combo_owned_spec(data, owner)),
{
    if control_id_raw != 0 {
        if let Some(kind) = data.get_control_kind(ControlId(control_id_raw)) {
            return resolve_paint_route(kind, msg);
        }
    }
    if is_combo_owned(data, owner) {
        return PaintRoute::ComboListBox;
    }
    if control_id_raw != 0 && msg == WM_CTLCOLORLISTBOX {
        return PaintRoute::ComboListBox;
    }
    fallback_ctlcolor_route(msg)
}

/// Whether `owner` is the handle of a registered combo box.
pub fn is_combo_owned(data: &NativeWindowData, owner: Option<NativeHandle>) -> (r: bool)
    requires
        data.wf(),
    ensures
        r == combo_owned_spec(data, owner),
{
    match owner {
        Some(h) => !h.is_invalid() && any_combo_with_handle(data, h),
        None => false,
    }
}

fn any_combo_with_handle(data: &NativeWindowData, h: NativeHandle) -> (r: bool)
    requires
        data.wf(),
        !h.spec_is_invalid(),
    ensures
        r == combo_owned_spec(data, Some(h)),
{
    let ids = data.control_ids();
    let mut i: usize = 0;
    while i < ids.len()
        invariant
            data.wf(),
            !h.spec_is_invalid(),
            i <= ids@.len(),
            forall|id: ControlId| data@.handles.contains_key(id) <==> ids@.contains(id),
            forall|j: int|
                0 <= j < i ==> !(data@.handles.contains_key(#[trigger] ids@[j]) && data@.handles[ids@[j]] == h
                    && data@.kinds.contains_key(ids@[j]) && data@.kinds[ids@[j]] == ControlKind::ComboBox),
        decreases ids@.len() - i,
    {
        let id = ids[i];
        assert(ids@.contains(id));
        let hh = data.get_control_hwnd(id);
        let k = data.get_control_kind(id);
        if hh == Some(h) && k == Some(ControlKind::ComboBox) {
            assert(data@.handles.contains_key(id) && data@.handles[id] == h && data@.kinds.contains_key(id)
                && data@.kinds[id] == ControlKind::ComboBox);
            return true;
        }
        i = i + 1;
    }
    assert forall|id: ControlId| #[trigger] data@.handles.contains_key(id) implies !(
    data@.handles[id] == h && data@.kinds.contains_key(id) && data@.kinds[id]
        == ControlKind::ComboBox) by {
        assert(ids@.contains(id));
        let j = choose|j: int| 0 <= j < ids@.len() && ids@[j] == id;
    }
    false
}

// ---------------------------------------------------------------------------
// Programmatic-scroll suppression
// ---------------------------------------------------------------------------

/// Index of the last occurrence of `p` in `s`, or -1.
pub open spec fn last_index_of(s: Seq<(WindowId, ControlId)>, p: (WindowId, ControlId)) -> int
    decreases s.len(),
{
    if s.len() == 0 {
        -1
    } else if s.last() == p {
        s.len() - 1
    } else {
        last_index_of(s.drop_last(), p)
    }
}

/// The `(window, control)` pairs whose scroll notifications currently come
/// from a programmatic command, one entry per held guard.
pub struct ScrollSuppressions {
    held: Vec<(WindowId, ControlId)>,
}

impl View for ScrollSuppressions {
    type V = Seq<(WindowId, ControlId)>;

    closed spec fn view(&self) -> Seq<(WindowId, ControlId)> {
        self.held@
    }
}

impl ScrollSuppressions {
    pub fn new() -> (r: Self)
        ensures
            r@ == Seq::<(WindowId, ControlId)>::empty(),
    {
        ScrollSuppressions { held: Vec::new() }
    }

    /// Marks the pair as suppressed until the matching `release`.
    pub fn acquire(&mut self, window_id: WindowId, control_id: ControlId)
        ensures
            final(self)@ == old(self)@.push((window_id, control_id)),
    {
        self.held.push((window_id, control_id));
    }

    /// Drops the most recent mark of the pair, if any.
    pub fn release(&mut self, window_id: WindowId, control_id: ControlId)
        ensures
            last_index_of(old(self)@, (window_id, control_id)) < 0 ==> final(self)@ == old(self)@,
            last_index_of(old(self)@, (window_id, control_id)) >= 0 ==> final(self)@ == old(
                self,
            )@.remove(last_index_of(old(self)@, (window_id, control_id))),
    {
        let ghost p = (window_id, control_id);
        let mut i: usize = self.held.len();
        assert(self.held@.take(i as int) =~= self.held@);
        while i > 0
            invariant
                p == (window_id, control_id),
                i <= self.held@.len(),
                self.held@ == old(self)@,
                last_index_of(self.held@, p) == last_index_of(self.held@.take(i as int), p),
            decreases i,
        {
            let e = self.held[i - 1];
            assert(self.held@.take(i as int).last() == e);
            if e.0 == window_id && e.1 == control_id {
                assert(e.0 == p.0 && e.1 == p.1);
                assert(e == p);
                self.held.remove(i - 1);
                return;
            }
            assert(self.held@.take(i as int).drop_last() =~= self.held@.take(i - 1));
            i = i - 1;
        }
        assert(self.held@.take(0) =~= Seq::<(WindowId, ControlId)>::empty());
    }

    pub fn is_suppressed(&self, window_id: WindowId, control_id: ControlId) -> (r: bool)
        ensures
            r == self@.contains((window_id, control_id)),
    {
        let mut i: usize = 0;
        while i < self.held.len()
            invariant
                i <= self.held@.len(),
                forall|j: int| 0 <= j < i ==> self.held@[j] != (window_id, control_id),
            decreases self.held@.len() - i,
        {
            let e = self.held[i];
            if e.0 == window_id && e.1 == control_id {
                assert(self.held@[i as int] == (window_id, control_id));
                return true;
            }
            i = i + 1;
        }
        false
    }
}

// ---------------------------------------------------------------------------
// Semantic events
// ---------------------------------------------------------------------------

/// Application events produced from native notifications.
#[derive(Clone, Debug, PartialEq, Eq)]
pub enum AppEvent {
    ButtonClicked { window_id: WindowId, control_id: ControlId },
    RadioButtonSelected { window_id: WindowId, control_id: ControlId },
    CheckBoxToggled { window_id: WindowId, control_id: ControlId, checked: bool },
    ComboBoxSelectionChanged {
        window_id: WindowId,
        control_id: ControlId,
        selected_index: Option<usize>,
    },
    ControlScrolled {
        window_id: WindowId,
        control_id: ControlId,
        vertical_pos: u32,
        horizontal_pos: u32,
    },
    InputTextChanged { window_id: WindowId, control_id: ControlId, text: String },
    SplitterDragging { window_id: WindowId, control_id: ControlId, desired_left_width_px: i32 },
    SplitterDragEnded { window_id: WindowId, control_id: ControlId, desired_left_width_px: i32 },
    MenuActionClicked { window_id: WindowId, action_id: MenuActionId },
    WindowResized { window_id: WindowId, width: i32, height: i32 },
    WindowCloseRequestedByUser { window_id: WindowId },
    WindowDestroyed { window_id: WindowId },
    MainWindowUISetupComplete { window_id: WindowId },
}

/// The event for a scroll notification from an edit control, given the
/// vertical and horizontal percentages the platform reported (if any).
/// Suppressed pairs and controls without vertical metrics produce nothing.
pub fn edit_scroll_event(
    suppressions: &ScrollSuppressions,
    window_id: WindowId,
    control_id: ControlId,
    vertical: Option<u32>,
    horizontal: Option<u32>,
) -> (r: Option<AppEvent>)
    ensures
        suppressions@.contains((window_id, control_id)) ==> r is None,
        !suppressions@.contains((window_id, control_id)) ==> match vertical {
            None => r is None,
            Some(v) => r == Some(
                AppEvent::ControlScrolled {
                    window_id,
                    control_id,
                    vertical_pos: v,
                    horizontal_pos: match horizontal {
                        Some(h) => h,
                        None => 0,
                    },
                },
            ),
        },
{
    if suppressions.is_suppressed(window_id, control_id) {
        return None;
    }
    match vertical {
        None => None,
        Some(v) => Some(
            AppEvent::ControlScrolled {
                window_id,
                control_id,
                vertical_pos: v,
                horizontal_pos: match horizontal {
                    Some(h) => h,
                    None => 0,
                },
            },
        ),
    }
}

/// What to do with a command notification from a control. Some decisions
/// need one more native read, whose result goes to the matching `*_event` function.
#[derive(Clone, Debug, PartialEq, Eq)]
pub enum CommandAction {
    Emit(AppEvent),
    /// Read the check box's state, then call `checkbox_toggled_event`.
    ReadCheckBoxState(ControlId),
    /// Read the combo box's selection, then call `combo_selection_event`.
    ReadComboSelection(ControlId),
    /// Re-check the dropdown geometry of the combo box.
    HealDropdown(ControlId),
    /// (Re)start the debounce timer whose id is the control id.
    StartDebounceTimer { control_id: ControlId, delay_ms: u32 },
    /// Query the scroll metrics, then call `edit_scroll_event`.
    QueryScroll(ControlId),
    Nothing,
}

pub open spec fn kind_of(m: RegistryModel, id: ControlId) -> Option<ControlKind> {
    if m.kinds.contains_key(id) {
        Some(m.kinds[id])
    } else {
        None
    }
}

/// The decision for a control notification `code` from control `id`.
pub open spec fn command_action_spec(
    m: RegistryModel,
    window_id: WindowId,
    id: ControlId,
    code: i32,
    suppressed: bool,
) -> CommandAction {
    if code == BN_CLICKED {
        match kind_of(m, id) {
            Some(ControlKind::RadioButton) => CommandAction::Emit(
                AppEvent::RadioButtonSelected { window_id, control_id: id },
            ),
            Some(ControlKind::CheckBox) => CommandAction::ReadCheckBoxState(id),
            Some(ControlKind::Button) | None => CommandAction::Emit(
                AppEvent::ButtonClicked { window_id, control_id: id },
            ),
            _ => CommandAction::Nothing,
        }
    } else if code == CBN_SELCHANGE {
        match kind_of(m, id) {
            Some(ControlKind::ComboBox) => CommandAction::ReadComboSelection(id),
            _ => CommandAction::Nothing,
        }
    } else if code == CBN_DROPDOWN {
        if m.heal_marks.contains(id) {
            CommandAction::Nothing
        } else {
            CommandAction::HealDropdown(id)
        }
    } else if code == EN_CHANGE {
        CommandAction::StartDebounceTimer { control_id: id, delay_ms: INPUT_DEBOUNCE_MS }
    } else if code == EN_VSCROLL && !suppressed {
        CommandAction::QueryScroll(id)
    } else {
        CommandAction::Nothing
    }
}

/// Decides what a command notification from a control leads to. A dropdown
/// opening marks the combo box so that its geometry is healed once per
/// opening; closing clears the mark.
pub fn decide_control_command(
    data: &mut NativeWindowData,
    suppressions: &ScrollSuppressions,
    window_id: WindowId,
    command_id: i32,
    notification_code: i32,
) -> (r: CommandAction)
    requires
        old(data).wf(),
    ensures
        final(data).wf(),
        r == command_action_spec(
            old(data)@,
            window_id,
            ControlId(command_id),
            notification_code,
            suppressions@.contains((window_id, ControlId(command_id))),
        ),
        notification_code == CBN_DROPDOWN ==> final(data)@ == (RegistryModel {
            heal_marks: old(data)@.heal_marks.insert(ControlId(command_id)),
            ..old(data)@
        }),
        notification_code == CBN_CLOSEUP ==> final(data)@ == (RegistryModel {
            heal_marks: old(data)@.heal_marks.remove(ControlId(command_id)),
            ..old(data)@
        }),
        notification_code != CBN_DROPDOWN && notification_code != CBN_CLOSEUP ==> final(data)@ == old(data)@,
{
    let id = ControlId(command_id);
    if notification_code == BN_CLICKED {
        match data.get_control_kind(id) {
            Some(ControlKind::RadioButton) => CommandAction::Emit(
                AppEvent::RadioButtonSelected { window_id, control_id: id },
            ),
            Some(ControlKind::CheckBox) => CommandAction::ReadCheckBoxState(id),
            Some(ControlKind::Button) | None => CommandAction::Emit(
                AppEvent::ButtonClicked { window_id, control_id: id },
            ),
            _ => CommandAction::Nothing,
        }
    } else if notification_code == CBN_SELCHANGE {
        match data.get_control_kind(id) {
            Some(ControlKind::ComboBox) => CommandAction::ReadComboSelection(id),
            _ => CommandAction::Nothing,
        }
    } else if notification_code == CBN_DROPDOWN {
        if data.mark_dropdown_heal_attempted(id) {
            CommandAction::HealDropdown(id)
        } else {
            CommandAction::Nothing
        }
    } else if notification_code == CBN_CLOSEUP {
        data.clear_dropdown_heal_attempted(id);
        CommandAction::Nothing
    } else if notification_code == EN_CHANGE {
        CommandAction::StartDebounceTimer { control_id: id, delay_ms: INPUT_DEBOUNCE_MS }
    } else if notification_code == EN_VSCROLL && !suppressions.is_suppressed(window_id, id) {
        CommandAction::QueryScroll(id)
    } else {
        CommandAction::Nothing
    }
}

/// A menu command: the action mapped to the menu item id, if any.
pub fn decide_menu_command(data: &NativeWindowData, window_id: WindowId, command_id: i32) -> (r: Option<AppEvent>)
    ensures
        data@.menu_actions.contains_key(command_id) ==> r == Some(
            AppEvent::MenuActionClicked { window_id, action_id: data@.menu_actions[command_id] },
        ),
        !data@.menu_actions.contains_key(command_id) ==> r is None,
{
    match data.get_menu_action(command_id) {
        Some(action_id) => Some(AppEvent::MenuActionClicked { window_id, action_id }),
        None => None,
    }
}

/// Native check state meaning "checked".
pub const BST_CHECKED: usize = 1;

pub fn checkbox_toggled_event(window_id: WindowId, control_id: ControlId, raw_state: usize) -> (r: AppEvent)
    ensures
        r == (AppEvent::CheckBoxToggled { window_id, control_id, checked: raw_state == BST_CHECKED }),
{
    AppEvent::CheckBoxToggled { window_id, control_id, checked: raw_state == BST_CHECKED }
}

pub fn combo_selection_event(window_id: WindowId, control_id: ControlId, raw_index: isize) -> (r: AppEvent)
    ensures
        r == (AppEvent::ComboBoxSelectionChanged {
            window_id,
            control_id,
            selected_index: if raw_index < 0 { None } else { Some(raw_index as usize) },
        }),
{
    AppEvent::ComboBoxSelectionChanged { window_id, control_id, selected_index: selection_from_raw_index(raw_index) }
}

pub fn button_clicked_event(window_id: WindowId, control_id: ControlId) -> (r: AppEvent)
    ensures
        r == (AppEvent::ButtonClicked { window_id, control_id }),
{
    AppEvent::ButtonClicked { window_id, control_id }
}

/// Splitter drag notifications: dragging suppresses background erasing until
/// the drag ends. Splitters without a dialog id produce nothing.
pub fn splitter_event(
    data: &mut NativeWindowData,
    window_id: WindowId,
    msg: u32,
    control_id_raw: i32,
    desired_left_width_px: i32,
) -> (r: Option<AppEvent>)
    requires
        old(data).wf(),
    ensures
        final(data).wf(),
        control_id_raw == 0 || (msg != WM_APP_SPLITTER_DRAGGING && msg != WM_APP_SPLITTER_DRAG_ENDED)
            ==> r is None && final(data)@ == old(data)@,
        control_id_raw != 0 && msg == WM_APP_SPLITTER_DRAGGING ==> r == Some(
            AppEvent::SplitterDragging { window_id, control_id: ControlId(control_id_raw), desired_left_width_px },
        ) && final(data)@ == (RegistryModel { suppress_erase: true, ..old(data)@ }),
        control_id_raw != 0 && msg == WM_APP_SPLITTER_DRAG_ENDED ==> r == Some(
            AppEvent::SplitterDragEnded { window_id, control_id: ControlId(control_id_raw), desired_left_width_px },
        ) && final(data)@ == (RegistryModel { suppress_erase: false, ..old(data)@ }),
{
    if control_id_raw == 0 {
        return None;
    }
    let control_id = ControlId(control_id_raw);
    if msg == WM_APP_SPLITTER_DRAGGING {
        data.set_suppress_erasebkgnd(true);
        Some(AppEvent::SplitterDragging { window_id, control_id, desired_left_width_px })
    } else if msg == WM_APP_SPLITTER_DRAG_ENDED {
        data.set_suppress_erasebkgnd(false);
        Some(AppEvent::SplitterDragEnded { window_id, control_id, desired_left_width_px })
    } else {
        None
    }
}

/// Window-level notifications that translate directly into events.
pub fn window_event(window_id: WindowId, msg: u32, lparam: usize) -> (r: Option<AppEvent>)
    ensures
        msg == WM_SIZE ==> r == Some(
            AppEvent::WindowResized {
                window_id,
                width: (lparam % 65536) as i32,
                height: ((lparam / 65536) % 65536) as i32,
            },
        ),
        msg == WM_CLOSE ==> r == Some(AppEvent::WindowCloseRequestedByUser { window_id }),
        msg == WM_DESTROY ==> r == Some(AppEvent::WindowDestroyed { window_id }),
        msg == WM_APP_MAIN_WINDOW_UI_SETUP_COMPLETE ==> r == Some(AppEvent::MainWindowUISetupComplete { window_id }),
        msg != WM_SIZE && msg != WM_CLOSE && msg != WM_DESTROY && msg != WM_APP_MAIN_WINDOW_UI_SETUP_COMPLETE ==> r is None,
{
    if msg == WM_SIZE {
        Some(AppEvent::WindowResized { window_id, width: loword(lparam), height: hiword(lparam) })
    } else if msg == WM_CLOSE {
        Some(AppEvent::WindowCloseRequestedByUser { window_id })
    } else if msg == WM_DESTROY {
        Some(AppEvent::WindowDestroyed { window_id })
    } else if msg == WM_APP_MAIN_WINDOW_UI_SETUP_COMPLETE {
        Some(AppEvent::MainWindowUISetupComplete { window_id })
    } else {
        None
    }
}

/// Messages a panel hands on to its parent so that controls inside panels
/// behave like direct children of the window.
pub open spec fn is_parent_notification_spec(msg: u32) -> bool {
    msg == WM_COMMAND || msg == WM_NOTIFY || msg == WM_PARENTNOTIFY || msg == WM_DRAWITEM || msg
        == WM_MEASUREITEM || msg == WM_DELETEITEM || msg == WM_COMPAREITEM || msg == WM_CTLCOLORBTN
        || msg == WM_CTLCOLOREDIT || msg == WM_CTLCOLORSTATIC || msg == WM_CTLCOLORLISTBOX || msg
        == WM_CTLCOLORSCROLLBAR || msg == WM_CTLCOLORDLG || msg == WM_HSCROLL || msg == WM_VSCROLL
}

pub fn is_parent_notification(msg: u32) -> (r: bool)
    ensures
        r == is_parent_notification_spec(msg),
{
    msg == WM_COMMAND || msg == WM_NOTIFY || msg == WM_PARENTNOTIFY || msg == WM_DRAWITEM || msg
        == WM_MEASUREITEM || msg == WM_DELETEITEM || msg == WM_COMPAREITEM || msg == WM_CTLCOLORBTN
        || msg == WM_CTLCOLOREDIT || msg == WM_CTLCOLORSTATIC || msg == WM_CTLCOLORLISTBOX || msg
        == WM_CTLCOLORSCROLLBAR || msg == WM_CTLCOLORDLG || msg == WM_HSCROLL || msg == WM_VSCROLL
}

} // verus!
