use commanductui::dispatch::{
    checkbox_toggled_event, combo_selection_event, decide_control_command, decide_menu_command,
    edit_scroll_event, fallback_ctlcolor_route, is_parent_notification, resolve_ctlcolor_route,
    resolve_paint_route, splitter_event, window_event, AppEvent, CommandAction, PaintRoute,
    ScrollSuppressions, BN_CLICKED, CBN_CLOSEUP, CBN_DROPDOWN, CBN_SELCHANGE, EN_CHANGE,
    EN_VSCROLL, INPUT_DEBOUNCE_MS, WM_APP_SPLITTER_DRAGGING, WM_APP_SPLITTER_DRAG_ENDED, WM_CLOSE,
    WM_COMMAND, WM_COMPAREITEM, WM_CTLCOLORBTN, WM_CTLCOLORDLG, WM_CTLCOLOREDIT,
    WM_CTLCOLORLISTBOX, WM_CTLCOLORSCROLLBAR, WM_CTLCOLORSTATIC, WM_DELETEITEM, WM_DRAWITEM,
    WM_HSCROLL, WM_MEASUREITEM, WM_NOTIFY, WM_PARENTNOTIFY, WM_SIZE, WM_VSCROLL,
};
use commanductui::registry::NativeWindowData;
use commanductui::types::{ControlId, ControlKind, MenuActionId, NativeHandle, WindowId};

#[test]
fn edit_routes_static_and_edit_messages_to_edit() {
    assert_eq!(resolve_paint_route(ControlKind::Edit, WM_CTLCOLORSTATIC), PaintRoute::Edit);
    assert_eq!(resolve_paint_route(ControlKind::Edit, WM_CTLCOLOREDIT), PaintRoute::Edit);
}

#[test]
fn static_routes_static_message_to_label_and_edit_to_default() {
    assert_eq!(resolve_paint_route(ControlKind::Static, WM_CTLCOLORSTATIC), PaintRoute::LabelStatic);
    assert_eq!(resolve_paint_route(ControlKind::Static, WM_CTLCOLOREDIT), PaintRoute::Default);
}

#[test]
fn combobox_routes_listbox_message_to_combo_listbox() {
    assert_eq!(resolve_paint_route(ControlKind::ComboBox, WM_CTLCOLORLISTBOX), PaintRoute::ComboListBox);
}

#[test]
fn combobox_routes_static_message_to_combo_listbox() {
    assert_eq!(
        resolve_paint_route(ControlKind::ComboBox, WM_CTLCOLORSTATIC),
        PaintRoute::ComboListBox,
        "CBS_DROPDOWNLIST sends WM_CTLCOLORSTATIC for the closed combo face"
    );
}

#[test]
fn combobox_routes_edit_message_to_combo_listbox() {
    assert_eq!(
        resolve_paint_route(ControlKind::ComboBox, WM_CTLCOLOREDIT),
        PaintRoute::ComboListBox,
        "Some systems/themes route the closed combo face through WM_CTLCOLOREDIT"
    );
}

#[test]
fn button_routes_btn_message_to_button() {
    assert_eq!(resolve_paint_route(ControlKind::Button, WM_CTLCOLORBTN), PaintRoute::Button);
}

#[test]
fn radiobutton_routes_btn_message_to_button() {
    assert_eq!(resolve_paint_route(ControlKind::RadioButton, WM_CTLCOLORBTN), PaintRoute::Button);
}

#[test]
fn radiobutton_routes_static_message_to_button() {
    assert_eq!(
        resolve_paint_route(ControlKind::RadioButton, WM_CTLCOLORSTATIC),
        PaintRoute::Button,
        "some radio-button paint paths surface as WM_CTLCOLORSTATIC"
    );
}

#[test]
fn checkbox_routes_btn_message_to_button() {
    assert_eq!(resolve_paint_route(ControlKind::CheckBox, WM_CTLCOLORBTN), PaintRoute::Button);
}

#[test]
fn checkbox_routes_static_message_to_button() {
    assert_eq!(
        resolve_paint_route(ControlKind::CheckBox, WM_CTLCOLORSTATIC),
        PaintRoute::Button,
        "checkbox paint paths can surface as WM_CTLCOLORSTATIC"
    );
}

#[test]
fn unknown_pairs_route_to_default() {
    assert_eq!(resolve_paint_route(ControlKind::TreeView, WM_CTLCOLORSTATIC), PaintRoute::Default);
    assert_eq!(resolve_paint_route(ControlKind::Button, 0x1234), PaintRoute::Default);
    assert_eq!(fallback_ctlcolor_route(WM_CTLCOLORBTN), PaintRoute::Button);
    assert_eq!(fallback_ctlcolor_route(WM_CTLCOLORDLG), PaintRoute::Default);
}

#[test]
fn ctlcolor_route_uses_registry_then_combo_ownership_then_tag() {
    let mut data = NativeWindowData::new(WindowId::new(1));
    data.register_control_kind(ControlId::new(5), ControlKind::Static);
    data.register_control_hwnd(ControlId::new(6), NativeHandle(0x66));
    data.register_control_kind(ControlId::new(6), ControlKind::ComboBox);
    assert_eq!(resolve_ctlcolor_route(&data, 5, None, WM_CTLCOLORSTATIC), PaintRoute::LabelStatic);
    assert_eq!(
        resolve_ctlcolor_route(&data, 0, Some(NativeHandle(0x66)), WM_CTLCOLOREDIT),
        PaintRoute::ComboListBox
    );
    assert_eq!(resolve_ctlcolor_route(&data, 1000, None, WM_CTLCOLORLISTBOX), PaintRoute::ComboListBox);
    assert_eq!(resolve_ctlcolor_route(&data, 1000, None, WM_CTLCOLOREDIT), PaintRoute::Edit);
    assert_eq!(resolve_ctlcolor_route(&data, 0, Some(NativeHandle(0x77)), WM_CTLCOLORSTATIC), PaintRoute::LabelStatic);
}

#[test]
fn parent_notification_set_is_complete_for_panels() {
    assert!(is_parent_notification(WM_COMMAND));
    assert!(is_parent_notification(WM_NOTIFY));
    assert!(is_parent_notification(WM_PARENTNOTIFY));
    assert!(is_parent_notification(WM_DRAWITEM));
    assert!(is_parent_notification(WM_MEASUREITEM));
    assert!(is_parent_notification(WM_DELETEITEM));
    assert!(is_parent_notification(WM_COMPAREITEM));
    assert!(is_parent_notification(WM_CTLCOLORBTN));
    assert!(is_parent_notification(WM_CTLCOLOREDIT));
    assert!(is_parent_notification(WM_CTLCOLORSTATIC));
    assert!(is_parent_notification(WM_CTLCOLORLISTBOX));
    assert!(is_parent_notification(WM_CTLCOLORSCROLLBAR));
    assert!(is_parent_notification(WM_CTLCOLORDLG));
    assert!(is_parent_notification(WM_HSCROLL));
    assert!(is_parent_notification(WM_VSCROLL));
    assert!(!is_parent_notification(WM_SIZE));
}

#[test]
fn suppressed_scroll_is_dropped_and_unguarded_scroll_is_reported() {
    let w = WindowId::new(1);
    let c = ControlId::new(2);
    let other = ControlId::new(3);
    let mut guards = ScrollSuppressions::new();
    guards.acquire(w, c);
    assert!(guards.is_suppressed(w, c));
    assert_eq!(edit_scroll_event(&guards, w, c, Some(40), Some(10)), None);
    assert_eq!(
        edit_scroll_event(&guards, w, other, Some(40), None),
        Some(AppEvent::ControlScrolled { window_id: w, control_id: other, vertical_pos: 40, horizontal_pos: 0 })
    );
    assert_eq!(edit_scroll_event(&guards, w, other, None, Some(5)), None);
    guards.release(w, c);
    assert!(!guards.is_suppressed(w, c));
    assert!(edit_scroll_event(&guards, w, c, Some(1), Some(2)).is_some());
}

#[test]
fn nested_guards_keep_suppression_until_the_outer_one_is_released() {
    let w = WindowId::new(1);
    let c = ControlId::new(2);
    let mut guards = ScrollSuppressions::new();
    guards.acquire(w, c);
    guards.acquire(w, c);
    guards.release(w, c);
    assert!(guards.is_suppressed(w, c));
    guards.release(w, c);
    assert!(!guards.is_suppressed(w, c));
    guards.release(w, c);
    assert!(!guards.is_suppressed(w, c));
}

#[test]
fn bn_clicked_translates_to_app_event() {
    let mut data = NativeWindowData::new(WindowId(9));
    let guards = ScrollSuppressions::new();
    let action = decide_control_command(&mut data, &guards, WindowId(9), 5, BN_CLICKED);
    match action {
        CommandAction::Emit(AppEvent::ButtonClicked { window_id, control_id }) => {
            assert_eq!(window_id, WindowId(9));
            assert_eq!(control_id, ControlId::new(5));
        }
        other => panic!("Unexpected event: {other:?}"),
    }
}

#[test]
fn clicked_notification_is_told_apart_by_kind() {
    let w = WindowId(1);
    let mut data = NativeWindowData::new(w);
    let guards = ScrollSuppressions::new();
    data.register_control_kind(ControlId::new(1), ControlKind::RadioButton);
    data.register_control_kind(ControlId::new(2), ControlKind::CheckBox);
    data.register_control_kind(ControlId::new(3), ControlKind::Edit);
    assert_eq!(
        decide_control_command(&mut data, &guards, w, 1, BN_CLICKED),
        CommandAction::Emit(AppEvent::RadioButtonSelected { window_id: w, control_id: ControlId::new(1) })
    );
    assert_eq!(
        decide_control_command(&mut data, &guards, w, 2, BN_CLICKED),
        CommandAction::ReadCheckBoxState(ControlId::new(2))
    );
    assert_eq!(decide_control_command(&mut data, &guards, w, 3, BN_CLICKED), CommandAction::Nothing);
    assert_eq!(
        checkbox_toggled_event(w, ControlId::new(2), 1),
        AppEvent::CheckBoxToggled { window_id: w, control_id: ControlId::new(2), checked: true }
    );
    assert_eq!(
        checkbox_toggled_event(w, ControlId::new(2), 0),
        AppEvent::CheckBoxToggled { window_id: w, control_id: ControlId::new(2), checked: false }
    );
}

#[test]
fn combo_notifications() {
    let w = WindowId(1);
    let mut data = NativeWindowData::new(w);
    let guards = ScrollSuppressions::new();
    data.register_control_kind(ControlId::new(4), ControlKind::ComboBox);
    assert_eq!(
        decide_control_command(&mut data, &guards, w, 4, CBN_SELCHANGE),
        CommandAction::ReadComboSelection(ControlId::new(4))
    );
    assert_eq!(decide_control_command(&mut data, &guards, w, 9, CBN_SELCHANGE), CommandAction::Nothing);
    assert_eq!(
        decide_control_command(&mut data, &guards, w, 4, CBN_DROPDOWN),
        CommandAction::HealDropdown(ControlId::new(4))
    );
    assert_eq!(decide_control_command(&mut data, &guards, w, 4, CBN_DROPDOWN), CommandAction::Nothing);
    assert_eq!(decide_control_command(&mut data, &guards, w, 4, CBN_CLOSEUP), CommandAction::Nothing);
    assert_eq!(
        decide_control_command(&mut data, &guards, w, 4, CBN_DROPDOWN),
        CommandAction::HealDropdown(ControlId::new(4))
    );
    assert_eq!(
        combo_selection_event(w, ControlId::new(4), -1),
        AppEvent::ComboBoxSelectionChanged { window_id: w, control_id: ControlId::new(4), selected_index: None }
    );
    assert_eq!(
        combo_selection_event(w, ControlId::new(4), 3),
        AppEvent::ComboBoxSelectionChanged { window_id: w, control_id: ControlId::new(4), selected_index: Some(3) }
    );
}

#[test]
fn edit_notifications_start_timer_or_query_scroll() {
    let w = WindowId(1);
    let mut data = NativeWindowData::new(w);
    let mut guards = ScrollSuppressions::new();
    assert_eq!(
        decide_control_command(&mut data, &guards, w, 8, EN_CHANGE),
        CommandAction::StartDebounceTimer { control_id: ControlId::new(8), delay_ms: INPUT_DEBOUNCE_MS }
    );
    assert_eq!(
        decide_control_command(&mut data, &guards, w, 8, EN_VSCROLL),
        CommandAction::QueryScroll(ControlId::new(8))
    );
    guards.acquire(w, ControlId::new(8));
    assert_eq!(decide_control_command(&mut data, &guards, w, 8, EN_VSCROLL), CommandAction::Nothing);
}

#[test]
fn menu_commands_map_to_actions() {
    let w = WindowId(1);
    let mut data = NativeWindowData::new(w);
    let id = data.register_menu_action(MenuActionId(7));
    assert_eq!(
        decide_menu_command(&data, w, id),
        Some(AppEvent::MenuActionClicked { window_id: w, action_id: MenuActionId(7) })
    );
    assert_eq!(decide_menu_command(&data, w, id + 1), None);
}

#[test]
fn splitter_drag_suppresses_erase_until_it_ends() {
    let w = WindowId(1);
    let mut data = NativeWindowData::new(w);
    assert_eq!(
        splitter_event(&mut data, w, WM_APP_SPLITTER_DRAGGING, 12, 200),
        Some(AppEvent::SplitterDragging { window_id: w, control_id: ControlId::new(12), desired_left_width_px: 200 })
    );
    assert!(data.suppresses_erasebkgnd());
    assert_eq!(
        splitter_event(&mut data, w, WM_APP_SPLITTER_DRAG_ENDED, 12, 210),
        Some(AppEvent::SplitterDragEnded { window_id: w, control_id: ControlId::new(12), desired_left_width_px: 210 })
    );
    assert!(!data.suppresses_erasebkgnd());
    assert_eq!(splitter_event(&mut data, w, WM_APP_SPLITTER_DRAGGING, 0, 200), None);
    assert!(!data.suppresses_erasebkgnd());
}

#[test]
fn window_messages_become_events() {
    let w = WindowId(3);
    assert_eq!(
        window_event(w, WM_SIZE, (600 << 16) | 800),
        Some(AppEvent::WindowResized { window_id: w, width: 800, height: 600 })
    );
    assert_eq!(window_event(w, WM_CLOSE, 0), Some(AppEvent::WindowCloseRequestedByUser { window_id: w }));
    assert_eq!(window_event(w, WM_COMMAND, 0), None);
}
