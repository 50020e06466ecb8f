use commanductui::controls::fallback_min_dropdown_height_px;
use commanductui::registry::NativeWindowData;
use commanductui::types::{
    ControlId, ControlKind, MenuActionId, MessageSeverity, NativeHandle, PlatformError, StyleId,
    WindowId,
};

#[test]
fn test_register_control_hwnd_lookup() {
    let mut data = NativeWindowData::new(WindowId(1));
    let hwnd = NativeHandle(0x1234);
    let control_id = ControlId::new(42);
    data.register_control_hwnd(control_id, hwnd);
    assert_eq!(data.get_control_hwnd(control_id), Some(hwnd));
    assert!(data.has_control(control_id));
}

#[test]
fn test_register_menu_action_increments_counter() {
    let mut data = NativeWindowData::new(WindowId(2));
    let start = data.get_next_menu_item_id_counter();
    let id1 = data.register_menu_action(MenuActionId(42));
    let id2 = data.register_menu_action(MenuActionId(42));
    assert_eq!(data.menu_action_count(), 2);
    assert_eq!(id1, start);
    assert_eq!(id2, start + 1);
    assert_eq!(data.get_next_menu_item_id_counter(), start + 2);
    assert_eq!(data.get_menu_action(id1), Some(MenuActionId(42)));
}

#[test]
fn test_set_and_get_label_severity() {
    let mut data = NativeWindowData::new(WindowId(3));
    let label_id = ControlId::new(7);
    data.set_label_severity(label_id, MessageSeverity::Warning);
    assert_eq!(data.get_label_severity(label_id), Some(MessageSeverity::Warning));
}

#[test]
fn test_apply_style_to_control_records_id() {
    let mut data = NativeWindowData::new(WindowId(4));
    let control_id = ControlId::new(8);
    data.apply_style_to_control(control_id, StyleId::DefaultText);
    assert_eq!(data.get_style_for_control(control_id), Some(StyleId::DefaultText));
}

#[test]
fn find_control_id_by_hwnd_returns_registered_control() {
    let mut data = NativeWindowData::new(WindowId::new(1));
    let control_id = ControlId::new(42);
    let hwnd = NativeHandle(0x1234);
    data.register_control_hwnd(control_id, hwnd);
    assert_eq!(data.find_control_id_by_hwnd(hwnd), Some(control_id));
    assert_eq!(data.find_control_id_by_hwnd(NativeHandle(0x9999)), None);
}

#[test]
fn effective_native_height_for_combobox_is_expanded() {
    let mut data = NativeWindowData::new(WindowId::new(1));
    let combo_id = ControlId::new(77);
    data.register_control_kind(combo_id, ControlKind::ComboBox);
    data.register_control_hwnd(combo_id, NativeHandle(0x1234));
    let result = data.effective_native_height_for_control(combo_id, 26, 96);
    assert!(result >= fallback_min_dropdown_height_px());
    assert_eq!(data.effective_native_height_for_control(combo_id, 26, 192), 520);
    assert_eq!(data.effective_native_height_for_control(ControlId::new(5), 26, 192), 26);
}

#[test]
fn kinds_register_and_unregister() {
    let mut data = NativeWindowData::new(WindowId::new(1));
    let id = ControlId::new(3);
    data.register_control_kind(id, ControlKind::Edit);
    assert_eq!(data.get_control_kind(id), Some(ControlKind::Edit));
    data.unregister_control_kind(id);
    assert_eq!(data.get_control_kind(id), None);
}

#[test]
fn dropdown_heal_is_marked_once_until_cleared() {
    let mut data = NativeWindowData::new(WindowId::new(1));
    let id = ControlId::new(3);
    assert!(data.mark_dropdown_heal_attempted(id));
    assert!(!data.mark_dropdown_heal_attempted(id));
    data.clear_dropdown_heal_attempted(id);
    assert!(data.mark_dropdown_heal_attempted(id));
}

#[test]
fn create_twice_fails_second_time_and_keeps_state() {
    let mut data = NativeWindowData::new(WindowId::new(1));
    data.set_hwnd(NativeHandle(0x10));
    let id = ControlId::new(42);
    let parent = data.creation_precheck(id, None).unwrap();
    assert_eq!(parent, NativeHandle(0x10));
    data.commit_control(id, NativeHandle(0x20), ControlKind::Button).unwrap();

    assert!(matches!(data.creation_precheck(id, None), Err(PlatformError::OperationFailed(_))));
    assert!(matches!(
        data.reserve_control_kind(id, ControlKind::Edit),
        Err(PlatformError::OperationFailed(_))
    ));
    let second = data.commit_control(id, NativeHandle(0x30), ControlKind::Edit);
    match second {
        Err((destroy, PlatformError::OperationFailed(_))) => assert_eq!(destroy, NativeHandle(0x30)),
        other => panic!("unexpected commit outcome: {other:?}"),
    }
    assert_eq!(data.get_control_hwnd(id), Some(NativeHandle(0x20)));
    assert_eq!(data.get_control_kind(id), Some(ControlKind::Button));
}

#[test]
fn racing_creators_leave_one_handle_and_destroy_the_other() {
    let mut data = NativeWindowData::new(WindowId::new(1));
    data.set_hwnd(NativeHandle(0x10));
    let id = ControlId::new(7);
    // Both creators pass the read phase before either commits.
    let p1 = data.creation_precheck(id, None).unwrap();
    let p2 = data.creation_precheck(id, None).unwrap();
    assert_eq!(p1, p2);
    let mut destroyed = Vec::new();
    for h in [NativeHandle(0x100), NativeHandle(0x200)] {
        if let Err((loser, _)) = data.commit_control(id, h, ControlKind::ComboBox) {
            destroyed.push(loser);
        }
    }
    assert_eq!(destroyed, vec![NativeHandle(0x200)]);
    assert_eq!(data.get_control_hwnd(id), Some(NativeHandle(0x100)));
}

#[test]
fn precheck_reports_missing_and_invalid_parents() {
    let mut data = NativeWindowData::new(WindowId::new(1));
    assert!(matches!(data.creation_precheck(ControlId::new(1), None), Err(PlatformError::InvalidHandle(_))));
    data.set_hwnd(NativeHandle(0x10));
    assert!(matches!(
        data.creation_precheck(ControlId::new(1), Some(ControlId::new(9))),
        Err(PlatformError::InvalidHandle(_))
    ));
    data.register_control_hwnd(ControlId::new(9), NativeHandle(0));
    assert!(matches!(
        data.creation_precheck(ControlId::new(1), Some(ControlId::new(9))),
        Err(PlatformError::InvalidHandle(_))
    ));
    data.register_control_hwnd(ControlId::new(9), NativeHandle(0x99));
    assert_eq!(data.creation_precheck(ControlId::new(1), Some(ControlId::new(9))).unwrap(), NativeHandle(0x99));
}

#[test]
fn reserved_kind_is_rolled_back_on_failed_creation() {
    let mut data = NativeWindowData::new(WindowId::new(1));
    let id = ControlId::new(4);
    data.reserve_control_kind(id, ControlKind::ComboBox).unwrap();
    assert_eq!(data.get_control_kind(id), Some(ControlKind::ComboBox));
    data.unregister_control_kind(id);
    assert_eq!(data.get_control_kind(id), None);
}

#[test]
fn typed_resolution_checks_kind() {
    let mut data = NativeWindowData::new(WindowId::new(1));
    let id = ControlId::new(4);
    assert!(matches!(data.resolve_control_of_kind(id, ControlKind::CheckBox), Err(PlatformError::InvalidHandle(_))));
    data.commit_control(id, NativeHandle(0x44), ControlKind::RadioButton).unwrap();
    assert!(matches!(data.resolve_control_of_kind(id, ControlKind::CheckBox), Err(PlatformError::OperationFailed(_))));
    assert_eq!(data.resolve_control_of_kind(id, ControlKind::RadioButton).unwrap(), NativeHandle(0x44));
}

#[test]
fn window_handle_must_be_valid() {
    let mut data = NativeWindowData::new(WindowId::new(1));
    assert!(matches!(data.resolve_window_handle(), Err(PlatformError::InvalidHandle(_))));
    data.set_hwnd(NativeHandle(5));
    assert_eq!(data.resolve_window_handle().unwrap(), NativeHandle(5));
}
