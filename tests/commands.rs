use commanductui::registry::NativeWindowData;
use commanductui::types::{ControlId, NativeHandle, PlatformError, WindowId};

fn window() -> NativeWindowData {
    let mut data = NativeWindowData::new(WindowId::new(1));
    data.set_hwnd(NativeHandle(0x10));
    data
}

#[test]
fn test_set_control_enabled_missing_control_returns_error() {
    let data = window();
    let result = data.resolve_control_handle(ControlId::new(321));
    assert!(result.is_err());
}

#[test]
fn test_set_control_text_missing_control_returns_error() {
    let data = window();
    let result = data.resolve_control_handle(ControlId::new(1234));
    assert!(result.is_err());
}

#[test]
fn test_create_input_missing_parent_errors() {
    let data = window();
    let result = data.creation_precheck(ControlId::new(88), Some(ControlId::new(77)));
    assert!(result.is_err());
}

#[test]
fn test_set_rich_edit_content_missing_control_returns_error() {
    let data = window();
    let result = data.resolve_control_handle(ControlId::new(888));
    assert!(result.is_err());
}

#[test]
fn test_create_rich_edit_missing_parent_errors() {
    let data = window();
    let result = data.creation_precheck(ControlId::new(88), Some(ControlId::new(77)));
    assert!(result.is_err());
}

#[test]
fn test_create_rich_edit_duplicate_control_id_errors() {
    let mut data = window();
    data.register_control_hwnd(ControlId::new(42), NativeHandle(0x1234));
    let result = data.creation_precheck(ControlId::new(42), None);
    assert!(matches!(result, Err(PlatformError::OperationFailed(_))));
}
