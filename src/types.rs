use vstd::prelude::*;

verus! {

/// Logical identity of a top-level window; unique per process.
#[derive(Clone, Copy, Debug, PartialEq, Eq, Structural, Hash)]
pub struct WindowId(pub usize);

impl WindowId {
    pub fn new(raw: usize) -> (r: WindowId)
        ensures
            r.0 == raw,
    {
        WindowId(raw)
    }

    pub fn raw(&self) -> (r: usize)
        ensures
            r == self.0,
    {
        self.0
    }
}

/// Logical identity of a control; unique within its window.
#[derive(Clone, Copy, Debug, PartialEq, Eq, Structural, Hash)]
pub struct ControlId(pub i32);

impl ControlId {
    pub fn new(raw: i32) -> (r: ControlId)
        ensures
            r.0 == raw,
    {
        ControlId(raw)
    }

    pub fn raw(&self) -> (r: i32)
        ensures
            r == self.0,
    {
        self.0
    }
}

/// Opaque identifier of a native window or control resource.
/// The value zero never names a live resource.
#[derive(Clone, Copy, Debug, PartialEq, Eq, Structural, Hash)]
pub struct NativeHandle(pub usize);

impl NativeHandle {
    pub open spec fn spec_is_invalid(&self) -> bool {
        self.0 == 0
    }

    pub fn is_invalid(&self) -> (r: bool)
        ensures
            r == self.spec_is_invalid(),
    {
        self.0 == 0
    }
}

/// Semantic menu action attached to a generated menu item id.
#[derive(Clone, Copy, Debug, PartialEq, Eq, Structural, Hash)]
pub struct MenuActionId(pub u32);

/// The closed set of control kinds that the layer creates and routes messages for.
#[derive(Clone, Copy, Debug, PartialEq, Eq, Structural, Hash)]
pub enum ControlKind {
    Button,
    ProgressBar,
    TreeView,
    Static,
    Edit,
    RichEdit,
    Splitter,
    ComboBox,
    RadioButton,
    CheckBox,
    Chart,
    TabBar,
    Panel,
}

/// Semantic style identifiers applied to controls.
#[derive(Clone, Copy, Debug, PartialEq, Eq, Structural, Hash)]
pub enum StyleId {
    MainWindowBackground,
    DefaultText,
    DefaultButton,
    DefaultInput,
    HeaderLabel,
    StatusLabelNormal,
    StatusLabelWarning,
    StatusLabelError,
    ComboBox,
    ViewerMonospace,
}

/// Severity shown by a status label.
#[derive(Clone, Copy, Debug, PartialEq, Eq, Structural, Hash)]
pub enum MessageSeverity {
    Plain,
    Information,
    Warning,
    Error,
}

/// An 8-bit-per-channel RGB color.
#[derive(Clone, Copy, Debug, PartialEq, Eq, Structural, Hash)]
pub struct Color {
    pub r: u8,
    pub g: u8,
    pub b: u8,
}

/// An axis-aligned rectangle in pixels; `right` and `bottom` are exclusive.
#[derive(Clone, Copy, Debug, PartialEq, Eq, Structural, Hash)]
pub struct Rect {
    pub left: i32,
    pub top: i32,
    pub right: i32,
    pub bottom: i32,
}

impl Rect {
    pub open spec fn spec_width(&self) -> int {
        self.right - self.left
    }

    pub open spec fn spec_height(&self) -> int {
        self.bottom - self.top
    }
}

/// How a control is docked inside its parent's remaining area.
#[derive(Clone, Copy, Debug, PartialEq, Eq, Structural)]
pub enum DockStyle {
    NoDock,
    Top,
    Bottom,
    Left,
    Right,
    Fill,
    ProportionalFill { weight: u32 },
}

/// One declarative placement rule. `margin` is `(top, right, bottom, left)`.
#[derive(Clone, Copy, Debug, PartialEq, Eq)]
pub struct LayoutRule {
    pub control_id: ControlId,
    pub parent_control_id: Option<ControlId>,
    pub dock_style: DockStyle,
    pub order: i32,
    pub fixed_size: Option<i32>,
    pub margin: (i32, i32, i32, i32),
}

/// Errors surfaced by the registry, the layout trigger and the command protocol.
#[derive(Clone, Debug, PartialEq, Eq)]
pub enum PlatformError {
    WindowNotFound(String),
    InvalidHandle(String),
    OperationFailed(String),
}

impl PlatformError {
    pub open spec fn spec_message(&self) -> Seq<char> {
        match self {
            PlatformError::WindowNotFound(m) => m@,
            PlatformError::InvalidHandle(m) => m@,
            PlatformError::OperationFailed(m) => m@,
        }
    }

    /// The diagnostic text carried by the error.
    pub fn message(&self) -> (r: String)
        ensures
            r@ == self.spec_message(),
    {
        match self {
            PlatformError::WindowNotFound(m) => m.clone(),
            PlatformError::InvalidHandle(m) => m.clone(),
            PlatformError::OperationFailed(m) => m.clone(),
        }
    }
}

} // verus!
