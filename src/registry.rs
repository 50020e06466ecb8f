use vstd::prelude::*;

use std::collections::HashMap;

use crate::controls::{min_dropdown_height_px, scale_by_dpi_spec, FALLBACK_DROPDOWN_HEIGHT_PX};
use crate::id_map::IdMap;
use crate::layout::{has_fill_conflict, validate_layout_rules};
use crate::types::{
    ControlId, ControlKind, LayoutRule, MenuActionId, MessageSeverity, NativeHandle,
    PlatformError, Rect, StyleId, WindowId,
};

verus! {

broadcast use vstd::std_specs::hash::group_hash_axioms;

/// First id handed out to a generated menu item.
pub const FIRST_MENU_ITEM_ID: i32 = 30000;

/// Abstract state of one window's registry.
pub ghost struct RegistryModel {
    pub window_id: WindowId,
    pub hwnd: NativeHandle,
    pub handles: Map<ControlId, NativeHandle>,
    pub kinds: Map<ControlId, ControlKind>,
    pub styles: Map<ControlId, StyleId>,
    pub severities: Map<ControlId, MessageSeverity>,
    pub menu_actions: Map<i32, MenuActionId>,
    pub next_menu_id: int,
    pub layout_rules: Option<Seq<LayoutRule>>,
    pub suppress_erase: bool,
    pub last_rects: Map<ControlId, Rect>,
    pub heal_marks: Set<ControlId>,
}

/// What the read phase of a create command decides.
pub ghost enum PrecheckOutcome {
    /// The logical id is already registered.
    AlreadyExists,
    /// The parent control id is given but not registered.
    ParentMissing,
    /// The parent resolves to an invalid native handle.
    ParentInvalid,
    /// Creation may proceed under this native parent.
    Ready(NativeHandle),
}

/// Native height for a control laid out `base` high (see
/// `NativeWindowData::effective_native_height_for_control`).
pub open spec fn effective_height_spec(m: RegistryModel, id: ControlId, base: i32, dpi: i32) -> int {
    if m.kinds.contains_key(id) && m.kinds[id] == ControlKind::ComboBox {
        let floor = if m.handles.contains_key(id) {
            scale_by_dpi_spec(FALLBACK_DROPDOWN_HEIGHT_PX, dpi)
        } else {
            FALLBACK_DROPDOWN_HEIGHT_PX as int
        };
        if base >= floor {
            base as int
        } else {
            floor
        }
    } else {
        base as int
    }
}

impl RegistryModel {
    pub open spec fn precheck(self, id: ControlId, parent: Option<ControlId>) -> PrecheckOutcome {
        if self.handles.contains_key(id) {
            PrecheckOutcome::AlreadyExists
        } else {
            match parent {
                Some(p) => if !self.handles.contains_key(p) {
                    PrecheckOutcome::ParentMissing
                } else if self.handles[p].spec_is_invalid() {
                    PrecheckOutcome::ParentInvalid
                } else {
                    PrecheckOutcome::Ready(self.handles[p])
                },
                None => if self.hwnd.spec_is_invalid() {
                    PrecheckOutcome::ParentInvalid
                } else {
                    PrecheckOutcome::Ready(self.hwnd)
                },
            }
        }
    }

    /// The commit phase: registers `h` for `id` unless `id` is already taken,
    /// in which case the state is kept and `h` must be destroyed.
    pub open spec fn commit(self, id: ControlId, h: NativeHandle, kind: ControlKind) -> (
        RegistryModel,
        Option<NativeHandle>,
    ) {
        if self.handles.contains_key(id) {
            (self, Some(h))
        } else {
            (
                RegistryModel {
                    handles: self.handles.insert(id, h),
                    kinds: self.kinds.insert(id, kind),
                    ..self
                },
                None,
            )
        }
    }

    /// The optional write between read phase and creation that records the kind early.
    pub open spec fn reserve_kind(self, id: ControlId, kind: ControlKind) -> Option<RegistryModel> {
        if self.handles.contains_key(id) {
            None
        } else {
            Some(RegistryModel { kinds: self.kinds.insert(id, kind), ..self })
        }
    }
}

/// Per-window registry: logical ids mapped to native handles, kinds, styles and
/// the window's layout rules.
pub struct NativeWindowData {
    logical_window_id: WindowId,
    this_window_hwnd: NativeHandle,
    control_hwnd_map: IdMap<NativeHandle>,
    control_kinds: IdMap<ControlKind>,
    applied_styles: IdMap<StyleId>,
    label_severities: IdMap<MessageSeverity>,
    menu_action_map: HashMap<i32, MenuActionId>,
    next_menu_item_id_counter: i32,
    layout_rules: Option<Vec<LayoutRule>>,
    suppress_erasebkgnd: bool,
    last_layout_rects: IdMap<Rect>,
    combo_dropdown_heal_attempted: IdMap<()>,
}

impl View for NativeWindowData {
    type V = RegistryModel;

    closed spec fn view(&self) -> RegistryModel {
        RegistryModel {
            window_id: self.logical_window_id,
            hwnd: self.this_window_hwnd,
            handles: self.control_hwnd_map@,
            kinds: self.control_kinds@,
            styles: self.applied_styles@,
            severities: self.label_severities@,
            menu_actions: self.menu_action_map@,
            next_menu_id: self.next_menu_item_id_counter as int,
            layout_rules: match self.layout_rules {
                Some(v) => Some(v@),
                None => None,
            },
            suppress_erase: self.suppress_erasebkgnd,
            last_rects: self.last_layout_rects@,
            heal_marks: self.combo_dropdown_heal_attempted@.dom(),
        }
    }
}

impl NativeWindowData {
    pub closed spec fn wf(&self) -> bool {
        &&& self.control_hwnd_map.wf()
        &&& self.control_kinds.wf()
        &&& self.applied_styles.wf()
        &&& self.label_severities.wf()
        &&& self.last_layout_rects.wf()
        &&& self.combo_dropdown_heal_attempted.wf()
        &&& forall|k: i32| #[trigger]
            self.menu_action_map@.contains_key(k) ==> FIRST_MENU_ITEM_ID <= k
                < self.next_menu_item_id_counter
        &&& FIRST_MENU_ITEM_ID <= self.next_menu_item_id_counter
        &&& match self.layout_rules {
            Some(v) => !has_fill_conflict(v@),
            None => true,
        }
    }

    pub fn new(logical_window_id: WindowId) -> (r: Self)
        ensures
            r.wf(),
            r@ == (RegistryModel {
                window_id: logical_window_id,
                hwnd: NativeHandle(0),
                handles: Map::empty(),
                kinds: Map::empty(),
                styles: Map::empty(),
                severities: Map::empty(),
                menu_actions: Map::empty(),
                next_menu_id: FIRST_MENU_ITEM_ID as int,
                layout_rules: None,
                suppress_erase: false,
                last_rects: Map::empty(),
                heal_marks: Set::empty(),
            }),
    {
        let r = NativeWindowData {
            logical_window_id,
            this_window_hwnd: NativeHandle(0),
            control_hwnd_map: IdMap::new(),
            control_kinds: IdMap::new(),
            applied_styles: IdMap::new(),
            label_severities: IdMap::new(),
            menu_action_map: HashMap::new(),
            next_menu_item_id_counter: FIRST_MENU_ITEM_ID,
            layout_rules: None,
            suppress_erasebkgnd: false,
            last_layout_rects: IdMap::new(),
            combo_dropdown_heal_attempted: IdMap::new(),
        };
        assert(r@.heal_marks =~= Set::empty());
        r
    }

    pub fn window_id(&self) -> (r: WindowId)
        ensures
            r == self@.window_id,
    {
        self.logical_window_id
    }

    pub fn get_hwnd(&self) -> (r: NativeHandle)
        ensures
            r == self@.hwnd,
    {
        self.this_window_hwnd
    }

    pub fn set_hwnd(&mut self, hwnd: NativeHandle)
        requires
            old(self).wf(),
        ensures
            final(self).wf(),
            final(self)@ == (RegistryModel { hwnd, ..old(self)@ }),
    {
        self.this_window_hwnd = hwnd;
    }

    pub fn get_control_hwnd(&self, control_id: ControlId) -> (r: Option<NativeHandle>)
        requires
            self.wf(),
        ensures
            r == (if self@.handles.contains_key(control_id) {
                Some(self@.handles[control_id])
            } else {
                None::<NativeHandle>
            }),
    {
        self.control_hwnd_map.get(control_id)
    }

    /// Records `hwnd` for `control_id`, replacing any earlier handle.
    pub fn register_control_hwnd(&mut self, control_id: ControlId, hwnd: NativeHandle)
        requires
            old(self).wf(),
        ensures
            final(self).wf(),
            final(self)@ == (RegistryModel {
                handles: old(self)@.handles.insert(control_id, hwnd),
                ..old(self)@
            }),
    {
        self.control_hwnd_map.insert(control_id, hwnd);
    }

    /// Ids of all controls that have a native handle.
    pub fn control_ids(&self) -> (r: Vec<ControlId>)
        requires
            self.wf(),
        ensures
            forall|id: ControlId| self@.handles.contains_key(id) <==> r@.contains(id),
    {
        self.control_hwnd_map.keys()
    }

    pub fn has_control(&self, control_id: ControlId) -> (r: bool)
        requires
            self.wf(),
        ensures
            r == self@.handles.contains_key(control_id),
    {
        self.control_hwnd_map.contains_key(control_id)
    }

    pub fn apply_style_to_control(&mut self, control_id: ControlId, style_id: StyleId)
        requires
            old(self).wf(),
        ensures
            final(self).wf(),
            final(self)@ == (RegistryModel {
                styles: old(self)@.styles.insert(control_id, style_id),
                ..old(self)@
            }),
    {
        self.applied_styles.insert(control_id, style_id);
    }

    pub fn get_style_for_control(&self, control_id: ControlId) -> (r: Option<StyleId>)
        requires
            self.wf(),
        ensures
            r == (if self@.styles.contains_key(control_id) {
                Some(self@.styles[control_id])
            } else {
                None::<StyleId>
            }),
    {
        self.applied_styles.get(control_id)
    }

    pub fn register_control_kind(&mut self, control_id: ControlId, kind: ControlKind)
        requires
            old(self).wf(),
        ensures
            final(self).wf(),
            final(self)@ == (RegistryModel {
                kinds: old(self)@.kinds.insert(control_id, kind),
                ..old(self)@
            }),
    {
        self.control_kinds.insert(control_id, kind);
    }

    pub fn unregister_control_kind(&mut self, control_id: ControlId)
        requires
            old(self).wf(),
        ensures
            final(self).wf(),
            final(self)@ == (RegistryModel {
                kinds: old(self)@.kinds.remove(control_id),
                ..old(self)@
            }),
    {
        self.control_kinds.remove(control_id);
    }

    pub fn get_control_kind(&self, control_id: ControlId) -> (r: Option<ControlKind>)
        requires
            self.wf(),
        ensures
            r == (if self@.kinds.contains_key(control_id) {
                Some(self@.kinds[control_id])
            } else {
                None::<ControlKind>
            }),
    {
        self.control_kinds.get(control_id)
    }

    /// Height to give the native window of a control laid out `base_height`
    /// high: a combo box gets room for its dropdown (scaled to `dpi` when it has a
    /// native handle); other controls keep `base_height`.
    pub fn effective_native_height_for_control(&self, control_id: ControlId, base_height: i32, dpi: i32) -> (r: i32)
        requires
            self.wf(),
        ensures
            r == effective_height_spec(self@, control_id, base_height, dpi),
    {
        match self.get_control_kind(control_id) {
            Some(ControlKind::ComboBox) => {
                if self.has_control(control_id) {
                    min_dropdown_height_px(base_height, dpi)
                } else if base_height >= FALLBACK_DROPDOWN_HEIGHT_PX {
                    base_height
                } else {
                    FALLBACK_DROPDOWN_HEIGHT_PX
                }
            },
            _ => base_height,
        }
    }

    /// Records that the dropdown geometry of `control_id` is being healed;
    /// true when it was not already recorded.
    pub fn mark_dropdown_heal_attempted(&mut self, control_id: ControlId) -> (r: bool)
        requires
            old(self).wf(),
        ensures
            final(self).wf(),
            r == !old(self)@.heal_marks.contains(control_id),
            final(self)@ == (RegistryModel {
                heal_marks: old(self)@.heal_marks.insert(control_id),
                ..old(self)@
            }),
    {
        let fresh = !self.combo_dropdown_heal_attempted.contains_key(control_id);
        self.combo_dropdown_heal_attempted.insert(control_id, ());
        assert(self@.heal_marks =~= old(self)@.heal_marks.insert(control_id));
        fresh
    }

    pub fn clear_dropdown_heal_attempted(&mut self, control_id: ControlId)
        requires
            old(self).wf(),
        ensures
            final(self).wf(),
            final(self)@ == (RegistryModel {
                heal_marks: old(self)@.heal_marks.remove(control_id),
                ..old(self)@
            }),
    {
        self.combo_dropdown_heal_attempted.remove(control_id);
        assert(self@.heal_marks =~= old(self)@.heal_marks.remove(control_id));
    }

    /// Reverse lookup of the control registered with `hwnd` (linear scan).
    pub fn find_control_id_by_hwnd(&self, hwnd: NativeHandle) -> (r: Option<ControlId>)
        requires
            self.wf(),
        ensures
            match r {
                Some(id) => self@.handles.contains_key(id) && self@.handles[id] == hwnd,
                None => forall|id: ControlId| #[trigger]
                    self@.handles.contains_key(id) ==> self@.handles[id] != hwnd,
            },
    {
        self.control_hwnd_map.find_key_by_value(hwnd)
    }

    pub fn set_suppress_erasebkgnd(&mut self, suppress: bool)
        requires
            old(self).wf(),
        ensures
            final(self).wf(),
            final(self)@ == (RegistryModel { suppress_erase: suppress, ..old(self)@ }),
    {
        self.suppress_erasebkgnd = suppress;
    }

    pub fn suppresses_erasebkgnd(&self) -> (r: bool)
        ensures
            r == self@.suppress_erase,
    {
        self.suppress_erasebkgnd
    }

    /// Maps a freshly generated menu item id to `action_id` and returns that id.
    pub fn register_menu_action(&mut self, action_id: MenuActionId) -> (r: i32)
        requires
            old(self).wf(),
            old(self)@.next_menu_id < i32::MAX,
        ensures
            final(self).wf(),
            r == old(self)@.next_menu_id,
            !old(self)@.menu_actions.contains_key(r),
            final(self)@ == (RegistryModel {
                menu_actions: old(self)@.menu_actions.insert(r, action_id),
                next_menu_id: old(self)@.next_menu_id + 1,
                ..old(self)@
            }),
    {
        let id = self.next_menu_item_id_counter;
        self.next_menu_item_id_counter = id + 1;
        self.menu_action_map.insert(id, action_id);
        id
    }

    pub fn get_menu_action(&self, menu_id: i32) -> (r: Option<MenuActionId>)
        ensures
            r == (if self@.menu_actions.contains_key(menu_id) {
                Some(self@.menu_actions[menu_id])
            } else {
                None::<MenuActionId>
            }),
    {
        match self.menu_action_map.get(&menu_id) {
            Some(a) => Some(*a),
            None => None,
        }
    }

    pub fn menu_action_count(&self) -> (r: usize)
        ensures
            r == self@.menu_actions.len(),
    {
        self.menu_action_map.len()
    }

    pub fn get_next_menu_item_id_counter(&self) -> (r: i32)
        ensures
            r == self@.next_menu_id,
    {
        self.next_menu_item_id_counter
    }

    /// Stores `rules` in place of any earlier set, after checking that no parent
    /// has two `Fill` rules; a rejected set leaves the registry unchanged.
    pub fn define_layout(&mut self, rules: Vec<LayoutRule>) -> (r: Result<(), PlatformError>)
        requires
            old(self).wf(),
        ensures
            final(self).wf(),
            r is Ok <==> !has_fill_conflict(rules@),
            r is Ok ==> final(self)@ == (RegistryModel {
                layout_rules: Some(rules@),
                ..old(self)@
            }),
            r is Err ==> r->Err_0 is OperationFailed && final(self)@ == old(self)@,
    {
        match validate_layout_rules(&rules) {
            Ok(()) => {
                self.layout_rules = Some(rules);
                Ok(())
            },
            Err(e) => Err(e),
        }
    }

    pub fn layout_rules(&self) -> (r: Option<&Vec<LayoutRule>>)
        ensures
            match r {
                Some(v) => self@.layout_rules == Some(v@),
                None => self@.layout_rules is None,
            },
    {
        match &self.layout_rules {
            Some(v) => Some(v),
            None => None,
        }
    }

    pub fn set_label_severity(&mut self, label_id: ControlId, severity: MessageSeverity)
        requires
            old(self).wf(),
        ensures
            final(self).wf(),
            final(self)@ == (RegistryModel {
                severities: old(self)@.severities.insert(label_id, severity),
                ..old(self)@
            }),
    {
        self.label_severities.insert(label_id, severity);
    }

    pub fn get_label_severity(&self, label_id: ControlId) -> (r: Option<MessageSeverity>)
        requires
            self.wf(),
        ensures
            r == (if self@.severities.contains_key(label_id) {
                Some(self@.severities[label_id])
            } else {
                None::<MessageSeverity>
            }),
    {
        self.label_severities.get(label_id)
    }

    pub fn get_last_layout_rect(&self, control_id: ControlId) -> (r: Option<Rect>)
        requires
            self.wf(),
        ensures
            r == (if self@.last_rects.contains_key(control_id) {
                Some(self@.last_rects[control_id])
            } else {
                None::<Rect>
            }),
    {
        self.last_layout_rects.get(control_id)
    }

    /// Remembers the rectangle last applied to `control_id`.
    pub fn record_layout_rect(&mut self, control_id: ControlId, rect: Rect)
        requires
            old(self).wf(),
        ensures
            final(self).wf(),
            final(self)@ == (RegistryModel {
                last_rects: old(self)@.last_rects.insert(control_id, rect),
                ..old(self)@
            }),
    {
        self.last_layout_rects.insert(control_id, rect);
    }
}

// ---------------------------------------------------------------------------
// Command execution protocol: the decisions of each phase
// ---------------------------------------------------------------------------

impl NativeWindowData {
    /// Read phase of a create command: rejects an id that is already registered
    /// (`OperationFailed`) and a parent that is unknown or has an invalid handle
    /// (`InvalidHandle`); otherwise yields the native parent to create under.
    pub fn creation_precheck(&self, control_id: ControlId, parent_control_id: Option<ControlId>) -> (r: Result<NativeHandle, PlatformError>)
        requires
            self.wf(),
        ensures
            match self@.precheck(control_id, parent_control_id) {
                PrecheckOutcome::AlreadyExists => r is Err && r->Err_0 is OperationFailed,
                PrecheckOutcome::ParentMissing => r is Err && r->Err_0 is InvalidHandle,
                PrecheckOutcome::ParentInvalid => r is Err && r->Err_0 is InvalidHandle,
                PrecheckOutcome::Ready(h) => r == Ok::<NativeHandle, PlatformError>(h),
            },
    {
        if self.has_control(control_id) {
            return Err(PlatformError::OperationFailed("a control with this logical id already exists".to_string()));
        }
        let parent = match parent_control_id {
            Some(p) => match self.get_control_hwnd(p) {
                Some(h) => h,
                None => {
                    return Err(PlatformError::InvalidHandle("parent control not found".to_string()));
                },
            },
            None => self.this_window_hwnd,
        };
        if parent.is_invalid() {
            return Err(PlatformError::InvalidHandle("parent handle is invalid".to_string()));
        }
        Ok(parent)
    }

    /// Optional write before creation: records the kind so that notifications
    /// sent while the native control is being built can be routed.
    pub fn reserve_control_kind(&mut self, control_id: ControlId, kind: ControlKind) -> (r: Result<(), PlatformError>)
        requires
            old(self).wf(),
        ensures
            final(self).wf(),
            match old(self)@.reserve_kind(control_id, kind) {
                Some(m) => r is Ok && final(self)@ == m,
                None => r is Err && r->Err_0 is OperationFailed && final(self)@ == old(self)@,
            },
    {
        if self.has_control(control_id) {
            return Err(PlatformError::OperationFailed("a control with this logical id already exists".to_string()));
        }
        self.register_control_kind(control_id, kind);
        Ok(())
    }

    /// Commit phase of a create command. When another creator registered the
    /// same id in the meantime, the registry is left as it is and the error
    /// carries the freshly created handle, which the caller must destroy.
    pub fn commit_control(&mut self, control_id: ControlId, hwnd: NativeHandle, kind: ControlKind) -> (r: Result<(), (NativeHandle, PlatformError)>)
        requires
            old(self).wf(),
        ensures
            final(self).wf(),
            old(self)@.commit(control_id, hwnd, kind) == (
                final(self)@,
                match r {
                    Ok(_) => None::<NativeHandle>,
                    Err(e) => Some(e.0),
                },
            ),
            r is Err ==> r->Err_0.1 is OperationFailed,
    {
        if self.has_control(control_id) {
            return Err((hwnd, PlatformError::OperationFailed("control was created concurrently".to_string())));
        }
        self.control_hwnd_map.insert(control_id, hwnd);
        self.control_kinds.insert(control_id, kind);
        Ok(())
    }

    /// Resolution step of a mutate command: the control's native handle, or
    /// `InvalidHandle` when the id is not registered.
    pub fn resolve_control_handle(&self, control_id: ControlId) -> (r: Result<NativeHandle, PlatformError>)
        requires
            self.wf(),
        ensures
            self@.handles.contains_key(control_id) ==> r == Ok::<NativeHandle, PlatformError>(self@.handles[control_id]),
            !self@.handles.contains_key(control_id) ==> r is Err && r->Err_0 is InvalidHandle,
    {
        match self.get_control_hwnd(control_id) {
            Some(h) => Ok(h),
            None => Err(PlatformError::InvalidHandle("control not found".to_string())),
        }
    }

    /// Like `resolve_control_handle`, and also demands that the control is of
    /// `kind` (`OperationFailed` otherwise).
    pub fn resolve_control_of_kind(&self, control_id: ControlId, kind: ControlKind) -> (r: Result<NativeHandle, PlatformError>)
        requires
            self.wf(),
        ensures
            !self@.handles.contains_key(control_id) ==> r is Err && r->Err_0 is InvalidHandle,
            self@.handles.contains_key(control_id) && self@.kinds.contains_key(control_id) && self@.kinds[control_id] == kind
                ==> r == Ok::<NativeHandle, PlatformError>(self@.handles[control_id]),
            self@.handles.contains_key(control_id) && !(self@.kinds.contains_key(control_id) && self@.kinds[control_id] == kind)
                ==> r is Err && r->Err_0 is OperationFailed,
    {
        let h = match self.get_control_hwnd(control_id) {
            Some(h) => h,
            None => {
                return Err(PlatformError::InvalidHandle("control not found".to_string()));
            },
        };
        match self.get_control_kind(control_id) {
            Some(k) => if k == kind {
                Ok(h)
            } else {
                Err(PlatformError::OperationFailed("control is of another kind".to_string()))
            },
            None => Err(PlatformError::OperationFailed("control is of another kind".to_string())),
        }
    }

    /// The window's own handle, or `InvalidHandle` while it is not valid.
    pub fn resolve_window_handle(&self) -> (r: Result<NativeHandle, PlatformError>)
        ensures
            self@.hwnd.spec_is_invalid() ==> r is Err && r->Err_0 is InvalidHandle,
            !self@.hwnd.spec_is_invalid() ==> r == Ok::<NativeHandle, PlatformError>(self@.hwnd),
    {
        if self.this_window_hwnd.is_invalid() {
            Err(PlatformError::InvalidHandle("window handle is invalid".to_string()))
        } else {
            Ok(self.this_window_hwnd)
        }
    }
}

} // verus!
