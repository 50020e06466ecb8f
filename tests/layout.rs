use commanductui::layout::{calculate_layout, validate_layout_rules};
use commanductui::layout_tree::{layout_plan, native_move, record_applied, repaint_for, stale_area, Repaint};
use commanductui::registry::NativeWindowData;
use commanductui::types::{ControlId, ControlKind, DockStyle, LayoutRule, NativeHandle, Rect, StyleId, WindowId};

fn rule(
    id: i32,
    parent: Option<i32>,
    dock_style: DockStyle,
    order: i32,
    fixed_size: Option<i32>,
) -> LayoutRule {
    LayoutRule {
        control_id: ControlId::new(id),
        parent_control_id: parent.map(ControlId::new),
        dock_style,
        order,
        fixed_size,
        margin: (0, 0, 0, 0),
    }
}

#[test]
fn test_calculate_layout_top_and_fill() {
    let rules = vec![
        LayoutRule {
            control_id: ControlId::new(1),
            parent_control_id: None,
            dock_style: DockStyle::Top,
            order: 0,
            fixed_size: Some(20),
            margin: (0, 0, 0, 0),
        },
        LayoutRule {
            control_id: ControlId::new(2),
            parent_control_id: None,
            dock_style: DockStyle::Fill,
            order: 1,
            fixed_size: None,
            margin: (0, 0, 0, 0),
        },
    ];
    let parent_rect = Rect { left: 0, top: 0, right: 100, bottom: 100 };
    let map = calculate_layout(parent_rect, &rules);
    assert_eq!(map.get(ControlId::new(1)).unwrap().bottom, 20);
    assert_eq!(map.get(ControlId::new(2)).unwrap().top, 20);
    assert_eq!(map.get(ControlId::new(2)).unwrap().bottom, 100);
}

#[test]
fn end_to_end_top_and_fill_rectangles() {
    let rules = vec![
        rule(1, None, DockStyle::Top, 0, Some(20)),
        rule(2, None, DockStyle::Fill, 1, None),
    ];
    let map = calculate_layout(Rect { left: 0, top: 0, right: 100, bottom: 100 }, &rules);
    assert_eq!(map.get(ControlId::new(1)), Some(Rect { left: 0, top: 0, right: 100, bottom: 20 }));
    assert_eq!(map.get(ControlId::new(2)), Some(Rect { left: 0, top: 20, right: 100, bottom: 100 }));
    assert_eq!(map.len(), 2);
}

#[test]
fn top_and_fill_hold_for_any_strip_size_and_listing_order() {
    for size in [0, 1, 17, 60] {
        let top = rule(5, Some(9), DockStyle::Top, 3, Some(size));
        let fill = rule(6, Some(9), DockStyle::Fill, 1, None);
        let parent = Rect { left: -30, top: 40, right: 70, bottom: 100 };
        for rules in [vec![top, fill], vec![fill, top]] {
            let map = calculate_layout(parent, &rules);
            let t = map.get(ControlId::new(5)).unwrap();
            let f = map.get(ControlId::new(6)).unwrap();
            assert_eq!(t.bottom - t.top, size);
            assert_eq!(t.top, 40);
            assert_eq!(f.top, 40 + size);
            assert_eq!(f.bottom, 100);
        }
    }
}

#[test]
fn bottom_left_right_strips_and_margins() {
    let mut rules = vec![
        rule(1, None, DockStyle::Bottom, 0, Some(10)),
        rule(2, None, DockStyle::Left, 1, Some(15)),
        rule(3, None, DockStyle::Right, 2, Some(5)),
        rule(4, None, DockStyle::Fill, 3, None),
    ];
    rules[3].margin = (1, 2, 3, 4);
    let map = calculate_layout(Rect { left: 0, top: 0, right: 100, bottom: 50 }, &rules);
    assert_eq!(map.get(ControlId::new(1)), Some(Rect { left: 0, top: 40, right: 100, bottom: 50 }));
    assert_eq!(map.get(ControlId::new(2)), Some(Rect { left: 0, top: 0, right: 15, bottom: 40 }));
    assert_eq!(map.get(ControlId::new(3)), Some(Rect { left: 95, top: 0, right: 100, bottom: 40 }));
    assert_eq!(map.get(ControlId::new(4)), Some(Rect { left: 19, top: 1, right: 93, bottom: 37 }));
}

#[test]
fn oversized_strip_takes_the_whole_area_and_empty_parent_clamps() {
    let rules = vec![
        rule(1, None, DockStyle::Top, 0, Some(500)),
        rule(2, None, DockStyle::Fill, 1, None),
    ];
    let map = calculate_layout(Rect { left: 0, top: 0, right: 100, bottom: 100 }, &rules);
    assert_eq!(map.get(ControlId::new(1)), Some(Rect { left: 0, top: 0, right: 100, bottom: 100 }));
    assert_eq!(map.get(ControlId::new(2)), Some(Rect { left: 0, top: 100, right: 100, bottom: 100 }));

    let inverted = calculate_layout(Rect { left: 50, top: 50, right: 10, bottom: 10 }, &rules);
    assert_eq!(inverted.get(ControlId::new(2)), Some(Rect { left: 50, top: 50, right: 50, bottom: 50 }));
}

#[test]
fn no_dock_rules_get_no_rectangle_and_ties_keep_input_order() {
    let rules = vec![
        rule(1, None, DockStyle::NoDock, 0, Some(10)),
        rule(2, None, DockStyle::Top, 5, Some(10)),
        rule(3, None, DockStyle::Top, 5, Some(20)),
    ];
    let map = calculate_layout(Rect { left: 0, top: 0, right: 10, bottom: 100 }, &rules);
    assert_eq!(map.get(ControlId::new(1)), None);
    assert_eq!(map.get(ControlId::new(2)).unwrap().top, 0);
    assert_eq!(map.get(ControlId::new(3)).unwrap().top, 10);
}

#[test]
fn first_fill_by_order_wins_when_given_two() {
    let rules = vec![
        rule(1, None, DockStyle::Fill, 2, None),
        rule(2, None, DockStyle::Fill, 1, None),
    ];
    let map = calculate_layout(Rect { left: 0, top: 0, right: 10, bottom: 10 }, &rules);
    assert_eq!(map.get(ControlId::new(2)), Some(Rect { left: 0, top: 0, right: 10, bottom: 10 }));
    assert_eq!(map.get(ControlId::new(1)), None);
}

#[test]
fn define_layout_validation_rejects_multiple_fill_siblings() {
    let rules = vec![
        LayoutRule {
            control_id: ControlId::new(10),
            parent_control_id: Some(ControlId::new(1)),
            dock_style: DockStyle::Fill,
            order: 0,
            fixed_size: None,
            margin: (0, 0, 0, 0),
        },
        LayoutRule {
            control_id: ControlId::new(11),
            parent_control_id: Some(ControlId::new(1)),
            dock_style: DockStyle::Fill,
            order: 1,
            fixed_size: None,
            margin: (0, 0, 0, 0),
        },
    ];

    let err = validate_layout_rules(&rules).expect_err("multiple Fill siblings should be rejected");
    let message = err.message();
    assert!(message.contains("multiple DockStyle::Fill children"));
    assert!(message.contains("10"));
    assert!(message.contains("11"));
}

#[test]
fn define_layout_validation_allows_one_fill_per_parent() {
    let rules = vec![
        LayoutRule {
            control_id: ControlId::new(20),
            parent_control_id: Some(ControlId::new(1)),
            dock_style: DockStyle::Fill,
            order: 0,
            fixed_size: None,
            margin: (0, 0, 0, 0),
        },
        LayoutRule {
            control_id: ControlId::new(21),
            parent_control_id: Some(ControlId::new(2)),
            dock_style: DockStyle::Fill,
            order: 0,
            fixed_size: None,
            margin: (0, 0, 0, 0),
        },
        LayoutRule {
            control_id: ControlId::new(22),
            parent_control_id: Some(ControlId::new(1)),
            dock_style: DockStyle::Top,
            order: 1,
            fixed_size: Some(10),
            margin: (0, 0, 0, 0),
        },
    ];

    validate_layout_rules(&rules).expect("one Fill child per parent should be valid");
}

#[test]
fn fill_conflict_message_names_parent_and_children() {
    let rules = vec![
        rule(3, None, DockStyle::Fill, 0, None),
        rule(4, Some(3), DockStyle::Fill, 0, None),
        rule(-5, None, DockStyle::Fill, 1, None),
    ];
    let err = validate_layout_rules(&rules).unwrap_err();
    assert_eq!(
        err.message(),
        "DefineLayout rejected: parent main window has multiple DockStyle::Fill children (3, -5). Exactly one Fill child per parent is supported."
    );
}

#[test]
fn define_layout_rejects_without_changing_stored_rules() {
    let mut data = NativeWindowData::new(WindowId::new(1));
    let good = vec![rule(1, None, DockStyle::Fill, 0, None)];
    data.define_layout(good.clone()).unwrap();
    let bad = vec![rule(2, None, DockStyle::Fill, 0, None), rule(3, None, DockStyle::Fill, 1, None)];
    assert!(matches!(
        data.define_layout(bad),
        Err(commanductui::types::PlatformError::OperationFailed(_))
    ));
    assert_eq!(data.layout_rules().unwrap(), &good);
}

#[test]
fn test_calculate_layout_proportional_fill() {
    let rules = vec![
        LayoutRule {
            control_id: ControlId::new(1),
            parent_control_id: None,
            dock_style: DockStyle::ProportionalFill { weight: 1 },
            order: 0,
            fixed_size: None,
            margin: (0, 0, 0, 0),
        },
        LayoutRule {
            control_id: ControlId::new(2),
            parent_control_id: None,
            dock_style: DockStyle::ProportionalFill { weight: 2 },
            order: 1,
            fixed_size: None,
            margin: (0, 0, 0, 0),
        },
    ];
    let parent_rect = Rect { left: 0, top: 0, right: 100, bottom: 20 };
    let map = calculate_layout(parent_rect, &rules);
    let rect1 = map.get(ControlId::new(1)).unwrap();
    let rect2 = map.get(ControlId::new(2)).unwrap();
    assert_eq!(rect1.right - rect1.left, 33);
    assert_eq!(rect2.left, 33);
    assert_eq!(rect2.right - rect2.left, 66);
}

#[test]
fn proportional_widths_sum_within_rounding_and_grow_with_weight() {
    let weights = [3u32, 5, 7];
    let make = |ws: &[u32]| -> Vec<LayoutRule> {
        ws.iter()
            .enumerate()
            .map(|(i, w)| rule(i as i32 + 1, None, DockStyle::ProportionalFill { weight: *w }, i as i32, None))
            .collect()
    };
    let area = Rect { left: 10, top: 0, right: 111, bottom: 30 };
    let map = calculate_layout(area, &make(&weights));
    let widths: Vec<i32> = (1..=3).map(|i| {
        let r = map.get(ControlId::new(i)).unwrap();
        r.right - r.left
    }).collect();
    let sum: i32 = widths.iter().sum();
    assert!(sum <= 101 && sum >= 101 - 2);
    assert_eq!(widths, vec![20, 33, 47]);

    let heavier = calculate_layout(area, &make(&[3, 9, 7]));
    let r = heavier.get(ControlId::new(2)).unwrap();
    assert!(r.right - r.left >= widths[1]);
}

#[test]
fn zero_total_weight_places_nothing() {
    let rules = vec![rule(1, None, DockStyle::ProportionalFill { weight: 0 }, 0, None)];
    let map = calculate_layout(Rect { left: 0, top: 0, right: 100, bottom: 20 }, &rules);
    assert_eq!(map.get(ControlId::new(1)), None);
}

#[test]
fn test_calculate_layout_nested_panels() {
    let outer_rule = LayoutRule {
        control_id: ControlId::new(1),
        parent_control_id: None,
        dock_style: DockStyle::Fill,
        order: 0,
        fixed_size: None,
        margin: (0, 0, 0, 0),
    };
    let inner_rules = vec![
        LayoutRule {
            control_id: ControlId::new(2),
            parent_control_id: Some(ControlId::new(1)),
            dock_style: DockStyle::Top,
            order: 0,
            fixed_size: Some(10),
            margin: (0, 0, 0, 0),
        },
        LayoutRule {
            control_id: ControlId::new(3),
            parent_control_id: Some(ControlId::new(1)),
            dock_style: DockStyle::Fill,
            order: 1,
            fixed_size: None,
            margin: (0, 0, 0, 0),
        },
    ];
    let parent_rect = Rect { left: 0, top: 0, right: 50, bottom: 50 };
    let outer_map = calculate_layout(parent_rect, &vec![outer_rule]);
    let outer_rect = outer_map.get(ControlId::new(1)).unwrap();
    let inner_map = calculate_layout(
        Rect {
            left: 0,
            top: 0,
            right: outer_rect.right - outer_rect.left,
            bottom: outer_rect.bottom - outer_rect.top,
        },
        &inner_rules,
    );
    assert_eq!(outer_rect.right - outer_rect.left, 50);
    assert_eq!(inner_map.get(ControlId::new(2)).unwrap().bottom, 10);
    assert_eq!(inner_map.get(ControlId::new(3)).unwrap().top, 10);
}

#[test]
fn nested_plan_is_independent_of_outer_position() {
    let rules = vec![
        rule(1, None, DockStyle::Fill, 0, None),
        rule(2, Some(1), DockStyle::Top, 0, Some(10)),
        rule(3, Some(1), DockStyle::Fill, 1, None),
    ];
    for client in [
        Rect { left: 0, top: 0, right: 80, bottom: 50 },
        Rect { left: 300, top: 700, right: 380, bottom: 750 },
    ] {
        let plan = layout_plan(&rules, client);
        assert_eq!(plan.len(), 3);
        assert_eq!(plan[0].control_id, ControlId::new(1));
        assert_eq!(plan[0].rect, client);
        assert_eq!(plan[1].parent, Some(ControlId::new(1)));
        assert_eq!(plan[1].rect, Rect { left: 0, top: 0, right: 80, bottom: 10 });
        assert_eq!(plan[2].rect, Rect { left: 0, top: 10, right: 80, bottom: 50 });
    }
}

#[test]
fn plan_stops_at_parent_cycles() {
    let rules = vec![
        rule(1, None, DockStyle::Fill, 0, None),
        rule(2, Some(1), DockStyle::Fill, 0, None),
        rule(1, Some(2), DockStyle::Fill, 0, None),
    ];
    let plan = layout_plan(&rules, Rect { left: 0, top: 0, right: 10, bottom: 10 });
    assert_eq!(plan.len(), 3);
}

#[test]
fn applying_a_plan_moves_registered_controls_and_remembers_rects() {
    let rules = vec![
        rule(1, None, DockStyle::Fill, 0, None),
        rule(2, Some(1), DockStyle::Top, 0, Some(10)),
        rule(3, Some(1), DockStyle::Fill, 1, None),
    ];
    let mut data = NativeWindowData::new(WindowId::new(1));
    data.commit_control(ControlId::new(1), NativeHandle(0x11), ControlKind::Static).unwrap();
    data.commit_control(ControlId::new(2), NativeHandle(0x22), ControlKind::ComboBox).unwrap();
    data.commit_control(ControlId::new(3), NativeHandle(0x33), ControlKind::TreeView).unwrap();
    let plan = layout_plan(&rules, Rect { left: 0, top: 0, right: 80, bottom: 50 });
    let combo = native_move(&data, &plan[1], 96).unwrap();
    assert_eq!((combo.left, combo.top, combo.width, combo.height), (0, 0, 80, 260));
    let tree = native_move(&data, &plan[2], 96).unwrap();
    assert_eq!((tree.top, tree.width, tree.height), (10, 80, 40));
    assert_eq!(repaint_for(&data, &rules, ControlId::new(1)), Repaint::Container);
    assert_eq!(repaint_for(&data, &rules, ControlId::new(3)), Repaint::Leaf { erase: true, reframe: true });
    assert_eq!(repaint_for(&data, &rules, ControlId::new(2)), Repaint::Leaf { erase: false, reframe: false });

    assert_eq!(stale_area(&data, &plan[2]), None);
    record_applied(&mut data, &plan);
    assert_eq!(stale_area(&data, &plan[2]), None);
    let smaller = layout_plan(&rules, Rect { left: 0, top: 0, right: 60, bottom: 50 });
    assert_eq!(stale_area(&data, &smaller[2]), Some(Rect { left: 0, top: 10, right: 80, bottom: 50 }));

    let mut header = NativeWindowData::new(WindowId::new(2));
    header.commit_control(ControlId::new(2), NativeHandle(0x22), ControlKind::Static).unwrap();
    header.apply_style_to_control(ControlId::new(2), StyleId::HeaderLabel);
    assert_eq!(repaint_for(&header, &rules, ControlId::new(2)), Repaint::Leaf { erase: true, reframe: false });
    header.set_suppress_erasebkgnd(true);
    assert_eq!(repaint_for(&header, &rules, ControlId::new(2)), Repaint::Leaf { erase: false, reframe: false });
    assert_eq!(native_move(&NativeWindowData::new(WindowId::new(3)), &plan[0], 96), None);
}
