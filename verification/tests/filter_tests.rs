use can_core::filter::{
    check_filter_accepts, check_filter_set_accepts, make_accept_all, normalize_filters,
    DeviceFilter, FilterRule,
};

#[test]
fn empty_rule_list_becomes_accept_all() {
    // Never "no filtering" or "accept nothing": the explicit (0, 0) pair.
    let device = normalize_filters(&vec![]);
    assert_eq!(device, vec![DeviceFilter { id: 0, mask: 0 }]);
    assert_eq!(make_accept_all(), DeviceFilter { id: 0, mask: 0 });
}

#[test]
fn rules_translate_one_for_one() {
    let rules = vec![
        FilterRule { id: 0x100, mask: 0x7FF, extended: false },
        FilterRule { id: 0x200, mask: 0x7FF, extended: true },
        FilterRule { id: 0x300, mask: 0x7F0, extended: false },
    ];
    let device = normalize_filters(&rules);
    // The extended marker is accepted in the call but does not reach the
    // device filter, which carries only identifier and mask.
    assert_eq!(
        device,
        vec![
            DeviceFilter { id: 0x100, mask: 0x7FF },
            DeviceFilter { id: 0x200, mask: 0x7FF },
            DeviceFilter { id: 0x300, mask: 0x7F0 },
        ]
    );
}

#[test]
fn exact_filter_accepts_only_its_id() {
    let f = DeviceFilter { id: 0x150, mask: 0x7FF };
    assert!(check_filter_accepts(&f, 0x150));
    assert!(!check_filter_accepts(&f, 0x151));
}

#[test]
fn masked_filter_accepts_a_range() {
    let f = DeviceFilter { id: 0x300, mask: 0x7F0 };
    assert!(check_filter_accepts(&f, 0x300));
    assert!(check_filter_accepts(&f, 0x305));
    assert!(check_filter_accepts(&f, 0x30F));
    assert!(!check_filter_accepts(&f, 0x310));
}

#[test]
fn accept_all_accepts_every_id() {
    let all = vec![make_accept_all()];
    assert!(check_filter_set_accepts(&all, 0));
    assert!(check_filter_set_accepts(&all, 0x7FF));
    assert!(check_filter_set_accepts(&all, 0x1FFFFFFF));
    assert!(check_filter_set_accepts(&all, u32::MAX));
}

#[test]
fn filter_set_accepts_through_any_member() {
    let set = vec![
        DeviceFilter { id: 0x100, mask: 0x7FF },
        DeviceFilter { id: 0x200, mask: 0x7FF },
    ];
    assert!(check_filter_set_accepts(&set, 0x100));
    assert!(check_filter_set_accepts(&set, 0x200));
    assert!(!check_filter_set_accepts(&set, 0x150));
    assert!(!check_filter_set_accepts(&vec![], 0x100));
}
