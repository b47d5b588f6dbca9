use rsu::light::detail::{detail_path, report_url};
use rsu::light::{
    get_duration, init_lgt_status, init_light_duration, inverse_color, rule_change, Intersection,
    Light, LightColor, LightDuration, LightStatus,
};

fn durations() -> LightDuration {
    LightDuration { green: 7, red: 10, yellow: 3, unknown: -1 }
}

fn ids(names: &[&str]) -> Vec<String> {
    names.iter().map(|n| n.to_string()).collect()
}

/// master group1 on RED, lights A and B; group2 with light C.
fn crossing() -> Intersection {
    let mut state = Intersection::new(durations());
    state.add_group("group1".to_string(), ids(&["A", "B"]), true, LightColor::RED);
    state.add_group("group2".to_string(), ids(&["C"]), false, LightColor::RED);
    state
}

fn status(color: LightColor, counter: i64) -> LightStatus {
    LightStatus { color, counter }
}

#[test]
fn colour_codes() {
    assert_eq!(LightColor::UNKNOWN.code(), 0);
    assert_eq!(LightColor::RED.code(), 1);
    assert_eq!(LightColor::GREEN.code(), 2);
    assert_eq!(LightColor::YELLOW.code(), 3);
    assert_eq!(LightColor::from_code(0), LightColor::UNKNOWN);
    assert_eq!(LightColor::from_code(1), LightColor::RED);
    assert_eq!(LightColor::from_code(2), LightColor::GREEN);
    assert_eq!(LightColor::from_code(3), LightColor::YELLOW);
    assert_eq!(LightColor::from_code(4), LightColor::UNKNOWN);
    assert_eq!(LightColor::from_code(-1), LightColor::UNKNOWN);
}

#[test]
fn duration_of_each_colour() {
    let d = durations();
    assert_eq!(get_duration(&d, &LightColor::GREEN), 7);
    assert_eq!(get_duration(&d, &LightColor::RED), 10);
    assert_eq!(get_duration(&d, &LightColor::YELLOW), 3);
    assert_eq!(get_duration(&d, &LightColor::UNKNOWN), -1);
}

#[test]
fn tick_counts_down_and_changes_colour_at_zero() {
    let d = durations();
    let mut s = status(LightColor::GREEN, 2);
    assert!(!s.tick(&d));
    assert_eq!(s, status(LightColor::GREEN, 1));
    assert!(s.tick(&d));
    assert_eq!(s, status(LightColor::YELLOW, 3));
}

#[test]
fn tick_follows_the_cycle() {
    let d = durations();
    let mut s = status(LightColor::YELLOW, 1);
    assert!(s.tick(&d));
    assert_eq!(s, status(LightColor::RED, 10));
    let mut s = status(LightColor::RED, 1);
    assert!(s.tick(&d));
    assert_eq!(s, status(LightColor::GREEN, 7));
    let mut s = status(LightColor::GREEN, 1);
    assert!(s.tick(&d));
    assert_eq!(s, status(LightColor::YELLOW, 3));
}

#[test]
fn unknown_never_changes_colour() {
    let d = durations();
    let mut s = status(LightColor::UNKNOWN, 2);
    assert!(!s.tick(&d));
    assert_eq!(s, status(LightColor::UNKNOWN, 1));
    assert!(s.tick(&d));
    assert_eq!(s, status(LightColor::UNKNOWN, 0));
}

#[test]
fn tick_on_unknown_at_zero_changes_nothing() {
    let d = durations();
    let mut s = status(LightColor::UNKNOWN, 0);
    for _ in 0..3 {
        assert!(!s.tick(&d));
        assert_eq!(s, status(LightColor::UNKNOWN, 0));
    }
    let mut state = Intersection::new(d);
    state.add_group("g".to_string(), ids(&["L"]), true, LightColor::UNKNOWN);
    init_lgt_status(&mut state, "L", LightColor::UNKNOWN, 0);
    state.tick();
    assert_eq!(state.groups[0].status, status(LightColor::UNKNOWN, 0));
}

#[test]
fn unknown_below_zero_keeps_counting_down() {
    let d = durations();
    let mut s = status(LightColor::UNKNOWN, -1);
    assert!(!s.tick(&d));
    assert_eq!(s, status(LightColor::UNKNOWN, -2));
    assert!(!s.tick(&d));
    assert_eq!(s, status(LightColor::UNKNOWN, -3));
}

#[test]
fn colour_of_the_cycle_at_zero_is_not_held() {
    let d = durations();
    let mut s = status(LightColor::RED, 0);
    assert!(!s.tick(&d));
    assert_eq!(s, status(LightColor::RED, -1));
}

#[test]
fn steady_state_is_green_yellow_red_exactly() {
    let d = durations();
    let mut s = status(LightColor::GREEN, d.green);
    let mut seen = Vec::new();
    for _ in 0..40 {
        seen.push(s.color);
        s.tick(&d);
    }
    let mut expected = Vec::new();
    for _ in 0..2 {
        expected.extend(std::iter::repeat(LightColor::GREEN).take(7));
        expected.extend(std::iter::repeat(LightColor::YELLOW).take(3));
        expected.extend(std::iter::repeat(LightColor::RED).take(10));
    }
    assert_eq!(seen, expected);
    assert_eq!(s, status(LightColor::GREEN, 7));
}

#[test]
fn inverse_of_each_colour() {
    let d = durations();
    assert_eq!(inverse_color(&d, &LightColor::RED, 10), LightColor::GREEN);
    assert_eq!(inverse_color(&d, &LightColor::RED, 4), LightColor::GREEN);
    assert_eq!(inverse_color(&d, &LightColor::RED, 3), LightColor::YELLOW);
    assert_eq!(inverse_color(&d, &LightColor::RED, 0), LightColor::YELLOW);
    assert_eq!(inverse_color(&d, &LightColor::GREEN, 7), LightColor::RED);
    assert_eq!(inverse_color(&d, &LightColor::YELLOW, 3), LightColor::RED);
    assert_eq!(inverse_color(&d, &LightColor::UNKNOWN, -1), LightColor::UNKNOWN);
}

#[test]
fn init_light_duration_sets_one_colour() {
    let mut d = durations();
    init_light_duration(&mut d, 2, 4);
    assert_eq!(d, LightDuration { green: 4, red: 10, yellow: 3, unknown: -1 });
    init_light_duration(&mut d, 1, 20);
    assert_eq!(d, LightDuration { green: 4, red: 20, yellow: 3, unknown: -1 });
    init_light_duration(&mut d, 3, 5);
    assert_eq!(d, LightDuration { green: 4, red: 20, yellow: 5, unknown: -1 });
    init_light_duration(&mut d, 0, 0);
    assert_eq!(d, LightDuration { green: 4, red: 20, yellow: 5, unknown: 0 });
    init_light_duration(&mut d, 9, 99);
    assert_eq!(d, LightDuration { green: 4, red: 20, yellow: 5, unknown: 0 });
}

#[test]
fn master_starts_on_configured_colour_others_on_the_inverse() {
    let state = crossing();
    assert_eq!(state.groups[0].status, status(LightColor::RED, 10));
    assert_eq!(state.groups[1].status, status(LightColor::GREEN, 7));

    let mut green = Intersection::new(durations());
    green.add_group("m".to_string(), ids(&["A"]), true, LightColor::GREEN);
    green.add_group("o".to_string(), ids(&["B"]), false, LightColor::GREEN);
    assert_eq!(green.groups[0].status, status(LightColor::GREEN, 7));
    assert_eq!(green.groups[1].status, status(LightColor::RED, 10));

    let mut yellow = Intersection::new(durations());
    yellow.add_group("m".to_string(), ids(&["A"]), true, LightColor::YELLOW);
    yellow.add_group("o".to_string(), ids(&["B"]), false, LightColor::YELLOW);
    assert_eq!(yellow.groups[0].status, status(LightColor::YELLOW, 3));
    assert_eq!(yellow.groups[1].status, status(LightColor::RED, 10));

    let mut unknown = Intersection::new(durations());
    unknown.add_group("m".to_string(), ids(&["A"]), true, LightColor::UNKNOWN);
    unknown.add_group("o".to_string(), ids(&["B"]), false, LightColor::UNKNOWN);
    assert_eq!(unknown.groups[0].status, status(LightColor::UNKNOWN, -1));
    assert_eq!(unknown.groups[1].status, status(LightColor::UNKNOWN, -1));
}

#[test]
fn short_red_makes_the_other_group_start_on_yellow() {
    let d = LightDuration { green: 7, red: 3, yellow: 3, unknown: -1 };
    let mut state = Intersection::new(d);
    state.add_group("m".to_string(), ids(&["A"]), true, LightColor::RED);
    state.add_group("o".to_string(), ids(&["B"]), false, LightColor::RED);
    assert_eq!(state.groups[0].status, status(LightColor::RED, 3));
    assert_eq!(state.groups[1].status, status(LightColor::YELLOW, 3));
}

#[test]
fn scenario_two_groups_over_ten_seconds() {
    let mut state = crossing();
    assert_eq!(state.groups[0].status, status(LightColor::RED, 10));
    assert_eq!(state.groups[1].status, status(LightColor::GREEN, 7));
    for t in 1..=10 {
        assert!(state.can_tick());
        state.tick();
        if t == 7 {
            assert_eq!(state.groups[1].status, status(LightColor::YELLOW, 3));
        }
    }
    assert_eq!(state.groups[0].status, status(LightColor::GREEN, 7));
    assert_eq!(state.groups[1].status, status(LightColor::RED, 10));
}

#[test]
fn scenario_rule_change_after_five_seconds() {
    let mut state = crossing();
    for _ in 0..5 {
        state.tick();
    }
    assert_eq!(state.groups[0].status, status(LightColor::RED, 5));
    assert_eq!(state.groups[1].status, status(LightColor::GREEN, 2));
    rule_change(&mut state, "A", 2, 4);
    assert_eq!(state.durations, LightDuration { green: 4, red: 10, yellow: 3, unknown: -1 });
    assert_eq!(state.groups[0].status, status(LightColor::GREEN, 4));
    assert_eq!(state.groups[1].status, status(LightColor::GREEN, 2));
    assert_eq!(state.groups[0].lights, ids(&["A", "B"]));
    assert_eq!(state.groups[1].lights, ids(&["C"]));
}

#[test]
fn next_entry_into_a_colour_uses_the_changed_duration() {
    let mut state = crossing();
    rule_change(&mut state, "C", 1, 2);
    assert_eq!(state.groups[1].status, status(LightColor::RED, 2));
    assert_eq!(state.groups[0].status, status(LightColor::RED, 10));
    // group2: RED for 2, GREEN for 7, YELLOW for 3, then RED again for 2
    for _ in 0..(2 + 7 + 3) {
        state.tick();
    }
    assert_eq!(state.groups[1].status, status(LightColor::RED, 2));
}

#[test]
fn rule_change_with_a_number_that_is_no_colour() {
    let mut state = crossing();
    rule_change(&mut state, "A", 7, 30);
    assert_eq!(state.durations, durations());
    assert_eq!(state.groups[0].status, status(LightColor::UNKNOWN, 30));
    assert_eq!(state.groups[1].status, status(LightColor::GREEN, 7));
    rule_change(&mut state, "A", 0, 12);
    assert_eq!(state.durations, LightDuration { green: 7, red: 10, yellow: 3, unknown: 12 });
    assert_eq!(state.groups[0].status, status(LightColor::UNKNOWN, 12));
}

#[test]
fn rule_change_for_a_light_that_no_group_owns() {
    let mut state = crossing();
    rule_change(&mut state, "Z", 3, 9);
    assert_eq!(state.durations, LightDuration { green: 7, red: 10, yellow: 9, unknown: -1 });
    assert_eq!(state.groups[0].status, status(LightColor::RED, 10));
    assert_eq!(state.groups[1].status, status(LightColor::GREEN, 7));
}

#[test]
fn init_lgt_status_sets_every_group_that_owns_the_light() {
    let mut state = Intersection::new(durations());
    state.add_group("a".to_string(), ids(&["X", "Y"]), true, LightColor::RED);
    state.add_group("b".to_string(), ids(&["Z"]), false, LightColor::RED);
    state.add_group("c".to_string(), ids(&["Y"]), false, LightColor::RED);
    init_lgt_status(&mut state, "Y", LightColor::YELLOW, 2);
    assert_eq!(state.groups[0].status, status(LightColor::YELLOW, 2));
    assert_eq!(state.groups[1].status, status(LightColor::GREEN, 7));
    assert_eq!(state.groups[2].status, status(LightColor::YELLOW, 2));
    assert_eq!(state.durations, durations());
}

#[test]
fn report_lists_every_light_group_after_group() {
    let state = crossing();
    let lights = state.report();
    assert_eq!(
        lights,
        vec![
            Light { id: "A".to_string(), color: 1, remain: 10 },
            Light { id: "B".to_string(), color: 1, remain: 10 },
            Light { id: "C".to_string(), color: 2, remain: 7 },
        ]
    );
}

#[test]
fn detail_document_of_two_groups() {
    let state = crossing();
    assert_eq!(
        state.detail(),
        "{\"group1\":[{\"id\":\"A\",\"color\":1,\"remain\":10},{\"id\":\"B\",\"color\":1,\"remain\":10}],\"group2\":[{\"id\":\"C\",\"color\":2,\"remain\":7}]}"
    );
}

#[test]
fn group_without_lights_is_ticked_and_reports_an_empty_list() {
    let mut state = Intersection::new(durations());
    state.add_group("empty".to_string(), Vec::new(), true, LightColor::GREEN);
    state.tick();
    assert_eq!(state.groups[0].status, status(LightColor::GREEN, 6));
    assert_eq!(state.report(), Vec::<Light>::new());
    assert_eq!(state.detail(), "{\"empty\":[]}");
}

#[test]
fn engine_without_groups() {
    let mut state = Intersection::new(durations());
    assert!(state.can_tick());
    state.tick();
    assert_eq!(state.report(), Vec::<Light>::new());
    assert_eq!(state.detail(), "{}");
}

#[test]
fn detail_document_with_a_negative_counter() {
    let mut state = Intersection::new(durations());
    state.add_group("g".to_string(), ids(&["L"]), true, LightColor::UNKNOWN);
    assert_eq!(state.detail(), "{\"g\":[{\"id\":\"L\",\"color\":0,\"remain\":-1}]}");
}

#[test]
fn can_tick_sees_a_counter_at_the_lowest_number() {
    let mut state = crossing();
    assert!(state.can_tick());
    init_lgt_status(&mut state, "C", LightColor::UNKNOWN, i64::MIN);
    assert!(!state.can_tick());
}

#[test]
fn a_colour_that_lasts_no_second_is_never_left() {
    let d = LightDuration { green: 2, red: 2, yellow: 0, unknown: -1 };
    let mut s = status(LightColor::GREEN, 1);
    assert!(s.tick(&d));
    assert_eq!(s, status(LightColor::YELLOW, 0));
    for k in 1..=5 {
        assert!(!s.tick(&d));
        assert_eq!(s, status(LightColor::YELLOW, -k));
    }
}

#[test]
fn where_the_state_is_published() {
    assert_eq!(detail_path("1111111"), "/light/detail/1111111");
    assert_eq!(
        report_url("http://10.0.0.1/rsu/rsu_id/traffic_light/status/", "1111111"),
        "http://10.0.0.1/rsu/rsu_id/traffic_light/status/1111111"
    );
}
