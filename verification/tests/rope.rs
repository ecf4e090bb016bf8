use component_rope::rope::ComponentRope;

fn units(s: &str) -> Vec<char> {
    s.chars().collect()
}

fn text(v: &Vec<char>) -> String {
    v.iter().collect()
}

fn repeat_to(len: usize) -> String {
    let pattern = "abcdefghij";
    let mut s = String::new();
    while s.len() < len {
        s.push_str(pattern);
    }
    s.truncate(len);
    s
}

#[test]
fn round_trip_short() {
    let rope = ComponentRope::new(units("hello world"));
    assert_eq!(text(&rope.flatten()), "hello world");
    assert_eq!(rope.len(), 11);
}

#[test]
fn round_trip_empty() {
    let rope = ComponentRope::new(units(""));
    assert_eq!(text(&rope.flatten()), "");
    assert_eq!(rope.len(), 0);
    assert!(rope.is_leaf());
}

#[test]
fn round_trip_long() {
    let source = repeat_to(1500);
    let rope = ComponentRope::new(units(&source));
    assert_eq!(text(&rope.flatten()), source);
    assert_eq!(rope.len(), 1500);
}

#[test]
fn split_threshold_long_text_becomes_internal() {
    let rope = ComponentRope::new(units(&repeat_to(1500)));
    assert!(!rope.is_leaf());
}

#[test]
fn split_threshold_short_text_stays_leaf() {
    let rope = ComponentRope::new(units(&repeat_to(400)));
    assert!(rope.is_leaf());
}

#[test]
fn split_threshold_exact_boundary() {
    let at_threshold = ComponentRope::new(units(&repeat_to(1000)));
    assert!(at_threshold.is_leaf());
    let over_threshold = ComponentRope::new(units(&repeat_to(1001)));
    assert!(!over_threshold.is_leaf());
}

#[test]
fn insert_into_leaf() {
    let mut rope = ComponentRope::new(units("hello world"));
    rope.insert(5, &units(","));
    assert_eq!(text(&rope.flatten()), "hello, world");
    assert_eq!(rope.len(), 12);
}

#[test]
fn insert_at_ends() {
    let mut rope = ComponentRope::new(units("bcd"));
    rope.insert(0, &units("a"));
    assert_eq!(text(&rope.flatten()), "abcd");
    rope.insert(4, &units("e"));
    assert_eq!(text(&rope.flatten()), "abcde");
}

#[test]
fn insert_into_internal_node() {
    let source = repeat_to(1500);
    let mut rope = ComponentRope::new(units(&source));
    rope.insert(750, &units("XYZ"));
    let mut expected = String::new();
    expected.push_str(&source[..750]);
    expected.push_str("XYZ");
    expected.push_str(&source[750..]);
    assert_eq!(text(&rope.flatten()), expected);
    assert_eq!(rope.len(), 1503);
}

#[test]
fn insert_at_split_boundary() {
    let source = repeat_to(1500);
    let mut rope = ComponentRope::new(units(&source));
    rope.insert(1500, &units("!"));
    let mut expected = source.clone();
    expected.push('!');
    assert_eq!(text(&rope.flatten()), expected);
}

#[test]
fn remove_from_leaf() {
    let mut rope = ComponentRope::new(units("hello, world"));
    rope.remove(5, 6);
    assert_eq!(text(&rope.flatten()), "hello world");
}

#[test]
fn remove_empty_range_is_noop() {
    let mut rope = ComponentRope::new(units("hello"));
    rope.remove(2, 2);
    assert_eq!(text(&rope.flatten()), "hello");
    assert_eq!(rope.len(), 5);
}

#[test]
fn remove_across_children() {
    let source = repeat_to(1500);
    let mut rope = ComponentRope::new(units(&source));
    rope.remove(700, 800);
    let mut expected = String::new();
    expected.push_str(&source[..700]);
    expected.push_str(&source[800..]);
    assert_eq!(text(&rope.flatten()), expected);
    assert_eq!(rope.len(), 1400);
}

#[test]
fn insert_then_remove_restores_text() {
    let source = repeat_to(1200);
    let mut rope = ComponentRope::new(units(&source));
    rope.insert(321, &units("inserted piece"));
    rope.remove(321, 321 + "inserted piece".len());
    assert_eq!(text(&rope.flatten()), source);
}

#[test]
fn length_tracks_flatten_after_edit_sequence() {
    let mut rope = ComponentRope::new(units(&repeat_to(900)));
    rope.insert(0, &units(&repeat_to(300)));
    rope.remove(100, 450);
    rope.insert(700, &units("middle"));
    rope.remove(0, 7);
    assert_eq!(rope.len(), rope.flatten().len());
    assert_eq!(rope.len(), 900 + 300 - 350 + 6 - 7);
}

#[test]
fn join_threshold_collapses_to_leaf() {
    let mut rope = ComponentRope::new(units(&repeat_to(1500)));
    assert!(!rope.is_leaf());
    rope.remove(0, 1200);
    assert_eq!(rope.len(), 300);
    assert!(rope.is_leaf());
}

#[test]
fn rebuild_flattens_to_threshold() {
    let source = repeat_to(1500);
    let mut rope = ComponentRope::new(units(&source));
    rope.remove(0, 600);
    rope.rebuild();
    assert!(rope.is_leaf());
    assert_eq!(text(&rope.flatten()), &source[600..]);
}

#[test]
fn rebuild_on_leaf_is_noop() {
    let mut rope = ComponentRope::new(units("short text"));
    rope.rebuild();
    assert!(rope.is_leaf());
    assert_eq!(text(&rope.flatten()), "short text");
}

#[test]
fn rebalance_preserves_text() {
    let source = repeat_to(3000);
    let mut rope = ComponentRope::new(units(&source));
    let front = repeat_to(1100);
    rope.insert(0, &units(&front));
    rope.rebalance();
    let mut expected = front.clone();
    expected.push_str(&source);
    assert_eq!(text(&rope.flatten()), expected);
    assert_eq!(rope.len(), 4100);
}

#[test]
fn substring_basic() {
    let rope = ComponentRope::new(units("0123456789"));
    assert_eq!(text(&rope.substring(0, Some(3))), "012");
    assert_eq!(text(&rope.substring(4, Some(10))), "456789");
    assert_eq!(text(&rope.substring(3, None)), "3456789");
}

#[test]
fn substring_clamps_negative_start() {
    let rope = ComponentRope::new(units("0123456789"));
    assert_eq!(rope.substring(-5, Some(3)), rope.substring(0, Some(3)));
    assert_eq!(text(&rope.substring(-5, Some(3))), "012");
}

#[test]
fn substring_clamps_large_end() {
    let rope = ComponentRope::new(units("0123456789"));
    assert_eq!(rope.substring(4, Some(1000)), rope.substring(4, Some(10)));
    assert_eq!(text(&rope.substring(4, Some(1000))), "456789");
}

#[test]
fn substring_inverted_range_is_empty() {
    let rope = ComponentRope::new(units("0123456789"));
    assert_eq!(text(&rope.substring(7, Some(3))), "");
    assert_eq!(text(&rope.substring(4, Some(-2))), "");
}

#[test]
fn substring_across_children() {
    let source = repeat_to(1500);
    let rope = ComponentRope::new(units(&source));
    assert_eq!(text(&rope.substring(700, Some(810))), &source[700..810]);
    assert_eq!(text(&rope.substring(0, None)), source);
}

#[test]
fn substr_negative_start_counts_from_end() {
    let rope = ComponentRope::new(units("0123456789"));
    assert_eq!(text(&rope.substr(-3, None)), "789");
}

#[test]
fn substr_with_length() {
    let rope = ComponentRope::new(units("0123456789"));
    assert_eq!(text(&rope.substr(2, Some(3))), "234");
    assert_eq!(text(&rope.substr(-4, Some(2))), "67");
    assert_eq!(text(&rope.substr(0, None)), "0123456789");
}

#[test]
fn substr_negative_length_is_empty() {
    let rope = ComponentRope::new(units("0123456789"));
    assert_eq!(text(&rope.substr(2, Some(-1))), "");
}

#[test]
fn substr_start_before_origin_floors_at_zero() {
    let rope = ComponentRope::new(units("0123456789"));
    assert_eq!(text(&rope.substr(-25, Some(4))), "0123");
}

#[test]
fn char_at_returns_single_unit() {
    let rope = ComponentRope::new(units("hello world"));
    assert_eq!(text(&rope.char_at(0)), "h");
    assert_eq!(text(&rope.char_at(10)), "d");
}

#[test]
fn char_at_out_of_bounds_is_empty() {
    let rope = ComponentRope::new(units("hello world"));
    assert_eq!(text(&rope.char_at(-1)), "");
    assert_eq!(text(&rope.char_at(11)), "");
}

#[test]
fn char_code_at_decodes_code_point() {
    let rope = ComponentRope::new(units("hello world"));
    assert_eq!(rope.char_code_at(0), 104);
    assert_eq!(rope.char_code_at(4), 'o' as u32);
}

#[test]
fn editor_scenario() {
    let mut rope = ComponentRope::new(units("hello world"));
    assert_eq!(rope.len(), 11);
    rope.insert(5, &units(","));
    assert_eq!(text(&rope.flatten()), "hello, world");
    rope.remove(5, 6);
    assert_eq!(text(&rope.flatten()), "hello world");
    assert_eq!(text(&rope.char_at(0)), "h");
    assert_eq!(rope.char_code_at(0), 104);
}
