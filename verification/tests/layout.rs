use soshalthing_yew::containers::{relative_height, to_columns, Container};
use soshalthing_yew::decimal::{parse_i32, parse_u32, parse_u64, parse_u8, u64_to_decimal, IntErrorKind};
use soshalthing_yew::display::{
    initial_display_mode, last_single_of, parse_bool, set_main_column_count, set_main_container, toggle_display_mode,
    toggle_favviewer_settings, DisplayMode,
};

#[test]
fn masonry_puts_each_article_in_a_lowest_column() {
    assert_eq!(to_columns(&vec![1, 1, 1], 2), vec![vec![0], vec![1, 2]]);
    assert_eq!(to_columns(&vec![2, 1, 1], 2), vec![vec![0], vec![1, 2]]);
    assert_eq!(to_columns(&vec![1, 3, 1, 1], 2), vec![vec![0, 2, 3], vec![1]]);
}

#[test]
fn masonry_with_no_article() {
    assert_eq!(to_columns(&vec![], 3), vec![Vec::<usize>::new(), vec![], vec![]]);
}

#[test]
fn masonry_places_every_article_once() {
    let heights = vec![3, 1, 4, 1, 5, 9, 2, 6];
    let cols = to_columns(&heights, 3);
    let mut all: Vec<usize> = cols.concat();
    all.sort();
    assert_eq!(all, (0..heights.len()).collect::<Vec<_>>());
}

#[test]
fn relative_height_counts_media() {
    assert_eq!(relative_height(0), 1);
    assert_eq!(relative_height(4), 5);
}

#[test]
fn container_names() {
    assert_eq!(Container::Column.name(), "Column");
    assert_eq!(Container::Row.name(), "Row");
    assert_eq!(Container::Masonry.name(), "Masonry");
}

#[test]
fn decimal_round_trip() {
    for n in [0u64, 7, 10, 4294967295, u64::MAX] {
        let s = u64_to_decimal(n);
        assert_eq!(s, n.to_string());
        assert_eq!(parse_u64(&s), Ok(n));
    }
}

#[test]
fn parsing_matches_std() {
    assert_eq!(parse_u8("255"), Ok(255));
    assert_eq!(parse_u8("256"), Err(IntErrorKind::PosOverflow));
    assert_eq!(parse_u8(""), Err(IntErrorKind::Empty));
    assert_eq!(parse_u8("+"), Err(IntErrorKind::InvalidDigit));
    assert_eq!(parse_u8("-1"), Err(IntErrorKind::InvalidDigit));
    assert_eq!(parse_u32("+42"), Ok(42));
    assert_eq!(parse_i32("-2147483648"), Ok(i32::MIN));
    assert_eq!(parse_i32("-2147483649"), Err(IntErrorKind::NegOverflow));
    assert_eq!(parse_i32("2147483648"), Err(IntErrorKind::PosOverflow));
    assert_eq!(parse_i32("-"), Err(IntErrorKind::InvalidDigit));
    assert_eq!(parse_i32(" 1"), Err(IntErrorKind::InvalidDigit));
}

#[test]
fn display_mode_toggles() {
    let single = DisplayMode::Single { container: Container::Row, column_count: 2 };
    assert_eq!(toggle_display_mode(DisplayMode::Default, single), single);
    assert_eq!(toggle_display_mode(single, single), DisplayMode::Default);
    assert_eq!(last_single_of(single), single);
    assert_eq!(last_single_of(DisplayMode::Default), DisplayMode::Single { container: Container::Masonry, column_count: 4 });
    assert_eq!(toggle_favviewer_settings(DisplayMode::Default), DisplayMode::Single { container: Container::Masonry, column_count: 3 });
    assert_eq!(toggle_favviewer_settings(single), DisplayMode::Default);
}

#[test]
fn main_container_only_in_single_mode() {
    let mut m = DisplayMode::Default;
    assert!(!set_main_container(&mut m, Container::Row));
    assert_eq!(m, DisplayMode::Default);
    let mut m = DisplayMode::Single { container: Container::Masonry, column_count: 4 };
    assert!(set_main_container(&mut m, Container::Row));
    assert!(set_main_column_count(&mut m, 6));
    assert_eq!(m, DisplayMode::Single { container: Container::Row, column_count: 6 });
}

#[test]
fn booleans_read_as_std_does() {
    assert_eq!(parse_bool("true"), Some(true));
    assert_eq!(parse_bool("false"), Some(false));
    assert_eq!(parse_bool("True"), None);
    assert_eq!(parse_bool(""), None);
}

#[test]
fn initial_display_mode_order() {
    let stored = DisplayMode::Single { container: Container::Column, column_count: 1 };
    let embedded = DisplayMode::Single { container: Container::Row, column_count: 2 };
    assert_eq!(initial_display_mode(Some(stored), Some(embedded), Some("true"), None, None), stored);
    assert_eq!(initial_display_mode(None, Some(embedded), Some("true"), None, None), embedded);
    assert_eq!(
        initial_display_mode(None, None, Some("true"), None, None),
        DisplayMode::Single { container: Container::Masonry, column_count: 4 }
    );
    assert_eq!(
        initial_display_mode(None, None, Some("true"), Some(Container::Row), Some("7")),
        DisplayMode::Single { container: Container::Row, column_count: 7 }
    );
    assert_eq!(
        initial_display_mode(None, None, Some("true"), None, Some("300")),
        DisplayMode::Single { container: Container::Masonry, column_count: 4 }
    );
    assert_eq!(initial_display_mode(None, None, Some("yes"), None, None), DisplayMode::Default);
    assert_eq!(initial_display_mode(None, None, None, None, None), DisplayMode::Default);
}
