use home_dashboard::errors::Error;
use home_dashboard::todo::get_todos;
use home_dashboard::ui::{
    localized_month, localized_weekday, month_groups, recent_first, two_digits, MonthGroup,
    Weekday,
};

#[test]
fn todos_split_on_newlines() {
    let items = get_todos(b"buy milk\nwater plants\ncall home").unwrap();
    assert_eq!(items.len(), 3);
    assert_eq!(items[0], b"buy milk".to_vec());
    assert_eq!(items[1], b"water plants".to_vec());
    assert_eq!(items[2], b"call home".to_vec());
}

#[test]
fn todos_keep_empty_pieces() {
    let items = get_todos(b"one\n\ntwo\n").unwrap();
    assert_eq!(items.len(), 4);
    assert_eq!(items[1], Vec::<u8>::new());
    assert_eq!(items[3], Vec::<u8>::new());
    let empty = get_todos(b"").unwrap();
    assert_eq!(empty.len(), 1);
    assert_eq!(empty[0], Vec::<u8>::new());
}

#[test]
fn todos_reject_invalid_utf8() {
    let r = get_todos(b"fine\n\xff\xfe\nalso fine");
    assert!(matches!(r, Err(Error::ParseUtf8)));
}

#[test]
fn recent_first_reverses_the_newest_items() {
    let lines = vec![b"a".to_vec(), b"b".to_vec(), b"c".to_vec(), b"d".to_vec()];
    let top = recent_first(&lines, 3);
    assert_eq!(top, vec![b"c".to_vec(), b"b".to_vec(), b"a".to_vec()]);
    let all = recent_first(&lines, 10);
    assert_eq!(all, vec![b"d".to_vec(), b"c".to_vec(), b"b".to_vec(), b"a".to_vec()]);
    let none = recent_first(&lines, 0);
    assert_eq!(none.len(), 0);
}

#[test]
fn weekdays_have_german_labels() {
    assert_eq!(localized_weekday(Weekday::Monday), "Mo");
    assert_eq!(localized_weekday(Weekday::Wednesday), "Mi");
    assert_eq!(localized_weekday(Weekday::Sunday), "So");
}

#[test]
fn months_have_german_labels() {
    assert_eq!(localized_month(1), "JAN");
    assert_eq!(localized_month(3), "MÄR");
    assert_eq!(localized_month(12), "DEZ");
    assert_eq!(localized_month(0), "???");
    assert_eq!(localized_month(13), "???");
}

#[test]
fn two_digits_zero_pads() {
    assert_eq!(two_digits(0), b"00".to_vec());
    assert_eq!(two_digits(7), b"07".to_vec());
    assert_eq!(two_digits(42), b"42".to_vec());
    assert_eq!(two_digits(99), b"99".to_vec());
}

#[test]
fn month_groups_partition_consecutive_months() {
    let months = vec![1i8, 1, 1, 2, 2, 3];
    let groups = month_groups(&months);
    assert_eq!(
        groups,
        vec![
            MonthGroup { month: 1, start_index: 0, end_index: 2 },
            MonthGroup { month: 2, start_index: 3, end_index: 4 },
            MonthGroup { month: 3, start_index: 5, end_index: 5 },
        ]
    );
}

#[test]
fn month_groups_handle_single_and_empty() {
    let one = month_groups(&vec![7i8]);
    assert_eq!(one, vec![MonthGroup { month: 7, start_index: 0, end_index: 0 }]);
    let none = month_groups(&vec![]);
    assert_eq!(none.len(), 0);
}

#[test]
fn month_groups_reopen_a_month_after_a_gap() {
    let months = vec![12i8, 1, 12];
    let groups = month_groups(&months);
    assert_eq!(groups.len(), 3);
    assert_eq!(groups[0].month, 12);
    assert_eq!(groups[1].month, 1);
    assert_eq!(groups[2].month, 12);
}
