use image_rename_split::naming::{half_file_names, pad_number};

#[test]
fn pad_number_widths() {
    assert_eq!(pad_number(0), "00");
    assert_eq!(pad_number(1), "01");
    assert_eq!(pad_number(7), "07");
    assert_eq!(pad_number(9), "09");
    assert_eq!(pad_number(10), "10");
    assert_eq!(pad_number(42), "42");
    assert_eq!(pad_number(99), "99");
    assert_eq!(pad_number(100), "100");
    assert_eq!(pad_number(12345), "12345");
}

#[test]
fn half_file_names_follow_sequence() {
    let (left, right) = half_file_names(3);
    assert_eq!(left, "03_1.jpg");
    assert_eq!(right, "03_2.jpg");
    let (left, right) = half_file_names(107);
    assert_eq!(left, "107_1.jpg");
    assert_eq!(right, "107_2.jpg");
}
