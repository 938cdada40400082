use xml_requirements::text::decimal_string;
use xml_requirements::violation::Violation;

#[test]
fn display() {
    let v = Violation::new(
        &"/path/to/file.xml".into(),
        3,
        8,
        "LinearLayout",
        "android:orientation",
    );

    let actual = v.to_string();

    assert_eq!(
        "/path/to/file.xml:3:8 LinearLayout missing android:orientation",
        actual
    );
}

#[test]
fn new_keeps_every_field() {
    let v = Violation::new(&"a.xml".to_string(), 12, 34, "Button", "style");

    assert_eq!("a.xml", v.path);
    assert_eq!(12, v.line_num);
    assert_eq!(34, v.col_num);
    assert_eq!("Button", v.tag);
    assert_eq!("style", v.attribute);
}

#[test]
fn display_with_large_position() {
    let v = Violation::new(&"dir/b.xml".to_string(), 1000, 4294967295, "a", "x:y");

    assert_eq!("dir/b.xml:1000:4294967295 a missing x:y", v.to_string());
}

#[test]
fn display_with_empty_fields() {
    let v = Violation::new(&String::new(), 0, 0, "", "");

    assert_eq!(":0:0  missing ", v.to_string());
}

#[test]
fn decimal_of_single_digits() {
    assert_eq!("0", decimal_string(0));
    assert_eq!("7", decimal_string(7));
    assert_eq!("9", decimal_string(9));
}

#[test]
fn decimal_of_longer_numbers() {
    assert_eq!("10", decimal_string(10));
    assert_eq!("1234567890", decimal_string(1234567890));
    assert_eq!("4294967295", decimal_string(u32::MAX));
    assert_eq!("100", decimal_string(100));
}
