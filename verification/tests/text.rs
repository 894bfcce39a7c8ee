use linuxsgc::text::append_decimal;

#[test]
fn numbers_are_written_in_decimal() {
    for n in [0u8, 7, 9, 10, 42, 99, 100, 205, 255] {
        let mut text = String::from("card");
        append_decimal(&mut text, n);
        assert_eq!(text, format!("card{n}"));
    }
}
