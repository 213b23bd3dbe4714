use irq_counter::text::{render, TextBuffer, DIGITS, WIDTH};

fn expected(digits: &str) -> String {
    let mut s = String::from("value: ");
    s.push_str(digits);
    while s.len() < 64 {
        s.push(' ');
    }
    s
}

#[test]
fn format_seven_fills_the_screen() {
    let mut buf = TextBuffer::new();
    irq_counter::text::format(&mut buf, 7);
    assert_eq!(
        buf.as_str(),
        "value: 0007                                                     "
    );
    assert_eq!(buf.as_str().len(), 64);
    assert!(buf.as_str().starts_with("value: 0007"));
    assert!(buf.as_str()[11..].chars().all(|c| c == ' '));
}

#[test]
fn format_largest_value() {
    let mut buf = TextBuffer::new();
    irq_counter::text::format(&mut buf, 255);
    assert_eq!(buf.as_str(), expected("0255"));
    assert_eq!(buf.as_str().len(), 64);
}

#[test]
fn format_zero() {
    let mut buf = TextBuffer::new();
    irq_counter::text::format(&mut buf, 0);
    assert_eq!(buf.as_str(), expected("0000"));
    assert_eq!(buf.as_str().len(), 64);
}

#[test]
fn format_two_and_three_digit_values() {
    assert_eq!(render(10).as_str(), expected("0010"));
    assert_eq!(render(99).as_str(), expected("0099"));
    assert_eq!(render(100).as_str(), expected("0100"));
    assert_eq!(render(209).as_str(), expected("0209"));
}

#[test]
fn format_agrees_with_std_for_every_value() {
    for value in 0..=255u8 {
        let text = render(value);
        let want = format!("value: {:04}{}", value, " ".repeat(53));
        assert_eq!(text.as_str(), want);
        assert_eq!(text.as_str().len(), WIDTH);
    }
}

#[test]
fn render_is_format_on_a_new_buffer() {
    for value in [0u8, 1, 9, 42, 128, 254, 255] {
        let mut buf = TextBuffer::new();
        irq_counter::text::format(&mut buf, value);
        assert_eq!(buf.as_str(), render(value).as_str());
    }
}

#[test]
fn new_buffer_is_empty() {
    let buf = TextBuffer::new();
    assert_eq!(buf.as_str(), "");
    assert!(buf.as_str().is_empty());
}

#[test]
fn width_and_digits() {
    assert_eq!(WIDTH, 64);
    assert_eq!(DIGITS, 4);
    assert_eq!("value: ".len() + DIGITS + 53, WIDTH);
}

#[test]
fn shorter_value_leaves_nothing_of_a_longer_one() {
    let long = render(255);
    let short = render(7);
    assert_eq!(long.as_str().len(), short.as_str().len());
    assert_eq!(&short.as_str()[7..11], "0007");
    assert_eq!(short.as_str().trim_end(), "value: 0007");
}
