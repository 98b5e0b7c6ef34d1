use audio_switcher::bluetooth::util::u16_slice_to_string;

fn as_std_does(units: &[u16]) -> String {
    String::from_utf16_lossy(units).trim_matches(char::from(0)).to_string()
}

#[test]
fn hello_with_padding() {
    let hello: [u16; 8] = [0x68, 0x65, 0x6c, 0x6c, 0x6f, 0x0, 0x0, 0x0];
    assert_eq!(u16_slice_to_string(hello.as_slice()), String::from("hello"));
}

#[test]
fn empty_slice_is_empty_text() {
    assert_eq!(u16_slice_to_string(&[]), String::new());
}

#[test]
fn only_padding_is_empty_text() {
    assert_eq!(u16_slice_to_string(&[0, 0, 0, 0]), String::new());
}

#[test]
fn padding_in_front_is_dropped_too() {
    assert_eq!(u16_slice_to_string(&[0, 0, 0x61, 0x62, 0]), String::from("ab"));
}

#[test]
fn nul_inside_the_text_stays() {
    let text = u16_slice_to_string(&[0, 0x61, 0, 0x62, 0, 0]);
    assert_eq!(text, String::from("a\0b"));
    assert_eq!(text.chars().count(), 3);
}

#[test]
fn text_without_padding_is_kept_whole() {
    assert_eq!(u16_slice_to_string(&[0x48, 0x69]), String::from("Hi"));
}

#[test]
fn units_outside_ascii_are_decoded() {
    assert_eq!(u16_slice_to_string(&[0x00e9, 0x4e2d, 0x6587, 0]), String::from("é中文"));
    assert_eq!(u16_slice_to_string(&[0xd7ff]), String::from("\u{d7ff}"));
    assert_eq!(u16_slice_to_string(&[0xe000]), String::from("\u{e000}"));
    assert_eq!(u16_slice_to_string(&[0xffff]), String::from("\u{ffff}"));
}

#[test]
fn surrogate_pair_is_one_character() {
    assert_eq!(u16_slice_to_string(&[0xd834, 0xdd1e]), String::from("\u{1d11e}"));
    assert_eq!(u16_slice_to_string(&[0xd800, 0xdc00]), String::from("\u{10000}"));
    assert_eq!(u16_slice_to_string(&[0xdbff, 0xdfff]), String::from("\u{10ffff}"));
    assert_eq!(u16_slice_to_string(&[0xd83d, 0xde00, 0, 0]).chars().count(), 1);
}

#[test]
fn lone_surrogates_are_replaced() {
    let units: [u16; 9] = [0xd834, 0xdd1e, 0x006d, 0x0075, 0x0073, 0xdd1e, 0x0069, 0x0063, 0xd834];
    assert_eq!(u16_slice_to_string(&units), String::from("\u{1d11e}mus\u{fffd}ic\u{fffd}"));
}

#[test]
fn high_surrogate_before_ordinary_unit_is_replaced() {
    assert_eq!(u16_slice_to_string(&[0xd800, 0x0041]), String::from("\u{fffd}A"));
}

#[test]
fn second_of_two_high_surrogates_takes_the_low_one() {
    assert_eq!(u16_slice_to_string(&[0xd800, 0xd800, 0xdc00]), String::from("\u{fffd}\u{10000}"));
}

#[test]
fn low_surrogate_before_high_gives_two_replacements() {
    assert_eq!(u16_slice_to_string(&[0xdc00, 0xd800]), String::from("\u{fffd}\u{fffd}"));
}

#[test]
fn high_surrogate_before_padding_is_replaced() {
    assert_eq!(u16_slice_to_string(&[0x41, 0xdbff, 0, 0]), String::from("A\u{fffd}"));
}

#[test]
fn every_single_unit_agrees_with_std() {
    let mut unit: u32 = 0;
    while unit <= 0xffff {
        let units = [unit as u16];
        assert_eq!(u16_slice_to_string(&units), as_std_does(&units));
        unit += 1;
    }
}

#[test]
fn every_triple_of_chosen_units_agrees_with_std() {
    let chosen: [u16; 12] = [
        0, 0x41, 0x7f, 0x80, 0x7ff, 0xd7ff, 0xd800, 0xdbff, 0xdc00, 0xdfff, 0xe000, 0xffff,
    ];
    for a in chosen {
        for b in chosen {
            for c in chosen {
                let units = [a, b, c];
                assert_eq!(u16_slice_to_string(&units), as_std_does(&units));
                let padded = [0, a, b, c, 0, 0];
                assert_eq!(u16_slice_to_string(&padded), as_std_does(&padded));
            }
        }
    }
}

#[test]
fn a_full_name_buffer_is_trimmed() {
    let mut buffer = [0u16; 248];
    for (slot, unit) in buffer.iter_mut().zip("WH-1000XM4".encode_utf16()) {
        *slot = unit;
    }
    assert_eq!(u16_slice_to_string(buffer.as_slice()), String::from("WH-1000XM4"));
}
