use snn::neural::mapper_defaults::{
    create_mapper_for_character, create_mapper_for_letters, create_mapper_for_letters_cased,
    create_mapper_for_lowercase, create_mapper_for_uppercase, create_mapper_pyramid,
    create_mapper_pyramid_inverted,
};

#[test]
fn lowercase_classifier() {
    let mapper = create_mapper_for_lowercase();
    for i in 0u8..=u8::MAX {
        let expected = if (b'a'..=b'z').contains(&i) { 0xFF } else { 0 };
        assert_eq!(mapper.tranform(i), expected);
    }
}

#[test]
fn uppercase_classifier() {
    let mapper = create_mapper_for_uppercase();
    for i in 0u8..=u8::MAX {
        let expected = if (b'A'..=b'Z').contains(&i) { 0xFF } else { 0 };
        assert_eq!(mapper.tranform(i), expected);
    }
}

#[test]
fn letters_classifier_tags_both_cases_alike() {
    let mapper = create_mapper_for_letters();
    for i in 0u8..=u8::MAX {
        let expected = if i.is_ascii_alphabetic() { 0xFF } else { 0 };
        assert_eq!(mapper.tranform(i), expected);
    }
}

#[test]
fn cased_letters_classifier_tells_the_cases_apart() {
    let mapper = create_mapper_for_letters_cased();
    for i in 0u8..=u8::MAX {
        let expected = if i.is_ascii_lowercase() {
            0xFF
        } else if i.is_ascii_uppercase() {
            0xF0
        } else {
            0
        };
        assert_eq!(mapper.tranform(i), expected);
    }
}

#[test]
fn character_tagger_later_ranges_cover_earlier_ones() {
    let mapper = create_mapper_for_character();
    assert_eq!(mapper.tranform(b'0'), 0x08);
    assert_eq!(mapper.tranform(b'a'), 0x08);
    assert_eq!(mapper.tranform(b'Z'), 0x08);
    assert_eq!(mapper.tranform(b'!'), 0x08);
    assert_eq!(mapper.tranform(b'~'), 0x08);
    for i in 0u8..=u8::MAX {
        let expected = if (0x21..=0x7E).contains(&i) { 0x08 } else { 0 };
        assert_eq!(mapper.tranform(i), expected);
    }
}

#[test]
fn character_tagger_whitespace_range_is_empty() {
    let mapper = create_mapper_for_character();
    assert_eq!(mapper.tranform(b' '), 0);
    assert_eq!(mapper.tranform(b'\t'), 0);
    assert_eq!(mapper.tranform(b'\n'), 0);
    assert_eq!(mapper.tranform(0x7F), 0);
}

#[test]
fn pyramid_shape() {
    let mapper = create_mapper_pyramid();
    assert_eq!(mapper.tranform(0), 0);
    assert_eq!(mapper.tranform(127), 127);
    assert_eq!(mapper.tranform(128), 127);
    assert_eq!(mapper.tranform(255), 0);
    for i in 0u8..=u8::MAX {
        let expected = if i < 128 { i } else { 255 - i };
        assert_eq!(mapper.tranform(i), expected);
    }
}

#[test]
fn inverted_pyramid_shape() {
    let mapper = create_mapper_pyramid_inverted();
    assert_eq!(mapper.tranform(0), 255);
    assert_eq!(mapper.tranform(127), 128);
    assert_eq!(mapper.tranform(128), 128);
    assert_eq!(mapper.tranform(255), 255);
    for i in 0u8..=u8::MAX {
        let expected = if i < 128 { 255 - i } else { i };
        assert_eq!(mapper.tranform(i), expected);
    }
}

#[test]
fn pyramids_add_up_to_255() {
    let up = create_mapper_pyramid();
    let down = create_mapper_pyramid_inverted();
    for i in 0u8..=u8::MAX {
        assert_eq!(up.tranform(i) as u16 + down.tranform(i) as u16, 255);
    }
}
