//! Ready-made lookup tables for common classifications of bytes.

use vstd::prelude::*;
use crate::neural::mapper::{
    byte_range, constant_table, inclusive, lemma_inclusive_contains, override_keys, MapperNode,
};

verus! {

/// The digit `0`.
pub const DIGIT_ZERO: u8 = 0x30;

/// The digit `9`.
pub const DIGIT_NINE: u8 = 0x39;

/// The letter `a`.
pub const LOWER_A: u8 = 0x61;

/// The letter `z`.
pub const LOWER_Z: u8 = 0x7A;

/// The letter `A`.
pub const UPPER_A: u8 = 0x41;

/// The letter `Z`.
pub const UPPER_Z: u8 = 0x5A;

/// The first printable character after the space, `!`.
pub const EXCLAMATION: u8 = 0x21;

/// The last printable character, `~`.
pub const TILDE: u8 = 0x7E;

/// The space.
pub const SPACE: u8 = 0x20;

/// The line feed.
pub const LINE_FEED: u8 = 0x0A;

/// Whether `c` lies between `first` and `last`, both included.
pub open spec fn within(c: u8, first: u8, last: u8) -> bool {
    first <= c <= last
}

/// Whether `c` is an ASCII lower-case letter.
pub open spec fn is_lowercase(c: u8) -> bool {
    within(c, LOWER_A, LOWER_Z)
}

/// Whether `c` is an ASCII upper-case letter.
pub open spec fn is_uppercase(c: u8) -> bool {
    within(c, UPPER_A, UPPER_Z)
}

/// Whether `c` is an ASCII digit.
pub open spec fn is_digit(c: u8) -> bool {
    within(c, DIGIT_ZERO, DIGIT_NINE)
}

/// The tag of a byte that is classified as a lower-case letter or not.
pub open spec fn lowercase_tag(c: u8) -> u8 {
    if is_lowercase(c) {
        0xFF
    } else {
        0
    }
}

/// The tag of a byte that is classified as an upper-case letter or not.
pub open spec fn uppercase_tag(c: u8) -> u8 {
    if is_uppercase(c) {
        0xFF
    } else {
        0
    }
}

/// The tag of a byte that is classified as a letter or not, both cases
/// alike.
pub open spec fn letter_tag(c: u8) -> u8 {
    if is_lowercase(c) || is_uppercase(c) {
        0xFF
    } else {
        0
    }
}

/// The tag of a byte that is classified as a lower-case letter, an
/// upper-case letter or neither.
pub open spec fn cased_letter_tag(c: u8) -> u8 {
    if is_uppercase(c) {
        0xF0
    } else if is_lowercase(c) {
        0xFF
    } else {
        0
    }
}

/// The tag of a byte that is classified by its character class. The classes
/// are laid over one another in this order, a later one covering an earlier
/// one: digits (0x01), lower-case letters (0x02), upper-case letters (0x04),
/// the printable characters from `!` to `~` (0x08), and the bytes from the
/// space up to the line feed (0x10). No byte lies in that last range, since
/// it starts above its end.
pub open spec fn character_tag(c: u8) -> u8 {
    if within(c, SPACE, LINE_FEED) {
        0x10
    } else if within(c, EXCLAMATION, TILDE) {
        0x08
    } else if is_uppercase(c) {
        0x04
    } else if is_lowercase(c) {
        0x02
    } else if is_digit(c) {
        0x01
    } else {
        0
    }
}

/// The pyramid shape: rising from 0 at input 0 to 127 at input 127, then
/// falling from 127 at input 128 to 0 at input 255.
pub open spec fn pyramid(c: u8) -> u8 {
    if c < 128 {
        c
    } else {
        (255 - c) as u8
    }
}

/// The inverted pyramid: falling from 255 at input 0 to 128 at input 127,
/// then rising from 128 at input 128 to 255 at input 255.
pub open spec fn pyramid_inverted(c: u8) -> u8 {
    if c < 128 {
        (255 - c) as u8
    } else {
        c
    }
}

/// Digits and letters are printable, and the last range is empty, so the
/// character tag comes down to two cases: 0x08 for the printable characters
/// from `!` to `~`, and 0 for every other byte.
pub proof fn lemma_character_tag_collapses(c: u8)
    ensures
        character_tag(c) == if 0x21 <= c <= 0x7E {
            0x08u8
        } else {
            0u8
        },
{
}

/// The two pyramid shapes are complements: at every input they add up to
/// 255.
pub proof fn lemma_pyramids_complement(c: u8)
    ensures
        pyramid(c) + pyramid_inverted(c) == 255,
{
}

/// What `with_range` over the bytes from `first` to `last` does to one
/// entry: it holds `value` where the index lies in the range, and the old
/// entry elsewhere.
proof fn lemma_range_entry(table: Seq<u8>, first: u8, last: u8, value: u8, c: u8)
    ensures
        override_keys(table, inclusive(first, last), value)[c as int] == if within(c, first, last) {
            value
        } else {
            table[c as int]
        },
{
    lemma_inclusive_contains(first, last, c);
}

/// Creates a table that maps the lower-case ASCII letters to 0xFF and every
/// other byte to 0.
pub fn create_mapper_for_lowercase() -> (node: MapperNode)
    ensures
        forall|c: u8| #[trigger] node@[c as int] == lowercase_tag(c),
{
    let node = MapperNode::new().with_range(byte_range(LOWER_A, LOWER_Z).as_slice(), 0b1111_1111);
    assert forall|c: u8| #[trigger] node@[c as int] == lowercase_tag(c) by {
        lemma_range_entry(constant_table(0), LOWER_A, LOWER_Z, 0xFF, c);
    }
    node
}

/// Creates a table that maps the upper-case ASCII letters to 0xFF and every
/// other byte to 0.
pub fn create_mapper_for_uppercase() -> (node: MapperNode)
    ensures
        forall|c: u8| #[trigger] node@[c as int] == uppercase_tag(c),
{
    let node = MapperNode::new().with_range(byte_range(UPPER_A, UPPER_Z).as_slice(), 0b1111_1111);
    assert forall|c: u8| #[trigger] node@[c as int] == uppercase_tag(c) by {
        lemma_range_entry(constant_table(0), UPPER_A, UPPER_Z, 0xFF, c);
    }
    node
}

/// Creates a table that maps the ASCII letters of both cases to 0xFF and
/// every other byte to 0.
pub fn create_mapper_for_letters() -> (node: MapperNode)
    ensures
        forall|c: u8| #[trigger] node@[c as int] == letter_tag(c),
{
    let lower = MapperNode::new().with_range(byte_range(LOWER_A, LOWER_Z).as_slice(), 0b1111_1111);
    let node = lower.with_range(byte_range(UPPER_A, UPPER_Z).as_slice(), 0b1111_1111);
    assert forall|c: u8| #[trigger] node@[c as int] == letter_tag(c) by {
        lemma_range_entry(constant_table(0), LOWER_A, LOWER_Z, 0xFF, c);
        lemma_range_entry(lower@, UPPER_A, UPPER_Z, 0xFF, c);
    }
    node
}

/// Creates a table that maps the lower-case ASCII letters to 0xFF, the
/// upper-case ASCII letters to 0xF0 and every other byte to 0.
pub fn create_mapper_for_letters_cased() -> (node: MapperNode)
    ensures
        forall|c: u8| #[trigger] node@[c as int] == cased_letter_tag(c),
{
    let lower = MapperNode::new().with_range(byte_range(LOWER_A, LOWER_Z).as_slice(), 0b1111_1111);
    let node = lower.with_range(byte_range(UPPER_A, UPPER_Z).as_slice(), 0b1111_0000);
    assert forall|c: u8| #[trigger] node@[c as int] == cased_letter_tag(c) by {
        lemma_range_entry(constant_table(0), LOWER_A, LOWER_Z, 0xFF, c);
        lemma_range_entry(lower@, UPPER_A, UPPER_Z, 0xF0, c);
    }
    node
}

/// Creates a table that tags each byte by its character class, as
/// `character_tag` lays the classes over one another.
pub fn create_mapper_for_character() -> (node: MapperNode)
    ensures
        forall|c: u8| #[trigger] node@[c as int] == character_tag(c),
{
    let digits = MapperNode::new().with_range(
        byte_range(DIGIT_ZERO, DIGIT_NINE).as_slice(),
        0b0000_0001,
    );
    let lower = digits.with_range(byte_range(LOWER_A, LOWER_Z).as_slice(), 0b0000_0010);
    let upper = lower.with_range(byte_range(UPPER_A, UPPER_Z).as_slice(), 0b0000_0100);
    let printable = upper.with_range(byte_range(EXCLAMATION, TILDE).as_slice(), 0b0000_1000);
    let node = printable.with_range(byte_range(SPACE, LINE_FEED).as_slice(), 0b0001_0000);
    assert forall|c: u8| #[trigger] node@[c as int] == character_tag(c) by {
        lemma_range_entry(constant_table(0), DIGIT_ZERO, DIGIT_NINE, 0x01, c);
        lemma_range_entry(digits@, LOWER_A, LOWER_Z, 0x02, c);
        lemma_range_entry(lower@, UPPER_A, UPPER_Z, 0x04, c);
        lemma_range_entry(upper@, EXCLAMATION, TILDE, 0x08, c);
        lemma_range_entry(printable@, SPACE, LINE_FEED, 0x10, c);
    }
    node
}

/// Creates a table that maps the outer inputs low and the middle inputs
/// high: the identity below 128, and 255 minus the input from 128 on.
pub fn create_mapper_pyramid() -> (node: MapperNode)
    ensures
        forall|c: u8| #[trigger] node@[c as int] == pyramid(c),
{
    let shape = |x: usize| -> (r: u8)
        requires x < 256
        ensures r == pyramid(x as u8)
    {
        let y: u8 = x as u8;
        if y < 128 {
            y
        } else {
            255 - y
        }
    };
    let node = MapperNode::new_transformation(shape);
    assert forall|c: u8| #[trigger] node@[c as int] == pyramid(c) by {
        assert(node@[(c as usize) as int] == pyramid(c));
    }
    node
}

/// Creates a table with the shape of `create_mapper_pyramid` turned upside
/// down: 255 minus the input below 128, and the identity from 128 on.
pub fn create_mapper_pyramid_inverted() -> (node: MapperNode)
    ensures
        forall|c: u8| #[trigger] node@[c as int] == pyramid_inverted(c),
{
    let shape = |x: usize| -> (r: u8)
        requires x < 256
        ensures r == pyramid_inverted(x as u8)
    {
        let y: u8 = x as u8;
        if y < 128 {
            255 - y
        } else {
            y
        }
    };
    let node = MapperNode::new_transformation(shape);
    assert forall|c: u8| #[trigger] node@[c as int] == pyramid_inverted(c) by {
        assert(node@[(c as usize) as int] == pyramid_inverted(c));
    }
    node
}

} // verus!
