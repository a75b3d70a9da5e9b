use piano_keyboard::ConfigurationError;
use piano_keyboard::Element;
use piano_keyboard::KeyboardBuilder;
use piano_keyboard::base::Base;
use piano_keyboard::base::ResultElement;

#[test]
fn test_standard_pianos() -> Result<(), ConfigurationError> {
    let _keyboard = KeyboardBuilder::new()
        .standard_piano(88)?
        .standard_piano(76)?
        .standard_piano(73)?
        .standard_piano(64)?
        .standard_piano(61)?
        .standard_piano(49)?
        .standard_piano(37)?
        .standard_piano(25)?
        .set_width(800)
        .unwrap()
        .build2d()
        .unwrap();
    Ok(())
}

#[test]
fn test_max_width() {
    let _keyboard = KeyboardBuilder::new()
        .set_most_left_right_white_keys(0, 127)
        .unwrap()
        .set_width(65535 - 127)
        .unwrap()
        .build2d()
        .unwrap();
}

#[test]
fn test_several_widths() {
    for width in 65000..65535 - 127 {
        let _keyboard = KeyboardBuilder::new()
            .set_most_left_right_white_keys(0, 127)
            .unwrap()
            .set_width(width)
            .unwrap()
            .build2d()
            .unwrap();
    }
}

fn units_for(left: u8, right: u8, width: u16) -> (bool, Vec<ResultElement>) {
    let kb = KeyboardBuilder::new()
        .set_most_left_right_white_keys(left, right)
        .unwrap()
        .set_width(width)
        .unwrap();
    let base = Base::calculate(&kb).unwrap();
    base.result()
}

fn unit_sum(units: &[ResultElement]) -> u32 {
    units
        .iter()
        .map(|u| match u {
            ResultElement::Key(w, _) => *w as u32,
            ResultElement::Gap(w) => *w as u32,
        })
        .sum()
}

#[test]
fn units_sum_exactly_to_width() {
    for width in [0u16, 1, 640, 800, 811, 4093, 65000, 65408] {
        let (_perfect, units) = units_for(21, 108, width);
        assert_eq!(unit_sum(&units), width as u32);
        assert_eq!(units.len(), 2 * 52 + 1);
    }
}

#[test]
fn eighty_eight_keys_at_800() {
    let kb = KeyboardBuilder::new()
        .standard_piano(88)
        .unwrap()
        .set_width(800)
        .unwrap();
    let keyboard = kb.build2d().unwrap();
    assert_eq!(keyboard.width, 800);
    assert!(keyboard.height > 0);
    assert_eq!(keyboard.left_white_key, 21);
    assert_eq!(keyboard.right_white_key, 108);
    // 52 white keys and 36 black keys, alternating left to right.
    assert_eq!(keyboard.iter().len(), 52 + 36);
    assert_eq!(keyboard.white_keys(false).len(), 2 * 52);
    assert_eq!(keyboard.black_keys().len(), 36);
    // The leftmost key is an A and the rightmost a C: both end in a blind.
    assert_eq!(keyboard.white_keys(true).len(), 2 * 52 + 2);
}

#[test]
fn rebuilding_gives_identical_layout() {
    let make = || {
        KeyboardBuilder::new()
            .standard_piano(88)
            .unwrap()
            .set_width(799)
            .unwrap()
            .build2d()
            .unwrap()
    };
    let first = make();
    let second = make();
    assert_eq!(first.width, second.width);
    assert_eq!(first.height, second.height);
    assert_eq!(first.is_perfect(), second.is_perfect());
    assert_eq!(first.iter().as_slice(), second.iter().as_slice());
}

#[test]
fn perfect_layouts_are_uniform() {
    let mut found = 0u32;
    for width in 600..1200u16 {
        let (perfect, units) = units_for(21, 108, width);
        if !perfect {
            continue;
        }
        found += 1;
        let mut key_width = None;
        let mut gap_width = None;
        for u in &units {
            match u {
                ResultElement::Key(w, _) => {
                    assert_eq!(*key_width.get_or_insert(*w), *w);
                }
                ResultElement::Gap(w) => {
                    assert_eq!(*gap_width.get_or_insert(*w), *w);
                }
            }
        }
    }
    assert!(found > 0);
}

#[test]
fn wide_rectangles_tile_the_lower_band() {
    for width in [640u16, 800, 801, 811, 12345] {
        let keyboard = KeyboardBuilder::new()
            .standard_piano(88)
            .unwrap()
            .set_width(width)
            .unwrap()
            .build2d()
            .unwrap();
        // White wide rectangles and the gaps between them cover the width:
        // consecutive rectangles never overlap and never pass the edge.
        let mut last_end = 0u32;
        for el in keyboard.iter() {
            if let Element::WhiteKey { wide, .. } = el {
                assert!(wide.x as u32 >= last_end);
                last_end = wide.x as u32 + wide.width as u32;
                assert!(last_end <= width as u32);
            }
        }
    }
}

#[test]
fn standard_sizes_map_to_expected_ranges() {
    let kb = KeyboardBuilder::new().standard_piano(64).unwrap();
    assert_eq!(kb.left_white_key, 33);
    assert_eq!(kb.right_white_key, 96);
    let kb = KeyboardBuilder::new().standard_piano(25).unwrap();
    assert_eq!(kb.right_white_key - kb.left_white_key + 1, 25);
    let kb = KeyboardBuilder::new().is_rd64();
    assert_eq!(kb.left_white_key, 33);
    assert_eq!(kb.right_white_key, 96);
    assert_eq!(
        KeyboardBuilder::new().standard_piano(50).unwrap_err(),
        ConfigurationError::UnknownStandardSize
    );
}

#[test]
fn key_range_validation_reports_each_error() {
    let check = |l, r| {
        KeyboardBuilder::new()
            .set_most_left_right_white_keys(l, r)
            .map(|_| ())
            .unwrap_err()
    };
    assert_eq!(check(60, 50), ConfigurationError::LeftKeyRightOfRightKey);
    assert_eq!(check(200, 210), ConfigurationError::LeftKeyOutOfRange);
    assert_eq!(check(60, 200), ConfigurationError::RightKeyOutOfRange);
    assert_eq!(check(60, 64), ConfigurationError::SpanBelowOneOctave);
    assert_eq!(check(61, 72), ConfigurationError::LeftKeyNotWhite);
    assert_eq!(check(60, 73), ConfigurationError::RightKeyNotWhite);
    assert!(KeyboardBuilder::new()
        .set_most_left_right_white_keys(60, 72)
        .is_ok());
}

#[test]
fn width_validation_rejects_oversized_widths() {
    assert_eq!(
        KeyboardBuilder::new().set_width(65535).unwrap_err(),
        ConfigurationError::WidthTooLarge
    );
    assert_eq!(
        KeyboardBuilder::new().set_width(65535 - 128).unwrap().width,
        65535 - 128
    );
}

#[test]
fn white_black_gap_can_be_removed() {
    let with_gap = KeyboardBuilder::new()
        .set_width(800)
        .unwrap()
        .build2d()
        .unwrap();
    let without_gap = KeyboardBuilder::new()
        .white_black_gap_present(false)
        .set_width(800)
        .unwrap()
        .build2d()
        .unwrap();
    assert_eq!(with_gap.black_keys().len(), without_gap.black_keys().len());
    // Without the gap the black keys sit taller against the white keys.
    assert!(without_gap.height <= with_gap.height);
}

#[test]
fn twenty_five_keys_have_fifteen_whites() {
    let keyboard = KeyboardBuilder::new()
        .standard_piano(25)
        .unwrap()
        .set_width(400)
        .unwrap()
        .build2d()
        .unwrap();
    assert_eq!(keyboard.white_keys(false).len(), 2 * 15);
    assert_eq!(keyboard.black_keys().len(), 10);
    assert_eq!(keyboard.iter().len(), 25);
}

#[test]
fn is_white_classifies_the_octave() {
    let whites = [0u8, 2, 4, 5, 7, 9, 11];
    for key in 0u8..128 {
        assert_eq!(
            KeyboardBuilder::is_white(key),
            whites.contains(&(key % 12))
        );
    }
}
