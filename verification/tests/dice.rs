use emulbot::dice::{
    format_roll, parse_dice_notation, roll, roll_dice, total_of, DiceError, DiceNotation, DiceRoll,
};

#[test]
fn three_d_six_plus_two_is_read() {
    assert_eq!(
        parse_dice_notation("3d6+2"),
        Ok(DiceNotation { count: 3, sides: 6, modifier: 2 })
    );
}

#[test]
fn three_d_six_plus_two_rolls_within_bounds() {
    let notation = parse_dice_notation("3d6+2").unwrap();
    for _ in 0..200 {
        let outcome = roll(notation);
        assert_eq!(outcome.rolls.len(), 3);
        for value in &outcome.rolls {
            assert!(1 <= *value && *value <= 6);
        }
        assert_eq!(outcome.modifier, 2);
        assert_eq!(outcome.total, outcome.rolls.iter().sum::<u32>() as i64 + 2);
        assert!(5 <= outcome.total && outcome.total <= 20);
    }
}

#[test]
fn counts_and_sides_out_of_range_fail_validation() {
    assert_eq!(parse_dice_notation("0d6"), Err(DiceError::CountOutOfRange));
    assert_eq!(parse_dice_notation("101d6"), Err(DiceError::CountOutOfRange));
    assert_eq!(parse_dice_notation("1d0"), Err(DiceError::SidesOutOfRange));
    assert_eq!(parse_dice_notation("1d1001"), Err(DiceError::SidesOutOfRange));
    assert!(roll_dice("0d6").is_err());
    assert!(roll_dice("101d6").is_err());
    assert!(roll_dice("1d0").is_err());
    assert!(roll_dice("1d1001").is_err());
}

#[test]
fn limits_are_inclusive() {
    assert_eq!(
        parse_dice_notation("100d1000"),
        Ok(DiceNotation { count: 100, sides: 1000, modifier: 0 })
    );
    assert_eq!(parse_dice_notation("1d1"), Ok(DiceNotation { count: 1, sides: 1, modifier: 0 }));
}

#[test]
fn text_without_d_fails_parsing() {
    assert_eq!(parse_dice_notation("abc"), Err(DiceError::InvalidFormat));
    assert_eq!(parse_dice_notation(""), Err(DiceError::InvalidFormat));
    assert_eq!(parse_dice_notation("1d6d"), Err(DiceError::InvalidFormat));
    assert_eq!(parse_dice_notation("d"), Err(DiceError::InvalidCount));
    assert_eq!(parse_dice_notation("xd6"), Err(DiceError::InvalidCount));
    assert_eq!(parse_dice_notation("3D6"), Err(DiceError::InvalidFormat));
}

#[test]
fn each_error_has_its_input_and_text() {
    assert_eq!(
        DiceError::InvalidFormat.message("abc"),
        "Invalid dice notation format: abc"
    );
    assert_eq!(parse_dice_notation("-1d6"), Err(DiceError::InvalidCount));
    assert_eq!(DiceError::InvalidCount.message("-1d6"), "Invalid number of dice");
    assert_eq!(
        DiceError::CountOutOfRange.message("0d6"),
        "Number of dice must be between 1 and 100."
    );
    assert_eq!(parse_dice_notation("1dx"), Err(DiceError::InvalidSides));
    assert_eq!(parse_dice_notation("1d"), Err(DiceError::InvalidSides));
    assert_eq!(parse_dice_notation("1d6-1+2"), Err(DiceError::InvalidSides));
    assert_eq!(DiceError::InvalidSides.message("1dx"), "Invalid number of sides");
    assert_eq!(parse_dice_notation("1d6+"), Err(DiceError::InvalidModifier));
    assert_eq!(parse_dice_notation("1d6+x"), Err(DiceError::InvalidModifier));
    assert_eq!(parse_dice_notation("1d6+2147483648"), Err(DiceError::InvalidModifier));
    assert_eq!(parse_dice_notation("1d6--2147483648"), Err(DiceError::InvalidModifier));
    assert_eq!(DiceError::InvalidModifier.message("1d6+"), "Invalid modifier");
    assert_eq!(
        DiceError::SidesOutOfRange.message("1d0"),
        "Number of sides must be between 1 and 1000."
    );
    // The sides are read before the modifier, and judged after it.
    assert_eq!(parse_dice_notation("1d0+x"), Err(DiceError::InvalidModifier));
    assert_eq!(parse_dice_notation("0dx"), Err(DiceError::CountOutOfRange));
}

#[test]
fn signs_are_read_as_the_number_parser_reads_them() {
    assert_eq!(parse_dice_notation("+3d+6"), Err(DiceError::InvalidSides));
    assert_eq!(parse_dice_notation("+3d6"), Ok(DiceNotation { count: 3, sides: 6, modifier: 0 }));
    assert_eq!(parse_dice_notation("2d10-3"), Ok(DiceNotation { count: 2, sides: 10, modifier: -3 }));
    assert_eq!(parse_dice_notation("2d10+-3"), Ok(DiceNotation { count: 2, sides: 10, modifier: -3 }));
    assert_eq!(parse_dice_notation("2d10--3"), Ok(DiceNotation { count: 2, sides: 10, modifier: 3 }));
    assert_eq!(parse_dice_notation("2d10-+3"), Err(DiceError::InvalidSides));
    assert_eq!(parse_dice_notation("2d010+007"), Ok(DiceNotation { count: 2, sides: 10, modifier: 7 }));
    assert_eq!(
        parse_dice_notation("1d6-2147483647"),
        Ok(DiceNotation { count: 1, sides: 6, modifier: -2147483647 })
    );
    assert_eq!(parse_dice_notation(" 1d6"), Err(DiceError::InvalidCount));
}

#[test]
fn total_is_sum_plus_modifier() {
    assert_eq!(total_of(&vec![1, 2, 3], 2), 8);
    assert_eq!(total_of(&vec![], -5), -5);
    assert_eq!(total_of(&vec![1000; 100], 2147483647), 100_000 + 2147483647);
}

#[test]
fn report_has_the_exact_shape() {
    let outcome = DiceRoll { rolls: vec![1, 2, 3], modifier: 2, total: 8 };
    assert_eq!(format_roll("3d6+2", &outcome), "Rolled 3d6+2: [1, 2, 3]  + 2 = 8");
    let outcome = DiceRoll { rolls: vec![3, 4], modifier: 0, total: 7 };
    assert_eq!(format_roll("2d6", &outcome), "Rolled 2d6: [3, 4]  = 7");
    let outcome = DiceRoll { rolls: vec![1], modifier: -3, total: -2 };
    assert_eq!(format_roll("1d4-3", &outcome), "Rolled 1d4-3: [1]  - 3 = -2");
    let outcome = DiceRoll { rolls: vec![], modifier: 0, total: 0 };
    assert_eq!(format_roll("x", &outcome), "Rolled x: []  = 0");
}

#[test]
fn roll_dice_reports_a_roll() {
    for _ in 0..50 {
        let report = roll_dice("2d6").unwrap();
        assert!(report.starts_with("Rolled 2d6: ["));
        let inner = &report["Rolled 2d6: [".len()..];
        let (values, rest) = inner.split_once("]  = ").unwrap();
        let rolls: Vec<i64> = values.split(", ").map(|v| v.parse().unwrap()).collect();
        assert_eq!(rolls.len(), 2);
        assert!(rolls.iter().all(|v| 1 <= *v && *v <= 6));
        assert_eq!(rest.parse::<i64>().unwrap(), rolls.iter().sum::<i64>());
    }
}

#[test]
fn one_sided_die_always_shows_one() {
    let outcome = roll(DiceNotation { count: 5, sides: 1, modifier: 0 });
    assert_eq!(outcome.rolls, vec![1, 1, 1, 1, 1]);
    assert_eq!(outcome.total, 5);
}

#[test]
fn dice_show_more_than_one_face() {
    let outcome = roll(DiceNotation { count: 100, sides: 1000, modifier: 0 });
    let first = outcome.rolls[0];
    assert!(outcome.rolls.iter().any(|v| *v != first));
}
