use jrny_save::{Robe, RobeColor, RobeError};

fn robe(value: u32) -> Robe {
    Robe::new(value).expect("robe value in range")
}

#[test]
fn robe_change_robe_color() {
    // lowest red tier
    let mut robe_value = robe(0);

    assert_eq!(robe_value.color(), RobeColor::Red);
    assert_eq!(robe_value.tier(), 1);

    robe_value.set_color(RobeColor::White);

    assert_eq!(robe_value.color(), RobeColor::White);
    assert_eq!(robe_value.tier(), 2);

    robe_value.set_color(RobeColor::Red);

    assert_eq!(robe_value.color(), RobeColor::Red);
    assert_eq!(robe_value.tier(), 2);

    // highest red tier
    let mut robe_value = robe(3);

    assert_eq!(robe_value.color(), RobeColor::Red);
    assert_eq!(robe_value.tier(), 4);

    robe_value.set_color(RobeColor::White);

    assert_eq!(robe_value.color(), RobeColor::White);
    assert_eq!(robe_value.tier(), 4);

    robe_value.set_color(RobeColor::Red);

    assert_eq!(robe_value.color(), RobeColor::Red);
    assert_eq!(robe_value.tier(), 4);
}

#[test]
fn change_red_robe_tier() {
    let mut robe_value = robe(0);

    for tier in 1..=4 {
        robe_value.set_tier(tier).unwrap();
        assert_eq!(robe_value.tier(), tier, "unexpected tier");
        assert_eq!(robe_value.color(), RobeColor::Red, "unexpected color");
    }
}

#[test]
fn change_white_robe_tier() {
    let mut robe_value = robe(4);

    let result = robe_value.set_tier(1);
    assert_eq!(result, Err(RobeError::WhiteTierMinimum));

    for (tier, expected) in (2..=4).zip([2, 3, 4]) {
        robe_value.set_tier(tier).unwrap();
        assert_eq!(robe_value.tier(), expected, "unexpected tier");
        assert_eq!(robe_value.color(), RobeColor::White, "unexpected color");
    }
}

#[test]
fn robe_color_by_raw_value() {
    for value in 0..=7u32 {
        let expected = if value <= 3 { RobeColor::Red } else { RobeColor::White };
        assert_eq!(robe(value).color(), expected, "value {}", value);
    }
}

#[test]
fn robe_tier_by_raw_value() {
    let tiers = [1, 2, 3, 4, 2, 3, 4, 5];
    for value in 0..=7u32 {
        assert_eq!(robe(value).tier(), tiers[value as usize], "value {}", value);
    }
}

#[test]
fn robe_color_there_and_back() {
    for value in 0..=7u32 {
        let mut r = robe(value);
        let back = r.color();
        r.swap_colors();
        r.set_color(back);
        let expected = match value {
            0 => 1,
            7 => 6,
            v => v,
        };
        assert_eq!(r.value(), expected, "value {}", value);
    }
}

#[test]
fn robe_set_color_raw_values() {
    let mut r = robe(0);
    r.set_color(RobeColor::White);
    assert_eq!(r.value(), 4);

    let mut r = robe(2);
    r.set_color(RobeColor::White);
    assert_eq!(r.value(), 5);

    let mut r = robe(6);
    r.set_color(RobeColor::Red);
    assert_eq!(r.value(), 3);

    let mut r = robe(5);
    r.set_color(RobeColor::White);
    assert_eq!(r.value(), 5);

    let mut r = robe(7);
    r.set_color(RobeColor::Red);
    assert_eq!(r.value(), 3);
    assert_eq!(r.color(), RobeColor::Red);
    assert_eq!(r.tier(), 4);
}

#[test]
fn set_color_always_gives_that_color() {
    for value in 0..=7u32 {
        for color in [RobeColor::Red, RobeColor::White] {
            let mut r = robe(value);
            r.set_color(color);
            assert_eq!(r.color(), color, "value {}", value);
            assert!(r.value() <= 7);
        }
    }
}

#[test]
fn white_robe_refuses_tier_one() {
    for value in 4..=7u32 {
        let mut r = robe(value);
        assert_eq!(r.set_tier(1), Err(RobeError::WhiteTierMinimum));
        assert_eq!(r.value(), value);
    }
}

#[test]
fn robe_tier_out_of_range() {
    let mut r = robe(2);
    assert_eq!(r.set_tier(0), Err(RobeError::TierOutOfRange));
    assert_eq!(r.set_tier(5), Err(RobeError::TierOutOfRange));
    assert_eq!(r.value(), 2);
}

#[test]
fn robe_tier_steps() {
    let mut r = robe(3);
    r.increase_tier();
    assert_eq!(r.value(), 3);
    r.decrease_tier();
    assert_eq!(r.value(), 2);

    let mut r = robe(4);
    r.decrease_tier();
    assert_eq!(r.value(), 4);
    r.increase_tier();
    assert_eq!(r.value(), 5);

    let mut r = robe(0);
    r.decrease_tier();
    assert_eq!(r.value(), 0);
}

#[test]
fn robe_rejects_large_values() {
    assert!(Robe::new(8).is_none());
    assert!(Robe::new(7).is_some());
}

#[test]
fn robe_color_parsing() {
    assert_eq!("red".parse::<RobeColor>(), Ok(RobeColor::Red));
    assert_eq!("White".parse::<RobeColor>(), Ok(RobeColor::White));
    assert_eq!("blue".parse::<RobeColor>(), Err(RobeError::InvalidColor));
    assert_eq!(RobeColor::White.name(), "White");
}
