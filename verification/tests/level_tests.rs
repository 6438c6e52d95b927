use soundwave::level::{component_level, FRACTIONS, INFINITY_BITS, SIGN_BIT};

fn level(value: f32) -> u32 {
    component_level(value.to_bits())
}

#[test]
fn constants_of_the_bit_pattern() {
    assert_eq!(SIGN_BIT, 0x8000_0000);
    assert_eq!(INFINITY_BITS, f32::INFINITY.to_bits());
    assert_eq!(FRACTIONS, 1 << 23);
}

#[test]
fn level_of_known_patterns() {
    assert_eq!(component_level(0x0000_0000), 0x8000_0000);
    assert_eq!(component_level(0x8000_0000), 0x8000_0000);
    assert_eq!(component_level(0x3F80_0000), 0xBF80_0000);
    assert_eq!(component_level(0xBF80_0000), 0x4080_0000);
    assert_eq!(component_level(0x0000_0001), 0x8000_0001);
    assert_eq!(component_level(0x8000_0001), 0x7FFF_FFFF);
    assert_eq!(component_level(0x7F7F_FFFF), 0xFF7F_FFFF);
    assert_eq!(component_level(0xFF7F_FFFF), 0x0080_0001);
    assert_eq!(component_level(0x7F80_0000), 0xFF80_0000);
    assert_eq!(component_level(0xFF80_0000), 0x0080_0000);
}

#[test]
fn level_of_what_is_no_number_is_zero() {
    assert_eq!(component_level(0x7F80_0001), 0);
    assert_eq!(component_level(0x7FC0_0000), 0);
    assert_eq!(component_level(0x7FFF_FFFF), 0);
    assert_eq!(component_level(0xFF80_0001), 0);
    assert_eq!(component_level(0xFFFF_FFFF), 0);
    assert_eq!(level(f32::NAN), 0);
    assert!(level(f32::NEG_INFINITY) > 0);
}

#[test]
fn both_zeros_have_one_level() {
    assert_eq!(level(0.0), level(-0.0));
}

#[test]
fn level_tells_fractions_apart() {
    assert!(level(0.9) > level(0.5));
    assert!(level(0.5) > level(0.1));
    assert!(level(0.1) > level(0.0));
    assert!(level(0.0) > level(-0.1));
    assert!(level(-0.1) > level(-0.5));
}

#[test]
fn level_keeps_the_order_of_the_numbers() {
    let values = [
        f32::NEG_INFINITY,
        f32::MIN,
        -1.0e30,
        -65536.5,
        -2.0,
        -1.0000001,
        -1.0,
        -0.75,
        -f32::MIN_POSITIVE,
        -1.0e-45,
        0.0,
        1.0e-45,
        1.0e-40,
        f32::MIN_POSITIVE,
        0.1,
        0.5,
        0.9,
        1.0,
        1.0000001,
        2.0,
        3.5,
        65536.5,
        1.0e30,
        f32::MAX,
        f32::INFINITY,
    ];
    for a in values.iter() {
        for b in values.iter() {
            assert_eq!(level(*a) < level(*b), a < b);
            assert_eq!(level(*a) == level(*b), a == b);
        }
    }
}

#[test]
fn level_keeps_the_order_of_neighbouring_patterns() {
    let starts = [0u32, 0x007F_FFF0, 0x3F7F_FFF0, 0x7F7F_FFE0, 0x0080_0000, 0x4000_0000];
    for start in starts {
        for bits in start..start + 31 {
            let (a, b) = (f32::from_bits(bits), f32::from_bits(bits + 1));
            assert!(a < b);
            assert!(component_level(bits) < component_level(bits + 1));
            let (c, d) = (f32::from_bits(bits | SIGN_BIT), f32::from_bits((bits + 1) | SIGN_BIT));
            assert!(d < c);
            assert!(component_level((bits + 1) | SIGN_BIT) < component_level(bits | SIGN_BIT));
        }
    }
}
