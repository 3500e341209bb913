use bft::CellKind;

#[test]
fn increment_wraps_at_the_top() {
    let mut x: u8 = 255;
    assert_eq!(x.wrapping_increment(1), 0);
    assert_eq!(x, 0);
}

#[test]
fn decrement_wraps_at_zero() {
    let mut x: u8 = 0;
    assert_eq!(x.wrapping_decrement(1), 255);
    assert_eq!(x, 255);
}

#[test]
fn add_and_subtract_without_wrapping() {
    let mut x: u8 = 25;
    assert_eq!(x.wrapping_increment(25), 50);
    let mut y: u8 = 25;
    assert_eq!(y.wrapping_decrement(25), 0);
}

#[test]
fn add_and_subtract_larger_amounts_wrap() {
    let mut x: u8 = 252;
    assert_eq!(x.wrapping_increment(7), 3);
    let mut y: u8 = 4;
    assert_eq!(y.wrapping_decrement(6), 254);
    let mut z: u8 = 255;
    assert_eq!(z.wrapping_increment(255), 254);
    let mut w: u8 = 0;
    assert_eq!(w.wrapping_decrement(255), 1);
}

#[test]
fn increment_then_decrement_restores_every_value() {
    for x in 0..=255u8 {
        for n in 0..=255u8 {
            let mut cell = x;
            cell.wrapping_increment(n);
            cell.wrapping_decrement(n);
            assert_eq!(cell, x);
        }
    }
}
