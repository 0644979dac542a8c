use rgb24::Rgb24;

#[test]
fn lerp_endpoints() {
    let low = Rgb24::new(10, 200, 0);
    let high = Rgb24::new(250, 20, 255);
    assert_eq!(low.linear_interpolate(high, 0), low);
    assert_eq!(low.linear_interpolate(high, 255), high);
}

#[test]
fn lerp_midpoint() {
    let low = Rgb24::new(0, 255, 100);
    let high = Rgb24::new(255, 0, 100);
    assert_eq!(low.linear_interpolate(high, 128), Rgb24::new(128, 127, 100));
}

#[test]
fn lerp_stays_between_endpoints() {
    let low = Rgb24::new(30, 220, 5);
    let high = Rgb24::new(200, 10, 250);
    let mut by: u16 = 0;
    while by <= 255 {
        let c = low.linear_interpolate(high, by as u8);
        assert!(c.r >= 30 && c.r <= 200);
        assert!(c.g >= 10 && c.g <= 220);
        assert!(c.b >= 5 && c.b <= 250);
        by += 1;
    }
}

#[test]
fn lerp_between_equal_endpoints_is_constant() {
    let c = Rgb24::new(9, 99, 199);
    assert_eq!(c.linear_interpolate(c, 77), c);
}
