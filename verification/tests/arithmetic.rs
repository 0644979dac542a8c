use rgb24::Rgb24;

#[test]
fn add() {
    let a = Rgb24::new(255, 0, 200);
    let b = Rgb24::new(0, 255, 200);
    let c = a.saturating_add(b);
    assert_eq!(c, Rgb24::new(255, 255, 255));
}

#[test]
fn sub() {
    let a = Rgb24::new(255, 0, 200);
    let b = Rgb24::new(0, 255, 200);
    let c = a.saturating_sub(b);
    assert_eq!(c, Rgb24::new(255, 0, 0));
}

#[test]
fn mul_div() {
    assert_eq!(
        Rgb24::new(1, 2, 3).saturating_scalar_mul_div(1500, 1000),
        Rgb24::new(1, 3, 4)
    );
    assert_eq!(
        Rgb24::new(1, 2, 3).saturating_scalar_mul_div(1500, 1),
        Rgb24::new(255, 255, 255)
    );
}

#[test]
fn mul() {
    assert_eq!(
        Rgb24::new(20, 40, 60).saturating_scalar_mul(2),
        Rgb24::new(40, 80, 120),
    );
    assert_eq!(
        Rgb24::new(20, 40, 60).saturating_scalar_mul(10000),
        Rgb24::new(255, 255, 255),
    );
}

#[test]
fn div() {
    assert_eq!(Rgb24::new(20, 40, 60).scalar_div(2), Rgb24::new(10, 20, 30));
    assert_eq!(
        Rgb24::new(255, 255, 255).scalar_div(256),
        Rgb24::new(0, 0, 0)
    );
}

#[test]
#[should_panic]
fn div_by_zero() {
    Rgb24::new(0, 0, 0).scalar_div(0);
}

#[test]
fn normalised_mul() {
    assert_eq!(
        Rgb24::new(255, 255, 255).normalised_mul(Rgb24::new(1, 2, 3)),
        Rgb24::new(1, 2, 3)
    );
    assert_eq!(
        Rgb24::new(255, 127, 0).normalised_mul(Rgb24::new(10, 20, 30)),
        Rgb24::new(10, 9, 0)
    );
}

#[test]
fn grey() {
    assert_eq!(Rgb24::new_grey(37), Rgb24::new(37, 37, 37));
}

#[test]
fn floor() {
    assert_eq!(Rgb24::new(100, 5, 0).floor(10), Rgb24::new(100, 10, 10));
}

#[test]
fn ceil() {
    assert_eq!(Rgb24::new(255, 250, 20).ceil(200), Rgb24::new(200, 200, 20));
}

#[test]
fn normalised_scalar_mul() {
    assert_eq!(
        Rgb24::new(255, 128, 0).normalised_scalar_mul(128),
        Rgb24::new(128, 64, 0)
    );
}

#[test]
fn mul_by_one_is_identity() {
    assert_eq!(
        Rgb24::new(0, 123, 255).saturating_scalar_mul(1),
        Rgb24::new(0, 123, 255)
    );
}

#[test]
fn mul_div_rounds_down() {
    assert_eq!(
        Rgb24::new(0, 1, 255).saturating_scalar_mul_div(1, 2),
        Rgb24::new(0, 0, 127)
    );
}

#[test]
fn add_at_extremes() {
    assert_eq!(
        Rgb24::new(255, 255, 255).saturating_add(Rgb24::new(255, 255, 255)),
        Rgb24::new(255, 255, 255)
    );
    assert_eq!(
        Rgb24::new(0, 0, 0).saturating_add(Rgb24::new(0, 0, 0)),
        Rgb24::new(0, 0, 0)
    );
}

#[test]
fn sub_at_extremes() {
    assert_eq!(
        Rgb24::new(0, 0, 0).saturating_sub(Rgb24::new(255, 255, 255)),
        Rgb24::new(0, 0, 0)
    );
}

#[test]
fn floor_zero_is_noop() {
    assert_eq!(Rgb24::new(0, 128, 255).floor(0), Rgb24::new(0, 128, 255));
}

#[test]
fn ceil_255_is_noop() {
    assert_eq!(Rgb24::new(0, 128, 255).ceil(255), Rgb24::new(0, 128, 255));
}

#[test]
fn normalised_mul_by_black_is_black() {
    assert_eq!(
        Rgb24::new(0, 0, 0).normalised_mul(Rgb24::new(13, 77, 255)),
        Rgb24::new(0, 0, 0)
    );
}
