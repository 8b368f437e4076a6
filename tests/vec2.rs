use heart_man::vec2::{inc_u8, DPos, Orientation, Pos, Sign, Vec2};

#[test]
fn inc_u8_wraps() {
    assert_eq!(inc_u8(10, -3), 7);
    assert_eq!(inc_u8(255, 1), 0);
    assert_eq!(inc_u8(0, -1), 255);
    assert_eq!(inc_u8(200, 100), 44);
}

#[test]
fn rotate_quarter_turns() {
    let d = DPos::new(2, 5);
    let c = d.rotate(Orientation::Clockwise);
    assert_eq!((c.x, c.y), (-5, 2));
    let w = d.rotate(Orientation::Widdershins);
    assert_eq!((w.x, w.y), (5, -2));
    let back = c.rotate(Orientation::Widdershins);
    assert_eq!((back.x, back.y), (2, 5));
}

#[test]
fn rotate_wraps_the_most_negative_value() {
    let d = DPos::new(0, -128);
    let c = d.rotate(Orientation::Clockwise);
    assert_eq!((c.x, c.y), (-128, 0));
}

#[test]
fn scaled_parts_and_zero() {
    let d = DPos::new(3, -4);
    let s = d.scaled(2);
    assert_eq!((s.x, s.y), (6, -8));
    let w = DPos::new(100, 0).scaled(2);
    assert_eq!(w.x, -56);
    assert_eq!(d.x_vec(), Vec2 { x: 3, y: 0 });
    assert_eq!(d.y_vec(), Vec2 { x: 0, y: -4 });
    assert_eq!(DPos::zero(), Vec2 { x: 0, y: 0 });
}

#[test]
fn shifted_and_inc_agree() {
    let p: Pos = Vec2::new(250, 3);
    let d = DPos::new(10, -5);
    let q = p.shifted(&d);
    assert_eq!((q.x, q.y), (4, 254));
    let mut r = p;
    r.inc(&d);
    assert_eq!(r, q);
}

#[test]
fn delta_and_l1() {
    let a: Pos = Vec2::new(10, 20);
    let b: Pos = Vec2::new(13, 15);
    let d = a.delta(&b);
    assert_eq!((d.x, d.y), (-3, 5));
    assert_eq!(a.l1_dist(&b), 8);
    assert_eq!(DPos::new(-7, 2).l1_norm(), 9);
}

#[test]
fn reverse_and_sign() {
    assert_eq!(Orientation::Clockwise.reverse(), Orientation::Widdershins);
    assert_eq!(Orientation::Widdershins.reverse(), Orientation::Clockwise);
    assert_eq!(Sign::Plus.to_i8(), 1);
    assert_eq!(Sign::Minus.to_i8(), -1);
}

