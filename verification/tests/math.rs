use bevy_entitiles::math::{div_to_floor, IVec2};

#[test]
fn division_rounds_down() {
    assert_eq!(div_to_floor(7, 2), 3);
    assert_eq!(div_to_floor(-7, 2), -4);
    assert_eq!(div_to_floor(-8, 2), -4);
    assert_eq!(div_to_floor(-1, 16), -1);
    assert_eq!(div_to_floor(0, 16), 0);
    assert_eq!(div_to_floor(15, 16), 0);
    assert_eq!(div_to_floor(16, 16), 1);
    assert_eq!(div_to_floor(-16, 16), -1);
    assert_eq!(div_to_floor(-17, 16), -2);
    assert_eq!(div_to_floor(i32::MIN, 1), i32::MIN);
    assert_eq!(div_to_floor(i32::MAX, 1), i32::MAX);
    assert_eq!(div_to_floor(i32::MIN, i32::MAX), -2);
    assert_eq!(div_to_floor(i32::MIN, 2), -1073741824);
    assert_eq!(div_to_floor(i32::MIN + 1, 2), -1073741824);
}

#[test]
fn division_agrees_with_euclid() {
    for a in -50..50 {
        for b in 1..9 {
            assert_eq!(div_to_floor(a, b), a.div_euclid(b));
        }
    }
}

#[test]
fn vectors_divide_by_coordinate() {
    assert_eq!(IVec2::splat(4), IVec2 { x: 4, y: 4 });
    let v = IVec2 { x: -9, y: 9 };
    assert_eq!(v.div_to_floor(IVec2 { x: 4, y: 2 }), IVec2 { x: -3, y: 4 });
    assert_eq!(v.div_to_floor(IVec2::splat(10)), IVec2 { x: -1, y: 0 });
}
