use roguelike::power::{Power, PowerType};
use roguelike::rect::Rect;

#[test]
fn new_power_is_uncollected_at_its_position() {
    let pos = Rect::new(5, 6, 64, 64);
    let p = Power::new(pos, PowerType::Rock);
    assert_eq!(p.x(), 5);
    assert_eq!(p.y(), 6);
    assert_eq!(p.pos(), pos);
    assert!(!p.collected());
    assert_eq!(*p.power_type(), PowerType::Rock);
}

#[test]
fn new_power_uses_one_tile_of_the_sheet() {
    let p = Power::new(Rect::new(-10, 20, 8, 8), PowerType::Empty);
    assert_eq!(p.src(), Rect::new(0, 0, 64, 64));
    assert_eq!(p.src().width(), 64);
    assert_eq!(p.src().height(), 64);
}

#[test]
fn set_collected_marks_only_collected() {
    let pos = Rect::new(1, 2, 3, 4);
    let mut p = Power::new(pos, PowerType::Shield);
    p.set_collected();
    assert!(p.collected());
    assert_eq!(p.pos(), pos);
    assert_eq!(*p.power_type(), PowerType::Shield);
    p.set_collected();
    assert!(p.collected());
}

#[test]
fn every_power_type_is_kept() {
    let kinds = [
        PowerType::Empty,
        PowerType::Fireball,
        PowerType::Slimeball,
        PowerType::Shield,
        PowerType::Dash,
        PowerType::Rock,
    ];
    for k in kinds.iter() {
        let p = Power::new(Rect::new(0, 0, 1, 1), *k);
        assert_eq!(p.power_type(), k);
    }
}
