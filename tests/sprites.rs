use heart_man::addr::{Addr, RegWrite};
use heart_man::sprites::{dma, SpritePos, SpriteState, OFFSCREEN_Y, SPRITE_CAPACITY};
use heart_man::vec2::Vec2;

#[test]
fn new_table_is_blank() {
    let s = SpriteState::default();
    let t = s.table();
    assert_eq!(t.len(), 256);
    for (i, b) in t.iter().enumerate() {
        assert_eq!(*b, if i % 4 == 0 { OFFSCREEN_Y } else { 0 });
    }
}

#[test]
fn add_fills_records_in_order_until_full() {
    let mut s = SpriteState::new();
    assert_eq!(s.add(10, 20, 0x63, 1), Ok(()));
    assert_eq!(s.add_at_pos(&Vec2 { x: 30, y: 40 }, 0x5f, 0), Ok(()));
    assert_eq!(&s.table()[0..8], &[20, 0x63, 1, 10, 40, 0x5f, 0, 30]);
    for _ in 2..SPRITE_CAPACITY {
        assert_eq!(s.add(1, 2, 3, 4), Ok(()));
    }
    let before = s.table().to_vec();
    assert_eq!(s.add(9, 9, 9, 9), Err(()));
    assert_eq!(s.table(), &before[..]);
    s.clear();
    assert_eq!(&s.table()[0..4], &[OFFSCREEN_Y, 0, 0, 0]);
    assert_eq!(s.add(5, 6, 7, 8), Ok(()));
    assert_eq!(&s.table()[0..4], &[6, 7, 8, 5]);
}

#[test]
fn sprite_position_adds_the_margins() {
    let p = SpritePos::from_pos(&Vec2 { x: 10, y: 20 });
    assert_eq!((p.0.x, p.0.y), (26, 35));
    let q = SpritePos::from_pos(&Vec2 { x: 250, y: 0 });
    assert_eq!((q.0.x, q.0.y), (10, 15));
}

#[test]
fn dma_starts_at_zero_and_sends_page_two() {
    assert_eq!(
        dma(),
        [
            RegWrite { at: Addr(0x2003), value: 0 },
            RegWrite { at: Addr(0x4014), value: 2 },
        ]
    );
}
