use heart_man::addr::Addr;
use heart_man::ppu_buffer::{render_bytes, Buffer, BufferError, PpuWrite};

#[test]
fn runs_drain_in_order() {
    let mut b: Buffer<40> = Buffer::new();
    assert_eq!(b.tiles(Addr(0x2021), &[1, 2, 3]), Ok(()));
    assert_eq!(b.tile(Addr(0x2100), 9), Ok(()));
    assert_eq!(b.len(), 10);
    assert_eq!(
        b.render(),
        vec![
            PpuWrite::AddrByte(0x20),
            PpuWrite::AddrByte(0x21),
            PpuWrite::Data(1),
            PpuWrite::Data(2),
            PpuWrite::Data(3),
            PpuWrite::AddrByte(0x21),
            PpuWrite::AddrByte(0x00),
            PpuWrite::Data(9),
        ]
    );
}

#[test]
fn empty_queue_drains_to_nothing() {
    let b: Buffer<8> = Buffer::new();
    assert!(b.render().is_empty());
    assert_eq!(b.len(), 0);
}

#[test]
fn clear_after_a_drain_leaves_nothing() {
    let mut b: Buffer<20> = Buffer::new();
    b.tiles(Addr(0x2000), &[7, 7]).unwrap();
    assert_eq!(b.render().len(), 4);
    b.clear();
    assert!(b.render().is_empty());
    b.tile(Addr(0x2345), 1).unwrap();
    assert_eq!(
        b.render(),
        vec![PpuWrite::AddrByte(0x23), PpuWrite::AddrByte(0x45), PpuWrite::Data(1)]
    );
}

#[test]
fn full_queue_refuses_and_keeps_its_runs() {
    let mut b: Buffer<6> = Buffer::new();
    assert_eq!(b.tiles(Addr(0x2000), &[1, 2, 3]), Ok(()));
    let before = b.render();
    assert_eq!(b.tile(Addr(0x2001), 4), Err(BufferError::Full));
    assert_eq!(b.render(), before);
    assert_eq!(b.len(), 6);
}

#[test]
fn long_run_is_refused() {
    let mut b: Buffer<600> = Buffer::new();
    let xs = vec![0u8; 256];
    assert_eq!(b.tiles(Addr(0x2000), &xs), Err(BufferError::RunTooLong));
    assert_eq!(b.tiles(Addr(0x2000), &xs[..255]), Ok(()));
    assert_eq!(b.len(), 258);
}

#[test]
fn empty_run_queues_nothing() {
    let mut b: Buffer<4> = Buffer::new();
    assert_eq!(b.tiles(Addr(0x2000), &[]), Ok(()));
    assert_eq!(b.len(), 0);
}

#[test]
fn text_is_shifted_into_the_character_tiles() {
    let mut b: Buffer<20> = Buffer::new();
    b.draw_text(Addr(0x202f), " IS DEAD").unwrap();
    let w = b.render();
    assert_eq!(w.len(), 10);
    let tiles: Vec<u8> = w[2..]
        .iter()
        .map(|x| match x {
            PpuWrite::Data(t) => *t,
            PpuWrite::AddrByte(_) => panic!("address in tile data"),
        })
        .collect();
    assert_eq!(tiles, vec![0, 41, 51, 0, 36, 37, 33, 36]);
}

#[test]
fn raw_bytes_decode_by_the_state_machine() {
    assert_eq!(
        render_bytes(&[2, 0x20, 0x00, 5, 6, 1, 0x21, 0x10, 7]),
        vec![
            PpuWrite::AddrByte(0x20),
            PpuWrite::AddrByte(0x00),
            PpuWrite::Data(5),
            PpuWrite::Data(6),
            PpuWrite::AddrByte(0x21),
            PpuWrite::AddrByte(0x10),
            PpuWrite::Data(7),
        ]
    );
    assert_eq!(render_bytes(&[3, 0x20]), vec![PpuWrite::AddrByte(0x20)]);
    assert!(render_bytes(&[]).is_empty());
}
