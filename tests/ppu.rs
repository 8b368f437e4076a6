use heart_man::ppu::{clear_nametable, draw_box, write_bytes, PpuOp};
use heart_man::ppu_buffer::PpuWrite;

fn a(b: u8) -> PpuOp {
    PpuOp::Write(PpuWrite::AddrByte(b))
}

fn d(b: u8) -> PpuOp {
    PpuOp::Write(PpuWrite::Data(b))
}

#[test]
fn palette_bytes_follow_their_address() {
    assert_eq!(
        write_bytes(0x3f00, &[0x0e, 0x30]),
        vec![
            PpuWrite::AddrByte(0x3f),
            PpuWrite::AddrByte(0x00),
            PpuWrite::Data(0x0e),
            PpuWrite::Data(0x30),
        ]
    );
    assert_eq!(write_bytes(0x3f13, &[]), vec![PpuWrite::AddrByte(0x3f), PpuWrite::AddrByte(0x13)]);
}

#[test]
fn nametable_is_cleared_from_its_start() {
    let w = clear_nametable();
    assert_eq!(w.len(), 2 + 0x400);
    assert_eq!(w[0], PpuWrite::AddrByte(0x20));
    assert_eq!(w[1], PpuWrite::AddrByte(0x00));
    assert!(w[2..].iter().all(|x| *x == PpuWrite::Data(0)));
}

#[test]
fn smallest_framed_box() {
    assert_eq!(
        draw_box(1, 1, 3, 3),
        vec![
            a(0x20), a(0x21), d(0x73), d(0x78), d(0x74),
            a(0x20), a(0x41), PpuOp::VerticalIncrement(true), d(0x77), d(0x75),
            a(0x20), a(0x43), d(0x77), d(0x76), PpuOp::VerticalIncrement(false),
            a(0x20), a(0x62), d(0x78),
        ]
    );
}

#[test]
fn two_by_two_box_has_only_corners() {
    assert_eq!(
        draw_box(0, 0, 2, 2),
        vec![
            a(0x20), a(0x00), d(0x73), d(0x74),
            a(0x20), a(0x20), PpuOp::VerticalIncrement(true), d(0x75),
            a(0x20), a(0x21), d(0x76), PpuOp::VerticalIncrement(false),
            a(0x20), a(0x21),
        ]
    );
}
