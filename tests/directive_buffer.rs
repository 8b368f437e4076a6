use heart_man::directive_buffer::{render, Buffer, BufferDirective};
use heart_man::ppu_buffer::PpuWrite;

#[test]
fn directives_drain_up_to_done() {
    let mut b: Buffer<8> = Buffer::new();
    b.push(BufferDirective::Index(0x2345));
    b.extend(vec![BufferDirective::Tile(1), BufferDirective::Tile(2)]);
    b.push(BufferDirective::Done);
    b.push(BufferDirective::Tile(3));
    assert_eq!(
        render(&b),
        vec![
            PpuWrite::AddrByte(0x23),
            PpuWrite::AddrByte(0x45),
            PpuWrite::Data(1),
            PpuWrite::Data(2),
        ]
    );
    b.clear();
    assert!(render(&b).is_empty());
}
