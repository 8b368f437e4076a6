use heart_man::addr::{debug_value, Addr, RegWrite};
use heart_man::apu::{init, silence_all, Channel, Sfx, APU};

fn w(at: u16, value: u8) -> RegWrite {
    RegWrite { at: Addr(at), value }
}

#[test]
fn silent_sequencer_writes_nothing() {
    let mut a = APU::default();
    assert!(!a.is_playing());
    assert!(a.run_sfx().is_empty());
    assert!(!a.is_playing());
}

#[test]
fn lock_cue_plays_its_frames_then_ends() {
    let mut a = APU::new();
    a.play_sfx(Sfx::Lock);
    assert!(a.is_playing());
    for _ in 0..3 {
        assert_eq!(a.run_sfx(), vec![w(0x4002, 0x9d), w(0x4003, 5), w(0x4000, 0xb6)]);
    }
    assert_eq!(a.run_sfx(), vec![w(0x4002, 0xad), w(0x4003, 6), w(0x4000, 0xb6)]);
    assert_eq!(a.run_sfx(), vec![w(0x4000, 0)]);
    assert!(!a.is_playing());
    assert!(a.run_sfx().is_empty());
}

#[test]
fn level_up_arpeggio_then_halt() {
    let mut a = APU::new();
    a.play_sfx(Sfx::LevelUp);
    let notes = [0xfb, 0xc4, 0x93, 0x67, 0x3f, 0x1c];
    for i in 0..24 {
        assert_eq!(a.run_sfx(), vec![w(0x4002, notes[i / 4]), w(0x4003, 1), w(0x4000, 0xbf)]);
    }
    assert_eq!(a.run_sfx(), vec![w(0x4003, 7), w(0x4000, 0)]);
    assert!(!a.is_playing());
}

#[test]
fn topout_runs_twenty_six_frames() {
    let mut a = APU::new();
    a.play_sfx(Sfx::Topout);
    let mut frames = 0;
    while a.run_sfx().len() == 3 {
        frames += 1;
    }
    assert_eq!(frames, 26);
    assert!(!a.is_playing());
}

#[test]
fn setup_and_silence_writes() {
    let v = init();
    assert_eq!(v.len(), 22);
    assert_eq!(v[0], w(0x4000, 0x30));
    assert_eq!(v[8], w(0x4008, 0x80));
    assert_eq!(v[19], w(0x4013, 0));
    assert_eq!(v[20], w(0x4015, 0x0f));
    assert_eq!(v[21], w(0x4017, 0x40));
    assert_eq!(silence_all(), vec![w(0x4000, 0), w(0x4004, 0)]);
    assert_eq!(Channel::Pulse2.addr(), Addr(0x4004));
}

#[test]
fn address_arithmetic_wraps() {
    assert_eq!(Addr(0xfffe).offset(3), Addr(1));
    assert_eq!(Addr(0x10).offset(-0x11), Addr(0xffff));
    let mut a = Addr(0x2000);
    a.add(0x20);
    assert_eq!(a.addr(), 0x2020);
    assert_eq!(Addr(0x80).write16(0x1234), [w(0x80, 0x34), w(0x81, 0x12)]);
    assert_eq!(debug_value(0xfffe, 9), [w(0xfffe, 0xaa), w(0xffff, 9), w(0, 0xaa), w(1, 0xab)]);
}
