//! Sound cues: which register writes each frame of a cue makes on the first
//! pulse channel.
use vstd::prelude::*;
use crate::addr::{Addr, RegWrite};

verus! {

/// Base of the audio registers.
pub const APU_BASE: u16 = 0x4000;
/// First pulse channel.
pub const PULSE1: u16 = 0x4000;
/// Second pulse channel.
pub const PULSE2: u16 = 0x4004;

/// A sound cue.
#[derive(Copy, Clone, PartialEq, Eq, Structural, Debug)]
pub enum Sfx {
    ChangeScreen,
    MenuBoop,
    Pause,
    Shift,
    Rotate,
    Lock,
    LevelUp,
    Burn,
    FourLineClear,
    Topout,
    Silent,
}

/// A pulse channel.
#[derive(Copy, Clone, PartialEq, Eq, Structural, Debug)]
pub enum Channel {
    Pulse1,
    Pulse2,
}

impl Channel {
    /// The channel's first register.
    pub fn addr(self) -> (r: Addr)
        ensures
            r.0 == (match self {
                Channel::Pulse1 => PULSE1,
                Channel::Pulse2 => PULSE2,
            }),
    {
        match self {
            Channel::Pulse1 => Addr(PULSE1),
            Channel::Pulse2 => Addr(PULSE2),
        }
    }
}

/// Note `i` of the rising arpeggio.
pub open spec fn arpeggio_note(i: int) -> u8 {
    if i == 0 {
        0xfb
    } else if i == 1 {
        0xc4
    } else if i == 2 {
        0x93
    } else if i == 3 {
        0x67
    } else if i == 4 {
        0x3f
    } else {
        0x1c
    }
}

/// Frame `off` of cue `sfx`: the timer high bits, timer low byte and
/// duty/volume byte it plays, or `None` once the cue is over.
pub open spec fn sfx_frame_spec(sfx: Sfx, off: int) -> Option<(u8, u8, u8)> {
    match sfx {
        Sfx::ChangeScreen | Sfx::Pause => if off <= 5 {
            Some((1u8, 0x7cu8, 0xbfu8))
        } else if off <= 10 {
            Some((1u8, 0xc4u8, 0xbfu8))
        } else if off <= 15 {
            Some((0u8, 0xbfu8, 0xbfu8))
        } else {
            None
        },
        Sfx::MenuBoop => if off <= 2 {
            Some((0u8, 0x90u8, 0xb7u8))
        } else {
            None
        },
        Sfx::Shift => if off <= 2 {
            Some((1u8, 0x7cu8, 0xb7u8))
        } else {
            None
        },
        Sfx::Lock => if off <= 2 {
            Some((5u8, 0x9du8, 0xb6u8))
        } else if off <= 3 {
            Some((6u8, 0xadu8, 0xb6u8))
        } else {
            None
        },
        Sfx::Rotate => if off <= 1 {
            Some((1u8, 0x7cu8, 0xb6u8))
        } else if off <= 3 {
            Some((2u8, 0x1au8, 0xb0u8))
        } else if off <= 5 {
            Some((1u8, 0x7cu8, 0xb6u8))
        } else {
            None
        },
        Sfx::Burn | Sfx::FourLineClear | Sfx::LevelUp => if off / 4 < 6 {
            Some((1u8, arpeggio_note(off / 4), 0xbfu8))
        } else {
            None
        },
        Sfx::Topout => if off <= 5 {
            Some((4u8, 0x34u8, 0xbeu8))
        } else if off <= 15 {
            Some((4u8, 0xb8u8, 0xb8u8))
        } else if off <= 20 {
            Some((5u8, 0x4cu8, 0xbeu8))
        } else if off <= 25 {
            Some((5u8, 0xf3u8, 0xb6u8))
        } else {
            None
        },
        Sfx::Silent => None,
    }
}

/// Whether a cue also silences the timer when it ends.
pub open spec fn sfx_halts(sfx: Sfx) -> bool {
    match sfx {
        Sfx::ChangeScreen | Sfx::Pause | Sfx::Burn | Sfx::FourLineClear | Sfx::LevelUp => true,
        _ => false,
    }
}

/// The writes that play one frame on the channel at `p`.
pub open spec fn frame_writes(p: u16, hi: u8, lo: u8, dcvol: u8) -> Seq<RegWrite> {
    seq![
        RegWrite { at: Addr((p + 2) as u16), value: lo },
        RegWrite { at: Addr((p + 3) as u16), value: hi },
        RegWrite { at: Addr(p), value: dcvol },
    ]
}

/// The writes that end a cue on the first pulse channel.
pub open spec fn end_writes(sfx: Sfx) -> Seq<RegWrite> {
    if sfx_halts(sfx) {
        seq![
            RegWrite { at: Addr((PULSE1 + 3) as u16), value: 7 },
            RegWrite { at: Addr(PULSE1), value: 0 },
        ]
    } else {
        seq![RegWrite { at: Addr(PULSE1), value: 0 }]
    }
}

/// The writes that play one frame on channel `c`.
fn sfx_frame(c: Channel, hi: u8, lo: u8, dcvol: u8, out: &mut Vec<RegWrite>)
    ensures
        final(out)@ == old(out)@ + frame_writes(c.addr_spec(), hi, lo, dcvol),
{
    let p = c.addr();
    out.push(RegWrite { at: Addr(p.0 + 2), value: lo });
    out.push(RegWrite { at: Addr(p.0 + 3), value: hi });
    out.push(RegWrite { at: p, value: dcvol });
    assert(final(out)@ =~= old(out)@ + frame_writes(c.addr_spec(), hi, lo, dcvol));
}

/// The write that silences channel `c`.
fn sfx_end(c: Channel, out: &mut Vec<RegWrite>)
    ensures
        final(out)@ == old(out)@.push(RegWrite { at: Addr(c.addr_spec()), value: 0 }),
{
    out.push(RegWrite { at: c.addr(), value: 0 });
}

impl Channel {
    /// The channel's first register.
    pub open spec fn addr_spec(self) -> u16 {
        match self {
            Channel::Pulse1 => PULSE1,
            Channel::Pulse2 => PULSE2,
        }
    }
}

/// The writes that set up the audio registers: both pulse channels and the
/// noise channel quiet, the triangle halted, channels enabled, and the frame
/// counter in five-step mode.
pub fn init() -> (r: Vec<RegWrite>)
    ensures
        r@.len() == 22,
        forall|i: int|
            0 <= i < 20 ==> (#[trigger] r@[i]).at == Addr((APU_BASE + i) as u16) && r@[i].value
                == init_value(i),
        r@[20] == (RegWrite { at: Addr(0x4015), value: 0xf }),
        r@[21] == (RegWrite { at: Addr(0x4017), value: 0x40 }),
{
    let values: [u8; 20] = [
        0x30, 0x08, 0x00, 0x00, 0x30, 0x08, 0x00, 0x00, 0x80, 0x00, 0x00, 0x00, 0x30, 0x00, 0x00,
        0x00, 0x00, 0x00, 0x00, 0x00,
    ];
    assert(forall|i: int| 0 <= i < 20 ==> values@[i] == init_value(i));
    let mut out: Vec<RegWrite> = Vec::new();
    let mut i: usize = 0;
    while i < 20
        invariant
            i <= 20,
            out@.len() == i,
            forall|i: int| 0 <= i < 20 ==> values@[i] == init_value(i),
            forall|j: int|
                0 <= j < i ==> (#[trigger] out@[j]).at == Addr((APU_BASE + j) as u16)
                    && out@[j].value == init_value(j),
        decreases 20 - i,
    {
        out.push(RegWrite { at: Addr(APU_BASE + i as u16), value: values[i] });
        i = i + 1;
    }
    out.push(RegWrite { at: Addr(0x4015), value: 0xf });
    out.push(RegWrite { at: Addr(0x4017), value: 0x40 });
    out
}

/// The value that `init` stores in audio register `i`.
pub open spec fn init_value(i: int) -> u8 {
    if i == 0 || i == 4 || i == 12 {
        0x30
    } else if i == 1 || i == 5 {
        0x08
    } else if i == 8 {
        0x80
    } else {
        0
    }
}

/// The writes that silence both pulse channels.
pub fn silence_all() -> (r: Vec<RegWrite>)
    ensures
        r@ == seq![
            RegWrite { at: Addr(PULSE1), value: 0 },
            RegWrite { at: Addr(PULSE2), value: 0 },
        ],
{
    let mut out: Vec<RegWrite> = Vec::new();
    sfx_end(Channel::Pulse1, &mut out);
    sfx_end(Channel::Pulse2, &mut out);
    assert(out@ =~= seq![
        RegWrite { at: Addr(PULSE1), value: 0 },
        RegWrite { at: Addr(PULSE2), value: 0 },
    ]);
    out
}

/// One frame of cue `before.cue()`: its writes `out` and the state `after`.
pub open spec fn run_spec(before: APU, after: APU, out: Seq<RegWrite>) -> bool {
    match sfx_frame_spec(before.cue(), before.frame()) {
        Some((hi, lo, dcvol)) => {
            &&& out == frame_writes(PULSE1, hi, lo, dcvol)
            &&& after.cue() == before.cue()
            &&& after.frame() == before.frame() + 1
        },
        None => {
            &&& out == end_writes(before.cue())
            &&& after.cue() == Sfx::Silent
            &&& after.frame() == before.frame()
        },
    }
}

/// The cue now playing, and how many of its frames were played.
pub struct APU {
    sfx: Sfx,
    sfx_off: usize,
}

impl Default for APU {
    /// A silent sequencer.
    fn default() -> (r: Self)
        ensures
            r.cue() == Sfx::Silent,
            r.frame() == 0,
    {
        APU::new()
    }
}

impl APU {
    /// The cue now playing; `Sfx::Silent` when silent.
    pub closed spec fn cue(&self) -> Sfx {
        self.sfx
    }

    /// Frames of the cue played so far.
    pub closed spec fn frame(&self) -> int {
        self.sfx_off as int
    }

    /// Whether a cue is in play.
    pub open spec fn is_playing_spec(&self) -> bool {
        self.cue() != Sfx::Silent
    }

    /// A silent sequencer.
    pub fn new() -> (r: Self)
        ensures
            r.cue() == Sfx::Silent,
            r.frame() == 0,
    {
        APU { sfx: Sfx::Silent, sfx_off: 0 }
    }

    /// Starts cue `type_` from its first frame, replacing any cue in play.
    pub fn play_sfx(&mut self, type_: Sfx)
        ensures
            final(self).cue() == type_,
            final(self).frame() == 0,
    {
        self.sfx = type_;
        self.sfx_off = 0;
    }

    /// Whether a cue is in play.
    pub fn is_playing(&self) -> (r: bool)
        ensures
            r == (self.cue() != Sfx::Silent),
    {
        self.sfx != Sfx::Silent
    }

    /// Advances the cue in play by one frame and returns the register writes
    /// of that frame; a cue past its last frame is silenced and ends.
    pub fn run_sfx(&mut self) -> (r: Vec<RegWrite>)
        ensures
            old(self).cue() == Sfx::Silent ==> r@.len() == 0 && final(self).cue() == Sfx::Silent
                && final(self).frame() == old(self).frame(),
            old(self).cue() != Sfx::Silent ==> run_spec(*old(self), *final(self), r@),
    {
        let mut out: Vec<RegWrite> = Vec::new();
        if self.sfx == Sfx::Silent {
            return out;
        }
        let off = self.sfx_off;
        let frame: Option<(u8, u8, u8)> = match self.sfx {
            Sfx::ChangeScreen | Sfx::Pause => if off <= 5 {
                Some((1, 0x7c, 0xbf))
            } else if off <= 10 {
                Some((1, 0xc4, 0xbf))
            } else if off <= 15 {
                Some((0, 0xbf, 0xbf))
            } else {
                None
            },
            Sfx::MenuBoop => if off <= 2 {
                Some((0, 0x90, 0xb7))
            } else {
                None
            },
            Sfx::Shift => if off <= 2 {
                Some((1, 0x7c, 0xb7))
            } else {
                None
            },
            Sfx::Lock => if off <= 2 {
                Some((5, 0x9d, 0xb6))
            } else if off <= 3 {
                Some((6, 0xad, 0xb6))
            } else {
                None
            },
            Sfx::Rotate => if off <= 1 {
                Some((1, 0x7c, 0xb6))
            } else if off <= 3 {
                Some((2, 0x1a, 0xb0))
            } else if off <= 5 {
                Some((1, 0x7c, 0xb6))
            } else {
                None
            },
            Sfx::Burn | Sfx::FourLineClear | Sfx::LevelUp => {
                let notes: [u8; 6] = [0xfb, 0xc4, 0x93, 0x67, 0x3f, 0x1c];
                if off / 4 < 6 {
                    assert(notes@[(off / 4) as int] == arpeggio_note(off as int / 4));
                    Some((1, notes[off / 4], 0xbf))
                } else {
                    None
                }
            },
            Sfx::Topout => if off <= 5 {
                Some((4, 0x34, 0xbe))
            } else if off <= 15 {
                Some((4, 0xb8, 0xb8))
            } else if off <= 20 {
                Some((5, 0x4c, 0xbe))
            } else if off <= 25 {
                Some((5, 0xf3, 0xb6))
            } else {
                None
            },
            Sfx::Silent => None,
        };
        assert(frame == sfx_frame_spec(self.sfx, off as int));
        match frame {
            Some((hi, lo, dcvol)) => {
                sfx_frame(Channel::Pulse1, hi, lo, dcvol, &mut out);
                assert(out@ =~= frame_writes(PULSE1, hi, lo, dcvol));
                self.sfx_off = off + 1;
            },
            None => {
                let halts = match self.sfx {
                    Sfx::ChangeScreen | Sfx::Pause | Sfx::Burn | Sfx::FourLineClear
                    | Sfx::LevelUp => true,
                    _ => false,
                };
                if halts {
                    out.push(RegWrite { at: Addr(PULSE1 + 3), value: 7 });
                }
                sfx_end(Channel::Pulse1, &mut out);
                assert(out@ =~= end_writes(self.sfx));
                self.sfx = Sfx::Silent;
            },
        }
        out
    }
}

} // verus!
