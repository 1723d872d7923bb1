//! The two chained 8259 programmable interrupt controllers. The controllers
//! are driven through I/O ports; the functions here decide which bytes go to
//! which port, and the caller performs the writes in order.
use vstd::prelude::*;

verus! {

/// Command that starts the initialization of a controller.
pub const CMD_INIT: u8 = 0x11;

/// Command that acknowledges an interrupt.
pub const CMD_END_OF_INTERRUPT: u8 = 0x20;

/// The 8086 mode the controllers run in.
pub const MODE_8086: u8 = 0x01;

/// A port whose writes take long enough to space out the controllers'
/// initialization writes.
pub const WAIT_PORT: u16 = 0x80;

/// One byte to write to an I/O port.
#[derive(Debug, Clone, Copy, PartialEq, Eq, Structural)]
pub struct PortWrite {
    pub port: u16,
    pub value: u8,
}

/// One controller: the first interrupt vector it raises, and its command
/// and data ports.
#[derive(Debug, Clone, Copy)]
pub struct Pic {
    pub offset: u8,
    pub command: u16,
    pub data: u16,
}

impl Pic {
    /// Whether interrupt `id` is one of the eight this controller raises.
    pub fn handles_interrupt(&self, id: u8) -> (r: bool)
        requires
            self.offset + 8 <= u8::MAX,
        ensures
            r == (self.offset <= id && id < self.offset + 8),
    {
        self.offset <= id && id < self.offset + 8
    }

    /// The write that acknowledges an interrupt.
    pub fn end_of_interrupt(&self) -> (r: PortWrite)
        ensures
            r == (PortWrite { port: self.command, value: CMD_END_OF_INTERRUPT }),
    {
        PortWrite { port: self.command, value: CMD_END_OF_INTERRUPT }
    }

    /// The write that sets this controller's interrupt mask.
    pub fn write_mask(&self, mask: u8) -> (r: PortWrite)
        ensures
            r == (PortWrite { port: self.data, value: mask }),
    {
        PortWrite { port: self.data, value: mask }
    }
}

/// Whether bit `bit` of `mask` is set.
pub open spec fn mask_bit(mask: u8, bit: u8) -> bool {
    mask & (1u8 << bit) > 0
}

/// The mask that `set_masked` writes: the old mask keeps only bit `bit`,
/// which is then set or cleared.
pub open spec fn new_mask(old_mask: u8, bit: u8, masked: bool) -> u8 {
    let kept = old_mask & (1u8 << bit);
    if masked {
        kept | (1u8 << bit)
    } else {
        kept & !(1u8 << bit)
    }
}

/// The two controllers, the second chained through the first.
#[derive(Debug, Clone, Copy)]
pub struct ChainedPics {
    pub master: Pic,
    pub slave: Pic,
}

/// The writes that initialize controllers `pics`, whose masks were
/// `saved`: the init command to each, then the vector offsets, the chaining,
/// the mode, each write followed by one to the wait port, and last the saved
/// masks.
pub open spec fn init_writes(pics: ChainedPics, saved: Seq<u8>) -> Seq<PortWrite> {
    let wait = PortWrite { port: WAIT_PORT, value: 0 };
    seq![
        PortWrite { port: pics.master.command, value: CMD_INIT },
        wait,
        PortWrite { port: pics.slave.command, value: CMD_INIT },
        wait,
        PortWrite { port: pics.master.data, value: pics.master.offset },
        wait,
        PortWrite { port: pics.slave.data, value: pics.slave.offset },
        wait,
        PortWrite { port: pics.master.data, value: 4 },
        wait,
        PortWrite { port: pics.slave.data, value: 2 },
        wait,
        PortWrite { port: pics.master.data, value: MODE_8086 },
        wait,
        PortWrite { port: pics.slave.data, value: MODE_8086 },
        wait,
        PortWrite { port: pics.master.data, value: saved[0] },
        PortWrite { port: pics.slave.data, value: saved[1] },
    ]
}

impl ChainedPics {
    /// Controllers that raise vectors from `master_offset` and
    /// `slave_offset`, on the standard ports.
    pub fn new(master_offset: u8, slave_offset: u8) -> (r: Self)
        ensures
            r.master == (Pic { offset: master_offset, command: 0x20, data: 0x21 }),
            r.slave == (Pic { offset: slave_offset, command: 0xA0, data: 0xA1 }),
    {
        ChainedPics {
            master: Pic { offset: master_offset, command: 0x20, data: 0x21 },
            slave: Pic { offset: slave_offset, command: 0xA0, data: 0xA1 },
        }
    }

    /// The writes that initialize both controllers, given the masks
    /// `saved_masks` read from them before.
    pub fn initialize(&self, saved_masks: [u8; 2]) -> (r: Vec<PortWrite>)
        ensures
            r@ == init_writes(*self, saved_masks@),
    {
        let wait = PortWrite { port: WAIT_PORT, value: 0 };
        let mut w: Vec<PortWrite> = Vec::new();
        w.push(PortWrite { port: self.master.command, value: CMD_INIT });
        w.push(wait);
        w.push(PortWrite { port: self.slave.command, value: CMD_INIT });
        w.push(wait);
        w.push(PortWrite { port: self.master.data, value: self.master.offset });
        w.push(wait);
        w.push(PortWrite { port: self.slave.data, value: self.slave.offset });
        w.push(wait);
        w.push(PortWrite { port: self.master.data, value: 4 });
        w.push(wait);
        w.push(PortWrite { port: self.slave.data, value: 2 });
        w.push(wait);
        w.push(PortWrite { port: self.master.data, value: MODE_8086 });
        w.push(wait);
        w.push(PortWrite { port: self.slave.data, value: MODE_8086 });
        w.push(wait);
        w.push(self.master.write_mask(saved_masks[0]));
        w.push(self.slave.write_mask(saved_masks[1]));
        assert(w@ =~= init_writes(*self, saved_masks@));
        w
    }

    /// The writes that set the masks of both controllers.
    pub fn write_masks(&self, mask1: u8, mask2: u8) -> (r: Vec<PortWrite>)
        ensures
            r@ == seq![
                PortWrite { port: self.master.data, value: mask1 },
                PortWrite { port: self.slave.data, value: mask2 },
            ],
    {
        let mut w: Vec<PortWrite> = Vec::new();
        w.push(self.master.write_mask(mask1));
        w.push(self.slave.write_mask(mask2));
        assert(w@ =~= seq![
            PortWrite { port: self.master.data, value: mask1 },
            PortWrite { port: self.slave.data, value: mask2 },
        ]);
        w
    }

    /// Whether interrupt line `port` (0 to 15) is masked, given the masks
    /// `masks` read from both controllers: lines 0 to 7 belong to the first.
    pub fn is_masked(&self, port: u8, masks: [u8; 2]) -> (r: bool)
        requires
            port < 16,
        ensures
            r == if port < 8 {
                mask_bit(masks@[0], port)
            } else {
                mask_bit(masks@[1], (port - 8) as u8)
            },
    {
        if port < 8 {
            masks[0] & (1u8 << port) > 0
        } else {
            masks[1] & (1u8 << (port - 8)) > 0
        }
    }

    /// The write that masks or unmasks interrupt line `port` (0 to 15),
    /// given the masks `masks` read from both controllers.
    pub fn set_masked(&self, port: u8, masked: bool, masks: [u8; 2]) -> (r: PortWrite)
        requires
            port < 16,
        ensures
            r == if port < 8 {
                PortWrite { port: self.master.data, value: new_mask(masks@[0], port, masked) }
            } else {
                PortWrite {
                    port: self.slave.data,
                    value: new_mask(masks@[1], (port - 8) as u8, masked),
                }
            },
    {
        let (pic, old, bit) = if port < 8 {
            (self.master, masks[0], port)
        } else {
            (self.slave, masks[1], port - 8)
        };
        let kept = old & (1u8 << bit);
        let value = if masked {
            kept | (1u8 << bit)
        } else {
            kept & !(1u8 << bit)
        };
        pic.write_mask(value)
    }

    /// Whether either controller raises interrupt `interrupt_id`.
    pub fn handles_interrupt(&self, interrupt_id: u8) -> (r: bool)
        requires
            self.master.offset + 8 <= u8::MAX,
            self.slave.offset + 8 <= u8::MAX,
        ensures
            r == ((self.master.offset <= interrupt_id && interrupt_id < self.master.offset + 8)
                || (self.slave.offset <= interrupt_id && interrupt_id < self.slave.offset + 8)),
    {
        self.master.handles_interrupt(interrupt_id) || self.slave.handles_interrupt(interrupt_id)
    }

    /// The writes that acknowledge interrupt `interrupt_id`: none when
    /// neither controller raises it; the second controller's and then the
    /// first's when the second raises it, since it is chained through the
    /// first; else the first's alone.
    pub fn notify_end_of_interrupt(&self, interrupt_id: u8) -> (r: Vec<PortWrite>)
        requires
            self.master.offset + 8 <= u8::MAX,
            self.slave.offset + 8 <= u8::MAX,
        ensures
            ({
                let on_master = self.master.offset <= interrupt_id && interrupt_id
                    < self.master.offset + 8;
                let on_slave = self.slave.offset <= interrupt_id && interrupt_id
                    < self.slave.offset + 8;
                let eoi_master = PortWrite { port: self.master.command, value: CMD_END_OF_INTERRUPT };
                let eoi_slave = PortWrite { port: self.slave.command, value: CMD_END_OF_INTERRUPT };
                r@ == if on_slave {
                    seq![eoi_slave, eoi_master]
                } else if on_master {
                    seq![eoi_master]
                } else {
                    Seq::empty()
                }
            }),
    {
        let mut w: Vec<PortWrite> = Vec::new();
        if self.handles_interrupt(interrupt_id) {
            if self.slave.handles_interrupt(interrupt_id) {
                w.push(self.slave.end_of_interrupt());
            }
            w.push(self.master.end_of_interrupt());
        }
        proof {
            let eoi_master = PortWrite { port: self.master.command, value: CMD_END_OF_INTERRUPT };
            let eoi_slave = PortWrite { port: self.slave.command, value: CMD_END_OF_INTERRUPT };
            assert(seq![eoi_slave].push(eoi_master) =~= seq![eoi_slave, eoi_master]);
            assert(Seq::<PortWrite>::empty().push(eoi_master) =~= seq![eoi_master]);
        }
        w
    }
}

/// Law: controllers made by `ChainedPics::new` are initialized on ports
/// 0x20/0x21 and 0xA0/0xA1 with the initialization command 0x11 (ICW1 with
/// ICW4 to follow), their vector offsets, the chaining (the first learns
/// that the second hangs off its line 2, mask 4; the second its cascade
/// identity 2) and 8086 mode 0x01, each write followed by one to port 0x80,
/// and last the saved masks.
pub proof fn lemma_init_program(master_offset: u8, slave_offset: u8, saved: Seq<u8>)
    requires
        saved.len() == 2,
    ensures
        ({
            let pics = ChainedPics {
                master: Pic { offset: master_offset, command: 0x20, data: 0x21 },
                slave: Pic { offset: slave_offset, command: 0xA0, data: 0xA1 },
            };
            let wait = PortWrite { port: 0x80, value: 0 };
            init_writes(pics, saved) == seq![
                PortWrite { port: 0x20, value: 0x11 },
                wait,
                PortWrite { port: 0xA0, value: 0x11 },
                wait,
                PortWrite { port: 0x21, value: master_offset },
                wait,
                PortWrite { port: 0xA1, value: slave_offset },
                wait,
                PortWrite { port: 0x21, value: 4 },
                wait,
                PortWrite { port: 0xA1, value: 2 },
                wait,
                PortWrite { port: 0x21, value: 0x01 },
                wait,
                PortWrite { port: 0xA1, value: 0x01 },
                wait,
                PortWrite { port: 0x21, value: saved[0] },
                PortWrite { port: 0xA1, value: saved[1] },
            ]
        }),
{
}

/// Law: after the mask that `set_masked` writes for a line, `is_masked`
/// reports that line as masked exactly when it was asked to be.
pub proof fn lemma_set_then_is_masked(old_mask: u8, bit: u8, masked: bool)
    requires
        bit < 8,
    ensures
        mask_bit(new_mask(old_mask, bit, masked), bit) == masked,
{
    assert(((((old_mask & (1u8 << bit)) | (1u8 << bit)) & (1u8 << bit)) > 0) && ((((old_mask & (1u8
        << bit)) & !(1u8 << bit)) & (1u8 << bit)) == 0)) by (bit_vector)
        requires
            bit < 8,
    ;
}

} // verus!
