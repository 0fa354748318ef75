use vstd::prelude::*;

verus! {

/// How many general-purpose registers there are.
pub const REGISTER_COUNT: usize = 32;

/// What a register file holds: the value that each of the 32 registers reads
/// as, and the program counter.
pub struct Registers {
    pub x: Seq<u64>,
    pub pc: u64,
}

impl Registers {
    /// There are 32 registers, and register 0 reads as zero.
    pub open spec fn valid(self) -> bool {
        &&& self.x.len() == REGISTER_COUNT
        &&& self.x[0] == 0
    }

    /// The value that register `index` reads as.
    pub open spec fn read(self, index: u8) -> u64 {
        self.x[index as int]
    }

    /// The registers after `value` was written to register `index`: a write
    /// to register 0 changes nothing.
    pub open spec fn write(self, index: u8, value: u64) -> Registers {
        if index == 0 {
            self
        } else {
            Registers { x: self.x.update(index as int, value), pc: self.pc }
        }
    }

    /// The registers after the program counter was set to `pc`.
    pub open spec fn jump(self, pc: u64) -> Registers {
        Registers { x: self.x, pc }
    }

    /// Every register zero, and the program counter at `pc`.
    pub open spec fn reset(pc: u64) -> Registers {
        Registers { x: Seq::new(32, |i: int| 0u64), pc }
    }
}

/// 32 general-purpose 64-bit registers and the program counter.
///
/// Register 0 is hardwired: it reads as zero whatever was written to it.
pub struct RegisterFile {
    x: [u64; REGISTER_COUNT],
    pc: u64,
}

impl View for RegisterFile {
    type V = Registers;

    closed spec fn view(&self) -> Registers {
        Registers {
            x: Seq::new(
                32,
                |i: int|
                    if i == 0 {
                        0u64
                    } else {
                        self.x@[i]
                    },
            ),
            pc: self.pc,
        }
    }
}

impl RegisterFile {
    /// A register file with every register and the program counter zero.
    pub fn new() -> (regs: Self)
        ensures
            regs@ == Registers::reset(0),
            regs@.valid(),
    {
        let regs = RegisterFile { x: [0; 32], pc: 0 };
        assert(regs@.x =~= Registers::reset(0).x);
        regs
    }

    /// A register file with every register zero and the program counter at
    /// `entry`.
    pub fn with_entry(entry: u64) -> (regs: Self)
        ensures
            regs@ == Registers::reset(entry),
            regs@.valid(),
    {
        let regs = RegisterFile { x: [0; 32], pc: entry };
        assert(regs@.x =~= Registers::reset(entry).x);
        regs
    }

    /// What a register file holds is always valid.
    pub proof fn lemma_valid(&self)
        ensures
            self@.valid(),
    {
    }

    /// The value of register `index`.
    pub fn read(&self, index: u8) -> (value: u64)
        requires
            index < 32,
        ensures
            value == self@.read(index),
    {
        if index == 0 {
            0
        } else {
            self.x[index as usize]
        }
    }

    /// Writes `value` to register `index`; register 0 stays zero.
    pub fn write(&mut self, index: u8, value: u64)
        requires
            index < 32,
        ensures
            final(self)@ == old(self)@.write(index, value),
            final(self)@.valid(),
    {
        if index != 0 {
            self.x[index as usize] = value;
        }
        assert(self@.x =~= old(self)@.write(index, value).x);
    }

    /// The program counter.
    pub fn pc(&self) -> (pc: u64)
        ensures
            pc == self@.pc,
    {
        self.pc
    }

    /// Sets the program counter.
    pub fn set_pc(&mut self, pc: u64)
        ensures
            final(self)@ == old(self)@.jump(pc),
            final(self)@.valid(),
    {
        self.pc = pc;
    }
}

} // verus!
