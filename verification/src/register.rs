//! The register file of the hart: the 32 integer registers, the control and
//! status registers and the program counter.
use vstd::prelude::*;

verus! {

/// Number of control and status registers (12-bit addresses).
pub const CSR_COUNT: usize = 4096;

pub struct Register {
    x: [u32; 32],
    csr: Vec<u32>,
    pc: u32,
}

/// What the register file holds: `x[0]` reads as zero whatever was written.
pub struct RegisterView {
    pub x: Seq<u32>,
    pub csr: Seq<u32>,
    pub pc: u32,
}

impl View for Register {
    type V = RegisterView;

    closed spec fn view(&self) -> RegisterView {
        RegisterView {
            x: Seq::new(32, |i: int| if i == 0 { 0u32 } else { self.x@[i] }),
            csr: self.csr@,
            pc: self.pc,
        }
    }
}

impl Register {
    pub closed spec fn wf(&self) -> bool {
        self.csr@.len() == CSR_COUNT
    }

    pub proof fn lemma_view_shape(&self)
        requires
            self.wf(),
        ensures
            self@.x.len() == 32,
            self@.x[0] == 0,
            self@.csr.len() == CSR_COUNT,
    {
    }

    /// The program counter.
    pub fn pc(&self) -> (r: u32)
        ensures
            r == self@.pc,
    {
        self.pc
    }

    /// Sets the program counter.
    pub fn set_pc(&mut self, pc: u32)
        ensures
            final(self).wf() == old(self).wf(),
            final(self)@ == (RegisterView { pc, ..old(self)@ }),
    {
        self.pc = pc;
        proof {
            assert(self@.x =~= old(self)@.x);
        }
    }

    /// The value of integer register `index`.
    pub fn read(&self, index: usize) -> (r: u32)
        requires
            index < 32,
        ensures
            r == self@.x[index as int],
    {
        if index == 0 {
            0
        } else {
            self.x[index]
        }
    }

    /// Sets integer register `index`; writes to `x0` are dropped.
    pub fn write(&mut self, index: usize, value: u32)
        requires
            index < 32,
        ensures
            final(self).wf() == old(self).wf(),
            final(self)@ == (RegisterView {
                x: if index == 0 { old(self)@.x } else { old(self)@.x.update(index as int, value) },
                ..old(self)@
            }),
    {
        if index != 0 {
            self.x[index] = value;
        }
        proof {
            assert(self@.x =~= (if index == 0 { old(self)@.x } else { old(self)@.x.update(index as int, value) }));
        }
    }

    /// The value of control and status register `index`.
    pub fn read_csr(&self, index: usize) -> (r: u32)
        requires
            self.wf(),
            index < CSR_COUNT,
        ensures
            r == self@.csr[index as int],
    {
        self.csr[index]
    }

    /// Sets control and status register `index`.
    pub fn write_csr(&mut self, index: usize, value: u32)
        requires
            old(self).wf(),
            index < CSR_COUNT,
        ensures
            final(self).wf(),
            final(self)@ == (RegisterView { csr: old(self)@.csr.update(index as int, value), ..old(self)@ }),
    {
        self.csr.set(index, value);
        proof {
            assert(self@.x =~= old(self)@.x);
        }
    }
}

impl Default for Register {
    /// All registers zero, the program counter too.
    fn default() -> (r: Self)
        ensures
            r.wf(),
            r@.x == Seq::new(32, |i: int| 0u32),
            r@.csr == Seq::new(CSR_COUNT as nat, |i: int| 0u32),
            r@.pc == 0,
    {
        let r = Register { x: [0u32; 32], csr: vec![0u32; CSR_COUNT], pc: 0 };
        proof {
            assert(r@.x =~= Seq::new(32, |i: int| 0u32));
            assert(r@.csr =~= Seq::new(CSR_COUNT as nat, |i: int| 0u32));
        }
        r
    }
}

/// The ABI name of integer register `index`.
pub open spec fn abi_name(index: usize) -> &'static str {
    if index == 0 { "zero" }
    else if index == 1 { "ra" }
    else if index == 2 { "sp" }
    else if index == 3 { "gp" }
    else if index == 4 { "tp" }
    else if index == 5 { "t0" }
    else if index == 6 { "t1" }
    else if index == 7 { "t2" }
    else if index == 8 { "s0" }
    else if index == 9 { "s1" }
    else if index == 10 { "a0" }
    else if index == 11 { "a1" }
    else if index == 12 { "a2" }
    else if index == 13 { "a3" }
    else if index == 14 { "a4" }
    else if index == 15 { "a5" }
    else if index == 16 { "a6" }
    else if index == 17 { "a7" }
    else if index == 18 { "s2" }
    else if index == 19 { "s3" }
    else if index == 20 { "s4" }
    else if index == 21 { "s5" }
    else if index == 22 { "s6" }
    else if index == 23 { "s7" }
    else if index == 24 { "s8" }
    else if index == 25 { "s9" }
    else if index == 26 { "s10" }
    else if index == 27 { "s11" }
    else if index == 28 { "t3" }
    else if index == 29 { "t4" }
    else if index == 30 { "t5" }
    else { "t6" }
}

/// The ABI name of integer register `index`.
pub fn index_to_name(index: usize) -> (r: &'static str)
    requires
        index < 32,
    ensures
        r == abi_name(index),
{
    match index {
        0 => "zero",
        1 => "ra",
        2 => "sp",
        3 => "gp",
        4 => "tp",
        5 => "t0",
        6 => "t1",
        7 => "t2",
        8 => "s0",
        9 => "s1",
        10 => "a0",
        11 => "a1",
        12 => "a2",
        13 => "a3",
        14 => "a4",
        15 => "a5",
        16 => "a6",
        17 => "a7",
        18 => "s2",
        19 => "s3",
        20 => "s4",
        21 => "s5",
        22 => "s6",
        23 => "s7",
        24 => "s8",
        25 => "s9",
        26 => "s10",
        27 => "s11",
        28 => "t3",
        29 => "t4",
        30 => "t5",
        _ => "t6",
    }
}

} // verus!
