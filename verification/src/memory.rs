//! The memory map of the emulated board: RAM, ROM, the UART window and a few
//! devices (PRCI, PLIC, GPIO) whose reads give `0xFF` and whose writes are ignored.
use vstd::prelude::*;
use crate::periph::MmapPeripheral;

verus! {

pub struct Memory<P> {
    pub uart_base: usize,
    pub uart: P,
    pub uart_limit: usize,
    pub ram_base: usize,
    pub ram_limit: usize,
    pub ram: Vec<u8>,
    pub rom_base: usize,
    pub rom_limit: usize,
    pub rom: Vec<u8>,
}

/// PRCI, PLIC and GPIO addresses that reads answer with `0xFF`.
pub open spec fn is_read_ones(addr: int) -> bool {
    ||| 0x1000_8000 <= addr <= 0x1000_8FFF
    ||| 0x0C00_0000 <= addr <= 0x0FFF_FFFF
    ||| 0x1001_2000 <= addr <= 0x1001_2FFF
}

/// PRCI, PLIC and GPIO addresses whose writes are ignored.
pub open spec fn is_write_ignored(addr: int) -> bool {
    ||| 0x1000_8000 <= addr <= 0x1000_800F
    ||| 0x0C00_0000 <= addr <= 0x0FFF_FFFF
    ||| 0x1001_2000 <= addr <= 0x1001_2FFF
}

/// Byte `k` of `value`, counting from the least significant.
pub open spec fn byte_of(value: u32, k: int) -> u8 {
    if k == 0 {
        (value % 256) as u8
    } else if k == 1 {
        ((value / 256) % 256) as u8
    } else if k == 2 {
        ((value / 0x1_0000) % 256) as u8
    } else {
        ((value / 0x100_0000) % 256) as u8
    }
}

/// Little-endian composition of two bytes.
pub open spec fn halfword_of(lo: u8, hi: u8) -> int {
    lo as int + 256 * hi as int
}

/// Little-endian composition of four bytes.
pub open spec fn word_of(b0: u8, b1: u8, b2: u8, b3: u8) -> int {
    b0 as int + 256 * b1 as int + 0x1_0000 * b2 as int + 0x100_0000 * b3 as int
}

impl<P: MmapPeripheral> Memory<P> {
    /// RAM and ROM hold exactly as many bytes as their windows are wide.
    pub open spec fn wf(&self) -> bool {
        &&& self.ram_base <= self.ram_limit
        &&& self.ram@.len() == self.ram_limit - self.ram_base
        &&& self.rom_base <= self.rom_limit
        &&& self.rom@.len() == self.rom_limit - self.rom_base
    }

    pub open spec fn in_ram(&self, addr: int) -> bool {
        self.ram_base <= addr < self.ram_limit
    }

    pub open spec fn in_rom(&self, addr: int) -> bool {
        self.rom_base <= addr < self.rom_limit
    }

    pub open spec fn in_uart(&self, addr: int) -> bool {
        self.uart_base <= addr < self.uart_limit
    }

    /// The addresses that a byte read answers; a read anywhere else stops the emulator.
    pub open spec fn readable(&self, addr: int) -> bool {
        if self.in_ram(addr) || self.in_rom(addr) {
            true
        } else if self.in_uart(addr) {
            P::readable((addr - self.uart_base) as usize)
        } else {
            addr > 0xFF && is_read_ones(addr)
        }
    }

    /// The addresses that a byte write is accepted at: RAM, the UART and the
    /// devices that ignore writes. ROM is read-only.
    pub open spec fn writable(&self, addr: int) -> bool {
        if self.in_ram(addr) {
            true
        } else if self.in_uart(addr) {
            P::writable((addr - self.uart_base) as usize)
        } else {
            addr > 0xFF && addr != 0xFFFF_FFFF && is_write_ignored(addr)
        }
    }

    /// The byte a read at `addr` gives, where the memory alone decides it: `None`
    /// in the UART window, whose answers come from the device.
    pub open spec fn byte(&self, addr: int) -> Option<u8> {
        if self.in_ram(addr) {
            Some(self.ram@[addr - self.ram_base])
        } else if self.in_rom(addr) {
            Some(self.rom@[addr - self.rom_base])
        } else if self.in_uart(addr) {
            None
        } else {
            Some(0xFFu8)
        }
    }

    /// What `byte(addr)` becomes when `value` is written at `addr`: RAM takes
    /// the value, every other address reads as before.
    pub open spec fn byte_after_write(&self, addr: int, value: u8) -> Option<u8> {
        if self.in_ram(addr) {
            Some(value)
        } else {
            self.byte(addr)
        }
    }

    /// The little-endian word at `addr`, where the memory alone decides all four bytes.
    pub open spec fn word(&self, addr: int) -> Option<u32> {
        if self.byte(addr) is Some && self.byte(addr + 1) is Some && self.byte(addr + 2) is Some
            && self.byte(addr + 3) is Some {
            Some(word_of(self.byte(addr)->0, self.byte(addr + 1)->0, self.byte(addr + 2)->0,
                self.byte(addr + 3)->0) as u32)
        } else {
            None
        }
    }

    /// `b` is a byte that a read at `addr` can give: the byte the memory holds,
    /// or in the UART window an answer of the device at `addr - uart_base`.
    pub open spec fn read_answer(&self, addr: int, b: u8) -> bool {
        match self.byte(addr) {
            Some(x) => b == x,
            None => self.uart.answers((addr - self.uart_base) as usize, b),
        }
    }

    /// `u1` is the device `u0` after a write of `b` at `addr`: in the UART window
    /// the device takes the write at `addr - uart_base`; anywhere else it stays.
    pub open spec fn uart_after_write(&self, addr: int, b: u8, u0: P, u1: P) -> bool {
        if self.in_uart(addr) && !self.in_ram(addr) {
            u0.wrote(&u1, (addr - self.uart_base) as usize, b)
        } else {
            u1 == u0
        }
    }

    /// `u1` is the device after the `w` low bytes of `v` were written at `a`,
    /// low byte first, to this memory.
    pub open spec fn uart_stored(&self, a: int, w: int, v: u32, u1: P) -> bool {
        if w == 1 {
            self.uart_after_write(a, byte_of(v, 0), self.uart, u1)
        } else if w == 2 {
            exists|m: P|
                #[trigger] self.uart_after_write(a, byte_of(v, 0), self.uart, m)
                    && self.uart_after_write(a + 1, byte_of(v, 1), m, u1)
        } else {
            exists|m1: P, m2: P, m3: P|
                #[trigger] self.uart_after_write(a, byte_of(v, 0), self.uart, m1)
                    && #[trigger] self.uart_after_write(a + 1, byte_of(v, 1), m1, m2)
                    && #[trigger] self.uart_after_write(a + 2, byte_of(v, 2), m2, m3)
                    && self.uart_after_write(a + 3, byte_of(v, 3), m3, u1)
        }
    }

    pub open spec fn same_layout(&self, other: &Self) -> bool {
        &&& self.uart_base == other.uart_base
        &&& self.uart_limit == other.uart_limit
        &&& self.ram_base == other.ram_base
        &&& self.ram_limit == other.ram_limit
        &&& self.rom_base == other.rom_base
        &&& self.rom_limit == other.rom_limit
    }

    pub fn is_uart(&self, addr: usize) -> (r: bool)
        ensures
            r == self.in_uart(addr as int),
    {
        self.uart_base <= addr && addr < self.uart_limit
    }

    pub fn is_ram(&self, addr: usize) -> (r: bool)
        ensures
            r == self.in_ram(addr as int),
    {
        self.ram_base <= addr && addr < self.ram_limit
    }

    pub fn is_rom(&self, addr: usize) -> (r: bool)
        ensures
            r == self.in_rom(addr as int),
    {
        self.rom_base <= addr && addr < self.rom_limit
    }

    /// Whether a byte read at `addr` is answered.
    pub fn is_readable(&self, addr: usize) -> (r: bool)
        ensures
            r == self.readable(addr as int),
    {
        if self.is_ram(addr) || self.is_rom(addr) {
            true
        } else if self.is_uart(addr) {
            P::readable_at(addr - self.uart_base)
        } else {
            addr > 0xFF && ((0x1000_8000 <= addr && addr <= 0x1000_8FFF)
                || (0x0C00_0000 <= addr && addr <= 0x0FFF_FFFF)
                || (0x1001_2000 <= addr && addr <= 0x1001_2FFF))
        }
    }

    /// Whether a byte write at `addr` is accepted.
    pub fn is_writable(&self, addr: usize) -> (r: bool)
        ensures
            r == self.writable(addr as int),
    {
        if self.is_ram(addr) {
            true
        } else if self.is_uart(addr) {
            P::writable_at(addr - self.uart_base)
        } else {
            addr > 0xFF && addr != 0xFFFF_FFFF && ((0x1000_8000 <= addr && addr <= 0x1000_800F)
                || (0x0C00_0000 <= addr && addr <= 0x0FFF_FFFF)
                || (0x1001_2000 <= addr && addr <= 0x1001_2FFF))
        }
    }

    /// Reads the byte at `addr`.
    pub fn read_byte(&self, addr: usize) -> (r: u32)
        requires
            self.wf(),
            self.readable(addr as int),
        ensures
            r < 256,
            self.byte(addr as int) matches Some(b) ==> r == b,
            self.read_answer(addr as int, r as u8),
    {
        if self.is_ram(addr) {
            let index = addr - self.ram_base;
            return self.ram[index] as u32;
        }
        if self.is_rom(addr) {
            let index = addr - self.rom_base;
            return self.rom[index] as u32;
        }
        if self.is_uart(addr) {
            return self.uart.read(addr - self.uart_base) as u32;
        }
        // PRCI, PLIC and GPIO
        0xFF
    }

    pub fn read_halfword(&self, index: usize) -> (r: u32)
        requires
            self.wf(),
            index < usize::MAX,
            self.readable(index as int),
            self.readable(index + 1),
        ensures
            r < 0x1_0000,
            self.byte(index as int) is Some && self.byte(index + 1) is Some ==> r as int
                == halfword_of(self.byte(index as int)->0, self.byte(index + 1)->0),
            self.read_answer(index as int, byte_of(r, 0)),
            self.read_answer(index + 1, byte_of(r, 1)),
    {
        let hi = self.read_byte(index + 1);
        let lo = self.read_byte(index);
        proof {
            crate::bits::lemma_byte_halves(hi, lo);
        }
        let r = (hi << 8) + lo;
        proof {
            assert(byte_of(r, 0) == lo as u8);
            assert(byte_of(r, 1) == hi as u8);
        }
        r
    }

    pub fn read_word(&self, index: usize) -> (r: u32)
        requires
            self.wf(),
            index <= usize::MAX - 3,
            forall|i: int| index <= i < index + 4 ==> self.readable(i),
        ensures
            (forall|i: int| index <= i < index + 4 ==> self.byte(i) is Some) ==> r as int == word_of(
                self.byte(index as int)->0,
                self.byte(index + 1)->0,
                self.byte(index + 2)->0,
                self.byte(index + 3)->0,
            ),
            forall|k: int| 0 <= k < 4 ==> #[trigger] self.read_answer(index + k, byte_of(r, k)),
    {
        let hi = self.read_halfword(index + 2);
        let lo = self.read_halfword(index);
        proof {
            crate::bits::lemma_halves(hi, lo);
        }
        let r = (hi << 16) + lo;
        proof {
            assert(byte_of(r, 0) == byte_of(lo, 0) && byte_of(r, 1) == byte_of(lo, 1));
            assert(byte_of(r, 2) == byte_of(hi, 0) && byte_of(r, 3) == byte_of(hi, 1));
            assert(index + 2 + 1 == index + 3);
            assert forall|k: int| 0 <= k < 4 implies #[trigger] self.read_answer(index + k, byte_of(r, k)) by {
                if k == 0 {
                    assert(index + k == index as int);
                } else if k == 2 {
                    assert(index + k == index + 2);
                }
            }
        }
        r
    }

    /// Writes the low byte of `value` at `addr`.
    pub fn write_byte(&mut self, addr: usize, value: u32)
        requires
            old(self).wf(),
            old(self).writable(addr as int),
        ensures
            final(self).wf(),
            final(self).same_layout(old(self)),
            final(self).rom@ == old(self).rom@,
            old(self).in_ram(addr as int) ==> final(self).ram@ == old(self).ram@.update(
                addr - old(self).ram_base,
                (value % 256) as u8,
            ),
            !old(self).in_ram(addr as int) ==> final(self).ram@ == old(self).ram@,
            !old(self).in_uart(addr as int) || old(self).in_ram(addr as int) ==> final(self).uart == old(self).uart,
            forall|a: int| #![trigger final(self).byte(a)]
                final(self).byte(a) == if a == addr {
                    old(self).byte_after_write(a, (value % 256) as u8)
                } else {
                    old(self).byte(a)
                },
            old(self).uart_stored(addr as int, 1, value, final(self).uart),
    {
        proof {
            crate::bits::lemma_bytes(value);
        }
        if self.is_ram(addr) {
            let index = addr - self.ram_base;
            self.ram.set(index, (value & 0xFF) as u8);
            return;
        }
        if self.is_uart(addr) {
            let offset = addr - self.uart_base;
            self.uart.write(offset, (value & 0xFF) as u8);
        }
        // PRCI, PLIC and GPIO ignore writes
    }

    /// Writes the low two bytes of `value` at `index` and `index + 1`, low byte first.
    pub fn write_halfword(&mut self, index: usize, value: u32)
        requires
            old(self).wf(),
            index < usize::MAX,
            old(self).writable(index as int),
            old(self).writable(index + 1),
        ensures
            final(self).wf(),
            final(self).same_layout(old(self)),
            final(self).rom@ == old(self).rom@,
            (!old(self).in_uart(index as int) || old(self).in_ram(index as int))
                && (!old(self).in_uart(index + 1) || old(self).in_ram(index + 1)) ==> final(self).uart == old(self).uart,
            forall|a: int| #![trigger final(self).byte(a)]
                !(index <= a < index + 2) ==> final(self).byte(a) == old(self).byte(a),
            forall|k: int| #![trigger final(self).byte(index + k)]
                0 <= k < 2 ==> final(self).byte(index + k) == old(self).byte_after_write(
                    index + k,
                    byte_of(value, k),
                ),
            old(self).uart_stored(index as int, 2, value, final(self).uart),
    {
        let ghost m0 = *self;
        self.write_byte(index, value);
        let ghost m1 = *self;
        self.write_byte(index + 1, value >> 8);
        proof {
            crate::bits::lemma_bytes(value);
            assert(self.byte(index + 0) == self.byte(index as int));
            assert(byte_of(value >> 8, 0) == byte_of(value, 1));
            assert(m1.uart_after_write(index + 1, byte_of(value, 1), m1.uart, self.uart));
            assert(m0.uart_after_write(index + 1, byte_of(value, 1), m1.uart, self.uart));
            assert(m0.uart_after_write(index as int, byte_of(value, 0), m0.uart, m1.uart));
        }
    }

    /// Writes `value` at `index`..`index + 3`, low byte first.
    pub fn write_word(&mut self, index: usize, value: u32)
        requires
            old(self).wf(),
            index <= usize::MAX - 3,
            forall|i: int| index <= i < index + 4 ==> old(self).writable(i),
        ensures
            final(self).wf(),
            final(self).same_layout(old(self)),
            final(self).rom@ == old(self).rom@,
            (forall|i: int| #![auto] index <= i < index + 4 ==> !old(self).in_uart(i) || old(self).in_ram(i))
                ==> final(self).uart == old(self).uart,
            forall|a: int| #![trigger final(self).byte(a)]
                !(index <= a < index + 4) ==> final(self).byte(a) == old(self).byte(a),
            forall|k: int| #![trigger final(self).byte(index + k)]
                0 <= k < 4 ==> final(self).byte(index + k) == old(self).byte_after_write(
                    index + k,
                    byte_of(value, k),
                ),
            (forall|k: int| 0 <= k < 4 ==> #[trigger] old(self).in_ram(index + k))
                ==> final(self).word(index as int) == Some(value),
            old(self).uart_stored(index as int, 4, value, final(self).uart),
    {
        let ghost m0 = *self;
        assert(m0.writable(index + 2) && m0.writable(index + 3));
        assert(m0.writable(index + 0) && m0.writable(index + 1));
        self.write_halfword(index, value);
        let ghost m1 = *self;
        assert(self.writable(index + 2) && self.writable(index + 3));
        self.write_halfword(index + 2, value >> 16);
        proof {
            crate::bits::lemma_bytes(value);
            assert(self.byte(index + 0) == m1.byte(index + 0));
            assert(self.byte(index + 1) == m1.byte(index + 1));
            assert(m1.byte(index + 2) == m0.byte(index + 2));
            assert(m1.byte(index + 3) == m0.byte(index + 3));
            assert(self.byte(index + 2 + 0) == m1.byte_after_write(index + 2 + 0, byte_of(value >> 16, 0)));
            assert(self.byte(index + 2 + 1) == m1.byte_after_write(index + 2 + 1, byte_of(value >> 16, 1)));
            assert forall|k: int| 0 <= k < 4 implies #[trigger] self.byte(index + k) == m0.byte_after_write(
                index + k,
                byte_of(value, k),
            ) by {
                if k == 2 {
                    assert(index + k == index + 2 + 0);
                } else if k == 3 {
                    assert(index + k == index + 2 + 1);
                }
            }
            if (forall|i: int| #![auto] index <= i < index + 4 ==> !m0.in_uart(i) || m0.in_ram(i)) {
                assert(!m0.in_uart(index as int) || m0.in_ram(index as int));
                assert(!m0.in_uart(index + 1) || m0.in_ram(index + 1));
                assert(!m0.in_uart(index + 2) || m0.in_ram(index + 2));
                assert(!m0.in_uart(index + 3) || m0.in_ram(index + 3));
            }
            let u1 = choose|m: P| #[trigger] m0.uart_after_write(index as int, byte_of(value, 0), m0.uart, m)
                && m0.uart_after_write(index + 1, byte_of(value, 1), m, m1.uart);
            let u3 = choose|m: P| #[trigger] m1.uart_after_write(index + 2, byte_of(value >> 16, 0), m1.uart, m)
                && m1.uart_after_write(index + 2 + 1, byte_of(value >> 16, 1), m, self.uart);
            assert(byte_of(value >> 16, 0) == byte_of(value, 2));
            assert(byte_of(value >> 16, 1) == byte_of(value, 3));
            assert(index + 2 + 1 == index + 3);
            assert(m0.uart_after_write(index + 2, byte_of(value, 2), m1.uart, u3));
            assert(m0.uart_after_write(index + 3, byte_of(value, 3), u3, self.uart));
            assert(m0.uart_after_write(index as int, byte_of(value, 0), m0.uart, u1)
                && m0.uart_after_write(index + 1, byte_of(value, 1), u1, m1.uart)
                && m0.uart_after_write(index + 2, byte_of(value, 2), m1.uart, u3)
                && m0.uart_after_write(index + 3, byte_of(value, 3), u3, self.uart));
            if (forall|k: int| 0 <= k < 4 ==> #[trigger] m0.in_ram(index + k)) {
                law_ram_word_read_after_write(m0, *self, index as int, value);
            }
        }
    }
}

/// The four little-endian bytes of a word compose back to the word.
pub proof fn lemma_word_of_bytes(value: u32)
    ensures
        word_of(
            (value % 256) as u8,
            ((value / 256) % 256) as u8,
            ((value / 0x1_0000) % 256) as u8,
            ((value / 0x100_0000) % 256) as u8,
        ) == value,
{
    crate::bits::lemma_bytes(value);
}

/// A word written to RAM is the word read back: where the four bytes at `index`
/// lie in RAM and each holds what a write of `value` leaves there, the word at
/// `index` is `value`.
pub proof fn law_ram_word_read_after_write<P: MmapPeripheral>(
    before: Memory<P>,
    after: Memory<P>,
    index: int,
    value: u32,
)
    requires
        forall|k: int| 0 <= k < 4 ==> #[trigger] before.in_ram(index + k),
        forall|k: int| 0 <= k < 4 ==> #[trigger] after.byte(index + k) == before.byte_after_write(
            index + k,
            byte_of(value, k),
        ),
    ensures
        after.word(index) == Some(value),
{
    assert(before.in_ram(index + 0) && before.in_ram(index + 1) && before.in_ram(index + 2) && before.in_ram(index + 3));
    assert(after.byte(index + 0) == before.byte_after_write(index + 0, byte_of(value, 0)));
    assert(after.byte(index + 1) == before.byte_after_write(index + 1, byte_of(value, 1)));
    assert(after.byte(index + 2) == before.byte_after_write(index + 2, byte_of(value, 2)));
    assert(after.byte(index + 3) == before.byte_after_write(index + 3, byte_of(value, 3)));
    assert(index + 0 == index);
    lemma_word_of_bytes(value);
}

/// Words are little-endian: byte `k` of a word is its bits `8k + 7..8k`, and the
/// word is its bytes put back in that order.
pub proof fn law_little_endian(value: u32)
    ensures
        byte_of(value, 0) == (value & 0xFF) as u8,
        byte_of(value, 1) == ((value >> 8) & 0xFF) as u8,
        byte_of(value, 2) == ((value >> 16) & 0xFF) as u8,
        byte_of(value, 3) == ((value >> 24) & 0xFF) as u8,
        word_of(byte_of(value, 0), byte_of(value, 1), byte_of(value, 2), byte_of(value, 3)) == value,
        halfword_of(byte_of(value, 0), byte_of(value, 1)) == value % 0x1_0000,
{
    crate::bits::lemma_bytes(value);
    lemma_word_of_bytes(value);
}

impl<P> Memory<P> {
    /// The memory map of the HiFive board: 16 KiB of RAM at 0x8000_0000, 512 MiB
    /// of ROM at 0x2000_0000 and the UART window at 0x1001_3000, all zeroed.
    pub fn default_hifive(uart: P) -> (r: Self)
        ensures
            r.uart == uart,
            r.uart_base == 0x1001_3000,
            r.uart_limit == 0x1001_301C,
            r.rom_base == 0x2000_0000,
            r.rom_limit == 0x4000_0000,
            r.ram_base == 0x8000_0000,
            r.ram_limit == 0x8000_4000,
            r.rom@ == Seq::new(0x2000_0000, |i: int| 0u8),
            r.ram@ == Seq::new(0x4000, |i: int| 0u8),
    {
        let rom = vec![0u8; 0x2000_0000];
        let ram = vec![0u8; 0x4000];
        let r = Self {
            uart_base: 0x1001_3000,
            uart,
            uart_limit: 0x1001_301C,
            rom_base: 0x2000_0000,
            rom_limit: 0x4000_0000,
            rom,
            ram_base: 0x8000_0000,
            ram_limit: 0x8000_4000,
            ram,
        };
        assert(r.rom@ == Seq::new(0x2000_0000, |i: int| 0u8));
        assert(r.ram@ == Seq::new(0x4000, |i: int| 0u8));
        r
    }
}

} // verus!
