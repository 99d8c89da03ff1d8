//! Memory mapped peripherals: the `MmapPeripheral` interface and the UART of
//! the HiFive board, whose character input and output go through a `Backend`.
use vstd::prelude::*;

verus! {

/// A device that is reached through a window of memory addresses.
pub trait MmapPeripheral {
    /// The offsets into the window that the device answers reads on.
    spec fn readable(offset: usize) -> bool;

    /// The offsets into the window that the device accepts writes on.
    spec fn writable(offset: usize) -> bool;

    /// `value` is an answer that a read at `offset` can give.
    spec fn answers(&self, offset: usize, value: u8) -> bool;

    /// `after` is what the device becomes when `value` is written at `offset`
    /// of `self`, with whatever the write hands on.
    spec fn wrote(&self, after: &Self, offset: usize, value: u8) -> bool;

    /// Whether reads are answered at `offset`.
    fn readable_at(offset: usize) -> (r: bool)
        ensures
            r == Self::readable(offset),
    ;

    /// Whether writes are accepted at `offset`.
    fn writable_at(offset: usize) -> (r: bool)
        ensures
            r == Self::writable(offset),
    ;

    fn read(&self, offset: usize) -> (r: u8)
        requires
            Self::readable(offset),
        ensures
            self.answers(offset, r),
    ;

    fn write(&mut self, offset: usize, value: u8)
        requires
            Self::writable(offset),
        ensures
            old(self).wrote(final(self), offset, value),
    ;
}

/// Where the characters of a UART come from and go to.
pub trait Backend {
    fn has_data(&self) -> bool;

    fn read_cb(&self) -> Option<u8>;

    fn write_cb(&self, value: u8);
}

/// The registers of the UART, as the emulated program sees them.
pub struct UartRegs {
    pub tx_fifo_full: bool,
    pub tx_enable: bool,
    pub rx_enable: bool,
    pub txcnt: u8,
    pub rxcnt: u8,
    /// Watermark interrupt enables.
    pub txwm_ie: bool,
    pub rxwm_ie: bool,
    /// Watermark interrupts pending.
    pub txwm_ip: bool,
    pub rxwm_ip: bool,
}

#[allow(clippy::struct_excessive_bools)]
pub struct Uart<B> {
    tx_fifo_full: bool,
    tx_enable: bool,
    rx_enable: bool,
    txcnt: u8,
    rxcnt: u8,
    txwm_ie: bool, // watermark interrupt enable
    rxwm_ie: bool,
    txwm_ip: bool, // watermark interrupt pending
    rxwm_ip: bool,
    backend: B,
}

impl<B> View for Uart<B> {
    type V = UartRegs;

    closed spec fn view(&self) -> UartRegs {
        UartRegs {
            tx_fifo_full: self.tx_fifo_full,
            tx_enable: self.tx_enable,
            rx_enable: self.rx_enable,
            txcnt: self.txcnt,
            rxcnt: self.rxcnt,
            txwm_ie: self.txwm_ie,
            rxwm_ie: self.rxwm_ie,
            txwm_ip: self.txwm_ip,
            rxwm_ip: self.rxwm_ip,
        }
    }
}

/// The byte that a read at `offset` gives, for the offsets whose value is held
/// by the registers alone; `None` for the receive data (offset 4) and the
/// receive FIFO empty flag (offset 7), which ask the backend.
pub open spec fn register_byte(s: UartRegs, offset: usize) -> Option<u8> {
    if offset == 3 {
        Some(if s.tx_fifo_full { 0b1000_0000u8 } else { 0u8 })
    } else if offset == 4 || offset == 7 {
        None
    } else if offset == 8 {
        Some(if s.tx_enable { 1u8 } else { 0u8 })
    } else if offset == 0x0A {
        Some((s.txcnt % 8) as u8)
    } else if offset == 0x0C {
        Some(if s.rx_enable { 1u8 } else { 0u8 })
    } else if offset == 0x0E {
        Some((s.rxcnt % 8) as u8)
    } else if offset == 0x10 {
        Some(((if s.txwm_ie { 1u8 } else { 0u8 }) + (if s.rxwm_ie { 2u8 } else { 0u8 })) as u8)
    } else if offset == 0x14 {
        Some(((if s.txwm_ip { 1u8 } else { 0u8 }) + (if s.rxwm_ip { 2u8 } else { 0u8 })) as u8)
    } else {
        Some(0u8)
    }
}

/// The registers after a write of `value` at `offset`: setting bit 0 of txctrl
/// (offset 8) or rxctrl (offset 0x0C) enables transmission or reception, the low
/// three bits written at offsets 0x0A and 0x0E become the watermark counts, and
/// bits 0 and 1 written at offset 0x10 become the interrupt enables.
pub open spec fn registers_after_write(s: UartRegs, offset: usize, value: u8) -> UartRegs {
    if offset == 8 {
        UartRegs { tx_enable: s.tx_enable || value % 2 == 1, ..s }
    } else if offset == 0x0A {
        UartRegs { txcnt: value % 8, ..s }
    } else if offset == 0x0C {
        UartRegs { rx_enable: s.rx_enable || value % 2 == 1, ..s }
    } else if offset == 0x0E {
        UartRegs { rxcnt: value % 8, ..s }
    } else if offset == 0x10 {
        UartRegs { txwm_ie: value % 2 == 1, rxwm_ie: (value / 2) % 2 == 1, ..s }
    } else {
        s
    }
}

impl<B> Uart<B> {
    /// The transmit FIFO is never full and no interrupt is ever pending: nothing
    /// sets these bits.
    #[verifier::type_invariant]
    spec fn status_clear(&self) -> bool {
        &&& !self.tx_fifo_full
        &&& !self.txwm_ip
        &&& !self.rxwm_ip
    }

    /// Where the characters go to and come from.
    pub closed spec fn backend(&self) -> B {
        self.backend
    }

    pub fn default(backend: B) -> (r: Self)
        ensures
            r@ == (UartRegs {
                tx_fifo_full: false,
                tx_enable: false,
                rx_enable: false,
                txcnt: 0,
                rxcnt: 0,
                txwm_ie: false,
                rxwm_ie: false,
                txwm_ip: false,
                rxwm_ip: false,
            }),
            r.backend() == backend,
    {
        Uart {
            tx_fifo_full: false,
            tx_enable: false,
            rx_enable: false,
            txcnt: 0,
            rxcnt: 0,
            txwm_ie: false, // watermark interrupt enable
            rxwm_ie: false,
            txwm_ip: false, // watermark interrupt pending
            rxwm_ip: false,
            backend,
        }
    }
}

impl<B: Backend> MmapPeripheral for Uart<B> {
    /// Reads are answered below offset 0x18; the baud rate divisor at 0x18 is not
    /// emulated.
    open spec fn readable(offset: usize) -> bool {
        offset < 0x18
    }

    /// Writes are accepted up to offset 0x1C.
    open spec fn writable(offset: usize) -> bool {
        offset <= 0x1C
    }

    fn readable_at(offset: usize) -> (r: bool) {
        offset < 0x18
    }

    fn writable_at(offset: usize) -> (r: bool) {
        offset <= 0x1C
    }

    /// The registers decide the answer, but for the receive data (offset 4),
    /// which with reception enabled is what the backend's `read_cb` hands out
    /// (0 where it has nothing), and the receive FIFO empty flag (offset 7), set
    /// where the backend's `has_data` says there is nothing.
    open spec fn answers(&self, offset: usize, value: u8) -> bool {
        match register_byte(self@, offset) {
            Some(b) => value == b,
            None => if offset == 4 {
                if self@.rx_enable {
                    exists|o: Option<u8>|
                        #[trigger] call_ensures(B::read_cb, (&self.backend(),), o) && value == match o {
                            Some(d) => d,
                            None => 0u8,
                        }
                } else {
                    value == 0
                }
            } else {
                exists|h: bool|
                    #[trigger] call_ensures(B::has_data, (&self.backend(),), h) && value == if h {
                        0u8
                    } else {
                        0b1000_0000u8
                    }
            },
        }
    }

    /// The registers change as `registers_after_write` says and the backend
    /// stays; a write at offset 0 with transmission enabled hands the byte to the
    /// backend's `write_cb`.
    open spec fn wrote(&self, after: &Self, offset: usize, value: u8) -> bool {
        &&& after@ == registers_after_write(self@, offset, value)
        &&& after.backend() == self.backend()
        &&& offset == 0 && self@.tx_enable ==> call_ensures(B::write_cb, (&self.backend(), value), ())
    }

    #[allow(clippy::match_same_arms)]
    fn read(&self, address_offset: usize) -> (r: u8)
        ensures
            address_offset == 3 || address_offset == 0x14 ==> r == 0,
    {
        proof {
            use_type_invariant(self);
            crate::bits::lemma_byte_masks(self.txcnt);
            crate::bits::lemma_byte_masks(self.rxcnt);
        }
        match address_offset {
            0x00..=0x02 => 0, // txdata Transmit data register
            0x03 => {
                // .31 txdata FIFO full bit
                if self.tx_fifo_full {
                    return 0b1000_0000;
                }
                0
            }
            0x04 => {
                // ...0x07 rxdata Receive data register
                if self.rx_enable {
                    let received = self.backend.read_cb();
                    assert(call_ensures(B::read_cb, (&self.backend(),), received));
                    if let Some(data) = received {
                        return data;
                    }
                }
                0
            }
            0x05..=0x06 => 0,
            0x07 => {
                // .31 rxdata FIFO empty bit
                let pending = self.backend.has_data();
                assert(call_ensures(B::has_data, (&self.backend(),), pending));
                if !pending {
                    return 0b1000_0000;
                }
                0
            }
            0x08 => {
                // ...0x0B txctrl Transmit control register
                let mut ret = 0x00;
                if self.tx_enable {
                    ret |= 0x01; // tx enable
                }
                // ret |= 0x02; // num stopbits: Hardcoded always 0
                ret
            }
            0x09 => 0,
            0x0A => {
                // ...0x0B txctrl Transmit control register
                // Bit 16..17..18 are for txcnt / watermark
                self.txcnt & 0b111
            }
            0x0B => 0,
            0x0C => {
                // ...0x0F rxctrl Receive control register
                // First bit is rx en
                if self.rx_enable {
                    return 1;
                }
                0
            }
            0x0D => 0,
            0x0E => {
                // Bit 16..17..18 are for rxcnt
                self.rxcnt & 0b111
            }
            0x0F => 0,
            0x10 => {
                // ie UART interrupt enable
                let mut ret = 0x00;
                if self.txwm_ie {
                    ret |= 0x01; // txwm Transmit watermark interrupt enable
                }
                if self.rxwm_ie {
                    ret |= 0x02; // rxwm Receive watermark interrupt enable
                }
                ret
            }
            0x11..=0x13 => 0,
            0x14 => {
                // ip UART interrupt pending
                let mut ret = 0x00;
                if self.txwm_ip {
                    ret |= 0x01; // txwm Transmit watermark interrupt pending
                }
                if self.rxwm_ip {
                    ret |= 0x02; // rxwm Receive watermark interrupt pending
                }
                ret
            }
            _ => 0, // 0x15..=0x17
        }
    }

    #[allow(clippy::match_same_arms)]
    fn write(&mut self, address_offset: usize, value: u8) {
        proof {
            use_type_invariant(&*self);
            crate::bits::lemma_byte_masks(value);
        }
        match address_offset {
            0x00 => {
                // txdata Transmit data register
                if self.tx_enable {
                    self.backend.write_cb(value);
                }
            }
            0x01..=0x07 => (),
            0x08 => {
                // ...0x0B txctrl Transmit control register
                if (value & 0b1) != 0 {
                    self.tx_enable = true;
                }
                // (value & 0b10) selects the number of stop bits, which is ignored
            }
            0x09 => (),
            0x0A => {
                // ...0x0B txctrl Transmit control register
                // Bit 16..17..18 are for txcnt / watermark
                self.txcnt = value & 0b111;
            }
            0x0B => (),
            0x0C => {
                // ...0x0F rxctrl Receive control register
                // First bit is rx en
                if (value & 0b1) != 0 {
                    self.rx_enable = true;
                }
            }
            0x0D => (),
            0x0E => {
                // Bit 16..17..18 are for rxcnt
                self.rxcnt = value & 0b111;
            }
            0x0F => (),
            0x10 => {
                // ie UART interrupt enable
                self.txwm_ie = (value & 0b1) != 0;
                self.rxwm_ie = (value & 0b10) != 0;
            }
            _ => (), // 0x11..=0x1C: reserved and the baud rate divisor
        }
    }
}

/// Transmission and reception, once enabled, stay enabled whatever is written.
pub proof fn law_enables_stay_set(s: UartRegs, offset: usize, value: u8)
    ensures
        s.tx_enable ==> registers_after_write(s, offset, value).tx_enable,
        s.rx_enable ==> registers_after_write(s, offset, value).rx_enable,
{
}

/// No write sets the transmit FIFO full flag or an interrupt pending bit, so
/// from `Uart::default` on they read as clear.
pub proof fn law_status_bits_stay_clear(s: UartRegs, offset: usize, value: u8)
    ensures
        registers_after_write(s, offset, value).tx_fifo_full == s.tx_fifo_full,
        registers_after_write(s, offset, value).txwm_ip == s.txwm_ip,
        registers_after_write(s, offset, value).rxwm_ip == s.rxwm_ip,
{
}

/// What a write leaves to be read back: the low three bits of a write to
/// offset 0x0A or 0x0E read back there, the low two bits of a write to 0x10,
/// and bit 0 of a write to 0x08 or 0x0C enables what reads back as 1 there.
/// A write to the transmit data (offset 0) changes no register.
pub proof fn law_uart_write_read(s: UartRegs, value: u8, offset: usize)
    ensures
        register_byte(registers_after_write(s, 0x0A, value), 0x0A) == Some(value & 7),
        register_byte(registers_after_write(s, 0x0E, value), 0x0E) == Some(value & 7),
        register_byte(registers_after_write(s, 0x10, value), 0x10) == Some(value & 3),
        register_byte(registers_after_write(s, 0x08, value), 0x08)
            == Some(if s.tx_enable || value & 1 == 1 { 1u8 } else { 0u8 }),
        register_byte(registers_after_write(s, 0x0C, value), 0x0C)
            == Some(if s.rx_enable || value & 1 == 1 { 1u8 } else { 0u8 }),
        register_byte(registers_after_write(s, 0, value), offset) == register_byte(s, offset),
{
    crate::bits::lemma_byte_masks(value);
}

} // verus!
