//! The emulated hart: its register file, its memory and a log of the
//! instructions it executed last.
use vstd::prelude::*;
use crate::decoder::{decode, decode_word};
use crate::executer::{access_allowed, access_ok, base_inst, exec, exec_spec, executable, loaded_ok, memory_effect};
use crate::instructions::{regs_in_range, Instruction};
use crate::memory::Memory;
use crate::periph::MmapPeripheral;
use crate::register::{Register, RegisterView, CSR_COUNT};
use elf::endian::AnyEndian;
use elf::ElfBytes;

verus! {

pub const LOG_LENGTH: usize = 40;

/// Program header type of a loadable segment.
pub const PT_LOAD: u32 = 1;

pub struct CPU<P> {
    pub register: Register,
    pub memory: Memory<P>,
    instruction_log: [Option<(usize, Instruction)>; 40],
}

/// `d` written over `s` from offset `off` on.
pub open spec fn spliced(s: Seq<u8>, off: int, d: Seq<u8>) -> Seq<u8> {
    s.subrange(0, off) + d + s.subrange(off + d.len(), s.len() as int)
}

/// The register file a hart starts with: everything zero but the program counter.
pub open spec fn reset_registers(pc: u32) -> RegisterView {
    RegisterView {
        x: Seq::new(32, |i: int| 0u32),
        csr: Seq::new(CSR_COUNT as nat, |i: int| 0u32),
        pc,
    }
}

/// The HiFive memory map around `uart`, with ROM and RAM holding `rom` and `ram`.
pub open spec fn hifive<P>(m: Memory<P>, uart: P, rom: Seq<u8>, ram: Seq<u8>) -> bool {
    &&& m.uart == uart
    &&& m.uart_base == 0x1001_3000
    &&& m.uart_limit == 0x1001_301C
    &&& m.rom_base == 0x2000_0000
    &&& m.rom_limit == 0x4000_0000
    &&& m.ram_base == 0x8000_0000
    &&& m.ram_limit == 0x8000_4000
    &&& m.rom@ == rom
    &&& m.ram@ == ram
}

pub open spec fn zeroed_rom() -> Seq<u8> {
    Seq::new(0x2000_0000, |i: int| 0u8)
}

pub open spec fn zeroed_ram() -> Seq<u8> {
    Seq::new(0x4000, |i: int| 0u8)
}

/// A binary of `len` bytes fits at `base`: inside ROM, or else inside RAM.
pub open spec fn bin_fits(len: int, base: int) -> bool {
    if 0x2000_0000 <= base < 0x4000_0000 {
        base - 0x2000_0000 + len <= 0x2000_0000
    } else {
        0x8000_0000 <= base < 0x8000_4000 && base - 0x8000_0000 + len <= 0x4000
    }
}

/// Whether a binary of `len` bytes can be loaded at `base`.
pub fn can_load_bin(len: usize, base: usize) -> (r: bool)
    ensures
        r == bin_fits(len as int, base as int),
{
    if 0x2000_0000 <= base && base < 0x4000_0000 {
        len <= 0x2000_0000 - (base - 0x2000_0000)
    } else {
        0x8000_0000 <= base && base < 0x8000_4000 && len <= 0x4000 - (base - 0x8000_0000)
    }
}

/// ROM and RAM after a binary was copied to `base`.
pub open spec fn bin_loaded(file: Seq<u8>, base: int) -> (Seq<u8>, Seq<u8>) {
    if 0x2000_0000 <= base < 0x4000_0000 {
        (spliced(zeroed_rom(), base - 0x2000_0000, file), zeroed_ram())
    } else {
        (zeroed_rom(), spliced(zeroed_ram(), base - 0x8000_0000, file))
    }
}

/// A program header of an ELF file, with the bytes of its segment where the
/// segment is loadable and its bytes could be read.
pub struct ElfSegment {
    pub p_type: u32,
    pub p_paddr: u64,
    pub data: Option<Vec<u8>>,
}

pub struct SegmentView {
    pub p_type: u32,
    pub p_paddr: u64,
    pub data: Option<Seq<u8>>,
}

impl View for ElfSegment {
    type V = SegmentView;

    open spec fn view(&self) -> SegmentView {
        SegmentView {
            p_type: self.p_type,
            p_paddr: self.p_paddr,
            data: match self.data {
                Some(d) => Some(d@),
                None => None,
            },
        }
    }
}

pub open spec fn in_rom_window(a: int) -> bool {
    0x2000_0000 <= a < 0x4000_0000
}

pub open spec fn in_ram_window(a: int) -> bool {
    0x8000_0000 <= a < 0x8000_4000
}

/// Why a segment cannot be loaded: only loadable segments are looked at; their
/// address must fit a `usize`, and where it lies in ROM or RAM the bytes must have
/// been read and must fit before the end of that memory.
pub open spec fn segment_error(s: SegmentView) -> Option<&'static str> {
    if s.p_type != PT_LOAD {
        None
    } else if s.p_paddr > usize::MAX {
        Some("Could not get PT_LOAD address in your ELF file.")
    } else if in_rom_window(s.p_paddr as int) || in_ram_window(s.p_paddr as int) {
        match s.data {
            None => Some("Could not read segment data from your ELF file."),
            Some(d) => if (in_rom_window(s.p_paddr as int) && s.p_paddr - 0x2000_0000 + d.len() > 0x2000_0000)
                || (!in_rom_window(s.p_paddr as int) && s.p_paddr - 0x8000_0000 + d.len() > 0x4000) {
                Some("ELF segment does not fit into memory.")
            } else {
                None
            },
        }
    } else {
        None
    }
}

/// The first error among the segments, in their order.
pub open spec fn first_error(segs: Seq<SegmentView>) -> Option<&'static str>
    decreases segs.len(),
{
    if segs.len() == 0 {
        None
    } else {
        match first_error(segs.drop_last()) {
            Some(e) => Some(e),
            None => segment_error(segs.last()),
        }
    }
}

/// Why an ELF image cannot be loaded: a segment error, else an entry address that
/// does not fit 32 bits.
pub open spec fn image_error(segs: Seq<SegmentView>, entry: u64) -> Option<&'static str> {
    match first_error(segs) {
        Some(e) => Some(e),
        None => if entry > u32::MAX { Some("Failed to read start address e_entry") } else { None },
    }
}

/// ROM and RAM after a segment is loaded: a loadable segment whose address lies in
/// ROM or RAM has its bytes copied there; any other leaves them as they are.
pub open spec fn load_segment(mem: (Seq<u8>, Seq<u8>), s: SegmentView) -> (Seq<u8>, Seq<u8>) {
    if s.p_type == PT_LOAD && s.data is Some {
        if in_rom_window(s.p_paddr as int) {
            (spliced(mem.0, s.p_paddr - 0x2000_0000, s.data->0), mem.1)
        } else if in_ram_window(s.p_paddr as int) {
            (mem.0, spliced(mem.1, s.p_paddr - 0x8000_0000, s.data->0))
        } else {
            mem
        }
    } else {
        mem
    }
}

/// ROM and RAM after all segments are loaded, in their order, into zeroed memory.
pub open spec fn load_image(segs: Seq<SegmentView>) -> (Seq<u8>, Seq<u8>)
    decreases segs.len(),
{
    if segs.len() == 0 {
        (zeroed_rom(), zeroed_ram())
    } else {
        load_segment(load_image(segs.drop_last()), segs.last())
    }
}

/// The four bytes at `addr` can be read.
pub open spec fn fetchable<P: MmapPeripheral>(m: Memory<P>, addr: int) -> bool {
    &&& addr + 4 <= usize::MAX + 1
    &&& forall|i: int| addr <= i < addr + 4 ==> m.readable(i)
}

/// `w` is a word that a read of four bytes at `addr` can give: the word the memory
/// holds there, wherever the memory alone decides it.
pub open spec fn fetched<P: MmapPeripheral>(m: Memory<P>, addr: int, w: u32) -> bool {
    m.word(addr) is Some ==> w == m.word(addr)->0
}

/// The entry that the instruction listing shows for the word `w`: the instruction
/// it stands for, or the word itself where it stands for none.
pub open spec fn listing_entry(w: u32) -> Result<Instruction, u32> {
    match decode_word(w) {
        Ok(i) => Ok(i),
        Err(_) => Err(w),
    }
}

/// Bytes between an instruction and the next.
pub open spec fn advance(i: Instruction) -> int {
    if i.spec_is_compressed() { 2 } else { 4 }
}

/// The entry address of an ELF file, `None` where its header does not parse.
pub uninterp spec fn elf_entry_of(file: Seq<u8>) -> Option<u64>;

/// Bytes from the word `w` to the next entry of the instruction listing.
pub open spec fn step_of(w: u32) -> int {
    match decode_word(w) {
        Ok(i) => advance(i),
        Err(_) => 4,
    }
}

/// The `n` entries of the listing from `addr` on read only words that can be
/// read, whatever the UART window answers.
pub open spec fn listing_fits<P: MmapPeripheral>(m: Memory<P>, addr: int, n: nat) -> bool
    decreases n,
{
    if n == 0 {
        true
    } else {
        &&& fetchable(m, addr)
        &&& forall|w: u32| #[trigger] fetched(m, addr, w) ==> listing_fits(m, addr + step_of(w), (n - 1) as nat)
    }
}

/// The words that the `n` entries of the listing from `addr` on read are held by
/// the memory alone.
pub open spec fn listing_determined<P: MmapPeripheral>(m: Memory<P>, addr: int, n: nat) -> bool
    decreases n,
{
    n == 0 || (m.word(addr) is Some && listing_determined(m, addr + step_of(m.word(addr)->0), (n - 1) as nat))
}

/// The `n` entries of the listing from `addr` on, where the memory alone holds
/// the words they read.
pub open spec fn listing<P: MmapPeripheral>(m: Memory<P>, addr: int, n: nat) -> Seq<(usize, Result<Instruction, u32>)>
    decreases n,
{
    if n == 0 {
        Seq::empty()
    } else {
        let w = m.word(addr)->0;
        seq![(addr as usize, listing_entry(w))] + listing(m, addr + step_of(w), (n - 1) as nat)
    }
}

proof fn lemma_listing_len<P: MmapPeripheral>(m: Memory<P>, addr: int, n: nat)
    ensures
        listing(m, addr, n).len() == n,
    decreases n,
{
    if n > 0 {
        lemma_listing_len(m, addr + step_of(m.word(addr)->0), (n - 1) as nat);
    }
}

/// A shorter listing is the start of a longer one: where the longer one can be
/// read, or is held by the memory alone, so can and is the shorter, and its
/// entries are the first of the longer one's.
pub proof fn law_listing_prefix<P: MmapPeripheral>(m: Memory<P>, addr: int, k: nat, n: nat)
    requires
        k <= n,
    ensures
        listing(m, addr, k) == listing(m, addr, n).take(k as int),
        listing_fits(m, addr, n) ==> listing_fits(m, addr, k),
        listing_determined(m, addr, n) ==> listing_determined(m, addr, k),
    decreases k,
{
    if k > 0 {
        let w = m.word(addr)->0;
        let e = (#[verifier::truncate] (addr as usize), listing_entry(w));
        law_listing_prefix(m, addr + step_of(w), (k - 1) as nat, (n - 1) as nat);
        if listing_fits(m, addr, n) {
            assert forall|v: u32| #[trigger] fetched(m, addr, v) implies listing_fits(
                m,
                addr + step_of(v),
                (k - 1) as nat,
            ) by {
                law_listing_prefix(m, addr + step_of(v), (k - 1) as nat, (n - 1) as nat);
            }
        }
        assert(listing(m, addr, n) == seq![e] + listing(m, addr + step_of(w), (n - 1) as nat));
        assert(listing(m, addr, k) == seq![e] + listing(m, addr + step_of(w), (k - 1) as nat));
        let tail_n = listing(m, addr + step_of(w), (n - 1) as nat);
        let tail_k = listing(m, addr + step_of(w), (k - 1) as nat);
        assert(tail_k == tail_n.take(k - 1));
        lemma_listing_len(m, addr + step_of(w), (n - 1) as nat);
        lemma_listing_len(m, addr + step_of(w), (k - 1) as nat);
        lemma_listing_len(m, addr, n);
        lemma_listing_len(m, addr, k);
        assert forall|j: int| 0 <= j < k implies #[trigger] listing(m, addr, k)[j] == listing(m, addr, n)[j] by {
            if j > 0 {
                assert(listing(m, addr, k)[j] == tail_k[j - 1]);
                assert(listing(m, addr, n)[j] == tail_n[j - 1]);
            }
        }
        assert(listing(m, addr, k) =~= listing(m, addr, n).take(k as int));
    } else {
        assert(listing(m, addr, k) =~= listing(m, addr, n).take(k as int));
    }
}

/// Where the `4 * n` bytes from `addr` on can be read, so can the `n` entries of
/// the listing from `addr` on, each of which moves on by at most 4 bytes.
pub proof fn lemma_readable_listing_fits<P: MmapPeripheral>(m: Memory<P>, addr: int, n: nat)
    requires
        addr + 4 * n <= usize::MAX + 1,
        forall|i: int| addr <= i < addr + 4 * n ==> m.readable(i),
    ensures
        listing_fits(m, addr, n),
    decreases n,
{
    if n > 0 {
        assert forall|w: u32| #[trigger] fetched(m, addr, w) implies listing_fits(
            m,
            addr + step_of(w),
            (n - 1) as nat,
        ) by {
            assert(step_of(w) == 2 || step_of(w) == 4);
            assert forall|i: int| addr + step_of(w) <= i < addr + step_of(w) + 4 * (n - 1) implies m.readable(i) by {
                assert(addr <= i < addr + 4 * n);
            }
            lemma_readable_listing_fits(m, addr + step_of(w), (n - 1) as nat);
        }
        assert forall|i: int| addr <= i < addr + 4 implies m.readable(i) by {
            assert(addr <= i < addr + 4 * n);
        }
    }
}

/// Where the 8 bytes from `addr` on can be read, so can the instruction at `addr`
/// and the one after it.
pub proof fn lemma_readable_next_fits<P: MmapPeripheral>(m: Memory<P>, addr: int)
    requires
        addr + 8 <= usize::MAX + 1,
        forall|i: int| addr <= i < addr + 8 ==> m.readable(i),
    ensures
        fetchable(m, addr),
        forall|w: u32| #[trigger] fetched(m, addr, w) && decode_word(w) is Ok
            ==> fetchable(m, addr + advance(decode_word(w)->Ok_0)),
{
    assert forall|w: u32| #[trigger] fetched(m, addr, w) && decode_word(w) is Ok implies fetchable(
        m,
        addr + advance(decode_word(w)->Ok_0),
    ) by {
        let a = addr + advance(decode_word(w)->Ok_0);
        assert forall|i: int| a <= i < a + 4 implies m.readable(i) by {
            assert(addr <= i < addr + 8);
        }
    }
}

/// The entry `e` of the listing is what a fetch at its address gives where the
/// memory alone holds the word there: the instruction the word decodes to, or,
/// where it decodes to none, the word itself.
pub open spec fn entry_fetched<P: MmapPeripheral>(m: Memory<P>, e: (usize, Result<Instruction, u32>)) -> bool {
    &&& m.word(e.0 as int) is Some
    &&& match e.1 {
        Ok(i) => decode_word(m.word(e.0 as int)->0) == Ok::<Instruction, &'static str>(i),
        Err(w) => decode_word(m.word(e.0 as int)->0) is Err && w == m.word(e.0 as int)->0,
    }
}

/// Bytes from the entry `e` of the listing to the next.
pub open spec fn entry_step(e: (usize, Result<Instruction, u32>)) -> int {
    match e.1 {
        Ok(i) => advance(i),
        Err(_) => 4,
    }
}

/// Each entry of a listing held by the memory alone is what a fetch at its
/// address gives. The addresses start at `addr` and move on by 2 after a
/// compressed instruction and by 4 otherwise.
pub proof fn law_listing_entries<P: MmapPeripheral>(m: Memory<P>, addr: int, n: nat)
    requires
        listing_fits(m, addr, n),
        listing_determined(m, addr, n),
    ensures
        listing(m, addr, n).len() == n,
        n > 0 ==> listing(m, addr, n)[0].0 == addr,
        forall|k: int| 0 <= k < n ==> entry_fetched(m, #[trigger] listing(m, addr, n)[k]),
        forall|k: int| 0 <= k < n - 1 ==> #[trigger] listing(m, addr, n)[k + 1].0 == listing(m, addr, n)[k].0
            + entry_step(listing(m, addr, n)[k]),
    decreases n,
{
    lemma_listing_len(m, addr, n);
    if n > 0 {
        let w = m.word(addr)->0;
        let next = addr + step_of(w);
        assert(fetched(m, addr, w));
        assert(m.readable(addr));
        law_listing_entries(m, next, (n - 1) as nat);
        let l = listing(m, addr, n);
        let t = listing(m, next, (n - 1) as nat);
        let e = (addr as usize, listing_entry(w));
        assert(l == seq![e] + t);
        assert(e.0 as int == addr);
        assert(entry_fetched(m, e));
        assert(entry_step(e) == step_of(w));
        assert forall|k: int| 0 <= k < n implies entry_fetched(m, #[trigger] l[k]) by {
            if k > 0 {
                assert(l[k] == t[k - 1]);
            }
        }
        assert forall|k: int| 0 <= k < n - 1 implies #[trigger] l[k + 1].0 == l[k].0 + entry_step(l[k]) by {
            assert(l[k + 1] == t[k]);
            if k > 0 {
                assert(l[k] == t[k - 1]);
                assert(t[(k - 1) + 1] == t[k]);
            } else {
                assert(t[0].0 == next);
            }
        }
    }
}

/// The number of entries of the program header table of an ELF file, `None` where
/// the header does not parse or there is no such table.
pub uninterp spec fn elf_segment_count_of(file: Seq<u8>) -> Option<usize>;

/// Type and physical address of program header `index`, `None` where it does not parse.
pub uninterp spec fn elf_program_header_of(file: Seq<u8>, index: usize) -> Option<(u32, u64)>;

/// The bytes in the file of the segment of program header `index`, `None` where
/// they cannot be read.
pub uninterp spec fn elf_segment_data_of(file: Seq<u8>, index: usize) -> Option<Seq<u8>>;

/// Parses the header with `ElfBytes::<AnyEndian>::minimal_parse` and reads its
/// `e_entry` field. Claimed: the result is a function of the file's bytes alone.
#[verifier::external_body]
fn elf_entry(file: &[u8]) -> (r: Option<u64>)
    ensures
        r == elf_entry_of(file@),
{
    let elf = ElfBytes::<AnyEndian>::minimal_parse(file).ok()?;
    Some(elf.ehdr.e_entry)
}

/// Parses the header with `ElfBytes::<AnyEndian>::minimal_parse`, takes its
/// `segments()` table and gives its `len()`. Claimed: the result is a function of
/// the file's bytes alone.
#[verifier::external_body]
fn elf_segment_count(file: &[u8]) -> (r: Option<usize>)
    ensures
        r == elf_segment_count_of(file@),
{
    let elf = ElfBytes::<AnyEndian>::minimal_parse(file).ok()?;
    let table = elf.segments()?;
    Some(table.len())
}

/// Parses the header with `ElfBytes::<AnyEndian>::minimal_parse`, and gives the
/// `p_type` and `p_paddr` fields of the program header that `SegmentTable::get(index)`
/// parses. Claimed: the result is a function of the file's bytes and `index` alone.
#[verifier::external_body]
fn elf_program_header(file: &[u8], index: usize) -> (r: Option<(u32, u64)>)
    ensures
        r == elf_program_header_of(file@, index),
{
    let elf = ElfBytes::<AnyEndian>::minimal_parse(file).ok()?;
    let phdr = elf.segments()?.get(index).ok()?;
    Some((phdr.p_type, phdr.p_paddr))
}

/// Parses the header with `ElfBytes::<AnyEndian>::minimal_parse` and copies the
/// bytes that `ElfBytes::segment_data` gives for the program header that
/// `SegmentTable::get(index)` parses. Claimed: the result is a function of the
/// file's bytes and `index` alone.
#[verifier::external_body]
fn elf_segment_data(file: &[u8], index: usize) -> (r: Option<Vec<u8>>)
    ensures
        match r {
            Some(d) => elf_segment_data_of(file@, index) == Some(d@),
            None => elf_segment_data_of(file@, index) is None,
        },
{
    let elf = ElfBytes::<AnyEndian>::minimal_parse(file).ok()?;
    let phdr = elf.segments()?.get(index).ok()?;
    Some(elf.segment_data(&phdr).ok()?.to_vec())
}

/// The number of program headers, out of the first `count`, that parse one after
/// the other from the first on.
pub open spec fn parsed_headers(file: Seq<u8>, count: usize, i: nat) -> nat
    decreases count - i,
{
    if i >= count || elf_program_header_of(file, i as usize) is None {
        i
    } else {
        parsed_headers(file, count, i + 1)
    }
}

/// The segment of program header `i`, with its bytes where it is loadable.
pub open spec fn segment_view(file: Seq<u8>, i: int) -> SegmentView {
    let h = elf_program_header_of(file, i as usize)->0;
    SegmentView {
        p_type: h.0,
        p_paddr: h.1,
        data: if h.0 == PT_LOAD { elf_segment_data_of(file, i as usize) } else { None },
    }
}

/// The segments of an ELF file: those of the program headers that parse one after
/// the other from the first on.
pub open spec fn segment_views(file: Seq<u8>, count: usize) -> Seq<SegmentView> {
    Seq::new(parsed_headers(file, count, 0), |i: int| segment_view(file, i))
}

/// An error among the first `k` segments is the first error of them all.
proof fn lemma_first_error_prefix(segs: Seq<SegmentView>, k: int)
    requires
        0 <= k <= segs.len(),
        first_error(segs.take(k)) is Some,
    ensures
        first_error(segs) == first_error(segs.take(k)),
    decreases segs.len(),
{
    if k < segs.len() {
        assert(segs.drop_last().take(k) =~= segs.take(k));
        lemma_first_error_prefix(segs.drop_last(), k);
    } else {
        assert(segs.take(k) =~= segs);
    }
}

/// Copies `d` into `v` from offset `off` on.
fn copy_into(v: &mut Vec<u8>, off: usize, d: &Vec<u8>)
    requires
        off + d@.len() <= old(v)@.len(),
    ensures
        final(v)@ == spliced(old(v)@, off as int, d@),
{
    let ghost v0 = v@;
    let len = v.len();
    let mut k: usize = 0;
    while k < d.len()
        invariant
            off + d@.len() <= v0.len(),
            len == v0.len(),
            v@.len() == v0.len(),
            k <= d@.len(),
            v@ == v0.subrange(0, off as int) + d@.subrange(0, k as int) + v0.subrange(off + k, v0.len() as int),
        decreases d@.len() - k,
    {
        v.set(off + k, d[k]);
        k += 1;
        proof {
            assert(v@ =~= v0.subrange(0, off as int) + d@.subrange(0, k as int) + v0.subrange(off + k, v0.len() as int));
        }
    }
    assert(d@.subrange(0, d@.len() as int) =~= d@);
}

impl<P: MmapPeripheral> CPU<P> {
    /// The instructions executed last with their addresses, oldest first; `None`
    /// fills the places of a log that is not full yet.
    pub closed spec fn log(&self) -> Seq<Option<(usize, Instruction)>> {
        self.instruction_log@
    }

    /// The register file.
    pub closed spec fn regs(&self) -> RegisterView {
        self.register@
    }

    /// The memory.
    pub closed spec fn mem(&self) -> Memory<P> {
        self.memory
    }

    pub proof fn lemma_log_len(&self)
        ensures
            self.log().len() == LOG_LENGTH,
    {
    }

    /// The register file and the memory are well formed.
    pub closed spec fn wf(&self) -> bool {
        &&& self.register.wf()
        &&& self.memory.wf()
    }

    /// The register file, for callers that verify.
    pub fn register(&self) -> (r: &Register)
        ensures
            r@ == self.regs(),
            self.wf() ==> r.wf(),
    {
        &self.register
    }

    /// The memory, for callers that verify.
    pub fn memory(&self) -> (r: &Memory<P>)
        ensures
            *r == self.mem(),
            self.wf() ==> r.wf(),
    {
        &self.memory
    }

    /// The program counter.
    pub fn pc(&self) -> (r: u32)
        ensures
            r == self.regs().pc,
    {
        self.register.pc()
    }

    /// Copies `file` to ROM or RAM at `base_address` and sets the program counter
    /// to `entry_address`, truncated to 32 bits.
    pub fn from_bin(file: &[u8], uart: P, entry_address: usize, base_address: usize) -> (r: Self)
        requires
            bin_fits(file@.len() as int, base_address as int),
        ensures
            r.wf(),
            r.regs() == reset_registers(#[verifier::truncate] (entry_address as u32)),
            hifive(
                r.mem(),
                uart,
                bin_loaded(file@, base_address as int).0,
                bin_loaded(file@, base_address as int).1,
            ),
            r.log() == Seq::new(LOG_LENGTH as nat, |i: int| None::<(usize, Instruction)>),
    {
        let mut cpu = Self {
            register: Register::default(),
            memory: Memory::default_hifive(uart),
            instruction_log: [None; 40],
        };
        proof {
            broadcast use vstd::array::group_array_axioms;
            assert(cpu.log() =~= Seq::new(LOG_LENGTH as nat, |i: int| None::<(usize, Instruction)>));
            assert(cpu.memory.wf());
            assert(cpu.register.wf());
        }
        let ghost reg0 = cpu.register;
        let ghost log0 = cpu.instruction_log;
        let ghost rom0 = cpu.memory.rom@;
        let ghost ram0 = cpu.memory.ram@;
        if cpu.memory.is_rom(base_address) {
            let off = base_address - cpu.memory.rom_base;
            let mut addr: usize = 0;
            while addr < file.len()
                invariant
                    off == base_address - 0x2000_0000,
                    off + file@.len() <= 0x2000_0000,
                    addr <= file@.len(),
                    cpu.memory.rom@ == rom0.subrange(0, off as int) + file@.subrange(0, addr as int)
                        + rom0.subrange(off + addr, 0x2000_0000),
                    rom0 == zeroed_rom(),
                    cpu.memory.ram@ == ram0,
                    hifive(cpu.memory, uart, cpu.memory.rom@, cpu.memory.ram@),
                    cpu.register == reg0,
                    cpu.instruction_log == log0,
                decreases file@.len() - addr,
            {
                cpu.memory.rom.set(off + addr, file[addr]);
                addr += 1;
                proof {
                    assert(cpu.memory.rom@ =~= rom0.subrange(0, off as int) + file@.subrange(0, addr as int)
                        + rom0.subrange(off + addr, 0x2000_0000));
                }
            }
            assert(file@.subrange(0, file@.len() as int) =~= file@);
        } else {
            let off = base_address - cpu.memory.ram_base;
            let mut addr: usize = 0;
            while addr < file.len()
                invariant
                    off == base_address - 0x8000_0000,
                    off + file@.len() <= 0x4000,
                    addr <= file@.len(),
                    cpu.memory.ram@ == ram0.subrange(0, off as int) + file@.subrange(0, addr as int)
                        + ram0.subrange(off + addr, 0x4000),
                    ram0 == zeroed_ram(),
                    cpu.memory.rom@ == rom0,
                    hifive(cpu.memory, uart, cpu.memory.rom@, cpu.memory.ram@),
                    cpu.register == reg0,
                    cpu.instruction_log == log0,
                decreases file@.len() - addr,
            {
                cpu.memory.ram.set(off + addr, file[addr]);
                addr += 1;
                proof {
                    assert(cpu.memory.ram@ =~= ram0.subrange(0, off as int) + file@.subrange(0, addr as int)
                        + ram0.subrange(off + addr, 0x4000));
                }
            }
            assert(file@.subrange(0, file@.len() as int) =~= file@);
        }
        cpu.register.set_pc(#[verifier::truncate] (entry_address as u32));
        cpu
    }

    /// Decodes the word at `addr`; gives the word too.
    fn fetch(&self, addr: usize) -> (res: (Result<Instruction, &'static str>, Ghost<u32>))
        requires
            self.wf(),
            fetchable(self.mem(), addr as int),
        ensures
            fetched(self.mem(), addr as int, res.1@),
            res.0 == decode_word(res.1@),
    {
        let w = self.memory.read_word(addr);
        (decode(w), Ghost(w))
    }

    /// Decodes the word at `addr`.
    pub fn instruction_at_addr(&self, addr: usize) -> (r: Result<Instruction, &'static str>)
        requires
            self.wf(),
            fetchable(self.mem(), addr as int),
        ensures
            exists|w: u32| fetched(self.mem(), addr as int, w) && r == decode_word(w),
            self.mem().word(addr as int) is Some ==> r == decode_word(self.mem().word(addr as int)->0),
    {
        let (r, Ghost(w)) = self.fetch(addr);
        r
    }

    /// The instruction at the program counter, with its address.
    pub fn current_instruction(&self) -> (r: Result<(usize, Instruction), &'static str>)
        requires
            self.wf(),
            fetchable(self.mem(), self.regs().pc as int),
        ensures
            exists|w: u32| #![auto] fetched(self.mem(), self.regs().pc as int, w) && match decode_word(w) {
                Ok(i) => r == Ok::<(usize, Instruction), &'static str>((self.regs().pc as usize, i)),
                Err(e) => r == Err::<(usize, Instruction), &'static str>(e),
            },
    {
        let addr = self.register.pc() as usize;
        let (r, Ghost(w)) = self.fetch(addr);
        let inst = r?;
        Ok((addr, inst))
    }

    /// The instruction after the one at the program counter, with its address.
    pub fn next_instruction(&self) -> (r: Result<(usize, Instruction), &'static str>)
        requires
            self.wf(),
            fetchable(self.mem(), self.regs().pc as int),
            forall|w: u32| #[trigger] fetched(self.mem(), self.regs().pc as int, w) && decode_word(w) is Ok
                ==> fetchable(self.mem(), self.regs().pc + advance(decode_word(w)->Ok_0)),
        ensures
            exists|w: u32| #![auto] fetched(self.mem(), self.regs().pc as int, w) && match decode_word(w) {
                Err(e) => r == Err::<(usize, Instruction), &'static str>(e),
                Ok(cur) => {
                    let addr = self.regs().pc + advance(cur);
                    exists|w2: u32| #![auto] fetched(self.mem(), addr, w2) && match decode_word(w2) {
                        Ok(i) => r == Ok::<(usize, Instruction), &'static str>((addr as usize, i)),
                        Err(e) => r == Err::<(usize, Instruction), &'static str>(e),
                    }
                },
            },
    {
        let cur_addr = self.register.pc() as usize;
        let (r, Ghost(w)) = self.fetch(cur_addr);
        let cur_inst = match r {
            Ok(i) => i,
            Err(e) => {
                assert(fetched(self.mem(), self.regs().pc as int, w));
                return Err(e);
            }
        };
        let addr = {
            if cur_inst.is_compressed() {
                cur_addr + 2
            } else {
                cur_addr + 4
            }
        };
        let (r2, Ghost(w2)) = self.fetch(addr);
        let res = match r2 {
            Ok(inst) => Ok((addr, inst)),
            Err(e) => Err(e),
        };
        proof {
            assert(addr as int == self.regs().pc + advance(cur_inst));
            assert(fetched(self.mem(), addr as int, w2));
            assert(fetched(self.mem(), self.regs().pc as int, w));
        }
        res
    }

    /// The next `n` entries of the instruction listing, from the program counter on:
    /// each with its address, and either the instruction or, where the word does
    /// not decode, the word itself. An instruction is followed after 2 or 4 bytes,
    /// as it is compressed or not; a word that does not decode after 4.
    #[verifier::rlimit(60)]
    pub fn next_n_instructions(&self, n: usize) -> (r: Vec<(usize, Result<Instruction, u32>)>)
        requires
            self.wf(),
            listing_fits(self.mem(), self.regs().pc as int, n as nat),
        ensures
            r@.len() == n,
            n > 0 ==> r@[0].0 == self.regs().pc,
            forall|k: int| 0 <= k < n - 1 ==> #[trigger] r@[k + 1].0 == r@[k].0 + match r@[k].1 {
                Ok(i) => advance(i),
                Err(_) => 4,
            },
            forall|k: int| 0 <= k < n ==> match #[trigger] r@[k].1 {
                Ok(i) => regs_in_range(i) && exists|w: u32| fetched(self.mem(), r@[k].0 as int, w) && decode_word(w) == Ok::<Instruction, &'static str>(i),
                Err(w) => fetched(self.mem(), r@[k].0 as int, w)
                    && (self.mem().word(r@[k].0 as int) is Some ==> decode_word(w) is Err),
            },
            listing_determined(self.mem(), self.regs().pc as int, n as nat) ==> r@ == listing(
                self.mem(),
                self.regs().pc as int,
                n as nat,
            ),
    {
        let ghost m = self.mem();
        let ghost pc = self.regs().pc as int;
        let mut instruction_list: Vec<(usize, Result<Instruction, u32>)> = Vec::new();
        let mut addr = self.register.pc() as usize;
        let mut i: usize = 0;
        while i < n
            invariant
                self.wf(),
                m == self.mem(),
                pc == self.regs().pc,
                i <= n,
                instruction_list@.len() == i,
                i < n ==> listing_fits(m, addr as int, (n - i) as nat),
                i > 0 ==> instruction_list@[0].0 == pc,
                i == 0 ==> addr == pc,
                0 < i < n ==> addr == instruction_list@[i - 1].0 + match instruction_list@[i - 1].1 {
                    Ok(inst) => advance(inst),
                    Err(_) => 4,
                },
                forall|k: int| 0 <= k < i - 1 ==> #[trigger] instruction_list@[k + 1].0 == instruction_list@[k].0 + match instruction_list@[k].1 {
                    Ok(inst) => advance(inst),
                    Err(_) => 4,
                },
                forall|k: int| 0 <= k < i ==> match #[trigger] instruction_list@[k].1 {
                    Ok(inst) => regs_in_range(inst) && exists|w: u32| fetched(m, instruction_list@[k].0 as int, w) && decode_word(w) == Ok::<Instruction, &'static str>(inst),
                    Err(w) => fetched(m, instruction_list@[k].0 as int, w)
                        && (m.word(instruction_list@[k].0 as int) is Some ==> decode_word(w) is Err),
                },
                listing_determined(m, pc, n as nat) ==> {
                    &&& i < n ==> listing_determined(m, addr as int, (n - i) as nat)
                    &&& listing(m, pc, n as nat) == instruction_list@ + listing(m, addr as int, (n - i) as nat)
                },
            decreases n - i,
        {
            let (cur_inst, Ghost(w)) = self.fetch(addr);
            let ghost old_list = instruction_list@;
            let ghost old_addr = addr as int;
            let ghost rest = (n - i) as nat;
            let entry = match cur_inst {
                Ok(inst) => {
                    proof { crate::decoder::lemma_decoded_well_formed(w); }
                    Ok(inst)
                }
                Err(_) => {
                    let word = self.memory.read_word(addr);
                    Err(word)
                }
            };
            let len: usize = match &entry {
                Ok(inst) => if inst.is_compressed() { 2 } else { 4 },
                Err(_) => 4,
            };
            instruction_list.push((addr, entry));
            proof {
                assert(fetched(m, old_addr, w));
                assert(len == step_of(w));
                assert(listing_fits(m, old_addr + step_of(w), (rest - 1) as nat));
                assert forall|k: int| 0 <= k < i implies instruction_list@[k] == old_list[k] by {}
                if listing_determined(m, pc, n as nat) {
                    assert(w == m.word(old_addr)->0);
                    assert(listing(m, old_addr, rest) == seq![(addr, listing_entry(w))] + listing(
                        m,
                        old_addr + step_of(w),
                        (rest - 1) as nat,
                    ));
                    assert(instruction_list@ =~= old_list + seq![(addr, listing_entry(w))]);
                    assert(listing(m, pc, n as nat) =~= instruction_list@ + listing(
                        m,
                        old_addr + step_of(w),
                        (rest - 1) as nat,
                    ));
                }
            }
            i += 1;
            if i < n {
                proof {
                    assert(fetchable(m, old_addr + step_of(w)));
                }
                addr += len;
            }
        }
        proof {
            if listing_determined(m, pc, n as nat) {
                assert(listing(m, addr as int, 0) =~= Seq::<(usize, Result<Instruction, u32>)>::empty());
                assert(instruction_list@ + Seq::<(usize, Result<Instruction, u32>)>::empty() =~= instruction_list@);
            }
        }
        instruction_list
    }

    /// The last instruction executed, with its address.
    pub fn _last_instruction(&self) -> (r: Option<&(usize, Instruction)>)
        ensures
            match self.log()[LOG_LENGTH - 1] {
                Some(e) => r is Some && *r->0 == e,
                None => r is None,
            },
    {
        self.instruction_log[LOG_LENGTH - 1].as_ref()
    }

    /// The last `n` places of the log, oldest first; the whole log when `n`
    /// exceeds its length.
    pub fn last_n_instructions(&self, n: usize) -> (r: &[Option<(usize, Instruction)>])
        ensures
            n > LOG_LENGTH ==> r@ == self.log(),
            n <= LOG_LENGTH ==> r@ == self.log().subrange(LOG_LENGTH - n, LOG_LENGTH as int),
    {
        let all = self.instruction_log.as_slice();
        if n > LOG_LENGTH {
            all
        } else {
            vstd::slice::slice_subrange(all, LOG_LENGTH - n, LOG_LENGTH)
        }
    }

    /// Whether the four bytes at `addr` can be read.
    fn can_fetch(&self, addr: usize) -> (r: bool)
        ensures
            r == fetchable(self.mem(), addr as int),
    {
        if addr > usize::MAX - 3 {
            return false;
        }
        let mut k: usize = 0;
        while k < 4
            invariant
                k <= 4,
                addr + 4 <= usize::MAX + 1,
                forall|i: int| addr <= i < addr + k ==> self.mem().readable(i),
            decreases 4 - k,
        {
            if !self.memory.is_readable(addr + k) {
                return false;
            }
            k += 1;
        }
        true
    }

    /// Executes the instruction at the program counter and logs it. Gives
    /// `Ok(false)` for `EBREAK` and `C.EBREAK`, which end the program, and `Ok(true)` for every
    /// other instruction. The state is left as it was when the instruction cannot
    /// be fetched, does not decode, has no 32-bit expansion, or reaches outside the
    /// memory map.
    pub fn step(&mut self) -> (r: Result<bool, &'static str>)
        requires
            old(self).wf(),
        ensures
            final(self).wf(),
            !fetchable(old(self).mem(), old(self).regs().pc as int) ==> {
                &&& r == Err::<bool, &'static str>("Instruction fetch outside memory map")
                &&& *final(self) == *old(self)
            },
            fetchable(old(self).mem(), old(self).regs().pc as int) ==> exists|w: u32|
                #![auto]
                fetched(old(self).mem(), old(self).regs().pc as int, w) && match decode_word(w) {
                    Err(e) => r == Err::<bool, &'static str>(e) && *final(self) == *old(self),
                    Ok(i) => if !executable(i) {
                        &&& r == Err::<bool, &'static str>("Not implemented: compressed floating point or RV64/RV128 instruction")
                        &&& *final(self) == *old(self)
                    } else if !access_ok(old(self).mem(), old(self).regs(), base_inst(i)) {
                        &&& r == Err::<bool, &'static str>("Memory access outside memory map")
                        &&& *final(self) == *old(self)
                    } else {
                        &&& exists|v: u32| #![auto] {
                            &&& final(self).regs() == exec_spec(old(self).regs(), i, v)
                            &&& loaded_ok(old(self).mem(), old(self).regs(), base_inst(i), v)
                            &&& memory_effect(old(self).mem(), final(self).mem(), old(self).regs(), base_inst(i), v)
                        }
                        &&& final(self).log() == old(self).log().subrange(1, LOG_LENGTH as int).push(
                            Some((old(self).regs().pc as usize, i)),
                        )
                        &&& r == Ok::<bool, &'static str>(base_inst(i) != Instruction::EBREAK())
                    },
                },
    {
        let addr = self.register.pc() as usize;
        if !self.can_fetch(addr) {
            return Err("Instruction fetch outside memory map");
        }
        let (fetched_inst, Ghost(w)) = self.fetch(addr);
        let inst = match fetched_inst {
            Ok(i) => i,
            Err(e) => {
                assert(fetched(self.mem(), self.regs().pc as int, w));
                return Err(e);
            }
        };
        proof {
            crate::decoder::lemma_decoded_well_formed(w);
        }
        if inst.is_compressed() && !crate::instructions::has_expansion(&inst) {
            assert(fetched(self.mem(), self.regs().pc as int, w));
            return Err("Not implemented: compressed floating point or RV64/RV128 instruction");
        }
        proof {
            if inst.spec_is_compressed() {
                crate::instructions::law_decompress(inst);
            }
        }
        let base = if inst.is_compressed() { crate::instructions::decompress(&inst) } else { inst };
        if !access_allowed(&self.memory, &self.register, &base) {
            assert(fetched(self.mem(), self.regs().pc as int, w));
            return Err("Memory access outside memory map");
        }
        let ghost old_self = *self;
        let v = exec(&mut self.register, &mut self.memory, &inst);
        let ghost log0 = self.instruction_log@;
        let ghost reg1 = self.register;
        let ghost mem1 = self.memory;
        let mut k: usize = 0;
        while k < LOG_LENGTH - 1
            invariant
                k <= LOG_LENGTH - 1,
                self.instruction_log@.len() == LOG_LENGTH,
                log0.len() == LOG_LENGTH,
                self.register == reg1,
                self.memory == mem1,
                forall|j: int| 0 <= j < k ==> self.instruction_log@[j] == log0[j + 1],
                forall|j: int| k <= j < LOG_LENGTH ==> self.instruction_log@[j] == log0[j],
            decreases LOG_LENGTH - 1 - k,
        {
            self.instruction_log[k] = self.instruction_log[k + 1];
            k += 1;
        }
        self.instruction_log[LOG_LENGTH - 1] = Some((addr, inst));
        proof {
            assert(self.log() =~= old_self.log().subrange(1, LOG_LENGTH as int).push(Some((addr, inst))));
            assert(fetched(old_self.mem(), old_self.regs().pc as int, w));
        }
        Ok(!matches!(base, Instruction::EBREAK()))
    }

    /// Loads the segments of an ELF image, in their order, into ROM and RAM and
    /// sets the program counter to `entry`.
    pub fn from_elf_image(uart: P, entry: u64, segments: &Vec<ElfSegment>) -> (r: Result<Self, &'static str>)
        ensures
            match image_error(segments@.map_values(|s: ElfSegment| s@), entry) {
                Some(e) => r == Err::<Self, &'static str>(e),
                None => r is Ok && {
                    let cpu = r->Ok_0;
                    let loaded = load_image(segments@.map_values(|s: ElfSegment| s@));
                    &&& cpu.wf()
                    &&& cpu.regs() == reset_registers(entry as u32)
                    &&& hifive(cpu.mem(), uart, loaded.0, loaded.1)
                    &&& cpu.log() == Seq::new(LOG_LENGTH as nat, |i: int| None::<(usize, Instruction)>)
                },
            },
    {
        let ghost segs = segments@.map_values(|s: ElfSegment| s@);
        let mut cpu = Self {
            register: Register::default(),
            memory: Memory::default_hifive(uart),
            instruction_log: [None; 40],
        };
        proof {
            broadcast use vstd::array::group_array_axioms;
            assert(cpu.log() =~= Seq::new(LOG_LENGTH as nat, |i: int| None::<(usize, Instruction)>));
            assert(segs.take(0) =~= Seq::<SegmentView>::empty());
        }
        let ghost reg0 = cpu.register;
        let ghost log0 = cpu.instruction_log;
        let mut i: usize = 0;
        while i < segments.len()
            invariant
                segs == segments@.map_values(|s: ElfSegment| s@),
                i <= segments@.len(),
                first_error(segs.take(i as int)) is None,
                hifive(cpu.memory, uart, load_image(segs.take(i as int)).0, load_image(segs.take(i as int)).1),
                cpu.register == reg0,
                cpu.instruction_log == log0,
                reg0.wf(),
                cpu.memory.wf(),
            decreases segments@.len() - i,
        {
            let seg = &segments[i];
            proof {
                assert(segs.take(i + 1).drop_last() =~= segs.take(i as int));
                assert(segs.take(i + 1).last() == seg@);
            }
            if seg.p_type == PT_LOAD {
                if seg.p_paddr > usize::MAX as u64 {
                    proof { lemma_first_error_prefix(segs, i + 1); }
                    return Err("Could not get PT_LOAD address in your ELF file.");
                }
                let addr = seg.p_paddr as usize;
                if cpu.memory.is_rom(addr) || cpu.memory.is_ram(addr) {
                    let data = match &seg.data {
                        Some(d) => d,
                        None => {
                            proof { lemma_first_error_prefix(segs, i + 1); }
                            return Err("Could not read segment data from your ELF file.");
                        }
                    };
                    if cpu.memory.is_rom(addr) {
                        if data.len() > cpu.memory.rom.len() - (addr - cpu.memory.rom_base) {
                            proof { lemma_first_error_prefix(segs, i + 1); }
                            return Err("ELF segment does not fit into memory.");
                        }
                        copy_into(&mut cpu.memory.rom, addr - cpu.memory.rom_base, data);
                    } else {
                        if data.len() > cpu.memory.ram.len() - (addr - cpu.memory.ram_base) {
                            proof { lemma_first_error_prefix(segs, i + 1); }
                            return Err("ELF segment does not fit into memory.");
                        }
                        copy_into(&mut cpu.memory.ram, addr - cpu.memory.ram_base, data);
                    }
                }
            }
            i += 1;
        }
        proof {
            assert(segs.take(segments@.len() as int) =~= segs);
        }
        if entry > u32::MAX as u64 {
            return Err("Failed to read start address e_entry");
        }
        cpu.register.set_pc(entry as u32);
        Ok(cpu)
    }

    /// Loads the loadable segments of an ELF file into ROM and RAM and sets the
    /// program counter to its entry address.
    pub fn from_elf(file: &[u8], uart: P) -> (r: Result<Self, &'static str>)
        ensures
            match elf_entry_of(file@) {
                None => r == Err::<Self, &'static str>("Failed to parse provided ELF file"),
                Some(entry) => match elf_segment_count_of(file@) {
                    None => r == Err::<Self, &'static str>("Could not find segments in your ELF file."),
                    Some(count) => {
                        let segs = segment_views(file@, count);
                        match image_error(segs, entry) {
                            Some(e) => r == Err::<Self, &'static str>(e),
                            None => r is Ok && {
                                let cpu = r->Ok_0;
                                let loaded = load_image(segs);
                                &&& cpu.wf()
                                &&& cpu.regs() == reset_registers(entry as u32)
                                &&& hifive(cpu.mem(), uart, loaded.0, loaded.1)
                                &&& cpu.log() == Seq::new(LOG_LENGTH as nat, |i: int| None::<(usize, Instruction)>)
                            },
                        }
                    },
                },
            },
    {
        let entry = match elf_entry(file) {
            Some(e) => e,
            None => return Err("Failed to parse provided ELF file"),
        };
        let count = match elf_segment_count(file) {
            Some(c) => c,
            None => return Err("Could not find segments in your ELF file."),
        };
        let mut segments: Vec<ElfSegment> = Vec::new();
        let mut i: usize = 0;
        while i < count
            invariant
                i <= count,
                count == elf_segment_count_of(file@)->0,
                parsed_headers(file@, count, 0) == parsed_headers(file@, count, i as nat),
                segments@.len() == i,
                forall|k: int| 0 <= k < i ==> #[trigger] segments@[k]@ == segment_view(file@, k),
            ensures
                parsed_headers(file@, count, 0) == segments@.len(),
                forall|k: int| 0 <= k < segments@.len() ==> #[trigger] segments@[k]@ == segment_view(file@, k),
            decreases count - i,
        {
            let (p_type, p_paddr) = match elf_program_header(file, i) {
                Some(h) => h,
                None => break,
            };
            let data = if p_type == PT_LOAD { elf_segment_data(file, i) } else { None };
            segments.push(ElfSegment { p_type, p_paddr, data });
            i += 1;
        }
        proof {
            let segs = segment_views(file@, count);
            assert(segments@.map_values(|s: ElfSegment| s@) =~= segs);
        }
        Self::from_elf_image(uart, entry, &segments)
    }
}

} // verus!
