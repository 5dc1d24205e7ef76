//! The 4 KiB address space, with the hexadecimal font resident at address 0.

use vstd::prelude::*;

verus! {

/// The size of the address space in bytes.
pub const MEMORY_SIZE: usize = 4096;

/// The number of bytes the font occupies: sixteen glyphs of five rows each.
pub const FONT_SIZE: usize = 80;

/// The glyphs `0`-`F`, five bytes each, as they lie in memory from address 0.
pub open spec fn font() -> Seq<u8> {
    seq![
        0xF0u8, 0x90, 0x90, 0x90, 0xF0,
        0x20, 0x60, 0x20, 0x20, 0x70,
        0xF0, 0x10, 0xF0, 0x80, 0xF0,
        0xF0, 0x10, 0xF0, 0x10, 0xF0,
        0x90, 0x90, 0xF0, 0x10, 0x10,
        0xF0, 0x80, 0xF0, 0x10, 0xF0,
        0xF0, 0x80, 0xF0, 0x90, 0xF0,
        0xF0, 0x10, 0x20, 0x40, 0x40,
        0xF0, 0x90, 0xF0, 0x90, 0xF0,
        0xF0, 0x90, 0xF0, 0x10, 0xF0,
        0xF0, 0x90, 0xF0, 0x90, 0x90,
        0xE0, 0x90, 0xE0, 0x90, 0xE0,
        0xF0, 0x80, 0x80, 0x80, 0xF0,
        0xE0, 0x90, 0x90, 0x90, 0xE0,
        0xF0, 0x80, 0xF0, 0x80, 0xF0,
        0xF0, 0x80, 0xF0, 0x80, 0x80,
    ]
}

/// What a freshly built memory holds: the font, then zeros up to the end.
pub open spec fn initial_memory() -> Seq<u8> {
    Seq::new(MEMORY_SIZE as nat, |i: int| if i < FONT_SIZE { font()[i] } else { 0u8 })
}

/// `mem` with `data` written over it from address `start` on.
pub open spec fn overwrite(mem: Seq<u8>, start: int, data: Seq<u8>) -> Seq<u8> {
    Seq::new(
        mem.len(),
        |i: int| if start <= i < start + data.len() { data[i - start] } else { mem[i] },
    )
}

/// A byte range that does not lie within the address space.
#[derive(Clone, Copy, Debug, PartialEq, Eq, Structural)]
pub struct OutOfBounds;

/// The machine's RAM. Its view is the sequence of its 4096 bytes.
#[derive(Debug)]
pub struct Memory {
    memory: [u8; 4096],
}

impl View for Memory {
    type V = Seq<u8>;

    closed spec fn view(&self) -> Seq<u8> {
        self.memory@
    }
}

/// The font as an array, ready to be copied into memory.
fn font_bytes() -> (f: [u8; 80])
    ensures
        f@ == font(),
{
    let f: [u8; 80] = [
        0xF0, 0x90, 0x90, 0x90, 0xF0,
        0x20, 0x60, 0x20, 0x20, 0x70,
        0xF0, 0x10, 0xF0, 0x80, 0xF0,
        0xF0, 0x10, 0xF0, 0x10, 0xF0,
        0x90, 0x90, 0xF0, 0x10, 0x10,
        0xF0, 0x80, 0xF0, 0x10, 0xF0,
        0xF0, 0x80, 0xF0, 0x90, 0xF0,
        0xF0, 0x10, 0x20, 0x40, 0x40,
        0xF0, 0x90, 0xF0, 0x90, 0xF0,
        0xF0, 0x90, 0xF0, 0x10, 0xF0,
        0xF0, 0x90, 0xF0, 0x90, 0x90,
        0xE0, 0x90, 0xE0, 0x90, 0xE0,
        0xF0, 0x80, 0x80, 0x80, 0xF0,
        0xE0, 0x90, 0x90, 0x90, 0xE0,
        0xF0, 0x80, 0xF0, 0x80, 0xF0,
        0xF0, 0x80, 0xF0, 0x80, 0x80,
    ];
    assert(f@ =~= font());
    f
}

impl Memory {
    /// The address space never changes its size.
    pub proof fn lemma_len(&self)
        ensures
            self@.len() == MEMORY_SIZE,
    {
    }

    /// Constructs a zeroed memory with the font loaded at address 0.
    pub fn new() -> (m: Self)
        ensures
            m@ == initial_memory(),
    {
        let mut m = Self { memory: [0; 4096] };
        let f = font_bytes();
        let r = m.store(0, f.as_slice());
        assert(m@ =~= initial_memory());
        m
    }

    /// The number of bytes of the address space.
    pub fn len(&self) -> (n: usize)
        ensures
            n == MEMORY_SIZE,
            self@.len() == MEMORY_SIZE,
    {
        MEMORY_SIZE
    }

    /// Reads the byte at `addr`.
    pub fn get(&self, addr: usize) -> (b: u8)
        requires
            addr < MEMORY_SIZE,
        ensures
            b == self@[addr as int],
    {
        self.memory[addr]
    }

    /// Writes `value` at `addr`.
    pub fn set(&mut self, addr: usize, value: u8)
        requires
            addr < MEMORY_SIZE,
        ensures
            final(self)@ == old(self)@.update(addr as int, value),
    {
        self.memory[addr] = value;
    }

    /// Borrows the bytes from `start` up to, not including, `end`.
    pub fn slice(&self, start: usize, end: usize) -> (s: &[u8])
        requires
            start <= end <= MEMORY_SIZE,
        ensures
            s@ == self@.subrange(start as int, end as int),
    {
        vstd::slice::slice_subrange(self.memory.as_slice(), start, end)
    }

    /// Copies `data` into memory from address `start` on. A range that does
    /// not fit is refused as a whole: nothing is written, truncated or wrapped.
    pub fn store(&mut self, start: usize, data: &[u8]) -> (r: Result<(), OutOfBounds>)
        ensures
            final(self)@.len() == MEMORY_SIZE,
            start + data@.len() <= MEMORY_SIZE ==> r == Ok::<(), OutOfBounds>(()) && final(self)@
                == overwrite(old(self)@, start as int, data@),
            start + data@.len() > MEMORY_SIZE ==> r == Err::<(), OutOfBounds>(OutOfBounds)
                && final(self)@ == old(self)@,
    {
        let n = data.len();
        if start > MEMORY_SIZE || n > MEMORY_SIZE - start {
            return Err(OutOfBounds);
        }
        let mut i: usize = 0;
        while i < n
            invariant
                i <= n,
                n == data@.len(),
                start + n <= MEMORY_SIZE,
                self@.len() == MEMORY_SIZE,
                self@ == overwrite(old(self)@, start as int, data@.subrange(0, i as int)),
            decreases n - i,
        {
            self.memory[start + i] = data[i];
            i += 1;
        }
        assert(data@.subrange(0, n as int) =~= data@);
        Ok(())
    }
}

impl Default for Memory {
    fn default() -> (m: Self)
        ensures
            m@ == initial_memory(),
    {
        Self::new()
    }
}

} // verus!
