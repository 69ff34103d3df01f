use vstd::prelude::*;

use crate::cpu::Bus;

verus! {

/// Number of addressable bytes.
pub const MEMORY_SIZE: usize = 65536;

/// The byte that an address holds before any patch: the repeating pattern DE AD BE EF.
pub open spec fn background_byte(a: int) -> u8 {
    let k = a % 4;
    if k == 0 {
        0xde
    } else if k == 1 {
        0xad
    } else if k == 2 {
        0xbe
    } else {
        0xef
    }
}

fn background_at(a: usize) -> (b: u8)
    ensures
        b == background_byte(a as int),
{
    let k = a % 4;
    if k == 0 {
        0xde
    } else if k == 1 {
        0xad
    } else if k == 2 {
        0xbe
    } else {
        0xef
    }
}

/// One byte of a test case's memory setup.
#[derive(Clone, Copy, Debug, PartialEq, Eq, Structural)]
pub struct Patch {
    pub addr: u16,
    pub value: u8,
}

/// The memory applied patches give: each address holds the value of the last patch to it,
/// or its background byte.
pub open spec fn patched(patches: Seq<Patch>, a: int) -> u8
    decreases patches.len(),
{
    if patches.len() == 0 {
        background_byte(a)
    } else if patches.last().addr == a {
        patches.last().value
    } else {
        patched(patches.drop_last(), a)
    }
}

/// A flat 64 KiB memory image.
///
/// It serves as a [`Bus`]: I/O reads return the high byte of the port address, as on a
/// data bus that nothing drives, and I/O writes are dropped.
pub struct MemoryImage {
    bytes: [u8; 65536],
}

impl View for MemoryImage {
    type V = Seq<u8>;

    closed spec fn view(&self) -> Seq<u8> {
        self.bytes@
    }
}

impl MemoryImage {
    /// Every image spans the whole address space.
    pub fn len(&self) -> (n: usize)
        ensures
            n == self@.len(),
            n == MEMORY_SIZE,
    {
        MEMORY_SIZE
    }

    /// An image in which every address holds its background byte.
    pub fn new() -> (m: MemoryImage)
        ensures
            m@.len() == MEMORY_SIZE,
            forall|a: int| 0 <= a < MEMORY_SIZE ==> m@[a] == background_byte(a),
    {
        let mut bytes = [0u8; 65536];
        let mut a: usize = 0;
        while a < MEMORY_SIZE
            invariant
                a <= MEMORY_SIZE,
                bytes@.len() == MEMORY_SIZE,
                forall|j: int| 0 <= j < a ==> bytes@[j] == background_byte(j),
            decreases MEMORY_SIZE - a,
        {
            bytes[a] = background_at(a);
            a = a + 1;
        }
        MemoryImage { bytes }
    }

    /// The image as a byte slice.
    pub fn as_slice(&self) -> (s: &[u8])
        ensures
            s@ == self@,
            s@.len() == MEMORY_SIZE,
    {
        vstd::array::array_as_slice(&self.bytes)
    }

    pub fn read(&self, addr: u16) -> (v: u8)
        ensures
            v == self@[addr as int],
    {
        self.bytes[addr as usize]
    }

    pub fn write(&mut self, addr: u16, value: u8)
        ensures
            final(self)@ == old(self)@.update(addr as int, value),
    {
        self.bytes[addr as usize] = value;
    }

    /// Applies patches in order onto an image that holds the background everywhere.
    pub fn with_patches(patches: &Vec<Patch>) -> (m: MemoryImage)
        ensures
            m@.len() == MEMORY_SIZE,
            forall|a: int| 0 <= a < MEMORY_SIZE ==> m@[a] == patched(patches@, a),
    {
        let mut m = MemoryImage::new();
        let mut k: usize = 0;
        while k < patches.len()
            invariant
                k <= patches@.len(),
                m@.len() == MEMORY_SIZE,
                forall|a: int| 0 <= a < MEMORY_SIZE ==> m@[a] == patched(patches@.take(k as int), a),
            decreases patches@.len() - k,
        {
            let p = patches[k];
            m.write(p.addr, p.value);
            proof {
                let t = patches@.take(k as int + 1);
                assert(t.drop_last() =~= patches@.take(k as int));
                assert(t.last() == p);
            }
            k = k + 1;
        }
        proof {
            assert(patches@.take(patches@.len() as int) =~= patches@);
        }
        m
    }

    /// A copy of the bytes, for comparing against after a run.
    pub fn snapshot(&self) -> (v: Vec<u8>)
        ensures
            v@ == self@,
            v@.len() == MEMORY_SIZE,
    {
        vstd::slice::slice_to_vec(self.as_slice())
    }
}

impl Bus for MemoryImage {
    fn mem_read(&mut self, tag: i32, addr: u16) -> u8 {
        self.read(addr)
    }

    fn mem_write(&mut self, tag: i32, addr: u16, value: u8) {
        self.write(addr, value)
    }

    fn io_read(&mut self, tag: i32, addr: u16) -> u8 {
        (addr / 256) as u8
    }

    fn io_write(&mut self, tag: i32, addr: u16, value: u8) {
    }
}

} // verus!
