//! The 64-bit Task State Segment and its byte image.
//!
//! The processor reads the segment as a packed little-endian record:
//!
//! ```text
//! 0x00  reserved (4 bytes, zero)
//! 0x04  privilege stack table, 3 addresses of 8 bytes
//! 0x1C  reserved (8 bytes, zero)
//! 0x24  interrupt stack table, 7 addresses of 8 bytes
//! 0x5C  reserved (8 bytes, zero)
//! 0x64  reserved (2 bytes, zero)
//! 0x66  offset of the I/O permission bitmap (2 bytes)
//! 0x68  I/O permission bitmap (N bytes)
//! 0x68 + N  trailing bitmap byte, 0xFF
//! ```

use crate::addr::VirtAddr;
use vstd::prelude::*;

verus! {

/// Width in bytes of one stack-table address.
pub const ADDR_LEN: usize = 8;

/// Entries of the privilege stack table, one per privilege level 0..3.
pub const PRIVILEGE_STACK_ENTRIES: usize = 3;

/// Entries of the interrupt stack table.
pub const INTERRUPT_STACK_ENTRIES: usize = 7;

/// Byte offset of the privilege stack table, after four reserved bytes.
pub const PRIVILEGE_STACK_OFFSET: usize = 4;

/// Byte offset of the second reserved field (eight bytes).
pub const RESERVED_2_OFFSET: usize = PRIVILEGE_STACK_OFFSET + PRIVILEGE_STACK_ENTRIES * ADDR_LEN;

/// Byte offset of the interrupt stack table.
pub const INTERRUPT_STACK_OFFSET: usize = RESERVED_2_OFFSET + 8;

/// Byte offset of the third reserved field (eight bytes).
pub const RESERVED_3_OFFSET: usize = INTERRUPT_STACK_OFFSET + INTERRUPT_STACK_ENTRIES * ADDR_LEN;

/// Byte offset of the fourth reserved field (two bytes).
pub const RESERVED_4_OFFSET: usize = RESERVED_3_OFFSET + 8;

/// Byte offset of the 16-bit bitmap offset field.
pub const IOMAP_BASE_OFFSET: usize = RESERVED_4_OFFSET + 2;

/// Byte offset of the I/O permission bitmap: the length of the fixed part.
pub const IOMAP_OFFSET: usize = IOMAP_BASE_OFFSET + 2;

/// Bitmap byte that denies all eight of its ports.
pub const DENY_ALL: u8 = 0xFF;

/// The `width` low-order bytes of `v`, least significant first.
pub open spec fn le_bytes(v: nat, width: nat) -> Seq<u8>
    decreases width,
{
    if width == 0 {
        Seq::empty()
    } else {
        seq![(v % 256) as u8] + le_bytes(v / 256, (width - 1) as nat)
    }
}

/// The integer values of a table of addresses.
pub open spec fn addr_values(t: Seq<VirtAddr>) -> Seq<u64> {
    t.map_values(|a: VirtAddr| a@)
}

/// The addresses of a stack table, eight little-endian bytes each, in order.
pub open spec fn addr_bytes(t: Seq<u64>) -> Seq<u8>
    decreases t.len(),
{
    if t.len() == 0 {
        Seq::empty()
    } else {
        addr_bytes(t.drop_last()) + le_bytes(t.last() as nat, ADDR_LEN as nat)
    }
}

/// The contents of a segment, field by field, in the order of the hardware layout.
pub struct TssView {
    pub reserved_1: u32,
    pub privilege_stack_table: Seq<u64>,
    pub reserved_2: u64,
    pub interrupt_stack_table: Seq<u64>,
    pub reserved_3: u64,
    pub reserved_4: u16,
    pub iomap_base: u16,
    pub iomap: Seq<u8>,
    pub iomap_last_byte: u8,
}

impl TssView {
    /// What holds of every segment: the tables have their hardware lengths,
    /// the reserved fields are zero, the bitmap offset names the bitmap and
    /// the trailing bitmap byte denies.
    pub open spec fn well_formed(self) -> bool {
        &&& self.privilege_stack_table.len() == PRIVILEGE_STACK_ENTRIES
        &&& self.interrupt_stack_table.len() == INTERRUPT_STACK_ENTRIES
        &&& self.reserved_1 == 0
        &&& self.reserved_2 == 0
        &&& self.reserved_3 == 0
        &&& self.reserved_4 == 0
        &&& self.iomap_base == IOMAP_OFFSET
        &&& self.iomap_last_byte == DENY_ALL
    }

    /// The bytes that the processor reads: every field, little-endian, with no gap.
    pub open spec fn image(self) -> Seq<u8> {
        le_bytes(self.reserved_1 as nat, 4)
            + addr_bytes(self.privilege_stack_table)
            + le_bytes(self.reserved_2 as nat, 8)
            + addr_bytes(self.interrupt_stack_table)
            + le_bytes(self.reserved_3 as nat, 8)
            + le_bytes(self.reserved_4 as nat, 2)
            + le_bytes(self.iomap_base as nat, 2)
            + self.iomap
            + seq![self.iomap_last_byte]
    }
}

pub proof fn lemma_le_bytes_len(v: nat, width: nat)
    ensures
        le_bytes(v, width).len() == width,
    decreases width,
{
    if width > 0 {
        lemma_le_bytes_len(v / 256, (width - 1) as nat);
    }
}

pub proof fn lemma_addr_bytes_len(t: Seq<u64>)
    ensures
        addr_bytes(t).len() == ADDR_LEN * t.len(),
    decreases t.len(),
{
    if t.len() > 0 {
        lemma_addr_bytes_len(t.drop_last());
        lemma_le_bytes_len(t.last() as nat, ADDR_LEN as nat);
    }
}

proof fn lemma_le_bytes_zero(width: nat)
    ensures
        le_bytes(0, width).len() == width,
        forall|i: int| 0 <= i < width ==> #[trigger] le_bytes(0, width)[i] == 0,
    decreases width,
{
    lemma_le_bytes_len(0, width);
    if width > 0 {
        lemma_le_bytes_zero((width - 1) as nat);
        lemma_le_bytes_len(0, (width - 1) as nat);
    }
}

/// The image of a segment with a bitmap of `N` bytes is `0x68 + N + 1` bytes long:
/// the fixed part, the bitmap and its trailing byte.
pub proof fn lemma_image_size<const N: usize>(tss: TaskStateSegment<N>)
    ensures
        tss@.image().len() == 0x68 + N + 1,
        tss@.image().len() == IOMAP_OFFSET + N + 1,
{
    lemma_image_layout(tss);
}

/// In the image of a segment the bitmap starts at byte `0x68`, the offset field
/// at `0x66` holds the value of `iomap_base`, and the trailing bitmap byte comes
/// last.
pub proof fn lemma_image_layout<const N: usize>(tss: TaskStateSegment<N>)
    ensures
        IOMAP_OFFSET == 0x68,
        tss@.iomap.len() == N,
        tss@.image().len() == IOMAP_OFFSET + N + 1,
        tss@.image().subrange(IOMAP_BASE_OFFSET as int, IOMAP_OFFSET as int) == le_bytes(
            tss@.iomap_base as nat,
            2,
        ),
        tss@.image().subrange(IOMAP_OFFSET as int, IOMAP_OFFSET + N) == tss@.iomap,
        tss@.image()[IOMAP_OFFSET + N] == tss@.iomap_last_byte,
{
    let v = tss@;
    assert(v.iomap.len() == N);
    lemma_le_bytes_len(v.reserved_1 as nat, 4);
    lemma_addr_bytes_len(v.privilege_stack_table);
    lemma_le_bytes_len(v.reserved_2 as nat, 8);
    lemma_addr_bytes_len(v.interrupt_stack_table);
    lemma_le_bytes_len(v.reserved_3 as nat, 8);
    lemma_le_bytes_len(v.reserved_4 as nat, 2);
    lemma_le_bytes_len(v.iomap_base as nat, 2);
    let fixed = le_bytes(v.reserved_1 as nat, 4) + addr_bytes(v.privilege_stack_table) + le_bytes(
        v.reserved_2 as nat,
        8,
    ) + addr_bytes(v.interrupt_stack_table) + le_bytes(v.reserved_3 as nat, 8) + le_bytes(
        v.reserved_4 as nat,
        2,
    );
    assert(fixed.len() == IOMAP_BASE_OFFSET);
    assert(v.image() == fixed + le_bytes(v.iomap_base as nat, 2) + v.iomap + seq![
        v.iomap_last_byte,
    ]);
    assert(v.image().subrange(IOMAP_BASE_OFFSET as int, IOMAP_OFFSET as int) =~= le_bytes(
        v.iomap_base as nat,
        2,
    ));
    assert(v.image().subrange(IOMAP_OFFSET as int, IOMAP_OFFSET + N) =~= v.iomap);
}

/// In the image of a well-formed segment every reserved byte is zero and the
/// offset field reads `0x68`, little-endian.
pub proof fn lemma_image_fixed_bytes(v: TssView)
    requires
        v.well_formed(),
    ensures
        forall|i: int| 0 <= i < PRIVILEGE_STACK_OFFSET ==> #[trigger] v.image()[i] == 0,
        forall|i: int|
            RESERVED_2_OFFSET <= i < INTERRUPT_STACK_OFFSET ==> #[trigger] v.image()[i] == 0,
        forall|i: int| RESERVED_3_OFFSET <= i < IOMAP_BASE_OFFSET ==> #[trigger] v.image()[i] == 0,
        v.image()[IOMAP_BASE_OFFSET as int] == 0x68,
        v.image()[IOMAP_BASE_OFFSET + 1] == 0,
{
    lemma_le_bytes_zero(4);
    lemma_le_bytes_zero(8);
    lemma_le_bytes_zero(2);
    lemma_addr_bytes_len(v.privilege_stack_table);
    lemma_addr_bytes_len(v.interrupt_stack_table);
    let p0 = le_bytes(0, 4);
    let p1 = addr_bytes(v.privilege_stack_table);
    let p2 = le_bytes(0, 8);
    let p3 = addr_bytes(v.interrupt_stack_table);
    let p4 = le_bytes(0, 8);
    let p5 = le_bytes(0, 2);
    let p6 = le_bytes(0x68, 2);
    let rest = v.iomap + seq![v.iomap_last_byte];
    assert(p6 =~= seq![0x68u8, 0u8]) by {
        reveal_with_fuel(le_bytes, 3);
    }
    assert(v.image() =~= p0 + (p1 + (p2 + (p3 + (p4 + (p5 + (p6 + rest)))))));
    assert forall|i: int| 0 <= i < PRIVILEGE_STACK_OFFSET implies #[trigger] v.image()[i] == 0 by {
        assert(v.image()[i] == p0[i]);
    }
    assert forall|i: int| RESERVED_2_OFFSET <= i < INTERRUPT_STACK_OFFSET implies #[trigger] v.image()[i] == 0 by {
        assert(v.image()[i] == p2[i - RESERVED_2_OFFSET]);
    }
    assert forall|i: int| RESERVED_3_OFFSET <= i < IOMAP_BASE_OFFSET implies #[trigger] v.image()[i] == 0 by {
        if i < RESERVED_4_OFFSET {
            assert(v.image()[i] == p4[i - RESERVED_3_OFFSET]);
        } else {
            assert(v.image()[i] == p5[i - RESERVED_4_OFFSET]);
        }
    }
    assert(v.image()[IOMAP_BASE_OFFSET as int] == p6[0]);
    assert(v.image()[IOMAP_BASE_OFFSET + 1] == p6[1]);
}

/// Appends the `width` low-order bytes of `v`, least significant first.
fn push_le(out: &mut Vec<u8>, v: u64, width: usize)
    ensures
        final(out)@ == old(out)@ + le_bytes(v as nat, width as nat),
{
    let mut x: u64 = v;
    let mut k: usize = 0;
    while k < width
        invariant
            k <= width,
            out@ + le_bytes(x as nat, (width - k) as nat) == old(out)@ + le_bytes(
                v as nat,
                width as nat,
            ),
        decreases width - k,
    {
        let ghost before = out@;
        let ghost rest = le_bytes(x as nat / 256, (width - k - 1) as nat);
        let b = (x % 256) as u8;
        assert(le_bytes(x as nat, (width - k) as nat) == seq![b] + rest);
        out.push(b);
        assert(before + (seq![b] + rest) =~= out@ + rest);
        x = x / 256;
        k = k + 1;
    }
    assert(out@ + le_bytes(x as nat, 0) =~= out@);
}

/// Appends each address of `t`, eight little-endian bytes each.
fn push_addrs<const M: usize>(out: &mut Vec<u8>, t: &[VirtAddr; M])
    ensures
        final(out)@ == old(out)@ + addr_bytes(addr_values(t@)),
{
    let mut i: usize = 0;
    while i < M
        invariant
            i <= M,
            t@.len() == M,
            out@ == old(out)@ + addr_bytes(addr_values(t@).take(i as int)),
        decreases M - i,
    {
        let a = t[i].as_u64();
        push_le(out, a, ADDR_LEN);
        assert(addr_values(t@).take(i + 1).drop_last() =~= addr_values(t@).take(i as int));
        assert(out@ =~= old(out)@ + addr_bytes(addr_values(t@).take(i + 1)));
        i = i + 1;
    }
    assert(addr_values(t@).take(M as int) =~= addr_values(t@));
}

/// A 64-bit Task State Segment with an I/O permission bitmap of `N` bytes.
///
/// The segment holds the stack pointers that the processor switches to on a
/// privilege-level change or on an interrupt that names an interrupt stack,
/// and the bitmap of the I/O ports that unprivileged code may access.
/// Its reserved fields stay zero, the bitmap offset always names the bitmap,
/// and the trailing bitmap byte always denies.
#[derive(Debug, Clone, Copy)]
pub struct TaskStateSegment<const N: usize> {
    reserved_1: u32,
    /// Stack pointers loaded on a change to privilege level 0, 1 or 2.
    pub privilege_stack_table: [VirtAddr; 3],
    reserved_2: u64,
    /// Stack pointers loaded when an interrupt descriptor names a non-zero stack index.
    pub interrupt_stack_table: [VirtAddr; 7],
    reserved_3: u64,
    reserved_4: u16,
    iomap_base: u16,
    /// One bit per I/O port, port `8 * i + j` at bit `j` of byte `i`:
    /// 0 lets unprivileged code access the port, 1 denies it.
    pub iomap: [u8; N],
    iomap_last_byte: u8,
}

impl<const N: usize> View for TaskStateSegment<N> {
    type V = TssView;

    closed spec fn view(&self) -> TssView {
        TssView {
            reserved_1: self.reserved_1,
            privilege_stack_table: addr_values(self.privilege_stack_table@),
            reserved_2: self.reserved_2,
            interrupt_stack_table: addr_values(self.interrupt_stack_table@),
            reserved_3: self.reserved_3,
            reserved_4: self.reserved_4,
            iomap_base: self.iomap_base,
            iomap: self.iomap@,
            iomap_last_byte: self.iomap_last_byte,
        }
    }
}

impl<const N: usize> TaskStateSegment<N> {
    #[verifier::type_invariant]
    spec fn fixed_fields(&self) -> bool {
        &&& self.reserved_1 == 0
        &&& self.reserved_2 == 0
        &&& self.reserved_3 == 0
        &&& self.reserved_4 == 0
        &&& self.iomap_base == IOMAP_OFFSET
        &&& self.iomap_last_byte == DENY_ALL
    }

    /// A segment with no stack pointer set and every I/O port denied.
    pub fn new() -> (r: Self)
        ensures
            r@.well_formed(),
            r@.privilege_stack_table == Seq::new(3, |i: int| 0u64),
            r@.interrupt_stack_table == Seq::new(7, |i: int| 0u64),
            r@.iomap == Seq::new(N as nat, |i: int| DENY_ALL),
    {
        let r = TaskStateSegment {
            reserved_1: 0,
            privilege_stack_table: [VirtAddr::zero(); 3],
            reserved_2: 0,
            interrupt_stack_table: [VirtAddr::zero(); 7],
            reserved_3: 0,
            reserved_4: 0,
            iomap_base: IOMAP_OFFSET as u16,
            iomap: [DENY_ALL; N],
            iomap_last_byte: DENY_ALL,
        };
        assert(r@.privilege_stack_table =~= Seq::new(3, |i: int| 0u64));
        assert(r@.interrupt_stack_table =~= Seq::new(7, |i: int| 0u64));
        assert(r@.iomap =~= Seq::new(N as nat, |i: int| DENY_ALL));
        r
    }

    /// The offset of the bitmap from the start of the segment, as stored in it.
    pub fn iomap_base(&self) -> (r: u16)
        ensures
            r == self@.iomap_base,
            r == IOMAP_OFFSET,
    {
        proof {
            use_type_invariant(self);
        }
        self.iomap_base
    }

    /// The byte stored after the bitmap.
    pub fn iomap_last_byte(&self) -> (r: u8)
        ensures
            r == self@.iomap_last_byte,
            r == DENY_ALL,
    {
        proof {
            use_type_invariant(self);
        }
        self.iomap_last_byte
    }

    /// The bytes that the processor reads from this segment, in order.
    pub fn to_bytes(&self) -> (r: Vec<u8>)
        ensures
            self@.well_formed(),
            r@ == self@.image(),
    {
        proof {
            use_type_invariant(self);
        }
        let mut out: Vec<u8> = Vec::new();
        push_le(&mut out, self.reserved_1 as u64, 4);
        push_addrs(&mut out, &self.privilege_stack_table);
        push_le(&mut out, self.reserved_2, 8);
        push_addrs(&mut out, &self.interrupt_stack_table);
        push_le(&mut out, self.reserved_3, 8);
        push_le(&mut out, self.reserved_4 as u64, 2);
        push_le(&mut out, self.iomap_base as u64, 2);
        let ghost head = out@;
        let mut i: usize = 0;
        while i < N
            invariant
                i <= N,
                self.iomap@.len() == N,
                out@ == head + self.iomap@.take(i as int),
            decreases N - i,
        {
            out.push(self.iomap[i]);
            assert(out@ =~= head + self.iomap@.take(i + 1));
            i = i + 1;
        }
        assert(self.iomap@.take(N as int) =~= self.iomap@);
        out.push(self.iomap_last_byte);
        assert(out@ =~= self@.image());
        out
    }
}

impl<const N: usize> Default for TaskStateSegment<N> {
    fn default() -> (r: Self)
        ensures
            r@.well_formed(),
            r@.privilege_stack_table == Seq::new(3, |i: int| 0u64),
            r@.interrupt_stack_table == Seq::new(7, |i: int| 0u64),
            r@.iomap == Seq::new(N as nat, |i: int| DENY_ALL),
    {
        Self::new()
    }
}

} // verus!
