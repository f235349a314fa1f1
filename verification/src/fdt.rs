//! Flattened device tree (DTB) writer.
//!
//! The blob is laid out as: a 40-byte header, the memory reservation
//! map at offset 40, the structure block and the strings block.
use vstd::prelude::*;
use crate::bytes::{be_bytes, push_be_u32, push_be_u64};
use vstd::string::StringSliceAdditionalSpecFns;

verus! {

pub const FDT_MAGIC: u32 = 0xd00d_feed;
pub const FDT_BEGIN_NODE: u32 = 0x0000_0001;
pub const FDT_END_NODE: u32 = 0x0000_0002;
pub const FDT_PROP: u32 = 0x0000_0003;
pub const FDT_NOP: u32 = 0x0000_0004;
pub const FDT_END: u32 = 0x0000_0009;
pub const FDT_VERSION: u32 = 17;
pub const FDT_LAST_COMP_VERSION: u32 = 16;
pub const FDT_HEADER_SIZE: usize = 40;

/// Four big-endian bytes.
pub open spec fn be4(v: u32) -> Seq<u8> {
    be_bytes(v as nat, 4)
}

/// Eight big-endian bytes.
pub open spec fn be8(v: u64) -> Seq<u8> {
    be_bytes(v as nat, 8)
}

/// Zero bytes that pad a length of `len` to a multiple of four.
pub open spec fn pad4(len: int) -> Seq<u8> {
    Seq::new(((4 - len % 4) % 4) as nat, |i: int| 0u8)
}

/// The big-endian encoding of a list of cells.
pub open spec fn cells_be(cells: Seq<u32>) -> Seq<u8>
    decreases cells.len(),
{
    if cells.len() == 0 {
        Seq::empty()
    } else {
        cells_be(cells.drop_last()) + be4(cells.last())
    }
}

/// The reservation map entries followed by the terminating empty entry.
pub open spec fn rsvmap_bytes(r: Seq<(u64, u64)>) -> Seq<u8>
    decreases r.len(),
{
    if r.len() == 0 {
        be8(0) + be8(0)
    } else {
        be8(r[0].0) + be8(r[0].1) + rsvmap_bytes(r.drop_first())
    }
}

/// The token that opens node `name`.
pub open spec fn begin_node_bytes(name: Seq<u8>) -> Seq<u8> {
    be4(FDT_BEGIN_NODE) + name + seq![0u8] + pad4(name.len() as int + 1)
}

/// The token of a property whose name sits at `nameoff` in the strings
/// block.
pub open spec fn prop_bytes(nameoff: u32, value: Seq<u8>) -> Seq<u8> {
    be4(FDT_PROP) + be4(value.len() as u32) + be4(nameoff) + value + pad4(value.len() as int)
}

/// A device tree being written.
pub struct FdtBuilder {
    structure: Vec<u8>,
    strings: Vec<u8>,
    reservations: Vec<(u64, u64)>,
}

/// The header of a blob with `nrsv` reservations, a structure block of
/// `struct_len` bytes and a strings block of `strings_len` bytes.
pub open spec fn fdt_header(nrsv: nat, struct_len: nat, strings_len: nat) -> Seq<u8> {
    let off_rsv = 40nat;
    let off_struct = off_rsv + 16 * (nrsv + 1);
    let off_strings = off_struct + struct_len;
    let total = off_strings + strings_len;
    be4(FDT_MAGIC) + be4(total as u32) + be4(off_struct as u32) + be4(off_strings as u32) + be4(
        off_rsv as u32,
    ) + be4(FDT_VERSION) + be4(FDT_LAST_COMP_VERSION) + be4(0) + be4(strings_len as u32) + be4(
        struct_len as u32,
    )
}

/// The blob of a finished tree.
pub open spec fn fdt_blob(rsv: Seq<(u64, u64)>, structure: Seq<u8>, strings: Seq<u8>) -> Seq<u8> {
    let s = structure + be4(FDT_END);
    fdt_header(rsv.len(), s.len(), strings.len()) + rsvmap_bytes(rsv) + s + strings
}

impl FdtBuilder {
    /// The structure block written so far.
    pub closed spec fn structure_view(&self) -> Seq<u8> {
        self.structure@
    }

    /// The strings block written so far.
    pub closed spec fn strings_view(&self) -> Seq<u8> {
        self.strings@
    }

    /// The memory reservations, in order.
    pub closed spec fn reservations_view(&self) -> Seq<(u64, u64)> {
        self.reservations@
    }

    /// An empty tree.
    pub fn new() -> (r: Self)
        ensures
            r.structure_view() == Seq::<u8>::empty(),
            r.strings_view() == Seq::<u8>::empty(),
            r.reservations_view() == Seq::<(u64, u64)>::empty(),
    {
        FdtBuilder { structure: Vec::new(), strings: Vec::new(), reservations: Vec::new() }
    }

    /// Reserve `size` bytes of memory at `address`.
    pub fn reserve_memory(&mut self, address: u64, size: u64)
        ensures
            final(self).structure_view() == old(self).structure_view(),
            final(self).strings_view() == old(self).strings_view(),
            final(self).reservations_view() == old(self).reservations_view().push((address, size)),
    {
        self.reservations.push((address, size));
    }

    fn push_bytes(&mut self, data: &[u8])
        ensures
            final(self).structure@ == old(self).structure@ + data@,
            final(self).strings == old(self).strings,
            final(self).reservations == old(self).reservations,
    {
        let mut i: usize = 0;
        let ghost start = self.structure@;
        while i < data.len()
            invariant
                i <= data.len(),
                self.structure@ == start + data@.take(i as int),
                self.strings == old(self).strings,
                self.reservations == old(self).reservations,
                start == old(self).structure@,
            decreases data.len() - i,
        {
            self.structure.push(data[i]);
            i = i + 1;
            proof {
                assert(self.structure@ =~= start + data@.take(i as int));
            }
        }
        proof {
            assert(data@.take(data@.len() as int) =~= data@);
        }
    }

    fn pad(&mut self, len: usize)
        ensures
            final(self).structure@ == old(self).structure@ + pad4(len as int),
            final(self).strings == old(self).strings,
            final(self).reservations == old(self).reservations,
    {
        let n = (4 - len % 4) % 4;
        let mut i: usize = 0;
        let ghost start = self.structure@;
        while i < n
            invariant
                i <= n,
                n == (4 - len % 4) % 4,
                self.structure@ == start + Seq::new(i as nat, |k: int| 0u8),
                self.strings == old(self).strings,
                self.reservations == old(self).reservations,
                start == old(self).structure@,
            decreases n - i,
        {
            self.structure.push(0);
            i = i + 1;
            proof {
                assert(self.structure@ =~= start + Seq::new(i as nat, |k: int| 0u8));
            }
        }
        proof {
            assert(Seq::new(n as nat, |k: int| 0u8) =~= pad4(len as int));
        }
    }

    /// Open a node whose name is the raw bytes `name`.
    pub fn begin_node_raw(&mut self, name: &[u8])
        ensures
            final(self).structure_view() == old(self).structure_view() + begin_node_bytes(name@),
            final(self).strings_view() == old(self).strings_view(),
            final(self).reservations_view() == old(self).reservations_view(),
    {
        push_be_u32(&mut self.structure, FDT_BEGIN_NODE);
        self.push_bytes(name);
        self.structure.push(0);
        self.pad(name.len() % 4 + 1);
        proof {
            let n = name@.len() as int;
            assert(pad4(n % 4 + 1) =~= pad4(n + 1));
            assert(self.structure@ =~= old(self).structure@ + begin_node_bytes(name@));
        }
    }

    /// Open a node named `name`.
    pub fn begin_node(&mut self, name: &str)
        ensures
            final(self).structure_view() == old(self).structure_view() + begin_node_bytes(name.spec_bytes()),
            final(self).strings_view() == old(self).strings_view(),
            final(self).reservations_view() == old(self).reservations_view(),
    {
        self.begin_node_raw(name.as_bytes());
    }

    /// Close the innermost open node.
    pub fn end_node(&mut self)
        ensures
            final(self).structure_view() == old(self).structure_view() + be4(FDT_END_NODE),
            final(self).strings_view() == old(self).strings_view(),
            final(self).reservations_view() == old(self).reservations_view(),
    {
        push_be_u32(&mut self.structure, FDT_END_NODE);
    }

    fn add_string(&mut self, name: &[u8]) -> (off: u32)
        ensures
            off == old(self).strings@.len() as u32,
            final(self).strings@ == old(self).strings@ + name@ + seq![0u8],
            final(self).structure == old(self).structure,
            final(self).reservations == old(self).reservations,
    {
        let off = self.strings.len() as u32;
        let mut i: usize = 0;
        let ghost start = self.strings@;
        while i < name.len()
            invariant
                i <= name.len(),
                self.strings@ == start + name@.take(i as int),
                self.structure == old(self).structure,
                self.reservations == old(self).reservations,
                start == old(self).strings@,
            decreases name.len() - i,
        {
            self.strings.push(name[i]);
            i = i + 1;
            proof {
                assert(self.strings@ =~= start + name@.take(i as int));
            }
        }
        self.strings.push(0);
        proof {
            assert(name@.take(name@.len() as int) =~= name@);
        }
        off
    }

    /// Add property `name` with raw value `value`; the name is appended
    /// to the strings block.
    pub fn property_bytes(&mut self, name: &str, value: &[u8])
        ensures
            final(self).strings_view() == old(self).strings_view() + name.spec_bytes() + seq![0u8],
            final(self).structure_view() == old(self).structure_view() + prop_bytes(
                old(self).strings_view().len() as u32,
                value@,
            ),
            final(self).reservations_view() == old(self).reservations_view(),
    {
        let nameoff = self.add_string(name.as_bytes());
        push_be_u32(&mut self.structure, FDT_PROP);
        push_be_u32(&mut self.structure, value.len() as u32);
        push_be_u32(&mut self.structure, nameoff);
        self.push_bytes(value);
        self.pad(value.len());
        proof {
            assert(self.structure@ =~= old(self).structure@ + prop_bytes(nameoff, value@));
        }
    }

    /// Add property `name` holding the string `value` and its NUL.
    pub fn property_string(&mut self, name: &str, value: &str)
        ensures
            final(self).strings_view() == old(self).strings_view() + name.spec_bytes() + seq![0u8],
            final(self).structure_view() == old(self).structure_view() + prop_bytes(
                old(self).strings_view().len() as u32,
                value.spec_bytes() + seq![0u8],
            ),
            final(self).reservations_view() == old(self).reservations_view(),
    {
        let mut data: Vec<u8> = Vec::new();
        let v = value.as_bytes();
        let mut i: usize = 0;
        while i < v.len()
            invariant
                i <= v.len(),
                data@ == v@.take(i as int),
            decreases v.len() - i,
        {
            data.push(v[i]);
            i = i + 1;
            proof {
                assert(data@ =~= v@.take(i as int));
            }
        }
        data.push(0);
        proof {
            assert(v@.take(v@.len() as int) =~= v@);
            assert(data@ =~= value.spec_bytes() + seq![0u8]);
        }
        self.property_bytes(name, data.as_slice());
    }

    /// Add property `name` holding one big-endian cell.
    pub fn property_u32(&mut self, name: &str, value: u32)
        ensures
            final(self).strings_view() == old(self).strings_view() + name.spec_bytes() + seq![0u8],
            final(self).structure_view() == old(self).structure_view() + prop_bytes(
                old(self).strings_view().len() as u32,
                be4(value),
            ),
            final(self).reservations_view() == old(self).reservations_view(),
    {
        let mut data: Vec<u8> = Vec::new();
        push_be_u32(&mut data, value);
        proof {
            assert(data@ =~= be4(value));
        }
        self.property_bytes(name, data.as_slice());
    }

    /// Add property `name` holding a big-endian 64-bit value.
    pub fn property_u64(&mut self, name: &str, value: u64)
        ensures
            final(self).strings_view() == old(self).strings_view() + name.spec_bytes() + seq![0u8],
            final(self).structure_view() == old(self).structure_view() + prop_bytes(
                old(self).strings_view().len() as u32,
                be8(value),
            ),
            final(self).reservations_view() == old(self).reservations_view(),
    {
        let mut data: Vec<u8> = Vec::new();
        push_be_u64(&mut data, value);
        proof {
            assert(data@ =~= be8(value));
        }
        self.property_bytes(name, data.as_slice());
    }

    /// Add property `name` holding a list of big-endian cells.
    pub fn property_u32_list(&mut self, name: &str, values: &[u32])
        ensures
            final(self).strings_view() == old(self).strings_view() + name.spec_bytes() + seq![0u8],
            final(self).structure_view() == old(self).structure_view() + prop_bytes(
                old(self).strings_view().len() as u32,
                cells_be(values@),
            ),
            final(self).reservations_view() == old(self).reservations_view(),
    {
        let mut data: Vec<u8> = Vec::new();
        let mut i: usize = 0;
        while i < values.len()
            invariant
                i <= values.len(),
                data@ == cells_be(values@.take(i as int)),
            decreases values.len() - i,
        {
            push_be_u32(&mut data, values[i]);
            proof {
                let t = values@.take((i + 1) as int);
                assert(t.drop_last() =~= values@.take(i as int));
            }
            i = i + 1;
        }
        proof {
            assert(values@.take(values@.len() as int) =~= values@);
        }
        self.property_bytes(name, data.as_slice());
    }

    /// The finished blob: header, reservation map, structure block ended
    /// by the END token, strings block.
    pub fn finish(self) -> (r: Vec<u8>)
        ensures
            r@ == fdt_blob(self.reservations_view(), self.structure_view(), self.strings_view()),
    {
        let mut s = self.structure;
        push_be_u32(&mut s, FDT_END);
        let nrsv = self.reservations.len();
        let off_rsv: u32 = 40;
        let rsv_len: u128 = 16 * (nrsv as u128 + 1);
        let off_struct: u128 = 40 + rsv_len;
        let off_strings: u128 = off_struct + s.len() as u128;
        let total: u128 = off_strings + self.strings.len() as u128;
        let mut out: Vec<u8> = Vec::new();
        push_be_u32(&mut out, FDT_MAGIC);
        push_be_u32(&mut out, total as u32);
        push_be_u32(&mut out, off_struct as u32);
        push_be_u32(&mut out, off_strings as u32);
        push_be_u32(&mut out, off_rsv);
        push_be_u32(&mut out, FDT_VERSION);
        push_be_u32(&mut out, FDT_LAST_COMP_VERSION);
        push_be_u32(&mut out, 0);
        push_be_u32(&mut out, self.strings.len() as u32);
        push_be_u32(&mut out, s.len() as u32);
        proof {
            assert(out@ =~= fdt_header(nrsv as nat, s@.len(), self.strings@.len()));
        }
        let ghost head = out@;
        proof {
            assert(self.reservations@.skip(0) =~= self.reservations@);
        }
        let mut k: usize = 0;
        while k < nrsv
            invariant
                k <= nrsv,
                nrsv == self.reservations@.len(),
                out@ + rsvmap_bytes(self.reservations@.skip(k as int)) == head + rsvmap_bytes(self.reservations@),
            decreases nrsv - k,
        {
            let (a, z) = self.reservations[k];
            push_be_u64(&mut out, a);
            push_be_u64(&mut out, z);
            proof {
                let rest = self.reservations@.skip(k as int);
                assert(rest.drop_first() =~= self.reservations@.skip((k + 1) as int));
                assert(rest[0] == (a, z));
            }
            k = k + 1;
        }
        push_be_u64(&mut out, 0);
        push_be_u64(&mut out, 0);
        proof {
            assert(self.reservations@.skip(nrsv as int) =~= Seq::<(u64, u64)>::empty());
        }
        let mut i: usize = 0;
        let ghost mid = out@;
        while i < s.len()
            invariant
                i <= s@.len(),
                out@ == mid + s@.take(i as int),
            decreases s.len() - i,
        {
            out.push(s[i]);
            i = i + 1;
            proof {
                assert(out@ =~= mid + s@.take(i as int));
            }
        }
        let mut j: usize = 0;
        let ghost mid2 = out@;
        while j < self.strings.len()
            invariant
                j <= self.strings@.len(),
                out@ == mid2 + self.strings@.take(j as int),
            decreases self.strings.len() - j,
        {
            out.push(self.strings[j]);
            j = j + 1;
            proof {
                assert(out@ =~= mid2 + self.strings@.take(j as int));
            }
        }
        proof {
            assert(s@.take(s@.len() as int) =~= s@);
            assert(self.strings@.take(self.strings@.len() as int) =~= self.strings@);
            assert(out@ =~= fdt_blob(self.reservations@, self.structure@, self.strings@));
        }
        out
    }
}

} // verus!
