//! Device trees described as the list of writer steps that produce
//! them (open a node, add a property, close a node), and a writer that
//! records its steps.
use vstd::prelude::*;
use vstd::string::StringSliceAdditionalSpecFns;
use crate::fdt::{FdtBuilder, begin_node_bytes, prop_bytes, be4, be8, cells_be, fdt_blob, FDT_END_NODE};
use crate::loongarch_boot::{reg_cells_spec, make_reg_cells};

verus! {

/// One writer step: `(0, name, _)` opens a node, `(1, name, value)` adds
/// a property, `(2, _, _)` closes the innermost node.
pub type FdtOp = (int, Seq<u8>, Seq<u8>);

pub open spec fn op_begin(name: Seq<u8>) -> FdtOp {
    (0, name, Seq::empty())
}

pub open spec fn op_prop(name: Seq<u8>, value: Seq<u8>) -> FdtOp {
    (1, name, value)
}

pub open spec fn op_end() -> FdtOp {
    (2, Seq::empty(), Seq::empty())
}

/// The structure and strings blocks after one more step.
pub open spec fn op_apply(st: (Seq<u8>, Seq<u8>), op: FdtOp) -> (Seq<u8>, Seq<u8>) {
    if op.0 == 0 {
        (st.0 + begin_node_bytes(op.1), st.1)
    } else if op.0 == 1 {
        (st.0 + prop_bytes(st.1.len() as u32, op.2), st.1 + op.1 + seq![0u8])
    } else {
        (st.0 + be4(FDT_END_NODE), st.1)
    }
}

/// The structure and strings blocks that `ops` write.
pub open spec fn ops_blocks(ops: Seq<FdtOp>) -> (Seq<u8>, Seq<u8>)
    decreases ops.len(),
{
    if ops.len() == 0 {
        (Seq::empty(), Seq::empty())
    } else {
        op_apply(ops_blocks(ops.drop_last()), ops.last())
    }
}

/// The blob of the tree that `ops` write, without reservations.
pub open spec fn ops_blob(ops: Seq<FdtOp>) -> Seq<u8> {
    fdt_blob(Seq::empty(), ops_blocks(ops).0, ops_blocks(ops).1)
}

/// Lower-case hexadecimal digit `d`.
pub open spec fn hex_digit(d: nat) -> u8 {
    if d < 10 {
        (48 + d) as u8
    } else {
        (87 + d) as u8
    }
}

/// `v` in lower-case hexadecimal, without prefix or leading zeros.
pub open spec fn hex_text(v: nat) -> Seq<u8>
    decreases v,
{
    if v < 16 {
        seq![hex_digit(v)]
    } else {
        hex_text(v / 16) + seq![hex_digit(v % 16)]
    }
}

/// `v` in decimal, without leading zeros.
pub open spec fn dec_text(v: nat) -> Seq<u8>
    decreases v,
{
    if v < 10 {
        seq![(48 + v) as u8]
    } else {
        dec_text(v / 10) + seq![(48 + v % 10) as u8]
    }
}

/// A string property value: the bytes and a NUL.
pub open spec fn str_val(s: &str) -> Seq<u8> {
    s.spec_bytes() + seq![0u8]
}

/// A node name `prefix` followed by `v` in hexadecimal.
pub open spec fn hex_name(prefix: &str, v: u64) -> Seq<u8> {
    prefix.spec_bytes() + hex_text(v as nat)
}


pub(crate) proof fn lemma_ops_push(ops: Seq<FdtOp>, op: FdtOp)
    ensures
        ops_blocks(ops.push(op)) == op_apply(ops_blocks(ops), op),
{
    assert(ops.push(op).drop_last() =~= ops);
}

/// A `reg` property of 64-bit base and size cells.
pub open spec fn reg_op(regions: Seq<(u64, u64)>) -> FdtOp {
    op_prop("reg".spec_bytes(), reg_cells_spec(regions))
}

/// A tree writer that remembers the steps it took.
pub(crate) struct OpWriter {
    pub(crate) fdt: FdtBuilder,
    pub(crate) ops: Ghost<Seq<FdtOp>>,
}

impl OpWriter {
    pub(crate) open spec fn wf(&self) -> bool {
        &&& self.fdt.structure_view() == ops_blocks(self.ops@).0
        &&& self.fdt.strings_view() == ops_blocks(self.ops@).1
        &&& self.fdt.reservations_view() == Seq::<(u64, u64)>::empty()
    }

    pub(crate) fn new() -> (w: Self)
        ensures
            w.wf(),
            w.ops@ == Seq::<FdtOp>::empty(),
    {
        OpWriter { fdt: FdtBuilder::new(), ops: Ghost(Seq::empty()) }
    }

    pub(crate) fn begin(&mut self, name: &[u8])
        requires
            old(self).wf(),
        ensures
            final(self).wf(),
            final(self).ops@ == old(self).ops@.push(op_begin(name@)),
    {
        self.fdt.begin_node_raw(name);
        proof {
            lemma_ops_push(self.ops@, op_begin(name@));
        }
        self.ops = Ghost(self.ops@.push(op_begin(name@)));
    }

    pub(crate) fn end(&mut self)
        requires
            old(self).wf(),
        ensures
            final(self).wf(),
            final(self).ops@ == old(self).ops@.push(op_end()),
    {
        self.fdt.end_node();
        proof {
            lemma_ops_push(self.ops@, op_end());
        }
        self.ops = Ghost(self.ops@.push(op_end()));
    }

    pub(crate) fn prop(&mut self, name: &str, value: &[u8])
        requires
            old(self).wf(),
        ensures
            final(self).wf(),
            final(self).ops@ == old(self).ops@.push(op_prop(name.spec_bytes(), value@)),
    {
        self.fdt.property_bytes(name, value);
        proof {
            lemma_ops_push(self.ops@, op_prop(name.spec_bytes(), value@));
        }
        self.ops = Ghost(self.ops@.push(op_prop(name.spec_bytes(), value@)));
    }

    pub(crate) fn prop_empty(&mut self, name: &str)
        requires
            old(self).wf(),
        ensures
            final(self).wf(),
            final(self).ops@ == old(self).ops@.push(op_prop(name.spec_bytes(), Seq::empty())),
    {
        let empty: Vec<u8> = Vec::new();
        self.prop(name, empty.as_slice());
        proof {
            assert(empty@ =~= Seq::<u8>::empty());
        }
    }

    pub(crate) fn prop_str(&mut self, name: &str, value: &str)
        requires
            old(self).wf(),
        ensures
            final(self).wf(),
            final(self).ops@ == old(self).ops@.push(op_prop(name.spec_bytes(), str_val(value))),
    {
        self.fdt.property_string(name, value);
        proof {
            lemma_ops_push(self.ops@, op_prop(name.spec_bytes(), str_val(value)));
        }
        self.ops = Ghost(self.ops@.push(op_prop(name.spec_bytes(), str_val(value))));
    }

    pub(crate) fn prop_u32(&mut self, name: &str, value: u32)
        requires
            old(self).wf(),
        ensures
            final(self).wf(),
            final(self).ops@ == old(self).ops@.push(op_prop(name.spec_bytes(), be4(value))),
    {
        self.fdt.property_u32(name, value);
        proof {
            lemma_ops_push(self.ops@, op_prop(name.spec_bytes(), be4(value)));
        }
        self.ops = Ghost(self.ops@.push(op_prop(name.spec_bytes(), be4(value))));
    }

    pub(crate) fn prop_u64(&mut self, name: &str, value: u64)
        requires
            old(self).wf(),
        ensures
            final(self).wf(),
            final(self).ops@ == old(self).ops@.push(op_prop(name.spec_bytes(), be8(value))),
    {
        self.fdt.property_u64(name, value);
        proof {
            lemma_ops_push(self.ops@, op_prop(name.spec_bytes(), be8(value)));
        }
        self.ops = Ghost(self.ops@.push(op_prop(name.spec_bytes(), be8(value))));
    }

    pub(crate) fn prop_cells(&mut self, name: &str, values: &[u32])
        requires
            old(self).wf(),
        ensures
            final(self).wf(),
            final(self).ops@ == old(self).ops@.push(op_prop(name.spec_bytes(), cells_be(values@))),
    {
        self.fdt.property_u32_list(name, values);
        proof {
            lemma_ops_push(self.ops@, op_prop(name.spec_bytes(), cells_be(values@)));
        }
        self.ops = Ghost(self.ops@.push(op_prop(name.spec_bytes(), cells_be(values@))));
    }

    pub(crate) fn reg(&mut self, regions: &[(u64, u64)])
        requires
            old(self).wf(),
        ensures
            final(self).wf(),
            final(self).ops@ == old(self).ops@.push(reg_op(regions@)),
    {
        let cells = make_reg_cells(regions);
        self.prop("reg", cells.as_slice());
    }

    pub(crate) fn finish(self) -> (r: Vec<u8>)
        requires
            self.wf(),
        ensures
            r@ == ops_blob(self.ops@),
    {
        self.fdt.finish()
    }
}

/// Append the bytes of `data` to `out`.
pub(crate) fn push_all(out: &mut Vec<u8>, data: &[u8])
    ensures
        final(out)@ == old(out)@ + data@,
{
    let mut i: usize = 0;
    while i < data.len()
        invariant
            i <= data.len(),
            out@ == old(out)@ + data@.take(i as int),
        decreases data.len() - i,
    {
        out.push(data[i]);
        i = i + 1;
        proof {
            assert(out@ =~= old(out)@ + data@.take(i as int));
        }
    }
    proof {
        assert(data@.take(data@.len() as int) =~= data@);
    }
}

/// Append `v` in lower-case hexadecimal.
pub(crate) fn push_hex(out: &mut Vec<u8>, v: u64)
    ensures
        final(out)@ == old(out)@ + hex_text(v as nat),
    decreases v,
{
    let ghost pre = out@;
    if v >= 16 {
        push_hex(out, v / 16);
    }
    let ghost mid = out@;
    let d = v % 16;
    let c: u8 = if d < 10 {
        48 + d as u8
    } else {
        87 + d as u8
    };
    out.push(c);
    proof {
        assert(c == hex_digit((v % 16) as nat));
        if v >= 16 {
            assert(out@ =~= pre + hex_text(v as nat));
        } else {
            assert(out@ =~= pre + hex_text(v as nat));
        }
    }
}

/// Append `v` in decimal.
pub(crate) fn push_dec(out: &mut Vec<u8>, v: u64)
    ensures
        final(out)@ == old(out)@ + dec_text(v as nat),
    decreases v,
{
    let ghost pre = out@;
    if v >= 10 {
        push_dec(out, v / 10);
    }
    let c: u8 = 48 + (v % 10) as u8;
    out.push(c);
    proof {
        assert(out@ =~= pre + dec_text(v as nat));
    }
}

/// The node name `prefix` followed by `v` in hexadecimal.
pub(crate) fn hex_node_name(prefix: &str, v: u64) -> (r: Vec<u8>)
    ensures
        r@ == hex_name(prefix, v),
{
    let mut out: Vec<u8> = Vec::new();
    push_all(&mut out, prefix.as_bytes());
    push_hex(&mut out, v);
    proof {
        assert(out@ =~= hex_name(prefix, v));
    }
    out
}


} // verus!
