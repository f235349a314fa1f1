//! Reading (and rewriting) flattened device trees handed to the K230:
//! the reservation map, node status and boot arguments, and the first
//! memory region.
use vstd::prelude::*;
use vstd::utf8::{decode_utf8, valid_utf8};
use crate::bytes::{be_value, read_be_u32, read_be_u64};
use crate::fdt::{
    be4, be8, begin_node_bytes, fdt_blob, fdt_header, prop_bytes, rsvmap_bytes, FdtBuilder, FDT_BEGIN_NODE,
    FDT_END, FDT_END_NODE, FDT_MAGIC, FDT_NOP, FDT_PROP, FDT_VERSION, FDT_LAST_COMP_VERSION, pad4,
};
use crate::bytes::{be_bytes, lemma_be_bytes_len, lemma_be_roundtrip, lemma_be_value_window, pow256};
use crate::bytes::push_be_u64;
use vstd::utf8::encode_utf8;
use vstd::string::StringSliceAdditionalSpecFns;

verus! {

/// A memory reservation of the device tree.
#[derive(Debug, Clone, Copy, PartialEq, Eq, Structural)]
pub struct FdtReservation {
    pub address: u64,
    pub size: u64,
}

/// A region of a memory node.
#[derive(Debug, Clone, Copy, PartialEq, Eq, Structural)]
pub struct FdtMemoryRegion {
    pub base: u64,
    pub size: u64,
}

/// A property of the tree as a value.
pub struct PropView {
    pub name: Seq<char>,
    pub data: Seq<u8>,
}

/// A node of the tree as a value.
pub struct NodeView {
    pub name: Seq<char>,
    pub props: Seq<PropView>,
    pub children: Seq<NodeView>,
}

/// The big-endian word at `off`, if it lies within `d`.
pub open spec fn be32_at(d: Seq<u8>, off: int) -> Option<u32> {
    if 0 <= off && off + 4 <= d.len() {
        Some(be_value(d, off, 4) as u32)
    } else {
        None
    }
}

/// The big-endian double word at `off`, if it lies within `d`.
pub open spec fn be64_at(d: Seq<u8>, off: int) -> Option<u64> {
    if 0 <= off && off + 8 <= d.len() {
        Some(be_value(d, off, 8) as u64)
    } else {
        None
    }
}

/// The index of the first NUL byte at or after `i`.
pub open spec fn find_nul(d: Seq<u8>, i: int) -> Option<int>
    decreases d.len() - i,
{
    if i < 0 || i >= d.len() {
        None
    } else if d[i] == 0 {
        Some(i)
    } else {
        find_nul(d, i + 1)
    }
}

/// The NUL-terminated byte string starting at `start`.
pub open spec fn cstring_at(d: Seq<u8>, start: int) -> Option<Seq<u8>> {
    if start < 0 || start > d.len() {
        None
    } else {
        match find_nul(d, start) {
            Some(e) => Some(d.subrange(start, e)),
            None => None,
        }
    }
}

/// The text of `b` when it is valid UTF-8.
pub open spec fn utf8_text(b: Seq<u8>) -> Option<Seq<char>> {
    if valid_utf8(b) {
        Some(decode_utf8(b))
    } else {
        None
    }
}

/// `v` rounded up to a multiple of four.
pub open spec fn align4(v: int) -> int {
    (v + 3) / 4 * 4
}

/// The node whose name starts at `cursor` (just after its BEGIN token)
/// and the cursor after its END token.
pub open spec fn parse_node(st: Seq<u8>, strs: Seq<u8>, cursor: int) -> Option<(NodeView, int)>
    decreases st.len() - cursor, 1int,
{
    if cursor < 0 || cursor >= st.len() {
        None
    } else {
        match cstring_at(st, cursor) {
            None => None,
            Some(nb) => match utf8_text(nb) {
                None => None,
                Some(name) => {
                    let next = align4(cursor + nb.len() + 1);
                    if next > st.len() {
                        None
                    } else {
                        parse_items(
                            st,
                            strs,
                            next,
                            NodeView { name, props: Seq::empty(), children: Seq::empty() },
                        )
                    }
                },
            },
        }
    }
}

/// The properties and children from `cursor` to the node's END token,
/// added to `node`.
pub open spec fn parse_items(st: Seq<u8>, strs: Seq<u8>, cursor: int, node: NodeView) -> Option<(NodeView, int)>
    decreases st.len() - cursor, 0int,
{
    if cursor < 0 || cursor + 4 > st.len() {
        None
    } else {
        let tok = be32_at(st, cursor)->0;
        let c = cursor + 4;
        if tok == FDT_BEGIN_NODE {
            if c >= st.len() {
                None
            } else {
                match parse_node(st, strs, c) {
                    None => None,
                    Some((child, c2)) => if c2 <= cursor || c2 > st.len() {
                        None
                    } else {
                        parse_items(st, strs, c2, NodeView { children: node.children.push(child), ..node })
                    },
                }
            }
        } else if tok == FDT_END_NODE || tok == FDT_END {
            Some((node, c))
        } else if tok == FDT_PROP {
            match (be32_at(st, c), be32_at(st, c + 4)) {
                (Some(len), Some(nameoff)) => match cstring_at(strs, nameoff as int) {
                    None => None,
                    Some(nb) => match utf8_text(nb) {
                        None => None,
                        Some(name) => {
                            let d = c + 8;
                            if d + len > st.len() {
                                None
                            } else {
                                let next = align4(d + len);
                                if next > st.len() {
                                    None
                                } else {
                                    parse_items(
                                        st,
                                        strs,
                                        next,
                                        NodeView {
                                            props: node.props.push(
                                                PropView { name, data: st.subrange(d, d + len) },
                                            ),
                                            ..node
                                        },
                                    )
                                }
                            }
                        },
                    },
                },
                _ => None,
            }
        } else if tok == FDT_NOP {
            parse_items(st, strs, c, node)
        } else {
            None
        }
    }
}

/// The `len` bytes of `blob` at `off`, if they lie within it.
pub open spec fn block_at(blob: Seq<u8>, off: int, len: int) -> Option<Seq<u8>> {
    if off + len <= blob.len() {
        Some(blob.subrange(off, off + len))
    } else {
        None
    }
}

/// The tree a device-tree blob holds: the magic must match and the
/// structure block must open with the root node.
pub open spec fn parse_dtb(blob: Seq<u8>) -> Option<NodeView> {
    match (be32_at(blob, 0), be32_at(blob, 8), be32_at(blob, 12), be32_at(blob, 32), be32_at(blob, 36)) {
        (Some(magic), Some(off_st), Some(off_str), Some(size_str), Some(size_st)) => {
            if magic != FDT_MAGIC {
                None
            } else {
                match (block_at(blob, off_st as int, size_st as int), block_at(blob, off_str as int, size_str as int)) {
                    (Some(st), Some(strs)) => match be32_at(st, 0) {
                        Some(tok) => if tok != FDT_BEGIN_NODE {
                            None
                        } else {
                            match parse_node(st, strs, 4) {
                                Some((root, _)) => Some(root),
                                None => None,
                            }
                        },
                        None => None,
                    },
                    _ => None,
                }
            }
        },
        _ => None,
    }
}

struct FdtProp {
    name: String,
    data: Vec<u8>,
}

struct FdtNode {
    name: String,
    props: Vec<FdtProp>,
    children: Vec<FdtNode>,
}

/// `n` holds the tree `v`.
spec fn node_is(n: FdtNode, v: NodeView) -> bool
    decreases v,
{
    &&& n.name@ == v.name
    &&& n.props@.len() == v.props.len()
    &&& forall|i: int|
        0 <= i < v.props.len() ==> (#[trigger] n.props@[i]).name@ == v.props[i].name && n.props@[i].data@
            == v.props[i].data
    &&& n.children@.len() == v.children.len()
    &&& forall|i: int| 0 <= i < v.children.len() ==> node_is(#[trigger] n.children@[i], v.children[i])
}

/// `std::str::from_utf8`: the text of `bytes` exactly when they are valid
/// UTF-8.
#[verifier::external_body]
fn utf8_to_string(bytes: &[u8]) -> (r: Option<String>)
    ensures
        r is Some <==> valid_utf8(bytes@),
        r matches Some(s) ==> s@ == decode_utf8(bytes@),
{
    std::str::from_utf8(bytes).ok().map(|s| s.to_string())
}

fn find_nul_from(d: &[u8], start: usize) -> (r: Option<usize>)
    requires
        start <= d@.len(),
    ensures
        r matches Some(e) ==> find_nul(d@, start as int) == Some(e as int) && start <= e < d@.len(),
        r is None ==> find_nul(d@, start as int) is None,
{
    let mut i = start;
    while i < d.len()
        invariant
            start <= i <= d@.len(),
            find_nul(d@, start as int) == find_nul(d@, i as int),
        decreases d.len() - i,
    {
        if d[i] == 0 {
            return Some(i);
        }
        i = i + 1;
    }
    None
}

fn copy_range(d: &[u8], from: usize, to: usize) -> (r: Vec<u8>)
    requires
        from <= to <= d@.len(),
    ensures
        r@ == d@.subrange(from as int, to as int),
{
    let mut out: Vec<u8> = Vec::new();
    let mut i = from;
    while i < to
        invariant
            from <= i <= to <= d@.len(),
            out@ == d@.subrange(from as int, i as int),
        decreases to - i,
    {
        out.push(d[i]);
        i = i + 1;
        proof {
            assert(out@ =~= d@.subrange(from as int, i as int));
        }
    }
    out
}

fn cstring_text(d: &[u8], start: usize) -> (r: Option<String>)
    ensures
        r matches Some(s) ==> cstring_at(d@, start as int) matches Some(b) && utf8_text(b) == Some(s@),
        r is None ==> cstring_at(d@, start as int) is None || utf8_text(cstring_at(d@, start as int)->0) is None,
{
    if start > d.len() {
        return None;
    }
    match find_nul_from(d, start) {
        None => None,
        Some(e) => {
            let bytes = copy_range(d, start, e);
            utf8_to_string(bytes.as_slice())
        },
    }
}

fn word_at(d: &[u8], off: usize) -> (r: Option<u32>)
    ensures
        r == be32_at(d@, off as int),
{
    if off <= d.len() && d.len() - off >= 4 {
        Some(read_be_u32(d, off))
    } else {
        None
    }
}

fn parse_node_exec(st: &[u8], strs: &[u8], cursor: usize) -> (r: Result<(FdtNode, usize), String>)
    ensures
        r matches Ok((n, c)) ==> parse_node(st@, strs@, cursor as int) matches Some((v, c2)) && node_is(n, v) && c == c2,
        r is Err ==> parse_node(st@, strs@, cursor as int) is None,
    decreases st@.len() - cursor, 1int,
{
    if cursor >= st.len() {
        return Err("DTB string cursor out of range".to_string());
    }
    let name = match cstring_text(st, cursor) {
        Some(n) => n,
        None => {
            return Err("invalid or unterminated DTB node name".to_string());
        },
    };
    let ghost nb = cstring_at(st@, cursor as int)->0;
    let end = match find_nul_from(st, cursor) {
        Some(e) => e,
        None => {
            return Err("unterminated DTB node name".to_string());
        },
    };
    proof {
        assert(nb.len() == end - cursor);
    }
    let next128: u128 = ((end as u128) + 4) / 4 * 4;
    if next128 > st.len() as u128 {
        return Err("DTB structure block ends inside a node".to_string());
    }
    let next = next128 as usize;
    let node = FdtNode { name, props: Vec::new(), children: Vec::new() };
    let ghost v = NodeView { name: node.name@, props: Seq::empty(), children: Seq::empty() };
    proof {
        assert(node.props@ =~= Seq::<FdtProp>::empty());
        assert(node.children@ =~= Seq::<FdtNode>::empty());
        assert(node_is(node, v));
    }
    parse_items_exec(st, strs, next, node, Ghost(v))
}

fn parse_items_exec(st: &[u8], strs: &[u8], cursor: usize, node: FdtNode, v: Ghost<NodeView>) -> (r: Result<(FdtNode, usize), String>)
    requires
        node_is(node, v@),
    ensures
        r matches Ok((n, c)) ==> parse_items(st@, strs@, cursor as int, v@) matches Some((w, c2)) && node_is(n, w) && c == c2,
        r is Err ==> parse_items(st@, strs@, cursor as int, v@) is None,
    decreases st@.len() - cursor, 0int,
{
    let n = st.len();
    let tok = match word_at(st, cursor) {
        Some(t) => t,
        None => {
            return Err("DTB slice range out of bounds".to_string());
        },
    };
    let c = cursor + 4;
    let mut node = node;
    if tok == FDT_BEGIN_NODE {
        if c >= st.len() {
            return Err("DTB string cursor out of range".to_string());
        }
        let (child, c2) = parse_node_exec(st, strs, c)?;
        if c2 <= cursor || c2 > st.len() {
            return Err("DTB structure cursor did not advance".to_string());
        }
        let ghost parsed = parse_node(st@, strs@, c as int)->0;
        let ghost cv = parsed.0;
        let ghost nv = NodeView { children: v@.children.push(cv), ..v@ };
        let ghost n0 = node;
        node.children.push(child);
        proof {
            assert(node.children@.len() == nv.children.len());
            assert forall|i: int| 0 <= i < nv.children.len() implies node_is(#[trigger] node.children@[i], nv.children[i]) by {
                if i < v@.children.len() {
                    assert(node.children@[i] == n0.children@[i]);
                    assert(node_is(n0.children@[i], v@.children[i]));
                }
            }
            assert(node_is(node, nv));
        }
        parse_items_exec(st, strs, c2, node, Ghost(nv))
    } else if tok == FDT_END_NODE || tok == FDT_END {
        Ok((node, c))
    } else if tok == FDT_PROP {
        let len = match word_at(st, c) {
            Some(x) => x,
            None => {
                return Err("DTB slice range out of bounds".to_string());
            },
        };
        let nameoff = match word_at(st, c + 4) {
            Some(x) => x,
            None => {
                return Err("DTB slice range out of bounds".to_string());
            },
        };
        let name = match cstring_text(strs, nameoff as usize) {
            Some(n) => n,
            None => {
                return Err("invalid or unterminated DTB property name".to_string());
            },
        };
        let d = c + 8;
        if len as usize > st.len() - d {
            return Err("DTB slice range out of bounds".to_string());
        }
        let data = copy_range(st, d, d + len as usize);
        let next128: u128 = ((d as u128) + (len as u128) + 3) / 4 * 4;
        if next128 > st.len() as u128 {
            return Err("DTB structure block ends inside a property".to_string());
        }
        let next = next128 as usize;
        let ghost pv = PropView { name: name@, data: data@ };
        let ghost nv = NodeView { props: v@.props.push(pv), ..v@ };
        let ghost n0 = node;
        node.props.push(FdtProp { name, data });
        proof {
            assert forall|i: int| 0 <= i < nv.props.len() implies (#[trigger] node.props@[i]).name@ == nv.props[i].name && node.props@[i].data@ == nv.props[i].data by {
                if i < v@.props.len() {
                    assert(node.props@[i] == n0.props@[i]);
                }
            }
            assert forall|i: int| 0 <= i < nv.children.len() implies node_is(#[trigger] node.children@[i], nv.children[i]) by {
                assert(node.children@[i] == n0.children@[i]);
            }
            assert(node_is(node, nv));
        }
        parse_items_exec(st, strs, next, node, Ghost(nv))
    } else if tok == FDT_NOP {
        parse_items_exec(st, strs, c, node, v)
    } else {
        Err("unsupported FDT token".to_string())
    }
}

/// The `/`-separated components of `p`, continuing the component `cur`
/// begun before it; empty components are dropped.
pub open spec fn path_parts_from(p: Seq<char>, cur: Seq<char>) -> Seq<Seq<char>>
    decreases p.len(),
{
    let flushed = if cur.len() > 0 { seq![cur] } else { Seq::empty() };
    if p.len() == 0 {
        flushed
    } else if p[0] == '/' {
        flushed + path_parts_from(p.drop_first(), Seq::empty())
    } else {
        path_parts_from(p.drop_first(), cur.push(p[0]))
    }
}

/// The non-empty `/`-separated components of a node path.
pub open spec fn path_parts(p: Seq<char>) -> Seq<Seq<char>> {
    path_parts_from(p, Seq::empty())
}

/// The index of the first child at or after `i` named `name`.
pub open spec fn child_named(cs: Seq<NodeView>, name: Seq<char>, i: int) -> Option<int>
    decreases cs.len() - i,
{
    if i < 0 || i >= cs.len() {
        None
    } else if cs[i].name == name {
        Some(i)
    } else {
        child_named(cs, name, i + 1)
    }
}

/// The node reached from `v` through the children named by `parts`.
pub open spec fn find_path(v: NodeView, parts: Seq<Seq<char>>) -> Option<NodeView>
    decreases parts.len(),
{
    if parts.len() == 0 {
        Some(v)
    } else {
        match child_named(v.children, parts[0], 0) {
            Some(i) => find_path(v.children[i], parts.drop_first()),
            None => None,
        }
    }
}

/// The value of the first property at or after `i` named `name`.
pub open spec fn prop_named(ps: Seq<PropView>, name: Seq<char>, i: int) -> Option<Seq<u8>>
    decreases ps.len() - i,
{
    if i < 0 || i >= ps.len() {
        None
    } else if ps[i].name == name {
        Some(ps[i].data)
    } else {
        prop_named(ps, name, i + 1)
    }
}

/// A string property's bytes up to its first NUL (all of them when it
/// has none).
pub open spec fn until_nul(d: Seq<u8>) -> Seq<u8> {
    match find_nul(d, 0) {
        Some(e) => d.take(e),
        None => d,
    }
}

/// The string property `prop` of the node at `path`: `None` (outer) when
/// the blob does not parse or the text is not UTF-8, `Some(None)` when
/// the node or the property is missing.
pub open spec fn dtb_string_prop(blob: Seq<u8>, path: Seq<char>, prop: Seq<char>) -> Option<Option<Seq<char>>> {
    match parse_dtb(blob) {
        None => None,
        Some(root) => match find_path(root, path_parts(path)) {
            None => Some(None),
            Some(node) => match prop_named(node.props, prop, 0) {
                None => Some(None),
                Some(d) => match utf8_text(until_nul(d)) {
                    Some(t) => Some(Some(t)),
                    None => None,
                },
            },
        },
    }
}

fn parse_dtb_exec(blob: &[u8]) -> (r: Result<FdtNode, String>)
    ensures
        r matches Ok(n) ==> parse_dtb(blob@) matches Some(v) && node_is(n, v),
        r is Err ==> parse_dtb(blob@) is None,
{
    let magic = match word_at(blob, 0) {
        Some(x) => x,
        None => {
            return Err("DTB slice range out of bounds".to_string());
        },
    };
    let off_st = word_at(blob, 8);
    let off_str = word_at(blob, 12);
    let size_str = word_at(blob, 32);
    let size_st = word_at(blob, 36);
    let (off_st, off_str, size_str, size_st) = match (off_st, off_str, size_str, size_st) {
        (Some(a), Some(b), Some(c), Some(d)) => (a, b, c, d),
        _ => {
            return Err("DTB slice range out of bounds".to_string());
        },
    };
    if magic != FDT_MAGIC {
        return Err("invalid DTB magic".to_string());
    }
    if off_st as u64 + size_st as u64 > blob.len() as u64 || off_str as u64 + size_str as u64
        > blob.len() as u64 {
        return Err("DTB slice range out of bounds".to_string());
    }
    let st = copy_range(blob, off_st as usize, off_st as usize + size_st as usize);
    let strs = copy_range(blob, off_str as usize, off_str as usize + size_str as usize);
    let tok = match word_at(st.as_slice(), 0) {
        Some(t) => t,
        None => {
            return Err("DTB slice range out of bounds".to_string());
        },
    };
    if tok != FDT_BEGIN_NODE {
        return Err("DTB structure does not start with root node".to_string());
    }
    if st.len() <= 4 {
        return Err("DTB string cursor out of range".to_string());
    }
    let (root, _) = parse_node_exec(st.as_slice(), strs.as_slice(), 4)?;
    Ok(root)
}

fn path_segments(path: &str) -> (r: Vec<(usize, usize)>)
    ensures
        r@.len() == path_parts(path@).len(),
        forall|k: int|
            0 <= k < r@.len() ==> #[trigger] r@[k].0 <= r@[k].1 <= path@.len() && path@.subrange(
                r@[k].0 as int,
                r@[k].1 as int,
            ) == path_parts(path@)[k],
{
    let n = path.unicode_len();
    let ghost p = path@;
    let mut segs: Vec<(usize, usize)> = Vec::new();
    let ghost mut done: Seq<Seq<char>> = Seq::empty();
    let mut i: usize = 0;
    let mut start: usize = 0;
    let mut in_seg = false;
    proof {
        assert(p.skip(0) =~= p);
        assert(p.subrange(0, 0) =~= Seq::<char>::empty());
    }
    while i < n
        invariant
            n == p.len(),
            p == path@,
            i <= n,
            start <= i,
            in_seg ==> start < i,
            path_parts(p) == done + path_parts_from(
                p.skip(i as int),
                if in_seg { p.subrange(start as int, i as int) } else { Seq::empty() },
            ),
            segs@.len() == done.len(),
            forall|k: int|
                0 <= k < segs@.len() ==> #[trigger] segs@[k].0 <= segs@[k].1 <= p.len() && p.subrange(
                    segs@[k].0 as int,
                    segs@[k].1 as int,
                ) == done[k],
        decreases n - i,
    {
        let c = path.get_char(i);
        proof {
            let rest = p.skip(i as int);
            assert(rest[0] == c);
            assert(rest.drop_first() =~= p.skip(i + 1));
        }
        if c == '/' {
            if in_seg {
                proof {
                    done = done.push(p.subrange(start as int, i as int));
                }
                segs.push((start, i));
                in_seg = false;
            }
            proof {
                assert(path_parts(p) =~= done + path_parts_from(p.skip(i + 1), Seq::empty()));
            }
        } else {
            if !in_seg {
                start = i;
                in_seg = true;
                proof {
                    assert(Seq::<char>::empty().push(c) =~= p.subrange(i as int, i + 1));
                }
            } else {
                proof {
                    assert(p.subrange(start as int, i as int).push(c) =~= p.subrange(start as int, i + 1));
                }
            }
        }
        i = i + 1;
    }
    proof {
        assert(p.skip(n as int) =~= Seq::<char>::empty());
    }
    if in_seg {
        proof {
            done = done.push(p.subrange(start as int, n as int));
        }
        segs.push((start, n));
    }
    proof {
        assert(done =~= path_parts(p));
    }
    segs
}

fn name_matches(name: &str, path: &str, s: usize, e: usize) -> (r: bool)
    requires
        s <= e <= path@.len(),
    ensures
        r == (name@ == path@.subrange(s as int, e as int)),
{
    let n = name.unicode_len();
    if n != e - s {
        return false;
    }
    let mut k: usize = 0;
    while k < n
        invariant
            n == name@.len(),
            n == e - s,
            s <= e <= path@.len(),
            k <= n,
            forall|t: int| 0 <= t < k ==> name@[t] == path@[s + t],
        decreases n - k,
    {
        if name.get_char(k) != path.get_char(s + k) {
            return false;
        }
        k = k + 1;
    }
    proof {
        assert(name@ =~= path@.subrange(s as int, e as int));
    }
    true
}

fn find_child_index(node: &FdtNode, path: &str, s: usize, e: usize, v: Ghost<NodeView>) -> (r: Option<usize>)
    requires
        node_is(*node, v@),
        s <= e <= path@.len(),
    ensures
        r matches Some(i) ==> child_named(v@.children, path@.subrange(s as int, e as int), 0) == Some(i as int)
            && i < node.children@.len(),
        r is None ==> child_named(v@.children, path@.subrange(s as int, e as int), 0) is None,
{
    let mut i: usize = 0;
    while i < node.children.len()
        invariant
            i <= node.children@.len(),
            node_is(*node, v@),
            s <= e <= path@.len(),
            child_named(v@.children, path@.subrange(s as int, e as int), 0) == child_named(
                v@.children,
                path@.subrange(s as int, e as int),
                i as int,
            ),
        decreases node.children.len() - i,
    {
        proof {
            assert(node_is(node.children@[i as int], v@.children[i as int]));
        }
        if name_matches(node.children[i].name.as_str(), path, s, e) {
            return Some(i);
        }
        i = i + 1;
    }
    None
}

fn find_node<'a>(root: &'a FdtNode, path: &str, v: Ghost<NodeView>) -> (r: Option<&'a FdtNode>)
    requires
        node_is(*root, v@),
    ensures
        r matches Some(n) ==> find_path(v@, path_parts(path@)) matches Some(w) && node_is(*n, w),
        r is None ==> find_path(v@, path_parts(path@)) is None,
{
    let segs = path_segments(path);
    let ghost parts = path_parts(path@);
    let mut current = root;
    let ghost mut cv = v@;
    let mut k: usize = 0;
    proof {
        assert(parts.skip(0) =~= parts);
    }
    while k < segs.len()
        invariant
            k <= segs@.len(),
            segs@.len() == parts.len(),
            parts == path_parts(path@),
            forall|t: int|
                0 <= t < segs@.len() ==> #[trigger] segs@[t].0 <= segs@[t].1 <= path@.len() && path@.subrange(
                    segs@[t].0 as int,
                    segs@[t].1 as int,
                ) == parts[t],
            node_is(*current, cv),
            find_path(v@, parts) == find_path(cv, parts.skip(k as int)),
        decreases segs.len() - k,
    {
        let (s, e) = segs[k];
        let found = find_child_index(current, path, s, e, Ghost(cv));
        proof {
            let sk = parts.skip(k as int);
            assert(sk[0] == parts[k as int]);
            assert(sk.drop_first() =~= parts.skip(k + 1));
        }
        match found {
            None => {
                return None;
            },
            Some(idx) => {
                proof {
                    assert(node_is(current.children@[idx as int], cv.children[idx as int]));
                    cv = cv.children[idx as int];
                }
                current = &current.children[idx];
            },
        }
        k = k + 1;
    }
    proof {
        assert(parts.skip(k as int) =~= Seq::<Seq<char>>::empty());
    }
    Some(current)
}

fn find_prop<'a>(node: &'a FdtNode, name: &str, v: Ghost<NodeView>) -> (r: Option<&'a Vec<u8>>)
    requires
        node_is(*node, v@),
    ensures
        r matches Some(d) ==> prop_named(v@.props, name@, 0) == Some(d@),
        r is None ==> prop_named(v@.props, name@, 0) is None,
{
    let mut i: usize = 0;
    while i < node.props.len()
        invariant
            i <= node.props@.len(),
            node_is(*node, v@),
            prop_named(v@.props, name@, 0) == prop_named(v@.props, name@, i as int),
        decreases node.props.len() - i,
    {
        proof {
            assert(node.props@[i as int].name@ == v@.props[i as int].name);
        }
        if crate::riscv_boot::str_eq(node.props[i].name.as_str(), name) {
            return Some(&node.props[i].data);
        }
        i = i + 1;
    }
    None
}

fn prop_as_string(data: &[u8]) -> (r: Option<String>)
    ensures
        r matches Some(s) ==> utf8_text(until_nul(data@)) == Some(s@),
        r is None ==> utf8_text(until_nul(data@)) is None,
{
    let end = match find_nul_from(data, 0) {
        Some(e) => e,
        None => data.len(),
    };
    let bytes = copy_range(data, 0, end);
    proof {
        assert(data@.subrange(0, end as int) =~= until_nul(data@));
    }
    utf8_to_string(bytes.as_slice())
}

fn string_prop(blob: &[u8], path: &str, prop: &str) -> (r: Result<Option<String>, String>)
    ensures
        match dtb_string_prop(blob@, path@, prop@) {
            None => r is Err,
            Some(None) => r == Ok::<Option<String>, String>(None),
            Some(Some(t)) => r matches Ok(Some(s)) && s@ == t,
        },
{
    let root = parse_dtb_exec(blob)?;
    let ghost v = parse_dtb(blob@)->0;
    let node = match find_node(&root, path, Ghost(v)) {
        Some(n) => n,
        None => {
            return Ok(None);
        },
    };
    let ghost nv = find_path(v, path_parts(path@))->0;
    let data = match find_prop(node, prop, Ghost(nv)) {
        Some(d) => d,
        None => {
            return Ok(None);
        },
    };
    match prop_as_string(data.as_slice()) {
        Some(s) => Ok(Some(s)),
        None => Err("invalid DTB string property".to_string()),
    }
}

/// The `status` property of the node at `path`, if the node and the
/// property exist. Fails when the blob is not a valid device tree or the
/// property is not UTF-8 text.
pub fn dtb_node_status(blob: &[u8], path: &str) -> (r: Result<Option<String>, String>)
    ensures
        match dtb_string_prop(blob@, path@, "status"@) {
            None => r is Err,
            Some(None) => r == Ok::<Option<String>, String>(None),
            Some(Some(t)) => r matches Ok(Some(s)) && s@ == t,
        },
{
    string_prop(blob, path, "status")
}

/// The `bootargs` property of `/chosen`, if the node and the property
/// exist. Fails when the blob is not a valid device tree or the property
/// is not UTF-8 text.
pub fn dtb_chosen_bootargs(blob: &[u8]) -> (r: Result<Option<String>, String>)
    ensures
        match dtb_string_prop(blob@, "/chosen"@, "bootargs"@) {
            None => r is Err,
            Some(None) => r == Ok::<Option<String>, String>(None),
            Some(Some(t)) => r matches Ok(Some(s)) && s@ == t,
        },
{
    string_prop(blob, "/chosen", "bootargs")
}

/// The reservation map from byte `cursor` on: entries up to the empty
/// one that ends it.
pub open spec fn rsv_entries(blob: Seq<u8>, cursor: int) -> Option<Seq<FdtReservation>>
    decreases blob.len() - cursor,
{
    match (be64_at(blob, cursor), be64_at(blob, cursor + 8)) {
        (Some(a), Some(z)) => if a == 0 && z == 0 {
            Some(Seq::empty())
        } else {
            match rsv_entries(blob, cursor + 16) {
                Some(rest) => Some(seq![FdtReservation { address: a, size: z }] + rest),
                None => None,
            }
        },
        _ => None,
    }
}

/// The memory reservations of a device tree, read from the map whose
/// offset the header gives. Fails when the map runs past the blob.
pub fn dtb_mem_reservations(blob: &[u8]) -> (r: Result<Vec<FdtReservation>, String>)
    ensures
        match be32_at(blob@, 16) {
            None => r is Err,
            Some(off) => match rsv_entries(blob@, off as int) {
                None => r is Err,
                Some(es) => r matches Ok(v) && v@ == es,
            },
        },
{
    let off = match word_at(blob, 16) {
        Some(o) => o as usize,
        None => {
            return Err("DTB slice range out of bounds".to_string());
        },
    };
    let mut reservations: Vec<FdtReservation> = Vec::new();
    let mut cursor = off;
    let n = blob.len();
    while true
        invariant
            n == blob@.len(),
            off <= u32::MAX,
            be32_at(blob@, 16) == Some(off as u32),
            rsv_entries(blob@, off as int) matches Some(all) ==> rsv_entries(blob@, cursor as int) matches Some(
                rest,
            ) && all == reservations@ + rest,
            rsv_entries(blob@, off as int) is None ==> rsv_entries(blob@, cursor as int) is None,
        decreases n - cursor,
    {
        if cursor > n || n - cursor < 16 {
            proof {
                assert(rsv_entries(blob@, cursor as int) is None);
            }
            return Err("DTB slice range out of bounds".to_string());
        }
        let address = read_be_u64(blob, cursor);
        let size = read_be_u64(blob, cursor + 8);
        proof {
            assert(be64_at(blob@, cursor as int) == Some(address));
            assert(be64_at(blob@, cursor + 8) == Some(size));
        }
        if address == 0 && size == 0 {
            proof {
                if rsv_entries(blob@, off as int) is Some {
                    assert(reservations@ + Seq::<FdtReservation>::empty() =~= reservations@);
                }
            }
            return Ok(reservations);
        }
        let ghost before = reservations@;
        reservations.push(FdtReservation { address, size });
        proof {
            if let Some(all) = rsv_entries(blob@, off as int) {
                let rest = rsv_entries(blob@, cursor + 16)->0;
                assert(all =~= reservations@ + rest);
            }
        }
        cursor = cursor + 16;
    }
    Err("DTB slice range out of bounds".to_string())
}

/// The part of a node name before its unit address (`@...`).
pub open spec fn name_base(name: Seq<char>) -> Seq<char>
    decreases name.len(),
{
    if name.len() == 0 || name[0] == '@' {
        Seq::empty()
    } else {
        seq![name[0]] + name_base(name.drop_first())
    }
}

/// `cells` (1 or 2) big-endian cells at byte `off` of `d`, as one value.
pub open spec fn cells_value(d: Seq<u8>, off: int, cells: u32) -> u64 {
    if cells == 1 {
        be_value(d, off, 4) as u64
    } else {
        ((be_value(d, off, 4) as u64) << 32u64) | (be_value(d, off + 4, 4) as u64)
    }
}

/// What a node's own `reg` says, for a `memory` node: `Some(None)` ends
/// the search of this subtree without a region (the property is too
/// short), `Some(Some(r))` is a non-empty region, `None` looks further.
pub open spec fn own_memory_region(v: NodeView, ac: u32, sc: u32) -> Option<Option<FdtMemoryRegion>> {
    if name_base(v.name) == "memory"@ {
        match prop_named(v.props, "reg"@, 0) {
            Some(d) => if d.len() < (ac + sc) * 4 {
                Some(None)
            } else {
                let base = cells_value(d, 0, ac);
                let size = cells_value(d, ac * 4, sc);
                if size != 0 {
                    Some(Some(FdtMemoryRegion { base, size }))
                } else {
                    None
                }
            },
            None => None,
        }
    } else {
        None
    }
}

/// The first non-empty memory region in a depth-first walk of `v`.
pub open spec fn memory_region_in(v: NodeView, ac: u32, sc: u32) -> Option<FdtMemoryRegion>
    decreases v, 1int,
{
    match own_memory_region(v, ac, sc) {
        Some(res) => res,
        None => memory_region_among(v.children, ac, sc, 0),
    }
}

/// The first non-empty memory region among `cs[i..]`, in order.
pub open spec fn memory_region_among(cs: Seq<NodeView>, ac: u32, sc: u32, i: int) -> Option<FdtMemoryRegion>
    decreases cs, cs.len() - i,
{
    if i < 0 || i >= cs.len() {
        None
    } else {
        match memory_region_in(cs[i], ac, sc) {
            Some(r) => Some(r),
            None => memory_region_among(cs, ac, sc, i + 1),
        }
    }
}

/// A `u32` property of the root: `None` when it is not a single cell.
pub open spec fn root_cells(v: NodeView, name: Seq<char>, default: u32) -> Option<u32> {
    match prop_named(v.props, name, 0) {
        None => Some(default),
        Some(d) => if d.len() != 4 {
            None
        } else {
            Some(be_value(d, 0, 4) as u32)
        },
    }
}

/// The first memory region of a device tree: `None` when the blob does
/// not parse or its cell sizes are unsupported.
pub open spec fn dtb_memory(blob: Seq<u8>) -> Option<Option<FdtMemoryRegion>> {
    match parse_dtb(blob) {
        None => None,
        Some(root) => match (root_cells(root, "#address-cells"@, 2), root_cells(root, "#size-cells"@, 1)) {
            (Some(ac), Some(sc)) => if 1 <= ac <= 2 && 1 <= sc <= 2 {
                Some(memory_region_in(root, ac, sc))
            } else {
                None
            },
            _ => None,
        },
    }
}

fn is_memory_node(name: &str) -> (r: bool)
    ensures
        r == (name_base(name@) == "memory"@),
{
    let n = name.unicode_len();
    let mut k: usize = 0;
    proof {
        assert(name@.skip(0) =~= name@);
        assert(name@.take(0) =~= Seq::<char>::empty());
    }
    while k < n && name.get_char(k) != '@'
        invariant
            n == name@.len(),
            k <= n,
            name_base(name@) == name@.take(k as int) + name_base(name@.skip(k as int)),
        decreases n - k,
    {
        proof {
            let rest = name@.skip(k as int);
            assert(rest.drop_first() =~= name@.skip(k + 1));
            assert(name@.take(k as int) + seq![name@[k as int]] =~= name@.take(k + 1));
        }
        k = k + 1;
    }
    proof {
        let rest = name@.skip(k as int);
        assert(name_base(rest) =~= Seq::<char>::empty());
        assert(name_base(name@) =~= name@.take(k as int));
    }
    let word = "memory";
    proof {
        reveal_strlit("memory");
    }
    if k != 6 {
        proof {
            assert(name_base(name@).len() == k);
            assert("memory"@.len() == 6);
        }
        return false;
    }
    let mut t: usize = 0;
    while t < 6
        invariant
            t <= 6,
            k == 6,
            n == name@.len(),
            k <= n,
            word@ == "memory"@,
            word@.len() == 6,
            name_base(name@) == name@.take(6),
            forall|j: int| 0 <= j < t ==> name@[j] == word@[j],
        decreases 6 - t,
    {
        if name.get_char(t) != word.get_char(t) {
            proof {
                assert(name@.take(6)[t as int] != word@[t as int]);
            }
            return false;
        }
        t = t + 1;
    }
    proof {
        assert(name@.take(6) =~= word@);
    }
    true
}

fn read_cells(d: &[u8], off: usize, cells: u32) -> (r: u64)
    requires
        1 <= cells <= 2,
        off + 4 * cells <= d@.len(),
    ensures
        r == cells_value(d@, off as int, cells),
{
    if cells == 1 {
        read_be_u32(d, off) as u64
    } else {
        let _n = d.len();
        let hi = read_be_u32(d, off) as u64;
        let lo = read_be_u32(d, off + 4) as u64;
        (hi << 32u64) | lo
    }
}

fn find_first_memory_region(node: &FdtNode, ac: u32, sc: u32, v: Ghost<NodeView>) -> (r: Option<FdtMemoryRegion>)
    requires
        node_is(*node, v@),
        1 <= ac <= 2,
        1 <= sc <= 2,
    ensures
        r == memory_region_in(v@, ac, sc),
    decreases v@, 1int,
{
    if is_memory_node(node.name.as_str()) {
        match find_prop(node, "reg", v) {
            Some(data) => {
                let tuple = (ac + sc) as usize * 4;
                if data.len() < tuple {
                    return None;
                }
                let base = read_cells(data.as_slice(), 0, ac);
                let size = read_cells(data.as_slice(), ac as usize * 4, sc);
                if size != 0 {
                    return Some(FdtMemoryRegion { base, size });
                }
            },
            None => {},
        }
    }
    first_memory_among(node, ac, sc, v, 0)
}

fn first_memory_among(node: &FdtNode, ac: u32, sc: u32, v: Ghost<NodeView>, i: usize) -> (r: Option<FdtMemoryRegion>)
    requires
        node_is(*node, v@),
        1 <= ac <= 2,
        1 <= sc <= 2,
        i <= v@.children.len(),
    ensures
        r == memory_region_among(v@.children, ac, sc, i as int),
    decreases v@.children, v@.children.len() - i,
{
    if i >= node.children.len() {
        return None;
    }
    proof {
        assert(node_is(node.children@[i as int], v@.children[i as int]));
    }
    match find_first_memory_region(&node.children[i], ac, sc, Ghost(v@.children[i as int])) {
        Some(r) => Some(r),
        None => first_memory_among(node, ac, sc, v, i + 1),
    }
}

fn root_u32(node: &FdtNode, name: &str, default: u32, v: Ghost<NodeView>) -> (r: Result<u32, String>)
    requires
        node_is(*node, v@),
    ensures
        r matches Ok(x) ==> root_cells(v@, name@, default) == Some(x),
        r is Err ==> root_cells(v@, name@, default) is None,
{
    match find_prop(node, name, v) {
        None => Ok(default),
        Some(d) => {
            if d.len() != 4 {
                return Err("DTB cell-count property must be a u32".to_string());
            }
            Ok(read_be_u32(d.as_slice(), 0))
        },
    }
}

/// The first non-empty region of a `memory` node, depth first. The cell
/// sizes come from the root (2 address cells and 1 size cell by default)
/// and must each be 1 or 2. Fails when the blob is not a valid device
/// tree or the cell sizes are unsupported.
pub fn dtb_first_memory_region(blob: &[u8]) -> (r: Result<Option<FdtMemoryRegion>, String>)
    ensures
        match dtb_memory(blob@) {
            None => r is Err,
            Some(m) => r == Ok::<Option<FdtMemoryRegion>, String>(m),
        },
{
    let root = parse_dtb_exec(blob)?;
    let ghost v = parse_dtb(blob@)->0;
    let ac = root_u32(&root, "#address-cells", 2, Ghost(v))?;
    let sc = root_u32(&root, "#size-cells", 1, Ghost(v))?;
    if !(1 <= ac && ac <= 2) || !(1 <= sc && sc <= 2) {
        return Err("unsupported DTB memory address or size cells".to_string());
    }
    Ok(find_first_memory_region(&root, ac, sc, Ghost(v)))
}

/// The structure and strings blocks after writing node `v` (its
/// properties, then its children, then END) to blocks `st` and `strs`.
pub open spec fn emit_node(v: NodeView, st: Seq<u8>, strs: Seq<u8>) -> (Seq<u8>, Seq<u8>)
    decreases v, 2int, 0int,
{
    let st1 = st + begin_node_bytes(encode_utf8(v.name));
    let p = emit_props(v.props, st1, strs, 0);
    let c = emit_children(v.children, p.0, p.1, 0);
    (c.0 + be4(FDT_END_NODE), c.1)
}

/// The blocks after writing properties `ps[i..]`; each name is appended
/// to the strings block.
pub open spec fn emit_props(ps: Seq<PropView>, st: Seq<u8>, strs: Seq<u8>, i: int) -> (Seq<u8>, Seq<u8>)
    decreases ps.len() - i,
{
    if i < 0 || i >= ps.len() {
        (st, strs)
    } else {
        emit_props(
            ps,
            st + prop_bytes(strs.len() as u32, ps[i].data),
            strs + encode_utf8(ps[i].name) + seq![0u8],
            i + 1,
        )
    }
}

/// The blocks after writing the subtrees `cs[i..]`.
pub open spec fn emit_children(cs: Seq<NodeView>, st: Seq<u8>, strs: Seq<u8>, i: int) -> (Seq<u8>, Seq<u8>)
    decreases cs, cs.len() - i, 0int,
{
    if i < 0 || i >= cs.len() {
        (st, strs)
    } else {
        let e = emit_node(cs[i], st, strs);
        emit_children(cs, e.0, e.1, i + 1)
    }
}

fn emit_node_exec(b: &mut FdtBuilder, node: &FdtNode, v: Ghost<NodeView>)
    requires
        node_is(*node, v@),
    ensures
        (final(b).structure_view(), final(b).strings_view()) == emit_node(
            v@,
            old(b).structure_view(),
            old(b).strings_view(),
        ),
        final(b).reservations_view() == old(b).reservations_view(),
    decreases v@, 2int, 0int,
{
    b.begin_node(node.name.as_str());
    let mut i: usize = 0;
    let ghost st1 = b.structure_view();
    let ghost s1 = b.strings_view();
    while i < node.props.len()
        invariant
            node_is(*node, v@),
            i <= node.props@.len(),
            emit_props(v@.props, st1, s1, 0) == emit_props(v@.props, b.structure_view(), b.strings_view(), i as int),
            b.reservations_view() == old(b).reservations_view(),
        decreases node.props.len() - i,
    {
        proof {
            assert(node.props@[i as int].name@ == v@.props[i as int].name);
        }
        b.property_bytes(node.props[i].name.as_str(), node.props[i].data.as_slice());
        i = i + 1;
    }
    emit_children_exec(b, node, v, 0);
    b.end_node();
}

fn emit_children_exec(b: &mut FdtBuilder, node: &FdtNode, v: Ghost<NodeView>, i: usize)
    requires
        node_is(*node, v@),
        i <= v@.children.len(),
    ensures
        (final(b).structure_view(), final(b).strings_view()) == emit_children(
            v@.children,
            old(b).structure_view(),
            old(b).strings_view(),
            i as int,
        ),
        final(b).reservations_view() == old(b).reservations_view(),
    decreases v@.children, v@.children.len() - i, 0int,
{
    if i >= node.children.len() {
        return;
    }
    proof {
        assert(node_is(node.children@[i as int], v@.children[i as int]));
    }
    emit_node_exec(b, &node.children[i], Ghost(v@.children[i as int]));
    emit_children_exec(b, node, v, i + 1);
}

/// `v` with property `name` set to `data`: the first such property is
/// replaced, or one is appended.
pub open spec fn with_prop(v: NodeView, name: Seq<char>, data: Seq<u8>) -> NodeView {
    match prop_index(v.props, name, 0) {
        Some(i) => NodeView { props: v.props.update(i, PropView { name, data }), ..v },
        None => NodeView { props: v.props.push(PropView { name, data }), ..v },
    }
}

/// The index of the first property at or after `i` named `name`.
pub open spec fn prop_index(ps: Seq<PropView>, name: Seq<char>, i: int) -> Option<int>
    decreases ps.len() - i,
{
    if i < 0 || i >= ps.len() {
        None
    } else if ps[i].name == name {
        Some(i)
    } else {
        prop_index(ps, name, i + 1)
    }
}

/// `v` with a child named `name`, appended (empty) when missing, and
/// that child's index.
pub open spec fn with_child(v: NodeView, name: Seq<char>) -> (NodeView, int) {
    match child_named(v.children, name, 0) {
        Some(i) => (v, i),
        None => (
            NodeView {
                children: v.children.push(NodeView { name, props: Seq::empty(), children: Seq::empty() }),
                ..v
            },
            v.children.len() as int,
        ),
    }
}

/// `v` with the node at the end of the path `parts` (if any) rewritten by
/// setting property `name` to `data`.
pub open spec fn with_prop_at(v: NodeView, parts: Seq<Seq<char>>, name: Seq<char>, data: Seq<u8>) -> NodeView
    decreases parts.len(),
{
    if parts.len() == 0 {
        with_prop(v, name, data)
    } else {
        match child_named(v.children, parts[0], 0) {
            Some(i) => NodeView {
                children: v.children.update(i, with_prop_at(v.children[i], parts.drop_first(), name, data)),
                ..v
            },
            None => v,
        }
    }
}

fn set_prop(node: &mut FdtNode, name: &str, data: Vec<u8>, v: Ghost<NodeView>)
    requires
        node_is(*old(node), v@),
    ensures
        node_is(*final(node), with_prop(v@, name@, data@)),
{
    let mut i: usize = 0;
    while i < node.props.len()
        invariant
            node_is(*node, v@),
            i <= node.props@.len(),
            prop_index(v@.props, name@, 0) == prop_index(v@.props, name@, i as int),
        decreases node.props.len() - i,
    {
        proof {
            assert(node.props@[i as int].name@ == v@.props[i as int].name);
        }
        if crate::riscv_boot::str_eq(node.props[i].name.as_str(), name) {
            let ghost n0 = *node;
            let ghost dv = data@;
            node.props[i].data = data;
            proof {
                let w = with_prop(v@, name@, dv);
                assert forall|k: int| 0 <= k < w.props.len() implies (#[trigger] node.props@[k]).name@ == w.props[k].name && node.props@[k].data@ == w.props[k].data by {
                    if k != i {
                        assert(node.props@[k] == n0.props@[k]);
                    }
                }
                assert forall|k: int| 0 <= k < w.children.len() implies node_is(#[trigger] node.children@[k], w.children[k]) by {
                    assert(node_is(n0.children@[k], v@.children[k]));
                }
            }
            return;
        }
        i = i + 1;
    }
    let ghost n0 = *node;
    let ghost dv = data@;
    node.props.push(FdtProp { name: name.to_string(), data });
    proof {
        let w = with_prop(v@, name@, dv);
        assert forall|k: int| 0 <= k < w.props.len() implies (#[trigger] node.props@[k]).name@ == w.props[k].name && node.props@[k].data@ == w.props[k].data by {
            if k < v@.props.len() {
                assert(node.props@[k] == n0.props@[k]);
            }
        }
        assert forall|k: int| 0 <= k < w.children.len() implies node_is(#[trigger] node.children@[k], w.children[k]) by {
            assert(node_is(n0.children@[k], v@.children[k]));
        }
    }
}

fn ensure_child(node: &mut FdtNode, name: &str, v: Ghost<NodeView>) -> (idx: usize)
    requires
        node_is(*old(node), v@),
    ensures
        node_is(*final(node), with_child(v@, name@).0),
        idx as int == with_child(v@, name@).1,
        idx < final(node).children@.len(),
{
    let mut i: usize = 0;
    while i < node.children.len()
        invariant
            node_is(*node, v@),
            i <= node.children@.len(),
            child_named(v@.children, name@, 0) == child_named(v@.children, name@, i as int),
        decreases node.children.len() - i,
    {
        proof {
            assert(node_is(node.children@[i as int], v@.children[i as int]));
        }
        if crate::riscv_boot::str_eq(node.children[i].name.as_str(), name) {
            return i;
        }
        i = i + 1;
    }
    let ghost n0 = *node;
    let child = FdtNode { name: name.to_string(), props: Vec::new(), children: Vec::new() };
    proof {
        assert(child.props@ =~= Seq::<FdtProp>::empty());
        assert(child.children@ =~= Seq::<FdtNode>::empty());
        assert(node_is(child, NodeView { name: name@, props: Seq::empty(), children: Seq::empty() }));
    }
    node.children.push(child);
    proof {
        let w = with_child(v@, name@).0;
        assert forall|k: int| 0 <= k < w.props.len() implies (#[trigger] node.props@[k]).name@ == w.props[k].name && node.props@[k].data@ == w.props[k].data by {
            assert(node.props@[k] == n0.props@[k]);
        }
        assert forall|k: int| 0 <= k < w.children.len() implies node_is(#[trigger] node.children@[k], w.children[k]) by {
            if k < v@.children.len() {
                assert(node.children@[k] == n0.children@[k]);
                assert(node_is(n0.children@[k], v@.children[k]));
            }
        }
    }
    node.children.len() - 1
}

fn set_child_prop(node: &mut FdtNode, idx: usize, name: &str, data: Vec<u8>, v: Ghost<NodeView>)
    requires
        node_is(*old(node), v@),
        idx < v@.children.len(),
    ensures
        node_is(
            *final(node),
            NodeView {
                children: v@.children.update(idx as int, with_prop(v@.children[idx as int], name@, data@)),
                ..v@
            },
        ),
{
    let ghost n0 = *node;
    let ghost dv = data@;
    proof {
        assert(node_is(n0.children@[idx as int], v@.children[idx as int]));
    }
    let c = &mut node.children[idx];
    set_prop(c, name, data, Ghost(v@.children[idx as int]));
    proof {
        let w = NodeView {
            children: v@.children.update(idx as int, with_prop(v@.children[idx as int], name@, dv)),
            ..v@
        };
        assert forall|k: int| 0 <= k < w.props.len() implies (#[trigger] node.props@[k]).name@ == w.props[k].name && node.props@[k].data@ == w.props[k].data by {
            assert(node.props@[k] == n0.props@[k]);
        }
        assert forall|k: int| 0 <= k < w.children.len() implies node_is(#[trigger] node.children@[k], w.children[k]) by {
            if k != idx {
                assert(node.children@[k] == n0.children@[k]);
                assert(node_is(n0.children@[k], v@.children[k]));
            }
        }
    }
}

fn string_bytes(value: &str) -> (r: Vec<u8>)
    ensures
        r@ == value.spec_bytes() + seq![0u8],
{
    let v = value.as_bytes();
    let mut data: Vec<u8> = Vec::new();
    let mut i: usize = 0;
    while i < v.len()
        invariant
            i <= v.len(),
            data@ == v@.take(i as int),
        decreases v.len() - i,
    {
        data.push(v[i]);
        i = i + 1;
        proof {
            assert(data@ =~= v@.take(i as int));
        }
    }
    data.push(0);
    proof {
        assert(v@.take(v@.len() as int) =~= v@);
    }
    data
}

fn u64_bytes(value: u64) -> (r: Vec<u8>)
    ensures
        r@ == be8(value),
{
    let mut data: Vec<u8> = Vec::new();
    push_be_u64(&mut data, value);
    proof {
        assert(data@ =~= be8(value));
    }
    data
}

fn find_child_named(node: &FdtNode, name: &str, v: Ghost<NodeView>) -> (r: usize)
    requires
        node_is(*node, v@),
    ensures
        r <= node.children@.len(),
        r < node.children@.len() ==> child_named(v@.children, name@, 0) == Some(r as int),
        r == node.children@.len() ==> child_named(v@.children, name@, 0) is None,
{
    let mut j: usize = 0;
    while j < node.children.len()
        invariant
            node_is(*node, v@),
            j <= node.children@.len(),
            child_named(v@.children, name@, 0) == child_named(v@.children, name@, j as int),
        decreases node.children.len() - j,
    {
        proof {
            assert(node_is(node.children@[j as int], v@.children[j as int]));
        }
        if crate::riscv_boot::str_eq(node.children[j].name.as_str(), name) {
            return j;
        }
        j = j + 1;
    }
    j
}

fn set_grandchild_at(root: &mut FdtNode, i: usize, j: usize, name: &str, data: Vec<u8>, v: Ghost<NodeView>)
    requires
        node_is(*old(root), v@),
        i < v@.children.len(),
        j < v@.children[i as int].children.len(),
    ensures
        node_is(
            *final(root),
            NodeView {
                children: v@.children.update(
                    i as int,
                    NodeView {
                        children: v@.children[i as int].children.update(
                            j as int,
                            with_prop(v@.children[i as int].children[j as int], name@, data@),
                        ),
                        ..v@.children[i as int]
                    },
                ),
                ..v@
            },
        ),
{
    let ghost n0 = *root;
    let ghost dv = data@;
    let ghost cv = v@.children[i as int];
    proof {
        assert(node_is(n0.children@[i as int], cv));
    }
    let c = &mut root.children[i];
    set_child_prop(c, j, name, data, Ghost(cv));
    proof {
        let w = NodeView {
            children: v@.children.update(
                i as int,
                NodeView {
                    children: cv.children.update(j as int, with_prop(cv.children[j as int], name@, dv)),
                    ..cv
                },
            ),
            ..v@
        };
        assert forall|k: int| 0 <= k < w.props.len() implies (#[trigger] root.props@[k]).name@ == w.props[k].name && root.props@[k].data@ == w.props[k].data by {
            assert(root.props@[k] == n0.props@[k]);
        }
        assert forall|k: int| 0 <= k < w.children.len() implies node_is(#[trigger] root.children@[k], w.children[k]) by {
            if k != i {
                assert(root.children@[k] == n0.children@[k]);
                assert(node_is(n0.children@[k], v@.children[k]));
            }
        }
    }
}

fn set_grandchild_prop(root: &mut FdtNode, child: &str, grandchild: &str, name: &str, data: Vec<u8>, v: Ghost<NodeView>)
    requires
        node_is(*old(root), v@),
    ensures
        node_is(*final(root), with_prop_at(v@, seq![child@, grandchild@], name@, data@)),
{
    let ghost parts = seq![child@, grandchild@];
    let ghost dv = data@;
    let ghost n0 = *root;
    let i = find_child_named(root, child, v);
    if i >= root.children.len() {
        proof {
            assert(parts[0] == child@);
        }
        return;
    }
    let ghost cv = v@.children[i as int];
    proof {
        assert(parts[0] == child@);
        assert(parts.drop_first() =~= seq![grandchild@]);
        assert(node_is(n0.children@[i as int], cv));
    }
    let j = find_child_named(&root.children[i], grandchild, Ghost(cv));
    let ghost rest = seq![grandchild@];
    proof {
        assert(rest[0] == grandchild@);
        assert(rest.drop_first() =~= Seq::<Seq<char>>::empty());
    }
    if j < root.children[i].children.len() {
        set_grandchild_at(root, i, j, name, data, Ghost(v@));
        proof {
            assert(with_prop_at(cv.children[j as int], rest.drop_first(), name@, dv) == with_prop(
                cv.children[j as int],
                name@,
                dv,
            ));
            assert(with_prop_at(cv, rest, name@, dv) == NodeView {
                children: cv.children.update(j as int, with_prop(cv.children[j as int], name@, dv)),
                ..cv
            });
            assert(with_prop_at(v@, parts, name@, dv) == NodeView {
                children: v@.children.update(i as int, with_prop_at(cv, rest, name@, dv)),
                ..v@
            });
        }
    } else {
        proof {
            assert(with_prop_at(cv, rest, name@, dv) == cv);
            assert(v@.children.update(i as int, cv) =~= v@.children);
            assert(with_prop_at(v@, parts, name@, dv) == NodeView {
                children: v@.children.update(i as int, with_prop_at(cv, rest, name@, dv)),
                ..v@
            });
            assert(with_prop_at(v@, parts, name@, dv) == v@);
        }
    }
}

/// The K230 device tree after the boot-time edits: `/chosen` (created if
/// missing) gets the command line and the initrd range, and both SD host
/// controllers under `/soc` are disabled.
pub open spec fn k230_fixed_tree(root: NodeView, initrd: Option<(u64, u64)>, cmdline: Option<Seq<u8>>) -> NodeView {
    let (r1, ci) = with_child(root, "chosen"@);
    let chosen = r1.children[ci];
    let c1 = match cmdline {
        Some(t) => with_prop(chosen, "bootargs"@, t + seq![0u8]),
        None => chosen,
    };
    let c2 = match initrd {
        Some((start, end)) => with_prop(
            with_prop(c1, "linux,initrd-start"@, be8(start)),
            "linux,initrd-end"@,
            be8(end),
        ),
        None => c1,
    };
    let r2 = NodeView { children: r1.children.update(ci, c2), ..r1 };
    let off = "disabled".spec_bytes() + seq![0u8];
    let r3 = with_prop_at(r2, seq!["soc"@, "sdhci0@91580000"@], "status"@, off);
    with_prop_at(r3, seq!["soc"@, "sdhci1@91581000"@], "status"@, off)
}

/// The reservations as the writer takes them.
pub open spec fn rsv_pairs(es: Seq<FdtReservation>) -> Seq<(u64, u64)> {
    es.map_values(|r: FdtReservation| (r.address, r.size))
}

/// The blob holding tree `v` with reservations `rsv`.
pub open spec fn tree_blob(rsv: Seq<(u64, u64)>, v: NodeView) -> Seq<u8> {
    let e = emit_node(v, Seq::empty(), Seq::empty());
    fdt_blob(rsv, e.0, e.1)
}

/// Rewrite a K230 device tree for booting: set `/chosen/bootargs` to
/// `cmdline` and the initrd range, and disable both SD host controllers.
/// The reservation map is kept. Fails when the blob is not a valid
/// device tree.
pub fn fixup_k230_dtb(blob: &[u8], initrd: Option<(u64, u64)>, cmdline: Option<&str>) -> (r: Result<Vec<u8>, String>)
    ensures
        match (be32_at(blob@, 16), parse_dtb(blob@)) {
            (Some(off), Some(root)) => match rsv_entries(blob@, off as int) {
                Some(es) => r matches Ok(out) && out@ == tree_blob(
                    rsv_pairs(es),
                    k230_fixed_tree(
                        root,
                        initrd,
                        match cmdline {
                            Some(c) => Some(c.spec_bytes()),
                            None => None,
                        },
                    ),
                ),
                None => r is Err,
            },
            _ => r is Err,
        },
{
    let reservations = dtb_mem_reservations(blob)?;
    let mut root = parse_dtb_exec(blob)?;
    let ghost v = parse_dtb(blob@)->0;
    let ci = ensure_child(&mut root, "chosen", Ghost(v));
    let ghost r1 = with_child(v, "chosen"@).0;
    let ghost mut cur = r1;
    match cmdline {
        Some(c) => {
            let ghost before = cur;
            set_child_prop(&mut root, ci, "bootargs", string_bytes(c), Ghost(before));
            proof {
                cur = NodeView {
                    children: before.children.update(ci as int, with_prop(before.children[ci as int], "bootargs"@, c.spec_bytes() + seq![0u8])),
                    ..before
                };
            }
        },
        None => {},
    }
    match initrd {
        Some((start, end)) => {
            let ghost before = cur;
            set_child_prop(&mut root, ci, "linux,initrd-start", u64_bytes(start), Ghost(before));
            let ghost mid = NodeView {
                children: before.children.update(ci as int, with_prop(before.children[ci as int], "linux,initrd-start"@, be8(start))),
                ..before
            };
            set_child_prop(&mut root, ci, "linux,initrd-end", u64_bytes(end), Ghost(mid));
            proof {
                cur = NodeView {
                    children: mid.children.update(ci as int, with_prop(mid.children[ci as int], "linux,initrd-end"@, be8(end))),
                    ..mid
                };
            }
        },
        None => {},
    }
    proof {
        let t = k230_fixed_tree(
            v,
            initrd,
            match cmdline {
                Some(c) => Some(c.spec_bytes()),
                None => None,
            },
        );
        assert(cur.children =~= r1.children.update(ci as int, cur.children[ci as int]));
    }
    let ghost r2 = cur;
    set_grandchild_prop(&mut root, "soc", "sdhci0@91580000", "status", string_bytes("disabled"), Ghost(r2));
    let ghost r3 = with_prop_at(r2, seq!["soc"@, "sdhci0@91580000"@], "status"@, "disabled".spec_bytes() + seq![0u8]);
    set_grandchild_prop(&mut root, "soc", "sdhci1@91581000", "status", string_bytes("disabled"), Ghost(r3));
    let ghost r4 = with_prop_at(r3, seq!["soc"@, "sdhci1@91581000"@], "status"@, "disabled".spec_bytes() + seq![0u8]);
    let mut builder = FdtBuilder::new();
    let mut k: usize = 0;
    while k < reservations.len()
        invariant
            k <= reservations@.len(),
            builder.structure_view() == Seq::<u8>::empty(),
            builder.strings_view() == Seq::<u8>::empty(),
            builder.reservations_view() == rsv_pairs(reservations@.take(k as int)),
        decreases reservations.len() - k,
    {
        builder.reserve_memory(reservations[k].address, reservations[k].size);
        k = k + 1;
        proof {
            assert(rsv_pairs(reservations@.take(k as int)) =~= rsv_pairs(reservations@.take(k - 1)).push(
                (reservations@[k - 1].address, reservations@[k - 1].size),
            ));
        }
    }
    proof {
        assert(reservations@.take(k as int) =~= reservations@);
    }
    emit_node_exec(&mut builder, &root, Ghost(r4));
    Ok(builder.finish())
}

/// The test tree: root cells, `/chosen/bootargs`, and two enabled SD
/// host controllers under `/soc`.
pub open spec fn fixture_tree(bootargs: Seq<u8>) -> NodeView {
    let two = be4(2);
    let leaf = |name: Seq<char>, props: Seq<PropView>|
        NodeView { name, props, children: Seq::empty() };
    let okay = "okay".spec_bytes() + seq![0u8];
    NodeView {
        name: Seq::empty(),
        props: seq![PropView { name: "#address-cells"@, data: two }, PropView { name: "#size-cells"@, data: two }],
        children: seq![
            leaf("chosen"@, seq![PropView { name: "bootargs"@, data: bootargs + seq![0u8] }]),
            NodeView {
                name: "soc"@,
                props: seq![
                    PropView { name: "#address-cells"@, data: two },
                    PropView { name: "#size-cells"@, data: two },
                    PropView { name: "ranges"@, data: Seq::empty() },
                ],
                children: seq![
                    leaf("sdhci0@91580000"@, seq![PropView { name: "status"@, data: okay }]),
                    leaf("sdhci1@91581000"@, seq![PropView { name: "status"@, data: okay }]),
                ],
            },
        ],
    }
}

fn u32_bytes(value: u32) -> (r: Vec<u8>)
    ensures
        r@ == be4(value),
{
    let mut data: Vec<u8> = Vec::new();
    crate::bytes::push_be_u32(&mut data, value);
    proof {
        assert(data@ =~= be4(value));
    }
    data
}

fn prop(name: &str, data: Vec<u8>) -> (r: FdtProp)
    ensures
        r.name@ == name@,
        r.data@ == data@,
{
    FdtProp { name: name.to_string(), data }
}

fn leaf_node(name: &str, p: FdtProp) -> (r: FdtNode)
    ensures
        r.name@ == name@,
        r.props@ == seq![p],
        r.children@ == Seq::<FdtNode>::empty(),
{
    let mut props: Vec<FdtProp> = Vec::new();
    props.push(p);
    let r = FdtNode { name: name.to_string(), props, children: Vec::new() };
    proof {
        assert(r.props@ =~= seq![p]);
        assert(r.children@ =~= Seq::<FdtNode>::empty());
    }
    r
}

/// A test device tree with root cell sizes, `/chosen/bootargs` set to
/// `bootargs`, two enabled SD host controllers under `/soc`, and the
/// given memory reservations.
pub fn test_fixture_dtb_with_sdhci_nodes_bootargs_and_reservations(
    bootargs: &str,
    reservations: &[FdtReservation],
) -> (r: Vec<u8>)
    ensures
        r@ == tree_blob(rsv_pairs(reservations@), fixture_tree(bootargs.spec_bytes())),
{
    let ghost t = fixture_tree(bootargs.spec_bytes());
    let okay0 = string_bytes("okay");
    let okay1 = string_bytes("okay");
    let sdhci0 = leaf_node("sdhci0@91580000", prop("status", okay0));
    let sdhci1 = leaf_node("sdhci1@91581000", prop("status", okay1));
    let chosen = leaf_node("chosen", prop("bootargs", string_bytes(bootargs)));
    let mut soc_props: Vec<FdtProp> = Vec::new();
    soc_props.push(prop("#address-cells", u32_bytes(2)));
    soc_props.push(prop("#size-cells", u32_bytes(2)));
    soc_props.push(prop("ranges", Vec::new()));
    let mut soc_children: Vec<FdtNode> = Vec::new();
    soc_children.push(sdhci0);
    soc_children.push(sdhci1);
    let soc = FdtNode { name: "soc".to_string(), props: soc_props, children: soc_children };
    let mut root_props: Vec<FdtProp> = Vec::new();
    root_props.push(prop("#address-cells", u32_bytes(2)));
    root_props.push(prop("#size-cells", u32_bytes(2)));
    let mut root_children: Vec<FdtNode> = Vec::new();
    root_children.push(chosen);
    root_children.push(soc);
    let root = FdtNode { name: "".to_string(), props: root_props, children: root_children };
    proof {
        reveal_strlit("");
        assert(""@ =~= Seq::<char>::empty());
        let sc = t.children[1];
        assert(node_is(root.children@[0], t.children[0]));
        assert(node_is(soc.children@[0], sc.children[0]));
        assert(node_is(soc.children@[1], sc.children[1]));
        assert(node_is(root.children@[1], sc));
        assert(node_is(root, t));
    }
    let mut builder = FdtBuilder::new();
    let mut k: usize = 0;
    while k < reservations.len()
        invariant
            k <= reservations@.len(),
            builder.structure_view() == Seq::<u8>::empty(),
            builder.strings_view() == Seq::<u8>::empty(),
            builder.reservations_view() == rsv_pairs(reservations@.take(k as int)),
        decreases reservations.len() - k,
    {
        builder.reserve_memory(reservations[k].address, reservations[k].size);
        k = k + 1;
        proof {
            assert(rsv_pairs(reservations@.take(k as int)) =~= rsv_pairs(reservations@.take(k - 1)).push(
                (reservations@[k - 1].address, reservations@[k - 1].size),
            ));
        }
    }
    proof {
        assert(reservations@.take(k as int) =~= reservations@);
    }
    emit_node_exec(&mut builder, &root, Ghost(t));
    builder.finish()
}

/// The test device tree with `/chosen/bootargs` set to `bootargs` and no
/// reservations.
pub fn test_fixture_dtb_with_sdhci_nodes_and_bootargs(bootargs: &str) -> (r: Vec<u8>)
    ensures
        r@ == tree_blob(Seq::empty(), fixture_tree(bootargs.spec_bytes())),
{
    let none: Vec<FdtReservation> = Vec::new();
    let r = test_fixture_dtb_with_sdhci_nodes_bootargs_and_reservations(bootargs, none.as_slice());
    proof {
        assert(rsv_pairs(none@) =~= Seq::<(u64, u64)>::empty());
    }
    r
}

/// The test device tree with empty boot arguments.
pub fn test_fixture_dtb_with_sdhci_nodes() -> (r: Vec<u8>)
    ensures
        r@ == tree_blob(Seq::empty(), fixture_tree("".spec_bytes())),
{
    test_fixture_dtb_with_sdhci_nodes_and_bootargs("")
}


proof fn lemma_rsvmap_len(r: Seq<(u64, u64)>)
    ensures
        rsvmap_bytes(r).len() == 16 * (r.len() + 1),
    decreases r.len(),
{
    lemma_be_bytes_len(0, 8);
    if r.len() > 0 {
        lemma_rsvmap_len(r.drop_first());
        lemma_be_bytes_len(r[0].0 as nat, 8);
        lemma_be_bytes_len(r[0].1 as nat, 8);
    }
}

proof fn lemma_be8_at(d: Seq<u8>, k: int, v: u64)
    requires
        0 <= k,
        k + 8 <= d.len(),
        forall|j: int| k <= j < k + 8 ==> #[trigger] d[j] == be8(v)[j - k],
    ensures
        be64_at(d, k) == Some(v),
{
    lemma_be_roundtrip(v as nat, 8);
    lemma_be_value_window(d, k, be8(v), 0, 8);
    assert(pow256(8) == 0x1_0000_0000_0000_0000) by {
        reveal_with_fuel(pow256, 9);
    }
    assert((v as nat) % pow256(8) == v as nat);
    assert(be_value(d, k, 8) == v as nat);
}

proof fn lemma_be4_at(d: Seq<u8>, k: int, v: u32)
    requires
        0 <= k,
        k + 4 <= d.len(),
        forall|j: int| k <= j < k + 4 ==> #[trigger] d[j] == be4(v)[j - k],
    ensures
        be32_at(d, k) == Some(v),
{
    lemma_be_roundtrip(v as nat, 4);
    lemma_be_value_window(d, k, be4(v), 0, 4);
    assert(pow256(4) == 0x1_0000_0000) by {
        reveal_with_fuel(pow256, 5);
    }
    assert((v as nat) % pow256(4) == v as nat);
    assert(be_value(d, k, 4) == v as nat);
}

/// The reservations a map holds, read back from its entries.
pub open spec fn rsv_from_pairs(r: Seq<(u64, u64)>) -> Seq<FdtReservation> {
    r.map_values(|p: (u64, u64)| FdtReservation { address: p.0, size: p.1 })
}

proof fn lemma_rsv_entries_at(d: Seq<u8>, k: int, r: Seq<(u64, u64)>)
    requires
        0 <= k,
        k + rsvmap_bytes(r).len() <= d.len(),
        forall|j: int| k <= j < k + rsvmap_bytes(r).len() ==> #[trigger] d[j] == rsvmap_bytes(r)[j - k],
        forall|i: int| 0 <= i < r.len() ==> !((#[trigger] r[i]).0 == 0 && r[i].1 == 0),
    ensures
        rsv_entries(d, k) == Some(rsv_from_pairs(r)),
    decreases r.len(),
{
    lemma_rsvmap_len(r);
    lemma_be_bytes_len(0, 8);
    let m = rsvmap_bytes(r);
    if r.len() == 0 {
        assert(m == be8(0) + be8(0));
        assert forall|j: int| k <= j < k + 8 implies #[trigger] d[j] == be8(0)[j - k] by {
            assert(d[j] == m[j - k]);
        }
        assert forall|j: int| k + 8 <= j < k + 8 + 8 implies #[trigger] d[j] == be8(0)[j - (k + 8)] by {
            assert(d[j] == m[j - k]);
        }
        lemma_be8_at(d, k, 0);
        lemma_be8_at(d, k + 8, 0);
        assert(rsv_from_pairs(r) =~= Seq::<FdtReservation>::empty());
    } else {
        let a = r[0].0;
        let b = r[0].1;
        let t = r.drop_first();
        lemma_be_bytes_len(a as nat, 8);
        lemma_be_bytes_len(b as nat, 8);
        lemma_rsvmap_len(t);
        let mt = rsvmap_bytes(t);
        assert(m == be8(a) + be8(b) + mt);
        assert forall|j: int| k <= j < k + 8 implies #[trigger] d[j] == be8(a)[j - k] by {
            assert(d[j] == m[j - k]);
        }
        assert forall|j: int| k + 8 <= j < k + 8 + 8 implies #[trigger] d[j] == be8(b)[j - (k + 8)] by {
            assert(d[j] == m[j - k]);
        }
        assert forall|j: int| k + 16 <= j < k + 16 + mt.len() implies #[trigger] d[j] == mt[j - (k + 16)] by {
            assert(d[j] == m[j - k]);
        }
        assert forall|i: int| 0 <= i < t.len() implies !((#[trigger] t[i]).0 == 0 && t[i].1 == 0) by {
            assert(t[i] == r[i + 1]);
        }
        lemma_be8_at(d, k, a);
        lemma_be8_at(d, k + 8, b);
        lemma_rsv_entries_at(d, k + 16, t);
        assert(!(r[0].0 == 0 && r[0].1 == 0));
        assert(seq![FdtReservation { address: a, size: b }] + rsv_from_pairs(t) =~= rsv_from_pairs(r));
    }
}

/// Reading the memory reservations of a blob the writer made, with tree
/// `v`, gives back the reservations it was given, provided none of them
/// is the empty entry that ends the map: the header points at the map,
/// and the map holds them in order.
pub proof fn lemma_reservations_round_trip(rs: Seq<FdtReservation>, v: NodeView)
    requires
        forall|i: int| 0 <= i < rs.len() ==> !((#[trigger] rs[i]).address == 0 && rs[i].size == 0),
    ensures
        be32_at(tree_blob(rsv_pairs(rs), v), 16) == Some(40u32),
        rsv_entries(tree_blob(rsv_pairs(rs), v), 40) == Some(rs),
{
    let r = rsv_pairs(rs);
    let e = emit_node(v, Seq::empty(), Seq::empty());
    let st = e.0 + be4(FDT_END);
    let strs = e.1;
    let h = fdt_header(r.len(), st.len(), strs.len());
    let m = rsvmap_bytes(r);
    let d = tree_blob(r, v);
    assert(d == h + m + st + strs);
    lemma_be_bytes_len(FDT_MAGIC as nat, 4);
    lemma_be_bytes_len(40, 4);
    let off_struct = 40 + 16 * (r.len() + 1);
    let total = off_struct + st.len() + strs.len();
    lemma_be_bytes_len(total as u32 as nat, 4);
    lemma_be_bytes_len(off_struct as u32 as nat, 4);
    lemma_be_bytes_len((off_struct + st.len()) as u32 as nat, 4);
    lemma_be_bytes_len(FDT_VERSION as nat, 4);
    lemma_be_bytes_len(FDT_LAST_COMP_VERSION as nat, 4);
    lemma_be_bytes_len(0, 4);
    lemma_be_bytes_len(strs.len() as u32 as nat, 4);
    lemma_be_bytes_len(st.len() as u32 as nat, 4);
    let h4 = be4(FDT_MAGIC) + be4(total as u32) + be4(off_struct as u32) + be4((off_struct + st.len()) as u32);
    assert(h == h4 + be4(40u32) + be4(FDT_VERSION) + be4(FDT_LAST_COMP_VERSION) + be4(0) + be4(
        strs.len() as u32,
    ) + be4(st.len() as u32));
    assert(h4.len() == 16);
    assert(h.len() == 40);
    lemma_rsvmap_len(r);
    assert forall|j: int| 16 <= j < 16 + 4 implies #[trigger] d[j] == be4(40u32)[j - 16] by {
        assert(d[j] == h[j]);
    }
    lemma_be4_at(d, 16, 40u32);
    assert forall|j: int| 40 <= j < 40 + m.len() implies #[trigger] d[j] == m[j - 40] by {
        assert(d[j] == (h + m)[j]);
    }
    assert forall|i: int| 0 <= i < r.len() implies !((#[trigger] r[i]).0 == 0 && r[i].1 == 0) by {
        assert(r[i] == (rs[i].address, rs[i].size));
    }
    lemma_rsv_entries_at(d, 40, r);
    assert(rsv_from_pairs(r) =~= rs);
}


/// `b` begins with `a`.
pub open spec fn starts_with(b: Seq<u8>, a: Seq<u8>) -> bool {
    a.len() <= b.len() && b.take(a.len() as int) == a
}

proof fn lemma_starts_with_trans(c: Seq<u8>, b: Seq<u8>, a: Seq<u8>)
    requires
        starts_with(c, b),
        starts_with(b, a),
    ensures
        starts_with(c, a),
{
    assert(c.take(a.len() as int) =~= a) by {
        assert forall|j: int| 0 <= j < a.len() implies c.take(a.len() as int)[j] == a[j] by {
            assert(c.take(b.len() as int)[j] == b[j]);
            assert(b.take(a.len() as int)[j] == a[j]);
        }
    }
}

proof fn lemma_starts_with_concat(a: Seq<u8>, x: Seq<u8>)
    ensures
        starts_with(a + x, a),
{
    assert((a + x).take(a.len() as int) =~= a);
}

proof fn lemma_starts_with_at(b: Seq<u8>, a: Seq<u8>, j: int)
    requires
        starts_with(b, a),
        0 <= j < a.len(),
    ensures
        b[j] == a[j],
{
    assert(b.take(a.len() as int)[j] == b[j]);
}

proof fn lemma_pad4_len(len: int)
    requires
        len >= 0,
    ensures
        (len + pad4(len).len()) % 4 == 0,
        pad4(len).len() < 4,
{
}

proof fn lemma_prop_bytes_len(nameoff: u32, value: Seq<u8>)
    ensures
        prop_bytes(nameoff, value).len() == 12 + value.len() + pad4(value.len() as int).len(),
        prop_bytes(nameoff, value).len() % 4 == 0,
{
    lemma_be_bytes_len(FDT_PROP as nat, 4);
    lemma_be_bytes_len(value.len() as u32 as nat, 4);
    lemma_be_bytes_len(nameoff as nat, 4);
    lemma_pad4_len(value.len() as int);
}

proof fn lemma_begin_node_len(name: Seq<u8>)
    ensures
        begin_node_bytes(name).len() == 4 + name.len() + 1 + pad4(name.len() as int + 1).len(),
        begin_node_bytes(name).len() % 4 == 0,
{
    lemma_be_bytes_len(FDT_BEGIN_NODE as nat, 4);
    lemma_pad4_len(name.len() as int + 1);
}

proof fn lemma_emit_node_grows(v: NodeView, st: Seq<u8>, strs: Seq<u8>)
    ensures
        starts_with(emit_node(v, st, strs).0, st),
        (emit_node(v, st, strs).0.len() - st.len()) % 4 == 0,
        emit_node(v, st, strs).0.len() >= st.len() + 8,
        starts_with(emit_node(v, st, strs).1, strs),
    decreases v, 2int, 0int,
{
    let st1 = st + begin_node_bytes(encode_utf8(v.name));
    lemma_begin_node_len(encode_utf8(v.name));
    lemma_starts_with_concat(st, begin_node_bytes(encode_utf8(v.name)));
    lemma_emit_props_grows(v.props, st1, strs, 0);
    let p = emit_props(v.props, st1, strs, 0);
    lemma_emit_children_grows(v.children, p.0, p.1, 0);
    let c = emit_children(v.children, p.0, p.1, 0);
    lemma_be_bytes_len(FDT_END_NODE as nat, 4);
    lemma_starts_with_concat(c.0, be4(FDT_END_NODE));
    lemma_starts_with_trans(p.0, st1, st);
    lemma_starts_with_trans(c.0, p.0, st);
    lemma_starts_with_trans(c.0 + be4(FDT_END_NODE), c.0, st);
    lemma_starts_with_trans(c.1, p.1, strs);
}

proof fn lemma_emit_props_grows(ps: Seq<PropView>, st: Seq<u8>, strs: Seq<u8>, i: int)
    ensures
        starts_with(emit_props(ps, st, strs, i).0, st),
        (emit_props(ps, st, strs, i).0.len() - st.len()) % 4 == 0,
        starts_with(emit_props(ps, st, strs, i).1, strs),
    decreases ps.len() - i,
{
    if i < 0 || i >= ps.len() {
        lemma_starts_with_concat(st, Seq::empty());
        assert(st + Seq::<u8>::empty() =~= st);
        lemma_starts_with_concat(strs, Seq::empty());
        assert(strs + Seq::<u8>::empty() =~= strs);
    } else {
        let pb = prop_bytes(strs.len() as u32, ps[i].data);
        let st2 = st + pb;
        let strs2 = strs + encode_utf8(ps[i].name) + seq![0u8];
        lemma_prop_bytes_len(strs.len() as u32, ps[i].data);
        lemma_emit_props_grows(ps, st2, strs2, i + 1);
        lemma_starts_with_concat(st, pb);
        lemma_starts_with_trans(emit_props(ps, st2, strs2, i + 1).0, st2, st);
        lemma_starts_with_concat(strs, encode_utf8(ps[i].name) + seq![0u8]);
        assert(strs + encode_utf8(ps[i].name) + seq![0u8] =~= strs + (encode_utf8(ps[i].name) + seq![0u8]));
        lemma_starts_with_trans(emit_props(ps, st2, strs2, i + 1).1, strs2, strs);
    }
}

proof fn lemma_emit_children_grows(cs: Seq<NodeView>, st: Seq<u8>, strs: Seq<u8>, i: int)
    ensures
        starts_with(emit_children(cs, st, strs, i).0, st),
        (emit_children(cs, st, strs, i).0.len() - st.len()) % 4 == 0,
        starts_with(emit_children(cs, st, strs, i).1, strs),
    decreases cs, cs.len() - i, 0int,
{
    if i < 0 || i >= cs.len() {
        lemma_starts_with_concat(st, Seq::empty());
        assert(st + Seq::<u8>::empty() =~= st);
        lemma_starts_with_concat(strs, Seq::empty());
        assert(strs + Seq::<u8>::empty() =~= strs);
    } else {
        let e = emit_node(cs[i], st, strs);
        lemma_emit_node_grows(cs[i], st, strs);
        lemma_emit_children_grows(cs, e.0, e.1, i + 1);
        lemma_starts_with_trans(emit_children(cs, e.0, e.1, i + 1).0, e.0, st);
        lemma_starts_with_trans(emit_children(cs, e.0, e.1, i + 1).1, e.1, strs);
    }
}


/// No byte of `b` is NUL.
pub open spec fn nul_free(b: Seq<u8>) -> bool {
    forall|i: int| 0 <= i < b.len() ==> b[i] != 0
}

/// A tree the writer can put in a blob so that it reads back: no name
/// holds a NUL byte and every property value's length fits a header
/// word.
pub open spec fn tree_writable(v: NodeView) -> bool
    decreases v,
{
    &&& nul_free(encode_utf8(v.name))
    &&& forall|i: int|
        0 <= i < v.props.len() ==> nul_free(encode_utf8((#[trigger] v.props[i]).name)) && v.props[i].data.len()
            <= u32::MAX
    &&& forall|i: int| 0 <= i < v.children.len() ==> tree_writable(#[trigger] v.children[i])
}

proof fn lemma_find_nul_at(d: Seq<u8>, c: int, n: int)
    requires
        0 <= c,
        0 <= n,
        c + n < d.len(),
        forall|j: int| c <= j < c + n ==> #[trigger] d[j] != 0,
        d[c + n] == 0,
    ensures
        find_nul(d, c) == Some(c + n),
    decreases n,
{
    if n > 0 {
        lemma_find_nul_at(d, c + 1, n - 1);
    }
}

proof fn lemma_cstring_of(d: Seq<u8>, c: int, b: Seq<u8>)
    requires
        0 <= c,
        c + b.len() < d.len(),
        forall|j: int| c <= j < c + b.len() ==> #[trigger] d[j] == b[j - c],
        nul_free(b),
        d[c + b.len()] == 0,
    ensures
        cstring_at(d, c) == Some(b),
{
    assert forall|j: int| c <= j < c + b.len() implies #[trigger] d[j] != 0 by {
        assert(d[j] == b[j - c]);
    }
    lemma_find_nul_at(d, c, b.len() as int);
    assert(d.subrange(c, c + b.len()) =~= b);
}

proof fn lemma_align4_pad(a: int, k: int)
    requires
        a % 4 == 0,
        a >= 0,
        k >= 0,
    ensures
        align4(a + k) == a + k + pad4(k).len(),
{
}

proof fn lemma_text_of(name: Seq<char>)
    ensures
        utf8_text(encode_utf8(name)) == Some(name),
{
    vstd::utf8::encode_utf8_valid_utf8(name);
    vstd::utf8::encode_utf8_decode_utf8(name);
}

proof fn lemma_parse_node_emit(v: NodeView, st: Seq<u8>, strs: Seq<u8>, fs: Seq<u8>, fstr: Seq<u8>)
    requires
        tree_writable(v),
        st.len() % 4 == 0,
        starts_with(fs, emit_node(v, st, strs).0),
        starts_with(fstr, emit_node(v, st, strs).1),
        fstr.len() <= u32::MAX,
    ensures
        parse_node(fs, fstr, st.len() as int + 4) == Some((v, emit_node(v, st, strs).0.len() as int)),
    decreases v, 2int, 0int,
{
    let nb = encode_utf8(v.name);
    let bb = begin_node_bytes(nb);
    let st1 = st + bb;
    lemma_begin_node_len(nb);
    lemma_be_bytes_len(FDT_BEGIN_NODE as nat, 4);
    let p = emit_props(v.props, st1, strs, 0);
    let c = emit_children(v.children, p.0, p.1, 0);
    let e = emit_node(v, st, strs);
    assert(e == (c.0 + be4(FDT_END_NODE), c.1));
    lemma_emit_props_grows(v.props, st1, strs, 0);
    lemma_emit_children_grows(v.children, p.0, p.1, 0);
    lemma_starts_with_concat(c.0, be4(FDT_END_NODE));
    lemma_starts_with_trans(e.0, c.0, p.0);
    lemma_starts_with_trans(e.0, p.0, st1);
    lemma_starts_with_trans(fs, e.0, st1);
    let c0 = st.len() as int + 4;
    assert forall|j: int| c0 <= j < c0 + nb.len() implies #[trigger] fs[j] == nb[j - c0] by {
        lemma_starts_with_at(fs, st1, j);
        assert(st1[j] == bb[j - st.len()]);
    }
    lemma_starts_with_at(fs, st1, c0 + nb.len());
    assert(st1[c0 + nb.len()] == bb[4 + nb.len() as int]);
    lemma_cstring_of(fs, c0, nb);
    lemma_text_of(v.name);
    lemma_align4_pad(c0, nb.len() as int + 1);
    assert(align4(c0 + nb.len() + 1) == st1.len());
    assert(v.props.take(0) =~= Seq::<PropView>::empty());
    assert forall|k: int| 0 <= k < v.props.len() implies nul_free(encode_utf8(#[trigger] v.props[k].name))
        && v.props[k].data.len() <= u32::MAX by {
        assert(nul_free(encode_utf8(v.props[k].name)));
    }
    lemma_items_props(v.props, v.children, 0, st1, strs, fs, fstr, v.name);
}

proof fn lemma_items_props(
    ps: Seq<PropView>,
    cs: Seq<NodeView>,
    i: int,
    st: Seq<u8>,
    strs: Seq<u8>,
    fs: Seq<u8>,
    fstr: Seq<u8>,
    name: Seq<char>,
)
    requires
        0 <= i <= ps.len(),
        st.len() % 4 == 0,
        forall|k: int| 0 <= k < ps.len() ==> nul_free(encode_utf8(#[trigger] ps[k].name)) && ps[k].data.len() <= u32::MAX,
        forall|k: int| 0 <= k < cs.len() ==> tree_writable(#[trigger] cs[k]),
        starts_with(
            fs,
            emit_children(cs, emit_props(ps, st, strs, i).0, emit_props(ps, st, strs, i).1, 0).0 + be4(FDT_END_NODE),
        ),
        starts_with(fstr, emit_children(cs, emit_props(ps, st, strs, i).0, emit_props(ps, st, strs, i).1, 0).1),
        fstr.len() <= u32::MAX,
    ensures
        parse_items(fs, fstr, st.len() as int, NodeView { name, props: ps.take(i), children: Seq::empty() }) == Some(
            (
                NodeView { name, props: ps, children: cs },
                emit_children(cs, emit_props(ps, st, strs, i).0, emit_props(ps, st, strs, i).1, 0).0.len() as int + 4,
            ),
        ),
    decreases cs, 1int, ps.len() - i,
{
    if i == ps.len() {
        assert(ps.take(i) =~= ps);
        assert(cs.take(0) =~= Seq::<NodeView>::empty());
        lemma_items_children(cs, 0, st, strs, fs, fstr, NodeView { name, props: ps, children: Seq::empty() });
    } else {
        let nb = encode_utf8(ps[i].name);
        let data = ps[i].data;
        let pb = prop_bytes(strs.len() as u32, data);
        let st2 = st + pb;
        let strs2 = strs + nb + seq![0u8];
        lemma_prop_bytes_len(strs.len() as u32, data);
        let p = emit_props(ps, st2, strs2, i + 1);
        assert(emit_props(ps, st, strs, i) == p);
        let c = emit_children(cs, p.0, p.1, 0);
        lemma_emit_props_grows(ps, st2, strs2, i + 1);
        lemma_emit_children_grows(cs, p.0, p.1, 0);
        lemma_starts_with_concat(c.0, be4(FDT_END_NODE));
        lemma_starts_with_trans(c.0 + be4(FDT_END_NODE), c.0, p.0);
        lemma_starts_with_trans(fs, c.0 + be4(FDT_END_NODE), p.0);
        lemma_starts_with_trans(fs, p.0, st2);
        lemma_starts_with_trans(fstr, c.1, p.1);
        lemma_starts_with_trans(fstr, p.1, strs2);
        lemma_be_bytes_len(FDT_PROP as nat, 4);
        lemma_be_bytes_len(data.len() as u32 as nat, 4);
        lemma_be_bytes_len(strs.len() as u32 as nat, 4);
        let a = st.len() as int;
        assert(pb == be4(FDT_PROP) + be4(data.len() as u32) + be4(strs.len() as u32) + data + pad4(
            data.len() as int,
        ));
        assert forall|j: int| a <= j < a + 4 implies #[trigger] fs[j] == be4(FDT_PROP)[j - a] by {
            lemma_starts_with_at(fs, st2, j);
        }
        lemma_be4_at(fs, a, FDT_PROP);
        assert forall|j: int| a + 4 <= j < a + 4 + 4 implies #[trigger] fs[j] == be4(data.len() as u32)[j - (a + 4)] by {
            lemma_starts_with_at(fs, st2, j);
        }
        lemma_be4_at(fs, a + 4, data.len() as u32);
        assert forall|j: int| a + 8 <= j < a + 8 + 4 implies #[trigger] fs[j] == be4(strs.len() as u32)[j - (a + 8)] by {
            lemma_starts_with_at(fs, st2, j);
        }
        lemma_be4_at(fs, a + 8, strs.len() as u32);
        let so = strs.len() as int;
        assert forall|j: int| so <= j < so + nb.len() implies #[trigger] fstr[j] == nb[j - so] by {
            lemma_starts_with_at(fstr, strs2, j);
        }
        lemma_starts_with_at(fstr, strs2, so + nb.len());
        assert(nul_free(nb));
        lemma_cstring_of(fstr, so, nb);
        lemma_text_of(ps[i].name);
        let d = a + 12;
        assert(fs.subrange(d, d + data.len()) =~= data) by {
            assert forall|j: int| 0 <= j < data.len() implies fs.subrange(d, d + data.len())[j] == data[j] by {
                lemma_starts_with_at(fs, st2, d + j);
            }
        }
        lemma_align4_pad(d, data.len() as int);
        assert(ps.take(i).push(PropView { name: ps[i].name, data }) =~= ps.take(i + 1));
        lemma_items_props(ps, cs, i + 1, st2, strs2, fs, fstr, name);
    }
}

proof fn lemma_items_children(
    cs: Seq<NodeView>,
    j: int,
    st: Seq<u8>,
    strs: Seq<u8>,
    fs: Seq<u8>,
    fstr: Seq<u8>,
    node: NodeView,
)
    requires
        0 <= j <= cs.len(),
        node.children == cs.take(j),
        st.len() % 4 == 0,
        forall|k: int| 0 <= k < cs.len() ==> tree_writable(#[trigger] cs[k]),
        starts_with(fs, emit_children(cs, st, strs, j).0 + be4(FDT_END_NODE)),
        starts_with(fstr, emit_children(cs, st, strs, j).1),
        fstr.len() <= u32::MAX,
    ensures
        parse_items(fs, fstr, st.len() as int, node) == Some(
            (NodeView { children: cs, ..node }, emit_children(cs, st, strs, j).0.len() as int + 4),
        ),
    decreases cs, 0int, cs.len() - j,
{
    let a = st.len() as int;
    lemma_be_bytes_len(FDT_END_NODE as nat, 4);
    lemma_be_bytes_len(FDT_BEGIN_NODE as nat, 4);
    if j == cs.len() {
        let fin = st + be4(FDT_END_NODE);
        assert forall|k: int| a <= k < a + 4 implies #[trigger] fs[k] == be4(FDT_END_NODE)[k - a] by {
            lemma_starts_with_at(fs, fin, k);
        }
        lemma_be4_at(fs, a, FDT_END_NODE);
        assert(cs.take(j) =~= cs);
    } else {
        let e = emit_node(cs[j], st, strs);
        let c = emit_children(cs, e.0, e.1, j + 1);
        assert(emit_children(cs, st, strs, j) == c);
        lemma_emit_node_grows(cs[j], st, strs);
        lemma_emit_children_grows(cs, e.0, e.1, j + 1);
        lemma_starts_with_concat(c.0, be4(FDT_END_NODE));
        lemma_starts_with_trans(c.0 + be4(FDT_END_NODE), c.0, e.0);
        lemma_starts_with_trans(fs, c.0 + be4(FDT_END_NODE), e.0);
        lemma_starts_with_trans(fstr, c.1, e.1);
        let nb = encode_utf8(cs[j].name);
        let bb = begin_node_bytes(nb);
        lemma_begin_node_len(nb);
        let p = emit_props(cs[j].props, st + bb, strs, 0);
        let cc = emit_children(cs[j].children, p.0, p.1, 0);
        assert(e == (cc.0 + be4(FDT_END_NODE), cc.1));
        lemma_emit_props_grows(cs[j].props, st + bb, strs, 0);
        lemma_emit_children_grows(cs[j].children, p.0, p.1, 0);
        lemma_starts_with_concat(cc.0, be4(FDT_END_NODE));
        lemma_starts_with_trans(e.0, cc.0, p.0);
        lemma_starts_with_trans(e.0, p.0, st + bb);
        lemma_starts_with_trans(fs, e.0, st + bb);
        assert forall|k: int| a <= k < a + 4 implies #[trigger] fs[k] == be4(FDT_BEGIN_NODE)[k - a] by {
            lemma_starts_with_at(fs, st + bb, k);
            assert((st + bb)[k] == bb[k - a]);
        }
        lemma_be4_at(fs, a, FDT_BEGIN_NODE);
        lemma_parse_node_emit(cs[j], st, strs, fs, fstr);
        assert(node.children.push(cs[j]) =~= cs.take(j + 1));
        lemma_items_children(
            cs,
            j + 1,
            e.0,
            e.1,
            fs,
            fstr,
            NodeView { children: node.children.push(cs[j]), ..node },
        );
    }
}


/// Reading a blob the writer made gives back its tree, when the tree is
/// writable (see [`tree_writable`]) and the blob's size fits a header
/// word.
pub proof fn lemma_tree_round_trip(rsv: Seq<(u64, u64)>, v: NodeView)
    requires
        tree_writable(v),
        tree_blob(rsv, v).len() <= u32::MAX,
    ensures
        parse_dtb(tree_blob(rsv, v)) == Some(v),
{
    let e = emit_node(v, Seq::empty(), Seq::empty());
    let st = e.0 + be4(FDT_END);
    let strs = e.1;
    let n = rsv.len();
    let h = fdt_header(n, st.len(), strs.len());
    let m = rsvmap_bytes(rsv);
    let d = tree_blob(rsv, v);
    assert(d == h + m + st + strs);
    lemma_rsvmap_len(rsv);
    lemma_be_bytes_len(FDT_END as nat, 4);
    let off_struct = 40 + 16 * (n + 1);
    let off_strings = off_struct + st.len();
    let total = off_strings + strs.len();
    lemma_be_bytes_len(FDT_MAGIC as nat, 4);
    lemma_be_bytes_len(total as u32 as nat, 4);
    lemma_be_bytes_len(off_struct as u32 as nat, 4);
    lemma_be_bytes_len(off_strings as u32 as nat, 4);
    lemma_be_bytes_len(40, 4);
    lemma_be_bytes_len(FDT_VERSION as nat, 4);
    lemma_be_bytes_len(FDT_LAST_COMP_VERSION as nat, 4);
    lemma_be_bytes_len(0, 4);
    lemma_be_bytes_len(strs.len() as u32 as nat, 4);
    lemma_be_bytes_len(st.len() as u32 as nat, 4);
    let w0 = be4(FDT_MAGIC);
    let w2 = be4(off_struct as u32);
    let w3 = be4(off_strings as u32);
    let w8 = be4(strs.len() as u32);
    let w9 = be4(st.len() as u32);
    let h2 = w0 + be4(total as u32);
    let h3 = h2 + w2;
    let h4 = h3 + w3;
    let h8 = h4 + be4(40u32) + be4(FDT_VERSION) + be4(FDT_LAST_COMP_VERSION) + be4(0);
    let h9 = h8 + w8;
    assert(h == h9 + w9);
    assert(h.len() == 40);
    assert(d.len() == total);
    assert forall|j: int| 0 <= j < 0 + 4 implies #[trigger] d[j] == w0[j - 0] by {
        assert(d[j] == h[j]);
    }
    lemma_be4_at(d, 0, FDT_MAGIC);
    assert forall|j: int| 8 <= j < 8 + 4 implies #[trigger] d[j] == w2[j - 8] by {
        assert(d[j] == h[j]);
    }
    lemma_be4_at(d, 8, off_struct as u32);
    assert forall|j: int| 12 <= j < 12 + 4 implies #[trigger] d[j] == w3[j - 12] by {
        assert(d[j] == h[j]);
    }
    lemma_be4_at(d, 12, off_strings as u32);
    assert forall|j: int| 32 <= j < 32 + 4 implies #[trigger] d[j] == w8[j - 32] by {
        assert(d[j] == h[j]);
    }
    lemma_be4_at(d, 32, strs.len() as u32);
    assert forall|j: int| 36 <= j < 36 + 4 implies #[trigger] d[j] == w9[j - 36] by {
        assert(d[j] == h[j]);
    }
    lemma_be4_at(d, 36, st.len() as u32);
    assert(d.subrange(off_struct as int, (off_struct + st.len()) as int) =~= st);
    assert(d.subrange(off_strings as int, (off_strings + strs.len()) as int) =~= strs);
    let nb = encode_utf8(v.name);
    let bb = begin_node_bytes(nb);
    lemma_begin_node_len(nb);
    lemma_be_bytes_len(FDT_BEGIN_NODE as nat, 4);
    let p = emit_props(v.props, Seq::empty() + bb, Seq::empty(), 0);
    let c = emit_children(v.children, p.0, p.1, 0);
    assert(e == (c.0 + be4(FDT_END_NODE), c.1));
    lemma_emit_props_grows(v.props, Seq::empty() + bb, Seq::empty(), 0);
    lemma_emit_children_grows(v.children, p.0, p.1, 0);
    lemma_starts_with_concat(c.0, be4(FDT_END_NODE));
    lemma_starts_with_concat(e.0, be4(FDT_END));
    lemma_starts_with_trans(e.0, c.0, p.0);
    lemma_starts_with_trans(e.0, p.0, Seq::empty() + bb);
    lemma_starts_with_trans(st, e.0, Seq::empty() + bb);
    assert forall|j: int| 0 <= j < 0 + 4 implies #[trigger] st[j] == be4(FDT_BEGIN_NODE)[j - 0] by {
        lemma_starts_with_at(st, Seq::empty() + bb, j);
        assert((Seq::<u8>::empty() + bb)[j] == bb[j]);
    }
    lemma_be4_at(st, 0, FDT_BEGIN_NODE);
    assert(strs.take(strs.len() as int) =~= strs);
    lemma_parse_node_emit(v, Seq::empty(), Seq::empty(), st, strs);
}


proof fn lemma_ascii_name(s: Seq<char>)
    requires
        forall|i: int| 0 <= i < s.len() ==> '\u{1}' <= #[trigger] s[i] <= '\u{7f}',
    ensures
        nul_free(encode_utf8(s)),
{
    assert(vstd::utf8::is_ascii_chars(s));
    vstd::utf8::is_ascii_chars_encode_utf8(s);
    assert forall|i: int| 0 <= i < encode_utf8(s).len() implies encode_utf8(s)[i] != 0 by {
        assert(s[i] as u8 == encode_utf8(s)[i]);
        assert('\u{1}' <= s[i] <= '\u{7f}');
    }
}

proof fn lemma_fixture_leaves_writable(b: Seq<u8>)
    requires
        nul_free(b),
        b.len() < u32::MAX,
    ensures
        tree_writable(fixture_tree(b).children[0]),
        tree_writable(fixture_tree(b).children[1].children[0]),
        tree_writable(fixture_tree(b).children[1].children[1]),
{
    let t = fixture_tree(b);
    reveal_strlit("chosen");
    reveal_strlit("sdhci0@91580000");
    reveal_strlit("sdhci1@91581000");
    reveal_strlit("bootargs");
    reveal_strlit("status");
    lemma_ascii_name("chosen"@);
    lemma_ascii_name("sdhci0@91580000"@);
    lemma_ascii_name("sdhci1@91581000"@);
    lemma_ascii_name("bootargs"@);
    lemma_ascii_name("status"@);
    reveal_strlit("okay");
    vstd::utf8::is_ascii_chars_encode_utf8("okay"@);
    assert(tree_writable(t.children[0]));
    assert(tree_writable(t.children[1].children[0]));
    assert(tree_writable(t.children[1].children[1]));
}

proof fn lemma_fixture_writable(b: Seq<u8>)
    requires
        nul_free(b),
        b.len() < u32::MAX,
    ensures
        tree_writable(fixture_tree(b)),
{
    let t = fixture_tree(b);
    lemma_fixture_leaves_writable(b);
    reveal_strlit("soc");
    reveal_strlit("#address-cells");
    reveal_strlit("#size-cells");
    reveal_strlit("ranges");
    lemma_ascii_name(Seq::empty());
    lemma_ascii_name("soc"@);
    lemma_ascii_name("#address-cells"@);
    lemma_ascii_name("#size-cells"@);
    lemma_ascii_name("ranges"@);
    lemma_be_bytes_len(2, 4);
    assert(tree_writable(t.children[1]));
    assert(tree_writable(t));
}

proof fn lemma_parts_plain(p: Seq<char>, cur: Seq<char>)
    requires
        forall|i: int| 0 <= i < p.len() ==> #[trigger] p[i] != '/',
        cur.len() + p.len() > 0,
    ensures
        path_parts_from(p, cur) == seq![cur + p],
    decreases p.len(),
{
    if p.len() == 0 {
        assert(cur + p =~= cur);
    } else {
        assert forall|i: int| 0 <= i < p.drop_first().len() implies #[trigger] p.drop_first()[i] != '/' by {
            assert(p.drop_first()[i] == p[i + 1]);
        }
        lemma_parts_plain(p.drop_first(), cur.push(p[0]));
        assert(cur.push(p[0]) + p.drop_first() =~= cur + p);
    }
}

proof fn lemma_chosen_path()
    ensures
        path_parts("/chosen"@) == seq!["chosen"@],
{
    reveal_strlit("/chosen");
    reveal_strlit("chosen");
    let p = "/chosen"@;
    assert(p[0] == '/');
    let q = p.drop_first();
    assert(q =~= "chosen"@);
    lemma_parts_plain(q, Seq::empty());
    assert(Seq::<char>::empty() + q =~= q);
    assert(path_parts_from(p, Seq::empty()) == Seq::<Seq<char>>::empty() + path_parts_from(q, Seq::empty()));
    assert(Seq::<Seq<char>>::empty() + seq![q] =~= seq![q]);
}

/// Reading `/chosen/bootargs` from the test tree gives back the boot
/// arguments it was made with, when they hold no NUL byte and the blob's
/// size fits a header word.
pub proof fn lemma_fixture_bootargs_round_trip(rsv: Seq<(u64, u64)>, bootargs: Seq<char>)
    requires
        nul_free(encode_utf8(bootargs)),
        encode_utf8(bootargs).len() < u32::MAX,
        tree_blob(rsv, fixture_tree(encode_utf8(bootargs))).len() <= u32::MAX,
    ensures
        dtb_string_prop(tree_blob(rsv, fixture_tree(encode_utf8(bootargs))), "/chosen"@, "bootargs"@) == Some(
            Some(bootargs),
        ),
{
    let b = encode_utf8(bootargs);
    let t = fixture_tree(b);
    lemma_fixture_writable(b);
    lemma_tree_round_trip(rsv, t);
    lemma_chosen_path();
    let chosen = t.children[0];
    assert(find_path(t, seq!["chosen"@]) == Some(chosen)) by {
        reveal_strlit("chosen");
        assert(child_named(t.children, "chosen"@, 0) == Some(0int));
        reveal_with_fuel(find_path, 2);
        assert(seq!["chosen"@].drop_first() =~= Seq::<Seq<char>>::empty());
    }
    let d = b + seq![0u8];
    assert(prop_named(chosen.props, "bootargs"@, 0) == Some(d));
    assert forall|j: int| 0 <= j < 0 + b.len() implies #[trigger] d[j] != 0 by {
        assert(d[j] == b[j]);
    }
    lemma_find_nul_at(d, 0, b.len() as int);
    assert(until_nul(d) =~= b);
    lemma_text_of(bootargs);
}

} // verus!
