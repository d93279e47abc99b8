//! The flattened device tree writer of `vm_fdt`, as the library uses it.
//!
//! What a writer holds is described by the tokens of its structure block
//! ([`fdt_contents`]): node names, and property names with their value bytes.
//! The blob that it finally produces is named ([`fdt_blob`]) rather than
//! written out, since it is the standard DTB encoding of those tokens.

use vstd::prelude::*;

verus! {

/// The devicetree writer of `vm_fdt`.
#[verifier::external_type_specification]
#[verifier::external_body]
pub struct ExFdtWriter(vm_fdt::FdtWriter);

/// The handle of an open node of a `vm_fdt` writer.
#[verifier::external_type_specification]
#[verifier::external_body]
pub struct ExFdtWriterNode(vm_fdt::FdtWriterNode);

/// The error type of `vm_fdt`.
#[verifier::external_type_specification]
#[verifier::external_body]
pub struct ExFdtError(vm_fdt::Error);

/// A property value, described by what it holds. A writer holds only its
/// bytes ([`encode_value`]).
pub enum FdtValue {
    /// An empty property.
    Empty,
    /// A NUL-terminated string.
    Str(Seq<char>),
    /// A list of NUL-terminated strings.
    StrList(Seq<Seq<char>>),
    /// One 32-bit big-endian cell.
    U32(u32),
    /// One 64-bit big-endian value.
    U64(u64),
    /// 32-bit big-endian cells.
    U32Array(Seq<u32>),
    /// 64-bit big-endian values.
    U64Array(Seq<u64>),
}

/// One item of a device tree, with its property value described by what it
/// holds ([`encode_item`] gives what a writer holds of it).
pub enum FdtItem {
    /// Opens a node with this name.
    BeginNode(Seq<char>),
    /// A property of the innermost open node.
    Property(Seq<char>, FdtValue),
    /// Closes the innermost open node.
    EndNode,
}

/// One token of the structure block that a writer holds: a property value is
/// only bytes.
pub enum FdtToken {
    /// Opens a node with this name.
    BeginNode(Seq<char>),
    /// A property of the innermost open node: its name and its value bytes.
    Property(Seq<char>, Seq<u8>),
    /// Closes the innermost open node.
    EndNode,
}

/// The big-endian bytes of a 32-bit value.
pub open spec fn be_u32(v: u32) -> Seq<u8> {
    seq![(v >> 24u32) as u8, (v >> 16u32) as u8, (v >> 8u32) as u8, v as u8]
}

/// The big-endian bytes of a 64-bit value.
pub open spec fn be_u64(v: u64) -> Seq<u8> {
    seq![
        (v >> 56u64) as u8,
        (v >> 48u64) as u8,
        (v >> 40u64) as u8,
        (v >> 32u64) as u8,
        (v >> 24u64) as u8,
        (v >> 16u64) as u8,
        (v >> 8u64) as u8,
        v as u8,
    ]
}

/// The UTF-8 bytes of a string followed by a NUL byte.
pub open spec fn cstr_bytes(s: Seq<char>) -> Seq<u8> {
    vstd::utf8::encode_utf8(s).push(0u8)
}

/// The NUL-terminated strings of a list, one after the other.
pub open spec fn cstr_list_bytes(l: Seq<Seq<char>>) -> Seq<u8>
    decreases l.len(),
{
    if l.len() == 0 {
        Seq::empty()
    } else {
        cstr_list_bytes(l.drop_last()) + cstr_bytes(l.last())
    }
}

/// The characters of a list of strings, each counted with its NUL.
pub open spec fn str_list_chars(l: Seq<Seq<char>>) -> int
    decreases l.len(),
{
    if l.len() == 0 {
        0
    } else {
        str_list_chars(l.drop_last()) + l.last().len() + 1
    }
}

/// The big-endian bytes of 32-bit cells, one after the other.
pub open spec fn be_u32_array(c: Seq<u32>) -> Seq<u8>
    decreases c.len(),
{
    if c.len() == 0 {
        Seq::empty()
    } else {
        be_u32_array(c.drop_last()) + be_u32(c.last())
    }
}

/// The big-endian bytes of 64-bit values, one after the other.
pub open spec fn be_u64_array(c: Seq<u64>) -> Seq<u8>
    decreases c.len(),
{
    if c.len() == 0 {
        Seq::empty()
    } else {
        be_u64_array(c.drop_last()) + be_u64(c.last())
    }
}

/// The bytes of a property value.
pub open spec fn encode_value(v: FdtValue) -> Seq<u8> {
    match v {
        FdtValue::Empty => Seq::empty(),
        FdtValue::Str(s) => cstr_bytes(s),
        FdtValue::StrList(l) => cstr_list_bytes(l),
        FdtValue::U32(x) => be_u32(x),
        FdtValue::U64(x) => be_u64(x),
        FdtValue::U32Array(c) => be_u32_array(c),
        FdtValue::U64Array(c) => be_u64_array(c),
    }
}

/// The token that a writer holds of an item.
pub open spec fn encode_item(i: FdtItem) -> FdtToken {
    match i {
        FdtItem::BeginNode(n) => FdtToken::BeginNode(n),
        FdtItem::Property(n, v) => FdtToken::Property(n, encode_value(v)),
        FdtItem::EndNode => FdtToken::EndNode,
    }
}

/// The tokens that a writer holds of items.
pub open spec fn encode_items(s: Seq<FdtItem>) -> Seq<FdtToken> {
    s.map_values(|i: FdtItem| encode_item(i))
}

/// Encoding a concatenation encodes the parts in turn.
pub proof fn lemma_encode_concat(a: Seq<FdtItem>, b: Seq<FdtItem>)
    ensures
        encode_items(a + b) == encode_items(a) + encode_items(b),
{
    assert(encode_items(a + b) =~= encode_items(a) + encode_items(b));
}

/// How one accepted token changes the number of open nodes of a writer and
/// whether the last node token closed a node.
pub open spec fn state_step(st: (int, bool), t: FdtToken) -> (int, bool) {
    match t {
        FdtToken::BeginNode(_) => (st.0 + 1, false),
        FdtToken::EndNode => (st.0 - 1, true),
        FdtToken::Property(_, _) => st,
    }
}

/// The number of open nodes of a writer that holds `t`, and whether its last
/// node token closed a node (the `node_depth` and `node_ended` of `FdtWriter`).
pub open spec fn writer_state(t: Seq<FdtToken>) -> (int, bool)
    decreases t.len(),
{
    if t.len() == 0 {
        (0, false)
    } else {
        state_step(writer_state(t.drop_last()), t.last())
    }
}

/// Appending a token steps the state.
pub broadcast proof fn lemma_writer_state_push(t: Seq<FdtToken>, x: FdtToken)
    ensures
        #[trigger] writer_state(t.push(x)) == state_step(writer_state(t), x),
{
    assert(t.push(x).drop_last() =~= t);
}

/// The bytes that a token carries besides its fixed-size parts: the name of a
/// node (accepted names are ASCII), the value of a property.
pub open spec fn payload_len(x: FdtToken) -> int {
    match x {
        FdtToken::BeginNode(n) => n.len() as int,
        FdtToken::Property(_, v) => v.len() as int,
        FdtToken::EndNode => 0,
    }
}

/// The payload bytes of the tokens of `t`.
pub open spec fn payload_bytes(t: Seq<FdtToken>) -> int
    decreases t.len(),
{
    if t.len() == 0 {
        0
    } else {
        payload_bytes(t.drop_last()) + payload_len(t.last())
    }
}

/// Appending a token adds its payload bytes.
pub broadcast proof fn lemma_payload_bytes_push(t: Seq<FdtToken>, x: FdtToken)
    ensures
        #[trigger] payload_bytes(t.push(x)) == payload_bytes(t) + payload_len(x),
{
    assert(t.push(x).drop_last() =~= t);
}

/// Payloads are never negative in size.
pub proof fn lemma_payload_bytes_nonneg(t: Seq<FdtToken>)
    ensures
        payload_bytes(t) >= 0,
    decreases t.len(),
{
    if t.len() > 0 {
        lemma_payload_bytes_nonneg(t.drop_last());
    }
}

/// An upper bound of the size of the blob of a writer that holds `t`: the
/// header and the memory reservation block (56 bytes) and the end token, at
/// most 48 bytes of token words, padding and property name (accepted property
/// names have at most 31 ASCII characters) per token, and the payloads.
pub open spec fn fdt_size_bound(t: Seq<FdtToken>) -> int {
    60 + 48 * t.len() + payload_bytes(t)
}

/// No writer holds so many tokens that the offset of a new property name in
/// the strings block (at most 32 bytes per property so far) could leave 32
/// bits.
pub open spec fn token_room(t: Seq<FdtToken>, n: int) -> bool {
    t.len() + n <= 0x0800_0000
}

/// A character that `vm_fdt` accepts in a node name besides `@`.
pub open spec fn node_name_char(c: char) -> bool {
    let x = c as int;
    ||| 0x61 <= x <= 0x7a
    ||| 0x41 <= x <= 0x5a
    ||| 0x30 <= x <= 0x39
    ||| c == ',' || c == '.' || c == '_' || c == '+' || c == '-'
}

/// A node name that `vm_fdt` accepts: empty, or a name of at most 31
/// characters that starts with a letter, optionally followed by `@` and a unit
/// address, made of letters, digits and `,._+-`.
pub open spec fn node_name_valid(name: Seq<char>) -> bool {
    name.len() == 0 || {
        &&& (0x61 <= name[0] as int <= 0x7a || 0x41 <= name[0] as int <= 0x5a)
        &&& forall|i: int| 0 <= i < name.len() ==> name[i] == '@' || node_name_char(#[trigger] name[i])
        &&& forall|i: int, j: int|
            0 <= i < j < name.len() && #[trigger] name[i] == '@' ==> #[trigger] name[j] != '@'
        &&& forall|i: int| 0 <= i < name.len() && #[trigger] name[i] == '@' ==> i <= 31
        &&& (forall|i: int| 0 <= i < name.len() ==> #[trigger] name[i] != '@') ==> name.len() <= 31
    }
}

/// A character that `vm_fdt` accepts in a property name.
pub open spec fn property_name_char(c: char) -> bool {
    let x = c as int;
    ||| 0x61 <= x <= 0x7a
    ||| 0x41 <= x <= 0x5a
    ||| 0x30 <= x <= 0x39
    ||| c == ',' || c == '.' || c == '_' || c == '+' || c == '?' || c == '#' || c == '-'
}

/// A property name that `vm_fdt` accepts: 1 to 31 characters out of letters,
/// digits and `,._+?#-`.
pub open spec fn property_name_valid(name: Seq<char>) -> bool {
    &&& 1 <= name.len() <= 31
    &&& forall|i: int| 0 <= i < name.len() ==> property_name_char(#[trigger] name[i])
}

/// A writer that holds `t` accepts a property named `name` now: a node is
/// open and no node was closed since it was opened, the name is valid, and
/// the strings block has room for the name.
pub open spec fn property_accepted(t: Seq<FdtToken>, name: Seq<char>) -> bool {
    &&& writer_state(t).0 >= 1
    &&& !writer_state(t).1
    &&& property_name_valid(name)
    &&& token_room(t, 1)
}

/// The tokens that a writer holds, in order.
pub uninterp spec fn fdt_contents(w: vm_fdt::FdtWriter) -> Seq<FdtToken>;

/// The depth that a node handle was opened at.
pub uninterp spec fn fdt_node_depth(n: vm_fdt::FdtWriterNode) -> nat;

/// Whether the parts of a writer that lie outside its tokens keep the
/// defaults of `FdtWriter::new`: no memory reservation and boot CPU 0.
pub uninterp spec fn fdt_default_header(w: vm_fdt::FdtWriter) -> bool;

/// The device tree blob that a writer with the default header
/// ([`fdt_default_header`]) produces from its tokens.
pub uninterp spec fn fdt_blob(tokens: Seq<FdtToken>) -> Seq<u8>;

/// `vm_fdt::FdtWriter::new`: a writer with nothing written and the default
/// header. Without memory reservations the source has no failing path, so the
/// call succeeds.
#[verifier::external_body]
pub(crate) fn fdt_new() -> (r: Result<vm_fdt::FdtWriter, vm_fdt::Error>)
    ensures
        r is Ok,
        r is Ok ==> fdt_contents(r->Ok_0) == Seq::<FdtToken>::empty(),
        r is Ok ==> fdt_default_header(r->Ok_0),
{
    vm_fdt::FdtWriter::new()
}

/// `vm_fdt::FdtWriter::begin_node`: it succeeds when fewer than 64 nodes are
/// open and the name is valid; then the node is opened one level deeper.
#[verifier::external_body]
pub(crate) fn fdt_begin_node(fdt: &mut vm_fdt::FdtWriter, name: &str) -> (r: Result<
    vm_fdt::FdtWriterNode,
    vm_fdt::Error,
>)
    ensures
        fdt_default_header(*final(fdt)) == fdt_default_header(*old(fdt)),
        writer_state(fdt_contents(*old(fdt))).0 < 64 && node_name_valid(name@) ==> r is Ok,
        r is Ok ==> fdt_contents(*final(fdt)) == fdt_contents(*old(fdt)).push(
            FdtToken::BeginNode(name@),
        ),
        r matches Ok(n) ==> fdt_node_depth(n) == writer_state(fdt_contents(*old(fdt))).0 + 1,
{
    fdt.begin_node(name)
}

/// `vm_fdt::FdtWriter::end_node`: it succeeds when the node is the innermost
/// open one; then the node is closed.
#[verifier::external_body]
pub(crate) fn fdt_end_node(fdt: &mut vm_fdt::FdtWriter, node: vm_fdt::FdtWriterNode) -> (r: Result<
    (),
    vm_fdt::Error,
>)
    ensures
        fdt_default_header(*final(fdt)) == fdt_default_header(*old(fdt)),
        fdt_node_depth(node) == writer_state(fdt_contents(*old(fdt))).0 ==> r is Ok,
        r is Ok ==> fdt_contents(*final(fdt)) == fdt_contents(*old(fdt)).push(FdtToken::EndNode),
{
    fdt.end_node(node)
}

/// `vm_fdt::FdtWriter::property_null`: an empty property.
#[verifier::external_body]
pub(crate) fn fdt_property_null(fdt: &mut vm_fdt::FdtWriter, name: &str) -> (r: Result<
    (),
    vm_fdt::Error,
>)
    ensures
        fdt_default_header(*final(fdt)) == fdt_default_header(*old(fdt)),
        property_accepted(fdt_contents(*old(fdt)), name@) ==> r is Ok,
        r is Ok ==> fdt_contents(*final(fdt)) == fdt_contents(*old(fdt)).push(
            FdtToken::Property(name@, Seq::empty()),
        ),
{
    fdt.property_null(name)
}

/// `vm_fdt::FdtWriter::property_string`: the string and a NUL. A NUL inside
/// the string is refused.
#[verifier::external_body]
pub(crate) fn fdt_property_string(fdt: &mut vm_fdt::FdtWriter, name: &str, val: &str) -> (r: Result<
    (),
    vm_fdt::Error,
>)
    ensures
        fdt_default_header(*final(fdt)) == fdt_default_header(*old(fdt)),
        property_accepted(fdt_contents(*old(fdt)), name@) && !val@.contains('\0') && val@.len()
            < 0x4000_0000 ==> r is Ok,
        val@.contains('\0') ==> r is Err,
        r is Ok ==> fdt_contents(*final(fdt)) == fdt_contents(*old(fdt)).push(
            FdtToken::Property(name@, cstr_bytes(val@)),
        ),
{
    fdt.property_string(name, val)
}

/// `vm_fdt::FdtWriter::property_string_list`: each string and a NUL, in
/// order. A NUL inside a string is refused.
#[verifier::external_body]
pub(crate) fn fdt_property_string_list(
    fdt: &mut vm_fdt::FdtWriter,
    name: &str,
    values: Vec<String>,
) -> (r: Result<(), vm_fdt::Error>)
    ensures
        fdt_default_header(*final(fdt)) == fdt_default_header(*old(fdt)),
        property_accepted(fdt_contents(*old(fdt)), name@) && (forall|i: int|
            0 <= i < values@.len() ==> !(#[trigger] values@[i])@.contains('\0')) && 4
            * str_list_chars(values@.map_values(|s: String| s@)) < 0xffff_ffff ==> r is Ok,
        r is Ok ==> fdt_contents(*final(fdt)) == fdt_contents(*old(fdt)).push(
            FdtToken::Property(name@, cstr_list_bytes(values@.map_values(|s: String| s@))),
        ),
{
    fdt.property_string_list(name, values)
}

/// `vm_fdt::FdtWriter::property_u32`: one big-endian cell.
#[verifier::external_body]
pub(crate) fn fdt_property_u32(fdt: &mut vm_fdt::FdtWriter, name: &str, val: u32) -> (r: Result<
    (),
    vm_fdt::Error,
>)
    ensures
        fdt_default_header(*final(fdt)) == fdt_default_header(*old(fdt)),
        property_accepted(fdt_contents(*old(fdt)), name@) ==> r is Ok,
        r is Ok ==> fdt_contents(*final(fdt)) == fdt_contents(*old(fdt)).push(
            FdtToken::Property(name@, be_u32(val)),
        ),
{
    fdt.property_u32(name, val)
}

/// `vm_fdt::FdtWriter::property_u64`: one big-endian 64-bit value.
#[verifier::external_body]
pub(crate) fn fdt_property_u64(fdt: &mut vm_fdt::FdtWriter, name: &str, val: u64) -> (r: Result<
    (),
    vm_fdt::Error,
>)
    ensures
        fdt_default_header(*final(fdt)) == fdt_default_header(*old(fdt)),
        property_accepted(fdt_contents(*old(fdt)), name@) ==> r is Ok,
        r is Ok ==> fdt_contents(*final(fdt)) == fdt_contents(*old(fdt)).push(
            FdtToken::Property(name@, be_u64(val)),
        ),
{
    fdt.property_u64(name, val)
}

/// `vm_fdt::FdtWriter::property_array_u32`: the big-endian cells, in order.
#[verifier::external_body]
pub(crate) fn fdt_property_array_u32(fdt: &mut vm_fdt::FdtWriter, name: &str, cells: &[u32]) -> (r:
    Result<(), vm_fdt::Error>)
    ensures
        fdt_default_header(*final(fdt)) == fdt_default_header(*old(fdt)),
        property_accepted(fdt_contents(*old(fdt)), name@) && cells@.len() < 0x4000_0000 ==> r is Ok,
        r is Ok ==> fdt_contents(*final(fdt)) == fdt_contents(*old(fdt)).push(
            FdtToken::Property(name@, be_u32_array(cells@)),
        ),
{
    fdt.property_array_u32(name, cells)
}

/// `vm_fdt::FdtWriter::property_array_u64`: the big-endian values, in order.
#[verifier::external_body]
pub(crate) fn fdt_property_array_u64(fdt: &mut vm_fdt::FdtWriter, name: &str, cells: &[u64]) -> (r:
    Result<(), vm_fdt::Error>)
    ensures
        fdt_default_header(*final(fdt)) == fdt_default_header(*old(fdt)),
        property_accepted(fdt_contents(*old(fdt)), name@) && cells@.len() < 0x2000_0000 ==> r is Ok,
        r is Ok ==> fdt_contents(*final(fdt)) == fdt_contents(*old(fdt)).push(
            FdtToken::Property(name@, be_u64_array(cells@)),
        ),
{
    fdt.property_array_u64(name, cells)
}

/// `vm_fdt::FdtWriter::finish`: for a writer with the default header, it
/// succeeds when every node is closed and the blob fits in 32-bit sizes, and
/// the blob encodes the tokens written. Nothing is stated of other writers.
#[verifier::external_body]
pub(crate) fn fdt_finish(fdt: vm_fdt::FdtWriter) -> (r: Result<Vec<u8>, vm_fdt::Error>)
    ensures
        fdt_default_header(fdt) && writer_state(fdt_contents(fdt)).0 == 0 && fdt_size_bound(
            fdt_contents(fdt),
        ) <= 0xffff_ffff ==> r is Ok,
        fdt_default_header(fdt) ==> (r matches Ok(b) ==> b@ == fdt_blob(fdt_contents(fdt))),
{
    fdt.finish()
}

/// The lower-case hexadecimal digit of `d` (`0 <= d < 16`).
pub open spec fn hex_digit(d: int) -> char {
    if d < 10 {
        (('0' as int) + d) as char
    } else {
        (('a' as int) + d - 10) as char
    }
}

/// The lower-case hexadecimal representation of `v`, without prefix or
/// leading zeros.
pub open spec fn spec_hex(v: nat) -> Seq<char>
    decreases v,
{
    if v < 16 {
        seq![hex_digit(v as int)]
    } else {
        spec_hex(v / 16).push(hex_digit((v % 16) as int))
    }
}

} // verus!
