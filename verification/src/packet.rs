//! Packets as byte vectors: building requests, data and acknowledgements, and
//! reading and updating the fields of a packet in place.

use vstd::prelude::*;
use vstd::string::StringSliceAdditionalSpecFns;

verus! {

/// The 16-bit value `v` with its two bytes exchanged.
pub open spec fn swap_bytes(v: u16) -> u16 {
    ((v % 256) * 256 + v / 256) as u16
}

/// The two bytes of `v` in network (big-endian) order.
pub open spec fn be_bytes(v: u16) -> Seq<u8> {
    seq![(v / 256) as u8, (v % 256) as u8]
}

/// The 16-bit value whose network-order bytes are `hi`, `lo`.
pub open spec fn be_value(hi: u8, lo: u8) -> u16 {
    (hi * 256 + lo) as u16
}

/// A read or write request: opcode, file name, a zero byte, mode, a zero byte.
pub open spec fn request_bytes(opcode: u8, filename: Seq<u8>, mode: Seq<u8>) -> Seq<u8> {
    seq![0u8, opcode] + filename + seq![0u8] + mode + seq![0u8]
}

/// `s` cut to, or padded with zero bytes up to, length `len`.
pub open spec fn resized(s: Seq<u8>, len: nat) -> Seq<u8> {
    if len <= s.len() {
        s.take(len as int)
    } else {
        s + Seq::new((len - s.len()) as nat, |i: int| 0u8)
    }
}

/// The header of a data packet for `block`.
pub open spec fn data_header(block: u16) -> Seq<u8> {
    seq![0u8, 3u8] + be_bytes(block)
}

/// A data packet for `block` of `size` bytes in all: its header, then zeros.
pub open spec fn data_bytes(block: u16, size: nat) -> Seq<u8> {
    resized(data_header(block), size)
}

/// An acknowledgement of `block`.
pub open spec fn ack_bytes(block: u16) -> Seq<u8> {
    seq![0u8, 4u8] + be_bytes(block)
}

/// The opcode of packet `p`: its first two bytes in network order.
pub open spec fn type_of(p: Seq<u8>) -> u16 {
    be_value(p[0], p[1])
}

/// The block number of packet `p`: its bytes 2 and 3 in network order.
pub open spec fn block_of(p: Seq<u8>) -> u16 {
    be_value(p[2], p[3])
}

/// Packet `p` with its block number set to `block`.
pub open spec fn with_block(p: Seq<u8>, block: u16) -> Seq<u8> {
    p.update(2, be_bytes(block)[0]).update(3, be_bytes(block)[1])
}

proof fn lemma_u16_bytes(x: u16)
    ensures
        x as u8 == x % 256,
        (x >> 8) as u8 == x / 256,
        x % 256 <= 255,
        x / 256 <= 255,
{
    assert(x as u8 == x % 256) by (bit_vector);
    assert((x >> 8) as u8 == x / 256) by (bit_vector);
}

/// Host to network byte order for a 16-bit value on a little-endian host:
/// the two bytes trade places.
pub fn htons(val: u16) -> (r: u16)
    ensures
        r == swap_bytes(val),
{
    let o1 = (val >> 8) as u8;
    let o0 = val as u8;
    let r = (o0 as u16) << 8 | (o1 as u16);
    assert(r == (val % 256) * 256 + val / 256) by (bit_vector)
        requires
            o1 == (val >> 8) as u8,
            o0 == val as u8,
            r == (o0 as u16) << 8 | (o1 as u16),
    ;
    r
}

pub(crate) fn append_bytes(v: &mut Vec<u8>, bytes: &[u8])
    ensures
        final(v)@ == old(v)@ + bytes@,
{
    let mut i: usize = 0;
    while i < bytes.len()
        invariant
            i <= bytes@.len(),
            v@ == old(v)@ + bytes@.take(i as int),
        decreases bytes@.len() - i,
    {
        v.push(bytes[i]);
        i = i + 1;
        assert(bytes@.take(i as int) == bytes@.take(i - 1) + seq![bytes@[i - 1]]);
    }
    assert(bytes@.take(i as int) == bytes@);
}

fn pack_request(opcode: u8, filename: &str, mode: &str) -> (v: Vec<u8>)
    ensures
        v@ == request_bytes(opcode, filename.spec_bytes(), mode.spec_bytes()),
{
    let mut v = Vec::new();
    v.push(0);
    v.push(opcode);
    append_bytes(&mut v, filename.as_bytes());
    v.push(0);
    append_bytes(&mut v, mode.as_bytes());
    v.push(0);
    v
}

/// A read request for `filename` in transfer mode `mode`: opcode 1, the
/// file name's bytes, a zero byte, the mode's bytes, a zero byte.
pub fn pack_read(filename: &str, mode: &str) -> (v: Vec<u8>)
    ensures
        v@ == request_bytes(1, filename.spec_bytes(), mode.spec_bytes()),
{
    pack_request(1, filename, mode)
}

/// A write request for `filename` in transfer mode `mode`. It carries
/// opcode 1, as a read request does; the rest is laid out as in a read
/// request.
pub fn pack_write(filename: &str, mode: &str) -> (v: Vec<u8>)
    ensures
        v@ == request_bytes(1, filename.spec_bytes(), mode.spec_bytes()),
{
    pack_request(1, filename, mode)
}

/// A data packet of `size` bytes for `block`: opcode 3 and the block number
/// in network order, then zeros; for `size` under 4 the header is cut short.
pub fn pack_data(block: u16, size: usize) -> (v: Vec<u8>)
    ensures
        v@ == data_bytes(block, size as nat),
{
    let mut v = Vec::with_capacity(size);
    let hblock = htons(block);
    proof {
        lemma_u16_bytes(hblock);
    }
    v.push(0);
    v.push(3);
    v.push(hblock as u8);
    v.push((hblock >> 8) as u8);
    assert(v@ == data_header(block));
    v.resize(size, 0);
    assert(v@ == data_bytes(block, size as nat));
    v
}

/// An acknowledgement of `block`: opcode 4 and the block number in network
/// order.
pub fn pack_ack(block: u16) -> (v: Vec<u8>)
    ensures
        v@ == ack_bytes(block),
{
    let mut v = Vec::new();
    let hblock = htons(block);
    proof {
        lemma_u16_bytes(hblock);
    }
    v.push(0);
    v.push(4);
    v.push(hblock as u8);
    v.push((hblock >> 8) as u8);
    assert(v@ == ack_bytes(block));
    v
}

/// Converting a 16-bit value to network order twice gives it back.
pub proof fn lemma_htons_involution(v: u16)
    ensures
        swap_bytes(swap_bytes(v)) == v,
{
}

/// Network byte order puts the high byte first: a value is 256 times its
/// first byte plus its second, and converting to network order exchanges a
/// value's two bytes.
pub proof fn lemma_network_order(v: u16, hi: u8, lo: u8)
    ensures
        swap_bytes(v) as int == (v as int % 256) * 256 + v as int / 256,
        be_bytes(v).len() == 2,
        be_bytes(v)[0] as int == v as int / 256,
        be_bytes(v)[1] as int == v as int % 256,
        be_value(hi, lo) as int == hi as int * 256 + lo as int,
{
}

/// The opcode of any packet of at least two bytes is its bytes 0 and 1
/// taken high byte first, and the block number of any packet of at least four
/// bytes is its bytes 2 and 3 taken high byte first, whatever follows.
pub proof fn lemma_field_reads(p: Seq<u8>)
    ensures
        p.len() >= 2 ==> type_of(p) as int == p[0] as int * 256 + p[1] as int,
        p.len() >= 4 ==> block_of(p) as int == p[2] as int * 256 + p[3] as int,
{
}

/// A request is laid out as: a zero byte, the opcode, the file name, a zero
/// byte, the mode, a zero byte. So the mode stands right after the zero byte
/// that ends the name, and the request ends with one zero byte.
pub proof fn lemma_request_layout(opcode: u8, filename: Seq<u8>, mode: Seq<u8>)
    ensures
        request_bytes(opcode, filename, mode).len() == filename.len() + mode.len() + 4int,
        request_bytes(opcode, filename, mode)[0] == 0,
        request_bytes(opcode, filename, mode)[1] == opcode,
        request_bytes(opcode, filename, mode).subrange(2, filename.len() + 2int) == filename,
        request_bytes(opcode, filename, mode)[filename.len() + 2int] == 0,
        request_bytes(opcode, filename, mode).subrange(
            filename.len() + 3int,
            filename.len() + mode.len() + 3int,
        ) == mode,
        request_bytes(opcode, filename, mode).subrange(
            filename.len() + 3int,
            filename.len() + mode.len() + 4int,
        ) == mode + seq![0u8],
        request_bytes(opcode, filename, mode)[filename.len() + mode.len() + 3int] == 0,
{
    let r = request_bytes(opcode, filename, mode);
    let a = filename.len() as int;
    let b = mode.len() as int;
    assert(r.subrange(2, a + 2) =~= filename);
    assert(r.subrange(a + 3, a + b + 3) =~= mode);
    assert(r.subrange(a + 3, a + b + 4) =~= mode + seq![0u8]);
}

/// Resizing to `len` gives exactly `len` bytes: the bytes of `s` as far as
/// they reach, then zeros.
pub proof fn lemma_resized(s: Seq<u8>, len: nat)
    ensures
        resized(s, len).len() == len,
        forall|i: int| 0 <= i < len && i < s.len() ==> #[trigger] resized(s, len)[i] == s[i],
        forall|i: int| s.len() <= i < len ==> #[trigger] resized(s, len)[i] == 0,
{
}

/// A request carries its opcode in its first two bytes.
pub proof fn lemma_request_fields(opcode: u8, filename: Seq<u8>, mode: Seq<u8>)
    ensures
        request_bytes(opcode, filename, mode).len() == filename.len() + mode.len() + 4,
        type_of(request_bytes(opcode, filename, mode)) == opcode,
        request_bytes(opcode, filename, mode)[1] == opcode,
{
}

/// An acknowledgement of `block` is four bytes long, has opcode 4, and its
/// block number reads back as `block`.
pub proof fn lemma_ack_fields(block: u16)
    ensures
        ack_bytes(block) == seq![0u8, 4u8, (block / 256) as u8, (block % 256) as u8],
        ack_bytes(block)[0] == 0,
        ack_bytes(block)[2] as int == block as int / 256,
        ack_bytes(block)[3] as int == block as int % 256,
        ack_bytes(block).len() == 4,
        type_of(ack_bytes(block)) == 4,
        ack_bytes(block)[1] == 4,
        block_of(ack_bytes(block)) == block,
{
}

/// A data packet of fewer than 4 bytes for `block` is the start of the
/// header 0, 3, high byte, low byte.
pub proof fn lemma_data_short(block: u16, size: nat)
    requires
        size < 4,
    ensures
        data_bytes(block, size) == seq![0u8, 3u8, (block / 256) as u8, (block % 256) as u8].take(
            size as int,
        ),
{
    assert(data_header(block) =~= seq![0u8, 3u8, (block / 256) as u8, (block % 256) as u8]);
}

/// A data packet of at least 4 bytes for `block` is `size` bytes long, starts
/// with the bytes 0, 3 and the block number high byte first, has opcode 3,
/// its block number reads back as `block`, and its data are zeros.
pub proof fn lemma_data_fields(block: u16, size: nat)
    requires
        size >= 4,
    ensures
        data_bytes(block, size)[0] == 0,
        data_bytes(block, size)[2] as int == block as int / 256,
        data_bytes(block, size)[3] as int == block as int % 256,
        data_bytes(block, size).len() == size,
        type_of(data_bytes(block, size)) == 3,
        data_bytes(block, size)[1] == 3,
        block_of(data_bytes(block, size)) == block,
        forall|i: int| 4 <= i < size ==> data_bytes(block, size)[i] == 0,
{
    let p = data_bytes(block, size);
    if size == 4 {
        assert(p =~= data_header(block));
    } else {
        assert(p[2] == data_header(block)[2]);
        assert(p[3] == data_header(block)[3]);
    }
}

/// Setting the block number of a packet of at least 4 bytes makes it read
/// back as the number set, and leaves the length and every other byte as
/// they were.
pub proof fn lemma_with_block(p: Seq<u8>, block: u16)
    requires
        p.len() >= 4,
    ensures
        with_block(p, block).len() == p.len(),
        with_block(p, block)[2] as int == block as int / 256,
        with_block(p, block)[3] as int == block as int % 256,
        block_of(with_block(p, block)) == block,
        type_of(with_block(p, block)) == type_of(p),
        forall|i: int| 0 <= i < p.len() && i != 2 && i != 3 ==> with_block(p, block)[i] == p[i],
{
}

/// Reading and updating the fields of a packet held in a buffer.
pub trait Packet {
    /// The bytes of the packet.
    spec fn bytes(&self) -> Seq<u8>;

    /// The block number, read from bytes 2 and 3 in network order.
    fn block(&self) -> (r: u16)
        requires
            self.bytes().len() >= 4,
        ensures
            r == block_of(self.bytes()),
    ;

    /// The low byte of the opcode: byte 1.
    fn opcode(&self) -> (r: u8)
        requires
            self.bytes().len() >= 2,
        ensures
            r == self.bytes()[1],
    ;

    /// Adds one to the block number in place; nothing else changes.
    fn block_pp(&mut self)
        requires
            old(self).bytes().len() >= 4,
            block_of(old(self).bytes()) < 0xffff,
        ensures
            final(self).bytes() == with_block(old(self).bytes(), (block_of(old(self).bytes()) + 1) as u16),
    ;

    /// The opcode, read from bytes 0 and 1 in network order.
    #[allow(non_snake_case)]
    fn typeRW(&self) -> (r: u16)
        requires
            self.bytes().len() >= 2,
        ensures
            r == type_of(self.bytes()),
    ;
}

impl Packet for Vec<u8> {
    open spec fn bytes(&self) -> Seq<u8> {
        self@
    }

    fn block(&self) -> (r: u16) {
        let native = (self[3] as u16) * 256 + self[2] as u16;
        htons(native)
    }

    fn opcode(&self) -> (r: u8) {
        self[1]
    }

    fn block_pp(&mut self) {
        let next = self.block() + 1;
        let stored = htons(next);
        proof {
            lemma_u16_bytes(stored);
        }
        self.set(2, stored as u8);
        self.set(3, (stored >> 8) as u8);
    }

    #[allow(non_snake_case)]
    fn typeRW(&self) -> (r: u16) {
        let native = (self[1] as u16) * 256 + self[0] as u16;
        htons(native)
    }
}

} // verus!
