//! One end of a transfer: the request that opens it and the decisions taken
//! on every packet that arrives. Sockets and files stay with the caller,
//! which performs each action and reports its outcome here.

use vstd::prelude::*;
use vstd::string::StringSliceAdditionalSpecFns;

use crate::error::TftpError;
use crate::packet::{
    ack_bytes, append_bytes, block_of, data_bytes, pack_ack, pack_data, pack_read, pack_write, request_bytes,
    resized, with_block, Packet,
};

verus! {

/// Which way a transfer goes.
#[derive(Debug, Clone, Copy, PartialEq, Eq, Structural)]
pub enum RwMod {
    Read,
    Write,
    /// Neither read nor write.
    Neither,
}

/// How a received packet relates to the one last sent.
#[derive(Debug, Clone, Copy, PartialEq, Eq, Structural)]
pub enum Received {
    /// It answers an earlier packet: the last packet is sent again.
    Stale,
    /// It is the one expected: the transfer moves on.
    Expected,
}

/// The number of data bytes in a full data packet.
pub open spec fn block_size() -> usize {
    512
}

/// The mode name sent in every request: "octet".
pub open spec fn octet_bytes() -> Seq<u8> {
    seq![111u8, 99u8, 116u8, 101u8, 116u8]
}

/// The bytes of `s` up to, not including, its first zero byte.
pub open spec fn until_nul(s: Seq<u8>) -> Seq<u8>
    decreases s.len(),
{
    if s.len() == 0 || s[0] == 0 {
        seq![]
    } else {
        seq![s[0]] + until_nul(s.drop_first())
    }
}

/// Each byte read as the character with the same code point.
pub open spec fn latin1(bytes: Seq<u8>) -> Seq<char> {
    bytes.map_values(|b: u8| b as char)
}

/// The file name of request `p`: from byte 2 up to the first zero byte, each
/// byte a character.
pub open spec fn filename_of(p: Seq<u8>) -> Seq<char> {
    latin1(until_nul(p.skip(2)))
}

/// The mode a server takes for a request with opcode byte `op`.
pub open spec fn server_mode(op: u8) -> RwMod {
    if op == 1 {
        RwMod::Write
    } else if op == 2 {
        RwMod::Read
    } else {
        RwMod::Neither
    }
}

/// `String::push`: appends the character `c` to `s`.
#[verifier::external_body]
fn push_char(s: &mut String, c: char)
    ensures
        final(s)@ == old(s)@.push(c),
{
    s.push(c);
}

proof fn lemma_until_nul_step(s: Seq<u8>, i: int)
    requires
        0 <= i < s.len(),
        s[i] != 0,
    ensures
        until_nul(s.skip(i)) == seq![s[i]] + until_nul(s.skip(i + 1)),
{
    assert(s.skip(i).drop_first() =~= s.skip(i + 1));
}

/// The file name that request `packet` names: the bytes from index 2 up to
/// the first zero byte, or to the end, each read as one character.
pub fn request_filename(packet: &Vec<u8>) -> (name: String)
    requires
        packet@.len() >= 2,
    ensures
        name@ == filename_of(packet@),
{
    let mut name = String::new();
    let mut i: usize = 2;
    while i < packet.len() && packet[i] != 0
        invariant
            2 <= i <= packet@.len(),
            until_nul(packet@.skip(2)) == packet@.subrange(2, i as int) + until_nul(
                packet@.skip(i as int),
            ),
            name@ == latin1(packet@.subrange(2, i as int)),
        decreases packet@.len() - i,
    {
        let c = packet[i];
        push_char(&mut name, c as char);
        proof {
            lemma_until_nul_step(packet@, i as int);
            assert(packet@.subrange(2, i + 1) =~= packet@.subrange(2, i as int).push(c));
            assert(latin1(packet@.subrange(2, i + 1)) =~= latin1(packet@.subrange(2, i as int)).push(
                c as char,
            ));
        }
        i = i + 1;
    }
    proof {
        assert(until_nul(packet@.skip(i as int)) =~= Seq::<u8>::empty());
        assert(packet@.subrange(2, i as int) + Seq::<u8>::empty() =~= packet@.subrange(2, i as int));
    }
    name
}

proof fn lemma_until_nul_prefix(a: Seq<u8>, rest: Seq<u8>)
    requires
        forall|i: int| 0 <= i < a.len() ==> a[i] != 0,
    ensures
        until_nul(a + seq![0u8] + rest) == a,
    decreases a.len(),
{
    let s = a + seq![0u8] + rest;
    if a.len() == 0 {
        assert(s[0] == 0);
        assert(a =~= Seq::<u8>::empty());
    } else {
        assert(s[0] == a[0]);
        assert(s.drop_first() =~= a.drop_first() + seq![0u8] + rest);
        lemma_until_nul_prefix(a.drop_first(), rest);
        assert(a =~= seq![a[0]] + a.drop_first());
    }
}

proof fn lemma_until_nul_shape(s: Seq<u8>)
    ensures
        until_nul(s).len() <= s.len(),
        forall|i: int| 0 <= i < until_nul(s).len() ==> until_nul(s)[i] == s[i] && s[i] != 0,
        until_nul(s).len() == s.len() || s[until_nul(s).len() as int] == 0,
    decreases s.len(),
{
    if s.len() == 0 || s[0] == 0 {
    } else {
        lemma_until_nul_shape(s.drop_first());
        let t = until_nul(s.drop_first());
        assert(until_nul(s) == seq![s[0]] + t);
        assert forall|i: int| 0 <= i < until_nul(s).len() implies until_nul(s)[i] == s[i] && s[i] != 0 by {
            if i > 0 {
                assert(until_nul(s)[i] == t[i - 1]);
                assert(s.drop_first()[i - 1] == s[i]);
            }
        }
    }
}

/// The file name read from a request is made of the request's bytes from
/// index 2 on, up to the first zero byte or the end of the request: each of
/// them, whatever its value, becomes the character whose code point is that
/// byte, and none of them is zero.
pub proof fn lemma_filename_bytes(p: Seq<u8>)
    requires
        p.len() >= 2,
    ensures
        2 + filename_of(p).len() <= p.len(),
        forall|k: int|
            2 <= k < 2 + filename_of(p).len() ==> #[trigger] p[k] != 0 && filename_of(p)[k - 2] as u32
                == p[k] as u32,
        2 + filename_of(p).len() == p.len() || p[2 + filename_of(p).len() as int] == 0,
{
    let s = p.skip(2);
    lemma_until_nul_shape(s);
    let n = until_nul(s);
    assert forall|k: int| 2 <= k < 2 + filename_of(p).len() implies #[trigger] p[k] != 0
        && filename_of(p)[k - 2] as u32 == p[k] as u32 by {
        let i = k - 2;
        assert(n[i] == s[i] && s[i] != 0);
        assert(s[i] == p[k]);
        assert(filename_of(p)[i] == n[i] as char);
        assert((n[i] as char) as u32 == n[i] as u32);
    }
}

/// A server takes every request whose opcode byte is 1 (which is what
/// `pack_read`, `pack_write` and every client send) as a write, every request
/// whose opcode byte is 2 as a read, and refuses every other, whatever the
/// file name and mode.
pub proof fn lemma_request_mode(opcode: u8, filename: Seq<u8>, mode: Seq<u8>)
    ensures
        opcode == 1 ==> server_mode(request_bytes(opcode, filename, mode)[1]) == RwMod::Write,
        opcode == 2 ==> server_mode(request_bytes(opcode, filename, mode)[1]) == RwMod::Read,
        opcode != 1 && opcode != 2 ==> server_mode(request_bytes(opcode, filename, mode)[1])
            == RwMod::Neither,
{
}

/// The file name that a server reads from a request is the name the client
/// put in it, for every ASCII name without a zero character.
pub proof fn lemma_request_filename_roundtrip(opcode: u8, filename: &str, mode: Seq<u8>)
    requires
        vstd::string::is_ascii(filename),
        forall|i: int| 0 <= i < filename@.len() ==> filename@[i] != '\0',
    ensures
        filename_of(request_bytes(opcode, filename.spec_bytes(), mode)) == filename@,
{
    let f = filename.spec_bytes();
    vstd::string::is_ascii_spec_bytes(filename);
    assert(forall|i: int| 0 <= i < f.len() ==> f[i] != 0);
    let p = request_bytes(opcode, f, mode);
    assert(p.skip(2) =~= f + seq![0u8] + (mode + seq![0u8]));
    lemma_until_nul_prefix(f, mode + seq![0u8]);
    assert(latin1(f) =~= filename@);
}

/// After the downloading end stores the data of block `k` (its
/// acknowledgement `ack` moving on by one to the block of `data`), the
/// acknowledgement it sends back is no error packet and carries block `k`:
/// the uploading end that sent block `k` takes it as the one expected.
pub proof fn lemma_ack_answers_data(ack: Seq<u8>, data: Seq<u8>)
    requires
        ack.len() >= 4,
        data.len() >= 4,
        ack[1] == 4,
        block_of(data) == block_of(ack) + 1,
    ensures
        with_block(ack, (block_of(ack) + 1) as u16)[1] != 5,
        block_of(with_block(ack, (block_of(ack) + 1) as u16)) == block_of(data),
{
}

/// How one step of a transfer may change the failure count: it keeps it, or
/// adds one. No step lowers it.
pub open spec fn failures_step(before: u16, after: u16) -> bool {
    after == before || after == before + 1
}

/// Over any run of steps, each of which keeps the failure count or adds one,
/// the count never goes down: a later count is at least any earlier one, so
/// the five-failure budget spans the whole transfer.
pub proof fn lemma_failures_never_decrease(counts: Seq<u16>, i: int, j: int)
    requires
        forall|k: int| 0 <= k < counts.len() - 1 ==> failures_step(#[trigger] counts[k], counts[k + 1]),
        0 <= i <= j < counts.len(),
    ensures
        counts[i] <= counts[j],
    decreases j - i,
{
    if i < j {
        lemma_failures_never_decrease(counts, i, j - 1);
        assert(failures_step(counts[j - 1], counts[j]));
    }
}

/// The data that one end reads from its file into a packet are the data
/// that the other end, having received that packet whole, hands to its file:
/// a packet built as its header followed by `data`, received into a buffer
/// whose first `sent.len()` bytes are that packet, gives back `data` from
/// byte 4 on.
pub proof fn lemma_data_round_trip(packet: Seq<u8>, data: Seq<u8>, sent: Seq<u8>, buffer: Seq<u8>)
    requires
        packet.len() >= 4,
        sent == packet.take(4) + data,
        buffer.len() >= sent.len(),
        buffer.take(sent.len() as int) == sent,
    ensures
        buffer.take(sent.len() as int).skip(4) == data,
{
    assert(sent.skip(4) =~= data);
}

/// The state of one end of a transfer.
#[derive(Debug)]
pub struct Agent {
    /// The number of data bytes in a full data packet.
    pub packlen: usize,
    /// How many receives have failed or brought a stale packet.
    pub failed_tryes_count: u16,
    /// Which way the transfer goes.
    pub rw_mod: RwMod,
    /// The packet this end sends.
    pub packet: Vec<u8>,
    /// The buffer that receives the other end's packets.
    pub response: Vec<u8>,
}

impl Agent {
    /// The client end of a transfer of `filename`: for `Read` it sends a read
    /// request and answers with acknowledgements, for `Write` it sends a write
    /// request and answers with data packets; `Neither` is refused with
    /// `InvalidData`. The caller creates the file for `Read` and opens it for
    /// `Write`.
    pub fn client(rw_mod: RwMod, filename: &str) -> (r: Result<Agent, TftpError>)
        ensures
            rw_mod == RwMod::Neither <==> r is Err,
            r matches Err(e) ==> e is InvalidData,
            r matches Ok(a) ==> {
                &&& a.packlen == block_size()
                &&& a.failed_tryes_count == 0
                &&& a.rw_mod == rw_mod
                &&& a.packet@ == request_bytes(1, filename.spec_bytes(), octet_bytes())
                &&& rw_mod == RwMod::Read ==> a.response@ == ack_bytes(1)
                &&& rw_mod == RwMod::Write ==> a.response@ == data_bytes(1, block_size() as nat)
            },
    {
        let len: usize = 512;
        let mode = "octet";
        proof {
            reveal_strlit("octet");
            vstd::string::is_ascii_spec_bytes(mode);
            assert(mode.spec_bytes() == octet_bytes());
        }
        match rw_mod {
            RwMod::Read => Ok(Agent {
                packlen: len,
                failed_tryes_count: 0,
                rw_mod,
                packet: pack_read(filename, mode),
                response: pack_ack(1),
            }),
            RwMod::Write => Ok(Agent {
                packlen: len,
                failed_tryes_count: 0,
                rw_mod,
                packet: pack_write(filename, mode),
                response: pack_data(1, len),
            }),
            RwMod::Neither => Err(TftpError::InvalidData),
        }
    }

    /// The server end of a transfer opened by request `packet`: returns the
    /// agent, the mode taken from the opcode byte (1 gives `Write`, 2 gives
    /// `Read`, any other value is refused with `InvalidMode`) and the file
    /// name. The request buffer is cut or padded with zeros to 516 bytes; it
    /// becomes the packet sent for `Read` and the receive buffer for `Write`.
    /// The caller opens the file for `Read` and creates it for `Write`.
    pub fn server(packet: &mut Vec<u8>) -> (r: Result<(Agent, RwMod, String), TftpError>)
        requires
            old(packet)@.len() >= 2,
        ensures
            final(packet)@ == resized(old(packet)@, (block_size() + 4) as nat),
            server_mode(old(packet)@[1]) == RwMod::Neither <==> r is Err,
            r matches Err(e) ==> e is InvalidMode,
            r matches Ok((a, m, name)) ==> {
                &&& m == server_mode(old(packet)@[1])
                &&& a.rw_mod == m
                &&& name@ == filename_of(old(packet)@)
                &&& a.packlen == block_size()
                &&& a.failed_tryes_count == 0
                &&& m == RwMod::Read ==> a.packet@ == final(packet)@ && a.response@ == Seq::<u8>::empty()
                &&& m == RwMod::Write ==> a.packet@ == Seq::<u8>::empty() && a.response@ == final(packet)@
            },
    {
        let len: usize = 512;
        let filename = request_filename(packet);
        let mode = match packet.opcode() {
            1 => RwMod::Write,
            2 => RwMod::Read,
            _ => RwMod::Neither,
        };
        packet.resize(len + 4, 0);
        proof {
            assert(packet@ =~= resized(old(packet)@, (block_size() + 4) as nat));
        }
        match mode {
            RwMod::Read => {
                let pout = packet.clone();
                assert(pout@ =~= packet@);
                Ok((
                    Agent { packlen: len, failed_tryes_count: 0, rw_mod: mode, packet: pout, response: Vec::new() },
                    mode,
                    filename,
                ))
            },
            RwMod::Write => {
                let pin = packet.clone();
                assert(pin@ =~= packet@);
                Ok((
                    Agent { packlen: len, failed_tryes_count: 0, rw_mod: mode, packet: Vec::new(), response: pin },
                    mode,
                    filename,
                ))
            },
            RwMod::Neither => Err(TftpError::InvalidMode),
        }
    }

    /// A receive failed: counts the failure and says whether to give up,
    /// which is once five have been counted.
    pub fn recv_failed(&mut self) -> (give_up: bool)
        requires
            old(self).failed_tryes_count < 0xffff,
        ensures
            failures_step(old(self).failed_tryes_count, final(self).failed_tryes_count),
            final(self).failed_tryes_count == old(self).failed_tryes_count + 1,
            give_up == (final(self).failed_tryes_count >= 5),
            final(self).packlen == old(self).packlen,
            final(self).rw_mod == old(self).rw_mod,
            final(self).packet@ == old(self).packet@,
            final(self).response@ == old(self).response@,
    {
        self.failed_tryes_count = self.failed_tryes_count + 1;
        self.failed_tryes_count >= 5
    }

    /// Counts a stale packet; five in all end the transfer with
    /// `TooManyFailTryes`.
    fn stale(&mut self) -> (r: Result<Received, TftpError>)
        requires
            old(self).failed_tryes_count < 0xffff,
        ensures
            final(self).failed_tryes_count == old(self).failed_tryes_count + 1,
            final(self).failed_tryes_count == 5 ==> (r matches Err(TftpError::TooManyFailTryes)),
            final(self).failed_tryes_count != 5 ==> r == Ok::<Received, TftpError>(Received::Stale),
            final(self).packlen == old(self).packlen,
            final(self).rw_mod == old(self).rw_mod,
            final(self).packet@ == old(self).packet@,
            final(self).response@ == old(self).response@,
    {
        self.failed_tryes_count = self.failed_tryes_count + 1;
        if self.failed_tryes_count == 5 {
            Err(TftpError::TooManyFailTryes)
        } else {
            Ok(Received::Stale)
        }
    }

    /// Starts a download: the packet to send becomes the acknowledgement of
    /// block 0.
    pub fn download_begin(&mut self)
        ensures
            failures_step(old(self).failed_tryes_count, final(self).failed_tryes_count),
            final(self).packet@ == ack_bytes(0),
            final(self).packlen == old(self).packlen,
            final(self).failed_tryes_count == old(self).failed_tryes_count,
            final(self).rw_mod == old(self).rw_mod,
            final(self).response@ == old(self).response@,
    {
        self.packet = pack_ack(0);
    }

    /// A datagram of `size` bytes has arrived in the receive buffer during a
    /// download. The buffer is cut to `size` bytes. An error packet (opcode
    /// byte 5) ends the transfer with `InvalidData`; a data packet for the
    /// block after the one last acknowledged is `Expected`, and its data are
    /// to be stored; any other is `Stale` and counted as a failure, the fifth
    /// of which ends the transfer with `TooManyFailTryes`.
    pub fn download_received(&mut self, size: usize) -> (r: Result<Received, TftpError>)
        requires
            4 <= size <= old(self).response@.len(),
            old(self).packet@.len() >= 4,
            old(self).response@[1] != 5 ==> block_of(old(self).packet@) < 0xffff,
            old(self).response@[1] != 5 && block_of(old(self).response@) != block_of(
                old(self).packet@,
            ) + 1 ==> old(self).failed_tryes_count < 0xffff,
        ensures
            failures_step(old(self).failed_tryes_count, final(self).failed_tryes_count),
            final(self).response@ == old(self).response@.take(size as int),
            final(self).packet@ == old(self).packet@,
            final(self).packlen == old(self).packlen,
            final(self).rw_mod == old(self).rw_mod,
            final(self).response@[1] == 5 ==> {
                &&& r matches Err(TftpError::InvalidData)
                &&& final(self).failed_tryes_count == old(self).failed_tryes_count
            },
            final(self).response@[1] != 5 && block_of(final(self).response@) == block_of(
                old(self).packet@,
            ) + 1 ==> {
                &&& r == Ok::<Received, TftpError>(Received::Expected)
                &&& final(self).failed_tryes_count == old(self).failed_tryes_count
            },
            final(self).response@[1] != 5 && block_of(final(self).response@) != block_of(
                old(self).packet@,
            ) + 1 ==> {
                &&& final(self).failed_tryes_count == old(self).failed_tryes_count + 1
                &&& final(self).failed_tryes_count == 5 ==> (r matches Err(TftpError::TooManyFailTryes))
                &&& final(self).failed_tryes_count != 5 ==> r == Ok::<Received, TftpError>(Received::Stale)
            },
    {
        self.response.truncate(size);
        if self.response.opcode() == 5 {
            return Err(TftpError::InvalidData);
        }
        let block = self.packet.block();
        if self.response.block() != block + 1 {
            self.stale()
        } else {
            Ok(Received::Expected)
        }
    }

    /// The data of the received packet, to be written to the file: its bytes
    /// from index 4 on. A buffer shorter than 4 bytes holds no data and gives
    /// `PackError`.
    pub fn data_to_store(&self) -> (r: Result<Vec<u8>, TftpError>)
        ensures
            self.response@.len() < 4 <==> r is Err,
            r matches Err(e) ==> e is PackError,
            r matches Ok(d) ==> d@ == self.response@.skip(4),
    {
        if self.response.len() < 4 {
            return Err(TftpError::PackError);
        }
        let mut d: Vec<u8> = Vec::new();
        let mut i: usize = 4;
        while i < self.response.len()
            invariant
                4 <= i <= self.response@.len(),
                d@ == self.response@.subrange(4, i as int),
            decreases self.response@.len() - i,
        {
            d.push(self.response[i]);
            i = i + 1;
            assert(d@ =~= self.response@.subrange(4, i as int));
        }
        assert(d@ =~= self.response@.skip(4));
        Ok(d)
    }

    /// The data of the receive buffer, from byte 4 on, have been handed to
    /// the file, which took the first `written` of them: the buffer is cut
    /// to its header and those bytes. A buffer shorter than 4 bytes holds no
    /// data and gives `PackError`, unchanged.
    pub fn pack_data_store(&mut self, written: usize) -> (r: Result<(), TftpError>)
        requires
            old(self).response@.len() >= 4 ==> written <= old(self).response@.len() - 4,
        ensures
            failures_step(old(self).failed_tryes_count, final(self).failed_tryes_count),
            old(self).response@.len() < 4 <==> r is Err,
            r matches Err(e) ==> e is PackError && final(self).response@ == old(self).response@,
            r is Ok ==> final(self).response@ == old(self).response@.take(written + 4),
            final(self).packet@ == old(self).packet@,
            final(self).packlen == old(self).packlen,
            final(self).failed_tryes_count == old(self).failed_tryes_count,
            final(self).rw_mod == old(self).rw_mod,
    {
        if self.response.len() < 4 {
            return Err(TftpError::PackError);
        }
        self.response.truncate(written + 4);
        Ok(())
    }

    /// The data of an expected packet of `size` bytes are stored: the
    /// acknowledgement moves on to that block, and the transfer is over when
    /// the packet was shorter than a full one.
    pub fn download_stored(&mut self, size: usize) -> (last: bool)
        requires
            size >= 4,
            old(self).packet@.len() >= 4,
            block_of(old(self).packet@) < 0xffff,
        ensures
            failures_step(old(self).failed_tryes_count, final(self).failed_tryes_count),
            final(self).packet@ == with_block(old(self).packet@, (block_of(old(self).packet@) + 1) as u16),
            last == (size < old(self).packlen + 4),
            final(self).response@ == old(self).response@,
            final(self).packlen == old(self).packlen,
            final(self).failed_tryes_count == old(self).failed_tryes_count,
            final(self).rw_mod == old(self).rw_mod,
    {
        self.packet.block_pp();
        size - 4 < self.packlen
    }

    /// Starts an upload: the packet to send becomes a full data packet for
    /// block 1, with room for `packlen` data bytes after its 4-byte header.
    pub fn upload_begin(&mut self)
        requires
            old(self).packlen <= usize::MAX - 4,
        ensures
            failures_step(old(self).failed_tryes_count, final(self).failed_tryes_count),
            final(self).packet@ == data_bytes(1, (old(self).packlen + 4) as nat),
            final(self).packlen == old(self).packlen,
            final(self).failed_tryes_count == old(self).failed_tryes_count,
            final(self).rw_mod == old(self).rw_mod,
            final(self).response@ == old(self).response@,
    {
        self.packet = pack_data(1, self.packlen + 4);
    }

    /// The bytes `data` read from the file become the packet's data: the
    /// packet is its 4-byte header followed by them. A packet shorter than 4
    /// bytes has no room for data and gives `PackError`, unchanged.
    pub fn pack_data_read(&mut self, data: &[u8]) -> (r: Result<(), TftpError>)
        requires
            old(self).packet@.len() >= 4 ==> data@.len() <= old(self).packet@.len() - 4,
        ensures
            failures_step(old(self).failed_tryes_count, final(self).failed_tryes_count),
            old(self).packet@.len() < 4 <==> r is Err,
            r matches Err(e) ==> e is PackError && final(self).packet@ == old(self).packet@,
            r is Ok ==> final(self).packet@ == old(self).packet@.take(4) + data@,
            final(self).response@ == old(self).response@,
            final(self).packlen == old(self).packlen,
            final(self).failed_tryes_count == old(self).failed_tryes_count,
            final(self).rw_mod == old(self).rw_mod,
    {
        if self.packet.len() < 4 {
            return Err(TftpError::PackError);
        }
        self.packet.truncate(4);
        append_bytes(&mut self.packet, data);
        Ok(())
    }

    /// The packet has been sent during an upload: the transfer is over when
    /// it was shorter than a full data packet.
    pub fn upload_sent(&self) -> (last: bool)
        ensures
            last == (self.packet@.len() < self.packlen + 4),
    {
        self.packet.len() < 4 || self.packet.len() - 4 < self.packlen
    }

    /// An answer has arrived in the receive buffer during an upload. An
    /// error packet (opcode byte 5) ends the transfer with `InvalidData`; an
    /// acknowledgement of the block last sent is `Expected`, and the packet
    /// moves on to the next block, whose data are to be read; any other is
    /// `Stale` and counted as a failure, the fifth of which ends the
    /// transfer with `TooManyFailTryes`.
    pub fn upload_acked(&mut self) -> (r: Result<Received, TftpError>)
        requires
            old(self).response@.len() >= 4,
            old(self).packet@.len() >= 4,
            old(self).response@[1] != 5 && block_of(old(self).response@) != block_of(
                old(self).packet@,
            ) ==> old(self).failed_tryes_count < 0xffff,
            old(self).response@[1] != 5 && block_of(old(self).response@) == block_of(
                old(self).packet@,
            ) ==> block_of(old(self).packet@) < 0xffff,
        ensures
            failures_step(old(self).failed_tryes_count, final(self).failed_tryes_count),
            final(self).response@ == old(self).response@,
            final(self).packlen == old(self).packlen,
            final(self).rw_mod == old(self).rw_mod,
            old(self).response@[1] == 5 ==> {
                &&& r matches Err(TftpError::InvalidData)
                &&& final(self).failed_tryes_count == old(self).failed_tryes_count
                &&& final(self).packet@ == old(self).packet@
            },
            old(self).response@[1] != 5 && block_of(old(self).response@) == block_of(
                old(self).packet@,
            ) ==> {
                &&& r == Ok::<Received, TftpError>(Received::Expected)
                &&& final(self).failed_tryes_count == old(self).failed_tryes_count
                &&& final(self).packet@ == with_block(
                    old(self).packet@,
                    (block_of(old(self).packet@) + 1) as u16,
                )
            },
            old(self).response@[1] != 5 && block_of(old(self).response@) != block_of(
                old(self).packet@,
            ) ==> {
                &&& final(self).failed_tryes_count == old(self).failed_tryes_count + 1
                &&& final(self).failed_tryes_count == 5 ==> (r matches Err(TftpError::TooManyFailTryes))
                &&& final(self).failed_tryes_count != 5 ==> r == Ok::<Received, TftpError>(Received::Stale)
                &&& final(self).packet@ == old(self).packet@
            },
    {
        if self.response.opcode() == 5 {
            return Err(TftpError::InvalidData);
        }
        let block = self.packet.block();
        if self.response.block() != block {
            self.stale()
        } else {
            self.packet.block_pp();
            Ok(Received::Expected)
        }
    }
}

} // verus!
