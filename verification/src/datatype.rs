//! Cursor-based binary codec: a growable writer and a positioned reader
//! over byte buffers, with endianness-aware integer fields plus the
//! protocol's composite encodings (magic marker, length-prefixed string,
//! obfuscated socket address).

use vstd::prelude::*;

use vstd::utf8::decode_utf8;
use vstd::utf8::encode_utf8;
use vstd::utf8::valid_utf8;

use crate::error::RaknetError;

verus! {

/// Byte order of a multi-byte integer field; always chosen explicitly.
#[derive(Clone, Copy, Debug, PartialEq, Eq)]
pub enum Endian {
    Big,
    Little,
}

/// The 16-byte marker carried by every offline message.
pub open spec fn spec_magic() -> Seq<u8> {
    seq![
        0x00u8, 0xffu8, 0xffu8, 0x00u8, 0xfeu8, 0xfeu8, 0xfeu8, 0xfeu8, 0xfdu8, 0xfdu8, 0xfdu8,
        0xfdu8, 0x12u8, 0x34u8, 0x56u8, 0x78u8,
    ]
}

/// Wire bytes of a 16-bit integer in the given byte order.
pub open spec fn spec_u16_bytes(n: Endian, v: u16) -> Seq<u8> {
    match n {
        Endian::Big => seq![(v >> 8) as u8, v as u8],
        Endian::Little => seq![v as u8, (v >> 8) as u8],
    }
}

/// The 16-bit integer standing at offset `i` of `s` in the given byte order.
pub open spec fn spec_u16_at(n: Endian, s: Seq<u8>, i: int) -> u16 {
    match n {
        Endian::Big => ((s[i] as u16) << 8) | (s[i + 1] as u16),
        Endian::Little => ((s[i + 1] as u16) << 8) | (s[i] as u16),
    }
}

/// Wire bytes of a 24-bit integer (the low three bytes of `v`).
pub open spec fn spec_u24_bytes(n: Endian, v: u32) -> Seq<u8> {
    match n {
        Endian::Big => seq![(v >> 16) as u8, (v >> 8) as u8, v as u8],
        Endian::Little => seq![v as u8, (v >> 8) as u8, (v >> 16) as u8],
    }
}

/// The 24-bit integer standing at offset `i` of `s`, zero-extended to 32 bits.
pub open spec fn spec_u24_at(n: Endian, s: Seq<u8>, i: int) -> u32 {
    match n {
        Endian::Big => ((s[i] as u32) << 16) | ((s[i + 1] as u32) << 8) | (s[i + 2] as u32),
        Endian::Little => ((s[i + 2] as u32) << 16) | ((s[i + 1] as u32) << 8) | (s[i] as u32),
    }
}

/// Wire bytes of a 32-bit integer in the given byte order.
pub open spec fn spec_u32_bytes(n: Endian, v: u32) -> Seq<u8> {
    match n {
        Endian::Big => seq![(v >> 24) as u8, (v >> 16) as u8, (v >> 8) as u8, v as u8],
        Endian::Little => seq![v as u8, (v >> 8) as u8, (v >> 16) as u8, (v >> 24) as u8],
    }
}

/// The 32-bit integer standing at offset `i` of `s` in the given byte order.
pub open spec fn spec_u32_at(n: Endian, s: Seq<u8>, i: int) -> u32 {
    match n {
        Endian::Big => ((s[i] as u32) << 24) | ((s[i + 1] as u32) << 16) | ((s[i + 2] as u32)
            << 8) | (s[i + 3] as u32),
        Endian::Little => ((s[i + 3] as u32) << 24) | ((s[i + 2] as u32) << 16) | ((s[i + 1]
            as u32) << 8) | (s[i] as u32),
    }
}

/// Wire bytes of a 64-bit integer in the given byte order.
pub open spec fn spec_u64_bytes(n: Endian, v: u64) -> Seq<u8> {
    match n {
        Endian::Big => seq![
            (v >> 56) as u8,
            (v >> 48) as u8,
            (v >> 40) as u8,
            (v >> 32) as u8,
            (v >> 24) as u8,
            (v >> 16) as u8,
            (v >> 8) as u8,
            v as u8,
        ],
        Endian::Little => seq![
            v as u8,
            (v >> 8) as u8,
            (v >> 16) as u8,
            (v >> 24) as u8,
            (v >> 32) as u8,
            (v >> 40) as u8,
            (v >> 48) as u8,
            (v >> 56) as u8,
        ],
    }
}

/// The 64-bit integer standing at offset `i` of `s` in the given byte order.
pub open spec fn spec_u64_at(n: Endian, s: Seq<u8>, i: int) -> u64 {
    match n {
        Endian::Big => ((s[i] as u64) << 56) | ((s[i + 1] as u64) << 48) | ((s[i + 2] as u64)
            << 40) | ((s[i + 3] as u64) << 32) | ((s[i + 4] as u64) << 24) | ((s[i + 5] as u64)
            << 16) | ((s[i + 6] as u64) << 8) | (s[i + 7] as u64),
        Endian::Little => ((s[i + 7] as u64) << 56) | ((s[i + 6] as u64) << 48) | ((s[i + 5]
            as u64) << 40) | ((s[i + 4] as u64) << 32) | ((s[i + 3] as u64) << 24) | ((s[i + 2]
            as u64) << 16) | ((s[i + 1] as u64) << 8) | (s[i] as u64),
    }
}

/// Wire bytes of a signed 16-bit integer (two's complement).
pub open spec fn spec_i16_bytes(n: Endian, v: i16) -> Seq<u8> {
    spec_u16_bytes(n, v as u16)
}

/// Wire bytes of a signed 32-bit integer (two's complement).
pub open spec fn spec_i32_bytes(n: Endian, v: i32) -> Seq<u8> {
    spec_u32_bytes(n, v as u32)
}

/// Wire bytes of a signed 64-bit integer (two's complement).
pub open spec fn spec_i64_bytes(n: Endian, v: i64) -> Seq<u8> {
    spec_u64_bytes(n, v as u64)
}

/// The signed 64-bit integer standing at offset `i` of `s`.
pub open spec fn spec_i64_at(n: Endian, s: Seq<u8>, i: int) -> i64 {
    spec_u64_at(n, s, i) as i64
}

/// Append-only wire buffer; `bytes()` is everything written so far.
pub struct RaknetWriter {
    buf: Vec<u8>,
}

impl RaknetWriter {
    /// The bytes accumulated so far, oldest first.
    pub closed spec fn bytes(self) -> Seq<u8> {
        self.buf@
    }

    /// An empty writer.
    pub fn new() -> (w: Self)
        ensures
            w.bytes() == Seq::<u8>::empty(),
    {
        let w = RaknetWriter { buf: Vec::new() };
        proof {
            assert(w.buf@ =~= Seq::<u8>::empty());
        }
        w
    }

    /// Appends a raw byte slice verbatim.
    pub fn write(&mut self, v: &[u8]) -> (r: Result<(), RaknetError>)
        ensures
            r is Ok,
            final(self).bytes() == old(self).bytes() + v@,
    {
        self.buf.extend_from_slice(v);
        proof {
            assert(self.buf@ =~= old(self).buf@ + v@);
        }
        Ok(())
    }

    /// Appends one byte.
    pub fn write_u8(&mut self, v: u8) -> (r: Result<(), RaknetError>)
        ensures
            r is Ok,
            final(self).bytes() == old(self).bytes() + seq![v],
    {
        self.buf.push(v);
        proof {
            assert(self.buf@ =~= old(self).buf@ + seq![v]);
        }
        Ok(())
    }

    /// Appends a 16-bit integer in the given byte order.
    pub fn write_u16(&mut self, v: u16, n: Endian) -> (r: Result<(), RaknetError>)
        ensures
            r is Ok,
            final(self).bytes() == old(self).bytes() + spec_u16_bytes(n, v),
    {
        match n {
            Endian::Big => {
                self.buf.push(#[verifier::truncate] ((v >> 8) as u8));
                self.buf.push(#[verifier::truncate] (v as u8));
            },
            Endian::Little => {
                self.buf.push(#[verifier::truncate] (v as u8));
                self.buf.push(#[verifier::truncate] ((v >> 8) as u8));
            },
        }
        proof {
            assert(self.buf@ =~= old(self).buf@ + spec_u16_bytes(n, v));
        }
        Ok(())
    }

    /// Appends a signed 16-bit integer in the given byte order.
    pub fn write_i16(&mut self, v: i16, n: Endian) -> (r: Result<(), RaknetError>)
        ensures
            r is Ok,
            final(self).bytes() == old(self).bytes() + spec_i16_bytes(n, v),
    {
        self.write_u16(#[verifier::truncate] (v as u16), n)
    }

    /// Appends the low 24 bits of a 32-bit integer in the given byte order.
    pub fn write_u24(&mut self, v: u32, n: Endian) -> (r: Result<(), RaknetError>)
        ensures
            r is Ok,
            final(self).bytes() == old(self).bytes() + spec_u24_bytes(n, v),
    {
        match n {
            Endian::Big => {
                self.buf.push(#[verifier::truncate] ((v >> 16) as u8));
                self.buf.push(#[verifier::truncate] ((v >> 8) as u8));
                self.buf.push(#[verifier::truncate] (v as u8));
            },
            Endian::Little => {
                self.buf.push(#[verifier::truncate] (v as u8));
                self.buf.push(#[verifier::truncate] ((v >> 8) as u8));
                self.buf.push(#[verifier::truncate] ((v >> 16) as u8));
            },
        }
        proof {
            assert(self.buf@ =~= old(self).buf@ + spec_u24_bytes(n, v));
        }
        Ok(())
    }

    /// Appends a 32-bit integer in the given byte order.
    pub fn write_u32(&mut self, v: u32, n: Endian) -> (r: Result<(), RaknetError>)
        ensures
            r is Ok,
            final(self).bytes() == old(self).bytes() + spec_u32_bytes(n, v),
    {
        match n {
            Endian::Big => {
                self.buf.push(#[verifier::truncate] ((v >> 24) as u8));
                self.buf.push(#[verifier::truncate] ((v >> 16) as u8));
                self.buf.push(#[verifier::truncate] ((v >> 8) as u8));
                self.buf.push(#[verifier::truncate] (v as u8));
            },
            Endian::Little => {
                self.buf.push(#[verifier::truncate] (v as u8));
                self.buf.push(#[verifier::truncate] ((v >> 8) as u8));
                self.buf.push(#[verifier::truncate] ((v >> 16) as u8));
                self.buf.push(#[verifier::truncate] ((v >> 24) as u8));
            },
        }
        proof {
            assert(self.buf@ =~= old(self).buf@ + spec_u32_bytes(n, v));
        }
        Ok(())
    }

    /// Appends a signed 32-bit integer in the given byte order.
    pub fn write_i32(&mut self, v: i32, n: Endian) -> (r: Result<(), RaknetError>)
        ensures
            r is Ok,
            final(self).bytes() == old(self).bytes() + spec_i32_bytes(n, v),
    {
        self.write_u32(#[verifier::truncate] (v as u32), n)
    }

    /// Appends a 64-bit integer in the given byte order.
    pub fn write_u64(&mut self, v: u64, n: Endian) -> (r: Result<(), RaknetError>)
        ensures
            r is Ok,
            final(self).bytes() == old(self).bytes() + spec_u64_bytes(n, v),
    {
        match n {
            Endian::Big => {
                self.buf.push(#[verifier::truncate] ((v >> 56) as u8));
                self.buf.push(#[verifier::truncate] ((v >> 48) as u8));
                self.buf.push(#[verifier::truncate] ((v >> 40) as u8));
                self.buf.push(#[verifier::truncate] ((v >> 32) as u8));
                self.buf.push(#[verifier::truncate] ((v >> 24) as u8));
                self.buf.push(#[verifier::truncate] ((v >> 16) as u8));
                self.buf.push(#[verifier::truncate] ((v >> 8) as u8));
                self.buf.push(#[verifier::truncate] (v as u8));
            },
            Endian::Little => {
                self.buf.push(#[verifier::truncate] (v as u8));
                self.buf.push(#[verifier::truncate] ((v >> 8) as u8));
                self.buf.push(#[verifier::truncate] ((v >> 16) as u8));
                self.buf.push(#[verifier::truncate] ((v >> 24) as u8));
                self.buf.push(#[verifier::truncate] ((v >> 32) as u8));
                self.buf.push(#[verifier::truncate] ((v >> 40) as u8));
                self.buf.push(#[verifier::truncate] ((v >> 48) as u8));
                self.buf.push(#[verifier::truncate] ((v >> 56) as u8));
            },
        }
        proof {
            assert(self.buf@ =~= old(self).buf@ + spec_u64_bytes(n, v));
        }
        Ok(())
    }

    /// Appends a signed 64-bit integer in the given byte order.
    pub fn write_i64(&mut self, v: i64, n: Endian) -> (r: Result<(), RaknetError>)
        ensures
            r is Ok,
            final(self).bytes() == old(self).bytes() + spec_i64_bytes(n, v),
    {
        self.write_u64(#[verifier::truncate] (v as u64), n)
    }

    /// Appends the 16-byte offline-message marker and reports its width.
    pub fn write_magic(&mut self) -> (r: Result<usize, RaknetError>)
        ensures
            r matches Ok(k) && k == 16,
            final(self).bytes() == old(self).bytes() + spec_magic(),
    {
        self.buf.push(0x00);
        self.buf.push(0xff);
        self.buf.push(0xff);
        self.buf.push(0x00);
        self.buf.push(0xfe);
        self.buf.push(0xfe);
        self.buf.push(0xfe);
        self.buf.push(0xfe);
        self.buf.push(0xfd);
        self.buf.push(0xfd);
        self.buf.push(0xfd);
        self.buf.push(0xfd);
        self.buf.push(0x12);
        self.buf.push(0x34);
        self.buf.push(0x56);
        self.buf.push(0x78);
        proof {
            assert(self.buf@ =~= old(self).buf@ + spec_magic());
        }
        Ok(16)
    }

    /// Everything written, as an owned buffer.
    pub fn get_raw_payload(self) -> (r: Vec<u8>)
        ensures
            r@ == self.bytes(),
    {
        self.buf
    }

    /// The number of bytes written so far.
    pub fn pos(&self) -> (r: u64)
        ensures
            r as int == self.bytes().len(),
    {
        self.buf.len() as u64
    }
}

/// Immutable byte buffer with a movable read cursor.
pub struct RaknetReader {
    buf: Vec<u8>,
    pos: usize,
}

impl RaknetReader {
    /// The underlying buffer; reads never change it.
    pub closed spec fn bytes(self) -> Seq<u8> {
        self.buf@
    }

    /// The cursor offset.
    pub closed spec fn cur(self) -> int {
        self.pos as int
    }

    /// A reader standing at the start of `buf`.
    pub fn new(buf: Vec<u8>) -> (r: Self)
        ensures
            r.bytes() == buf@,
            r.cur() == 0,
    {
        RaknetReader { buf, pos: 0 }
    }

    /// Reads one byte; fails without moving when the buffer is exhausted.
    pub fn read_u8(&mut self) -> (r: Result<u8, RaknetError>)
        ensures
            final(self).bytes() == old(self).bytes(),
            old(self).cur() + 1 <= old(self).bytes().len() ==> (r matches Ok(v) && v == old(
                self,
            ).bytes()[old(self).cur()] && final(self).cur() == old(self).cur() + 1),
            old(self).cur() + 1 > old(self).bytes().len() ==> r == Err::<u8, RaknetError>(
                RaknetError::NotEnoughData,
            ) && *final(self) == *old(self),
    {
        if self.pos < self.buf.len() {
            let b = self.buf[self.pos];
            self.pos = self.pos + 1;
            Ok(b)
        } else {
            Err(RaknetError::NotEnoughData)
        }
    }

    /// Reads a 16-bit integer; fails without moving when fewer than two
    /// bytes remain.
    pub fn read_u16(&mut self, n: Endian) -> (r: Result<u16, RaknetError>)
        ensures
            final(self).bytes() == old(self).bytes(),
            old(self).cur() + 2 <= old(self).bytes().len() ==> (r matches Ok(v) && v == spec_u16_at(
                n,
                old(self).bytes(),
                old(self).cur(),
            ) && final(self).cur() == old(self).cur() + 2),
            old(self).cur() + 2 > old(self).bytes().len() ==> r == Err::<u16, RaknetError>(
                RaknetError::NotEnoughData,
            ) && *final(self) == *old(self),
    {
        if self.buf.len() >= 2 && self.pos <= self.buf.len() - 2 {
            let a = self.buf[self.pos];
            let b = self.buf[self.pos + 1];
            self.pos = self.pos + 2;
            match n {
                Endian::Big => Ok(((a as u16) << 8) | (b as u16)),
                Endian::Little => Ok(((b as u16) << 8) | (a as u16)),
            }
        } else {
            Err(RaknetError::NotEnoughData)
        }
    }

    /// Reads a 24-bit integer into 32 bits; fails without moving when fewer
    /// than three bytes remain.
    pub fn read_u24(&mut self, n: Endian) -> (r: Result<u32, RaknetError>)
        ensures
            final(self).bytes() == old(self).bytes(),
            old(self).cur() + 3 <= old(self).bytes().len() ==> (r matches Ok(v) && v == spec_u24_at(
                n,
                old(self).bytes(),
                old(self).cur(),
            ) && final(self).cur() == old(self).cur() + 3),
            old(self).cur() + 3 > old(self).bytes().len() ==> r == Err::<u32, RaknetError>(
                RaknetError::NotEnoughData,
            ) && *final(self) == *old(self),
    {
        if self.buf.len() >= 3 && self.pos <= self.buf.len() - 3 {
            let a = self.buf[self.pos];
            let b = self.buf[self.pos + 1];
            let c = self.buf[self.pos + 2];
            self.pos = self.pos + 3;
            match n {
                Endian::Big => Ok(((a as u32) << 16) | ((b as u32) << 8) | (c as u32)),
                Endian::Little => Ok(((c as u32) << 16) | ((b as u32) << 8) | (a as u32)),
            }
        } else {
            Err(RaknetError::NotEnoughData)
        }
    }

    /// Reads a 32-bit integer; fails without moving when fewer than four
    /// bytes remain.
    pub fn read_u32(&mut self, n: Endian) -> (r: Result<u32, RaknetError>)
        ensures
            final(self).bytes() == old(self).bytes(),
            old(self).cur() + 4 <= old(self).bytes().len() ==> (r matches Ok(v) && v == spec_u32_at(
                n,
                old(self).bytes(),
                old(self).cur(),
            ) && final(self).cur() == old(self).cur() + 4),
            old(self).cur() + 4 > old(self).bytes().len() ==> r == Err::<u32, RaknetError>(
                RaknetError::NotEnoughData,
            ) && *final(self) == *old(self),
    {
        if self.buf.len() >= 4 && self.pos <= self.buf.len() - 4 {
            let a = self.buf[self.pos];
            let b = self.buf[self.pos + 1];
            let c = self.buf[self.pos + 2];
            let d = self.buf[self.pos + 3];
            self.pos = self.pos + 4;
            match n {
                Endian::Big => Ok(
                    ((a as u32) << 24) | ((b as u32) << 16) | ((c as u32) << 8) | (d as u32),
                ),
                Endian::Little => Ok(
                    ((d as u32) << 24) | ((c as u32) << 16) | ((b as u32) << 8) | (a as u32),
                ),
            }
        } else {
            Err(RaknetError::NotEnoughData)
        }
    }

    /// Reads a 64-bit integer; fails without moving when fewer than eight
    /// bytes remain.
    pub fn read_u64(&mut self, n: Endian) -> (r: Result<u64, RaknetError>)
        ensures
            final(self).bytes() == old(self).bytes(),
            old(self).cur() + 8 <= old(self).bytes().len() ==> (r matches Ok(v) && v == spec_u64_at(
                n,
                old(self).bytes(),
                old(self).cur(),
            ) && final(self).cur() == old(self).cur() + 8),
            old(self).cur() + 8 > old(self).bytes().len() ==> r == Err::<u64, RaknetError>(
                RaknetError::NotEnoughData,
            ) && *final(self) == *old(self),
    {
        if self.buf.len() >= 8 && self.pos <= self.buf.len() - 8 {
            let a = self.buf[self.pos];
            let b = self.buf[self.pos + 1];
            let c = self.buf[self.pos + 2];
            let d = self.buf[self.pos + 3];
            let e = self.buf[self.pos + 4];
            let f = self.buf[self.pos + 5];
            let g = self.buf[self.pos + 6];
            let h = self.buf[self.pos + 7];
            self.pos = self.pos + 8;
            match n {
                Endian::Big => Ok(
                    ((a as u64) << 56) | ((b as u64) << 48) | ((c as u64) << 40) | ((d as u64)
                        << 32) | ((e as u64) << 24) | ((f as u64) << 16) | ((g as u64) << 8) | (
                    h as u64),
                ),
                Endian::Little => Ok(
                    ((h as u64) << 56) | ((g as u64) << 48) | ((f as u64) << 40) | ((e as u64)
                        << 32) | ((d as u64) << 24) | ((c as u64) << 16) | ((b as u64) << 8) | (
                    a as u64),
                ),
            }
        } else {
            Err(RaknetError::NotEnoughData)
        }
    }

    /// Reads a signed 64-bit integer; fails without moving when fewer than
    /// eight bytes remain.
    pub fn read_i64(&mut self, n: Endian) -> (r: Result<i64, RaknetError>)
        ensures
            final(self).bytes() == old(self).bytes(),
            old(self).cur() + 8 <= old(self).bytes().len() ==> (r matches Ok(v) && v == spec_i64_at(
                n,
                old(self).bytes(),
                old(self).cur(),
            ) && final(self).cur() == old(self).cur() + 8),
            old(self).cur() + 8 > old(self).bytes().len() ==> r == Err::<i64, RaknetError>(
                RaknetError::NotEnoughData,
            ) && *final(self) == *old(self),
    {
        match self.read_u64(n) {
            Ok(v) => Ok(#[verifier::truncate] (v as i64)),
            Err(e) => Err(e),
        }
    }

    /// Moves the cursor forward by `n` bytes without reading them, holding
    /// at the largest representable offset.
    pub fn next(&mut self, n: u64)
        ensures
            final(self).bytes() == old(self).bytes(),
            final(self).cur() == if old(self).cur() + n <= usize::MAX as int {
                old(self).cur() + n
            } else {
                usize::MAX as int
            },
    {
        let room: u64 = usize::MAX as u64 - self.pos as u64;
        if n >= room {
            self.pos = usize::MAX;
        } else {
            self.pos = self.pos + n as usize;
        }
    }

    /// The cursor offset.
    pub fn pos(&self) -> (r: u64)
        ensures
            r as int == self.cur(),
    {
        self.pos as u64
    }
}


/// A semantic socket address: IP version, address bytes and port.
///
/// The four IPv4 octets travel complemented (`0xff - octet`); the IPv6
/// form carries eight big-endian 16-bit segments inside a fixed frame.
#[derive(Clone, Copy, Debug, PartialEq, Eq)]
pub enum RaknetAddr {
    V4 { o0: u8, o1: u8, o2: u8, o3: u8, port: u16 },
    V6 {
        s0: u16,
        s1: u16,
        s2: u16,
        s3: u16,
        s4: u16,
        s5: u16,
        s6: u16,
        s7: u16,
        port: u16,
    },
}

/// Wire bytes of an address: version-tagged and asymmetric between the
/// two IP versions.
pub open spec fn spec_addr_bytes(a: RaknetAddr) -> Seq<u8> {
    match a {
        RaknetAddr::V4 { o0, o1, o2, o3, port } => seq![
            4u8,
            (0xff - o0) as u8,
            (0xff - o1) as u8,
            (0xff - o2) as u8,
            (0xff - o3) as u8,
        ] + spec_u16_bytes(Endian::Big, port),
        RaknetAddr::V6 { s0, s1, s2, s3, s4, s5, s6, s7, port } => spec_i16_bytes(
            Endian::Little,
            23,
        ) + spec_u16_bytes(Endian::Big, port) + spec_i32_bytes(Endian::Big, 0) + spec_u16_bytes(
            Endian::Big,
            s0,
        ) + spec_u16_bytes(Endian::Big, s1) + spec_u16_bytes(Endian::Big, s2) + spec_u16_bytes(
            Endian::Big,
            s3,
        ) + spec_u16_bytes(Endian::Big, s4) + spec_u16_bytes(Endian::Big, s5) + spec_u16_bytes(
            Endian::Big,
            s6,
        ) + spec_u16_bytes(Endian::Big, s7) + spec_i32_bytes(Endian::Big, 0),
    }
}

/// Width of the address standing at offset `i`: the leading byte alone
/// decides (4 picks the IPv4 form, anything else the IPv6 form).
pub open spec fn spec_addr_size(s: Seq<u8>, i: int) -> int {
    if s[i] == 4 {
        7
    } else {
        28
    }
}

/// Whether a whole address fits at offset `i`.
pub open spec fn spec_addr_in_range(s: Seq<u8>, i: int) -> bool {
    i < s.len() && i + spec_addr_size(s, i) <= s.len()
}

/// The address standing at offset `i` of `s`.
pub open spec fn spec_addr_at(s: Seq<u8>, i: int) -> RaknetAddr {
    if s[i] == 4 {
        RaknetAddr::V4 {
            o0: (0xff - s[i + 1]) as u8,
            o1: (0xff - s[i + 2]) as u8,
            o2: (0xff - s[i + 3]) as u8,
            o3: (0xff - s[i + 4]) as u8,
            port: spec_u16_at(Endian::Big, s, i + 5),
        }
    } else {
        RaknetAddr::V6 {
            s0: spec_u16_at(Endian::Big, s, i + 8),
            s1: spec_u16_at(Endian::Big, s, i + 10),
            s2: spec_u16_at(Endian::Big, s, i + 12),
            s3: spec_u16_at(Endian::Big, s, i + 14),
            s4: spec_u16_at(Endian::Big, s, i + 16),
            s5: spec_u16_at(Endian::Big, s, i + 18),
            s6: spec_u16_at(Endian::Big, s, i + 20),
            s7: spec_u16_at(Endian::Big, s, i + 22),
            port: spec_u16_at(Endian::Big, s, i + 2),
        }
    }
}

/// Wire bytes of a length-prefixed UTF-8 string: a big-endian 16-bit byte
/// count, then the bytes themselves.
pub open spec fn spec_string_bytes(s: Seq<char>) -> Seq<u8> {
    spec_u16_bytes(Endian::Big, encode_utf8(s).len() as u16) + encode_utf8(s)
}

/// The byte count declared by the length prefix at offset `i`.
pub open spec fn spec_strlen_at(s: Seq<u8>, i: int) -> int {
    spec_u16_at(Endian::Big, s, i) as int
}

/// Whether a whole length-prefixed string fits at offset `i`.
pub open spec fn spec_string_in_range(s: Seq<u8>, i: int) -> bool {
    i + 2 <= s.len() && i + 2 + spec_strlen_at(s, i) <= s.len()
}

/// The declared payload bytes of the string at offset `i`.
pub open spec fn spec_string_payload(s: Seq<u8>, i: int) -> Seq<u8> {
    s.subrange(i + 2, i + 2 + spec_strlen_at(s, i))
}

/// Relies on String::from_utf8: it succeeds exactly on valid UTF-8 and
/// then carries the bytes' decoded characters.
#[verifier::external_body]
fn string_from_utf8_bytes(b: Vec<u8>) -> (r: Option<String>)
    ensures
        r matches Some(s) ==> valid_utf8(b@) && s@ == decode_utf8(b@),
        r is None ==> !valid_utf8(b@),
{
    match String::from_utf8(b) {
        Ok(s) => Some(s),
        Err(_) => None,
    }
}

impl RaknetWriter {
    /// Appends a length-prefixed UTF-8 string; fails without writing when
    /// the byte length does not fit the 16-bit prefix.
    pub fn write_string(&mut self, body: &str) -> (r: Result<(), RaknetError>)
        ensures
            encode_utf8(body@).len() <= 65535 ==> (r is Ok && final(self).bytes() == old(
                self,
            ).bytes() + spec_string_bytes(body@)),
            encode_utf8(body@).len() > 65535 ==> (r == Err::<(), RaknetError>(
                RaknetError::StringTooLong,
            ) && *final(self) == *old(self)),
    {
        let raw = body.as_bytes();
        if raw.len() > 65535 {
            return Err(RaknetError::StringTooLong);
        }
        let l = raw.len() as u16;
        match self.write_u16(l, Endian::Big) {
            Ok(()) => (),
            Err(e) => {
                return Err(e);
            },
        }
        match self.write(raw) {
            Ok(()) => (),
            Err(e) => {
                return Err(e);
            },
        }
        proof {
            assert(self.bytes() =~= old(self).bytes() + spec_string_bytes(body@));
        }
        Ok(())
    }

    /// Appends the wire form of a socket address.
    pub fn write_address(&mut self, address: RaknetAddr) -> (r: Result<(), RaknetError>)
        ensures
            r is Ok,
            final(self).bytes() == old(self).bytes() + spec_addr_bytes(address),
    {
        match address {
            RaknetAddr::V4 { o0, o1, o2, o3, port } => {
                let _ = self.write_u8(0x4);
                let _ = self.write_u8(0xff - o0);
                let _ = self.write_u8(0xff - o1);
                let _ = self.write_u8(0xff - o2);
                let _ = self.write_u8(0xff - o3);
                let _ = self.write_u16(port, Endian::Big);
            },
            RaknetAddr::V6 { s0, s1, s2, s3, s4, s5, s6, s7, port } => {
                let _ = self.write_i16(23, Endian::Little);
                let _ = self.write_u16(port, Endian::Big);
                let _ = self.write_i32(0, Endian::Big);
                let _ = self.write_u16(s0, Endian::Big);
                let _ = self.write_u16(s1, Endian::Big);
                let _ = self.write_u16(s2, Endian::Big);
                let _ = self.write_u16(s3, Endian::Big);
                let _ = self.write_u16(s4, Endian::Big);
                let _ = self.write_u16(s5, Endian::Big);
                let _ = self.write_u16(s6, Endian::Big);
                let _ = self.write_u16(s7, Endian::Big);
                let _ = self.write_i32(0, Endian::Big);
            },
        }
        proof {
            assert(self.bytes() =~= old(self).bytes() + spec_addr_bytes(address));
        }
        Ok(())
    }
}

impl RaknetReader {
    /// Reads the 16-byte marker field; yields whether it equals the
    /// marker, and fails only when fewer than 16 bytes remain.
    pub fn read_magic(&mut self) -> (r: Result<bool, RaknetError>)
        ensures
            final(self).bytes() == old(self).bytes(),
            old(self).cur() + 16 <= old(self).bytes().len() ==> (r matches Ok(m)
                && m == (old(self).bytes().subrange(old(self).cur(), old(self).cur() + 16)
                    == spec_magic())
                && final(self).cur() == old(self).cur() + 16),
            old(self).cur() + 16 > old(self).bytes().len() ==> r == Err::<bool, RaknetError>(
                RaknetError::NotEnoughData,
            ) && *final(self) == *old(self),
    {
        if self.buf.len() >= 16 && self.pos <= self.buf.len() - 16 {
            let p = self.pos;
            let m = self.buf[p] == 0x00 && self.buf[p + 1] == 0xff && self.buf[p + 2] == 0xff
                && self.buf[p + 3] == 0x00 && self.buf[p + 4] == 0xfe && self.buf[p + 5] == 0xfe
                && self.buf[p + 6] == 0xfe && self.buf[p + 7] == 0xfe && self.buf[p + 8] == 0xfd
                && self.buf[p + 9] == 0xfd && self.buf[p + 10] == 0xfd && self.buf[p + 11] == 0xfd
                && self.buf[p + 12] == 0x12 && self.buf[p + 13] == 0x34 && self.buf[p + 14] == 0x56
                && self.buf[p + 15] == 0x78;
            self.pos = p + 16;
            proof {
                let sub = old(self).bytes().subrange(p as int, p as int + 16);
                if m {
                    assert(sub =~= spec_magic());
                } else {
                    if sub == spec_magic() {
                        assert(forall|j: int| 0 <= j < 16 ==> sub[j] == spec_magic()[j]);
                        assert(false);
                    }
                }
            }
            Ok(m)
        } else {
            Err(RaknetError::NotEnoughData)
        }
    }

    /// Reads a length-prefixed UTF-8 string; fails without moving when the
    /// buffer is shorter than declared or the payload is not UTF-8.
    pub fn read_string(&mut self) -> (r: Result<String, RaknetError>)
        ensures
            final(self).bytes() == old(self).bytes(),
            !spec_string_in_range(old(self).bytes(), old(self).cur()) ==> (r == Err::<
                String,
                RaknetError,
            >(RaknetError::NotEnoughData) && *final(self) == *old(self)),
            spec_string_in_range(old(self).bytes(), old(self).cur()) && !valid_utf8(
                spec_string_payload(old(self).bytes(), old(self).cur()),
            ) ==> (r == Err::<String, RaknetError>(RaknetError::InvalidUtf8) && *final(self)
                == *old(self)),
            spec_string_in_range(old(self).bytes(), old(self).cur()) && valid_utf8(
                spec_string_payload(old(self).bytes(), old(self).cur()),
            ) ==> (r matches Ok(st) && st@ == decode_utf8(
                spec_string_payload(old(self).bytes(), old(self).cur()),
            ) && final(self).cur() == old(self).cur() + 2 + spec_strlen_at(
                old(self).bytes(),
                old(self).cur(),
            )),
    {
        if !(self.buf.len() >= 2 && self.pos <= self.buf.len() - 2) {
            return Err(RaknetError::NotEnoughData);
        }
        let a = self.buf[self.pos];
        let b = self.buf[self.pos + 1];
        let l = (((a as u16) << 8) | (b as u16)) as usize;
        if self.buf.len() - (self.pos + 2) < l {
            return Err(RaknetError::NotEnoughData);
        }
        let mut payload: Vec<u8> = Vec::new();
        let mut k: usize = 0;
        while k < l
            invariant
                k <= l,
                self == old(self),
                self.pos + 2 + l <= self.buf.len(),
                l == spec_strlen_at(self.bytes(), self.cur()),
                payload@ == self.bytes().subrange(self.cur() + 2, self.cur() + 2 + k as int),
            decreases l - k,
        {
            payload.push(self.buf[self.pos + 2 + k]);
            k = k + 1;
            proof {
                assert(payload@ =~= self.bytes().subrange(
                    self.cur() + 2,
                    self.cur() + 2 + k as int,
                ));
            }
        }
        proof {
            assert(payload@ == spec_string_payload(self.bytes(), self.cur()));
        }
        match string_from_utf8_bytes(payload) {
            Some(st) => {
                self.pos = self.pos + 2 + l;
                Ok(st)
            },
            None => Err(RaknetError::InvalidUtf8),
        }
    }

    /// Reads the version-tagged wire form of a socket address; fails
    /// without moving when the buffer is too short for the tagged form.
    pub fn read_address(&mut self) -> (r: Result<RaknetAddr, RaknetError>)
        ensures
            final(self).bytes() == old(self).bytes(),
            !spec_addr_in_range(old(self).bytes(), old(self).cur()) ==> (r == Err::<
                RaknetAddr,
                RaknetError,
            >(RaknetError::NotEnoughData) && *final(self) == *old(self)),
            spec_addr_in_range(old(self).bytes(), old(self).cur()) ==> (r matches Ok(ad) && ad
                == spec_addr_at(old(self).bytes(), old(self).cur()) && final(self).cur() == old(
                self,
            ).cur() + spec_addr_size(old(self).bytes(), old(self).cur())),
    {
        if self.pos >= self.buf.len() {
            return Err(RaknetError::NotEnoughData);
        }
        let p = self.pos;
        let ver = self.buf[p];
        if ver == 4 {
            if self.buf.len() - p < 7 {
                return Err(RaknetError::NotEnoughData);
            }
            let o0 = 0xff - self.buf[p + 1];
            let o1 = 0xff - self.buf[p + 2];
            let o2 = 0xff - self.buf[p + 3];
            let o3 = 0xff - self.buf[p + 4];
            let port = ((self.buf[p + 5] as u16) << 8) | (self.buf[p + 6] as u16);
            self.pos = p + 7;
            Ok(RaknetAddr::V4 { o0, o1, o2, o3, port })
        } else {
            if self.buf.len() - p < 28 {
                return Err(RaknetError::NotEnoughData);
            }
            let port = ((self.buf[p + 2] as u16) << 8) | (self.buf[p + 3] as u16);
            let s0 = ((self.buf[p + 8] as u16) << 8) | (self.buf[p + 9] as u16);
            let s1 = ((self.buf[p + 10] as u16) << 8) | (self.buf[p + 11] as u16);
            let s2 = ((self.buf[p + 12] as u16) << 8) | (self.buf[p + 13] as u16);
            let s3 = ((self.buf[p + 14] as u16) << 8) | (self.buf[p + 15] as u16);
            let s4 = ((self.buf[p + 16] as u16) << 8) | (self.buf[p + 17] as u16);
            let s5 = ((self.buf[p + 18] as u16) << 8) | (self.buf[p + 19] as u16);
            let s6 = ((self.buf[p + 20] as u16) << 8) | (self.buf[p + 21] as u16);
            let s7 = ((self.buf[p + 22] as u16) << 8) | (self.buf[p + 23] as u16);
            self.pos = p + 28;
            Ok(RaknetAddr::V6 { s0, s1, s2, s3, s4, s5, s6, s7, port })
        }
    }
}


/// Decoding with the byte order used to encode restores a 16-bit value.
pub proof fn lemma_u16_codec(n: Endian, v: u16)
    ensures
        spec_u16_at(n, spec_u16_bytes(n, v), 0) == v,
{
    assert((((((v >> 8) as u8) as u16) << 8) | ((v as u8) as u16)) == v) by (bit_vector);
}

/// Decoding with the byte order used to encode restores a 24-bit value.
pub proof fn lemma_u24_codec(n: Endian, v: u32)
    requires
        v < 0x1000000,
    ensures
        spec_u24_at(n, spec_u24_bytes(n, v), 0) == v,
{
    assert(v < 0x1000000 ==> (((((v >> 16) as u8) as u32) << 16) | ((((v >> 8) as u8) as u32) << 8)
        | ((v as u8) as u32)) == v) by (bit_vector);
}

/// Decoding with the byte order used to encode restores a 32-bit value.
pub proof fn lemma_u32_codec(n: Endian, v: u32)
    ensures
        spec_u32_at(n, spec_u32_bytes(n, v), 0) == v,
{
    assert((((((v >> 24) as u8) as u32) << 24) | ((((v >> 16) as u8) as u32) << 16) | ((((v >> 8)
        as u8) as u32) << 8) | ((v as u8) as u32)) == v) by (bit_vector);
}

/// Decoding with the byte order used to encode restores a 64-bit value.
pub proof fn lemma_u64_codec(n: Endian, v: u64)
    ensures
        spec_u64_at(n, spec_u64_bytes(n, v), 0) == v,
{
    assert((((((v >> 56) as u8) as u64) << 56) | ((((v >> 48) as u8) as u64) << 48) | ((((v >> 40)
        as u8) as u64) << 40) | ((((v >> 32) as u8) as u64) << 32) | ((((v >> 24) as u8) as u64)
        << 24) | ((((v >> 16) as u8) as u64) << 16) | ((((v >> 8) as u8) as u64) << 8) | ((v as u8)
        as u64)) == v) by (bit_vector);
}

/// Decoding with the byte order used to encode restores a signed 64-bit
/// value.
pub proof fn lemma_i64_codec(n: Endian, v: i64)
    ensures
        spec_i64_at(n, spec_i64_bytes(n, v), 0) == v,
{
    lemma_u64_codec(n, v as u64);
    assert(((v as u64) as i64) == v) by (bit_vector);
}

/// The little-endian bytes of a value are its big-endian bytes reversed.
pub proof fn lemma_u16_bytes_reverse(v: u16)
    ensures
        spec_u16_bytes(Endian::Little, v) == spec_u16_bytes(Endian::Big, v).reverse(),
{
    assert(spec_u16_bytes(Endian::Little, v) =~= spec_u16_bytes(Endian::Big, v).reverse());
}

/// The little-endian bytes of a value are its big-endian bytes reversed.
pub proof fn lemma_u32_bytes_reverse(v: u32)
    ensures
        spec_u32_bytes(Endian::Little, v) == spec_u32_bytes(Endian::Big, v).reverse(),
{
    assert(spec_u32_bytes(Endian::Little, v) =~= spec_u32_bytes(Endian::Big, v).reverse());
}

/// The little-endian bytes of a value are its big-endian bytes reversed.
pub proof fn lemma_u64_bytes_reverse(v: u64)
    ensures
        spec_u64_bytes(Endian::Little, v) == spec_u64_bytes(Endian::Big, v).reverse(),
{
    assert(spec_u64_bytes(Endian::Little, v) =~= spec_u64_bytes(Endian::Big, v).reverse());
}

/// Decoding big-endian bytes as little-endian yields the value whose bytes
/// are reversed; it restores the value exactly when the bytes are
/// palindromic.
pub proof fn lemma_u16_cross_endian(v: u16)
    ensures
        spec_u16_at(Endian::Little, spec_u16_bytes(Endian::Big, v), 0) == spec_u16_at(
            Endian::Big,
            spec_u16_bytes(Endian::Big, v).reverse(),
            0,
        ),
        (spec_u16_at(Endian::Little, spec_u16_bytes(Endian::Big, v), 0) == v) <==> (spec_u16_bytes(
            Endian::Big,
            v,
        ) == spec_u16_bytes(Endian::Big, v).reverse()),
{
    let s = spec_u16_bytes(Endian::Big, v);
    assert(s.reverse().len() == 2 && s.reverse()[0] == s[1] && s.reverse()[1] == s[0]);
    assert(((((v as u8) as u16) << 8) | (((v >> 8) as u8) as u16) == v) <==> ((v >> 8) as u8 == v
        as u8)) by (bit_vector);
    if (v >> 8) as u8 == v as u8 {
        assert(s =~= s.reverse());
    }
    if s == s.reverse() {
        assert(s[0] == s.reverse()[0]);
    }
}

/// Decoding big-endian bytes as little-endian yields the value whose bytes
/// are reversed; it restores the value exactly when the bytes are
/// palindromic.
pub proof fn lemma_u32_cross_endian(v: u32)
    ensures
        spec_u32_at(Endian::Little, spec_u32_bytes(Endian::Big, v), 0) == spec_u32_at(
            Endian::Big,
            spec_u32_bytes(Endian::Big, v).reverse(),
            0,
        ),
        (spec_u32_at(Endian::Little, spec_u32_bytes(Endian::Big, v), 0) == v) <==> (spec_u32_bytes(
            Endian::Big,
            v,
        ) == spec_u32_bytes(Endian::Big, v).reverse()),
{
    let s = spec_u32_bytes(Endian::Big, v);
    let t = s.reverse();
    assert(t.len() == 4 && t[0] == s[3] && t[1] == s[2] && t[2] == s[1] && t[3] == s[0]);
    assert(((((v as u8) as u32) << 24) | ((((v >> 8) as u8) as u32) << 16) | ((((v >> 16) as u8)
        as u32) << 8) | (((v >> 24) as u8) as u32) == v) <==> ((v >> 24) as u8 == v as u8 && (v
        >> 16) as u8 == (v >> 8) as u8)) by (bit_vector);
    if (v >> 24) as u8 == v as u8 && (v >> 16) as u8 == (v >> 8) as u8 {
        assert(s =~= t);
    }
    if s == t {
        assert(s[0] == t[0] && s[1] == t[1]);
    }
}

/// Decoding big-endian bytes as little-endian yields the value whose bytes
/// are reversed; it restores the value exactly when the bytes are
/// palindromic.
pub proof fn lemma_u64_cross_endian(v: u64)
    ensures
        spec_u64_at(Endian::Little, spec_u64_bytes(Endian::Big, v), 0) == spec_u64_at(
            Endian::Big,
            spec_u64_bytes(Endian::Big, v).reverse(),
            0,
        ),
        (spec_u64_at(Endian::Little, spec_u64_bytes(Endian::Big, v), 0) == v) <==> (spec_u64_bytes(
            Endian::Big,
            v,
        ) == spec_u64_bytes(Endian::Big, v).reverse()),
{
    let s = spec_u64_bytes(Endian::Big, v);
    let t = s.reverse();
    assert(t.len() == 8 && t[0] == s[7] && t[1] == s[6] && t[2] == s[5] && t[3] == s[4] && t[4]
        == s[3] && t[5] == s[2] && t[6] == s[1] && t[7] == s[0]);
    assert(((((v as u8) as u64) << 56) | ((((v >> 8) as u8) as u64) << 48) | ((((v >> 16) as u8)
        as u64) << 40) | ((((v >> 24) as u8) as u64) << 32) | ((((v >> 32) as u8) as u64) << 24) | (
    (((v >> 40) as u8) as u64) << 16) | ((((v >> 48) as u8) as u64) << 8) | (((v >> 56) as u8)
        as u64) == v) <==> ((v >> 56) as u8 == v as u8 && (v >> 48) as u8 == (v >> 8) as u8 && (v
        >> 40) as u8 == (v >> 16) as u8 && (v >> 32) as u8 == (v >> 24) as u8)) by (bit_vector);
    if (v >> 56) as u8 == v as u8 && (v >> 48) as u8 == (v >> 8) as u8 && (v >> 40) as u8 == (v
        >> 16) as u8 && (v >> 32) as u8 == (v >> 24) as u8 {
        assert(s =~= t);
    }
    if s == t {
        assert(s[0] == t[0] && s[1] == t[1] && s[2] == t[2] && s[3] == t[3]);
    }
}

/// A 16-byte field that differs from the marker at any position is not the
/// marker, so decoding it yields false — never an error and never true.
pub proof fn lemma_magic_tamper(s: Seq<u8>, j: int)
    requires
        s.len() == 16,
        0 <= j < 16,
        s[j] != spec_magic()[j],
    ensures
        s != spec_magic(),
{
    if s == spec_magic() {
        assert(s[j] == spec_magic()[j]);
    }
}

/// A string's wire form begins with its UTF-8 byte count and decodes back
/// to the same characters; the declared length always equals the payload's
/// byte length.
pub proof fn lemma_string_codec(s: Seq<char>)
    requires
        encode_utf8(s).len() <= 65535,
    ensures
        spec_string_in_range(spec_string_bytes(s), 0),
        spec_strlen_at(spec_string_bytes(s), 0) == encode_utf8(s).len(),
        spec_string_payload(spec_string_bytes(s), 0) == encode_utf8(s),
        valid_utf8(encode_utf8(s)),
        decode_utf8(spec_string_payload(spec_string_bytes(s), 0)) == s,
        spec_string_bytes(s).len() == 2 + encode_utf8(s).len(),
{
    broadcast use vstd::utf8::encode_utf8_valid_utf8;
    broadcast use vstd::utf8::encode_utf8_decode_utf8;

    let w = spec_string_bytes(s);
    let lenfield = spec_u16_bytes(Endian::Big, encode_utf8(s).len() as u16);
    lemma_u16_codec(Endian::Big, encode_utf8(s).len() as u16);
    assert(w[0] == lenfield[0] && w[1] == lenfield[1]);
    assert(spec_u16_at(Endian::Big, w, 0) == spec_u16_at(Endian::Big, lenfield, 0));
    assert(spec_strlen_at(w, 0) == encode_utf8(s).len());
    assert(spec_string_payload(w, 0) =~= encode_utf8(s));
}


/// A 16-bit field reads the same wherever its two bytes stand.
pub proof fn lemma_u16_at_offset(n: Endian, s: Seq<u8>, i: int, b: Seq<u8>)
    requires
        0 <= i,
        i + 2 <= s.len(),
        b.len() == 2,
        s.subrange(i, i + 2) == b,
    ensures
        spec_u16_at(n, s, i) == spec_u16_at(n, b, 0),
{
    assert(s[i] == s.subrange(i, i + 2)[0]);
    assert(s[i + 1] == s.subrange(i, i + 2)[1]);
}

/// A 64-bit field reads the same wherever its eight bytes stand.
pub proof fn lemma_u64_at_offset(n: Endian, s: Seq<u8>, i: int, b: Seq<u8>)
    requires
        0 <= i,
        i + 8 <= s.len(),
        b.len() == 8,
        s.subrange(i, i + 8) == b,
    ensures
        spec_u64_at(n, s, i) == spec_u64_at(n, b, 0),
        spec_i64_at(n, s, i) == spec_i64_at(n, b, 0),
{
    assert(s[i] == s.subrange(i, i + 8)[0]);
    assert(s[i + 1] == s.subrange(i, i + 8)[1]);
    assert(s[i + 2] == s.subrange(i, i + 8)[2]);
    assert(s[i + 3] == s.subrange(i, i + 8)[3]);
    assert(s[i + 4] == s.subrange(i, i + 8)[4]);
    assert(s[i + 5] == s.subrange(i, i + 8)[5]);
    assert(s[i + 6] == s.subrange(i, i + 8)[6]);
    assert(s[i + 7] == s.subrange(i, i + 8)[7]);
}

/// An address field reads the same wherever its bytes stand, provided the
/// bytes form one whole address of the width its leading byte declares.
pub proof fn lemma_addr_at_offset(s: Seq<u8>, i: int, b: Seq<u8>)
    requires
        0 <= i,
        i + b.len() <= s.len(),
        b.len() >= 1,
        b.len() == spec_addr_size(b, 0),
        s.subrange(i, i + b.len()) == b,
    ensures
        spec_addr_size(s, i) == b.len(),
        spec_addr_in_range(s, i),
        spec_addr_at(s, i) == spec_addr_at(b, 0),
{
    let l = b.len() as int;
    assert(forall|k: int| 0 <= k < l ==> s[i + k] == #[trigger] b[k]) by {
        assert(forall|k: int| 0 <= k < l ==> #[trigger] b[k] == s.subrange(i, i + l)[k]);
    }
    assert(s[i] == b[0]);
    if b[0] == 4 {
        assert(s[i + 1] == b[1] && s[i + 2] == b[2] && s[i + 3] == b[3] && s[i + 4] == b[4] && s[i
            + 5] == b[5] && s[i + 6] == b[6]);
    } else {
        assert(s[i + 2] == b[2] && s[i + 3] == b[3]);
        assert(s[i + 8] == b[8] && s[i + 9] == b[9] && s[i + 10] == b[10] && s[i + 11] == b[11]);
        assert(s[i + 12] == b[12] && s[i + 13] == b[13] && s[i + 14] == b[14] && s[i + 15] == b[15]);
        assert(s[i + 16] == b[16] && s[i + 17] == b[17] && s[i + 18] == b[18] && s[i + 19] == b[19]);
        assert(s[i + 20] == b[20] && s[i + 21] == b[21] && s[i + 22] == b[22] && s[i + 23] == b[23]);
    }
}

/// An address decodes from its own wire form, which is as wide as its
/// leading byte declares: the octet complement cancels exactly.
pub proof fn lemma_addr_round_trip(a: RaknetAddr)
    ensures
        spec_addr_bytes(a).len() == spec_addr_size(spec_addr_bytes(a), 0),
        spec_addr_in_range(spec_addr_bytes(a), 0),
        spec_addr_at(spec_addr_bytes(a), 0) == a,
{
    let w = spec_addr_bytes(a);
    match a {
        RaknetAddr::V4 { o0, o1, o2, o3, port } => {
            assert(w.len() == 7);
            assert(w[0] == 4);
            assert(w.subrange(5, 7) =~= spec_u16_bytes(Endian::Big, port));
            lemma_u16_at_offset(Endian::Big, w, 5, spec_u16_bytes(Endian::Big, port));
            lemma_u16_codec(Endian::Big, port);
        },
        RaknetAddr::V6 { s0, s1, s2, s3, s4, s5, s6, s7, port } => {
            assert(w.len() == 28);
            assert(w[0] == 23);
            assert(w.subrange(2, 4) =~= spec_u16_bytes(Endian::Big, port));
            lemma_u16_at_offset(Endian::Big, w, 2, spec_u16_bytes(Endian::Big, port));
            lemma_u16_codec(Endian::Big, port);
            assert(w.subrange(8, 10) =~= spec_u16_bytes(Endian::Big, s0));
            lemma_u16_at_offset(Endian::Big, w, 8, spec_u16_bytes(Endian::Big, s0));
            lemma_u16_codec(Endian::Big, s0);
            assert(w.subrange(10, 12) =~= spec_u16_bytes(Endian::Big, s1));
            lemma_u16_at_offset(Endian::Big, w, 10, spec_u16_bytes(Endian::Big, s1));
            lemma_u16_codec(Endian::Big, s1);
            assert(w.subrange(12, 14) =~= spec_u16_bytes(Endian::Big, s2));
            lemma_u16_at_offset(Endian::Big, w, 12, spec_u16_bytes(Endian::Big, s2));
            lemma_u16_codec(Endian::Big, s2);
            assert(w.subrange(14, 16) =~= spec_u16_bytes(Endian::Big, s3));
            lemma_u16_at_offset(Endian::Big, w, 14, spec_u16_bytes(Endian::Big, s3));
            lemma_u16_codec(Endian::Big, s3);
            assert(w.subrange(16, 18) =~= spec_u16_bytes(Endian::Big, s4));
            lemma_u16_at_offset(Endian::Big, w, 16, spec_u16_bytes(Endian::Big, s4));
            lemma_u16_codec(Endian::Big, s4);
            assert(w.subrange(18, 20) =~= spec_u16_bytes(Endian::Big, s5));
            lemma_u16_at_offset(Endian::Big, w, 18, spec_u16_bytes(Endian::Big, s5));
            lemma_u16_codec(Endian::Big, s5);
            assert(w.subrange(20, 22) =~= spec_u16_bytes(Endian::Big, s6));
            lemma_u16_at_offset(Endian::Big, w, 20, spec_u16_bytes(Endian::Big, s6));
            lemma_u16_codec(Endian::Big, s6);
            assert(w.subrange(22, 24) =~= spec_u16_bytes(Endian::Big, s7));
            lemma_u16_at_offset(Endian::Big, w, 22, spec_u16_bytes(Endian::Big, s7));
            lemma_u16_codec(Endian::Big, s7);
        },
    }
}

} // verus!
