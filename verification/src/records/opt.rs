//! The EDNS(0) `OPT` pseudo-record.

use vstd::prelude::*;

use crate::bytes::{be16_bytes, be32_bytes, WCursor};
use crate::errors::{Error, Result};
use crate::names::writer::lemma_written_concat;
use crate::records::rtype::Type;

verus! {

/// The EDNS(0) `OPT` pseudo-record: its `CLASS` holds the UDP payload size, and its `TTL` the
/// extended response code, the EDNS version and the flags.
#[derive(Copy, Clone, Debug, PartialEq, Eq, Structural, PartialOrd, Ord, Hash, Default)]
pub struct Opt {
    udp_payload_size: u16,
    rcode_extension: u8,
    version: u8,
    flags: u16,
}

/// The fields of an `OPT` pseudo-record.
pub struct OptView {
    /// The UDP payload size the sender can reassemble.
    pub udp_payload_size: u16,
    /// The high 8 bits of the extended response code.
    pub rcode_extension: u8,
    /// The EDNS version.
    pub version: u8,
    /// The EDNS flags.
    pub flags: u16,
}

impl View for Opt {
    type V = OptView;

    closed spec fn view(&self) -> OptView {
        OptView {
            udp_payload_size: self.udp_payload_size,
            rcode_extension: self.rcode_extension,
            version: self.version,
            flags: self.flags,
        }
    }
}

/// The `TTL` field that holds the extended response code, the version and the flags.
pub open spec fn opt_ttl(v: OptView) -> u32 {
    (v.rcode_extension * 0x100_0000 + v.version * 0x1_0000 + v.flags) as u32
}

/// The fields of the `OPT` pseudo-record with the given `CLASS` and `TTL`.
pub open spec fn opt_of(rclass: u16, ttl: u32) -> OptView {
    OptView {
        udp_payload_size: rclass,
        rcode_extension: (ttl / 0x100_0000) as u8,
        version: ((ttl / 0x1_0000) % 256) as u8,
        flags: (ttl % 0x1_0000) as u16,
    }
}

/// The bytes of an `OPT` pseudo-record: the root name, the type, the class, the `TTL` and an
/// empty data length.
pub open spec fn opt_bytes(v: OptView) -> Seq<u8> {
    seq![0u8] + be16_bytes(Type::OPT) + be16_bytes(v.udp_payload_size) + be32_bytes(opt_ttl(v))
        + be16_bytes(0)
}

impl Opt {
    /// Creates an `OPT` pseudo-record with an EDNS version and a UDP payload size.
    pub fn new(version: u8, udp_payload_size: u16) -> (o: Opt)
        ensures
            o@ == (OptView { udp_payload_size, rcode_extension: 0, version, flags: 0 }),
    {
        Opt { udp_payload_size, rcode_extension: 0, version, flags: 0 }
    }

    /// Returns the `TTL` field that holds the extended response code, the version and the
    /// flags.
    pub fn ttl(&self) -> (r: u32)
        ensures
            r == opt_ttl(self@),
    {
        let e = self.rcode_extension as u32;
        let v = self.version as u32;
        let f = self.flags as u32;
        let r = (e << 24u32) | (v << 16u32) | f;
        assert(r == e * 0x100_0000 + v * 0x1_0000 + f) by (bit_vector)
            requires
                r == (e << 24u32) | (v << 16u32) | f,
                e < 256,
                v < 256,
                f < 0x1_0000,
        ;
        r
    }

    /// Creates the `OPT` pseudo-record of a message record with the given `CLASS` and `TTL`.
    pub fn from_msg(rclass: u16, ttl: u32) -> (o: Opt)
        ensures
            o@ == opt_of(rclass, ttl),
    {
        let e = (ttl & 0xFF00_0000u32) >> 24u32;
        let v = (ttl & 0x00FF_0000u32) >> 16u32;
        let f = ttl & 0x0000_FFFFu32;
        assert(e == ttl / 0x100_0000 && v == (ttl / 0x1_0000) % 256 && f == ttl % 0x1_0000 && e
            < 256 && v < 256 && f < 0x1_0000) by (bit_vector)
            requires
                e == (ttl & 0xFF00_0000u32) >> 24u32,
                v == (ttl & 0x00FF_0000u32) >> 16u32,
                f == ttl & 0x0000_FFFFu32,
        ;
        Opt {
            udp_payload_size: rclass,
            rcode_extension: e as u8,
            version: v as u8,
            flags: f as u16,
        }
    }

    /// Returns the UDP payload size the sender can reassemble.
    pub fn udp_payload_size(&self) -> (r: u16)
        ensures
            r == self@.udp_payload_size,
    {
        self.udp_payload_size
    }

    /// Returns the high 8 bits of the extended response code.
    pub fn rcode_extension(&self) -> (r: u8)
        ensures
            r == self@.rcode_extension,
    {
        self.rcode_extension
    }

    /// Returns the EDNS version.
    pub fn version(&self) -> (r: u8)
        ensures
            r == self@.version,
    {
        self.version
    }

    /// Returns the `DO` flag: DNSSEC security records are accepted.
    pub fn dnssec_ok(&self) -> (r: bool)
        ensures
            r == (self@.flags >= 0x8000),
    {
        let f = self.flags;
        assert(((f & 0x8000) != 0) == (f >= 0x8000)) by (bit_vector);
        (f & 0x8000) != 0
    }
}

/// The `TTL` of an `OPT` pseudo-record gives back its fields: what a write puts in a message, a
/// read gives back.
pub proof fn lemma_opt_ttl_round_trip(v: OptView)
    ensures
        opt_of(v.udp_payload_size, opt_ttl(v)) == v,
{
    let e = v.rcode_extension as int;
    let ver = v.version as int;
    let f = v.flags as int;
    let t = e * 0x100_0000 + ver * 0x1_0000 + f;
    assert(0 <= t < 0x1_0000_0000) by (nonlinear_arith)
        requires
            0 <= e < 256,
            0 <= ver < 256,
            0 <= f < 0x1_0000,
            t == e * 0x100_0000 + ver * 0x1_0000 + f,
    ;
    assert(t / 0x100_0000 == e && (t / 0x1_0000) % 256 == ver && t % 0x1_0000 == f)
        by (nonlinear_arith)
        requires
            0 <= e < 256,
            0 <= ver < 256,
            0 <= f < 0x1_0000,
            t == e * 0x100_0000 + ver * 0x1_0000 + f,
    ;
}

/// The fields of an `OPT` pseudo-record give back its `TTL`.
pub proof fn lemma_opt_of_round_trip(rclass: u16, ttl: u32)
    ensures
        opt_ttl(opt_of(rclass, ttl)) == ttl,
{
    let t = ttl as int;
    assert((t / 0x100_0000) * 0x100_0000 + ((t / 0x1_0000) % 256) * 0x1_0000 + t % 0x1_0000 == t)
        by (nonlinear_arith)
        requires
            0 <= t < 0x1_0000_0000,
    ;
}

impl<'a> WCursor<'a> {
    /// Writes an `OPT` pseudo-record: the root name, the type, the class, the `TTL` and an empty
    /// data length.
    ///
    /// Fields written before an error stay written.
    pub fn write_opt(&mut self, opt: &Opt) -> (r: Result<()>)
        ensures
            old(self)@.remaining() >= 11 ==> r == Ok::<(), Error>(()) && final(self)@ == old(self)@.written(opt_bytes(opt@)),
            old(self)@.remaining() < 11 ==> r == Err::<(), Error>(Error::EndOfBuffer),
    {
        let ghost w0 = self@;
        let start = self.pos();
        let ttl = opt.ttl();
        match self.u8(0) {
            Ok(_) => {},
            Err(e) => return Err(e),
        }
        match self.u16_be(Type::OPT) {
            Ok(_) => {},
            Err(e) => return Err(e),
        }
        proof {
            lemma_written_concat(w0, seq![0u8], be16_bytes(Type::OPT));
        }
        match self.u16_be(opt.udp_payload_size) {
            Ok(_) => {},
            Err(e) => return Err(e),
        }
        proof {
            lemma_written_concat(
                w0,
                seq![0u8] + be16_bytes(Type::OPT),
                be16_bytes(opt.udp_payload_size),
            );
        }
        match self.u32_be(ttl) {
            Ok(_) => {},
            Err(e) => return Err(e),
        }
        proof {
            lemma_written_concat(
                w0,
                seq![0u8] + be16_bytes(Type::OPT) + be16_bytes(opt.udp_payload_size),
                be32_bytes(ttl),
            );
        }
        match self.u16_be(0) {
            Ok(_) => {},
            Err(e) => return Err(e),
        }
        proof {
            lemma_written_concat(
                w0,
                seq![0u8] + be16_bytes(Type::OPT) + be16_bytes(opt.udp_payload_size) + be32_bytes(
                    ttl,
                ),
                be16_bytes(0),
            );
        }
        Ok(())
    }
}

} // verus!
