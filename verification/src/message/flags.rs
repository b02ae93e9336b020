//! The flags word of a DNS message header.

use vstd::prelude::*;

use crate::message::message_type::{message_type_of, MessageType};
use crate::message::opcode::OpCode;
use crate::message::rcode::RCode;

verus! {

/// The fields of a header flags word.
pub struct FlagsView {
    /// `QR`: set in a response.
    pub qr: bool,
    /// `OPCODE`, 4 bits.
    pub opcode: u16,
    /// `AA`: the answer is authoritative.
    pub aa: bool,
    /// `TC`: the message was truncated.
    pub tc: bool,
    /// `RD`: recursion is desired.
    pub rd: bool,
    /// `RA`: recursion is available.
    pub ra: bool,
    /// `Z`, 3 reserved bits.
    pub z: u16,
    /// `RCODE`, 4 bits.
    pub rcode: u16,
}

/// The fields of the flags word `bits`, laid out as RFC 1035 section 4.1.1 shows, from the
/// most significant bit: `QR`, `OPCODE`, `AA`, `TC`, `RD`, `RA`, `Z`, `RCODE`.
pub open spec fn flags_view(bits: u16) -> FlagsView {
    FlagsView {
        qr: (bits >> 15u16) & 1 == 1,
        opcode: (bits >> 11u16) & 0xF,
        aa: (bits >> 10u16) & 1 == 1,
        tc: (bits >> 9u16) & 1 == 1,
        rd: (bits >> 8u16) & 1 == 1,
        ra: (bits >> 7u16) & 1 == 1,
        z: (bits >> 4u16) & 7,
        rcode: bits & 0xF,
    }
}

/// The flags word of a DNS message header.
#[derive(Copy, Clone, PartialEq, Eq, Structural, PartialOrd, Ord, Hash, Debug, Default)]
pub struct Flags {
    bits: u16,
}

impl View for Flags {
    type V = FlagsView;

    closed spec fn view(&self) -> FlagsView {
        flags_view(self.bits)
    }
}

/// The fields of a flags word determine it.
proof fn lemma_flags_view_injective(a: u16, b: u16)
    requires
        flags_view(a) == flags_view(b),
    ensures
        a == b,
{
    let va = flags_view(a);
    let vb = flags_view(b);
    assert(va.qr == vb.qr && va.opcode == vb.opcode && va.aa == vb.aa && va.tc == vb.tc
        && va.rd == vb.rd && va.ra == vb.ra && va.z == vb.z && va.rcode == vb.rcode);
    assert(a == b) by (bit_vector)
        requires
            ((a >> 15u16) & 1 == 1) == ((b >> 15u16) & 1 == 1),
            (a >> 11u16) & 0xF == (b >> 11u16) & 0xF,
            ((a >> 10u16) & 1 == 1) == ((b >> 10u16) & 1 == 1),
            ((a >> 9u16) & 1 == 1) == ((b >> 9u16) & 1 == 1),
            ((a >> 8u16) & 1 == 1) == ((b >> 8u16) & 1 == 1),
            ((a >> 7u16) & 1 == 1) == ((b >> 7u16) & 1 == 1),
            (a >> 4u16) & 7 == (b >> 4u16) & 7,
            a & 0xF == b & 0xF,
    ;
}

impl Flags {
    /// The flags word as a 16-bit number.
    pub closed spec fn bits(&self) -> u16 {
        self.bits
    }

    /// The flags of the word `bits`.
    pub closed spec fn spec_from_bits(bits: u16) -> Flags {
        Flags { bits }
    }

    /// A flags word is determined by its number, and its fields by the number.
    pub proof fn lemma_bits(self, bits: u16)
        ensures
            Flags::spec_from_bits(self.bits()) == self,
            Flags::spec_from_bits(bits).bits() == bits,
            Flags::spec_from_bits(bits)@ == flags_view(bits),
            self@ == flags_view(self.bits()),
    {
    }

    /// Two flags words with the same fields are equal.
    pub proof fn lemma_view_eq(a: Flags, b: Flags)
        requires
            a@ == b@,
        ensures
            a == b,
    {
        lemma_flags_view_injective(a.bits, b.bits);
    }

    /// Creates a flags word with all fields zero: a standard query.
    pub fn new() -> (f: Flags)
        ensures
            f.bits() == 0,
            f@ == flags_view(0),
    {
        Flags { bits: 0 }
    }

    /// Returns the message type, the `QR` flag.
    pub fn message_type(self) -> (r: MessageType)
        ensures
            r == message_type_of(self@.qr),
    {
        if (self.bits >> 15u16) & 1 == 1 {
            MessageType::Response
        } else {
            MessageType::Query
        }
    }

    /// Sets the message type, the `QR` flag.
    pub fn set_message_type(&mut self, mt: MessageType) -> (r: &mut Flags)
        ensures
            *final(self) == *final(r),
            (*r)@ == (FlagsView { qr: mt == MessageType::Response, ..old(self)@ }),
    {
        let old_bits = self.bits;
        let b: u16 = match mt {
            MessageType::Query => 0,
            MessageType::Response => 1,
        };
        let new_bits = (old_bits & 0x7FFF) | (b << 15u16);
        assert(flags_view(new_bits) == (FlagsView { qr: b == 1, ..flags_view(old_bits) })) by {
            assert(((new_bits >> 15u16) & 1 == 1) == (b == 1) && (new_bits >> 11u16) & 0xF == (
            old_bits >> 11u16) & 0xF && (new_bits >> 10u16) & 1 == (old_bits >> 10u16) & 1 && (
            new_bits >> 9u16) & 1 == (old_bits >> 9u16) & 1 && (new_bits >> 8u16) & 1 == (old_bits
                >> 8u16) & 1 && (new_bits >> 7u16) & 1 == (old_bits >> 7u16) & 1 && (new_bits
                >> 4u16) & 7 == (old_bits >> 4u16) & 7 && new_bits & 0xF == old_bits & 0xF)
                by (bit_vector)
                requires
                    new_bits == (old_bits & 0x7FFF) | (b << 15u16),
                    b <= 1,
            ;
        }
        self.bits = new_bits;
        self
    }

    /// Returns the operation code.
    pub fn opcode(self) -> (r: OpCode)
        ensures
            r@ == self@.opcode,
    {
        let bits = self.bits;
        let w: u16 = (bits >> 11u16) & 0xF;
        assert(w < 16) by (bit_vector)
            requires
                w == (bits >> 11u16) & 0xF,
        ;
        let v: u8 = w as u8;
        let r = OpCode::from(v);
        proof {
            OpCode::lemma_from_value(v);
        }
        r
    }

    /// Sets the operation code; its low 4 bits are kept.
    pub fn set_opcode(&mut self, opcode: OpCode) -> (r: &mut Flags)
        ensures
            *final(self) == *final(r),
            (*r)@ == (FlagsView { opcode: (opcode@ % 16) as u16, ..old(self)@ }),
    {
        let old_bits = self.bits;
        let ov: u16 = opcode.value() as u16;
        let o: u16 = ov & 0xF;
        let new_bits = (old_bits & 0x87FF) | (o << 11u16);
        assert(o == ov % 16) by (bit_vector)
            requires
                o == ov & 0xF,
        ;
        assert(flags_view(new_bits) == (FlagsView { opcode: o, ..flags_view(old_bits) })) by {
            assert((new_bits >> 15u16) & 1 == (old_bits >> 15u16) & 1 && (new_bits >> 11u16) & 0xF
                == o && (new_bits >> 10u16) & 1 == (old_bits >> 10u16) & 1 && (new_bits >> 9u16)
                & 1 == (old_bits >> 9u16) & 1 && (new_bits >> 8u16) & 1 == (old_bits >> 8u16) & 1
                && (new_bits >> 7u16) & 1 == (old_bits >> 7u16) & 1 && (new_bits >> 4u16) & 7 == (
            old_bits >> 4u16) & 7 && new_bits & 0xF == old_bits & 0xF) by (bit_vector)
                requires
                    new_bits == (old_bits & 0x87FF) | (o << 11u16),
                    o <= 0xF,
            ;
        }
        self.bits = new_bits;
        self
    }

    /// Returns the `AA` flag: the answer is authoritative.
    pub fn authoritative_answer(self) -> (r: bool)
        ensures
            r == self@.aa,
    {
        (self.bits >> 10u16) & 1 == 1
    }

    /// Sets the `AA` flag.
    pub fn set_authoritative_answer(&mut self, value: bool) -> (r: &mut Flags)
        ensures
            *final(self) == *final(r),
            (*r)@ == (FlagsView { aa: value, ..old(self)@ }),
    {
        let old_bits = self.bits;
        let b: u16 = if value {
            1
        } else {
            0
        };
        let new_bits = (old_bits & 0xFBFF) | (b << 10u16);
        assert(flags_view(new_bits) == (FlagsView { aa: b == 1, ..flags_view(old_bits) })) by {
            assert((new_bits >> 15u16) & 1 == (old_bits >> 15u16) & 1 && (new_bits >> 11u16) & 0xF
                == (old_bits >> 11u16) & 0xF && ((new_bits >> 10u16) & 1 == 1) == (b == 1) && (
            new_bits >> 9u16) & 1 == (old_bits >> 9u16) & 1 && (new_bits >> 8u16) & 1 == (old_bits
                >> 8u16) & 1 && (new_bits >> 7u16) & 1 == (old_bits >> 7u16) & 1 && (new_bits
                >> 4u16) & 7 == (old_bits >> 4u16) & 7 && new_bits & 0xF == old_bits & 0xF)
                by (bit_vector)
                requires
                    new_bits == (old_bits & 0xFBFF) | (b << 10u16),
                    b <= 1,
            ;
        }
        self.bits = new_bits;
        self
    }

    /// Returns the `TC` flag: the message was truncated.
    pub fn truncated(self) -> (r: bool)
        ensures
            r == self@.tc,
    {
        (self.bits >> 9u16) & 1 == 1
    }

    /// Sets the `TC` flag.
    pub fn set_truncated(&mut self, value: bool) -> (r: &mut Flags)
        ensures
            *final(self) == *final(r),
            (*r)@ == (FlagsView { tc: value, ..old(self)@ }),
    {
        let old_bits = self.bits;
        let b: u16 = if value {
            1
        } else {
            0
        };
        let new_bits = (old_bits & 0xFDFF) | (b << 9u16);
        assert(flags_view(new_bits) == (FlagsView { tc: b == 1, ..flags_view(old_bits) })) by {
            assert((new_bits >> 15u16) & 1 == (old_bits >> 15u16) & 1 && (new_bits >> 11u16) & 0xF
                == (old_bits >> 11u16) & 0xF && (new_bits >> 10u16) & 1 == (old_bits >> 10u16) & 1
                && ((new_bits >> 9u16) & 1 == 1) == (b == 1) && (new_bits >> 8u16) & 1 == (old_bits
                >> 8u16) & 1 && (new_bits >> 7u16) & 1 == (old_bits >> 7u16) & 1 && (new_bits
                >> 4u16) & 7 == (old_bits >> 4u16) & 7 && new_bits & 0xF == old_bits & 0xF)
                by (bit_vector)
                requires
                    new_bits == (old_bits & 0xFDFF) | (b << 9u16),
                    b <= 1,
            ;
        }
        self.bits = new_bits;
        self
    }

    /// Returns the `RD` flag: recursion is desired.
    pub fn recursion_desired(self) -> (r: bool)
        ensures
            r == self@.rd,
    {
        (self.bits >> 8u16) & 1 == 1
    }

    /// Sets the `RD` flag.
    pub fn set_recursion_desired(&mut self, value: bool) -> (r: &mut Flags)
        ensures
            *final(self) == *final(r),
            (*r)@ == (FlagsView { rd: value, ..old(self)@ }),
    {
        let old_bits = self.bits;
        let b: u16 = if value {
            1
        } else {
            0
        };
        let new_bits = (old_bits & 0xFEFF) | (b << 8u16);
        assert(flags_view(new_bits) == (FlagsView { rd: b == 1, ..flags_view(old_bits) })) by {
            assert((new_bits >> 15u16) & 1 == (old_bits >> 15u16) & 1 && (new_bits >> 11u16) & 0xF
                == (old_bits >> 11u16) & 0xF && (new_bits >> 10u16) & 1 == (old_bits >> 10u16) & 1
                && (new_bits >> 9u16) & 1 == (old_bits >> 9u16) & 1 && ((new_bits >> 8u16) & 1 == 1)
                == (b == 1) && (new_bits >> 7u16) & 1 == (old_bits >> 7u16) & 1 && (new_bits
                >> 4u16) & 7 == (old_bits >> 4u16) & 7 && new_bits & 0xF == old_bits & 0xF)
                by (bit_vector)
                requires
                    new_bits == (old_bits & 0xFEFF) | (b << 8u16),
                    b <= 1,
            ;
        }
        self.bits = new_bits;
        self
    }

    /// Returns the `RA` flag: recursion is available.
    pub fn recursion_available(self) -> (r: bool)
        ensures
            r == self@.ra,
    {
        (self.bits >> 7u16) & 1 == 1
    }

    /// Sets the `RA` flag.
    pub fn set_recursion_available(&mut self, value: bool) -> (r: &mut Flags)
        ensures
            *final(self) == *final(r),
            (*r)@ == (FlagsView { ra: value, ..old(self)@ }),
    {
        let old_bits = self.bits;
        let b: u16 = if value {
            1
        } else {
            0
        };
        let new_bits = (old_bits & 0xFF7F) | (b << 7u16);
        assert(flags_view(new_bits) == (FlagsView { ra: b == 1, ..flags_view(old_bits) })) by {
            assert((new_bits >> 15u16) & 1 == (old_bits >> 15u16) & 1 && (new_bits >> 11u16) & 0xF
                == (old_bits >> 11u16) & 0xF && (new_bits >> 10u16) & 1 == (old_bits >> 10u16) & 1
                && (new_bits >> 9u16) & 1 == (old_bits >> 9u16) & 1 && (new_bits >> 8u16) & 1 == (
            old_bits >> 8u16) & 1 && ((new_bits >> 7u16) & 1 == 1) == (b == 1) && (new_bits
                >> 4u16) & 7 == (old_bits >> 4u16) & 7 && new_bits & 0xF == old_bits & 0xF)
                by (bit_vector)
                requires
                    new_bits == (old_bits & 0xFF7F) | (b << 7u16),
                    b <= 1,
            ;
        }
        self.bits = new_bits;
        self
    }

    /// Returns the response code of the header, 4 bits.
    pub fn response_code(self) -> (r: RCode)
        ensures
            r@ == self@.rcode,
    {
        let v: u16 = self.bits & 0xF;
        let r = RCode::from(v);
        proof {
            RCode::lemma_from_value(v);
        }
        r
    }

    /// Sets the response code of the header; the low 4 bits of the code are kept.
    pub fn set_response_code(&mut self, rcode: RCode) -> (r: &mut Flags)
        ensures
            *final(self) == *final(r),
            (*r)@ == (FlagsView { rcode: rcode@ % 16, ..old(self)@ }),
    {
        let old_bits = self.bits;
        let cv: u16 = rcode.value();
        let c: u16 = cv & 0xF;
        let new_bits = (old_bits & 0xFFF0) | c;
        assert(c == cv % 16) by (bit_vector)
            requires
                c == cv & 0xF,
        ;
        assert(flags_view(new_bits) == (FlagsView { rcode: c, ..flags_view(old_bits) })) by {
            assert((new_bits >> 15u16) & 1 == (old_bits >> 15u16) & 1 && (new_bits >> 11u16) & 0xF
                == (old_bits >> 11u16) & 0xF && (new_bits >> 10u16) & 1 == (old_bits >> 10u16) & 1
                && (new_bits >> 9u16) & 1 == (old_bits >> 9u16) & 1 && (new_bits >> 8u16) & 1 == (
            old_bits >> 8u16) & 1 && (new_bits >> 7u16) & 1 == (old_bits >> 7u16) & 1 && (new_bits
                >> 4u16) & 7 == (old_bits >> 4u16) & 7 && new_bits & 0xF == c) by (bit_vector)
                requires
                    new_bits == (old_bits & 0xFFF0) | c,
                    c <= 0xF,
            ;
        }
        self.bits = new_bits;
        self
    }
}

impl From<u16> for Flags {
    fn from(value: u16) -> (r: Flags) {
        Flags { bits: value }
    }
}

impl vstd::std_specs::convert::FromSpecImpl<u16> for Flags {
    open spec fn obeys_from_spec() -> bool {
        true
    }

    open spec fn from_spec(value: u16) -> Flags {
        Flags::spec_from_bits(value)
    }
}

impl From<Flags> for u16 {
    fn from(flags: Flags) -> (r: u16) {
        flags.bits
    }
}

impl vstd::std_specs::convert::FromSpecImpl<Flags> for u16 {
    open spec fn obeys_from_spec() -> bool {
        true
    }

    open spec fn from_spec(flags: Flags) -> u16 {
        flags.bits()
    }
}

} // verus!
