//! The records that KIS messages are made of.

use vstd::prelude::*;

use crate::order::{
    law_ordered_bytes_round_trip, law_ordered_round_trip, law_reading, ordered_u16, ordered_u32,
    ordered_u64, read_u16, read_u32, u16_bytes, u16_ordered, u32_bytes, u32_ordered, u64_bytes,
    u64_ordered, value, ByteOrder,
};

verus! {

/// How many bytes a [`KisHeader`] takes in a message.
pub const HEADER_LEN: usize = 12;

/// How many bytes a [`PaArgs`] takes in a message.
pub const PA_ARGS_LEN: usize = 12;

/// A part of the DebugUSB interface that messages are addressed to.
#[derive(Clone, Copy, Debug, PartialEq, Eq, Structural)]
pub enum KisPortal {
    Config,
    Pam,
    Ppm,
}

/// What a message asks its portal to do.
#[derive(Clone, Copy, Debug, PartialEq, Eq, Structural)]
pub enum KisCommand {
    /// Write to a register of the portal.
    Pcw,
    /// Read from a physical address.
    Par,
    /// Write to a physical address.
    Paw,
}

/// The endpoint that serves `portal` on a device of version `device_version`
/// (its `bcdDevice`), where that is known.
pub open spec fn portal_endpoint(portal: KisPortal, device_version: u16) -> Option<u8> {
    let two_pairs = device_version == 0x200 || device_version == 0x300 || device_version == 0x400;
    match portal {
        KisPortal::Config => Some(1u8),
        KisPortal::Pam => if device_version == 0x120 {
            Some(1u8)
        } else if two_pairs {
            Some(3u8)
        } else {
            None
        },
        KisPortal::Ppm => if device_version == 0x120 {
            Some(2u8)
        } else if two_pairs {
            Some(4u8)
        } else {
            None
        },
    }
}

impl KisPortal {
    /// The number by which headers name the portal.
    pub open spec fn number(self) -> u8 {
        match self {
            KisPortal::Config => 0x01,
            KisPortal::Pam => 0x11,
            KisPortal::Ppm => 0x13,
        }
    }

    /// The number by which headers name the portal.
    pub fn code(&self) -> (code: u8)
        ensures
            code == self.number(),
            *self == KisPortal::Config ==> code == 0x01,
            *self == KisPortal::Pam ==> code == 0x11,
            *self == KisPortal::Ppm ==> code == 0x13,
    {
        match self {
            KisPortal::Config => 0x01,
            KisPortal::Pam => 0x11,
            KisPortal::Ppm => 0x13,
        }
    }

    /// The endpoint that serves the portal on a device of version
    /// `device_version`, where that is known.
    pub fn endpoint_id(&self, device_version: u16) -> (endpoint: Option<u8>)
        ensures
            endpoint == portal_endpoint(*self, device_version),
            *self == KisPortal::Config ==> endpoint == Some(1u8),
            *self == KisPortal::Pam ==> (endpoint == Some(1u8) <==> device_version == 0x120),
            *self == KisPortal::Ppm ==> (endpoint == Some(2u8) <==> device_version == 0x120),
            *self == KisPortal::Pam ==> (endpoint == Some(3u8) <==> (device_version == 0x200
                || device_version == 0x300 || device_version == 0x400)),
            *self == KisPortal::Ppm ==> (endpoint == Some(4u8) <==> (device_version == 0x200
                || device_version == 0x300 || device_version == 0x400)),
            endpoint is None <==> *self != KisPortal::Config && device_version != 0x120
                && device_version != 0x200 && device_version != 0x300 && device_version != 0x400,
    {
        match (device_version, self) {
            (_, KisPortal::Config) => Some(1),
            // bcdDevice 1.20: M1 / Pro / Max
            (0x120, KisPortal::Pam) => Some(1),
            (0x120, KisPortal::Ppm) => Some(2),
            // bcdDevice 2.00: M2
            // bcdDevice 3.00: M2 Pro
            // bcdDevice 4.00: M3, M3 Max, M4, M4 Pro, A18 Pro
            (0x200 | 0x300 | 0x400, KisPortal::Pam) => Some(3),
            (0x200 | 0x300 | 0x400, KisPortal::Ppm) => Some(4),
            _ => None,
        }
    }
}

impl KisCommand {
    /// The number by which headers name the command.
    pub open spec fn number(self) -> u8 {
        match self {
            KisCommand::Pcw => 1,
            KisCommand::Par => 2,
            KisCommand::Paw => 3,
        }
    }

    /// The number by which headers name the command.
    pub fn code(&self) -> (code: u8)
        ensures
            code == self.number(),
            *self == KisCommand::Pcw ==> code == 1,
            *self == KisCommand::Par ==> code == 2,
            *self == KisCommand::Paw ==> code == 3,
    {
        match self {
            KisCommand::Pcw => 1,
            KisCommand::Par => 2,
            KisCommand::Paw => 3,
        }
    }
}

/// What every message starts with.
#[derive(Clone, Copy, Debug, PartialEq, Eq, Structural)]
pub struct KisHeader {
    pub sequence: u16,
    pub version: u8,
    pub portal: u8,
    pub command: u8,
    pub offset1: u8,
    pub offset2: u8,
    pub offset3: u8,
    /// How many bytes follow the header.
    pub args_len: u32,
}

/// The memory range that a read or a write of physical memory is about.
#[derive(Clone, Copy, Debug, PartialEq, Eq, Structural)]
pub struct PaArgs {
    pub addr: u64,
    pub length: u32,
}

/// The header that twelve bytes spell where integers are in the order `order`.
pub open spec fn header_of(bytes: Seq<u8>, order: ByteOrder) -> KisHeader {
    KisHeader {
        sequence: ordered_u16(bytes.subrange(0, 2), order),
        version: bytes[2],
        portal: bytes[3],
        command: bytes[4],
        offset1: bytes[5],
        offset2: bytes[6],
        offset3: bytes[7],
        args_len: ordered_u32(bytes.subrange(8, 12), order),
    }
}

/// The memory range that twelve bytes spell where integers are in the order
/// `order`.
pub open spec fn pa_args_of(bytes: Seq<u8>, order: ByteOrder) -> PaArgs {
    PaArgs {
        addr: ordered_u64(bytes.subrange(0, 8), order),
        length: ordered_u32(bytes.subrange(8, 12), order),
    }
}

impl KisHeader {
    /// The fields in order, without gaps, integers in the order `order`.
    pub open spec fn layout(self, order: ByteOrder) -> Seq<u8> {
        u16_ordered(self.sequence, order) + seq![
            self.version,
            self.portal,
            self.command,
            self.offset1,
            self.offset2,
            self.offset3,
        ] + u32_ordered(self.args_len, order)
    }

    /// The header as it stands in a message.
    pub fn as_bytes(&self, order: ByteOrder) -> (bytes: [u8; 12])
        ensures
            bytes@ == self.layout(order),
            value(bytes@.subrange(0, 2), order) == self.sequence,
            bytes@.subrange(2, 8) == seq![
                self.version,
                self.portal,
                self.command,
                self.offset1,
                self.offset2,
                self.offset3,
            ],
            value(bytes@.subrange(8, 12), order) == self.args_len,
    {
        let sequence = u16_bytes(self.sequence, order);
        let args_len = u32_bytes(self.args_len, order);
        let bytes = [
            sequence[0],
            sequence[1],
            self.version,
            self.portal,
            self.command,
            self.offset1,
            self.offset2,
            self.offset3,
            args_len[0],
            args_len[1],
            args_len[2],
            args_len[3],
        ];
        proof {
            law_ordered_round_trip(self.sequence, self.args_len, 0, order);
        }
        assert(bytes@ =~= sequence@ + seq![
            self.version,
            self.portal,
            self.command,
            self.offset1,
            self.offset2,
            self.offset3,
        ] + args_len@);
        proof {
            assert(bytes@.take(12) =~= bytes@);
            law_header_fields(bytes@, *self, order);
            assert(bytes@.subrange(2, 8) =~= seq![
                self.version,
                self.portal,
                self.command,
                self.offset1,
                self.offset2,
                self.offset3,
            ]);
        }
        bytes
    }

    /// The header that `bytes` spell; none unless there are exactly twelve.
    pub fn read_from_bytes(bytes: &[u8], order: ByteOrder) -> (header: Option<KisHeader>)
        ensures
            header is Some <==> bytes@.len() == HEADER_LEN,
            header matches Some(h) ==> h == header_of(bytes@, order),
            header is Some <==> bytes@.len() == 12,
            header matches Some(h) ==> h.sequence == value(bytes@.subrange(0, 2), order)
                && h.version == bytes@[2] && h.portal == bytes@[3] && h.command == bytes@[4]
                && h.offset1 == bytes@[5] && h.offset2 == bytes@[6] && h.offset3 == bytes@[7]
                && h.args_len == value(bytes@.subrange(8, 12), order),
    {
        if bytes.len() != HEADER_LEN {
            return None;
        }
        proof {
            law_header_is_read(bytes@, order);
        }
        assert(bytes@.subrange(0, 2) =~= seq![bytes@[0], bytes@[1]]);
        assert(bytes@.subrange(8, 12) =~= seq![bytes@[8], bytes@[9], bytes@[10], bytes@[11]]);
        Some(
            KisHeader {
                sequence: read_u16(bytes[0], bytes[1], order),
                version: bytes[2],
                portal: bytes[3],
                command: bytes[4],
                offset1: bytes[5],
                offset2: bytes[6],
                offset3: bytes[7],
                args_len: read_u32(bytes[8], bytes[9], bytes[10], bytes[11], order),
            },
        )
    }
}

impl PaArgs {
    /// The fields in order, without gaps, integers in the order `order`.
    pub open spec fn layout(self, order: ByteOrder) -> Seq<u8> {
        u64_ordered(self.addr, order) + u32_ordered(self.length, order)
    }

    /// The range as it stands in a message.
    pub fn as_bytes(&self, order: ByteOrder) -> (bytes: [u8; 12])
        ensures
            bytes@ == self.layout(order),
            value(bytes@.subrange(0, 8), order) == self.addr,
            value(bytes@.subrange(8, 12), order) == self.length,
    {
        let addr = u64_bytes(self.addr, order);
        let length = u32_bytes(self.length, order);
        let bytes = [
            addr[0],
            addr[1],
            addr[2],
            addr[3],
            addr[4],
            addr[5],
            addr[6],
            addr[7],
            length[0],
            length[1],
            length[2],
            length[3],
        ];
        assert(bytes@ =~= addr@ + length@);
        proof {
            assert(bytes@.take(12) =~= bytes@);
            law_pa_args_fields(bytes@, *self, order);
        }
        bytes
    }
}

/// A header takes twelve bytes, and reading them gives it back.
pub proof fn law_header_round_trip(header: KisHeader, order: ByteOrder)
    ensures
        header.layout(order).len() == HEADER_LEN,
        header_of(header.layout(order), order) == header,
{
    law_ordered_round_trip(header.sequence, header.args_len, 0, order);
    lemma_header_parts(
        u16_ordered(header.sequence, order),
        seq![
            header.version,
            header.portal,
            header.command,
            header.offset1,
            header.offset2,
            header.offset3,
        ],
        u32_ordered(header.args_len, order),
    );
}

/// The three parts of a header can be cut apart again.
proof fn lemma_header_parts(first: Seq<u8>, second: Seq<u8>, third: Seq<u8>)
    requires
        first.len() == 2,
        second.len() == 6,
        third.len() == 4,
    ensures
        (first + second + third).len() == 12,
        (first + second + third).subrange(0, 2) == first,
        (first + second + third).subrange(8, 12) == third,
        (first + second + third)[2] == second[0],
        (first + second + third)[3] == second[1],
        (first + second + third)[4] == second[2],
        (first + second + third)[5] == second[3],
        (first + second + third)[6] == second[4],
        (first + second + third)[7] == second[5],
{
    let all = first + second + third;
    assert(all.subrange(0, 2) =~= first);
    assert(all.subrange(8, 12) =~= third);
}

/// Twelve bytes are the layout of the header that they spell.
pub proof fn law_header_bytes_round_trip(bytes: Seq<u8>, order: ByteOrder)
    requires
        bytes.len() == HEADER_LEN,
    ensures
        header_of(bytes, order).layout(order) == bytes,
{
    law_ordered_bytes_round_trip(bytes.subrange(0, 2), bytes.subrange(8, 12), order);
    assert(bytes.subrange(0, 2) + seq![
        bytes[2],
        bytes[3],
        bytes[4],
        bytes[5],
        bytes[6],
        bytes[7],
    ] + bytes.subrange(8, 12) =~= bytes);
}

/// A memory range takes twelve bytes, and reading them gives it back.
pub proof fn law_pa_args_round_trip(args: PaArgs, order: ByteOrder)
    ensures
        args.layout(order).len() == PA_ARGS_LEN,
        pa_args_of(args.layout(order), order) == args,
{
    law_ordered_round_trip(0, args.length, args.addr, order);
    lemma_pa_args_parts(u64_ordered(args.addr, order), u32_ordered(args.length, order));
}

/// The two parts of a memory range can be cut apart again.
proof fn lemma_pa_args_parts(first: Seq<u8>, second: Seq<u8>)
    requires
        first.len() == 8,
        second.len() == 4,
    ensures
        (first + second).subrange(0, 8) == first,
        (first + second).subrange(8, 12) == second,
{
    assert((first + second).subrange(0, 8) =~= first);
    assert((first + second).subrange(8, 12) =~= second);
}

/// A device of some version has both the portal that takes reads and writes
/// and the portal that the UART reports on, or neither; and it has them
/// exactly if its version is 1.20, 2.00, 3.00 or 4.00. The configuration
/// portal is there on every version.
pub proof fn law_known_versions(device_version: u16)
    ensures
        portal_endpoint(KisPortal::Config, device_version) == Some(1u8),
        portal_endpoint(KisPortal::Pam, device_version) is Some <==> portal_endpoint(
            KisPortal::Ppm,
            device_version,
        ) is Some,
        portal_endpoint(KisPortal::Pam, device_version) is Some <==> (device_version == 0x120
            || device_version == 0x200 || device_version == 0x300 || device_version == 0x400),
{
}

/// Version 1.20 serves reads and writes on endpoint 1 and reports the UART on
/// endpoint 2; versions 2.00, 3.00 and 4.00 do so on endpoints 3 and 4.
pub proof fn law_endpoints_of_versions(device_version: u16)
    ensures
        device_version == 0x120 ==> portal_endpoint(KisPortal::Pam, device_version) == Some(1u8)
            && portal_endpoint(KisPortal::Ppm, device_version) == Some(2u8),
        device_version == 0x200 || device_version == 0x300 || device_version == 0x400
            ==> portal_endpoint(KisPortal::Pam, device_version) == Some(3u8) && portal_endpoint(
            KisPortal::Ppm,
            device_version,
        ) == Some(4u8),
        device_version != 0x120 && device_version != 0x200 && device_version != 0x300
            && device_version != 0x400 ==> portal_endpoint(KisPortal::Pam, device_version) is None
            && portal_endpoint(KisPortal::Ppm, device_version) is None,
{
}

/// Portals and commands are told apart by their numbers: configuration 0x01,
/// memory 0x11, reports 0x13; register write 1, memory read 2, memory write 3.
pub proof fn law_numbers(portal: KisPortal, command: KisCommand)
    ensures
        portal.number() == 0x01 <==> portal == KisPortal::Config,
        portal.number() == 0x11 <==> portal == KisPortal::Pam,
        portal.number() == 0x13 <==> portal == KisPortal::Ppm,
        command.number() == 1 <==> command == KisCommand::Pcw,
        command.number() == 2 <==> command == KisCommand::Par,
        command.number() == 3 <==> command == KisCommand::Paw,
{
}

/// Where the fields of a header stand in any bytes that begin with it, and
/// what they denote there.
#[verifier::spinoff_prover]
pub proof fn law_header_fields(bytes: Seq<u8>, header: KisHeader, order: ByteOrder)
    requires
        bytes.len() >= 12,
        bytes.take(12) == header.layout(order),
    ensures
        value(bytes.subrange(0, 2), order) == header.sequence,
        bytes[2] == header.version,
        bytes[3] == header.portal,
        bytes[4] == header.command,
        bytes[5] == header.offset1,
        bytes[6] == header.offset2,
        bytes[7] == header.offset3,
        value(bytes.subrange(8, 12), order) == header.args_len,
{
    law_header_round_trip(header, order);
    lemma_spelled_header(bytes.take(12), header, order);
    assert(bytes.take(12).subrange(0, 2) =~= bytes.subrange(0, 2));
    assert(bytes.take(12).subrange(8, 12) =~= bytes.subrange(8, 12));
}

proof fn lemma_spelled_header(spelled: Seq<u8>, header: KisHeader, order: ByteOrder)
    requires
        spelled.len() == 12,
        header_of(spelled, order) == header,
    ensures
        value(spelled.subrange(0, 2), order) == header.sequence,
        spelled[2] == header.version,
        spelled[3] == header.portal,
        spelled[4] == header.command,
        spelled[5] == header.offset1,
        spelled[6] == header.offset2,
        spelled[7] == header.offset3,
        value(spelled.subrange(8, 12), order) == header.args_len,
{
    law_reading(
        spelled.subrange(0, 2),
        spelled.subrange(8, 12),
        spelled.subrange(0, 8),
        order,
    );
}

/// What is read of twelve bytes: each field from its own bytes, whatever the
/// others are.
pub proof fn law_header_is_read(bytes: Seq<u8>, order: ByteOrder)
    requires
        bytes.len() == 12,
    ensures
        header_of(bytes, order).sequence == value(bytes.subrange(0, 2), order),
        header_of(bytes, order).version == bytes[2],
        header_of(bytes, order).portal == bytes[3],
        header_of(bytes, order).command == bytes[4],
        header_of(bytes, order).offset1 == bytes[5],
        header_of(bytes, order).offset2 == bytes[6],
        header_of(bytes, order).offset3 == bytes[7],
        header_of(bytes, order).args_len == value(bytes.subrange(8, 12), order),
{
    lemma_spelled_header(bytes, header_of(bytes, order), order);
}

/// Where the fields of a memory range stand in any bytes that begin with it,
/// and what they denote there.
#[verifier::spinoff_prover]
pub proof fn law_pa_args_fields(bytes: Seq<u8>, args: PaArgs, order: ByteOrder)
    requires
        bytes.len() >= 12,
        bytes.take(12) == args.layout(order),
    ensures
        value(bytes.subrange(0, 8), order) == args.addr,
        value(bytes.subrange(8, 12), order) == args.length,
{
    law_pa_args_round_trip(args, order);
    lemma_spelled_pa_args(bytes.take(12), args, order);
    assert(bytes.take(12).subrange(0, 8) =~= bytes.subrange(0, 8));
    assert(bytes.take(12).subrange(8, 12) =~= bytes.subrange(8, 12));
}

proof fn lemma_spelled_pa_args(spelled: Seq<u8>, args: PaArgs, order: ByteOrder)
    requires
        spelled.len() == 12,
        pa_args_of(spelled, order) == args,
    ensures
        value(spelled.subrange(0, 8), order) == args.addr,
        value(spelled.subrange(8, 12), order) == args.length,
{
    law_reading(
        spelled.subrange(0, 2),
        spelled.subrange(8, 12),
        spelled.subrange(0, 8),
        order,
    );
}

} // verus!
