//! A DebugUSB device: how it is found, and the requests that its UART takes.

use bytes::{Bytes, BytesMut};
use vstd::prelude::*;

use crate::buffer::{
    bytes_contents, bytes_mut_contents, get_u32_le, put, put_bytes, put_u32_le,
};
use crate::error::DebugUsbError;
use crate::le::{law_u32_round_trip, le_u32, u32_le};
use crate::order::{law_little_reading, law_writing, little_value, value, ByteOrder};
use crate::wire::{
    header_of, law_header_fields, law_header_round_trip, law_pa_args_fields,
    law_pa_args_round_trip, pa_args_of, portal_endpoint, KisCommand, KisHeader, KisPortal, PaArgs,
    HEADER_LEN, PA_ARGS_LEN,
};

verus! {

/// The USB vendor of DebugUSB devices.
pub const VENDOR_ID: u16 = 0x05ac;

/// The USB product of DebugUSB devices.
pub const PRODUCT_ID: u16 = 0x1881;

/// The configuration that is selected on a device.
pub const CONFIGURATION: u8 = 1;

/// The interface that is claimed of a device.
pub const INTERFACE: u8 = 0;

/// How long the reply to a request may take, in milliseconds.
pub const REQUEST_TIMEOUT_MILLIS: u64 = 2500;

/// Where the UART stands, above the base address.
pub const UART_OFFSET: u64 = 0x13_0000;

/// The register that tells how many bytes the UART can take.
pub const DATA_TX_FREE: u64 = 0x4014;

/// The register that takes one byte.
pub const DATA_TX8: u64 = 0x4004;

/// The register that takes two bytes.
pub const DATA_TX16: u64 = 0x4008;

/// The register that takes three bytes.
pub const DATA_TX24: u64 = 0x400c;

/// The register that takes whole words.
pub const DATA_TX32: u64 = 0x4010;

/// How many bytes the reply to the question for free space holds at least.
pub const TX_FREE_REPLY_LEN: usize = 24;

/// The version that every header carries.
pub const KIS_VERSION: u8 = 0xa0;

/// A message, and the endpoint that it is sent to and answered on.
#[derive(Debug)]
pub struct Request {
    pub endpoint: u8,
    pub message: Bytes,
}

impl Request {
    /// Whether this is the request that sends `message` to `endpoint`.
    pub open spec fn is(self, endpoint: u8, message: Seq<u8>) -> bool {
        self.endpoint == endpoint && bytes_contents(self.message) == message
    }
}

/// What is known of an attached device.
#[derive(Clone, Copy, Debug, PartialEq, Eq, Structural)]
pub struct DebugUsb {
    /// The version of the device, its `bcdDevice`.
    pub device_version: u16,
    /// The base address of the UART's registers.
    pub base: u64,
    /// How many bytes the UART can still take, as far as is known.
    pub capacity: usize,
    /// The byte order of the host, in which the records of messages are laid
    /// out. What else a message holds is little-endian on every host.
    pub order: ByteOrder,
}

/// Whether a USB device with these identifiers is a DebugUSB device.
pub open spec fn is_debugusb(ids: (u16, u16)) -> bool {
    ids.0 == VENDOR_ID && ids.1 == PRODUCT_ID
}

/// The position of the first DebugUSB device in a list of USB devices, given
/// by their vendor and product identifiers.
pub fn find_device<E>(devices: &[(u16, u16)]) -> (found: Result<usize, DebugUsbError<E>>)
    ensures
        match found {
            Ok(i) => {
                &&& i < devices@.len()
                &&& is_debugusb(devices@[i as int])
                &&& forall|j: int| 0 <= j < i ==> !is_debugusb(#[trigger] devices@[j])
            },
            Err(e) => {
                &&& e == DebugUsbError::<E>::DeviceNotFound
                &&& forall|j: int| 0 <= j < devices@.len() ==> !is_debugusb(#[trigger] devices@[j])
            },
        },
        found matches Ok(i) ==> i < devices@.len() && devices@[i as int] == (0x05acu16, 0x1881u16),
        found matches Ok(i) ==> forall|j: int|
            0 <= j < i ==> #[trigger] devices@[j] != (0x05acu16, 0x1881u16),
        found is Err <==> forall|j: int|
            0 <= j < devices@.len() ==> #[trigger] devices@[j] != (0x05acu16, 0x1881u16),
        found is Err ==> found == Err::<usize, DebugUsbError<E>>(DebugUsbError::DeviceNotFound),
{
    let mut i: usize = 0;
    while i < devices.len()
        invariant
            i <= devices@.len(),
            forall|j: int| 0 <= j < i ==> !is_debugusb(#[trigger] devices@[j]),
            forall|j: int| 0 <= j < i ==> #[trigger] devices@[j] != (0x05acu16, 0x1881u16),
        decreases devices@.len() - i,
    {
        if devices[i].0 == VENDOR_ID && devices[i].1 == PRODUCT_ID {
            return Ok(i);
        }
        i = i + 1;
    }
    Err(DebugUsbError::DeviceNotFound)
}

/// The message that reads `length` bytes at `addr`, sent under `sequence` to
/// the portal numbered `portal`, with `offset1` in the header.
pub open spec fn read_message(
    order: ByteOrder,
    sequence: u16,
    portal: u8,
    offset1: u8,
    addr: u64,
    length: u32,
) -> Seq<u8> {
    KisHeader {
        sequence,
        version: KIS_VERSION,
        portal,
        command: KisCommand::Par.number(),
        offset1,
        offset2: 0,
        offset3: 0,
        args_len: 12,
    }.layout(order) + PaArgs { addr, length }.layout(order)
}

/// The message that writes `value` to the register `offset1`, `offset2` of
/// `portal`.
pub open spec fn register_message(
    order: ByteOrder,
    sequence: u16,
    portal: KisPortal,
    offset1: u8,
    offset2: u8,
    value: u32,
) -> Seq<u8> {
    KisHeader {
        sequence,
        version: KIS_VERSION,
        portal: portal.number(),
        command: KisCommand::Pcw.number(),
        offset1,
        offset2,
        offset3: 0,
        args_len: 4,
    }.layout(order) + u32_le(value)
}

/// The message that reads the descriptor of the device.
pub open spec fn descriptor_message(order: ByteOrder) -> Seq<u8> {
    read_message(order, 0x0080, 0, 0x01, 0, 80)
}

/// The message that enables the portals.
pub open spec fn enable_portals_message(order: ByteOrder) -> Seq<u8> {
    register_message(order, 0xff02, KisPortal::Config, 0x16, 0x04, 0x3_0000)
}

/// The message that has the UART's output reported.
pub open spec fn uart_stream_message(order: ByteOrder) -> Seq<u8> {
    register_message(order, 0x1300, KisPortal::Ppm, 0x03, 0x04, 1)
}

/// The message that asks how many bytes the UART at `base` can take.
pub open spec fn tx_free_message(order: ByteOrder, base: u64) -> Seq<u8> {
    read_message(
        order,
        0x1155,
        KisPortal::Pam.number(),
        0,
        (base + UART_OFFSET + DATA_TX_FREE) as u64,
        4,
    )
}

/// The register that takes `len` bytes.
pub open spec fn tx_register(len: int) -> u64 {
    if len == 1 {
        DATA_TX8
    } else if len == 2 {
        DATA_TX16
    } else if len == 3 {
        DATA_TX24
    } else {
        DATA_TX32
    }
}

/// The least multiple of four that is at least `len`.
pub open spec fn padded(len: int) -> int {
    if len % 4 == 0 {
        len
    } else {
        len - len % 4 + 4
    }
}

/// `data` with as many zero bytes behind it as make it whole words.
pub open spec fn pad(data: Seq<u8>) -> Seq<u8> {
    data + Seq::new((padded(data.len() as int) - data.len()) as nat, |i: int| 0u8)
}

/// Whether so many bytes can be written at once: whole words, or at most one.
pub open spec fn is_aligned(len: int) -> bool {
    len <= 4 || len % 4 == 0
}

/// The length that a message states for `len` bytes of data: that of whole
/// words, of which the message holds the low 32 bits.
pub open spec fn stated_length(len: int) -> u32 {
    (padded(len) % 0x1_0000_0000) as u32
}

/// The header of the message that has the UART send `len` bytes.
pub open spec fn uart_tx_header(len: int) -> KisHeader {
    KisHeader {
        sequence: 0x1160,
        version: KIS_VERSION,
        portal: KisPortal::Pam.number(),
        command: KisCommand::Paw.number(),
        offset1: 0,
        offset2: 0,
        offset3: 0,
        args_len: (12 + stated_length(len)) as u32,
    }
}

/// The range that is written to have the UART at `base` send `len` bytes.
pub open spec fn uart_tx_args(base: u64, len: int) -> PaArgs {
    PaArgs { addr: (base + UART_OFFSET + tx_register(len)) as u64, length: stated_length(len) }
}

/// The message that has the UART at `base` send `data`.
pub open spec fn uart_tx_message(order: ByteOrder, base: u64, data: Seq<u8>) -> Seq<u8> {
    uart_tx_header(data.len() as int).layout(order) + uart_tx_args(
        base,
        data.len() as int,
    ).layout(order) + pad(data)
}

/// Whether `message` is a header, which counts what follows it, the range that
/// is written, which is whole words and as long as what follows it, the data in
/// order, and fewer than four zero bytes.
pub open spec fn is_write_frame(
    message: Seq<u8>,
    order: ByteOrder,
    header: KisHeader,
    args: PaArgs,
    data: Seq<u8>,
) -> bool {
    &&& header_of(message.take(12), order) == header
    &&& pa_args_of(message.subrange(12, 24), order) == args
    &&& header.args_len == message.len() - HEADER_LEN
    &&& args.length == message.len() - HEADER_LEN - PA_ARGS_LEN
    &&& args.length % 4 == 0
    &&& 24 + data.len() <= message.len() < 24 + data.len() + 4
    &&& message.subrange(24, 24 + data.len() as int) == data
    &&& forall|i: int| 24 + data.len() <= i < message.len() ==> #[trigger] message[i] == 0
}

/// Whether the reply to the question for free space, where there is one, is
/// long enough to hold the answer.
pub open spec fn tx_free_complete<E>(reply: Result<Bytes, E>) -> bool {
    reply matches Ok(message) ==> bytes_contents(message).len() >= TX_FREE_REPLY_LEN
}

/// What the reply to the question for free space says. Behind the header stand
/// the number of free bytes and a word that is zero where the read failed.
pub open spec fn tx_free_answer<E>(reply: Result<Bytes, E>) -> Result<usize, DebugUsbError<E>> {
    match reply {
        Ok(message) => {
            let bytes = bytes_contents(message);
            if le_u32(bytes.subrange(16, 20)) == 0 {
                Err(DebugUsbError::Read)
            } else {
                Ok(le_u32(bytes.subrange(12, 16)) as usize)
            }
        },
        Err(e) => Err(DebugUsbError::Io(e)),
    }
}

/// A message that reads memory is a header, which counts what follows it, and
/// the range that is read.
#[verifier::spinoff_prover]
pub proof fn law_read_message_framed(
    order: ByteOrder,
    sequence: u16,
    portal: u8,
    offset1: u8,
    addr: u64,
    length: u32,
)
    ensures
        ({
            let message = read_message(order, sequence, portal, offset1, addr, length);
            let header = header_of(message.take(12), order);
            &&& message.len() == 24
            &&& header.sequence == sequence && header.portal == portal && header.offset1 == offset1
            &&& header.command == KisCommand::Par.number()
            &&& header.args_len == message.len() - HEADER_LEN
            &&& pa_args_of(message.skip(12), order) == (PaArgs { addr, length })
        }),
{
    let message = read_message(order, sequence, portal, offset1, addr, length);
    let header = KisHeader {
        sequence,
        version: KIS_VERSION,
        portal,
        command: KisCommand::Par.number(),
        offset1,
        offset2: 0,
        offset3: 0,
        args_len: 12,
    };
    let args = PaArgs { addr, length };
    law_header_round_trip(header, order);
    law_pa_args_round_trip(args, order);
    assert(message.take(12) =~= header.layout(order));
    assert(message.skip(12) =~= args.layout(order));
}

/// A message that writes a register is a header, which counts what follows it,
/// and the value that is written.
#[verifier::spinoff_prover]
pub proof fn law_register_message_framed(
    order: ByteOrder,
    sequence: u16,
    portal: KisPortal,
    offset1: u8,
    offset2: u8,
    value: u32,
)
    ensures
        ({
            let message = register_message(order, sequence, portal, offset1, offset2, value);
            let header = header_of(message.take(12), order);
            &&& message.len() == 16
            &&& header.sequence == sequence && header.portal == portal.number()
            &&& header.offset1 == offset1 && header.offset2 == offset2
            &&& header.command == KisCommand::Pcw.number()
            &&& header.args_len == message.len() - HEADER_LEN
            &&& le_u32(message.skip(12)) == value
        }),
{
    let message = register_message(order, sequence, portal, offset1, offset2, value);
    let header = KisHeader {
        sequence,
        version: KIS_VERSION,
        portal: portal.number(),
        command: KisCommand::Pcw.number(),
        offset1,
        offset2,
        offset3: 0,
        args_len: 4,
    };
    law_header_round_trip(header, order);
    law_u32_round_trip(value);
    assert(message.take(12) =~= header.layout(order));
    assert(message.skip(12) =~= u32_le(value));
}

/// A message that has the UART send something is a frame of a write to the
/// register that takes so many bytes.
#[verifier::spinoff_prover]
pub proof fn law_uart_tx_message_framed(order: ByteOrder, base: u64, data: Seq<u8>)
    requires
        base + UART_OFFSET + tx_register(data.len() as int) <= u64::MAX,
        padded(data.len() as int) + PA_ARGS_LEN <= u32::MAX,
    ensures
        is_write_frame(
            uart_tx_message(order, base, data),
            order,
            uart_tx_header(data.len() as int),
            uart_tx_args(base, data.len() as int),
            data,
        ),
        uart_tx_message(order, base, data).len() == HEADER_LEN + PA_ARGS_LEN + padded(data.len() as int),
{
    lemma_stated_length(base, data.len() as int);
    lemma_write_frame(
        order,
        uart_tx_header(data.len() as int),
        uart_tx_args(base, data.len() as int),
        data,
    );
}

/// The lengths in a message are those of what they count, where they fit.
proof fn lemma_stated_length(base: u64, len: int)
    requires
        len >= 0,
        padded(len) + PA_ARGS_LEN <= u32::MAX,
    ensures
        uart_tx_header(len).args_len == PA_ARGS_LEN + padded(len),
        uart_tx_args(base, len).length == padded(len),
{
}

/// Two records and padded data make a frame where the lengths agree.
#[verifier::spinoff_prover]
proof fn lemma_write_frame(order: ByteOrder, header: KisHeader, args: PaArgs, data: Seq<u8>)
    requires
        header.args_len == PA_ARGS_LEN + padded(data.len() as int),
        args.length == padded(data.len() as int),
    ensures
        is_write_frame(header.layout(order) + args.layout(order) + pad(data), order, header, args, data),
        (header.layout(order) + args.layout(order) + pad(data)).len() == 24 + padded(data.len() as int),
{
    law_header_round_trip(header, order);
    law_pa_args_round_trip(args, order);
    lemma_frame_of_parts(header.layout(order), args.layout(order), order, header, args, data);
}

/// The bytes of two records and padded data make a frame where the lengths
/// agree.
#[verifier::spinoff_prover]
proof fn lemma_frame_of_parts(
    first: Seq<u8>,
    second: Seq<u8>,
    order: ByteOrder,
    header: KisHeader,
    args: PaArgs,
    data: Seq<u8>,
)
    requires
        first.len() == 12,
        second.len() == 12,
        header_of(first, order) == header,
        pa_args_of(second, order) == args,
        header.args_len == PA_ARGS_LEN + padded(data.len() as int),
        args.length == padded(data.len() as int),
    ensures
        is_write_frame(first + second + pad(data), order, header, args, data),
        (first + second + pad(data)).len() == 24 + padded(data.len() as int),
{
    lemma_parts(first, second, data);
    lemma_padded(data.len() as int);
}

/// The padded length is whole words and less than one word more.
proof fn lemma_padded(len: int)
    ensures
        padded(len) % 4 == 0,
        len <= padded(len) < len + 4,
{
}

/// Two records of twelve bytes and padded data can be cut apart again.
proof fn lemma_parts(first: Seq<u8>, second: Seq<u8>, data: Seq<u8>)
    requires
        first.len() == 12,
        second.len() == 12,
    ensures
        (first + second + pad(data)).len() == 24 + padded(data.len() as int),
        (first + second + pad(data)).take(12) == first,
        (first + second + pad(data)).subrange(12, 24) == second,
        (first + second + pad(data)).subrange(24, 24 + data.len() as int) == data,
        forall|i: int|
            24 + data.len() <= i < 24 + padded(data.len() as int) ==> #[trigger] (first + second
                + pad(data))[i] == 0,
{
    let all = first + second + pad(data);
    lemma_padded(data.len() as int);
    assert(all.take(12) =~= first);
    assert(all.subrange(12, 24) =~= second);
    assert(all.subrange(24, 24 + data.len() as int) =~= data);
}

/// A device is a DebugUSB device where its identifiers are these two and no
/// others.
pub proof fn law_identifiers(ids: (u16, u16))
    ensures
        is_debugusb(ids) <==> ids == (0x05acu16, 0x1881u16),
{
}

/// What stands at each place of a message that begins with a header and a
/// range.
#[verifier::spinoff_prover]
proof fn lemma_record_fields(message: Seq<u8>, order: ByteOrder, header: KisHeader, args: PaArgs)
    requires
        message.len() >= 24,
        message.take(12) == header.layout(order),
        message.subrange(12, 24) == args.layout(order),
    ensures
        value(message.subrange(0, 2), order) == header.sequence,
        message[2] == header.version,
        message[3] == header.portal,
        message[4] == header.command,
        message[5] == header.offset1,
        message[6] == header.offset2,
        message[7] == header.offset3,
        value(message.subrange(8, 12), order) == header.args_len,
        value(message.subrange(12, 20), order) == args.addr,
        value(message.subrange(20, 24), order) == args.length,
{
    law_header_fields(message, header, order);
    let behind = message.skip(12);
    assert(behind.take(12) =~= message.subrange(12, 24));
    law_pa_args_fields(behind, args, order);
    assert(behind.subrange(0, 8) =~= message.subrange(12, 20));
    assert(behind.subrange(8, 12) =~= message.subrange(20, 24));
}

/// What stands at each place of a message that reads memory, whatever is read.
#[verifier::spinoff_prover]
pub proof fn law_read_message_fields(
    order: ByteOrder,
    sequence: u16,
    portal: u8,
    offset1: u8,
    addr: u64,
    length: u32,
)
    ensures
        ({
            let message = read_message(order, sequence, portal, offset1, addr, length);
            &&& message.len() == 24
            &&& value(message.subrange(0, 2), order) == sequence
            &&& message[2] == 0xa0
            &&& message[3] == portal
            &&& message[4] == 2
            &&& message[5] == offset1
            &&& message[6] == 0
            &&& message[7] == 0
            &&& value(message.subrange(8, 12), order) == 12
            &&& value(message.subrange(12, 20), order) == addr
            &&& value(message.subrange(20, 24), order) == length
        }),
{
    let message = read_message(order, sequence, portal, offset1, addr, length);
    let header = KisHeader {
        sequence,
        version: KIS_VERSION,
        portal,
        command: KisCommand::Par.number(),
        offset1,
        offset2: 0,
        offset3: 0,
        args_len: 12,
    };
    let args = PaArgs { addr, length };
    law_header_round_trip(header, order);
    law_pa_args_round_trip(args, order);
    assert(message.take(12) =~= header.layout(order));
    assert(message.subrange(12, 24) =~= args.layout(order));
    lemma_record_fields(message, order, header, args);
}

/// What stands at each place of a message that writes a register. The value is
/// least significant first on every host.
#[verifier::spinoff_prover]
pub proof fn law_register_message_fields(
    order: ByteOrder,
    sequence: u16,
    portal: KisPortal,
    offset1: u8,
    offset2: u8,
    written: u32,
)
    ensures
        ({
            let message = register_message(order, sequence, portal, offset1, offset2, written);
            &&& message.len() == 16
            &&& value(message.subrange(0, 2), order) == sequence
            &&& message[2] == 0xa0
            &&& message[3] == match portal {
                KisPortal::Config => 0x01int,
                KisPortal::Pam => 0x11int,
                KisPortal::Ppm => 0x13int,
            }
            &&& message[4] == 1
            &&& message[5] == offset1
            &&& message[6] == offset2
            &&& message[7] == 0
            &&& value(message.subrange(8, 12), order) == 4
            &&& little_value(message.subrange(12, 16)) == written
        }),
{
    let message = register_message(order, sequence, portal, offset1, offset2, written);
    let header = KisHeader {
        sequence,
        version: KIS_VERSION,
        portal: portal.number(),
        command: KisCommand::Pcw.number(),
        offset1,
        offset2,
        offset3: 0,
        args_len: 4,
    };
    law_header_round_trip(header, order);
    law_writing(0, written, 0, order);
    assert(message.take(12) =~= header.layout(order));
    assert(message.subrange(12, 16) =~= u32_le(written));
    law_header_fields(message, header, order);
}

/// The requests that bring a device up, as they stand on the wire: 80 bytes at
/// address 0 are read as the descriptor; 0x3_0000 is written to register
/// 0x16, 4 of the configuration portal; 1 is written to register 3, 4 of the
/// reporting portal.
pub proof fn law_setup_messages(order: ByteOrder)
    ensures
        ({
            let message = descriptor_message(order);
            &&& message.len() == 24
            &&& value(message.subrange(0, 2), order) == 0x80
            &&& message.subrange(2, 8) == seq![0xa0u8, 0, 2, 1, 0, 0]
            &&& value(message.subrange(8, 12), order) == 12
            &&& value(message.subrange(12, 20), order) == 0
            &&& value(message.subrange(20, 24), order) == 80
        }),
        ({
            let message = enable_portals_message(order);
            &&& message.len() == 16
            &&& value(message.subrange(0, 2), order) == 0xff02
            &&& message.subrange(2, 8) == seq![0xa0u8, 0x01, 1, 0x16, 4, 0]
            &&& value(message.subrange(8, 12), order) == 4
            &&& little_value(message.subrange(12, 16)) == 0x3_0000
        }),
        ({
            let message = uart_stream_message(order);
            &&& message.len() == 16
            &&& value(message.subrange(0, 2), order) == 0x1300
            &&& message.subrange(2, 8) == seq![0xa0u8, 0x13, 1, 3, 4, 0]
            &&& value(message.subrange(8, 12), order) == 4
            &&& little_value(message.subrange(12, 16)) == 1
        }),
{
    law_read_message_fields(order, 0x0080, 0, 0x01, 0, 80);
    law_register_message_fields(order, 0xff02, KisPortal::Config, 0x16, 0x04, 0x3_0000);
    law_register_message_fields(order, 0x1300, KisPortal::Ppm, 0x03, 0x04, 1);
}

/// The question for free space reads the four bytes at 0x13_4014 above the
/// base, whatever the base is.
pub proof fn law_tx_free_message_fields(order: ByteOrder, base: u64)
    requires
        base + 0x13_4014 <= u64::MAX,
    ensures
        ({
            let message = tx_free_message(order, base);
            &&& message.len() == 24
            &&& value(message.subrange(0, 2), order) == 0x1155
            &&& message.subrange(2, 8) == seq![0xa0u8, 0x11, 2, 0, 0, 0]
            &&& value(message.subrange(8, 12), order) == 12
            &&& value(message.subrange(12, 20), order) == base + 0x13_4014
            &&& value(message.subrange(20, 24), order) == 4
        }),
{
    law_read_message_fields(
        order,
        0x1155,
        KisPortal::Pam.number(),
        0,
        (base + UART_OFFSET + DATA_TX_FREE) as u64,
        4,
    );
}

/// What a write to the UART addresses: 0x13_0000 above the base stand the
/// registers, of which one byte goes to 0x4004, two go to 0x4008, three to
/// 0x400c and any other number to 0x4010. So it is for every base and every
/// data.
#[verifier::spinoff_prover]
pub proof fn law_uart_tx_address(order: ByteOrder, base: u64, data: Seq<u8>)
    requires
        base + 0x13_0000 + (if data.len() == 1 {
            0x4004int
        } else if data.len() == 2 {
            0x4008
        } else if data.len() == 3 {
            0x400c
        } else {
            0x4010
        }) <= u64::MAX,
    ensures
        value(uart_tx_message(order, base, data).subrange(12, 20), order) == base + 0x13_0000 + (
        if data.len() == 1 {
            0x4004int
        } else if data.len() == 2 {
            0x4008
        } else if data.len() == 3 {
            0x400c
        } else {
            0x4010
        }),
{
    lemma_uart_tx_fields(order, base, data);
}

/// The fields of a write are those of its header and its range, and behind them
/// stands the padded data.
#[verifier::spinoff_prover]
proof fn lemma_uart_tx_fields(order: ByteOrder, base: u64, data: Seq<u8>)
    ensures
        ({
            let message = uart_tx_message(order, base, data);
            let header = uart_tx_header(data.len() as int);
            let args = uart_tx_args(base, data.len() as int);
            &&& message.len() == 24 + padded(data.len() as int)
            &&& message.take(12) == header.layout(order)
            &&& message.subrange(12, 24) == args.layout(order)
            &&& message.subrange(24, 24 + data.len() as int) == data
            &&& forall|i: int| 24 + data.len() <= i < message.len() ==> #[trigger] message[i] == 0
            &&& value(message.subrange(0, 2), order) == header.sequence
            &&& message[2] == header.version
            &&& message[3] == header.portal
            &&& message[4] == header.command
            &&& message[5] == header.offset1
            &&& message[6] == header.offset2
            &&& message[7] == header.offset3
            &&& value(message.subrange(8, 12), order) == header.args_len
            &&& value(message.subrange(12, 20), order) == args.addr
            &&& value(message.subrange(20, 24), order) == args.length
        }),
{
    let header = uart_tx_header(data.len() as int);
    let args = uart_tx_args(base, data.len() as int);
    law_header_round_trip(header, order);
    law_pa_args_round_trip(args, order);
    lemma_padded(data.len() as int);
    lemma_parts(header.layout(order), args.layout(order), data);
    lemma_record_fields(uart_tx_message(order, base, data), order, header, args);
}

/// What a write to the UART carries, whatever its length: behind a memory write
/// to portal 0x11 and its range stand the data and as few zero bytes as make
/// whole words. The range is as long as what stands behind it, and the header
/// counts twelve bytes more; both hold the low 32 bits.
#[verifier::spinoff_prover]
pub proof fn law_uart_tx_message_fields(order: ByteOrder, base: u64, data: Seq<u8>)
    ensures
        ({
            let message = uart_tx_message(order, base, data);
            &&& 24 + data.len() <= message.len() < 28 + data.len()
            &&& message.len() % 4 == 0
            &&& value(message.subrange(0, 2), order) == 0x1160
            &&& message[2] == 0xa0
            &&& message[3] == 0x11
            &&& message[4] == 3
            &&& message[5] == 0
            &&& message[6] == 0
            &&& message[7] == 0
            &&& value(message.subrange(20, 24), order) == (message.len() - 24) % 0x1_0000_0000
            &&& value(message.subrange(20, 24), order) + 12 < 0x1_0000_0000 ==> value(
                message.subrange(8, 12),
                order,
            ) == value(message.subrange(20, 24), order) + 12
            &&& message.subrange(24, 24 + data.len() as int) == data
            &&& forall|i: int| 24 + data.len() <= i < message.len() ==> #[trigger] message[i] == 0
        }),
{
    lemma_uart_tx_fields(order, base, data);
    lemma_padded(data.len() as int);
}

/// The base moves the address and nothing else: of two devices that differ in
/// their base alone, the same data is written at addresses that lie as far
/// apart as the bases, and the rest of the messages is the same.
#[verifier::spinoff_prover]
pub proof fn law_uart_tx_follows_the_base(order: ByteOrder, base: u64, other: u64, data: Seq<u8>)
    requires
        base + 0x13_4010 <= u64::MAX,
        other + 0x13_4010 <= u64::MAX,
    ensures
        ({
            let message = uart_tx_message(order, base, data);
            let moved = uart_tx_message(order, other, data);
            &&& value(message.subrange(12, 20), order) - value(moved.subrange(12, 20), order)
                == base - other
            &&& message.len() == moved.len()
            &&& message.take(12) == moved.take(12)
            &&& value(message.subrange(20, 24), order) == value(moved.subrange(20, 24), order)
            &&& message.skip(24) == moved.skip(24)
        }),
{
    law_uart_tx_address(order, base, data);
    law_uart_tx_address(order, other, data);
    lemma_uart_tx_fields(order, base, data);
    lemma_uart_tx_fields(order, other, data);
    let message = uart_tx_message(order, base, data);
    let moved = uart_tx_message(order, other, data);
    assert forall|i: int| 0 <= i < message.len() - 24 implies message.skip(24)[i] == moved.skip(
        24,
    )[i] by {
        if i < data.len() {
            assert(message.subrange(24, 24 + data.len() as int)[i] == data[i]);
            assert(moved.subrange(24, 24 + data.len() as int)[i] == data[i]);
        } else {
            assert(message[24 + i] == 0);
            assert(moved[24 + i] == 0);
        }
    }
    assert(message.skip(24) =~= moved.skip(24));
}

/// The questions for free space at two bases address registers that lie as far
/// apart as the bases.
pub proof fn law_tx_free_follows_the_base(order: ByteOrder, base: u64, other: u64)
    requires
        base + 0x13_4014 <= u64::MAX,
        other + 0x13_4014 <= u64::MAX,
    ensures
        value(tx_free_message(order, base).subrange(12, 20), order) - value(
            tx_free_message(order, other).subrange(12, 20),
            order,
        ) == base - other,
{
    law_tx_free_message_fields(order, base);
    law_tx_free_message_fields(order, other);
}

/// What is read of a reply to the question for free space that is made of a
/// header, the free bytes, a status and at least a word more: exactly what is
/// free where the status is not zero, and a failed read where it is.
pub proof fn law_tx_free_is_read<E>(
    message: Bytes,
    header: Seq<u8>,
    free: u32,
    status: u32,
    tail: Seq<u8>,
)
    requires
        header.len() == 12,
        tail.len() >= 4,
        bytes_contents(message) == header + u32_le(free) + u32_le(status) + tail,
    ensures
        tx_free_complete(Ok::<Bytes, E>(message)),
        status != 0 ==> (tx_free_answer(Ok::<Bytes, E>(message)) matches Ok(n) && n == free),
        status == 0 ==> tx_free_answer(Ok::<Bytes, E>(message)) == Err::<usize, DebugUsbError<E>>(
            DebugUsbError::Read,
        ),
{
    law_writing(0, free, 0, ByteOrder::Little);
    law_writing(0, status, 0, ByteOrder::Little);
    law_tx_free_bytes_are_read::<E>(message, header, u32_le(free), u32_le(status), tail);
}

/// The same, of the bytes that the number of free bytes and the status are on
/// the wire: both are least significant first on every host.
pub proof fn law_tx_free_bytes_are_read<E>(
    message: Bytes,
    header: Seq<u8>,
    free: Seq<u8>,
    status: Seq<u8>,
    tail: Seq<u8>,
)
    requires
        header.len() == 12,
        free.len() == 4,
        status.len() == 4,
        tail.len() >= 4,
        bytes_contents(message) == header + free + status + tail,
    ensures
        tx_free_complete(Ok::<Bytes, E>(message)),
        little_value(status) != 0 ==> (tx_free_answer(Ok::<Bytes, E>(message)) matches Ok(n) && n
            == little_value(free)),
        little_value(status) == 0 ==> tx_free_answer(Ok::<Bytes, E>(message)) == Err::<
            usize,
            DebugUsbError<E>,
        >(DebugUsbError::Read),
{
    let bytes = bytes_contents(message);
    assert(bytes.subrange(12, 16) =~= free);
    assert(bytes.subrange(16, 20) =~= status);
    law_little_reading(seq![0u8, 0], free, seq![0u8, 0, 0, 0, 0, 0, 0, 0]);
    law_little_reading(seq![0u8, 0], status, seq![0u8, 0, 0, 0, 0, 0, 0, 0]);
}

/// A request is told by its endpoint and all of its message.
pub proof fn law_request_is(request: Request, endpoint: u8, message: Seq<u8>)
    ensures
        request.is(endpoint, message) <==> request.endpoint == endpoint && bytes_contents(
            request.message,
        ) == message,
{
}

/// What can be written at once: as many bytes as are free, one to three of them
/// or whole words, to a register that has an address, in a message that fits a
/// buffer and counts its bytes in 32 bits.
pub proof fn law_what_is_taken(device: DebugUsb, len: nat, register: u64)
    ensures
        device.reaches(register) <==> device.base + 0x13_0000 + register <= u64::MAX,
        is_aligned(len as int) <==> len == 1 || len == 2 || len == 3 || len % 4 == 0,
        device.takes(len as int) <==> {
            let whole = (len + 3) / 4 * 4;
            &&& len <= device.capacity
            &&& device.base + 0x13_0000 + (if len == 1 {
                0x4004int
            } else if len == 2 {
                0x4008
            } else if len == 3 {
                0x400c
            } else {
                0x4010
            }) <= u64::MAX
            &&& whole % 0x1_0000_0000 + 12 < 0x1_0000_0000
            &&& whole + 24 <= isize::MAX
        },
{
    lemma_padded(len as int);
}

/// An exchange that failed is passed on as the cause of an I/O error.
pub proof fn law_failed_exchange_is_passed_on<E>(error: E)
    ensures
        tx_free_complete(Err::<Bytes, E>(error)),
        tx_free_answer(Err::<Bytes, E>(error)) == Err::<usize, DebugUsbError<E>>(
            DebugUsbError::Io(error),
        ),
{
}

fn append_header(buf: &mut BytesMut, header: &KisHeader, order: ByteOrder)
    requires
        bytes_mut_contents(*old(buf)).len() + HEADER_LEN <= isize::MAX,
    ensures
        bytes_mut_contents(*final(buf)) == bytes_mut_contents(*old(buf)) + header.layout(order),
{
    let bytes = header.as_bytes(order);
    buf.extend_from_slice(bytes.as_slice());
}

fn append_pa_args(buf: &mut BytesMut, args: &PaArgs, order: ByteOrder)
    requires
        bytes_mut_contents(*old(buf)).len() + PA_ARGS_LEN <= isize::MAX,
    ensures
        bytes_mut_contents(*final(buf)) == bytes_mut_contents(*old(buf)) + args.layout(order),
{
    let bytes = args.as_bytes(order);
    buf.extend_from_slice(bytes.as_slice());
}

/// The message that [`read_message`] describes.
#[verifier::spinoff_prover]
fn read_command(
    order: ByteOrder,
    sequence: u16,
    portal: u8,
    offset1: u8,
    addr: u64,
    length: u32,
) -> (message: Bytes)
    ensures
        bytes_contents(message) == read_message(order, sequence, portal, offset1, addr, length),
{
    let header = KisHeader {
        sequence,
        version: KIS_VERSION,
        portal,
        command: KisCommand::Par.code(),
        offset1,
        offset2: 0,
        offset3: 0,
        args_len: 12,
    };
    let args = PaArgs { addr, length };
    proof {
        law_header_round_trip(header, order);
        law_pa_args_round_trip(args, order);
    }
    let mut buf = BytesMut::new();
    append_header(&mut buf, &header, order);
    append_pa_args(&mut buf, &args, order);
    assert(bytes_mut_contents(buf) =~= header.layout(order) + args.layout(order));
    buf.freeze()
}

/// The message that [`register_message`] describes.
#[verifier::spinoff_prover]
fn register_command(
    order: ByteOrder,
    sequence: u16,
    portal: KisPortal,
    offset1: u8,
    offset2: u8,
    value: u32,
) -> (message: Bytes)
    ensures
        bytes_contents(message) == register_message(order, sequence, portal, offset1, offset2, value),
{
    let header = KisHeader {
        sequence,
        version: KIS_VERSION,
        portal: portal.code(),
        command: KisCommand::Pcw.code(),
        offset1,
        offset2,
        offset3: 0,
        args_len: 4,
    };
    proof {
        law_header_round_trip(header, order);
    }
    let mut buf = BytesMut::new();
    append_header(&mut buf, &header, order);
    put_u32_le(&mut buf, value);
    assert(bytes_mut_contents(buf) =~= header.layout(order) + u32_le(value));
    buf.freeze()
}

/// The message made of `header`, `args`, `data` and `padding` zero bytes.
#[verifier::spinoff_prover]
fn write_command(
    order: ByteOrder,
    header: &KisHeader,
    args: &PaArgs,
    data: Bytes,
    padding: usize,
) -> (message: Bytes)
    requires
        HEADER_LEN + PA_ARGS_LEN + bytes_contents(data).len() + padding <= isize::MAX,
    ensures
        bytes_contents(message) == header.layout(order) + args.layout(order) + (bytes_contents(data)
            + Seq::new(padding as nat, |i: int| 0u8)),
{
    proof {
        law_header_round_trip(*header, order);
        law_pa_args_round_trip(*args, order);
    }
    let ghost sent = bytes_contents(data);
    let mut buf = BytesMut::new();
    append_header(&mut buf, header, order);
    append_pa_args(&mut buf, args, order);
    put(&mut buf, data);
    put_bytes(&mut buf, 0, padding);
    proof {
        lemma_assembled(
            header.layout(order),
            args.layout(order),
            sent,
            Seq::new(padding as nat, |i: int| 0u8),
        );
    }
    buf.freeze()
}

/// The header and the range of the message that has the UART at `base` send
/// `len` bytes, and how many zero bytes make them whole words.
#[verifier::spinoff_prover]
fn uart_tx_records(base: u64, len: usize) -> (records: (KisHeader, PaArgs, usize))
    requires
        is_aligned(len as int),
        base + UART_OFFSET + tx_register(len as int) <= u64::MAX,
        padded(len as int) % 0x1_0000_0000 + 12 <= u32::MAX,
    ensures
        records.0 == uart_tx_header(len as int),
        records.1 == uart_tx_args(base, len as int),
        records.2 == padded(len as int) - len,
{
    let payload_len: usize = if len.is_multiple_of(4) {
        len
    } else {
        4
    };
    proof {
        lemma_padded(len as int);
    }
    assert(payload_len == padded(len as int));
    let length: u32 = (payload_len as u64 % 0x1_0000_0000) as u32;
    assert(length == stated_length(len as int));
    let header = KisHeader {
        sequence: 0x1160,
        version: KIS_VERSION,
        portal: KisPortal::Pam.code(),
        command: KisCommand::Paw.code(),
        offset1: 0,
        offset2: 0,
        offset3: 0,
        args_len: 12 + length,
    };
    let register: u64 = match len {
        1 => DATA_TX8,
        2 => DATA_TX16,
        3 => DATA_TX24,
        _ => DATA_TX32,
    };
    let args = PaArgs { addr: base + UART_OFFSET + register, length };
    (header, args, payload_len - len)
}

/// The message that [`uart_tx_message`] describes.
#[verifier::spinoff_prover]
fn uart_tx_command(order: ByteOrder, base: u64, data: Bytes) -> (message: Bytes)
    requires
        is_aligned(bytes_contents(data).len() as int),
        base + UART_OFFSET + tx_register(bytes_contents(data).len() as int) <= u64::MAX,
        padded(bytes_contents(data).len() as int) % 0x1_0000_0000 + 12 <= u32::MAX,
        padded(bytes_contents(data).len() as int) + HEADER_LEN + PA_ARGS_LEN <= isize::MAX,
    ensures
        bytes_contents(message) == uart_tx_message(order, base, bytes_contents(data)),
{
    let (header, args, padding) = uart_tx_records(base, data.len());
    write_command(order, &header, &args, data, padding)
}

/// Appending four parts one after the other gives them in order.
proof fn lemma_assembled(a: Seq<u8>, b: Seq<u8>, c: Seq<u8>, d: Seq<u8>)
    ensures
        Seq::<u8>::empty() + a + b + c + d == a + b + (c + d),
{
    assert(Seq::<u8>::empty() + a + b + c + d =~= a + b + (c + d));
}

/// The request that reads the descriptor of a device.
pub fn descriptor_request(device_version: u16, order: ByteOrder) -> (request: Request)
    ensures
        request.is(1, descriptor_message(order)),
        request.endpoint == 1,
        value(bytes_contents(request.message).subrange(12, 20), order) == 0,
        value(bytes_contents(request.message).subrange(20, 24), order) == 80,
{
    proof {
        law_setup_messages(order);
    }
    let endpoint = KisPortal::Config.endpoint_id(device_version).unwrap();
    Request { endpoint, message: read_command(order, 0x0080, 0, 0x01, 0, 80) }
}

impl DebugUsb {
    /// Whether `register` of the UART has an address: where the base is so
    /// high that it has none, no message can name it.
    pub open spec fn reaches(self, register: u64) -> bool {
        self.base + UART_OFFSET + register <= u64::MAX
    }

    /// Where messages that read and write physical memory go.
    pub open spec fn memory_endpoint(self) -> Option<u8> {
        portal_endpoint(KisPortal::Pam, self.device_version)
    }

    /// Whether every register of the UART has an address.
    pub fn base_in_range(&self) -> (in_range: bool)
        ensures
            in_range == self.reaches(DATA_TX_FREE),
            in_range ==> forall|len: int| self.reaches(#[trigger] tx_register(len)),
            in_range <==> self.base + 0x13_4014 <= u64::MAX,
    {
        self.base <= u64::MAX - UART_OFFSET - DATA_TX_FREE
    }

    /// The request that enables the portals.
    pub fn enable_portals(&self) -> (request: Request)
        ensures
            request.is(1, enable_portals_message(self.order)),
            request.endpoint == 1,
            bytes_contents(request.message).subrange(2, 8) == seq![0xa0u8, 0x01, 1, 0x16, 4, 0],
            little_value(bytes_contents(request.message).subrange(12, 16)) == 0x3_0000,
    {
        proof {
            law_setup_messages(self.order);
        }
        let endpoint = KisPortal::Config.endpoint_id(self.device_version).unwrap();
        Request {
            endpoint,
            message: register_command(self.order, 0xff02, KisPortal::Config, 0x16, 0x04, 0x3_0000),
        }
    }

    /// The request that has the UART's output reported.
    pub fn uart_stream<E>(&self) -> (request: Result<Request, DebugUsbError<E>>)
        ensures
            match self.memory_endpoint() {
                Some(endpoint) => request matches Ok(r) && r.is(
                    endpoint,
                    uart_stream_message(self.order),
                ),
                None => request == Err::<Request, DebugUsbError<E>>(
                    DebugUsbError::MissingEndpoint(KisPortal::Pam, self.device_version),
                ),
            },
            request is Ok <==> self.device_version == 0x120 || self.device_version == 0x200
                || self.device_version == 0x300 || self.device_version == 0x400,
            request matches Ok(r) ==> {
                &&& r.endpoint == if self.device_version == 0x120 {
                    1int
                } else {
                    3
                }
                &&& bytes_contents(r.message).subrange(2, 8) == seq![0xa0u8, 0x13, 1, 3, 4, 0]
                &&& little_value(bytes_contents(r.message).subrange(12, 16)) == 1
            },
    {
        proof {
            law_setup_messages(self.order);
        }
        match KisPortal::Pam.endpoint_id(self.device_version) {
            Some(endpoint) => Ok(
                Request {
                    endpoint,
                    message: register_command(self.order, 0x1300, KisPortal::Ppm, 0x03, 0x04, 1),
                },
            ),
            None => Err(DebugUsbError::MissingEndpoint(KisPortal::Pam, self.device_version)),
        }
    }

    /// The request that asks how many bytes the UART can take.
    pub fn uart_tx_free<E>(&self) -> (request: Result<Request, DebugUsbError<E>>)
        requires
            self.memory_endpoint() is Some ==> self.reaches(DATA_TX_FREE),
        ensures
            match self.memory_endpoint() {
                Some(endpoint) => request matches Ok(r) && r.is(
                    endpoint,
                    tx_free_message(self.order, self.base),
                ),
                None => request == Err::<Request, DebugUsbError<E>>(
                    DebugUsbError::MissingEndpoint(KisPortal::Pam, self.device_version),
                ),
            },
            request is Ok <==> self.device_version == 0x120 || self.device_version == 0x200
                || self.device_version == 0x300 || self.device_version == 0x400,
            request matches Ok(r) ==> {
                &&& r.endpoint == if self.device_version == 0x120 {
                    1int
                } else {
                    3
                }
                &&& value(bytes_contents(r.message).subrange(12, 20), self.order) == self.base
                    + 0x13_4014
                &&& value(bytes_contents(r.message).subrange(20, 24), self.order) == 4
            },
    {
        proof {
            if self.memory_endpoint() is Some {
                law_tx_free_message_fields(self.order, self.base);
            }
        }
        match KisPortal::Pam.endpoint_id(self.device_version) {
            Some(endpoint) => Ok(
                Request {
                    endpoint,
                    message: read_command(
                        self.order,
                        0x1155,
                        KisPortal::Pam.code(),
                        0,
                        self.base + UART_OFFSET + DATA_TX_FREE,
                        4,
                    ),
                },
            ),
            None => Err(DebugUsbError::MissingEndpoint(KisPortal::Pam, self.device_version)),
        }
    }

    /// Reads the reply to the request of [`DebugUsb::uart_tx_free`]: how many
    /// bytes the UART can take.
    pub fn uart_tx_free_reply<E>(reply: Result<Bytes, E>) -> (free: Result<
        usize,
        DebugUsbError<E>,
    >)
        requires
            tx_free_complete(reply),
        ensures
            free == tx_free_answer(reply),
            match reply {
                Ok(message) => {
                    let word = bytes_contents(message).subrange(12, 16);
                    let status = bytes_contents(message).subrange(16, 20);
                    if little_value(status) == 0 {
                        free == Err::<usize, DebugUsbError<E>>(DebugUsbError::Read)
                    } else {
                        free matches Ok(n) && n == little_value(word)
                    }
                },
                Err(e) => free == Err::<usize, DebugUsbError<E>>(DebugUsbError::Io(e)),
            },
    {
        let mut resp = match reply {
            Ok(message) => message,
            Err(e) => {
                return Err(DebugUsbError::Io(e));
            },
        };
        let ghost bytes = bytes_contents(resp);
        let _ = resp.split_to(HEADER_LEN);
        let word1 = get_u32_le(&mut resp);
        let word2 = get_u32_le(&mut resp);
        let _word3 = get_u32_le(&mut resp);
        assert(bytes.skip(12).take(4) =~= bytes.subrange(12, 16));
        assert(bytes.skip(12).skip(4).take(4) =~= bytes.subrange(16, 20));
        proof {
            let none = seq![0u8, 0, 0, 0, 0, 0, 0, 0];
            law_little_reading(none.take(2), bytes.subrange(12, 16), none);
            law_little_reading(none.take(2), bytes.subrange(16, 20), none);
        }
        if word2 == 0 {
            return Err(DebugUsbError::Read);
        }
        Ok(word1 as usize)
    }

    /// Whether `len` bytes can be put into one write: as many are free, their
    /// register has an address, and the message and its lengths fit.
    pub open spec fn takes(self, len: int) -> bool {
        &&& len <= self.capacity
        &&& self.reaches(tx_register(len))
        &&& padded(len) % 0x1_0000_0000 + 12 <= u32::MAX
        &&& padded(len) + HEADER_LEN + PA_ARGS_LEN <= isize::MAX
    }

    /// The request that has the UART send `data`, which then no longer counts
    /// as free space. Lengths in the message are 32 bits wide; of a longer one
    /// they hold the low bits.
    pub fn uart_tx<E>(&mut self, data: Bytes) -> (request: Result<Request, DebugUsbError<E>>)
        requires
            is_aligned(bytes_contents(data).len() as int) && old(self).memory_endpoint() is Some
                ==> old(self).takes(bytes_contents(data).len() as int),
        ensures
            final(self).device_version == old(self).device_version,
            final(self).base == old(self).base,
            final(self).order == old(self).order,
            if !is_aligned(bytes_contents(data).len() as int) {
                &&& request == Err::<Request, DebugUsbError<E>>(DebugUsbError::Alignment)
                &&& final(self).capacity == old(self).capacity
            } else {
                match old(self).memory_endpoint() {
                    Some(endpoint) => {
                        &&& request matches Ok(r)
                        &&& r.is(
                            endpoint,
                            uart_tx_message(
                                old(self).order,
                                old(self).base,
                                bytes_contents(data),
                            ),
                        )
                        &&& final(self).capacity == old(self).capacity - bytes_contents(data).len()
                    },
                    None => {
                        &&& request == Err::<Request, DebugUsbError<E>>(
                            DebugUsbError::MissingEndpoint(
                                KisPortal::Pam,
                                old(self).device_version,
                            ),
                        )
                        &&& final(self).capacity == old(self).capacity
                    },
                }
            },
            request == Err::<Request, DebugUsbError<E>>(DebugUsbError::Alignment) <==> {
                let len = bytes_contents(data).len();
                len > 4 && len % 4 != 0
            },
            request matches Ok(r) ==> {
                let len = bytes_contents(data).len();
                let message = bytes_contents(r.message);
                &&& r.endpoint == if old(self).device_version == 0x120 {
                    1int
                } else {
                    3
                }
                &&& value(message.subrange(12, 20), old(self).order) == old(self).base + 0x13_0000 + (
                if len == 1 {
                    0x4004int
                } else if len == 2 {
                    0x4008
                } else if len == 3 {
                    0x400c
                } else {
                    0x4010
                })
                &&& message.subrange(24, 24 + len as int) == bytes_contents(data)
                &&& final(self).capacity == old(self).capacity - len
            },
            request is Err ==> *final(self) == *old(self),
    {
        let len: usize = data.len();
        if len > 4 && !len.is_multiple_of(4) {
            return Err(DebugUsbError::Alignment);
        }
        let endpoint = match KisPortal::Pam.endpoint_id(self.device_version) {
            Some(endpoint) => endpoint,
            None => {
                return Err(DebugUsbError::MissingEndpoint(KisPortal::Pam, self.device_version));
            },
        };
        proof {
            law_uart_tx_address(self.order, self.base, bytes_contents(data));
            law_uart_tx_message_fields(self.order, self.base, bytes_contents(data));
        }
        let message = uart_tx_command(self.order, self.base, data);
        self.capacity = self.capacity - len;
        Ok(Request { endpoint, message })
    }

    /// Reads the reply to the request of [`DebugUsb::uart_tx`], of which only
    /// counts that it came.
    pub fn uart_tx_reply<E>(reply: Result<Bytes, E>) -> (sent: Result<(), DebugUsbError<E>>)
        ensures
            match reply {
                Ok(_) => sent == Ok::<(), DebugUsbError<E>>(()),
                Err(e) => sent == Err::<(), DebugUsbError<E>>(DebugUsbError::Io(e)),
            },
    {
        match reply {
            Ok(_) => Ok(()),
            Err(e) => Err(DebugUsbError::Io(e)),
        }
    }
}

} // verus!
