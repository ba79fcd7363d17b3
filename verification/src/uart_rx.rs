//! What the UART of a device sends.

use bytes::Bytes;
use vstd::prelude::*;

use crate::buffer::{as_slice, bytes_contents, get_u32_le};
use crate::device::{enable_portals_message, uart_stream_message, DebugUsb, Request};
use crate::error::DebugUsbError;
use crate::le::{law_u32_round_trip, le_u32, u32_le};
use crate::order::{law_little_reading, law_writing, little_value, value, ByteOrder};
use crate::wire::{
    header_of, law_header_round_trip, portal_endpoint, KisHeader, KisPortal, HEADER_LEN,
};

verus! {

/// What the start of the UART's stream waits for.
#[derive(Clone, Copy, Debug, PartialEq, Eq, Structural)]
pub enum UartRx {
    /// That the portals are enabled.
    Portals,
    /// That the UART's output is reported.
    Stream,
}

/// What comes next in the start of the UART's stream.
#[derive(Debug)]
pub enum UartRxAction {
    /// This request; its reply is taken in this state.
    Request(UartRx, Request),
    /// The output arrives on this endpoint.
    Listen(u8),
}

impl DebugUsb {
    /// The request that the start of the UART's stream begins with.
    pub fn uart_rx(&self) -> (action: UartRxAction)
        ensures
            action matches UartRxAction::Request(state, request) && state == UartRx::Portals
                && request.is(1, enable_portals_message(self.order)),
            action matches UartRxAction::Request(_, request) && request.endpoint == 1
                && little_value(bytes_contents(request.message).subrange(12, 16)) == 0x3_0000,
    {
        UartRxAction::Request(UartRx::Portals, self.enable_portals())
    }

    /// Takes what was replied to the request that the start of the UART's
    /// stream waits for, and says what comes next. Of a reply only counts that
    /// it came.
    pub fn uart_rx_reply<E>(&self, state: UartRx, reply: Result<Bytes, E>) -> (action: Result<
        UartRxAction,
        DebugUsbError<E>,
    >)
        ensures
            match reply {
                Err(e) => action == Err::<UartRxAction, DebugUsbError<E>>(
                    DebugUsbError::Request(e),
                ),
                Ok(_) => match state {
                    UartRx::Portals => match portal_endpoint(KisPortal::Pam, self.device_version) {
                        Some(endpoint) => {
                            &&& action matches Ok(UartRxAction::Request(next, request))
                            &&& next == UartRx::Stream
                            &&& request.is(endpoint, uart_stream_message(self.order))
                        },
                        None => action == Err::<UartRxAction, DebugUsbError<E>>(
                            DebugUsbError::MissingEndpoint(KisPortal::Pam, self.device_version),
                        ),
                    },
                    UartRx::Stream => match portal_endpoint(KisPortal::Ppm, self.device_version) {
                        Some(endpoint) => action == Ok::<UartRxAction, DebugUsbError<E>>(
                            UartRxAction::Listen(endpoint),
                        ),
                        None => action == Err::<UartRxAction, DebugUsbError<E>>(
                            DebugUsbError::MissingEndpoint(KisPortal::Ppm, self.device_version),
                        ),
                    },
                },
            },
            action is Ok <==> reply is Ok && (self.device_version == 0x120 || self.device_version
                == 0x200 || self.device_version == 0x300 || self.device_version == 0x400),
            action matches Ok(UartRxAction::Request(_, request)) ==> {
                &&& state == UartRx::Portals
                &&& request.endpoint == if self.device_version == 0x120 {
                    1int
                } else {
                    3
                }
                &&& bytes_contents(request.message).subrange(2, 8) == seq![
                    0xa0u8,
                    0x13,
                    1,
                    3,
                    4,
                    0,
                ]
                &&& little_value(bytes_contents(request.message).subrange(12, 16)) == 1
            },
            action matches Ok(UartRxAction::Listen(endpoint)) ==> state == UartRx::Stream
                && endpoint == if self.device_version == 0x120 {
                2int
            } else {
                4
            },
    {
        if let Err(e) = reply {
            return Err(DebugUsbError::Request(e));
        }
        match state {
            UartRx::Portals => match self.uart_stream() {
                Ok(request) => Ok(UartRxAction::Request(UartRx::Stream, request)),
                Err(e) => Err(e),
            },
            UartRx::Stream => match KisPortal::Ppm.endpoint_id(self.device_version) {
                Some(endpoint) => Ok(UartRxAction::Listen(endpoint)),
                None => Err(DebugUsbError::MissingEndpoint(KisPortal::Ppm, self.device_version)),
            },
        }
    }
}

/// Whether a packet reports output of the UART, as its header says.
pub open spec fn is_uart_packet(packet: Seq<u8>) -> bool {
    packet[3] == KisPortal::Ppm.number()
}

/// How many bytes of room for output a packet that reports output has.
pub open spec fn room(packet: Seq<u8>) -> int {
    4 * le_u32(packet.subrange(12, 16))
}

/// Whether a packet is as long as its header and its word count say.
pub open spec fn packet_complete(packet: Seq<u8>) -> bool {
    &&& packet.len() >= HEADER_LEN
    &&& is_uart_packet(packet) ==> packet.len() >= 16 && packet.len() >= 20 + room(packet)
}

/// The output that a packet reports, if it reports any. Behind the header
/// stand the number of words, the words, and the number of bytes of them that
/// are output.
pub open spec fn uart_output(packet: Seq<u8>) -> Option<Seq<u8>> {
    if is_uart_packet(packet) {
        let end = 16 + room(packet);
        let words = packet.subrange(16, end);
        let bytes = le_u32(packet.subrange(end, end + 4));
        Some(
            if bytes <= words.len() {
                words.take(bytes as int)
            } else {
                words
            },
        )
    } else {
        None
    }
}

/// A packet that reports output: a header, the number of words, the words, the
/// number of bytes at their front that are output, and whatever follows.
pub open spec fn uart_packet(
    order: ByteOrder,
    header: KisHeader,
    words: Seq<u8>,
    bytes: u32,
    tail: Seq<u8>,
) -> Seq<u8> {
    header.layout(order) + u32_le((words.len() / 4) as u32) + words + u32_le(bytes) + tail
}

/// Whether a packet is as long as its header and its word count say.
pub fn is_complete(packet: &Bytes) -> (complete: bool)
    ensures
        complete == packet_complete(bytes_contents(*packet)),
        ({
            let bytes = bytes_contents(*packet);
            complete <==> bytes.len() >= 12 && (bytes[3] == 0x13 ==> bytes.len() >= 16
                && bytes.len() >= 20 + 4 * little_value(bytes.subrange(12, 16)))
        }),
{
    proof {
        law_report_is_read(bytes_contents(*packet));
    }
    let bytes = as_slice(packet);
    let len: usize = bytes.len();
    if len < HEADER_LEN {
        return false;
    }
    if bytes[3] != KisPortal::Ppm.code() {
        return true;
    }
    if len < 16 {
        return false;
    }
    let low: u64 = bytes[12] as u64 + 0x100 * (bytes[13] as u64);
    let high: u64 = bytes[14] as u64 + 0x100 * (bytes[15] as u64);
    let words: u64 = low + 0x1_0000 * high;
    len as u64 >= 20 + 4 * words
}

/// What a packet turned out to be.
#[derive(Debug, PartialEq, Eq)]
pub enum UartPacket {
    /// A report of this output.
    Output(Bytes),
    /// A packet of another portal, with this header.
    Other(KisHeader),
}

/// The output that a packet reports, or the header of a packet that comes from
/// another portal.
pub fn uart_content(packet: Bytes, order: ByteOrder) -> (content: UartPacket)
    requires
        packet_complete(bytes_contents(packet)),
    ensures
        match uart_output(bytes_contents(packet)) {
            Some(output) => content matches UartPacket::Output(c) && bytes_contents(c) == output,
            None => content == UartPacket::Other(
                header_of(bytes_contents(packet).take(12), order),
            ),
        },
        ({
            let bytes = bytes_contents(packet);
            match content {
                UartPacket::Output(output) => {
                    let room = 4 * little_value(bytes.subrange(12, 16));
                    let count = little_value(bytes.subrange(16 + room, 20 + room));
                    &&& bytes[3] == 0x13
                    &&& bytes_contents(output).len() == if count < room {
                        count
                    } else {
                        room
                    }
                    &&& forall|i: int|
                        0 <= i < bytes_contents(output).len() ==> #[trigger] bytes_contents(
                            output,
                        )[i] == bytes[16 + i]
                },
                UartPacket::Other(header) => {
                    &&& bytes[3] != 0x13
                    &&& header.sequence == value(bytes.subrange(0, 2), order)
                    &&& header.version == bytes[2]
                    &&& header.portal == bytes[3]
                    &&& header.command == bytes[4]
                    &&& header.offset1 == bytes[5]
                    &&& header.offset2 == bytes[6]
                    &&& header.offset3 == bytes[7]
                    &&& header.args_len == value(bytes.subrange(8, 12), order)
                },
            }
        }),
{
    proof {
        law_report_is_read(bytes_contents(packet));
    }
    let ghost all = bytes_contents(packet);
    let mut retbuf = packet;
    // A buffer is no longer than `usize` can count, so neither are its words.
    let _len: usize = retbuf.len();
    let hdr_bytes = retbuf.split_to(HEADER_LEN);
    assert(all.take(12).subrange(0, 2) =~= all.subrange(0, 2));
    assert(all.take(12).subrange(8, 12) =~= all.subrange(8, 12));
    let hdr = KisHeader::read_from_bytes(as_slice(&hdr_bytes), order).unwrap();
    if hdr.portal == KisPortal::Ppm.code() {
        assert(all.skip(12).take(4) =~= all.subrange(12, 16));
        let words: usize = get_u32_le(&mut retbuf) as usize;
        assert(all.skip(12).skip(4) =~= all.skip(16));
        let mut content = retbuf.split_to(words * 4);
        assert(all.skip(16).take(words * 4) =~= all.subrange(16, 16 + words * 4));
        assert(all.skip(16).skip(words * 4).take(4) =~= all.subrange(
            16 + words * 4,
            20 + words * 4,
        ));
        let bytes: usize = get_u32_le(&mut retbuf) as usize;
        content.truncate(bytes);
        UartPacket::Output(content)
    } else {
        UartPacket::Other(hdr)
    }
}

/// What is read of a packet, byte by byte: one whose fourth byte is not 0x13
/// reports nothing; else the word count stands at 12, the words at 16, and
/// behind them the number of bytes that are output, which are as many from 16
/// on, but no more than the words hold.
pub proof fn law_report_is_read(packet: Seq<u8>)
    ensures
        packet_complete(packet) <==> packet.len() >= 12 && (packet[3] == 0x13 ==> packet.len() >= 16
            && packet.len() >= 20 + 4 * little_value(packet.subrange(12, 16))),
        packet[3] != 0x13 ==> uart_output(packet) is None,
        packet[3] == 0x13 && packet_complete(packet) ==> {
            let room = 4 * little_value(packet.subrange(12, 16));
            let count = little_value(packet.subrange(16 + room, 20 + room));
            &&& uart_output(packet) matches Some(output)
            &&& output.len() == if count < room {
                count
            } else {
                room
            }
            &&& forall|i: int| 0 <= i < output.len() ==> #[trigger] output[i] == packet[16 + i]
        },
{
    let none = seq![0u8, 0, 0, 0, 0, 0, 0, 0];
    if packet.len() >= 16 && packet[3] == 0x13 {
        law_little_reading(none.take(2), packet.subrange(12, 16), none);
        let end = 16 + room(packet);
        if packet.len() >= end + 4 {
            law_little_reading(none.take(2), packet.subrange(end, end + 4), none);
        }
    }
}

/// The output of a packet that is made of a header of the reporting portal, the
/// number of words, the words, a number of bytes and whatever follows: as many
/// bytes of the words, or all of them where there are no more.
pub proof fn law_report_of_parts(
    header: Seq<u8>,
    words: Seq<u8>,
    bytes: u32,
    tail: Seq<u8>,
)
    requires
        header.len() == 12,
        header[3] == 0x13,
        words.len() % 4 == 0,
        words.len() / 4 <= u32::MAX,
    ensures
        ({
            let packet = header + u32_le((words.len() / 4) as u32) + words + u32_le(bytes) + tail;
            &&& packet_complete(packet)
            &&& uart_output(packet) == Some(
                if bytes < words.len() {
                    words.take(bytes as int)
                } else {
                    words
                },
            )
        }),
{
    let count = (words.len() / 4) as u32;
    let packet = header + u32_le(count) + words + u32_le(bytes) + tail;
    law_writing(0, count, 0, ByteOrder::Little);
    law_writing(0, bytes, 0, ByteOrder::Little);
    lemma_packet_parts(header, u32_le(count), words, u32_le(bytes), tail);
    assert(packet[3] == packet.take(12)[3]);
    law_report_is_read(packet);
    let output = uart_output(packet)->0;
    assert forall|i: int| 0 <= i < words.len() implies #[trigger] packet[16 + i] == words[i] by {
        assert(packet.subrange(16, 16 + words.len() as int)[i] == words[i]);
    }
    if bytes < words.len() {
        assert(output =~= words.take(bytes as int));
    } else {
        assert(output =~= words);
    }
}

/// What a device reports is what is read: from a packet of the reporting
/// portal that holds `bytes` bytes of output at the front of its words, exactly
/// those bytes come out, whatever else the header says and whatever follows.
pub proof fn law_output_is_delivered(
    order: ByteOrder,
    header: KisHeader,
    words: Seq<u8>,
    bytes: u32,
    tail: Seq<u8>,
)
    requires
        header.portal == KisPortal::Ppm.number(),
        words.len() % 4 == 0,
        words.len() / 4 <= u32::MAX,
        bytes <= words.len(),
    ensures
        packet_complete(uart_packet(order, header, words, bytes, tail)),
        uart_output(uart_packet(order, header, words, bytes, tail)) == Some(words.take(bytes as int)),
{
    let packet = uart_packet(order, header, words, bytes, tail);
    let count = (words.len() / 4) as u32;
    law_header_round_trip(header, order);
    law_u32_round_trip(count);
    law_u32_round_trip(bytes);
    lemma_packet_parts(header.layout(order), u32_le(count), words, u32_le(bytes), tail);
    assert(packet[3] == packet.take(12)[3]);
}

/// The five parts of a packet can be cut apart again.
proof fn lemma_packet_parts(a: Seq<u8>, b: Seq<u8>, c: Seq<u8>, d: Seq<u8>, e: Seq<u8>)
    requires
        a.len() == 12,
        b.len() == 4,
        d.len() == 4,
    ensures
        (a + b + c + d + e).len() >= 20 + c.len(),
        (a + b + c + d + e).take(12) == a,
        (a + b + c + d + e).subrange(12, 16) == b,
        (a + b + c + d + e).subrange(16, 16 + c.len() as int) == c,
        (a + b + c + d + e).subrange(16 + c.len() as int, 20 + c.len() as int) == d,
{
    let all = a + b + c + d + e;
    assert(all.take(12) =~= a);
    assert(all.subrange(12, 16) =~= b);
    assert(all.subrange(16, 16 + c.len() as int) =~= c);
    assert(all.subrange(16 + c.len() as int, 20 + c.len() as int) =~= d);
}

/// A packet of another portal is passed over, whatever it holds, and its header
/// is what was sent.
pub proof fn law_other_portals_are_passed_over(order: ByteOrder, header: KisHeader, rest: Seq<u8>)
    requires
        header.portal != KisPortal::Ppm.number(),
    ensures
        packet_complete(header.layout(order) + rest),
        uart_output(header.layout(order) + rest) is None,
        header_of((header.layout(order) + rest).take(12), order) == header,
{
    law_header_round_trip(header, order);
    assert((header.layout(order) + rest).take(12) =~= header.layout(order));
    assert((header.layout(order) + rest)[3] == header.layout(order)[3]);
}

/// A device that the reporting of output can be requested of has an endpoint
/// on which the output arrives, so the start of the stream fails for want of
/// an endpoint before that request or not at all; and that endpoint is not the
/// one on which requests are answered.
pub proof fn law_stream_has_an_endpoint(device_version: u16)
    ensures
        portal_endpoint(KisPortal::Pam, device_version) is Some ==> portal_endpoint(
            KisPortal::Ppm,
            device_version,
        ) is Some,
        portal_endpoint(KisPortal::Pam, device_version) is Some ==> portal_endpoint(
            KisPortal::Pam,
            device_version,
        ) != portal_endpoint(KisPortal::Ppm, device_version),
{
}

} // verus!
