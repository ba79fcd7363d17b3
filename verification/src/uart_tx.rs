//! Writing to the UART of a device.
//!
//! Data is cut into batches that fit a packet and the free space of the UART.
//! The free space is asked for only when what is known of it is too little.

use bytes::Bytes;
use vstd::prelude::*;

use crate::buffer::bytes_contents;
use crate::device::{
    is_aligned, is_write_frame, law_uart_tx_message_framed, padded, tx_free_answer,
    tx_free_complete, tx_free_message, tx_register, uart_tx_args, uart_tx_header, uart_tx_message, DebugUsb, Request,
    DATA_TX_FREE, UART_OFFSET,
};
use crate::error::DebugUsbError;
use crate::order::{little_value, ByteOrder};
use crate::wire::{KisPortal, HEADER_LEN, PA_ARGS_LEN};

verus! {

/// How long a packet may be.
pub const MAX_PACKET_SIZE: usize = 512;

/// How many bytes one write may carry: what a packet has left beside the
/// header, the range and four bytes more.
pub const MAX_PAYLOAD_SIZE: usize = MAX_PACKET_SIZE - HEADER_LEN - PA_ARGS_LEN - 4;

/// What happened, as far as writing is concerned.
#[derive(Debug)]
pub enum UartTxEvent<E> {
    /// There is data to write.
    Start,
    /// The question for free space was answered.
    Free(Result<Bytes, E>),
    /// A write was answered.
    Sent(Result<Bytes, E>),
}

/// What writing does next.
#[derive(Debug)]
pub enum UartTxAction {
    /// Nothing: all data is written.
    Done,
    /// This request, which asks for free space.
    Query(Request),
    /// This request, which writes.
    Send(Request),
}

/// What comes next when so much is free and so much is to be written.
pub enum Plan {
    /// Nothing is left to write.
    Done,
    /// To ask for free space.
    Query,
    /// To write so many bytes.
    Send(int),
}

/// How many of `len` bytes are written at once: whole words, or at most one.
pub open spec fn batch_len(len: int) -> int {
    if len > 4 {
        len - len % 4
    } else {
        len
    }
}

/// How many of `len` bytes one packet can take.
pub open spec fn payload(len: int) -> int {
    if len < MAX_PAYLOAD_SIZE {
        len
    } else {
        MAX_PAYLOAD_SIZE as int
    }
}

/// What comes next when `capacity` bytes are known to be free and `len` bytes
/// are to be written.
pub open spec fn plan(capacity: int, len: int) -> Plan {
    if len == 0 {
        Plan::Done
    } else if capacity < payload(len) {
        Plan::Query
    } else {
        Plan::Send(batch_len(payload(len)))
    }
}

/// What comes next when the UART has just answered that `free` bytes are free
/// and `len` bytes are to be written: as much as fits, but where nothing fits
/// the question is asked again.
pub open spec fn plan_answered(free: int, len: int) -> Plan {
    if free == 0 {
        Plan::Query
    } else {
        Plan::Send(
            batch_len(
                if payload(len) < free {
                    payload(len)
                } else {
                    free
                },
            ),
        )
    }
}

impl DebugUsb {
    /// Whether every register that `plan` takes has an address, where a request
    /// can be made at all.
    pub open spec fn can_follow(self, plan: Plan) -> bool {
        self.memory_endpoint() is Some ==> match plan {
            Plan::Done => true,
            Plan::Query => self.reaches(DATA_TX_FREE),
            Plan::Send(n) => self.reaches(tx_register(n)),
        }
    }

    /// Whether `action`, this device and `rest` are what following `plan` gives
    /// when the device was `before` and `data` was to be written.
    pub open spec fn followed<E>(
        self,
        plan: Plan,
        before: DebugUsb,
        data: Seq<u8>,
        rest: Seq<u8>,
        action: Result<UartTxAction, DebugUsbError<E>>,
    ) -> bool {
        &&& self.device_version == before.device_version
        &&& self.base == before.base
        &&& self.order == before.order
        &&& match plan {
            Plan::Done => {
                &&& action == Ok::<UartTxAction, DebugUsbError<E>>(UartTxAction::Done)
                &&& self.capacity == before.capacity
                &&& rest == data
            },
            Plan::Query => {
                &&& self.capacity == before.capacity
                &&& rest == data
                &&& match before.memory_endpoint() {
                    Some(endpoint) => action matches Ok(UartTxAction::Query(request)) && request.is(
                        endpoint,
                        tx_free_message(before.order, before.base),
                    ),
                    None => action == Err::<UartTxAction, DebugUsbError<E>>(
                        DebugUsbError::MissingEndpoint(KisPortal::Pam, before.device_version),
                    ),
                }
            },
            Plan::Send(n) => {
                &&& rest == data.skip(n)
                &&& match before.memory_endpoint() {
                    Some(endpoint) => {
                        &&& self.capacity == before.capacity - n
                        &&& action matches Ok(UartTxAction::Send(request))
                        &&& request.is(
                            endpoint,
                            uart_tx_message(before.order, before.base, data.take(n)),
                        )
                    },
                    None => {
                        &&& self.capacity == before.capacity
                        &&& action == Err::<UartTxAction, DebugUsbError<E>>(
                            DebugUsbError::MissingEndpoint(KisPortal::Pam, before.device_version),
                        )
                    },
                }
            },
        }
    }

    /// Writes the next batch, of at most `payload_size` bytes.
    fn send_batch<E>(&mut self, b: &mut Bytes, payload_size: usize) -> (action: Result<
        UartTxAction,
        DebugUsbError<E>,
    >)
        requires
            payload_size <= MAX_PAYLOAD_SIZE,
            payload_size <= bytes_contents(*old(b)).len(),
            payload_size <= old(self).capacity,
            old(self).can_follow(Plan::Send(batch_len(payload_size as int))),
        ensures
            final(self).followed(
                Plan::Send(batch_len(payload_size as int)),
                *old(self),
                bytes_contents(*old(b)),
                bytes_contents(*final(b)),
                action,
            ),
            payload_size > 0 ==> (action matches Ok(UartTxAction::Send(request)) ==> {
                let data = bytes_contents(*old(b));
                let rest = bytes_contents(*final(b));
                let n = data.len() - rest.len();
                &&& 0 < n <= payload_size
                &&& n <= 4 || n % 4 == 0
                &&& rest == data.skip(n)
                &&& bytes_contents(request.message).subrange(24, 24 + n) == data.take(n)
                &&& final(self).capacity + n == old(self).capacity
            }),
    {
        let mut size: usize = payload_size;
        if size > 4 {
            assert(size & !3 == size - size % 4) by (bit_vector);
            size = size & !3;
        }
        let batch = b.split_to(size);
        match self.uart_tx(batch) {
            Ok(request) => Ok(UartTxAction::Send(request)),
            Err(e) => Err(e),
        }
    }

    /// Asks for free space.
    fn query_free<E>(&self) -> (action: Result<UartTxAction, DebugUsbError<E>>)
        requires
            self.can_follow(Plan::Query),
        ensures
            forall|data: Seq<u8>| #[trigger]
                self.followed(Plan::Query, *self, data, data, action),
            action matches Ok(next) ==> next is Query,
    {
        match self.uart_tx_free() {
            Ok(request) => Ok(UartTxAction::Query(request)),
            Err(e) => Err(e),
        }
    }

    /// Does what is next with the data that is left in `b`.
    fn write_on<E>(&mut self, b: &mut Bytes) -> (action: Result<UartTxAction, DebugUsbError<E>>)
        requires
            old(self).can_follow(
                plan(old(self).capacity as int, bytes_contents(*old(b)).len() as int),
            ),
        ensures
            final(self).followed(
                plan(old(self).capacity as int, bytes_contents(*old(b)).len() as int),
                *old(self),
                bytes_contents(*old(b)),
                bytes_contents(*final(b)),
                action,
            ),
            action matches Ok(UartTxAction::Send(request)) ==> {
                let data = bytes_contents(*old(b));
                let rest = bytes_contents(*final(b));
                let n = data.len() - rest.len();
                &&& 0 < n <= data.len()
                &&& n <= 484
                &&& n <= 4 || n % 4 == 0
                &&& rest == data.skip(n)
                &&& bytes_contents(request.message).subrange(24, 24 + n) == data.take(n)
                &&& final(self).capacity + n == old(self).capacity
            },
            action matches Ok(UartTxAction::Query(_)) ==> {
                &&& bytes_contents(*old(b)).len() > 0
                &&& bytes_contents(*final(b)) == bytes_contents(*old(b))
                &&& final(self).capacity == old(self).capacity
            },
            action matches Ok(UartTxAction::Done) ==> {
                &&& bytes_contents(*old(b)).len() == 0
                &&& bytes_contents(*final(b)).len() == 0
                &&& *final(self) == *old(self)
            },
    {
        if b.is_empty() {
            return Ok(UartTxAction::Done);
        }
        let len: usize = b.len();
        let payload_size: usize = if len < MAX_PAYLOAD_SIZE {
            len
        } else {
            MAX_PAYLOAD_SIZE
        };
        if self.capacity < payload_size {
            return self.query_free();
        }
        self.send_batch(b, payload_size)
    }

    /// One step of writing the data in `b`: takes what happened, says what
    /// comes next, and takes what is written off the front of `b`.
    pub fn into_uart_tx<E>(&mut self, b: &mut Bytes, event: UartTxEvent<E>) -> (action: Result<
        UartTxAction,
        DebugUsbError<E>,
    >)
        requires
            match event {
                UartTxEvent::Start => old(self).can_follow(
                    plan(old(self).capacity as int, bytes_contents(*old(b)).len() as int),
                ),
                UartTxEvent::Free(reply) => {
                    &&& bytes_contents(*old(b)).len() > 0
                    &&& tx_free_complete(reply)
                    &&& tx_free_answer(reply) matches Ok(free) ==> old(self).can_follow(
                        plan_answered(free as int, bytes_contents(*old(b)).len() as int),
                    )
                },
                UartTxEvent::Sent(reply) => reply is Ok ==> old(self).can_follow(
                    plan(old(self).capacity as int, bytes_contents(*old(b)).len() as int),
                ),
            },
        ensures
            match event {
                UartTxEvent::Start => final(self).followed(
                    plan(old(self).capacity as int, bytes_contents(*old(b)).len() as int),
                    *old(self),
                    bytes_contents(*old(b)),
                    bytes_contents(*final(b)),
                    action,
                ),
                UartTxEvent::Free(reply) => match tx_free_answer(reply) {
                    Ok(free) => final(self).followed(
                        plan_answered(free as int, bytes_contents(*old(b)).len() as int),
                        DebugUsb { capacity: free, ..*old(self) },
                        bytes_contents(*old(b)),
                        bytes_contents(*final(b)),
                        action,
                    ),
                    Err(e) => {
                        &&& action == Err::<UartTxAction, DebugUsbError<E>>(e)
                        &&& *final(self) == *old(self)
                        &&& bytes_contents(*final(b)) == bytes_contents(*old(b))
                    },
                },
                UartTxEvent::Sent(reply) => match reply {
                    Ok(_) => final(self).followed(
                        plan(old(self).capacity as int, bytes_contents(*old(b)).len() as int),
                        *old(self),
                        bytes_contents(*old(b)),
                        bytes_contents(*final(b)),
                        action,
                    ),
                    Err(e) => {
                        &&& action == Err::<UartTxAction, DebugUsbError<E>>(DebugUsbError::Io(e))
                        &&& *final(self) == *old(self)
                        &&& bytes_contents(*final(b)) == bytes_contents(*old(b))
                    },
                },
            },
            final(self).device_version == old(self).device_version,
            final(self).base == old(self).base,
            final(self).order == old(self).order,
            action matches Ok(UartTxAction::Send(request)) ==> {
                let data = bytes_contents(*old(b));
                let rest = bytes_contents(*final(b));
                let n = data.len() - rest.len();
                &&& 0 < n <= data.len()
                &&& n <= 484
                &&& n <= 4 || n % 4 == 0
                &&& rest == data.skip(n)
                &&& bytes_contents(request.message).subrange(24, 24 + n) == data.take(n)
                &&& final(self).capacity + n == match event {
                    UartTxEvent::Free(Ok(reply)) => little_value(bytes_contents(reply).subrange(12, 16)),
                    _ => old(self).capacity as int,
                }
            },
            action matches Ok(UartTxAction::Query(_)) ==> {
                &&& bytes_contents(*old(b)).len() > 0
                &&& bytes_contents(*final(b)) == bytes_contents(*old(b))
                &&& final(self).capacity == match event {
                    UartTxEvent::Free(Ok(reply)) => little_value(bytes_contents(reply).subrange(12, 16)),
                    _ => old(self).capacity as int,
                }
            },
            action matches Ok(UartTxAction::Done) ==> {
                &&& bytes_contents(*old(b)).len() == 0
                &&& bytes_contents(*final(b)).len() == 0
                &&& *final(self) == *old(self)
            },
    {
        match event {
            UartTxEvent::Start => self.write_on(b),
            UartTxEvent::Free(reply) => {
                let free: usize = match DebugUsb::uart_tx_free_reply(reply) {
                    Ok(free) => free,
                    Err(e) => {
                        return Err(e);
                    },
                };
                self.capacity = free;
                if free == 0 {
                    return self.write_on(b);
                }
                let len: usize = b.len();
                let mut payload_size: usize = if len < MAX_PAYLOAD_SIZE {
                    len
                } else {
                    MAX_PAYLOAD_SIZE
                };
                if free < payload_size {
                    payload_size = free;
                }
                self.send_batch(b, payload_size)
            },
            UartTxEvent::Sent(reply) => match DebugUsb::uart_tx_reply(reply) {
                Ok(()) => self.write_on(b),
                Err(e) => Err(e),
            },
        }
    }
}

/// What is written of `data`, batch by batch, and what is left of it, when
/// `capacity` bytes are known to be free at the start and the questions for
/// free space are answered with `answers`, one after the other.
pub open spec fn delivery(capacity: nat, data: Seq<u8>, answers: Seq<nat>) -> (
    Seq<Seq<u8>>,
    Seq<u8>,
)
    decreases data.len(), answers.len(),
{
    let len = data.len() as int;
    match plan(capacity as int, len) {
        Plan::Done => (seq![], data),
        Plan::Send(n) => {
            let (batches, left) = delivery((capacity - n) as nat, data.skip(n), answers);
            (seq![data.take(n)] + batches, left)
        },
        Plan::Query => if answers.len() == 0 {
            (seq![], data)
        } else {
            match plan_answered(answers[0] as int, len) {
                Plan::Send(n) => {
                    let (batches, left) = delivery(
                        (answers[0] - n) as nat,
                        data.skip(n),
                        answers.drop_first(),
                    );
                    (seq![data.take(n)] + batches, left)
                },
                _ => delivery(answers[0], data, answers.drop_first()),
            }
        },
    }
}

/// Whether one write can carry so many bytes.
pub open spec fn is_batch(len: int) -> bool {
    0 < len <= MAX_PAYLOAD_SIZE && is_aligned(len)
}

/// What comes next, by the numbers: nothing where there is nothing to write; the
/// question for free space where less is known to be free than would be
/// written, which is everything but never more than 484 bytes; else a write.
/// After an answer the question is asked again only where nothing is free.
pub proof fn law_what_comes_next(capacity: nat, len: nat)
    ensures
        plan(capacity as int, len as int) is Done <==> len == 0,
        plan(capacity as int, len as int) is Query <==> len > 0 && capacity < len && capacity < 484,
        plan(capacity as int, len as int) is Send <==> len > 0 && (len <= capacity || 484
            <= capacity),
        plan_answered(capacity as int, len as int) is Query <==> capacity == 0,
        plan_answered(capacity as int, len as int) is Send <==> capacity > 0,
{
}

/// No batch could be longer: `n` bytes are written where that is at most four or
/// a whole number of words, no more than is to be written, is free and fits a
/// packet, and no greater number is all that.
pub proof fn law_batch_is_greatest(capacity: nat, len: nat, more: int)
    requires
        len > 0,
    ensures
        plan(capacity as int, len as int) matches Plan::Send(n) ==> {
            &&& 0 < n <= len && n <= capacity && n <= 484 && (n <= 4 || n % 4 == 0)
            &&& more <= len && more <= capacity && more <= 484 && (more <= 4 || more % 4 == 0)
                ==> more <= n
        },
        plan_answered(capacity as int, len as int) matches Plan::Send(n) ==> {
            &&& 0 < n <= len && n <= capacity && n <= 484 && (n <= 4 || n % 4 == 0)
            &&& more <= len && more <= capacity && more <= 484 && (more <= 4 || more % 4 == 0)
                ==> more <= n
        },
{
}

/// What a plan can be followed on: a device of a version whose endpoints are
/// known needs an address for the register that the plan takes, any other
/// needs none since no request is made.
pub proof fn law_plan_can_be_followed(device: DebugUsb, n: int)
    ensures
        device.can_follow(Plan::Done),
        device.base + 0x13_4014 <= u64::MAX ==> device.can_follow(Plan::Query)
            && device.can_follow(Plan::Send(n)),
        device.device_version != 0x120 && device.device_version != 0x200 && device.device_version
            != 0x300 && device.device_version != 0x400 ==> device.can_follow(Plan::Query)
            && device.can_follow(Plan::Send(n)),
{
}

/// What following a plan does to a device and its data: only a write changes
/// them, which takes its bytes off the front of the data and off the free
/// space, and the version, the base and the byte order never change. A device
/// of another version makes no request.
pub proof fn law_followed<E>(
    plan: Plan,
    before: DebugUsb,
    after: DebugUsb,
    data: Seq<u8>,
    rest: Seq<u8>,
    action: Result<UartTxAction, DebugUsbError<E>>,
)
    requires
        after.followed(plan, before, data, rest, action),
        plan matches Plan::Send(n) ==> 0 < n <= data.len(),
    ensures
        after.device_version == before.device_version,
        after.base == before.base,
        after.order == before.order,
        match action {
            Ok(UartTxAction::Done) => plan is Done && after == before && rest == data,
            Ok(UartTxAction::Query(request)) => {
                &&& plan is Query && after == before && rest == data
                &&& request.endpoint == if before.device_version == 0x120 {
                    1int
                } else {
                    3
                }
                &&& bytes_contents(request.message) == tx_free_message(before.order, before.base)
            },
            Ok(UartTxAction::Send(request)) => {
                let n = data.len() - rest.len();
                &&& plan == Plan::Send(n)
                &&& rest == data.skip(n)
                &&& after.capacity == before.capacity - n
                &&& request.endpoint == if before.device_version == 0x120 {
                    1int
                } else {
                    3
                }
                &&& bytes_contents(request.message) == uart_tx_message(
                    before.order,
                    before.base,
                    data.take(n),
                )
            },
            Err(e) => {
                &&& e == DebugUsbError::<E>::MissingEndpoint(KisPortal::Pam, before.device_version)
                &&& plan !is Done && after == before
                &&& before.device_version != 0x120 && before.device_version != 0x200
                    && before.device_version != 0x300 && before.device_version != 0x400
            },
        },
{
}

/// A batch is never empty, never more than there is to write, never more than
/// is free, and always such that one write can carry it.
pub proof fn law_batch_fits(capacity: nat, len: nat)
    ensures
        plan(capacity as int, len as int) matches Plan::Send(n) ==> is_batch(n) && n <= len && n
            <= capacity,
        len > 0 ==> (plan_answered(capacity as int, len as int) matches Plan::Send(n) ==> is_batch(
            n,
        ) && n <= len && n <= capacity),
{
}

/// The message that writes a batch fits a packet, with the four bytes to
/// spare, and is the frame that the header says it is.
#[verifier::spinoff_prover]
pub proof fn law_batch_fits_a_packet(order: ByteOrder, base: u64, batch: Seq<u8>)
    requires
        is_batch(batch.len() as int),
        base + UART_OFFSET + tx_register(batch.len() as int) <= u64::MAX,
    ensures
        uart_tx_message(order, base, batch).len() + 4 <= MAX_PACKET_SIZE,
        uart_tx_message(order, base, batch).len() + 4 <= 512,
        is_write_frame(
            uart_tx_message(order, base, batch),
            order,
            uart_tx_header(batch.len() as int),
            uart_tx_args(base, batch.len() as int),
            batch,
        ),
{
    assert(padded(batch.len() as int) <= MAX_PAYLOAD_SIZE);
    law_uart_tx_message_framed(order, base, batch);
}

/// The data reaches the UART whole and in order: what was written, batch after
/// batch, and what is left are the data, whatever free space the UART
/// reported.
pub proof fn law_data_is_delivered_in_order(capacity: nat, data: Seq<u8>, answers: Seq<nat>)
    ensures
        delivery(capacity, data, answers).0.flatten() + delivery(capacity, data, answers).1 == data,
        forall|i: int|
            0 <= i < delivery(capacity, data, answers).0.len() ==> is_batch(
                (#[trigger] delivery(capacity, data, answers).0[i]).len() as int,
            ),
    decreases data.len(), answers.len(),
{
    let len = data.len() as int;
    law_batch_fits(capacity, data.len());
    match plan(capacity as int, len) {
        Plan::Done => {},
        Plan::Send(n) => {
            law_data_is_delivered_in_order((capacity - n) as nat, data.skip(n), answers);
            lemma_prepend(data, n, delivery((capacity - n) as nat, data.skip(n), answers));
        },
        Plan::Query => if answers.len() > 0 {
            let rest = answers.drop_first();
            law_batch_fits(answers[0], data.len());
            match plan_answered(answers[0] as int, len) {
                Plan::Send(n) => {
                    law_data_is_delivered_in_order((answers[0] - n) as nat, data.skip(n), rest);
                    lemma_prepend(data, n, delivery((answers[0] - n) as nat, data.skip(n), rest));
                },
                _ => {
                    law_data_is_delivered_in_order(answers[0], data, rest);
                },
            }
        },
    }
    if delivery(capacity, data, answers).0.len() == 0 {
        assert(delivery(capacity, data, answers).0.flatten() =~= Seq::<u8>::empty());
    }
}

/// A batch taken off the front of the data goes before the other batches.
proof fn lemma_prepend(data: Seq<u8>, n: int, later: (Seq<Seq<u8>>, Seq<u8>))
    requires
        0 <= n <= data.len(),
        later.0.flatten() + later.1 == data.skip(n),
    ensures
        (seq![data.take(n)] + later.0).flatten() + later.1 == data,
{
    let batches = seq![data.take(n)] + later.0;
    assert(batches.drop_first() =~= later.0);
    assert(batches.first() == data.take(n));
    assert(batches.flatten() =~= data.take(n) + later.0.flatten());
    assert(batches.flatten() + later.1 =~= data.take(n) + (later.0.flatten() + later.1));
    assert(data.take(n) + data.skip(n) =~= data);
}

/// Nothing is left over where the UART answers often enough that some space is
/// free: as many answers as there are bytes are always enough.
pub proof fn law_delivery_finishes(capacity: nat, data: Seq<u8>, answers: Seq<nat>)
    requires
        answers.len() >= data.len(),
        forall|i: int| 0 <= i < answers.len() ==> #[trigger] answers[i] > 0,
    ensures
        delivery(capacity, data, answers).1.len() == 0,
        delivery(capacity, data, answers).0.flatten() == data,
    decreases data.len(),
{
    law_data_is_delivered_in_order(capacity, data, answers);
    law_batch_fits(capacity, data.len());
    match plan(capacity as int, data.len() as int) {
        Plan::Done => {},
        Plan::Send(n) => {
            law_delivery_finishes((capacity - n) as nat, data.skip(n), answers);
        },
        Plan::Query => {
            law_batch_fits(answers[0], data.len());
            match plan_answered(answers[0] as int, data.len() as int) {
                Plan::Send(n) => {
                    assert forall|i: int| 0 <= i < answers.drop_first().len() implies #[trigger]
                        answers.drop_first()[i] > 0 by {
                        assert(answers.drop_first()[i] == answers[i + 1]);
                    }
                    law_delivery_finishes(
                        (answers[0] - n) as nat,
                        data.skip(n),
                        answers.drop_first(),
                    );
                },
                _ => {},
            }
        },
    }
    assert(delivery(capacity, data, answers).0.flatten() =~= data);
}

/// The UART is never overrun. Before the first answer no more is written than
/// was known to be free at the start. An answer replaces what was known: after
/// it no more is written than it reports, whatever was left before.
pub proof fn law_uart_is_not_overrun(capacity: nat, data: Seq<u8>, answers: Seq<nat>)
    ensures
        answers.len() == 0 ==> delivery(capacity, data, answers).0.flatten().len() <= capacity,
        answers.len() > 0 ==> delivery(capacity, data, answers).0.flatten().len() <= delivery(
            capacity,
            data,
            answers.drop_last(),
        ).0.flatten().len() + answers.last(),
    decreases data.len(), answers.len(),
{
    let len = data.len() as int;
    let earlier = answers.drop_last();
    law_batch_fits(capacity, data.len());
    match plan(capacity as int, len) {
        Plan::Done => {},
        Plan::Send(n) => {
            let left = (capacity - n) as nat;
            law_uart_is_not_overrun(left, data.skip(n), answers);
            lemma_prepend_len(data.take(n), delivery(left, data.skip(n), answers).0);
            lemma_prepend_len(data.take(n), delivery(left, data.skip(n), earlier).0);
        },
        Plan::Query => if answers.len() > 0 {
            let rest = answers.drop_first();
            let rest_earlier = earlier.drop_first();
            if answers.len() > 1 {
                assert(rest_earlier =~= rest.drop_last());
                assert(rest.last() == answers.last());
            }
            law_batch_fits(answers[0], data.len());
            match plan_answered(answers[0] as int, len) {
                Plan::Send(n) => {
                    let left = (answers[0] - n) as nat;
                    law_uart_is_not_overrun(left, data.skip(n), rest);
                    lemma_prepend_len(data.take(n), delivery(left, data.skip(n), rest).0);
                    lemma_prepend_len(data.take(n), delivery(left, data.skip(n), rest_earlier).0);
                },
                _ => {
                    law_uart_is_not_overrun(answers[0], data, rest);
                },
            }
        },
    }
}

/// A batch more is as many bytes more.
proof fn lemma_prepend_len(batch: Seq<u8>, later: Seq<Seq<u8>>)
    ensures
        (seq![batch] + later).flatten().len() == batch.len() + later.flatten().len(),
{
    assert((seq![batch] + later).drop_first() =~= later);
}

/// A step that follows the plan is a step of the delivery: with every write the
/// batch that the plan takes goes out and the rest is delivered from there; a
/// question leaves everything as it is; and the end is reached with nothing
/// left.
pub proof fn law_step_is_delivery<E>(
    before: DebugUsb,
    after: DebugUsb,
    data: Seq<u8>,
    rest: Seq<u8>,
    action: Result<UartTxAction, DebugUsbError<E>>,
    answers: Seq<nat>,
)
    requires
        before.memory_endpoint() is Some,
        after.followed(
            plan(before.capacity as int, data.len() as int),
            before,
            data,
            rest,
            action,
        ),
    ensures
        match action {
            Ok(UartTxAction::Done) => data.len() == 0 && rest.len() == 0,
            Ok(UartTxAction::Query(_)) => rest == data && after == before,
            Ok(UartTxAction::Send(request)) => {
                let batch = data.take(data.len() - rest.len());
                &&& bytes_contents(request.message) == uart_tx_message(
                    before.order,
                    before.base,
                    batch,
                )
                &&& batch + rest == data
                &&& delivery(before.capacity as nat, data, answers) == (
                    seq![batch] + delivery(after.capacity as nat, rest, answers).0,
                    delivery(after.capacity as nat, rest, answers).1,
                )
            },
            Err(_) => false,
        },
{
    law_batch_fits(before.capacity as nat, data.len());
    if let Plan::Send(n) = plan(before.capacity as int, data.len() as int) {
        assert(data.len() - rest.len() == n);
        assert(data.take(n) + data.skip(n) =~= data);
    }
}

/// The step that takes an answer to the question for free space is a step of
/// the delivery: where something is free a batch goes out and the rest is
/// delivered from there, with one answer used; where nothing is, the question
/// is asked again.
pub proof fn law_answered_step_is_delivery<E>(
    before: DebugUsb,
    after: DebugUsb,
    data: Seq<u8>,
    rest: Seq<u8>,
    action: Result<UartTxAction, DebugUsbError<E>>,
    answers: Seq<nat>,
)
    requires
        before.memory_endpoint() is Some,
        plan(before.capacity as int, data.len() as int) is Query,
        answers.len() > 0,
        answers[0] <= usize::MAX,
        after.followed(
            plan_answered(answers[0] as int, data.len() as int),
            (DebugUsb { capacity: answers[0] as usize, ..before }),
            data,
            rest,
            action,
        ),
    ensures
        match action {
            Ok(UartTxAction::Query(_)) => {
                &&& rest == data
                &&& delivery(before.capacity as nat, data, answers) == delivery(
                    after.capacity as nat,
                    rest,
                    answers.drop_first(),
                )
            },
            Ok(UartTxAction::Send(request)) => {
                let batch = data.take(data.len() - rest.len());
                let later = delivery(after.capacity as nat, rest, answers.drop_first());
                &&& bytes_contents(request.message) == uart_tx_message(
                    before.order,
                    before.base,
                    batch,
                )
                &&& batch + rest == data
                &&& delivery(before.capacity as nat, data, answers) == (
                    seq![batch] + later.0,
                    later.1,
                )
            },
            _ => false,
        },
{
    law_batch_fits(answers[0], data.len());
    if let Plan::Send(n) = plan_answered(answers[0] as int, data.len() as int) {
        assert(data.len() - rest.len() == n);
        assert(data.take(n) + data.skip(n) =~= data);
    }
}

} // verus!
