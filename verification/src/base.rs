//! Opening a device, and guessing the base address of its UART.
//!
//! The descriptor of a device names an address near the UART. The registers
//! are taken to stand at one of a few distances from it, and the first base at
//! which the device answers the question for free space is the one.

use bytes::Bytes;
use vstd::prelude::*;

use crate::buffer::{bytes_contents, get_u64_le};
use crate::device::{
    descriptor_message, descriptor_request, tx_free_answer, tx_free_complete, tx_free_message,
    DebugUsb, Request, DATA_TX_FREE, UART_OFFSET,
};
use crate::error::DebugUsbError;
use crate::le::{le_u64, u64_le};
use crate::order::{law_little_reading, law_writing, little_value, value, ByteOrder};

verus! {

/// How many bytes the descriptor of a device holds at least.
pub const DESCRIPTOR_LEN: usize = 40;

/// How many bases are tried.
pub const CANDIDATES: u8 = 3;

/// How far the base with this number is from the first one.
pub open spec fn candidate_offset(index: int) -> int {
    if index == 0 {
        0
    } else if index == 1 {
        0x40_0000
    } else {
        0x70_0000
    }
}

/// The base with this number that is tried.
pub open spec fn candidate(first: u64, index: int) -> int {
    first + candidate_offset(index)
}

/// The first base that is tried where the descriptor names `address`: the low
/// 24 bits are cleared, from version 4.00 on the low 25.
pub open spec fn first_candidate(device_version: u16, address: u64) -> u64 {
    if device_version >= 0x400 {
        (address - address % 0x200_0000) as u64
    } else {
        (address - address % 0x100_0000) as u64
    }
}

/// The address that the descriptor of a device names.
pub open spec fn named_address(descriptor: Seq<u8>) -> u64 {
    le_u64(descriptor.subrange(32, 40))
}

/// What a guess waits for.
#[derive(Clone, Copy, Debug, PartialEq, Eq, Structural)]
pub enum GuessBase {
    /// The descriptor of the device.
    Descriptor,
    /// The free space of the UART at the base with this number.
    Probe { first: u64, index: u8 },
}

/// What comes next in a guess.
#[derive(Debug)]
pub enum GuessAction {
    /// This request; its reply is taken in this state.
    Request(GuessBase, Request),
    /// Nothing: the base of the device is set.
    Found,
}

/// How far the search for a base has come.
pub enum Search {
    /// The base with this number is being tried.
    Probing(int),
    /// The base with this number answered.
    Found(int),
    /// No base answered.
    Exhausted,
}

/// Where the search goes when the base with this number has been tried.
pub open spec fn after_probe(index: int, answered: bool) -> Search {
    if answered {
        Search::Found(index)
    } else if index + 1 < CANDIDATES {
        Search::Probing(index + 1)
    } else {
        Search::Exhausted
    }
}

/// Where the search stands after the bases from `index` on were tried, in
/// order, until one answered: `answers` says of each whether it did.
pub open spec fn search(index: int, answers: Seq<bool>) -> Search
    decreases answers.len(),
{
    if answers.len() == 0 {
        Search::Probing(index)
    } else {
        match after_probe(index, answers[0]) {
            Search::Probing(next) => search(next, answers.drop_first()),
            end => end,
        }
    }
}

/// The base with this number that is tried.
pub fn candidate_base(first: u64, index: u8) -> (base: u64)
    requires
        candidate(first, index as int) <= u64::MAX,
    ensures
        base == candidate(first, index as int),
        index == 0 ==> base == first,
        index == 1 ==> base == first + 0x40_0000,
        index >= 2 ==> base == first + 0x70_0000,
{
    let offset: u64 = match index {
        0 => 0,
        1 => 0x40_0000,
        _ => 0x70_0000,
    };
    first + offset
}

/// The first base that is tried on a device with this descriptor.
pub fn first_base(device_version: u16, descriptor: Bytes) -> (first: u64)
    requires
        bytes_contents(descriptor).len() >= DESCRIPTOR_LEN,
    ensures
        first == first_candidate(device_version, named_address(bytes_contents(descriptor))),
        first % 0x100_0000 == 0,
        forall|index: int| #[trigger] candidate(first, index) <= u64::MAX,
        ({
            let named = little_value(bytes_contents(descriptor).subrange(32, 40));
            if device_version < 0x400 {
                first % 0x100_0000 == 0 && first <= named < first + 0x100_0000
            } else {
                first % 0x200_0000 == 0 && first <= named < first + 0x200_0000
            }
        }),
{
    let ghost bytes = bytes_contents(descriptor);
    let mut descriptor = descriptor;
    let _ = descriptor.split_to(32);
    let address: u64 = get_u64_le(&mut descriptor);
    assert(bytes.skip(32).take(8) =~= bytes.subrange(32, 40));
    let mut first: u64 = address & !0xff_ffff;
    assert(first == address - address % 0x100_0000) by (bit_vector)
        requires
            first == address & !0xff_ffff,
    ;
    if device_version >= 0x400 {
        let low: u64 = first;
        first = low & !0x100_0000;
        assert(first == address - address % 0x200_0000) by (bit_vector)
            requires
                low == address & !0xff_ffff,
                first == low & !0x100_0000,
        ;
    }
    proof {
        lemma_first_candidate(device_version, address);
        lemma_room_above(first);
        law_named_address(bytes);
    }
    first
}

impl DebugUsb {
    /// Whether a guess on this device can be in `state`.
    pub open spec fn guessing(self, state: GuessBase) -> bool {
        match state {
            GuessBase::Descriptor => true,
            GuessBase::Probe { first, index } => {
                &&& index < CANDIDATES
                &&& first % 0x100_0000 == 0
                &&& self.base == candidate(first, index as int)
                &&& self.memory_endpoint() is Some
            },
        }
    }

    /// Whether this device and `action` are what the search for a base around
    /// `first` gives when it stands at `search`.
    pub open spec fn shows<E>(
        self,
        first: u64,
        search: Search,
        action: Result<GuessAction, DebugUsbError<E>>,
    ) -> bool {
        match search {
            Search::Probing(index) => {
                &&& self.base == candidate(first, index)
                &&& action matches Ok(GuessAction::Request(state, request))
                &&& state == (GuessBase::Probe { first, index: index as u8 })
                &&& self.memory_endpoint() matches Some(endpoint)
                &&& request.is(endpoint, tx_free_message(self.order, self.base))
            },
            Search::Found(index) => {
                &&& self.base == candidate(first, index)
                &&& action == Ok::<GuessAction, DebugUsbError<E>>(GuessAction::Found)
            },
            Search::Exhausted => {
                &&& self.base == 0
                &&& action == Err::<GuessAction, DebugUsbError<E>>(DebugUsbError::UnknownBase)
            },
        }
    }

    /// A device of version `device_version` that was just attached to a host of
    /// byte order `order`. Where no base is given, its base is guessed: that
    /// starts with the request that is returned.
    pub fn open(base: Option<u64>, device_version: u16, order: ByteOrder) -> (opened: (
        DebugUsb,
        Option<(GuessBase, Request)>,
    ))
        ensures
            opened.0.device_version == device_version,
            opened.0.capacity == 0,
            opened.0.order == order,
            match base {
                Some(base) => opened.0.base == base && opened.1 is None,
                None => {
                    &&& opened.0.base == 0
                    &&& opened.1 matches Some((state, request))
                    &&& state == GuessBase::Descriptor
                    &&& request.is(1, descriptor_message(order))
                },
            },
    {
        match base {
            Some(base) => (DebugUsb { device_version, base, capacity: 0, order }, None),
            None => (
                DebugUsb { device_version, base: 0, capacity: 0, order },
                Some((GuessBase::Descriptor, descriptor_request(device_version, order))),
            ),
        }
    }

    /// Tries the bases from `index` on: the first that a request can be made
    /// for.
    fn try_bases<E>(&mut self, first: u64, index: u8) -> (action: Result<
        GuessAction,
        DebugUsbError<E>,
    >)
        requires
            index <= CANDIDATES,
            first % 0x100_0000 == 0,
        ensures
            final(self).device_version == old(self).device_version,
            final(self).capacity == old(self).capacity,
            final(self).order == old(self).order,
            action is Ok ==> final(self).reaches(DATA_TX_FREE),
            action matches Ok(GuessAction::Request(_, request)) ==> {
                &&& request.endpoint == if old(self).device_version == 0x120 {
                    1int
                } else {
                    3
                }
                &&& value(bytes_contents(request.message).subrange(12, 20), old(self).order)
                    == final(self).base + 0x13_4014
            },
            final(self).shows(
                first,
                if index < CANDIDATES && old(self).memory_endpoint() is Some {
                    Search::Probing(index as int)
                } else {
                    Search::Exhausted
                },
                action,
            ),
    {
        proof {
            lemma_room_above(first);
        }
        let mut next: u8 = index;
        while next < CANDIDATES
            invariant
                index <= next <= CANDIDATES,
                first <= 0xffff_ffff_ff00_0000,
                self.device_version == old(self).device_version,
                self.capacity == old(self).capacity,
                self.order == old(self).order,
                next > index ==> self.memory_endpoint() is None,
            decreases CANDIDATES - next,
        {
            self.base = candidate_base(first, next);
            let request = self.uart_tx_free::<E>();
            if let Ok(request) = request {
                return Ok(GuessAction::Request(GuessBase::Probe { first, index: next }, request));
            }
            next = next + 1;
        }
        self.base = 0;
        Err(DebugUsbError::UnknownBase)
    }

    /// Takes what was replied to the request that the guess waits for, and
    /// says what comes next.
    pub fn guess_base<E>(&mut self, state: GuessBase, reply: Result<Bytes, E>) -> (action: Result<
        GuessAction,
        DebugUsbError<E>,
    >)
        requires
            old(self).guessing(state),
            match state {
                GuessBase::Descriptor => reply matches Ok(descriptor) ==> bytes_contents(
                    descriptor,
                ).len() >= DESCRIPTOR_LEN,
                GuessBase::Probe { .. } => tx_free_complete(reply),
            },
        ensures
            final(self).device_version == old(self).device_version,
            final(self).capacity == old(self).capacity,
            final(self).order == old(self).order,
            action matches Ok(GuessAction::Request(next, _)) ==> final(self).guessing(next),
            action is Ok ==> final(self).reaches(DATA_TX_FREE),
            match state {
                GuessBase::Descriptor => match reply {
                    Ok(descriptor) => final(self).shows(
                        first_candidate(
                            old(self).device_version,
                            named_address(bytes_contents(descriptor)),
                        ),
                        if old(self).memory_endpoint() is Some {
                            Search::Probing(0)
                        } else {
                            Search::Exhausted
                        },
                        action,
                    ),
                    Err(e) => {
                        &&& action == Err::<GuessAction, DebugUsbError<E>>(
                            DebugUsbError::Request(e),
                        )
                        &&& final(self).base == old(self).base
                    },
                },
                GuessBase::Probe { first, index } => final(self).shows(
                    first,
                    after_probe(index as int, tx_free_answer(reply) is Ok),
                    action,
                ),
            },
            action matches Ok(GuessAction::Request(next, request)) ==> {
                &&& request.endpoint == if old(self).device_version == 0x120 {
                    1int
                } else {
                    3
                }
                &&& value(bytes_contents(request.message).subrange(12, 20), old(self).order)
                    == final(self).base + 0x13_4014
            },
            match (state, reply) {
                (GuessBase::Descriptor, Ok(descriptor)) => {
                    let named = little_value(bytes_contents(descriptor).subrange(32, 40));
                    let version = old(self).device_version;
                    if version == 0x120 || version == 0x200 || version == 0x300 {
                        &&& final(self).base % 0x100_0000 == 0
                        &&& final(self).base <= named < final(self).base + 0x100_0000
                        &&& action matches Ok(GuessAction::Request(next, _))
                        &&& next == (GuessBase::Probe { first: final(self).base, index: 0 })
                    } else if version == 0x400 {
                        &&& final(self).base % 0x200_0000 == 0
                        &&& final(self).base <= named < final(self).base + 0x200_0000
                        &&& action matches Ok(GuessAction::Request(next, _))
                        &&& next == (GuessBase::Probe { first: final(self).base, index: 0 })
                    } else {
                        &&& final(self).base == 0
                        &&& action == Err::<GuessAction, DebugUsbError<E>>(
                            DebugUsbError::UnknownBase,
                        )
                    }
                },
                (GuessBase::Descriptor, Err(_)) => final(self).base == old(self).base,
                (GuessBase::Probe { first, index }, _) => {
                    if reply matches Ok(message) && little_value(
                        bytes_contents(message).subrange(16, 20),
                    ) != 0 {
                        &&& action == Ok::<GuessAction, DebugUsbError<E>>(GuessAction::Found)
                        &&& final(self).base == old(self).base
                    } else if index <= 1 {
                        &&& action matches Ok(GuessAction::Request(next, _))
                        &&& next == (GuessBase::Probe { first, index: (index + 1) as u8 })
                        &&& final(self).base == first + (if index == 0 {
                            0x40_0000int
                        } else {
                            0x70_0000
                        })
                    } else {
                        &&& action == Err::<GuessAction, DebugUsbError<E>>(
                            DebugUsbError::UnknownBase,
                        )
                        &&& final(self).base == 0
                    }
                },
            },
    {
        match state {
            GuessBase::Descriptor => {
                let descriptor = match reply {
                    Ok(message) => message,
                    Err(e) => {
                        return Err(DebugUsbError::Request(e));
                    },
                };
                let first: u64 = first_base(self.device_version, descriptor);
                self.try_bases(first, 0)
            },
            GuessBase::Probe { first, index } => {
                proof {
                    lemma_room_above(first);
                }
                if DebugUsb::uart_tx_free_reply(reply).is_ok() {
                    return Ok(GuessAction::Found);
                }
                self.try_bases(first, index + 1)
            },
        }
    }
}

/// The search ends at the first base that answers, and finds none only when
/// every base was tried and none answered.
pub proof fn law_first_answering_base_wins(answers: Seq<bool>)
    ensures
        match search(0, answers) {
            Search::Found(index) => {
                &&& 0 <= index < CANDIDATES && index < answers.len()
                &&& answers[index]
                &&& forall|i: int| 0 <= i < index ==> !#[trigger] answers[i]
            },
            Search::Exhausted => {
                &&& answers.len() >= CANDIDATES
                &&& forall|i: int| 0 <= i < CANDIDATES ==> !#[trigger] answers[i]
            },
            Search::Probing(index) => {
                &&& index == answers.len() < CANDIDATES
                &&& forall|i: int| 0 <= i < index ==> !#[trigger] answers[i]
            },
        },
{
    reveal_with_fuel(search, 4);
    if answers.len() >= 1 {
        assert(answers.drop_first().len() == answers.len() - 1);
        if answers.len() >= 2 {
            assert(answers.drop_first()[0] == answers[1]);
            if answers.len() >= 3 {
                assert(answers.drop_first().drop_first()[0] == answers[2]);
            }
        }
    }
}

/// Above an address with 24 low bits clear there is room for all that differs
/// in those bits.
proof fn lemma_room_above(first: u64)
    requires
        first % 0x100_0000 == 0,
    ensures
        first <= 0xffff_ffff_ff00_0000,
{
    assert(first % 0x100_0000 == 0 ==> first <= 0xffff_ffff_ff00_0000) by (bit_vector);
}

/// The first base that is tried is the address, rounded down.
proof fn lemma_first_candidate(device_version: u16, address: u64)
    ensures
        first_candidate(device_version, address) % 0x100_0000 == 0,
        first_candidate(device_version, address) <= address,
        device_version < 0x400 ==> address - first_candidate(device_version, address) < 0x100_0000,
        device_version >= 0x400 ==> address - first_candidate(device_version, address)
            < 0x200_0000,
        device_version >= 0x400 ==> first_candidate(device_version, address) % 0x200_0000 == 0,
{
    assert((address - address % 0x200_0000) % 0x100_0000 == 0) by (bit_vector);
    assert((address - address % 0x200_0000) % 0x200_0000 == 0) by (bit_vector);
    assert((address - address % 0x100_0000) % 0x100_0000 == 0) by (bit_vector);
}

/// What a descriptor names is what its bytes 32 to 40 denote, least significant
/// first, and nothing else of it counts.
pub proof fn law_named_address(descriptor: Seq<u8>)
    requires
        descriptor.len() >= 40,
    ensures
        named_address(descriptor) == little_value(descriptor.subrange(32, 40)),
{
    law_little_reading(seq![0u8, 0], seq![0u8, 0, 0, 0], descriptor.subrange(32, 40));
}

/// The first base that is tried: whatever stands before and behind the address
/// in a descriptor, and however long it is, that is the address rounded down
/// to 16 MiB, from version 4.00 on to 32 MiB.
pub proof fn law_first_base_of_descriptor(
    device_version: u16,
    prefix: Seq<u8>,
    address: u64,
    tail: Seq<u8>,
)
    requires
        prefix.len() == 32,
    ensures
        ({
            let first = first_candidate(
                device_version,
                named_address(prefix + u64_le(address) + tail),
            );
            if device_version < 0x400 {
                first % 0x100_0000 == 0 && first <= address < first + 0x100_0000
            } else {
                first % 0x200_0000 == 0 && first <= address < first + 0x200_0000
            }
        }),
{
    let descriptor = prefix + u64_le(address) + tail;
    law_writing(0, 0, address, ByteOrder::Little);
    assert(descriptor.subrange(32, 40) =~= u64_le(address));
    law_named_address(descriptor);
    lemma_first_candidate(device_version, address);
}

/// Two descriptors that agree in the address give the same first base.
pub proof fn law_only_the_address_counts(
    device_version: u16,
    descriptor: Seq<u8>,
    other: Seq<u8>,
)
    requires
        descriptor.len() >= 40,
        other.len() >= 40,
        forall|i: int| 32 <= i < 40 ==> #[trigger] descriptor[i] == other[i],
    ensures
        first_candidate(device_version, named_address(descriptor)) == first_candidate(
            device_version,
            named_address(other),
        ),
{
    assert(descriptor.subrange(32, 40) =~= other.subrange(32, 40));
    law_named_address(descriptor);
    law_named_address(other);
}

/// The bases that are tried: three, at 0, 0x40_0000 and 0x70_0000 above the
/// first one, in that order.
pub proof fn law_bases_in_order(first: u64, index: int, answered: bool)
    ensures
        candidate(first, 0) == first,
        candidate(first, 1) == first + 0x40_0000,
        candidate(first, 2) == first + 0x70_0000,
        answered ==> after_probe(index, answered) == Search::Found(index),
        !answered && index < 2 ==> after_probe(index, answered) == Search::Probing(index + 1),
        !answered && index >= 2 ==> after_probe(index, answered) is Exhausted,
{
}

/// A search gives up after three bases and not before: with a base that answers
/// among the first three it ends there.
pub proof fn law_three_bases_are_tried(answers: Seq<bool>)
    ensures
        search(0, answers) is Exhausted <==> answers.len() >= 3 && !answers[0] && !answers[1]
            && !answers[2],
        forall|i: int|
            0 <= i < 3 && i < answers.len() && #[trigger] answers[i] && (forall|j: int|
                0 <= j < i ==> !#[trigger] answers[j]) ==> search(0, answers) == Search::Found(i),
{
    law_first_answering_base_wins(answers);
}

/// What a guess waits for can be any of the three bases around an address with
/// 24 low bits clear, on a device of a version whose endpoints are known.
pub proof fn law_guess_can_wait(device: DebugUsb, first: u64, index: u8)
    requires
        index <= 2,
        first % 0x100_0000 == 0,
        device.base == first + (if index == 0 {
            0int
        } else if index == 1 {
            0x40_0000
        } else {
            0x70_0000
        }),
    ensures
        device.guessing(GuessBase::Descriptor),
        device.guessing(GuessBase::Probe { first, index }) <==> device.device_version == 0x120
            || device.device_version == 0x200 || device.device_version == 0x300
            || device.device_version == 0x400,
{
}

/// Whatever address a descriptor names, every base that is tried is near it
/// and leaves every register of the UART an address.
pub proof fn law_candidates_reach_the_uart(device_version: u16, address: u64, index: int)
    requires
        0 <= index < CANDIDATES,
    ensures
        ({
            let first = first_candidate(device_version, address);
            &&& first <= address < first + 0x200_0000
            &&& device_version < 0x400 ==> address < first + 0x100_0000
            &&& first <= candidate(first, index) < first + 0x100_0000
            &&& candidate(first, index) + UART_OFFSET + DATA_TX_FREE <= u64::MAX
        }),
{
    lemma_first_candidate(device_version, address);
    lemma_room_above(first_candidate(device_version, address));
}

/// A device is first asked at the address that its descriptor names, rounded
/// down; a base that lies there, or at one of the other distances, is among
/// those that are tried.
pub proof fn law_base_is_tried(device_version: u16, address: u64, base: u64, index: int)
    requires
        0 <= index < CANDIDATES,
        base >= candidate_offset(index),
        (base - candidate_offset(index)) % (if device_version >= 0x400 {
            0x200_0000
        } else {
            0x100_0000
        }) == 0,
        base - candidate_offset(index) <= address < base - candidate_offset(index) + (
        if device_version >= 0x400 {
            0x200_0000int
        } else {
            0x100_0000int
        }),
    ensures
        candidate(first_candidate(device_version, address), index) == base,
{
}

} // verus!
