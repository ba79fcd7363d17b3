//! The endpoints of a device and the transfers on them.

use bytes::Bytes;
use std::collections::hash_map::{Entry, HashMap};
use vstd::prelude::*;

use crate::buffer::bytes_contents;

verus! {

/// How long one transfer may be.
pub const TRANSFER_SIZE: usize = 16384;

/// How many transfers from the device are kept under way.
pub const TRANSFERS_UNDER_WAY: usize = 8;

/// The address of the endpoint `ep_id` for transfers from the device.
pub fn in_address(ep_id: u8) -> (address: u8)
    ensures
        address == ep_id | 0x80,
        address == if ep_id < 0x80 {
            ep_id + 0x80
        } else {
            ep_id as int
        },
{
    assert(ep_id < 0x80 ==> ep_id | 0x80 == ep_id + 0x80) by (bit_vector);
    assert(ep_id >= 0x80 ==> ep_id | 0x80 == ep_id) by (bit_vector);
    ep_id | 0x80
}

/// Whether one more transfer from the device is to be started when `pending`
/// are under way.
pub fn needs_transfer(pending: usize) -> (needed: bool)
    ensures
        needed == (pending < TRANSFERS_UNDER_WAY),
        needed <==> pending < 8,
{
    pending < TRANSFERS_UNDER_WAY
}

/// What a completed transfer from the device brought, as a buffer of its own.
pub fn received(transferred: &[u8]) -> (data: Bytes)
    ensures
        bytes_contents(data) == transferred@,
{
    Bytes::copy_from_slice(transferred)
}

/// The channels that are open, by the endpoint that they belong to. A channel
/// is opened when it is first needed and stays open.
pub struct Channels<T> {
    open: HashMap<u8, T>,
}

impl<T> View for Channels<T> {
    type V = Map<u8, T>;

    closed spec fn view(&self) -> Map<u8, T> {
        self.open@
    }
}

impl<T> Channels<T> {
    /// No channel is open yet.
    pub fn new() -> (channels: Channels<T>)
        ensures
            channels@ == Map::<u8, T>::empty(),
    {
        Channels { open: HashMap::new() }
    }

    /// Whether the channel of the endpoint `ep_id` is open.
    pub fn is_open(&self, ep_id: u8) -> (open: bool)
        ensures
            open == self@.contains_key(ep_id),
    {
        broadcast use vstd::std_specs::hash::group_hash_axioms;

        self.open.contains_key(&ep_id)
    }

    /// The channel of the endpoint `ep_id`. Where it is open already, that one
    /// is returned; else `opened` becomes it, if there is one.
    pub fn get(&mut self, ep_id: u8, opened: Option<T>) -> (channel: Option<&mut T>)
        ensures
            match (if old(self)@.contains_key(ep_id) {
                Some(old(self)@[ep_id])
            } else {
                opened
            }) {
                Some(value) => {
                    &&& channel matches Some(c)
                    &&& *c == value
                    &&& final(self)@ == old(self)@.insert(ep_id, *final(c))
                },
                None => channel is None && final(self)@ == old(self)@,
            },
    {
        broadcast use vstd::std_specs::hash::group_hash_axioms;

        match self.open.entry(ep_id) {
            Entry::Occupied(o) => Some(o.into_mut()),
            Entry::Vacant(v) => match opened {
                Some(channel) => Some(v.insert(channel)),
                None => None,
            },
        }
    }
}

} // verus!
