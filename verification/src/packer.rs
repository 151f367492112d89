//! Packing entries into datagram payloads of bounded size.
//!
//! A payload holds entries joined by single separators. An entry that does not fit
//! behind what a buffer holds makes the caller flush: hand the buffer's bytes to the
//! network, clear the buffer, and append again. No entry is ever split.

use crate::lines::{
    is_line, lemma_split_appended_line, lemma_split_one_line, split_lines, SEPARATOR,
};
use vstd::prelude::*;

verus! {

/// The largest payload that a UDP datagram carries over IPv4.
pub const MAX_UDP_PAYLOAD: usize = 65507;

/// What `DatagramBuffer::try_append` did with an entry.
#[derive(Clone, Copy, Debug, PartialEq, Eq, Structural)]
pub enum AppendResult {
    /// The entry is in the buffer.
    Appended,
    /// The entry does not fit behind what the buffer holds; the buffer is unchanged.
    WouldOverflow,
}

/// A capacity that no datagram buffer can be set up with.
#[derive(Clone, Copy, Debug, PartialEq, Eq, Structural)]
pub enum ConfigError {
    /// The capacity is 0.
    ZeroCapacity,
    /// The capacity is more than `MAX_UDP_PAYLOAD`.
    CapacityTooLarge,
}

/// An entry that is longer than the buffer's capacity, and so fits no datagram.
#[derive(Clone, Copy, Debug, PartialEq, Eq, Structural)]
pub struct CapacityError;

/// A payload under construction, never longer than its capacity.
pub struct DatagramBuffer {
    bytes: Vec<u8>,
    capacity: usize,
}

/// The number of separators needed in front of the next entry: none in an empty
/// buffer, and one otherwise.
pub open spec fn separator_len(buffered: Seq<u8>) -> int {
    if buffered.len() == 0 {
        0
    } else {
        1
    }
}

/// Whether `entry` fits behind `buffered` in a payload of `capacity` bytes.
pub open spec fn fits(buffered: Seq<u8>, entry: Seq<u8>, capacity: int) -> bool {
    buffered.len() + separator_len(buffered) + entry.len() <= capacity
}

/// `buffered` with `entry` behind it, and a separator between the two if `buffered`
/// is not empty.
pub open spec fn appended(buffered: Seq<u8>, entry: Seq<u8>) -> Seq<u8> {
    if buffered.len() == 0 {
        entry
    } else {
        buffered.push(SEPARATOR) + entry
    }
}

/// What a capacity is refused for, if it is.
pub open spec fn config_error(capacity: int) -> Option<ConfigError> {
    if capacity == 0 {
        Some(ConfigError::ZeroCapacity)
    } else if capacity > MAX_UDP_PAYLOAD {
        Some(ConfigError::CapacityTooLarge)
    } else {
        None
    }
}

/// The payloads that have been flushed, and what stands in the buffer.
#[verifier::ext_equal]
pub struct Packing {
    pub flushed: Seq<Seq<u8>>,
    pub buffered: Seq<u8>,
}

/// Packing one more entry: it goes behind what is buffered if it fits; otherwise what
/// is buffered is flushed and the entry starts the next payload.
pub open spec fn pack_entry(packing: Packing, entry: Seq<u8>, capacity: int) -> Packing {
    if fits(packing.buffered, entry, capacity) {
        Packing { flushed: packing.flushed, buffered: appended(packing.buffered, entry) }
    } else {
        Packing { flushed: packing.flushed.push(packing.buffered), buffered: entry }
    }
}

/// Packing entries in their order, from an empty buffer.
pub open spec fn pack(entries: Seq<Seq<u8>>, capacity: int) -> Packing
    decreases entries.len(),
{
    if entries.len() == 0 {
        Packing { flushed: Seq::empty(), buffered: Seq::empty() }
    } else {
        pack_entry(pack(entries.drop_last(), capacity), entries.last(), capacity)
    }
}

/// The payloads of a packing once the buffer has been flushed a last time, which
/// happens only if it holds anything.
pub open spec fn payloads(packing: Packing) -> Seq<Seq<u8>> {
    if packing.buffered.len() == 0 {
        packing.flushed
    } else {
        packing.flushed.push(packing.buffered)
    }
}

/// The lines of all the payloads, in the order of the payloads, each payload split
/// on its own.
pub open spec fn lines_of(payloads: Seq<Seq<u8>>) -> Seq<Seq<u8>>
    decreases payloads.len(),
{
    if payloads.len() == 0 {
        Seq::empty()
    } else {
        lines_of(payloads.drop_last()) + split_lines(payloads.last())
    }
}

/// The entries joined into one payload, with single separators between them.
pub open spec fn joined(entries: Seq<Seq<u8>>) -> Seq<u8>
    decreases entries.len(),
{
    if entries.len() == 0 {
        Seq::empty()
    } else {
        appended(joined(entries.drop_last()), entries.last())
    }
}

/// Whether each entry is a line: it has a byte, and no separator among its bytes.
pub open spec fn all_lines(entries: Seq<Seq<u8>>) -> bool {
    forall|i: int| 0 <= i < entries.len() ==> is_line(#[trigger] entries[i])
}

impl DatagramBuffer {
    /// The bytes buffered so far.
    pub closed spec fn view(&self) -> Seq<u8> {
        self.bytes@
    }

    /// The capacity in bytes.
    pub closed spec fn spec_capacity(&self) -> int {
        self.capacity as int
    }

    /// The capacity is one that a UDP datagram allows, and the buffer is within it.
    pub open spec fn wf(&self) -> bool {
        &&& 1 <= self.spec_capacity() <= MAX_UDP_PAYLOAD
        &&& self@.len() <= self.spec_capacity()
    }

    /// An empty buffer of the given capacity, which must be at least 1 and at most
    /// `MAX_UDP_PAYLOAD`.
    pub fn new(capacity: usize) -> (result: Result<DatagramBuffer, ConfigError>)
        ensures
            match result {
                Ok(buffer) => config_error(capacity as int) is None && buffer.wf()
                    && buffer.spec_capacity() == capacity && buffer@ == Seq::<u8>::empty(),
                Err(error) => config_error(capacity as int) == Some(error),
            },
    {
        if capacity == 0 {
            Err(ConfigError::ZeroCapacity)
        } else if capacity > MAX_UDP_PAYLOAD {
            Err(ConfigError::CapacityTooLarge)
        } else {
            Ok(DatagramBuffer { bytes: Vec::new(), capacity })
        }
    }

    /// An empty buffer of a capacity that is known to be allowed.
    pub(crate) fn with_capacity(capacity: usize) -> (buffer: DatagramBuffer)
        requires
            1 <= capacity <= MAX_UDP_PAYLOAD,
        ensures
            buffer.wf(),
            buffer.spec_capacity() == capacity,
            buffer@ == Seq::<u8>::empty(),
    {
        DatagramBuffer { bytes: Vec::new(), capacity }
    }

    /// The capacity in bytes.
    pub fn capacity(&self) -> (capacity: usize)
        ensures
            capacity == self.spec_capacity(),
    {
        self.capacity
    }

    /// The number of bytes buffered.
    pub fn len(&self) -> (len: usize)
        ensures
            len == self@.len(),
    {
        self.bytes.len()
    }

    /// Whether nothing is buffered.
    pub fn is_empty(&self) -> (empty: bool)
        ensures
            empty == (self@.len() == 0),
    {
        self.bytes.len() == 0
    }

    /// The bytes buffered so far.
    pub fn as_slice(&self) -> (bytes: &[u8])
        ensures
            bytes@ == self@,
    {
        self.bytes.as_slice()
    }

    /// Appends `entry`, behind a separator if the buffer is not empty, unless that
    /// takes the buffer over its capacity.
    pub fn try_append(&mut self, entry: &[u8]) -> (result: AppendResult)
        requires
            old(self).wf(),
        ensures
            final(self).wf(),
            final(self).spec_capacity() == old(self).spec_capacity(),
            fits(old(self)@, entry@, old(self).spec_capacity()) ==> result == AppendResult::Appended
                && final(self)@ == appended(old(self)@, entry@),
            !fits(old(self)@, entry@, old(self).spec_capacity()) ==> result
                == AppendResult::WouldOverflow && final(self)@ == old(self)@,
    {
        let extra: usize = if self.bytes.len() == 0 {
            0
        } else {
            1
        };
        if entry.len() > self.capacity || self.bytes.len() + extra > self.capacity - entry.len() {
            return AppendResult::WouldOverflow;
        }
        if extra == 1 {
            self.bytes.push(SEPARATOR);
        }
        self.bytes.extend_from_slice(entry);
        AppendResult::Appended
    }

    /// Hands out what is buffered and leaves the buffer empty.
    pub fn flush(&mut self) -> (payload: Vec<u8>)
        requires
            old(self).wf(),
        ensures
            final(self).wf(),
            final(self).spec_capacity() == old(self).spec_capacity(),
            payload@ == old(self)@,
            payload@.len() <= old(self).spec_capacity(),
            final(self)@ == Seq::<u8>::empty(),
    {
        let mut payload: Vec<u8> = Vec::new();
        payload.append(&mut self.bytes);
        payload
    }

    /// Puts `entry` into the buffer, flushing first if it does not fit behind what is
    /// buffered. Returns the payload that was flushed, if any. An entry longer than
    /// the capacity is refused, and the buffer stays as it is.
    pub fn push(&mut self, entry: &[u8]) -> (result: Result<Option<Vec<u8>>, CapacityError>)
        requires
            old(self).wf(),
        ensures
            final(self).wf(),
            final(self).spec_capacity() == old(self).spec_capacity(),
            match result {
                Err(_) => entry@.len() > old(self).spec_capacity() && final(self)@ == old(self)@,
                Ok(None) => entry@.len() <= old(self).spec_capacity() && fits(
                    old(self)@,
                    entry@,
                    old(self).spec_capacity(),
                ) && final(self)@ == appended(old(self)@, entry@),
                Ok(Some(payload)) => entry@.len() <= old(self).spec_capacity() && !fits(
                    old(self)@,
                    entry@,
                    old(self).spec_capacity(),
                ) && payload@ == old(self)@ && 0 < payload@.len() <= old(self).spec_capacity()
                    && final(self)@ == entry@,
            },
    {
        if entry.len() > self.capacity {
            return Err(CapacityError);
        }
        match self.try_append(entry) {
            AppendResult::Appended => Ok(None),
            AppendResult::WouldOverflow => {
                let payload = self.flush();
                self.try_append(entry);
                Ok(Some(payload))
            },
        }
    }
}

/// Packing keeps every payload, flushed or buffered, within the capacity, and
/// flushes no empty payload.
pub proof fn lemma_payloads_within_capacity(entries: Seq<Seq<u8>>, capacity: int)
    requires
        1 <= capacity,
        forall|i: int| 0 <= i < entries.len() ==> (#[trigger] entries[i]).len() <= capacity,
    ensures
        pack(entries, capacity).buffered.len() <= capacity,
        forall|k: int|
            0 <= k < pack(entries, capacity).flushed.len() ==> 0 < (#[trigger] pack(
                entries,
                capacity,
            ).flushed[k]).len() <= capacity,
        forall|k: int|
            0 <= k < payloads(pack(entries, capacity)).len() ==> 0 < (#[trigger] payloads(
                pack(entries, capacity),
            )[k]).len() <= capacity,
    decreases entries.len(),
{
    if entries.len() > 0 {
        lemma_payloads_within_capacity(entries.drop_last(), capacity);
    }
}

/// The lines of payloads with one more payload behind them.
pub proof fn lemma_lines_of_push(payloads: Seq<Seq<u8>>, payload: Seq<u8>)
    ensures
        lines_of(payloads.push(payload)) == lines_of(payloads) + split_lines(payload),
{
    assert(payloads.push(payload).drop_last() == payloads);
}

/// Splitting each payload of a packing at its separators gives back the entries that
/// were packed, each whole and in its place.
pub proof fn lemma_packing_keeps_entries(entries: Seq<Seq<u8>>, capacity: int)
    requires
        all_lines(entries),
    ensures
        lines_of(payloads(pack(entries, capacity))) == entries,
        lines_of(pack(entries, capacity).flushed) + split_lines(pack(entries, capacity).buffered)
            == entries,
    decreases entries.len(),
{
    let packing = pack(entries, capacity);
    if entries.len() > 0 {
        let earlier = entries.drop_last();
        let entry = entries.last();
        let before = pack(earlier, capacity);
        assert(all_lines(earlier));
        lemma_packing_keeps_entries(earlier, capacity);
        assert(is_line(entry));
        assert(earlier.push(entry) == entries);
        if !fits(before.buffered, entry, capacity) {
            lemma_lines_of_push(before.flushed, before.buffered);
            lemma_split_one_line(entry);
        } else if before.buffered.len() == 0 {
            lemma_split_one_line(entry);
        } else {
            lemma_split_appended_line(before.buffered, entry);
        }
    }
    if packing.buffered.len() > 0 {
        lemma_lines_of_push(packing.flushed, packing.buffered);
    }
}

/// Lines that are joined and split again are the same lines, and joined they are
/// empty only if there is none of them.
pub proof fn lemma_split_joined(entries: Seq<Seq<u8>>)
    requires
        all_lines(entries),
    ensures
        split_lines(joined(entries)) == entries,
        joined(entries).len() == 0 <==> entries.len() == 0,
    decreases entries.len(),
{
    if entries.len() > 0 {
        let earlier = entries.drop_last();
        let entry = entries.last();
        assert(all_lines(earlier));
        assert(is_line(entry));
        lemma_split_joined(earlier);
        if joined(earlier).len() == 0 {
            lemma_split_one_line(entry);
        } else {
            lemma_split_appended_line(joined(earlier), entry);
        }
    }
}

/// Every payload of a packing is its own lines joined: entries stand in it whole,
/// with a single separator between two of them and none in front or behind.
pub proof fn lemma_payloads_are_joined(entries: Seq<Seq<u8>>, capacity: int)
    requires
        all_lines(entries),
    ensures
        pack(entries, capacity).buffered == joined(split_lines(pack(entries, capacity).buffered)),
        forall|k: int|
            0 <= k < pack(entries, capacity).flushed.len() ==> (#[trigger] pack(
                entries,
                capacity,
            ).flushed[k]) == joined(split_lines(pack(entries, capacity).flushed[k])),
        forall|k: int|
            0 <= k < payloads(pack(entries, capacity)).len() ==> (#[trigger] payloads(
                pack(entries, capacity),
            )[k]) == joined(split_lines(payloads(pack(entries, capacity))[k])),
    decreases entries.len(),
{
    if entries.len() > 0 {
        let earlier = entries.drop_last();
        let entry = entries.last();
        let before = pack(earlier, capacity);
        assert(all_lines(earlier));
        assert(is_line(entry));
        lemma_payloads_are_joined(earlier, capacity);
        reveal_with_fuel(joined, 2);
        if fits(before.buffered, entry, capacity) && before.buffered.len() > 0 {
            let lines = split_lines(before.buffered);
            lemma_split_appended_line(before.buffered, entry);
            assert(lines.push(entry).drop_last() == lines);
        } else {
            lemma_split_one_line(entry);
        }
    }
}

/// An entry fits into an empty buffer if and only if it is no longer than the
/// capacity: after a flush, appending again fails only for an entry that fits no
/// payload at all.
pub proof fn lemma_fits_after_flush(entry: Seq<u8>, capacity: int)
    ensures
        fits(Seq::empty(), entry, capacity) <==> entry.len() <= capacity,
{
}

/// An entry that fills the buffer to the last byte goes in without a flush; one byte
/// more, and what is buffered is flushed, once, and the entry stands alone in the
/// buffer.
pub proof fn lemma_boundary(packing: Packing, entry: Seq<u8>, capacity: int)
    requires
        entry.len() <= capacity,
    ensures
        packing.buffered.len() + separator_len(packing.buffered) + entry.len() == capacity
            ==> pack_entry(packing, entry, capacity) == (Packing {
            flushed: packing.flushed,
            buffered: appended(packing.buffered, entry),
        }),
        packing.buffered.len() + separator_len(packing.buffered) + entry.len() == capacity + 1
            ==> pack_entry(packing, entry, capacity) == (Packing {
            flushed: packing.flushed.push(packing.buffered),
            buffered: entry,
        }),
{
}

} // verus!
