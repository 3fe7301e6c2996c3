//! Bookkeeping of the packet identifiers in use on a connection.
use crate::mqtt::common::ValueAllocator;
use crate::mqtt::packet::packet_id::{pow256, IsPacketId};
use crate::mqtt::result_code::MqttError;
use vstd::prelude::*;

verus! {

/// Hands out and takes back packet identifiers in `[1, T::max_id()]`.
pub struct PacketIdManager<T: IsPacketId> {
    allocator: ValueAllocator<T>,
}

impl<T: IsPacketId> PacketIdManager<T> {
    /// The manager's internal invariant.
    pub closed spec fn wf(&self) -> bool {
        &&& self.allocator.wf()
        &&& self.allocator.lowest_value() == 1
        &&& self.allocator.highest_value() == Self::max_value()
    }

    /// The largest identifier value of `T`.
    pub open spec fn max_value() -> int {
        pow256(T::id_width()) - 1
    }

    /// The identifiers currently in use.
    pub closed spec fn in_use(&self) -> Set<int> {
        ValueAllocator::<T>::range_set(1, Self::max_value()).difference(self.allocator.vacant())
    }

    /// The set of all valid identifiers.
    pub open spec fn all_ids() -> Set<int> {
        ValueAllocator::<T>::range_set(1, Self::max_value())
    }

    /// Creates a manager with every identifier available.
    pub fn new() -> (r: Self)
        ensures
            r.wf(),
            r.in_use() == Set::<int>::empty(),
    {
        let max = T::max_id();
        proof {
            T::lemma_id_facts(max, max);
            crate::mqtt::packet::packet_id::lemma_pow256_values();
        }
        let one = T::from_u32(1);
        let r = Self { allocator: ValueAllocator::new(one, max) };
        proof {
            assert(r.in_use() =~= Set::<int>::empty());
        }
        r
    }

    /// Acquires the smallest identifier not in use.
    pub fn acquire_unique_id(&mut self) -> (r: Result<T, MqttError>)
        requires
            old(self).wf(),
        ensures
            final(self).wf(),
            match r {
                Ok(id) => {
                    &&& !old(self).in_use().contains(id.id_value() as int)
                    &&& 1 <= id.id_value()
                    &&& forall|w: int| 1 <= w < id.id_value() ==> #[trigger] old(self).in_use().contains(w)
                    &&& final(self).in_use() == old(self).in_use().insert(id.id_value() as int)
                },
                Err(e) => {
                    &&& e == MqttError::PacketIdentifierFullyUsed
                    &&& old(self).in_use() == Self::all_ids()
                    &&& final(self).in_use() == old(self).in_use()
                },
            },
    {
        let ghost before = self.allocator.vacant();
        let r = self.allocator.allocate();
        match r {
            Some(id) => {
                proof {
                    old(self).allocator.lemma_vacant_in_range(id.id_value() as int);
                    assert forall|w: int| 1 <= w < id.id_value() implies #[trigger] old(self).in_use().contains(w) by {
                        if before.contains(w) {
                            assert(id.id_value() <= w);
                        }
                        assert(ValueAllocator::<T>::range_set(1, Self::max_value()).contains(w));
                    }
                    assert forall|w: int| #[trigger] self.in_use().contains(w) <==> old(self).in_use().insert(id.id_value() as int).contains(w) by {
                        assert(ValueAllocator::<T>::range_set(1, Self::max_value()).contains(w) <==> 1 <= w <= Self::max_value());
                    }
                    assert(self.in_use() =~= old(self).in_use().insert(id.id_value() as int));
                }
                Ok(id)
            },
            None => {
                proof {
                    assert(old(self).in_use() =~= Self::all_ids());
                }
                Err(MqttError::PacketIdentifierFullyUsed)
            },
        }
    }

    /// Registers an identifier obtained elsewhere. Fails with
    /// `PacketIdentifierConflict` when it is already in use (or is zero).
    pub fn register_id(&mut self, packet_id: T) -> (r: Result<(), MqttError>)
        requires
            old(self).wf(),
        ensures
            final(self).wf(),
            r is Ok <==> (packet_id.id_value() != 0 && !old(self).in_use().contains(packet_id.id_value() as int)),
            r is Ok ==> final(self).in_use() == old(self).in_use().insert(packet_id.id_value() as int),
            r matches Err(e) ==> e == MqttError::PacketIdentifierConflict && final(self).in_use() == old(self).in_use(),
    {
        proof {
            T::lemma_id_facts(packet_id, packet_id);
        }
        let fresh = self.allocator.use_value(packet_id);
        proof {
            let v = packet_id.id_value() as int;
            assert(ValueAllocator::<T>::range_set(1, Self::max_value()).contains(v) <==> 1 <= v <= Self::max_value());
            if old(self).allocator.vacant().contains(v) {
                old(self).allocator.lemma_vacant_in_range(v);
            }
            assert forall|w: int| #[trigger] self.in_use().contains(w) <==> (if fresh { old(self).in_use().insert(v) } else { old(self).in_use() }).contains(w) by {
                assert(ValueAllocator::<T>::range_set(1, Self::max_value()).contains(w) <==> 1 <= w <= Self::max_value());
                if w == v && old(self).allocator.vacant().contains(v) {
                    old(self).allocator.lemma_vacant_in_range(v);
                }
            }
            assert(self.in_use() =~= if fresh { old(self).in_use().insert(packet_id.id_value() as int) } else { old(self).in_use() });
        }
        if fresh {
            Ok(())
        } else {
            Err(MqttError::PacketIdentifierConflict)
        }
    }

    /// Whether `packet_id` is in use (zero always counts as in use).
    pub fn is_used_id(&self, packet_id: T) -> (r: bool)
        requires
            self.wf(),
        ensures
            r == (packet_id.id_value() == 0 || self.in_use().contains(packet_id.id_value() as int)),
    {
        proof {
            T::lemma_id_facts(packet_id, packet_id);
            if packet_id.id_value() == 0 && self.allocator.vacant().contains(0) {
                self.allocator.lemma_vacant_in_range(0);
            }
        }
        self.allocator.is_used(packet_id)
    }

    /// Releases an identifier so it can be acquired again.
    pub fn release_id(&mut self, packet_id: T)
        requires
            old(self).wf(),
            packet_id.id_value() != 0,
        ensures
            final(self).wf(),
            final(self).in_use() == old(self).in_use().remove(packet_id.id_value() as int),
    {
        proof {
            T::lemma_id_facts(packet_id, packet_id);
        }
        self.allocator.deallocate(packet_id);
        proof {
            assert(self.in_use() =~= old(self).in_use().remove(packet_id.id_value() as int));
        }
    }

    /// Makes every identifier available again.
    pub fn clear(&mut self)
        requires
            old(self).wf(),
        ensures
            final(self).wf(),
            final(self).in_use() == Set::<int>::empty(),
    {
        self.allocator.clear();
        proof {
            assert(self.in_use() =~= Set::<int>::empty());
        }
    }
}

} // verus!
