//! The server's registry: transfers, lane writers, start marks and per-transfer locks.
//!
//! The registry is generic over the type `L` of the locks that it hands out.

use crate::messages::{Timestamp, TransferStatus, TransferSummary};
use std::collections::HashMap;
use std::sync::Arc;
use vstd::prelude::*;
use vstd::string::*;

verus! {

broadcast use vstd::std_specs::hash::group_hash_axioms;

/// What the registry holds.
#[verifier::ext_equal]
pub struct StateView<L> {
    pub transfers: Map<u128, TransferSummary>,
    pub started_at: Map<u128, u64>,
    pub lane_writers: Set<(u128, u32)>,
    pub finalize_locks: Map<u128, Arc<L>>,
    pub checkpoint_locks: Map<u128, Arc<L>>,
    pub quic_addr: String,
    pub quic_server_name: String,
    pub quic_profile: String,
    pub quic_cert_der_b64: String,
}

/// Whether a transfer with this status still counts against the capacity of the server.
pub open spec fn is_active(status: TransferStatus) -> bool {
    status == TransferStatus::Queued || status == TransferStatus::Running
}

/// `bytes`, but no more than the file has.
pub open spec fn capped_bytes(summary: TransferSummary, bytes: u64) -> u64 {
    if bytes < summary.file_size_bytes {
        bytes
    } else {
        summary.file_size_bytes
    }
}

/// A transfer once this many of its bytes have arrived.
pub open spec fn progressed(summary: TransferSummary, bytes: u64, now: Timestamp) -> TransferSummary {
    TransferSummary {
        bytes_transferred: capped_bytes(summary, bytes),
        updated_at: now,
        ..summary
    }
}

/// A transfer once it has this status and this many of its bytes have arrived.
pub open spec fn settled(
    summary: TransferSummary,
    status: TransferStatus,
    bytes: u64,
    now: Timestamp,
) -> TransferSummary {
    TransferSummary {
        status,
        bytes_transferred: capped_bytes(summary, bytes),
        updated_at: now,
        ..summary
    }
}

/// Whether a transfer with this status is over.
pub open spec fn is_terminal(status: TransferStatus) -> bool {
    status == TransferStatus::Completed || status == TransferStatus::Failed
}

/// The effect of a change of status: what is to be stored, and whether the transfer is over.
#[derive(Debug)]
pub struct StatusChange {
    pub snapshot: Option<TransferSummary>,
    pub terminal: bool,
}

/// Why a stream cannot begin.
#[derive(Debug, Clone, Copy, PartialEq, Eq, Structural)]
pub enum BeginFault {
    UnknownTransfer { transfer_id: u128 },
    MetadataChanged,
}

impl<L> StateView<L> {
    /// The registry with a transfer progressed.
    pub open spec fn with_progress(self, transfer_id: u128, bytes: u64, now: Timestamp) -> Self {
        if self.transfers.contains_key(transfer_id) {
            self.with_transfer(progressed(self.transfers[transfer_id], bytes, now))
        } else {
            self
        }
    }

    /// The registry with a transfer settled.
    pub open spec fn with_status(
        self,
        transfer_id: u128,
        status: TransferStatus,
        bytes: u64,
        now: Timestamp,
    ) -> Self {
        if self.transfers.contains_key(transfer_id) {
            self.with_transfer(settled(self.transfers[transfer_id], status, bytes, now))
        } else {
            self
        }
    }

    /// Whether this transfer is known and running.
    pub open spec fn is_running(self, transfer_id: u128) -> bool {
        self.transfers.contains_key(transfer_id) && self.transfers[transfer_id].status
            == TransferStatus::Running
    }

    /// The registry with a transfer failed, where it was running.
    pub open spec fn with_failure(self, transfer_id: u128, now: Timestamp) -> Self {
        if self.is_running(transfer_id) {
            self.with_status(
                transfer_id,
                TransferStatus::Failed,
                self.transfers[transfer_id].bytes_transferred,
                now,
            )
        } else {
            self
        }
    }

    /// Why a stream on this transfer cannot begin.
    pub open spec fn begin_fault(
        self,
        transfer_id: u128,
        file_size_bytes: u64,
        resume_chunk_size_bytes: u64,
    ) -> Option<BeginFault> {
        if !self.transfers.contains_key(transfer_id) {
            Some(BeginFault::UnknownTransfer { transfer_id })
        } else if self.transfers[transfer_id].file_size_bytes != file_size_bytes
            || self.transfers[transfer_id].resume_chunk_size_bytes != resume_chunk_size_bytes {
            Some(BeginFault::MetadataChanged)
        } else {
            None
        }
    }

    /// Whether no transfer is said to have more bytes than its file.
    pub open spec fn bytes_fit(self) -> bool {
        forall|id: u128|
            #![trigger self.transfers[id]]
            self.transfers.contains_key(id) ==> self.transfers[id].bytes_transferred
                <= self.transfers[id].file_size_bytes
    }

    /// What is known of a transfer.
    pub open spec fn transfer(self, transfer_id: u128) -> Option<TransferSummary> {
        if self.transfers.contains_key(transfer_id) {
            Some(self.transfers[transfer_id])
        } else {
            None
        }
    }

    /// The registry with this transfer filed under its identifier.
    pub open spec fn with_transfer(self, summary: TransferSummary) -> Self {
        StateView { transfers: self.transfers.insert(summary.transfer_id, summary), ..self }
    }

    /// The registry without the locks of a transfer.
    pub open spec fn without_locks(self, transfer_id: u128) -> Self {
        StateView {
            finalize_locks: self.finalize_locks.remove(transfer_id),
            checkpoint_locks: self.checkpoint_locks.remove(transfer_id),
            ..self
        }
    }

    /// The registry with a start mark for a transfer: the one it has, or this one.
    pub open spec fn with_start_mark(self, transfer_id: u128, mark: u64) -> Self {
        StateView {
            started_at: if self.started_at.contains_key(transfer_id) {
                self.started_at
            } else {
                self.started_at.insert(transfer_id, mark)
            },
            ..self
        }
    }

    /// The identifiers of the transfers that are queued or running.
    pub open spec fn active_ids(self) -> Set<u128> {
        self.transfers.dom().filter(|id: u128| is_active(self.transfers[id].status))
    }
}

/// The state that all connections of a server share.
pub struct AppState<L> {
    transfers: HashMap<u128, TransferSummary>,
    transfer_started_at: HashMap<u128, u64>,
    active_lane_writers: Vec<(u128, u32)>,
    finalize_locks: HashMap<u128, Arc<L>>,
    checkpoint_locks: HashMap<u128, Arc<L>>,
    quic_addr: String,
    quic_server_name: String,
    quic_profile: String,
    quic_cert_der_b64: String,
}

impl<L> View for AppState<L> {
    type V = StateView<L>;

    closed spec fn view(&self) -> StateView<L> {
        StateView {
            transfers: self.transfers@,
            started_at: self.transfer_started_at@,
            lane_writers: self.active_lane_writers@.to_set(),
            finalize_locks: self.finalize_locks@,
            checkpoint_locks: self.checkpoint_locks@,
            quic_addr: self.quic_addr,
            quic_server_name: self.quic_server_name,
            quic_profile: self.quic_profile,
            quic_cert_der_b64: self.quic_cert_der_b64,
        }
    }
}

/// What a persisted list of transfers is loaded to: of several with one identifier, the last.
pub open spec fn loaded_transfers(persisted: Seq<TransferSummary>) -> Map<u128, TransferSummary>
    decreases persisted.len(),
{
    if persisted.len() == 0 {
        Map::empty()
    } else {
        loaded_transfers(persisted.drop_last()).insert(
            persisted.last().transfer_id,
            persisted.last(),
        )
    }
}

impl<L> AppState<L> {
    /// Every transfer is filed under its own identifier, and no lane writer is listed twice.
    pub closed spec fn wf(&self) -> bool {
        &&& forall|id: u128|
            self.transfers@.contains_key(id) ==> (#[trigger] self.transfers@[id]).transfer_id == id
        &&& self.active_lane_writers@.no_duplicates()
    }

    /// The registry of a server that starts with these persisted transfers.
    pub fn new(
        quic_addr: String,
        quic_server_name: String,
        quic_profile: String,
        quic_cert_der_b64: String,
        persisted_transfers: Vec<TransferSummary>,
    ) -> (r: Self)
        ensures
            r.wf(),
            r@ == (StateView::<L> {
                transfers: loaded_transfers(persisted_transfers@),
                started_at: Map::empty(),
                lane_writers: Set::empty(),
                finalize_locks: Map::empty(),
                checkpoint_locks: Map::empty(),
                quic_addr,
                quic_server_name,
                quic_profile,
                quic_cert_der_b64,
            }),
            forall|i: int|
                0 <= i < persisted_transfers@.len() ==> r@.transfers.contains_key(
                    (#[trigger] persisted_transfers@[i]).transfer_id,
                ),
            forall|id: u128|
                #![trigger r@.transfers[id]]
                r@.transfers.contains_key(id) ==> persisted_transfers@.contains(r@.transfers[id])
                    && r@.transfers[id].transfer_id == id,
    {
        let mut transfers: HashMap<u128, TransferSummary> = HashMap::new();
        for i in 0..persisted_transfers.len()
            invariant
                transfers@ == loaded_transfers(persisted_transfers@.take(i as int)),
                forall|id: u128|
                    transfers@.contains_key(id) ==> (#[trigger] transfers@[id]).transfer_id == id,
        {
            let summary = persisted_transfers[i].clone();
            transfers.insert(summary.transfer_id, summary);
            proof {
                let next = persisted_transfers@.take(i + 1);
                assert(next.drop_last() =~= persisted_transfers@.take(i as int));
            }
        }
        assert(persisted_transfers@.take(persisted_transfers@.len() as int)
            =~= persisted_transfers@);
        let r = AppState {
            transfers,
            transfer_started_at: HashMap::new(),
            active_lane_writers: Vec::new(),
            finalize_locks: HashMap::new(),
            checkpoint_locks: HashMap::new(),
            quic_addr,
            quic_server_name,
            quic_profile,
            quic_cert_der_b64,
        };
        assert(r.active_lane_writers@.to_set() =~= Set::empty());
        proof {
            assert forall|i: int| 0 <= i < persisted_transfers@.len() implies transfers@.contains_key(
                (#[trigger] persisted_transfers@[i]).transfer_id,
            ) by {
                loaded_transfers_are_the_persisted_ones(
                    persisted_transfers@,
                    persisted_transfers@[i].transfer_id,
                );
            }
            assert forall|id: u128|
                #![trigger transfers@[id]]
                transfers@.contains_key(id) implies persisted_transfers@.contains(transfers@[id]) by {
                loaded_transfers_are_the_persisted_ones(persisted_transfers@, id);
            }
        }
        r
    }

    /// Position of a lane writer in the list.
    fn writer_position(&self, transfer_id: u128, lane_index: u32) -> (r: Option<usize>)
        ensures
            match r {
                Some(i) => i < self.active_lane_writers@.len() && self.active_lane_writers@[i as int]
                    == (transfer_id, lane_index),
                None => !self@.lane_writers.contains((transfer_id, lane_index)),
            },
    {
        for i in 0..self.active_lane_writers.len()
            invariant
                forall|j: int|
                    0 <= j < i ==> self.active_lane_writers@[j] != (transfer_id, lane_index),
        {
            let (id, lane) = self.active_lane_writers[i];
            if id == transfer_id && lane == lane_index {
                return Some(i);
            }
        }
        None
    }

    /// Takes the write lease of a lane. Only one writer of a lane holds it at a time.
    pub fn try_acquire_lane_writer(&mut self, transfer_id: u128, lane_index: u32) -> (r: bool)
        requires
            old(self).wf(),
        ensures
            final(self).wf(),
            r == !old(self)@.lane_writers.contains((transfer_id, lane_index)),
            final(self)@ == (StateView {
                lane_writers: old(self)@.lane_writers.insert((transfer_id, lane_index)),
                ..old(self)@
            }),
    {
        match self.writer_position(transfer_id, lane_index) {
            Some(i) => {
                proof {
                    assert(self.active_lane_writers@.contains((transfer_id, lane_index)));
                    assert(self@.lane_writers.insert((transfer_id, lane_index))
                        =~= self@.lane_writers);
                }
                false
            },
            None => {
                self.active_lane_writers.push((transfer_id, lane_index));
                proof {
                    let before = old(self).active_lane_writers@;
                    let after = self.active_lane_writers@;
                    assert(!before.contains((transfer_id, lane_index)));
                    assert forall|w: (u128, u32)| after.contains(w) <==> before.contains(w) || w == (
                        transfer_id,
                        lane_index,
                    ) by {
                        if before.contains(w) {
                            let k = before.index_of(w);
                            assert(after[k] == w);
                        }
                        if w == (transfer_id, lane_index) {
                            assert(after[before.len() as int] == w);
                        }
                    }
                    assert(after.to_set() =~= before.to_set().insert((transfer_id, lane_index)));
                }
                true
            },
        }
    }

    /// Gives the write lease of a lane back.
    pub fn release_lane_writer(&mut self, transfer_id: u128, lane_index: u32)
        requires
            old(self).wf(),
        ensures
            final(self).wf(),
            final(self)@ == (StateView {
                lane_writers: old(self)@.lane_writers.remove((transfer_id, lane_index)),
                ..old(self)@
            }),
    {
        match self.writer_position(transfer_id, lane_index) {
            Some(i) => {
                self.active_lane_writers.remove(i);
                proof {
                    let before = old(self).active_lane_writers@;
                    let after = self.active_lane_writers@;
                    assert(after =~= before.remove(i as int));
                    assert forall|w: (u128, u32)| after.contains(w) <==> before.contains(w) && w != (
                        transfer_id,
                        lane_index,
                    ) by {
                        if before.contains(w) && w != (transfer_id, lane_index) {
                            let k = before.index_of(w);
                            if k < i {
                                assert(after[k] == w);
                            } else {
                                assert(after[k - 1] == w);
                            }
                        }
                        if after.contains(w) {
                            let k = after.index_of(w);
                            if k < i {
                                assert(before[k] == w);
                            } else {
                                assert(before[k + 1] == w);
                            }
                        }
                    }
                    assert(after.to_set() =~= before.to_set().remove((transfer_id, lane_index)));
                }
            },
            None => {
                proof {
                    assert(self@.lane_writers.remove((transfer_id, lane_index))
                        =~= self@.lane_writers);
                }
            },
        }
    }

    /// The lock that orders the finalization of a transfer. `fresh` is taken where there is none.
    pub fn finalize_lock_for(&mut self, transfer_id: u128, fresh: L) -> (r: Arc<L>)
        requires
            old(self).wf(),
        ensures
            final(self).wf(),
            r == (if old(self)@.finalize_locks.contains_key(transfer_id) {
                old(self)@.finalize_locks[transfer_id]
            } else {
                Arc::new(fresh)
            }),
            final(self)@ == (StateView {
                finalize_locks: old(self)@.finalize_locks.insert(transfer_id, r),
                ..old(self)@
            }),
    {
        match self.finalize_locks.get(&transfer_id) {
            Some(lock) => {
                proof {
                    assert(self@.finalize_locks.insert(transfer_id, *lock)
                        =~= self@.finalize_locks);
                }
                lock.clone()
            },
            None => {
                let lock = Arc::new(fresh);
                let shared = lock.clone();
                self.finalize_locks.insert(transfer_id, lock);
                shared
            },
        }
    }

    /// The lock that orders work on the checkpoint of a transfer. `fresh` is taken where there is
    /// none.
    pub fn checkpoint_lock_for(&mut self, transfer_id: u128, fresh: L) -> (r: Arc<L>)
        requires
            old(self).wf(),
        ensures
            final(self).wf(),
            r == (if old(self)@.checkpoint_locks.contains_key(transfer_id) {
                old(self)@.checkpoint_locks[transfer_id]
            } else {
                Arc::new(fresh)
            }),
            final(self)@ == (StateView {
                checkpoint_locks: old(self)@.checkpoint_locks.insert(transfer_id, r),
                ..old(self)@
            }),
    {
        match self.checkpoint_locks.get(&transfer_id) {
            Some(lock) => {
                proof {
                    assert(self@.checkpoint_locks.insert(transfer_id, *lock)
                        =~= self@.checkpoint_locks);
                }
                lock.clone()
            },
            None => {
                let lock = Arc::new(fresh);
                let shared = lock.clone();
                self.checkpoint_locks.insert(transfer_id, lock);
                shared
            },
        }
    }

    /// Forgets the locks of a transfer.
    pub fn clear_transfer_locks(&mut self, transfer_id: u128)
        requires
            old(self).wf(),
        ensures
            final(self).wf(),
            final(self)@ == old(self)@.without_locks(transfer_id),
    {
        self.finalize_locks.remove(&transfer_id);
        self.checkpoint_locks.remove(&transfer_id);
    }

    /// Notes when a transfer first started. A mark that is there already stays.
    pub fn mark_transfer_started_if_absent(&mut self, transfer_id: u128, now_mark: u64)
        requires
            old(self).wf(),
        ensures
            final(self).wf(),
            final(self)@ == old(self)@.with_start_mark(transfer_id, now_mark),
    {
        if !self.transfer_started_at.contains_key(&transfer_id) {
            self.transfer_started_at.insert(transfer_id, now_mark);
        }
    }

    /// Takes out the start mark of a transfer.
    pub fn take_transfer_started_at(&mut self, transfer_id: u128) -> (r: Option<u64>)
        requires
            old(self).wf(),
        ensures
            final(self).wf(),
            r == (if old(self)@.started_at.contains_key(transfer_id) {
                Some(old(self)@.started_at[transfer_id])
            } else {
                None
            }),
            final(self)@ == (StateView {
                started_at: old(self)@.started_at.remove(transfer_id),
                ..old(self)@
            }),
    {
        self.transfer_started_at.remove(&transfer_id)
    }

    /// A copy of what is known of a transfer.
    pub fn transfer(&self, transfer_id: u128) -> (r: Option<TransferSummary>)
        requires
            self.wf(),
        ensures
            r == self@.transfer(transfer_id),
            r matches Some(summary) ==> summary.transfer_id == transfer_id,
    {
        match self.transfers.get(&transfer_id) {
            Some(summary) => Some(summary.clone()),
            None => None,
        }
    }

    /// Files a transfer under its identifier.
    pub(crate) fn put_transfer(&mut self, summary: TransferSummary)
        requires
            old(self).wf(),
        ensures
            final(self).wf(),
            final(self)@ == old(self)@.with_transfer(summary),
    {
        self.transfers.insert(summary.transfer_id, summary);
    }

    /// Notes how many bytes of a transfer have arrived. An unknown transfer is passed over.
    pub fn record_progress(&mut self, transfer_id: u128, bytes: u64, now: Timestamp)
        requires
            old(self).wf(),
        ensures
            final(self).wf(),
            final(self)@ == old(self)@.with_progress(transfer_id, bytes, now),
    {
        match self.transfers.remove(&transfer_id) {
            Some(mut summary) => {
                if bytes < summary.file_size_bytes {
                    summary.bytes_transferred = bytes;
                } else {
                    summary.bytes_transferred = summary.file_size_bytes;
                }
                summary.updated_at = now;
                self.transfers.insert(transfer_id, summary);
                proof {
                    assert(self@.transfers =~= old(self)@.transfers.insert(transfer_id, summary));
                }
            },
            None => {
                proof {
                    assert(self@.transfers =~= old(self)@.transfers);
                }
            },
        }
    }

    /// Settles the status of a transfer. The snapshot is to be stored; once it is, the change is
    /// handed to `conclude_status`.
    pub fn set_transfer_status(
        &mut self,
        transfer_id: u128,
        status: TransferStatus,
        bytes_transferred: u64,
        now: Timestamp,
    ) -> (r: StatusChange)
        requires
            old(self).wf(),
        ensures
            final(self).wf(),
            final(self)@ == old(self)@.with_status(transfer_id, status, bytes_transferred, now),
            r.snapshot == final(self)@.transfer(transfer_id),
            r.terminal == (old(self)@.transfers.contains_key(transfer_id) && is_terminal(status)),
    {
        match self.transfers.remove(&transfer_id) {
            Some(mut summary) => {
                summary.status = status;
                if bytes_transferred < summary.file_size_bytes {
                    summary.bytes_transferred = bytes_transferred;
                } else {
                    summary.bytes_transferred = summary.file_size_bytes;
                }
                summary.updated_at = now;
                let snapshot = summary.clone();
                self.transfers.insert(transfer_id, summary);
                proof {
                    assert(self@.transfers =~= old(self)@.transfers.insert(transfer_id, summary));
                }
                let terminal = match status {
                    TransferStatus::Completed | TransferStatus::Failed => true,
                    TransferStatus::Queued | TransferStatus::Running => false,
                };
                StatusChange { snapshot: Some(snapshot), terminal }
            },
            None => {
                proof {
                    assert(self@.transfers =~= old(self)@.transfers);
                }
                StatusChange { snapshot: None, terminal: false }
            },
        }
    }

    /// Ends a change of status once its snapshot is stored: a transfer that is over needs no
    /// locks.
    pub fn conclude_status(&mut self, transfer_id: u128, terminal: bool)
        requires
            old(self).wf(),
        ensures
            final(self).wf(),
            final(self)@ == (if terminal {
                old(self)@.without_locks(transfer_id)
            } else {
                old(self)@
            }),
    {
        if terminal {
            self.clear_transfer_locks(transfer_id);
        }
    }

    /// Fails a transfer that is running; any other is left as it is.
    pub fn fail_running_transfer(&mut self, transfer_id: u128, now: Timestamp) -> (r: Option<
        StatusChange,
    >)
        requires
            old(self).wf(),
        ensures
            final(self).wf(),
            final(self)@ == old(self)@.with_failure(transfer_id, now),
            r is Some <==> old(self)@.is_running(transfer_id),
            r matches Some(change) ==> change.terminal && change.snapshot
                == final(self)@.transfer(transfer_id),
    {
        let bytes: u64 = match self.transfers.get(&transfer_id) {
            None => {
                return None;
            },
            Some(summary) => match summary.status {
                TransferStatus::Running => summary.bytes_transferred,
                TransferStatus::Queued | TransferStatus::Completed | TransferStatus::Failed => {
                    return None;
                },
            },
        };
        Some(self.set_transfer_status(transfer_id, TransferStatus::Failed, bytes, now))
    }

    /// Puts a transfer into the running state, with the bytes that it resumes from. Gives the
    /// snapshot to be stored.
    pub fn begin_stream(
        &mut self,
        transfer_id: u128,
        file_size_bytes: u64,
        resume_chunk_size_bytes: u64,
        bytes_transferred: u64,
        now: Timestamp,
    ) -> (r: Result<TransferSummary, BeginFault>)
        requires
            old(self).wf(),
            bytes_transferred <= file_size_bytes,
        ensures
            final(self).wf(),
            match r {
                Ok(snapshot) => {
                    &&& old(self)@.begin_fault(
                        transfer_id,
                        file_size_bytes,
                        resume_chunk_size_bytes,
                    ) is None
                    &&& snapshot == settled(
                        old(self)@.transfers[transfer_id],
                        TransferStatus::Running,
                        bytes_transferred,
                        now,
                    )
                    &&& final(self)@ == old(self)@.with_transfer(snapshot)
                },
                Err(fault) => {
                    &&& old(self)@.begin_fault(
                        transfer_id,
                        file_size_bytes,
                        resume_chunk_size_bytes,
                    ) == Some(fault)
                    &&& final(self)@ == old(self)@
                },
            },
    {
        match self.transfers.get(&transfer_id) {
            None => {
                return Err(BeginFault::UnknownTransfer { transfer_id });
            },
            Some(summary) => {
                if summary.file_size_bytes != file_size_bytes || summary.resume_chunk_size_bytes
                    != resume_chunk_size_bytes {
                    return Err(BeginFault::MetadataChanged);
                }
            },
        }
        let change = self.set_transfer_status(
            transfer_id,
            TransferStatus::Running,
            bytes_transferred,
            now,
        );
        match change.snapshot {
            Some(snapshot) => Ok(snapshot),
            None => Err(BeginFault::UnknownTransfer { transfer_id }),
        }
    }

    /// Forgets a transfer.
    pub(crate) fn drop_transfer(&mut self, transfer_id: u128)
        requires
            old(self).wf(),
        ensures
            final(self).wf(),
            final(self)@ == (StateView {
                transfers: old(self)@.transfers.remove(transfer_id),
                ..old(self)@
            }),
    {
        self.transfers.remove(&transfer_id);
    }

    /// The number of transfers that are queued or running.
    pub fn active_transfers(&self) -> (r: usize)
        requires
            self.wf(),
        ensures
            r == self@.active_ids().len(),
    {
        let total: usize = self.transfers.len();
        let ghost transfers = self.transfers@;
        let ghost active = |id: u128| is_active(transfers[id].status);
        let mut count: usize = 0;
        let ghost mut seen: Set<u128> = Set::empty();
        proof {
            assert(seen.filter(active) =~= Set::empty());
        }
        for id in it: self.transfers.keys()
            invariant
                transfers == self.transfers@,
                active == (|id: u128| is_active(transfers[id].status)),
                it.seq().unref().to_set() == transfers.dom(),
                it.seq().no_duplicates(),
                it.seq().len() == total,
                seen == it.seq().unref().take(it.index() as int).to_set(),
                it.index() == it.seq().len() ==> seen == transfers.dom(),
                seen.filter(active).finite(),
                count == seen.filter(active).len(),
                count <= it.index() <= total,
        {
            proof {
                let keys = it.seq().unref();
                let i = it.index() as int;
                assert(keys.to_set().contains(keys[i]));
                assert(!keys.take(i).contains(keys[i])) by {
                    if keys.take(i).contains(keys[i]) {
                        let k = keys.take(i).index_of(keys[i]);
                        assert(it.seq()[k] == it.seq()[i]);
                    }
                }
                assert forall|x: u128| seen.insert(*id).contains(x) <==> keys.take(
                    i + 1,
                ).contains(x) by {
                    let next = keys.take(i + 1);
                    if keys.take(i).contains(x) {
                        assert(next[keys.take(i).index_of(x)] == x);
                    }
                    assert(next[i] == *id);
                    if next.contains(x) && x != *id {
                        assert(keys.take(i)[next.index_of(x)] == x);
                    }
                }
                assert(seen.insert(*id) =~= keys.take(i + 1).to_set());
                if i + 1 == keys.len() {
                    assert(keys.take(i + 1) =~= keys);
                }
                if active(*id) {
                    assert(seen.insert(*id).filter(active) =~= seen.filter(active).insert(*id));
                } else {
                    assert(seen.insert(*id).filter(active) =~= seen.filter(active));
                }
                seen = seen.insert(*id);
            }
            match self.transfers.get(id) {
                Some(summary) => match summary.status {
                    TransferStatus::Queued | TransferStatus::Running => {
                        count = count + 1;
                    },
                    TransferStatus::Completed | TransferStatus::Failed => {},
                },
                None => {},
            }
        }
        count
    }

    pub fn quic_addr(&self) -> (r: String)
        ensures
            r == self@.quic_addr,
    {
        self.quic_addr.clone()
    }

    pub fn quic_server_name(&self) -> (r: String)
        ensures
            r == self@.quic_server_name,
    {
        self.quic_server_name.clone()
    }

    pub fn quic_profile(&self) -> (r: String)
        ensures
            r == self@.quic_profile,
    {
        self.quic_profile.clone()
    }

    pub fn quic_cert_der_b64(&self) -> (r: String)
        ensures
            r == self@.quic_cert_der_b64,
    {
        self.quic_cert_der_b64.clone()
    }
}

/// Every transfer in a registry is filed under its own identifier.
pub proof fn transfers_are_filed_under_their_ids<L>(state: AppState<L>)
    requires
        state.wf(),
    ensures
        forall|id: u128|
            #![trigger state@.transfers[id]]
            state@.transfers.contains_key(id) ==> state@.transfers[id].transfer_id == id,
{
}

/// A lane has one writer at a time: the lease is given once, refused while it is held, and given
/// again after it is released. Leases of other lanes and of other transfers are not in the way.
pub proof fn lane_leases_are_exclusive(
    writers: Set<(u128, u32)>,
    transfer_id: u128,
    lane_index: u32,
    other: (u128, u32),
)
    requires
        other != (transfer_id, lane_index),
    ensures
        writers.insert((transfer_id, lane_index)).contains((transfer_id, lane_index)),
        !writers.insert((transfer_id, lane_index)).remove((transfer_id, lane_index)).contains(
            (transfer_id, lane_index),
        ),
        writers.insert((transfer_id, lane_index)).contains(other) == writers.contains(other),
        writers.remove((transfer_id, lane_index)).contains(other) == writers.contains(other),
{
}

/// No update of the registry lets a transfer have more bytes than its file, and none changes the
/// identity of a transfer: only its status, its bytes and its time of change.
pub proof fn transferred_bytes_stay_within_the_file<L>(
    state: StateView<L>,
    transfer_id: u128,
    status: TransferStatus,
    bytes: u64,
    now: Timestamp,
)
    requires
        state.bytes_fit(),
        forall|id: u128|
            #![trigger state.transfers[id]]
            state.transfers.contains_key(id) ==> state.transfers[id].transfer_id == id,
    ensures
        state.with_progress(transfer_id, bytes, now).bytes_fit(),
        state.with_status(transfer_id, status, bytes, now).bytes_fit(),
        state.with_failure(transfer_id, now).bytes_fit(),
        state.transfers.contains_key(transfer_id) ==> {
            let summary = state.transfers[transfer_id];
            let after = state.with_status(transfer_id, status, bytes, now).transfers[transfer_id];
            &&& after == (TransferSummary {
                status: after.status,
                bytes_transferred: after.bytes_transferred,
                updated_at: after.updated_at,
                ..summary
            })
            &&& after.status == status
        },
{
}

/// What one transfer goes through leaves every other transfer as it was.
pub proof fn transfers_do_not_disturb_each_other<L>(
    state: StateView<L>,
    transfer_id: u128,
    other: u128,
    status: TransferStatus,
    bytes: u64,
    now: Timestamp,
)
    requires
        other != transfer_id,
        forall|id: u128|
            #![trigger state.transfers[id]]
            state.transfers.contains_key(id) ==> state.transfers[id].transfer_id == id,
    ensures
        state.with_progress(transfer_id, bytes, now).transfer(other) == state.transfer(other),
        state.with_status(transfer_id, status, bytes, now).transfer(other) == state.transfer(other),
        state.with_failure(transfer_id, now).transfer(other) == state.transfer(other),
        state.without_locks(transfer_id).finalize_locks.contains_key(other)
            == state.finalize_locks.contains_key(other),
        state.without_locks(transfer_id).checkpoint_locks.contains_key(other)
            == state.checkpoint_locks.contains_key(other),
{
}

/// After a failed stream the transfer is not left running.
pub proof fn failed_streams_do_not_leave_a_running_transfer<L>(
    state: StateView<L>,
    transfer_id: u128,
    now: Timestamp,
)
    requires
        state.transfers.contains_key(transfer_id) ==> state.transfers[transfer_id].transfer_id
            == transfer_id,
    ensures
        !state.with_failure(transfer_id, now).is_running(transfer_id),
{
}

/// What a server knows when it starts is what was persisted. An identifier is known exactly where the
/// persisted list has it, and then with the last summary that the list has for it, unchanged in every
/// field.
pub proof fn loaded_transfers_are_the_persisted_ones(persisted: Seq<TransferSummary>, id: u128)
    ensures
        loaded_transfers(persisted).contains_key(id) <==> exists|i: int|
            0 <= i < persisted.len() && (#[trigger] persisted[i]).transfer_id == id,
        loaded_transfers(persisted).contains_key(id) ==> exists|i: int|
            {
                &&& 0 <= i < persisted.len()
                &&& #[trigger] persisted[i] == loaded_transfers(persisted)[id]
                &&& persisted[i].transfer_id == id
                &&& forall|j: int|
                    i < j < persisted.len() ==> (#[trigger] persisted[j]).transfer_id != id
            },
    decreases persisted.len(),
{
    if persisted.len() > 0 {
        let rest = persisted.drop_last();
        let n = persisted.len() - 1;
        loaded_transfers_are_the_persisted_ones(rest, id);
        if persisted[n].transfer_id == id {
            assert(loaded_transfers(persisted)[id] == persisted[n]);
        } else if loaded_transfers(rest).contains_key(id) {
            let i = choose|i: int|
                {
                    &&& 0 <= i < rest.len()
                    &&& #[trigger] rest[i] == loaded_transfers(rest)[id]
                    &&& rest[i].transfer_id == id
                    &&& forall|j: int| i < j < rest.len() ==> (#[trigger] rest[j]).transfer_id != id
                };
            assert(persisted[i] == rest[i]);
            assert forall|j: int| i < j < persisted.len() implies (
            #[trigger] persisted[j]).transfer_id != id by {
                if j < n {
                    assert(rest[j] == persisted[j]);
                }
            }
        } else {
            assert forall|i: int| 0 <= i < persisted.len() implies (
            #[trigger] persisted[i]).transfer_id != id by {
                if i < n {
                    assert(rest[i] == persisted[i]);
                }
            }
        }
    }
}

/// A list without repeated identifiers is loaded whole: every summary in it is known as it stands.
pub proof fn every_persisted_transfer_is_loaded(persisted: Seq<TransferSummary>, i: int)
    requires
        0 <= i < persisted.len(),
        forall|j: int|
            i < j < persisted.len() ==> (#[trigger] persisted[j]).transfer_id
                != persisted[i].transfer_id,
    ensures
        loaded_transfers(persisted).contains_key(persisted[i].transfer_id),
        loaded_transfers(persisted)[persisted[i].transfer_id] == persisted[i],
{
    let id = persisted[i].transfer_id;
    loaded_transfers_are_the_persisted_ones(persisted, id);
    let k = choose|k: int|
        {
            &&& 0 <= k < persisted.len()
            &&& #[trigger] persisted[k] == loaded_transfers(persisted)[id]
            &&& persisted[k].transfer_id == id
            &&& forall|j: int| k < j < persisted.len() ==> (#[trigger] persisted[j]).transfer_id != id
        };
    assert(k == i);
}

/// What a change of a known transfer leaves of it. The bytes are those that were told, or the size of
/// the file where that is less; the time of change is the time of the call; the status changes only
/// where one was told. All else stays, in the transfer and in the registry.
pub proof fn changes_say_what_was_told<L>(
    state: StateView<L>,
    transfer_id: u128,
    status: TransferStatus,
    bytes: u64,
    now: Timestamp,
)
    requires
        state.transfer(transfer_id) matches Some(summary) && summary.transfer_id == transfer_id,
    ensures
        ({
            let before = state.transfers[transfer_id];
            let least = vstd::math::min(bytes as int, before.file_size_bytes as int) as u64;
            &&& state.with_progress(transfer_id, bytes, now) == (StateView {
                transfers: state.transfers.insert(
                    transfer_id,
                    TransferSummary { bytes_transferred: least, updated_at: now, ..before },
                ),
                ..state
            })
            &&& state.with_status(transfer_id, status, bytes, now) == (StateView {
                transfers: state.transfers.insert(
                    transfer_id,
                    TransferSummary { status, bytes_transferred: least, updated_at: now, ..before },
                ),
                ..state
            })
        }),
{
}

/// A transfer that is not known is not made known by being changed.
pub proof fn unknown_transfers_stay_unknown<L>(
    state: StateView<L>,
    transfer_id: u128,
    status: TransferStatus,
    bytes: u64,
    now: Timestamp,
)
    requires
        !state.transfers.contains_key(transfer_id),
    ensures
        state.transfer(transfer_id) is None,
        state.with_progress(transfer_id, bytes, now) == state,
        state.with_status(transfer_id, status, bytes, now) == state,
        state.with_failure(transfer_id, now) == state,
{
}

/// A failure ends a running transfer as failed, with the bytes that it had, and no other.
pub proof fn only_running_transfers_fail<L>(
    state: StateView<L>,
    transfer_id: u128,
    now: Timestamp,
)
    requires
        state.transfer(transfer_id) matches Some(summary) && summary.transfer_id == transfer_id
            && summary.bytes_transferred <= summary.file_size_bytes,
    ensures
        ({
            let before = state.transfers[transfer_id];
            let after = state.with_failure(transfer_id, now);
            if before.status == TransferStatus::Running {
                after == (StateView {
                    transfers: state.transfers.insert(
                        transfer_id,
                        TransferSummary {
                            status: TransferStatus::Failed,
                            updated_at: now,
                            ..before
                        },
                    ),
                    ..state
                })
            } else {
                after == state
            }
        }),
{
}

/// A transfer takes up capacity from its registration until it ends: it is counted while it is queued
/// or running, and no longer once it has completed or failed.
pub proof fn transfers_take_up_capacity_until_they_end<L>(
    state: StateView<L>,
    transfer_id: u128,
    summary: TransferSummary,
)
    requires
        summary.transfer_id == transfer_id,
        state.transfers.dom().finite(),
    ensures
        is_terminal(summary.status) <==> !is_active(summary.status),
        is_terminal(summary.status) <==> summary.status == TransferStatus::Completed
            || summary.status == TransferStatus::Failed,
        state.with_transfer(summary).active_ids().contains(transfer_id) <==> summary.status
            == TransferStatus::Queued || summary.status == TransferStatus::Running,
        !state.transfers.contains_key(transfer_id) && !is_terminal(summary.status)
            ==> state.with_transfer(summary).active_ids().len() == state.active_ids().len() + 1,
        !state.transfers.contains_key(transfer_id) && is_terminal(summary.status)
            ==> state.with_transfer(summary).active_ids().len() == state.active_ids().len(),
{
    let after = state.with_transfer(summary);
    if !state.transfers.contains_key(transfer_id) {
        if is_active(summary.status) {
            assert(after.active_ids() =~= state.active_ids().insert(transfer_id));
        } else {
            assert(after.active_ids() =~= state.active_ids());
        }
    }
}

/// A stream begins exactly on a transfer that is known with the same file size and chunk size.
pub proof fn streams_begin_on_what_is_known<L>(
    state: StateView<L>,
    transfer_id: u128,
    file_size_bytes: u64,
    resume_chunk_size_bytes: u64,
)
    ensures
        ({
            let fault = state.begin_fault(transfer_id, file_size_bytes, resume_chunk_size_bytes);
            &&& fault is None <==> state.transfers.contains_key(transfer_id) && {
                &&& state.transfers[transfer_id].file_size_bytes == file_size_bytes
                &&& state.transfers[transfer_id].resume_chunk_size_bytes == resume_chunk_size_bytes
            }
            &&& fault == Some(BeginFault::UnknownTransfer { transfer_id })
                <==> !state.transfers.contains_key(transfer_id)
        }),
{
}

/// The clock of a transfer starts once: the first mark stays, whatever marks follow, and the marks of
/// other transfers stay.
pub proof fn the_first_start_mark_stays<L>(
    state: StateView<L>,
    transfer_id: u128,
    mark: u64,
    later: u64,
    other: u128,
)
    requires
        other != transfer_id,
    ensures
        ({
            let marked = state.with_start_mark(transfer_id, mark);
            &&& marked.started_at.contains_key(transfer_id)
            &&& !state.started_at.contains_key(transfer_id) ==> marked.started_at[transfer_id]
                == mark
            &&& state.started_at.contains_key(transfer_id) ==> marked == state
            &&& marked.with_start_mark(transfer_id, later) == marked
            &&& marked.started_at.contains_key(other) == state.started_at.contains_key(other)
            &&& marked.started_at[other] == state.started_at[other]
            &&& marked == (StateView { started_at: marked.started_at, ..state })
        }),
{
}

/// Forgetting the locks of a transfer forgets both of them and nothing else.
pub proof fn only_the_locks_of_a_transfer_are_forgotten<L>(
    state: StateView<L>,
    transfer_id: u128,
    other: u128,
)
    requires
        other != transfer_id,
    ensures
        ({
            let after = state.without_locks(transfer_id);
            &&& !after.finalize_locks.contains_key(transfer_id)
            &&& !after.checkpoint_locks.contains_key(transfer_id)
            &&& after.finalize_locks.contains_key(other) == state.finalize_locks.contains_key(other)
            &&& after.finalize_locks[other] == state.finalize_locks[other]
            &&& after.checkpoint_locks.contains_key(other)
                == state.checkpoint_locks.contains_key(other)
            &&& after.checkpoint_locks[other] == state.checkpoint_locks[other]
            &&& after == (StateView {
                finalize_locks: after.finalize_locks,
                checkpoint_locks: after.checkpoint_locks,
                ..state
            })
        }),
{
}

} // verus!
