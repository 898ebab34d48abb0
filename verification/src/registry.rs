//! The socket registry: the sole lifecycle authority, mapping opaque
//! integer handles to live sockets. Handles come from a monotonically
//! increasing counter and are never reused, even after removal.
//!
//! The registry is an explicitly constructed context object, created once
//! at startup and passed into the call chain; callers serialize access to
//! it separately from any per-socket discipline and never hold it across
//! a blocking call.

use vstd::prelude::*;

use crate::errors::CanError;
use crate::filter::{normalize_spec, DeviceFilter, FilterRule};
use crate::socket::{
    cleared_model, initial_socket_model, send_rejection, spec_effective_timeout, wire_shape,
    with_filters, SocketKind, SocketModel, SocketState, WireFrame,
};

verus! {

/// The handle-to-socket map a registry's entry list denotes: later entries
/// win, though a well-formed registry never holds a handle twice.
pub open spec fn entries_map(s: Seq<(u64, SocketState)>) -> Map<u64, SocketModel>
    decreases s.len(),
{
    if s.len() == 0 {
        Map::<u64, SocketModel>::empty()
    } else {
        entries_map(s.drop_last()).insert(s.last().0, s.last().1@)
    }
}

/// The mathematical model of a registry: the next handle to assign and the
/// map of live sockets.
pub struct RegistryModel {
    pub next_handle: u64,
    pub sockets: Map<u64, SocketModel>,
}

/// Maps opaque integer handles to live sockets.
#[derive(Debug)]
pub struct Registry {
    next_handle: u64,
    entries: Vec<(u64, SocketState)>,
}

impl View for Registry {
    type V = RegistryModel;

    closed spec fn view(&self) -> RegistryModel {
        RegistryModel { next_handle: self.next_handle, sockets: entries_map(self.entries@) }
    }
}

/// No handle occurs twice in an entry list.
pub open spec fn handles_unique(s: Seq<(u64, SocketState)>) -> bool {
    forall|a: int, b: int| 0 <= a < b < s.len() ==> (#[trigger] s[a]).0 != (#[trigger] s[b]).0
}

/// Every handle in an entry list lies below the counter.
pub open spec fn handles_below(s: Seq<(u64, SocketState)>, next: u64) -> bool {
    forall|i: int| 0 <= i < s.len() ==> (#[trigger] s[i]).0 < next
}

proof fn lemma_entries_map_contains(s: Seq<(u64, SocketState)>, h: u64)
    ensures
        entries_map(s).contains_key(h) <==> exists|i: int|
            0 <= i < s.len() && (#[trigger] s[i]).0 == h,
    decreases s.len(),
{
    if s.len() == 0 {
    } else {
        lemma_entries_map_contains(s.drop_last(), h);
        if s.last().0 == h {
            assert(s[s.len() - 1].0 == h);
        } else {
            if entries_map(s).contains_key(h) {
                let i = choose|i: int| 0 <= i < s.drop_last().len() && (#[trigger] s.drop_last()[
                    i
                ]).0 == h;
                assert(s[i].0 == h);
            }
            if exists|i: int| 0 <= i < s.len() && (#[trigger] s[i]).0 == h {
                let i = choose|i: int| 0 <= i < s.len() && (#[trigger] s[i]).0 == h;
                assert(i < s.len() - 1);
                assert(s.drop_last()[i].0 == h);
            }
        }
    }
}

proof fn lemma_entries_map_get(s: Seq<(u64, SocketState)>, i: int)
    requires
        handles_unique(s),
        0 <= i < s.len(),
    ensures
        entries_map(s).contains_key(s[i].0),
        entries_map(s)[s[i].0] == s[i].1@,
    decreases s.len(),
{
    if i == s.len() - 1 {
    } else {
        assert(handles_unique(s.drop_last())) by {
            assert(forall|a: int, b: int|
                0 <= a < b < s.drop_last().len() ==> (#[trigger] s.drop_last()[a]).0 != (
                #[trigger] s.drop_last()[b]).0);
        }
        assert(s.drop_last()[i] == s[i]);
        lemma_entries_map_get(s.drop_last(), i);
        assert(s[i].0 != s.last().0);
    }
}

proof fn lemma_entries_map_push(s: Seq<(u64, SocketState)>, h: u64, st: SocketState)
    ensures
        entries_map(s.push((h, st))) == entries_map(s).insert(h, st@),
{
    assert(s.push((h, st)).drop_last() =~= s);
    assert(s.push((h, st)).last() == (h, st));
}

proof fn lemma_entries_map_remove(s: Seq<(u64, SocketState)>, i: int)
    requires
        handles_unique(s),
        0 <= i < s.len(),
    ensures
        entries_map(s.remove(i)) == entries_map(s).remove(s[i].0),
    decreases s.len(),
{
    let h = s[i].0;
    if i == s.len() - 1 {
        assert(s.remove(i) =~= s.drop_last());
        lemma_entries_map_contains(s.drop_last(), h);
        assert(forall|j: int| 0 <= j < s.drop_last().len() ==> (#[trigger] s.drop_last()[j]).0
            != h) by {
            assert(forall|j: int|
                0 <= j < s.len() - 1 ==> (#[trigger] s[j]).0 != s[s.len() - 1].0);
        }
        assert(!entries_map(s.drop_last()).contains_key(h));
        assert(entries_map(s).remove(h) =~= entries_map(s.drop_last()));
    } else {
        assert(handles_unique(s.drop_last())) by {
            assert(forall|a: int, b: int|
                0 <= a < b < s.drop_last().len() ==> (#[trigger] s.drop_last()[a]).0 != (
                #[trigger] s.drop_last()[b]).0);
        }
        assert(s.drop_last()[i] == s[i]);
        lemma_entries_map_remove(s.drop_last(), i);
        assert(s.remove(i).drop_last() =~= s.drop_last().remove(i));
        assert(s.remove(i).last() == s.last());
        assert(s.remove(i).len() > 0);
        assert(entries_map(s.remove(i)) == entries_map(s.drop_last().remove(i)).insert(
            s.last().0,
            s.last().1@,
        ));
        assert(h != s.last().0);
        assert(entries_map(s.drop_last()).remove(h).insert(s.last().0, s.last().1@)
            =~= entries_map(s.drop_last()).insert(s.last().0, s.last().1@).remove(h));
    }
}

impl Registry {
    /// The registry's internal invariant: handles are pairwise distinct
    /// and all lie below the counter, so a future handle never collides
    /// with a live or a removed one.
    pub closed spec fn wf(self) -> bool {
        &&& handles_unique(self.entries@)
        &&& handles_below(self.entries@, self.next_handle)
    }

    /// An empty registry; handles start at 1.
    pub fn new() -> (r: Registry)
        ensures
            r.wf(),
            r@.next_handle == 1,
            r@.sockets == Map::<u64, SocketModel>::empty(),
    {
        Registry { next_handle: 1, entries: Vec::new() }
    }

    /// The handle the next `create` will assign.
    pub fn next_handle(&self) -> (h: u64)
        ensures
            h == self@.next_handle,
    {
        self.next_handle
    }

    /// Index of the entry holding `h`, if any.
    fn find_index(&self, h: u64) -> (r: Option<usize>)
        ensures
            match r {
                Some(i) => i < self.entries@.len() && self.entries@[i as int].0 == h,
                None => forall|i: int|
                    0 <= i < self.entries@.len() ==> (#[trigger] self.entries@[i]).0 != h,
            },
    {
        let mut i: usize = 0;
        while i < self.entries.len()
            invariant
                0 <= i <= self.entries@.len(),
                forall|j: int| 0 <= j < i ==> (#[trigger] self.entries@[j]).0 != h,
            decreases self.entries@.len() - i,
        {
            if self.entries[i].0 == h {
                return Some(i);
            }
            i = i + 1;
        }
        None
    }

    /// Open a socket of the given variant and register it under a fresh
    /// handle: the counter's next value, which no socket has ever carried.
    pub fn create(&mut self, kind: SocketKind) -> (h: u64)
        requires
            old(self).wf(),
            old(self)@.next_handle < u64::MAX,
        ensures
            final(self).wf(),
            h == old(self)@.next_handle,
            !old(self)@.sockets.contains_key(h),
            final(self)@.next_handle == old(self)@.next_handle + 1,
            final(self)@.sockets == old(self)@.sockets.insert(h, initial_socket_model(kind)),
    {
        let h = self.next_handle;
        proof {
            lemma_entries_map_contains(self.entries@, h);
        }
        self.next_handle = self.next_handle + 1;
        let s = SocketState::new(kind);
        proof {
            lemma_entries_map_push(self.entries@, h, s);
        }
        self.entries.push((h, s));
        h
    }

    /// The socket registered under `h`, or `HandleNotFound`.
    pub fn lookup(&self, h: u64) -> (r: Result<&SocketState, CanError>)
        requires
            self.wf(),
        ensures
            match r {
                Ok(s) => self@.sockets.contains_key(h) && s@ == self@.sockets[h],
                Err(e) => e == CanError::HandleNotFound && !self@.sockets.contains_key(h),
            },
    {
        proof {
            lemma_entries_map_contains(self.entries@, h);
        }
        match self.find_index(h) {
            Some(i) => {
                proof {
                    lemma_entries_map_get(self.entries@, i as int);
                }
                Ok(&self.entries[i].1)
            },
            None => Err(CanError::HandleNotFound),
        }
    }

    /// Erase the entry under `h`; later operations on that handle fail
    /// with `HandleNotFound`. The underlying transport is released only
    /// when its last reference is dropped.
    pub fn remove(&mut self, h: u64) -> (r: Result<(), CanError>)
        requires
            old(self).wf(),
        ensures
            final(self).wf(),
            final(self)@.next_handle == old(self)@.next_handle,
            match r {
                Ok(_) => old(self)@.sockets.contains_key(h) && final(self)@.sockets == old(
                    self,
                )@.sockets.remove(h),
                Err(e) => e == CanError::HandleNotFound && !old(self)@.sockets.contains_key(h)
                    && final(self)@.sockets == old(self)@.sockets,
            },
    {
        proof {
            lemma_entries_map_contains(self.entries@, h);
        }
        match self.find_index(h) {
            Some(i) => {
                proof {
                    lemma_entries_map_remove(self.entries@, i as int);
                }
                self.entries.remove(i);
                Ok(())
            },
            None => Err(CanError::HandleNotFound),
        }
    }

    /// Validate a send request against the socket under `h` and shape the
    /// wire frame the transport is to write; `HandleNotFound` when no such
    /// socket is live, otherwise exactly the socket's own send rules.
    pub fn prepare_send(
        &self,
        h: u64,
        id: u32,
        data: Vec<u8>,
        extended: bool,
        fd: bool,
        remote: bool,
    ) -> (r: Result<WireFrame, CanError>)
        requires
            self.wf(),
        ensures
            match r {
                Ok(w) => self@.sockets.contains_key(h) && send_rejection(
                    self@.sockets[h].kind,
                    id,
                    extended,
                    fd,
                    remote,
                    data@.len(),
                ) is None && wire_shape(id, extended, fd, remote, data@, w),
                Err(e) => if self@.sockets.contains_key(h) {
                    send_rejection(self@.sockets[h].kind, id, extended, fd, remote, data@.len())
                        == Some(e)
                } else {
                    e == CanError::HandleNotFound
                },
            },
    {
        match self.lookup(h) {
            Ok(s) => s.prepare_send(id, data, extended, fd, remote),
            Err(e) => Err(e),
        }
    }

    /// Replace the filter set of the socket under `h`, returning the
    /// device-shaped list the caller must install at the transport.
    pub fn set_filters(&mut self, h: u64, rules: &Vec<FilterRule>) -> (r: Result<
        Vec<DeviceFilter>,
        CanError,
    >)
        requires
            old(self).wf(),
        ensures
            final(self).wf(),
            final(self)@.next_handle == old(self)@.next_handle,
            match r {
                Ok(device) => old(self)@.sockets.contains_key(h) && device@ == normalize_spec(
                    rules@,
                ) && final(self)@.sockets == old(self)@.sockets.insert(
                    h,
                    with_filters(old(self)@.sockets[h], normalize_spec(rules@)),
                ),
                Err(e) => e == CanError::HandleNotFound && !old(self)@.sockets.contains_key(h)
                    && final(self)@.sockets == old(self)@.sockets,
            },
    {
        proof {
            lemma_entries_map_contains(self.entries@, h);
        }
        match self.find_index(h) {
            Some(i) => {
                proof {
                    lemma_entries_map_get(self.entries@, i as int);
                    lemma_entries_map_remove(self.entries@, i as int);
                }
                let ghost before = self.entries@;
                let (hh, mut s) = self.entries.remove(i);
                let device = s.set_filters(rules);
                proof {
                    lemma_entries_map_push(self.entries@, hh, s);
                }
                self.entries.push((hh, s));
                proof {
                    assert(entries_map(self.entries@) =~= entries_map(before).insert(
                        h,
                        with_filters(entries_map(before)[h], normalize_spec(rules@)),
                    ));
                }
                Ok(device)
            },
            None => Err(CanError::HandleNotFound),
        }
    }

    /// Drop every filter of the socket under `h`: the accept-all state.
    pub fn clear_filters(&mut self, h: u64) -> (r: Result<Vec<DeviceFilter>, CanError>)
        requires
            old(self).wf(),
        ensures
            final(self).wf(),
            final(self)@.next_handle == old(self)@.next_handle,
            match r {
                Ok(device) => old(self)@.sockets.contains_key(h) && device@ == normalize_spec(
                    Seq::<FilterRule>::empty(),
                ) && final(self)@.sockets == old(self)@.sockets.insert(
                    h,
                    cleared_model(old(self)@.sockets[h]),
                ),
                Err(e) => e == CanError::HandleNotFound && !old(self)@.sockets.contains_key(h)
                    && final(self)@.sockets == old(self)@.sockets,
            },
    {
        let rules: Vec<FilterRule> = Vec::new();
        proof {
            assert(rules@ =~= Seq::<FilterRule>::empty());
        }
        self.set_filters(h, &rules)
    }

    /// Compute and record the read deadline for a receive call on the
    /// socket under `h`.
    pub fn prepare_receive(&mut self, h: u64, timeout_ms: Option<u64>) -> (r: Result<u64, CanError>)
        requires
            old(self).wf(),
        ensures
            final(self).wf(),
            final(self)@.next_handle == old(self)@.next_handle,
            match r {
                Ok(deadline) => old(self)@.sockets.contains_key(h) && deadline
                    == spec_effective_timeout(timeout_ms) && final(self)@.sockets == old(
                    self,
                )@.sockets.insert(
                    h,
                    (SocketModel { read_timeout_ms: deadline, ..old(self)@.sockets[h] }),
                ),
                Err(e) => e == CanError::HandleNotFound && !old(self)@.sockets.contains_key(h)
                    && final(self)@.sockets == old(self)@.sockets,
            },
    {
        proof {
            lemma_entries_map_contains(self.entries@, h);
        }
        match self.find_index(h) {
            Some(i) => {
                proof {
                    lemma_entries_map_get(self.entries@, i as int);
                    lemma_entries_map_remove(self.entries@, i as int);
                }
                let ghost before = self.entries@;
                let (hh, mut s) = self.entries.remove(i);
                let deadline = s.prepare_receive(timeout_ms);
                proof {
                    lemma_entries_map_push(self.entries@, hh, s);
                }
                self.entries.push((hh, s));
                proof {
                    assert(entries_map(self.entries@) =~= entries_map(before).insert(
                        h,
                        (SocketModel { read_timeout_ms: deadline, ..entries_map(before)[h] }),
                    ));
                }
                Ok(deadline)
            },
            None => Err(CanError::HandleNotFound),
        }
    }
}

} // verus!
