//! The admission counts of the shared inference queue: how many requests
//! wait, how many run, and how many each user holds.
use std::collections::HashMap;
use vstd::prelude::*;

verus! {

broadcast use vstd::std_specs::hash::group_hash_axioms;

#[derive(Debug, Clone, Copy, PartialEq, Eq, Structural)]
pub enum QueueError {
    GlobalFull,
    UserFull,
    Cancelled,
}

impl QueueError {
    /// The text that `Display` writes.
    pub fn message(&self) -> (r: &'static str)
        ensures
            r@ == queue_error_text(*self),
    {
        match self {
            QueueError::GlobalFull => "global local inference queue is full",
            QueueError::UserFull => "per-user local inference queue is full",
            QueueError::Cancelled => "request cancelled while queued",
        }
    }
}

pub open spec fn queue_error_text(e: QueueError) -> Seq<char> {
    match e {
        QueueError::GlobalFull => "global local inference queue is full"@,
        QueueError::UserFull => "per-user local inference queue is full"@,
        QueueError::Cancelled => "request cancelled while queued"@,
    }
}

#[derive(Debug, Clone, Copy, PartialEq, Eq, Structural)]
pub enum Phase {
    Queued,
    Active,
    Released,
}

/// A place in the queue held by one user.
#[derive(Debug, Clone, Copy, PartialEq, Eq, Structural)]
pub struct Reservation {
    pub uid: u32,
    pub phase: Phase,
}

/// The counts of the queue. Running requests are bounded separately, by
/// the permits that the broker hands out (`max_active`).
pub struct InferenceQueue {
    max_active: usize,
    queued: usize,
    active: usize,
    by_uid: HashMap<u32, usize>,
    global_limit: usize,
    per_uid_limit: usize,
}

/// The abstract state: waiting and running counts, each user's count, and
/// the two limits.
pub struct QueueView {
    pub max_active: nat,
    pub queued: nat,
    pub active: nat,
    pub by_uid: Map<u32, nat>,
    pub global_limit: nat,
    pub per_uid_limit: nat,
}

pub open spec fn user_count(m: Map<u32, nat>, uid: u32) -> nat {
    if m.contains_key(uid) {
        m[uid]
    } else {
        0
    }
}

/// Every user with an entry holds at least one place.
pub open spec fn queue_wf(q: QueueView) -> bool {
    forall|u: u32| q.by_uid.contains_key(u) ==> #[trigger] q.by_uid[u] >= 1
}

/// Why a place for `uid` is refused, if it is.
pub open spec fn reserve_refusal(q: QueueView, uid: u32) -> Option<QueueError> {
    if q.queued + q.active >= q.global_limit {
        Some(QueueError::GlobalFull)
    } else if user_count(q.by_uid, uid) >= q.per_uid_limit {
        Some(QueueError::UserFull)
    } else {
        None
    }
}

/// The queue once `uid` has taken a place.
pub open spec fn after_reserve(q: QueueView, uid: u32) -> QueueView {
    QueueView {
        queued: q.queued + 1,
        by_uid: q.by_uid.insert(uid, user_count(q.by_uid, uid) + 1),
        ..q
    }
}

/// The queue once the place `r` has been given back.
pub open spec fn after_release(q: QueueView, r: Reservation) -> QueueView {
    if r.phase == Phase::Released {
        q
    } else {
        QueueView {
            active: if r.phase == Phase::Active && q.active > 0 {
                (q.active - 1) as nat
            } else {
                q.active
            },
            queued: if r.phase == Phase::Queued && q.queued > 0 {
                (q.queued - 1) as nat
            } else {
                q.queued
            },
            by_uid: if !q.by_uid.contains_key(r.uid) {
                q.by_uid
            } else if q.by_uid[r.uid] <= 1 {
                q.by_uid.remove(r.uid)
            } else {
                q.by_uid.insert(r.uid, (q.by_uid[r.uid] - 1) as nat)
            },
            ..q
        }
    }
}

/// Giving back a place that was just taken leaves the queue as it was.
pub proof fn lemma_release_undoes_reserve(q: QueueView, uid: u32)
    requires
        queue_wf(q),
        reserve_refusal(q, uid) is None,
    ensures
        after_release(after_reserve(q, uid), Reservation { uid, phase: Phase::Queued }) == q,
{
    let n = after_reserve(q, uid);
    let back = after_release(n, Reservation { uid, phase: Phase::Queued });
    if q.by_uid.contains_key(uid) {
        assert(back.by_uid =~= q.by_uid);
    } else {
        assert(back.by_uid =~= q.by_uid);
    }
}

/// A granted place never takes the queue past its global bound, nor its
/// user past the per-user bound, and taking and giving back places keeps
/// every entry positive.
pub proof fn lemma_reserve_respects_bounds(q: QueueView, uid: u32)
    requires
        queue_wf(q),
        reserve_refusal(q, uid) is None,
    ensures
        after_reserve(q, uid).queued + after_reserve(q, uid).active <= q.global_limit,
        user_count(after_reserve(q, uid).by_uid, uid) <= q.per_uid_limit,
        queue_wf(after_reserve(q, uid)),
        forall|r: Reservation| queue_wf(#[trigger] after_release(q, r)),
{
    assert forall|r: Reservation| queue_wf(#[trigger] after_release(q, r)) by {
        let n = after_release(q, r);
        assert forall|u: u32| n.by_uid.contains_key(u) implies #[trigger] n.by_uid[u] >= 1 by {}
    }
}

impl InferenceQueue {
    pub closed spec fn view(&self) -> QueueView {
        QueueView {
            max_active: self.max_active as nat,
            queued: self.queued as nat,
            active: self.active as nat,
            by_uid: self.by_uid@.map_values(|v: usize| v as nat),
            global_limit: self.global_limit as nat,
            per_uid_limit: self.per_uid_limit as nat,
        }
    }

    pub fn new(max_active: usize, global_limit: usize, per_uid_limit: usize) -> (r: Self)
        ensures
            r.view().queued == 0,
            r.view().active == 0,
            r.view().by_uid == Map::<u32, nat>::empty(),
            r.view().global_limit == global_limit,
            r.view().per_uid_limit == per_uid_limit,
            r.view().max_active == max_active,
            queue_wf(r.view()),
    {
        let r = InferenceQueue {
            max_active,
            queued: 0,
            active: 0,
            by_uid: HashMap::new(),
            global_limit,
            per_uid_limit,
        };
        assert(r.view().by_uid =~= Map::<u32, nat>::empty());
        r
    }

    /// How many requests may run at once.
    pub fn max_active(&self) -> (r: usize)
        ensures
            r == self.view().max_active,
    {
        self.max_active
    }

    /// Takes a place for `uid`, unless the queue or the user's share is
    /// full; the position is the number of waiting requests (as `u32`).
    pub fn reserve(&mut self, uid: u32) -> (r: Result<(Reservation, u32), QueueError>)
        ensures
            queue_wf(old(self).view()) ==> queue_wf(final(self).view()),
            match reserve_refusal(old(self).view(), uid) {
                Some(e) => r == Err::<(Reservation, u32), QueueError>(e) && final(self).view()
                    == old(self).view(),
                None => final(self).view() == after_reserve(old(self).view(), uid) && (r matches Ok(
                    (res, pos),
                ) && res == (Reservation { uid, phase: Phase::Queued }) && pos == (
                final(self).view().queued as u32)),
            },
    {
        if self.queued >= self.global_limit || self.active >= self.global_limit - self.queued {
            return Err(QueueError::GlobalFull);
        }
        let user: usize = match self.by_uid.get(&uid) {
            Some(c) => *c,
            None => 0,
        };
        if user >= self.per_uid_limit {
            return Err(QueueError::UserFull);
        }
        let ghost before = self.by_uid@;
        self.queued = self.queued + 1;
        self.by_uid.insert(uid, user + 1);
        proof {
            assert(self.view().by_uid =~= old(self).view().by_uid.insert(
                uid,
                user_count(old(self).view().by_uid, uid) + 1,
            ));
        }
        let position = self.queued as u32;
        Ok((Reservation { uid, phase: Phase::Queued }, position))
    }

    /// A waiting request starts running.
    pub fn activate(&mut self, reservation: &mut Reservation)
        ensures
            ({
                let q = old(self).view();
                let n = final(self).view();
                &&& n.max_active == q.max_active
                &&& n.queued == (if q.queued > 0 {
                    (q.queued - 1) as nat
                } else {
                    0
                })
                &&& n.active == (if q.active < usize::MAX {
                    q.active + 1
                } else {
                    q.active
                })
                &&& n.by_uid == q.by_uid
                &&& (queue_wf(q) ==> queue_wf(n))
                &&& n.global_limit == q.global_limit && n.per_uid_limit == q.per_uid_limit
                &&& *final(reservation) == (Reservation { uid: old(reservation).uid, phase: Phase::Active })
            }),
    {
        self.queued = self.queued.saturating_sub(1);
        self.active = self.active.saturating_add(1);
        reservation.phase = Phase::Active;
        assert(self.view().by_uid =~= old(self).view().by_uid);
    }

    /// Gives back a place: a running or waiting request leaves, and the
    /// user's count drops (its entry goes when it reaches zero). A place
    /// already given back changes nothing.
    pub fn release(&mut self, reservation: &mut Reservation)
        ensures
            final(self).view() == after_release(old(self).view(), *old(reservation)),
            *final(reservation) == (Reservation { uid: old(reservation).uid, phase: Phase::Released }),
    {
        if reservation.phase == Phase::Released {
            return;
        }
        let was_active = reservation.phase == Phase::Active;
        reservation.phase = Phase::Released;
        if was_active {
            self.active = self.active.saturating_sub(1);
        } else {
            self.queued = self.queued.saturating_sub(1);
        }
        let uid = reservation.uid;
        match self.by_uid.get(&uid) {
            Some(c) => {
                let v = *c;
                if v <= 1 {
                    self.by_uid.remove(&uid);
                    proof {
                        assert(self.view().by_uid =~= old(self).view().by_uid.remove(uid));
                    }
                } else {
                    self.by_uid.insert(uid, v - 1);
                    proof {
                        assert(self.view().by_uid =~= old(self).view().by_uid.insert(
                            uid,
                            (old(self).view().by_uid[uid] - 1) as nat,
                        ));
                    }
                }
            },
            None => {
                assert(self.view().by_uid =~= old(self).view().by_uid);
            },
        }
    }
}

} // verus!
