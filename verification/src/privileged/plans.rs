//! One-shot plans: a caller prepares a plan, reviews it, and applies it once
//! by its id and digest before it expires.
use super::{
    action_of, operation_problem, refused, reports_problem, same_operation, BrokerError, Operation,
    PLAN_LIFETIME_SECONDS,
};
use crate::retrieval::indexer::{hex_encode, hex_text};
use crate::text::{str_eq, utf8_len};
use vstd::prelude::*;

verus! {

/// The identity of a D-Bus caller at the time it was checked.
#[derive(Debug, PartialEq, Eq)]
pub struct Caller {
    pub unique_name: String,
    pub uid: u32,
    pub pid: u32,
    pub process_start: u64,
    pub session: String,
}

impl Clone for Caller {
    fn clone(&self) -> (r: Self)
        ensures
            r == *self,
    {
        Caller {
            unique_name: self.unique_name.clone(),
            uid: self.uid,
            pid: self.pid,
            process_start: self.process_start,
            session: self.session.clone(),
        }
    }
}

/// The same caller, field by field.
pub open spec fn same_caller(a: Caller, b: Caller) -> bool {
    a.unique_name@ == b.unique_name@ && a.uid == b.uid && a.pid == b.pid && a.process_start
        == b.process_start && a.session@ == b.session@
}

pub fn callers_equal(a: &Caller, b: &Caller) -> (r: bool)
    ensures
        r == same_caller(*a, *b),
{
    str_eq(a.unique_name.as_str(), b.unique_name.as_str()) && a.uid == b.uid && a.pid == b.pid
        && a.process_start == b.process_start && str_eq(a.session.as_str(), b.session.as_str())
}

/// What a caller approves: the operation, the state it was planned on, the
/// polkit action, and the time window in which it may be applied.
#[derive(Debug)]
pub struct CanonicalPlan {
    pub version: u32,
    pub id: String,
    pub caller: Caller,
    pub action_id: String,
    pub operation: Operation,
    pub argument_digest: String,
    pub state: serde_json::Value,
    pub issued_at: u64,
    pub expires_at: u64,
}

/// A plan and the digest that the caller must quote to apply it.
#[derive(Debug)]
pub struct Prepared {
    pub plan: CanonicalPlan,
    pub digest: String,
}

/// `serde_json::Value::clone` (derived): a deep copy, the same value.
#[verifier::external_body]
fn copy_json(v: &serde_json::Value) -> (r: serde_json::Value)
    ensures
        r == *v,
{
    v.clone()
}

/// A copy of a plan, field by field.
pub open spec fn same_plan(a: CanonicalPlan, b: CanonicalPlan) -> bool {
    &&& a.state == b.state
    &&& a.version == b.version
    &&& a.id@ == b.id@
    &&& a.caller == b.caller
    &&& a.action_id@ == b.action_id@
    &&& same_operation(a.operation, b.operation)
    &&& a.argument_digest@ == b.argument_digest@
    &&& a.issued_at == b.issued_at
    &&& a.expires_at == b.expires_at
}

fn copy_plan(p: &CanonicalPlan) -> (r: CanonicalPlan)
    ensures
        same_plan(r, *p),
{
    CanonicalPlan {
        version: p.version,
        id: p.id.clone(),
        caller: p.caller.clone(),
        action_id: p.action_id.clone(),
        operation: p.operation.clone(),
        argument_digest: p.argument_digest.clone(),
        state: copy_json(&p.state),
        issued_at: p.issued_at,
        expires_at: p.expires_at,
    }
}

/// Fresh random bytes from the operating system (`rand::rngs::OsRng`), or
/// `None` when it has no entropy to give. Nothing is stated of the bytes.
#[verifier::external_body]
fn fresh_nonce() -> (r: Option<[u8; 32]>) {
    let mut nonce = [0u8; 32];
    match rand::RngCore::try_fill_bytes(&mut rand::rngs::OsRng, &mut nonce) {
        Ok(()) => Some(nonce),
        Err(_) => None,
    }
}

pub const MAX_PENDING_PLANS: usize = 256;

pub const MAX_PENDING_PLANS_PER_CALLER: usize = 8;

/// The pending plans, at most one per id.
pub struct PlanStore {
    plans: Vec<Prepared>,
}

/// No two plans share an id.
pub open spec fn ids_distinct(s: Seq<Prepared>) -> bool {
    forall|i: int, j: int| 0 <= i < j < s.len() ==> (#[trigger] s[i]).plan.id@ != (#[trigger] s[j]).plan.id@
}

/// The position of the plan with this id, or -1.
pub open spec fn find_plan(s: Seq<Prepared>, id: Seq<char>) -> int
    decreases s.len(),
{
    if s.len() == 0 {
        -1
    } else if s.last().plan.id@ == id {
        s.len() - 1
    } else {
        find_plan(s.drop_last(), id)
    }
}

/// The plans that are still unexpired at `now`, in order.
pub open spec fn unexpired(s: Seq<Prepared>, now: u64) -> Seq<Prepared>
    decreases s.len(),
{
    if s.len() == 0 {
        Seq::empty()
    } else if now < s.last().plan.expires_at {
        unexpired(s.drop_last(), now).push(s.last())
    } else {
        unexpired(s.drop_last(), now)
    }
}

/// The number of plans of a caller, by unique bus name.
pub open spec fn caller_plan_count(s: Seq<Prepared>, name: Seq<char>) -> nat
    decreases s.len(),
{
    if s.len() == 0 {
        0
    } else if s.last().plan.caller.unique_name@ == name {
        caller_plan_count(s.drop_last(), name) + 1
    } else {
        caller_plan_count(s.drop_last(), name)
    }
}

/// The store after adding a plan: it replaces the plan with the same id, if
/// any, and otherwise comes last.
pub open spec fn insert_plan(s: Seq<Prepared>, p: Prepared) -> Seq<Prepared> {
    let i = find_plan(s, p.plan.id@);
    if i >= 0 {
        s.update(i, p)
    } else {
        s.push(p)
    }
}

impl View for PlanStore {
    type V = Seq<Prepared>;

    closed spec fn view(&self) -> Seq<Prepared> {
        self.plans@
    }
}

/// How a request to apply a plan ends: the code of the refusal, or the
/// position of the plan that is handed out.
pub open spec fn consume_outcome(
    s: Seq<Prepared>,
    id: Seq<char>,
    expected: Seq<char>,
    caller: Caller,
    now: u64,
) -> Result<int, Seq<char>> {
    let i = find_plan(s, id);
    if utf8_len(id) != 64 || utf8_len(expected) != 64 {
        Err("invalid_plan_reference"@)
    } else if i < 0 {
        Err("unknown_or_used_plan"@)
    } else if !same_caller(s[i].plan.caller, caller) {
        Err("caller_changed"@)
    } else if now < s[i].plan.issued_at || now >= s[i].plan.expires_at {
        Err("plan_expired"@)
    } else if s[i].digest@ != expected {
        Err("plan_digest_changed"@)
    } else {
        Ok(i)
    }
}

/// Whether the request reaches the plan and takes it out of the store: once
/// found for its own caller, a plan is gone whether or not it is then applied.
pub open spec fn consume_removes(s: Seq<Prepared>, id: Seq<char>, expected: Seq<char>, caller: Caller) -> bool {
    let i = find_plan(s, id);
    utf8_len(id) == 64 && utf8_len(expected) == 64 && i >= 0 && same_caller(s[i].plan.caller, caller)
}

proof fn lemma_find_plan(s: Seq<Prepared>, id: Seq<char>)
    ensures
        -1 <= find_plan(s, id) < s.len(),
        find_plan(s, id) >= 0 ==> s[find_plan(s, id)].plan.id@ == id,
        find_plan(s, id) < 0 ==> forall|j: int| 0 <= j < s.len() ==> (#[trigger] s[j]).plan.id@ != id,
    decreases s.len(),
{
    if s.len() > 0 && s.last().plan.id@ != id {
        lemma_find_plan(s.drop_last(), id);
        assert forall|j: int| 0 <= j < s.len() && find_plan(s, id) < 0 implies (#[trigger] s[j]).plan.id@
            != id by {
            if j < s.len() - 1 {
                assert(s[j] == s.drop_last()[j]);
            }
        }
    }
}

impl PlanStore {
    #[verifier::type_invariant]
    closed spec fn wf(self) -> bool {
        &&& ids_distinct(self.plans@)
        &&& self.plans@.len() <= MAX_PENDING_PLANS
    }

    pub fn new() -> (r: Self)
        ensures
            r@ == Seq::<Prepared>::empty(),
            ids_distinct(r@),
    {
        PlanStore { plans: Vec::new() }
    }

    pub fn len(&self) -> (r: usize)
        ensures
            r == self@.len(),
            r <= MAX_PENDING_PLANS,
    {
        proof {
            use_type_invariant(self);
        }
        self.plans.len()
    }

    /// Takes the plan `id` out of the store for `caller` and hands it out
    /// when the digest matches and `now` falls in its window. A plan found
    /// for its own caller leaves the store in every case, so that a
    /// cancelled, denied or failed attempt needs a new plan; a request from
    /// another caller leaves the store as it was.
    pub fn consume(&mut self, id: &str, expected_digest: &str, caller: &Caller, now: u64) -> (r: Result<CanonicalPlan, BrokerError>)
        ensures
            match consume_outcome(old(self)@, id@, expected_digest@, *caller, now) {
                Ok(i) => r matches Ok(p) && p == old(self)@[i].plan,
                Err(code) => refused(r, code),
            },
            consume_removes(old(self)@, id@, expected_digest@, *caller) ==> final(self)@
                == old(self)@.remove(find_plan(old(self)@, id@)),
            !consume_removes(old(self)@, id@, expected_digest@, *caller) ==> final(self)@
                == old(self)@,
            ids_distinct(final(self)@),
    {
        proof {
            use_type_invariant(&*self);
            lemma_find_plan(self.plans@, id@);
        }
        if crate::text::utf8_len_sat(crate::text::chars_of(id).as_slice()) != 64
            || crate::text::utf8_len_sat(crate::text::chars_of(expected_digest).as_slice()) != 64 {
            return Err(BrokerError("invalid_plan_reference"));
        }
        let ghost s = self.plans@;
        let mut i = self.plans.len();
        assert(s.take(i as int) =~= s);
        while i > 0 && !str_eq(self.plans[i - 1].plan.id.as_str(), id)
            invariant
                i <= self.plans@.len(),
                s == self.plans@,
                find_plan(s, id@) == find_plan(s.take(i as int), id@),
            decreases i,
        {
            assert(s.take(i as int).last() == s[i - 1]);
            assert(s.take(i as int).drop_last() =~= s.take(i - 1));
            i = i - 1;
        }
        assert(i > 0 ==> s.take(i as int).last() == s[i - 1]);
        if i == 0 {
            assert(find_plan(s.take(0), id@) == -1);
            return Err(BrokerError("unknown_or_used_plan"));
        }
        let idx = i - 1;
        assert(find_plan(s, id@) == idx);
        if !callers_equal(&self.plans[idx].plan.caller, caller) {
            return Err(BrokerError("caller_changed"));
        }
        let prepared = self.remove_at(idx);
        if now < prepared.plan.issued_at || now >= prepared.plan.expires_at {
            return Err(BrokerError("plan_expired"));
        }
        if !str_eq(prepared.digest.as_str(), expected_digest) {
            return Err(BrokerError("plan_digest_changed"));
        }
        Ok(prepared.plan)
    }

    fn remove_at(&mut self, idx: usize) -> (r: Prepared)
        requires
            idx < old(self)@.len(),
        ensures
            r == old(self)@[idx as int],
            final(self)@ == old(self)@.remove(idx as int),
    {
        proof {
            use_type_invariant(&*self);
        }
        let mut plans: Vec<Prepared> = Vec::new();
        std::mem::swap(&mut plans, &mut self.plans);
        let ghost before = plans@;
        let r = plans.remove(idx);
        proof {
            assert forall|a: int, b: int| 0 <= a < b < plans@.len() implies (#[trigger] plans@[a]).plan.id@
                != (#[trigger] plans@[b]).plan.id@ by {
                let a0 = if a < idx { a } else { a + 1 };
                let b0 = if b < idx { b } else { b + 1 };
                assert(plans@[a] == before[a0]);
                assert(plans@[b] == before[b0]);
            }
        }
        self.plans = plans;
        r
    }

    /// Drops the plans that have expired at `now`, keeping the others in order.
    fn retain_unexpired(&mut self, now: u64)
        ensures
            final(self)@ == unexpired(old(self)@, now),
    {
        proof {
            use_type_invariant(&*self);
        }
        let mut plans: Vec<Prepared> = Vec::new();
        std::mem::swap(&mut plans, &mut self.plans);
        let ghost all = plans@;
        let mut kept: Vec<Prepared> = Vec::new();
        let mut rest = plans;
        let mut i: usize = 0;
        assert(all.take(0) =~= Seq::<Prepared>::empty());
        assert(rest@ =~= all.skip(0));
        while rest.len() > 0
            invariant
                i + rest@.len() == all.len(),
                all.len() <= MAX_PENDING_PLANS,
                rest@ == all.skip(i as int),
                kept@ == unexpired(all.take(i as int), now),
            decreases rest@.len(),
        {
            let p = rest.remove(0);
            proof {
                assert(p == all[i as int]);
                assert(rest@ =~= all.skip(i + 1));
                assert(all.take(i + 1).drop_last() =~= all.take(i as int));
                assert(all.take(i + 1).last() == all[i as int]);
            }
            if now < p.plan.expires_at {
                kept.push(p);
            }
            i = i + 1;
        }
        proof {
            assert(all.take(i as int) =~= all);
            lemma_unexpired_distinct(all, now);
        }
        self.plans = kept;
    }

    /// Prepares a plan for `caller` to run `operation` on the state `state`
    /// as seen at `now`: expired plans are dropped, the store and each
    /// caller's share of it are bounded, the id is fresh random hex, and the
    /// plan lives for `PLAN_LIFETIME_SECONDS`. The digests of the operation
    /// and of the plan are those that `digest_operation` and `digest_plan`
    /// give.
    pub fn prepare<F, G>(
        &mut self,
        caller: Caller,
        operation: Operation,
        state: serde_json::Value,
        now: u64,
        digest_operation: F,
        digest_plan: G,
    ) -> (r: Result<Prepared, BrokerError>)
        where
            F: Fn(&Operation) -> Result<String, BrokerError>,
            G: Fn(&CanonicalPlan) -> Result<String, BrokerError>,
        requires
            ids_distinct(old(self)@),
            forall|o: &Operation| #[trigger] digest_operation.requires((o,)),
            forall|p: &CanonicalPlan| #[trigger] digest_plan.requires((p,)),
        ensures
            operation_problem(operation) matches Some(code) ==> refused(r, code) && final(self)@
                == old(self)@,
            operation_problem(operation) is None ==> {
                let kept = unexpired(old(self)@, now);
                if kept.len() >= MAX_PENDING_PLANS || caller_plan_count(kept, caller.unique_name@)
                    >= MAX_PENDING_PLANS_PER_CALLER {
                    refused(r, "too_many_pending_plans"@) && final(self)@ == kept
                } else {
                    match r {
                        Ok(p) => {
                            &&& p.plan.version == 1
                            &&& p.plan.caller == caller
                            &&& p.plan.action_id@ == action_of(operation)
                            &&& p.plan.operation == operation
                            &&& p.plan.state == state
                            &&& p.plan.issued_at == now
                            &&& p.plan.expires_at == now + PLAN_LIFETIME_SECONDS
                            &&& exists|nonce: Seq<u8>| nonce.len() == 32 && #[trigger] hex_text(nonce)
                                == p.plan.id@
                            &&& call_ensures(
                                digest_operation,
                                (&operation,),
                                Ok::<String, BrokerError>(p.plan.argument_digest),
                            )
                            &&& call_ensures(digest_plan, (&p.plan,), Ok::<String, BrokerError>(p.digest))
                            &&& exists|q: Prepared| #[trigger] insert_plan(kept, q) == final(self)@
                                && q.digest@ == p.digest@ && same_plan(q.plan, p.plan)
                        },
                        Err(e) => {
                            &&& final(self)@ == kept
                            &&& {
                                ||| e.0@ == "entropy_unavailable"@
                                ||| call_ensures(digest_operation, (&operation,), Err::<String, BrokerError>(e))
                                ||| (now + PLAN_LIFETIME_SECONDS > u64::MAX && e.0@ == "invalid_time"@)
                                ||| exists|pl: CanonicalPlan| {
                                    &&& pl.operation == operation
                                    &&& pl.state == state
                                    &&& pl.caller == caller
                                    &&& #[trigger] call_ensures(digest_plan, (&pl,), Err::<String, BrokerError>(e))
                                }
                            }
                        },
                    }
                }
            },
            operation_problem(operation) is None && now + PLAN_LIFETIME_SECONDS > u64::MAX ==> r is Err,
            ids_distinct(final(self)@),
            final(self)@.len() <= MAX_PENDING_PLANS,
    {
        proof {
            use_type_invariant(&*self);
        }
        match operation.validate() {
            Err(e) => return Err(e),
            Ok(()) => {},
        }
        self.retain_unexpired(now);
        proof {
            use_type_invariant(&*self);
        }
        let mut count: usize = 0;
        let mut i: usize = 0;
        let ghost kept = self.plans@;
        assert(kept.take(0) =~= Seq::<Prepared>::empty());
        while i < self.plans.len()
            invariant
                i <= self.plans@.len(),
                kept == self.plans@,
                count == caller_plan_count(kept.take(i as int), caller.unique_name@),
                count <= i,
            decreases self.plans@.len() - i,
        {
            proof {
                assert(kept.take(i + 1).drop_last() =~= kept.take(i as int));
                assert(kept.take(i + 1).last() == kept[i as int]);
            }
            if str_eq(self.plans[i].plan.caller.unique_name.as_str(), caller.unique_name.as_str()) {
                count = count + 1;
            }
            i = i + 1;
        }
        assert(kept.take(kept.len() as int) =~= kept);
        if self.plans.len() >= MAX_PENDING_PLANS || count >= MAX_PENDING_PLANS_PER_CALLER {
            return Err(BrokerError("too_many_pending_plans"));
        }
        let nonce = match fresh_nonce() {
            None => return Err(BrokerError("entropy_unavailable")),
            Some(n) => n,
        };
        let id = hex_encode(&nonce);
        proof {
            crate::retrieval::indexer::lemma_hex_len(nonce@);
            assert(hex_text(nonce@) == id@);
        }
        let argument_digest = match digest_operation(&operation) {
            Err(e) => return Err(e),
            Ok(d) => d,
        };
        let expires_at = match now.checked_add(PLAN_LIFETIME_SECONDS) {
            None => return Err(BrokerError("invalid_time")),
            Some(t) => t,
        };
        let plan = CanonicalPlan {
            version: 1,
            id,
            caller,
            action_id: crate::text::owned(operation.action_id()),
            operation,
            argument_digest,
            state,
            issued_at: now,
            expires_at,
        };
        let digest = match digest_plan(&plan) {
            Err(e) => return Err(e),
            Ok(d) => d,
        };
        let stored = Prepared { plan: copy_plan(&plan), digest: digest.clone() };
        let ghost q = stored;
        self.insert_fresh(stored);
        proof {
            use_type_invariant(&*self);
        }
        assert(insert_plan(kept, q) == self@);
        Ok(Prepared { plan, digest })
    }

    fn insert_fresh(&mut self, p: Prepared)
        requires
            old(self)@.len() < MAX_PENDING_PLANS,
        ensures
            final(self)@ == insert_plan(old(self)@, p),
    {
        proof {
            use_type_invariant(&*self);
            lemma_find_plan(self.plans@, p.plan.id@);
        }
        let mut plans: Vec<Prepared> = Vec::new();
        std::mem::swap(&mut plans, &mut self.plans);
        let ghost before = plans@;
        let mut i = plans.len();
        assert(before.take(i as int) =~= before);
        while i > 0 && !str_eq(plans[i - 1].plan.id.as_str(), p.plan.id.as_str())
            invariant
                i <= plans@.len(),
                plans@ == before,
                find_plan(before, p.plan.id@) == find_plan(before.take(i as int), p.plan.id@),
            decreases i,
        {
            assert(before.take(i as int).last() == before[i - 1]);
            assert(before.take(i as int).drop_last() =~= before.take(i - 1));
            i = i - 1;
        }
        assert(i > 0 ==> before.take(i as int).last() == before[i - 1]);
        if i == 0 {
            assert(find_plan(before.take(0), p.plan.id@) == -1);
            plans.push(p);
            proof {
                assert forall|a: int, b: int| 0 <= a < b < plans@.len() implies (#[trigger] plans@[a]).plan.id@
                    != (#[trigger] plans@[b]).plan.id@ by {
                    if b == before.len() {
                        assert(before[a].plan.id@ != p.plan.id@);
                    } else {
                        assert(before[a].plan.id@ != before[b].plan.id@);
                    }
                }
            }
        } else {
            assert(find_plan(before, p.plan.id@) == i - 1);
            plans.set(i - 1, p);
            proof {
                assert forall|a: int, b: int| 0 <= a < b < plans@.len() implies (#[trigger] plans@[a]).plan.id@
                    != (#[trigger] plans@[b]).plan.id@ by {
                    assert(before[a].plan.id@ != before[b].plan.id@);
                }
            }
        }
        self.plans = plans;
    }
}

/// Every plan that survives expiry was in the store.
proof fn lemma_unexpired_sub(s: Seq<Prepared>, now: u64)
    ensures
        unexpired(s, now).len() <= s.len(),
        forall|k: int| 0 <= k < unexpired(s, now).len() ==> exists|j: int| 0 <= j < s.len() && #[trigger] unexpired(s, now)[k] == s[j],
    decreases s.len(),
{
    if s.len() > 0 {
        lemma_unexpired_sub(s.drop_last(), now);
        let r = unexpired(s.drop_last(), now);
        assert forall|k: int| 0 <= k < unexpired(s, now).len() implies exists|j: int| 0 <= j < s.len() && #[trigger] unexpired(s, now)[k] == s[j] by {
            if k < r.len() {
                let j = choose|j: int| 0 <= j < s.drop_last().len() && r[k] == s.drop_last()[j];
                assert(unexpired(s, now)[k] == s[j]);
            } else {
                assert(unexpired(s, now)[k] == s[s.len() - 1]);
            }
        }
    }
}

proof fn lemma_unexpired_distinct(s: Seq<Prepared>, now: u64)
    requires
        ids_distinct(s),
    ensures
        ids_distinct(unexpired(s, now)),
        unexpired(s, now).len() <= s.len(),
    decreases s.len(),
{
    lemma_unexpired_sub(s, now);
    if s.len() > 0 {
        let t = s.drop_last();
        assert forall|a: int, b: int| 0 <= a < b < t.len() implies (#[trigger] t[a]).plan.id@ != (#[trigger] t[b]).plan.id@ by {
            assert(s[a].plan.id@ != s[b].plan.id@);
        }
        lemma_unexpired_distinct(t, now);
        lemma_unexpired_sub(t, now);
        let r = unexpired(t, now);
        if now < s.last().plan.expires_at {
            let u = r.push(s.last());
            assert forall|a: int, b: int| 0 <= a < b < u.len() implies (#[trigger] u[a]).plan.id@ != (#[trigger] u[b]).plan.id@ by {
                if b == r.len() {
                    let j = choose|j: int| 0 <= j < t.len() && r[a] == t[j];
                    assert(s[j].plan.id@ != s[s.len() - 1].plan.id@);
                } else {
                    assert(r[a].plan.id@ != r[b].plan.id@);
                }
            }
        }
    }
}


/// A plan is used at most once: once a request has reached it for its own
/// caller, no later request with its id finds it again.
pub proof fn lemma_plan_used_once(
    s: Seq<Prepared>,
    id: Seq<char>,
    expected: Seq<char>,
    caller: Caller,
    later_expected: Seq<char>,
    later_caller: Caller,
    later_now: u64,
)
    requires
        ids_distinct(s),
        consume_removes(s, id, expected, caller),
    ensures
        consume_outcome(s.remove(find_plan(s, id)), id, later_expected, later_caller, later_now) is Err,
        !consume_removes(s.remove(find_plan(s, id)), id, later_expected, later_caller),
{
    lemma_find_plan(s, id);
    let i = find_plan(s, id);
    let t = s.remove(i);
    lemma_find_plan(t, id);
    if find_plan(t, id) >= 0 {
        let k = find_plan(t, id);
        let k0 = if k < i { k } else { k + 1 };
        assert(t[k] == s[k0]);
        assert(s[k0].plan.id@ == s[i].plan.id@);
    }
}

/// A request from another caller cannot take a caller's pending plan away.
pub proof fn lemma_other_caller_keeps_plan(s: Seq<Prepared>, id: Seq<char>, expected: Seq<char>, other: Caller)
    requires
        find_plan(s, id) >= 0,
        !same_caller(s[find_plan(s, id)].plan.caller, other),
    ensures
        !consume_removes(s, id, expected, other),
        consume_outcome(s, id, expected, other, 0) is Err,
{
}

/// The caller of a pending plan gets it by quoting its id and digest within
/// its lifetime.
pub proof fn lemma_apply_in_window_succeeds(s: Seq<Prepared>, i: int, now: u64)
    requires
        ids_distinct(s),
        0 <= i < s.len(),
        utf8_len(s[i].plan.id@) == 64,
        utf8_len(s[i].digest@) == 64,
        s[i].plan.issued_at <= now < s[i].plan.expires_at,
    ensures
        consume_outcome(s, s[i].plan.id@, s[i].digest@, s[i].plan.caller, now) == Ok::<int, Seq<char>>(i),
{
    lemma_find_plan(s, s[i].plan.id@);
    let f = find_plan(s, s[i].plan.id@);
    if f != i {
        if f < i {
            assert(s[f].plan.id@ != s[i].plan.id@);
        } else {
            assert(s[i].plan.id@ != s[f].plan.id@);
        }
    }
}


/// Why a consumed plan may no longer run, checked before and after
/// authorization: `state_matches` says whether the state seen now equals the
/// one the plan was made on, and `argument_digest_now` is the digest of the
/// plan's operation computed now.
pub open spec fn revalidation_problem(
    plan: CanonicalPlan,
    caller: Caller,
    state_matches: bool,
    now: u64,
    argument_digest_now: Result<Seq<char>, Seq<char>>,
) -> Option<Seq<char>> {
    if !same_caller(plan.caller, caller) {
        Some("caller_changed"@)
    } else if now < plan.issued_at || now >= plan.expires_at {
        Some("plan_expired"@)
    } else if !state_matches {
        Some("state_changed_prepare_again"@)
    } else if plan.action_id@ != action_of(plan.operation) {
        Some("plan_changed"@)
    } else {
        match argument_digest_now {
            Err(code) => Some(code),
            Ok(d) => if plan.argument_digest@ != d {
                Some("plan_changed"@)
            } else {
                operation_problem(plan.operation)
            },
        }
    }
}

pub fn revalidate(
    plan: &CanonicalPlan,
    caller: &Caller,
    state_matches: bool,
    now: u64,
    argument_digest_now: Result<String, BrokerError>,
) -> (r: Result<(), BrokerError>)
    ensures
        reports_problem(
            r,
            revalidation_problem(
                *plan,
                *caller,
                state_matches,
                now,
                match argument_digest_now {
                    Ok(d) => Ok(d@),
                    Err(e) => Err(e.0@),
                },
            ),
        ),
{
    if !callers_equal(&plan.caller, caller) {
        return Err(BrokerError("caller_changed"));
    }
    if now < plan.issued_at || now >= plan.expires_at {
        return Err(BrokerError("plan_expired"));
    }
    if !state_matches {
        return Err(BrokerError("state_changed_prepare_again"));
    }
    if !str_eq(plan.action_id.as_str(), plan.operation.action_id()) {
        return Err(BrokerError("plan_changed"));
    }
    match argument_digest_now {
        Err(e) => Err(e),
        Ok(d) => {
            if !str_eq(plan.argument_digest.as_str(), d.as_str()) {
                return Err(BrokerError("plan_changed"));
            }
            plan.operation.validate()
        },
    }
}

} // verus!
