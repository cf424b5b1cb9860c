//! Transaction plans, their canonical form, and the approvals bound to them.
use super::bounded::BoundedString;
use super::errors::{fail, is_error, ContractError, ContractErrorCode};
use super::order::{
    canonically_sorted, lemma_text_lt_trans, lemma_text_trichotomy, sort_canonical, text_compare,
    text_le, text_lt, CanonicalOrder,
};
use super::router::{reports, Verdict, PROTOCOL_VERSION_V1};
use crate::text::{chars_of, str_eq};
use vstd::prelude::*;

verus! {

broadcast use vstd::seq_lib::group_to_multiset_ensures;

pub type PlanId = BoundedString<64>;

pub type ApprovalId = BoundedString<64>;

pub type Sha256Digest = BoundedString<64>;

#[derive(Debug, Clone, Copy, PartialEq, Eq, Structural)]
pub enum TransactionKind {
    AptInstall,
    AptRemove,
    AptUpdate,
    AptUpgrade,
    ServiceStart,
    ServiceStop,
    ServiceRestart,
    ServiceEnable,
    ProcessKill,
}

#[derive(Debug, PartialEq, Eq)]
pub struct PackageDelta {
    pub package: BoundedString<128>,
    pub from_version: Option<BoundedString<64>>,
    pub to_version: Option<BoundedString<64>>,
    pub download_bytes: u64,
    pub installed_size_delta_bytes: i64,
    pub service_effect: Option<String>,
}

#[derive(Debug, PartialEq, Eq)]
pub struct ServiceDelta {
    pub service: BoundedString<128>,
    pub action: BoundedString<64>,
    pub expected_state: Option<BoundedString<32>>,
}

fn copy_bounded_opt<const MAX: usize>(o: &Option<BoundedString<MAX>>) -> (r: Option<
    BoundedString<MAX>,
>)
    ensures
        r == *o,
{
    match o {
        Some(v) => Some(v.clone()),
        None => None,
    }
}

impl Clone for PackageDelta {
    fn clone(&self) -> (r: Self)
        ensures
            r == *self,
    {
        PackageDelta {
            package: self.package.clone(),
            from_version: copy_bounded_opt(&self.from_version),
            to_version: copy_bounded_opt(&self.to_version),
            download_bytes: self.download_bytes,
            installed_size_delta_bytes: self.installed_size_delta_bytes,
            service_effect: match &self.service_effect {
                Some(s) => Some(s.clone()),
                None => None,
            },
        }
    }
}

impl Clone for ServiceDelta {
    fn clone(&self) -> (r: Self)
        ensures
            r == *self,
    {
        ServiceDelta {
            service: self.service.clone(),
            action: self.action.clone(),
            expected_state: copy_bounded_opt(&self.expected_state),
        }
    }
}

/// The order of optional versions: an absent version comes first.
pub open spec fn version_le(a: Option<BoundedString<64>>, b: Option<BoundedString<64>>) -> bool {
    match (a, b) {
        (None, _) => true,
        (Some(_), None) => false,
        (Some(x), Some(y)) => text_le(x@, y@),
    }
}

/// Package deltas are ordered by package name, then by target version.
impl CanonicalOrder for PackageDelta {
    open spec fn key_le(&self, other: &Self) -> bool {
        text_lt(self.package@, other.package@) || (self.package@ == other.package@ && version_le(
            self.to_version,
            other.to_version,
        ))
    }

    proof fn lemma_key_total(a: &Self, b: &Self) {
        lemma_text_trichotomy(a.package@, b.package@);
        if let (Some(x), Some(y)) = (a.to_version, b.to_version) {
            lemma_text_trichotomy(x@, y@);
        }
    }

    proof fn lemma_key_trans(a: &Self, b: &Self, c: &Self) {
        lemma_text_trichotomy(a.package@, b.package@);
        lemma_text_trichotomy(b.package@, c.package@);
        if text_lt(a.package@, b.package@) && text_lt(b.package@, c.package@) {
            lemma_text_lt_trans(a.package@, b.package@, c.package@);
        }
        if let (Some(x), Some(y), Some(z)) = (a.to_version, b.to_version, c.to_version) {
            if text_lt(x@, y@) && text_lt(y@, z@) {
                lemma_text_lt_trans(x@, y@, z@);
            }
        }
    }

    fn le(&self, other: &Self) -> (r: bool) {
        let a = chars_of(self.package.as_str());
        let b = chars_of(other.package.as_str());
        let c = text_compare(a.as_slice(), b.as_slice());
        if c != 0 {
            return c < 0;
        }
        match (&self.to_version, &other.to_version) {
            (None, _) => true,
            (Some(_), None) => false,
            (Some(x), Some(y)) => {
                let xs = chars_of(x.as_str());
                let ys = chars_of(y.as_str());
                text_compare(xs.as_slice(), ys.as_slice()) <= 0
            },
        }
    }

    fn copy(&self) -> (r: Self) {
        self.clone()
    }
}

/// Service deltas are ordered by service name, then by action.
impl CanonicalOrder for ServiceDelta {
    open spec fn key_le(&self, other: &Self) -> bool {
        text_lt(self.service@, other.service@) || (self.service@ == other.service@ && text_le(
            self.action@,
            other.action@,
        ))
    }

    proof fn lemma_key_total(a: &Self, b: &Self) {
        lemma_text_trichotomy(a.service@, b.service@);
        lemma_text_trichotomy(a.action@, b.action@);
    }

    proof fn lemma_key_trans(a: &Self, b: &Self, c: &Self) {
        lemma_text_trichotomy(a.service@, b.service@);
        lemma_text_trichotomy(b.service@, c.service@);
        if text_lt(a.service@, b.service@) && text_lt(b.service@, c.service@) {
            lemma_text_lt_trans(a.service@, b.service@, c.service@);
        }
        if text_lt(a.action@, b.action@) && text_lt(b.action@, c.action@) {
            lemma_text_lt_trans(a.action@, b.action@, c.action@);
        }
    }

    fn le(&self, other: &Self) -> (r: bool) {
        let a = chars_of(self.service.as_str());
        let b = chars_of(other.service.as_str());
        let c = text_compare(a.as_slice(), b.as_slice());
        if c != 0 {
            return c < 0;
        }
        let x = chars_of(self.action.as_str());
        let y = chars_of(other.action.as_str());
        text_compare(x.as_slice(), y.as_slice()) <= 0
    }

    fn copy(&self) -> (r: Self) {
        self.clone()
    }
}

#[derive(Debug, PartialEq, Eq)]
pub struct CanonicalTransactionPlan {
    pub version: BoundedString<24>,
    pub plan_id: PlanId,
    pub created_at_ms: u64,
    pub requester_uid: u32,
    pub kind: TransactionKind,
    pub requested_targets: Vec<BoundedString<128>>,
    pub package_changes: Vec<PackageDelta>,
    pub service_changes: Vec<ServiceDelta>,
    pub unknown_effects: Vec<BoundedString<256>>,
    pub state_fingerprint_sha256: Sha256Digest,
    pub approval_required: bool,
}

pub open spec fn transaction_plan_verdict(p: CanonicalTransactionPlan) -> Verdict {
    if p.version@ != PROTOCOL_VERSION_V1@ {
        Some(
            (ContractErrorCode::UnsupportedVersion, "transaction plan version is not sentia.v1"@),
        )
    } else if p.requested_targets@.len() == 0 && p.package_changes@.len() == 0
        && p.service_changes@.len() == 0 {
        Some((ContractErrorCode::ValidationFailed, "transaction plan has no targets or changes"@))
    } else {
        None
    }
}

/// `c` is `p` with each list put in canonical order: the scalar fields are
/// those of `p`, and each list holds the same items as in `p`, sorted.
pub open spec fn is_canonical_form(p: CanonicalTransactionPlan, c: CanonicalTransactionPlan) -> bool {
    &&& c.version == p.version
    &&& c.plan_id == p.plan_id
    &&& c.created_at_ms == p.created_at_ms
    &&& c.requester_uid == p.requester_uid
    &&& c.kind == p.kind
    &&& c.state_fingerprint_sha256 == p.state_fingerprint_sha256
    &&& c.approval_required == p.approval_required
    &&& canonically_sorted(c.requested_targets@)
    &&& c.requested_targets@.to_multiset() == p.requested_targets@.to_multiset()
    &&& canonically_sorted(c.unknown_effects@)
    &&& c.unknown_effects@.to_multiset() == p.unknown_effects@.to_multiset()
    &&& canonically_sorted(c.package_changes@)
    &&& c.package_changes@.to_multiset() == p.package_changes@.to_multiset()
    &&& canonically_sorted(c.service_changes@)
    &&& c.service_changes@.to_multiset() == p.service_changes@.to_multiset()
}

/// Every list of `p` is already in canonical order.
pub open spec fn is_sorted_plan(p: CanonicalTransactionPlan) -> bool {
    &&& canonically_sorted(p.requested_targets@)
    &&& canonically_sorted(p.unknown_effects@)
    &&& canonically_sorted(p.package_changes@)
    &&& canonically_sorted(p.service_changes@)
}

/// The two plans hold the same values, field by field.
pub open spec fn same_plan(a: CanonicalTransactionPlan, b: CanonicalTransactionPlan) -> bool {
    &&& a.version == b.version
    &&& a.plan_id == b.plan_id
    &&& a.created_at_ms == b.created_at_ms
    &&& a.requester_uid == b.requester_uid
    &&& a.kind == b.kind
    &&& a.requested_targets@ == b.requested_targets@
    &&& a.package_changes@ == b.package_changes@
    &&& a.service_changes@ == b.service_changes@
    &&& a.unknown_effects@ == b.unknown_effects@
    &&& a.state_fingerprint_sha256 == b.state_fingerprint_sha256
    &&& a.approval_required == b.approval_required
}

impl CanonicalTransactionPlan {
    /// The version is v1 and the plan names at least one target or change.
    pub fn validate(&self) -> (r: Result<(), ContractError>)
        ensures
            reports(r, transaction_plan_verdict(*self)),
    {
        if !str_eq(self.version.as_str(), PROTOCOL_VERSION_V1) {
            return Err(
                fail(
                    ContractErrorCode::UnsupportedVersion,
                    "transaction plan version is not sentia.v1",
                ),
            );
        }
        if self.requested_targets.len() == 0 && self.package_changes.len() == 0
            && self.service_changes.len() == 0 {
            return Err(
                fail(ContractErrorCode::ValidationFailed, "transaction plan has no targets or changes"),
            );
        }
        Ok(())
    }

    /// The plan with its targets, effects and deltas in canonical order; a
    /// plan already in that order comes back unchanged.
    pub fn canonicalized(&self) -> (r: Self)
        ensures
            is_canonical_form(*self, r),
            is_sorted_plan(*self) ==> same_plan(*self, r),
    {
        CanonicalTransactionPlan {
            version: self.version.clone(),
            plan_id: self.plan_id.clone(),
            created_at_ms: self.created_at_ms,
            requester_uid: self.requester_uid,
            kind: self.kind,
            requested_targets: sort_canonical(&self.requested_targets),
            package_changes: sort_canonical(&self.package_changes),
            service_changes: sort_canonical(&self.service_changes),
            unknown_effects: sort_canonical(&self.unknown_effects),
            state_fingerprint_sha256: self.state_fingerprint_sha256.clone(),
            approval_required: self.approval_required,
        }
    }

    /// The plan as it is written out: checked, then in canonical order. The
    /// JSON text is this plan serialised.
    pub fn canonical_plan(&self) -> (r: Result<Self, ContractError>)
        ensures
            match transaction_plan_verdict(*self) {
                Some(v) => r matches Err(e) && is_error(e, v.0, v.1),
                None => r matches Ok(p) && is_canonical_form(*self, p),
            },
    {
        match self.validate() {
            Err(e) => Err(e),
            Ok(()) => Ok(self.canonicalized()),
        }
    }
}

/// No two distinct items of `s` have equivalent keys.
pub open spec fn keys_distinct<T: CanonicalOrder>(s: Seq<T>) -> bool {
    forall|x: T, y: T|
        s.contains(x) && s.contains(y) && #[trigger] x.key_le(&y) && #[trigger] y.key_le(&x) ==> x
            == y
}

/// Two sorted sequences with the same items are equal, when no two distinct
/// items have equivalent keys.
pub proof fn lemma_sorted_unique<T: CanonicalOrder>(a: Seq<T>, b: Seq<T>)
    requires
        canonically_sorted(a),
        canonically_sorted(b),
        a.to_multiset() == b.to_multiset(),
        keys_distinct(a),
    ensures
        a == b,
    decreases a.len(),
{
    if a.len() == 0 {
        assert(b.to_multiset().len() == 0);
        assert(b =~= a);
    } else {
        assert(a.to_multiset().count(a[0]) > 0);
        assert(b.contains(a[0]));
        let j = choose|j: int| 0 <= j < b.len() && b[j] == a[0];
        assert(b.to_multiset().count(b[0]) > 0);
        assert(a.contains(b[0]));
        let k = choose|k: int| 0 <= k < a.len() && a[k] == b[0];
        T::lemma_key_total(&b[0], &b[0]);
        T::lemma_key_total(&a[0], &a[0]);
        if j > 0 {
            assert(b[0].key_le(&b[j]));
        }
        if k > 0 {
            assert(a[0].key_le(&a[k]));
        }
        assert(a.contains(a[0]));
        assert(a[0] == b[0]);
        let a1 = a.drop_first();
        let b1 = b.drop_first();
        assert(a.remove(0) =~= a1);
        assert(b.remove(0) =~= b1);
        assert(a1.to_multiset() == b1.to_multiset());
        assert forall|i: int, j2: int| 0 <= i < j2 < a1.len() implies #[trigger] a1[i].key_le(
            &#[trigger] a1[j2],
        ) by {
            assert(a[i + 1].key_le(&a[j2 + 1]));
        }
        assert forall|i: int, j2: int| 0 <= i < j2 < b1.len() implies #[trigger] b1[i].key_le(
            &#[trigger] b1[j2],
        ) by {
            assert(b[i + 1].key_le(&b[j2 + 1]));
        }
        assert forall|x: T, y: T|
            a1.contains(x) && a1.contains(y) && #[trigger] x.key_le(&y) && #[trigger] y.key_le(
                &x,
            ) implies x == y by {
            let ix = choose|ix: int| 0 <= ix < a1.len() && a1[ix] == x;
            let iy = choose|iy: int| 0 <= iy < a1.len() && a1[iy] == y;
            assert(a[ix + 1] == x);
            assert(a[iy + 1] == y);
        }
        lemma_sorted_unique(a1, b1);
        assert(a =~= seq![a[0]] + a1);
        assert(b =~= seq![b[0]] + b1);
    }
}

/// The texts of a list of bounded strings.
pub open spec fn texts<const MAX: usize>(s: Seq<BoundedString<MAX>>) -> Seq<Seq<char>> {
    s.map_values(|x: BoundedString<MAX>| x@)
}

/// `s` is in text order.
pub open spec fn texts_sorted(s: Seq<Seq<char>>) -> bool {
    forall|i: int, j: int| 0 <= i < j < s.len() ==> text_le(#[trigger] s[i], #[trigger] s[j])
}

/// Mapping every item keeps equal multisets equal.
pub proof fn lemma_map_multiset<A, B>(a: Seq<A>, b: Seq<A>, f: spec_fn(A) -> B)
    requires
        a.to_multiset() == b.to_multiset(),
    ensures
        a.map_values(f).to_multiset() == b.map_values(f).to_multiset(),
    decreases a.len(),
{
    if a.len() == 0 {
        assert(b.to_multiset().len() == 0);
        assert(a.map_values(f) =~= b.map_values(f));
    } else {
        let x = a.last();
        let a0 = a.drop_last();
        assert(a =~= a0.push(x));
        assert(a.to_multiset().count(x) > 0);
        assert(b.contains(x));
        let j = choose|j: int| 0 <= j < b.len() && b[j] == x;
        let b0 = b.remove(j);
        assert(a0.to_multiset() =~= a.to_multiset().remove(x));
        assert(b0.to_multiset() =~= b.to_multiset().remove(x));
        lemma_map_multiset(a0, b0, f);
        assert(a.map_values(f) =~= a0.map_values(f).push(f(x)));
        assert(b.map_values(f).remove(j) =~= b0.map_values(f));
        assert(b.map_values(f)[j] == f(x));
        assert(b.map_values(f).to_multiset().count(f(x)) > 0);
        assert(b.map_values(f).to_multiset() =~= b0.map_values(f).to_multiset().insert(f(x)));
    }
}

/// Two lists of texts in text order with the same items are equal.
pub proof fn lemma_texts_sorted_unique(a: Seq<Seq<char>>, b: Seq<Seq<char>>)
    requires
        texts_sorted(a),
        texts_sorted(b),
        a.to_multiset() == b.to_multiset(),
    ensures
        a == b,
    decreases a.len(),
{
    if a.len() == 0 {
        assert(b.to_multiset().len() == 0);
        assert(b =~= a);
    } else {
        assert(a.to_multiset().count(a[0]) > 0);
        assert(b.contains(a[0]));
        let j = choose|j: int| 0 <= j < b.len() && b[j] == a[0];
        assert(b.to_multiset().count(b[0]) > 0);
        assert(a.contains(b[0]));
        let k = choose|k: int| 0 <= k < a.len() && a[k] == b[0];
        if j > 0 {
            assert(text_le(b[0], b[j]));
        }
        if k > 0 {
            assert(text_le(a[0], a[k]));
        }
        lemma_text_trichotomy(a[0], b[0]);
        assert(a[0] == b[0]);
        let a1 = a.drop_first();
        let b1 = b.drop_first();
        assert(a.remove(0) =~= a1);
        assert(b.remove(0) =~= b1);
        assert(a1.to_multiset() == b1.to_multiset());
        assert forall|i: int, j2: int| 0 <= i < j2 < a1.len() implies text_le(
            #[trigger] a1[i],
            #[trigger] a1[j2],
        ) by {
            assert(text_le(a[i + 1], a[j2 + 1]));
        }
        assert forall|i: int, j2: int| 0 <= i < j2 < b1.len() implies text_le(
            #[trigger] b1[i],
            #[trigger] b1[j2],
        ) by {
            assert(text_le(b[i + 1], b[j2 + 1]));
        }
        lemma_texts_sorted_unique(a1, b1);
        assert(a =~= seq![a[0]] + a1);
        assert(b =~= seq![b[0]] + b1);
    }
}

/// Bounded strings put in canonical order give their texts in text order,
/// and the same items give the same texts.
pub proof fn lemma_texts_of_canonical<const MAX: usize>(
    c: Seq<BoundedString<MAX>>,
    p: Seq<BoundedString<MAX>>,
)
    requires
        canonically_sorted(c),
        c.to_multiset() == p.to_multiset(),
    ensures
        texts_sorted(texts(c)),
        texts(c).to_multiset() == texts(p).to_multiset(),
{
    lemma_map_multiset(c, p, |x: BoundedString<MAX>| x@);
    assert forall|i: int, j: int| 0 <= i < j < texts(c).len() implies text_le(
        #[trigger] texts(c)[i],
        #[trigger] texts(c)[j],
    ) by {
        assert(c[i].key_le(&c[j]));
    }
}

/// The canonical form does not depend on the order in which the lists of a
/// plan were given: plans that differ only in that order have the same
/// canonical form, as long as no two distinct deltas share a sort key.
pub proof fn lemma_canonical_form_order_independent(
    p1: CanonicalTransactionPlan,
    p2: CanonicalTransactionPlan,
    c1: CanonicalTransactionPlan,
    c2: CanonicalTransactionPlan,
)
    requires
        is_canonical_form(p1, c1),
        is_canonical_form(p2, c2),
        p1.version == p2.version,
        p1.plan_id == p2.plan_id,
        p1.created_at_ms == p2.created_at_ms,
        p1.requester_uid == p2.requester_uid,
        p1.kind == p2.kind,
        p1.state_fingerprint_sha256 == p2.state_fingerprint_sha256,
        p1.approval_required == p2.approval_required,
        p1.requested_targets@.to_multiset() == p2.requested_targets@.to_multiset(),
        p1.unknown_effects@.to_multiset() == p2.unknown_effects@.to_multiset(),
        p1.package_changes@.to_multiset() == p2.package_changes@.to_multiset(),
        p1.service_changes@.to_multiset() == p2.service_changes@.to_multiset(),
        keys_distinct(p1.package_changes@),
        keys_distinct(p1.service_changes@),
    ensures
        c1.version == c2.version,
        c1.plan_id == c2.plan_id,
        c1.created_at_ms == c2.created_at_ms,
        c1.requester_uid == c2.requester_uid,
        c1.kind == c2.kind,
        c1.state_fingerprint_sha256 == c2.state_fingerprint_sha256,
        c1.approval_required == c2.approval_required,
        texts(c1.requested_targets@) == texts(c2.requested_targets@),
        texts(c1.unknown_effects@) == texts(c2.unknown_effects@),
        c1.package_changes@ == c2.package_changes@,
        c1.service_changes@ == c2.service_changes@,
{
    lemma_texts_of_canonical(c1.requested_targets@, p1.requested_targets@);
    lemma_texts_of_canonical(c2.requested_targets@, p2.requested_targets@);
    lemma_map_multiset(p1.requested_targets@, p2.requested_targets@, |x: BoundedString<128>| x@);
    lemma_texts_sorted_unique(texts(c1.requested_targets@), texts(c2.requested_targets@));
    lemma_texts_of_canonical(c1.unknown_effects@, p1.unknown_effects@);
    lemma_texts_of_canonical(c2.unknown_effects@, p2.unknown_effects@);
    lemma_map_multiset(p1.unknown_effects@, p2.unknown_effects@, |x: BoundedString<256>| x@);
    lemma_texts_sorted_unique(texts(c1.unknown_effects@), texts(c2.unknown_effects@));
    lemma_keys_distinct_same_items(p1.package_changes@, c1.package_changes@);
    lemma_keys_distinct_same_items(p1.service_changes@, c1.service_changes@);
    lemma_sorted_unique(c1.package_changes@, c2.package_changes@);
    lemma_sorted_unique(c1.service_changes@, c2.service_changes@);
}

/// Distinct keys are a property of the items, not of their order.
pub proof fn lemma_keys_distinct_same_items<T: CanonicalOrder>(a: Seq<T>, b: Seq<T>)
    requires
        keys_distinct(a),
        a.to_multiset() == b.to_multiset(),
    ensures
        keys_distinct(b),
{
    assert forall|x: T, y: T|
        b.contains(x) && b.contains(y) && #[trigger] x.key_le(&y) && #[trigger] y.key_le(
            &x,
        ) implies x == y by {
        assert(b.to_multiset().count(x) > 0);
        assert(b.to_multiset().count(y) > 0);
        assert(a.contains(x));
        assert(a.contains(y));
    }
}

/// The canonical form of a valid plan is valid, and of an invalid plan fails
/// with the same error.
pub proof fn lemma_canonical_form_keeps_verdict(
    p: CanonicalTransactionPlan,
    c: CanonicalTransactionPlan,
)
    requires
        is_canonical_form(p, c),
    ensures
        transaction_plan_verdict(c) == transaction_plan_verdict(p),
{
    assert(c.requested_targets@.len() == c.requested_targets@.to_multiset().len());
    assert(c.package_changes@.len() == c.package_changes@.to_multiset().len());
    assert(c.service_changes@.len() == c.service_changes@.to_multiset().len());
}

#[derive(Debug, PartialEq, Eq)]
pub struct RequiredEvidence {
    pub case_id: BoundedString<64>,
    pub rationale: BoundedString<256>,
}

#[derive(Debug, PartialEq, Eq)]
pub struct ApprovalBinding {
    pub session_id: BoundedString<64>,
    pub caller_uid: u32,
    pub operation_digest_sha256: Sha256Digest,
    pub relevant_state_digest_sha256: Sha256Digest,
    pub issued_at_ms: u64,
    pub expires_at_ms: u64,
    pub single_use: bool,
    pub polkit_action: BoundedString<128>,
}

#[derive(Debug, PartialEq, Eq)]
pub struct ApprovalPlan {
    pub version: BoundedString<24>,
    pub approval_id: ApprovalId,
    pub transaction_plan: CanonicalTransactionPlan,
    pub binding: ApprovalBinding,
    pub required_evidence: Vec<RequiredEvidence>,
}

pub open spec fn approval_plan_verdict(a: ApprovalPlan) -> Verdict {
    if a.version@ != PROTOCOL_VERSION_V1@ {
        Some((ContractErrorCode::UnsupportedVersion, "approval plan version is not sentia.v1"@))
    } else if transaction_plan_verdict(a.transaction_plan) is Some {
        transaction_plan_verdict(a.transaction_plan)
    } else if a.binding.expires_at_ms <= a.binding.issued_at_ms {
        Some(
            (
                ContractErrorCode::ValidationFailed,
                "approval binding expiry must be after issued timestamp"@,
            ),
        )
    } else if a.required_evidence@.len() == 0 {
        Some(
            (
                ContractErrorCode::ValidationFailed,
                "approval plan requires at least one evidence requirement"@,
            ),
        )
    } else {
        None
    }
}

impl ApprovalPlan {
    /// Checks the version, the plan, the binding's lifetime and that some
    /// evidence is required.
    pub fn validate(&self) -> (r: Result<(), ContractError>)
        ensures
            reports(r, approval_plan_verdict(*self)),
    {
        if !str_eq(self.version.as_str(), PROTOCOL_VERSION_V1) {
            return Err(
                fail(ContractErrorCode::UnsupportedVersion, "approval plan version is not sentia.v1"),
            );
        }
        self.transaction_plan.validate()?;
        if self.binding.expires_at_ms <= self.binding.issued_at_ms {
            return Err(
                fail(
                    ContractErrorCode::ValidationFailed,
                    "approval binding expiry must be after issued timestamp",
                ),
            );
        }
        if self.required_evidence.len() == 0 {
            return Err(
                fail(
                    ContractErrorCode::ValidationFailed,
                    "approval plan requires at least one evidence requirement",
                ),
            );
        }
        Ok(())
    }
}

#[derive(Debug, PartialEq, Eq)]
pub struct ApprovalGrant {
    pub approval_id: ApprovalId,
    pub grant_id: BoundedString<64>,
    pub broker_token: BoundedString<128>,
    pub granted_at_ms: u64,
    pub expires_at_ms: u64,
}

} // verus!
