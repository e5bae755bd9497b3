//! Account verification: a business or an investor submits its KYC data,
//! and the admin verifies it (granting an investor an investment limit) or
//! rejects it with a reason. A rejected account may apply again; a pending
//! or verified one may not.
use vstd::prelude::*;

use crate::errors::QuickLendXError;
use crate::protocol_limits::{check_string_length, MAX_KYC_DATA_LENGTH, MAX_REJECTION_REASON_LENGTH};
use crate::Address;

verus! {

/// Where an application stands.
#[derive(Clone, Copy, Debug, PartialEq, Eq, Structural)]
pub enum VerificationStatus {
    Pending,
    Verified,
    Rejected,
}

/// The application of one account: a business, or an investor, whose
/// verification also grants an investment limit.
#[derive(Clone, Debug)]
pub struct BusinessVerification {
    pub applicant: Address,
    pub status: VerificationStatus,
    pub kyc_data: Vec<u8>,
    pub submitted_at: u64,
    pub rejection_reason: Option<Vec<u8>>,
    pub investment_limit: i128,
}

/// Position of the application of `business` in `s`, or -1.
pub open spec fn application_index(s: Seq<BusinessVerification>, business: Address) -> int
    decreases s.len(),
{
    if s.len() == 0 {
        -1
    } else if s.last().applicant == business {
        s.len() - 1
    } else {
        application_index(s.drop_last(), business)
    }
}

proof fn lemma_application_index(s: Seq<BusinessVerification>, business: Address)
    ensures
        -1 <= application_index(s, business) < s.len(),
        application_index(s, business) >= 0 ==> s[application_index(s, business)].applicant
            == business,
        application_index(s, business) < 0 ==> forall|i: int|
            0 <= i < s.len() ==> (#[trigger] s[i]).applicant != business,
    decreases s.len(),
{
    if s.len() > 0 {
        lemma_application_index(s.drop_last(), business);
        if s.last().applicant != business {
            assert forall|i: int| 0 <= i < s.len() - 1 implies s[i] == s.drop_last()[i] by {}
        }
    }
}

proof fn lemma_application_index_unique(s: Seq<BusinessVerification>, i: int)
    requires
        0 <= i < s.len(),
        forall|a: int, b: int|
            0 <= a < s.len() && 0 <= b < s.len() && a != b ==> (#[trigger] s[a]).applicant != (
            #[trigger] s[b]).applicant,
    ensures
        application_index(s, s[i].applicant) == i,
    decreases s.len(),
{
    if i < s.len() - 1 {
        let t = s.drop_last();
        assert(t[i] == s[i]);
        assert forall|a: int, b: int|
            0 <= a < t.len() && 0 <= b < t.len() && a != b implies (#[trigger] t[a]).applicant != (
            #[trigger] t[b]).applicant by {
            assert(t[a] == s[a] && t[b] == s[b]);
        }
        lemma_application_index_unique(t, i);
    }
}

/// What submitting KYC data `kyc_data` for `business` at `now` does to the
/// applications `old_s`, leaving `new_s` and answering `r`:
/// `InvalidDescription` when the data is longer than
/// `MAX_KYC_DATA_LENGTH`; `OperationNotAllowed` while an application of the
/// business is pending or verified; otherwise a pending application with
/// the data replaces a rejected one, or is added after the others.
pub open spec fn submission_outcome(
    old_s: Seq<BusinessVerification>,
    new_s: Seq<BusinessVerification>,
    business: Address,
    kyc_data: Seq<u8>,
    now: u64,
    r: Result<(), QuickLendXError>,
) -> bool {
    let p = application_index(old_s, business);
    let blocked = p >= 0 && old_s[p].status != VerificationStatus::Rejected;
    &&& kyc_data.len() > MAX_KYC_DATA_LENGTH ==> r == Err::<(), QuickLendXError>(
        QuickLendXError::InvalidDescription,
    )
    &&& kyc_data.len() <= MAX_KYC_DATA_LENGTH && blocked ==> r == Err::<(), QuickLendXError>(
        QuickLendXError::OperationNotAllowed,
    )
    &&& r is Ok <==> kyc_data.len() <= MAX_KYC_DATA_LENGTH && !blocked
    &&& r is Err ==> new_s == old_s
    &&& r is Ok ==> {
        let a = if p >= 0 {
            new_s[p]
        } else {
            new_s.last()
        };
        &&& p >= 0 ==> new_s.len() == old_s.len() && forall|i: int|
            0 <= i < old_s.len() && i != p ==> new_s[i] == old_s[i]
        &&& p < 0 ==> new_s.len() == old_s.len() + 1 && new_s.drop_last() == old_s
        &&& a.applicant == business
        &&& a.status == VerificationStatus::Pending
        &&& a.kyc_data@ == kyc_data
        &&& a.submitted_at == now
        &&& a.rejection_reason is None
        &&& a.investment_limit == 0
    }
}

/// What the admin's decision on the application of `business` does to the
/// applications `old_s`, leaving `new_s` and answering `r`: `NotAdmin`
/// unless `caller` is the admin; `StorageKeyNotFound` when the business
/// never applied; `InvalidStatus` unless its application is pending;
/// otherwise that application alone moves to `to`, carrying `reason` and,
/// when `limit` names one, that investment limit.
pub open spec fn decision_outcome(
    old_s: Seq<BusinessVerification>,
    new_s: Seq<BusinessVerification>,
    caller: Address,
    admin: Option<Address>,
    business: Address,
    to: VerificationStatus,
    reason: Option<Seq<u8>>,
    limit: Option<i128>,
    r: Result<(), QuickLendXError>,
) -> bool {
    let p = application_index(old_s, business);
    &&& admin != Some(caller) ==> r == Err::<(), QuickLendXError>(QuickLendXError::NotAdmin)
    &&& admin == Some(caller) && p < 0 ==> r == Err::<(), QuickLendXError>(
        QuickLendXError::StorageKeyNotFound,
    )
    &&& admin == Some(caller) && p >= 0 && old_s[p].status != VerificationStatus::Pending ==> r
        == Err::<(), QuickLendXError>(QuickLendXError::InvalidStatus)
    &&& r is Ok <==> admin == Some(caller) && p >= 0 && old_s[p].status == VerificationStatus::Pending
    &&& r is Err ==> new_s == old_s
    &&& r is Ok ==> {
        &&& new_s.len() == old_s.len()
        &&& forall|i: int| 0 <= i < old_s.len() && i != p ==> new_s[i] == old_s[i]
        &&& new_s[p].applicant == business
        &&& new_s[p].status == to
        &&& new_s[p].kyc_data == old_s[p].kyc_data
        &&& new_s[p].submitted_at == old_s[p].submitted_at
        &&& match reason {
            Some(t) => new_s[p].rejection_reason matches Some(x) && x@ == t,
            None => new_s[p].rejection_reason is None,
        }
        &&& new_s[p].investment_limit == match limit {
            Some(l) => l,
            None => old_s[p].investment_limit,
        }
    }
}

/// Whether no applicant has two applications in `s`.
pub open spec fn applicants_distinct(s: Seq<BusinessVerification>) -> bool {
    forall|a: int, b: int|
        0 <= a < s.len() && 0 <= b < s.len() && a != b ==> (#[trigger] s[a]).applicant != (
        #[trigger] s[b]).applicant
}

/// Whether `business` holds a verified application in `s`.
pub open spec fn is_verified(s: Seq<BusinessVerification>, business: Address) -> bool {
    let p = application_index(s, business);
    p >= 0 && s[p].status == VerificationStatus::Verified
}

/// The investment limit of `investor` in `s`: the one its verified
/// application carries, else 0.
pub open spec fn investment_limit(s: Seq<BusinessVerification>, investor: Address) -> i128 {
    if is_verified(s, investor) {
        s[application_index(s, investor)].investment_limit
    } else {
        0
    }
}

/// Verification is permanent: submitting KYC data, whoever submits it,
/// never takes it away from a verified business.
pub proof fn lemma_submission_keeps_verified(
    old_s: Seq<BusinessVerification>,
    new_s: Seq<BusinessVerification>,
    applicant: Address,
    kyc_data: Seq<u8>,
    now: u64,
    r: Result<(), QuickLendXError>,
    business: Address,
)
    requires
        applicants_distinct(old_s),
        submission_outcome(old_s, new_s, applicant, kyc_data, now, r),
        is_verified(old_s, business),
    ensures
        is_verified(new_s, business),
{
    let q = application_index(old_s, business);
    lemma_application_index(old_s, business);
    lemma_application_index(old_s, applicant);
    if r is Ok {
        let p = application_index(old_s, applicant);
        assert(new_s[q] == old_s[q]);
        assert(applicants_distinct(new_s)) by {
            assert forall|a: int, b: int|
                0 <= a < new_s.len() && 0 <= b < new_s.len() && a != b implies (#[trigger] new_s[a]).applicant
                != (#[trigger] new_s[b]).applicant by {
                if p < 0 {
                    assert(new_s.drop_last() == old_s);
                    if a < old_s.len() {
                        assert(new_s[a] == old_s[a]);
                    }
                    if b < old_s.len() {
                        assert(new_s[b] == old_s[b]);
                    }
                } else {
                    assert(new_s[a].applicant == old_s[a].applicant);
                    assert(new_s[b].applicant == old_s[b].applicant);
                }
            }
        }
        lemma_application_index_unique(new_s, q);
    }
}

/// Verification is permanent: an admin decision, on whichever
/// application, never takes it away from a verified business.
pub proof fn lemma_decision_keeps_verified(
    old_s: Seq<BusinessVerification>,
    new_s: Seq<BusinessVerification>,
    caller: Address,
    admin: Option<Address>,
    applicant: Address,
    to: VerificationStatus,
    reason: Option<Seq<u8>>,
    limit: Option<i128>,
    r: Result<(), QuickLendXError>,
    business: Address,
)
    requires
        applicants_distinct(old_s),
        decision_outcome(old_s, new_s, caller, admin, applicant, to, reason, limit, r),
        is_verified(old_s, business),
    ensures
        is_verified(new_s, business),
{
    let q = application_index(old_s, business);
    lemma_application_index(old_s, business);
    lemma_application_index(old_s, applicant);
    if r is Ok {
        let p = application_index(old_s, applicant);
        assert(p != q);
        assert(new_s[q] == old_s[q]);
        assert(applicants_distinct(new_s)) by {
            assert forall|a: int, b: int|
                0 <= a < new_s.len() && 0 <= b < new_s.len() && a != b implies (#[trigger] new_s[a]).applicant
                != (#[trigger] new_s[b]).applicant by {
                assert(new_s[a].applicant == old_s[a].applicant);
                assert(new_s[b].applicant == old_s[b].applicant);
            }
        }
        lemma_application_index_unique(new_s, q);
    }
}

/// The applicants of `s` whose application is in status `status`, in
/// order.
pub open spec fn applicants_with(s: Seq<BusinessVerification>, status: VerificationStatus) -> Seq<
    Address,
>
    decreases s.len(),
{
    if s.len() == 0 {
        Seq::empty()
    } else if s.last().status == status {
        applicants_with(s.drop_last(), status).push(s.last().applicant)
    } else {
        applicants_with(s.drop_last(), status)
    }
}

/// The applications, one per applicant, in the order the applicants first
/// applied.
pub struct VerificationRegistry {
    applications: Vec<BusinessVerification>,
}

impl VerificationRegistry {
    /// The applications.
    pub closed spec fn records(&self) -> Seq<BusinessVerification> {
        self.applications@
    }

    /// Well-formedness: no applicant has two applications.
    pub open spec fn wf(&self) -> bool {
        applicants_distinct(self.records())
    }

    /// No applications.
    pub fn new() -> (r: Self)
        ensures
            r.wf(),
            r.records() == Seq::<BusinessVerification>::empty(),
    {
        VerificationRegistry { applications: Vec::new() }
    }

    /// Position of the application of `business`, if any.
    fn find(&self, business: Address) -> (r: Option<usize>)
        requires
            self.wf(),
        ensures
            r matches Some(i) ==> i == application_index(self.records(), business) && i
                < self.records().len(),
            r is None ==> application_index(self.records(), business) < 0,
    {
        proof {
            lemma_application_index(self.applications@, business);
        }
        let mut i: usize = 0;
        while i < self.applications.len()
            invariant
                0 <= i <= self.applications@.len(),
                self.wf(),
                forall|j: int| 0 <= j < i ==> (#[trigger] self.applications@[j]).applicant != business,
            decreases self.applications@.len() - i,
        {
            if self.applications[i].applicant == business {
                proof {
                    lemma_application_index_unique(self.applications@, i as int);
                }
                return Some(i);
            }
            i = i + 1;
        }
        None
    }

    /// The application of `business`, if any.
    pub fn get_verification(&self, business: Address) -> (r: Option<&BusinessVerification>)
        requires
            self.wf(),
        ensures
            ({
                let p = application_index(self.records(), business);
                &&& p < 0 ==> r is None
                &&& p >= 0 ==> r == Some(&self.records()[p])
            }),
    {
        match self.find(business) {
            Some(i) => Some(&self.applications[i]),
            None => None,
        }
    }

    /// The applicants whose application is in status `status`, in the
    /// order they first applied.
    pub fn get_applicants_by_status(&self, status: VerificationStatus) -> (r: Vec<Address>)
        ensures
            r@ == applicants_with(self.records(), status),
    {
        let mut out: Vec<Address> = Vec::new();
        let mut i: usize = 0;
        while i < self.applications.len()
            invariant
                0 <= i <= self.applications@.len(),
                out@ == applicants_with(self.applications@.take(i as int), status),
            decreases self.applications@.len() - i,
        {
            proof {
                assert(self.applications@.take(i + 1).drop_last() =~= self.applications@.take(
                    i as int,
                ));
            }
            if self.applications[i].status == status {
                out.push(self.applications[i].applicant);
            }
            i = i + 1;
        }
        proof {
            assert(self.applications@.take(i as int) =~= self.applications@);
        }
        out
    }

    /// Whether `business` (or any applicant) has been verified.
    pub fn is_business_verified(&self, business: Address) -> (r: bool)
        requires
            self.wf(),
        ensures
            ({
                let p = application_index(self.records(), business);
                r == (p >= 0 && self.records()[p].status == VerificationStatus::Verified)
            }),
    {
        match self.find(business) {
            Some(i) => self.applications[i].status == VerificationStatus::Verified,
            None => false,
        }
    }

    /// Submits the KYC data of `business` at `now`, as `submission_outcome`
    /// says.
    pub fn submit_kyc_application(&mut self, business: Address, kyc_data: Vec<u8>, now: u64) -> (r:
        Result<(), QuickLendXError>)
        requires
            old(self).wf(),
        ensures
            final(self).wf(),
            submission_outcome(old(self).records(), final(self).records(), business, kyc_data@, now, r),
    {
        check_string_length(kyc_data.as_slice(), MAX_KYC_DATA_LENGTH)?;
        let found = self.find(business);
        let ghost old_s = self.applications@;
        let app = BusinessVerification {
            applicant: business,
            status: VerificationStatus::Pending,
            kyc_data,
            submitted_at: now,
            rejection_reason: None,
            investment_limit: 0,
        };
        match found {
            Some(i) => {
                if self.applications[i].status != VerificationStatus::Rejected {
                    return Err(QuickLendXError::OperationNotAllowed);
                }
                self.applications.set(i, app);
            },
            None => {
                proof {
                    lemma_application_index(old_s, business);
                }
                self.applications.push(app);
            },
        }
        proof {
            let s = self.applications@;
            assert forall|a: int, b: int|
                0 <= a < s.len() && 0 <= b < s.len() && a != b implies (#[trigger] s[a]).applicant
                != (#[trigger] s[b]).applicant by {
                if found is None {
                    if a < old_s.len() {
                        assert(s[a] == old_s[a]);
                    }
                    if b < old_s.len() {
                        assert(s[b] == old_s[b]);
                    }
                } else {
                    let i = found->0 as int;
                    lemma_application_index(old_s, business);
                    if a != i {
                        assert(s[a] == old_s[a]);
                    }
                    if b != i {
                        assert(s[b] == old_s[b]);
                    }
                }
            }
            if found is None {
                assert(s.drop_last() =~= old_s);
            }
        }
        Ok(())
    }

    /// Moves the pending application at position `p` to `to`, carrying
    /// `reason`.
    fn decide_at(&mut self, p: usize, to: VerificationStatus, reason: Option<Vec<u8>>, limit: i128)
        requires
            old(self).wf(),
            p < old(self).records().len(),
        ensures
            final(self).wf(),
            final(self).records().len() == old(self).records().len(),
            forall|i: int|
                0 <= i < old(self).records().len() && i != p ==> final(self).records()[i] == old(
                    self,
                ).records()[i],
            final(self).records()[p as int] == (BusinessVerification {
                status: to,
                rejection_reason: reason,
                investment_limit: limit,
                ..old(self).records()[p as int]
            }),
    {
        let ghost old_s = self.applications@;
        self.applications[p].status = to;
        self.applications[p].rejection_reason = reason;
        self.applications[p].investment_limit = limit;
        proof {
            let s = self.applications@;
            assert forall|a: int, b: int|
                0 <= a < s.len() && 0 <= b < s.len() && a != b implies (#[trigger] s[a]).applicant
                != (#[trigger] s[b]).applicant by {
                assert(s[a].applicant == old_s[a].applicant);
                assert(s[b].applicant == old_s[b].applicant);
            }
        }
    }

    /// The admin verifies the pending application of `business`, as
    /// `decision_outcome` says.
    pub fn verify_business(&mut self, caller: Address, admin: Option<Address>, business: Address) -> (r:
        Result<(), QuickLendXError>)
        requires
            old(self).wf(),
        ensures
            final(self).wf(),
            decision_outcome(
                old(self).records(),
                final(self).records(),
                caller,
                admin,
                business,
                VerificationStatus::Verified,
                None,
                None,
                r,
            ),
    {
        if admin != Some(caller) {
            return Err(QuickLendXError::NotAdmin);
        }
        let p = match self.find(business) {
            Some(p) => p,
            None => {
                return Err(QuickLendXError::StorageKeyNotFound);
            },
        };
        if self.applications[p].status != VerificationStatus::Pending {
            return Err(QuickLendXError::InvalidStatus);
        }
        proof {
            lemma_application_index(self.applications@, business);
        }
        let limit = self.applications[p].investment_limit;
        self.decide_at(p, VerificationStatus::Verified, None, limit);
        Ok(())
    }

    /// The admin rejects the pending application of `business` for
    /// `reason`: `InvalidDescription` when the reason is longer than
    /// `MAX_REJECTION_REASON_LENGTH`, once the caller is known to be the
    /// admin; otherwise as `decision_outcome` says.
    pub fn reject_business(
        &mut self,
        caller: Address,
        admin: Option<Address>,
        business: Address,
        reason: Vec<u8>,
    ) -> (r: Result<(), QuickLendXError>)
        requires
            old(self).wf(),
        ensures
            final(self).wf(),
            admin == Some(caller) && reason@.len() > MAX_REJECTION_REASON_LENGTH ==> r == Err::<
                (),
                QuickLendXError,
            >(QuickLendXError::InvalidDescription) && final(self).records() == old(self).records(),
            admin != Some(caller) || reason@.len() <= MAX_REJECTION_REASON_LENGTH ==> decision_outcome(
                old(self).records(),
                final(self).records(),
                caller,
                admin,
                business,
                VerificationStatus::Rejected,
                Some(reason@),
                None,
                r,
            ),
    {
        if admin != Some(caller) {
            return Err(QuickLendXError::NotAdmin);
        }
        check_string_length(reason.as_slice(), MAX_REJECTION_REASON_LENGTH)?;
        let p = match self.find(business) {
            Some(p) => p,
            None => {
                return Err(QuickLendXError::StorageKeyNotFound);
            },
        };
        if self.applications[p].status != VerificationStatus::Pending {
            return Err(QuickLendXError::InvalidStatus);
        }
        proof {
            lemma_application_index(self.applications@, business);
        }
        let limit = self.applications[p].investment_limit;
        self.decide_at(p, VerificationStatus::Rejected, Some(reason), limit);
        Ok(())
    }

    /// The admin verifies the pending application of investor `investor`,
    /// granting it investment limit `limit`: `InvalidAmount` when the limit
    /// is not positive, once the caller is known to be the admin; otherwise
    /// as `decision_outcome` says.
    pub fn verify_investor(
        &mut self,
        caller: Address,
        admin: Option<Address>,
        investor: Address,
        limit: i128,
    ) -> (r: Result<(), QuickLendXError>)
        requires
            old(self).wf(),
        ensures
            final(self).wf(),
            admin == Some(caller) && limit <= 0 ==> r == Err::<(), QuickLendXError>(
                QuickLendXError::InvalidAmount,
            ) && final(self).records() == old(self).records(),
            admin != Some(caller) || limit > 0 ==> decision_outcome(
                old(self).records(),
                final(self).records(),
                caller,
                admin,
                investor,
                VerificationStatus::Verified,
                None,
                Some(limit),
                r,
            ),
    {
        if admin != Some(caller) {
            return Err(QuickLendXError::NotAdmin);
        }
        if limit <= 0 {
            return Err(QuickLendXError::InvalidAmount);
        }
        let p = match self.find(investor) {
            Some(p) => p,
            None => {
                return Err(QuickLendXError::StorageKeyNotFound);
            },
        };
        if self.applications[p].status != VerificationStatus::Pending {
            return Err(QuickLendXError::InvalidStatus);
        }
        proof {
            lemma_application_index(self.applications@, investor);
        }
        self.decide_at(p, VerificationStatus::Verified, None, limit);
        Ok(())
    }

    /// The investment limit of `investor`: the one granted when it was
    /// verified, and 0 for an account that is not verified.
    pub fn investment_limit_of(&self, investor: Address) -> (r: i128)
        requires
            self.wf(),
        ensures
            r == investment_limit(self.records(), investor),
    {
        match self.find(investor) {
            Some(i) => if self.applications[i].status == VerificationStatus::Verified {
                self.applications[i].investment_limit
            } else {
                0
            },
            None => 0,
        }
    }
}

} // verus!
