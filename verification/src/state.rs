//! The crowdfunding state machine: one state container with guarded
//! mutators, invoked serially by the host on behalf of an external caller.

use vstd::prelude::*;

use crate::types::AccountId;
use crate::types::Balance;
use crate::types::PSP22Error;
use crate::types::Request;
use crate::types::RequestId;

verus! {

/// The whole state of one deployed crowdfunding module.
///
/// The host loads the state before an operation and stores it after; within
/// an operation the state is exclusively owned and every mutation is atomic:
/// an operation that fails leaves the state exactly as it found it.
pub struct Crowdfunding {
    /// The account that initialized the module; immutable, authorizes
    /// privileged operations.
    manager: AccountId,
    /// Per-contribution threshold; immutable after construction.
    minimum_contribution: Balance,
    /// Accounts admitted as approvers, each recorded once; grows by
    /// insertion only.
    approvers: Vec<AccountId>,
    /// The request ledger in order of creation; entries are never removed.
    requests: Vec<Request>,
    /// The next request id to issue; only ever increases.
    request_id: RequestId,
    /// Whether the manager account itself may contribute. The stricter
    /// setting, rejecting the manager, is the default.
    allow_manager_contribution: bool,
}

impl Crowdfunding {
    /// The manager account.
    pub closed spec fn spec_manager(self) -> AccountId {
        self.manager
    }

    /// The minimum value a contribution must carry.
    pub closed spec fn spec_minimum_contribution(self) -> Balance {
        self.minimum_contribution
    }

    /// The approvers as a set: membership is all that matters.
    pub closed spec fn spec_approvers(self) -> Set<AccountId> {
        self.approvers@.to_set()
    }

    /// The approvers as the module records them, in order of first
    /// admission.
    pub closed spec fn approvers_seq(self) -> Seq<AccountId> {
        self.approvers@
    }

    /// The request ledger in order of creation.
    pub closed spec fn spec_requests(self) -> Seq<Request> {
        self.requests@
    }

    /// The next request id the counter will issue.
    pub closed spec fn spec_request_id(self) -> RequestId {
        self.request_id
    }

    /// The manager-contribution setting chosen at construction.
    pub closed spec fn spec_allow_manager_contribution(self) -> bool {
        self.allow_manager_contribution
    }

    /// Well-formedness, established at construction and preserved by every
    /// operation: approvers are recorded once each, every ledger entry is
    /// internally consistent, ids strictly increase along the ledger, and
    /// every issued id lies below the counter — so no id is ever reused.
    pub open spec fn wf(self) -> bool {
        &&& self.approvers_seq().no_duplicates()
        &&& forall|i: int|
            0 <= i < self.spec_requests().len() ==> (#[trigger] self.spec_requests()[i]).wf()
        &&& forall|i: int|
            0 <= i < self.spec_requests().len() ==> (#[trigger] self.spec_requests()[i]).request_id
                < self.spec_request_id()
        &&& forall|i: int, j: int|
            0 <= i < j < self.spec_requests().len() ==> self.spec_requests()[i].request_id
                < self.spec_requests()[j].request_id
    }

    /// Dense id allocation: the ids issued so far are exactly
    /// `0 .. request_id`, in order. Holds from construction on, as long as
    /// the counter is advanced only by `create_spending_request`.
    pub open spec fn dense(self) -> bool {
        &&& self.spec_request_id() == self.spec_requests().len()
        &&& forall|i: int|
            0 <= i < self.spec_requests().len() ==> (#[trigger] self.spec_requests()[i]).request_id
                == i
    }

    /// Initialize a module with an explicit manager-contribution setting.
    /// `caller`, resolved by the host, becomes the manager for the module's
    /// whole lifetime.
    pub fn with_config(minimum: Balance, caller: AccountId, allow_manager_contribution: bool) -> (s:
        Self)
        ensures
            s.wf(),
            s.dense(),
            s.spec_manager() == caller,
            s.spec_minimum_contribution() == minimum,
            s.spec_approvers() =~= Set::<AccountId>::empty(),
            s.approvers_seq() =~= Seq::<AccountId>::empty(),
            s.spec_requests() =~= Seq::<Request>::empty(),
            s.spec_request_id() == 0,
            s.spec_allow_manager_contribution() == allow_manager_contribution,
    {
        Crowdfunding {
            manager: caller,
            minimum_contribution: minimum,
            approvers: Vec::new(),
            requests: Vec::new(),
            request_id: 0,
            allow_manager_contribution,
        }
    }

    /// Initialize a module with the default, stricter setting: the manager
    /// account may not contribute.
    pub fn default(minimum: Balance, caller: AccountId) -> (s: Self)
        ensures
            s.wf(),
            s.dense(),
            s.spec_manager() == caller,
            s.spec_minimum_contribution() == minimum,
            s.spec_approvers() =~= Set::<AccountId>::empty(),
            s.approvers_seq() =~= Seq::<AccountId>::empty(),
            s.spec_requests() =~= Seq::<Request>::empty(),
            s.spec_request_id() == 0,
            !s.spec_allow_manager_contribution(),
    {
        Self::with_config(minimum, caller, false)
    }

    /// Whether `account` has been admitted as an approver.
    pub fn is_approver(&self, account: AccountId) -> (r: bool)
        ensures
            r == self.spec_approvers().contains(account),
    {
        let mut i: usize = 0;
        while i < self.approvers.len()
            invariant
                i <= self.approvers@.len(),
                forall|j: int| 0 <= j < i ==> self.approvers@[j] != account,
            decreases self.approvers@.len() - i,
        {
            if self.approvers[i] == account {
                proof {
                    assert(self.approvers@.contains(account));
                }
                return true;
            }
            i += 1;
        }
        proof {
            assert(!self.approvers@.contains(account));
        }
        false
    }

    /// How many distinct accounts are approvers.
    pub fn approver_count(&self) -> (n: usize)
        requires
            self.wf(),
        ensures
            n == self.approvers_seq().len(),
            n == self.spec_approvers().len(),
    {
        proof {
            self.approvers@.unique_seq_to_set();
        }
        self.approvers.len()
    }

    /// The immutable part of the state: manager, threshold and the
    /// manager-contribution setting never change after construction.
    pub open spec fn same_config(pre: Self, post: Self) -> bool {
        &&& post.spec_manager() == pre.spec_manager()
        &&& post.spec_minimum_contribution() == pre.spec_minimum_contribution()
        &&& post.spec_allow_manager_contribution() == pre.spec_allow_manager_contribution()
    }

    /// The request ledger and the id counter, unchanged.
    pub open spec fn same_requests(pre: Self, post: Self) -> bool {
        &&& post.spec_requests() == pre.spec_requests()
        &&& post.spec_request_id() == pre.spec_request_id()
    }

    /// Whether a contribution by `caller` is barred: only the manager is,
    /// and only under the strict setting.
    pub open spec fn contribution_barred(self, caller: AccountId) -> bool {
        !self.spec_allow_manager_contribution() && caller == self.spec_manager()
    }

    /// Accept a contribution of `transferred` from `caller`, both resolved
    /// by the host. Below the threshold the call fails with
    /// `InsufficientBalance` and changes nothing; at or above it, `caller`
    /// is admitted as an approver — once, however often it contributes.
    /// Under the strict setting a contribution by the manager itself is an
    /// access-control violation and is voided as a whole.
    pub fn contribute(&mut self, caller: AccountId, transferred: Balance) -> (r: Result<
        (),
        PSP22Error,
    >)
        requires
            old(self).wf(),
        ensures
            final(self).wf(),
            Self::same_config(*old(self), *final(self)),
            Self::same_requests(*old(self), *final(self)),
            old(self).dense() ==> final(self).dense(),
            old(self).contribution_barred(caller) ==> r == Err::<(), PSP22Error>(
                PSP22Error::Unauthorized,
            ) && final(self).approvers_seq() == old(self).approvers_seq()
                && final(self).spec_approvers() == old(self).spec_approvers(),
            !old(self).contribution_barred(caller) && transferred < old(
                self,
            ).spec_minimum_contribution() ==> r == Err::<(), PSP22Error>(
                PSP22Error::InsufficientBalance,
            ) && final(self).approvers_seq() == old(self).approvers_seq()
                && final(self).spec_approvers() == old(self).spec_approvers(),
            !old(self).contribution_barred(caller) && transferred >= old(
                self,
            ).spec_minimum_contribution() ==> r == Ok::<(), PSP22Error>(())
                && final(self).spec_approvers() =~= old(self).spec_approvers().insert(caller),
            final(self).approvers_seq() == old(self).approvers_seq() || final(self).approvers_seq()
                == old(self).approvers_seq().push(caller),
            old(self).spec_approvers().subset_of(final(self).spec_approvers()),
    {
        if !self.allow_manager_contribution && caller == self.manager {
            return Err(PSP22Error::Unauthorized);
        }
        if transferred < self.minimum_contribution {
            return Err(PSP22Error::InsufficientBalance);
        }
        if !self.is_approver(caller) {
            let ghost s0 = self.approvers@;
            self.approvers.push(caller);
            proof {
                assert(!s0.contains(caller)) by {
                    if s0.contains(caller) {
                        assert(s0.to_set().contains(caller));
                    }
                }
                lemma_push_preserves_no_duplicates(s0, caller);
                lemma_push_to_set(s0, caller);
            }
        } else {
            proof {
                assert(self.spec_approvers() =~= self.spec_approvers().insert(caller));
            }
        }
        proof {
            lemma_wf_transfer(*old(self), *self);
        }
        Ok(())
    }

    /// What a request looks like the moment it is created: the given id,
    /// description, value and recipient; not complete; no voters yet.
    pub open spec fn fresh_request(
        req: Request,
        id: RequestId,
        description: Seq<u8>,
        value: Balance,
        recipient: AccountId,
    ) -> bool {
        &&& req.request_id == id
        &&& req.description@ == description
        &&& req.value == value
        &&& req.recipient == recipient
        &&& req.complete == false
        &&& req.voters@ == Seq::<AccountId>::empty()
        &&& req.approval_count == 0
    }

    /// Open a spending request to pay `value` to `recipient` for
    /// `description`. Only the manager may do so: any other caller is an
    /// access-control violation, the call is voided and neither the ledger
    /// nor the counter moves. For the manager the request is appended to the
    /// ledger under the id the counter holds, and the counter advances by
    /// one — so across successful calls the returned ids strictly increase
    /// and no id is ever reused.
    pub fn create_spending_request(
        &mut self,
        caller: AccountId,
        description: Vec<u8>,
        value: Balance,
        recipient: AccountId,
    ) -> (r: Result<RequestId, PSP22Error>)
        requires
            old(self).wf(),
            old(self).spec_request_id() < RequestId::MAX,
        ensures
            final(self).wf(),
            Self::same_config(*old(self), *final(self)),
            final(self).approvers_seq() == old(self).approvers_seq(),
            final(self).spec_approvers() == old(self).spec_approvers(),
            caller != old(self).spec_manager() ==> r == Err::<RequestId, PSP22Error>(
                PSP22Error::Unauthorized,
            ) && Self::same_requests(*old(self), *final(self)),
            caller == old(self).spec_manager() ==> r == Ok::<RequestId, PSP22Error>(
                old(self).spec_request_id(),
            ) && final(self).spec_request_id() == old(self).spec_request_id() + 1
                && final(self).spec_requests().len() == old(self).spec_requests().len() + 1 && (
            forall|i: int|
                0 <= i < old(self).spec_requests().len() ==> final(self).spec_requests()[i] == old(
                    self,
                ).spec_requests()[i]) && Self::fresh_request(
                final(self).spec_requests().last(),
                old(self).spec_request_id(),
                description@,
                value,
                recipient,
            ),
            old(self).dense() ==> final(self).dense(),
    {
        if !self.manager_call(caller) {
            return Err(PSP22Error::Unauthorized);
        }
        let new_request = Request {
            request_id: self.request_id,
            description,
            value,
            recipient,
            complete: false,
            voters: Vec::new(),
            approval_count: 0,
        };
        let id = self.request_id;
        self.requests.push(new_request);
        self.request_id = id + 1;
        proof {
            let pre = *old(self);
            let post = *self;
            assert forall|i: int|
                0 <= i < post.spec_requests().len() implies (
            #[trigger] post.spec_requests()[i]).wf() && post.spec_requests()[i].request_id
                < post.spec_request_id() by {
                if i < pre.spec_requests().len() {
                    assert(pre.spec_requests()[i].wf());
                    assert(pre.spec_requests()[i].request_id < pre.spec_request_id());
                }
            }
            assert forall|i: int, j: int|
                0 <= i < j < post.spec_requests().len() implies post.spec_requests()[i].request_id
                < post.spec_requests()[j].request_id by {
                assert(pre.spec_requests()[i].request_id < pre.spec_request_id());
                if j < pre.spec_requests().len() {
                    assert(pre.spec_requests()[i].request_id < pre.spec_requests()[j].request_id);
                }
            }
        }
        Ok(id)
    }

    /// Advance the request-id counter by one and return its new value. Part
    /// of the module's public surface; a counter advanced this way skips the
    /// id for any ledger entry, but never returns to one already issued.
    pub fn increment_request_id(&mut self) -> (r: RequestId)
        requires
            old(self).wf(),
            old(self).spec_request_id() < RequestId::MAX,
        ensures
            final(self).wf(),
            Self::same_config(*old(self), *final(self)),
            final(self).approvers_seq() == old(self).approvers_seq(),
            final(self).spec_approvers() == old(self).spec_approvers(),
            final(self).spec_requests() == old(self).spec_requests(),
            final(self).spec_request_id() == old(self).spec_request_id() + 1,
            r == final(self).spec_request_id(),
    {
        self.request_id = self.request_id + 1;
        proof {
            let pre = *old(self);
            let post = *self;
            assert forall|i: int|
                0 <= i < post.spec_requests().len() implies (
            #[trigger] post.spec_requests()[i]).wf() && post.spec_requests()[i].request_id
                < post.spec_request_id() by {
                assert(pre.spec_requests()[i].wf());
                assert(pre.spec_requests()[i].request_id < pre.spec_request_id());
            }
            assert forall|i: int, j: int|
                0 <= i < j < post.spec_requests().len() implies post.spec_requests()[i].request_id
                < post.spec_requests()[j].request_id by {
                assert(pre.spec_requests()[i].request_id < pre.spec_requests()[j].request_id);
            }
        }
        self.request_id
    }

    /// Whether `caller` holds the manager's authority for a privileged
    /// operation.
    fn manager_call(&self, caller: AccountId) -> (r: bool)
        ensures
            r == (caller == self.spec_manager()),
    {
        caller == self.manager
    }

    /// How many requests the ledger holds.
    pub fn request_count(&self) -> (n: usize)
        ensures
            n == self.spec_requests().len(),
    {
        self.requests.len()
    }

    /// Look up the request with the given id, if any. In a well-formed
    /// state at most one ledger entry carries `id`.
    pub fn get_request(&self, id: RequestId) -> (r: Option<&Request>)
        ensures
            match r {
                Some(req) => exists|i: int|
                    0 <= i < self.spec_requests().len() && self.spec_requests()[i] == *req
                        && req.request_id == id,
                None => forall|i: int|
                    0 <= i < self.spec_requests().len() ==> (
                    #[trigger] self.spec_requests()[i]).request_id != id,
            },
    {
        let mut i: usize = 0;
        while i < self.requests.len()
            invariant
                i <= self.spec_requests().len(),
                forall|j: int|
                    0 <= j < i ==> (#[trigger] self.spec_requests()[j]).request_id != id,
            decreases self.spec_requests().len() - i,
        {
            if self.requests[i].request_id == id {
                return Some(&self.requests[i]);
            }
            i += 1;
        }
        None
    }

    /// The manager's address; the same value for the module's whole
    /// lifetime.
    pub fn get_manger_address(&self) -> (r: AccountId)
        ensures
            r == self.spec_manager(),
    {
        self.manager
    }
}

/// Idempotent approval: admitting the same contributor a second time leaves
/// the approver set exactly as one admission does — membership, not a
/// counter. Together with `contribute`'s postcondition, two sufficient
/// contributions by one caller leave it an approver exactly once.
pub proof fn lemma_idempotent_approval(approvers: Set<AccountId>, caller: AccountId)
    ensures
        approvers.insert(caller).insert(caller) =~= approvers.insert(caller),
{
}

/// The two views of the approvers agree: the approver set holds exactly the
/// accounts the module's record holds.
pub proof fn lemma_approver_views_agree(s: Crowdfunding)
    ensures
        s.spec_approvers() == s.approvers_seq().to_set(),
        forall|a: AccountId| s.spec_approvers().contains(a) <==> s.approvers_seq().contains(a),
{
    assert(forall|a: AccountId|
        s.spec_approvers().contains(a) <==> s.approvers_seq().contains(a));
}

/// In a well-formed state an approver is recorded exactly once: there is one
/// index holding it in the module's record, and no other.
pub proof fn lemma_approver_recorded_once(s: Crowdfunding, account: AccountId)
    requires
        s.wf(),
        s.spec_approvers().contains(account),
    ensures
        exists|i: int|
            0 <= i < s.approvers_seq().len() && s.approvers_seq()[i] == account && (forall|j: int|
                0 <= j < s.approvers_seq().len() && s.approvers_seq()[j] == account ==> j == i),
{
    assert(s.approvers_seq().contains(account));
    let i = choose|i: int| 0 <= i < s.approvers_seq().len() && s.approvers_seq()[i] == account;
    assert forall|j: int|
        0 <= j < s.approvers_seq().len() && s.approvers_seq()[j] == account implies j == i by {
        if j != i {
            assert(s.approvers_seq()[i] != s.approvers_seq()[j]);
        }
    }
    assert(0 <= i < s.approvers_seq().len() && s.approvers_seq()[i] == account && (forall|j: int|
        0 <= j < s.approvers_seq().len() && s.approvers_seq()[j] == account ==> j == i));
}

/// Id monotonicity: with dense allocation — from construction on, as long as
/// the counter moves only through `create_spending_request` — the ledger's
/// ids are exactly 0, 1, ..., len - 1, in order and with no repeats.
pub proof fn lemma_id_monotonicity(s: Crowdfunding)
    requires
        s.dense(),
    ensures
        forall|i: int|
            0 <= i < s.spec_requests().len() ==> (#[trigger] s.spec_requests()[i]).request_id == i,
        forall|i: int, j: int|
            0 <= i < j < s.spec_requests().len() ==> s.spec_requests()[i].request_id < s.spec_requests()[j].request_id,
{
}

/// A request id, once issued, is never reused: in a well-formed state no two
/// ledger entries carry the same id.
pub proof fn lemma_request_ids_unique(s: Crowdfunding)
    requires
        s.wf(),
    ensures
        forall|i: int, j: int|
            0 <= i < s.spec_requests().len() && 0 <= j < s.spec_requests().len() && i != j
                ==> s.spec_requests()[i].request_id != s.spec_requests()[j].request_id,
{
    assert forall|i: int, j: int|
        0 <= i < s.spec_requests().len() && 0 <= j < s.spec_requests().len() && i != j implies s.spec_requests()[i].request_id
        != s.spec_requests()[j].request_id by {
        if i < j {
            assert(s.spec_requests()[i].request_id < s.spec_requests()[j].request_id);
        } else {
            assert(s.spec_requests()[j].request_id < s.spec_requests()[i].request_id);
        }
    }
}

/// Well-formedness reads the request ledger and the counter as wholes: a
/// state that shares them with a well-formed one, and whose approvers are
/// still pairwise distinct, is well-formed itself.
proof fn lemma_wf_transfer(pre: Crowdfunding, post: Crowdfunding)
    requires
        pre.wf(),
        post.approvers_seq().no_duplicates(),
        post.spec_requests() == pre.spec_requests(),
        post.spec_request_id() == pre.spec_request_id(),
    ensures
        post.wf(),
{
    assert forall|i: int|
        0 <= i < post.spec_requests().len() implies (#[trigger] post.spec_requests()[i]).wf() by {
        assert(pre.spec_requests()[i].wf());
    }
    assert forall|i: int|
        0 <= i < post.spec_requests().len() implies (#[trigger] post.spec_requests()[i]).request_id
        < post.spec_request_id() by {
        assert(pre.spec_requests()[i].request_id < pre.spec_request_id());
    }
    assert forall|i: int, j: int|
        0 <= i < j < post.spec_requests().len() implies post.spec_requests()[i].request_id
        < post.spec_requests()[j].request_id by {
        assert(pre.spec_requests()[i].request_id < pre.spec_requests()[j].request_id);
    }
}

/// Appending an element a sequence does not yet contain keeps its entries
/// pairwise distinct.
proof fn lemma_push_preserves_no_duplicates(s: Seq<AccountId>, a: AccountId)
    requires
        s.no_duplicates(),
        !s.contains(a),
    ensures
        s.push(a).no_duplicates(),
{
    assert forall|i: int, j: int|
        0 <= i < s.push(a).len() && 0 <= j < s.push(a).len() && i != j implies s.push(a)[i]
        != s.push(a)[j] by {
        if i < s.len() && j < s.len() {
            assert(s.push(a)[i] == s[i]);
            assert(s.push(a)[j] == s[j]);
        } else if i < s.len() {
            assert(s.push(a)[i] == s[i]);
            assert(s.contains(s[i]));
        } else {
            assert(s.push(a)[j] == s[j]);
            assert(s.contains(s[j]));
        }
    }
}

/// Appending an element to a sequence inserts it into the set of the
/// sequence's elements.
proof fn lemma_push_to_set(s: Seq<AccountId>, a: AccountId)
    ensures
        s.push(a).to_set() =~= s.to_set().insert(a),
{
    assert forall|x: AccountId| s.push(a).contains(x) implies s.contains(x) || x == a by {
        let i = choose|i: int| 0 <= i < s.push(a).len() && s.push(a)[i] == x;
        if i < s.len() {
            assert(s[i] == x);
        }
    }
    assert forall|x: AccountId| s.contains(x) implies s.push(a).contains(x) by {
        let i = choose|i: int| 0 <= i < s.len() && s[i] == x;
        assert(s.push(a)[i] == x);
    }
    assert(s.push(a)[s.len() as int] == a);
    assert(s.push(a).contains(a));
}

} // verus!
