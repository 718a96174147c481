//! The persistent record shapes, the account model, and their
//! field-level invariants.

use vstd::prelude::*;

verus! {

/// Length in bytes of an identity.
pub const ID_LEN: usize = 32;

/// An identity on the ledger: the address of an account, or the
/// identity behind an authorized call. Held as its raw bytes.
#[derive(Clone, Debug, PartialEq, Eq)]
pub struct Pubkey {
    pub bytes: Vec<u8>,
}

impl View for Pubkey {
    type V = Seq<u8>;

    open spec fn view(&self) -> Seq<u8> {
        self.bytes@
    }
}

/// Compares two byte vectors for equality of their contents.
pub fn bytes_eq(a: &Vec<u8>, b: &Vec<u8>) -> (r: bool)
    ensures
        r == (a@ == b@),
{
    if a.len() != b.len() {
        return false;
    }
    let mut i: usize = 0;
    while i < a.len()
        invariant
            i <= a@.len(),
            a@.len() == b@.len(),
            forall|j: int| 0 <= j < i ==> a@[j] == b@[j],
        decreases a@.len() - i,
    {
        if a[i] != b[i] {
            return false;
        }
        i = i + 1;
    }
    proof {
        assert(a@ =~= b@);
    }
    true
}

/// Compares two identities byte for byte.
pub fn pubkey_eq(a: &Pubkey, b: &Pubkey) -> (r: bool)
    ensures
        r == (a@ == b@),
{
    bytes_eq(&a.bytes, &b.bytes)
}

/// An externally provisioned account as the core sees it: an address,
/// an owner identifier, the fact whether its identity authorized the
/// current call, a balance, and a byte buffer of fixed capacity that
/// holds the current payload.
#[derive(Clone, Debug, PartialEq, Eq)]
pub struct Account {
    pub key: Pubkey,
    pub owner: Pubkey,
    pub is_signer: bool,
    pub lamports: u64,
    pub data: Vec<u8>,
    pub capacity: usize,
}

/// The mathematical shape of an `Account`.
pub ghost struct AccountView {
    pub key: Seq<u8>,
    pub owner: Seq<u8>,
    pub is_signer: bool,
    pub lamports: u64,
    pub data: Seq<u8>,
    pub capacity: int,
}

impl View for Account {
    type V = AccountView;

    open spec fn view(&self) -> AccountView {
        AccountView {
            key: self.key@,
            owner: self.owner@,
            is_signer: self.is_signer,
            lamports: self.lamports,
            data: self.data@,
            capacity: self.capacity as int,
        }
    }
}

impl AccountView {
    pub open spec fn wf(self) -> bool {
        &&& self.key.len() == ID_LEN
        &&& self.owner.len() == ID_LEN
        &&& self.data.len() <= self.capacity
    }
}

impl Account {
    pub open spec fn wf(&self) -> bool {
        self@.wf()
    }
}

/// Copies a byte vector.
pub fn clone_bytes(v: &Vec<u8>) -> (r: Vec<u8>)
    ensures
        r@ == v@,
{
    let mut out: Vec<u8> = Vec::new();
    let mut i: usize = 0;
    while i < v.len()
        invariant
            i <= v@.len(),
            out@ == v@.take(i as int),
        decreases v@.len() - i,
    {
        out.push(v[i]);
        proof {
            assert(v@.take(i as int).push(v@[i as int]) =~= v@.take(i + 1 as int));
        }
        i = i + 1;
    }
    proof {
        assert(v@.take(v@.len() as int) =~= v@);
    }
    out
}

/// Copies an identity.
pub fn clone_pubkey(p: &Pubkey) -> (r: Pubkey)
    ensures
        r@ == p@,
{
    Pubkey { bytes: clone_bytes(&p.bytes) }
}

/// One candidate, embedded in a `VotingSystem`. `name` and
/// `description` are free text kept as raw bytes, set once at append
/// time; `votes` only ever grows.
#[derive(Clone, Debug, PartialEq, Eq)]
pub struct Candidate {
    pub name: Vec<u8>,
    pub description: Vec<u8>,
    pub votes: u64,
}

/// The mathematical shape of a `Candidate`.
pub ghost struct CandidateView {
    pub name: Seq<u8>,
    pub description: Seq<u8>,
    pub votes: u64,
}

impl View for Candidate {
    type V = CandidateView;

    open spec fn view(&self) -> CandidateView {
        CandidateView { name: self.name@, description: self.description@, votes: self.votes }
    }
}

impl CandidateView {
    /// The text fields must be length-prefixable by a 32-bit count.
    pub open spec fn wf(self) -> bool {
        &&& self.name.len() <= u32::MAX
        &&& self.description.len() <= u32::MAX
    }
}

impl Candidate {
    pub open spec fn wf(&self) -> bool {
        self@.wf()
    }
}

/// One voting topic: its admin, its free-text label, its append-only
/// candidate list, and its voting window.
#[derive(Clone, Debug, PartialEq, Eq)]
pub struct VotingSystem {
    pub admin: Pubkey,
    pub name: Vec<u8>,
    pub description: Vec<u8>,
    pub candidates: Vec<Candidate>,
    pub start_time: i64,
    pub end_time: i64,
    pub is_active: bool,
}

/// The mathematical shape of a `VotingSystem`.
pub ghost struct VotingSystemView {
    pub admin: Seq<u8>,
    pub name: Seq<u8>,
    pub description: Seq<u8>,
    pub candidates: Seq<CandidateView>,
    pub start_time: i64,
    pub end_time: i64,
    pub is_active: bool,
}

impl View for VotingSystem {
    type V = VotingSystemView;

    open spec fn view(&self) -> VotingSystemView {
        VotingSystemView {
            admin: self.admin@,
            name: self.name@,
            description: self.description@,
            candidates: self.candidates@.map_values(|c: Candidate| c@),
            start_time: self.start_time,
            end_time: self.end_time,
            is_active: self.is_active,
        }
    }
}

impl VotingSystemView {
    pub open spec fn wf(self) -> bool {
        &&& self.admin.len() == ID_LEN
        &&& self.name.len() <= u32::MAX
        &&& self.description.len() <= u32::MAX
        &&& self.candidates.len() <= u32::MAX
        &&& forall|i: int| 0 <= i < self.candidates.len() ==> (#[trigger] self.candidates[i]).wf()
    }
}

impl VotingSystem {
    pub open spec fn wf(&self) -> bool {
        self@.wf()
    }
}

/// The record written into a vote-receipt buffer by a successful vote:
/// who voted, for which candidate index, and when. Immutable once
/// written; its presence is what makes the receipt single-use.
#[derive(Clone, Debug, PartialEq, Eq)]
pub struct VoteRecord {
    pub voter: Pubkey,
    pub candidate_index: u32,
    pub timestamp: i64,
}

/// The mathematical shape of a `VoteRecord`.
pub ghost struct VoteRecordView {
    pub voter: Seq<u8>,
    pub candidate_index: u32,
    pub timestamp: i64,
}

impl View for VoteRecord {
    type V = VoteRecordView;

    open spec fn view(&self) -> VoteRecordView {
        VoteRecordView {
            voter: self.voter@,
            candidate_index: self.candidate_index,
            timestamp: self.timestamp,
        }
    }
}

impl VoteRecordView {
    pub open spec fn wf(self) -> bool {
        self.voter.len() == ID_LEN
    }
}

impl VoteRecord {
    pub open spec fn wf(&self) -> bool {
        self@.wf()
    }
}

} // verus!
