//! The signed record that the registry maps a name to.

use vstd::prelude::*;

verus! {

/// A claim that `username` resolves to the blob `proof_cid` as of
/// `updated_at`, attributed to the owner `did` and carrying its signature.
#[derive(Clone, Debug)]
pub struct ProfileEvent {
    pub username: String,
    pub did: String,
    pub proof_cid: String,
    pub updated_at: i64,
    pub sig: String,
}

/// The value of a record.
pub ghost struct ProfileView {
    pub username: Seq<char>,
    pub did: Seq<char>,
    pub proof_cid: Seq<char>,
    pub updated_at: i64,
    pub sig: Seq<char>,
}

impl View for ProfileEvent {
    type V = ProfileView;

    open spec fn view(&self) -> ProfileView {
        ProfileView {
            username: self.username@,
            did: self.did@,
            proof_cid: self.proof_cid@,
            updated_at: self.updated_at,
            sig: self.sig@,
        }
    }
}

/// A record is well formed when it names something.
pub open spec fn well_formed(r: ProfileView) -> bool {
    r.username.len() > 0
}

impl ProfileEvent {
    /// Builds a record from its fields.
    pub fn new(username: String, did: String, proof_cid: String, updated_at: i64, sig: String) -> (r:
        ProfileEvent)
        ensures
            r@ == (ProfileView {
                username: username@,
                did: did@,
                proof_cid: proof_cid@,
                updated_at,
                sig: sig@,
            }),
    {
        ProfileEvent { username, did, proof_cid, updated_at, sig }
    }

    /// An independent copy of the record.
    pub fn copy_value(&self) -> (r: ProfileEvent)
        ensures
            r@ == self@,
    {
        ProfileEvent {
            username: self.username.clone(),
            did: self.did.clone(),
            proof_cid: self.proof_cid.clone(),
            updated_at: self.updated_at,
            sig: self.sig.clone(),
        }
    }

    /// Whether the record is structurally valid: its name is not empty.
    pub fn is_well_formed(&self) -> (r: bool)
        ensures
            r == well_formed(self@),
    {
        !self.username.as_str().is_empty()
    }
}

} // verus!
