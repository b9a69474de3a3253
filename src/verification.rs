//! Records kept between the redirect to an identity provider and its
//! callback. A record is used up by the first callback that names it.
use crate::table::{Expiring, ExpiringTable};
use vstd::prelude::*;

verus! {

/// What a redirect login attempt left behind for its callback.
pub struct OidcVerificationData {
    pub nonce: String,
    pub issuer: String,
    /// Last second (inclusive) at which the callback is accepted.
    pub expires_at: i64,
}

impl Expiring for OidcVerificationData {
    open spec fn is_expired(&self, now: i64) -> bool {
        now > self.expires_at
    }

    fn expired(&self, now: i64) -> (r: bool) {
        now > self.expires_at
    }
}

/// Why a callback is refused.
#[derive(Clone, Copy, Debug, PartialEq, Eq, Structural)]
pub enum VerificationError {
    /// No record under the correlation id (never made, or already used).
    UnknownRecord,
    /// The record expired before the callback came.
    Expired,
    /// The callback does not carry the nonce of the record.
    NonceMismatch,
}

/// What a callback naming `id` with `nonce` at `now` gets from the records.
pub open spec fn callback_outcome(
    records: Map<Seq<char>, OidcVerificationData>,
    id: Seq<char>,
    nonce: Seq<char>,
    now: i64,
) -> Result<OidcVerificationData, VerificationError> {
    if !records.contains_key(id) {
        Err(VerificationError::UnknownRecord)
    } else if records[id].is_expired(now) {
        Err(VerificationError::Expired)
    } else if records[id].nonce@ != nonce {
        Err(VerificationError::NonceMismatch)
    } else {
        Ok(records[id])
    }
}

/// Verification records by correlation id.
pub struct VerificationTable {
    records: ExpiringTable<OidcVerificationData>,
}

impl View for VerificationTable {
    type V = Map<Seq<char>, OidcVerificationData>;

    closed spec fn view(&self) -> Map<Seq<char>, OidcVerificationData> {
        self.records@
    }
}

impl VerificationTable {
    pub closed spec fn wf(&self) -> bool {
        self.records.wf()
    }

    /// An empty table.
    pub fn new() -> (r: VerificationTable)
        ensures
            r.wf(),
            r@ == Map::<Seq<char>, OidcVerificationData>::empty(),
    {
        VerificationTable { records: ExpiringTable::new() }
    }

    /// Keeps the record of a redirect under its correlation id.
    pub fn store(&mut self, id: String, record: OidcVerificationData)
        requires
            old(self).wf(),
        ensures
            final(self).wf(),
            final(self)@ == old(self)@.insert(id@, record),
    {
        self.records.insert(id, record);
    }

    /// Handles the callback that names `id`: the record is removed whatever
    /// the outcome, and returned when it has not expired and its nonce is the
    /// one that the callback carries.
    pub fn callback(&mut self, id: &String, nonce: &String, now: i64) -> (r: Result<
        OidcVerificationData,
        VerificationError,
    >)
        requires
            old(self).wf(),
        ensures
            final(self).wf(),
            final(self)@ == old(self)@.remove(id@),
            r == callback_outcome(old(self)@, id@, nonce@, now),
    {
        match self.records.remove(id) {
            None => Err(VerificationError::UnknownRecord),
            Some(record) => {
                if record.expired(now) {
                    Err(VerificationError::Expired)
                } else if record.nonce != *nonce {
                    Err(VerificationError::NonceMismatch)
                } else {
                    Ok(record)
                }
            },
        }
    }

    /// Removes every record that has expired at `now`.
    pub fn sweep(&mut self, now: i64)
        requires
            old(self).wf(),
        ensures
            final(self).wf(),
            forall|k: Seq<char>| #[trigger]
                final(self)@.contains_key(k) <==> old(self)@.contains_key(k) && !old(
                    self,
                )@[k].is_expired(now),
            forall|k: Seq<char>| #[trigger]
                final(self)@.contains_key(k) ==> final(self)@[k] == old(self)@[k],
    {
        self.records.sweep(now);
    }
}

/// A record serves one callback only: after a callback naming `id`, whatever
/// its outcome, every later callback naming `id` is refused as unknown.
pub proof fn lemma_record_consumed_once(
    records: Map<Seq<char>, OidcVerificationData>,
    id: Seq<char>,
    nonce: Seq<char>,
    now: i64,
)
    ensures
        callback_outcome(records.remove(id), id, nonce, now) == Err::<
            OidcVerificationData,
            VerificationError,
        >(VerificationError::UnknownRecord),
{
}

} // verus!
