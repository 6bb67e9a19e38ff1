use vstd::prelude::*;

verus! {

/// Issuer side of a pairing: the trusted device that hands over the key.
#[derive(Debug, Clone, Copy, PartialEq, Eq, Structural)]
pub enum IssuerState {
    PendingCreate,
    PendingClaim,
    Claimed,
    Approved,
    Completed,
    Cancelled,
    Expired,
}

/// Claimer side of a pairing: the new device that receives the key.
#[derive(Debug, Clone, Copy, PartialEq, Eq, Structural)]
pub enum ClaimerState {
    PendingClaim,
    AwaitingKey,
    Confirmed,
    Cancelled,
    Expired,
}

/// What an issuer observes or does.
#[derive(Debug, Clone, Copy, PartialEq, Eq, Structural)]
pub enum IssuerEvent {
    /// The session was created with the code hash and ephemeral key.
    Created,
    /// Polling shows that a device claimed the code.
    ClaimSeen,
    /// The user confirmed the short authentication string.
    SasConfirmed,
    /// The key bundle was posted.
    KeyBundlePosted,
    Cancel,
    /// Polling shows the session expired.
    ExpirySeen,
}

/// What a claimer observes or does.
#[derive(Debug, Clone, Copy, PartialEq, Eq, Structural)]
pub enum ClaimerEvent {
    /// The code was accepted by the relay.
    Claimed,
    /// The key bundle decrypted, its signature verified and the pairing was
    /// confirmed.
    BundleVerified,
    Cancel,
    ExpirySeen,
}

pub open spec fn issuer_terminal(s: IssuerState) -> bool {
    s == IssuerState::Completed || s == IssuerState::Cancelled || s == IssuerState::Expired
}

pub open spec fn claimer_terminal(s: ClaimerState) -> bool {
    s == ClaimerState::Confirmed || s == ClaimerState::Cancelled || s == ClaimerState::Expired
}

/// Issuer transitions: each step moves forward by one stage; cancellation
/// and expiry end any open session; an event that does not fit changes
/// nothing; a finished session stays finished.
pub open spec fn spec_issuer_next(s: IssuerState, e: IssuerEvent) -> IssuerState {
    if issuer_terminal(s) {
        s
    } else {
        match e {
            IssuerEvent::Cancel => IssuerState::Cancelled,
            IssuerEvent::ExpirySeen => IssuerState::Expired,
            IssuerEvent::Created => if s == IssuerState::PendingCreate { IssuerState::PendingClaim } else { s },
            IssuerEvent::ClaimSeen => if s == IssuerState::PendingClaim { IssuerState::Claimed } else { s },
            IssuerEvent::SasConfirmed => if s == IssuerState::Claimed { IssuerState::Approved } else { s },
            IssuerEvent::KeyBundlePosted => if s == IssuerState::Approved { IssuerState::Completed } else { s },
        }
    }
}

pub fn issuer_next(s: IssuerState, e: IssuerEvent) -> (r: IssuerState)
    ensures
        r == spec_issuer_next(s, e),
        r == IssuerState::Completed ==> s == IssuerState::Completed || s == IssuerState::Approved,
{
    if s == IssuerState::Completed || s == IssuerState::Cancelled || s == IssuerState::Expired {
        return s;
    }
    match e {
        IssuerEvent::Cancel => IssuerState::Cancelled,
        IssuerEvent::ExpirySeen => IssuerState::Expired,
        IssuerEvent::Created => if s == IssuerState::PendingCreate { IssuerState::PendingClaim } else { s },
        IssuerEvent::ClaimSeen => if s == IssuerState::PendingClaim { IssuerState::Claimed } else { s },
        IssuerEvent::SasConfirmed => if s == IssuerState::Claimed { IssuerState::Approved } else { s },
        IssuerEvent::KeyBundlePosted => if s == IssuerState::Approved { IssuerState::Completed } else { s },
    }
}

/// Whether the issuer may post the key bundle: only after the user approved
/// the short authentication string of a claimed session.
pub fn issuer_may_send_key(s: IssuerState) -> (r: bool)
    ensures
        r == (s == IssuerState::Approved),
{
    s == IssuerState::Approved
}

pub open spec fn spec_claimer_next(s: ClaimerState, e: ClaimerEvent) -> ClaimerState {
    if claimer_terminal(s) {
        s
    } else {
        match e {
            ClaimerEvent::Cancel => ClaimerState::Cancelled,
            ClaimerEvent::ExpirySeen => ClaimerState::Expired,
            ClaimerEvent::Claimed => if s == ClaimerState::PendingClaim { ClaimerState::AwaitingKey } else { s },
            ClaimerEvent::BundleVerified => if s == ClaimerState::AwaitingKey { ClaimerState::Confirmed } else { s },
        }
    }
}

pub fn claimer_next(s: ClaimerState, e: ClaimerEvent) -> (r: ClaimerState)
    ensures
        r == spec_claimer_next(s, e),
        r == ClaimerState::Confirmed ==> s == ClaimerState::Confirmed || s == ClaimerState::AwaitingKey,
{
    if s == ClaimerState::Confirmed || s == ClaimerState::Cancelled || s == ClaimerState::Expired {
        return s;
    }
    match e {
        ClaimerEvent::Cancel => ClaimerState::Cancelled,
        ClaimerEvent::ExpirySeen => ClaimerState::Expired,
        ClaimerEvent::Claimed => if s == ClaimerState::PendingClaim { ClaimerState::AwaitingKey } else { s },
        ClaimerEvent::BundleVerified => if s == ClaimerState::AwaitingKey { ClaimerState::Confirmed } else { s },
    }
}

/// Runs an issuer through a series of events.
pub open spec fn issuer_run(s: IssuerState, es: Seq<IssuerEvent>) -> IssuerState
    decreases es.len(),
{
    if es.len() == 0 {
        s
    } else {
        spec_issuer_next(issuer_run(s, es.drop_last()), es.last())
    }
}

/// A finished pairing stays finished whatever events follow.
pub proof fn lemma_issuer_terminal_absorbing(s: IssuerState, es: Seq<IssuerEvent>)
    requires
        issuer_terminal(s),
    ensures
        issuer_run(s, es) == s,
    decreases es.len(),
{
    if es.len() > 0 {
        lemma_issuer_terminal_absorbing(s, es.drop_last());
    }
}

} // verus!
