//! The peer's certificate once the handshake has produced it.
use vstd::prelude::*;

use crate::error::Error;

verus! {

/// The certificate chain or raw public key the peer authenticated with.
#[derive(Debug, Clone, PartialEq, Eq)]
pub enum PeerCert {
    /// The peer presented none, which is allowed when client auth is not required.
    NoCert,
    CertOrPublicKey(Vec<u8>),
}

/// The peer's certificate: unknown until the handshake yields it or the
/// connection fails.
#[derive(Debug, Clone)]
pub struct ArcPeerCerts {
    outcome: Option<Result<PeerCert, Error>>,
}

impl ArcPeerCerts {
    /// What is known so far: nothing, the certificate, or the connection's error.
    pub closed spec fn spec_outcome(&self) -> Option<Result<PeerCert, Error>> {
        self.outcome
    }

    /// Nothing known yet.
    pub fn new() -> (r: Self)
        ensures
            r.spec_outcome() is None,
    {
        ArcPeerCerts { outcome: None }
    }

    /// The handshake yielded the peer's certificate.
    pub fn assign(&mut self, cert: PeerCert)
        ensures
            final(self).spec_outcome() == Some(Ok::<PeerCert, Error>(cert)),
    {
        self.outcome = Some(Ok(cert));
    }

    /// The handshake finished without a certificate from the peer.
    pub fn no_certs(&mut self)
        ensures
            final(self).spec_outcome() == Some(Ok::<PeerCert, Error>(PeerCert::NoCert)),
    {
        self.outcome = Some(Ok(PeerCert::NoCert));
    }

    /// Whether the outcome is known.
    pub fn is_ready(&self) -> (r: bool)
        ensures
            r == self.spec_outcome() is Some,
    {
        self.outcome.is_some()
    }

    /// The outcome, if known.
    pub fn get(&self) -> (r: &Option<Result<PeerCert, Error>>)
        ensures
            *r == self.spec_outcome(),
    {
        &self.outcome
    }

    /// The connection failed: the error becomes the outcome.
    pub fn on_conn_error(&mut self, error: &Error)
        ensures
            final(self).spec_outcome() == Some(Err::<PeerCert, Error>(*error)),
    {
        self.outcome = Some(Err(*error));
    }
}

} // verus!
