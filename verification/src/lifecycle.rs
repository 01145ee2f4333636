//! The lifecycle controller: at most one streaming server instance runs at a
//! time. It owns the single optional shutdown-signal slot; installing a new
//! signal first fires any stored one, and stopping fires and clears it.
//!
//! Binding the listener and running the HTTP loop happen outside the
//! library; they hand the new instance's shutdown sender in and take the
//! chosen port's URL back.

use vstd::prelude::*;

use crate::digits::{
    all_ascii, ascii_chars, ascii_to_string, dec_digits_of, lemma_all_ascii_concat,
    lemma_dec_digits_all_ascii, u64_to_dec,
};

verus! {

#[verifier::external_type_specification]
#[verifier::external_body]
#[verifier::reject_recursive_types(T)]
pub struct ExOneshotSender<T>(tokio::sync::oneshot::Sender<T>);

/// Relies on tokio's `oneshot::Sender::send`: consumes the sender and
/// delivers the unit signal if the receiver still listens; the outcome is
/// deliberately ignored, as a server that already exited needs no signal.
#[verifier::external_body]
fn fire_shutdown(tx: tokio::sync::oneshot::Sender<()>) {
    let _ = tx.send(());
}

/// The one shutdown-signal slot of the process. Holding the sender here is
/// what "a server is running" means to the controller; the slot never holds
/// more than one, so at most one instance is live.
pub struct ServerState {
    /// Shutdown sender of the currently running server, if any.
    pub shutdown_tx: Option<tokio::sync::oneshot::Sender<()>>,
}

impl ServerState {
    /// Whether a server instance is currently considered running.
    pub open spec fn is_running(&self) -> bool {
        self.shutdown_tx is Some
    }

    /// A fresh controller with no server running.
    pub fn new() -> (st: ServerState)
        ensures
            !st.is_running(),
    {
        ServerState { shutdown_tx: None }
    }

    /// Installs the shutdown sender of a newly started server, firing the
    /// previous server's signal first if one was running; returns whether
    /// one was superseded.
    pub fn install(&mut self, tx: tokio::sync::oneshot::Sender<()>) -> (superseded: bool)
        ensures
            final(self).shutdown_tx == Some(tx),
            final(self).is_running(),
            superseded == old(self).is_running(),
    {
        let mut slot: Option<tokio::sync::oneshot::Sender<()>> = Some(tx);
        core::mem::swap(&mut self.shutdown_tx, &mut slot);
        match slot {
            Some(old_tx) => {
                fire_shutdown(old_tx);
                true
            },
            None => false,
        }
    }

    /// Fires and clears the stored shutdown signal; a stop with nothing
    /// running is a no-op success, reported as such.
    pub fn stop(&mut self) -> (msg: String)
        ensures
            !final(self).is_running(),
            old(self).is_running() ==> msg@ == "Server stopped"@,
            !old(self).is_running() ==> msg@ == "No server running"@,
    {
        let mut slot: Option<tokio::sync::oneshot::Sender<()>> = None;
        core::mem::swap(&mut self.shutdown_tx, &mut slot);
        match slot {
            Some(tx) => {
                fire_shutdown(tx);
                String::from_str("Server stopped")
            },
            None => String::from_str("No server running"),
        }
    }
}

/// The URL a started server is reached at:
/// `http://127.0.0.1:<port>/video`, the port in decimal.
pub open spec fn stream_url_bytes(port: nat) -> Seq<u8> {
    seq![
        104u8, 116u8, 116u8, 112u8, 58u8, 47u8, 47u8, 49u8, 50u8, 55u8, 46u8, 48u8, 46u8,
        48u8, 46u8, 49u8, 58u8,
    ] + dec_digits_of(port) + seq![47u8, 118u8, 105u8, 100u8, 101u8, 111u8]
}

/// Builds the URL of a server listening on `port`:
/// `http://127.0.0.1:<port>/video`.
pub fn stream_url(port: u16) -> (r: String)
    ensures
        r@ == ascii_chars(stream_url_bytes(port as nat)),
{
    let mut out: Vec<u8> = Vec::new();
    out.push(104);
    out.push(116);
    out.push(116);
    out.push(112);
    out.push(58);
    out.push(47);
    out.push(47);
    out.push(49);
    out.push(50);
    out.push(55);
    out.push(46);
    out.push(48);
    out.push(46);
    out.push(48);
    out.push(46);
    out.push(49);
    out.push(58);
    let ghost prefix = out@;
    let mut d = u64_to_dec(port as u64);
    out.append(&mut d);
    let mut suffix: Vec<u8> = Vec::new();
    suffix.push(47);
    suffix.push(118);
    suffix.push(105);
    suffix.push(100);
    suffix.push(101);
    suffix.push(111);
    let ghost tail = suffix@;
    out.append(&mut suffix);
    proof {
        assert(prefix =~= seq![
            104u8, 116u8, 116u8, 112u8, 58u8, 47u8, 47u8, 49u8, 50u8, 55u8, 46u8, 48u8,
            46u8, 48u8, 46u8, 49u8, 58u8,
        ]);
        assert(tail =~= seq![47u8, 118u8, 105u8, 100u8, 101u8, 111u8]);
        assert(out@ =~= stream_url_bytes(port as nat));
        lemma_dec_digits_all_ascii(port as nat);
        assert(all_ascii(prefix));
        assert(all_ascii(tail));
        lemma_all_ascii_concat(prefix, dec_digits_of(port as nat));
        lemma_all_ascii_concat(prefix + dec_digits_of(port as nat), tail);
        assert(all_ascii(out@));
    }
    ascii_to_string(out)
}

} // verus!
