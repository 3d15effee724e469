use vstd::prelude::*;

verus! {

#[verifier::external_type_specification]
#[verifier::external_body]
#[verifier::reject_recursive_types(T)]
pub struct ExSender<T>(tokio::sync::mpsc::Sender<T>);

/// Relies on `tokio::sync::mpsc::channel`: creates a fresh one-shot-capacity
/// channel. The receiving half is dropped at once; the sender is kept only so
/// that a close request can signal the session's pump on a best-effort basis.
#[verifier::external_body]
pub fn new_shutdown_sender() -> tokio::sync::mpsc::Sender<()> {
    let (tx, _rx) = tokio::sync::mpsc::channel(1);
    tx
}

/// Relies on `tokio::sync::mpsc::Sender::try_send`: delivers the cancellation
/// signal without blocking. A failed delivery (no receiver, or a full buffer)
/// is deliberately ignored, so nothing is promised of the outcome.
#[verifier::external_body]
pub fn signal_shutdown(tx: &tokio::sync::mpsc::Sender<()>) {
    let _ = tx.try_send(());
}

} // verus!
