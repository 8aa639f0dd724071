use vstd::prelude::*;

verus! {

/// `std::sync::mpsc::Sender`, carried opaquely.
#[verifier::external_type_specification]
#[verifier::external_body]
#[verifier::reject_recursive_types(T)]
pub struct ExSender<T>(std::sync::mpsc::Sender<T>);

/// `std::sync::mpsc::SyncSender`, carried opaquely.
#[verifier::external_type_specification]
#[verifier::external_body]
#[verifier::reject_recursive_types(T)]
pub struct ExSyncSender<T>(std::sync::mpsc::SyncSender<T>);

/// `std::sync::mpsc::Receiver`, carried opaquely.
#[verifier::external_type_specification]
#[verifier::external_body]
#[verifier::reject_recursive_types(T)]
pub struct ExReceiver<T>(std::sync::mpsc::Receiver<T>);

/// Hands `value` to the worker behind `tx` with `Sender::send`; true when it was
/// delivered, false when the receiving side is gone. Which of the two happens
/// depends on the other thread, so nothing is promised of the result.
#[verifier::external_body]
pub(crate) fn send_to_worker<T>(tx: &std::sync::mpsc::Sender<T>, value: T) -> bool {
    tx.send(value).is_ok()
}

/// Offers `value` to a bounded queue with `SyncSender::try_send`; true when it was
/// queued, false when the queue was full or its receiver gone. Both depend on
/// the other thread, so nothing is promised of the result.
#[verifier::external_body]
pub(crate) fn offer_to_worker<T>(tx: &std::sync::mpsc::SyncSender<T>, value: T) -> bool {
    tx.try_send(value).is_ok()
}

/// Every message already waiting behind `rx`, in arrival order, taken with
/// `Receiver::try_iter` without blocking. What has arrived depends on the other
/// thread, so nothing is promised of the result.
#[verifier::external_body]
pub(crate) fn take_ready<T>(rx: &std::sync::mpsc::Receiver<T>) -> Vec<T> {
    rx.try_iter().collect()
}

} // verus!
