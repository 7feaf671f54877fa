use vstd::prelude::*;

use crossbeam_channel::{Receiver, Sender};

verus! {

/// The sending half of a `crossbeam_channel` channel; Verus carries it through unread.
#[verifier::external_type_specification]
#[verifier::external_body]
#[verifier::reject_recursive_types(T)]
pub struct ExSender<T>(crossbeam_channel::Sender<T>);

/// The receiving half of a `crossbeam_channel` channel; Verus carries it through unread.
#[verifier::external_type_specification]
#[verifier::external_body]
#[verifier::reject_recursive_types(T)]
pub struct ExReceiver<T>(crossbeam_channel::Receiver<T>);

/// Calls `crossbeam_channel::unbounded`, which creates a channel without a capacity limit and
/// hands back its two halves. Nothing is claimed of the halves: how messages travel between
/// them is not stated here.
#[verifier::external_body]
pub(crate) fn unbounded_channel<T>() -> (halves: (Sender<T>, Receiver<T>)) {
    crossbeam_channel::unbounded()
}

/// `Clone` for `crossbeam_channel::Receiver`: another handle on the same channel; nothing is
/// claimed of it.
pub assume_specification<T>[ <crossbeam_channel::Receiver<T> as Clone>::clone ](
    r: &crossbeam_channel::Receiver<T>,
) -> crossbeam_channel::Receiver<T>;

/// `Clone` for `crossbeam_channel::Sender`: another handle on the same channel; nothing is
/// claimed of it.
pub assume_specification<T>[ <crossbeam_channel::Sender<T> as Clone>::clone ](
    s: &crossbeam_channel::Sender<T>,
) -> crossbeam_channel::Sender<T>;

} // verus!
