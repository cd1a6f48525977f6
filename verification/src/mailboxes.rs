//! Addresses of email messages.
use lettre::message::Mailbox;
use vstd::prelude::*;

verus! {

/// The text is the address of a mailbox, with or without a name before it.
pub uninterp spec fn mailbox_text(text: Seq<char>) -> bool;

/// Calls `str::parse` into a `lettre::message::Mailbox`. Whether the text is one depends on the
/// text alone.
#[verifier::external_body]
pub(crate) fn is_mailbox(text: &str) -> (result: bool)
    ensures
        result == mailbox_text(text@),
{
    text.parse::<Mailbox>().is_ok()
}

} // verus!
