//! The addresses of a reply e-mail, parsed as mailboxes by lettre before the
//! message is built and sent.

use vstd::prelude::*;

use crate::channels::email_fetch::ReplyPlan;
use crate::channels::error::ChannelError;
use crate::text::concat_str;

verus! {

/// A mailbox of lettre: an address with an optional display name.
#[verifier::external_type_specification]
#[verifier::external_body]
pub struct ExMailbox(lettre::message::Mailbox);

/// What parsing `s` as a lettre mailbox gives: the mailbox, or the error's
/// display text.
pub uninterp spec fn parsed_mailbox(s: Seq<char>) -> Result<lettre::message::Mailbox, Seq<char>>;

/// `s.parse::<lettre::message::Mailbox>()`, with the error as its display text.
/// The parse depends on the text alone (lettre's address grammar, then its
/// checks of the user and domain parts); its outcome is named by `parsed_mailbox`.
#[verifier::external_body]
fn parse_mailbox(s: &str) -> (r: Result<lettre::message::Mailbox, String>)
    ensures
        match r {
            Ok(m) => parsed_mailbox(s@) == Ok::<lettre::message::Mailbox, Seq<char>>(m),
            Err(e) => parsed_mailbox(s@) == Err::<lettre::message::Mailbox, Seq<char>>(e@),
        },
{
    match s.parse::<lettre::message::Mailbox>() {
        Ok(m) => Ok(m),
        Err(e) => Err(e.to_string()),
    }
}

/// The outcome of parsing a reply's sender and recipient: a failed sender gives
/// `SendFailed("invalid from address: …")`, else a failed recipient gives
/// `SendFailed("invalid to address: …")`, else both mailboxes.
pub fn mailbox_outcome(
    from: Result<lettre::message::Mailbox, String>,
    to: Result<lettre::message::Mailbox, String>,
) -> (r: Result<(lettre::message::Mailbox, lettre::message::Mailbox), ChannelError>)
    ensures
        match from {
            Err(e) => r matches Err(ChannelError::SendFailed(m)) && m@ == "invalid from address: "@ + e@,
            Ok(f) => match to {
                Err(e) => r matches Err(ChannelError::SendFailed(m)) && m@ == "invalid to address: "@ + e@,
                Ok(t) => r == Ok::<(lettre::message::Mailbox, lettre::message::Mailbox), ChannelError>((f, t)),
            },
        },
{
    proof {
        reveal_strlit("invalid from address: ");
        reveal_strlit("invalid to address: ");
    }
    match from {
        Err(e) => Err(ChannelError::SendFailed(concat_str("invalid from address: ", e.as_str()))),
        Ok(f) => match to {
            Err(e) => Err(ChannelError::SendFailed(concat_str("invalid to address: ", e.as_str()))),
            Ok(t) => Ok((f, t)),
        },
    }
}

/// The sender and recipient mailboxes of a reply: the sender is parsed first, and
/// the first that fails to parse gives `SendFailed` with its error text (see
/// `mailbox_outcome`).
pub fn reply_mailboxes(plan: &ReplyPlan) -> (r: Result<(lettre::message::Mailbox, lettre::message::Mailbox), ChannelError>)
    ensures
        match parsed_mailbox(plan.from@) {
            Err(e) => r matches Err(ChannelError::SendFailed(m)) && m@ == "invalid from address: "@ + e,
            Ok(f) => match parsed_mailbox(plan.to@) {
                Err(e) => r matches Err(ChannelError::SendFailed(m)) && m@ == "invalid to address: "@ + e,
                Ok(t) => r == Ok::<(lettre::message::Mailbox, lettre::message::Mailbox), ChannelError>((f, t)),
            },
        },
{
    let from = parse_mailbox(plan.from.as_str());
    let to = parse_mailbox(plan.to.as_str());
    mailbox_outcome(from, to)
}

} // verus!
