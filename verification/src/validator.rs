//! Classifying a request: ready to be relayed, waiting for funds, or
//! refused.

use crate::field::{parse_decimal, Field};
use crate::intent::{parse_subject, stated_intent};
use crate::email::text_view;
use crate::request::{file_id, file_id_of, ParsedEmail, ParsedEmailView, RelayRequest, RequestView};
use vstd::prelude::*;
use vstd::string::StringExecFns;

verus! {

/// Why a request is refused.
#[derive(Clone, Copy, Debug, PartialEq, Eq, Structural)]
pub enum FailureReason {
    /// The email has no `Subject` field.
    MissingSubject,
    /// The email has no `From` field.
    MissingSender,
    /// The subject states no transfer.
    GrammarMismatch,
    /// A salt is missing or empty.
    MissingSalts,
    /// The balance of the funding address could not be queried.
    BalanceQueryFailed,
}

pub open spec fn reason_text(reason: FailureReason) -> Seq<char> {
    match reason {
        FailureReason::MissingSubject => "missing subject"@,
        FailureReason::MissingSender => "missing sender"@,
        FailureReason::GrammarMismatch => "subject does not match transfer grammar"@,
        FailureReason::MissingSalts => "missing salts"@,
        FailureReason::BalanceQueryFailed => "balance query failed"@,
    }
}

impl FailureReason {
    /// The reason in words.
    pub fn message(&self) -> (r: String)
        ensures
            r@ == reason_text(*self),
    {
        match self {
            FailureReason::MissingSubject => String::from_str("missing subject"),
            FailureReason::MissingSender => String::from_str("missing sender"),
            FailureReason::GrammarMismatch => String::from_str(
                "subject does not match transfer grammar",
            ),
            FailureReason::MissingSalts => String::from_str("missing salts"),
            FailureReason::BalanceQueryFailed => String::from_str("balance query failed"),
        }
    }
}

/// The funds that an address must hold before a request goes on.
#[derive(Debug, PartialEq, Eq)]
pub struct BalanceRequirement {
    pub address: String,
    pub amount: String,
    pub token_symbol: String,
}

pub struct RequirementView {
    pub address: Seq<char>,
    pub amount: Seq<char>,
    pub token_symbol: Seq<char>,
}

impl View for BalanceRequirement {
    type V = RequirementView;

    open spec fn view(&self) -> RequirementView {
        RequirementView {
            address: self.address@,
            amount: self.amount@,
            token_symbol: self.token_symbol@,
        }
    }
}

/// What one query of a balance gave.
#[derive(Clone, Copy, Debug, PartialEq, Eq)]
pub enum BalanceReading {
    Balance(Field),
    Unavailable,
}

pub enum ReadingView {
    Balance(nat),
    Unavailable,
}

impl View for BalanceReading {
    type V = ReadingView;

    open spec fn view(&self) -> ReadingView {
        match self {
            BalanceReading::Balance(b) => ReadingView::Balance(b@),
            BalanceReading::Unavailable => ReadingView::Unavailable,
        }
    }
}

/// The class of a request. A request is classified once.
#[derive(Debug, PartialEq, Eq)]
pub enum ValidationOutcome {
    Ready,
    Pending(BalanceRequirement),
    Failure(FailureReason),
}

pub enum OutcomeView {
    Ready,
    Pending(RequirementView),
    Failure(FailureReason),
}

impl View for ValidationOutcome {
    type V = OutcomeView;

    open spec fn view(&self) -> OutcomeView {
        match self {
            ValidationOutcome::Ready => OutcomeView::Ready,
            ValidationOutcome::Pending(requirement) => OutcomeView::Pending(requirement@),
            ValidationOutcome::Failure(reason) => OutcomeView::Failure(*reason),
        }
    }
}

/// The request that the fields of an email make, or the reason why they
/// make none. The checks come in this order: subject, sender, the grammar
/// of the subject, the salts.
pub open spec fn validated(email: ParsedEmailView) -> Result<RequestView, FailureReason> {
    if email.subject is None {
        Err(FailureReason::MissingSubject)
    } else if email.sender is None {
        Err(FailureReason::MissingSender)
    } else if stated_intent(email.subject->0) is None {
        Err(FailureReason::GrammarMismatch)
    } else if email.salt_sender is None || email.salt_receiver is None || email.salt_sender->0.len()
        == 0 || email.salt_receiver->0.len() == 0 {
        Err(FailureReason::MissingSalts)
    } else {
        let intent = stated_intent(email.subject->0)->0;
        Ok(
            RequestView {
                subject: email.subject->0,
                sender: email.sender->0,
                recipient_address: intent.recipient,
                amount: intent.amount,
                token_symbol: intent.token,
                salt_sender: email.salt_sender->0,
                salt_receiver: email.salt_receiver->0,
                file_id: file_id_of(email.salt_sender->0, email.salt_receiver->0),
            },
        )
    }
}

pub open spec fn request_result_view(r: Result<RelayRequest, FailureReason>) -> Result<
    RequestView,
    FailureReason,
> {
    match r {
        Ok(request) => Ok(request@),
        Err(reason) => Err(reason),
    }
}

/// Makes the request out of the fields of an email, or says why there is
/// none.
pub fn validate(email: ParsedEmail) -> (r: Result<RelayRequest, FailureReason>)
    ensures
        request_result_view(r) == validated(email@),
        r matches Ok(request) ==> request.wf(),
{
    let ParsedEmail { subject, sender, salt_sender, salt_receiver } = email;
    let subject = match subject {
        Some(s) => s,
        None => { return Err(FailureReason::MissingSubject); },
    };
    let sender = match sender {
        Some(s) => s,
        None => { return Err(FailureReason::MissingSender); },
    };
    let intent = match parse_subject(subject.as_str()) {
        Some(i) => i,
        None => { return Err(FailureReason::GrammarMismatch); },
    };
    let salt_sender = match salt_sender {
        Some(s) => s,
        None => { return Err(FailureReason::MissingSalts); },
    };
    let salt_receiver = match salt_receiver {
        Some(s) => s,
        None => { return Err(FailureReason::MissingSalts); },
    };
    if salt_sender.as_str().is_empty() || salt_receiver.as_str().is_empty() {
        return Err(FailureReason::MissingSalts);
    }
    let id = file_id(salt_sender.as_str(), salt_receiver.as_str());
    Ok(
        RelayRequest {
            subject,
            sender,
            recipient_address: intent.recipient,
            amount: intent.amount,
            token_symbol: intent.token,
            salt_sender,
            salt_receiver,
            file_id: id,
        },
    )
}

/// A balance covers an amount when the amount is the decimal notation of a
/// number that the balance is not below. An amount that is no such
/// notation is covered by no balance.
pub open spec fn covers(balance: nat, amount: Seq<char>) -> bool {
    parse_decimal(amount) matches Ok(needed) && balance >= needed
}

/// Whether `balance` covers `amount`.
pub fn balance_covers(balance: &Field, amount: &str) -> (r: bool)
    ensures
        r == covers(balance@, amount@),
{
    match Field::from_dec_str(amount) {
        Ok(needed) => balance.ge(&needed),
        Err(_) => false,
    }
}

/// The class of a request, given what the one query of the funding
/// address gave: a failed query refuses the request, a balance that covers
/// the amount makes it ready, any other balance makes it wait.
pub open spec fn classified(
    request: RequestView,
    funding_address: Seq<char>,
    reading: ReadingView,
) -> OutcomeView {
    match reading {
        ReadingView::Unavailable => OutcomeView::Failure(FailureReason::BalanceQueryFailed),
        ReadingView::Balance(balance) => if covers(balance, request.amount) {
            OutcomeView::Ready
        } else {
            OutcomeView::Pending(
                RequirementView {
                    address: funding_address,
                    amount: request.amount,
                    token_symbol: request.token_symbol,
                },
            )
        },
    }
}

/// Classifies a request by the balance of its funding address.
pub fn classify(request: &RelayRequest, funding_address: &str, reading: BalanceReading) -> (r:
    ValidationOutcome)
    ensures
        r@ == classified(request@, funding_address@, reading@),
{
    match reading {
        BalanceReading::Unavailable => ValidationOutcome::Failure(
            FailureReason::BalanceQueryFailed,
        ),
        BalanceReading::Balance(balance) => {
            if balance_covers(&balance, request.amount.as_str()) {
                ValidationOutcome::Ready
            } else {
                ValidationOutcome::Pending(
                    BalanceRequirement {
                        address: String::from_str(funding_address),
                        amount: request.amount.clone(),
                        token_symbol: request.token_symbol.clone(),
                    },
                )
            }
        },
    }
}

/// The subject of the request stated a transfer: every class but a refusal
/// for a missing field or for the grammar says so.
pub open spec fn grammar_matched(outcome: OutcomeView) -> bool {
    match outcome {
        OutcomeView::Ready => true,
        OutcomeView::Pending(_) => true,
        OutcomeView::Failure(reason) => reason is MissingSalts || reason is BalanceQueryFailed,
    }
}

/// The acknowledgement that goes to the sender as soon as the subject is
/// understood, whatever becomes of the request after that; `None` if the
/// subject was not understood.
pub fn acknowledgement(outcome: &ValidationOutcome) -> (r: Option<String>)
    ensures
        text_view(r) == if grammar_matched(outcome@) {
            Some("Send valid! Validating proof..."@)
        } else {
            None
        },
{
    let matched = match outcome {
        ValidationOutcome::Ready => true,
        ValidationOutcome::Pending(_) => true,
        ValidationOutcome::Failure(FailureReason::MissingSalts) => true,
        ValidationOutcome::Failure(FailureReason::BalanceQueryFailed) => true,
        ValidationOutcome::Failure(_) => false,
    };
    if matched {
        Some(String::from_str("Send valid! Validating proof..."))
    } else {
        None
    }
}

} // verus!
