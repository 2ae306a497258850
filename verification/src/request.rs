//! One relay request: what an email asks for, and the identifier under
//! which its proof artifacts are found.

use crate::email::{field_value, header_field, text_view};
use vstd::prelude::*;
use vstd::string::StringExecFns;

verus! {

/// The header fields of an email that a request is made of. A field that
/// the email lacks is `None`.
#[derive(Debug, PartialEq, Eq)]
pub struct ParsedEmail {
    pub subject: Option<String>,
    pub sender: Option<String>,
    pub salt_sender: Option<String>,
    pub salt_receiver: Option<String>,
}

pub struct ParsedEmailView {
    pub subject: Option<Seq<char>>,
    pub sender: Option<Seq<char>>,
    pub salt_sender: Option<Seq<char>>,
    pub salt_receiver: Option<Seq<char>>,
}

impl View for ParsedEmail {
    type V = ParsedEmailView;

    open spec fn view(&self) -> ParsedEmailView {
        ParsedEmailView {
            subject: text_view(self.subject),
            sender: text_view(self.sender),
            salt_sender: text_view(self.salt_sender),
            salt_receiver: text_view(self.salt_receiver),
        }
    }
}

/// The fields of a raw email that a request is made of: `Subject`, `From`,
/// and the two salts, which travel in `Salt-Sender` and `Salt-Receiver`.
pub open spec fn email_fields(raw: Seq<char>) -> ParsedEmailView {
    ParsedEmailView {
        subject: field_value(raw, "subject"@),
        sender: field_value(raw, "from"@),
        salt_sender: field_value(raw, "salt-sender"@),
        salt_receiver: field_value(raw, "salt-receiver"@),
    }
}

/// Extracts the fields of a raw email. Nothing is judged here: a missing
/// field is reported as missing.
pub fn parse_email(raw: &str) -> (r: ParsedEmail)
    ensures
        r@ == email_fields(raw@),
{
    ParsedEmail {
        subject: header_field(raw, "subject"),
        sender: header_field(raw, "from"),
        salt_sender: header_field(raw, "salt-sender"),
        salt_receiver: header_field(raw, "salt-receiver"),
    }
}

/// A request as derived from one email.
#[derive(Debug, PartialEq, Eq)]
pub struct RelayRequest {
    pub subject: String,
    pub sender: String,
    pub recipient_address: String,
    pub amount: String,
    pub token_symbol: String,
    pub salt_sender: String,
    pub salt_receiver: String,
    pub file_id: String,
}

pub struct RequestView {
    pub subject: Seq<char>,
    pub sender: Seq<char>,
    pub recipient_address: Seq<char>,
    pub amount: Seq<char>,
    pub token_symbol: Seq<char>,
    pub salt_sender: Seq<char>,
    pub salt_receiver: Seq<char>,
    pub file_id: Seq<char>,
}

impl View for RelayRequest {
    type V = RequestView;

    open spec fn view(&self) -> RequestView {
        RequestView {
            subject: self.subject@,
            sender: self.sender@,
            recipient_address: self.recipient_address@,
            amount: self.amount@,
            token_symbol: self.token_symbol@,
            salt_sender: self.salt_sender@,
            salt_receiver: self.salt_receiver@,
            file_id: self.file_id@,
        }
    }
}

/// The identifier of a request: the two salts with `_` between them.
pub open spec fn file_id_of(salt_sender: Seq<char>, salt_receiver: Seq<char>) -> Seq<char> {
    salt_sender + seq!['_'] + salt_receiver
}

impl RequestView {
    /// The identifier is the one that the salts give.
    pub open spec fn wf(self) -> bool {
        self.file_id == file_id_of(self.salt_sender, self.salt_receiver)
    }
}

impl RelayRequest {
    pub open spec fn wf(&self) -> bool {
        self@.wf()
    }
}

/// The identifier of the request with these salts.
pub fn file_id(salt_sender: &str, salt_receiver: &str) -> (r: String)
    ensures
        r@ == file_id_of(salt_sender@, salt_receiver@),
{
    let mut id = String::from_str(salt_sender);
    proof {
        reveal_strlit("_");
    }
    id.append("_");
    id.append(salt_receiver);
    assert("_"@ =~= seq!['_']);
    id
}

/// Equal salts give equal identifiers, and identifiers tell requests apart
/// that differ in one salt only: if two pairs of salts give one identifier
/// and agree in either salt, they agree in both.
pub proof fn law_file_id_follows_salts(
    sender_a: Seq<char>,
    receiver_a: Seq<char>,
    sender_b: Seq<char>,
    receiver_b: Seq<char>,
)
    ensures
        sender_a == sender_b && receiver_a == receiver_b ==> file_id_of(sender_a, receiver_a)
            == file_id_of(sender_b, receiver_b),
        file_id_of(sender_a, receiver_a) == file_id_of(sender_b, receiver_b) && (sender_a
            == sender_b || receiver_a == receiver_b) ==> sender_a == sender_b && receiver_a
            == receiver_b,
{
    let a = file_id_of(sender_a, receiver_a);
    let b = file_id_of(sender_b, receiver_b);
    if a == b && (sender_a == sender_b || receiver_a == receiver_b) {
        assert(a.len() == sender_a.len() + 1 + receiver_a.len());
        assert(b.len() == sender_b.len() + 1 + receiver_b.len());
        if sender_a == sender_b {
            assert(receiver_a.len() == receiver_b.len());
        } else {
            assert(sender_a.len() == sender_b.len());
        }
        assert(sender_a =~= a.take(sender_a.len() as int));
        assert(sender_b =~= b.take(sender_b.len() as int));
        assert(receiver_a =~= a.skip(sender_a.len() as int + 1));
        assert(receiver_b =~= b.skip(sender_b.len() as int + 1));
    }
}

/// Among salts that hold no `_`, the identifier tells every two pairs
/// apart.
pub proof fn law_file_id_injective_without_separator(
    sender_a: Seq<char>,
    receiver_a: Seq<char>,
    sender_b: Seq<char>,
    receiver_b: Seq<char>,
)
    requires
        !sender_a.contains('_'),
        !sender_b.contains('_'),
        file_id_of(sender_a, receiver_a) == file_id_of(sender_b, receiver_b),
    ensures
        sender_a == sender_b,
        receiver_a == receiver_b,
{
    let a = file_id_of(sender_a, receiver_a);
    let b = file_id_of(sender_b, receiver_b);
    let m = sender_a.len() as int;
    let n = sender_b.len() as int;
    assert(a[m] == '_');
    assert(b[n] == '_');
    if m < n {
        assert(b[m] == sender_b[m]);
        assert(sender_b.contains(sender_b[m]));
    } else if n < m {
        assert(a[n] == sender_a[n]);
        assert(sender_a.contains(sender_a[n]));
    }
    law_file_id_follows_salts(sender_a, receiver_a, sender_b, receiver_b);
    assert(sender_a =~= a.take(m));
    assert(sender_b =~= b.take(n));
}

} // verus!
