//! The transfer a subject line asks for.
//!
//! A subject states a transfer when it reads
//! `send [$]<amount> <token> to <recipient>`: the verb in any mix of upper
//! and lower case, one blank between the parts, nothing before or after.

use crate::field::{all_digits, is_digit};
use crate::text::{chars_of, slice_of};
use vstd::prelude::*;

verus! {

/// What a subject asks for, each part as written.
#[derive(Debug, PartialEq, Eq)]
pub struct TransferIntent {
    pub amount: String,
    pub token: String,
    pub recipient: String,
}

pub struct IntentView {
    pub amount: Seq<char>,
    pub token: Seq<char>,
    pub recipient: Seq<char>,
}

impl View for TransferIntent {
    type V = IntentView;

    open spec fn view(&self) -> IntentView {
        IntentView { amount: self.amount@, token: self.token@, recipient: self.recipient@ }
    }
}

/// `send`, each letter in either case.
pub open spec fn is_verb(s: Seq<char>) -> bool {
    &&& s.len() == 4
    &&& (s[0] == 's' || s[0] == 'S')
    &&& (s[1] == 'e' || s[1] == 'E')
    &&& (s[2] == 'n' || s[2] == 'N')
    &&& (s[3] == 'd' || s[3] == 'D')
}

/// One or more digits, then a point and `fraction` digits if `fraction` is
/// not zero.
pub open spec fn is_amount_with(s: Seq<char>, fraction: int) -> bool {
    if fraction == 0 {
        s.len() >= 1 && all_digits(s)
    } else {
        &&& s.len() >= fraction + 2
        &&& all_digits(s.take(s.len() - fraction - 1))
        &&& s[s.len() - fraction - 1] == '.'
        &&& all_digits(s.skip(s.len() - fraction))
    }
}

/// A decimal number with at most two digits behind the point.
pub open spec fn is_amount(s: Seq<char>) -> bool {
    is_amount_with(s, 0) || is_amount_with(s, 1) || is_amount_with(s, 2)
}

/// The tokens that can be sent: `eth` and `usdc`.
pub open spec fn is_token(s: Seq<char>) -> bool {
    s == seq!['e', 't', 'h'] || s == seq!['u', 's', 'd', 'c']
}

pub open spec fn is_blank(c: char) -> bool {
    c == ' ' || c == '\t' || c == '\r' || c == '\n'
}

/// An address of the form `local@domain`: one `@`, something on both sides
/// of it, no blank anywhere.
pub open spec fn is_recipient(s: Seq<char>) -> bool {
    &&& forall|i: int| 0 <= i < s.len() ==> !is_blank(#[trigger] s[i])
    &&& exists|k: int|
        0 < k < s.len() - 1 && #[trigger] s[k] == '@' && forall|i: int|
            0 <= i < s.len() && #[trigger] s[i] == '@' ==> i == k
}

/// What follows the verb in a subject that states `intent`; `sigil` says
/// whether a `$` stands before the amount.
pub open spec fn request_text(sigil: bool, intent: IntentView) -> Seq<char> {
    seq![' '] + (if sigil {
        seq!['$']
    } else {
        Seq::<char>::empty()
    }) + intent.amount + seq![' '] + intent.token + seq![' ', 't', 'o', ' '] + intent.recipient
}

/// The subject states exactly this transfer.
pub open spec fn states(subject: Seq<char>, intent: IntentView) -> bool {
    &&& subject.len() >= 4
    &&& is_verb(subject.take(4))
    &&& (subject.skip(4) == request_text(true, intent) || subject.skip(4) == request_text(
        false,
        intent,
    ))
    &&& is_amount(intent.amount)
    &&& is_token(intent.token)
    &&& is_recipient(intent.recipient)
}

/// The transfer that a subject states, `None` if it states none.
pub open spec fn stated_intent(subject: Seq<char>) -> Option<IntentView> {
    if exists|intent: IntentView| states(subject, intent) {
        Some(choose|intent: IntentView| states(subject, intent))
    } else {
        None
    }
}

pub open spec fn intent_view(r: Option<TransferIntent>) -> Option<IntentView> {
    match r {
        Some(intent) => Some(intent@),
        None => None,
    }
}

/// The place of the first blank of `s` at or behind `from`, the length of
/// `s` if there is none.
spec fn next_space(s: Seq<char>, from: int) -> int
    decreases s.len() - from,
{
    if from >= s.len() {
        s.len() as int
    } else if s[from] == ' ' {
        from
    } else {
        next_space(s, from + 1)
    }
}

/// The transfer that a subject states, found by position.
spec fn stated(s: Seq<char>) -> Option<IntentView> {
    if s.len() < 6 || !is_verb(s.take(4)) || s[4] != ' ' {
        None
    } else {
        let a: int = if s[5] == '$' {
            6
        } else {
            5
        };
        let b = next_space(s, a);
        let c = next_space(s, b + 1);
        let intent = IntentView {
            amount: s.subrange(a, b),
            token: s.subrange(b + 1, c),
            recipient: s.skip(c + 4),
        };
        if b < s.len() && c + 4 <= s.len() && s[c + 1] == 't' && s[c + 2] == 'o' && s[c + 3] == ' '
            && is_amount(intent.amount) && is_token(intent.token) && is_recipient(
            intent.recipient,
        ) {
            Some(intent)
        } else {
            None
        }
    }
}

proof fn lemma_next_space_bounds(s: Seq<char>, from: int)
    requires
        0 <= from,
    ensures
        from <= next_space(s, from) || s.len() <= next_space(s, from),
        next_space(s, from) <= s.len() || next_space(s, from) == from,
        from <= s.len() ==> from <= next_space(s, from) <= s.len(),
        next_space(s, from) < s.len() ==> s[next_space(s, from)] == ' ',
        forall|k: int| from <= k < next_space(s, from) ==> s[k] != ' ',
    decreases s.len() - from,
{
    if from < s.len() && s[from] != ' ' {
        lemma_next_space_bounds(s, from + 1);
    }
}

proof fn lemma_next_space_is(s: Seq<char>, from: int, to: int)
    requires
        0 <= from <= to <= s.len(),
        forall|k: int| from <= k < to ==> s[k] != ' ',
        to < s.len() ==> s[to] == ' ',
    ensures
        next_space(s, from) == to,
    decreases to - from,
{
    if from < to {
        lemma_next_space_is(s, from + 1, to);
    }
}

proof fn lemma_amount_chars(s: Seq<char>)
    requires
        is_amount(s),
    ensures
        s.len() >= 1,
        is_digit(s[0]),
        forall|k: int| 0 <= k < s.len() ==> s[k] != ' ',
{
    assert forall|k: int| 0 <= k < s.len() implies s[k] != ' ' by {
        if is_amount_with(s, 0) {
            assert(is_digit(s[k]));
        } else {
            let f: int = if is_amount_with(s, 1) {
                1
            } else {
                2
            };
            let p = s.len() - f - 1;
            if k < p {
                assert(s.take(p)[k] == s[k]);
            } else if k > p {
                assert(s.skip(p + 1)[k - p - 1] == s[k]);
            }
        }
    }
    if !is_amount_with(s, 0) {
        let f: int = if is_amount_with(s, 1) {
            1
        } else {
            2
        };
        assert(s.take(s.len() - f - 1)[0] == s[0]);
    }
}

/// A subject that states a transfer has its parts where `stated` looks for
/// them.
proof fn lemma_states_stated(s: Seq<char>, intent: IntentView)
    requires
        states(s, intent),
    ensures
        stated(s) == Some(intent),
{
    let sigil = s.skip(4) == request_text(true, intent);
    let rest = request_text(sigil, intent);
    assert(s.skip(4) == rest);
    lemma_amount_chars(intent.amount);
    let a: int = if sigil {
        6
    } else {
        5
    };
    let b = a + intent.amount.len();
    let c = b + 1 + intent.token.len();
    assert(rest.len() == s.len() - 4);
    assert(s.len() == c + 4 + intent.recipient.len());
    assert forall|k: int| 4 <= k < s.len() implies s[k] == rest[k - 4] by {
        assert(s.skip(4)[k - 4] == s[k]);
    }
    assert(s[4] == ' ');
    assert(s[5] == rest[1]);
    if sigil {
        assert(s[5] == '$');
    } else {
        assert(rest[1] == intent.amount[0]);
        assert(s[5] != '$');
    }
    assert forall|k: int| a <= k < b implies s[k] != ' ' by {
        assert(s[k] == rest[k - 4]);
        assert(rest[k - 4] == intent.amount[k - a]);
    }
    assert(s[b] == rest[b - 4]);
    assert(s[b] == ' ');
    lemma_next_space_is(s, a, b);
    assert forall|k: int| b + 1 <= k < c implies s[k] != ' ' by {
        assert(s[k] == rest[k - 4]);
        assert(rest[k - 4] == intent.token[k - b - 1]);
    }
    assert(s[c] == rest[c - 4] && s[c + 1] == rest[c - 3] && s[c + 2] == rest[c - 2] && s[c + 3]
        == rest[c - 1]);
    assert(s[c] == ' ' && s[c + 1] == 't' && s[c + 2] == 'o' && s[c + 3] == ' ');
    lemma_next_space_is(s, b + 1, c);
    assert(s.subrange(a, b) =~= intent.amount) by {
        assert forall|k: int| 0 <= k < b - a implies s.subrange(a, b)[k] == intent.amount[k] by {
            assert(s[a + k] == rest[a + k - 4]);
        }
    }
    assert(s.subrange(b + 1, c) =~= intent.token) by {
        assert forall|k: int| 0 <= k < c - b - 1 implies s.subrange(b + 1, c)[k]
            == intent.token[k] by {
            assert(s[b + 1 + k] == rest[b + 1 + k - 4]);
        }
    }
    assert(s.skip(c + 4) =~= intent.recipient) by {
        assert forall|k: int| 0 <= k < intent.recipient.len() implies s.skip(c + 4)[k]
            == intent.recipient[k] by {
            assert(s[c + 4 + k] == rest[c + k]);
        }
    }
}

/// What `stated` finds is a transfer that the subject states.
proof fn lemma_stated_states(s: Seq<char>, intent: IntentView)
    requires
        stated(s) == Some(intent),
    ensures
        states(s, intent),
{
    let a: int = if s[5] == '$' {
        6
    } else {
        5
    };
    lemma_next_space_bounds(s, a);
    let b = next_space(s, a);
    lemma_next_space_bounds(s, b + 1);
    let c = next_space(s, b + 1);
    let sigil = s[5] == '$';
    let rest = request_text(sigil, intent);
    assert(rest.len() == s.len() - 4);
    assert(s.skip(4) =~= rest);
}

/// A subject states at most one transfer.
pub proof fn law_stated_transfer_unique(subject: Seq<char>, first: IntentView, second: IntentView)
    requires
        states(subject, first),
        states(subject, second),
    ensures
        first == second,
{
    lemma_states_stated(subject, first);
    lemma_states_stated(subject, second);
}

fn find_space(chars: &Vec<char>, from: usize) -> (r: usize)
    requires
        from <= chars.len(),
    ensures
        r == next_space(chars@, from as int),
        from <= r <= chars.len(),
{
    let mut i: usize = from;
    while i < chars.len() && chars[i] != ' '
        invariant
            from <= i <= chars.len(),
            next_space(chars@, from as int) == next_space(chars@, i as int),
        decreases chars.len() - i,
    {
        i += 1;
    }
    i
}

fn digit(c: char) -> (r: bool)
    ensures
        r == is_digit(c),
{
    '0' <= c && c <= '9'
}

fn blank(c: char) -> (r: bool)
    ensures
        r == is_blank(c),
{
    c == ' ' || c == '\t' || c == '\r' || c == '\n'
}

fn digits_between(chars: &Vec<char>, from: usize, to: usize) -> (r: bool)
    requires
        from <= to <= chars.len(),
    ensures
        r == all_digits(chars@.subrange(from as int, to as int)),
{
    let ghost part = chars@.subrange(from as int, to as int);
    let mut i: usize = from;
    while i < to
        invariant
            from <= i <= to <= chars.len(),
            part == chars@.subrange(from as int, to as int),
            forall|k: int| 0 <= k < i - from ==> is_digit(#[trigger] part[k]),
        decreases to - i,
    {
        if !digit(chars[i]) {
            assert(part[i - from] == chars@[i as int]);
            return false;
        }
        assert(part[i - from] == chars@[i as int]);
        i += 1;
    }
    true
}

fn amount_between(chars: &Vec<char>, from: usize, to: usize) -> (r: bool)
    requires
        from <= to <= chars.len(),
    ensures
        r == is_amount(chars@.subrange(from as int, to as int)),
{
    let ghost part = chars@.subrange(from as int, to as int);
    let n = to - from;
    if n >= 1 && digits_between(chars, from, to) {
        return true;
    }
    if n >= 3 && chars[to - 2] == '.' {
        assert(part[n - 2] == '.');
        assert(part.take(n - 2) =~= chars@.subrange(from as int, to - 2));
        assert(part.skip(n - 1) =~= chars@.subrange(to - 1, to as int));
        if digits_between(chars, from, to - 2) && digits_between(chars, to - 1, to) {
            return true;
        }
    }
    if n >= 4 && chars[to - 3] == '.' {
        assert(part[n - 3] == '.');
        assert(part.take(n - 3) =~= chars@.subrange(from as int, to - 3));
        assert(part.skip(n - 2) =~= chars@.subrange(to - 2, to as int));
        if digits_between(chars, from, to - 3) && digits_between(chars, to - 2, to) {
            return true;
        }
    }
    proof {
        if n >= 3 {
            assert(part[n - 2] == chars@[to - 2]);
        }
        if n >= 4 {
            assert(part[n - 3] == chars@[to - 3]);
        }
    }
    false
}

proof fn lemma_token_chars(s: Seq<char>)
    ensures
        is_token(s) <==> (s.len() == 3 && s[0] == 'e' && s[1] == 't' && s[2] == 'h') || (s.len() == 4
            && s[0] == 'u' && s[1] == 's' && s[2] == 'd' && s[3] == 'c'),
{
    let eth = seq!['e', 't', 'h'];
    let usdc = seq!['u', 's', 'd', 'c'];
    assert(eth.len() == 3 && eth[0] == 'e' && eth[1] == 't' && eth[2] == 'h');
    assert(usdc.len() == 4 && usdc[0] == 'u' && usdc[1] == 's' && usdc[2] == 'd' && usdc[3] == 'c');
    if s.len() == 3 && s[0] == 'e' && s[1] == 't' && s[2] == 'h' {
        assert(s =~= eth);
    }
    if s.len() == 4 && s[0] == 'u' && s[1] == 's' && s[2] == 'd' && s[3] == 'c' {
        assert(s =~= usdc);
    }
}

fn token_between(chars: &Vec<char>, from: usize, to: usize) -> (r: bool)
    requires
        from <= to <= chars.len(),
    ensures
        r == is_token(chars@.subrange(from as int, to as int)),
{
    let ghost part = chars@.subrange(from as int, to as int);
    let n = to - from;
    proof {
        lemma_token_chars(part);
    }
    if n == 3 {
        assert(part[0] == chars@[from as int] && part[1] == chars@[from + 1] && part[2]
            == chars@[from + 2]);
        chars[from] == 'e' && chars[from + 1] == 't' && chars[from + 2] == 'h'
    } else if n == 4 {
        assert(part[0] == chars@[from as int] && part[1] == chars@[from + 1] && part[2]
            == chars@[from + 2] && part[3] == chars@[from + 3]);
        chars[from] == 'u' && chars[from + 1] == 's' && chars[from + 2] == 'd' && chars[from + 3]
            == 'c'
    } else {
        false
    }
}

fn recipient_from(chars: &Vec<char>, from: usize) -> (r: bool)
    requires
        from <= chars.len(),
    ensures
        r == is_recipient(chars@.skip(from as int)),
{
    let ghost part = chars@.skip(from as int);
    let mut at: Option<usize> = None;
    let mut i: usize = from;
    while i < chars.len()
        invariant
            from <= i <= chars.len(),
            part == chars@.skip(from as int),
            forall|k: int| 0 <= k < i - from ==> !is_blank(#[trigger] part[k]),
            match at {
                Some(p) => from <= p < i && part[p - from] == '@' && forall|k: int|
                    0 <= k < i - from && #[trigger] part[k] == '@' ==> k == p - from,
                None => forall|k: int| 0 <= k < i - from ==> #[trigger] part[k] != '@',
            },
        decreases chars.len() - i,
    {
        let c = chars[i];
        assert(part[i - from] == c);
        if blank(c) {
            return false;
        }
        if c == '@' {
            match at {
                Some(p) => {
                    assert(part[p - from] == '@' && part[i - from] == '@');
                    return false;
                },
                None => {
                    at = Some(i);
                },
            }
        }
        i += 1;
    }
    match at {
        Some(p) => {
            let r = from < p && p + 1 < chars.len();
            proof {
                if r {
                    assert(0 < p - from < part.len() - 1 && part[p - from] == '@');
                }
            }
            r
        },
        None => false,
    }
}

fn verb_at_start(chars: &Vec<char>) -> (r: bool)
    requires
        chars.len() >= 4,
    ensures
        r == is_verb(chars@.take(4)),
{
    let ghost v = chars@.take(4);
    assert(v[0] == chars@[0] && v[1] == chars@[1] && v[2] == chars@[2] && v[3] == chars@[3]);
    (chars[0] == 's' || chars[0] == 'S') && (chars[1] == 'e' || chars[1] == 'E') && (chars[2] == 'n'
        || chars[2] == 'N') && (chars[3] == 'd' || chars[3] == 'D')
}

fn locate(subject: &str) -> (r: Option<TransferIntent>)
    ensures
        match r {
            Some(intent) => stated(subject@) == Some(intent@),
            None => stated(subject@) is None,
        },
{
    let chars = chars_of(subject);
    let n = chars.len();
    if n < 6 || !verb_at_start(&chars) || chars[4] != ' ' {
        return None;
    }
    let a: usize = if chars[5] == '$' {
        6
    } else {
        5
    };
    let b = find_space(&chars, a);
    if b >= n {
        return None;
    }
    let c = find_space(&chars, b + 1);
    if c > n - 4 {
        return None;
    }
    if chars[c + 1] != 't' || chars[c + 2] != 'o' || chars[c + 3] != ' ' {
        return None;
    }
    assert(chars@.skip(c + 4) =~= chars@.subrange(c + 4, n as int));
    if !amount_between(&chars, a, b) || !token_between(&chars, b + 1, c) || !recipient_from(
        &chars,
        c + 4,
    ) {
        return None;
    }
    Some(
        TransferIntent {
            amount: slice_of(subject, a, b),
            token: slice_of(subject, b + 1, c),
            recipient: slice_of(subject, c + 4, n),
        },
    )
}

/// Reads the transfer that a subject states: `Some` with its parts as
/// written if it states one, `None` if it states none.
pub fn parse_subject(subject: &str) -> (r: Option<TransferIntent>)
    ensures
        match r {
            Some(intent) => states(subject@, intent@),
            None => forall|intent: IntentView| !states(subject@, intent),
        },
        intent_view(r) == stated_intent(subject@),
{
    let r = locate(subject);
    proof {
        match &r {
            Some(intent) => {
                lemma_stated_states(subject@, intent@);
                let chosen = choose|i: IntentView| states(subject@, i);
                law_stated_transfer_unique(subject@, intent@, chosen);
            },
            None => {
                assert forall|intent: IntentView| !states(subject@, intent) by {
                    if states(subject@, intent) {
                        lemma_states_stated(subject@, intent);
                    }
                }
            },
        }
    }
    r
}

} // verus!
