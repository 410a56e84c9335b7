//! Reading the accounts named in a deposit message.
use crate::types::IntentAccount;
use vstd::prelude::*;

verus! {

/// `c` separates the parts of a NEAR account id.
pub open spec fn is_separator(c: char) -> bool {
    c == '-' || c == '_' || c == '.'
}

/// `c` may appear in a NEAR account id.
pub open spec fn is_account_char(c: char) -> bool {
    ('a' <= c && c <= 'z') || ('0' <= c && c <= '9') || is_separator(c)
}

/// A valid NEAR account id: 2 to 64 characters among `a-z`, `0-9`, `-`, `_` and `.`, with no
/// separator at either end and no two separators in a row.
pub open spec fn valid_account_id(s: Seq<char>) -> bool {
    &&& 2 <= s.len() <= 64
    &&& forall|i: int| 0 <= i < s.len() ==> is_account_char(#[trigger] s[i])
    &&& !is_separator(s[0])
    &&& !is_separator(s[s.len() - 1])
    &&& forall|i: int|
        0 <= i < s.len() - 1 ==> !(is_separator(#[trigger] s[i]) && is_separator(s[i + 1]))
}

/// Checks `account_id` with `near_account_id::AccountId::validate`, which accepts exactly the
/// account ids described by `valid_account_id`.
#[verifier::external_body]
pub(crate) fn validate_account_id(account_id: &str) -> (r: bool)
    ensures
        r == valid_account_id(account_id@),
{
    near_account_id::AccountId::validate(account_id).is_ok()
}

/// The index of the first `:` in `s`, if any.
pub open spec fn first_colon(s: Seq<char>) -> Option<int>
    decreases s.len(),
{
    if s.len() == 0 {
        None
    } else if s[0] == ':' {
        Some(0)
    } else {
        match first_colon(s.drop_first()) {
            Some(i) => Some(i + 1),
            None => None,
        }
    }
}

proof fn lemma_first_colon(s: Seq<char>, i: int)
    requires
        0 <= i <= s.len(),
        forall|j: int| 0 <= j < i ==> s[j] != ':',
        i < s.len() ==> s[i] == ':',
    ensures
        first_colon(s) == if i < s.len() {
            Some(i)
        } else {
            None::<int>
        },
    decreases i,
{
    if i > 0 {
        assert(forall|j: int| 0 <= j < i - 1 ==> s.drop_first()[j] == s[j + 1]);
        lemma_first_colon(s.drop_first(), i - 1);
    } else if s.len() == 0 {
    }
}

/// The accounts named by a deposit message `near_account:intents_account` or
/// `intents_account`, split at the first `:`.
pub open spec fn message_accounts(msg: Seq<char>) -> (Option<Seq<char>>, Seq<char>) {
    match first_colon(msg) {
        Some(i) => (Some(msg.subrange(0, i)), msg.subrange(i + 1, msg.len() as int)),
        None => (None, msg),
    }
}

/// Reads the accounts from a deposit message `near_account:intents_account` or
/// `intents_account`. The NEAR account, when present, must be a valid account id.
pub fn parse_accounts(msg: &str) -> (r: Result<(Option<String>, IntentAccount), &'static str>)
    ensures
        match message_accounts(msg@) {
            (Some(near), intent) => if valid_account_id(near) {
                r matches Ok((Some(n), i)) && n@ == near && i.0@ == intent
            } else {
                r == Err::<(Option<String>, IntentAccount), &'static str>(
                    "Invalid NEAR account_id",
                )
            },
            (None, intent) => r matches Ok((None, i)) && i.0@ == intent,
        },
{
    let len = msg.unicode_len();
    let mut i: usize = 0;
    while i < len && msg.get_char(i) != ':'
        invariant
            i <= len,
            len == msg@.len(),
            forall|j: int| 0 <= j < i ==> msg@[j] != ':',
        decreases len - i,
    {
        i = i + 1;
    }
    proof {
        lemma_first_colon(msg@, i as int);
    }
    if i < len {
        let near = msg.substring_char(0, i);
        let intent = msg.substring_char(i + 1, len);
        if !validate_account_id(near) {
            return Err("Invalid NEAR account_id");
        }
        Ok((Some(near.to_owned()), IntentAccount(intent.to_owned())))
    } else {
        Ok((None, IntentAccount(msg.to_owned())))
    }
}

} // verus!
