//! Reading the accounts of a deposit message.
use aurora_launchpad_contract::utils::parse_accounts;

#[test]
fn test_parse_accounts() {
    let msg = "account.testnet:intent_account";
    let (near_account, intent_account) = parse_accounts(msg).unwrap();
    assert_eq!(near_account.unwrap().as_str(), "account.testnet");
    assert_eq!(intent_account.0, "intent_account");
}

#[test]
fn test_parse_intents_account_only() {
    let msg = "intent_account";
    let (near_account, intents_account) = parse_accounts(msg).unwrap();
    assert!(near_account.is_none());
    assert_eq!(intents_account.0, "intent_account");
}

#[test]
#[should_panic(expected = "Invalid NEAR account_id")]
fn test_parse_accounts_invalid_near_account() {
    let msg = "inva#&lid_near_account:intent_account";
    let _ = parse_accounts(msg).unwrap();
}
