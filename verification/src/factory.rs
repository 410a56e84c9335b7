//! The factory that numbers the launchpads it creates and names their accounts.
use crate::utils::{valid_account_id, validate_account_id};
use vstd::prelude::*;
use vstd::string::*;

verus! {

/// The least deposit, in yoctoNEAR, that pays for the account of a new launchpad: 9 NEAR.
pub const LAUNCHPAD_MIN_DEPOSIT: u128 = 9_000_000_000_000_000_000_000_000;

/// The factory of launchpads.
pub struct AuroraLaunchpadFactory {
    /// The number of launchpads created so far.
    pub launchpad_count: u64,
}

/// The character of the decimal digit `d`.
pub open spec fn digit_char(d: nat) -> char {
    (48 + d) as char
}

/// The decimal representation of `n`.
pub open spec fn decimal(n: nat) -> Seq<char>
    decreases n,
{
    if n < 10 {
        seq![digit_char(n)]
    } else {
        decimal(n / 10).push(digit_char(n % 10))
    }
}

/// The text of the decimal digit `d`.
fn digit_str(d: u64) -> (r: &'static str)
    requires
        d < 10,
    ensures
        r@ == seq![digit_char(d as nat)],
{
    proof {
        reveal_strlit("0");
        reveal_strlit("1");
        reveal_strlit("2");
        reveal_strlit("3");
        reveal_strlit("4");
        reveal_strlit("5");
        reveal_strlit("6");
        reveal_strlit("7");
        reveal_strlit("8");
        reveal_strlit("9");
    }
    let r = match d {
        0 => "0",
        1 => "1",
        2 => "2",
        3 => "3",
        4 => "4",
        5 => "5",
        6 => "6",
        7 => "7",
        8 => "8",
        _ => "9",
    };
    assert(r@ =~= seq![digit_char(d as nat)]);
    r
}

/// Appends the decimal representation of `n` to `s`.
pub fn append_decimal(s: &mut String, n: u64)
    ensures
        final(s)@ == old(s)@ + decimal(n as nat),
    decreases n,
{
    if n >= 10 {
        append_decimal(s, n / 10);
    }
    s.append(digit_str(n % 10));
    proof {
        if n >= 10 {
            assert(decimal(n as nat) == decimal((n / 10) as nat).push(digit_char((n % 10) as nat)));
        }
        assert(final(s)@ =~= old(s)@ + decimal(n as nat));
    }
}

/// The account of launchpad number `n` under the factory's account: `lp-<n>.<factory>`.
pub open spec fn launchpad_account(n: nat, factory_account_id: Seq<char>) -> Seq<char> {
    "lp-"@ + decimal(n) + "."@ + factory_account_id
}

impl AuroraLaunchpadFactory {
    /// Creates a factory that has not created any launchpad yet.
    pub fn new() -> (r: Self)
        ensures
            r.launchpad_count == 0,
    {
        AuroraLaunchpadFactory { launchpad_count: 0 }
    }

    /// Returns the version of the factory.
    pub fn get_version() -> (r: &'static str)
        ensures
            r@ == "0.1.0"@,
    {
        "0.1.0"
    }

    /// Numbers a new launchpad and returns its account, `lp-<number>.<factory account>`, which
    /// must be a valid account id. On an error the count does not change.
    pub fn launchpad_account_id(&mut self, factory_account_id: &str) -> (r: Result<String, &'static str>)
        requires
            old(self).launchpad_count < u64::MAX,
        ensures
            ({
                let name = launchpad_account(
                    (old(self).launchpad_count + 1) as nat,
                    factory_account_id@,
                );
                if valid_account_id(name) {
                    r matches Ok(s) && s@ == name && final(self).launchpad_count == old(
                        self).launchpad_count + 1
                } else {
                    r == Err::<String, &'static str>("Failed to parse launchpad account ID")
                        && final(self).launchpad_count == old(self).launchpad_count
                }
            }),
    {
        let count = self.launchpad_count + 1;
        let mut name = String::from_str("lp-");
        append_decimal(&mut name, count);
        name.append(".");
        name.append(factory_account_id);
        assert(name@ =~= launchpad_account(count as nat, factory_account_id@));
        if !validate_account_id(name.as_str()) {
            return Err("Failed to parse launchpad account ID");
        }
        self.launchpad_count = count;
        Ok(name)
    }

    /// Decides a request to create a launchpad with an attached deposit of `attached_deposit`
    /// yoctoNEAR: below [`LAUNCHPAD_MIN_DEPOSIT`] it is refused and nothing changes;
    /// otherwise the launchpad is numbered and its account returned, as by
    /// `launchpad_account_id`.
    pub fn create_launchpad(&mut self, factory_account_id: &str, attached_deposit: u128) -> (r:
        Result<String, &'static str>)
        requires
            old(self).launchpad_count < u64::MAX,
        ensures
            attached_deposit < LAUNCHPAD_MIN_DEPOSIT ==> r == Err::<String, &'static str>(
                "Attached deposit must be at least 9 NEAR",
            ) && final(self).launchpad_count == old(self).launchpad_count,
            attached_deposit >= LAUNCHPAD_MIN_DEPOSIT ==> ({
                let name = launchpad_account(
                    (old(self).launchpad_count + 1) as nat,
                    factory_account_id@,
                );
                if valid_account_id(name) {
                    r matches Ok(s) && s@ == name && final(self).launchpad_count == old(
                        self).launchpad_count + 1
                } else {
                    r == Err::<String, &'static str>("Failed to parse launchpad account ID")
                        && final(self).launchpad_count == old(self).launchpad_count
                }
            }),
    {
        if attached_deposit < LAUNCHPAD_MIN_DEPOSIT {
            return Err("Attached deposit must be at least 9 NEAR");
        }
        self.launchpad_account_id(factory_account_id)
    }
}

} // verus!
