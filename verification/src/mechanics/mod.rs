//! State-independent sale mechanics: deposits, withdrawals and claims.

pub mod claim;
pub mod deposit;
pub mod withdraw;
