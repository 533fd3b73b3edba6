//! The verified core of the MewChain wallet service: deriving wallets from
//! Ed25519 secret keys, the faucet cooldown, node-group membership and the
//! texts the service replies with.

pub mod text;
pub mod hex_codec;
pub mod keys;
pub mod wallet;
pub mod groups;
pub mod rewards;
pub mod messages;
