//! Threshold custody of a Monero wallet's spend key: the rounds of a simulated t-of-n
//! key generation, the records stored per participant, the choice of records to
//! recover from, and the view key and address derived from the spend key.

pub mod dkg;
pub mod encoding;
pub mod error;
pub mod keys;
pub mod params;
pub mod records;
pub mod recovery;
