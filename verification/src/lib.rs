pub mod amounts;
pub mod convert;
pub mod dates;
pub mod error;
pub mod identity;
pub mod ingdiba;
pub mod n26;
pub mod numbers;
pub mod reconcile;
pub mod rules;
pub mod text;
pub mod ynab;

pub use error::ErrorKind;
pub use ingdiba::IngDiBa;
pub use n26::N26;
pub use ynab::YNAB;
