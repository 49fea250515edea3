//! The endpoints of the domain lists.

pub mod common;
pub mod list;

pub use self::common::{is_valid_domain, is_valid_regex};
pub use self::list::{DomainInput, List};
