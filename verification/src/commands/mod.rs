//! The commands: what each checks before sending, how each shapes what
//! came back, and how each is shown to a person.
pub mod domains;
pub mod paging;
pub mod dns;
pub mod account;
pub mod privacy;
pub mod raw;
pub mod audit;
pub mod transfer;
pub mod doctor;
pub mod guard;
