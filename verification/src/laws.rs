//! What holds of the agent as a whole: how what goes in comes out again, over several steps and
//! over several parts.

pub mod answers;
pub mod commands;
pub mod counts;
pub mod doors;
pub mod history;
pub mod ledger;
pub mod loops;
pub mod notices;
pub mod parts;
pub mod records;
pub mod replies;
pub mod requests;
pub mod streams;
pub mod tables;
pub mod tries;
pub mod small;
pub mod ways;
pub mod words;
