//! What each tool does with its arguments and with the replies it gets.

pub mod declarative;
pub mod first_success;
pub mod fx;
pub mod kb_client;
pub mod stocks;
pub mod upstream;
pub mod weather;
pub mod web_fetch;
pub mod web_search;
