pub mod oauth;
pub mod process_table;
pub mod scanner;
