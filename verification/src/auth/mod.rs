pub mod accounts;
pub mod microsoft;
