pub mod app;
pub mod display;
pub mod help;
pub mod layout;
pub mod order;
pub mod scanner;
pub mod shell;
pub mod text;
