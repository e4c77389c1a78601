pub mod tabledump;
