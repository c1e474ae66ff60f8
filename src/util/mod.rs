pub mod enum_arg;
