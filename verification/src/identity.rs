pub mod identity_definition;
