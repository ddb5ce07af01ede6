pub mod starts_with;
