pub mod config_file;
