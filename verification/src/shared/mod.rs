pub mod server_settings;
