pub mod window_update;
