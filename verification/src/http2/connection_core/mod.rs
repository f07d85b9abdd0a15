pub mod connection;
pub mod connection_data;
pub mod connection_frame_state;
pub mod connection_shared_state;
pub mod flow_control;
pub mod stream_blocker;
