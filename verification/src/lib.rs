pub mod text;
pub mod common;
pub mod gsm_encoding;
pub mod wire;
pub mod chance;
pub mod bind;
pub mod bind_transmitter;
pub mod enquire_link;
pub mod submit_sm;
pub mod deliver_sm;
pub mod codec;
pub mod pdu_factory;
pub mod responses;
pub mod app_logic;
pub mod network;
pub mod ui_log;
