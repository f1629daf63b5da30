pub mod connection;
pub mod hostinfo;
pub mod lib;
pub mod message;
pub mod receiver;
pub mod sender;
pub mod udp_logic;
