pub mod send_chunked;
pub mod tree_walking;
