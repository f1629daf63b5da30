pub mod cipher;
pub mod keygen;
