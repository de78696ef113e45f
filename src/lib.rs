//! A bounds-checked reader over a fixed-size DNS message buffer, with
//! decoding of (possibly compressed) domain names.
pub mod packet_manipulation;
pub mod text;
pub mod lemmas;
