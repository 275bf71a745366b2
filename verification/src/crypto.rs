pub mod aes;
