//! Verified decoders and encoders for three show-control wire protocols:
//! EAP network variables (Beckhoff TwinCAT), OTP (ANSI E1.59) and
//! PosiStageNet. Each decoder's result is stated exactly over the bytes it
//! reads, each encoder's output over the value it writes, and decoding what
//! an encoder writes gives the value back.
mod bytes;
pub mod eap;
pub mod otp;
pub mod psn;
mod text;
