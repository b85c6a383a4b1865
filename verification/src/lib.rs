//! Credentials, save-file format, request building and response handling
//! for a command-line Google Play Music ("SkyJam") client.

pub mod bytes;
pub mod text;
pub mod codec;
pub mod digest;
pub mod token;
pub mod form;
pub mod response;
pub mod password;
pub mod google;
pub mod credentials;
pub mod query;
pub mod radio;
pub mod player;
pub mod wave;
pub mod stream;
