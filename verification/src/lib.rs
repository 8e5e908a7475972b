//! A stream encoder that frames a content-type announcement and a sequence of
//! opaque payload chunks into a single length-prefixed binary stream, written
//! to an arbitrary byte sink.
//!
//! The encoder lazily emits a control-start frame on the first write, a
//! length-prefixed data frame for each payload buffer (continuing a partially
//! accepted buffer without a fresh length prefix), and a control-stop frame
//! when it is finished or its sink is swapped out.

pub mod constants;
pub mod encoder;
pub mod sink;
pub mod wire;

pub use encoder::EncoderWriter;
pub use sink::ByteSink;
pub use sink::IoError;
pub use sink::VecSink;
