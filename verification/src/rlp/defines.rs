use vstd::prelude::*;

verus! {

/// Encoder buffer size
pub const ENCODER_BUFFER_SIZE: usize = 16777216;

/// Decoder buffer size
pub const DECODER_BUFFER_SIZE: usize = 16777216;

/// The max prefix value for a single byte encoding
pub const SINGLE_BYTE_MAX_VALUE: u8 = 0x7f;

/// The max len for a short string encoding
pub const SHORT_STRING_MAX_LEN: usize = 55;

/// Short string prefix offset
pub const SHORT_STRING_PREFIX_BASE: u8 = 0x80;

/// Long string prefix offset
pub const LONG_STRING_PREFIX_BASE: u8 = 0xb7;

/// The max len for a short list encoding
pub const SHORT_LIST_MAX_LEN: usize = 55;

/// Short list prefix offset
pub const SHORT_LIST_PREFIX_BASE: u8 = 0xc0;

/// Long list prefix offset
pub const LONG_LIST_PREFIX_BASE: u8 = 0xf7;

} // verus!
