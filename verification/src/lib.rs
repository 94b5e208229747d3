//! A verified model of the x86 SSE operations used for carry-less (CRC style)
//! arithmetic on 128-bit vectors.
pub mod clmul;
pub mod vector;
pub mod x86;
