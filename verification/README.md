# x86 vector operations for carry-less arithmetic

The SSE2 / SSSE3 / SSE4.1 / PCLMULQDQ operations that CRC folding runs on,
written as safe Verus code over a 128-bit vector held as its sixteen bytes,
each with a contract that states its exact result.

- `src/vector.rs`: the `Vector` type, its little-endian 32- and 64-bit lane
  views, and the instructions (xor, and, shifts, shuffles, blends, compares)
  with their specifications.
- `src/clmul.rs`: carry-less multiplication: its definition, the
  `_mm_clmulepi64_si128` lane product, and the proofs that the product is
  commutative and that a 64 by 64 bit product fits in 127 bits.
- `src/x86.rs`: `X86Ops`, whose operations pick among the hardware, SSE2 and
  portable variants by the detected `CpuFeatures`; every variant is proved to
  compute the same result.
- `app/lib.rs`: detects the processor's features at run time.
