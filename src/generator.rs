use vstd::prelude::*;

verus! {

/// Size of the buffer that one write of a pass hands out.
pub const BLOCK_SIZE: usize = 16384;

/// Produces the contents of one block of a pass.
pub struct DataGenerator;

/// Relies on `rand_core::OsRng::try_fill_bytes`, which asks the operating
/// system's secure generator to fill the whole buffer and reports whether it
/// could. Nothing is promised of the bytes.
#[verifier::external_body]
fn fill_from_os(buf: &mut [u8; BLOCK_SIZE]) -> (ok: bool) {
    rand_core::RngCore::try_fill_bytes(&mut rand_core::OsRng, buf).is_ok()
}

impl DataGenerator {
    /// A block of zeros.
    pub fn zero() -> (r: [u8; BLOCK_SIZE])
        ensures
            forall|i: int| 0 <= i < BLOCK_SIZE ==> r@[i] == 0,
    {
        [0u8; BLOCK_SIZE]
    }

    /// A block freshly drawn from the operating system's secure generator, or
    /// `None` where the generator failed.
    pub fn random() -> (r: Option<[u8; BLOCK_SIZE]>) {
        let mut block = [0u8; BLOCK_SIZE];
        if fill_from_os(&mut block) {
            Some(block)
        } else {
            None
        }
    }
}

} // verus!
