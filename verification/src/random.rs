//! Random-byte sourcing: a capability interface with one operation,
//! `fill`, satisfied by the platform CSPRNG and by deterministic test
//! doubles.

use vstd::prelude::*;

verus! {

/// The entropy source could not supply bytes.  This is the only failure
/// mode of identifier generation: no identifier is ever issued on
/// insufficient entropy.
#[derive(Clone, Copy, Debug, PartialEq, Eq, Structural)]
pub struct RandomnessFailure;

/// A supplier of random bytes.  `fill` either fills every byte of the
/// buffer or reports failure; partial fills are not a valid outcome, and
/// on failure the buffer's contents are not to be relied upon.
pub trait RandomSource {
    fn fill(&self, buf: &mut Vec<u8>) -> (r: Result<(), RandomnessFailure>)
        ensures
            final(buf)@.len() == old(buf)@.len(),
    ;
}

#[verifier::external_type_specification]
#[verifier::external_body]
pub struct ExSystemRandom(ring::rand::SystemRandom);

/// The platform CSPRNG, `ring`'s `SystemRandom`.  The handle is cheap to
/// construct and stateless; reseeding is the platform's concern.
pub struct SystemRandomSource {
    rng: ring::rand::SystemRandom,
}

impl SystemRandomSource {
    /// Relies on `ring::rand::SystemRandom::new`: constructs a handle to
    /// the platform CSPRNG.
    #[verifier::external_body]
    pub fn new() -> (s: SystemRandomSource) {
        SystemRandomSource { rng: ring::rand::SystemRandom::new() }
    }
}

/// Relies on `ring::rand::SecureRandom::fill`: fills the whole slice with
/// cryptographically secure random bytes, or errs; a slice cannot change
/// length either way.
#[verifier::external_body]
fn system_fill(rng: &ring::rand::SystemRandom, buf: &mut Vec<u8>) -> (r: Result<
    (),
    RandomnessFailure,
>)
    ensures
        final(buf)@.len() == old(buf)@.len(),
{
    match ring::rand::SecureRandom::fill(rng, buf.as_mut_slice()) {
        Ok(()) => Ok(()),
        Err(_) => Err(RandomnessFailure),
    }
}

impl RandomSource for SystemRandomSource {
    fn fill(&self, buf: &mut Vec<u8>) -> (r: Result<(), RandomnessFailure>) {
        system_fill(&self.rng, buf)
    }
}

/// A deterministic source for testing: hands out its preset bytes,
/// repeated cyclically; with no preset bytes it reports failure.
pub struct FixedBytesSource {
    pub bytes: Vec<u8>,
}

impl FixedBytesSource {
    /// A source that will hand out `bytes`, repeated cyclically.
    pub fn new(bytes: Vec<u8>) -> (s: FixedBytesSource)
        ensures
            s.bytes@ == bytes@,
    {
        FixedBytesSource { bytes }
    }
}

impl RandomSource for FixedBytesSource {
    fn fill(&self, buf: &mut Vec<u8>) -> (r: Result<(), RandomnessFailure>)
        ensures
            r is Ok <==> self.bytes@.len() > 0,
            r is Ok ==> final(buf)@ == Seq::new(
                old(buf)@.len(),
                |j: int| self.bytes@[j % (self.bytes@.len() as int)],
            ),
    {
        if self.bytes.len() == 0 {
            return Err(RandomnessFailure);
        }
        let mut i: usize = 0;
        while i < buf.len()
            invariant
                i <= buf@.len(),
                buf@.len() == old(buf)@.len(),
                self.bytes@.len() > 0,
                forall|j: int| 0 <= j < i ==> buf@[j] == self.bytes@[j % (
                self.bytes@.len() as int)],
            decreases buf@.len() - i,
        {
            let v = self.bytes[i % self.bytes.len()];
            buf.set(i, v);
            i = i + 1;
        }
        proof {
            assert(buf@ =~= Seq::new(
                old(buf)@.len(),
                |j: int| self.bytes@[j % (self.bytes@.len() as int)],
            ));
        }
        Ok(())
    }
}

/// A source that always reports failure, for testing the failure path.
pub struct FailingSource;

impl RandomSource for FailingSource {
    fn fill(&self, buf: &mut Vec<u8>) -> (r: Result<(), RandomnessFailure>)
        ensures
            r is Err,
    {
        Err(RandomnessFailure)
    }
}

} // verus!
