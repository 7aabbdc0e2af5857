use vstd::prelude::*;

verus! {

/// A growable byte buffer handed to the host as a body frame; reading
/// consumes bytes from the front.
#[derive(Clone, Debug)]
pub struct WasiBuf(pub Vec<u8>);

impl View for WasiBuf {
    type V = Seq<u8>;

    open spec fn view(&self) -> Seq<u8> {
        self.0@
    }
}

impl WasiBuf {
    /// Number of bytes not yet consumed.
    pub fn remaining(&self) -> (n: usize)
        ensures
            n == self@.len(),
    {
        self.0.len()
    }

    /// The bytes not yet consumed, all in one slice.
    pub fn chunk(&self) -> (c: &[u8])
        ensures
            c@ == self@,
    {
        self.0.as_slice()
    }

    /// Consumes `cnt` bytes from the front of the buffer.
    pub fn advance(&mut self, cnt: usize)
        requires
            cnt <= old(self)@.len(),
        ensures
            final(self)@ == old(self)@.skip(cnt as int),
    {
        let rest = self.0.split_off(cnt);
        self.0 = rest;
    }

    /// Gives back the bytes not yet consumed.
    pub fn into_inner(self) -> (v: Vec<u8>)
        ensures
            v@ == self@,
    {
        self.0
    }
}

impl From<WasiBuf> for Vec<u8> {
    fn from(buf: WasiBuf) -> (v: Vec<u8>) {
        buf.0
    }
}

impl vstd::std_specs::convert::FromSpecImpl<WasiBuf> for Vec<u8> {
    open spec fn obeys_from_spec() -> bool {
        true
    }

    open spec fn from_spec(buf: WasiBuf) -> Vec<u8> {
        buf.0
    }
}

/// Consuming `a` bytes and then `b` more leaves what consuming `a + b` bytes
/// at once leaves.
pub proof fn advances_compose(buf: WasiBuf, a: nat, b: nat)
    requires
        a + b <= buf@.len(),
    ensures
        buf@.skip(a as int).skip(b as int) == buf@.skip((a + b) as int),
{
    assert(buf@.skip(a as int).skip(b as int) =~= buf@.skip((a + b) as int));
}

} // verus!
