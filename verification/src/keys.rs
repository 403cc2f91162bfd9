use vstd::prelude::*;

verus! {

/// The number of bytes in a public key or asset identity.
pub const PUBKEY_LENGTH: usize = 32;

/// A principal or asset identifier: a fixed-width byte string.
///
/// Both the authority that scopes a type mapping and the identity of the
/// asset an object record refers to are values of this type. Its view is the
/// sequence of its bytes, and all contracts compare keys by that view.
#[derive(Debug)]
pub struct Pubkey {
    pub(crate) bytes: Vec<u8>,
}

impl View for Pubkey {
    type V = Seq<u8>;

    closed spec fn view(&self) -> Seq<u8> {
        self.bytes@
    }
}

impl Pubkey {
    /// A key is well formed when it holds exactly the fixed number of bytes.
    pub open spec fn wf(&self) -> bool {
        self@.len() == PUBKEY_LENGTH
    }

    /// Builds a key from its bytes; rejects byte strings of the wrong width.
    pub fn new(bytes: Vec<u8>) -> (r: Option<Pubkey>)
        ensures
            match r {
                Some(k) => k@ == bytes@ && k.wf(),
                None => bytes@.len() != PUBKEY_LENGTH,
            },
    {
        if bytes.len() == PUBKEY_LENGTH {
            Some(Pubkey { bytes })
        } else {
            None
        }
    }

    /// The bytes of the key.
    pub fn as_bytes(&self) -> (r: &Vec<u8>)
        ensures
            r@ == self@,
    {
        &self.bytes
    }

    /// A copy of the key.
    pub fn duplicate(&self) -> (r: Pubkey)
        ensures
            r@ == self@,
    {
        let mut bytes: Vec<u8> = Vec::new();
        let mut i: usize = 0;
        while i < self.bytes.len()
            invariant
                0 <= i <= self.bytes.len(),
                bytes@ == self.bytes@.subrange(0, i as int),
            decreases self.bytes.len() - i,
        {
            bytes.push(self.bytes[i]);
            i = i + 1;
        }
        assert(bytes@ == self.bytes@);
        Pubkey { bytes }
    }
}

/// Compares two byte strings for equality of their contents.
pub fn bytes_eq(a: &Vec<u8>, b: &Vec<u8>) -> (r: bool)
    ensures
        r == (a@ == b@),
{
    let r = *a == *b;
    proof {
        if r {
            assert(a@ =~= b@);
        } else {
            if a@ == b@ {
                assert(forall|i: int| 0 <= i < a@.len() ==> a[i] == b[i]);
                assert(false);
            }
        }
    }
    r
}

impl PartialEq for Pubkey {
    fn eq(&self, other: &Pubkey) -> (r: bool) {
        let r = self.bytes == other.bytes;
        proof {
            if r {
                assert(self.bytes@ =~= other.bytes@);
            } else {
                if self@ == other@ {
                    assert(forall|i: int|
                        0 <= i < self.bytes@.len() ==> self.bytes[i] == other.bytes[i]);
                    assert(false);
                }
            }
        }
        r
    }
}

impl vstd::std_specs::cmp::PartialEqSpecImpl for Pubkey {
    open spec fn obeys_eq_spec() -> bool {
        true
    }

    open spec fn eq_spec(&self, other: &Pubkey) -> bool {
        self@ == other@
    }
}

} // verus!
