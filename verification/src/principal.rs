use vstd::prelude::*;

verus! {

/// A principal: the identity of a user or canister, given by at most 29
/// bytes. Two principals are the same exactly when their bytes are.
#[derive(Debug, Clone, Copy, PartialEq, Eq, Hash)]
pub struct Principal {
    len: u8,
    bytes: [u8; 29],
}

impl View for Principal {
    type V = Seq<u8>;

    closed spec fn view(&self) -> Seq<u8> {
        self.bytes@.take(self.len as int)
    }
}

/// A value that can key the ledger's maps: it is compared and copied by its view.
pub trait LedgerKey: View + Sized {
    /// Whether `self` and `other` denote the same key.
    fn same_key(&self, other: &Self) -> (r: bool)
        ensures
            r == (self@ == other@),
    ;

    /// A copy of the key.
    fn key_copy(&self) -> (r: Self)
        ensures
            r@ == self@,
    ;
}

impl Principal {
    #[verifier::type_invariant]
    spec fn len_in_bounds(self) -> bool {
        self.len <= 29
    }

    /// The most bytes a principal has.
    pub open spec fn max_len() -> nat {
        29
    }

    /// The principal with the given bytes, if there are at most 29 of them.
    pub fn from_slice(b: &[u8]) -> (r: Option<Principal>)
        ensures
            match r {
                Some(p) => b@.len() <= Self::max_len() && p@ == b@,
                None => b@.len() > Self::max_len(),
            },
    {
        let n = b.len();
        if n > 29 {
            return None;
        }
        let mut bytes: [u8; 29] = [0u8; 29];
        let mut i: usize = 0;
        while i < n
            invariant
                n == b@.len(),
                n <= 29,
                i <= n,
                bytes@.len() == 29,
                forall|j: int| 0 <= j < i ==> bytes@[j] == b@[j],
            decreases n - i,
        {
            bytes[i] = b[i];
            i = i + 1;
        }
        let p = Principal { len: n as u8, bytes };
        assert(p@ =~= b@);
        Some(p)
    }

    /// The principal's bytes.
    pub fn to_vec(&self) -> (r: Vec<u8>)
        ensures
            r@ == self@,
    {
        proof {
            use_type_invariant(self);
        }
        let n = self.len as usize;
        let mut r: Vec<u8> = Vec::new();
        let mut i: usize = 0;
        while i < n
            invariant
                n == self.len,
                n <= 29,
                i <= n,
                self.bytes@.len() == 29,
                r@ =~= self.bytes@.take(i as int),
            decreases n - i,
        {
            r.push(self.bytes[i]);
            i = i + 1;
            assert(r@ =~= self.bytes@.take(i as int));
        }
        r
    }
}

impl LedgerKey for Principal {
    fn same_key(&self, other: &Self) -> (r: bool) {
        proof {
            use_type_invariant(self);
            use_type_invariant(other);
        }
        if self.len != other.len {
            assert(self@.len() != other@.len());
            return false;
        }
        let n = self.len as usize;
        let mut i: usize = 0;
        while i < n
            invariant
                n == self.len,
                n == other.len,
                n <= 29,
                i <= n,
                self.bytes@.len() == 29,
                other.bytes@.len() == 29,
                forall|j: int| 0 <= j < i ==> self.bytes@[j] == other.bytes@[j],
            decreases n - i,
        {
            if self.bytes[i] != other.bytes[i] {
                assert(self@[i as int] != other@[i as int]);
                return false;
            }
            i = i + 1;
        }
        assert(self@ =~= other@);
        true
    }

    fn key_copy(&self) -> (r: Self) {
        *self
    }
}

impl LedgerKey for String {
    fn same_key(&self, other: &Self) -> (r: bool) {
        *self == *other
    }

    fn key_copy(&self) -> (r: Self) {
        self.clone()
    }
}

} // verus!
