use vstd::prelude::*;

verus! {

/// The identity of a principal: the 32 bytes of a host account.
#[derive(Clone, Copy, Debug)]
pub struct AccountId {
    pub bytes: [u8; 32],
}

impl AccountId {
    /// The identity whose bytes are `bytes`.
    pub fn from_bytes(bytes: [u8; 32]) -> (r: AccountId)
        ensures
            r.bytes == bytes,
    {
        AccountId { bytes }
    }
}

impl PartialEq for AccountId {
    fn eq(&self, o: &AccountId) -> (r: bool) {
        let mut i: usize = 0;
        while i < 32
            invariant
                i <= 32,
                forall|j: int| 0 <= j < i ==> self.bytes@[j] == o.bytes@[j],
            decreases 32 - i,
        {
            if self.bytes[i] != o.bytes[i] {
                return false;
            }
            i = i + 1;
        }
        proof {
            assert(self.bytes@ =~= o.bytes@);
        }
        true
    }
}

impl vstd::std_specs::cmp::PartialEqSpecImpl for AccountId {
    open spec fn obeys_eq_spec() -> bool {
        true
    }

    open spec fn eq_spec(&self, o: &AccountId) -> bool {
        self.bytes@ == o.bytes@
    }
}

impl Eq for AccountId {}

/// Two identities are equal exactly when their bytes are.
pub proof fn lemma_account_eq(a: AccountId, b: AccountId)
    ensures
        (a.bytes@ == b.bytes@) <==> (a == b),
{
    broadcast use vstd::array::group_array_axioms;
    if a.bytes@ == b.bytes@ {
        assert(a.bytes =~= b.bytes);
    }
}

} // verus!
