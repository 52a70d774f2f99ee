use vstd::prelude::*;

verus! {

/// The amount of value that accounts hold and send.
pub type Balance = u128;

/// A 32-byte account identifier: the identity of a caller, an owner, a seller,
/// or the marketplace itself.
#[derive(Clone, Copy, Debug)]
pub struct AccountId(pub [u8; 32]);

/// Two account identifiers with the same bytes are the same account.
pub proof fn lemma_account_bytes_determine(a: AccountId, b: AccountId)
    requires
        a.0@ == b.0@,
    ensures
        a == b,
{
    assert(a.0 =~= b.0);
}

impl PartialEq for AccountId {
    fn eq(&self, other: &Self) -> (r: bool) {
        let mut i: usize = 0;
        while i < 32
            invariant
                i <= 32,
                forall|k: int| 0 <= k < i ==> self.0@[k] == other.0@[k],
            decreases 32 - i,
        {
            if self.0[i] != other.0[i] {
                return false;
            }
            i = i + 1;
        }
        proof {
            assert(self.0@ =~= other.0@);
            lemma_account_bytes_determine(*self, *other);
        }
        true
    }
}

impl vstd::std_specs::cmp::PartialEqSpecImpl for AccountId {
    open spec fn obeys_eq_spec() -> bool {
        true
    }

    open spec fn eq_spec(&self, other: &Self) -> bool {
        *self == *other
    }
}

impl Eq for AccountId {
}

} // verus!
