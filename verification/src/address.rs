//! Account addresses: the base58 text of a public key.
use vstd::prelude::*;
use crate::base58::{base58_bytes, base58_text, from_base58, law_base58_round_trip, to_base58};
use crate::key::{PublicKey, PUBLIC_KEY_LEN};

verus! {

/// Common key operations
#[derive(Debug)]
pub struct Address {
    pub text: String,
}

impl Clone for Address {
    fn clone(&self) -> (r: Self)
        ensures
            r.text@ == self.text@,
    {
        Address { text: self.text.clone() }
    }
}

impl Address {
    /// Convert key to addr: the base58 text of the key.
    pub fn key2addr(key: PublicKey) -> (r: String)
        ensures
            r@ == base58_text(key@),
    {
        to_base58(key.as_slice())
    }

    /// Convert to key: the bytes that the base58 text stands for, when they
    /// are exactly `PUBLIC_KEY_LEN` of them.  The address of a key gives the
    /// key back.
    pub fn to_key(&self) -> (r: Option<PublicKey>)
        ensures
            match base58_bytes(self.text@) {
                Some(b) => if b.len() == PUBLIC_KEY_LEN {
                    r matches Some(k) && k@ == b
                } else {
                    r is None
                },
                None => r is None,
            },
            forall|k: PublicKey| self.text@ == base58_text(k@) ==> r == Some(k),
    {
        proof {
            assert forall|k: PublicKey| self.text@ == #[trigger] base58_text(k@) implies base58_bytes(self.text@) == Some(k@) by {
                law_base58_round_trip(k@);
            }
        }
        match from_base58(self.text.as_str()) {
            Some(r) => {
                if r.len() != PUBLIC_KEY_LEN {
                    None
                } else {
                    let a: PublicKey = [
                        r[0], r[1], r[2], r[3], r[4], r[5], r[6], r[7],
                        r[8], r[9], r[10], r[11], r[12], r[13], r[14], r[15],
                        r[16], r[17], r[18], r[19], r[20], r[21], r[22], r[23],
                        r[24], r[25], r[26], r[27], r[28], r[29], r[30], r[31],
                    ];
                    assert(a@ =~= r@);
                    proof {
                        assert forall|k: PublicKey| self.text@ == base58_text(k@) implies a == k by {
                            assert(k@ =~= a@);
                            vstd::array::axiom_array_ext_equal(a, k);
                        }
                    }
                    Some(a)
                }
            },
            None => None,
        }
    }
}

} // verus!
