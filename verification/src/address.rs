//! Opaque participant identities.

use vstd::prelude::*;
use vstd::std_specs::cmp::PartialEqSpecImpl;

verus! {

/// The mathematical value of an identity: the characters of its textual form.
pub type Identity = Seq<char>;

/// An opaque, authenticable address of a voter, a candidate or a creator.
///
/// The ledger never looks inside an address; it only tells two of them apart.
/// Two addresses are the same participant exactly when their texts agree.
#[derive(Debug)]
pub struct Address {
    text: String,
}

impl View for Address {
    type V = Identity;

    closed spec fn view(&self) -> Identity {
        self.text@
    }
}

impl Address {
    /// Wraps the textual form of an address.
    pub fn from_string(text: &str) -> (address: Address)
        ensures
            address@ == text@,
    {
        Address { text: text.to_owned() }
    }

    /// The textual form of this address.
    pub fn to_string(&self) -> (text: String)
        ensures
            text@ == self@,
    {
        self.text.clone()
    }
}

impl Clone for Address {
    fn clone(&self) -> (copy: Address)
        ensures
            copy == *self,
    {
        Address { text: self.text.clone() }
    }
}

impl PartialEq for Address {
    fn eq(&self, other: &Address) -> (same: bool) {
        self.text == other.text
    }
}

impl Eq for Address {

}

impl PartialEqSpecImpl for Address {
    open spec fn obeys_eq_spec() -> bool {
        true
    }

    open spec fn eq_spec(&self, other: &Address) -> bool {
        self@ == other@
    }
}

/// The identities of a list of addresses, in order.
pub open spec fn identities(addresses: Seq<Address>) -> Seq<Identity> {
    addresses.map_values(|a: Address| a@)
}

/// Whether `target` is one of `addresses`.
pub fn contains_address(addresses: &Vec<Address>, target: &Address) -> (found: bool)
    ensures
        found == identities(addresses@).contains(target@),
{
    let mut i: usize = 0;
    while i < addresses.len()
        invariant
            i <= addresses.len(),
            forall|j: int| 0 <= j < i ==> addresses@[j]@ != target@,
        decreases addresses.len() - i,
    {
        if addresses[i] == *target {
            assert(identities(addresses@)[i as int] == target@);
            return true;
        }
        i += 1;
    }
    false
}

/// An independent copy of a list of addresses.
pub fn clone_addresses(addresses: &Vec<Address>) -> (copy: Vec<Address>)
    ensures
        copy@ == addresses@,
{
    let mut copy: Vec<Address> = Vec::new();
    let mut i: usize = 0;
    while i < addresses.len()
        invariant
            i <= addresses.len(),
            copy@ == addresses@.take(i as int),
        decreases addresses.len() - i,
    {
        copy.push(addresses[i].clone());
        assert(addresses@.take(i + 1) == addresses@.take(i as int).push(addresses@[i as int]));
        i += 1;
    }
    assert(addresses@.take(addresses@.len() as int) == addresses@);
    copy
}

} // verus!
