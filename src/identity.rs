//! Identities of actors, and the keys that the stores are indexed by.
use vstd::prelude::*;

verus! {

/// An opaque token that stands for one actor, compared by its bytes.
pub struct Identity {
    pub bytes: Vec<u8>,
}

impl View for Identity {
    type V = Seq<u8>;

    open spec fn view(&self) -> Seq<u8> {
        self.bytes@
    }
}

/// The views of a sequence of identities.
pub open spec fn ids(s: Seq<Identity>) -> Seq<Seq<u8>> {
    s.map_values(|x: Identity| x@)
}

/// A key of a store: a value with a view and an equality that follows it.
pub trait Key: View + Sized {
    fn same(&self, other: &Self) -> (r: bool)
        ensures
            r == (self@ == other@),
    ;

    fn copy(&self) -> (r: Self)
        ensures
            r@ == self@,
    ;
}

impl Identity {
    pub fn new(bytes: Vec<u8>) -> (r: Identity)
        ensures
            r@ == bytes@,
    {
        Identity { bytes }
    }
}

impl Key for Identity {
    fn same(&self, other: &Identity) -> (r: bool) {
        if self.bytes.len() != other.bytes.len() {
            return false;
        }
        let mut i: usize = 0;
        while i < self.bytes.len()
            invariant
                i <= self.bytes.len(),
                self.bytes.len() == other.bytes.len(),
                forall|t: int| 0 <= t < i ==> self.bytes@[t] == other.bytes@[t],
            decreases self.bytes.len() - i,
        {
            if self.bytes[i] != other.bytes[i] {
                return false;
            }
            i += 1;
        }
        assert(self@ =~= other@);
        true
    }

    fn copy(&self) -> (r: Identity) {
        let mut bytes: Vec<u8> = Vec::new();
        let mut i: usize = 0;
        while i < self.bytes.len()
            invariant
                i <= self.bytes.len(),
                bytes@ == self.bytes@.take(i as int),
            decreases self.bytes.len() - i,
        {
            bytes.push(self.bytes[i]);
            i += 1;
            assert(bytes@ =~= self.bytes@.take(i as int));
        }
        assert(self.bytes@.take(i as int) =~= self.bytes@);
        Identity { bytes }
    }
}

impl Key for u64 {
    fn same(&self, other: &u64) -> (r: bool) {
        *self == *other
    }

    fn copy(&self) -> (r: u64) {
        *self
    }
}

/// Copies a sequence of identities.
pub fn copy_ids(v: &Vec<Identity>) -> (r: Vec<Identity>)
    ensures
        ids(r@) == ids(v@),
{
    let mut out: Vec<Identity> = Vec::new();
    let mut i: usize = 0;
    while i < v.len()
        invariant
            i <= v.len(),
            out@.len() == i,
            forall|t: int| 0 <= t < i ==> #[trigger] out@[t]@ == v@[t]@,
        decreases v.len() - i,
    {
        let c = v[i].copy();
        out.push(c);
        i += 1;
    }
    assert(ids(out@) =~= ids(v@));
    out
}

/// Whether `x` is in `v`.
pub fn holds(v: &Vec<Identity>, x: &Identity) -> (r: bool)
    ensures
        r == ids(v@).contains(x@),
{
    let mut i: usize = 0;
    while i < v.len()
        invariant
            i <= v.len(),
            forall|t: int| 0 <= t < i ==> v@[t]@ != x@,
        decreases v.len() - i,
    {
        if v[i].same(x) {
            assert(ids(v@)[i as int] == x@);
            return true;
        }
        i += 1;
    }
    false
}

} // verus!
