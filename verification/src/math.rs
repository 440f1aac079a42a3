//! Integer vector math.

use vstd::prelude::*;

verus! {

/// The product of two small components stays within nine hundred million.
proof fn lemma_component_product_bound(x: i32, y: i32)
    requires
        -30000 <= x <= 30000,
        -30000 <= y <= 30000,
    ensures
        -900000000 <= x * y <= 900000000,
{
    assert(-900000000 <= x * y <= 900000000) by (nonlinear_arith)
        requires
            -30000 <= x <= 30000,
            -30000 <= y <= 30000,
    ;
}

/// A three-component integer vector, padded to four lanes.
pub struct Vector3 {
    pub data: [i32; 4],
}

impl Vector3 {
    /// The cross product of two vectors; the padding lane stays zero.
    pub fn cross_product(&self, other: &Self) -> (r: Self)
        requires
            -30000 <= self.data[0] <= 30000,
            -30000 <= self.data[1] <= 30000,
            -30000 <= self.data[2] <= 30000,
            -30000 <= other.data[0] <= 30000,
            -30000 <= other.data[1] <= 30000,
            -30000 <= other.data[2] <= 30000,
        ensures
            r.data[0] == self.data[1] * other.data[2] - self.data[2] * other.data[1],
            r.data[1] == self.data[2] * other.data[0] - self.data[0] * other.data[2],
            r.data[2] == self.data[0] * other.data[1] - self.data[1] * other.data[0],
            r.data[3] == 0,
    {
        let a0 = self.data[0];
        let a1 = self.data[1];
        let a2 = self.data[2];
        let b0 = other.data[0];
        let b1 = other.data[1];
        let b2 = other.data[2];
        proof {
            lemma_component_product_bound(a1, b2);
            lemma_component_product_bound(a2, b1);
            lemma_component_product_bound(a2, b0);
            lemma_component_product_bound(a0, b2);
            lemma_component_product_bound(a0, b1);
            lemma_component_product_bound(a1, b0);
        }
        Vector3 { data: [a1 * b2 - a2 * b1, a2 * b0 - a0 * b2, a0 * b1 - a1 * b0, 0] }
    }
}

} // verus!
