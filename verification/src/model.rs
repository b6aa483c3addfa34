//! The product record entity and its mathematical view.

use vstd::prelude::*;

verus! {

/// A single product record: an identifier and an opaque descriptive payload,
/// copied verbatim on read.
pub struct ProductRecord {
    pub id: u64,
    pub name: String,
}

/// The mathematical value of a product record.
pub ghost struct ProductView {
    pub id: u64,
    pub name: Seq<char>,
}

impl View for ProductRecord {
    type V = ProductView;

    open spec fn view(&self) -> ProductView {
        ProductView { id: self.id, name: self.name@ }
    }
}

impl Clone for ProductRecord {
    /// A clone is equal to the original in all fields.
    fn clone(&self) -> (r: Self)
        ensures
            r == *self,
    {
        ProductRecord { id: self.id, name: self.name.clone() }
    }
}

/// The sequence of views of a sequence of records.
pub open spec fn views_of(records: Seq<ProductRecord>) -> Seq<ProductView> {
    records.map(|i: int, p: ProductRecord| p@)
}

} // verus!
