use vstd::prelude::*;

verus! {

/// One label's worth of data about an item.
#[derive(Debug)]
pub struct LabelRecord {
    pub id: i32,
    pub name: String,
    pub specifications: Option<String>,
    pub quantity: i32,
    pub unit: Option<String>,
    pub location: Option<String>,
    pub qr_id: Option<String>,
}

impl LabelRecord {
    /// The payload of this record's symbol.
    pub open spec fn payload(self) -> Seq<char> {
        crate::qr::payload_text(self.id as int, crate::text::opt_text(self.qr_id))
    }

    /// The symbol that the generator builds for this record.
    pub open spec fn symbol(self) -> Option<(nat, Seq<bool>)> {
        crate::qr::qr_symbol(self.payload())
    }

    /// Whether this record's payload has a symbol of a supported shape.
    pub open spec fn encodable(self) -> bool {
        self.symbol() is Some && crate::qr::symbol_shape(
            self.symbol()->Some_0.0,
            self.symbol()->Some_0.1,
        )
    }
}

} // verus!
