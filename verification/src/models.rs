use vstd::prelude::*;
use crate::record::LabelRecord;

verus! {

/// A storage location.
#[derive(Debug)]
pub struct Location {
    pub id: i32,
    pub name: String,
    pub parent_id: Option<i32>,
    pub location_type: String,
    pub description: Option<String>,
    pub qr_code_id: Option<String>,
    pub created_at: String,
    pub updated_at: String,
}

/// An inventory item.
#[derive(Debug)]
pub struct Item {
    pub id: i32,
    pub name: String,
    pub category: Option<String>,
    pub specifications: Option<String>,
    pub quantity: i32,
    pub unit: Option<String>,
    pub location_id: Option<i32>,
    pub min_quantity: Option<i32>,
    pub notes: Option<String>,
    pub image_path: Option<String>,
    pub created_at: String,
    pub updated_at: String,
}

/// One entry of an item's quantity history.
#[derive(Debug)]
pub struct InventoryLog {
    pub id: i32,
    pub item_id: i32,
    pub quantity_change: i32,
    pub quantity_after: i32,
    pub operation_type: String,
    pub source: String,
    pub notes: Option<String>,
    pub created_at: String,
}

/// What a caller supplies to create a location.
#[derive(Debug)]
pub struct LocationInput {
    pub name: String,
    pub parent_id: Option<i32>,
    pub location_type: String,
    pub description: Option<String>,
}

/// What a caller supplies to create or replace an item.
#[derive(Debug)]
pub struct ItemInput {
    pub name: String,
    pub category: Option<String>,
    pub specifications: Option<String>,
    pub quantity: i32,
    pub unit: Option<String>,
    pub location_id: Option<i32>,
    pub min_quantity: Option<i32>,
    pub notes: Option<String>,
    pub image_path: Option<String>,
}

/// Which items a listing shows.
#[derive(Debug)]
pub struct ItemFilter {
    pub category: Option<String>,
    pub location_id: Option<i32>,
    pub search: Option<String>,
}

/// A location's symbol, rendered and wrapped for transport.
#[derive(Debug)]
pub struct QRCodeResult {
    pub id: i32,
    pub qr_data: String,
    pub name: String,
}

/// How a synchronization run ended.
#[derive(Debug)]
pub struct SyncResult {
    pub success: bool,
    pub message: String,
    pub timestamp: String,
}

impl Item {
    /// The label data of this item, given the name and the code of the
    /// location that holds it.
    pub fn label_record(&self, location: Option<String>, qr_id: Option<String>) -> (record:
        LabelRecord)
        ensures
            record.id == self.id,
            record.name@ == self.name@,
            crate::text::opt_text(record.specifications) == crate::text::opt_text(
                self.specifications,
            ),
            record.quantity == self.quantity,
            crate::text::opt_text(record.unit) == crate::text::opt_text(self.unit),
            record.location == location,
            record.qr_id == qr_id,
    {
        LabelRecord {
            id: self.id,
            name: self.name.clone(),
            specifications: crate::text::clone_opt(&self.specifications),
            quantity: self.quantity,
            unit: crate::text::clone_opt(&self.unit),
            location,
            qr_id,
        }
    }
}

} // verus!
