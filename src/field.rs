//! Field definitions, referenced from views by their ids.
use vstd::prelude::*;

use crate::order::OrderIdentifiable;

verus! {

/// A column of a database.
#[derive(Debug, PartialEq)]
pub struct Field {
    pub id: String,
    pub name: String,
    pub field_type: i64,
    pub is_primary: bool,
}

impl Clone for Field {
    fn clone(&self) -> (r: Field)
        ensures
            r == *self,
    {
        Field {
            id: self.id.clone(),
            name: self.name.clone(),
            field_type: self.field_type,
            is_primary: self.is_primary,
        }
    }
}

impl Field {
    pub fn new(id: String, name: String, field_type: i64, is_primary: bool) -> (r: Field)
        ensures
            r == (Field { id, name, field_type, is_primary }),
    {
        Field { id, name, field_type, is_primary }
    }
}

impl OrderIdentifiable for Field {
    open spec fn spec_id(&self) -> Seq<char> {
        self.id@
    }

    fn identify_id(&self) -> (r: String) {
        self.id.clone()
    }

    fn has_id(&self, id: &String) -> (r: bool) {
        self.id == *id
    }
}

impl crate::order::OrderCopy for Field {
    fn copy_order(&self) -> (r: Self) {
        self.clone()
    }
}

} // verus!
