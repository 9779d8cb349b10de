//! One column value ready for storage.

use vstd::prelude::*;
use crate::codec::ParsedMoveValue;

verus! {

/// A decoded column value with its column's name, type tag and key flag.
#[derive(Debug)]
pub struct DBData {
    pub column_name: String,
    pub column_type: String,
    pub column_value: ParsedMoveValue,
    pub is_primary_key: bool,
}

impl DBData {
    pub fn new(column_name: String, column_type: String, column_value: ParsedMoveValue, is_primary_key: bool) -> (r: Self)
        ensures
            r.column_name == column_name,
            r.column_type == column_type,
            r.column_value == column_value,
            r.is_primary_key == is_primary_key,
    {
        DBData { column_name, column_type, column_value, is_primary_key }
    }
}

} // verus!
