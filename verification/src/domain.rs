/// Transaction record and the value types of its fields.
pub mod tx;
