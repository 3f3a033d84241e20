//! The statements that each managed entity offers, and the error they report.

use vstd::prelude::*;

verus! {

/// A JSON (de)serialization failure, carried as it is.
#[verifier::external_type_specification]
#[verifier::external_body]
pub struct ExSerdeJsonError(serde_json::Error);

/// Why a statement or a value could not be produced.
pub enum SqlRenderError {
    /// A value could not be serialized or deserialized as JSON.
    SerdeJson(serde_json::Error),
    /// Any other failure, described.
    OtherError(&'static str),
}

/// The statement text of a managed entity.
pub trait SqlRender {
    /// Every row.
    fn select_sql(&self) -> Result<String, SqlRenderError>;

    /// Every row that is not soft-deleted.
    fn scoped_select_sql(&self) -> Result<String, SqlRenderError>;

    /// Inserts a row.
    fn insert_sql(&self) -> Result<String, SqlRenderError>;

    /// Updates the row with this `id`.
    fn update_sql(&self) -> Result<String, SqlRenderError>;

    /// Removes the row with this `id`.
    fn delete_sql(&self) -> Result<String, SqlRenderError>;

    /// Marks the row with this `id` as deleted.
    fn soft_delete_sql(&self) -> Result<String, SqlRenderError>;

    /// The name of the table.
    fn table_name(&self) -> &'static str;
}

} // verus!
