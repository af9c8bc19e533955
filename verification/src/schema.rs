use vstd::prelude::*;
use vstd::string::StringExecFns;

use crate::errors::StoreError;

verus! {

/// The logical column types a chunk table uses.
///
/// `FixedSizeListFloat32 { dim }` models a fixed-size list of 32-bit floats of
/// width `dim` (the entries themselves are carried as bit patterns elsewhere
/// in this library).
#[derive(Clone, Copy, Debug, PartialEq, Eq, Structural)]
pub enum ColumnType {
    Int32,
    Utf8,
    ListUtf8,
    FixedSizeListFloat32 { dim: i32 },
}

/// One named, typed column of a table schema.
pub struct Field {
    pub name: String,
    pub column_type: ColumnType,
    pub nullable: bool,
}

/// The declared column layout of a table.
pub struct Schema {
    pub fields: Vec<Field>,
}

/// The fixed five-column layout of a chunk table with embedding width `dim`:
/// `{id: int32, file_path: utf8, source_block_ids: list<utf8>, text: utf8,
/// embedding: fixed_size_list<float32, dim>}`, none of them nullable.
pub open spec fn is_chunk_schema(s: Schema, dim: int) -> bool {
    &&& s.fields@.len() == 5
    &&& s.fields@[0].name@ == "id"@
    &&& s.fields@[0].column_type == ColumnType::Int32
    &&& !s.fields@[0].nullable
    &&& s.fields@[1].name@ == "file_path"@
    &&& s.fields@[1].column_type == ColumnType::Utf8
    &&& !s.fields@[1].nullable
    &&& s.fields@[2].name@ == "source_block_ids"@
    &&& s.fields@[2].column_type == ColumnType::ListUtf8
    &&& !s.fields@[2].nullable
    &&& s.fields@[3].name@ == "text"@
    &&& s.fields@[3].column_type == ColumnType::Utf8
    &&& !s.fields@[3].nullable
    &&& s.fields@[4].name@ == "embedding"@
    &&& (s.fields@[4].column_type matches ColumnType::FixedSizeListFloat32 { dim: d } && d as int
        == dim)
    &&& !s.fields@[4].nullable
}

/// Produces the fixed five-column layout for the given embedding width.
///
/// Pure: no I/O, no side effects. A non-positive width is rejected.
pub fn define_schema(embed_dim: i32) -> (r: Result<Schema, StoreError>)
    ensures
        embed_dim <= 0 ==> r == Err::<Schema, StoreError>(StoreError::InvalidInput),
        embed_dim > 0 ==> (r matches Ok(s) && is_chunk_schema(s, embed_dim as int)),
{
    if embed_dim <= 0 {
        return Err(StoreError::InvalidInput);
    }
    let mut fields: Vec<Field> = Vec::new();
    fields.push(Field {
        name: String::from_str("id"),
        column_type: ColumnType::Int32,
        nullable: false,
    });
    fields.push(Field {
        name: String::from_str("file_path"),
        column_type: ColumnType::Utf8,
        nullable: false,
    });
    fields.push(Field {
        name: String::from_str("source_block_ids"),
        column_type: ColumnType::ListUtf8,
        nullable: false,
    });
    fields.push(Field {
        name: String::from_str("text"),
        column_type: ColumnType::Utf8,
        nullable: false,
    });
    fields.push(Field {
        name: String::from_str("embedding"),
        column_type: ColumnType::FixedSizeListFloat32 { dim: embed_dim },
        nullable: false,
    });
    Ok(Schema { fields })
}

} // verus!
