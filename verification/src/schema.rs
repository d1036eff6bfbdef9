//! Result schemas: ordered sequences of typed named columns, and their
//! serialization into the wire's columnar schema-exchange format.

use vstd::prelude::*;

verus! {

/// The column types the gateway can describe on the wire.
#[derive(Clone, Copy, Debug, PartialEq, Eq, Structural)]
pub enum ColumnType {
    Boolean,
    UInt8,
    Int32,
    Int64,
    Utf8,
}

/// One typed, named column of a result schema.
#[derive(Debug)]
pub struct Column {
    pub name: String,
    pub column_type: ColumnType,
    pub nullable: bool,
}

/// Mathematical image of a [`Column`].
pub ghost struct ColumnV {
    pub name: Seq<char>,
    pub column_type: ColumnType,
    pub nullable: bool,
}

impl View for Column {
    type V = ColumnV;

    open spec fn view(&self) -> ColumnV {
        ColumnV { name: self.name@, column_type: self.column_type, nullable: self.nullable }
    }
}

/// An ordered sequence of typed named columns.
#[derive(Debug)]
pub struct Schema {
    pub columns: Vec<Column>,
}

impl View for Schema {
    type V = Seq<ColumnV>;

    open spec fn view(&self) -> Seq<ColumnV> {
        Seq::new(self.columns@.len(), |i: int| self.columns@[i]@)
    }
}

/// The bytes of the encapsulated Arrow IPC schema message for a schema.
/// The encoding is a function of the schema alone; its exact byte layout
/// is left abstract here and fixed by the serializer below.
pub uninterp spec fn ipc_bytes_of(columns: Seq<ColumnV>) -> Seq<u8>;

/// Relies on `arrow_flight::SchemaAsIpc` and its `TryFrom` conversion to
/// `arrow_flight::IpcMessage`: the encapsulated IPC message is computed
/// from the schema and the default write options alone.  For a schema
/// message the conversion cannot fail: its encoded body is empty, so the
/// alignment check passes, and the sink is a `Vec`, whose writes never
/// error; the result is therefore owed.
#[verifier::external_body]
pub(crate) fn schema_ipc_bytes(schema: &Schema) -> (r: Vec<u8>)
    ensures
        r@ == ipc_bytes_of(schema@),
{
    let fields: Vec<arrow_schema::Field> = schema.columns.iter().map(|c| {
        arrow_schema::Field::new(c.name.clone(), match c.column_type {
            ColumnType::Boolean => arrow_schema::DataType::Boolean,
            ColumnType::UInt8 => arrow_schema::DataType::UInt8,
            ColumnType::Int32 => arrow_schema::DataType::Int32,
            ColumnType::Int64 => arrow_schema::DataType::Int64,
            ColumnType::Utf8 => arrow_schema::DataType::Utf8,
        }, c.nullable)
    }).collect();
    let arrow = arrow_schema::Schema::new(fields);
    let opts = arrow_ipc::writer::IpcWriteOptions::default();
    let message = arrow_flight::IpcMessage::try_from(arrow_flight::SchemaAsIpc::new(&arrow, &opts))
        .expect("an IPC schema message always writes cleanly into a Vec");
    message.0.to_vec()
}

} // verus!
