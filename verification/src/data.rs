//! The value model: typed values, their one-byte type tags and byte
//! encodings, and the decoder for a single value off the wire.

use vstd::prelude::*;
use vstd::utf8::{decode_utf8, encode_utf8, valid_utf8};

use crate::protocol_error::MicrobatProtocolError;
use crate::static_values::{TYPE_BYTE_INTEGER, TYPE_BYTE_NULL, TYPE_BYTE_VARCHAR};
use crate::text::string_from_utf8;
use crate::wire::{spec_u32_be, spec_u32_of_be, u32_from_be_bytes, u32_to_be_bytes};

verus! {

/// Error raised by the data layer: a type mismatch, a column-count mismatch,
/// or an empty schema.
#[derive(Debug)]
pub struct DataError {
    pub msg: String,
}

/// The data types of microbat, without values: usable for type checking.
#[derive(Debug, PartialEq, Eq, Structural, Clone, Copy)]
pub enum MDataType {
    Null,
    Integer,
    Varchar,
}

/// A value of microbat: the tagged union of nothing, a 32-bit signed integer
/// and a string.
#[derive(Debug, PartialEq)]
pub enum MData {
    Null,
    Integer(i32),
    Varchar(String),
}

impl Clone for MData {
    fn clone(&self) -> (r: Self)
        ensures
            r == self,
    {
        match self {
            MData::Null => MData::Null,
            MData::Integer(v) => MData::Integer(*v),
            MData::Varchar(s) => MData::Varchar(s.clone()),
        }
    }
}

impl MData {
    /// The byte encoding of this value: nothing for null, four big-endian
    /// bytes for an integer, the UTF-8 bytes for a varchar.
    pub open spec fn spec_bytes(&self) -> Seq<u8> {
        match self {
            MData::Null => Seq::<u8>::empty(),
            MData::Integer(v) => spec_u32_be(*v as u32),
            MData::Varchar(s) => encode_utf8(s@),
        }
    }

    /// The one-byte type tag of this value.
    pub open spec fn spec_type_byte(&self) -> u8 {
        match self {
            MData::Null => TYPE_BYTE_NULL,
            MData::Integer(_) => TYPE_BYTE_INTEGER,
            MData::Varchar(_) => TYPE_BYTE_VARCHAR,
        }
    }

    /// The data type of this value.
    pub open spec fn spec_matcher(&self) -> MDataType {
        match self {
            MData::Null => MDataType::Null,
            MData::Integer(_) => MDataType::Integer,
            MData::Varchar(_) => MDataType::Varchar,
        }
    }

    pub fn bytes(&self) -> (r: Vec<u8>)
        ensures
            r@ == self.spec_bytes(),
    {
        match self {
            MData::Null => Vec::new(),
            MData::Varchar(value) => value.as_str().as_bytes_vec(),
            MData::Integer(value) => u32_to_be_bytes(*value as u32),
        }
    }

    pub fn type_byte(&self) -> (r: u8)
        ensures
            r == self.spec_type_byte(),
    {
        match self {
            MData::Null => TYPE_BYTE_NULL,
            MData::Varchar(_) => TYPE_BYTE_VARCHAR,
            MData::Integer(_) => TYPE_BYTE_INTEGER,
        }
    }

    pub fn matcher(&self) -> (r: MDataType)
        ensures
            r == self.spec_matcher(),
    {
        match self {
            MData::Null => MDataType::Null,
            MData::Integer(_) => MDataType::Integer,
            MData::Varchar(_) => MDataType::Varchar,
        }
    }

    /// Adds two integers, wrapping on overflow; any other combination of
    /// operands is a data error.
    pub fn apply_plus(&self, right: MData) -> (r: Result<MData, DataError>)
        ensures
            (match (self, right) {
                (MData::Integer(l), MData::Integer(rv)) => r matches Ok(d) && d == MData::Integer(
                    l.wrapping_add(rv),
                ),
                _ => r matches Err(e) && e.msg@ == "Can't apply plus on these operands"@,
            }),
    {
        match (self, &right) {
            (MData::Integer(l_value), MData::Integer(r_value)) => {
                Ok(MData::Integer(l_value.wrapping_add(*r_value)))
            },
            _ => Err(DataError { msg: "Can't apply plus on these operands".to_owned() }),
        }
    }

    /// Subtracts two integers, wrapping on overflow; any other combination of
    /// operands is a data error.
    pub fn apply_minus(&self, right: MData) -> (r: Result<MData, DataError>)
        ensures
            (match (self, right) {
                (MData::Integer(l), MData::Integer(rv)) => r matches Ok(d) && d == MData::Integer(
                    l.wrapping_sub(rv),
                ),
                _ => r matches Err(e) && e.msg@ == "Can't apply minus on these operands"@,
            }),
    {
        match (self, &right) {
            (MData::Integer(l_value), MData::Integer(r_value)) => {
                Ok(MData::Integer(l_value.wrapping_sub(*r_value)))
            },
            _ => Err(DataError { msg: "Can't apply minus on these operands".to_owned() }),
        }
    }
}

/// True when a type tag and a payload form a decodable value column.
pub open spec fn spec_column_decodes(marker: u8, bytes: Seq<u8>) -> bool {
    ||| marker == TYPE_BYTE_NULL
    ||| (marker == TYPE_BYTE_INTEGER && bytes.len() == 4)
    ||| (marker == TYPE_BYTE_VARCHAR && valid_utf8(bytes))
}

/// What a successfully decoded value says about the tag and payload it came
/// from.
pub open spec fn spec_column_value(marker: u8, bytes: Seq<u8>, d: MData) -> bool {
    match d {
        MData::Null => marker == TYPE_BYTE_NULL,
        MData::Integer(v) => marker == TYPE_BYTE_INTEGER && bytes.len() == 4 && v as u32
            == spec_u32_of_be(bytes[0], bytes[1], bytes[2], bytes[3]),
        MData::Varchar(s) => marker == TYPE_BYTE_VARCHAR && s@ == decode_utf8(bytes),
    }
}

/// Decodes one value from its type tag and payload bytes.
pub fn deserialize_data_column(marker: u8, bytes: &[u8]) -> (r: Result<
    MData,
    MicrobatProtocolError,
>)
    ensures
        (match r {
            Ok(d) => spec_column_decodes(marker, bytes@) && spec_column_value(marker, bytes@, d),
            Err(_) => !spec_column_decodes(marker, bytes@),
        }),
{
    if marker == TYPE_BYTE_NULL {
        Ok(MData::Null)
    } else if marker == TYPE_BYTE_INTEGER {
        if bytes.len() != 4 {
            return Err(MicrobatProtocolError::new("Integer column is not four bytes"));
        }
        let value = u32_from_be_bytes(bytes[0], bytes[1], bytes[2], bytes[3]);
        proof {
            assert((value as i32) as u32 == value) by (bit_vector);
        }
        Ok(MData::Integer(#[verifier::truncate] (value as i32)))
    } else if marker == TYPE_BYTE_VARCHAR {
        let mut payload: Vec<u8> = Vec::new();
        let mut i: usize = 0;
        while i < bytes.len()
            invariant
                i <= bytes@.len(),
                payload@ == bytes@.take(i as int),
            decreases bytes@.len() - i,
        {
            payload.push(bytes[i]);
            i = i + 1;
            proof {
                assert(payload@ =~= bytes@.take(i as int));
            }
        }
        proof {
            assert(payload@ =~= bytes@);
        }
        match string_from_utf8(payload) {
            Some(value) => Ok(MData::Varchar(value)),
            None => Err(MicrobatProtocolError::new("Varchar column is not valid UTF-8")),
        }
    } else {
        Err(MicrobatProtocolError::new("Unknown data column marker"))
    }
}

/// Equality of values up to string contents: strings are compared by their
/// characters, not by their allocation.
pub open spec fn mdata_eq(a: MData, b: MData) -> bool {
    match (a, b) {
        (MData::Null, MData::Null) => true,
        (MData::Integer(x), MData::Integer(y)) => x == y,
        (MData::Varchar(s), MData::Varchar(t)) => s@ == t@,
        _ => false,
    }
}

/// A value's own tag and bytes always decode, and whatever decodes from them
/// is the value itself: one value round-trips over the wire exactly.
pub proof fn lemma_data_column_round_trip(d: MData)
    ensures
        spec_column_decodes(d.spec_type_byte(), d.spec_bytes()),
        forall|d2: MData|
            spec_column_value(d.spec_type_byte(), d.spec_bytes(), d2) ==> mdata_eq(d2, d),
{
    match d {
        MData::Null => {
            assert forall|d2: MData|
                spec_column_value(d.spec_type_byte(), d.spec_bytes(), d2) implies mdata_eq(
                d2,
                d,
            ) by {}
        },
        MData::Integer(v) => {
            crate::wire::lemma_u32_be_round_trip(v as u32);
            assert forall|d2: MData|
                spec_column_value(d.spec_type_byte(), d.spec_bytes(), d2) implies mdata_eq(
                d2,
                d,
            ) by {
                if let MData::Integer(v2) = d2 {
                    assert(v2 as u32 == v as u32);
                    assert(v2 == v) by (bit_vector)
                        requires
                            v2 as u32 == v as u32,
                    ;
                }
            }
        },
        MData::Varchar(s) => {
            vstd::utf8::encode_utf8_valid_utf8(s@);
            vstd::utf8::encode_utf8_decode_utf8(s@);
            assert forall|d2: MData|
                spec_column_value(d.spec_type_byte(), d.spec_bytes(), d2) implies mdata_eq(
                d2,
                d,
            ) by {}
        },
    }
}

/// A described result column: a display name and a data type.
#[derive(Debug, PartialEq)]
pub struct Column {
    pub name: String,
    pub data_type: MDataType,
}

impl Clone for Column {
    fn clone(&self) -> (r: Self)
        ensures
            r == self,
    {
        Column { name: self.name.clone(), data_type: self.data_type }
    }
}

impl Column {
    pub fn new(name: String, data_type: MDataType) -> (r: Self)
        ensures
            r.name == name,
            r.data_type == data_type,
    {
        Column { name, data_type }
    }
}

/// The description of the rows of a result set: its columns, in order.
#[derive(Debug, PartialEq)]
pub struct DataDescription {
    pub columns: Vec<Column>,
}

/// One row of a result set: its values, in column order.
#[derive(Debug, PartialEq)]
pub struct DataRow {
    pub columns: Vec<MData>,
}

impl Clone for DataRow {
    fn clone(&self) -> (r: Self)
        ensures
            r.columns@ == self.columns@,
    {
        DataRow { columns: clone_values(&self.columns) }
    }
}

impl DataRow {
    pub fn new(columns: Vec<MData>) -> (r: DataRow)
        ensures
            r.columns == columns,
    {
        DataRow { columns }
    }
}

/// A copy of a vector of values, element for element.
pub fn clone_values(values: &Vec<MData>) -> (r: Vec<MData>)
    ensures
        r@ == values@,
{
    let mut r: Vec<MData> = Vec::new();
    let mut i: usize = 0;
    while i < values.len()
        invariant
            i <= values@.len(),
            r@ == values@.take(i as int),
        decreases values@.len() - i,
    {
        r.push(values[i].clone());
        i = i + 1;
        proof {
            assert(r@ =~= values@.take(i as int));
        }
    }
    proof {
        assert(r@ =~= values@);
    }
    r
}

} // verus!
