//! The messages a server can send: a handshake, a ready barrier, an error,
//! the description of a result set, its data rows, and an insert count.

use vstd::prelude::*;
use vstd::utf8::{decode_utf8, encode_utf8, valid_utf8};

use crate::data::{
    mdata_eq, spec_column_decodes, spec_column_value, Column, DataDescription, DataRow, MData,
    MDataType,
};
use crate::messages::{spec_str_with_length, str_with_length, MicrobatMessage};
use crate::protocol_error::MicrobatProtocolError;
use crate::static_values::{
    server_handshake_payload, server_ready_payload, SERVER_MSG_TYPE_DATA_ROW,
    SERVER_MSG_TYPE_ERROR, SERVER_MSG_TYPE_HANDSHAKE, SERVER_MSG_TYPE_INSERT_RESULT,
    SERVER_MSG_TYPE_READY_FOR_QUERY, SERVER_MSG_TYPE_ROW_DESCRIPTION,
};
use crate::text::string_from_utf8;
use crate::wire::{
    copy_range, lemma_frame_boundaries, lemma_u32_le_round_trip, spec_frame, spec_len_field,
    spec_u32_le, spec_u32_of_le, u32_from_le_bytes, u32_to_le_bytes,
};

verus! {

/// A message from the server to the client.
#[derive(Debug, PartialEq)]
pub enum MicrobatServerMessage {
    Handshake,
    Error(String),
    DataDescription(DataDescription),
    DataRow(DataRow),
    InsertResult(u32),
    Ready,
}

/// The view of a column list as the sequence of its names.
pub open spec fn spec_names_of(columns: Seq<Column>) -> Seq<Seq<char>> {
    columns.map_values(|c: Column| c.name@)
}

/// The payload of a row description: for each column, the little-endian byte
/// length of its name, then the name's UTF-8 bytes.
pub open spec fn spec_desc_payload(columns: Seq<Column>) -> Seq<u8>
    decreases columns.len(),
{
    if columns.len() == 0 {
        Seq::<u8>::empty()
    } else {
        spec_str_with_length(columns[0].name@) + spec_desc_payload(columns.drop_first())
    }
}

/// The wire block of one value: its type tag, the little-endian byte length
/// of its encoding, then the encoding.
pub open spec fn spec_value_block(d: MData) -> Seq<u8> {
    seq![d.spec_type_byte()] + spec_len_field(d.spec_bytes().len() as int) + d.spec_bytes()
}

/// The payload of a data row: the wire blocks of its values, in order.
pub open spec fn spec_row_payload(values: Seq<MData>) -> Seq<u8>
    decreases values.len(),
{
    if values.len() == 0 {
        Seq::<u8>::empty()
    } else {
        spec_value_block(values[0]) + spec_row_payload(values.drop_first())
    }
}

proof fn lemma_desc_payload_push(columns: Seq<Column>, c: Column)
    ensures
        spec_desc_payload(columns.push(c)) == spec_desc_payload(columns) + spec_str_with_length(
            c.name@,
        ),
    decreases columns.len(),
{
    if columns.len() == 0 {
        let p = columns.push(c);
        assert(p.drop_first() =~= Seq::<Column>::empty());
        assert(p[0] == c);
        assert(spec_desc_payload(p) == spec_str_with_length(c.name@) + spec_desc_payload(
            p.drop_first(),
        ));
        assert(spec_desc_payload(p.drop_first()) == Seq::<u8>::empty());
        assert(spec_str_with_length(c.name@) + Seq::<u8>::empty() =~= Seq::<u8>::empty()
            + spec_str_with_length(c.name@));
    } else {
        assert(columns.push(c).drop_first() =~= columns.drop_first().push(c));
        lemma_desc_payload_push(columns.drop_first(), c);
        assert(columns.push(c)[0] == columns[0]);
        assert(spec_desc_payload(columns.push(c)) == spec_str_with_length(columns[0].name@) + (
        spec_desc_payload(columns.drop_first()) + spec_str_with_length(c.name@)));
        assert(spec_str_with_length(columns[0].name@) + (spec_desc_payload(columns.drop_first())
            + spec_str_with_length(c.name@)) =~= (spec_str_with_length(columns[0].name@)
            + spec_desc_payload(columns.drop_first())) + spec_str_with_length(c.name@));
    }
}

proof fn lemma_row_payload_push(values: Seq<MData>, d: MData)
    ensures
        spec_row_payload(values.push(d)) == spec_row_payload(values) + spec_value_block(d),
    decreases values.len(),
{
    if values.len() == 0 {
        let p = values.push(d);
        assert(p.drop_first() =~= Seq::<MData>::empty());
        assert(p[0] == d);
        assert(spec_row_payload(p) == spec_value_block(d) + spec_row_payload(p.drop_first()));
        assert(spec_row_payload(p.drop_first()) == Seq::<u8>::empty());
        assert(spec_value_block(d) + Seq::<u8>::empty() =~= Seq::<u8>::empty() + spec_value_block(
            d,
        ));
    } else {
        assert(values.push(d).drop_first() =~= values.drop_first().push(d));
        lemma_row_payload_push(values.drop_first(), d);
        assert(values.push(d)[0] == values[0]);
        assert(spec_row_payload(values.push(d)) == spec_value_block(values[0]) + (spec_row_payload(
            values.drop_first(),
        ) + spec_value_block(d)));
        assert(spec_value_block(values[0]) + (spec_row_payload(values.drop_first())
            + spec_value_block(d)) =~= (spec_value_block(values[0]) + spec_row_payload(
            values.drop_first(),
        )) + spec_value_block(d));
    }
}

impl MicrobatMessage for MicrobatServerMessage {
    open spec fn spec_message_type(&self) -> u8 {
        match self {
            MicrobatServerMessage::Handshake => SERVER_MSG_TYPE_HANDSHAKE,
            MicrobatServerMessage::Ready => SERVER_MSG_TYPE_READY_FOR_QUERY,
            MicrobatServerMessage::Error(_) => SERVER_MSG_TYPE_ERROR,
            MicrobatServerMessage::DataDescription(_) => SERVER_MSG_TYPE_ROW_DESCRIPTION,
            MicrobatServerMessage::DataRow(_) => SERVER_MSG_TYPE_DATA_ROW,
            MicrobatServerMessage::InsertResult(_) => SERVER_MSG_TYPE_INSERT_RESULT,
        }
    }

    open spec fn spec_payload(&self) -> Seq<u8> {
        match self {
            MicrobatServerMessage::Handshake => encode_utf8("hello client"@),
            MicrobatServerMessage::Ready => encode_utf8("shoot"@),
            MicrobatServerMessage::Error(error) => encode_utf8(error@),
            MicrobatServerMessage::DataDescription(d) => spec_desc_payload(d.columns@),
            MicrobatServerMessage::DataRow(r) => spec_row_payload(r.columns@),
            MicrobatServerMessage::InsertResult(n) => spec_u32_le(*n),
        }
    }

    fn as_bytes(&self) -> (r: Vec<u8>) {
        match self {
            MicrobatServerMessage::Handshake => {
                let payload = str_with_length(server_handshake_payload());
                let mut bytes: Vec<u8> = Vec::new();
                bytes.push(SERVER_MSG_TYPE_HANDSHAKE);
                let mut rest = payload;
                bytes.append(&mut rest);
                proof {
                    assert(bytes@ =~= crate::wire::spec_frame(
                        self.spec_message_type(),
                        self.spec_payload(),
                    ));
                }
                bytes
            },
            MicrobatServerMessage::Ready => {
                let payload = str_with_length(server_ready_payload());
                let mut bytes: Vec<u8> = Vec::new();
                bytes.push(SERVER_MSG_TYPE_READY_FOR_QUERY);
                let mut rest = payload;
                bytes.append(&mut rest);
                proof {
                    assert(bytes@ =~= crate::wire::spec_frame(
                        self.spec_message_type(),
                        self.spec_payload(),
                    ));
                }
                bytes
            },
            MicrobatServerMessage::Error(error) => {
                let payload = str_with_length(error.as_str());
                let mut bytes: Vec<u8> = Vec::new();
                bytes.push(SERVER_MSG_TYPE_ERROR);
                let mut rest = payload;
                bytes.append(&mut rest);
                proof {
                    assert(bytes@ =~= crate::wire::spec_frame(
                        self.spec_message_type(),
                        self.spec_payload(),
                    ));
                }
                bytes
            },
            MicrobatServerMessage::DataDescription(description) => {
                let mut column_bytes: Vec<u8> = Vec::new();
                let mut i: usize = 0;
                while i < description.columns.len()
                    invariant
                        i <= description.columns@.len(),
                        column_bytes@ == spec_desc_payload(description.columns@.take(i as int)),
                    decreases description.columns@.len() - i,
                {
                    let mut block = str_with_length(description.columns[i].name.as_str());
                    column_bytes.append(&mut block);
                    proof {
                        lemma_desc_payload_push(
                            description.columns@.take(i as int),
                            description.columns@[i as int],
                        );
                        assert(description.columns@.take(i + 1 as int)
                            =~= description.columns@.take(i as int).push(
                            description.columns@[i as int],
                        ));
                    }
                    i = i + 1;
                }
                proof {
                    assert(description.columns@.take(description.columns@.len() as int)
                        =~= description.columns@);
                }
                crate::wire::make_frame(SERVER_MSG_TYPE_ROW_DESCRIPTION, column_bytes)
            },
            MicrobatServerMessage::DataRow(data_row) => {
                let mut column_bytes: Vec<u8> = Vec::new();
                let mut i: usize = 0;
                while i < data_row.columns.len()
                    invariant
                        i <= data_row.columns@.len(),
                        column_bytes@ == spec_row_payload(data_row.columns@.take(i as int)),
                    decreases data_row.columns@.len() - i,
                {
                    let data_bytes = data_row.columns[i].bytes();
                    column_bytes.push(data_row.columns[i].type_byte());
                    let mut len_bytes = crate::wire::len_field(data_bytes.len());
                    column_bytes.append(&mut len_bytes);
                    let mut data_bytes = data_bytes;
                    column_bytes.append(&mut data_bytes);
                    proof {
                        lemma_row_payload_push(
                            data_row.columns@.take(i as int),
                            data_row.columns@[i as int],
                        );
                        assert(data_row.columns@.take(i + 1 as int) =~= data_row.columns@.take(
                            i as int,
                        ).push(data_row.columns@[i as int]));
                        assert(column_bytes@ =~= spec_row_payload(
                            data_row.columns@.take(i + 1 as int),
                        ));
                    }
                    i = i + 1;
                }
                proof {
                    assert(data_row.columns@.take(data_row.columns@.len() as int)
                        =~= data_row.columns@);
                }
                crate::wire::make_frame(SERVER_MSG_TYPE_DATA_ROW, column_bytes)
            },
            MicrobatServerMessage::InsertResult(size) => {
                let payload = u32_to_le_bytes(*size);
                crate::wire::make_frame(SERVER_MSG_TYPE_INSERT_RESULT, payload)
            },
        }
    }
}

/// True when a row-description payload parses as a sequence of
/// length-prefixed, valid-UTF-8 column names.
pub open spec fn spec_desc_decodes(bytes: Seq<u8>) -> bool
    decreases bytes.len(),
{
    if bytes.len() == 0 {
        true
    } else if bytes.len() < 4 {
        false
    } else {
        let n = spec_u32_of_le(bytes[0], bytes[1], bytes[2], bytes[3]) as int;
        &&& 4 + n <= bytes.len()
        &&& valid_utf8(bytes.subrange(4, 4 + n))
        &&& spec_desc_decodes(bytes.skip(4 + n))
    }
}

/// The column names carried by a row-description payload.
pub open spec fn spec_desc_names(bytes: Seq<u8>) -> Seq<Seq<char>>
    decreases bytes.len(),
{
    if bytes.len() < 4 {
        Seq::<Seq<char>>::empty()
    } else {
        let n = spec_u32_of_le(bytes[0], bytes[1], bytes[2], bytes[3]) as int;
        if 4 + n <= bytes.len() {
            seq![decode_utf8(bytes.subrange(4, 4 + n))] + spec_desc_names(bytes.skip(4 + n))
        } else {
            Seq::<Seq<char>>::empty()
        }
    }
}

/// True when a data-row payload parses as a sequence of tagged,
/// length-prefixed value blocks.
pub open spec fn spec_row_decodes(bytes: Seq<u8>) -> bool
    decreases bytes.len(),
{
    if bytes.len() == 0 {
        true
    } else if bytes.len() < 5 {
        false
    } else {
        let n = spec_u32_of_le(bytes[1], bytes[2], bytes[3], bytes[4]) as int;
        &&& 5 + n <= bytes.len()
        &&& spec_column_decodes(bytes[0], bytes.subrange(5, 5 + n))
        &&& spec_row_decodes(bytes.skip(5 + n))
    }
}

/// The (type tag, payload) pairs carried by a data-row payload.
pub open spec fn spec_row_blocks(bytes: Seq<u8>) -> Seq<(u8, Seq<u8>)>
    decreases bytes.len(),
{
    if bytes.len() < 5 {
        Seq::<(u8, Seq<u8>)>::empty()
    } else {
        let n = spec_u32_of_le(bytes[1], bytes[2], bytes[3], bytes[4]) as int;
        if 5 + n <= bytes.len() {
            seq![(bytes[0], bytes.subrange(5, 5 + n))] + spec_row_blocks(bytes.skip(5 + n))
        } else {
            Seq::<(u8, Seq<u8>)>::empty()
        }
    }
}

/// True when a server frame's type byte, declared length and payload can be
/// decoded into a message.
pub open spec fn spec_server_decodable(message_type: u8, length: int, bytes: Seq<u8>) -> bool {
    &&& length == bytes.len()
    &&& {
        ||| message_type == SERVER_MSG_TYPE_HANDSHAKE
        ||| message_type == SERVER_MSG_TYPE_READY_FOR_QUERY
        ||| (message_type == SERVER_MSG_TYPE_ERROR && valid_utf8(bytes))
        ||| (message_type == SERVER_MSG_TYPE_ROW_DESCRIPTION && spec_desc_decodes(bytes))
        ||| (message_type == SERVER_MSG_TYPE_DATA_ROW && spec_row_decodes(bytes))
        ||| (message_type == SERVER_MSG_TYPE_INSERT_RESULT && bytes.len() == 4)
    }
}

/// What a decoded server message says about the frame it came from. A decoded
/// row description carries the names off the wire and reconstructs every
/// column type as `Integer`: the wire does not carry column types.
pub open spec fn spec_server_decoded(
    message_type: u8,
    bytes: Seq<u8>,
    m: MicrobatServerMessage,
) -> bool {
    match m {
        MicrobatServerMessage::Handshake => message_type == SERVER_MSG_TYPE_HANDSHAKE,
        MicrobatServerMessage::Ready => message_type == SERVER_MSG_TYPE_READY_FOR_QUERY,
        MicrobatServerMessage::Error(e) => message_type == SERVER_MSG_TYPE_ERROR && e@
            == decode_utf8(bytes),
        MicrobatServerMessage::DataDescription(d) => {
            &&& message_type == SERVER_MSG_TYPE_ROW_DESCRIPTION
            &&& spec_names_of(d.columns@) == spec_desc_names(bytes)
            &&& forall|i: int|
                0 <= i < d.columns@.len() ==> (#[trigger] d.columns@[i]).data_type
                    == MDataType::Integer
        },
        MicrobatServerMessage::DataRow(r) => {
            &&& message_type == SERVER_MSG_TYPE_DATA_ROW
            &&& r.columns@.len() == spec_row_blocks(bytes).len()
            &&& forall|i: int|
                0 <= i < r.columns@.len() ==> spec_column_value(
                    spec_row_blocks(bytes)[i].0,
                    spec_row_blocks(bytes)[i].1,
                    #[trigger] r.columns@[i],
                )
        },
        MicrobatServerMessage::InsertResult(n) => message_type == SERVER_MSG_TYPE_INSERT_RESULT
            && bytes.len() == 4 && n == spec_u32_of_le(bytes[0], bytes[1], bytes[2], bytes[3]),
    }
}

/// Decodes a server message from its type byte, declared length and payload.
/// The declared length must equal the payload size.
pub fn deserialize_server_message(message_type: u8, length: usize, bytes: &[u8]) -> (r: Result<
    MicrobatServerMessage,
    MicrobatProtocolError,
>)
    ensures
        (match r {
            Ok(m) => spec_server_decodable(message_type, length as int, bytes@)
                && spec_server_decoded(message_type, bytes@, m),
            Err(_) => !spec_server_decodable(message_type, length as int, bytes@),
        }),
{
    if length != bytes.len() {
        return Err(MicrobatProtocolError::new(
            "Byte mismatch error. Expected length does not match received bytes",
        ));
    }
    if message_type == SERVER_MSG_TYPE_HANDSHAKE {
        Ok(MicrobatServerMessage::Handshake)
    } else if message_type == SERVER_MSG_TYPE_READY_FOR_QUERY {
        Ok(MicrobatServerMessage::Ready)
    } else if message_type == SERVER_MSG_TYPE_ERROR {
        let payload = copy_range(bytes, 0, bytes.len());
        proof {
            assert(payload@ =~= bytes@);
        }
        match string_from_utf8(payload) {
            Some(error) => Ok(MicrobatServerMessage::Error(error)),
            None => Err(MicrobatProtocolError::new("Error payload is not valid UTF-8")),
        }
    } else if message_type == SERVER_MSG_TYPE_ROW_DESCRIPTION {
        let mut columns: Vec<Column> = Vec::new();
        let mut pointer: usize = 0;
        proof {
            assert(bytes@.skip(0) =~= bytes@);
        }
        while pointer < bytes.len()
            invariant
                message_type == SERVER_MSG_TYPE_ROW_DESCRIPTION,
                length == bytes@.len(),
                pointer <= bytes@.len(),
                spec_desc_decodes(bytes@) == spec_desc_decodes(bytes@.skip(pointer as int)),
                spec_desc_decodes(bytes@) ==> spec_desc_names(bytes@) == spec_names_of(columns@)
                    + spec_desc_names(bytes@.skip(pointer as int)),
                forall|i: int|
                    0 <= i < columns@.len() ==> (#[trigger] columns@[i]).data_type
                        == MDataType::Integer,
            decreases bytes@.len() - pointer,
        {
            let ghost rest = bytes@.skip(pointer as int);
            if bytes.len() - pointer < 4 {
                proof {
                    assert(rest.len() == bytes@.len() - pointer);
                    assert(!spec_desc_decodes(rest));
                }
                return Err(MicrobatProtocolError::new("Row description payload is truncated"));
            }
            let n32 = u32_from_le_bytes(
                bytes[pointer],
                bytes[pointer + 1],
                bytes[pointer + 2],
                bytes[pointer + 3],
            );
            let n = n32 as usize;
            proof {
                assert(rest[0] == bytes@[pointer as int]);
                assert(rest[1] == bytes@[pointer as int + 1]);
                assert(rest[2] == bytes@[pointer as int + 2]);
                assert(rest[3] == bytes@[pointer as int + 3]);
            }
            if n > bytes.len() - pointer - 4 {
                proof {
                    assert(rest.len() == bytes@.len() - pointer);
                    assert(!spec_desc_decodes(rest));
                }
                return Err(MicrobatProtocolError::new("Row description payload is truncated"));
            }
            let name_bytes = copy_range(bytes, pointer + 4, pointer + 4 + n);
            proof {
                assert(name_bytes@ =~= rest.subrange(4, 4 + n as int));
            }
            match string_from_utf8(name_bytes) {
                Some(name) => {
                    proof {
                        assert(rest.skip(4 + n as int) =~= bytes@.skip(
                            pointer as int + 4 + n as int,
                        ));
                        assert(spec_names_of(columns@.push(Column {
                            name,
                            data_type: MDataType::Integer,
                        })) =~= spec_names_of(columns@).push(name@));
                        assert(spec_desc_decodes(bytes@) ==> spec_desc_names(bytes@)
                            =~= spec_names_of(columns@.push(Column {
                            name,
                            data_type: MDataType::Integer,
                        })) + spec_desc_names(bytes@.skip(pointer as int + 4 + n as int)));
                    }
                    columns.push(Column { name, data_type: MDataType::Integer });
                    pointer = pointer + 4 + n;
                },
                None => {
                    proof {
                        assert(!spec_desc_decodes(rest));
                    }
                    return Err(MicrobatProtocolError::new(
                        "Row description name is not valid UTF-8",
                    ));
                },
            }
        }
        proof {
            assert(bytes@.skip(pointer as int) =~= Seq::<u8>::empty());
            assert(spec_desc_names(bytes@) =~= spec_names_of(columns@));
        }
        Ok(MicrobatServerMessage::DataDescription(DataDescription { columns }))
    } else if message_type == SERVER_MSG_TYPE_DATA_ROW {
        let mut values: Vec<MData> = Vec::new();
        let mut pointer: usize = 0;
        proof {
            assert(bytes@.skip(0) =~= bytes@);
        }
        while pointer < bytes.len()
            invariant
                message_type == SERVER_MSG_TYPE_DATA_ROW,
                length == bytes@.len(),
                pointer <= bytes@.len(),
                spec_row_decodes(bytes@) == spec_row_decodes(bytes@.skip(pointer as int)),
                spec_row_decodes(bytes@) ==> spec_row_blocks(bytes@).len() == values@.len()
                    + spec_row_blocks(bytes@.skip(pointer as int)).len(),
                spec_row_decodes(bytes@) ==> forall|i: int|
                    0 <= i < values@.len() ==> spec_column_value(
                        spec_row_blocks(bytes@)[i].0,
                        spec_row_blocks(bytes@)[i].1,
                        #[trigger] values@[i],
                    ),
                spec_row_decodes(bytes@) ==> forall|j: int|
                    0 <= j < spec_row_blocks(bytes@.skip(pointer as int)).len()
                        ==> #[trigger] spec_row_blocks(bytes@.skip(pointer as int))[j]
                        == spec_row_blocks(bytes@)[values@.len() + j],
            decreases bytes@.len() - pointer,
        {
            let ghost rest = bytes@.skip(pointer as int);
            if bytes.len() - pointer < 5 {
                proof {
                    assert(rest.len() == bytes@.len() - pointer);
                    assert(!spec_row_decodes(rest));
                }
                return Err(MicrobatProtocolError::new("Data row payload is truncated"));
            }
            let column_type = bytes[pointer];
            let n32 = u32_from_le_bytes(
                bytes[pointer + 1],
                bytes[pointer + 2],
                bytes[pointer + 3],
                bytes[pointer + 4],
            );
            let n = n32 as usize;
            proof {
                assert(rest[0] == bytes@[pointer as int]);
                assert(rest[1] == bytes@[pointer as int + 1]);
                assert(rest[2] == bytes@[pointer as int + 2]);
                assert(rest[3] == bytes@[pointer as int + 3]);
                assert(rest[4] == bytes@[pointer as int + 4]);
            }
            if n > bytes.len() - pointer - 5 {
                proof {
                    assert(rest.len() == bytes@.len() - pointer);
                    assert(!spec_row_decodes(rest));
                }
                return Err(MicrobatProtocolError::new("Data row payload is truncated"));
            }
            let value_bytes = copy_range(bytes, pointer + 5, pointer + 5 + n);
            proof {
                assert(value_bytes@ =~= rest.subrange(5, 5 + n as int));
            }
            match crate::data::deserialize_data_column(column_type, value_bytes.as_slice()) {
                Ok(value) => {
                    proof {
                        let next = bytes@.skip(pointer as int + 5 + n as int);
                        assert(rest.skip(5 + n as int) =~= next);
                        if spec_row_decodes(bytes@) {
                            assert(spec_row_blocks(rest) == seq![
                                (rest[0], rest.subrange(5, 5 + n as int)),
                            ] + spec_row_blocks(next));
                            assert(spec_row_blocks(rest)[0] == (column_type, value_bytes@));
                            assert forall|j: int| 0 <= j < spec_row_blocks(next).len() implies #[
                                trigger
                            ] spec_row_blocks(next)[j] == spec_row_blocks(bytes@)[values@.len() + 1
                                + j] by {
                                assert(spec_row_blocks(next)[j] == spec_row_blocks(rest)[j + 1]);
                            }
                        }
                    }
                    values.push(value);
                    pointer = pointer + 5 + n;
                },
                Err(e) => {
                    proof {
                        assert(!spec_column_decodes(column_type, rest.subrange(5, 5 + n as int)));
                        assert(!spec_row_decodes(rest));
                    }
                    return Err(e);
                },
            }
        }
        proof {
            assert(bytes@.skip(pointer as int) =~= Seq::<u8>::empty());
        }
        Ok(MicrobatServerMessage::DataRow(DataRow { columns: values }))
    } else if message_type == SERVER_MSG_TYPE_INSERT_RESULT {
        if bytes.len() != 4 {
            return Err(MicrobatProtocolError::new("Insert result is not four bytes"));
        }
        let n = u32_from_le_bytes(bytes[0], bytes[1], bytes[2], bytes[3]);
        Ok(MicrobatServerMessage::InsertResult(n))
    } else {
        Err(MicrobatProtocolError::new("Received unknown message type"))
    }
}

/// A serialized row description decodes, and yields exactly the column names
/// it was made from.
proof fn lemma_desc_payload_round_trip(columns: Seq<Column>)
    requires
        forall|i: int|
            0 <= i < columns.len() ==> encode_utf8((#[trigger] columns[i]).name@).len()
                < 0x100000000,
    ensures
        spec_desc_decodes(spec_desc_payload(columns)),
        spec_desc_names(spec_desc_payload(columns)) == spec_names_of(columns),
    decreases columns.len(),
{
    if columns.len() == 0 {
        assert(spec_desc_names(spec_desc_payload(columns)) =~= spec_names_of(columns));
    } else {
        let name = columns[0].name@;
        let enc = encode_utf8(name);
        let k = enc.len() as int;
        let p = spec_desc_payload(columns);
        let head = spec_str_with_length(name);
        let tail = spec_desc_payload(columns.drop_first());
        assert(p == head + tail);
        assert(head == spec_len_field(k) + enc);
        assert(k % 0x100000000 == k);
        assert(spec_len_field(k) == spec_u32_le(k as u32));
        lemma_u32_le_round_trip(k as u32);
        assert(p.len() == 4 + k + tail.len());
        assert(p[0] == spec_u32_le(k as u32)[0]);
        assert(p[1] == spec_u32_le(k as u32)[1]);
        assert(p[2] == spec_u32_le(k as u32)[2]);
        assert(p[3] == spec_u32_le(k as u32)[3]);
        assert(spec_u32_of_le(p[0], p[1], p[2], p[3]) == k);
        assert(p.subrange(4, 4 + k) =~= enc);
        vstd::utf8::encode_utf8_valid_utf8(name);
        vstd::utf8::encode_utf8_decode_utf8(name);
        assert(p.skip(4 + k) =~= tail);
        assert(forall|i: int|
            0 <= i < columns.drop_first().len() ==> (#[trigger] columns.drop_first()[i])
                == columns[i + 1]);
        lemma_desc_payload_round_trip(columns.drop_first());
        assert(spec_desc_names(p) == seq![decode_utf8(enc)] + spec_desc_names(tail));
        assert(spec_desc_names(p) =~= spec_names_of(columns));
    }
}

/// A serialized data row decodes, and yields exactly the tag and bytes of
/// each value it was made from.
proof fn lemma_row_payload_round_trip(values: Seq<MData>)
    requires
        forall|i: int|
            0 <= i < values.len() ==> (#[trigger] values[i]).spec_bytes().len() < 0x100000000,
    ensures
        spec_row_decodes(spec_row_payload(values)),
        spec_row_blocks(spec_row_payload(values)).len() == values.len(),
        forall|i: int|
            0 <= i < values.len() ==> #[trigger] spec_row_blocks(spec_row_payload(values))[i] == (
                values[i].spec_type_byte(),
                values[i].spec_bytes(),
            ),
    decreases values.len(),
{
    if values.len() == 0 {
    } else {
        let d = values[0];
        let enc = d.spec_bytes();
        let k = enc.len() as int;
        let p = spec_row_payload(values);
        let head = spec_value_block(d);
        let tail = spec_row_payload(values.drop_first());
        assert(p == head + tail);
        assert(head == seq![d.spec_type_byte()] + spec_len_field(k) + enc);
        assert(k % 0x100000000 == k);
        assert(spec_len_field(k) == spec_u32_le(k as u32));
        lemma_u32_le_round_trip(k as u32);
        assert(p.len() == 5 + k + tail.len());
        assert(p[0] == d.spec_type_byte());
        assert(p[1] == spec_u32_le(k as u32)[0]);
        assert(p[2] == spec_u32_le(k as u32)[1]);
        assert(p[3] == spec_u32_le(k as u32)[2]);
        assert(p[4] == spec_u32_le(k as u32)[3]);
        assert(spec_u32_of_le(p[1], p[2], p[3], p[4]) == k);
        assert(p.subrange(5, 5 + k) =~= enc);
        crate::data::lemma_data_column_round_trip(d);
        assert(spec_column_decodes(p[0], p.subrange(5, 5 + k)));
        assert(p.skip(5 + k) =~= tail);
        assert(forall|i: int|
            0 <= i < values.drop_first().len() ==> (#[trigger] values.drop_first()[i]) == values[i
                + 1]);
        lemma_row_payload_round_trip(values.drop_first());
        assert(spec_row_blocks(p) == seq![(p[0], p.subrange(5, 5 + k))] + spec_row_blocks(tail));
        assert forall|i: int| 0 <= i < values.len() implies #[trigger] spec_row_blocks(p)[i] == (
            values[i].spec_type_byte(),
            values[i].spec_bytes(),
        ) by {
            if i > 0 {
                assert(spec_row_blocks(p)[i] == spec_row_blocks(tail)[i - 1]);
                assert(values.drop_first()[i - 1] == values[i]);
            }
        }
    }
}

/// Equality of server messages up to string contents.
pub open spec fn server_message_eq(a: MicrobatServerMessage, b: MicrobatServerMessage) -> bool {
    match (a, b) {
        (MicrobatServerMessage::Handshake, MicrobatServerMessage::Handshake) => true,
        (MicrobatServerMessage::Ready, MicrobatServerMessage::Ready) => true,
        (MicrobatServerMessage::Error(x), MicrobatServerMessage::Error(y)) => x@ == y@,
        (MicrobatServerMessage::InsertResult(x), MicrobatServerMessage::InsertResult(y)) => x == y,
        (
            MicrobatServerMessage::DataDescription(c),
            MicrobatServerMessage::DataDescription(d),
        ) => {
            &&& c.columns@.len() == d.columns@.len()
            &&& forall|i: int|
                0 <= i < c.columns@.len() ==> (#[trigger] c.columns@[i]).name@
                    == d.columns@[i].name@ && c.columns@[i].data_type == d.columns@[i].data_type
        },
        (MicrobatServerMessage::DataRow(r), MicrobatServerMessage::DataRow(s)) => {
            &&& r.columns@.len() == s.columns@.len()
            &&& forall|i: int|
                0 <= i < r.columns@.len() ==> mdata_eq(
                    #[trigger] r.columns@[i],
                    s.columns@[i],
                )
        },
        _ => false,
    }
}

/// Any server message round-trips over the wire: its own type byte and
/// payload decode, and whatever decodes from them is the message itself.
///
/// The wire does not carry column types, so a row description round-trips
/// exactly only when every column already has the `Integer` type that the
/// decoder reconstructs. The size bounds are machine limits on the four-byte
/// length fields.
pub proof fn lemma_server_message_round_trip(m: MicrobatServerMessage)
    requires
        (match m {
            MicrobatServerMessage::DataDescription(d) => forall|i: int|
                0 <= i < d.columns@.len() ==> encode_utf8(
                    (#[trigger] d.columns@[i]).name@,
                ).len() < 0x100000000 && d.columns@[i].data_type == MDataType::Integer,
            MicrobatServerMessage::DataRow(r) => forall|i: int|
                0 <= i < r.columns@.len() ==> (#[trigger] r.columns@[i]).spec_bytes().len()
                    < 0x100000000,
            _ => true,
        }),
    ensures
        spec_server_decodable(m.spec_message_type(), m.spec_payload().len() as int, m.spec_payload()),
        forall|m2: MicrobatServerMessage|
            spec_server_decoded(m.spec_message_type(), m.spec_payload(), m2) ==> server_message_eq(
                m2,
                m,
            ),
{
    match m {
        MicrobatServerMessage::Handshake => {},
        MicrobatServerMessage::Ready => {},
        MicrobatServerMessage::Error(e) => {
            vstd::utf8::encode_utf8_valid_utf8(e@);
            vstd::utf8::encode_utf8_decode_utf8(e@);
        },
        MicrobatServerMessage::InsertResult(n) => {
            lemma_u32_le_round_trip(n);
            let p = m.spec_payload();
            assert(p == spec_u32_le(n));
            assert(spec_u32_of_le(p[0], p[1], p[2], p[3]) == n);
        },
        MicrobatServerMessage::DataDescription(d) => {
            lemma_desc_payload_round_trip(d.columns@);
            assert forall|m2: MicrobatServerMessage|
                spec_server_decoded(m.spec_message_type(), m.spec_payload(), m2) implies
                server_message_eq(m2, m) by {
                if let MicrobatServerMessage::DataDescription(d2) = m2 {
                    assert(spec_names_of(d2.columns@) == spec_names_of(d.columns@));
                    assert(spec_names_of(d2.columns@).len() == d2.columns@.len());
                    assert(spec_names_of(d.columns@).len() == d.columns@.len());
                    assert(d2.columns@.len() == d.columns@.len());
                    assert forall|i: int| 0 <= i < d2.columns@.len() implies (
                    #[trigger] d2.columns@[i]).name@ == d.columns@[i].name@ && d2.columns@[i].data_type
                        == d.columns@[i].data_type by {
                        assert(spec_names_of(d2.columns@)[i] == d2.columns@[i].name@);
                        assert(spec_names_of(d.columns@)[i] == d.columns@[i].name@);
                    }
                }
            }
        },
        MicrobatServerMessage::DataRow(r) => {
            lemma_row_payload_round_trip(r.columns@);
            let blocks = spec_row_blocks(m.spec_payload());
            assert forall|m2: MicrobatServerMessage|
                spec_server_decoded(m.spec_message_type(), m.spec_payload(), m2) implies
                server_message_eq(m2, m) by {
                if let MicrobatServerMessage::DataRow(r2) = m2 {
                    assert forall|i: int| 0 <= i < r2.columns@.len() implies mdata_eq(
                        #[trigger] r2.columns@[i],
                        r.columns@[i],
                    ) by {
                        crate::data::lemma_data_column_round_trip(r.columns@[i]);
                        assert(blocks[i] == (
                            r.columns@[i].spec_type_byte(),
                            r.columns@[i].spec_bytes(),
                        ));
                        assert(spec_column_value(
                            r.columns@[i].spec_type_byte(),
                            r.columns@[i].spec_bytes(),
                            r2.columns@[i],
                        ));
                    }
                }
            }
        },
    }
}

/// Any server message round-trips over its whole wire frame, under the same
/// conditions as [`lemma_server_message_round_trip`]: the four-byte length
/// fields must suffice, and a row description round-trips exactly only with
/// `Integer` columns, the one type the wire lets a decoder reconstruct.
pub proof fn lemma_server_wire_round_trip(m: MicrobatServerMessage)
    requires
        m.spec_payload().len() < 0x100000000,
        (match m {
            MicrobatServerMessage::DataDescription(d) => forall|i: int|
                0 <= i < d.columns@.len() ==> encode_utf8(
                    (#[trigger] d.columns@[i]).name@,
                ).len() < 0x100000000 && d.columns@[i].data_type == MDataType::Integer,
            MicrobatServerMessage::DataRow(r) => forall|i: int|
                0 <= i < r.columns@.len() ==> (#[trigger] r.columns@[i]).spec_bytes().len()
                    < 0x100000000,
            _ => true,
        }),
    ensures
        ({
            let f = spec_frame(m.spec_message_type(), m.spec_payload());
            &&& f.len() == 5 + m.spec_payload().len()
            &&& f[0] == m.spec_message_type()
            &&& spec_u32_of_le(f[1], f[2], f[3], f[4]) == m.spec_payload().len()
            &&& f.subrange(5, f.len() as int) == m.spec_payload()
            &&& spec_server_decodable(
                f[0],
                m.spec_payload().len() as int,
                f.subrange(5, f.len() as int),
            )
            &&& forall|m2: MicrobatServerMessage|
                spec_server_decoded(f[0], f.subrange(5, f.len() as int), m2)
                    ==> server_message_eq(m2, m)
        }),
{
    lemma_frame_boundaries(m.spec_message_type(), m.spec_payload());
    lemma_server_message_round_trip(m);
}

} // verus!
