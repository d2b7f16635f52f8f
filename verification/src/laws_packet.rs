//! What holds of every packet: a packet that is written is read back, and
//! bytes that are read in strict mode are the bytes of what was read.

use crate::bigendian::{
    be_bytes, lemma_be_bytes_len, lemma_be_bytes_of_value, lemma_be_value_bound,
    lemma_be_value_of_bytes, lemma_pow256_values,
};
use crate::error::{OerError, ParseError};
use crate::laws_oer::{
    lemma_var_octet_string_bounds, lemma_var_octet_string_canonical,
    lemma_var_octet_string_round_trip, lemma_var_uint_bounds, lemma_var_uint_canonical,
    lemma_var_uint_round_trip,
};
use crate::laws_timestamp::{
    lemma_timestamp_bounds, lemma_timestamp_canonical, lemma_timestamp_round_trip,
};
use crate::oer::{decode_var_octet_string, decode_var_uint, encode_var_octet_string, encode_var_uint};
use crate::packet::{
    decode_envelope, decode_error, decode_error_contents, decode_message, decode_message_of,
    decode_packet, decode_protocol_data, decode_protocol_entries, decode_protocol_entry,
    decode_response, decode_string, encode_envelope, encode_error, encode_error_contents,
    encode_message, encode_message_contents, encode_packet, encode_protocol_data,
    encode_protocol_entries, encode_protocol_entry, encode_response, encode_string, ErrorView,
    MessageView, PacketView, ProtocolDataView, ERROR, MESSAGE, RESPONSE,
};
use crate::timestamp::{decode_timestamp, timestamp_text, TimestampView};
use vstd::prelude::*;
use vstd::utf8::{
    decode_utf8, decode_utf8_encode_utf8, encode_utf8, encode_utf8_decode_utf8,
    encode_utf8_valid_utf8, valid_utf8,
};

verus! {

/// Joining three sequences does not depend on which two are joined first.
proof fn lemma_join_assoc(a: Seq<u8>, b: Seq<u8>, c: Seq<u8>)
    ensures
        a + b + c == a + (b + c),
{
    assert(a + b + c =~= a + (b + c));
}

/// A sequence is its start and the rest of it.
proof fn lemma_take_skip(s: Seq<u8>, n: int)
    requires
        0 <= n <= s.len(),
    ensures
        s == s.take(n) + s.skip(n),
{
    assert(s =~= s.take(n) + s.skip(n));
}

/// Whether the UTF-8 bytes of `text` are no more than a platform size can
/// count.
pub open spec fn string_fits(text: Seq<char>) -> bool {
    encode_utf8(text).len() <= usize::MAX
}

impl ProtocolDataView {
    /// Name and data of a size that can be announced, and a content type
    /// that is the one its byte stands for.
    pub open spec fn wf(self) -> bool {
        &&& string_fits(self.protocol_name)
        &&& self.data.len() <= usize::MAX
        &&& self.content_type.is_canonical()
    }
}

/// Whether every entry is well formed.
pub open spec fn entries_wf(entries: Seq<ProtocolDataView>) -> bool {
    forall|i: int| 0 <= i < entries.len() ==> (#[trigger] entries[i]).wf()
}

/// Whether the entries are well formed and no more than 64 bits can count.
pub open spec fn protocol_data_wf(entries: Seq<ProtocolDataView>) -> bool {
    entries_wf(entries) && entries.len() <= u64::MAX
}

impl MessageView {
    /// Well-formed protocol data, and contents of a size that can be
    /// announced.
    pub open spec fn wf(self) -> bool {
        &&& protocol_data_wf(self.protocol_data)
        &&& encode_message_contents(self).len() <= usize::MAX
    }
}

impl ErrorView {
    /// A code of three bytes, strings of a size that can be announced, a
    /// timestamp whose text shows all of its millisecond, and well-formed
    /// protocol data.
    pub open spec fn fields_wf(self) -> bool {
        &&& encode_utf8(self.code).len() == 3
        &&& string_fits(self.name)
        &&& self.triggered_at.wf()
        &&& self.triggered_at.is_exact()
        &&& string_fits(self.data)
        &&& protocol_data_wf(self.protocol_data)
    }

    /// Well-formed fields, and contents of a size that can be announced.
    pub open spec fn wf(self) -> bool {
        &&& self.fields_wf()
        &&& encode_error_contents(self).len() <= usize::MAX
    }
}

impl PacketView {
    /// Whether the packet inside is well formed.
    pub open spec fn wf(self) -> bool {
        match self {
            PacketView::Message(m) => m.wf(),
            PacketView::Response(m) => m.wf(),
            PacketView::Error(e) => e.wf(),
        }
    }
}

/// A string that was written is read back, in either mode and whatever
/// follows it.
pub proof fn lemma_string_round_trip(text: Seq<char>, tail: Seq<u8>, strict: bool)
    requires
        string_fits(text),
    ensures
        decode_string(encode_string(text) + tail, strict) == Ok::<(Seq<char>, nat), ParseError>(
            (text, encode_string(text).len()),
        ),
{
    encode_utf8_valid_utf8(text);
    encode_utf8_decode_utf8(text);
    lemma_var_octet_string_round_trip(encode_utf8(text), tail, strict);
}

/// In strict mode only the bytes that writing produces are read as a string.
pub proof fn lemma_string_canonical(bytes: Seq<u8>)
    requires
        decode_string(bytes, true) is Ok,
    ensures
        ({
            let (text, used) = decode_string(bytes, true)->Ok_0;
            &&& used <= bytes.len()
            &&& string_fits(text)
            &&& encode_string(text) == bytes.take(used as int)
        }),
{
    lemma_var_octet_string_canonical(bytes);
    let (octets, used) = decode_var_octet_string(bytes, true)->Ok_0;
    decode_utf8_encode_utf8(octets);
}

/// What is read as a string, in either mode, lies within the bytes, and
/// writing it takes no more bytes than it took.
pub proof fn lemma_string_bounds(bytes: Seq<u8>, strict: bool)
    requires
        decode_string(bytes, strict) is Ok,
    ensures
        ({
            let (text, used) = decode_string(bytes, strict)->Ok_0;
            &&& used <= bytes.len()
            &&& string_fits(text)
            &&& 1 <= encode_string(text).len() <= used
        }),
{
    lemma_var_octet_string_bounds(bytes, strict);
    let (octets, used) = decode_var_octet_string(bytes, strict)->Ok_0;
    decode_utf8_encode_utf8(octets);
}

/// A protocol entry that was written is read back, in either mode and
/// whatever follows it.
pub proof fn lemma_entry_round_trip(entry: ProtocolDataView, tail: Seq<u8>, strict: bool)
    requires
        entry.wf(),
    ensures
        decode_protocol_entry(encode_protocol_entry(entry) + tail, strict) == Ok::<
            (ProtocolDataView, nat),
            ParseError,
        >((entry, encode_protocol_entry(entry).len())),
{
    let name = encode_string(entry.protocol_name);
    let code = seq![entry.content_type.spec_code()];
    let data = encode_var_octet_string(entry.data);
    let bytes = encode_protocol_entry(entry) + tail;
    assert(bytes =~= name + (code + data + tail));
    lemma_string_round_trip(entry.protocol_name, code + data + tail, strict);
    assert(bytes.skip(name.len() as int) =~= code + data + tail);
    assert(bytes.skip(name.len() as int).skip(1) =~= data + tail);
    lemma_var_octet_string_round_trip(entry.data, tail, strict);
    assert(bytes[name.len() as int] == entry.content_type.spec_code());
}

/// In strict mode only the bytes that writing produces are read as a
/// protocol entry.
pub proof fn lemma_entry_canonical(bytes: Seq<u8>)
    requires
        decode_protocol_entry(bytes, true) is Ok,
    ensures
        ({
            let (entry, used) = decode_protocol_entry(bytes, true)->Ok_0;
            &&& used <= bytes.len()
            &&& entry.wf()
            &&& encode_protocol_entry(entry) == bytes.take(used as int)
        }),
{
    let (entry, used) = decode_protocol_entry(bytes, true)->Ok_0;
    lemma_string_canonical(bytes);
    let (name, used_name) = decode_string(bytes, true)->Ok_0;
    let after = bytes.skip(used_name as int).skip(1);
    lemma_var_octet_string_canonical(after);
    let (data, used_data) = decode_var_octet_string(after, true)->Ok_0;
    assert(after.take(used_data as int) =~= bytes.subrange(
        used_name + 1 as int,
        used_name + 1 + used_data as int,
    ));
    assert(bytes.take(used as int) =~= bytes.take(used_name as int) + seq![
        bytes[used_name as int],
    ] + after.take(used_data as int));
}

/// What is read as a protocol entry, in either mode, lies within the bytes
/// and is well formed, and writing it takes no more bytes than it took.
pub proof fn lemma_entry_bounds(bytes: Seq<u8>, strict: bool)
    requires
        decode_protocol_entry(bytes, strict) is Ok,
    ensures
        ({
            let (entry, used) = decode_protocol_entry(bytes, strict)->Ok_0;
            &&& used <= bytes.len()
            &&& entry.wf()
            &&& 1 <= encode_protocol_entry(entry).len() <= used
        }),
{
    lemma_string_bounds(bytes, strict);
    let (name, used_name) = decode_string(bytes, strict)->Ok_0;
    let after = bytes.skip(used_name as int).skip(1);
    lemma_var_octet_string_bounds(after, strict);
}

/// The entries of a list on the wire start with the first entry.
pub proof fn lemma_encode_entries_first(first: ProtocolDataView, rest: Seq<ProtocolDataView>)
    ensures
        encode_protocol_entries(seq![first] + rest) == encode_protocol_entry(first)
            + encode_protocol_entries(rest),
    decreases rest.len(),
{
    let all = seq![first] + rest;
    if rest.len() == 0 {
        assert(all.drop_last() =~= Seq::<ProtocolDataView>::empty());
        assert(encode_protocol_entries(all.drop_last()) =~= Seq::<u8>::empty());
        assert(encode_protocol_entries(all) =~= encode_protocol_entry(first)
            + encode_protocol_entries(rest));
    } else {
        assert(all.drop_last() =~= seq![first] + rest.drop_last());
        assert(all.last() == rest.last());
        lemma_encode_entries_first(first, rest.drop_last());
        assert(encode_protocol_entries(all) =~= encode_protocol_entry(first)
            + encode_protocol_entries(rest));
    }
}

/// The entries of a list that were written are read back, in either mode
/// and whatever follows them.
pub proof fn lemma_entries_round_trip(entries: Seq<ProtocolDataView>, tail: Seq<u8>, strict: bool)
    requires
        entries_wf(entries),
    ensures
        decode_protocol_entries(encode_protocol_entries(entries) + tail, entries.len(), strict)
            == Ok::<(Seq<ProtocolDataView>, nat), ParseError>(
            (entries, encode_protocol_entries(entries).len()),
        ),
    decreases entries.len(),
{
    if entries.len() > 0 {
        let first = entries[0];
        let rest = entries.drop_first();
        assert(entries =~= seq![first] + rest);
        lemma_encode_entries_first(first, rest);
        let head = encode_protocol_entry(first);
        let body = encode_protocol_entries(rest);
        let bytes = encode_protocol_entries(entries) + tail;
        assert(bytes =~= head + (body + tail));
        assert(first.wf());
        lemma_entry_round_trip(first, body + tail, strict);
        assert(bytes.skip(head.len() as int) =~= body + tail);
        assert forall|i: int| 0 <= i < rest.len() implies (#[trigger] rest[i]).wf() by {
            assert(rest[i] == entries[i + 1]);
        }
        lemma_entries_round_trip(rest, tail, strict);
    } else {
        assert(entries =~= Seq::<ProtocolDataView>::empty());
    }
}

/// In strict mode only the bytes that writing produces are read as the
/// entries of a list.
pub proof fn lemma_entries_canonical(bytes: Seq<u8>, count: nat)
    requires
        decode_protocol_entries(bytes, count, true) is Ok,
    ensures
        ({
            let (entries, used) = decode_protocol_entries(bytes, count, true)->Ok_0;
            &&& entries.len() == count
            &&& used <= bytes.len()
            &&& entries_wf(entries)
            &&& encode_protocol_entries(entries) == bytes.take(used as int)
        }),
    decreases count,
{
    let (entries, used) = decode_protocol_entries(bytes, count, true)->Ok_0;
    if count > 0 {
        lemma_entry_canonical(bytes);
        let (first, used_first) = decode_protocol_entry(bytes, true)->Ok_0;
        let after = bytes.skip(used_first as int);
        lemma_entries_canonical(after, (count - 1) as nat);
        let (rest, used_rest) = decode_protocol_entries(after, (count - 1) as nat, true)->Ok_0;
        assert(entries == seq![first] + rest);
        lemma_encode_entries_first(first, rest);
        assert(after.take(used_rest as int) =~= bytes.subrange(
            used_first as int,
            used_first + used_rest as int,
        ));
        assert(bytes.take(used as int) =~= bytes.take(used_first as int) + after.take(
            used_rest as int,
        ));
    } else {
        assert(bytes.take(0) =~= Seq::<u8>::empty());
    }
}

/// What is read as the entries of a list, in either mode, lies within the
/// bytes and is well formed, and writing it takes no more bytes than it
/// took.
pub proof fn lemma_entries_bounds(bytes: Seq<u8>, count: nat, strict: bool)
    requires
        decode_protocol_entries(bytes, count, strict) is Ok,
    ensures
        ({
            let (entries, used) = decode_protocol_entries(bytes, count, strict)->Ok_0;
            &&& entries.len() == count
            &&& used <= bytes.len()
            &&& entries_wf(entries)
            &&& encode_protocol_entries(entries).len() <= used
        }),
    decreases count,
{
    let (entries, used) = decode_protocol_entries(bytes, count, strict)->Ok_0;
    if count > 0 {
        lemma_entry_bounds(bytes, strict);
        let (first, used_first) = decode_protocol_entry(bytes, strict)->Ok_0;
        let after = bytes.skip(used_first as int);
        lemma_entries_bounds(after, (count - 1) as nat, strict);
        let (rest, used_rest) = decode_protocol_entries(after, (count - 1) as nat, strict)->Ok_0;
        assert(entries == seq![first] + rest);
        lemma_encode_entries_first(first, rest);
    }
}

/// A protocol data list that was written is read back, in either mode.
pub proof fn lemma_protocol_data_round_trip(entries: Seq<ProtocolDataView>, strict: bool)
    requires
        protocol_data_wf(entries),
    ensures
        decode_protocol_data(encode_protocol_data(entries), strict) == Ok::<
            Seq<ProtocolDataView>,
            ParseError,
        >(entries),
{
    let count = encode_var_uint(entries.len());
    let body = encode_protocol_entries(entries);
    let bytes = encode_protocol_data(entries);
    lemma_var_uint_round_trip(entries.len(), body, strict);
    assert(bytes.skip(count.len() as int) =~= body);
    assert(body + Seq::<u8>::empty() =~= body);
    lemma_entries_round_trip(entries, Seq::empty(), strict);
}

/// In strict mode only the bytes that writing produces are read as a
/// protocol data list.
pub proof fn lemma_protocol_data_canonical(bytes: Seq<u8>)
    requires
        decode_protocol_data(bytes, true) is Ok,
    ensures
        ({
            let entries = decode_protocol_data(bytes, true)->Ok_0;
            &&& protocol_data_wf(entries)
            &&& encode_protocol_data(entries) == bytes
        }),
{
    lemma_var_uint_canonical(bytes);
    let (count, used) = decode_var_uint(bytes, true)->Ok_0;
    let after = bytes.skip(used as int);
    lemma_entries_canonical(after, count);
    let (entries, more) = decode_protocol_entries(after, count, true)->Ok_0;
    assert(after.take(more as int) =~= after);
    assert(bytes =~= bytes.take(used as int) + after);
}

/// What is read as a protocol data list, in either mode, is well formed,
/// and writing it takes no more bytes than it took.
pub proof fn lemma_protocol_data_bounds(bytes: Seq<u8>, strict: bool)
    requires
        decode_protocol_data(bytes, strict) is Ok,
    ensures
        ({
            let entries = decode_protocol_data(bytes, strict)->Ok_0;
            &&& protocol_data_wf(entries)
            &&& encode_protocol_data(entries).len() <= bytes.len()
        }),
{
    lemma_var_uint_bounds(bytes, strict);
    let (count, used) = decode_var_uint(bytes, strict)->Ok_0;
    lemma_entries_bounds(bytes.skip(used as int), count, strict);
}

/// The start of a packet that was written is read back, in either mode.
pub proof fn lemma_envelope_round_trip(
    type_int: u8,
    request_id: u32,
    contents: Seq<u8>,
    strict: bool,
)
    requires
        contents.len() <= usize::MAX,
    ensures
        decode_envelope(encode_envelope(type_int, request_id, contents), type_int, strict) == Ok::<
            (u32, Seq<u8>),
            ParseError,
        >((request_id, contents)),
{
    let id = be_bytes(request_id as nat, 4);
    let body = encode_var_octet_string(contents);
    let bytes = encode_envelope(type_int, request_id, contents);
    lemma_be_bytes_len(request_id as nat, 4);
    lemma_pow256_values();
    lemma_be_value_of_bytes(request_id as nat, 4);
    assert(bytes[0] == type_int);
    assert(bytes.subrange(1, 5) =~= id);
    assert(bytes.skip(5) =~= body);
    assert(body + Seq::<u8>::empty() =~= body);
    lemma_var_octet_string_round_trip(contents, Seq::empty(), strict);
}

/// In strict mode only the bytes that writing produces are read as the
/// start of a packet and its contents.
pub proof fn lemma_envelope_canonical(bytes: Seq<u8>, expected: u8)
    requires
        decode_envelope(bytes, expected, true) is Ok,
    ensures
        ({
            let (request_id, contents) = decode_envelope(bytes, expected, true)->Ok_0;
            &&& contents.len() <= usize::MAX
            &&& encode_envelope(expected, request_id, contents) == bytes
        }),
{
    let (request_id, contents) = decode_envelope(bytes, expected, true)->Ok_0;
    let field = bytes.subrange(1, 5);
    lemma_be_value_bound(field);
    lemma_pow256_values();
    lemma_be_bytes_of_value(field);
    let after = bytes.skip(5);
    lemma_var_octet_string_canonical(after);
    let (_, used) = decode_var_octet_string(after, true)->Ok_0;
    assert(after.take(used as int) =~= after);
    assert(bytes =~= seq![bytes[0]] + field + after);
}

/// The contents that are read at the start of a packet, in either mode,
/// are no longer than a platform size.
pub proof fn lemma_envelope_bounds(bytes: Seq<u8>, expected: u8, strict: bool)
    requires
        decode_envelope(bytes, expected, strict) is Ok,
    ensures
        decode_envelope(bytes, expected, strict)->Ok_0.1.len() <= usize::MAX,
{
    lemma_var_octet_string_bounds(bytes.skip(5), strict);
}

/// A message or a response that was written is read back, in either mode.
proof fn lemma_message_of_round_trip(packet: MessageView, type_int: u8, strict: bool)
    requires
        packet.wf(),
    ensures
        decode_message_of(
            encode_envelope(type_int, packet.request_id, encode_message_contents(packet)),
            type_int,
            strict,
        ) == Ok::<MessageView, ParseError>(packet),
{
    lemma_envelope_round_trip(
        type_int,
        packet.request_id,
        encode_message_contents(packet),
        strict,
    );
    lemma_protocol_data_round_trip(packet.protocol_data, strict);
}

/// In strict mode only the bytes that writing produces are read as a
/// message or a response.
proof fn lemma_message_of_canonical(bytes: Seq<u8>, type_int: u8)
    requires
        decode_message_of(bytes, type_int, true) is Ok,
    ensures
        ({
            let packet = decode_message_of(bytes, type_int, true)->Ok_0;
            &&& packet.wf()
            &&& encode_envelope(type_int, packet.request_id, encode_message_contents(packet))
                == bytes
        }),
{
    lemma_envelope_canonical(bytes, type_int);
    let (_, contents) = decode_envelope(bytes, type_int, true)->Ok_0;
    lemma_protocol_data_canonical(contents);
}

/// What is read as a message or a response, in either mode, is well formed.
proof fn lemma_message_of_bounds(bytes: Seq<u8>, type_int: u8, strict: bool)
    requires
        decode_message_of(bytes, type_int, strict) is Ok,
    ensures
        decode_message_of(bytes, type_int, strict)->Ok_0.wf(),
{
    lemma_envelope_bounds(bytes, type_int, strict);
    let (_, contents) = decode_envelope(bytes, type_int, strict)->Ok_0;
    lemma_protocol_data_bounds(contents, strict);
}

/// The error that code, name and time make with the data and the protocol
/// data that `bytes` are.
spec fn decode_error_after_time(
    request_id: u32,
    code: Seq<u8>,
    name: Seq<char>,
    triggered_at: TimestampView,
    bytes: Seq<u8>,
    strict: bool,
) -> Result<ErrorView, ParseError> {
    match decode_string(bytes, strict) {
        Err(e) => Err(e),
        Ok((data, used_data)) => match decode_protocol_data(bytes.skip(used_data as int), strict) {
            Err(e) => Err(e),
            Ok(protocol_data) => if valid_utf8(code) {
                Ok(
                    ErrorView {
                        request_id,
                        code: decode_utf8(code),
                        name,
                        triggered_at,
                        data,
                        protocol_data,
                    },
                )
            } else {
                Err(ParseError::Utf8Err)
            },
        },
    }
}

/// The error that the code makes with the name, the time, the data and the
/// protocol data that `bytes` are.
spec fn decode_error_after_code(request_id: u32, code: Seq<u8>, bytes: Seq<u8>, strict: bool) -> Result<
    ErrorView,
    ParseError,
> {
    match decode_string(bytes, strict) {
        Err(e) => Err(e),
        Ok((name, used_name)) => match decode_timestamp(bytes.skip(used_name as int), strict) {
            Err(e) => Err(ParseError::IoErr(e)),
            Ok((triggered_at, used_time)) => decode_error_after_time(
                request_id,
                code,
                name,
                triggered_at,
                bytes.skip(used_name as int).skip(used_time as int),
                strict,
            ),
        },
    }
}

/// The contents of an error are read in three steps: the code, then name
/// and time, then data and protocol data.
proof fn lemma_error_contents_steps(request_id: u32, bytes: Seq<u8>, strict: bool)
    ensures
        decode_error_contents(request_id, bytes, strict) == if bytes.len() < 3 {
            Err::<ErrorView, ParseError>(ParseError::IoErr(OerError::UnexpectedEof))
        } else {
            decode_error_after_code(request_id, bytes.take(3), bytes.skip(3), strict)
        },
{
}

/// Data and protocol data that were written are read back.
proof fn lemma_error_after_time_round_trip(packet: ErrorView, strict: bool)
    requires
        packet.fields_wf(),
    ensures
        decode_error_after_time(
            packet.request_id,
            encode_utf8(packet.code),
            packet.name,
            packet.triggered_at,
            encode_string(packet.data) + encode_protocol_data(packet.protocol_data),
            strict,
        ) == Ok::<ErrorView, ParseError>(packet),
{
    let data = encode_string(packet.data);
    let list = encode_protocol_data(packet.protocol_data);
    encode_utf8_valid_utf8(packet.code);
    encode_utf8_decode_utf8(packet.code);
    lemma_string_round_trip(packet.data, list, strict);
    assert((data + list).skip(data.len() as int) =~= list);
    lemma_protocol_data_round_trip(packet.protocol_data, strict);
}

/// Name, time, data and protocol data that were written are read back.
proof fn lemma_error_after_code_round_trip(packet: ErrorView, strict: bool)
    requires
        packet.fields_wf(),
    ensures
        decode_error_after_code(
            packet.request_id,
            encode_utf8(packet.code),
            encode_string(packet.name) + encode_var_octet_string(
                timestamp_text(packet.triggered_at),
            ) + encode_string(packet.data) + encode_protocol_data(packet.protocol_data),
            strict,
        ) == Ok::<ErrorView, ParseError>(packet),
{
    let name = encode_string(packet.name);
    let time = encode_var_octet_string(timestamp_text(packet.triggered_at));
    let tail = encode_string(packet.data) + encode_protocol_data(packet.protocol_data);
    let bytes = name + time + encode_string(packet.data) + encode_protocol_data(
        packet.protocol_data,
    );
    assert(bytes =~= name + (time + tail));
    lemma_string_round_trip(packet.name, time + tail, strict);
    assert(bytes.skip(name.len() as int) =~= time + tail);
    lemma_timestamp_round_trip(packet.triggered_at, tail, strict);
    assert((time + tail).skip(time.len() as int) =~= tail);
    lemma_error_after_time_round_trip(packet, strict);
}

/// The contents of an error that were written are read back, in either
/// mode.
pub proof fn lemma_error_contents_round_trip(packet: ErrorView, strict: bool)
    requires
        packet.fields_wf(),
    ensures
        decode_error_contents(packet.request_id, encode_error_contents(packet), strict) == Ok::<
            ErrorView,
            ParseError,
        >(packet),
{
    let code = encode_utf8(packet.code);
    let rest = encode_string(packet.name) + encode_var_octet_string(
        timestamp_text(packet.triggered_at),
    ) + encode_string(packet.data) + encode_protocol_data(packet.protocol_data);
    let bytes = encode_error_contents(packet);
    assert(bytes =~= code + rest);
    assert(bytes.take(3) =~= code);
    assert(bytes.skip(3) =~= rest);
    lemma_error_contents_steps(packet.request_id, bytes, strict);
    lemma_error_after_code_round_trip(packet, strict);
}

/// In strict mode only the bytes that writing produces are read as data
/// and protocol data.
proof fn lemma_error_after_time_canonical(
    request_id: u32,
    code: Seq<u8>,
    name: Seq<char>,
    triggered_at: TimestampView,
    bytes: Seq<u8>,
)
    requires
        decode_error_after_time(request_id, code, name, triggered_at, bytes, true) is Ok,
    ensures
        ({
            let packet = decode_error_after_time(
                request_id,
                code,
                name,
                triggered_at,
                bytes,
                true,
            )->Ok_0;
            &&& packet.request_id == request_id
            &&& packet.name == name
            &&& packet.triggered_at == triggered_at
            &&& encode_utf8(packet.code) == code
            &&& string_fits(packet.data)
            &&& protocol_data_wf(packet.protocol_data)
            &&& encode_string(packet.data) + encode_protocol_data(packet.protocol_data) == bytes
        }),
{
    decode_utf8_encode_utf8(code);
    lemma_string_canonical(bytes);
    let (_, used_data) = decode_string(bytes, true)->Ok_0;
    let after_data = bytes.skip(used_data as int);
    lemma_protocol_data_canonical(after_data);
    assert(bytes =~= bytes.take(used_data as int) + after_data);
}

/// In strict mode only the bytes that writing produces are read as name,
/// time, data and protocol data.
proof fn lemma_error_after_code_canonical(request_id: u32, code: Seq<u8>, bytes: Seq<u8>)
    requires
        code.len() == 3,
        decode_error_after_code(request_id, code, bytes, true) is Ok,
    ensures
        ({
            let packet = decode_error_after_code(request_id, code, bytes, true)->Ok_0;
            &&& packet.request_id == request_id
            &&& packet.fields_wf()
            &&& encode_utf8(packet.code) == code
            &&& encode_string(packet.name) + encode_var_octet_string(
                timestamp_text(packet.triggered_at),
            ) + encode_string(packet.data) + encode_protocol_data(packet.protocol_data) == bytes
        }),
{
    lemma_string_canonical(bytes);
    let (name, used_name) = decode_string(bytes, true)->Ok_0;
    let after_name = bytes.skip(used_name as int);
    lemma_timestamp_canonical(after_name);
    let (triggered_at, used_time) = decode_timestamp(after_name, true)->Ok_0;
    let after_time = after_name.skip(used_time as int);
    lemma_error_after_time_canonical(request_id, code, name, triggered_at, after_time);
    let packet = decode_error_after_code(request_id, code, bytes, true)->Ok_0;
    let n = encode_string(packet.name);
    let t = encode_var_octet_string(timestamp_text(packet.triggered_at));
    let d = encode_string(packet.data);
    let l = encode_protocol_data(packet.protocol_data);
    lemma_take_skip(bytes, used_name as int);
    lemma_take_skip(after_name, used_time as int);
    lemma_join_assoc(n + t, d, l);
    lemma_join_assoc(n, t, d + l);
}

/// In strict mode only the bytes that writing produces are read as the
/// contents of an error.
pub proof fn lemma_error_contents_canonical(request_id: u32, bytes: Seq<u8>)
    requires
        decode_error_contents(request_id, bytes, true) is Ok,
    ensures
        ({
            let packet = decode_error_contents(request_id, bytes, true)->Ok_0;
            &&& packet.request_id == request_id
            &&& packet.fields_wf()
            &&& encode_error_contents(packet) == bytes
        }),
{
    lemma_error_contents_steps(request_id, bytes, true);
    lemma_error_after_code_canonical(request_id, bytes.take(3), bytes.skip(3));
    let packet = decode_error_contents(request_id, bytes, true)->Ok_0;
    let c = encode_utf8(packet.code);
    let n = encode_string(packet.name);
    let t = encode_var_octet_string(timestamp_text(packet.triggered_at));
    let d = encode_string(packet.data);
    let l = encode_protocol_data(packet.protocol_data);
    lemma_take_skip(bytes, 3);
    lemma_join_assoc(c + n + t, d, l);
    lemma_join_assoc(c + n, t, d);
    lemma_join_assoc(c, n, t);
    lemma_join_assoc(c, n + t, d);
    lemma_join_assoc(c, n + t + d, l);
}

/// What is read as the contents of an error, in either mode, has
/// well-formed fields, and writing it takes no more bytes than it took.
pub proof fn lemma_error_contents_bounds(request_id: u32, bytes: Seq<u8>, strict: bool)
    requires
        decode_error_contents(request_id, bytes, strict) is Ok,
    ensures
        ({
            let packet = decode_error_contents(request_id, bytes, strict)->Ok_0;
            &&& packet.request_id == request_id
            &&& packet.fields_wf()
            &&& encode_error_contents(packet).len() <= bytes.len()
        }),
{
    let code = bytes.take(3);
    decode_utf8_encode_utf8(code);
    let after_code = bytes.skip(3);
    lemma_string_bounds(after_code, strict);
    let (_, used_name) = decode_string(after_code, strict)->Ok_0;
    let after_name = after_code.skip(used_name as int);
    lemma_timestamp_bounds(after_name, strict);
    let (_, used_time) = decode_timestamp(after_name, strict)->Ok_0;
    let after_time = after_name.skip(used_time as int);
    lemma_string_bounds(after_time, strict);
    let (_, used_data) = decode_string(after_time, strict)->Ok_0;
    let after_data = after_time.skip(used_data as int);
    lemma_protocol_data_bounds(after_data, strict);
}

/// Every well-formed message that is written is read back as itself, in
/// either mode.
pub proof fn lemma_message_round_trip(packet: MessageView, strict: bool)
    requires
        packet.wf(),
    ensures
        decode_message(encode_message(packet), strict) == Ok::<MessageView, ParseError>(packet),
{
    lemma_message_of_round_trip(packet, MESSAGE, strict);
}

/// Every well-formed response that is written is read back as itself, in
/// either mode.
pub proof fn lemma_response_round_trip(packet: MessageView, strict: bool)
    requires
        packet.wf(),
    ensures
        decode_response(encode_response(packet), strict) == Ok::<MessageView, ParseError>(packet),
{
    lemma_message_of_round_trip(packet, RESPONSE, strict);
}

/// Every well-formed error that is written is read back as itself, in
/// either mode.
pub proof fn lemma_error_round_trip(packet: ErrorView, strict: bool)
    requires
        packet.wf(),
    ensures
        decode_error(encode_error(packet), strict) == Ok::<ErrorView, ParseError>(packet),
{
    lemma_envelope_round_trip(ERROR, packet.request_id, encode_error_contents(packet), strict);
    lemma_error_contents_round_trip(packet, strict);
}

/// Whatever strict mode reads as a message is a well-formed message, and
/// written again it is the bytes that were read.
pub proof fn lemma_message_canonical(bytes: Seq<u8>)
    requires
        decode_message(bytes, true) is Ok,
    ensures
        decode_message(bytes, true)->Ok_0.wf(),
        encode_message(decode_message(bytes, true)->Ok_0) == bytes,
{
    lemma_message_of_canonical(bytes, MESSAGE);
}

/// Whatever strict mode reads as a response is a well-formed response, and
/// written again it is the bytes that were read.
pub proof fn lemma_response_canonical(bytes: Seq<u8>)
    requires
        decode_response(bytes, true) is Ok,
    ensures
        decode_response(bytes, true)->Ok_0.wf(),
        encode_response(decode_response(bytes, true)->Ok_0) == bytes,
{
    lemma_message_of_canonical(bytes, RESPONSE);
}

/// Whatever strict mode reads as an error is a well-formed error, and
/// written again it is the bytes that were read.
pub proof fn lemma_error_canonical(bytes: Seq<u8>)
    requires
        decode_error(bytes, true) is Ok,
    ensures
        decode_error(bytes, true)->Ok_0.wf(),
        encode_error(decode_error(bytes, true)->Ok_0) == bytes,
{
    lemma_envelope_canonical(bytes, ERROR);
    let (request_id, contents) = decode_envelope(bytes, ERROR, true)->Ok_0;
    lemma_error_contents_canonical(request_id, contents);
}

/// Every well-formed packet that is written is read back as itself, in
/// either mode.
pub proof fn lemma_packet_round_trip(packet: PacketView, strict: bool)
    requires
        packet.wf(),
    ensures
        decode_packet(encode_packet(packet), strict) == Ok::<PacketView, ParseError>(packet),
{
    let bytes = encode_packet(packet);
    match packet {
        PacketView::Message(m) => {
            lemma_message_round_trip(m, strict);
            assert(bytes[0] == MESSAGE);
        },
        PacketView::Response(m) => {
            lemma_response_round_trip(m, strict);
            assert(bytes[0] == RESPONSE);
        },
        PacketView::Error(e) => {
            lemma_error_round_trip(e, strict);
            assert(bytes[0] == ERROR);
        },
    }
}

/// Whatever strict mode reads as a packet is a well-formed packet, and
/// written again it is the bytes that were read.
pub proof fn lemma_packet_canonical(bytes: Seq<u8>)
    requires
        decode_packet(bytes, true) is Ok,
    ensures
        decode_packet(bytes, true)->Ok_0.wf(),
        encode_packet(decode_packet(bytes, true)->Ok_0) == bytes,
{
    if bytes[0] == MESSAGE {
        lemma_message_canonical(bytes);
    } else if bytes[0] == RESPONSE {
        lemma_response_canonical(bytes);
    } else {
        lemma_error_canonical(bytes);
    }
}

/// Whatever either mode reads as a packet is a well-formed packet.
pub proof fn lemma_decoded_packet_wf(bytes: Seq<u8>, strict: bool)
    requires
        decode_packet(bytes, strict) is Ok,
    ensures
        decode_packet(bytes, strict)->Ok_0.wf(),
{
    if bytes[0] == MESSAGE {
        lemma_message_of_bounds(bytes, MESSAGE, strict);
    } else if bytes[0] == RESPONSE {
        lemma_message_of_bounds(bytes, RESPONSE, strict);
    } else {
        lemma_envelope_bounds(bytes, ERROR, strict);
        let (request_id, contents) = decode_envelope(bytes, ERROR, strict)->Ok_0;
        lemma_error_contents_bounds(request_id, contents, strict);
    }
}

/// What lenient mode reads is written in the form that strict mode reads:
/// written again, it is read back as itself even in strict mode.
pub proof fn lemma_lenient_packet_is_rewritten_canonically(bytes: Seq<u8>)
    requires
        decode_packet(bytes, false) is Ok,
    ensures
        decode_packet(encode_packet(decode_packet(bytes, false)->Ok_0), true) == decode_packet(
            bytes,
            false,
        ),
{
    lemma_decoded_packet_wf(bytes, false);
    lemma_packet_round_trip(decode_packet(bytes, false)->Ok_0, true);
}

/// What strict mode reads, lenient mode reads as the same packet.
pub proof fn lemma_strict_packet_is_read_leniently(bytes: Seq<u8>)
    requires
        decode_packet(bytes, true) is Ok,
    ensures
        decode_packet(bytes, false) == decode_packet(bytes, true),
{
    lemma_packet_canonical(bytes);
    lemma_packet_round_trip(decode_packet(bytes, true)->Ok_0, false);
}

} // verus!
