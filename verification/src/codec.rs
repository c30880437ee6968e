//! The outside encoders that the library calls: the binary encoding of the
//! asset store's entries, gzip, and base64. Verus does not read them: what is
//! stated of them here is believed, not proved.

use std::io::Read;
use std::io::Write;
use vstd::prelude::*;

verus! {

#[verifier::external_type_specification]
#[verifier::external_body]
pub struct ExIoError(std::io::Error);

#[verifier::external_type_specification]
#[verifier::external_body]
pub struct ExEncodeError(bincode::error::EncodeError);

#[verifier::external_type_specification]
#[verifier::external_body]
pub struct ExDecodeError(bincode::error::DecodeError);

/// The fields of an asset record, as plain values: the bytes, their encoded
/// form, the file name, the type, and the path of the saved file.
pub type PlainRecord = (Vec<u8>, String, String, String, Option<String>);

/// What a plain record holds.
pub type PlainRecordView = (Seq<u8>, Seq<char>, Seq<char>, Seq<char>, Option<Seq<char>>);

/// What a plain record holds.
pub open spec fn record_view(r: PlainRecord) -> PlainRecordView {
    (
        r.0@,
        r.1@,
        r.2@,
        r.3@,
        match r.4 {
            Some(p) => Some(p@),
            None => None,
        },
    )
}

/// What a list of addresses with their plain records holds.
pub open spec fn plain_views(v: Seq<(String, PlainRecord)>) -> Seq<(Seq<char>, PlainRecordView)> {
    v.map_values(|e: (String, PlainRecord)| (e.0@, record_view(e.1)))
}

/// The bytes that bincode, in its standard configuration, writes for a list
/// of addresses with their records.
pub uninterp spec fn bincode_encoding(
    entries: Seq<(Seq<char>, (Seq<u8>, Seq<char>, Seq<char>, Seq<char>, Option<Seq<char>>))>,
) -> Seq<u8>;

/// The list of addresses with their records that bincode, in its standard
/// configuration with the limit of `decode_entries`, reads from the start of
/// the bytes, if it reads one.
pub uninterp spec fn bincode_decoding(bytes: Seq<u8>) -> Option<
    Seq<(Seq<char>, (Seq<u8>, Seq<char>, Seq<char>, Seq<char>, Option<Seq<char>>))>,
>;

/// The gzip stream that flate2 writes for the data at a compression level.
pub uninterp spec fn gzip_of(data: Seq<u8>, level: u32) -> Seq<u8>;

/// The data that flate2 reads from a gzip stream, if it is one.
pub uninterp spec fn gunzip_of(bytes: Seq<u8>) -> Option<Seq<u8>>;

/// The text that base64's standard alphabet, with padding, gives for the
/// bytes.
pub uninterp spec fn base64_of(bytes: Seq<u8>) -> Seq<char>;

/// `bincode::serde::encode_to_vec` with `bincode::config::standard()`. It
/// succeeds, and the bytes are the encoding of the entries: bincode writes
/// into a vector, which takes every byte, and a list of texts and bytes has
/// nothing that its encoder refuses (a list always has a length).
#[verifier::external_body]
pub(crate) fn encode_entries(entries: &Vec<(String, PlainRecord)>) -> (r: Result<
    Vec<u8>,
    bincode::error::EncodeError,
>)
    ensures
        r is Ok,
        r matches Ok(bytes) ==> bytes@ == bincode_encoding(plain_views(entries@)),
{
    bincode::serde::encode_to_vec(entries, bincode::config::standard())
}

/// The most bytes that a decoding may claim: what an allocation can hold.
pub const DECODE_LIMIT: usize = usize::MAX / 2;

/// `bincode::serde::decode_from_slice` with `bincode::config::standard()`
/// and a limit on the bytes that a decoding may claim: bincode then refuses a
/// length that no allocation could hold, where without a limit it would
/// panic. It succeeds where the bytes start with the encoding of a list of
/// entries, and then gives that list: what it has encoded, it decodes to the
/// same.
#[verifier::external_body]
pub(crate) fn decode_entries(bytes: &[u8]) -> (r: Result<
    Vec<(String, PlainRecord)>,
    bincode::error::DecodeError,
>)
    ensures
        match r {
            Ok(entries) => bincode_decoding(bytes@) == Some(plain_views(entries@)),
            Err(_) => bincode_decoding(bytes@) is None,
        },
        forall|entries: Seq<(Seq<char>, PlainRecordView)>|
            bytes@ == #[trigger] bincode_encoding(entries) ==> r is Ok && plain_views(r->Ok_0@)
                == entries,
{
    let config = bincode::config::standard().with_limit::<DECODE_LIMIT>();
    bincode::serde::decode_from_slice(bytes, config).map(|pair| pair.0)
}

/// `flate2::write::GzEncoder` over a vector, with `write_all` and `finish`.
/// It succeeds, and the bytes are the gzip stream of the data: the encoder
/// hands on only the errors of the writer below it, and a vector has none.
/// Levels above 9 are left out: flate2 documents the scale 0 to 9.
#[verifier::external_body]
pub(crate) fn gzip(data: &[u8], level: u32) -> (r: Result<Vec<u8>, std::io::Error>)
    requires
        level <= 9,
    ensures
        r is Ok,
        r matches Ok(bytes) ==> bytes@ == gzip_of(data@, level),
{
    let mut encoder = flate2::write::GzEncoder::new(Vec::new(), flate2::Compression::new(level));
    encoder.write_all(data)?;
    encoder.finish()
}

/// `flate2::read::GzDecoder` over the bytes, read to the end. It succeeds
/// where the bytes are a gzip stream, and then gives the data of the stream:
/// what `GzEncoder` has written at a level up to 9, it reads back as it was.
#[verifier::external_body]
pub(crate) fn gunzip(bytes: &[u8]) -> (r: Result<Vec<u8>, std::io::Error>)
    ensures
        match r {
            Ok(data) => gunzip_of(bytes@) == Some(data@),
            Err(_) => gunzip_of(bytes@) is None,
        },
        forall|data: Seq<u8>, level: u32|
            level <= 9 && bytes@ == #[trigger] gzip_of(data, level) ==> r is Ok && r->Ok_0@
                == data,
{
    let mut data = Vec::new();
    flate2::read::GzDecoder::new(bytes).read_to_end(&mut data)?;
    Ok(data)
}

/// `Engine::encode` of `base64::engine::general_purpose::STANDARD`. It
/// panics where the length of the text would not fit the machine's word, so
/// such inputs are left out.
#[verifier::external_body]
pub(crate) fn base64_encode(bytes: &[u8]) -> (r: String)
    requires
        bytes@.len() / 3 < usize::MAX / 4,
    ensures
        r@ == base64_of(bytes@),
{
    base64::Engine::encode(&base64::engine::general_purpose::STANDARD, bytes)
}

} // verus!
