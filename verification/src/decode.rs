use crate::matcher::words;
use crate::path::Compression;
use std::io::{Cursor, Read};
use vstd::prelude::*;
use vstd::slice::slice_subrange;
use zip::ZipArchive;

verus! {

/// The most bytes that are decoded of one compressed file or archive member.
pub const MAX_DECOMPRESSED_BYTES: u64 = 268_435_456;

/// What was read of a file, a decoder or an archive member: the bytes, and why the reading
/// failed, if it did.
pub struct ReadBytes {
    pub data: Vec<u8>,
    pub failure: Option<String>,
}

impl View for ReadBytes {
    type V = (Seq<u8>, Option<Seq<char>>);

    open spec fn view(&self) -> (Seq<u8>, Option<Seq<char>>) {
        (self.data@, words(self.failure))
    }
}

/// What was read of one stream of compressed data, and how many bytes of the data stand
/// behind what the decoder took.
pub struct ReadStream {
    pub read: ReadBytes,
    pub left: usize,
}

/// What a `flate2::bufread::GzDecoder` hands out of the gzip stream at the start of data, at
/// most `most` bytes, why it fails behind them, if it does, and how many bytes of the data
/// it leaves.
pub uninterp spec fn gzip_stream(data: Seq<u8>, most: u64) -> (
    Seq<u8>,
    Option<Seq<char>>,
    int,
);

/// Reads from a `flate2::bufread::GzDecoder` to the end of its stream with `read_to_end`, or
/// until `most` bytes were read, and asks with `into_inner` for what it leaves of the data.
/// It claims that all this depends on the data and on `most` alone, that there are no more
/// than `most` bytes, and that no more is left than there was.
#[verifier::external_body]
fn read_gzip(data: &[u8], most: u64) -> (r: ReadStream)
    ensures
        (r.read@.0, r.read@.1, r.left as int) == gzip_stream(data@, most),
        r.read.data@.len() <= most,
        r.left <= data@.len(),
{
    let mut out: Vec<u8> = Vec::new();
    let mut decoder = flate2::bufread::GzDecoder::new(data).take(most);
    let ended = decoder.read_to_end(&mut out);
    let left: usize = decoder.into_inner().into_inner().len();
    let read = ReadBytes { data: out, failure: ended.err().map(|error| error.to_string()) };
    ReadStream { read, left }
}

/// What a `bzip2::bufread::BzDecoder` hands out of the bzip2 stream at the start of data, at
/// most `most` bytes, why it fails behind them, if it does, and how many bytes of the data
/// it leaves.
pub uninterp spec fn bzip2_stream(data: Seq<u8>, most: u64) -> (
    Seq<u8>,
    Option<Seq<char>>,
    int,
);

/// Reads from a `bzip2::bufread::BzDecoder` to the end of its stream with `read_to_end`, or
/// until `most` bytes were read, and asks with `into_inner` for what it leaves of the data.
/// It claims that all this depends on the data and on `most` alone, that there are no more
/// than `most` bytes, and that no more is left than there was.
#[verifier::external_body]
fn read_bzip2(data: &[u8], most: u64) -> (r: ReadStream)
    ensures
        (r.read@.0, r.read@.1, r.left as int) == bzip2_stream(data@, most),
        r.read.data@.len() <= most,
        r.left <= data@.len(),
{
    let mut out: Vec<u8> = Vec::new();
    let mut decoder = bzip2::bufread::BzDecoder::new(data).take(most);
    let ended = decoder.read_to_end(&mut out);
    let left: usize = decoder.into_inner().into_inner().len();
    let read = ReadBytes { data: out, failure: ended.err().map(|error| error.to_string()) };
    ReadStream { read, left }
}

/// What a `xz2::read::XzDecoder` hands out of xz data, at most `most` bytes, and why it
/// fails behind them, if it does.
pub uninterp spec fn xz_bytes(data: Seq<u8>, most: u64) -> (Seq<u8>, Option<Seq<char>>);

/// Reads from a `xz2::read::XzDecoder` with the stream of
/// `xz2::stream::Stream::new_stream_decoder`, which takes several xz streams one behind the
/// other, to its end with `read_to_end`, or until `most` bytes were read. It claims that the
/// bytes and the words of a failure depend on the data and on `most` alone, and that there
/// are no more than `most` bytes.
#[verifier::external_body]
fn read_xz(data: &[u8], most: u64) -> (r: ReadBytes)
    ensures
        r@ == xz_bytes(data@, most),
        r.data@.len() <= most,
{
    let mut out: Vec<u8> = Vec::new();
    let ended = xz2::stream::Stream::new_stream_decoder(u64::MAX, xz2::stream::CONCATENATED)
        .map_err(std::io::Error::from)
        .and_then(|stream| {
            xz2::read::XzDecoder::new_stream(data, stream).take(most).read_to_end(&mut out)
        });
    ReadBytes { data: out, failure: ended.err().map(|error| error.to_string()) }
}

/// What a `xz2::read::XzDecoder` that finds out by itself whether data is of the older lzma
/// format or of xz hands out of it, at most `most` bytes, and why it fails behind them, if
/// it does.
pub uninterp spec fn lzma_bytes(data: Seq<u8>, most: u64) -> (Seq<u8>, Option<Seq<char>>);

/// Reads from a `xz2::read::XzDecoder` with the stream of
/// `xz2::stream::Stream::new_auto_decoder`, which takes both formats and several streams
/// one behind the other, to its end with `read_to_end`, or until `most` bytes were read.
/// It claims that the bytes and the words of a failure depend on the data and on `most`
/// alone, and that there are no more than `most` bytes.
#[verifier::external_body]
fn read_lzma(data: &[u8], most: u64) -> (r: ReadBytes)
    ensures
        r@ == lzma_bytes(data@, most),
        r.data@.len() <= most,
{
    let mut out: Vec<u8> = Vec::new();
    let ended = xz2::stream::Stream::new_auto_decoder(u64::MAX, xz2::stream::CONCATENATED)
        .map_err(std::io::Error::from)
        .and_then(|stream| {
            xz2::read::XzDecoder::new_stream(data, stream).take(most).read_to_end(&mut out)
        });
    ReadBytes { data: out, failure: ended.err().map(|error| error.to_string()) }
}

/// What a `zstd::stream::read::Decoder` hands out of zstd data, at most `most` bytes, and
/// why it fails behind them, if it does.
pub uninterp spec fn zstd_bytes(data: Seq<u8>, most: u64) -> (Seq<u8>, Option<Seq<char>>);

/// Reads from a `zstd::stream::read::Decoder` to its end with `read_to_end`, or until
/// `most` bytes were read. It claims that the bytes and the words of a failure depend on
/// the data and on `most` alone, and that there are no more than `most` bytes.
#[verifier::external_body]
fn read_zstd(data: &[u8], most: u64) -> (r: ReadBytes)
    ensures
        r@ == zstd_bytes(data@, most),
        r.data@.len() <= most,
{
    let mut out: Vec<u8> = Vec::new();
    let ended = zstd::stream::read::Decoder::new(data)
        .and_then(|decoder| decoder.take(most).read_to_end(&mut out));
    ReadBytes { data: out, failure: ended.err().map(|error| error.to_string()) }
}

/// Whether data begins as each gzip stream does, or each bzip2 stream.
pub open spec fn begins_stream(format: Compression, data: Seq<u8>) -> bool {
    if format == Compression::Gzip {
        data.len() >= 2 && data[0] == 0x1f && data[1] == 0x8b
    } else {
        data.len() >= 3 && data[0] == 0x42 && data[1] == 0x5a && data[2] == 0x68
    }
}

/// What is decoded of one stream, gzip or bzip2.
pub open spec fn stream_bytes(format: Compression, data: Seq<u8>, most: u64) -> (
    Seq<u8>,
    Option<Seq<char>>,
    int,
) {
    if format == Compression::Gzip {
        gzip_stream(data, most)
    } else {
        bzip2_stream(data, most)
    }
}

/// What is decoded of the gzip or bzip2 streams that stand one behind the other from the
/// index `from` on, at most `most` bytes, and why the decoding fails behind that, if it
/// does. What stands behind a stream and does not begin as another one is not looked at.
pub open spec fn streams_from(format: Compression, data: Seq<u8>, from: int, most: u64) -> (
    Seq<u8>,
    Option<Seq<char>>,
)
    decreases data.len() - from,
{
    let one = stream_bytes(format, data.skip(from), most);
    let next = data.len() - one.2;
    if one.1 is None && one.0.len() < most && from < next < data.len() && begins_stream(
        format,
        data.skip(next),
    ) {
        let later = streams_from(format, data, next, (most - one.0.len()) as u64);
        (one.0 + later.0, later.1)
    } else {
        (one.0, one.1)
    }
}

/// Computes `streams_from` for all of the data.
fn read_streams(format: Compression, data: &[u8], most: u64) -> (r: ReadBytes)
    ensures
        r@ == streams_from(format, data@, 0, most),
        r.data@.len() <= most,
{
    let mut out: Vec<u8> = Vec::new();
    let mut from: usize = 0;
    let mut room: u64 = most;
    loop
        invariant
            from <= data@.len(),
            out@.len() + room == most,
            streams_from(format, data@, 0, most) == ({
                let later = streams_from(format, data@, from as int, room);
                (out@ + later.0, later.1)
            }),
        decreases data@.len() - from,
    {
        let part = slice_subrange(data, from, data.len());
        assert(part@ =~= data@.skip(from as int));
        let mut one = if format == Compression::Gzip {
            read_gzip(part, room)
        } else {
            read_bzip2(part, room)
        };
        let next: usize = data.len() - one.left;
        let got: u64 = one.read.data.len() as u64;
        out.append(&mut one.read.data);
        if one.read.failure.is_some() || got >= room || next <= from || next >= data.len() {
            return ReadBytes { data: out, failure: one.read.failure };
        }
        let rest = slice_subrange(data, next, data.len());
        assert(rest@ =~= data@.skip(next as int));
        let more = if format == Compression::Gzip {
            rest.len() >= 2 && rest[0] == 0x1f && rest[1] == 0x8b
        } else {
            rest.len() >= 3 && rest[0] == 0x42 && rest[1] == 0x5a && rest[2] == 0x68
        };
        if !more {
            return ReadBytes { data: out, failure: one.read.failure };
        }
        from = next;
        room = room - got;
    }
}

/// What is decoded of a compressed file of any format but zip, by the format, up to the
/// limit of `MAX_DECOMPRESSED_BYTES`, and why the decoding fails behind that, if it does.
pub open spec fn compressed_bytes(format: Compression, data: Seq<u8>) -> (
    Seq<u8>,
    Option<Seq<char>>,
) {
    match format {
        Compression::Xz => xz_bytes(data, MAX_DECOMPRESSED_BYTES),
        Compression::Lzma => lzma_bytes(data, MAX_DECOMPRESSED_BYTES),
        Compression::Zstd => zstd_bytes(data, MAX_DECOMPRESSED_BYTES),
        Compression::Zip => (Seq::empty(), None),
        _ => streams_from(format, data, 0, MAX_DECOMPRESSED_BYTES),
    }
}

/// Decodes a compressed file of any format but zip: no more of it than
/// `MAX_DECOMPRESSED_BYTES`, however much it holds.
pub fn read_compressed(format: Compression, data: &[u8]) -> (r: ReadBytes)
    requires
        format != Compression::Zip,
    ensures
        r@ == compressed_bytes(format, data@),
        r.data@.len() <= MAX_DECOMPRESSED_BYTES,
{
    match format {
        Compression::Xz => read_xz(data, MAX_DECOMPRESSED_BYTES),
        Compression::Lzma => read_lzma(data, MAX_DECOMPRESSED_BYTES),
        Compression::Zstd => read_zstd(data, MAX_DECOMPRESSED_BYTES),
        _ => read_streams(format, data, MAX_DECOMPRESSED_BYTES),
    }
}

/// Bytes in memory with a position, of std.
#[verifier::external_type_specification]
#[verifier::external_body]
#[verifier::reject_recursive_types(T)]
pub struct ExCursor<T>(Cursor<T>);

/// An opened archive of the `zip` crate.
#[verifier::external_type_specification]
#[verifier::external_body]
#[verifier::reject_recursive_types(R)]
pub struct ExZipArchive<R>(ZipArchive<R>);

/// One member of an archive: whether it is a directory, and its name.
#[verifier::ext_equal]
pub struct Member {
    pub is_dir: bool,
    pub name: Seq<char>,
}

/// The bytes that an archive was opened from.
pub uninterp spec fn archive_bytes(archive: ZipArchive<Cursor<Vec<u8>>>) -> Seq<u8>;

/// The members of an archive by its bytes, in the order of its directory, with the words
/// of the error for one that cannot be opened; the words alone if `ZipArchive::new`
/// refuses the bytes.
pub uninterp spec fn zip_members(data: Seq<u8>) -> Result<
    Seq<Result<Member, Seq<char>>>,
    Seq<char>,
>;

/// What the archive member with this index hands out, at most `most` bytes, and why it
/// fails behind them, if it does.
pub uninterp spec fn zip_bytes(data: Seq<u8>, index: int, most: u64) -> (
    Seq<u8>,
    Option<Seq<char>>,
);

/// Calls `ZipArchive::new`. It claims that whether the bytes are an archive, and the words
/// of a refusal, depend on the bytes alone, and that the archive keeps them.
#[verifier::external_body]
pub(crate) fn open_archive(data: Vec<u8>) -> (r: Result<ZipArchive<Cursor<Vec<u8>>>, String>)
    ensures
        match r {
            Ok(archive) => zip_members(data@) is Ok && archive_bytes(archive) == data@,
            Err(cause) => zip_members(data@) == Err::<Seq<Result<Member, Seq<char>>>, _>(cause@),
        },
{
    ZipArchive::new(Cursor::new(data)).map_err(|error| error.to_string())
}

/// Calls `ZipArchive::len`. It claims that this is the number of members.
#[verifier::external_body]
pub(crate) fn archive_len(archive: &ZipArchive<Cursor<Vec<u8>>>) -> (n: usize)
    requires
        zip_members(archive_bytes(*archive)) is Ok,
    ensures
        n == zip_members(archive_bytes(*archive))->Ok_0.len(),
{
    archive.len()
}

/// What the directory of an archive says of a member.
pub struct MemberHeader {
    pub is_dir: bool,
    pub name: String,
}

/// Calls `ZipArchive::by_index`, and `is_dir` and `name` of what that returns. It claims
/// that the archive is left as it was, and that which members are refused, and with which
/// words, depends on the archive's bytes alone.
#[verifier::external_body]
pub(crate) fn open_member(archive: &mut ZipArchive<Cursor<Vec<u8>>>, index: usize) -> (r: Result<
    MemberHeader,
    String,
>)
    requires
        zip_members(archive_bytes(*old(archive))) is Ok,
        index < zip_members(archive_bytes(*old(archive)))->Ok_0.len(),
    ensures
        archive_bytes(*final(archive)) == archive_bytes(*old(archive)),
        match r {
            Ok(header) => zip_members(archive_bytes(*old(archive)))->Ok_0[index as int] matches Ok(
                member,
            ) && header.is_dir == member.is_dir && header.name@ == member.name,
            Err(cause) => zip_members(archive_bytes(*old(archive)))->Ok_0[index as int] == Err::<
                Member,
                _,
            >(cause@),
        },
{
    let member = archive.by_index(index).map_err(|error| error.to_string())?;
    Ok(MemberHeader { is_dir: member.is_dir(), name: member.name().to_owned() })
}

/// Calls `ZipArchive::by_index` and reads from the member to its end, or until `most` bytes
/// were read. It claims that the archive is left as it was, that the bytes and the words of
/// a failure depend on the archive's bytes, the index and `most` alone, and that there are
/// no more than `most` bytes.
#[verifier::external_body]
pub(crate) fn read_member(
    archive: &mut ZipArchive<Cursor<Vec<u8>>>,
    index: usize,
    most: u64,
) -> (r: ReadBytes)
    requires
        zip_members(archive_bytes(*old(archive))) is Ok,
        index < zip_members(archive_bytes(*old(archive)))->Ok_0.len(),
        zip_members(archive_bytes(*old(archive)))->Ok_0[index as int] is Ok,
    ensures
        archive_bytes(*final(archive)) == archive_bytes(*old(archive)),
        r@ == zip_bytes(archive_bytes(*old(archive)), index as int, most),
        r.data@.len() <= most,
{
    let mut out: Vec<u8> = Vec::new();
    let failure = match archive.by_index(index) {
        Ok(member) => member.take(most).read_to_end(&mut out).err().map(|error| error.to_string()),
        Err(error) => Some(error.to_string()),
    };
    ReadBytes { data: out, failure }
}

/// What was read is its bytes, and the words of the failure where there is one.
pub proof fn what_was_read_has_its_value(read: ReadBytes)
    ensures
        read@.0 == read.data@,
        read.failure is None <==> read@.1 is None,
        read.failure matches Some(cause) ==> read@.1 == Some(cause@),
{
}

} // verus!
