//! Compressed files and archives in memory.
use vstd::prelude::*;

verus! {

/// The text that gzip data hold, as `flate2` reads them, or the message of the
/// error: that of the data, or of a text that is not UTF-8.
pub uninterp spec fn gzip_text(data: Seq<u8>) -> Result<Seq<char>, Seq<char>>;

/// The gzip data of bytes, as `flate2` writes them at its default level, or the message
/// of the error.
pub uninterp spec fn gzip_data(bytes: Seq<u8>) -> Result<Seq<u8>, Seq<char>>;

/// `flate2::read::GzDecoder`, read to its end as text. The result depends on the
/// data alone, and is only named.
#[verifier::external_body]
pub(crate) fn gunzip(data: &[u8]) -> (out: Result<String, String>)
    ensures
        match out {
            Ok(s) => gzip_text(data@) == Ok::<Seq<char>, Seq<char>>(s@),
            Err(e) => gzip_text(data@) == Err::<Seq<char>, Seq<char>>(e@),
        },
{
    let mut text = String::new();
    let mut decoder = flate2::read::GzDecoder::new(data);
    match std::io::Read::read_to_string(&mut decoder, &mut text) {
        Ok(_) => Ok(text),
        Err(e) => Err(e.to_string()),
    }
}

/// `flate2::write::GzEncoder` at the default level, into memory. Whether it succeeds,
/// the data and the message of the error depend on the text alone, and are named. The
/// data begin with the mark of gzip data, and give the text back when they are read.
#[verifier::external_body]
pub(crate) fn gzip(text: &str) -> (out: Result<Vec<u8>, String>)
    ensures
        match out {
            Ok(data) => gzip_data(vstd::utf8::encode_utf8(text@)) == Ok::<Seq<u8>, Seq<char>>(data@)
                && gzip_text(data@) == Ok::<Seq<char>, Seq<char>>(text@) && data@.len() > 2
                && data@[0] == 0x1f && data@[1] == 0x8b,
            Err(e) => gzip_data(vstd::utf8::encode_utf8(text@)) == Err::<Seq<u8>, Seq<char>>(e@),
        },
{
    let mut encoder = flate2::write::GzEncoder::new(Vec::new(), flate2::Compression::default());
    std::io::Write::write_all(&mut encoder, text.as_bytes()).map_err(|e| e.to_string())?;
    encoder.finish().map_err(|e| e.to_string())
}

// ---------------------------------------------------------------------------
// ZIP archives
// ---------------------------------------------------------------------------

/// Why an entry of an archive was not read.
#[derive(Debug)]
pub enum ZipFailure {
    /// The archive is damaged, or lacks the entry.
    Zip(String),
    /// The entry cannot be unpacked, or is not UTF-8.
    Io(String),
}

/// What a `ZipFailure` says.
#[verifier::ext_equal]
pub enum ZipFailureModel {
    Zip(Seq<char>),
    Io(Seq<char>),
}

impl View for ZipFailure {
    type V = ZipFailureModel;

    open spec fn view(&self) -> ZipFailureModel {
        match self {
            ZipFailure::Zip(e) => ZipFailureModel::Zip(e@),
            ZipFailure::Io(e) => ZipFailureModel::Io(e@),
        }
    }
}

/// The text of the entry of an archive with the given name, as `zip` reads it.
pub uninterp spec fn zip_text(data: Seq<u8>, name: Seq<char>) -> Result<Seq<char>, ZipFailureModel>;

/// The bytes of the entry of an archive with the given name, as `zip` reads them.
pub uninterp spec fn zip_bytes(data: Seq<u8>, name: Seq<char>) -> Option<Seq<u8>>;

/// `zip::ZipArchive::by_name` on an archive in memory, the entry read to its end
/// as text. The result depends on the archive and the name alone, and is only
/// named.
#[verifier::external_body]
pub(crate) fn read_zip_text(data: &[u8], name: &str) -> (out: Result<String, ZipFailure>)
    ensures
        match out {
            Ok(s) => zip_text(data@, name@) == Ok::<Seq<char>, ZipFailureModel>(s@),
            Err(e) => zip_text(data@, name@) == Err::<Seq<char>, ZipFailureModel>(e@),
        },
{
    let mut text = String::new();
    let mut archive = zip::ZipArchive::new(std::io::Cursor::new(data))
        .map_err(|e| ZipFailure::Zip(e.to_string()))?;
    let mut entry = archive.by_name(name).map_err(|e| ZipFailure::Zip(e.to_string()))?;
    std::io::Read::read_to_string(&mut entry, &mut text)
        .map_err(|e| ZipFailure::Io(e.to_string()))?;
    Ok(text)
}

/// `zip::ZipArchive::by_name` on an archive in memory, the entry read to its end.
/// The result depends on the archive and the name alone, and is only named.
#[verifier::external_body]
pub(crate) fn read_zip_bytes(data: &[u8], name: &str) -> (out: Option<Vec<u8>>)
    ensures
        match out {
            Some(b) => zip_bytes(data@, name@) == Some(b@),
            None => zip_bytes(data@, name@) is None,
        },
{
    let mut bytes = Vec::new();
    let mut archive = zip::ZipArchive::new(std::io::Cursor::new(data)).ok()?;
    let mut entry = archive.by_name(name).ok()?;
    std::io::Read::read_to_end(&mut entry, &mut bytes).ok()?;
    Some(bytes)
}

/// An archive under construction in memory: a `zip::ZipWriter`.
#[verifier::external_body]
pub struct ZipBuilder {
    inner: zip::ZipWriter<std::io::Cursor<Vec<u8>>>,
}

/// The names and the bytes of the entries of an archive under construction.
pub uninterp spec fn zip_entries(zip: ZipBuilder) -> Seq<(Seq<char>, Seq<u8>)>;

/// `zip::ZipWriter::new` begins an archive without entries.
#[verifier::external_body]
pub(crate) fn begin_zip() -> (out: ZipBuilder)
    ensures
        zip_entries(out) == Seq::<(Seq<char>, Seq<u8>)>::empty(),
{
    ZipBuilder { inner: zip::ZipWriter::new(std::io::Cursor::new(Vec::new())) }
}

/// Why `zip` does not add an entry with the given name and bytes to an archive with the
/// given entries: the message of its error, or nothing where it adds the entry.
pub uninterp spec fn zip_add_error(
    entries: Seq<(Seq<char>, Seq<u8>)>,
    name: Seq<char>,
    bytes: Seq<u8>,
) -> Option<Seq<char>>;

/// `zip::ZipWriter::start_file` with the default options, and the bytes written. Where
/// both succeed the archive has one entry more. Whether they do, and the message of the
/// error, depend on the entries, the name and the bytes alone, and are named: in memory
/// the time only fills fields of a fixed size. The crate panics on a name of more than
/// 65535 bytes.
#[verifier::external_body]
pub(crate) fn add_to_zip(zip: ZipBuilder, name: &str, bytes: &[u8]) -> (out: Result<
    ZipBuilder,
    String,
>)
    requires
        vstd::utf8::encode_utf8(name@).len() <= 65535,
    ensures
        match out {
            Ok(more) => zip_add_error(zip_entries(zip), name@, bytes@) is None && zip_entries(more)
                == zip_entries(zip).push((name@, bytes@)),
            Err(e) => zip_add_error(zip_entries(zip), name@, bytes@) == Some(e@),
        },
{
    let mut zip = zip;
    let options = zip::write::SimpleFileOptions::default();
    zip.inner.start_file(name, options).map_err(|e| e.to_string())?;
    std::io::Write::write_all(&mut zip.inner, bytes).map_err(|e| e.to_string())?;
    Ok(zip)
}

/// Why `zip` does not finish an archive with the given entries: the message of its
/// error, or nothing where it finishes.
pub uninterp spec fn zip_finish_error(entries: Seq<(Seq<char>, Seq<u8>)>) -> Option<Seq<char>>;

/// `zip::ZipWriter::finish`. Each entry with an ASCII name can be read from the
/// archive: its bytes, and as text where they are UTF-8. The bytes of the archive
/// also depend on the time, so no more is said of them than that they begin with
/// the mark of an archive, where there is an entry. Whether it succeeds, and the message
/// of the error, depend on the entries alone, and are named.
#[verifier::external_body]
pub(crate) fn finish_zip(zip: ZipBuilder) -> (out: Result<Vec<u8>, String>)
    ensures
        match out {
            Ok(data) => {
                &&& zip_finish_error(zip_entries(zip)) is None
                &&& forall|i: int|
                    0 <= i < zip_entries(zip).len() && vstd::utf8::is_ascii_chars(
                        (#[trigger] zip_entries(zip)[i]).0,
                    ) ==> zip_bytes(data@, zip_entries(zip)[i].0) == Some(zip_entries(zip)[i].1)
                        && (vstd::utf8::valid_utf8(zip_entries(zip)[i].1) ==> zip_text(
                        data@,
                        zip_entries(zip)[i].0,
                    ) == Ok::<Seq<char>, ZipFailureModel>(
                        vstd::utf8::decode_utf8(zip_entries(zip)[i].1),
                    ))
                &&& zip_entries(zip).len() > 0 ==> data@.len() > 4 && data@.take(4) == seq![
                    0x50u8,
                    0x4b,
                    0x03,
                    0x04,
                ]
            },
            Err(e) => zip_finish_error(zip_entries(zip)) == Some(e@),
        },
{
    zip.inner.finish().map(|cursor| cursor.into_inner()).map_err(|e| e.to_string())
}

} // verus!
