//! Media files embedded into the document as `data:` URIs.

use vstd::prelude::*;

use crate::error::{text_result, CompileError, Fault};

verus! {

/// The standard, padded base64 text of some bytes.
pub uninterp spec fn base64_of(b: Seq<u8>) -> Seq<char>;

/// The extension of the file that a path names, if it has one.
pub uninterp spec fn extension_of(p: Seq<char>) -> Option<Seq<char>>;

/// Relies on `base64::encode` (standard alphabet, with padding): the text depends on the
/// bytes alone. It panics only where the length of the text overflows `usize`.
#[verifier::external_body]
#[allow(deprecated)]
fn encode_base64(b: &Vec<u8>) -> (r: String)
    requires
        b.len() <= isize::MAX,
    ensures
        r@ == base64_of(b@),
{
    base64::encode(b)
}

/// Relies on `std::path::Path::extension`: the extension of the path's file name, without
/// its dot, which depends on the path alone.
#[verifier::external_body]
fn path_extension(p: &str) -> (r: Option<String>)
    ensures
        match r {
            Some(e) => extension_of(p@) == Some(e@),
            None => extension_of(p@) is None,
        },
{
    match std::path::Path::new(p).extension() {
        Some(e) => Some(e.to_string_lossy().into_owned()),
        None => None,
    }
}

/// The bytes of a media file, under the path by which the markup names it.
pub struct MediaFile {
    pub path: String,
    pub bytes: Vec<u8>,
}

/// Every file is small enough to be encoded; any file that fits in memory is.
pub open spec fn media_fits(ms: Seq<MediaFile>) -> bool {
    forall|i: int| 0 <= i < ms.len() ==> (#[trigger] ms[i]).bytes.len() <= isize::MAX
}

/// The bytes of the first file with path `p`.
pub open spec fn find_media(ms: Seq<MediaFile>, p: Seq<char>) -> Option<Seq<u8>>
    decreases ms.len(),
{
    if ms.len() == 0 {
        None
    } else if ms[0].path@ == p {
        Some(ms[0].bytes@)
    } else {
        find_media(ms.drop_first(), p)
    }
}

/// `data:<category>/<ext>;base64,<payload>`.
pub open spec fn data_uri(category: Seq<char>, ext: Seq<char>, bytes: Seq<u8>) -> Seq<char> {
    "data:"@ + category + "/"@ + ext + ";base64,"@ + base64_of(bytes)
}

/// The `data:` URI of the file at `path`, or why there is none.
pub open spec fn resolved_media(ms: Seq<MediaFile>, path: Seq<char>, category: Seq<char>) -> Result<
    Seq<char>,
    Fault,
> {
    match find_media(ms, path) {
        None => Err(Fault::MediaResolutionFailure(path)),
        Some(bytes) => match extension_of(path) {
            None => Err(Fault::MediaResolutionFailure(path)),
            Some(ext) => Ok(data_uri(category, ext, bytes)),
        },
    }
}

/// The index of the first file with path `path`.
pub fn lookup_media(media: &Vec<MediaFile>, path: &str) -> (r: Option<usize>)
    ensures
        match r {
            Some(i) => i < media.len() && find_media(media@, path@) == Some(media@[i as int].bytes@),
            None => find_media(media@, path@) is None,
        },
{
    let mut i: usize = 0;
    assert(media@.subrange(0, media.len() as int) =~= media@);
    while i < media.len()
        invariant
            i <= media.len(),
            find_media(media@, path@) == find_media(media@.subrange(i as int, media.len() as int), path@),
        decreases media.len() - i,
    {
        let ghost rest = media@.subrange(i as int, media.len() as int);
        assert(rest.drop_first() =~= media@.subrange(i + 1, media.len() as int));
        assert(rest[0] == media@[i as int]);
        if same_path(&media[i].path, path) {
            return Some(i);
        }
        i = i + 1;
    }
    None
}

fn same_path(a: &String, b: &str) -> (r: bool)
    ensures
        r == (a@ == b@),
{
    crate::strings::same_text(a.as_str(), b)
}

/// The `data:` URI of the media file at `file`, of MIME category `tipo`.
pub fn file_base64(file: &str, tipo: &str, media: &Vec<MediaFile>) -> (r: Result<String, CompileError>)
    requires
        media_fits(media@),
    ensures
        text_result(r) == resolved_media(media@, file@, tipo@),
{
    let found = match lookup_media(media, file) {
        Some(i) => &media[i],
        None => {
            return Err(CompileError::MediaResolutionFailure(String::from_str(file)));
        },
    };
    let ext = match path_extension(file) {
        Some(e) => e,
        None => {
            return Err(CompileError::MediaResolutionFailure(String::from_str(file)));
        },
    };
    let mut uri = String::from_str("data:");
    uri.append(tipo);
    uri.append("/");
    uri.append(ext.as_str());
    uri.append(";base64,");
    let payload = encode_base64(&found.bytes);
    uri.append(payload.as_str());
    assert(uri@ =~= data_uri(tipo@, ext@, found.bytes@));
    Ok(uri)
}

} // verus!
