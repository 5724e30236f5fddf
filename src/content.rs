//! Content classification by signature sniffing, and reconciliation of the
//! detected type with the file name's extension.
use vstd::prelude::*;
use crate::chars::{chars_of, same_chars};
use crate::error::ValidationError;

verus! {

/// The two kinds of content that are accepted.
#[derive(Debug, Clone, Copy, PartialEq, Eq, Structural)]
pub enum ContentGroup {
    Image,
    Video,
}

/// A concrete format found by sniffing: its canonical extension (without a
/// dot) and its MIME type.
#[derive(Debug, Clone, PartialEq, Eq)]
pub struct ContentSubtype {
    pub extension: String,
    pub mime_type: String,
}

impl View for ContentSubtype {
    type V = (Seq<char>, Seq<char>);

    open spec fn view(&self) -> (Seq<char>, Seq<char>) {
        (self.extension@, self.mime_type@)
    }
}

/// A sniffed type, if any, as (extension, MIME type).
pub open spec fn subtype_view(t: Option<ContentSubtype>) -> Option<(Seq<char>, Seq<char>)> {
    match t {
        Some(s) => Some(s@),
        None => None,
    }
}

/// A classification, with the subtype as (extension, MIME type).
pub open spec fn classified_view(r: Result<(ContentGroup, ContentSubtype), ValidationError>) -> Result<
    (ContentGroup, (Seq<char>, Seq<char>)),
    ValidationError,
> {
    match r {
        Ok((g, t)) => Ok((g, t@)),
        Err(e) => Err(e),
    }
}

/// Whether some image signature known to the sniffer matches the bytes.
pub uninterp spec fn sniffed_as_image(bytes: Seq<u8>) -> bool;

/// Whether some video signature known to the sniffer matches the bytes.
pub uninterp spec fn sniffed_as_video(bytes: Seq<u8>) -> bool;

/// The first type in the sniffer's table whose signature matches the bytes,
/// as (extension, MIME type).
pub uninterp spec fn sniffed_type(bytes: Seq<u8>) -> Option<(Seq<char>, Seq<char>)>;

/// The inputs on which infer's CR2 matcher reads past the end of the buffer
/// (it checks for more than nine bytes and reads the eleventh): ten bytes
/// that open with a TIFF byte-order mark and hold `CR` at offsets 8 and 9.
pub open spec fn overruns_cr2_matcher(b: Seq<u8>) -> bool {
    &&& b.len() == 10
    &&& ((b[0] == 0x49 && b[1] == 0x49 && b[2] == 0x2A && b[3] == 0x00) || (b[0] == 0x4D && b[1]
        == 0x4D && b[2] == 0x00 && b[3] == 0x2A))
    &&& b[8] == 0x43
    &&& b[9] == 0x52
}

/// Whether `buffer` can be sniffed: whether it avoids the inputs on which the
/// sniffer fails.
pub fn is_sniffable(buffer: &[u8]) -> (r: bool)
    ensures
        r == !overruns_cr2_matcher(buffer@),
{
    !(buffer.len() == 10 && ((buffer[0] == 0x49 && buffer[1] == 0x49 && buffer[2] == 0x2A
        && buffer[3] == 0x00) || (buffer[0] == 0x4D && buffer[1] == 0x4D && buffer[2] == 0x00
        && buffer[3] == 0x2A)) && buffer[8] == 0x43 && buffer[9] == 0x52)
}

/// Relies on `infer::is_image`: whether any matcher of infer's table that is
/// of the image kind accepts the buffer; a function of the bytes alone. Its
/// CR2 matcher panics on the inputs that `requires` leaves out.
#[verifier::external_body]
fn infer_is_image(buffer: &[u8]) -> (r: bool)
    requires
        !overruns_cr2_matcher(buffer@),
    ensures
        r == sniffed_as_image(buffer@),
{
    infer::is_image(buffer)
}

/// Relies on `infer::is_video`: whether any matcher of infer's table that is
/// of the video kind accepts the buffer; a function of the bytes alone.
#[verifier::external_body]
fn infer_is_video(buffer: &[u8]) -> (r: bool)
    ensures
        r == sniffed_as_video(buffer@),
{
    infer::is_video(buffer)
}

/// Relies on `infer::get`: the first type of infer's table whose matcher
/// accepts the buffer, read through `Type::extension` and `Type::mime_type`;
/// a function of the bytes alone. Called only once an image or video matcher
/// has accepted the buffer, so that the search stops at or before it: it never
/// reaches the document matchers further down the table, one of which adds to
/// a length read from the buffer without checking for overflow.
#[verifier::external_body]
fn infer_get(buffer: &[u8]) -> (r: Option<ContentSubtype>)
    requires
        !overruns_cr2_matcher(buffer@),
        sniffed_as_image(buffer@) || sniffed_as_video(buffer@),
    ensures
        subtype_view(r) == sniffed_type(buffer@),
{
    match infer::get(buffer) {
        Some(t) => Some(
            ContentSubtype { extension: t.extension().to_string(), mime_type: t.mime_type().to_string() },
        ),
        None => None,
    }
}

/// How a content is classified from what sniffing found: no group when it is
/// neither a video nor an image; a video before an image; then the subtype,
/// which must have been found.
pub open spec fn classification(
    is_video: bool,
    is_image: bool,
    subtype: Option<(Seq<char>, Seq<char>)>,
) -> Result<(ContentGroup, (Seq<char>, Seq<char>)), ValidationError> {
    if !is_video && !is_image {
        Err(ValidationError::InvalidContentGroup)
    } else {
        match subtype {
            None => Err(ValidationError::InvalidContentType),
            Some(t) => Ok((if is_video { ContentGroup::Video } else { ContentGroup::Image }, t)),
        }
    }
}

/// Classifies a content from the sniffer's three answers: whether it is a
/// video, whether it is an image, and its concrete type.
pub fn classify_sniffed(is_video: bool, is_image: bool, subtype: Option<ContentSubtype>) -> (r:
    Result<(ContentGroup, ContentSubtype), ValidationError>)
    ensures
        classified_view(r) == classification(is_video, is_image, subtype_view(subtype)),
{
    if !is_video && !is_image {
        return Err(ValidationError::InvalidContentGroup);
    }
    match subtype {
        None => Err(ValidationError::InvalidContentType),
        Some(t) => {
            let group = if is_video {
                ContentGroup::Video
            } else {
                ContentGroup::Image
            };
            Ok((group, t))
        },
    }
}

/// Classifies `buffer` by its signature, never by a file name.
pub fn classify_content(buffer: &[u8]) -> (r: Result<(ContentGroup, ContentSubtype), ValidationError>)
    requires
        !overruns_cr2_matcher(buffer@),
    ensures
        classified_view(r) == classification(
            sniffed_as_video(buffer@),
            sniffed_as_image(buffer@),
            sniffed_type(buffer@),
        ),
{
    let is_video = infer_is_video(buffer);
    let is_image = infer_is_image(buffer);
    if !is_video && !is_image {
        return Err(ValidationError::InvalidContentGroup);
    }
    classify_sniffed(is_video, is_image, infer_get(buffer))
}

/// A classification names the group that sniffing found: a video when the
/// video signatures match, else an image; and content that matches neither
/// is refused as `InvalidContentGroup`.
pub proof fn lemma_classification_group(
    is_video: bool,
    is_image: bool,
    subtype: Option<(Seq<char>, Seq<char>)>,
)
    ensures
        !is_video && !is_image ==> classification(is_video, is_image, subtype) == Err::<
            (ContentGroup, (Seq<char>, Seq<char>)),
            ValidationError,
        >(ValidationError::InvalidContentGroup),
        is_video && subtype is Some ==> classification(is_video, is_image, subtype) == Ok::<
            (ContentGroup, (Seq<char>, Seq<char>)),
            ValidationError,
        >((ContentGroup::Video, subtype->0)),
        !is_video && is_image && subtype is Some ==> classification(is_video, is_image, subtype)
            == Ok::<(ContentGroup, (Seq<char>, Seq<char>)), ValidationError>(
            (ContentGroup::Image, subtype->0),
        ),
{
}

/// The characters that end the search for an extension.
pub open spec fn is_mark(c: char) -> bool {
    c == '.' || c == '/' || c == '\\'
}

/// The position of the last mark among the first `n` characters, or -1.
pub open spec fn last_mark(p: Seq<char>, n: int) -> int
    decreases n,
{
    if n <= 0 {
        -1
    } else if is_mark(p[n - 1]) {
        n - 1
    } else {
        last_mark(p, n - 1)
    }
}

/// The extension of a path: what follows its last dot, when no path
/// separator follows that dot.
pub open spec fn extension_of(p: Seq<char>) -> Option<Seq<char>> {
    let k = last_mark(p, p.len() as int);
    if k >= 0 && p[k] == '.' {
        Some(p.subrange(k + 1, p.len() as int))
    } else {
        None
    }
}

/// Whether an extension is one that a canonical extension accepts: itself,
/// and `jpeg` for `jpg`, `tiff` for `tif`.
pub open spec fn accepts_extension(ext: Seq<char>, canonical: Seq<char>) -> bool {
    ||| ext == canonical
    ||| canonical == seq!['j', 'p', 'g'] && ext == seq!['j', 'p', 'e', 'g']
    ||| canonical == seq!['t', 'i', 'f'] && ext == seq!['t', 'i', 'f', 'f']
}

/// Whether the extension of `p` is accepted for the canonical extension.
pub open spec fn extension_fits(p: Seq<char>, canonical: Seq<char>) -> bool {
    match extension_of(p) {
        Some(ext) => accepts_extension(ext, canonical),
        None => false,
    }
}

/// `s` with leading and trailing white space removed.
pub uninterp spec fn trimmed(s: Seq<char>) -> Seq<char>;

/// `s` in lower case.
pub uninterp spec fn lowercased(s: Seq<char>) -> Seq<char>;

/// Relies on `str::trim`: leading and trailing white space removed; a
/// function of the text alone.
#[verifier::external_body]
fn trim(s: &str) -> (r: &str)
    ensures
        r@ == trimmed(s@),
{
    s.trim()
}

/// Relies on `str::to_lowercase`: the lower-case mapping of each character; a
/// function of the text alone.
#[verifier::external_body]
fn lowercase(s: &str) -> (r: String)
    ensures
        r@ == lowercased(s@),
{
    s.to_lowercase()
}

/// Whether `s` is the three characters `c0 c1 c2`.
fn is_three(s: &Vec<char>, c0: char, c1: char, c2: char) -> (r: bool)
    ensures
        r == (s@ == seq![c0, c1, c2]),
{
    if s.len() != 3 || s[0] != c0 || s[1] != c1 || s[2] != c2 {
        return false;
    }
    assert(s@ =~= seq![c0, c1, c2]);
    true
}

/// Whether `s` is the four characters `c0 c1 c2 c3`.
fn is_four(s: &Vec<char>, c0: char, c1: char, c2: char, c3: char) -> (r: bool)
    ensures
        r == (s@ == seq![c0, c1, c2, c3]),
{
    if s.len() != 4 || s[0] != c0 || s[1] != c1 || s[2] != c2 || s[3] != c3 {
        return false;
    }
    assert(s@ =~= seq![c0, c1, c2, c3]);
    true
}

/// Whether `ext` is the canonical extension itself.
fn match_extension(ext: &Vec<char>, canonical: &Vec<char>) -> (r: bool)
    ensures
        r == (ext@ == canonical@),
{
    same_chars(ext, canonical)
}

/// Whether `ext` is the second spelling that a canonical extension accepts:
/// `jpeg` for `jpg`, `tiff` for `tif`.
fn is_special_extension(ext: &Vec<char>, canonical: &Vec<char>) -> (r: bool)
    ensures
        r == ((canonical@ == seq!['j', 'p', 'g'] && ext@ == seq!['j', 'p', 'e', 'g']) || (
        canonical@ == seq!['t', 'i', 'f'] && ext@ == seq!['t', 'i', 'f', 'f'])),
{
    if is_three(canonical, 'j', 'p', 'g') {
        is_four(ext, 'j', 'p', 'e', 'g')
    } else if is_three(canonical, 't', 'i', 'f') {
        is_four(ext, 't', 'i', 'f', 'f')
    } else {
        false
    }
}

/// Whether the extension of `normalized_path`, compared as it stands, is
/// accepted for `subtype`. The caller has already trimmed and lower-cased
/// the path.
pub fn normalized_extension_matches(normalized_path: &str, subtype: &ContentSubtype) -> (r: bool)
    ensures
        r == extension_fits(normalized_path@, subtype.extension@),
{
    let p = chars_of(normalized_path);
    let mut n: usize = p.len();
    while n > 0 && p[n - 1] != '.' && p[n - 1] != '/' && p[n - 1] != '\\'
        invariant
            n <= p@.len(),
            p@ == normalized_path@,
            last_mark(p@, p@.len() as int) == last_mark(p@, n as int),
        decreases n,
    {
        n -= 1;
    }
    if n == 0 || p[n - 1] != '.' {
        return false;
    }
    let mut ext: Vec<char> = Vec::new();
    let mut i: usize = n;
    while i < p.len()
        invariant
            n <= i <= p@.len(),
            ext@ == p@.subrange(n as int, i as int),
        decreases p@.len() - i,
    {
        ext.push(p[i]);
        i += 1;
    }
    let canonical = chars_of(subtype.extension.as_str());
    match_extension(&ext, &canonical) || is_special_extension(&ext, &canonical)
}

/// Whether the extension of `file_path`, trimmed and compared without regard
/// to case, is accepted for `subtype`: the canonical extension, and also
/// `jpeg` for `jpg` and `tiff` for `tif`.
pub fn extension_matches(file_path: &str, subtype: &ContentSubtype) -> (r: bool)
    ensures
        r == extension_fits(lowercased(trimmed(file_path@)), subtype.extension@),
{
    let lowered = lowercase(trim(file_path));
    normalized_extension_matches(lowered.as_str(), subtype)
}

/// Whether a content is an image or a video of a known type and, when
/// `verify_extension` is set, whether `file_path`'s extension fits that type.
pub fn validate_file(file_path: &str, buffer: &[u8], verify_extension: bool) -> (r: Result<
    bool,
    ValidationError,
>)
    requires
        !overruns_cr2_matcher(buffer@),
    ensures
        match classification(
            sniffed_as_video(buffer@),
            sniffed_as_image(buffer@),
            sniffed_type(buffer@),
        ) {
            Err(e) => r == Err::<bool, ValidationError>(e),
            Ok((_, t)) => r == Ok::<bool, ValidationError>(
                !verify_extension || extension_fits(lowercased(trimmed(file_path@)), t.0),
            ),
        },
{
    match classify_content(buffer) {
        Err(e) => Err(e),
        Ok((_, subtype)) => Ok(!verify_extension || extension_matches(file_path, &subtype)),
    }
}

} // verus!
