use vstd::prelude::*;
use vstd::string::*;
use crate::text::push_char;

verus! {

/// Whether a path names a location from the root of the file system.
pub open spec fn is_absolute_spec(p: Seq<char>) -> bool {
    p.len() > 0 && p[0] == '/'
}

/// `base` followed by `p`, with one separator between them where `base` lacks one;
/// an absolute `p` replaces `base` altogether.
pub open spec fn join_spec(base: Seq<char>, p: Seq<char>) -> Seq<char> {
    if is_absolute_spec(p) {
        p
    } else if base.len() == 0 || base.last() == '/' {
        base + p
    } else {
        base + seq!['/'] + p
    }
}

pub fn is_absolute(p: &str) -> (r: bool)
    ensures
        r == is_absolute_spec(p@),
{
    p.unicode_len() > 0 && p.get_char(0) == '/'
}

} // verus!

verus! {

/// Joins `p` onto `base` the way a path is pushed onto a directory: an absolute
/// `p` stands alone, otherwise one `/` separates the two unless `base` is empty
/// or already ends with one.
pub fn join(base: &str, p: &str) -> (r: String)
    ensures
        r@ == join_spec(base@, p@),
{
    if is_absolute(p) {
        return p.to_string();
    }
    let n = base.unicode_len();
    let mut r = base.to_string();
    if n > 0 && base.get_char(n - 1) != '/' {
        push_char(&mut r, '/');
    }
    r.append(p);
    r
}

/// The extension of the last component of a path, where it has one.
pub uninterp spec fn extension_of(p: Seq<char>) -> Option<Seq<char>>;

/// The last component of a path, where it has one.
pub uninterp spec fn file_name_of(p: Seq<char>) -> Option<Seq<char>>;

/// The path without its last component, where it has one.
pub uninterp spec fn parent_of(p: Seq<char>) -> Option<Seq<char>>;

/// The path with the extension of its last component set to `ext` (unchanged where
/// it has no last component), where the result is text.
pub uninterp spec fn with_extension_of(p: Seq<char>, ext: Seq<char>) -> Option<Seq<char>>;

/// The lower-case form of a text.
pub uninterp spec fn lower_of(s: Seq<char>) -> Seq<char>;

/// Relies on Path::extension: the extension of the path's file name, where it has
/// one, read as text.
#[verifier::external_body]
pub(crate) fn path_extension(p: &str) -> (r: Option<String>)
    ensures
        r is Some <==> extension_of(p@) is Some,
        r is Some ==> extension_of(p@) == Some(r->0@),
{
    std::path::Path::new(p).extension().map(|e| e.to_str().unwrap_or_default().to_string())
}

/// Relies on Path::file_name: the final component of the path, `None` where the
/// path ends in `..` or has no component.
#[verifier::external_body]
pub(crate) fn path_file_name(p: &str) -> (r: Option<String>)
    ensures
        r is Some <==> file_name_of(p@) is Some,
        r is Some ==> file_name_of(p@) == Some(r->0@),
{
    std::path::Path::new(p).file_name().map(|e| e.to_str().unwrap_or_default().to_string())
}

/// Relies on Path::parent: the path without its final component, `None` for a root
/// or an empty path.
#[verifier::external_body]
pub(crate) fn path_parent(p: &str) -> (r: Option<String>)
    ensures
        r is Some <==> parent_of(p@) is Some,
        r is Some ==> parent_of(p@) == Some(r->0@),
{
    std::path::Path::new(p).parent().map(|q| q.to_str().unwrap_or_default().to_string())
}

/// Relies on PathBuf::set_extension: the file name's extension replaced by `ext`
/// (or `ext` added; the path is left as it is where it has no file name), read back
/// as text. It panics on an extension that holds a path separator.
#[verifier::external_body]
pub(crate) fn path_with_extension(p: &str, ext: &str) -> (r: Option<String>)
    requires
        !ext@.contains('/'),
    ensures
        r is Some <==> with_extension_of(p@, ext@) is Some,
        r is Some ==> with_extension_of(p@, ext@) == Some(r->0@),
{
    let mut buf = std::path::PathBuf::from(p);
    buf.set_extension(ext);
    buf.into_os_string().into_string().ok()
}

/// Relies on str::to_lowercase: the lower-case form of the text (a final capital
/// sigma is mapped by its context); the result depends on the characters alone.
#[verifier::external_body]
pub(crate) fn lowercase(s: &str) -> (r: String)
    ensures
        r@ == lower_of(s@),
{
    s.to_lowercase()
}

/// The form under which two extensions are compared: `jpeg` reads as `jpg`,
/// `tiff` as `tif`, any other stays as it is.
pub open spec fn normal_extension_spec(ext: Seq<char>) -> Seq<char> {
    if ext == seq!['j', 'p', 'e', 'g'] {
        seq!['j', 'p', 'g']
    } else if ext == seq!['t', 'i', 'f', 'f'] {
        seq!['t', 'i', 'f']
    } else {
        ext
    }
}

/// Maps an extension, already in lower case, to its normal form.
pub fn normalize_extension(ext: &str) -> (r: String)
    ensures
        r@ == normal_extension_spec(ext@),
{
    proof {
        reveal_strlit("jpeg");
        reveal_strlit("tiff");
        reveal_strlit("jpg");
        reveal_strlit("tif");
        assert("jpeg"@ =~= seq!['j', 'p', 'e', 'g']);
        assert("tiff"@ =~= seq!['t', 'i', 'f', 'f']);
        assert("jpg"@ =~= seq!['j', 'p', 'g']);
        assert("tif"@ =~= seq!['t', 'i', 'f']);
    }
    let e = ext.to_string();
    if e == "jpeg".to_string() {
        "jpg".to_string()
    } else if e == "tiff".to_string() {
        "tif".to_string()
    } else {
        e
    }
}

/// The extension of a path, empty where it has none.
pub open spec fn extension_or_empty(p: Seq<char>) -> Seq<char> {
    match extension_of(p) {
        Some(e) => e,
        None => seq![],
    }
}

/// The normal form of a path's extension, in lower case, so that the types of two
/// files can be compared.
pub open spec fn ext_normal_spec(p: Seq<char>) -> Seq<char> {
    normal_extension_spec(lower_of(extension_or_empty(p)))
}

pub fn ext_normal(path: &str) -> (r: String)
    ensures
        r@ == ext_normal_spec(path@),
{
    let ext = match path_extension(path) {
        Some(e) => e,
        None => String::new(),
    };
    let lower = lowercase(ext.as_str());
    normalize_extension(lower.as_str())
}

} // verus!
