use vstd::prelude::*;
use vstd::string::StringExecFns;

verus! {

/// What the filename sanitizer returns for a given client filename: a pure
/// function of the characters of the name.
pub uninterp spec fn sanitized_of(name: Seq<char>) -> Seq<char>;

/// A path is confined under `prefix` when it starts with `prefix` and the
/// remainder names a single component: no path separator appears after the
/// prefix, so the path cannot escape the directory the prefix designates.
pub open spec fn confined_under(path: Seq<char>, prefix: Seq<char>) -> bool {
    &&& path.len() >= prefix.len()
    &&& path.subrange(0, prefix.len() as int) == prefix
    &&& forall|i: int| prefix.len() <= i < path.len() ==> path[i] != '/' && path[i] != '\\'
}

/// The filesystem path the media writer creates files under.
pub open spec fn storage_prefix() -> Seq<char> {
    "./uploads/article_"@
}

/// The public retrieval path stored in a media row.
pub open spec fn public_prefix() -> Seq<char> {
    "/uploads/article_"@
}

/// The filesystem path derived from a client filename.
pub open spec fn storage_file_path_spec(name: Seq<char>) -> Seq<char> {
    storage_prefix() + sanitized_of(name)
}

/// The public retrieval path derived from a client filename.
pub open spec fn public_media_path_spec(name: Seq<char>) -> Seq<char> {
    public_prefix() + sanitized_of(name)
}

/// Relies on sanitize_filename::sanitize_with_options with fixed options
/// (empty replacement, truncation on, Windows rules off): the result is a
/// function of the name alone, and the crate deletes every character of its
/// illegal class, which includes '/' and '\\', so no path separator survives.
#[verifier::external_body]
fn sanitize_name(name: &str) -> (r: String)
    ensures
        r@ == sanitized_of(name@),
        forall|i: int| 0 <= i < r@.len() ==> r@[i] != '/' && r@[i] != '\\',
{
    sanitize_filename::sanitize_with_options(
        name,
        sanitize_filename::Options { windows: false, truncate: true, replacement: "" },
    )
}

/// Builds the filesystem path a media attachment is written to: the fixed
/// upload-root prefix followed by the sanitized client filename. Whatever the
/// client supplied, the result stays confined under the upload root.
pub fn storage_file_path(name: &str) -> (r: String)
    ensures
        r@ == storage_file_path_spec(name@),
        confined_under(r@, storage_prefix()),
{
    let mut r = String::from_str("./uploads/article_");
    let s = sanitize_name(name);
    r.append(s.as_str());
    proof {
        assert(r@.subrange(0, storage_prefix().len() as int) =~= storage_prefix());
    }
    r
}

/// Builds the public retrieval path stored for a media attachment. The result
/// stays confined under the public upload prefix for every client filename.
pub fn public_media_path(name: &str) -> (r: String)
    ensures
        r@ == public_media_path_spec(name@),
        confined_under(r@, public_prefix()),
{
    let mut r = String::from_str("/uploads/article_");
    let s = sanitize_name(name);
    r.append(s.as_str());
    proof {
        assert(r@.subrange(0, public_prefix().len() as int) =~= public_prefix());
    }
    r
}

} // verus!
