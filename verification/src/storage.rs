//! Where files live below the working directory, and how a stored image is
//! named.
//!
//! A path is a sequence of segments relative to the working directory; the
//! caller joins them with whatever separator its platform uses.

use vstd::prelude::*;
use vstd::string::*;
use crate::media::ImageKind;
use crate::reply::Rejection;
use crate::text::ends_with;

verus! {

/// The files below the working directory: their contents by their path.
pub type Files = Map<Seq<Seq<char>>, Seq<u8>>;

/// The texts that a vector of strings holds.
pub open spec fn texts(v: Seq<String>) -> Seq<Seq<char>> {
    v.map_values(|s: String| s@)
}

/// The storage root: `www/static`.
pub open spec fn storage_root_path() -> Seq<Seq<char>> {
    seq!["www"@, "static"@]
}

/// The directory that holds the uploaded files: `www/static/cdn`.
pub open spec fn upload_dir_path() -> Seq<Seq<char>> {
    storage_root_path().push("cdn"@)
}

/// The optional landing page: `www/static/index.html`.
pub open spec fn landing_page_path() -> Seq<Seq<char>> {
    storage_root_path().push("index.html"@)
}

/// The file that an upload stored under `name` is written to.
pub open spec fn stored_file_path(name: Seq<char>) -> Seq<Seq<char>> {
    upload_dir_path().push(name)
}

/// The file that a raw download of the relative path `tail` reads.
pub open spec fn raw_file_path(tail: Seq<Seq<char>>) -> Seq<Seq<char>> {
    upload_dir_path() + tail
}

/// What a raw download of the relative path `tail` yields: the contents of
/// the file of that path inside the upload directory, and nothing where
/// there is no such file.
pub open spec fn raw_download(files: Files, tail: Seq<Seq<char>>) -> Result<Seq<u8>, Rejection> {
    if files.contains_key(raw_file_path(tail)) {
        Ok(files[raw_file_path(tail)])
    } else {
        Err(Rejection::NotFound)
    }
}

/// The storage root, below the working directory. It is computed anew on
/// every call; nothing is cached.
pub fn storage_root() -> (path: Vec<String>)
    ensures
        texts(path@) == storage_root_path(),
{
    let mut path: Vec<String> = Vec::new();
    path.push(String::from_str("www"));
    path.push(String::from_str("static"));
    path
}

/// The directory of the uploaded files, below the working directory.
pub fn upload_dir() -> (path: Vec<String>)
    ensures
        texts(path@) == upload_dir_path(),
{
    let mut path = storage_root();
    path.push(String::from_str("cdn"));
    path
}

/// The landing page file, below the working directory.
pub fn landing_page_file() -> (path: Vec<String>)
    ensures
        texts(path@) == landing_page_path(),
{
    let mut path = storage_root();
    path.push(String::from_str("index.html"));
    path
}

/// The file to write an upload to that is stored under `name`.
pub fn stored_file(name: &str) -> (path: Vec<String>)
    ensures
        texts(path@) == stored_file_path(name@),
{
    let mut path = upload_dir();
    path.push(String::from_str(name));
    path
}

/// The file that a raw download of `tail` reads: the same relative path
/// inside the upload directory.
pub fn raw_file(tail: &Vec<String>) -> (path: Vec<String>)
    ensures
        texts(path@) == raw_file_path(texts(tail@)),
{
    let mut path = upload_dir();
    let mut i: usize = 0;
    while i < tail.len()
        invariant
            i <= tail.len(),
            texts(path@) == upload_dir_path() + texts(tail@).subrange(0, i as int),
        decreases tail.len() - i,
    {
        let ghost before = path@;
        let segment = tail[i].clone();
        path.push(segment);
        i += 1;
        assert(texts(path@) =~= upload_dir_path() + texts(tail@).subrange(0, i as int)) by {
            assert(texts(path@) =~= texts(before).push(segment@));
            assert(texts(tail@).subrange(0, i as int) =~= texts(tail@).subrange(0, i - 1).push(
                segment@,
            ));
        }
    }
    path
}

/// A raw download of a single segment reads the file that an upload stored
/// under that name wrote.
pub proof fn lemma_raw_path_of_stored_name(name: Seq<char>)
    ensures
        raw_file_path(seq![name]) == stored_file_path(name),
{
}

/// Whether `c` is a digit of lower-case hexadecimal.
pub open spec fn is_lower_hex(c: char) -> bool {
    ('0' <= c && c <= '9') || ('a' <= c && c <= 'f')
}

/// The shape of an identifier: a version 4 UUID in its hyphenated lower-case
/// form, 36 characters.
pub open spec fn is_token(t: Seq<char>) -> bool {
    &&& t.len() == 36
    &&& forall|i: int|
        0 <= i < 36 ==> if i == 8 || i == 13 || i == 18 || i == 23 {
            #[trigger] t[i] == '-'
        } else {
            is_lower_hex(t[i])
        }
    &&& t[14] == '4'
    &&& (t[19] == '8' || t[19] == '9' || t[19] == 'a' || t[19] == 'b')
}

/// The name of the file stored for an upload of `kind` that drew `token`:
/// the token, a dot, the extension.
pub open spec fn file_name(token: Seq<char>, kind: ImageKind) -> Seq<char> {
    token + seq!['.'] + kind.ext()
}

/// Draws a fresh identifier.
///
/// Calls `uuid::Uuid::new_v4` and renders the result with `to_string`. The
/// contract claims the shape of every such rendering: 32 lower-case
/// hexadecimal digits in groups of 8, 4, 4, 4 and 12 with hyphens between
/// them, the version digit `4` and a variant digit of `8` to `b`. Nothing is
/// claimed of which identifier comes back: two calls may differ. The call
/// aborts only where the operating system cannot supply random bytes.
#[verifier::external_body]
pub(crate) fn new_token() -> (token: String)
    ensures
        is_token(token@),
{
    uuid::Uuid::new_v4().to_string()
}

/// The name under which an upload of `kind` that drew `token` is stored.
pub fn name_for(token: &str, kind: ImageKind) -> (name: String)
    ensures
        name@ == file_name(token@, kind),
{
    proof {
        reveal_strlit(".");
    }
    let mut name = String::from_str(token);
    name.append(".");
    name.append(kind.extension());
    name
}

/// A name for a new file of `kind`, made from a freshly drawn identifier.
pub fn fresh_name(kind: ImageKind) -> (name: String)
    ensures
        exists|token: Seq<char>| is_token(token) && name@ == file_name(token, kind),
{
    let token = new_token();
    name_for(token.as_str(), kind)
}

/// A stored name tells which identifier and which kind it was made from.
pub proof fn lemma_file_name_is_injective(t1: Seq<char>, k1: ImageKind, t2: Seq<char>, k2: ImageKind)
    requires
        file_name(t1, k1) == file_name(t2, k2),
    ensures
        t1 == t2,
        k1 == k2,
{
    let name = file_name(t1, k1);
    let stem = name.len() - 4;
    assert(t1 =~= name.subrange(0, stem));
    assert(t2 =~= name.subrange(0, stem));
    assert(k1.ext()[0] == name[stem + 1] && k2.ext()[0] == name[stem + 1]);
}

/// Files stored under different names are different files.
pub proof fn lemma_stored_file_path_is_injective(a: Seq<char>, b: Seq<char>)
    requires
        stored_file_path(a) == stored_file_path(b),
    ensures
        a == b,
{
    assert(stored_file_path(a).last() == a && stored_file_path(b).last() == b);
}

/// A stored name is the identifier followed by a dot and the extension of
/// the kind.
pub proof fn lemma_file_name_extension(token: Seq<char>, kind: ImageKind)
    ensures
        file_name(token, kind).len() == token.len() + 4,
        file_name(token, kind).subrange(0, token.len() as int) == token,
        ends_with(file_name(token, kind), seq!['.'] + kind.ext()),
{
    let name = file_name(token, kind);
    assert(name.subrange(name.len() - 4, name.len() as int) =~= seq!['.'] + kind.ext());
}

} // verus!
