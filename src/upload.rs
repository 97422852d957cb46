//! The archive that carries one file into a container.

use vstd::prelude::*;

verus! {

/// The directory inside the container that uploaded archives are unpacked
/// into.
pub const UPLOAD_ROOT: &'static str = "/";

/// The permissions that an uploaded file is given (`rw-r--r--`).
pub const UPLOAD_MODE: u32 = 0o644;

/// A path with its leading `/` characters taken off.
pub open spec fn strip_slashes(p: Seq<char>) -> Seq<char>
    decreases p.len(),
{
    if p.len() > 0 && p[0] == '/' {
        strip_slashes(p.drop_first())
    } else {
        p
    }
}

/// The GNU tar archive that holds one regular file, `contents` at `path`
/// with permissions `mode`, as its bytes; `None` where the path cannot be
/// written into a header.
pub uninterp spec fn gnu_tar_file(path: Seq<char>, contents: Seq<u8>, mode: u32) -> Option<Seq<u8>>;

/// The bytes that an optional buffer holds.
pub open spec fn bytes_of(r: Option<Vec<u8>>) -> Option<Seq<u8>> {
    match r {
        Some(a) => Some(a@),
        None => None,
    }
}

/// A path that fits the name field of a GNU tar header on every platform:
/// 1 to 100 printable or control ASCII characters other than NUL, no
/// backslash or colon, relative, and without a `..` component.
pub open spec fn tar_path_ok(q: Seq<char>) -> bool {
    &&& 1 <= q.len() <= 100
    &&& q[0] != '/'
    &&& forall|i: int|
        0 <= i < q.len() ==> 0 < (#[trigger] q[i]) as u32 <= 126 && q[i] != '\\' && q[i] != ':'
    &&& forall|i: int|
        0 <= i && i + 1 < q.len() && #[trigger] q[i] == '.' && q[i + 1] == '.' && (i == 0 || q[i
            - 1] == '/') ==> i + 2 < q.len() && q[i + 2] != '/'
}

/// Relies on `str::trim_start_matches` with the pattern `"/"`: every leading
/// `/` is removed, and nothing else.
#[verifier::external_body]
fn trim_leading_slashes(path: &str) -> (r: &str)
    ensures
        r@ == strip_slashes(path@),
{
    path.trim_start_matches("/")
}

/// Relies on the `tar` crate: `Header::new_gnu`, `Header::set_path`,
/// `Header::set_size`, `Header::set_mode`, `Builder::append_data` and
/// `Builder::into_inner` build one archive in memory; `None` where one of
/// them reports an error. Only `set_path` can fail, and it accepts every
/// relative path of at most 100 bytes without NUL and without `..`.
#[verifier::external_body]
fn tar_single_file(path: &str, contents: &[u8], mode: u32) -> (r: Option<Vec<u8>>)
    ensures
        bytes_of(r) == gnu_tar_file(path@, contents@, mode),
        tar_path_ok(path@) ==> r is Some,
{
    let mut builder = tar::Builder::new(Vec::new());
    let mut header = tar::Header::new_gnu();
    header.set_path(path).ok()?;
    header.set_size(contents.len() as u64);
    header.set_mode(mode);
    builder.append_data(&mut header, path, std::io::Cursor::new(contents)).ok()?;
    builder.into_inner().ok()
}

/// The archive that uploads `contents` to `path` inside a container: one
/// regular file at `path` without its leading slashes, readable by all and
/// writable by its owner, whose size and body are those of `contents`.
/// `None` where the archive cannot be encoded, which never happens to a
/// well-formed path.
pub fn upload_archive(path: &str, contents: &[u8]) -> (r: Option<Vec<u8>>)
    ensures
        bytes_of(r) == gnu_tar_file(strip_slashes(path@), contents@, UPLOAD_MODE),
        tar_path_ok(strip_slashes(path@)) ==> r is Some,
{
    let relative = trim_leading_slashes(path);
    tar_single_file(relative, contents, UPLOAD_MODE)
}

/// The path that an upload writes to is `path` less its leading slashes:
/// relative to the upload root, and otherwise unchanged.
pub proof fn lemma_upload_path_is_relative(path: Seq<char>)
    ensures
        strip_slashes(path).len() == 0 || strip_slashes(path)[0] != '/',
        path.len() >= strip_slashes(path).len(),
        strip_slashes(path) == path.subrange(
            path.len() - strip_slashes(path).len(),
            path.len() as int,
        ),
        forall|i: int| 0 <= i < path.len() - strip_slashes(path).len() ==> path[i] == '/',
    decreases path.len(),
{
    if path.len() > 0 && path[0] == '/' {
        let rest = path.drop_first();
        lemma_upload_path_is_relative(rest);
        assert(strip_slashes(path) == strip_slashes(rest));
        assert(rest.subrange(rest.len() - strip_slashes(rest).len(), rest.len() as int)
            == path.subrange(path.len() - strip_slashes(path).len(), path.len() as int));
        assert forall|i: int| 0 <= i < path.len() - strip_slashes(path).len() implies path[i]
            == '/' by {
            if i > 0 {
                assert(path[i] == rest[i - 1]);
            }
        }
    } else {
        assert(path.subrange(0, path.len() as int) == path);
    }
}

/// Leading slashes do not change an upload: a path and the same path with
/// any number of slashes put in front give the same archive, or both none.
pub proof fn lemma_leading_slashes_ignored(path: Seq<char>, k: nat, contents: Seq<u8>)
    ensures
        strip_slashes(Seq::new(k, |i: int| '/') + path) == strip_slashes(path),
        gnu_tar_file(strip_slashes(Seq::new(k, |i: int| '/') + path), contents, UPLOAD_MODE)
            == gnu_tar_file(strip_slashes(path), contents, UPLOAD_MODE),
    decreases k,
{
    if k > 0 {
        let s = Seq::new(k, |i: int| '/') + path;
        let t = Seq::new((k - 1) as nat, |i: int| '/') + path;
        lemma_leading_slashes_ignored(path, (k - 1) as nat, contents);
        assert(s.drop_first() =~= t);
        assert(s[0] == '/');
    } else {
        assert(Seq::new(0, |i: int| '/') + path =~= path);
    }
}

} // verus!
