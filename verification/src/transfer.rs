//! The transfer model: chunked copying, the remote path's parent, and the
//! distinct failure messages of an upload's stages.
//!
//! A transfer reads its source in chunks of at most `CHUNK_SIZE` bytes and
//! writes each chunk before the next read; a zero-length read ends it. The
//! chunking is proved lossless: that is the round-trip law for a download
//! followed by an upload of the same bytes.

use vstd::prelude::*;
use vstd::slice::{slice_subrange, slice_to_vec};
use crate::text::{str_chars, string_from_chars};

verus! {

/// The fixed transfer chunk size in bytes.
pub const CHUNK_SIZE: usize = 8192;

/// `data` split into consecutive chunks of at most `k` bytes, none empty.
pub open spec fn chunks_of(data: Seq<u8>, k: int) -> Seq<Seq<u8>>
    decreases data.len(),
    when k >= 1
{
    if data.len() == 0 {
        Seq::empty()
    } else if data.len() <= k {
        seq![data]
    } else {
        seq![data.subrange(0, k)] + chunks_of(data.subrange(k, data.len() as int), k)
    }
}

/// Chunked copying loses nothing: reading a source in bounded chunks and
/// writing each chunk as it comes reproduces the source bytes exactly. This
/// is the round-trip law for a download followed by an upload of the
/// downloaded file.
pub proof fn lemma_chunked_copy_roundtrip(data: Seq<u8>, k: int)
    requires
        k >= 1,
    ensures
        chunks_of(data, k).flatten() == data,
    decreases data.len(),
{
    if data.len() == 0 {
        assert(chunks_of(data, k).flatten() =~= data);
    } else if data.len() <= k {
        chunks_of(data, k).lemma_flatten_one_element();
        assert(chunks_of(data, k).flatten() =~= data);
    } else {
        let head = data.subrange(0, k);
        let tail = data.subrange(k, data.len() as int);
        lemma_chunked_copy_roundtrip(tail, k);
        let cs = chunks_of(data, k);
        assert(cs == seq![head] + chunks_of(tail, k));
        assert(cs[0] == head);
        assert(cs.drop_first() =~= chunks_of(tail, k));
        assert(cs.flatten() == head + chunks_of(tail, k).flatten());
        assert(head + tail =~= data);
    }
}

/// `data` split into transfer chunks of at most `k` bytes each, in order.
pub fn split_chunks(data: &[u8], k: usize) -> (r: Vec<Vec<u8>>)
    requires
        k >= 1,
    ensures
        r@.map_values(|c: Vec<u8>| c@) == chunks_of(data@, k as int),
{
    let n = data.len();
    let mut r: Vec<Vec<u8>> = Vec::new();
    let mut i: usize = 0;
    proof {
        assert(data@.subrange(0, n as int) =~= data@);
        assert(r@.map_values(|c: Vec<u8>| c@) =~= Seq::<Seq<u8>>::empty());
        assert(Seq::<Seq<u8>>::empty() + chunks_of(data@, k as int) =~= chunks_of(
            data@,
            k as int,
        ));
    }
    while i < n
        invariant
            i <= n,
            n == data@.len(),
            k >= 1,
            chunks_of(data@, k as int) =~= r@.map_values(|c: Vec<u8>| c@) + chunks_of(
                data@.subrange(i as int, n as int),
                k as int,
            ),
        decreases n - i,
    {
        let ghost prev = r@;
        let ghost rest = data@.subrange(i as int, n as int);
        let j = if n - i <= k {
            n
        } else {
            i + k
        };
        let chunk = slice_to_vec(slice_subrange(data, i, j));
        r.push(chunk);
        proof {
            prev.lemma_push_map_commute(|c: Vec<u8>| c@, r@[prev.len() as int]);
            assert(r@.map_values(|c: Vec<u8>| c@) =~= prev.map_values(|c: Vec<u8>| c@) + seq![
                data@.subrange(i as int, j as int),
            ]);
            if rest.len() <= k as int {
                assert(data@.subrange(i as int, j as int) =~= rest);
                assert(chunks_of(rest, k as int) == seq![rest]);
                assert(chunks_of(data@.subrange(j as int, n as int), k as int) =~= Seq::<
                    Seq<u8>,
                >::empty());
            } else {
                assert(data@.subrange(i as int, j as int) =~= rest.subrange(0, k as int));
                assert(data@.subrange(j as int, n as int) =~= rest.subrange(
                    k as int,
                    rest.len() as int,
                ));
                assert(chunks_of(rest, k as int) == seq![rest.subrange(0, k as int)] + chunks_of(
                    rest.subrange(k as int, rest.len() as int),
                    k as int,
                ));
            }
            assert(chunks_of(data@, k as int) =~= r@.map_values(|c: Vec<u8>| c@) + chunks_of(
                data@.subrange(j as int, n as int),
                k as int,
            ));
        }
        i = j;
    }
    proof {
        assert(data@.subrange(i as int, n as int).len() == 0);
        assert(chunks_of(data@.subrange(i as int, n as int), k as int) =~= Seq::<
            Seq<u8>,
        >::empty());
        assert(chunks_of(data@, k as int) =~= r@.map_values(|c: Vec<u8>| c@));
    }
    r
}

/// The chunks written back in order, as an upload writes them: exactly their
/// concatenation.
pub fn join_chunks(chunks: &Vec<Vec<u8>>) -> (r: Vec<u8>)
    ensures
        r@ == chunks@.map_values(|c: Vec<u8>| c@).flatten(),
{
    let ghost cv = chunks@.map_values(|c: Vec<u8>| c@);
    let mut r: Vec<u8> = Vec::new();
    let mut i: usize = 0;
    proof {
        assert(cv.subrange(0, cv.len() as int) =~= cv);
        assert(r@ + cv.flatten() =~= cv.flatten());
    }
    while i < chunks.len()
        invariant
            i <= chunks@.len(),
            cv == chunks@.map_values(|c: Vec<u8>| c@),
            cv.len() == chunks@.len(),
            cv.flatten() =~= r@ + cv.subrange(i as int, cv.len() as int).flatten(),
        decreases chunks@.len() - i,
    {
        let ghost rest = cv.subrange(i as int, cv.len() as int);
        let ghost r0 = r@;
        let m = chunks[i].len();
        let mut j: usize = 0;
        while j < m
            invariant
                j <= m,
                i < chunks@.len(),
                m == chunks@[i as int]@.len(),
                r@ == r0 + chunks@[i as int]@.subrange(0, j as int),
            decreases m - j,
        {
            r.push(chunks[i][j]);
            proof {
                assert(r@ =~= r0 + chunks@[i as int]@.subrange(0, j as int + 1));
            }
            j = j + 1;
        }
        proof {
            assert(chunks@[i as int]@.subrange(0, m as int) =~= chunks@[i as int]@);
            assert(rest[0] == cv[i as int]);
            assert(cv[i as int] == chunks@[i as int]@);
            assert(rest.flatten() == rest[0] + rest.drop_first().flatten());
            assert(rest.drop_first() =~= cv.subrange(i as int + 1, cv.len() as int));
            assert(cv.flatten() =~= r@ + cv.subrange(i as int + 1, cv.len() as int).flatten());
        }
        i = i + 1;
    }
    proof {
        assert(cv.subrange(cv.len() as int, cv.len() as int).len() == 0);
        assert(cv.subrange(cv.len() as int, cv.len() as int).flatten() =~= Seq::<u8>::empty());
        assert(r@ =~= cv.flatten());
    }
    r
}

/// The index of the last `/` in `s`, if any.
pub open spec fn last_slash_at(s: Seq<char>) -> Option<int>
    decreases s.len(),
{
    if s.len() == 0 {
        None
    } else if s[s.len() - 1] == '/' {
        Some(s.len() - 1)
    } else {
        last_slash_at(s.subrange(0, s.len() - 1))
    }
}

/// The parent directory of a path: everything before the last `/`; the root
/// when the last `/` is the first character; nothing when the path has no
/// `/` at all.
pub open spec fn parent_path(s: Seq<char>) -> Option<Seq<char>> {
    match last_slash_at(s) {
        None => None,
        Some(i) => if i == 0 {
            Some("/"@)
        } else {
            Some(s.subrange(0, i))
        },
    }
}

proof fn lemma_last_slash_none_after(s: Seq<char>, j: int)
    requires
        0 <= j <= s.len(),
        forall|k: int| j <= k < s.len() ==> s[k] != '/',
    ensures
        last_slash_at(s) == last_slash_at(s.subrange(0, j)),
    decreases s.len() - j,
{
    if j == s.len() {
        assert(s.subrange(0, j) =~= s);
    } else {
        lemma_last_slash_none_after(s.subrange(0, s.len() - 1), j);
        assert(s.subrange(0, s.len() - 1).subrange(0, j) =~= s.subrange(0, j));
    }
}

/// The parent directory of a remote path, before which missing ancestors are
/// created on upload.
pub fn remote_parent(path: &str) -> (r: Option<String>)
    ensures
        match r {
            Some(p) => parent_path(path@) == Some(p@),
            None => parent_path(path@) is None,
        },
{
    let cs = str_chars(path);
    let n = cs.len();
    let mut j = n;
    while j > 0 && cs[j - 1] != '/'
        invariant
            j <= n,
            n == cs@.len(),
            cs@ == path@,
            forall|k: int| j <= k < n ==> cs@[k] != '/',
        decreases j,
    {
        j = j - 1;
    }
    proof {
        lemma_last_slash_none_after(path@, j as int);
    }
    if j == 0 {
        proof {
            assert(path@.subrange(0, 0).len() == 0);
        }
        None
    } else {
        proof {
            let t = path@.subrange(0, j as int);
            assert(t[t.len() - 1] == '/');
            assert(last_slash_at(path@) == Some(j as int - 1));
        }
        if j == 1 {
            Some(String::from_str("/"))
        } else {
            let mut out: Vec<char> = Vec::new();
            let mut k: usize = 0;
            while k < j - 1
                invariant
                    k <= j - 1,
                    1 < j <= cs@.len(),
                    cs@ == path@,
                    out@ == path@.subrange(0, k as int),
                decreases j - k,
            {
                out.push(cs[k]);
                proof {
                    assert(out@ =~= path@.subrange(0, k as int + 1));
                }
                k = k + 1;
            }
            Some(string_from_chars(&out))
        }
    }
}

/// The stage of an upload at which a failure can arise; each stage fails
/// under its own message, so the caller can tell the local side from the
/// remote one.
pub enum UploadStage {
    /// Opening the local source file.
    OpenLocal,
    /// Creating the missing parent directories.
    CreateDirs,
    /// Creating the remote destination file.
    CreateRemote,
    /// Reading a chunk from the local file.
    ReadLocal,
    /// Writing a chunk to the remote file.
    WriteRemote,
}

/// The distinct message each upload stage fails under. The path is named
/// where one identifies the failing file; the underlying cause is appended.
pub open spec fn upload_error_text(stage: UploadStage, path: Seq<char>, cause: Seq<char>) -> Seq<
    char,
> {
    match stage {
        UploadStage::OpenLocal => "Failed to open local file "@ + path + ": "@ + cause,
        UploadStage::CreateDirs => "Failed to create directories for "@ + path + ": "@ + cause,
        UploadStage::CreateRemote => "Failed to create remote file "@ + path + ": "@ + cause,
        UploadStage::ReadLocal => "Error reading local file: "@ + cause,
        UploadStage::WriteRemote => "Error writing to remote file: "@ + cause,
    }
}

/// The failure message for one upload stage.
pub fn upload_error(stage: UploadStage, path: &str, cause: &str) -> (r: String)
    ensures
        r@ == upload_error_text(stage, path@, cause@),
{
    let mut out: Vec<char> = Vec::new();
    match stage {
        UploadStage::OpenLocal => {
            let mut v = str_chars("Failed to open local file ");
            out.append(&mut v);
            let mut p = str_chars(path);
            out.append(&mut p);
            let mut c = str_chars(": ");
            out.append(&mut c);
            let mut e = str_chars(cause);
            out.append(&mut e);
        },
        UploadStage::CreateDirs => {
            let mut v = str_chars("Failed to create directories for ");
            out.append(&mut v);
            let mut p = str_chars(path);
            out.append(&mut p);
            let mut c = str_chars(": ");
            out.append(&mut c);
            let mut e = str_chars(cause);
            out.append(&mut e);
        },
        UploadStage::CreateRemote => {
            let mut v = str_chars("Failed to create remote file ");
            out.append(&mut v);
            let mut p = str_chars(path);
            out.append(&mut p);
            let mut c = str_chars(": ");
            out.append(&mut c);
            let mut e = str_chars(cause);
            out.append(&mut e);
        },
        UploadStage::ReadLocal => {
            let mut v = str_chars("Error reading local file: ");
            out.append(&mut v);
            let mut e = str_chars(cause);
            out.append(&mut e);
        },
        UploadStage::WriteRemote => {
            let mut v = str_chars("Error writing to remote file: ");
            out.append(&mut v);
            let mut e = str_chars(cause);
            out.append(&mut e);
        },
    }
    proof {
        assert(out@ =~= upload_error_text(stage, path@, cause@));
    }
    string_from_chars(&out)
}

} // verus!
