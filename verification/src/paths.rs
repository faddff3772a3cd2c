//! Paths: where frames are saved and where the daemon listens.

use vstd::prelude::*;
use vstd::string::*;

use crate::number::{after_sign, decimal, parse_undoes_show, show_u64};
use crate::text::texts;

verus! {

// ---------------------------------------------------------------------------
// What std decides
// ---------------------------------------------------------------------------

/// The name of the file that a path ends in, without its extension.
pub uninterp spec fn path_stem(path: Seq<char>) -> Option<Seq<char>>;

/// Trusted: `std::path::Path::file_stem`.  The outcome depends on the text of
/// the path alone, as the paths of Unix are read; the rules of paths are left
/// unsaid.
#[verifier::external_body]
fn file_stem(path: &str) -> (r: Option<String>)
    ensures
        r is Some <==> path_stem(path@) is Some,
        r is Some ==> r->0@ == path_stem(path@)->0,
{
    std::path::Path::new(path).file_stem().and_then(|s| s.to_str()).map(|s| s.to_owned())
}

/// The extension of the file that a path ends in.
pub uninterp spec fn path_extension(path: Seq<char>) -> Option<Seq<char>>;

/// Trusted: `std::path::Path::extension`.  The outcome depends on the text of
/// the path alone, as the paths of Unix are read; the rules of paths are left
/// unsaid.
#[verifier::external_body]
fn extension(path: &str) -> (r: Option<String>)
    ensures
        r is Some <==> path_extension(path@) is Some,
        r is Some ==> r->0@ == path_extension(path@)->0,
{
    std::path::Path::new(path).extension().and_then(|s| s.to_str()).map(|s| s.to_owned())
}

/// Whether a text ends in another.
pub open spec fn ends_in(s: Seq<char>, end: Seq<char>) -> bool {
    end.len() <= s.len() && s.skip(s.len() - end.len()) == end
}

/// A path with another file at its end.
pub uninterp spec fn path_renamed(path: Seq<char>, name: Seq<char>) -> Seq<char>;

/// Trusted: `std::path::Path::with_file_name`.  The outcome depends on the two
/// texts alone, as the paths of Unix are read, and it ends in the name; the other
/// rules of paths are left unsaid.
#[verifier::external_body]
fn with_file_name(path: &str, name: &str) -> (r: String)
    ensures
        r@ == path_renamed(path@, name@),
        ends_in(r@, name@),
{
    std::path::Path::new(path).with_file_name(name).to_string_lossy().into_owned()
}

// ---------------------------------------------------------------------------
// Where frames are saved
// ---------------------------------------------------------------------------

/// The name of the file of one frame of several: the name that was asked for
/// with the number of the stream before the extension.
pub open spec fn numbered(stem: Option<Seq<char>>, ext: Option<Seq<char>>, i: int) -> Seq<char> {
    (match stem {
        Some(s) => s,
        None => "frame"@,
    }) + "-"@ + decimal(i) + "."@ + (match ext {
        Some(e) => e,
        None => "png"@,
    })
}

/// The paths of the frames of `n` streams: the path that was asked for if there
/// is one stream, and else that path with the file numbered.
pub open spec fn frame_paths(out: Seq<char>, n: nat) -> Seq<Seq<char>> {
    if n == 1 {
        seq![out]
    } else {
        Seq::new(
            n,
            |i: int| path_renamed(out, numbered(path_stem(out), path_extension(out), i)),
        )
    }
}

proof fn digits_hold_no_hyphen(n: u64, k: int)
    requires
        0 <= k < decimal(n as int).len(),
    ensures
        decimal(n as int)[k] != '-',
{
    parse_undoes_show(n);
    let d = decimal(n as int);
    let body = after_sign(d);
    if d[k] == '-' {
        if d[0] == '+' {
            assert(body == d.skip(1));
            assert(body[k - 1] == d[k]);
        } else {
            assert(body[k] == d[k]);
        }
    }
}

/// Law: paths that end in the names of the files of different streams differ.
pub proof fn frames_are_named_apart(
    stem: Option<Seq<char>>,
    ext: Option<Seq<char>>,
    i: u64,
    j: u64,
    a: Seq<char>,
    b: Seq<char>,
)
    requires
        i != j,
        ends_in(a, numbered(stem, ext, i as int)),
        ends_in(b, numbered(stem, ext, j as int)),
    ensures
        a != b,
{
    parse_undoes_show(i);
    parse_undoes_show(j);
    reveal_strlit("-");
    let s = match stem {
        Some(s) => s,
        None => "frame"@,
    };
    let e = match ext {
        Some(e) => e,
        None => "png"@,
    };
    let di = decimal(i as int);
    let dj = decimal(j as int);
    let na = numbered(stem, ext, i as int);
    let nb = numbered(stem, ext, j as int);
    let tail = "."@.len() + e.len();
    assert(na.len() == s.len() + 1 + di.len() + tail);
    assert(nb.len() == s.len() + 1 + dj.len() + tail);
    if a == b {
        let n = a.len() as int;
        if di.len() == dj.len() {
            assert forall|k: int| 0 <= k < di.len() implies di[k] == dj[k] by {
                let p = n - tail - di.len() + k;
                assert(a.skip(n - na.len())[p - (n - na.len())] == a[p]);
                assert(b.skip(n - nb.len())[p - (n - nb.len())] == b[p]);
                assert(na[s.len() + 1 + k] == di[k]);
                assert(nb[s.len() + 1 + k] == dj[k]);
            }
            assert(di =~= dj);
        } else if di.len() < dj.len() {
            let p = n - tail - 1 - di.len();
            assert(a.skip(n - na.len())[p - (n - na.len())] == a[p]);
            assert(b.skip(n - nb.len())[p - (n - nb.len())] == b[p]);
            assert(na[s.len() as int] == '-');
            assert(nb[s.len() + dj.len() - di.len()] == dj[dj.len() - 1 - di.len()]);
            digits_hold_no_hyphen(j, dj.len() - 1 - di.len());
        } else {
            let p = n - tail - 1 - dj.len();
            assert(a.skip(n - na.len())[p - (n - na.len())] == a[p]);
            assert(b.skip(n - nb.len())[p - (n - nb.len())] == b[p]);
            assert(nb[s.len() as int] == '-');
            assert(na[s.len() + di.len() - dj.len()] == di[di.len() - 1 - dj.len()]);
            digits_hold_no_hyphen(i, di.len() - 1 - dj.len());
        }
    }
}

/// The text of a piece of a path, if there is one.
pub open spec fn text_of_piece(piece: Option<String>) -> Option<Seq<char>> {
    match piece {
        Some(s) => Some(s@),
        None => None,
    }
}

/// Makes the name of the file of one frame of several.
pub fn number_file(stem: &Option<String>, ext: &Option<String>, i: usize) -> (r: String)
    ensures
        r@ == numbered(text_of_piece(*stem), text_of_piece(*ext), i as int),
{
    let mut r: String = match stem {
        Some(s) => s.clone(),
        None => "frame".to_owned(),
    };
    r.append("-");
    r.append(show_u64(i as u64).as_str());
    r.append(".");
    match ext {
        Some(e) => r.append(e.as_str()),
        None => r.append("png"),
    }
    r
}

/// Finds the paths of the frames of `n` streams.  No two are the same.
pub fn output_paths(out: &str, n: usize) -> (r: Vec<String>)
    ensures
        texts(r@) == frame_paths(out@, n as nat),
        forall|i: int, j: int|
            0 <= i < j < n ==> #[trigger] texts(r@)[i] != #[trigger] texts(r@)[j],
{
    let mut r: Vec<String> = Vec::new();
    if n == 1 {
        r.push(out.to_owned());
        assert(texts(r@) =~= seq![out@]);
        return r;
    }
    let stem: Option<String> = file_stem(out);
    let ext: Option<String> = extension(out);
    assert(text_of_piece(stem) == path_stem(out@));
    assert(text_of_piece(ext) == path_extension(out@));
    for i in 0..n
        invariant
            n != 1,
            text_of_piece(stem) == path_stem(out@),
            text_of_piece(ext) == path_extension(out@),
            texts(r@) == frame_paths(out@, n as nat).take(i as int),
            forall|k: int|
                0 <= k < i ==> ends_in(
                    #[trigger] texts(r@)[k],
                    numbered(path_stem(out@), path_extension(out@), k),
                ),
    {
        let name: String = number_file(&stem, &ext, i);
        let path: String = with_file_name(out, name.as_str());
        let ghost before = texts(r@);
        assert(path@ == frame_paths(out@, n as nat)[i as int]);
        r.push(path);
        assert(texts(r@) =~= before.push(path@));
        assert(frame_paths(out@, n as nat).take(i + 1) =~= before.push(path@));
    }
    assert(frame_paths(out@, n as nat).take(n as int) =~= frame_paths(out@, n as nat));
    proof {
        assert forall|i: int, j: int| 0 <= i < j < n implies #[trigger] texts(r@)[i]
            != #[trigger] texts(r@)[j] by {
            frames_are_named_apart(
                path_stem(out@),
                path_extension(out@),
                i as u64,
                j as u64,
                texts(r@)[i],
                texts(r@)[j],
            );
        }
    }
    r
}

// ---------------------------------------------------------------------------
// Where the daemon listens
// ---------------------------------------------------------------------------

/// A file below a directory: a slash stands between them unless the directory
/// ends in one or is empty.
pub open spec fn below(dir: Seq<u8>, file: Seq<u8>) -> Seq<u8> {
    if dir.len() == 0 || dir.last() == 0x2f {
        dir + file
    } else {
        dir.push(0x2f) + file
    }
}

/// Where the daemon listens: below the runtime directory of the session if there
/// is one, and else below the cache of the home directory.
pub open spec fn socket(runtime_dir: Option<Seq<u8>>, home: Option<Seq<u8>>) -> Result<
    Seq<u8>,
    Seq<char>,
> {
    match (runtime_dir, home) {
        (Some(dir), _) => Ok(below(dir, "wayland-agent.sock".spec_bytes())),
        (None, Some(dir)) => Ok(below(dir, ".cache/wayland-agent.sock".spec_bytes())),
        (None, None) => Err("no HOME"@),
    }
}

fn join_path(dir: Vec<u8>, file: &str) -> (r: Vec<u8>)
    ensures
        r@ == below(dir@, file.spec_bytes()),
{
    let mut r: Vec<u8> = dir;
    if r.len() > 0 && r[r.len() - 1] != 0x2f {
        r.push(0x2f);
    }
    let mut rest: Vec<u8> = file.as_bytes_vec();
    r.append(&mut rest);
    r
}

/// The bytes of a directory, if there is one.
pub open spec fn bytes_of(dir: Option<Vec<u8>>) -> Option<Seq<u8>> {
    match dir {
        Some(d) => Some(d@),
        None => None,
    }
}

/// Finds where the daemon listens, from the values of `XDG_RUNTIME_DIR` and
/// `HOME`.
pub fn socket_path(runtime_dir: Option<Vec<u8>>, home: Option<Vec<u8>>) -> (r: Result<
    Vec<u8>,
    String,
>)
    ensures
        match r {
            Ok(path) => socket(bytes_of(runtime_dir), bytes_of(home)) == Ok::<Seq<u8>, Seq<char>>(
                path@,
            ),
            Err(e) => socket(bytes_of(runtime_dir), bytes_of(home)) == Err::<Seq<u8>, Seq<char>>(
                e@,
            ),
        },
{
    match runtime_dir {
        Some(dir) => Ok(join_path(dir, "wayland-agent.sock")),
        None => match home {
            Some(dir) => Ok(join_path(dir, ".cache/wayland-agent.sock")),
            None => Err("no HOME".to_owned()),
        },
    }
}

/// Law: the only frame is saved where it was asked for.  Of several frames, each is
/// saved beside that path, in the file with the same stem and extension and the
/// number of its stream between them; `frame` and `png` stand in for a stem and an
/// extension that are not there.
pub proof fn frames_are_saved_beside_the_path(out: Seq<char>, n: nat, i: int)
    ensures
        frame_paths(out, n).len() == n,
        n == 1 ==> frame_paths(out, n)[0] == out,
        n > 1 && 0 <= i < n ==> frame_paths(out, n)[i] == path_renamed(
            out,
            (if path_stem(out) is Some {
                path_stem(out)->0
            } else {
                "frame"@
            }) + "-"@ + decimal(i) + "."@ + (if path_extension(out) is Some {
                path_extension(out)->0
            } else {
                "png"@
            }),
        ),
{
}

/// Law: a path below a directory begins with the directory and ends in the file,
/// with one slash more between them unless the directory is empty or ends in one.
pub proof fn paths_are_joined_by_one_slash(dir: Seq<u8>, file: Seq<u8>)
    ensures
        ({
            let path = below(dir, file);
            &&& path.take(dir.len() as int) == dir
            &&& path.skip(path.len() - file.len()) == file
            &&& dir.len() == 0 ==> path == file
            &&& dir.len() > 0 && dir.last() == '/' as u8 ==> path == dir + file
            &&& dir.len() > 0 && dir.last() != '/' as u8 ==> path == dir + seq!['/' as u8] + file
        }),
{
    let path = below(dir, file);
    assert(path.take(dir.len() as int) =~= dir);
    assert(path.skip(path.len() - file.len()) =~= file);
    if dir.len() == 0 {
        assert(path =~= file);
    } else if dir.last() != 0x2f {
        assert(path =~= dir + seq!['/' as u8] + file);
    }
}

/// Law: the daemon listens in the runtime directory where there is one, whatever the
/// home directory is; only without one it listens in the cache of the home
/// directory, and only without both it does not listen.
pub proof fn the_runtime_directory_comes_first(dir: Seq<u8>, home: Option<Seq<u8>>)
    ensures
        socket(Some(dir), home) == Ok::<Seq<u8>, Seq<char>>(
            below(dir, "wayland-agent.sock".spec_bytes()),
        ),
        socket(None, Some(dir)) == Ok::<Seq<u8>, Seq<char>>(
            below(dir, ".cache/wayland-agent.sock".spec_bytes()),
        ),
        socket(None, None) == Err::<Seq<u8>, Seq<char>>("no HOME"@),
{
}

/// Law: a piece of a path, and a directory, are taken as they are, empty or not.
pub proof fn pieces_are_taken_as_they_are(piece: String, dir: Vec<u8>)
    ensures
        text_of_piece(Some(piece)) == Some(piece@),
        text_of_piece(None) is None,
        bytes_of(Some(dir)) == Some(dir@),
        bytes_of(None) is None,
{
}

} // verus!
