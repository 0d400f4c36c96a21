//! Path and configuration helpers around the pipeline.
//!
//! Paths are handled as plain strings.  A path's extension is the part of
//! its last component after the final dot, where a dot that begins the
//! component does not count (a leading-dot file has no extension); replacing
//! the extension cuts there and appends the new one.  The manifest that
//! belongs to a script sits beside it, with the extension `lua.manifest`.

use vstd::prelude::*;
use vstd::string::StrSliceExecFns;
use vstd::string::StringExecFns;

verus! {

/// Errors of the utility layer.
#[derive(Clone, Debug)]
pub enum UtilError {
    /// A file could not be written.
    FileWriteError { description: String },
}

/// The directory scripts are read from when none is configured.
pub fn default_script_dir() -> (r: &'static str)
    ensures
        r@ == "/usr/share/eruption/scripts"@,
{
    "/usr/share/eruption/scripts"
}

/// `dir` and `file` joined with a single separator.
pub open spec fn spec_join_path(dir: Seq<char>, file: Seq<char>) -> Seq<char> {
    dir + "/"@ + file
}

/// Joins a directory and a file name with a separator.
pub fn join_path(dir: &str, file: &str) -> (r: String)
    ensures
        r@ == spec_join_path(dir@, file@),
{
    let mut r = dir.to_owned();
    r.append("/");
    r.append(file);
    r
}

/// The greatest index at which `c` occurs in `s`, or `-1` if it does not.
pub open spec fn spec_last_index_of(s: Seq<char>, c: char) -> int
    decreases s.len(),
{
    if s.len() == 0 {
        -1
    } else if s.last() == c {
        s.len() - 1
    } else {
        spec_last_index_of(s.drop_last(), c)
    }
}

/// Where the extension begins: the index of the final dot of the last
/// component, provided that dot does not begin the component; the length of
/// the path when there is no extension to replace.
pub open spec fn spec_ext_cut(s: Seq<char>) -> int {
    let slash = spec_last_index_of(s, '/');
    let dot = spec_last_index_of(s, '.');
    if dot > slash + 1 {
        dot
    } else {
        s.len() as int
    }
}

/// `s` with its extension replaced by `ext`.
pub open spec fn spec_with_extension(s: Seq<char>, ext: Seq<char>) -> Seq<char> {
    s.subrange(0, spec_ext_cut(s)) + "."@ + ext
}

/// The manifest path that belongs to the script at `s`.
pub open spec fn spec_manifest_for(s: Seq<char>) -> Seq<char> {
    spec_with_extension(s, "lua.manifest"@)
}

/// `spec_last_index_of` grows by one exactly when the appended character is
/// the one sought.
proof fn lemma_last_index_of_push(s: Seq<char>, x: char, c: char)
    ensures
        spec_last_index_of(s.push(x), c) == if x == c {
            s.len() as int
        } else {
            spec_last_index_of(s, c)
        },
{
    assert(s.push(x).drop_last() =~= s);
    assert(s.push(x).last() == x);
}

/// Replaces the extension of `path` with `ext`.
pub fn with_extension(path: &str, ext: &str) -> (r: String)
    ensures
        r@ == spec_with_extension(path@, ext@),
{
    let n = path.unicode_len();
    let mut has_slash = false;
    let mut last_slash: usize = 0;
    let mut has_dot = false;
    let mut last_dot: usize = 0;
    let mut i: usize = 0;
    proof {
        assert(path@.subrange(0, 0) =~= Seq::<char>::empty());
    }
    while i < n
        invariant
            i <= n,
            n == path@.len(),
            has_slash ==> last_slash < i,
            has_dot ==> last_dot < i,
            spec_last_index_of(path@.subrange(0, i as int), '/') == if has_slash {
                last_slash as int
            } else {
                -1
            },
            spec_last_index_of(path@.subrange(0, i as int), '.') == if has_dot {
                last_dot as int
            } else {
                -1
            },
        decreases n - i,
    {
        let c = path.get_char(i);
        proof {
            assert(path@.subrange(0, i + 1 as int) =~= path@.subrange(0, i as int).push(
                path@[i as int],
            ));
            lemma_last_index_of_push(path@.subrange(0, i as int), path@[i as int], '/');
            lemma_last_index_of_push(path@.subrange(0, i as int), path@[i as int], '.');
        }
        if c == '/' {
            has_slash = true;
            last_slash = i;
        } else if c == '.' {
            has_dot = true;
            last_dot = i;
        }
        i = i + 1;
    }
    proof {
        assert(path@.subrange(0, n as int) =~= path@);
    }
    let cut: usize = if has_dot && (if has_slash {
        last_dot > last_slash + 1
    } else {
        last_dot > 0
    }) {
        last_dot
    } else {
        n
    };
    let stem = path.substring_char(0, cut);
    let mut r = stem.to_owned();
    r.append(".");
    r.append(ext);
    r
}

/// The manifest path for the script at `script_file`: the script path with
/// its extension replaced by `lua.manifest`.
pub fn get_manifest_for(script_file: &str) -> (r: String)
    ensures
        r@ == spec_manifest_for(script_file@),
{
    with_extension(script_file, "lua.manifest")
}

/// The directories scripts are searched in: the configured list where one
/// was given, and the hard-coded fallback directory otherwise.
pub fn get_script_dirs(configured: &Vec<String>) -> (dirs: Vec<String>)
    ensures
        configured@.len() > 0 ==> {
            &&& dirs@.len() == configured@.len()
            &&& forall|i: int| 0 <= i < dirs@.len() ==> (#[trigger] dirs@[i]@) == configured@[i]@
        },
        configured@.len() == 0 ==> {
            &&& dirs@.len() == 1
            &&& dirs@[0]@ == "/usr/share/eruption/scripts"@
        },
{
    if configured.len() == 0 {
        let mut dirs: Vec<String> = Vec::new();
        dirs.push(default_script_dir().to_owned());
        dirs
    } else {
        let mut dirs: Vec<String> = Vec::new();
        let mut i: usize = 0;
        while i < configured.len()
            invariant
                i <= configured@.len(),
                dirs@.len() == i,
                forall|j: int| 0 <= j < i ==> (#[trigger] dirs@[j]@) == configured@[j]@,
            decreases configured@.len() - i,
        {
            dirs.push(configured[i].clone());
            i = i + 1;
        }
        dirs
    }
}

} // verus!
