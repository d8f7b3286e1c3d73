//! Verified path helpers.  Paths are treated as '/'-separated character
//! strings: the file name is everything after the last '/', the extension
//! is everything after the last '.' of the file name (when that '.' is not
//! its first character), and joining inserts a single '/'.

use vstd::prelude::*;

use crate::text::push_char;

verus! {

/// Index of the last occurrence of `c` in `s`, or -1 when absent.
pub open spec fn spec_last_index_of(s: Seq<char>, c: char) -> int
    decreases s.len(),
{
    if s.len() == 0 {
        -1
    } else if s.last() == c {
        s.len() - 1
    } else {
        spec_last_index_of(s.drop_last(), c)
    }
}

/// The last index is in range when present, and past it `c` is absent.
pub proof fn lemma_last_index_of(s: Seq<char>, c: char)
    ensures
        -1 <= spec_last_index_of(s, c) < s.len(),
        spec_last_index_of(s, c) >= 0 ==> s[spec_last_index_of(s, c)] == c,
        forall|i: int| spec_last_index_of(s, c) < i < s.len() ==> s[i] != c,
    decreases s.len(),
{
    if s.len() > 0 && s.last() != c {
        lemma_last_index_of(s.drop_last(), c);
        assert forall|i: int| spec_last_index_of(s, c) < i < s.len() implies s[i] != c by {
            if i < s.len() - 1 {
                assert(s.drop_last()[i] == s[i]);
            }
        }
    }
}

/// Index of the last occurrence of `c`, or None when `c` does not occur.
pub fn last_index_of(s: &str, c: char) -> (r: Option<usize>)
    ensures
        match r {
            Some(i) => i == spec_last_index_of(s@, c),
            None => spec_last_index_of(s@, c) == -1,
        },
{
    let n = s.unicode_len();
    let mut i: usize = n;
    proof {
        assert(s@.take(n as int) =~= s@);
    }
    while i > 0
        invariant
            n == s@.len(),
            i <= n,
            spec_last_index_of(s@, c) == spec_last_index_of(s@.take(i as int), c),
        decreases i,
    {
        proof {
            assert(s@.take(i as int).last() == s@[i - 1]);
            assert(s@.take(i as int).drop_last() =~= s@.take(i - 1));
        }
        if s.get_char(i - 1) == c {
            return Some(i - 1);
        }
        i = i - 1;
    }
    proof {
        assert(s@.take(0) =~= Seq::<char>::empty());
    }
    None
}

/// The file-name part of a path: everything after the last '/'.
pub open spec fn spec_file_name(path: Seq<char>) -> Seq<char> {
    path.skip(spec_last_index_of(path, '/') + 1)
}

/// The stem of a file name: everything before its last '.', unless the
/// '.' is missing or is the first character, in which case the whole name.
pub open spec fn spec_stem(name: Seq<char>) -> Seq<char> {
    let d = spec_last_index_of(name, '.');
    if d <= 0 {
        name
    } else {
        name.take(d)
    }
}

/// The extension of a file name: everything after its last '.', or None
/// when the '.' is missing or is the first character.
pub open spec fn spec_extension(name: Seq<char>) -> Option<Seq<char>> {
    let d = spec_last_index_of(name, '.');
    if d <= 0 {
        None
    } else {
        Some(name.skip(d + 1))
    }
}

/// The file-name part of a path.
pub fn file_name_of(path: &str) -> (r: &str)
    ensures
        r@ == spec_file_name(path@),
{
    let n = path.unicode_len();
    proof {
        lemma_last_index_of(path@, '/');
    }
    match last_index_of(path, '/') {
        Some(ls) => path.substring_char(ls + 1, n),
        None => {
            proof {
                assert(path@.skip(0) =~= path@);
            }
            path
        },
    }
}

/// The stem of a file name.
pub fn stem_of(name: &str) -> (r: &str)
    ensures
        r@ == spec_stem(name@),
{
    proof {
        lemma_last_index_of(name@, '.');
    }
    match last_index_of(name, '.') {
        Some(d) => {
            if d == 0 {
                name
            } else {
                name.substring_char(0, d)
            }
        },
        None => name,
    }
}

/// The extension of a file name, when it has one.
pub fn extension_of(name: &str) -> (r: Option<&str>)
    ensures
        match r {
            Some(e) => spec_extension(name@) == Some(e@),
            None => spec_extension(name@) is None,
        },
{
    let n = name.unicode_len();
    proof {
        lemma_last_index_of(name@, '.');
    }
    match last_index_of(name, '.') {
        Some(d) => {
            if d == 0 {
                None
            } else {
                Some(name.substring_char(d + 1, n))
            }
        },
        None => None,
    }
}

/// Joining a directory and a file name with a single '/'; an empty
/// directory contributes no separator.
pub open spec fn spec_join(dir: Seq<char>, name: Seq<char>) -> Seq<char> {
    if dir.len() == 0 {
        name
    } else if dir.last() == '/' {
        dir + name
    } else {
        dir + seq!['/'] + name
    }
}

/// Join a directory and a file name.
pub fn join_path(dir: &str, name: &str) -> (r: String)
    ensures
        r@ == spec_join(dir@, name@),
{
    let n = dir.unicode_len();
    if n == 0 {
        return name.to_owned();
    }
    let mut out = dir.to_owned();
    if dir.get_char(n - 1) != '/' {
        push_char(&mut out, '/');
        proof {
            assert(dir@.push('/') =~= dir@ + seq!['/']);
        }
    }
    out.append(name);
    out
}

/// The deterministic output path for one input: the input's stem plus
/// "_compressed" plus the original extension, placed in the given output
/// directory, or else beside the input.  A missing stem falls back to
/// "image", a missing extension to "png".
pub open spec fn spec_build_output_path(input: Seq<char>, output_dir: Option<Seq<char>>) -> Seq<
    char,
> {
    let name = spec_file_name(input);
    let stem = if name.len() == 0 {
        "image"@
    } else {
        spec_stem(name)
    };
    let ext = match spec_extension(name) {
        Some(e) => e,
        None => "png"@,
    };
    let out_name = stem + "_compressed."@ + ext;
    match output_dir {
        Some(dir) => spec_join(dir, out_name),
        None => {
            let ls = spec_last_index_of(input, '/');
            if ls == -1 {
                if input.len() == 0 {
                    spec_join("."@, out_name)
                } else {
                    out_name
                }
            } else if ls == 0 {
                spec_join("/"@, out_name)
            } else {
                spec_join(input.take(ls), out_name)
            }
        },
    }
}

/// Build the deterministic output path for one input.
pub fn build_output_path(input: &str, output_dir: Option<&str>) -> (r: String)
    ensures
        r@ == spec_build_output_path(input@, match output_dir {
            Some(d) => Some(d@),
            None => None,
        }),
{
    let name = file_name_of(input);
    proof {
        lemma_last_index_of(input@, '/');
        assert(name@.len() <= input@.len());
    }
    let stem = if name.unicode_len() == 0 {
        "image"
    } else {
        stem_of(name)
    };
    let ext = match extension_of(name) {
        Some(e) => e,
        None => "png",
    };
    let out_name = stem.to_owned().concat("_compressed.").concat(ext);
    match output_dir {
        Some(dir) => join_path(dir, out_name.as_str()),
        None => {
            proof {
                lemma_last_index_of(input@, '/');
            }
            match last_index_of(input, '/') {
                None => {
                    if input.unicode_len() == 0 {
                        join_path(".", out_name.as_str())
                    } else {
                        out_name
                    }
                },
                Some(ls) => {
                    if ls == 0 {
                        join_path("/", out_name.as_str())
                    } else {
                        let parent = input.substring_char(0, ls);
                        join_path(parent, out_name.as_str())
                    }
                },
            }
        },
    }
}

} // verus!
