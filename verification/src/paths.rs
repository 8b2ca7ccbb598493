use vstd::prelude::*;
use vstd::string::*;

use crate::errors::EngineError;
use crate::strutil::{
    after_first, after_last, before_last, find_first, find_last, has_char,
    lemma_after_first_at, lemma_after_last_absent, lemma_after_last_at, lemma_before_last_at,
};

verus! {

/// The name of a derivation `<dir>/<hash>-<name>.<ext>`: the final path
/// component, without the hash prefix up to and including its first `-`,
/// and without the extension after the last `.`.
///
/// `None` when one of the three structural assumptions fails: no `/` in the
/// path, no `-` after the last `/`, or no `.` after that first `-`.
pub open spec fn spec_derive_name(path: Seq<char>) -> Option<Seq<char>> {
    if !has_char(path, '/') {
        None
    } else {
        let base = after_last(path, '/');
        if !has_char(base, '-') {
            None
        } else {
            let rest = after_first(base, '-');
            if !has_char(rest, '.') {
                None
            } else {
                Some(before_last(rest, '.'))
            }
        }
    }
}

/// Derives the build name from a derivation path, or fails with
/// `MalformedPath` exactly when the path lacks one of the three separators.
pub fn derive_name(drv_path: &str) -> (r: Result<String, EngineError>)
    ensures
        match r {
            Ok(name) => spec_derive_name(drv_path@) == Some(name@),
            Err(e) => e == EngineError::MalformedPath && spec_derive_name(drv_path@) is None,
        },
{
    let n = drv_path.unicode_len();
    let slash = match find_last(drv_path, '/') {
        Some(i) => i,
        None => {
            return Err(EngineError::MalformedPath);
        },
    };
    let base = drv_path.substring_char(slash + 1, n);
    proof {
        lemma_after_last_at(drv_path@, '/', slash as int);
    }
    let bn = base.unicode_len();
    let dash = match find_first(base, '-') {
        Some(i) => i,
        None => {
            return Err(EngineError::MalformedPath);
        },
    };
    let rest = base.substring_char(dash + 1, bn);
    proof {
        lemma_after_first_at(base@, '-', dash as int);
    }
    let rn = rest.unicode_len();
    let dot = match find_last(rest, '.') {
        Some(i) => i,
        None => {
            return Err(EngineError::MalformedPath);
        },
    };
    proof {
        lemma_before_last_at(rest@, '.', dot as int);
    }
    Ok(rest.substring_char(0, dot).to_owned())
}

/// The root under which build log files are sharded.
pub open spec fn spec_log_root() -> Seq<char> {
    "/nix/var/log/nix/drvs/"@
}

/// The sharded log file path for a derivation path: under the fixed log
/// root, the first two characters of the final path component form a
/// directory, and the remainder plus the compressed-log extension forms the
/// file name. `None` when the final component is shorter than two
/// characters.
pub open spec fn spec_log_path(path: Seq<char>) -> Option<Seq<char>> {
    let base = after_last(path, '/');
    if base.len() < 2 {
        None
    } else {
        Some(spec_log_root() + base.take(2) + "/"@ + base.skip(2) + ".bz2"@)
    }
}

/// Maps a derivation path to the path of its build log file, or fails with
/// `MalformedPath` exactly when the final path component is too short to
/// shard.
pub fn get_log_path(drv_path: &str) -> (r: Result<String, EngineError>)
    ensures
        match r {
            Ok(p) => spec_log_path(drv_path@) == Some(p@),
            Err(e) => e == EngineError::MalformedPath && spec_log_path(drv_path@) is None,
        },
{
    let n = drv_path.unicode_len();
    let base = match find_last(drv_path, '/') {
        Some(i) => {
            proof {
                lemma_after_last_at(drv_path@, '/', i as int);
            }
            drv_path.substring_char(i + 1, n)
        },
        None => {
            proof {
                lemma_after_last_absent(drv_path@, '/');
            }
            drv_path
        },
    };
    let bn = base.unicode_len();
    if bn < 2 {
        return Err(EngineError::MalformedPath);
    }
    let mut joined = String::new().concat("/nix/var/log/nix/drvs/");
    joined.append(base.substring_char(0, 2));
    joined.append("/");
    joined.append(base.substring_char(2, bn));
    joined.append(".bz2");
    proof {
        assert(base@.subrange(0, 2) =~= base@.take(2));
        assert(base@.subrange(2, bn as int) =~= base@.skip(2));
        assert(Seq::<char>::empty() + spec_log_root() =~= spec_log_root());
        assert(joined@ =~= spec_log_root() + base@.take(2) + "/"@ + base@.skip(2) + ".bz2"@);
    }
    Ok(joined)
}

/// For a derivation path `<dir>/<hash>-<name>.<ext>` whose hash holds no
/// `/` or `-`, whose name holds no `/`, and whose extension holds no `/` or
/// `.`, the derived name is exactly `<name>`.
pub proof fn lemma_derive_name_of_shaped(
    dir: Seq<char>,
    hash: Seq<char>,
    name: Seq<char>,
    ext: Seq<char>,
)
    requires
        !has_char(hash, '/'),
        !has_char(hash, '-'),
        !has_char(name, '/'),
        !has_char(ext, '/'),
        !has_char(ext, '.'),
    ensures
        spec_derive_name(dir + "/"@ + hash + "-"@ + name + "."@ + ext) == Some(name),
{
    reveal_strlit("/");
    reveal_strlit("-");
    reveal_strlit(".");
    let path = dir + "/"@ + hash + "-"@ + name + "."@ + ext;
    let d = dir.len() as int;
    let h = hash.len() as int;
    let m = name.len() as int;
    let x = ext.len() as int;
    assert(path.len() == d + h + m + x + 3);
    assert(path[d] == '/');
    assert(forall|j: int| 0 <= j < h ==> path[d + 1 + j] == hash[j]);
    assert(path[d + 1 + h] == '-');
    assert(forall|j: int| 0 <= j < m ==> path[d + 2 + h + j] == name[j]);
    assert(path[d + 2 + h + m] == '.');
    assert(forall|j: int| 0 <= j < x ==> path[d + 3 + h + m + j] == ext[j]);
    assert(has_char(path, '/'));
    assert(forall|j: int| d < j < path.len() ==> path[j] != '/') by {
        assert forall|j: int| d < j < path.len() implies path[j] != '/' by {
            if d + 1 <= j < d + 1 + h {
                assert(path[j] == hash[j - d - 1]);
                assert(!has_char(hash, '/'));
                if path[j] == '/' {
                    assert(hash[j - d - 1] == '/');
                }
            } else if d + 2 + h <= j < d + 2 + h + m {
                if path[j] == '/' {
                    assert(name[j - d - 2 - h] == '/');
                }
            } else if d + 3 + h + m <= j < path.len() {
                if path[j] == '/' {
                    assert(ext[j - d - 3 - h - m] == '/');
                }
            }
        }
    }
    lemma_after_last_at(path, '/', d);
    let base = after_last(path, '/');
    assert(base =~= hash + "-"@ + name + "."@ + ext);
    assert(base[h] == '-');
    assert(forall|j: int| 0 <= j < h ==> base[j] == hash[j]);
    assert(forall|j: int| 0 <= j < h ==> base[j] != '-') by {
        assert forall|j: int| 0 <= j < h implies base[j] != '-' by {
            if base[j] == '-' {
                assert(hash[j] == '-');
            }
        }
    }
    assert(has_char(base, '-'));
    lemma_after_first_at(base, '-', h);
    let rest = after_first(base, '-');
    assert(rest =~= name + "."@ + ext);
    assert(rest[m] == '.');
    assert(forall|j: int| m < j < rest.len() ==> rest[j] != '.') by {
        assert forall|j: int| m < j < rest.len() implies rest[j] != '.' by {
            if j > m {
                if rest[j] == '.' {
                    assert(ext[j - m - 1] == '.');
                }
            }
        }
    }
    assert(has_char(rest, '.'));
    lemma_before_last_at(rest, '.', m);
    assert(before_last(rest, '.') =~= name);
}

/// A derivation path whose name derives always has a log path: its final
/// component holds a `-` and, after it, a `.`, so it is at least two
/// characters long. Build timing can then fail only on the log file's own
/// metadata, never on the path mapping.
pub proof fn lemma_derivable_name_has_log_path(path: Seq<char>)
    requires
        spec_derive_name(path) is Some,
    ensures
        spec_log_path(path) is Some,
{
    let base = after_last(path, '/');
    let rest = after_first(base, '-');
    crate::strutil::lemma_after_first_shorter(base, '-');
    let i = choose|i: int| 0 <= i < rest.len() && rest[i] == '.';
    assert(rest.len() >= 1);
}

/// A path with a `/` but no `-` after its last `/` has no derivable name:
/// the engine reports `MalformedPath` for it.
pub proof fn lemma_derive_name_without_dash(path: Seq<char>)
    requires
        !has_char(after_last(path, '/'), '-'),
    ensures
        spec_derive_name(path) is None,
{
}

} // verus!
