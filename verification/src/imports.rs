use vstd::prelude::*;
use vstd::string::*;
use crate::ast::ImportDecl;
use crate::solve::names;

verus! {

// Which file an import names on disk, and which imports lead to a file still to be
// read: standard-library modules live in memory, and a file is read once.

/// The segments of an import path joined with `.`, e.g. `std.io`.
pub open spec fn join_dots(parts: Seq<Seq<char>>, n: int) -> Seq<char>
    decreases n,
{
    if n <= 0 || n > parts.len() {
        Seq::empty()
    } else if n == 1 {
        parts[0]
    } else {
        join_dots(parts, n - 1) + "."@ + parts[n - 1]
    }
}

/// The last position of `.` in `f`, if it is not the first character.
pub open spec fn ext_dot(f: Seq<char>, k: int) -> Option<int>
    decreases k,
{
    if k <= 0 || k > f.len() {
        None
    } else if k - 1 > 0 && f[k - 1] == '.' {
        Some(k - 1)
    } else {
        ext_dot(f, k - 1)
    }
}

/// A file name with its extension set to `kn`: the part from its last `.` (not the
/// first character) replaced, or `.kn` appended when it has none; `..` is left as is.
pub open spec fn with_kn(f: Seq<char>) -> Seq<char> {
    if f == ".."@ {
        f
    } else {
        match ext_dot(f, f.len() as int) {
            Some(k) => f.take(k) + ".kn"@,
            None => f + ".kn"@,
        }
    }
}

/// The file an import names: the base directory's components followed by the import
/// path, the last component with extension `kn`; no components at all stay none.
pub open spec fn import_file_spec(base: Seq<Seq<char>>, path: Seq<Seq<char>>) -> Seq<Seq<char>> {
    let all = base + path;
    if all.len() == 0 {
        all
    } else {
        all.drop_last().push(with_kn(all.last()))
    }
}

/// The module key of an import, e.g. `a.b` for `import a.b`.
pub fn import_module_key(import: &ImportDecl) -> (r: String)
    ensures
        r@ == join_dots(names(import.path@), import.path@.len() as int),
{
    let mut s = String::new();
    let mut i: usize = 0;
    while i < import.path.len()
        invariant
            i <= import.path@.len(),
            s@ == join_dots(names(import.path@), i as int),
        decreases import.path@.len() - i,
    {
        if i > 0 {
            s.append(".");
        }
        s.append(import.path[i].as_str());
        proof {
            assert(names(import.path@)[i as int] == import.path@[i as int]@);
            if i == 0 {
                assert(s@ =~= join_dots(names(import.path@), 1));
            }
        }
        i += 1;
    }
    s
}

/// A file name with its extension set to `kn`; see [`with_kn`].
fn file_with_kn(f: &String) -> (r: String)
    ensures
        r@ == with_kn(f@),
{
    let s = f.as_str();
    let n = s.unicode_len();
    if n == 2 && s.get_char(0) == '.' && s.get_char(1) == '.' {
        proof {
            reveal_strlit("..");
            assert(f@ =~= ".."@);
        }
        return f.clone();
    }
    proof {
        reveal_strlit("..");
        if f@ == ".."@ {
            assert(f@.len() == 2);
            assert(f@[0] == '.' && f@[1] == '.');
            assert(false);
        }
    }
    let mut k = n;
    while k > 0
        invariant
            k <= n,
            n == f@.len(),
            s@ == f@,
            f@ != ".."@,
            ext_dot(f@, n as int) == ext_dot(f@, k as int),
        decreases k,
    {
        if k - 1 > 0 && s.get_char(k - 1) == '.' {
            let mut r = String::new();
            r.append(s.substring_char(0, k - 1));
            r.append(".kn");
            proof {
                assert(s@.subrange(0, k - 1) =~= f@.take(k - 1));
                assert(r@ =~= f@.take(k - 1) + ".kn"@);
            }
            return r;
        }
        k -= 1;
    }
    let mut r = String::new();
    r.append(s);
    r.append(".kn");
    r
}

/// The file an import names, as path components; see [`import_file_spec`].
pub fn import_file_path(base_dir: &Vec<String>, import: &ImportDecl) -> (r: Vec<String>)
    ensures
        names(r@) == import_file_spec(names(base_dir@), names(import.path@)),
{
    let mut out: Vec<String> = Vec::new();
    let mut i: usize = 0;
    while i < base_dir.len()
        invariant
            i <= base_dir@.len(),
            names(out@) == names(base_dir@).take(i as int),
        decreases base_dir@.len() - i,
    {
        let ghost before = out@;
        out.push(base_dir[i].clone());
        proof {
            assert(names(out@) =~= names(before).push(base_dir@[i as int]@));
            assert(names(base_dir@).take(i as int + 1) =~= names(base_dir@).take(i as int).push(base_dir@[i as int]@));
        }
        i += 1;
    }
    let mut j: usize = 0;
    while j < import.path.len()
        invariant
            j <= import.path@.len(),
            names(out@) == names(base_dir@) + names(import.path@).take(j as int),
        decreases import.path@.len() - j,
    {
        let ghost before = out@;
        out.push(import.path[j].clone());
        proof {
            assert(names(out@) =~= names(before).push(import.path@[j as int]@));
            assert(names(import.path@).take(j as int + 1) =~= names(import.path@).take(j as int).push(import.path@[j as int]@));
            assert(names(out@) =~= names(base_dir@) + names(import.path@).take(j as int + 1));
        }
        j += 1;
    }
    proof {
        assert(names(import.path@).take(import.path@.len() as int) =~= names(import.path@));
    }
    match out.pop() {
        Some(last) => {
            let ghost before = out@;
            out.push(file_with_kn(&last));
            proof {
                assert(names(out@) =~= names(before).push(with_kn(last@)));
            }
        },
        None => {},
    }
    out
}

/// Whether `key` is among `keys`.
fn listed(keys: &Vec<String>, key: &String) -> (r: bool)
    ensures
        r == names(keys@).contains(key@),
{
    let mut i: usize = 0;
    while i < keys.len()
        invariant
            i <= keys@.len(),
            forall|j: int| 0 <= j < i ==> keys@[j]@ != key@,
        decreases keys@.len() - i,
    {
        if keys[i] == *key {
            proof {
                assert(names(keys@)[i as int] == key@);
            }
            return true;
        }
        i += 1;
    }
    proof {
        assert forall|j: int| 0 <= j < names(keys@).len() implies names(keys@)[j] != key@ by {
            assert(names(keys@)[j] == keys@[j]@);
        }
    }
    false
}

/// Whether two paths have the same components.
fn same_path(q: &Vec<String>, p: &Vec<String>) -> (r: bool)
    ensures
        r == (names(q@) == names(p@)),
{
    if q.len() != p.len() {
        proof {
            assert(names(q@).len() != names(p@).len());
        }
        return false;
    }
    let mut j: usize = 0;
    while j < q.len()
        invariant
            j <= q@.len(),
            q@.len() == p@.len(),
            forall|t: int| 0 <= t < j ==> q@[t]@ == p@[t]@,
        decreases q@.len() - j,
    {
        if q[j] != p[j] {
            proof {
                assert(names(q@)[j as int] != names(p@)[j as int]);
            }
            return false;
        }
        j += 1;
    }
    proof {
        assert(names(q@) =~= names(p@));
    }
    true
}

/// Whether the path `p` is among `seen`.
fn path_seen(seen: &Vec<Vec<String>>, p: &Vec<String>) -> (r: bool)
    ensures
        r == exists|i: int| 0 <= i < seen@.len() && names(#[trigger] seen@[i]@) == names(p@),
{
    let mut i: usize = 0;
    while i < seen.len()
        invariant
            i <= seen@.len(),
            forall|t: int| 0 <= t < i ==> names(#[trigger] seen@[t]@) != names(p@),
        decreases seen@.len() - i,
    {
        if same_path(&seen[i], p) {
            return true;
        }
        i += 1;
    }
    false
}

/// The file an import still leads to: none for a standard-library module (whose key is
/// among `stdlib_keys`) or a file already in `seen`, else the file it names.
pub fn next_import_file(
    import: &ImportDecl,
    base_dir: &Vec<String>,
    stdlib_keys: &Vec<String>,
    seen: &Vec<Vec<String>>,
) -> (r: Option<Vec<String>>)
    ensures
        names(stdlib_keys@).contains(join_dots(names(import.path@), import.path@.len() as int)) ==> r is None,
        !names(stdlib_keys@).contains(join_dots(names(import.path@), import.path@.len() as int)) ==> {
            let f = import_file_spec(names(base_dir@), names(import.path@));
            &&& (exists|i: int| 0 <= i < seen@.len() && names(#[trigger] seen@[i]@) == f) ==> r is None
            &&& !(exists|i: int| 0 <= i < seen@.len() && names(#[trigger] seen@[i]@) == f) ==> (r matches Some(p)
                && names(p@) == f)
        },
{
    let key = import_module_key(import);
    if listed(stdlib_keys, &key) {
        return None;
    }
    let p = import_file_path(base_dir, import);
    if path_seen(seen, &p) {
        None
    } else {
        Some(p)
    }
}

} // verus!
