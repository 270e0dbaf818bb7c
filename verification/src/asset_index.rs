//! Names of the files an asset server offers: every file carries the hash
//! of its content at the end of its name (`name_<hash>.ext`), and the index
//! lists the assets under their names without it.
use vstd::prelude::*;

verus! {

/// `name` ends with `suffix`.
pub open spec fn ends_with(name: Seq<char>, suffix: Seq<char>) -> bool {
    suffix.len() <= name.len() && name.subrange(name.len() - suffix.len(), name.len() as int)
        == suffix
}

/// The name without its hash suffix, if it has one.
pub open spec fn without_hash_suffix(name: Seq<char>, hash_suffix: Seq<char>) -> Seq<char> {
    if ends_with(name, hash_suffix) {
        name.subrange(0, name.len() - hash_suffix.len())
    } else {
        name
    }
}

/// Whether a file name carries the hash suffix (`_<hash>`), as every file
/// the server offers must.
pub fn has_hash_suffix(file_name: &str, hash_suffix: &str) -> (r: bool)
    ensures
        r == ends_with(file_name@, hash_suffix@),
{
    let n = file_name.unicode_len();
    let m = hash_suffix.unicode_len();
    if m > n {
        return false;
    }
    let start = n - m;
    let mut i: usize = 0;
    while i < m
        invariant
            n == file_name@.len(),
            m == hash_suffix@.len(),
            m <= n,
            start == n - m,
            i <= m,
            forall|k: int| 0 <= k < i ==> file_name@[start + k] == hash_suffix@[k],
        decreases m - i,
    {
        if file_name.get_char(start + i) != hash_suffix.get_char(i) {
            proof {
                assert(file_name@.subrange(start as int, n as int)[i as int] != hash_suffix@[i as int]);
            }
            return false;
        }
        i = i + 1;
    }
    proof {
        assert(file_name@.subrange(start as int, n as int) =~= hash_suffix@);
    }
    true
}

/// The asset's name in the index: the file name without the hash suffix
/// (a name without it stays as it is).
pub fn strip_hash_suffix(file_name: &str, hash_suffix: &str) -> (r: String)
    ensures
        r@ == without_hash_suffix(file_name@, hash_suffix@),
{
    if has_hash_suffix(file_name, hash_suffix) {
        let n = file_name.unicode_len();
        let m = hash_suffix.unicode_len();
        let before = file_name.substring_char(0, n - m);
        String::from_str(before)
    } else {
        String::from_str(file_name)
    }
}

/// Where an imported file is stored: `<base>/<name><hash suffix>.<ext>`.
pub fn hashed_file_path(base_path: &str, name: &str, hash_suffix: &str, ext: &str) -> (r: String)
    ensures
        r@ == base_path@ + "/"@ + name@ + hash_suffix@ + "."@ + ext@,
{
    let mut p = String::from_str(base_path);
    p.append("/");
    p.append(name);
    p.append(hash_suffix);
    p.append(".");
    p.append(ext);
    p
}

/// Where an imported directory is stored, packed as a tar archive:
/// `<base>/<name><hash suffix>.tar`.
pub fn hashed_tar_path(base_path: &str, name: &str, hash_suffix: &str) -> (r: String)
    ensures
        r@ == base_path@ + "/"@ + name@ + hash_suffix@ + ".tar"@,
{
    let mut p = String::from_str(base_path);
    p.append("/");
    p.append(name);
    p.append(hash_suffix);
    p.append(".tar");
    p
}

/// The index file of a collection: `<base>/index.json`.
pub fn index_path(base_path: &str) -> (r: String)
    ensures
        r@ == base_path@ + "/index.json"@,
{
    let mut p = String::from_str(base_path);
    p.append("/index.json");
    p
}

/// Stripping is undone by adding the suffix back: the stored file name of
/// an imported asset ends with its hash, and its index name is the name it
/// was imported under (less a hash suffix it already had).
pub proof fn law_strip_then_add_restores_suffix(name: Seq<char>, hash_suffix: Seq<char>)
    ensures
        ends_with(without_hash_suffix(name, hash_suffix) + hash_suffix, hash_suffix),
        without_hash_suffix(without_hash_suffix(name, hash_suffix) + hash_suffix, hash_suffix)
            == without_hash_suffix(name, hash_suffix),
        ends_with(name, hash_suffix) ==> without_hash_suffix(name, hash_suffix) + hash_suffix
            == name,
{
    let s = without_hash_suffix(name, hash_suffix);
    let t = s + hash_suffix;
    assert(t.subrange(t.len() - hash_suffix.len(), t.len() as int) =~= hash_suffix);
    assert(t.subrange(0, t.len() - hash_suffix.len()) =~= s);
    if ends_with(name, hash_suffix) {
        assert(s + hash_suffix =~= name);
    }
}

} // verus!
