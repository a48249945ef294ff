//! Unix path text: joining, the parent and the file name, extensions, and the
//! data-root layout (`storage_root.json`, `data/app.db`).
use vstd::prelude::*;
use crate::recording::{join_path, path_join};
use crate::text::{lower, lower_chars, slice_chars, str_chars, string_from, chars_eq_str};

verus! {

/// `{app_config_dir}/storage_root.json`.
pub open spec fn config_path_spec(dir: Seq<char>) -> Seq<char> {
    path_join(dir, "storage_root.json"@)
}

/// Where the storage-root override lives.
pub fn config_path(app_config_dir: &str) -> (r: String)
    ensures
        r@ == config_path_spec(app_config_dir@),
{
    let j = join_path(str_chars(app_config_dir).as_slice(), str_chars("storage_root.json").as_slice());
    string_from(j.as_slice())
}

/// `to_string_lossy` of a path that is already text.
pub fn path_display(p: &str) -> (r: String)
    ensures
        r@ == p@,
{
    crate::text::string_of(p)
}

/// The path without trailing slashes (a lone `/` is kept).
pub open spec fn strip_trailing_slashes(p: Seq<char>) -> Seq<char>
    decreases p.len(),
{
    if p.len() > 1 && p.last() == '/' {
        strip_trailing_slashes(p.drop_last())
    } else {
        p
    }
}

/// Index of the last `/`, if any.
pub open spec fn last_slash(p: Seq<char>) -> Option<int>
    decreases p.len(),
{
    if p.len() == 0 {
        None
    } else if p.last() == '/' {
        Some(p.len() - 1)
    } else {
        last_slash(p.drop_last())
    }
}

/// `Path::file_name`: the last component; `None` for `/`, for an empty path and for `..`.
pub open spec fn file_name(p: Seq<char>) -> Option<Seq<char>> {
    let q = strip_trailing_slashes(p);
    let name = match last_slash(q) {
        Some(k) => q.subrange(k + 1, q.len() as int),
        None => q,
    };
    if name.len() == 0 || name == ".."@ {
        None
    } else {
        Some(name)
    }
}

/// `Path::parent`: the path up to the last component; `None` for `/` and for an empty path.
pub open spec fn parent(p: Seq<char>) -> Option<Seq<char>> {
    let q = strip_trailing_slashes(p);
    if q.len() == 0 || q == "/"@ {
        None
    } else {
        match last_slash(q) {
            None => Some(Seq::empty()),
            Some(k) => if k == 0 {
                Some("/"@)
            } else {
                Some(strip_trailing_slashes(q.subrange(0, k)))
            },
        }
    }
}

proof fn lemma_last_slash(p: Seq<char>)
    ensures
        last_slash(p) matches Some(k) ==> 0 <= k < p.len() && p[k] == '/' && forall|j: int| k < j < p.len() ==> p[j] != '/',
        last_slash(p) is None ==> forall|j: int| 0 <= j < p.len() ==> p[j] != '/',
    decreases p.len(),
{
    if p.len() > 0 && p.last() != '/' {
        let d = p.drop_last();
        lemma_last_slash(d);
        assert forall|j: int| 0 <= j < d.len() implies d[j] == p[j] by {}
    }
}

fn strip_trailing_slashes_exec(p: &[char]) -> (r: usize)
    ensures
        r <= p@.len(),
        strip_trailing_slashes(p@) == p@.subrange(0, r as int),
{
    let mut n: usize = p.len();
    assert(p@.subrange(0, p@.len() as int) =~= p@);
    while n > 1 && p[n - 1] == '/'
        invariant
            n <= p@.len(),
            strip_trailing_slashes(p@) == strip_trailing_slashes(p@.subrange(0, n as int)),
        decreases n,
    {
        assert(p@.subrange(0, n as int).drop_last() =~= p@.subrange(0, n - 1));
        n = n - 1;
    }
    n
}

fn last_slash_exec(p: &[char], n: usize) -> (r: Option<usize>)
    requires
        n <= p@.len(),
    ensures
        match r {
            Some(k) => last_slash(p@.subrange(0, n as int)) == Some(k as int),
            None => last_slash(p@.subrange(0, n as int)) is None,
        },
{
    let mut i: usize = n;
    while i > 0
        invariant
            i <= n <= p@.len(),
            last_slash(p@.subrange(0, n as int)) == last_slash(p@.subrange(0, i as int)),
        decreases i,
    {
        assert(p@.subrange(0, i as int).last() == p@[i - 1]);
        if p[i - 1] == '/' {
            return Some(i - 1);
        }
        assert(p@.subrange(0, i as int).drop_last() =~= p@.subrange(0, i - 1));
        i = i - 1;
    }
    None
}

pub fn file_name_exec(p: &[char]) -> (r: Option<Vec<char>>)
    ensures
        match r {
            Some(n) => file_name(p@) == Some(n@),
            None => file_name(p@) is None,
        },
{
    let n = strip_trailing_slashes_exec(p);
    let ghost q = p@.subrange(0, n as int);
    proof {
        lemma_last_slash(q);
    }
    let name = match last_slash_exec(p, n) {
        Some(k) => {
            assert(q.subrange(k + 1, q.len() as int) =~= p@.subrange(k + 1, n as int));
            slice_chars(p, k + 1, n)
        },
        None => slice_chars(p, 0, n),
    };
    if name.len() == 0 || chars_eq_str(name.as_slice(), "..") {
        None
    } else {
        Some(name)
    }
}

pub fn parent_exec(p: &[char]) -> (r: Option<Vec<char>>)
    ensures
        match r {
            Some(n) => parent(p@) == Some(n@),
            None => parent(p@) is None,
        },
{
    let n = strip_trailing_slashes_exec(p);
    let q = slice_chars(p, 0, n);
    if n == 0 || chars_eq_str(q.as_slice(), "/") {
        return None;
    }
    match last_slash_exec(p, n) {
        None => Some(Vec::new()),
        Some(k) => {
            proof {
                lemma_last_slash(q@);
            }
            if k == 0 {
                let v: Vec<char> = vec!['/'];
                proof {
                    reveal_strlit("/");
                }
                assert(v@ =~= "/"@);
                Some(v)
            } else {
                let head = slice_chars(p, 0, k);
                assert(q@.subrange(0, k as int) =~= head@);
                let m = strip_trailing_slashes_exec(head.as_slice());
                Some(slice_chars(head.as_slice(), 0, m))
            }
        },
    }
}

/// The storage root a database path implies: the grandparent of `…/data/app.db`, else the parent.
pub open spec fn storage_root_from_db(db: Seq<char>) -> Option<Seq<char>> {
    match parent(db) {
        None => None,
        Some(par) => if file_name(db) == Some("app.db"@) && file_name(par) == Some("data"@) {
            parent(par)
        } else {
            Some(par)
        },
    }
}

pub fn infer_storage_root_from_db_path(db_path: &str) -> (r: Option<String>)
    ensures
        crate::session::opt_seq(r) == storage_root_from_db(db_path@),
{
    let d = str_chars(db_path);
    let par = match parent_exec(d.as_slice()) {
        Some(par) => par,
        None => return None,
    };
    let is_db = match file_name_exec(d.as_slice()) {
        Some(n) => chars_eq_str(n.as_slice(), "app.db"),
        None => false,
    };
    let is_data = match file_name_exec(par.as_slice()) {
        Some(n) => chars_eq_str(n.as_slice(), "data"),
        None => false,
    };
    if is_db && is_data {
        match parent_exec(par.as_slice()) {
            Some(g) => Some(string_from(g.as_slice())),
            None => None,
        }
    } else {
        Some(string_from(par.as_slice()))
    }
}

/// `Path::extension`: the text after the last `.` of the file name, unless
/// the only `.` starts the name.
pub open spec fn extension(p: Seq<char>) -> Option<Seq<char>> {
    match file_name(p) {
        None => None,
        Some(name) => match last_dot(name) {
            None => None,
            Some(k) => if k == 0 {
                None
            } else {
                Some(name.subrange(k + 1, name.len() as int))
            },
        },
    }
}

/// Index of the last `.`, if any.
pub open spec fn last_dot(p: Seq<char>) -> Option<int>
    decreases p.len(),
{
    if p.len() == 0 {
        None
    } else if p.last() == '.' {
        Some(p.len() - 1)
    } else {
        last_dot(p.drop_last())
    }
}

proof fn lemma_last_dot(p: Seq<char>)
    ensures
        last_dot(p) matches Some(k) ==> 0 <= k < p.len(),
    decreases p.len(),
{
    if p.len() > 0 && p.last() != '.' {
        lemma_last_dot(p.drop_last());
    }
}

fn last_dot_exec(p: &[char]) -> (r: Option<usize>)
    ensures
        match r {
            Some(k) => last_dot(p@) == Some(k as int),
            None => last_dot(p@) is None,
        },
{
    let mut i: usize = p.len();
    assert(p@.subrange(0, p@.len() as int) =~= p@);
    while i > 0
        invariant
            i <= p@.len(),
            last_dot(p@) == last_dot(p@.subrange(0, i as int)),
        decreases i,
    {
        assert(p@.subrange(0, i as int).last() == p@[i - 1]);
        if p[i - 1] == '.' {
            return Some(i - 1);
        }
        assert(p@.subrange(0, i as int).drop_last() =~= p@.subrange(0, i - 1));
        i = i - 1;
    }
    None
}

pub fn extension_exec(p: &[char]) -> (r: Option<Vec<char>>)
    ensures
        match r {
            Some(e) => extension(p@) == Some(e@),
            None => extension(p@) is None,
        },
{
    let name = match file_name_exec(p) {
        Some(n) => n,
        None => return None,
    };
    let ns = name.as_slice();
    match last_dot_exec(ns) {
        None => None,
        Some(k) => {
            proof {
                lemma_last_dot(ns@);
            }
            assert(k < ns.len());
            if k == 0 {
                None
            } else {
                Some(slice_chars(ns, k + 1, ns.len()))
            }
        },
    }
}

/// Raw recording media: `.flv`, `.mp4`, `.ts`, `.mkv`, `.m4a` or `.aac`, in any case.
pub open spec fn is_raw_media(p: Seq<char>) -> bool {
    match extension(p) {
        None => false,
        Some(e) => {
            let l = lower(e);
            l == "flv"@ || l == "mp4"@ || l == "ts"@ || l == "mkv"@ || l == "m4a"@ || l == "aac"@
        },
    }
}

pub fn is_raw_media_file(path: &str) -> (r: bool)
    ensures
        r == is_raw_media(path@),
{
    let e = match extension_exec(str_chars(path).as_slice()) {
        Some(e) => e,
        None => return false,
    };
    let l = lower_chars(e.as_slice());
    let s = l.as_slice();
    chars_eq_str(s, "flv") || chars_eq_str(s, "mp4") || chars_eq_str(s, "ts") || chars_eq_str(s, "mkv")
        || chars_eq_str(s, "m4a") || chars_eq_str(s, "aac")
}

/// The storage root of a `storage_root.json` override: its trimmed `root`,
/// when that is an absolute path.
pub open spec fn custom_root_spec(root_field: Option<Seq<char>>) -> Option<Seq<char>> {
    match root_field {
        Some(r) => if crate::text::starts_with(crate::text::trim(r), "/"@) {
            Some(crate::text::trim(r))
        } else {
            None
        },
        None => None,
    }
}

pub fn custom_root_from_config(root_field: Option<&str>) -> (r: Option<String>)
    ensures
        crate::session::opt_seq(r) == custom_root_spec(crate::session::opt_str_seq(root_field)),
{
    match root_field {
        Some(f) => {
            let t = crate::text::trim_str(f);
            if crate::text::starts_with_str(t.as_slice(), "/") {
                Some(string_from(t.as_slice()))
            } else {
                None
            }
        },
        None => None,
    }
}

/// Where the data lives by default, where an older install kept it, and
/// the database of each.
pub struct DefaultRootPaths {
    pub new_root: String,
    pub legacy_root: String,
    pub new_db: String,
    pub legacy_db: String,
}

pub open spec fn db_under(root: Seq<char>) -> Seq<char> {
    path_join(path_join(root, "data"@), "app.db"@)
}

/// `~/.tikclip`, and `TikTokApp` under the app data directory.
pub fn default_root_paths(home_dir: &str, app_data_dir: &str) -> (r: DefaultRootPaths)
    ensures
        r.new_root@ == path_join(home_dir@, ".tikclip"@),
        r.legacy_root@ == path_join(app_data_dir@, "TikTokApp"@),
        r.new_db@ == db_under(path_join(home_dir@, ".tikclip"@)),
        r.legacy_db@ == db_under(path_join(app_data_dir@, "TikTokApp"@)),
{
    let h = str_chars(home_dir);
    let a = str_chars(app_data_dir);
    let nr = join_path(h.as_slice(), str_chars(".tikclip").as_slice());
    let lr = join_path(a.as_slice(), str_chars("TikTokApp").as_slice());
    let data = str_chars("data");
    let db = str_chars("app.db");
    let nd = join_path(join_path(nr.as_slice(), data.as_slice()).as_slice(), db.as_slice());
    let ld = join_path(join_path(lr.as_slice(), data.as_slice()).as_slice(), db.as_slice());
    DefaultRootPaths {
        new_root: string_from(nr.as_slice()),
        legacy_root: string_from(lr.as_slice()),
        new_db: string_from(nd.as_slice()),
        legacy_db: string_from(ld.as_slice()),
    }
}

/// The storage root to use, and the older tree to copy into it first, if any.
pub struct StorageRootPlan {
    pub root: String,
    pub migrate_from: Option<String>,
}

/// The storage root: the override when there is one; else `~/.tikclip`,
/// copied once from an older install's tree when only that one has a database.
pub fn resolve_storage_root(
    custom_root: Option<&str>,
    home_dir: &str,
    app_data_dir: &str,
    new_db_is_file: bool,
    legacy_db_is_file: bool,
) -> (r: StorageRootPlan)
    ensures
        custom_root_spec(crate::session::opt_str_seq(custom_root)) matches Some(c) ==> r.root@ == c
            && r.migrate_from is None,
        custom_root_spec(crate::session::opt_str_seq(custom_root)) is None ==> r.root@ == path_join(home_dir@, ".tikclip"@)
            && (if !new_db_is_file && legacy_db_is_file {
            crate::session::opt_seq(r.migrate_from) == Some(path_join(app_data_dir@, "TikTokApp"@))
        } else {
            r.migrate_from is None
        }),
{
    match custom_root_from_config(custom_root) {
        Some(c) => StorageRootPlan { root: c, migrate_from: None },
        None => {
            let p = default_root_paths(home_dir, app_data_dir);
            let migrate_from = if !new_db_is_file && legacy_db_is_file {
                Some(p.legacy_root)
            } else {
                None
            };
            StorageRootPlan { root: p.new_root, migrate_from }
        },
    }
}

} // verus!
