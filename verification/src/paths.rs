//! Where the configuration file is looked for: the search list, the file that
//! is used, and the path that is written.

use vstd::prelude::*;
use vstd::string::*;
use crate::json::str_eq;

verus! {

/// A filesystem path by its components: the anchor (drive prefix and root
/// directory, empty for a relative path) and the components after it.
pub struct PathParts {
    pub anchor: String,
    pub parts: Vec<String>,
}

/// A path as values: two paths are the same path exactly when these are equal.
pub struct PathSpec {
    pub anchor: Seq<char>,
    pub parts: Seq<Seq<char>>,
}

impl View for PathParts {
    type V = PathSpec;

    open spec fn view(&self) -> PathSpec {
        PathSpec { anchor: self.anchor@, parts: self.parts@.map_values(|s: String| s@) }
    }
}

/// The name of the configuration file.
pub open spec fn config_file_name() -> Seq<char> {
    "config.json"@
}

/// The configuration file in the directory `dir`.
pub open spec fn config_file_in(dir: PathSpec) -> PathSpec {
    PathSpec { anchor: dir.anchor, parts: dir.parts.push(config_file_name()) }
}

/// The parent directory: the path without its last component. An anchor alone
/// and the empty path have none.
pub open spec fn parent_dir(p: PathSpec) -> Option<PathSpec> {
    if p.parts.len() == 0 {
        None
    } else {
        Some(PathSpec { anchor: p.anchor, parts: p.parts.drop_last() })
    }
}

/// How many directories above a start directory are searched.
pub const SEARCH_LEVELS: u64 = 8;

/// The configuration file in `dir` and in up to `levels` of its ancestors,
/// nearest first.
pub open spec fn candidates_upward(dir: PathSpec, levels: nat) -> Seq<PathSpec>
    decreases levels,
{
    if levels == 0 {
        seq![config_file_in(dir)]
    } else {
        match parent_dir(dir) {
            Some(up) => seq![config_file_in(dir)] + candidates_upward(up, (levels - 1) as nat),
            None => seq![config_file_in(dir)],
        }
    }
}

/// The places searched, in order and with repeats: the path given by the
/// environment; upward from the executable's directory; upward from the
/// working directory; the file next to the executable.
pub open spec fn search_list(
    env: Option<PathSpec>,
    exe_dir: Option<PathSpec>,
    cwd: Option<PathSpec>,
    app_dir: PathSpec,
) -> Seq<PathSpec> {
    (match env {
        Some(p) => seq![p],
        None => Seq::empty(),
    }) + (match exe_dir {
        Some(d) => candidates_upward(d, SEARCH_LEVELS as nat),
        None => Seq::empty(),
    }) + (match cwd {
        Some(d) => candidates_upward(d, SEARCH_LEVELS as nat),
        None => Seq::empty(),
    }) + seq![config_file_in(app_dir)]
}

/// The elements of `s` at their first occurrence, in order.
pub open spec fn distinct_in_order<A>(s: Seq<A>) -> Seq<A>
    decreases s.len(),
{
    if s.len() == 0 {
        s
    } else if s.drop_last().contains(s.last()) {
        distinct_in_order(s.drop_last())
    } else {
        distinct_in_order(s.drop_last()).push(s.last())
    }
}

/// No element occurs twice.
pub open spec fn no_repeats<A>(s: Seq<A>) -> bool {
    forall|i: int, j: int| 0 <= i < j < s.len() ==> s[i] != s[j]
}

/// A path given or not, as values.
pub open spec fn opt_view(p: Option<PathParts>) -> Option<PathSpec> {
    match p {
        Some(q) => Some(q@),
        None => None,
    }
}

/// A list of paths, as values.
pub open spec fn paths_view(v: Seq<PathParts>) -> Seq<PathSpec> {
    v.map_values(|p: PathParts| p@)
}

/// What `distinct_in_order` keeps: the same elements, each once, the first
/// one first.
pub proof fn lemma_distinct_in_order<A>(s: Seq<A>)
    ensures
        forall|x: A| #[trigger] distinct_in_order(s).contains(x) <==> s.contains(x),
        no_repeats(distinct_in_order(s)),
        s.len() > 0 ==> distinct_in_order(s).len() > 0 && distinct_in_order(s)[0] == s[0],
    decreases s.len(),
{
    if s.len() > 0 {
        let p = s.drop_last();
        lemma_distinct_in_order(p);
        let d = distinct_in_order(p);
        assert forall|x: A| #[trigger] distinct_in_order(s).contains(x) <==> s.contains(x) by {
            if s.contains(x) {
                let j = choose|j: int| 0 <= j < s.len() && s[j] == x;
                if j < s.len() - 1 {
                    assert(p[j] == x);
                }
            }
            if p.contains(x) {
                let j = choose|j: int| 0 <= j < p.len() && p[j] == x;
                assert(s[j] == x);
            }
            if !p.contains(s.last()) {
                assert(distinct_in_order(s) == d.push(s.last()));
                if d.push(s.last()).contains(x) {
                    let j = choose|j: int| 0 <= j < d.len() + 1 && d.push(s.last())[j] == x;
                    if j < d.len() {
                        assert(d[j] == x);
                    }
                }
                if d.contains(x) {
                    let j = choose|j: int| 0 <= j < d.len() && d[j] == x;
                    assert(d.push(s.last())[j] == x);
                }
                assert(d.push(s.last())[d.len() as int] == s.last());
            }
        }
        if p.len() == 0 {
            assert(!p.contains(s.last()));
        }
        if !p.contains(s.last()) {
            let e = d.push(s.last());
            assert(!d.contains(s.last()));
            assert forall|i: int, j: int| 0 <= i < j < e.len() implies e[i] != e[j] by {
                if j == d.len() {
                    assert(e[i] == d[i]);
                }
            }
        }
    }
}

/// Whether two paths are the same path.
pub fn path_eq(a: &PathParts, b: &PathParts) -> (r: bool)
    ensures
        r == (a@ == b@),
{
    if !str_eq(a.anchor.as_str(), b.anchor.as_str()) || a.parts.len() != b.parts.len() {
        proof {
            if a@ == b@ {
                assert(a@.parts.len() == a.parts@.len());
            }
        }
        return false;
    }
    let mut i: usize = 0;
    while i < a.parts.len()
        invariant
            a.parts@.len() == b.parts@.len(),
            i <= a.parts@.len(),
            forall|j: int| 0 <= j < i ==> a.parts@[j]@ == b.parts@[j]@,
        decreases a.parts@.len() - i,
    {
        if !str_eq(a.parts[i].as_str(), b.parts[i].as_str()) {
            proof {
                if a@ == b@ {
                    assert(a@.parts[i as int] == b@.parts[i as int]);
                }
            }
            return false;
        }
        i += 1;
    }
    assert(a@.parts =~= b@.parts);
    true
}

/// A copy of a path.
pub fn copy_path(p: &PathParts) -> (r: PathParts)
    ensures
        r@ == p@,
{
    let mut parts: Vec<String> = Vec::new();
    let mut i: usize = 0;
    while i < p.parts.len()
        invariant
            i <= p.parts@.len(),
            parts@.len() == i,
            forall|j: int| 0 <= j < i ==> parts@[j]@ == p.parts@[j]@,
        decreases p.parts@.len() - i,
    {
        parts.push(p.parts[i].clone());
        i += 1;
    }
    let r = PathParts { anchor: p.anchor.clone(), parts };
    assert(r@.parts =~= p@.parts);
    r
}

/// The configuration file in the directory `dir`.
pub fn config_file_at(dir: &PathParts) -> (r: PathParts)
    ensures
        r@ == config_file_in(dir@),
{
    let mut r = copy_path(dir);
    r.parts.push(String::from_str("config.json"));
    assert(r@.parts =~= dir@.parts.push(config_file_name()));
    r
}

/// Appends the configuration file in `dir` and in up to `SEARCH_LEVELS` of its
/// ancestors, nearest first.
fn push_config_candidates(paths: &mut Vec<PathParts>, start: &PathParts)
    ensures
        paths_view(final(paths)@) == paths_view(old(paths)@) + candidates_upward(
            start@,
            SEARCH_LEVELS as nat,
        ),
{
    let mut dir = copy_path(start);
    paths.push(config_file_at(&dir));
    let ghost first = config_file_in(start@);
    assert(paths_view(paths@) =~= paths_view(old(paths)@) + seq![first]);
    let mut level: u64 = 0;
    while level < SEARCH_LEVELS
        invariant
            level <= SEARCH_LEVELS,
            paths_view(paths@) + candidates_upward(dir@, (SEARCH_LEVELS - level) as nat).drop_first()
                == paths_view(old(paths)@) + candidates_upward(start@, SEARCH_LEVELS as nat),
        decreases SEARCH_LEVELS - level,
    {
        if dir.parts.len() == 0 {
            assert(candidates_upward(dir@, (SEARCH_LEVELS - level) as nat) =~= seq![
                config_file_in(dir@),
            ]);
            return;
        }
        let ghost before = paths_view(paths@);
        let ghost up = PathSpec { anchor: dir@.anchor, parts: dir@.parts.drop_last() };
        let ghost rest = candidates_upward(up, (SEARCH_LEVELS - level - 1) as nat);
        assert(candidates_upward(dir@, (SEARCH_LEVELS - level) as nat) =~= seq![
            config_file_in(dir@),
        ] + rest);
        dir.parts.pop();
        assert(dir@ == up) by {
            assert(dir@.parts =~= up.parts);
        }
        paths.push(config_file_at(&dir));
        assert(paths_view(paths@) =~= before.push(config_file_in(up)));
        assert(rest[0] == config_file_in(up));
        assert(rest.drop_first() =~= (seq![config_file_in(dir@)] + rest).drop_first().drop_first());
        assert(before.push(config_file_in(up)) + rest.drop_first() =~= before + (seq![
            config_file_in(dir@),
        ] + rest).drop_first());
        level += 1;
    }
    assert(candidates_upward(dir@, 0) =~= seq![config_file_in(dir@)]);
    assert(paths_view(paths@) =~= paths_view(paths@) + candidates_upward(dir@, 0).drop_first());
}

/// Appends `p` where it is given.
fn push_if_some(paths: &mut Vec<PathParts>, p: Option<PathParts>)
    ensures
        paths_view(final(paths)@) == paths_view(old(paths)@) + match opt_view(p) {
            Some(q) => seq![q],
            None => Seq::empty(),
        },
{
    match p {
        Some(q) => {
            paths.push(q);
            assert(paths_view(paths@) =~= paths_view(old(paths)@) + seq![q@]);
        },
        None => {
            assert(paths_view(paths@) =~= paths_view(old(paths)@) + Seq::<PathSpec>::empty());
        },
    }
}

/// The places searched for the configuration file, each once, in search
/// order: the path given by the environment; upward from the executable's
/// directory; upward from the working directory; the file next to the
/// executable.
pub fn config_candidates(
    env: Option<PathParts>,
    exe_dir: Option<PathParts>,
    cwd: Option<PathParts>,
    app_dir: &PathParts,
) -> (r: Vec<PathParts>)
    ensures
        paths_view(r@) == distinct_in_order(
            search_list(opt_view(env), opt_view(exe_dir), opt_view(cwd), app_dir@),
        ),
{
    let ghost want = search_list(opt_view(env), opt_view(exe_dir), opt_view(cwd), app_dir@);
    let mut all: Vec<PathParts> = Vec::new();
    push_if_some(&mut all, env);
    let ghost after_env = paths_view(all@);
    match &exe_dir {
        Some(d) => push_config_candidates(&mut all, d),
        None => {},
    }
    let ghost after_exe = paths_view(all@);
    match &cwd {
        Some(d) => push_config_candidates(&mut all, d),
        None => {},
    }
    let ghost after_cwd = paths_view(all@);
    all.push(config_file_at(app_dir));
    proof {
        assert(paths_view(all@) =~= after_cwd.push(config_file_in(app_dir@)));
        if exe_dir.is_none() {
            assert(after_exe =~= after_env);
        }
        if cwd.is_none() {
            assert(after_cwd =~= after_exe);
        }
        assert(paths_view(all@) =~= want);
    }
    let ghost all_v = paths_view(all@);
    let mut r: Vec<PathParts> = Vec::new();
    let mut k: usize = 0;
    while k < all.len()
        invariant
            k <= all@.len(),
            all_v == paths_view(all@),
            paths_view(r@) == distinct_in_order(all_v.take(k as int)),
        decreases all@.len() - k,
    {
        let ghost pre = all_v.take(k as int);
        proof {
            lemma_distinct_in_order(pre);
        }
        let mut seen = false;
        let mut j: usize = 0;
        while j < r.len()
            invariant
                k < all@.len(),
                all_v == paths_view(all@),
                pre == all_v.take(k as int),
                paths_view(r@) == distinct_in_order(pre),
                j <= r@.len(),
                seen == exists|i: int| 0 <= i < j && paths_view(r@)[i] == all_v[k as int],
            decreases r@.len() - j,
        {
            let e = path_eq(&r[j], &all[k]);
            proof {
                assert(paths_view(r@)[j as int] == r@[j as int]@);
                assert(all_v[k as int] == all@[k as int]@);
                if seen {
                    let i = choose|i: int| 0 <= i < j && paths_view(r@)[i] == all_v[k as int];
                    assert(0 <= i < j + 1);
                }
                if e {
                    assert(0 <= j < j + 1 && paths_view(r@)[j as int] == all_v[k as int]);
                }
            }
            if e {
                seen = true;
            }
            j += 1;
        }
        proof {
            assert(all_v.take(k + 1).drop_last() =~= pre);
            assert(all_v.take(k + 1).last() == all_v[k as int]);
            assert(distinct_in_order(pre).contains(all_v[k as int]) == seen);
        }
        if !seen {
            let c = copy_path(&all[k]);
            r.push(c);
            assert(paths_view(r@) =~= distinct_in_order(pre).push(all_v[k as int]));
        }
        k += 1;
    }
    assert(all_v.take(all@.len() as int) =~= all_v);
    r
}

/// The configuration file that is read: the first candidate that exists as a
/// file, `None` where none does. `is_file[i]` says whether `candidates[i]`
/// exists as a file.
pub fn resolve_config_path(candidates: &Vec<PathParts>, is_file: &Vec<bool>) -> (r: Option<PathParts>)
    requires
        candidates@.len() == is_file@.len(),
    ensures
        match r {
            Some(p) => exists|i: int|
                0 <= i < is_file@.len() && is_file@[i] && (forall|j: int| 0 <= j < i ==> !is_file@[j])
                    && p@ == candidates@[i]@,
            None => forall|i: int| 0 <= i < is_file@.len() ==> !is_file@[i],
        },
{
    let mut i: usize = 0;
    while i < candidates.len()
        invariant
            candidates@.len() == is_file@.len(),
            i <= is_file@.len(),
            forall|j: int| 0 <= j < i ==> !is_file@[j],
        decreases candidates@.len() - i,
    {
        if is_file[i] {
            return Some(copy_path(&candidates[i]));
        }
        i += 1;
    }
    None
}

/// The path that is read and written: the configuration file found, or else
/// the one next to the executable.
pub fn config_path(resolved: Option<PathParts>, app_dir: &PathParts) -> (r: PathParts)
    ensures
        r@ == match resolved {
            Some(p) => p@,
            None => config_file_in(app_dir@),
        },
{
    match resolved {
        Some(p) => p,
        None => config_file_at(app_dir),
    }
}

/// Each place is searched once, every place on the search list is searched,
/// and the path given by the environment, where there is one, comes first.
pub proof fn lemma_search_once_each(
    env: Option<PathSpec>,
    exe_dir: Option<PathSpec>,
    cwd: Option<PathSpec>,
    app_dir: PathSpec,
)
    ensures
        no_repeats(distinct_in_order(search_list(env, exe_dir, cwd, app_dir))),
        forall|p: PathSpec|
            #[trigger] distinct_in_order(search_list(env, exe_dir, cwd, app_dir)).contains(p)
                <==> search_list(env, exe_dir, cwd, app_dir).contains(p),
        search_list(env, exe_dir, cwd, app_dir).contains(config_file_in(app_dir)),
        env matches Some(e) ==> distinct_in_order(search_list(env, exe_dir, cwd, app_dir))[0] == e,
{
    let s = search_list(env, exe_dir, cwd, app_dir);
    lemma_distinct_in_order(s);
    assert(s[s.len() - 1] == config_file_in(app_dir));
    if let Some(e) = env {
        assert(s[0] == e);
    }
}

} // verus!
