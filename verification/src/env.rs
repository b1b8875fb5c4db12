//! Composing the environment of a set of installations: each standard
//! subdirectory that exists is put on the matching search-path variable,
//! ahead of what the host already has there.
use vstd::prelude::*;

use crate::keyed::{assoc_get, assoc_insert, KeyedMap};
use crate::paths::{join, join_path};
use crate::text::{chars_of, dec, push_chars, push_dec, push_str, str_eq, string_of};
use crate::types::{Installation, Package, ResolvedEnvironment};

verus! {

broadcast use vstd::string::group_string_axioms;

/// Which standard subdirectories an installation has.
#[derive(Debug, Clone, Copy)]
pub struct InstallDirs {
    pub bin: bool,
    pub sbin: bool,
    pub lib: bool,
    pub lib64: bool,
    pub headers: bool,
    pub man: bool,
    pub share_man: bool,
    pub share: bool,
    pub share_pkgconfig: bool,
    pub lib_pkgconfig: bool,
}

/// Name of the C header subdirectory.
pub open spec fn headers_dir() -> Seq<char> {
    seq!['i', 'n', 'c', 'l', 'u', 'd', 'e']
}

fn headers_dir_exec() -> (r: String)
    ensures
        r@ == headers_dir(),
{
    let v: Vec<char> = vec!['i', 'n', 'c', 'l', 'u', 'd', 'e'];
    proof {
        assert(v@ =~= headers_dir());
    }
    string_of(&v)
}

/// The search-path variables, in the order they are set.
pub enum PathVar {
    Path,
    LdLibraryPath,
    Cpath,
    Manpath,
    XdgDataDirs,
    PkgConfigPath,
    DyldFallbackLibraryPath,
}

pub open spec fn var_name(v: PathVar) -> Seq<char> {
    match v {
        PathVar::Path => "PATH"@,
        PathVar::LdLibraryPath => "LD_LIBRARY_PATH"@,
        PathVar::Cpath => "CPATH"@,
        PathVar::Manpath => "MANPATH"@,
        PathVar::XdgDataDirs => "XDG_DATA_DIRS"@,
        PathVar::PkgConfigPath => "PKG_CONFIG_PATH"@,
        PathVar::DyldFallbackLibraryPath => "DYLD_FALLBACK_LIBRARY_PATH"@,
    }
}

/// The directories of one installation (at `base`) that go on variable
/// `v`: `bin/`, `sbin/` on `PATH`; `lib/`, `lib64/` on `LD_LIBRARY_PATH`;
/// the C header directory on `CPATH`; `man/`, `share/man/` on `MANPATH`; `share/` on
/// `XDG_DATA_DIRS`; `share/pkgconfig/`, `lib/pkgconfig/` on
/// `PKG_CONFIG_PATH`; `lib/` on `DYLD_FALLBACK_LIBRARY_PATH`.
pub open spec fn dirs_for(base: Seq<char>, d: InstallDirs, v: PathVar) -> Seq<Seq<char>> {
    let one = |present: bool, p: Seq<char>| if present {
        seq![p]
    } else {
        Seq::<Seq<char>>::empty()
    };
    match v {
        PathVar::Path => one(d.bin, join(base, "bin"@)) + one(d.sbin, join(base, "sbin"@)),
        PathVar::LdLibraryPath => one(d.lib, join(base, "lib"@)) + one(
            d.lib64,
            join(base, "lib64"@),
        ),
        PathVar::Cpath => one(d.headers, join(base, headers_dir())),
        PathVar::Manpath => one(d.man, join(base, "man"@)) + one(
            d.share_man,
            join(join(base, "share"@), "man"@),
        ),
        PathVar::XdgDataDirs => one(d.share, join(base, "share"@)),
        PathVar::PkgConfigPath => one(d.share_pkgconfig, join(join(base, "share"@), "pkgconfig"@))
            + one(d.lib_pkgconfig, join(join(base, "lib"@), "pkgconfig"@)),
        PathVar::DyldFallbackLibraryPath => one(d.lib, join(base, "lib"@)),
    }
}

/// The directories of an installation that go on each variable are
/// exactly its existing standard subdirectories for that variable:
/// `bin/`, `sbin/` on `PATH`; `lib/`, `lib64/` on `LD_LIBRARY_PATH`; the
/// header directory on `CPATH`; `man/`, `share/man/` on `MANPATH`;
/// `share/` on `XDG_DATA_DIRS`; `share/pkgconfig/`, `lib/pkgconfig/` on
/// `PKG_CONFIG_PATH`; `lib/` on `DYLD_FALLBACK_LIBRARY_PATH`; where a
/// variable takes two, they come in that order.
pub proof fn lemma_dirs_for_members(base: Seq<char>, d: InstallDirs, x: Seq<char>)
    ensures
        dirs_for(base, d, PathVar::Path).contains(x) <==> ((d.bin && x == join(base, "bin"@)) || (
        d.sbin && x == join(base, "sbin"@))),
        dirs_for(base, d, PathVar::LdLibraryPath).contains(x) <==> ((d.lib && x == join(base, "lib"@))
            || (d.lib64 && x == join(base, "lib64"@))),
        dirs_for(base, d, PathVar::Cpath).contains(x) <==> (d.headers && x == join(base, headers_dir())),
        dirs_for(base, d, PathVar::Manpath).contains(x) <==> ((d.man && x == join(base, "man"@)) || (
        d.share_man && x == join(join(base, "share"@), "man"@))),
        dirs_for(base, d, PathVar::XdgDataDirs).contains(x) <==> (d.share && x == join(base, "share"@)),
        dirs_for(base, d, PathVar::PkgConfigPath).contains(x) <==> ((d.share_pkgconfig && x == join(
            join(base, "share"@),
            "pkgconfig"@,
        )) || (d.lib_pkgconfig && x == join(join(base, "lib"@), "pkgconfig"@))),
        dirs_for(base, d, PathVar::DyldFallbackLibraryPath).contains(x) <==> (d.lib && x == join(
            base,
            "lib"@,
        )),
        d.bin && d.sbin ==> dirs_for(base, d, PathVar::Path) == seq![join(base, "bin"@), join(base, "sbin"@)],
        d.lib && d.lib64 ==> dirs_for(base, d, PathVar::LdLibraryPath) == seq![
            join(base, "lib"@),
            join(base, "lib64"@),
        ],
        d.man && d.share_man ==> dirs_for(base, d, PathVar::Manpath) == seq![
            join(base, "man"@),
            join(join(base, "share"@), "man"@),
        ],
        d.share_pkgconfig && d.lib_pkgconfig ==> dirs_for(base, d, PathVar::PkgConfigPath) == seq![
            join(join(base, "share"@), "pkgconfig"@),
            join(join(base, "lib"@), "pkgconfig"@),
        ],
{
    let one = |present: bool, p: Seq<char>| if present {
        seq![p]
    } else {
        Seq::<Seq<char>>::empty()
    };
    assert forall|present: bool, p: Seq<char>| #[trigger] one(present, p).contains(x) <==> (present
        && x == p) by {
        if present && x == p {
            assert(one(present, p)[0] == x);
        }
    }
    let pairs = seq![
        (d.bin, join(base, "bin"@), d.sbin, join(base, "sbin"@)),
        (d.lib, join(base, "lib"@), d.lib64, join(base, "lib64"@)),
        (d.man, join(base, "man"@), d.share_man, join(join(base, "share"@), "man"@)),
        (d.share_pkgconfig, join(join(base, "share"@), "pkgconfig"@), d.lib_pkgconfig, join(
            join(base, "lib"@),
            "pkgconfig"@,
        )),
    ];
    assert forall|k: int| 0 <= k < 4 implies (one(pairs[k].0, pairs[k].1) + one(pairs[k].2, pairs[k].3)).contains(x)
        <==> (one(pairs[k].0, pairs[k].1).contains(x) || one(pairs[k].2, pairs[k].3).contains(x)) by {
        crate::sandbox::lemma_concat_contains(one(pairs[k].0, pairs[k].1), one(pairs[k].2, pairs[k].3), x);
    }
    assert(pairs[0].0 == d.bin);
    assert(pairs[1].0 == d.lib);
    assert(pairs[2].0 == d.man);
    assert(pairs[3].0 == d.share_pkgconfig);
    assert(seq![join(base, "bin"@)] + seq![join(base, "sbin"@)] =~= seq![join(base, "bin"@), join(base, "sbin"@)]);
    assert(seq![join(base, "lib"@)] + seq![join(base, "lib64"@)] =~= seq![join(base, "lib"@), join(base, "lib64"@)]);
    assert(seq![join(base, "man"@)] + seq![join(join(base, "share"@), "man"@)] =~= seq![
        join(base, "man"@),
        join(join(base, "share"@), "man"@),
    ]);
    assert(seq![join(join(base, "share"@), "pkgconfig"@)] + seq![join(join(base, "lib"@), "pkgconfig"@)]
        =~= seq![join(join(base, "share"@), "pkgconfig"@), join(join(base, "lib"@), "pkgconfig"@)]);
}

/// Every directory an installation puts on a variable is among the
/// directories collected for it over all installations.
pub proof fn lemma_collect_dirs_contains(
    bases: Seq<Seq<char>>,
    ds: Seq<InstallDirs>,
    v: PathVar,
    i: int,
    x: Seq<char>,
)
    requires
        bases.len() == ds.len(),
        0 <= i < bases.len(),
        dirs_for(bases[i], ds[i], v).contains(x),
    ensures
        collect_dirs(bases, ds, v).contains(x),
    decreases bases.len(),
{
    let n = bases.len() - 1;
    crate::sandbox::lemma_concat_contains(
        collect_dirs(bases.drop_last(), ds.drop_last(), v),
        dirs_for(bases.last(), ds.last(), v),
        x,
    );
    if i < n {
        assert(bases.drop_last()[i] == bases[i]);
        assert(ds.drop_last()[i] == ds[i]);
        lemma_collect_dirs_contains(bases.drop_last(), ds.drop_last(), v, i, x);
    }
}

/// All directories for variable `v`, installation by installation.
pub open spec fn collect_dirs(bases: Seq<Seq<char>>, ds: Seq<InstallDirs>, v: PathVar) -> Seq<
    Seq<char>,
>
    decreases bases.len(),
{
    if bases.len() == 0 || ds.len() == 0 {
        seq![]
    } else {
        collect_dirs(bases.drop_last(), ds.drop_last(), v) + dirs_for(bases.last(), ds.last(), v)
    }
}

/// Duplicates dropped, first occurrences kept in order.
pub open spec fn dedup_first(s: Seq<Seq<char>>) -> Seq<Seq<char>>
    decreases s.len(),
{
    if s.len() == 0 {
        seq![]
    } else {
        let p = dedup_first(s.drop_last());
        if p.contains(s.last()) {
            p
        } else {
            p.push(s.last())
        }
    }
}

/// The entries joined with `:`.
pub open spec fn join_colon(s: Seq<Seq<char>>) -> Seq<char>
    decreases s.len(),
{
    if s.len() == 0 {
        seq![]
    } else if s.len() == 1 {
        s[0]
    } else {
        join_colon(s.drop_last()) + seq![':'] + s.last()
    }
}

/// The environment after putting `entries` in front of variable `key`:
/// unchanged when there are none; otherwise the entries joined with `:`,
/// followed by `:` and the host's value when that is set and non-empty.
pub open spec fn prepend_spec(
    env: Seq<(Seq<char>, Seq<char>)>,
    key: Seq<char>,
    entries: Seq<Seq<char>>,
    host_value: Option<Seq<char>>,
) -> Seq<(Seq<char>, Seq<char>)> {
    if entries.len() == 0 {
        env
    } else {
        let new_part = join_colon(entries);
        let value = match host_value {
            Some(old) => if old.len() > 0 {
                new_part + seq![':'] + old
            } else {
                new_part
            },
            None => new_part,
        };
        assoc_insert(env, key, value)
    }
}

/// `dedup_first` keeps exactly the entries of its input, each once.
pub proof fn lemma_dedup_first_props(s: Seq<Seq<char>>)
    ensures
        forall|x: Seq<char>| dedup_first(s).contains(x) <==> s.contains(x),
        forall|i: int, j: int|
            0 <= i < j < dedup_first(s).len() ==> dedup_first(s)[i] != dedup_first(s)[j],
    decreases s.len(),
{
    if s.len() > 0 {
        let t = s.drop_last();
        lemma_dedup_first_props(t);
        let p = dedup_first(t);
        let d = dedup_first(s);
        assert forall|x: Seq<char>| d.contains(x) <==> (p.contains(x) || x == s.last()) by {
            if !p.contains(s.last()) {
                if x == s.last() {
                    assert(d[p.len() as int] == x);
                }
                if p.contains(x) {
                    let k = choose|k: int| 0 <= k < p.len() && p[k] == x;
                    assert(d[k] == x);
                }
                if d.contains(x) {
                    let k = choose|k: int| 0 <= k < d.len() && d[k] == x;
                    if k < p.len() {
                        assert(p[k] == x);
                    }
                }
            }
        }
        assert forall|x: Seq<char>| s.contains(x) <==> (t.contains(x) || x == s.last()) by {
            if s.contains(x) {
                let k = choose|k: int| 0 <= k < s.len() && s[k] == x;
                if k < s.len() - 1 {
                    assert(t[k] == x);
                }
            }
            if t.contains(x) {
                let k = choose|k: int| 0 <= k < t.len() && t[k] == x;
                assert(s[k] == x);
            }
            if x == s.last() {
                assert(s[s.len() - 1] == x);
            }
        }
    }
}

/// Duplicates removed, first occurrences kept in order.
pub fn dedup_ordered(items: &Vec<String>) -> (r: Vec<String>)
    ensures
        r@.map_values(|s: String| s@) == dedup_first(items@.map_values(|s: String| s@)),
{
    let ghost all = items@.map_values(|s: String| s@);
    let mut out: Vec<String> = Vec::new();
    let mut i: usize = 0;
    proof {
        assert(all.take(0) =~= seq![]);
        assert(out@.map_values(|s: String| s@) =~= seq![]);
    }
    while i < items.len()
        invariant
            i <= items.len(),
            all == items@.map_values(|s: String| s@),
            out@.map_values(|s: String| s@) == dedup_first(all.take(i as int)),
        decreases items.len() - i,
    {
        let ghost ov = out@.map_values(|s: String| s@);
        proof {
            assert(all.take(i + 1).drop_last() =~= all.take(i as int));
            assert(all.take(i + 1).last() == items@[i as int]@);
        }
        let mut seen = false;
        let mut j: usize = 0;
        while j < out.len()
            invariant
                j <= out.len(),
                i < items.len(),
                ov == out@.map_values(|s: String| s@),
                seen == (exists|k: int| 0 <= k < j && ov[k] == items@[i as int]@),
            decreases out.len() - j,
        {
            if str_eq(out[j].as_str(), items[i].as_str()) {
                seen = true;
            }
            proof {
                assert(ov[j as int] == out@[j as int]@);
            }
            j += 1;
        }
        proof {
            assert(seen == ov.contains(items@[i as int]@));
        }
        if !seen {
            out.push(items[i].clone());
            proof {
                assert(out@.map_values(|s: String| s@) =~= ov.push(items@[i as int]@));
            }
        }
        i += 1;
    }
    proof {
        assert(all.take(items.len() as int) =~= all);
    }
    out
}

/// The entries joined with `:`.
pub fn join_with_colon(entries: &Vec<String>) -> (r: Vec<char>)
    ensures
        r@ == join_colon(entries@.map_values(|s: String| s@)),
{
    let ghost all = entries@.map_values(|s: String| s@);
    let mut out: Vec<char> = Vec::new();
    let mut i: usize = 0;
    proof {
        assert(all.take(0) =~= seq![]);
    }
    while i < entries.len()
        invariant
            i <= entries.len(),
            all == entries@.map_values(|s: String| s@),
            out@ == join_colon(all.take(i as int)),
        decreases entries.len() - i,
    {
        proof {
            assert(all.take(i + 1).drop_last() =~= all.take(i as int));
            assert(all.take(i + 1).last() == entries@[i as int]@);
        }
        if i > 0 {
            out.push(':');
        }
        push_str(&mut out, entries[i].as_str());
        proof {
            if i == 0 {
                assert(out@ =~= join_colon(all.take(1)));
            } else {
                assert(out@ =~= join_colon(all.take(i as int)) + seq![':'] + entries@[i as int]@);
            }
        }
        i += 1;
    }
    proof {
        assert(all.take(entries.len() as int) =~= all);
    }
    out
}

/// Put `entries` in front of variable `key` in `env`; `host_value` is the
/// variable's value in the host environment, if set.
pub fn prepend_path(
    env: &mut KeyedMap<String>,
    key: &str,
    entries: &Vec<String>,
    host_value: Option<&str>,
)
    ensures
        final(env)@ == prepend_spec(
            old(env)@,
            key@,
            entries@.map_values(|s: String| s@),
            match host_value {
                Some(v) => Some(v@),
                None => None,
            },
        ),
        old(env).wf() ==> final(env).wf(),
{
    let ghost es = entries@.map_values(|s: String| s@);
    if entries.len() == 0 {
        proof {
            assert(es.len() == 0);
        }
        return;
    }
    let mut value = join_with_colon(entries);
    match host_value {
        Some(h) => {
            if !h.is_empty() {
                value.push(':');
                push_str(&mut value, h);
            }
        },
        None => {},
    }
    let k = String::from_str(key);
    let vs = string_of(&value);
    proof {
        assert(k@ == key@);
        assert(vs@ == match host_value {
            Some(h) => if h@.len() > 0 {
                join_colon(es) + seq![':'] + h@
            } else {
                join_colon(es)
            },
            None => join_colon(es),
        });
    }
    env.insert(k, vs);
}

pub open spec fn bases_of(insts: Seq<Installation>) -> Seq<Seq<char>> {
    insts.map_values(|i: Installation| i.path@)
}

fn dirs_for_exec(base: &str, d: &InstallDirs, v: &PathVar, out: &mut Vec<String>)
    ensures
        final(out)@.map_values(|s: String| s@) == old(out)@.map_values(|s: String| s@)
            + dirs_for(base@, *d, *v),
{
    let ghost before = out@.map_values(|s: String| s@);
    match v {
        PathVar::Path => {
            if d.bin {
                out.push(join_path(base, "bin"));
            }
            if d.sbin {
                out.push(join_path(base, "sbin"));
            }
        },
        PathVar::LdLibraryPath => {
            if d.lib {
                out.push(join_path(base, "lib"));
            }
            if d.lib64 {
                out.push(join_path(base, "lib64"));
            }
        },
        PathVar::Cpath => {
            if d.headers {
                let h = headers_dir_exec();
                out.push(join_path(base, h.as_str()));
            }
        },
        PathVar::Manpath => {
            if d.man {
                out.push(join_path(base, "man"));
            }
            if d.share_man {
                let s = join_path(base, "share");
                out.push(join_path(s.as_str(), "man"));
            }
        },
        PathVar::XdgDataDirs => {
            if d.share {
                out.push(join_path(base, "share"));
            }
        },
        PathVar::PkgConfigPath => {
            if d.share_pkgconfig {
                let s = join_path(base, "share");
                out.push(join_path(s.as_str(), "pkgconfig"));
            }
            if d.lib_pkgconfig {
                let s = join_path(base, "lib");
                out.push(join_path(s.as_str(), "pkgconfig"));
            }
        },
        PathVar::DyldFallbackLibraryPath => {
            if d.lib {
                out.push(join_path(base, "lib"));
            }
        },
    }
    proof {
        assert(out@.map_values(|s: String| s@) =~= before + dirs_for(base@, *d, *v));
    }
}

fn collect_exec(insts: &Vec<Installation>, present: &Vec<InstallDirs>, v: &PathVar) -> (r: Vec<
    String,
>)
    requires
        insts@.len() == present@.len(),
    ensures
        r@.map_values(|s: String| s@) == collect_dirs(bases_of(insts@), present@, *v),
{
    let ghost bases = bases_of(insts@);
    let mut out: Vec<String> = Vec::new();
    let mut i: usize = 0;
    proof {
        assert(out@.map_values(|s: String| s@) =~= seq![]);
        assert(bases.take(0) =~= seq![]);
    }
    while i < insts.len()
        invariant
            i <= insts.len(),
            insts@.len() == present@.len(),
            bases == bases_of(insts@),
            out@.map_values(|s: String| s@) == collect_dirs(
                bases.take(i as int),
                present@.take(i as int),
                *v,
            ),
        decreases insts.len() - i,
    {
        proof {
            assert(bases.take(i + 1).drop_last() =~= bases.take(i as int));
            assert(present@.take(i + 1).drop_last() =~= present@.take(i as int));
            assert(bases.take(i + 1).last() == insts@[i as int].path@);
        }
        dirs_for_exec(insts[i].path.as_str(), &present[i], v, &mut out);
        i += 1;
    }
    proof {
        assert(bases.take(insts.len() as int) =~= bases);
        assert(present@.take(insts.len() as int) =~= present@);
    }
    out
}

pub open spec fn host_lookup(host: Seq<(Seq<char>, Seq<char>)>, v: PathVar) -> Option<Seq<char>> {
    assoc_get(host, var_name(v))
}

pub open spec fn compose_step(
    env: Seq<(Seq<char>, Seq<char>)>,
    bases: Seq<Seq<char>>,
    ds: Seq<InstallDirs>,
    host: Seq<(Seq<char>, Seq<char>)>,
    v: PathVar,
) -> Seq<(Seq<char>, Seq<char>)> {
    prepend_spec(env, var_name(v), dedup_first(collect_dirs(bases, ds, v)), host_lookup(host, v))
}

/// The composed environment of installations at `bases` whose
/// subdirectories are `ds`: `PATH`, `LD_LIBRARY_PATH`, `CPATH`, `MANPATH`,
/// `XDG_DATA_DIRS`, `PKG_CONFIG_PATH` (and on macOS
/// `DYLD_FALLBACK_LIBRARY_PATH`), each set only when it has an entry.
pub open spec fn compose_spec(
    bases: Seq<Seq<char>>,
    ds: Seq<InstallDirs>,
    host: Seq<(Seq<char>, Seq<char>)>,
    macos: bool,
) -> Seq<(Seq<char>, Seq<char>)> {
    let e0 = Seq::<(Seq<char>, Seq<char>)>::empty();
    let e1 = compose_step(e0, bases, ds, host, PathVar::Path);
    let e2 = compose_step(e1, bases, ds, host, PathVar::LdLibraryPath);
    let e3 = compose_step(e2, bases, ds, host, PathVar::Cpath);
    let e4 = compose_step(e3, bases, ds, host, PathVar::Manpath);
    let e5 = compose_step(e4, bases, ds, host, PathVar::XdgDataDirs);
    let e6 = compose_step(e5, bases, ds, host, PathVar::PkgConfigPath);
    if macos {
        compose_step(e6, bases, ds, host, PathVar::DyldFallbackLibraryPath)
    } else {
        e6
    }
}

fn var_name_exec(v: &PathVar) -> (r: String)
    ensures
        r@ == var_name(*v),
{
    match v {
        PathVar::Path => String::from_str("PATH"),
        PathVar::LdLibraryPath => String::from_str("LD_LIBRARY_PATH"),
        PathVar::Cpath => String::from_str("CPATH"),
        PathVar::Manpath => String::from_str("MANPATH"),
        PathVar::XdgDataDirs => String::from_str("XDG_DATA_DIRS"),
        PathVar::PkgConfigPath => String::from_str("PKG_CONFIG_PATH"),
        PathVar::DyldFallbackLibraryPath => String::from_str("DYLD_FALLBACK_LIBRARY_PATH"),
    }
}

fn compose_one(
    env: &mut KeyedMap<String>,
    insts: &Vec<Installation>,
    present: &Vec<InstallDirs>,
    host: &KeyedMap<String>,
    v: PathVar,
)
    requires
        insts@.len() == present@.len(),
        old(env).wf(),
    ensures
        final(env).wf(),
        final(env)@ == compose_step(old(env)@, bases_of(insts@), present@, host@, v),
{
    let dirs = collect_exec(insts, present, &v);
    let unique = dedup_ordered(&dirs);
    let name = var_name_exec(&v);
    let hv = host.get(name.as_str());
    match hv {
        Some(h) => prepend_path(env, name.as_str(), &unique, Some(h.as_str())),
        None => prepend_path(env, name.as_str(), &unique, None),
    }
}

/// Compose the environment for a set of installations. `present[i]` says
/// which standard subdirectories `installations[i]` has; `host` holds the
/// host's values of the search-path variables; `macos` adds
/// `DYLD_FALLBACK_LIBRARY_PATH`.
pub fn compose_env(
    installations: &Vec<Installation>,
    present: &Vec<InstallDirs>,
    host: &KeyedMap<String>,
    macos: bool,
) -> (r: KeyedMap<String>)
    requires
        installations@.len() == present@.len(),
    ensures
        r.wf(),
        r@ == compose_spec(bases_of(installations@), present@, host@, macos),
{
    let mut env: KeyedMap<String> = KeyedMap::new();
    compose_one(&mut env, installations, present, host, PathVar::Path);
    compose_one(&mut env, installations, present, host, PathVar::LdLibraryPath);
    compose_one(&mut env, installations, present, host, PathVar::Cpath);
    compose_one(&mut env, installations, present, host, PathVar::Manpath);
    compose_one(&mut env, installations, present, host, PathVar::XdgDataDirs);
    compose_one(&mut env, installations, present, host, PathVar::PkgConfigPath);
    if macos {
        compose_one(&mut env, installations, present, host, PathVar::DyldFallbackLibraryPath);
    }
    env
}

/// A `ResolvedEnvironment` for installations, with their composed env.
pub fn build_resolved_env(
    installations: Vec<Installation>,
    entry: Package,
    all_packages: Vec<Package>,
    present: &Vec<InstallDirs>,
    host: &KeyedMap<String>,
    macos: bool,
) -> (r: ResolvedEnvironment)
    requires
        installations@.len() == present@.len(),
    ensures
        r.installations == installations,
        r.entry == entry,
        r.all_packages == all_packages,
        r.env@ == compose_spec(bases_of(installations@), present@, host@, macos),
{
    let env = compose_env(&installations, present, host, macos);
    ResolvedEnvironment { installations, env, entry, all_packages }
}

// ── Shell exports ────────────────────────────────────────────────────

/// `s.split(':')`: the pieces between colons, empty ones kept.
pub open spec fn split_colon(s: Seq<char>) -> Seq<Seq<char>>
    decreases s.len(),
{
    if s.len() == 0 {
        seq![seq![]]
    } else {
        let p = split_colon(s.drop_last());
        if s.last() == ':' {
            p.push(seq![])
        } else {
            p.update(p.len() - 1, p.last().push(s.last()))
        }
    }
}

/// Splitting at `:` always gives at least one piece.
pub proof fn lemma_split_colon_len(s: Seq<char>)
    ensures
        split_colon(s).len() >= 1,
    decreases s.len(),
{
    if s.len() > 0 {
        lemma_split_colon_len(s.drop_last());
    }
}

pub open spec fn export_lines(env: Seq<(Seq<char>, Seq<char>)>) -> Seq<char>
    decreases env.len(),
{
    if env.len() == 0 {
        seq![]
    } else {
        export_lines(env.drop_last()) + "export "@ + env.last().0 + "=\""@ + env.last().1
            + "\"\n"@
    }
}

pub open spec fn component_lines(parts: Seq<Seq<char>>) -> Seq<char>
    decreases parts.len(),
{
    if parts.len() == 0 {
        seq![]
    } else {
        component_lines(parts.drop_last()) + "#   ["@ + dec((parts.len() - 1) as nat) + "] "@
            + parts.last() + "\n"@
    }
}

/// The shell text `format_shell_exports` prints for an environment.
pub open spec fn shell_exports_spec(env: Seq<(Seq<char>, Seq<char>)>) -> Seq<char> {
    "# buckets environment\n"@ + export_lines(env) + match assoc_get(env, "PATH"@) {
        Some(p) => "\n# PATH components:\n"@ + component_lines(split_colon(p)),
        None => seq![],
    }
}

fn split_colon_exec(s: &Vec<char>) -> (r: Vec<Vec<char>>)
    ensures
        r@.len() == split_colon(s@).len(),
        forall|i: int| 0 <= i < r@.len() ==> #[trigger] r@[i]@ == split_colon(s@)[i],
{
    let mut out: Vec<Vec<char>> = Vec::new();
    let mut cur: Vec<char> = Vec::new();
    let mut i: usize = 0;
    proof {
        assert(s@.take(0) =~= seq![]);
    }
    while i < s.len()
        invariant
            i <= s.len(),
            out@.len() + 1 == split_colon(s@.take(i as int)).len(),
            forall|j: int| 0 <= j < out@.len() ==> #[trigger] out@[j]@ == split_colon(s@.take(i as int))[j],
            cur@ == split_colon(s@.take(i as int)).last(),
        decreases s.len() - i,
    {
        proof {
            assert(s@.take(i + 1).drop_last() =~= s@.take(i as int));
            assert(s@.take(i + 1).last() == s@[i as int]);
            lemma_split_colon_len(s@.take(i as int));
        }
        if s[i] == ':' {
            let done = cur;
            out.push(done);
            cur = Vec::new();
            proof {
                assert(cur@ =~= seq![]);
            }
        } else {
            cur.push(s[i]);
        }
        i += 1;
    }
    proof {
        assert(s@.take(s.len() as int) =~= s@);
    }
    out.push(cur);
    out
}

/// Format a resolved environment as shell `export` statements, followed
/// by the `PATH` components, numbered, as comments.
pub fn format_shell_exports(env: &ResolvedEnvironment) -> (r: String)
    ensures
        r@ == shell_exports_spec(env.env@),
{
    let mut out: Vec<char> = Vec::new();
    push_str(&mut out, "# buckets environment\n");
    let ghost ev = env.env@;
    let mut i: usize = 0;
    proof {
        assert(ev.take(0) =~= seq![]);
        assert(out@ =~= "# buckets environment\n"@ + export_lines(ev.take(0)));
    }
    while i < env.env.entries.len()
        invariant
            i <= env.env.entries.len(),
            ev == env.env@,
            out@ == "# buckets environment\n"@ + export_lines(ev.take(i as int)),
        decreases env.env.entries.len() - i,
    {
        proof {
            assert(ev.take(i + 1).drop_last() =~= ev.take(i as int));
            assert(ev.take(i + 1).last() == ev[i as int]);
        }
        push_str(&mut out, "export ");
        push_str(&mut out, env.env.entries[i].0.as_str());
        push_str(&mut out, "=\"");
        push_str(&mut out, env.env.entries[i].1.as_str());
        push_str(&mut out, "\"\n");
        proof {
            assert(out@ =~= "# buckets environment\n"@ + export_lines(ev.take(i + 1)));
        }
        i += 1;
    }
    proof {
        assert(ev.take(ev.len() as int) =~= ev);
    }
    let ghost head = out@;
    match env.env.get("PATH") {
        Some(p) => {
            push_str(&mut out, "\n# PATH components:\n");
            let pc = chars_of(p.as_str());
            let parts = split_colon_exec(&pc);
            let ghost ps = split_colon(pc@);
            let mut k: usize = 0;
            proof {
                assert(ps.take(0) =~= seq![]);
                assert(out@ =~= head + "\n# PATH components:\n"@ + component_lines(ps.take(0)));
            }
            while k < parts.len()
                invariant
                    k <= parts.len(),
                    ps == split_colon(pc@),
                    parts@.len() == ps.len(),
                    forall|j: int| 0 <= j < parts@.len() ==> #[trigger] parts@[j]@ == ps[j],
                    out@ == head + "\n# PATH components:\n"@ + component_lines(ps.take(k as int)),
                decreases parts.len() - k,
            {
                proof {
                    assert(ps.take(k + 1).drop_last() =~= ps.take(k as int));
                    assert(ps.take(k + 1).last() == parts@[k as int]@);
                }
                push_str(&mut out, "#   [");
                push_dec(&mut out, k as u64);
                push_str(&mut out, "] ");
                push_chars(&mut out, &parts[k]);
                push_str(&mut out, "\n");
                proof {
                    assert(out@ =~= head + "\n# PATH components:\n"@ + component_lines(
                        ps.take(k + 1),
                    ));
                }
                k += 1;
            }
            proof {
                assert(ps.take(parts.len() as int) =~= ps);
            }
        },
        None => {
            proof {
                assert(out@ =~= head + seq![]);
            }
        },
    }
    string_of(&out)
}

} // verus!
