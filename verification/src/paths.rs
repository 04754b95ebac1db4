//! Default locations of the saved-places config and the response cache,
//! following the XDG base-directory variables. Paths are byte strings, as
//! the environment gives them on Unix.

use vstd::prelude::*;
use vstd::utf8::encode_utf8;
use crate::numeric::{nat_text, push_nat};
use crate::text::push_char;

verus! {

/// The application directory name under the XDG bases.
pub open spec fn app_dir_name() -> Seq<char> {
    "weather-signal"@
}

/// `PathBuf::join` of a relative part: the part itself after an empty
/// base, otherwise the base, a `/` unless it already ends with one, and
/// the part.
pub open spec fn spec_join(base: Seq<u8>, part: Seq<u8>) -> Seq<u8> {
    if base.len() == 0 {
        part
    } else if base.last() == 47u8 {
        base + part
    } else {
        base + seq![47u8] + part
    }
}

/// Joins the relative path `part` onto `base`.
fn join_bytes(base: &Vec<u8>, part: &[u8]) -> (r: Vec<u8>)
    ensures
        r@ == spec_join(base@, part@),
{
    let mut out: Vec<u8> = Vec::new();
    let mut i: usize = 0;
    while i < base.len()
        invariant
            i <= base@.len(),
            out@ == base@.take(i as int),
        decreases base.len() - i,
    {
        out.push(base[i]);
        assert(base@.take(i + 1) =~= base@.take(i as int).push(base@[i as int]));
        i = i + 1;
    }
    assert(base@.take(base@.len() as int) =~= base@);
    if base.len() > 0 && base[base.len() - 1] != 47u8 {
        out.push(47u8);
    }
    let ghost before = out@;
    let mut j: usize = 0;
    while j < part.len()
        invariant
            j <= part@.len(),
            out@ == before + part@.take(j as int),
        decreases part.len() - j,
    {
        out.push(part[j]);
        assert(part@.take(j + 1) =~= part@.take(j as int).push(part@[j as int]));
        j = j + 1;
    }
    assert(part@.take(part@.len() as int) =~= part@);
    assert(out@ =~= spec_join(base@, part@));
    out
}

/// Joins the relative path `part` onto `base`.
pub fn join_path(base: &Vec<u8>, part: &str) -> (r: Vec<u8>)
    ensures
        r@ == spec_join(base@, encode_utf8(part@)),
{
    join_bytes(base, part.as_bytes())
}

/// `$HOME`, or `.` when it is unset.
pub open spec fn spec_home_dir(home: Option<Seq<u8>>) -> Seq<u8> {
    match home {
        Some(h) => h,
        None => seq![46u8],
    }
}

/// The XDG base: the variable's value when set, else `$HOME/<fallback>`.
pub open spec fn spec_xdg_home(var_value: Option<Seq<u8>>, home: Option<Seq<u8>>, fallback: Seq<char>) -> Seq<u8> {
    match var_value {
        Some(v) => v,
        None => spec_join(spec_home_dir(home), encode_utf8(fallback)),
    }
}

fn home_dir(home: Option<Vec<u8>>) -> (r: Vec<u8>)
    ensures
        r@ == spec_home_dir(
            match home {
                Some(h) => Some(h@),
                None => None,
            },
        ),
{
    match home {
        Some(h) => h,
        None => {
            let mut v: Vec<u8> = Vec::new();
            v.push(46u8);
            assert(v@ =~= seq![46u8]);
            v
        },
    }
}

pub open spec fn bytes_of(v: Option<Vec<u8>>) -> Option<Seq<u8>> {
    match v {
        Some(b) => Some(b@),
        None => None,
    }
}

fn xdg_home(var_value: Option<Vec<u8>>, home: Option<Vec<u8>>, fallback: &str) -> (r: Vec<u8>)
    ensures
        r@ == spec_xdg_home(bytes_of(var_value), bytes_of(home), fallback@),
{
    match var_value {
        Some(v) => v,
        None => join_path(&home_dir(home), fallback),
    }
}

/// `<XDG_CONFIG_HOME or $HOME/.config>/weather-signal/config.toml`.
pub open spec fn spec_default_config_path(config_home: Option<Seq<u8>>, home: Option<Seq<u8>>) -> Seq<u8> {
    spec_join(
        spec_join(spec_xdg_home(config_home, home, ".config"@), encode_utf8(app_dir_name())),
        encode_utf8("config.toml"@),
    )
}

/// `<XDG_CACHE_HOME or $HOME/.cache>/weather-signal`.
pub open spec fn spec_default_cache_dir(cache_home: Option<Seq<u8>>, home: Option<Seq<u8>>) -> Seq<u8> {
    spec_join(spec_xdg_home(cache_home, home, ".cache"@), encode_utf8(app_dir_name()))
}

/// The default config file path, from the values of `XDG_CONFIG_HOME` and
/// `HOME`.
pub fn default_config_path(config_home: Option<Vec<u8>>, home: Option<Vec<u8>>) -> (r: Vec<u8>)
    ensures
        r@ == spec_default_config_path(bytes_of(config_home), bytes_of(home)),
{
    let base = xdg_home(config_home, home, ".config");
    let dir = join_path(&base, "weather-signal");
    join_path(&dir, "config.toml")
}

/// The default cache directory, from the values of `XDG_CACHE_HOME` and
/// `HOME`.
pub fn default_cache_dir(cache_home: Option<Vec<u8>>, home: Option<Vec<u8>>) -> (r: Vec<u8>)
    ensures
        r@ == spec_default_cache_dir(bytes_of(cache_home), bytes_of(home)),
{
    let base = xdg_home(cache_home, home, ".cache");
    join_path(&base, "weather-signal")
}

/// `/`, the path separator.
pub open spec fn is_sep(b: u8) -> bool {
    b == 47u8
}

/// A path with a root: it starts with `/`.
pub open spec fn has_root(p: Seq<u8>) -> bool {
    p.len() > 0 && is_sep(p[0])
}

/// A relative path whose first component is `.`.
pub open spec fn starts_cur_dir(p: Seq<u8>) -> bool {
    !has_root(p) && p.len() >= 1 && p[0] == 46u8 && (p.len() == 1 || is_sep(p[1]))
}

/// Where the components after the root or the leading `.` begin.
pub open spec fn body_start(p: Seq<u8>) -> nat {
    if has_root(p) || starts_cur_dir(p) {
        1
    } else {
        0
    }
}

/// The end of `q` once trailing separators and `.` components past
/// `lb` are dropped: the end of its last named component, or `lb`.
pub open spec fn trim_end(q: Seq<u8>, lb: nat) -> int
    decreases q.len(),
{
    if q.len() <= lb {
        q.len() as int
    } else if is_sep(q.last()) {
        trim_end(q.drop_last(), lb)
    } else if q.last() == 46u8 && (q.len() - 1 == lb || is_sep(q[q.len() - 2])) {
        trim_end(q.drop_last(), lb)
    } else {
        q.len() as int
    }
}

/// Where the last component of `q` begins: just after its last separator
/// past `lb`, or `lb`.
pub open spec fn piece_start(q: Seq<u8>, lb: nat) -> int
    decreases q.len(),
{
    if q.len() <= lb {
        q.len() as int
    } else if is_sep(q.last()) {
        q.len() as int
    } else {
        piece_start(q.drop_last(), lb)
    }
}

/// `Path::parent` of a Unix path: the path without its last component and
/// the separators and `.` components before it; `None` for a path that is
/// empty or only a root, `Some("")` for a single relative component.
pub open spec fn spec_parent(p: Seq<u8>) -> Option<Seq<u8>> {
    let lb = body_start(p);
    let e = trim_end(p, lb);
    if e > lb {
        let s = piece_start(p.take(e), lb);
        Some(p.take(trim_end(p.take(s), lb)))
    } else if has_root(p) {
        None
    } else if starts_cur_dir(p) {
        Some(Seq::empty())
    } else {
        None
    }
}

proof fn lemma_take_step(p: Seq<u8>, e: int)
    requires
        0 < e <= p.len(),
    ensures
        p.take(e).drop_last() == p.take(e - 1),
        p.take(e).last() == p[e - 1],
        p.take(e).len() == e,
{
    assert(p.take(e).drop_last() =~= p.take(e - 1));
}

proof fn lemma_trim_end_bounds(q: Seq<u8>, lb: nat)
    ensures
        q.len() <= lb ==> trim_end(q, lb) == q.len(),
        q.len() > lb ==> lb <= trim_end(q, lb) <= q.len(),
    decreases q.len(),
{
    if q.len() > lb {
        lemma_trim_end_bounds(q.drop_last(), lb);
    }
}

/// The end of `p.take(e)` with trailing separators and `.` components past
/// `lb` dropped.
fn trim_end_at(p: &Vec<u8>, lb: usize, e: usize) -> (r: usize)
    requires
        e <= p@.len(),
    ensures
        r == trim_end(p@.take(e as int), lb as nat),
{
    let mut k: usize = e;
    while k > lb
        invariant
            k <= e <= p@.len(),
            trim_end(p@.take(k as int), lb as nat) == trim_end(p@.take(e as int), lb as nat),
        decreases k,
    {
        proof {
            lemma_take_step(p@, k as int);
        }
        if p[k - 1] == 47u8 {
            k = k - 1;
        } else if p[k - 1] == 46u8 && (k - 1 == lb || p[k - 2] == 47u8) {
            proof {
                if k - 1 != lb {
                    assert(p@.take(k as int)[k - 2] == p@[k - 2]);
                }
            }
            k = k - 1;
        } else {
            proof {
                if k - 1 != lb {
                    assert(p@.take(k as int)[k - 2] == p@[k - 2]);
                }
            }
            return k;
        }
    }
    k
}

/// Where the last component of `p.take(e)` begins.
fn piece_start_at(p: &Vec<u8>, lb: usize, e: usize) -> (r: usize)
    requires
        e <= p@.len(),
    ensures
        r == piece_start(p@.take(e as int), lb as nat),
{
    let mut k: usize = e;
    while k > lb
        invariant
            k <= e <= p@.len(),
            piece_start(p@.take(k as int), lb as nat) == piece_start(p@.take(e as int), lb as nat),
        decreases k,
    {
        proof {
            lemma_take_step(p@, k as int);
        }
        if p[k - 1] == 47u8 {
            return k;
        }
        k = k - 1;
    }
    k
}

/// The parent of the Unix path `p`, as `Path::parent` gives it.
pub fn path_parent(p: &Vec<u8>) -> (r: Option<Vec<u8>>)
    ensures
        match r {
            Some(d) => spec_parent(p@) == Some(d@),
            None => spec_parent(p@) is None,
        },
{
    let n = p.len();
    let root = n > 0 && p[0] == 47u8;
    let cur = !root && n >= 1 && p[0] == 46u8 && (n == 1 || p[1] == 47u8);
    let lb: usize = if root || cur {
        1
    } else {
        0
    };
    assert(p@.take(n as int) =~= p@);
    let e = trim_end_at(p, lb, n);
    proof {
        lemma_trim_end_bounds(p@, lb as nat);
    }
    if e > lb {
        let s = piece_start_at(p, lb, e);
        proof {
            lemma_piece_start_le(p@.take(e as int), lb as nat);
        }
        let d = trim_end_at(p, lb, s);
        proof {
            lemma_trim_end_bounds(p@.take(s as int), lb as nat);
        }
        let mut out: Vec<u8> = Vec::new();
        let mut i: usize = 0;
        while i < d
            invariant
                i <= d <= p@.len(),
                out@ == p@.take(i as int),
            decreases d - i,
        {
            out.push(p[i]);
            assert(p@.take(i + 1) =~= p@.take(i as int).push(p@[i as int]));
            i = i + 1;
        }
        Some(out)
    } else if root {
        None
    } else if cur {
        Some(Vec::new())
    } else {
        None
    }
}

proof fn lemma_piece_start_le(q: Seq<u8>, lb: nat)
    ensures
        piece_start(q, lb) <= q.len(),
    decreases q.len(),
{
    if q.len() > lb && !is_sep(q.last()) {
        lemma_piece_start_le(q.drop_last(), lb);
    }
}

/// A config path is followed through at most this many symbolic links.
pub const MAX_CONFIG_SYMLINK_HOPS: usize = 32;

/// Where a symbolic link at `link` with the target `target` leads: an
/// absolute target as it is, a relative one read from the directory of the
/// link (`.` when the link path has no parent).
pub open spec fn spec_link_destination(link: Seq<u8>, target: Seq<u8>) -> Seq<u8> {
    if has_root(target) {
        target
    } else {
        let dir = match spec_parent(link) {
            Some(d) => d,
            None => seq![46u8],
        };
        spec_join(dir, target)
    }
}

/// The path a symbolic link at `link` with the target `target` leads to.
pub fn link_destination(link: &Vec<u8>, target: Vec<u8>) -> (r: Vec<u8>)
    ensures
        r@ == spec_link_destination(link@, target@),
{
    if target.len() > 0 && target[0] == 47u8 {
        return target;
    }
    let dir = match path_parent(link) {
        Some(d) => d,
        None => {
            let mut v: Vec<u8> = Vec::new();
            v.push(46u8);
            assert(v@ =~= seq![46u8]);
            v
        },
    };
    join_bytes(&dir, target.as_slice())
}

/// What to do with the config path being resolved.
pub enum LinkStep {
    /// Not a link: save the config at this path.
    SaveAt(Vec<u8>),
    /// A link: look at the path it leads to next.
    Inspect(Vec<u8>),
    /// The chain of links is longer than the limit.
    TooDeep,
}

/// [`LinkStep`] with its paths as byte sequences.
pub enum LinkStepView {
    SaveAt(Seq<u8>),
    Inspect(Seq<u8>),
    TooDeep,
}

pub open spec fn link_step_view(s: LinkStep) -> LinkStepView {
    match s {
        LinkStep::SaveAt(p) => LinkStepView::SaveAt(p@),
        LinkStep::Inspect(p) => LinkStepView::Inspect(p@),
        LinkStep::TooDeep => LinkStepView::TooDeep,
    }
}

/// After `hops` links have been followed, the path `current` was found to
/// be a link to `link_target`, or not a link (`None`).
pub open spec fn spec_link_step(hops: int, current: Seq<u8>, link_target: Option<Seq<u8>>) -> LinkStepView {
    match link_target {
        None => LinkStepView::SaveAt(current),
        Some(t) => if hops + 1 < MAX_CONFIG_SYMLINK_HOPS {
            LinkStepView::Inspect(spec_link_destination(current, t))
        } else {
            LinkStepView::TooDeep
        },
    }
}

/// Decides the next step of resolving the config path through symbolic
/// links; `link_target` is the target of `current` when it is a link.
pub fn config_link_step(hops: usize, current: Vec<u8>, link_target: Option<Vec<u8>>) -> (r: LinkStep)
    ensures
        link_step_view(r) == spec_link_step(hops as int, current@, bytes_of(link_target)),
{
    match link_target {
        None => LinkStep::SaveAt(current),
        Some(t) => {
            if hops < MAX_CONFIG_SYMLINK_HOPS - 1 {
                LinkStep::Inspect(link_destination(&current, t))
            } else {
                LinkStep::TooDeep
            }
        },
    }
}

proof fn lemma_trim_end_last(q: Seq<u8>, lb: nat)
    ensures
        trim_end(q, lb) > lb ==> trim_end(q, lb) <= q.len() && !is_sep(q[trim_end(q, lb) - 1]),
    decreases q.len(),
{
    if q.len() > lb {
        lemma_trim_end_last(q.drop_last(), lb);
        lemma_trim_end_bounds(q.drop_last(), lb);
    }
}

proof fn lemma_piece_start_before_end(q: Seq<u8>, lb: nat)
    requires
        lb < q.len(),
        !is_sep(q.last()),
    ensures
        lb <= piece_start(q, lb) < q.len(),
    decreases q.len(),
{
    let r = q.drop_last();
    assert(piece_start(q, lb) == piece_start(r, lb));
    if r.len() > lb && !is_sep(r.last()) {
        lemma_piece_start_before_end(r, lb);
    } else {
        assert(piece_start(r, lb) == r.len());
    }
}

/// The parent of a path is a proper prefix of it.
pub proof fn law_parent_is_prefix(p: Seq<u8>)
    ensures
        spec_parent(p) matches Some(d) ==> d.len() < p.len() && d == p.take(d.len() as int),
{
    let lb = body_start(p);
    lemma_trim_end_bounds(p, lb);
    lemma_trim_end_last(p, lb);
    let e = trim_end(p, lb);
    if e > lb {
        let q = p.take(e);
        assert(q.last() == p[e - 1]);
        lemma_piece_start_before_end(q, lb);
        let s = piece_start(q, lb);
        lemma_trim_end_bounds(p.take(s), lb);
        let t = trim_end(p.take(s), lb);
        assert(t <= s);
        let d = p.take(t);
        assert(d.len() == t);
    } else if !has_root(p) && starts_cur_dir(p) {
        assert(Seq::<u8>::empty() =~= p.take(0));
    }
}

/// A link leads to a path that ends with its target, and to the target
/// itself when the target is absolute.
pub proof fn law_link_destination_ends_with_target(link: Seq<u8>, target: Seq<u8>)
    ensures
        ({
            let d = spec_link_destination(link, target);
            &&& d.len() >= target.len()
            &&& d.subrange(d.len() - target.len(), d.len() as int) == target
            &&& has_root(target) ==> d == target
        }),
{
    let d = spec_link_destination(link, target);
    assert(d.subrange(d.len() - target.len(), d.len() as int) =~= target);
}

/// Resolving a config path follows at most the limit of links: a step
/// asks for another look only while the count stays below the limit, and
/// a path that is not a link is where the config is saved.
pub proof fn law_link_chain_is_bounded(hops: int, current: Seq<u8>, link_target: Option<Seq<u8>>)
    requires
        0 <= hops,
    ensures
        spec_link_step(hops, current, link_target) is Inspect ==> hops + 1 < MAX_CONFIG_SYMLINK_HOPS,
        link_target is None ==> spec_link_step(hops, current, link_target) == LinkStepView::SaveAt(
            current,
        ),
        link_target is Some && hops + 1 >= MAX_CONFIG_SYMLINK_HOPS ==> spec_link_step(
            hops,
            current,
            link_target,
        ) == LinkStepView::TooDeep,
{
}

/// The temporary file a config is written to before it replaces the
/// config: `.<file name>.<process id>.<counter>.tmp`, with `config.toml`
/// standing in for a file name that is missing or not text.
pub open spec fn spec_config_temp_name(file_name: Option<Seq<char>>, pid: u32, counter: u64) -> Seq<char> {
    let name = match file_name {
        Some(n) => n,
        None => "config.toml"@,
    };
    seq!['.'] + name + seq!['.'] + nat_text(pid as nat) + seq!['.'] + nat_text(counter as nat)
        + ".tmp"@
}

pub fn config_temp_file_name(file_name: Option<&str>, pid: u32, counter: u64) -> (r: String)
    ensures
        r@ == spec_config_temp_name(
            match file_name {
                Some(n) => Some(n@),
                None => None,
            },
            pid,
            counter,
        ),
{
    let mut out = String::new();
    push_char(&mut out, '.');
    match file_name {
        Some(n) => out.append(n),
        None => out.append("config.toml"),
    }
    push_char(&mut out, '.');
    push_nat(&mut out, pid as u64);
    push_char(&mut out, '.');
    push_nat(&mut out, counter);
    out.append(".tmp");
    proof {
        let name = match file_name {
            Some(n) => n@,
            None => "config.toml"@,
        };
        assert(out@ =~= seq!['.'] + name + seq!['.'] + nat_text(pid as nat) + seq!['.']
            + nat_text(counter as nat) + ".tmp"@);
    }
    out
}

} // verus!
