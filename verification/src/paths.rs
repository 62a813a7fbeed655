//! File paths as text: components are separated by `/`, empty components and
//! inner `.` components say nothing.
use vstd::prelude::*;

use crate::text;
use crate::text::{chars_of, from_chars, same_text, split_text};

verus! {

// ---------------------------------------------------------------------------
// Parts of a path
// ---------------------------------------------------------------------------

/// Whether the last character of a path says nothing: a slash that is not the
/// root, or a `.` component that is not the first.
pub open spec fn ends_idle(s: Seq<char>) -> bool {
    s.len() > 1 && (s.last() == '/' || (s.last() == '.' && s[s.len() - 2] == '/'))
}

/// The path without what says nothing at its end.
pub open spec fn path_trimmed(s: Seq<char>) -> Seq<char>
    decreases s.len(),
{
    if ends_idle(s) {
        path_trimmed(s.drop_last())
    } else {
        s
    }
}

/// The place of the last slash, or -1 where there is none.
pub open spec fn last_slash(s: Seq<char>) -> int
    decreases s.len(),
{
    if s.len() == 0 {
        -1
    } else if s.last() == '/' {
        s.len() - 1
    } else {
        last_slash(s.drop_last())
    }
}

pub open spec fn is_absolute(s: Seq<char>) -> bool {
    s.len() > 0 && s[0] == '/'
}

/// The path without its last component; none where there is no component or
/// only the root.
pub open spec fn parent_of(s: Seq<char>) -> Option<Seq<char>> {
    let t = path_trimmed(s);
    let i = last_slash(t);
    if t.len() == 0 || t == seq!['/'] {
        None
    } else if i < 0 {
        Some(Seq::empty())
    } else if i == 0 {
        Some(seq!['/'])
    } else {
        Some(path_trimmed(t.take(i)))
    }
}

/// The last component, where it is a name.
pub open spec fn file_name_of(s: Seq<char>) -> Option<Seq<char>> {
    let t = path_trimmed(s);
    let last = t.skip(last_slash(t) + 1);
    if last.len() == 0 || last == seq!['.'] || last == seq!['.', '.'] {
        None
    } else {
        Some(last)
    }
}

/// The path `d` as seen from `base`.
pub open spec fn joined_path(base: Seq<char>, d: Seq<char>) -> Seq<char> {
    if is_absolute(d) || base.len() == 0 {
        d
    } else if base.last() == '/' {
        base + d
    } else {
        base.push('/') + d
    }
}

/// The components of a path: the root or a leading `.` where there is one,
/// then the names.
pub open spec fn components(s: Seq<char>) -> Seq<Seq<char>> {
    let pieces = text::split(s, '/');
    let first = if is_absolute(s) {
        seq![seq!['/']]
    } else if pieces[0] == seq!['.'] {
        seq![seq!['.']]
    } else {
        Seq::empty()
    };
    first + pieces.filter(|p: Seq<char>| p.len() > 0 && p != seq!['.'])
}

fn trimmed_len(v: &Vec<char>, n: usize) -> (r: usize)
    requires
        n <= v@.len(),
    ensures
        r <= n,
        v@.take(r as int) == path_trimmed(v@.take(n as int)),
{
    let mut r: usize = n;
    while r > 1 && (v[r - 1] == '/' || (v[r - 1] == '.' && v[r - 2] == '/'))
        invariant
            r <= n <= v@.len(),
            path_trimmed(v@.take(n as int)) == path_trimmed(v@.take(r as int)),
        decreases r,
    {
        proof {
            assert(ends_idle(v@.take(r as int)));
            assert(v@.take(r as int).drop_last() =~= v@.take(r - 1));
        }
        r -= 1;
    }
    proof {
        assert(!ends_idle(v@.take(r as int)));
    }
    r
}

/// The place behind the last slash, or 0.
fn after_last_slash(v: &Vec<char>, n: usize) -> (r: usize)
    requires
        n <= v@.len(),
    ensures
        r <= n,
        r == last_slash(v@.take(n as int)) + 1,
{
    let mut r: usize = n;
    while r > 0 && v[r - 1] != '/'
        invariant
            r <= n <= v@.len(),
            last_slash(v@.take(n as int)) == last_slash(v@.take(r as int)),
        decreases r,
    {
        proof {
            assert(v@.take(r as int).drop_last() =~= v@.take(r - 1));
        }
        r -= 1;
    }
    r
}

pub fn parent(path: &str) -> (r: Option<String>)
    ensures
        text::opt_view(r) == parent_of(path@),
{
    let v = chars_of(path);
    let n = trimmed_len(&v, v.len());
    let ghost t = path_trimmed(path@);
    proof {
        assert(v@.take(v@.len() as int) =~= v@);
        assert(t == v@.take(n as int));
    }
    if n == 0 || (n == 1 && v[0] == '/') {
        proof {
            assert(n == 1 ==> t =~= seq!['/']);
        }
        return None;
    }
    proof {
        if t == seq!['/'] {
            assert(t[0] == '/');
        }
    }
    let i = after_last_slash(&v, n);
    if i == 0 {
        let e = String::new();
        assert(e@ =~= Seq::<char>::empty());
        Some(e)
    } else if i == 1 {
        let root = "/".to_owned();
        proof {
            reveal_strlit("/");
            assert(root@ =~= seq!['/']);
        }
        Some(root)
    } else {
        let m = trimmed_len(&v, i - 1);
        proof {
            assert(t.take(i - 1) =~= v@.take(i - 1));
            assert(v@.subrange(0, m as int) =~= v@.take(m as int));
        }
        Some(from_chars(&v, 0, m))
    }
}

pub fn file_name(path: &str) -> (r: Option<String>)
    ensures
        text::opt_view(r) == file_name_of(path@),
{
    let v = chars_of(path);
    let n = trimmed_len(&v, v.len());
    let i = after_last_slash(&v, n);
    let ghost t = path_trimmed(path@);
    let ghost last = t.skip(last_slash(t) + 1);
    proof {
        assert(v@.take(v@.len() as int) =~= v@);
        assert(last =~= v@.subrange(i as int, n as int));
    }
    if i == n {
        return None;
    }
    if n - i == 1 && v[i] == '.' {
        assert(last =~= seq!['.']);
        return None;
    }
    if n - i == 2 && v[i] == '.' && v[i + 1] == '.' {
        assert(last =~= seq!['.', '.']);
        return None;
    }
    proof {
        if last == seq!['.'] {
            assert(last.len() == 1 && last[0] == '.');
        }
        if last == seq!['.', '.'] {
            assert(last.len() == 2 && last[0] == '.' && last[1] == '.');
        }
    }
    Some(from_chars(&v, i, n))
}

pub fn join_path(base: &str, d: &str) -> (r: String)
    ensures
        r@ == joined_path(base@, d@),
{
    let b = chars_of(base);
    let v = chars_of(d);
    if (v.len() > 0 && v[0] == '/') || b.len() == 0 {
        return d.to_owned();
    }
    let mut out = base.to_owned();
    if b[b.len() - 1] != '/' {
        out.push('/');
    }
    out.append(d);
    out
}

fn component_list(path: &str) -> (r: Vec<String>)
    ensures
        text::views(r@) == components(path@),
{
    let pieces = split_text(path, '/');
    let v = chars_of(path);
    let ghost all = text::split(path@, '/');
    let ghost named = |p: Seq<char>| p.len() > 0 && p != seq!['.'];
    let mut out: Vec<String> = Vec::new();
    proof {
        reveal_strlit("/");
        reveal_strlit(".");
        assert("/"@ =~= seq!['/']);
        assert("."@ =~= seq!['.']);
        text::lemma_split_nonempty(path@, '/');
        assert(all == text::views(pieces@));
    }
    if v.len() > 0 && v[0] == '/' {
        out.push("/".to_owned());
    } else if same_text(pieces[0].as_str(), ".") {
        out.push(".".to_owned());
    }
    let ghost first = text::views(out@);
    let mut i: usize = 0;
    proof {
        reveal(Seq::filter);
        assert(all.take(0).filter(named) =~= Seq::<Seq<char>>::empty());
        assert(first + all.take(0).filter(named) =~= first);
    }
    while i < pieces.len()
        invariant
            i <= pieces@.len(),
            all == text::views(pieces@),
            "."@ == seq!['.'],
            named == (|p: Seq<char>| p.len() > 0 && p != seq!['.']),
            text::views(out@) == first + all.take(i as int).filter(named),
        decreases pieces@.len() - i,
    {
        let piece = &pieces[i];
        proof {
            reveal(Seq::filter);
            assert(all.take(i + 1).drop_last() =~= all.take(i as int));
            assert(all.take(i + 1).last() == piece@);
        }
        let ghost before = out@;
        if !piece.as_str().is_empty() && !same_text(piece.as_str(), ".") {
            out.push(piece.clone());
            proof {
                assert(named(piece@));
                assert(text::views(out@) =~= text::views(before).push(piece@));
                assert(first + all.take(i as int).filter(named).push(piece@) =~= (first + all.take(
                    i as int,
                ).filter(named)).push(piece@));
            }
        } else {
            assert(!named(piece@));
        }
        i += 1;
    }
    proof {
        assert(all.take(i as int) =~= all);
        assert(first =~= (if is_absolute(path@) {
            seq![seq!['/']]
        } else if all[0] == seq!['.'] {
            seq![seq!['.']]
        } else {
            Seq::empty()
        }));
    }
    out
}

/// Whether two texts are the same path.
pub fn same_path(a: &str, b: &str) -> (r: bool)
    ensures
        r == (components(a@) == components(b@)),
{
    let x = component_list(a);
    let y = component_list(b);
    if x.len() != y.len() {
        assert(text::views(x@).len() != text::views(y@).len());
        return false;
    }
    let mut i: usize = 0;
    while i < x.len()
        invariant
            i <= x@.len(),
            x@.len() == y@.len(),
            text::views(x@) == components(a@),
            text::views(y@) == components(b@),
            forall|k: int| 0 <= k < i ==> text::views(x@)[k] == text::views(y@)[k],
        decreases x@.len() - i,
    {
        if !same_text(x[i].as_str(), y[i].as_str()) {
            assert(text::views(x@)[i as int] != text::views(y@)[i as int]);
            return false;
        }
        i += 1;
    }
    assert(text::views(x@) =~= text::views(y@));
    true
}

// ---------------------------------------------------------------------------
// Where a daemon runs
// ---------------------------------------------------------------------------

/// The places that relative paths and configuration files are told apart by.
#[derive(Debug)]
pub struct Locations {
    /// The current directory.
    pub cwd: String,
    /// The user's global configuration file.
    pub global_user: String,
    /// The machine's global configuration file.
    pub global_system: String,
}

impl Locations {
    pub open spec fn is_global(self, path: Seq<char>) -> bool {
        components(path) == components(self.global_user@) || components(path) == components(
            self.global_system@,
        )
    }

    pub fn is_global_config(&self, path: &str) -> (r: bool)
        ensures
            r == self.is_global(path@),
    {
        same_path(path, self.global_user.as_str()) || same_path(path, self.global_system.as_str())
    }
}

/// Whether a path is that of a project file in the project's `.config` directory.
pub open spec fn in_dot_config(path: Seq<char>) -> bool {
    &&& file_name_of(path) == Some("pitchfork.toml"@) || file_name_of(path) == Some(
        "pitchfork.local.toml"@,
    )
    &&& parent_of(path) matches Some(dir) && file_name_of(dir) == Some(".config"@)
}

pub fn is_dot_config_pitchfork(path: &str) -> (r: bool)
    ensures
        r == in_dot_config(path@),
{
    let named = match file_name(path) {
        Some(name) => same_text(name.as_str(), "pitchfork.toml") || same_text(
            name.as_str(),
            "pitchfork.local.toml",
        ),
        None => false,
    };
    if !named {
        return false;
    }
    match parent(path) {
        Some(dir) => match file_name(dir.as_str()) {
            Some(name) => same_text(name.as_str(), ".config"),
            None => false,
        },
        None => false,
    }
}

/// The project directory of a configuration file: the directory above
/// `.config` for a project file in there, else the file's own directory; the
/// current directory where there is neither.
pub open spec fn config_base(config_path: Option<Seq<char>>, at: Locations) -> Seq<char> {
    let dir = match config_path {
        Some(p) => if !at.is_global(p) && in_dot_config(p) {
            match parent_of(p) {
                Some(q) => parent_of(q),
                None => None,
            }
        } else {
            parent_of(p)
        },
        None => None,
    };
    match dir {
        Some(d) => d,
        None => at.cwd@,
    }
}

/// What an optional borrowed text stands for.
pub open spec fn opt_str(s: Option<&str>) -> Option<Seq<char>> {
    match s {
        Some(s) => Some(s@),
        None => None,
    }
}

pub fn resolve_config_base_dir(config_path: Option<&str>, at: &Locations) -> (r: String)
    ensures
        r@ == config_base(opt_str(config_path), *at),
{
    let dir = match config_path {
        Some(p) => if !at.is_global_config(p) && is_dot_config_pitchfork(p) {
            match parent(p) {
                Some(q) => parent(q.as_str()),
                None => None,
            }
        } else {
            parent(p)
        },
        None => None,
    };
    match dir {
        Some(d) => d,
        None => at.cwd.clone(),
    }
}

/// The working directory of a daemon: its directory as seen from the project
/// directory, or the project directory itself.
pub open spec fn daemon_dir(
    dir: Option<Seq<char>>,
    config_path: Option<Seq<char>>,
    at: Locations,
) -> Seq<char> {
    match dir {
        Some(d) => joined_path(config_base(config_path, at), d),
        None => config_base(config_path, at),
    }
}

pub fn resolve_daemon_dir(dir: Option<&str>, config_path: Option<&str>, at: &Locations) -> (r:
    String)
    ensures
        r@ == daemon_dir(opt_str(dir), opt_str(config_path), *at),
{
    let base = resolve_config_base_dir(config_path, at);
    match dir {
        Some(d) => join_path(base.as_str(), d),
        None => base,
    }
}

/// An absolute directory is taken as it is, wherever the configuration lies.
pub proof fn law_absolute_dir_overrides(
    d: Seq<char>,
    config_path: Option<Seq<char>>,
    at: Locations,
)
    requires
        is_absolute(d),
    ensures
        daemon_dir(Some(d), config_path, at) == d,
{
}

/// Without a configuration file, everything is seen from the current directory.
pub proof fn law_no_config_means_cwd(dir: Option<Seq<char>>, at: Locations)
    ensures
        daemon_dir(None, None, at) == at.cwd@,
        daemon_dir(dir, None, at) == (match dir {
            Some(d) => joined_path(at.cwd@, d),
            None => at.cwd@,
        }),
{
}

/// A global configuration file's directory is its own, even where the file is
/// named and placed like a project file.
pub proof fn law_global_config_uses_parent(path: Seq<char>, at: Locations)
    requires
        at.is_global(path),
        parent_of(path) is Some,
    ensures
        daemon_dir(None, Some(path), at) == parent_of(path)->0,
{
}

proof fn lemma_last_slash_absent(s: Seq<char>, t: Seq<char>)
    requires
        !t.contains('/'),
    ensures
        last_slash(s.push('/') + t) == s.len(),
    decreases t.len(),
{
    let whole = s.push('/') + t;
    if t.len() == 0 {
        assert(whole =~= s.push('/'));
    } else {
        assert(t[t.len() - 1] == t.last());
        assert(whole.last() == t.last());
        assert(whole.drop_last() =~= s.push('/') + t.drop_last());
        assert(!t.drop_last().contains('/')) by {
            if t.drop_last().contains('/') {
                let k = choose|k: int| 0 <= k < t.drop_last().len() && t.drop_last()[k] == '/';
                assert(t[k] == '/');
            }
        }
        lemma_last_slash_absent(s, t.drop_last());
    }
}

/// A name in a directory: the directory is its parent, and the name its file name.
pub proof fn law_parent_of_joined(base: Seq<char>, name: Seq<char>)
    requires
        base.len() > 0,
        path_trimmed(base) == base,
        name.len() > 0,
        !name.contains('/'),
        name != seq!['.'],
        name != seq!['.', '.'],
    ensures
        parent_of(joined_path(base, name)) == Some(base),
        file_name_of(joined_path(base, name)) == Some(name),
        path_trimmed(joined_path(base, name)) == joined_path(base, name),
{
    assert(name[0] != '/') by {
        assert(name.contains(name[0]));
    }
    lemma_trimmed_is_fixed(base);
    if base.last() == '/' {
        assert(base.len() == 1);
        let whole = base + name;
        assert(base =~= seq!['/']);
        assert(whole.last() != '/') by {
            assert(whole.last() == name[name.len() - 1]);
            assert(name.contains(name[name.len() - 1]));
        }
        assert(!ends_idle(whole)) by {
            if ends_idle(whole) {
                assert(whole.last() == '.');
                if name.len() == 1 {
                    assert(name =~= seq!['.']);
                } else {
                    assert(whole[whole.len() - 2] == name[name.len() - 2]);
                    assert(name.contains(name[name.len() - 2]));
                }
            }
        }
        let empty = Seq::<char>::empty();
        lemma_last_slash_absent(empty, name);
        assert(empty.push('/') + name =~= whole);
        assert(whole != seq!['/']) by {
            assert(whole.len() > 1);
        }
        assert(whole.skip(1) =~= name);
    } else {
        let whole = base.push('/') + name;
        lemma_last_slash_absent(base, name);
        assert(whole.last() == name[name.len() - 1]);
        assert(name.contains(name[name.len() - 1]));
        assert(!ends_idle(whole)) by {
            if ends_idle(whole) {
                assert(whole.last() == '.');
                if name.len() == 1 {
                    assert(name =~= seq!['.']);
                } else {
                    assert(whole[whole.len() - 2] == name[name.len() - 2]);
                    assert(name.contains(name[name.len() - 2]));
                }
            }
        }
        assert(whole != seq!['/']) by {
            assert(whole.len() > 1);
        }
        assert(whole.take(base.len() as int) =~= base);
        assert(whole.skip(base.len() as int + 1) =~= name);
    }
}

/// A project file's daemons run in the project directory, whether the file
/// lies there itself or in the directory `.config` in there.
pub proof fn law_project_file_means_project_dir(base: Seq<char>, local: bool, at: Locations)
    requires
        base.len() > 0,
        path_trimmed(base) == base,
        file_name_of(base) != Some(".config"@),
    ensures
        ({
            let name = if local {
                "pitchfork.local.toml"@
            } else {
                "pitchfork.toml"@
            };
            let nested = joined_path(joined_path(base, ".config"@), name);
            &&& daemon_dir(None, Some(joined_path(base, name)), at) == base
            &&& !at.is_global(nested) ==> daemon_dir(None, Some(nested), at) == base
        }),
{
    reveal_strlit("pitchfork.local.toml");
    reveal_strlit("pitchfork.toml");
    reveal_strlit(".config");
    let name = if local {
        "pitchfork.local.toml"@
    } else {
        "pitchfork.toml"@
    };
    assert(name != seq!['.'] && name != seq!['.', '.']) by {
        assert(name.len() > 2);
    }
    assert(".config"@ != seq!['.'] && ".config"@ != seq!['.', '.']) by {
        assert(".config"@.len() > 2);
    }
    law_parent_of_joined(base, name);
    law_parent_of_joined(base, ".config"@);
    law_parent_of_joined(joined_path(base, ".config"@), name);
}

proof fn lemma_trimmed_is_fixed(s: Seq<char>)
    ensures
        path_trimmed(s) == s ==> !ends_idle(s),
        path_trimmed(s).len() <= s.len(),
    decreases s.len(),
{
    if ends_idle(s) {
        lemma_trimmed_is_fixed(s.drop_last());
    }
}

/// A relative path begins where it is seen from, with a slash between the two
/// unless there is one already; an absolute path is taken as it is, and so is
/// one that is seen from nowhere.
pub proof fn law_relative_paths_begin_at_their_base(base: Seq<char>, d: Seq<char>)
    ensures
        d.len() > 0 && d[0] == '/' ==> joined_path(base, d) == d,
        base.len() == 0 ==> joined_path(base, d) == d,
        base.len() > 0 && (d.len() == 0 || d[0] != '/') ==> {
            let r = joined_path(base, d);
            &&& r.take(base.len() as int) == base
            &&& base.last() == '/' ==> r.skip(base.len() as int) == d
            &&& base.last() != '/' ==> r.len() == base.len() + 1 + d.len() && r[base.len() as int]
                == '/' && r.skip(base.len() as int + 1) == d
        },
{
    if base.len() > 0 && (d.len() == 0 || d[0] != '/') {
        let r = joined_path(base, d);
        assert(r.take(base.len() as int) =~= base);
        if base.last() == '/' {
            assert(r.skip(base.len() as int) =~= d);
        } else {
            assert(r.skip(base.len() as int + 1) =~= d);
        }
    }
}

/// A slash or a `.` component at the end of a path says nothing: the path has
/// the same parent, the same last name and the same components without it.
pub proof fn law_idle_ends_say_nothing(s: Seq<char>)
    requires
        s.len() > 0,
    ensures
        parent_of(s.push('/')) == parent_of(s),
        file_name_of(s.push('/')) == file_name_of(s),
        components(s.push('/')) == components(s),
        parent_of(s.push('/').push('.')) == parent_of(s),
        file_name_of(s.push('/').push('.')) == file_name_of(s),
        components(s.push('/').push('.')) == components(s),
{
    let a = s.push('/');
    let b = a.push('.');
    assert(a.drop_last() =~= s);
    assert(b.drop_last() =~= a);
    assert(b[b.len() - 2] == '/');
    assert(ends_idle(a) && ends_idle(b));
    assert(path_trimmed(a) == path_trimmed(s));
    assert(path_trimmed(b) == path_trimmed(a));
    let named = |p: Seq<char>| p.len() > 0 && p != seq!['.'];
    let none = Seq::<char>::empty();
    let dot = none.push('.');
    text::lemma_split_nonempty(s, '/');
    text::lemma_split_at_separator(s, none, '/');
    text::lemma_split_at_separator(s, dot, '/');
    assert(a + none =~= a);
    assert(a + dot =~= b);
    assert(text::split(none, '/') =~= seq![none]);
    assert(dot.drop_last() =~= none);
    assert(dot =~= seq!['.']);
    assert(text::split(dot, '/') =~= seq![dot]);
    let x = text::split(s, '/');
    lemma_filter_nothing(x, none, named);
    lemma_filter_nothing(x, dot, named);
}

proof fn lemma_filter_nothing(x: Seq<Seq<char>>, p: Seq<char>, named: spec_fn(Seq<char>) -> bool)
    requires
        !named(p),
    ensures
        (x + seq![p]).filter(named) == x.filter(named),
{
    reveal(Seq::filter);
    let all = x + seq![p];
    assert(all.drop_last() =~= x);
    assert(all.last() == p);
}

/// A relative path that is seen from a base leads through the components of the
/// base and then through its own.
pub proof fn law_components_of_joined_paths(base: Seq<char>, d: Seq<char>)
    requires
        base.len() > 0,
        d.len() > 0 && d[0] != '/' && d[0] != '.',
    ensures
        components(joined_path(base, d)) == components(base) + components(d),
{
    let named = |p: Seq<char>| p.len() > 0 && p != seq!['.'];
    let y = text::split(d, '/');
    text::lemma_split_nonempty(d, '/');
    lemma_first_piece(d);
    assert(y[0] != seq!['.']) by {
        if y[0] == seq!['.'] {
            assert(y[0][0] == '.');
        }
    }
    assert(components(d) =~= y.filter(named));
    if base.last() == '/' {
        let b = base.drop_last();
        let none = Seq::<char>::empty();
        assert(b.push('/') =~= base);
        assert(b.push('/') + none =~= base);
        text::lemma_split_at_separator(b, none, '/');
        text::lemma_split_at_separator(b, d, '/');
        text::lemma_split_nonempty(b, '/');
        assert(text::split(none, '/') =~= seq![none]);
        let x = text::split(b, '/');
        lemma_filter_nothing(x, none, named);
        Seq::filter_distributes_over_add(x, y, named);
        assert((x + seq![none])[0] == x[0] && (x + y)[0] == x[0]);
        assert(components(base + d) =~= components(base) + components(d));
    } else {
        text::lemma_split_at_separator(base, d, '/');
        text::lemma_split_nonempty(base, '/');
        let x = text::split(base, '/');
        Seq::filter_distributes_over_add(x, y, named);
        assert((x + y)[0] == x[0]);
        assert((base.push('/') + d)[0] == base[0]);
        assert(components(base.push('/') + d) =~= components(base) + components(d));
    }
}

/// The first piece of a path that does not begin with a slash begins as the
/// path does.
proof fn lemma_first_piece(s: Seq<char>)
    requires
        s.len() > 0,
        s[0] != '/',
    ensures
        text::split(s, '/').len() > 0,
        text::split(s, '/')[0].len() > 0,
        text::split(s, '/')[0][0] == s[0],
    decreases s.len(),
{
    let t = s.drop_last();
    text::lemma_split_nonempty(t, '/');
    if t.len() == 0 {
        assert(t =~= Seq::<char>::empty());
        assert(text::split(t, '/') == seq![Seq::<char>::empty()]);
        assert(text::split(s, '/')[0] =~= t.push(s[0]));
    } else {
        lemma_first_piece(t);
    }
}

/// Only the root and a path without components have no parent; that of a lone
/// name is empty, and that of a name in the root is the root.
pub proof fn law_where_paths_end(name: Seq<char>)
    requires
        name.len() > 0,
        !name.contains('/'),
        name != seq!['.'],
        name != seq!['.', '.'],
    ensures
        parent_of(Seq::empty()) is None,
        parent_of(seq!['/']) is None,
        file_name_of(seq!['/']) is None,
        parent_of(name) == Some(Seq::<char>::empty()),
        file_name_of(name) == Some(name),
        parent_of(seq!['/'] + name) == Some(seq!['/']),
        file_name_of(seq!['/'] + name) == Some(name),
{
    let root = seq!['/'];
    assert(!ends_idle(root));
    assert(root.skip(last_slash(root) + 1).len() == 0);
    lemma_no_slash(name);
    assert(!ends_idle(name)) by {
        assert(name.contains(name[name.len() - 1]));
        if ends_idle(name) {
            assert(name.contains(name[name.len() - 2]));
        }
    }
    assert(name.skip(0) =~= name);
    assert(name != root) by {
        if name == root {
            assert(name.contains(name[0]));
        }
    }
    assert(path_trimmed(root) == root);
    law_parent_of_joined(root, name);
}

proof fn lemma_no_slash(s: Seq<char>)
    requires
        !s.contains('/'),
    ensures
        last_slash(s) == -1,
    decreases s.len(),
{
    if s.len() > 0 {
        let t = s.drop_last();
        assert(s.contains(s[s.len() - 1]));
        if t.contains('/') {
            let k = choose|k: int| 0 <= k < t.len() && t[k] == '/';
            assert(s[k] == '/');
        }
        lemma_no_slash(t);
    }
}

/// A file with another name than a project file has its own directory for
/// project directory, in `.config` too.
pub proof fn law_other_files_stay_in_their_directory(
    base: Seq<char>,
    name: Seq<char>,
    at: Locations,
)
    requires
        base.len() > 0,
        path_trimmed(base) == base,
        name.len() > 0,
        !name.contains('/'),
        name != seq!['.'],
        name != seq!['.', '.'],
        name != "pitchfork.toml"@,
        name != "pitchfork.local.toml"@,
    ensures
        config_base(Some(joined_path(base, name)), at) == base,
        config_base(Some(joined_path(joined_path(base, ".config"@), name)), at) == joined_path(
            base,
            ".config"@,
        ),
{
    reveal_strlit(".config");
    assert(".config"@ != seq!['.'] && ".config"@ != seq!['.', '.']) by {
        assert(".config"@.len() > 2);
    }
    law_parent_of_joined(base, name);
    law_parent_of_joined(base, ".config"@);
    law_parent_of_joined(joined_path(base, ".config"@), name);
}

/// A relative directory of a daemon begins at the project directory.
pub proof fn law_relative_dirs_begin_at_the_project(
    d: Seq<char>,
    config_path: Option<Seq<char>>,
    at: Locations,
)
    requires
        d.len() > 0,
        d[0] != '/',
    ensures
        ({
            let base = daemon_dir(None, config_path, at);
            let r = daemon_dir(Some(d), config_path, at);
            &&& base == config_base(config_path, at)
            &&& base.len() > 0 ==> r.take(base.len() as int) == base && r.skip(r.len() - d.len())
                == d
            &&& base.len() == 0 ==> r == d
        }),
{
    let base = config_base(config_path, at);
    let r = joined_path(base, d);
    law_relative_paths_begin_at_their_base(base, d);
    if base.len() > 0 {
        assert(r.skip(r.len() - d.len()) =~= d);
    }
}

/// A file is global exactly if it is one of the two global files, however it is
/// written.
pub proof fn law_global_files(path: Seq<char>, at: Locations)
    ensures
        at.is_global(at.global_user@),
        at.is_global(at.global_system@),
        at.is_global(path) <==> components(path) == components(at.global_user@) || components(path)
            == components(at.global_system@),
{
}

/// The components of the simplest paths: a name is its own, and the root and a
/// lone `.` stand for themselves.
pub proof fn law_simple_components(name: Seq<char>)
    requires
        name.len() > 0,
        !name.contains('/'),
        name != seq!['.'],
    ensures
        components(name) == seq![name],
        components(seq!['/']) == seq![seq!['/']],
        components(seq!['.']) == seq![seq!['.']],
        components(Seq::empty()).len() == 0,
{
    reveal(Seq::filter);
    let named = |p: Seq<char>| p.len() > 0 && p != seq!['.'];
    let none = Seq::<char>::empty();
    let dot = seq!['.'];
    assert(name.contains(name[0]));
    text::lemma_split_whole(name, '/');
    assert(seq![name].drop_last() =~= Seq::empty());
    assert(seq![name].last() == name);
    assert(seq![name].drop_last().filter(named) =~= Seq::empty());
    assert(seq![name].filter(named) =~= seq![name]);
    assert(components(name) =~= seq![name]);
    assert(!dot.contains('/'));
    text::lemma_split_whole(dot, '/');
    assert(seq![dot].drop_last() =~= Seq::empty());
    assert(seq![dot].last() == dot);
    assert(seq![dot].filter(named) =~= Seq::empty());
    assert(components(dot) =~= seq![dot]);
    text::lemma_split_whole(none, '/');
    assert(seq![none].drop_last() =~= Seq::empty());
    assert(seq![none].last() == none);
    assert(seq![none].filter(named) =~= Seq::empty());
    assert(components(none) =~= Seq::empty());
    text::lemma_split_at_separator(none, none, '/');
    let root = seq!['/'];
    assert(none.push('/') + none =~= root);
    assert(seq![none] + seq![none] =~= seq![none, none]);
    lemma_filter_nothing(seq![none], none, named);
    assert(components(root) =~= seq![root]);
}

proof fn lemma_trimmed_components(s: Seq<char>)
    ensures
        components(path_trimmed(s)) == components(s),
        path_trimmed(s).len() <= s.len(),
        s.take(path_trimmed(s).len() as int) == path_trimmed(s),
        s.len() > 0 ==> path_trimmed(s).len() > 0,
    decreases s.len(),
{
    if ends_idle(s) {
        let t = s.drop_last();
        lemma_trimmed_components(t);
        assert(s.take(path_trimmed(s).len() as int) =~= t.take(path_trimmed(s).len() as int));
        if s.last() == '/' {
            assert(t.push('/') =~= s);
            law_idle_ends_say_nothing(t);
        } else {
            let u = t.drop_last();
            assert(u.push('/') =~= t);
            assert(u.push('/').push('.') =~= s);
            if u.len() > 0 {
                law_idle_ends_say_nothing(u);
            } else {
                let named = |p: Seq<char>| p.len() > 0 && p != seq!['.'];
                let none = Seq::<char>::empty();
                let dot = seq!['.'];
                text::lemma_split_whole(none, '/');
                assert(!dot.contains('/'));
                text::lemma_split_whole(dot, '/');
                text::lemma_split_at_separator(none, none, '/');
                text::lemma_split_at_separator(none, dot, '/');
                assert(none.push('/') + none =~= t);
                assert(none.push('/') + dot =~= s);
                lemma_filter_nothing(seq![none], none, named);
                lemma_filter_nothing(seq![none], dot, named);
                assert(components(s) =~= components(t));
            }
        }
    } else {
        assert(s.take(s.len() as int) =~= s);
    }
}

/// The parent of a name in a directory is that directory, however it is
/// written: as much of its text as says something.
pub proof fn law_the_parent_is_the_directory(base: Seq<char>, name: Seq<char>)
    requires
        base.len() > 0,
        name.len() > 0,
        !name.contains('/'),
        name != seq!['.'],
        name != seq!['.', '.'],
    ensures
        ({
            let path = base.push('/') + name;
            &&& parent_of(path) is Some
            &&& components(parent_of(path)->0) == components(base)
            &&& base.take(parent_of(path)->0.len() as int) == parent_of(path)->0
            &&& file_name_of(path) == Some(name)
        }),
{
    let whole = base.push('/') + name;
    lemma_last_slash_absent(base, name);
    assert(whole.last() == name[name.len() - 1]);
    assert(name.contains(name[name.len() - 1]));
    assert(!ends_idle(whole)) by {
        if ends_idle(whole) {
            assert(whole.last() == '.');
            if name.len() == 1 {
                assert(name =~= seq!['.']);
            } else {
                assert(whole[whole.len() - 2] == name[name.len() - 2]);
                assert(name.contains(name[name.len() - 2]));
            }
        }
    }
    assert(whole != seq!['/']) by {
        assert(whole.len() > 1);
    }
    assert(whole.take(base.len() as int) =~= base);
    assert(whole.skip(base.len() as int + 1) =~= name);
    lemma_trimmed_components(base);
}

} // verus!
