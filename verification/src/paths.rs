//! Configuration directories, and what relative paths resolve against.
//!
//! Paths are text with `/` between components.

use vstd::prelude::*;
use crate::text;

verus! {

/// Whether a path starts at the root.
pub open spec fn absolute(path: Seq<char>) -> bool {
    path.len() > 0 && path[0] == '/'
}

/// Whether an optional path, where there is one, is absolute.
pub open spec fn rooted(path: Option<Seq<char>>) -> bool {
    path matches Some(p) ==> absolute(p)
}

/// `path` below `base`: an absolute path replaces the base, and a separator
/// goes between where the base does not end in one.
pub open spec fn joined(base: Seq<char>, path: Seq<char>) -> Seq<char> {
    if absolute(path) {
        path
    } else if base.len() == 0 || base.last() == '/' {
        base + path
    } else {
        base.push('/') + path
    }
}

/// Whether a path is absolute, and none of its components is empty, `.` or
/// trailing.
pub open spec fn plain(path: Seq<char>) -> bool {
    &&& absolute(path)
    &&& path.last() != '/'
    &&& forall|i: int| 0 < i < path.len() && #[trigger] path[i] == '/' ==> path[i - 1] != '/'
    &&& forall|i: int|
        0 < i < path.len() && #[trigger] path[i] == '.' && path[i - 1] == '/' ==> i + 1 < path.len()
            && path[i + 1] != '/'
}

/// Position of the last `c` below `end`, or `-1`.
pub open spec fn last_of(path: Seq<char>, c: char, end: int) -> int
    decreases end,
{
    if end <= 0 {
        -1
    } else if path[end - 1] == c {
        end - 1
    } else {
        last_of(path, c, end - 1)
    }
}

/// The directory of a plain path.
pub open spec fn directory(path: Seq<char>) -> Seq<char> {
    let cut = last_of(path, '/', path.len() as int);
    if cut <= 0 {
        seq!['/']
    } else {
        path.take(cut)
    }
}

/// Whether a path is a single name: not empty, not `.`, without a separator.
pub open spec fn bare(path: Seq<char>) -> bool {
    &&& path.len() > 0
    &&& path != seq!['.']
    &&& forall|i: int| 0 <= i < path.len() ==> #[trigger] path[i] != '/'
}

/// Whether a path is relative, and none of its components is empty, `.` or
/// trailing.
pub open spec fn tidy(path: Seq<char>) -> bool {
    &&& path.len() > 0
    &&& path[0] != '/'
    &&& path.last() != '/'
    &&& forall|i: int| 0 < i < path.len() && #[trigger] path[i] == '/' ==> path[i - 1] != '/'
    &&& forall|i: int|
        0 <= i < path.len() && #[trigger] path[i] == '.' && (i == 0 || path[i - 1] == '/') ==> i + 1
            < path.len() && path[i + 1] != '/'
}

/// Whether a directory is the root or a plain path, as a working directory is.
pub open spec fn clean(dir: Seq<char>) -> bool {
    dir == seq!['/'] || plain(dir)
}

/// Whether the last component of an absolute path is a name.
pub open spec fn ends_in_name(path: Seq<char>) -> bool {
    absolute(path) && bare(path.skip(last_of(path, '/', path.len() as int) + 1))
}

/// Whether `file` is `path` below the absolute directory `dir`.
pub open spec fn below(dir: Seq<char>, path: Seq<char>, file: Seq<char>) -> bool {
    absolute(dir) && file == joined(dir, path)
}

/// Whether `base` is the base for the configuration file that `path` names in the
/// working directory `dir`.
pub open spec fn based(dir: Seq<char>, path: Seq<char>, base: Option<Seq<char>>) -> bool {
    &&& base is Some
    &&& clean(dir) ==> base == Some(directory(joined(dir, path)))
}

/// Whether what follows the last dot of a path is the extension of its file
/// name: the dot does not start the name, and something without a separator
/// follows it.
pub open spec fn extended(path: Seq<char>) -> bool {
    let dot = last_of(path, '.', path.len() as int);
    &&& 0 < dot
    &&& path[dot - 1] != '/'
    &&& dot + 1 < path.len()
    &&& last_of(path, '/', path.len() as int) < dot
}

/// What follows the last dot of a path.
pub open spec fn after_dot(path: Seq<char>) -> Seq<char> {
    path.skip(last_of(path, '.', path.len() as int) + 1)
}

/// What [`std::path::Path::extension`] returns.
pub uninterp spec fn path_extension(path: Seq<char>) -> Option<Seq<char>>;

/// [`std::path::Path::extension`], as text: what follows the last dot of the
/// file name, unless the dot starts the name.  Claimed: the result depends on
/// the path alone, and where the last dot of the path is within the file name
/// and something follows it, that is the extension.
#[verifier::external_body]
pub(crate) fn extension_of(path: &str) -> (r: Option<String>)
    ensures
        string_chars(r) == path_extension(path@),
        extended(path@) ==> string_chars(r) == Some(after_dot(path@)),
{
    std::path::Path::new(path).extension().and_then(|e| e.to_str()).map(|e| e.to_owned())
}

/// What [`std::path::Path::parent`] returns.
pub uninterp spec fn parent_path(path: Seq<char>) -> Option<Seq<char>>;

/// [`std::path::absolute`], as text: the path made absolute against the
/// current directory, or `None` where that fails or is not text.  Claimed: what
/// it returns is absolute, a plain path is returned as it is, and a tidy relative
/// path goes below some absolute directory, which is the current one at the time
/// of the call.  Left unsaid: which directory that is.
#[verifier::external_body]
fn absolute_of(path: &str) -> (r: Option<String>)
    ensures
        rooted(string_chars(r)),
        plain(path@) ==> string_chars(r) == Some(path@),
        tidy(path@) ==> (string_chars(r) matches Some(a) ==> exists|dir: Seq<char>| #[trigger]
            below(dir, path@, a)),
{
    std::path::absolute(path).ok().and_then(|p| p.into_os_string().into_string().ok())
}

/// [`std::path::Path::parent`], as text: the path without its last component.
/// Claimed: the result depends on the path alone; the parent of an absolute
/// path is absolute; a path whose last component is a name has a parent; a plain
/// path has its directory for a parent.
#[verifier::external_body]
fn parent_of(path: &str) -> (r: Option<String>)
    ensures
        string_chars(r) == parent_path(path@),
        absolute(path@) ==> rooted(string_chars(r)),
        ends_in_name(path@) ==> r is Some,
        plain(path@) ==> string_chars(r) == Some(directory(path@)),
{
    std::path::Path::new(path).parent().and_then(|p| p.to_str()).map(|p| p.to_owned())
}

/// Whether making `path` absolute may give `a`.
pub closed spec fn made_absolute(path: Seq<char>, a: Option<Seq<char>>) -> bool {
    exists|p: &str, r: Option<String>|
        p@ == path && string_chars(r) == a && #[trigger] call_ensures(absolute_of, (p,), r)
}

/// The base for the configuration file at `file`, where there is one.
pub open spec fn base_beside(file: Option<Seq<char>>) -> Option<Seq<char>> {
    match file {
        Some(p) => parent_path(p),
        None => None,
    }
}

fn is_absolute(path: &str) -> (r: bool)
    ensures
        r == absolute(path@),
{
    let chars = text::chars_of(path);
    chars.len() > 0 && chars[0] == '/'
}

/// `path` below `base`.
#[must_use]
pub fn join(base: &str, path: &str) -> (r: String)
    ensures
        r@ == joined(base@, path@),
{
    if is_absolute(path) {
        return path.to_owned();
    }
    let chars = text::chars_of(base);
    let mut out = base.to_owned();
    if chars.len() > 0 && chars[chars.len() - 1] != '/' {
        out.append("/");
        proof {
            reveal_strlit("/");
            assert(out@ =~= base@.push('/'));
        }
    }
    out.append(path);
    out
}

/// The configuration home: `$XDG_CONFIG_HOME` unless it is empty, else
/// `.config` below `$HOME` unless that is empty.
pub open spec fn config_home_of(xdg: Option<Seq<char>>, home: Option<Seq<char>>) -> Option<Seq<char>> {
    match xdg {
        Some(x) if x.len() > 0 => Some(x),
        _ => match home {
            Some(h) if h.len() > 0 => Some(joined(h, ".config"@)),
            _ => None,
        },
    }
}

/// The characters of an optional text.
pub open spec fn chars(s: Option<&str>) -> Option<Seq<char>> {
    match s {
        Some(t) => Some(t@),
        None => None,
    }
}

/// The characters of an optional string.
pub open spec fn string_chars(s: Option<String>) -> Option<Seq<char>> {
    match s {
        Some(t) => Some(t@),
        None => None,
    }
}

pub(crate) fn has_text(s: &str) -> (r: bool)
    ensures
        r == (s@.len() > 0),
{
    text::chars_of(s).len() > 0
}

/// The configuration home, from the values of `$XDG_CONFIG_HOME` and `$HOME`.
#[must_use]
pub fn resolve_config_home(xdg_config_home: Option<&str>, home: Option<&str>) -> (r: Option<String>)
    ensures
        string_chars(r) == config_home_of(chars(xdg_config_home), chars(home)),
{
    match xdg_config_home {
        Some(xdg) => {
            if has_text(xdg) {
                return Some(xdg.to_owned());
            }
        },
        None => {},
    }
    match home {
        Some(h) => {
            if has_text(h) {
                return Some(join(h, ".config"));
            }
        },
        None => {},
    }
    None
}

/// The directory that relative paths of a configuration resolve against.
///
/// A relative path of a configuration means "next to the configuration file".
/// It is resolved where a file is opened; the configuration keeps paths as they
/// are written.
#[derive(Debug, Clone, PartialEq, Eq)]
pub struct ConfigBase(Option<String>);

/// A path that was resolved: the given one, or one below the base.
#[derive(Debug, Clone, PartialEq, Eq)]
pub enum ResolvedPath<'a> {
    /// The path as it was given.
    Borrowed(&'a str),
    /// The path below the base.
    Owned(String),
}

impl<'a> View for ResolvedPath<'a> {
    type V = Seq<char>;

    open spec fn view(&self) -> Seq<char> {
        match self {
            ResolvedPath::Borrowed(p) => p@,
            ResolvedPath::Owned(p) => p@,
        }
    }
}

impl<'a> ResolvedPath<'a> {
    /// The path.
    #[must_use]
    pub fn as_str(&self) -> (r: &str)
        ensures
            r@ == self@,
    {
        match self {
            ResolvedPath::Borrowed(p) => p,
            ResolvedPath::Owned(p) => p.as_str(),
        }
    }
}

impl View for ConfigBase {
    type V = Option<Seq<char>>;

    closed spec fn view(&self) -> Option<Seq<char>> {
        string_chars(self.0)
    }
}

/// What a path resolves to against a base.
pub open spec fn resolved(base: Option<Seq<char>>, path: Seq<char>) -> Seq<char> {
    match base {
        Some(dir) => joined(dir, path),
        None => path,
    }
}

impl Default for ConfigBase {
    fn default() -> (r: Self)
        ensures
            r@ is None,
    {
        ConfigBase(None)
    }
}

impl ConfigBase {
    /// The base for the configuration file at `config_path`: its directory,
    /// made absolute against the current directory.  Without a file, relative
    /// paths stay relative.
    #[must_use]
    pub fn for_config(config_path: Option<&str>) -> (r: Self)
        ensures
            config_path is None ==> r@ is None,
            config_path matches Some(p) ==> exists|a: Option<Seq<char>>| #[trigger]
                made_absolute(p@, a) && r@ == base_beside(a) && (tidy(p@) && a is Some
                    ==> exists|dir: Seq<char>| #[trigger]
                    below(dir, p@, a->0) && based(dir, p@, r@)),
            config_path matches Some(p) ==> plain(p@) ==> r@ == Some(directory(p@)),
            rooted(r@),
    {
        match config_path {
            Some(path) => {
                let file = absolute_of(path);
                let ghost a = string_chars(file);
                assert(call_ensures(absolute_of, (path,), file));
                assert(made_absolute(path@, a));
                let r = ConfigBase::beside(file);
                proof {
                    if tidy(path@) && a is Some {
                        let dir = choose|dir: Seq<char>| #[trigger] below(dir, path@, a->0);
                        lemma_joined_ends_in_name(dir, path@);
                        if clean(dir) {
                            lemma_joined_is_plain(dir, path@);
                        }
                        assert(below(dir, path@, a->0) && based(dir, path@, r@));
                    }
                }
                r
            },
            None => ConfigBase(None),
        }
    }

    /// The base for the configuration file at an absolute path, where there is
    /// one: the parent of the path.
    #[must_use]
    pub fn beside(file: Option<String>) -> (r: Self)
        ensures
            r@ == base_beside(string_chars(file)),
            file matches Some(p) ==> ends_in_name(p@) ==> r@ is Some,
            file matches Some(p) ==> plain(p@) ==> r@ == Some(directory(p@)),
            file matches Some(p) ==> absolute(p@) ==> rooted(r@),
    {
        match file {
            Some(path) => ConfigBase(parent_of(path.as_str())),
            None => ConfigBase(None),
        }
    }

    /// Resolve a path: an absolute one stays as it is, a relative one goes
    /// below the base.
    #[must_use]
    pub fn resolve<'a>(&self, path: &'a str) -> (r: ResolvedPath<'a>)
        ensures
            r@ == resolved(self@, path@),
            r is Borrowed <==> self@ is None || absolute(path@),
    {
        match &self.0 {
            Some(dir) => {
                if is_absolute(path) {
                    ResolvedPath::Borrowed(path)
                } else {
                    ResolvedPath::Owned(join(dir.as_str(), path))
                }
            },
            None => ResolvedPath::Borrowed(path),
        }
    }
}

/// The last separator of a text is not beyond a tail without one.
proof fn lemma_last_of_tail(path: Seq<char>, c: char, cut: int, end: int)
    requires
        0 <= cut <= end <= path.len(),
        forall|i: int| cut <= i < end ==> #[trigger] path[i] != c,
    ensures
        last_of(path, c, end) == last_of(path, c, cut),
    decreases end - cut,
{
    if cut < end {
        lemma_last_of_tail(path, c, cut, end - 1);
    }
}

/// Where the last `c` of a text is, where it is known to be.
proof fn lemma_last_of_at(path: Seq<char>, c: char, at: int, end: int)
    requires
        0 <= at < end <= path.len(),
        path[at] == c,
        forall|i: int| at < i < end ==> #[trigger] path[i] != c,
    ensures
        last_of(path, c, end) == at,
{
    lemma_last_of_tail(path, c, at + 1, end);
}

/// The last `c` of a text is one, and none follows it.
proof fn lemma_last_of(path: Seq<char>, c: char, end: int)
    requires
        0 <= end <= path.len(),
    ensures
        -1 <= last_of(path, c, end) < end,
        last_of(path, c, end) >= 0 ==> path[last_of(path, c, end)] == c,
        forall|i: int| last_of(path, c, end) < i < end ==> #[trigger] path[i] != c,
    decreases end,
{
    if end > 0 && path[end - 1] != c {
        lemma_last_of(path, c, end - 1);
    }
}

/// A tidy path below an absolute directory ends in a name: its last component.
proof fn lemma_joined_ends_in_name(dir: Seq<char>, path: Seq<char>)
    requires
        absolute(dir),
        tidy(path),
    ensures
        ends_in_name(joined(dir, path)),
        last_of(joined(dir, path), '/', joined(dir, path).len() as int) == joined(dir, path).len()
            - path.len() + last_of(path, '/', path.len() as int),
{
    let file = joined(dir, path);
    let cut = file.len() - path.len();
    let slash = last_of(path, '/', path.len() as int);
    lemma_last_of(path, '/', path.len() as int);
    assert(file[cut - 1] == '/');
    assert(file.skip(cut) =~= path);
    assert forall|i: int| cut + slash < i < file.len() implies #[trigger] file[i] != '/' by {
        assert(file[i] == path[i - cut]);
    }
    assert(file[cut + slash] == '/') by {
        if slash >= 0 {
            assert(file[cut + slash] == path[slash]);
        }
    }
    lemma_last_of_at(file, '/', cut + slash, file.len() as int);
    let name = path.skip(slash + 1);
    assert(file.skip(cut + slash + 1) =~= name);
    assert forall|i: int| 0 <= i < name.len() implies #[trigger] name[i] != '/' by {
        assert(name[i] == path[slash + 1 + i]);
    }
    if name == seq!['.'] {
        assert(name[0] == '.' && name.len() == 1);
        assert(path[slash + 1] == '.');
    }
}

/// A tidy path below a clean directory is plain.
proof fn lemma_joined_is_plain(dir: Seq<char>, path: Seq<char>)
    requires
        clean(dir),
        tidy(path),
    ensures
        plain(joined(dir, path)),
{
    let file = joined(dir, path);
    let cut = file.len() - path.len();
    assert(forall|i: int| cut <= i < file.len() ==> #[trigger] file[i] == path[i - cut]);
    assert(forall|i: int| 0 <= i < dir.len() ==> #[trigger] file[i] == dir[i]);
    assert(file[cut - 1] == '/');
    assert forall|i: int| 0 < i < file.len() && #[trigger] file[i] == '/' implies file[i - 1]
        != '/' by {
        if i > cut {
            assert(path[i - cut] == '/');
        } else if i < dir.len() {
            assert(dir[i] == '/');
        }
    }
    assert forall|i: int|
        0 < i < file.len() && #[trigger] file[i] == '.' && file[i - 1] == '/' implies i + 1
        < file.len() && file[i + 1] != '/' by {
        if i >= cut {
            assert(path[i - cut] == '.');
        } else {
            assert(dir[i] == '.');
        }
    }
}

/// The base for a configuration file that is given by a relative path lies at or
/// below the directory that the path was resolved against: the directory itself
/// for a single name.  A relative path below the base is absolute and ends in the
/// path.
pub proof fn law_base_of_relative_file(
    dir: Seq<char>,
    file: Seq<char>,
    base: Option<Seq<char>>,
    path: Seq<char>,
)
    requires
        clean(dir),
        tidy(file),
        based(dir, file, base),
        !absolute(path),
    ensures
        base matches Some(b) && {
            &&& dir.is_prefix_of(b)
            &&& bare(file) ==> b == dir
            &&& absolute(resolved(base, path))
            &&& resolved(base, path).skip(resolved(base, path).len() - path.len()) == path
        },
{
    lemma_joined_ends_in_name(dir, file);
    lemma_last_of(file, '/', file.len() as int);
    let whole = joined(dir, file);
    let b = directory(whole);
    let slash = last_of(file, '/', file.len() as int);
    if bare(file) {
        assert(slash == -1) by {
            if slash >= 0 {
                assert(file[slash] != '/');
            }
        }
        assert(b =~= dir);
    }
    assert(dir =~= b.take(dir.len() as int));
    let r = resolved(base, path);
    assert(r.skip(r.len() - path.len()) =~= path);
}

/// The base for a configuration file that is given by a plain path is the
/// directory of the path, wherever the program runs.
pub proof fn law_base_of_named_file(dir: Seq<char>, name: Seq<char>)
    requires
        clean(dir),
        bare(name),
    ensures
        directory(joined(dir, name)) == dir,
{
    assert(tidy(name)) by {
        assert(name[0] != '/');
        assert forall|i: int|
            0 <= i < name.len() && #[trigger] name[i] == '.' && (i == 0 || name[i - 1]
                == '/') implies i + 1 < name.len() && name[i + 1] != '/' by {
            if i > 0 {
                assert(name[i - 1] != '/');
            }
            if name.len() == 1 {
                assert(name =~= seq!['.']);
            }
        }
    }
    law_base_of_relative_file(dir, name, Some(directory(joined(dir, name))), Seq::empty());
}

/// Resolving leaves an absolute path alone, whatever the base.
pub proof fn law_absolute_paths_stay(base: Option<Seq<char>>, path: Seq<char>)
    requires
        absolute(path),
    ensures
        resolved(base, path) == path,
{
}

/// Against an absolute base every path resolves to an absolute one, and
/// resolving it again changes nothing.
pub proof fn law_resolved_is_absolute(base: Option<Seq<char>>, path: Seq<char>)
    requires
        base matches Some(dir) && absolute(dir),
    ensures
        absolute(resolved(base, path)),
        resolved(base, resolved(base, path)) == resolved(base, path),
{
}

/// A path below a base: an absolute one stands for itself, a relative one follows the
/// base with exactly one separator between where the base does not end in one.
pub proof fn law_join(base: &str, path: &str, r: String)
    requires
        call_ensures(join, (base, path), r),
    ensures
        path@.len() > 0 && path@[0] == '/' ==> r@ == path@,
        (path@.len() == 0 || path@[0] != '/') && base@.len() > 0 && base@.last() != '/' ==> r@.len()
            == base@.len() + 1 + path@.len() && r@.take(base@.len() as int) == base@
            && r@[base@.len() as int] == '/' && r@.skip(base@.len() as int + 1) == path@,
        (path@.len() == 0 || path@[0] != '/') && base@.len() > 0 && base@.last() == '/' ==> r@
            == base@ + path@,
{
    let k = base@.len() as int;
    if (path@.len() == 0 || path@[0] != '/') && base@.len() > 0 && base@.last() != '/' {
        assert(r@.take(k) =~= base@);
        assert(r@.skip(k + 1) =~= path@);
    }
}

/// The configuration home is the one that is named, else the one of the home directory,
/// else none; an empty value counts as none.
pub proof fn law_config_home(xdg: Option<&str>, home: Option<&str>, r: Option<String>)
    requires
        call_ensures(resolve_config_home, (xdg, home), r),
    ensures
        xdg is Some && xdg->0@.len() > 0 ==> (r matches Some(p) && p@ == xdg->0@),
        xdg is None || xdg->0@.len() == 0 ==> (r is Some <==> home is Some && home->0@.len() > 0),
        (xdg is None || xdg->0@.len() == 0) && home is Some && home->0@.len() > 0 && home->0@.last()
            != '/' ==> (r matches Some(p) && p@ == home->0@ + "/"@ + ".config"@),
{
    reveal_strlit("/");
    reveal_strlit(".config");
    if home is Some {
        assert(home->0@ + "/"@ =~= home->0@.push('/'));
    }
}

/// A path is resolved below the base where it is relative and there is one, and stays
/// otherwise.
pub proof fn law_resolve<'a>(base: &ConfigBase, path: &'a str, r: ResolvedPath<'a>, below: String, dir: &str)
    requires
        call_ensures(ConfigBase::resolve, (base, path), r),
        call_ensures(join, (dir, path), below),
        base@ matches Some(d) ==> d == dir@,
    ensures
        base@ is None ==> r@ == path@,
        path@.len() > 0 && path@[0] == '/' ==> r@ == path@,
        base@ is Some ==> r@ == below@,
{
}

} // verus!
