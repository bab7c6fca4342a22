//! Oracle paths: `/`-separated names such as `/s/EPL/match`.
//!
//! A path is modelled by its characters.  `Path` owns them, `PathRef`
//! borrows them.  The functions below are specified over `Seq<char>` by
//! the spec functions of this module.
use vstd::prelude::*;
use vstd::string::*;
use crate::time::{chrono_date_time_text, date_time_char, format_date_time, Timestamp};
use crate::text::{
    chars_eq, chars_of, find, find_char, lemma_find_some, lemma_rfind_some, push_chars, push_str,
    rfind, rfind_char, split, split_chars, starts_with, string_from, string_of, sub_chars,
};

verus! {

/// The root path, `/`.
pub open spec fn root_chars() -> Seq<char> {
    seq!['/']
}

/// What `Path::from_str` accepts: a leading `/` and no trailing `/` (but for the root).
pub open spec fn valid_path(s: Seq<char>) -> bool {
    &&& s.len() > 0
    &&& s[0] == '/'
    &&& !(s.last() == '/' && s != root_chars())
}

/// The parent of a path: everything before its last `/` (the root for a top-level path).
pub open spec fn spec_parent(s: Seq<char>) -> Option<Seq<char>> {
    if s == root_chars() {
        None
    } else {
        match rfind(s, '/') {
            Some(at) => if at == 0 {
                Some(root_chars())
            } else {
                Some(s.take(at))
            },
            None => None,
        }
    }
}

/// `a` is `b` or one of the paths that `parent` reaches from `b`.
pub open spec fn spec_is_parent_of(a: Seq<char>, b: Seq<char>) -> bool
    decreases b.len(),
{
    if b == a {
        true
    } else {
        match spec_parent(b) {
            Some(p) => p.len() < b.len() && spec_is_parent_of(a, p),
            None => false,
        }
    }
}

/// The names of a path: the pieces between its `/`s, after the first.
pub open spec fn spec_segments(s: Seq<char>) -> Seq<Seq<char>> {
    split(s, '/').drop_first()
}

/// The part after the last `/` (the whole string when there is none).
pub open spec fn spec_last(s: Seq<char>) -> Seq<char> {
    match rfind(s, '/') {
        Some(at) => s.skip(at + 1),
        None => s,
    }
}

/// Splits `path.kind` at the first `.` of the last segment.
pub open spec fn spec_strip_event(s: Seq<char>) -> Option<(Seq<char>, Seq<char>)> {
    match rfind(s, '/') {
        Some(slash) => {
            let last = s.skip(slash + 1);
            match find(last, '.') {
                Some(dot) => Some((s.take(slash + 1 + dot), last.skip(dot + 1))),
                None => match find(last, '?') {
                    Some(q) => Some((s.take(slash + 1 + q), last.skip(q + 1))),
                    None => None,
                },
            }
        },
        None => None,
    }
}

/// `path` placed in front of `s`; the root is neutral on either side.
pub open spec fn spec_prefix_path(s: Seq<char>, path: Seq<char>) -> Seq<char> {
    if s == root_chars() {
        path
    } else if path == root_chars() {
        s
    } else {
        path + s
    }
}

/// `s` with the leading `path` removed, when it begins with it.
pub open spec fn spec_strip_prefix_path(s: Seq<char>, path: Seq<char>) -> Seq<char> {
    if path == root_chars() {
        s
    } else if starts_with(s, path) {
        s.skip(path.len() as int)
    } else {
        s
    }
}

#[derive(Debug, Clone)]
pub enum PathError {
    BadFormat,
}

impl PathError {
    /// The message that the error displays.
    pub fn to_message(&self) -> (s: String)
        ensures
            s@ == "badly formatted event path"@,
    {
        string_of("badly formatted event path")
    }
}

/// A borrowed path.
#[derive(Clone, Copy, Debug)]
pub struct PathRef<'a>(&'a str);

impl<'a> View for PathRef<'a> {
    type V = Seq<char>;

    closed spec fn view(&self) -> Seq<char> {
        self.0@
    }
}

/// An owned path.
#[derive(Clone, Debug, PartialEq, Hash, Eq, PartialOrd, Ord)]
pub struct Path(pub(crate) String);

impl View for Path {
    type V = Seq<char>;

    closed spec fn view(&self) -> Seq<char> {
        self.0@
    }
}

/// A value with a path in it that can be moved under, or out from under, another path.
pub trait PrefixPath: Sized {
    fn prefix_path(self, path: PathRef<'_>) -> Self;

    fn strip_prefix_path(self, path: PathRef<'_>) -> Self;
}

/// Whether the characters are exactly `/`.
fn is_root_chars(v: &[char]) -> (r: bool)
    ensures
        r == (v@ == root_chars()),
{
    let r = v.len() == 1 && v[0] == '/';
    proof {
        if v@.len() == 1 && v@[0] == '/' {
            assert(v@ =~= root_chars());
        }
    }
    r
}

impl<'a> PathRef<'a> {
    /// Takes `string` as a path without checking it.
    pub fn from_str_unchecked(string: &'a str) -> (p: Self)
        ensures
            p@ == string@,
    {
        PathRef(string)
    }

    pub fn root() -> (p: Self)
        ensures
            p@ == root_chars(),
    {
        let p = PathRef("/");
        proof {
            reveal_strlit("/");
            assert(p@ =~= root_chars());
        }
        p
    }

    pub fn as_str(self) -> (s: &'a str)
        ensures
            s@ == self@,
    {
        self.0
    }

    pub fn is_root(self) -> (r: bool)
        ensures
            r == (self@ == root_chars()),
    {
        let v = chars_of(self.0);
        is_root_chars(v.as_slice())
    }

    /// Everything before the last `/`.
    pub fn parent(self) -> (r: Option<PathRef<'a>>)
        ensures
            match r {
                Some(p) => spec_parent(self@) == Some(p@),
                None => spec_parent(self@) is None,
            },
    {
        let v = chars_of(self.0);
        if is_root_chars(v.as_slice()) {
            return None;
        }
        match rfind_char(v.as_slice(), '/') {
            Some(at) => {
                proof {
                    lemma_rfind_some(v@, '/');
                }
                if at == 0 {
                    Some(PathRef::root())
                } else {
                    Some(PathRef(self.0.substring_char(0, at)))
                }
            },
            None => None,
        }
    }

    /// Whether `self` is `path` or one of its ancestors.
    pub fn is_parent_of(self, path: PathRef<'_>) -> (r: bool)
        ensures
            r == spec_is_parent_of(self@, path@),
    {
        let me = chars_of(self.0);
        let mut cur = path;
        loop
            invariant
                me@ == self@,
                spec_is_parent_of(self@, path@) == spec_is_parent_of(self@, cur@),
            decreases cur@.len(),
        {
            let cv = chars_of(cur.0);
            if chars_eq(cv.as_slice(), me.as_slice()) {
                return true;
            }
            match cur.parent() {
                Some(p) => {
                    proof {
                        lemma_parent_shorter(cur@);
                    }
                    cur = p;
                },
                None => {
                    return false;
                },
            }
        }
    }

    /// The names between the `/`s of the path.
    pub fn segments(self) -> (r: Vec<String>)
        ensures
            r@.len() == spec_segments(self@).len(),
            forall|k: int| 0 <= k < r@.len() ==> #[trigger] r@[k]@ == spec_segments(self@)[k],
    {
        let v = chars_of(self.0);
        let pieces = split_chars(v.as_slice(), '/');
        let mut r: Vec<String> = Vec::new();
        let mut k: usize = 1;
        while k < pieces.len()
            invariant
                1 <= k,
                pieces@.len() == split(self@, '/').len(),
                forall|j: int| 0 <= j < pieces@.len() ==> #[trigger] pieces@[j]@ == split(self@, '/')[j],
                k <= pieces@.len() || pieces@.len() == 0,
                r@.len() == k - 1,
                forall|j: int| 0 <= j < r@.len() ==> #[trigger] r@[j]@ == split(self@, '/')[j + 1],
            decreases pieces@.len() - k,
        {
            r.push(string_from(pieces[k].as_slice()));
            k = k + 1;
        }
        proof {
            lemma_split_nonempty(self@, '/');
        }
        r
    }

    /// The first segment.
    pub fn first(self) -> (r: Option<String>)
        ensures
            match r {
                Some(s) => spec_segments(self@).len() > 0 && s@ == spec_segments(self@)[0],
                None => spec_segments(self@).len() == 0,
            },
    {
        let mut segs = self.segments();
        if segs.len() > 0 {
            Some(segs.swap_remove(0))
        } else {
            None
        }
    }

    /// Splits an event id into its path and its kind, at the first `.` of the last segment.
    pub fn strip_event(self) -> (r: Option<(PathRef<'a>, &'a str)>)
        ensures
            match r {
                Some((p, k)) => spec_strip_event(self@) == Some((p@, k@)),
                None => spec_strip_event(self@) is None,
            },
    {
        let v = chars_of(self.0);
        match rfind_char(v.as_slice(), '/') {
            Some(slash) => {
                proof {
                    lemma_rfind_some(v@, '/');
                }
                let last = self.0.substring_char(slash + 1, v.len());
                let lv = chars_of(last);
                match find_char(lv.as_slice(), '.') {
                    Some(dot) => {
                        proof {
                            lemma_find_some(lv@, '.');
                        }
                        let path = self.0.substring_char(0, slash + 1 + dot);
                        let kind = last.substring_char(dot + 1, lv.len());
                        assert(path@ == self@.take(slash + 1 + dot));
                        assert(last@ == self@.skip(slash + 1));
                        Some((PathRef(path), kind))
                    },
                    None => match find_char(lv.as_slice(), '?') {
                        Some(q) => {
                            proof {
                                lemma_find_some(lv@, '?');
                            }
                            let path = self.0.substring_char(0, slash + 1 + q);
                            let kind = last.substring_char(q + 1, lv.len());
                            assert(path@ == self@.take(slash + 1 + q));
                            assert(last@ == self@.skip(slash + 1));
                            Some((PathRef(path), kind))
                        },
                        None => None,
                    },
                }
            },
            None => None,
        }
    }

    /// The part after the last `/`.
    pub fn last(self) -> (r: &'a str)
        ensures
            r@ == spec_last(self@),
    {
        let v = chars_of(self.0);
        match rfind_char(v.as_slice(), '/') {
            Some(at) => {
                proof {
                    lemma_rfind_some(v@, '/');
                }
                assert(at < v.len());
                self.0.substring_char(at + 1, v.len())
            },
            None => {
                assert(self.0@.subrange(0, self.0@.len() as int) == self.0@);
                self.0.substring_char(0, v.len())
            },
        }
    }

    pub fn to_path(self) -> (p: Path)
        ensures
            p@ == self@,
    {
        Path(string_of(self.0))
    }
}

/// `split` yields at least one piece.
pub proof fn lemma_split_nonempty(s: Seq<char>, c: char)
    ensures
        split(s, c).len() >= 1,
    decreases s.len(),
{
    lemma_find_some(s, c);
}

/// A parent is strictly shorter than its child.
pub proof fn lemma_parent_shorter(s: Seq<char>)
    ensures
        spec_parent(s) matches Some(p) ==> p.len() < s.len(),
{
    lemma_rfind_some(s, '/');
    if spec_parent(s) is Some {
        if rfind(s, '/') == Some(0int) {
            if s.len() == 1 {
                assert(s =~= root_chars());
            }
        }
    }
}

/// A path that starts with `/` has a parent that starts with `/`, unless it is the root.
proof fn lemma_parent_of_slash_path(b: Seq<char>)
    requires
        b.len() > 0,
        b[0] == '/',
        b != root_chars(),
    ensures
        spec_parent(b) matches Some(q) ==> q.len() > 0 && q[0] == '/',
        spec_parent(b) is Some,
{
    lemma_rfind_some(b, '/');
    if rfind(b, '/') is None {
        assert(b[0] == '/');
    }
}

/// Ancestry between paths, stated directly: `a` is an ancestor of `b` (or `b` itself)
/// exactly when it is `b`, the root, or a prefix of `b` that a `/` follows in `b`.
pub proof fn lemma_is_parent_of_iff(a: Seq<char>, b: Seq<char>)
    requires
        a.len() > 0,
        b.len() > 0,
        b[0] == '/',
    ensures
        spec_is_parent_of(a, b) <==> (a == b || a == root_chars() || (b.len() > a.len() && b.take(
            a.len() as int,
        ) == a && b[a.len() as int] == '/')),
    decreases b.len(),
{
    if b == a {
    } else if b == root_chars() {
        assert(spec_parent(b) is None);
    } else {
        lemma_parent_of_slash_path(b);
        lemma_parent_shorter(b);
        lemma_rfind_some(b, '/');
        let at = rfind(b, '/')->0;
        let q = spec_parent(b)->0;
        lemma_is_parent_of_iff(a, q);
        if at == 0 {
            assert(q == root_chars());
            if b.len() > a.len() && b.take(a.len() as int) == a && b[a.len() as int] == '/' {
                assert(a.len() as int > 0);
            }
        } else {
            assert(q == b.take(at));
            if a == q {
            } else if q.len() > a.len() && q.take(a.len() as int) == a && q[a.len() as int] == '/' {
                assert(b.take(a.len() as int) =~= q.take(a.len() as int));
                assert(b[a.len() as int] == q[a.len() as int]);
            }
            if a != root_chars() && b.len() > a.len() && b.take(a.len() as int) == a && b[a.len() as int]
                == '/' {
                assert(a.len() <= at);
                if a.len() == at {
                    assert(a =~= q);
                } else {
                    assert(q.take(a.len() as int) =~= b.take(a.len() as int));
                    assert(q[a.len() as int] == b[a.len() as int]);
                }
            }
        }
    }
}

/// Every path is one of its own ancestors, and the root is an ancestor of every path.
pub proof fn lemma_is_parent_of_refl_root(b: Seq<char>)
    requires
        b.len() > 0,
        b[0] == '/',
    ensures
        spec_is_parent_of(b, b),
        spec_is_parent_of(root_chars(), b),
{
    lemma_is_parent_of_iff(root_chars(), b);
}

/// Ancestry is transitive.
pub proof fn lemma_is_parent_of_transitive(a: Seq<char>, b: Seq<char>, c: Seq<char>)
    requires
        a.len() > 0,
        b.len() > 0,
        b[0] == '/',
        c.len() > 0,
        c[0] == '/',
        spec_is_parent_of(a, b),
        spec_is_parent_of(b, c),
    ensures
        spec_is_parent_of(a, c),
{
    lemma_is_parent_of_iff(a, b);
    lemma_is_parent_of_iff(b, c);
    lemma_is_parent_of_iff(a, c);
    if a != b && a != root_chars() && b != c && b != root_chars() {
        assert(c.take(a.len() as int) =~= b.take(a.len() as int));
        assert(c[a.len() as int] == b[a.len() as int]);
    }
}

/// Moving a path under another and then out again gives it back (the root aside,
/// which comes out empty).
pub proof fn lemma_prefix_then_strip(s: Seq<char>, p: Seq<char>)
    requires
        s != root_chars(),
    ensures
        spec_strip_prefix_path(spec_prefix_path(s, p), p) == s,
{
    if p != root_chars() {
        assert((p + s).take(p.len() as int) =~= p);
        assert((p + s).skip(p.len() as int) =~= s);
    }
}

/// Taking a valid path out from under one of its proper ancestors and putting it back
/// gives it back.
pub proof fn lemma_strip_then_prefix(s: Seq<char>, p: Seq<char>)
    requires
        valid_path(s),
        valid_path(p),
        spec_is_parent_of(p, s),
    ensures
        spec_prefix_path(spec_strip_prefix_path(s, p), p) == s,
{
    lemma_is_parent_of_iff(p, s);
    if p == root_chars() {
    } else if s == p {
        assert(s.take(p.len() as int) =~= s);
        assert(s.skip(p.len() as int) =~= Seq::<char>::empty());
        assert(p + Seq::<char>::empty() =~= p);
    } else {
        let rest = s.skip(p.len() as int);
        assert(rest[0] == '/');
        assert(p + rest =~= s);
        if rest == root_chars() {
            assert(s.last() == rest.last());
            assert(s != root_chars());
        }
    }
}

impl Path {
    /// Takes a string as a path without checking it.
    pub(crate) fn from_string_unchecked(s: String) -> (p: Path)
        ensures
            p@ == s@,
    {
        Path(s)
    }

    pub fn as_str(&self) -> (s: &str)
        ensures
            s@ == self@,
    {
        self.0.as_str()
    }

    /// A copy of the path.
    pub fn duplicate(&self) -> (p: Path)
        ensures
            p == *self,
    {
        Path(self.0.clone())
    }

    pub fn as_path_ref(&self) -> (p: PathRef<'_>)
        ensures
            p@ == self@,
    {
        PathRef(self.0.as_str())
    }

    pub fn root() -> (p: Self)
        ensures
            p@ == root_chars(),
    {
        PathRef::root().to_path()
    }

    /// Checks the format of a path: a leading `/` and no trailing `/` (but for the root).
    pub fn from_str(string: &str) -> (r: Result<Path, PathError>)
        ensures
            match r {
                Ok(p) => valid_path(string@) && p@ == string@,
                Err(_) => !valid_path(string@),
            },
    {
        let v = chars_of(string);
        if v.len() == 0 || v[0] != '/' {
            return Err(PathError::BadFormat);
        }
        if v[v.len() - 1] == '/' && !is_root_chars(v.as_slice()) {
            return Err(PathError::BadFormat);
        }
        Ok(Path(string_of(string)))
    }

    /// The path `/<date>T<time>` of a timestamp, as chrono writes it with `%FT%T`;
    /// `None` outside the range of chrono's dates.
    pub fn from_dt(dt: Timestamp) -> (r: Option<Path>)
        ensures
            match r {
                Some(p) => chrono_date_time_text(dt.secs, dt.nanos) matches Some(t) && p@ == seq!['/'] + t
                    && valid_path(p@),
                None => chrono_date_time_text(dt.secs, dt.nanos) is None,
            },
    {
        match format_date_time(dt) {
            Some(text) => {
                let mut s = String::new();
                push_chars(&mut s, &['/']);
                push_str(&mut s, text.as_str());
                assert(s@ =~= seq!['/'] + text@);
                proof {
                    assert(date_time_char(text@[text@.len() - 1]));
                }
                Some(Path(s))
            },
            None => None,
        }
    }

    /// The path `/name` under `self`.
    pub fn child(self, name: &str) -> (p: Self)
        ensures
            p@ == spec_prefix_path(seq!['/'] + name@, self@),
    {
        let mut s = String::new();
        push_chars(&mut s, &['/']);
        push_str(&mut s, name);
        assert(s@ =~= seq!['/'] + name@);
        let leaf = Path(s);
        let me = self;
        leaf.prefix_path(me.as_path_ref())
    }
}

impl Default for Path {
    fn default() -> (p: Self)
        ensures
            p@ == root_chars(),
    {
        Path::root()
    }
}

impl PrefixPath for Path {
    fn prefix_path(self, path: PathRef<'_>) -> (r: Self)
        ensures
            r@ == spec_prefix_path(self@, path@),
    {
        let mine = chars_of(self.0.as_str());
        if is_root_chars(mine.as_slice()) {
            path.to_path()
        } else if path.is_root() {
            self
        } else {
            let mut s = string_of(path.as_str());
            push_chars(&mut s, mine.as_slice());
            Path(s)
        }
    }

    fn strip_prefix_path(self, path: PathRef<'_>) -> (r: Self)
        ensures
            r@ == spec_strip_prefix_path(self@, path@),
    {
        if path.is_root() {
            return self;
        }
        let mine = chars_of(self.0.as_str());
        let pre = chars_of(path.as_str());
        if pre.len() <= mine.len() {
            let head = sub_chars(mine.as_slice(), 0, pre.len());
            if chars_eq(head.as_slice(), pre.as_slice()) {
                let tail = sub_chars(mine.as_slice(), pre.len(), mine.len());
                assert(tail@ == self@.skip(path@.len() as int));
                return Path(string_from(tail.as_slice()));
            }
        }
        self
    }
}

} // verus!
