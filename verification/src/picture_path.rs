//! The files that pictures of windows go to.

use crate::text;
use vstd::prelude::*;

verus! {

/// The front of a path that is no component of it: a drive or a server.
#[derive(Clone, Copy, Debug, PartialEq, Eq, Structural)]
pub struct PathPrefix {
    /// How many characters it takes.
    pub len: usize,
    /// A drive by its letter, behind which a name may stand without a separator.
    pub drive: bool,
}

/// A path without separators and `.` components at its end; a root stays a root.
pub open spec fn without_tail(p: Seq<char>, seps: Seq<char>) -> Seq<char>
    decreases p.len(),
{
    if p.len() >= 2 && (seps.contains(p.last()) || (p.last() == '.' && seps.contains(
        p[p.len() - 2],
    ))) {
        without_tail(p.drop_last(), seps)
    } else {
        p
    }
}

/// Where the last component of a path starts.
pub open spec fn name_start(p: Seq<char>, seps: Seq<char>) -> int
    decreases p.len(),
{
    if p.len() == 0 || seps.contains(p.last()) {
        p.len() as int
    } else {
        name_start(p.drop_last(), seps)
    }
}

/// The file name of a path, where it has one: the last component, unless that is `.` or `..`.
pub open spec fn file_name(p: Seq<char>, seps: Seq<char>) -> Option<Seq<char>> {
    let t = without_tail(p, seps);
    let name = t.skip(name_start(t, seps));
    if name.len() == 0 || name == seq!['.'] || name == seq!['.', '.'] {
        None
    } else {
        Some(name)
    }
}

/// The last dot of a name, or its length where there is none.
pub open spec fn last_dot(name: Seq<char>, n: int) -> int
    decreases n,
{
    if n <= 0 {
        name.len() as int
    } else if name[n - 1] == '.' {
        n - 1
    } else {
        last_dot(name, n - 1)
    }
}

/// A name without its extension. A dot at the front starts no extension.
pub open spec fn stem(name: Seq<char>) -> Seq<char> {
    let d = last_dot(name, name.len() as int);
    if d == 0 { name } else { name.take(d) }
}

/// The extension of a name.
pub open spec fn extension(name: Seq<char>) -> Option<Seq<char>> {
    let d = last_dot(name, name.len() as int);
    if d == 0 || d == name.len() { None } else { Some(name.skip(d + 1)) }
}

/// The directory that a path's file is in.
pub open spec fn parent(p: Seq<char>, seps: Seq<char>) -> Seq<char> {
    let t = without_tail(p, seps);
    without_tail(t.take(name_start(t, seps)), seps)
}

/// A file in a directory, with the first separator between them where one is needed. `bare` says
/// that the name may stand without a separator where there is no directory.
pub open spec fn joined(dir: Seq<char>, name: Seq<char>, seps: Seq<char>, bare: bool) -> Seq<char> {
    if (dir.len() == 0 && bare) || (dir.len() > 0 && seps.contains(dir.last())) {
        dir + name
    } else {
        dir.push(seps[0]) + name
    }
}

/// A path with another file name. A path without a file name is a directory.
pub open spec fn with_file_name(p: Seq<char>, name: Seq<char>, seps: Seq<char>, bare: bool) -> Seq<
    char,
> {
    joined(if file_name(p, seps) is Some { parent(p, seps) } else { p }, name, seps, bare)
}

/// The number of characters in front of the components.
pub open spec fn front_len(prefix: Option<PathPrefix>) -> int {
    match prefix {
        Some(f) => f.len as int,
        None => 0,
    }
}

/// The file that the picture of a child window goes to.
pub open spec fn child_path(
    base: Seq<char>,
    idx: int,
    seps: Seq<char>,
    prefix: Option<PathPrefix>,
) -> Seq<char> {
    let front = front_len(prefix);
    let rest = base.skip(front);
    base.take(front) + with_file_name(
        rest,
        child_name(file_name(rest, seps), idx),
        seps,
        prefix matches Some(f) ==> f.drive,
    )
}

/// The extension that a child's picture has: that of the main one, or `png`.
pub open spec fn child_extension(name: Seq<char>) -> Seq<char> {
    match extension(name) {
        Some(e) => e,
        None => "png"@,
    }
}

/// The file name of a child window's picture.
pub open spec fn child_name(name: Option<Seq<char>>, idx: int) -> Seq<char> {
    let s = match name {
        Some(n) => stem(n),
        None => "screenshot"@,
    };
    let e = match name {
        Some(n) => child_extension(n),
        None => "png"@,
    };
    s.push('-') + text::decimal(idx) + seq!['.'] + e
}

fn separates(seps: &[char], c: char) -> (r: bool)
    ensures
        r == seps@.contains(c),
{
    let at: usize = text::find(seps, c, 0);
    at < seps.len()
}

fn tail_cut(p: &[char], len: usize, seps: &[char]) -> (r: usize)
    requires
        len <= p@.len(),
    ensures
        r <= len,
        p@.take(r as int) == without_tail(p@.take(len as int), seps@),
{
    let mut n: usize = len;
    let ghost whole = without_tail(p@.take(len as int), seps@);
    while n >= 2 && (separates(seps, p[n - 1]) || (p[n - 1] == '.' && separates(seps, p[n - 2])))
        invariant
            n <= len <= p@.len(),
            without_tail(p@.take(n as int), seps@) == whole,
        decreases n,
    {
        assert(p@.take(n as int).drop_last() =~= p@.take(n - 1));
        n -= 1;
    }
    n
}

fn start_of_name(p: &[char], len: usize, seps: &[char]) -> (r: usize)
    requires
        len <= p@.len(),
    ensures
        r <= len,
        r == name_start(p@.take(len as int), seps@),
{
    let mut n: usize = len;
    while n > 0 && !separates(seps, p[n - 1])
        invariant
            n <= len <= p@.len(),
            name_start(p@.take(n as int), seps@) == name_start(p@.take(len as int), seps@),
        decreases n,
    {
        assert(p@.take(n as int).drop_last() =~= p@.take(n - 1));
        n -= 1;
    }
    n
}

fn dot_in(name: &[char]) -> (r: usize)
    ensures
        r <= name@.len(),
        r == last_dot(name@, name@.len() as int),
{
    let mut n: usize = name.len();
    while n > 0
        invariant
            n <= name@.len(),
            last_dot(name@, n as int) == last_dot(name@, name@.len() as int),
        decreases n,
    {
        if name[n - 1] == '.' {
            return n - 1;
        }
        n -= 1;
    }
    name.len()
}

/// A path in two: the directory, and the file name where it has one. Without one the path is the
/// directory.
fn split_name(p: &[char], seps: &[char]) -> (r: (Vec<char>, Option<Vec<char>>))
    ensures
        r.0@ == (if file_name(p@, seps@) is Some { parent(p@, seps@) } else { p@ }),
        (match r.1 {
            Some(n) => Some(n@),
            None => None,
        }) == file_name(p@, seps@),
{
    let full: usize = p.len();
    assert(p@.take(full as int) =~= p@);
    let len: usize = tail_cut(p, full, seps);
    let start: usize = start_of_name(p, len, seps);
    let name = text::sub_chars(p, start, len);
    let ghost t = without_tail(p@, seps@);
    assert(name@ =~= t.skip(name_start(t, seps@)));
    let n: usize = name.len();
    let dots = (n == 1 && name[0] == '.') || (n == 2 && name[0] == '.' && name[1] == '.');
    proof {
        if n == 1 && name@[0] == '.' {
            assert(name@ =~= seq!['.']);
        }
        if n == 2 && name@[0] == '.' && name@[1] == '.' {
            assert(name@ =~= seq!['.', '.']);
        }
    }
    if n == 0 || dots {
        return (text::sub_chars(p, 0, full), None);
    }
    let cut: usize = tail_cut(p, start, seps);
    let dir = text::sub_chars(p, 0, cut);
    assert(t.take(start as int) =~= p@.take(start as int));
    assert(dir@ =~= parent(p@, seps@));
    (dir, Some(name))
}

fn join(dir: Vec<char>, name: &[char], seps: &[char], bare: bool) -> (r: Vec<char>)
    requires
        seps@.len() > 0,
    ensures
        r@ == joined(dir@, name@, seps@, bare),
{
    let mut out = dir;
    let m: usize = out.len();
    let close = if m == 0 { bare } else { separates(seps, out[m - 1]) };
    if !close {
        out.push(seps[0]);
    }
    text::push_all(&mut out, name);
    out
}

/// The file that the picture of a child window goes to: beside the main window's, with the child's
/// number behind the name and before the extension. `separators` are the characters that separate
/// components here, the one that is written first; `prefix` is the drive or server that the path
/// begins with.
pub fn child_screenshot_path(
    base: &str,
    idx: usize,
    separators: &[char],
    prefix: Option<PathPrefix>,
) -> (r: String)
    requires
        separators@.len() > 0,
        prefix matches Some(f) ==> f.len <= base@.len(),
    ensures
        r@ == child_path(base@, idx as int, separators@, prefix),
{
    let all = text::chars_of(base);
    let front: usize = match &prefix {
        Some(f) => f.len,
        None => 0,
    };
    let bare = match &prefix {
        Some(f) => f.drive,
        None => true,
    };
    let rest = text::sub_chars(all.as_slice(), front, all.len());
    assert(rest@ =~= base@.skip(front as int));
    let mut out = text::sub_chars(all.as_slice(), 0, front);
    assert(out@ =~= base@.take(front as int));
    let (dir, name) = split_name(rest.as_slice(), separators);
    let child = child_chars(name.as_ref(), idx);
    let changed = join(dir, child.as_slice(), separators, bare);
    text::push_all(&mut out, changed.as_slice());
    text::string_of(out.as_slice())
}

fn child_chars(name: Option<&Vec<char>>, idx: usize) -> (r: Vec<char>)
    ensures
        r@ == child_name(
            match name {
                Some(n) => Some(n@),
                None => None,
            },
            idx as int,
        ),
{
    let mut out: Vec<char> = Vec::new();
    let ext: Vec<char>;
    match name {
        Some(n) => {
            let d: usize = dot_in(n.as_slice());
            let s = if d == 0 { text::sub_chars(n.as_slice(), 0, n.len()) } else {
                text::sub_chars(n.as_slice(), 0, d)
            };
            assert(s@ =~= stem(n@));
            text::push_all(&mut out, s.as_slice());
            if d == 0 || d == n.len() {
                ext = text::chars_of("png");
            } else {
                ext = text::sub_chars(n.as_slice(), d + 1, n.len());
                assert(ext@ =~= n@.skip(d + 1));
            }
        },
        None => {
            let s = text::chars_of("screenshot");
            text::push_all(&mut out, s.as_slice());
            ext = text::chars_of("png");
        },
    }
    out.push('-');
    let number = text::decimal_of(idx);
    text::push_all(&mut out, number.as_slice());
    out.push('.');
    text::push_all(&mut out, ext.as_slice());
    assert(out@ =~= child_name(
        match name {
            Some(n) => Some(n@),
            None => None,
        },
        idx as int,
    ));
    out
}

/// A cut path stays as it is when it is cut again, and something stays of a path with characters.
proof fn cut_twice(p: Seq<char>, seps: Seq<char>)
    ensures
        without_tail(without_tail(p, seps), seps) == without_tail(p, seps),
        p.len() > 0 ==> without_tail(p, seps).len() > 0,
    decreases p.len(),
{
    if p.len() >= 2 && (seps.contains(p.last()) || (p.last() == '.' && seps.contains(
        p[p.len() - 2],
    ))) {
        cut_twice(p.drop_last(), seps);
    }
}

/// The last component holds no separator, and one stands before it unless it is all.
proof fn name_stands_alone(p: Seq<char>, seps: Seq<char>)
    ensures
        0 <= name_start(p, seps) <= p.len(),
        name_start(p, seps) > 0 ==> seps.contains(p[name_start(p, seps) - 1]),
        forall|i: int| name_start(p, seps) <= i < p.len() ==> !seps.contains(#[trigger] p[i]),
    decreases p.len(),
{
    if p.len() > 0 && !seps.contains(p.last()) {
        let q = p.drop_last();
        name_stands_alone(q, seps);
        assert forall|i: int| name_start(p, seps) <= i < p.len() implies !seps.contains(
            #[trigger] p[i],
        ) by {
            if i < q.len() {
                assert(p[i] == q[i]);
            }
        }
    }
}

/// Behind a separator, or at the front, a name without separators is the last component.
proof fn name_is_found(a: Seq<char>, n: Seq<char>, seps: Seq<char>)
    requires
        a.len() > 0 ==> seps.contains(a.last()),
        forall|i: int| 0 <= i < n.len() ==> !seps.contains(#[trigger] n[i]),
    ensures
        name_start(a + n, seps) == a.len(),
    decreases n.len(),
{
    if n.len() > 0 {
        let m = n.drop_last();
        assert forall|i: int| 0 <= i < m.len() implies !seps.contains(#[trigger] m[i]) by {
            assert(m[i] == n[i]);
        }
        name_is_found(a, m, seps);
        assert((a + n).drop_last() =~= a + m);
        assert((a + n).last() == n[n.len() - 1]);
    } else {
        assert(a + n =~= a);
    }
}

/// Behind the last dot of a name there is no other.
proof fn no_dot_behind(name: Seq<char>, n: int)
    requires
        0 <= n <= name.len(),
        forall|i: int| n <= i < name.len() ==> name[i] != '.',
    ensures
        ({
            let d = last_dot(name, n);
            &&& 0 <= d <= name.len()
            &&& d < name.len() ==> name[d] == '.'
            &&& forall|i: int| d < i < name.len() ==> name[i] != '.'
        }),
    decreases n,
{
    if n > 0 && name[n - 1] != '.' {
        no_dot_behind(name, n - 1);
    }
}

/// A dot with none behind it is the last one.
proof fn last_dot_is(name: Seq<char>, d: int, n: int)
    requires
        0 <= d < n <= name.len(),
        name[d] == '.',
        forall|i: int| d < i < name.len() ==> name[i] != '.',
    ensures
        last_dot(name, n) == d,
    decreases n,
{
    if n - 1 > d {
        last_dot_is(name, d, n - 1);
    }
}

/// The characters that separate components are slashes, one way or the other.
pub open spec fn slashes(seps: Seq<char>) -> bool {
    seps.len() > 0 && forall|i: int|
        0 <= i < seps.len() ==> #[trigger] seps[i] == '/' || seps[i] == '\\'
}

/// What a child's name is made of: longer than the main name, without separators, and with the
/// extension.
proof fn child_name_parts(name: Seq<char>, idx: int, seps: Seq<char>)
    requires
        0 <= idx,
        slashes(seps),
        name.len() > 0,
        forall|i: int| 0 <= i < name.len() ==> !seps.contains(#[trigger] name[i]),
    ensures
        ({
            let n = child_name(Some(name), idx);
            &&& n.len() > name.len() + 1
            &&& forall|i: int| 0 <= i < n.len() ==> !seps.contains(#[trigger] n[i])
            &&& extension(n) == Some(child_extension(name))
        }),
{
    reveal_strlit("png");
    let n = child_name(Some(name), idx);
    let s = stem(name);
    let e = child_extension(name);
    let digits = text::decimal(idx);
    text::decimal_is_digits(idx);
    no_dot_behind(name, name.len() as int);
    let d = last_dot(name, name.len() as int);
    let at: int = (s.len() + 1 + digits.len()) as int;
    assert(n =~= s.push('-') + digits + seq!['.'] + e);
    assert(n.len() == at + 1 + e.len());
    assert forall|i: int| 0 <= i < n.len() implies !seps.contains(#[trigger] n[i]) by {
        if i < s.len() {
            assert(n[i] == name[i]);
        } else if s.len() < i < at {
            assert(n[i] == digits[i - s.len() - 1]);
        } else if i > at {
            assert(n[i] == e[i - at - 1]);
            if extension(name) is Some {
                assert(e[i - at - 1] == name[d + 1 + (i - at - 1)]);
            }
        }
    }
    assert(n[at] == '.');
    assert forall|i: int| at < i < n.len() implies n[i] != '.' by {
        assert(n[i] == e[i - at - 1]);
        if extension(name) is Some {
            assert(e[i - at - 1] == name[d + 1 + (i - at - 1)]);
        }
    }
    last_dot_is(n, at, n.len() as int);
    assert(n.skip(at + 1) =~= e);
}

/// A path with a child's name has that name, and the directory of the path that it was made from.
proof fn child_keeps_the_directory(p: Seq<char>, idx: int, seps: Seq<char>, bare: bool)
    requires
        0 <= idx,
        slashes(seps),
        file_name(p, seps) is Some,
        bare || seps.contains(p[0]),
    ensures
        ({
            let name = file_name(p, seps).unwrap();
            let n = child_name(Some(name), idx);
            let q = with_file_name(p, n, seps, bare);
            &&& file_name(q, seps) == Some(n)
            &&& parent(q, seps) == parent(p, seps)
            &&& extension(n) == Some(child_extension(name))
            &&& n.len() > name.len()
        }),
{
    let t = without_tail(p, seps);
    let k = name_start(t, seps);
    let name = file_name(p, seps).unwrap();
    let n = child_name(Some(name), idx);
    let dir = parent(p, seps);
    let q = with_file_name(p, n, seps, bare);
    cut_twice(p, seps);
    cut_twice(t.take(k), seps);
    name_stands_alone(t, seps);
    assert forall|i: int| 0 <= i < name.len() implies !seps.contains(#[trigger] name[i]) by {
        assert(name[i] == t[k + i]);
    }
    child_name_parts(name, idx, seps);
    kept_front(p, seps);
    assert(!bare ==> k > 0);
    assert(dir.len() == 0 ==> k == 0);
    let a = if dir.len() == 0 || seps.contains(dir.last()) { dir } else { dir.push(seps[0]) };
    assert(q =~= a + n);
    assert(seps.contains(seps[0]));
    assert(!seps.contains(n[n.len() - 1]));
    assert(!seps.contains(n[n.len() - 2]));
    assert(q.last() == n[n.len() - 1] && q[q.len() - 2] == n[n.len() - 2]);
    assert(without_tail(q, seps) == q);
    name_is_found(a, n, seps);
    assert(q.skip(a.len() as int) =~= n);
    assert(q.take(a.len() as int) =~= a);
    if a.len() > dir.len() {
        assert(a.drop_last() =~= dir);
    }
}

/// What a path begins with stays when it is cut.
proof fn kept_front(p: Seq<char>, seps: Seq<char>)
    ensures
        without_tail(p, seps).len() <= p.len(),
        p.len() > 0 ==> without_tail(p, seps).len() > 0 && without_tail(p, seps)[0] == p[0],
    decreases p.len(),
{
    if p.len() >= 2 && (seps.contains(p.last()) || (p.last() == '.' && seps.contains(
        p[p.len() - 2],
    ))) {
        kept_front(p.drop_last(), seps);
    }
}

/// The pictures of different children go to different files, and none goes to the main window's.
/// Each is in the main one's directory, on the same drive or server, and has its extension, or
/// `png` where that has none. Behind a server a path begins with a separator.
pub proof fn child_pictures_are_apart(
    base: Seq<char>,
    seps: Seq<char>,
    prefix: Option<PathPrefix>,
    i: int,
    j: int,
)
    requires
        slashes(seps),
        front_len(prefix) <= base.len(),
        file_name(base.skip(front_len(prefix)), seps) is Some,
        prefix matches Some(f) ==> f.drive || seps.contains(base[f.len as int]),
        0 <= i,
        0 <= j,
        i != j,
    ensures
        child_path(base, i, seps, prefix) != child_path(base, j, seps, prefix),
        child_path(base, i, seps, prefix) != base,
        child_path(base, j, seps, prefix) != base,
        ({
            let front = front_len(prefix);
            let rest = base.skip(front);
            let child = child_path(base, i, seps, prefix);
            let name = file_name(rest, seps).unwrap();
            &&& child.take(front) == base.take(front)
            &&& parent(child.skip(front), seps) == parent(rest, seps)
            &&& file_name(child.skip(front), seps) matches Some(n) && extension(n) == Some(
                child_extension(name),
            )
        }),
{
    let front = front_len(prefix);
    let rest = base.skip(front);
    let bare = prefix matches Some(f) ==> f.drive;
    let name = file_name(rest, seps).unwrap();
    let a = child_path(base, i, seps, prefix);
    let b = child_path(base, j, seps, prefix);
    let qa = with_file_name(rest, child_name(Some(name), i), seps, bare);
    let qb = with_file_name(rest, child_name(Some(name), j), seps, bare);
    child_keeps_the_directory(rest, i, seps, bare);
    child_keeps_the_directory(rest, j, seps, bare);
    assert(a.skip(front) =~= qa);
    assert(b.skip(front) =~= qb);
    assert(a.take(front) =~= base.take(front));
    text::decimals_differ(i, j);
    let x = child_name(Some(name), i);
    let y = child_name(Some(name), j);
    if x == y {
        let s: int = (stem(name).len() + 1) as int;
        assert(text::decimal(i) =~= x.subrange(s, s + text::decimal(i).len()));
        assert(text::decimal(j) =~= y.subrange(s, s + text::decimal(j).len()));
        assert(text::decimal(i).len() == text::decimal(j).len());
        assert(false);
    }
}

/// The extension of a name is what stands behind its last dot, and the stem what stands before it;
/// a dot at the front makes neither.
pub proof fn names_have_a_stem_and_an_extension(s: Seq<char>, e: Seq<char>)
    requires
        s.len() > 0,
        !e.contains('.'),
    ensures
        stem(s + seq!['.'] + e) == s,
        extension(s + seq!['.'] + e) == Some(e),
        !s.contains('.') ==> stem(s) == s && extension(s) is None,
        stem(seq!['.'] + e) == seq!['.'] + e,
        extension(seq!['.'] + e) is None,
{
    let name = s + seq!['.'] + e;
    let d = s.len() as int;
    assert(name[d] == '.');
    assert forall|i: int| d < i < name.len() implies name[i] != '.' by {
        assert(name[i] == e[i - d - 1]);
        assert(e.contains(e[i - d - 1]));
    }
    last_dot_is(name, d, name.len() as int);
    assert(name.take(d) =~= s);
    assert(name.skip(d + 1) =~= e);
    let hidden = seq!['.'] + e;
    assert forall|i: int| 0 < i < hidden.len() implies hidden[i] != '.' by {
        assert(hidden[i] == e[i - 1]);
        assert(e.contains(e[i - 1]));
    }
    last_dot_is(hidden, 0, hidden.len() as int);
    if !s.contains('.') {
        no_dot_at_all(s, s.len() as int);
        assert(s.take(s.len() as int) =~= s);
    }
}

proof fn no_dot_at_all(s: Seq<char>, n: int)
    requires
        0 <= n <= s.len(),
        !s.contains('.'),
    ensures
        last_dot(s, n) == s.len(),
    decreases n,
{
    if n > 0 {
        assert(s.contains(s[n - 1]));
        no_dot_at_all(s, n - 1);
    }
}

/// The name of a file in a directory is found, and so is the directory.
pub proof fn files_stand_in_their_directory(dir: Seq<char>, name: Seq<char>, seps: Seq<char>)
    requires
        slashes(seps),
        dir.len() > 0,
        !seps.contains(dir.last()),
        dir.last() != '.',
        name.len() > 0,
        name.last() != '.',
        forall|i: int| 0 <= i < name.len() ==> !seps.contains(#[trigger] name[i]),
    ensures
        file_name(dir.push(seps[0]) + name, seps) == Some(name),
        parent(dir.push(seps[0]) + name, seps) == dir,
        file_name(name, seps) == Some(name),
        parent(name, seps).len() == 0,
{
    let a = dir.push(seps[0]);
    let p = a + name;
    assert(seps.contains(seps[0]));
    assert(p.last() == name[name.len() - 1]);
    assert(without_tail(p, seps) == p);
    name_is_found(a, name, seps);
    assert(p.skip(a.len() as int) =~= name);
    assert(p.take(a.len() as int) =~= a);
    assert(a.drop_last() =~= dir);
    assert(a.last() == seps[0]);
    assert(without_tail(dir, seps) == dir);
    let e = Seq::<char>::empty();
    name_is_found(e, name, seps);
    assert(e + name =~= name);
    assert(name.last() == name[name.len() - 1]);
    assert(without_tail(name, seps) == name);
    assert(name.skip(0) =~= name);
    assert(name.take(0) =~= e);
    assert(without_tail(e, seps) == e);
    if name == seq!['.'] || name == seq!['.', '.'] {
        assert(name[name.len() - 1] == '.');
    }
}

/// A child's picture stands beside the main one, with a hyphen and its number before the extension;
/// where that has no extension, the child's has `png`.
pub proof fn children_stand_beside(
    dir: Seq<char>,
    s: Seq<char>,
    e: Seq<char>,
    seps: Seq<char>,
    idx: int,
)
    requires
        0 <= idx,
        slashes(seps),
        dir.len() > 0,
        !seps.contains(dir.last()),
        dir.last() != '.',
        s.len() > 0,
        s.last() != '.',
        e.len() > 0,
        !e.contains('.'),
        forall|i: int| 0 <= i < s.len() ==> !seps.contains(#[trigger] s[i]),
        forall|i: int| 0 <= i < e.len() ==> !seps.contains(#[trigger] e[i]),
    ensures
        child_path(dir.push(seps[0]) + (s + seq!['.'] + e), idx, seps, None) == dir.push(seps[0]) + (s
            + seq!['-'] + text::decimal(idx) + seq!['.'] + e),
        child_path(s + seq!['.'] + e, idx, seps, None) == s + seq!['-'] + text::decimal(idx)
            + seq!['.'] + e,
        !s.contains('.') ==> child_path(dir.push(seps[0]) + s, idx, seps, None) == dir.push(seps[0])
            + (s + seq!['-'] + text::decimal(idx) + seq!['.', 'p', 'n', 'g']),
{
    reveal_strlit("png");
    assert("png"@ =~= seq!['p', 'n', 'g']);
    let name = s + seq!['.'] + e;
    assert forall|i: int| 0 <= i < name.len() implies !seps.contains(#[trigger] name[i]) by {
        if i < s.len() {
            assert(name[i] == s[i]);
        } else if i > s.len() {
            assert(name[i] == e[i - s.len() - 1]);
        }
    }
    assert(name.last() == e[e.len() - 1]);
    assert(e.contains(e[e.len() - 1]));
    names_have_a_stem_and_an_extension(s, e);
    files_stand_in_their_directory(dir, name, seps);
    files_stand_in_their_directory(dir, s, seps);
    let digits = text::decimal(idx);
    let child = child_name(Some(name), idx);
    assert(child =~= s + seq!['-'] + digits + seq!['.'] + e);
    let p = dir.push(seps[0]) + name;
    assert(p.skip(0) =~= p);
    assert(p.take(0) =~= Seq::<char>::empty());
    assert(child_path(p, idx, seps, None) =~= dir.push(seps[0]) + child);
    assert(name.skip(0) =~= name);
    assert(name.take(0) =~= Seq::<char>::empty());
    assert(child_path(name, idx, seps, None) =~= child);
    if !s.contains('.') {
        let q = dir.push(seps[0]) + s;
        let c = child_name(Some(s), idx);
        assert(c =~= s + seq!['-'] + digits + seq!['.', 'p', 'n', 'g']);
        assert(q.skip(0) =~= q);
        assert(q.take(0) =~= Seq::<char>::empty());
        assert(child_path(q, idx, seps, None) =~= dir.push(seps[0]) + c);
    }
}

/// A drive stays in front, and what is behind it is treated as a path without one.
pub proof fn a_drive_stays_in_front(front: Seq<char>, p: Seq<char>, seps: Seq<char>, idx: int)
    requires
        front.len() <= usize::MAX,
    ensures
        child_path(
            front + p,
            idx,
            seps,
            Some(PathPrefix { len: front.len() as usize, drive: true }),
        ) == front + child_path(p, idx, seps, None),
{
    let base = front + p;
    assert(base.skip(front.len() as int) =~= p);
    assert(base.take(front.len() as int) =~= front);
    assert(p.skip(0) =~= p);
    assert(p.take(0) =~= Seq::<char>::empty());
    assert(child_path(p, idx, seps, None) =~= with_file_name(
        p,
        child_name(file_name(p, seps), idx),
        seps,
        true,
    ));
}

/// Separators at the end of a path do not matter to the file that it names.
pub proof fn separators_at_the_end_do_not_matter(p: Seq<char>, seps: Seq<char>, i: int)
    requires
        p.len() > 0,
        0 <= i < seps.len(),
    ensures
        file_name(p.push(seps[i]), seps) == file_name(p, seps),
        parent(p.push(seps[i]), seps) == parent(p, seps),
{
    let q = p.push(seps[i]);
    assert(seps.contains(seps[i]));
    assert(q.last() == seps[i]);
    assert(q.drop_last() =~= p);
}

} // verus!
