//! Unix paths, as text and as bytes: joining and comparing.
use crate::text::{chars_of, piece, string_of};
use vstd::prelude::*;

verus! {

/// A path put behind another. An absolute path stands for itself; otherwise
/// one separator stands between the two.
pub open spec fn joined(base: Seq<char>, rest: Seq<char>) -> Seq<char> {
    if rest.len() > 0 && rest[0] == '/' {
        rest
    } else if base.len() == 0 || base.last() == '/' {
        base + rest
    } else {
        base.push('/') + rest
    }
}

/// Puts a path behind another.
pub fn join(base: &str, rest: &str) -> (r: String)
    ensures
        r@ == joined(base@, rest@),
{
    let b = chars_of(base);
    let t = chars_of(rest);
    if t.len() > 0 && t[0] == '/' {
        return rest.to_owned();
    }
    let mut r = base.to_owned();
    if b.len() > 0 && b[b.len() - 1] != '/' {
        r.push('/');
    }
    r.append(rest);
    r
}

/// The number of characters before the first separator.
pub open spec fn part_len(s: Seq<char>) -> nat
    decreases s.len(),
{
    if s.len() == 0 || s[0] == '/' {
        0
    } else {
        1 + part_len(s.skip(1))
    }
}

/// The parts of a path that count: none that is empty, and none that is a
/// lone dot, unless the path begins with it.
pub open spec fn parts(s: Seq<char>, at_start: bool) -> Seq<Seq<char>>
    decreases s.len(),
{
    let k = part_len(s) as int;
    let part = s.take(k);
    let here = if part.len() > 0 && (at_start || part != seq!['.']) {
        seq![part]
    } else {
        Seq::empty()
    };
    if k < s.len() {
        here + parts(s.skip(k + 1), false)
    } else {
        here
    }
}

/// Whether a path begins at the root.
pub open spec fn absolute(s: Seq<char>) -> bool {
    s.len() > 0 && s[0] == '/'
}

/// Whether two paths have the same components. Repeated and trailing
/// separators and inner dots make no difference.
pub open spec fn same_components(a: Seq<char>, b: Seq<char>) -> bool {
    absolute(a) == absolute(b) && parts(a, true) == parts(b, true)
}

/// The parts of a path that count.
fn parts_of(v: &[char]) -> (r: Vec<Vec<char>>)
    ensures
        r@.map_values(|p: Vec<char>| p@) == parts(v@, true),
{
    let mut r: Vec<Vec<char>> = Vec::new();
    let mut at: usize = 0;
    let mut first = true;
    let mut done = false;
    assert(v@.skip(0) =~= v@);
    assert(r@.map_values(|p: Vec<char>| p@) =~= Seq::<Seq<char>>::empty());
    assert(Seq::<Seq<char>>::empty() + parts(v@, true) =~= parts(v@, true));
    while !done
        invariant
            at <= v.len(),
            !done ==> parts(v@, true) == r@.map_values(|p: Vec<char>| p@) + parts(v@.skip(at as int), first),
            done ==> parts(v@, true) == r@.map_values(|p: Vec<char>| p@),
        decreases v.len() - at, (if done { 0int } else { 1int }),
    {
        let mut end: usize = at;
        while end < v.len() && v[end] != '/'
            invariant
                at <= end <= v.len(),
                part_len(v@.skip(at as int)) == (end - at) + part_len(v@.skip(end as int)),
            decreases v.len() - end,
        {
            assert(v@.skip(end as int).skip(1) =~= v@.skip(end + 1));
            end += 1;
        }
        let part = piece(v, at, end);
        let ghost s = v@.skip(at as int);
        assert(s.take(end - at) =~= part@);
        assert(part@ =~= seq!['.'] <==> (part@.len() == 1 && part@[0] == '.'));
        let ghost before = r@.map_values(|p: Vec<char>| p@);
        let counts = part.len() > 0 && (first || !(part.len() == 1 && part[0] == '.'));
        let ghost here = if counts {
            seq![part@]
        } else {
            Seq::<Seq<char>>::empty()
        };
        if counts {
            r.push(part);
        }
        assert(r@.map_values(|p: Vec<char>| p@) =~= before + here);
        if end < v.len() {
            assert(s.skip(end - at + 1) =~= v@.skip(end + 1));
            assert(before + (here + parts(v@.skip(end + 1), false)) =~= (before + here) + parts(
                v@.skip(end + 1),
                false,
            ));
            at = end + 1;
            first = false;
        } else {
            done = true;
        }
    }
    r
}

/// Whether two paths have the same components.
pub fn same_path(a: &str, b: &str) -> (r: bool)
    ensures
        r == same_components(a@, b@),
{
    let x = chars_of(a);
    let y = chars_of(b);
    let x_absolute = x.len() > 0 && x[0] == '/';
    let y_absolute = y.len() > 0 && y[0] == '/';
    if x_absolute != y_absolute {
        return false;
    }
    let p = parts_of(&x);
    let q = parts_of(&y);
    let ghost ps = parts(a@, true);
    let ghost qs = parts(b@, true);
    assert(ps.len() == p@.len() && qs.len() == q@.len());
    if p.len() != q.len() {
        return false;
    }
    let mut i: usize = 0;
    while i < p.len()
        invariant
            i <= p.len() == q.len(),
            ps == p@.map_values(|p: Vec<char>| p@),
            qs == q@.map_values(|p: Vec<char>| p@),
            ps == parts(a@, true),
            qs == parts(b@, true),
            forall|j: int| 0 <= j < i ==> ps[j] == qs[j],
        decreases p.len() - i,
    {
        assert(ps[i as int] == p@[i as int]@ && qs[i as int] == q@[i as int]@);
        if string_of(&p[i]) != string_of(&q[i]) {
            return false;
        }
        i += 1;
    }
    assert(ps =~= qs);
    true
}

/// A path in which a leading `~/` stands for the home directory, where there
/// is one.
pub open spec fn expanded(path: Seq<char>, home: Option<Seq<char>>) -> Seq<char> {
    match home {
        Some(h) => if path.len() >= 2 && path[0] == '~' && path[1] == '/' {
            joined(h, path.skip(2))
        } else {
            path
        },
        None => path,
    }
}

/// Replaces a leading `~/` by the home directory.
pub fn expand_tilde(path: &str, home: Option<&str>) -> (r: String)
    ensures
        r@ == expanded(
            path@,
            match home {
                Some(h) => Some(h@),
                None => None,
            },
        ),
{
    match home {
        Some(h) => {
            let v = chars_of(path);
            if v.len() >= 2 && v[0] == '~' && v[1] == '/' {
                let rest = piece(&v, 2, v.len());
                assert(rest@ =~= path@.skip(2));
                return join(h, string_of(&rest).as_str());
            }
        },
        None => {},
    }
    path.to_owned()
}

// Paths as bytes

/// A file name put behind a directory.
pub open spec fn beneath(dir: Seq<u8>, name: Seq<u8>) -> Seq<u8> {
    if dir.len() == 0 || dir.last() == 47 {
        dir + name
    } else {
        dir.push(47) + name
    }
}

/// Appends bytes.
pub fn append_bytes(out: &mut Vec<u8>, more: &[u8])
    ensures
        final(out)@ == old(out)@ + more@,
{
    let mut i: usize = 0;
    while i < more.len()
        invariant
            i <= more.len(),
            out@ == old(out)@ + more@.take(i as int),
        decreases more.len() - i,
    {
        out.push(more[i]);
        i += 1;
        assert(out@ =~= old(out)@ + more@.take(i as int));
    }
    assert(more@.take(i as int) =~= more@);
}

/// Puts a file name behind a directory.
pub fn put_beneath(dir: &[u8], name: &[u8]) -> (r: Vec<u8>)
    ensures
        r@ == beneath(dir@, name@),
{
    let mut r: Vec<u8> = Vec::new();
    append_bytes(&mut r, dir);
    assert(r@ =~= dir@);
    if dir.len() > 0 && dir[dir.len() - 1] != 47 {
        r.push(47);
    }
    append_bytes(&mut r, name);
    r
}

/// A copy of bytes.
pub fn copy_bytes(b: &[u8]) -> (r: Vec<u8>)
    ensures
        r@ == b@,
{
    let mut r: Vec<u8> = Vec::new();
    append_bytes(&mut r, b);
    assert(r@ =~= b@);
    r
}

} // verus!
