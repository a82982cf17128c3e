//! Completion of a typed file path: where to look for the files, and what
//! the typed text becomes given the names found there. Listing the folder
//! is left to the caller.
use vstd::prelude::*;
use crate::notebook::opt_view;
use crate::storage::path_join;
use crate::text::{chars_of, char_count, concat2, concat3, copy_str, seq_starts_with, str_starts_with,
    string_from_chars, trim, trim_string, push_char};

verus! {

/// `s` without all the leading copies of `~/` (as `trim_start_matches`).
pub open spec fn strip_tildes(s: Seq<char>) -> Seq<char>
    decreases s.len(),
{
    if s.len() >= 2 && s[0] == '~' && s[1] == '/' {
        strip_tildes(s.subrange(2, s.len() as int))
    } else {
        s
    }
}

/// The path `rest` taken from the home folder `h`: an absolute `rest`
/// stays as it is (as `Path::join` does).
pub open spec fn joined_under(h: Seq<char>, rest: Seq<char>) -> Seq<char> {
    if rest.len() > 0 && rest[0] == '/' { rest } else { path_join(h, rest) }
}

/// The typed path with a leading `~/` taken from the home folder, when
/// the home folder is known.
pub open spec fn expanded(t: Seq<char>, home: Option<Seq<char>>) -> Seq<char> {
    if t.len() >= 2 && t[0] == '~' && t[1] == '/' {
        match home {
            Some(h) => joined_under(h, strip_tildes(t)),
            None => t,
        }
    } else {
        t
    }
}

/// The position of the last `c` in `s`, or -1.
pub open spec fn last_index(s: Seq<char>, c: char) -> int
    decreases s.len(),
{
    if s.len() == 0 {
        -1
    } else if s.last() == c {
        s.len() - 1
    } else {
        last_index(s.drop_last(), c)
    }
}

/// The folder (up to and with the last `/`, else `./`) and the start of
/// the file name that a path names.
pub open spec fn split_path(e: Seq<char>) -> (Seq<char>, Seq<char>) {
    let k = last_index(e, '/');
    if k >= 0 {
        (e.subrange(0, k + 1), e.subrange(k + 1, e.len() as int))
    } else {
        ("./"@, e)
    }
}

/// Where completion looks.
#[derive(Debug)]
pub enum PathLookup {
    /// Nothing was typed: the text becomes this default.
    Replace(String),
    /// List the folder `dir` and complete the name that starts with `prefix`.
    Search { dir: String, prefix: String },
}

/// The entries of a folder taken as names and whether each is a folder.
pub open spec fn entries_view(v: Seq<(String, bool)>) -> Seq<(Seq<char>, bool)> {
    v.map_values(|e: (String, bool)| (e.0@, e.1))
}

/// The entries whose names start with `p`, in order.
pub open spec fn matches_of(entries: Seq<(Seq<char>, bool)>, p: Seq<char>) -> Seq<(Seq<char>, bool)>
    decreases entries.len(),
{
    if entries.len() == 0 {
        Seq::empty()
    } else {
        let m = matches_of(entries.drop_last(), p);
        if seq_starts_with(entries.last().0, p) { m.push(entries.last()) } else { m }
    }
}

/// The longest common beginning of two texts.
pub open spec fn lcp(a: Seq<char>, b: Seq<char>) -> Seq<char>
    decreases a.len(),
{
    if a.len() == 0 || b.len() == 0 || a[0] != b[0] {
        Seq::empty()
    } else {
        seq![a[0]] + lcp(a.drop_first(), b.drop_first())
    }
}

/// The longest beginning that the names of all entries share (the first
/// name, shortened against each following one).
pub open spec fn common_prefix(m: Seq<(Seq<char>, bool)>) -> Seq<char>
    decreases m.len(),
{
    if m.len() == 0 {
        Seq::empty()
    } else if m.len() == 1 {
        m[0].0
    } else {
        lcp(common_prefix(m.drop_last()), m.last().0)
    }
}

/// What the typed text becomes, if it changes: the one matching entry
/// (a folder with a `/` after it), or the longer beginning that several
/// matching names share.
pub open spec fn completion(dir: Seq<char>, p: Seq<char>, entries: Seq<(Seq<char>, bool)>) -> Option<Seq<char>> {
    let m = matches_of(entries, p);
    if m.len() == 1 {
        Some(dir + m[0].0 + if m[0].1 { "/"@ } else { ""@ })
    } else if m.len() > 1 {
        let cp = common_prefix(m);
        if cp.len() > p.len() { Some(dir + cp) } else { None }
    } else {
        None
    }
}

/// The characters of `v` from `a` up to `b`, as a string.
fn chars_range(v: &Vec<char>, a: usize, b: usize) -> (r: String)
    requires
        a <= b <= v@.len(),
    ensures
        r@ == v@.subrange(a as int, b as int),
{
    string_from_chars(vstd::slice::slice_subrange(v.as_slice(), a, b))
}

/// Where completion of the typed text `input` looks, with the home folder
/// `home` when it is known.
pub fn path_lookup(input: &str, home: Option<String>) -> (r: PathLookup)
    ensures
        match r {
            PathLookup::Replace(s) => trim(input@).len() == 0 && s@ == "snippets_export.json"@,
            PathLookup::Search { dir, prefix } => trim(input@).len() > 0
                && (dir@, prefix@) == split_path(expanded(trim(input@), opt_view(home))),
        },
{
    let t = trim_string(input);
    if char_count(t.as_str()) == 0 {
        return PathLookup::Replace(copy_str("snippets_export.json"));
    }
    let v = chars_of(t.as_str());
    let e: String = if v.len() >= 2 && v[0] == '~' && v[1] == '/' {
        match home {
            Some(h) => {
                let mut i: usize = 0;
                proof {
                    assert(v@.subrange(0, v@.len() as int) =~= v@);
                }
                while v.len() - i >= 2 && v[i] == '~' && v[i + 1] == '/'
                    invariant
                        i <= v@.len(),
                        strip_tildes(v@) == strip_tildes(v@.subrange(i as int, v@.len() as int)),
                    decreases v.len() - i,
                {
                    proof {
                        let s = v@.subrange(i as int, v@.len() as int);
                        assert(s.subrange(2, s.len() as int) =~= v@.subrange(i + 2, v@.len() as int));
                    }
                    i = i + 2;
                }
                let rest = chars_range(&v, i, v.len());
                proof {
                    let s = v@.subrange(i as int, v@.len() as int);
                    assert(!(s.len() >= 2 && s[0] == '~' && s[1] == '/'));
                    assert(rest@ == strip_tildes(v@));
                }
                let rc = chars_of(rest.as_str());
                if rc.len() > 0 && rc[0] == '/' {
                    rest
                } else {
                    let hc = chars_of(h.as_str());
                    if hc.len() > 0 && hc[hc.len() - 1] == '/' {
                        concat2(h.as_str(), rest.as_str())
                    } else {
                        concat3(h.as_str(), "/", rest.as_str())
                    }
                }
            },
            None => t,
        }
    } else {
        t
    };
    let ev = chars_of(e.as_str());
    let mut k: usize = ev.len();
    proof {
        assert(ev@.subrange(0, ev@.len() as int) =~= ev@);
    }
    while k > 0 && ev[k - 1] != '/'
        invariant
            k <= ev@.len(),
            last_index(ev@, '/') == last_index(ev@.subrange(0, k as int), '/'),
        decreases k,
    {
        proof {
            assert(ev@.subrange(0, k as int).drop_last() =~= ev@.subrange(0, k - 1));
        }
        k = k - 1;
    }
    proof {
        assert(ev@.subrange(0, ev@.len() as int) =~= ev@);
    }
    if k > 0 {
        let dir = chars_range(&ev, 0, k);
        let prefix = chars_range(&ev, k, ev.len());
        PathLookup::Search { dir, prefix }
    } else {
        PathLookup::Search { dir: copy_str("./"), prefix: e }
    }
}

/// The longest common beginning of two strings.
fn common_start(a: &str, b: &str) -> (r: String)
    ensures
        r@ == lcp(a@, b@),
{
    let x = chars_of(a);
    let y = chars_of(b);
    let mut r = String::new();
    let mut i: usize = 0;
    proof {
        assert(x@.subrange(0, 0) =~= r@);
        assert(x@.subrange(0, x@.len() as int) =~= x@);
        assert(y@.subrange(0, y@.len() as int) =~= y@);
    }
    while i < x.len() && i < y.len() && x[i] == y[i]
        invariant
            i <= x@.len(),
            i <= y@.len(),
            x@ == a@,
            y@ == b@,
            r@ == x@.subrange(0, i as int),
            lcp(a@, b@) == r@ + lcp(x@.subrange(i as int, x@.len() as int), y@.subrange(i as int, y@.len() as int)),
        decreases x.len() - i,
    {
        proof {
            let xs = x@.subrange(i as int, x@.len() as int);
            let ys = y@.subrange(i as int, y@.len() as int);
            assert(xs.drop_first() =~= x@.subrange(i + 1, x@.len() as int));
            assert(ys.drop_first() =~= y@.subrange(i + 1, y@.len() as int));
            assert(r@.push(x@[i as int]) + lcp(xs.drop_first(), ys.drop_first())
                =~= r@ + (seq![xs[0]] + lcp(xs.drop_first(), ys.drop_first())));
        }
        push_char(&mut r, x[i]);
        i = i + 1;
        proof {
            assert(r@ =~= x@.subrange(0, i as int));
        }
    }
    proof {
        let xs = x@.subrange(i as int, x@.len() as int);
        let ys = y@.subrange(i as int, y@.len() as int);
        assert(lcp(xs, ys) =~= Seq::<char>::empty());
        assert(r@ + Seq::<char>::empty() =~= r@);
    }
    r
}

/// What the typed text becomes after the folder `dir` was listed, if it
/// changes (see `completion`); `prefix` is the start of the name typed.
pub fn complete_from_entries(dir: &str, prefix: &str, entries: &Vec<(String, bool)>) -> (r: Option<String>)
    ensures
        opt_view(r) == completion(dir@, prefix@, entries_view(entries@)),
{
    let ghost ev = entries_view(entries@);
    let mut m: Vec<(String, bool)> = Vec::new();
    let mut i: usize = 0;
    while i < entries.len()
        invariant
            i <= entries@.len(),
            ev == entries_view(entries@),
            entries_view(m@) == matches_of(ev.subrange(0, i as int), prefix@),
        decreases entries.len() - i,
    {
        proof {
            assert(ev.subrange(0, i + 1).drop_last() =~= ev.subrange(0, i as int));
        }
        if str_starts_with(entries[i].0.as_str(), prefix) {
            let ghost before = m@;
            m.push((copy_str(entries[i].0.as_str()), entries[i].1));
            proof {
                assert(entries_view(m@) =~= entries_view(before).push(ev[i as int]));
            }
        }
        i = i + 1;
    }
    proof {
        assert(ev.subrange(0, ev.len() as int) =~= ev);
    }
    let ghost mv = entries_view(m@);
    if m.len() == 1 {
        let tail = if m[0].1 { "/" } else { "" };
        proof {
            reveal_strlit("");
        }
        Some(concat3(dir, m[0].0.as_str(), tail))
    } else if m.len() > 1 {
        let mut cp = copy_str(m[0].0.as_str());
        let mut j: usize = 1;
        proof {
            assert(mv.subrange(0, 1).len() == 1);
        }
        while j < m.len()
            invariant
                1 <= j <= m@.len(),
                mv == entries_view(m@),
                cp@ == common_prefix(mv.subrange(0, j as int)),
            decreases m.len() - j,
        {
            proof {
                assert(mv.subrange(0, j + 1).drop_last() =~= mv.subrange(0, j as int));
            }
            cp = common_start(cp.as_str(), m[j].0.as_str());
            j = j + 1;
        }
        proof {
            assert(mv.subrange(0, mv.len() as int) =~= mv);
        }
        if char_count(cp.as_str()) > char_count(prefix) {
            Some(concat2(dir, cp.as_str()))
        } else {
            None
        }
    } else {
        None
    }
}

} // verus!
