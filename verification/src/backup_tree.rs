//! The text that describes a backup: its counts, then its notebooks as a
//! tree, each level sorted by name, with the snippets of each notebook.
use vstd::prelude::*;
use crate::chat::utf8_width;
use crate::database::{has_nb, nb_idx, nb_ids_distinct};
use crate::export::ExportData;
use crate::notebook::{Notebook, strings_view};
use crate::snippet::CodeSnippet;
use crate::ui_state::BackupInfo;
use crate::text::{chars_of, concat2, concat3, copy_str, decimal, decimal_string, join, join_strings, repeat,
    repeat_str, seq_starts_with, str_starts_with, string_from_chars};

verus! {

/// `a` comes before `b` as Rust orders strings (character by character,
/// a beginning before what it begins).
pub open spec fn text_less(a: Seq<char>, b: Seq<char>) -> bool
    decreases a.len(),
{
    if b.len() == 0 {
        false
    } else if a.len() == 0 {
        true
    } else if a[0] != b[0] {
        (a[0] as u32) < (b[0] as u32)
    } else {
        text_less(a.drop_first(), b.drop_first())
    }
}

/// Whether `a` comes before `b` (see `text_less`).
fn str_less(a: &str, b: &str) -> (r: bool)
    ensures
        r == text_less(a@, b@),
{
    let x = chars_of(a);
    let y = chars_of(b);
    let mut i: usize = 0;
    proof {
        assert(x@.subrange(0, x@.len() as int) =~= x@);
        assert(y@.subrange(0, y@.len() as int) =~= y@);
    }
    while i < x.len() && i < y.len() && x[i] == y[i]
        invariant
            i <= x@.len(),
            i <= y@.len(),
            x@ == a@,
            y@ == b@,
            text_less(a@, b@) == text_less(x@.subrange(i as int, x@.len() as int), y@.subrange(i as int, y@.len() as int)),
        decreases x.len() - i,
    {
        proof {
            assert(x@.subrange(i as int, x@.len() as int).drop_first() =~= x@.subrange(i + 1, x@.len() as int));
            assert(y@.subrange(i as int, y@.len() as int).drop_first() =~= y@.subrange(i + 1, y@.len() as int));
        }
        i = i + 1;
    }
    if i == y.len() {
        false
    } else if i == x.len() {
        true
    } else {
        (x[i] as u32) < (y[i] as u32)
    }
}

/// `sorted` with `x` put after every notebook whose name does not come
/// after its own (as a stable sort by name places it).
pub open spec fn insert_by_name(sorted: Seq<Notebook>, x: Notebook) -> Seq<Notebook>
    decreases sorted.len(),
{
    if sorted.len() == 0 {
        seq![x]
    } else if !text_less(x.name@, sorted.last().name@) {
        sorted.push(x)
    } else {
        insert_by_name(sorted.drop_last(), x).push(sorted.last())
    }
}

/// The notebooks sorted by name; equal names keep their order.
pub open spec fn by_name(s: Seq<Notebook>) -> Seq<Notebook>
    decreases s.len(),
{
    if s.len() == 0 { Seq::empty() } else { insert_by_name(by_name(s.drop_last()), s.last()) }
}

/// `sorted` with `x` put after every snippet whose title does not come
/// after its own.
pub open spec fn insert_by_title(sorted: Seq<CodeSnippet>, x: CodeSnippet) -> Seq<CodeSnippet>
    decreases sorted.len(),
{
    if sorted.len() == 0 {
        seq![x]
    } else if !text_less(x.title@, sorted.last().title@) {
        sorted.push(x)
    } else {
        insert_by_title(sorted.drop_last(), x).push(sorted.last())
    }
}

/// The snippets sorted by title; equal titles keep their order.
pub open spec fn by_title(s: Seq<CodeSnippet>) -> Seq<CodeSnippet>
    decreases s.len(),
{
    if s.len() == 0 { Seq::empty() } else { insert_by_title(by_title(s.drop_last()), s.last()) }
}

/// The snippets of notebook `id`, in order.
pub open spec fn snippets_of_nb(sns: Seq<CodeSnippet>, id: u128) -> Seq<CodeSnippet>
    decreases sns.len(),
{
    if sns.len() == 0 {
        Seq::empty()
    } else {
        let p = snippets_of_nb(sns.drop_last(), id);
        if sns.last().notebook_id == id { p.push(sns.last()) } else { p }
    }
}

/// The notebooks whose parent is `id`, in order.
pub open spec fn kids_of(nbs: Seq<Notebook>, id: u128) -> Seq<Notebook>
    decreases nbs.len(),
{
    if nbs.len() == 0 {
        Seq::empty()
    } else {
        let p = kids_of(nbs.drop_last(), id);
        if nbs.last().parent_id == Some(id) { p.push(nbs.last()) } else { p }
    }
}

/// The notebooks the root list names, in its order (a missing one is
/// left out).
pub open spec fn roots_found(nbs: Seq<Notebook>, roots: Seq<u128>) -> Seq<Notebook>
    decreases roots.len(),
{
    if roots.len() == 0 {
        Seq::empty()
    } else {
        let p = roots_found(nbs, roots.drop_last());
        if has_nb(nbs, roots.last()) { p.push(nbs[nb_idx(nbs, roots.last())]) } else { p }
    }
}

/// `s` without its first `n` bytes, taken character by character.
pub open spec fn drop_bytes(s: Seq<char>, n: int) -> Seq<char>
    decreases s.len(),
{
    if n <= 0 || s.len() == 0 { s } else { drop_bytes(s.drop_first(), n - utf8_width(s[0])) }
}

/// The guide drawn before a notebook at depth `indent`.
pub open spec fn notebook_prefix(indent: nat) -> Seq<char> {
    if indent == 0 { ""@ } else { repeat("\u{2502} "@, (indent - 1) as nat) + "\u{251c}\u{2500} "@ }
}

/// The guide drawn before a snippet of a notebook at depth `indent`.
pub open spec fn snippet_prefix(indent: nat, last: bool) -> Seq<char> {
    if indent == 0 {
        "  "@
    } else {
        repeat("\u{2502} "@, (indent - 1) as nat) + (if last { "\u{2514}\u{2500} "@ } else { "\u{251c}\u{2500} "@ }) + "  "@
    }
}

/// The lines of the snippets `s` of a notebook at depth `indent`; the last
/// one closes the notebook when it has no child notebooks.
pub open spec fn snippet_lines(s: Seq<CodeSnippet>, indent: nat, no_kids: bool) -> Seq<Seq<char>> {
    Seq::new(s.len(), |i: int| snippet_prefix(indent, i == s.len() - 1 && no_kids) + "\u{f05da} "@ + s[i].title@)
}

/// A line of the last child's tree, moved under its parent: a line that
/// starts with the parent's guides loses its first three bytes for two spaces.
pub open spec fn moved_line(line: Seq<char>, indent: nat) -> Seq<char> {
    if seq_starts_with(line, repeat("\u{2502} "@, indent)) { "  "@ + drop_bytes(line, 3) } else { line }
}

/// The lines of notebook `n` at depth `indent`, then of its snippets and
/// child notebooks, following at most `fuel` levels.
pub open spec fn notebook_lines(nbs: Seq<Notebook>, sns: Seq<CodeSnippet>, n: Notebook, indent: nat, fuel: nat) -> Seq<Seq<char>>
    decreases fuel, 0nat,
{
    if fuel == 0 {
        Seq::empty()
    } else {
        let kids = by_name(kids_of(nbs, n.id));
        let head = seq![notebook_prefix(indent) + "\u{f082e} "@ + n.name@]
            + snippet_lines(by_title(snippets_of_nb(sns, n.id)), indent, kids.len() == 0);
        if kids.len() == 0 {
            head
        } else {
            head + trees_of(nbs, sns, kids.drop_last(), indent + 1, (fuel - 1) as nat)
                + notebook_lines(nbs, sns, kids.last(), indent + 1, (fuel - 1) as nat)
                    .map_values(|l: Seq<char>| moved_line(l, indent))
        }
    }
}

/// The lines of each notebook of `list` at depth `indent`, one after another.
pub open spec fn trees_of(nbs: Seq<Notebook>, sns: Seq<CodeSnippet>, list: Seq<Notebook>, indent: nat, fuel: nat) -> Seq<Seq<char>>
    decreases fuel, list.len(),
{
    if list.len() == 0 {
        Seq::empty()
    } else {
        trees_of(nbs, sns, list.drop_last(), indent, fuel) + notebook_lines(nbs, sns, list.last(), indent, fuel)
    }
}

/// The lines that describe a backup named `file_name` holding `d`.
pub open spec fn summary_lines(file_name: Seq<char>, d: ExportData) -> Seq<Seq<char>> {
    let nbs = d.notebooks@;
    seq![
        "Backup File: "@ + file_name,
        "Total Notebooks: "@ + decimal(nbs.len()),
        "Total Snippets: "@ + decimal(d.snippets@.len()),
        "Root Notebooks: "@ + decimal(d.root_notebooks@.len()),
        ""@,
        "Notebook Structure:"@,
        ""@
    ] + trees_of(nbs, d.snippets@, by_name(roots_found(nbs, d.root_notebooks@)), 0, nbs.len())
}

/// The notebooks a list of references points at.
pub open spec fn nb_refs(v: Seq<&Notebook>) -> Seq<Notebook> {
    v.map_values(|x: &Notebook| *x)
}

/// The snippets a list of references points at.
pub open spec fn sn_refs(v: Seq<&CodeSnippet>) -> Seq<CodeSnippet> {
    v.map_values(|x: &CodeSnippet| *x)
}

/// Puts `x` into the name-sorted list `out` (see `insert_by_name`).
fn insert_notebook<'a>(out: &mut Vec<&'a Notebook>, x: &'a Notebook)
    ensures
        nb_refs(final(out)@) == insert_by_name(nb_refs(old(out)@), *x),
{
    let ghost sorted = nb_refs(out@);
    let mut p: usize = out.len();
    proof {
        assert(sorted.subrange(0, sorted.len() as int) =~= sorted);
        assert(insert_by_name(sorted, *x) + sorted.subrange(sorted.len() as int, sorted.len() as int)
            =~= insert_by_name(sorted, *x));
    }
    while p > 0 && str_less(x.name.as_str(), out[p - 1].name.as_str())
        invariant
            p <= out@.len(),
            sorted == nb_refs(out@),
            insert_by_name(sorted, *x) == insert_by_name(sorted.subrange(0, p as int), *x)
                + sorted.subrange(p as int, sorted.len() as int),
        decreases p,
    {
        proof {
            let a = sorted.subrange(0, p as int);
            assert(a.drop_last() =~= sorted.subrange(0, p - 1));
            assert(a.last() == sorted[p - 1]);
            assert(insert_by_name(a.drop_last(), *x).push(a.last()) + sorted.subrange(p as int, sorted.len() as int)
                =~= insert_by_name(sorted.subrange(0, p - 1), *x) + sorted.subrange(p - 1, sorted.len() as int));
        }
        p = p - 1;
    }
    proof {
        let a = sorted.subrange(0, p as int);
        if p > 0 {
            assert(a.last() == sorted[p - 1]);
        }
        assert(insert_by_name(sorted, *x) =~= sorted.insert(p as int, *x));
    }
    out.insert(p, x);
    proof {
        assert(nb_refs(out@) =~= sorted.insert(p as int, *x));
    }
}

/// Puts `x` into the title-sorted list `out` (see `insert_by_title`).
fn insert_snippet<'a>(out: &mut Vec<&'a CodeSnippet>, x: &'a CodeSnippet)
    ensures
        sn_refs(final(out)@) == insert_by_title(sn_refs(old(out)@), *x),
{
    let ghost sorted = sn_refs(out@);
    let mut p: usize = out.len();
    proof {
        assert(sorted.subrange(0, sorted.len() as int) =~= sorted);
        assert(insert_by_title(sorted, *x) + sorted.subrange(sorted.len() as int, sorted.len() as int)
            =~= insert_by_title(sorted, *x));
    }
    while p > 0 && str_less(x.title.as_str(), out[p - 1].title.as_str())
        invariant
            p <= out@.len(),
            sorted == sn_refs(out@),
            insert_by_title(sorted, *x) == insert_by_title(sorted.subrange(0, p as int), *x)
                + sorted.subrange(p as int, sorted.len() as int),
        decreases p,
    {
        proof {
            let a = sorted.subrange(0, p as int);
            assert(a.drop_last() =~= sorted.subrange(0, p - 1));
            assert(a.last() == sorted[p - 1]);
            assert(insert_by_title(a.drop_last(), *x).push(a.last()) + sorted.subrange(p as int, sorted.len() as int)
                =~= insert_by_title(sorted.subrange(0, p - 1), *x) + sorted.subrange(p - 1, sorted.len() as int));
        }
        p = p - 1;
    }
    proof {
        let a = sorted.subrange(0, p as int);
        if p > 0 {
            assert(a.last() == sorted[p - 1]);
        }
        assert(insert_by_title(sorted, *x) =~= sorted.insert(p as int, *x));
    }
    out.insert(p, x);
    proof {
        assert(sn_refs(out@) =~= sorted.insert(p as int, *x));
    }
}

/// The child notebooks of `id`, sorted by name.
fn sorted_kids<'a>(nbs: &'a Vec<Notebook>, id: u128) -> (r: Vec<&'a Notebook>)
    ensures
        nb_refs(r@) == by_name(kids_of(nbs@, id)),
{
    let mut out: Vec<&'a Notebook> = Vec::new();
    let mut i: usize = 0;
    proof {
        assert(nb_refs(out@) =~= Seq::<Notebook>::empty());
    }
    while i < nbs.len()
        invariant
            i <= nbs@.len(),
            nb_refs(out@) == by_name(kids_of(nbs@.subrange(0, i as int), id)),
        decreases nbs.len() - i,
    {
        proof {
            assert(nbs@.subrange(0, i + 1).drop_last() =~= nbs@.subrange(0, i as int));
        }
        if nbs[i].parent_id == Some(id) {
            proof {
                let k = kids_of(nbs@.subrange(0, i as int), id);
                assert(k.push(nbs@[i as int]).drop_last() =~= k);
            }
            insert_notebook(&mut out, &nbs[i]);
        }
        i = i + 1;
    }
    proof {
        assert(nbs@.subrange(0, nbs@.len() as int) =~= nbs@);
    }
    out
}

/// The snippets of notebook `id`, sorted by title.
fn sorted_snippets<'a>(sns: &'a Vec<CodeSnippet>, id: u128) -> (r: Vec<&'a CodeSnippet>)
    ensures
        sn_refs(r@) == by_title(snippets_of_nb(sns@, id)),
{
    let mut out: Vec<&'a CodeSnippet> = Vec::new();
    let mut i: usize = 0;
    proof {
        assert(sn_refs(out@) =~= Seq::<CodeSnippet>::empty());
    }
    while i < sns.len()
        invariant
            i <= sns@.len(),
            sn_refs(out@) == by_title(snippets_of_nb(sns@.subrange(0, i as int), id)),
        decreases sns.len() - i,
    {
        proof {
            assert(sns@.subrange(0, i + 1).drop_last() =~= sns@.subrange(0, i as int));
        }
        if sns[i].notebook_id == id {
            proof {
                let k = snippets_of_nb(sns@.subrange(0, i as int), id);
                assert(k.push(sns@[i as int]).drop_last() =~= k);
            }
            insert_snippet(&mut out, &sns[i]);
        }
        i = i + 1;
    }
    proof {
        assert(sns@.subrange(0, sns@.len() as int) =~= sns@);
    }
    out
}

/// The number of bytes of a character in UTF-8.
fn char_utf8_width(c: char) -> (r: usize)
    ensures
        r == utf8_width(c),
{
    let v = c as u32;
    if v < 0x80 { 1 } else if v < 0x800 { 2 } else if v < 0x10000 { 3 } else { 4 }
}

/// The characters of `v` from `a` on, as a string.
fn chars_from(v: &Vec<char>, a: usize) -> (r: String)
    requires
        a <= v@.len(),
    ensures
        r@ == v@.subrange(a as int, v@.len() as int),
{
    string_from_chars(vstd::slice::slice_subrange(v.as_slice(), a, v.len()))
}

/// `s` without its first `n` bytes (see `drop_bytes`).
fn drop_first_bytes(s: &str, n: usize) -> (r: String)
    requires
        n <= 4,
    ensures
        r@ == drop_bytes(s@, n as int),
{
    let v = chars_of(s);
    let mut i: usize = 0;
    let mut left: i64 = n as i64;
    proof {
        assert(v@.subrange(0, v@.len() as int) =~= v@);
    }
    while left > 0 && i < v.len()
        invariant
            i <= v@.len(),
            v@ == s@,
            -4 <= left <= 4,
            drop_bytes(s@, n as int) == drop_bytes(v@.subrange(i as int, v@.len() as int), left as int),
        decreases v.len() - i,
    {
        proof {
            assert(v@.subrange(i as int, v@.len() as int).drop_first() =~= v@.subrange(i + 1, v@.len() as int));
        }
        let w = char_utf8_width(v[i]);
        left = left - (w as i64);
        i = i + 1;
    }
    chars_from(&v, i)
}

/// A line of the last child's tree moved under its parent (see `moved_line`).
fn move_line(line: &str, indent: usize) -> (r: String)
    ensures
        r@ == moved_line(line@, indent as nat),
{
    let guides = repeat_str("\u{2502} ", indent);
    if str_starts_with(line, guides.as_str()) {
        let rest = drop_first_bytes(line, 3);
        concat2("  ", rest.as_str())
    } else {
        copy_str(line)
    }
}

/// The guide before a notebook at depth `indent`.
fn notebook_guide(indent: usize) -> (r: String)
    ensures
        r@ == notebook_prefix(indent as nat),
{
    if indent == 0 {
        proof {
            reveal_strlit("");
        }
        String::new()
    } else {
        let g = repeat_str("\u{2502} ", indent - 1);
        concat2(g.as_str(), "\u{251c}\u{2500} ")
    }
}

/// The guide before a snippet of a notebook at depth `indent`.
fn snippet_guide(indent: usize, last: bool) -> (r: String)
    ensures
        r@ == snippet_prefix(indent as nat, last),
{
    if indent == 0 {
        copy_str("  ")
    } else {
        let g = repeat_str("\u{2502} ", indent - 1);
        let mid = if last { "\u{2514}\u{2500} " } else { "\u{251c}\u{2500} " };
        concat3(g.as_str(), mid, "  ")
    }
}

/// Appends the lines of the snippets `s` (see `snippet_lines`).
fn push_snippet_lines(s: &Vec<&CodeSnippet>, indent: usize, no_kids: bool, out: &mut Vec<String>)
    ensures
        strings_view(final(out)@) == strings_view(old(out)@) + snippet_lines(sn_refs(s@), indent as nat, no_kids),
{
    let ghost start = strings_view(out@);
    let ghost sv = sn_refs(s@);
    let ghost all = snippet_lines(sv, indent as nat, no_kids);
    let mut i: usize = 0;
    proof {
        assert(all.subrange(0, 0) =~= Seq::<Seq<char>>::empty());
        assert(start + all.subrange(0, 0) =~= start);
    }
    while i < s.len()
        invariant
            i <= s@.len(),
            sv == sn_refs(s@),
            all == snippet_lines(sv, indent as nat, no_kids),
            strings_view(out@) == start + all.subrange(0, i as int),
        decreases s.len() - i,
    {
        let last = i == s.len() - 1 && no_kids;
        let g = snippet_guide(indent, last);
        let line = concat3(g.as_str(), "\u{f05da} ", s[i].title.as_str());
        let ghost before = out@;
        out.push(line);
        proof {
            assert(strings_view(out@) =~= strings_view(before).push(line@));
            assert(all.subrange(0, i + 1) =~= all.subrange(0, i as int).push(all[i as int]));
        }
        i = i + 1;
    }
    proof {
        assert(all.subrange(0, all.len() as int) =~= all);
    }
}

/// Appends the lines of notebook `n` at depth `indent` and of what it
/// holds (see `notebook_lines`).
fn push_notebook_lines(nbs: &Vec<Notebook>, sns: &Vec<CodeSnippet>, n: &Notebook, indent: usize, fuel: usize,
    out: &mut Vec<String>)
    requires
        indent + fuel <= usize::MAX,
    ensures
        strings_view(final(out)@) == strings_view(old(out)@) + notebook_lines(nbs@, sns@, *n, indent as nat, fuel as nat),
    decreases fuel,
{
    let ghost start = strings_view(out@);
    if fuel == 0 {
        proof {
            assert(start + Seq::<Seq<char>>::empty() =~= start);
        }
        return;
    }
    let kids = sorted_kids(nbs, n.id);
    let snips = sorted_snippets(sns, n.id);
    let ghost kv = nb_refs(kids@);
    let g = notebook_guide(indent);
    let head = concat3(g.as_str(), "\u{f082e} ", n.name.as_str());
    out.push(head);
    push_snippet_lines(&snips, indent, kids.len() == 0, out);
    let ghost headed = strings_view(out@);
    proof {
        assert(headed =~= start + (seq![notebook_prefix(indent as nat) + "\u{f082e} "@ + n.name@]
            + snippet_lines(by_title(snippets_of_nb(sns@, n.id)), indent as nat, kids@.len() == 0)));
    }
    if kids.len() == 0 {
        return;
    }
    let k = kids.len() - 1;
    let mut j: usize = 0;
    proof {
        assert(kv.subrange(0, 0).len() == 0);
        assert(headed + Seq::<Seq<char>>::empty() =~= headed);
    }
    while j < k
        invariant
            j <= k,
            k == kids@.len() - 1,
            kv == nb_refs(kids@),
            indent + fuel <= usize::MAX,
            fuel > 0,
            strings_view(out@) == headed + trees_of(nbs@, sns@, kv.subrange(0, j as int), (indent + 1) as nat, (fuel - 1) as nat),
        decreases k - j,
    {
        proof {
            assert(kv.subrange(0, j + 1).drop_last() =~= kv.subrange(0, j as int));
            assert(kv.subrange(0, j + 1).last() == *kids@[j as int]);
        }
        push_notebook_lines(nbs, sns, kids[j], indent + 1, fuel - 1, out);
        proof {
            assert(strings_view(out@) =~= headed + trees_of(nbs@, sns@, kv.subrange(0, j + 1), (indent + 1) as nat, (fuel - 1) as nat));
        }
        j = j + 1;
    }
    let ghost mid = strings_view(out@);
    let mut temp: Vec<String> = Vec::new();
    push_notebook_lines(nbs, sns, kids[k], indent + 1, fuel - 1, &mut temp);
    let ghost tv = strings_view(temp@);
    proof {
        assert(strings_view(Seq::<String>::empty()) =~= Seq::<Seq<char>>::empty());
        assert(Seq::<Seq<char>>::empty() + notebook_lines(nbs@, sns@, *kids@[k as int], (indent + 1) as nat, (fuel - 1) as nat)
            =~= notebook_lines(nbs@, sns@, *kids@[k as int], (indent + 1) as nat, (fuel - 1) as nat));
    }
    let mut t: usize = 0;
    proof {
        assert(mid + Seq::<Seq<char>>::empty() =~= mid);
    }
    while t < temp.len()
        invariant
            t <= temp@.len(),
            tv == strings_view(temp@),
            strings_view(out@) == mid + Seq::new(t as nat, |x: int| moved_line(tv[x], indent as nat)),
        decreases temp.len() - t,
    {
        let line = move_line(temp[t].as_str(), indent);
        let ghost before = out@;
        out.push(line);
        proof {
            assert(strings_view(out@) =~= strings_view(before).push(line@));
            assert(Seq::new((t + 1) as nat, |x: int| moved_line(tv[x], indent as nat))
                =~= Seq::new(t as nat, |x: int| moved_line(tv[x], indent as nat)).push(moved_line(tv[t as int], indent as nat)));
        }
        t = t + 1;
    }
    proof {
        assert(kv.drop_last() =~= kv.subrange(0, k as int));
        assert(kv.last() == *kids@[k as int]);
        assert(Seq::new(tv.len(), |x: int| moved_line(tv[x], indent as nat))
            =~= tv.map_values(|l: Seq<char>| moved_line(l, indent as nat)));
        assert(strings_view(out@) =~= start + notebook_lines(nbs@, sns@, *n, indent as nat, fuel as nat));
    }
}

/// The position of the notebook with id `id` in a list of distinct ids.
fn find_in(nbs: &Vec<Notebook>, id: u128) -> (r: Option<usize>)
    requires
        nb_ids_distinct(nbs@),
    ensures
        match r {
            Some(i) => i < nbs@.len() && has_nb(nbs@, id) && nb_idx(nbs@, id) == i,
            None => !has_nb(nbs@, id),
        },
{
    let mut i: usize = 0;
    while i < nbs.len()
        invariant
            i <= nbs@.len(),
            nb_ids_distinct(nbs@),
            forall|j: int| 0 <= j < i ==> nbs@[j].id != id,
        decreases nbs.len() - i,
    {
        if nbs[i].id == id {
            proof {
                crate::database::lemma_nb_idx(nbs@, i as int);
            }
            return Some(i);
        }
        i = i + 1;
    }
    None
}

/// The text that describes a backup named `file_name` holding `data`: its
/// counts, then the tree of its root notebooks (see `summary_lines`), one
/// line after another.
pub fn backup_summary(file_name: &str, data: &ExportData) -> (r: String)
    requires
        nb_ids_distinct(data.notebooks@),
    ensures
        r@ == join(summary_lines(file_name@, *data), "\n"@),
{
    let nbs = &data.notebooks;
    let sns = &data.snippets;
    let mut lines: Vec<String> = Vec::new();
    lines.push(concat2("Backup File: ", file_name));
    lines.push(concat2("Total Notebooks: ", decimal_string(nbs.len()).as_str()));
    lines.push(concat2("Total Snippets: ", decimal_string(sns.len()).as_str()));
    lines.push(concat2("Root Notebooks: ", decimal_string(data.root_notebooks.len()).as_str()));
    lines.push(String::new());
    lines.push(copy_str("Notebook Structure:"));
    lines.push(String::new());
    proof {
        reveal_strlit("");
    }
    let ghost head = strings_view(lines@);
    proof {
        assert(head.len() == 7);
        assert(head[0] == "Backup File: "@ + file_name@);
        assert(head[1] == "Total Notebooks: "@ + decimal(nbs@.len()));
        assert(head[4] == ""@);
        assert(head[5] == "Notebook Structure:"@);
        assert(head =~= seq![
            "Backup File: "@ + file_name@,
            "Total Notebooks: "@ + decimal(nbs@.len()),
            "Total Snippets: "@ + decimal(sns@.len()),
            "Root Notebooks: "@ + decimal(data.root_notebooks@.len()),
            ""@,
            "Notebook Structure:"@,
            ""@
        ]);
    }
    let mut roots: Vec<&Notebook> = Vec::new();
    let mut i: usize = 0;
    proof {
        assert(nb_refs(roots@) =~= Seq::<Notebook>::empty());
    }
    while i < data.root_notebooks.len()
        invariant
            i <= data.root_notebooks@.len(),
            nb_ids_distinct(nbs@),
            nbs == &data.notebooks,
            nb_refs(roots@) == by_name(roots_found(nbs@, data.root_notebooks@.subrange(0, i as int))),
        decreases data.root_notebooks.len() - i,
    {
        let ghost rs = data.root_notebooks@.subrange(0, i + 1);
        proof {
            assert(rs.drop_last() =~= data.root_notebooks@.subrange(0, i as int));
        }
        match find_in(nbs, data.root_notebooks[i]) {
            Some(k) => {
                proof {
                    let f = roots_found(nbs@, data.root_notebooks@.subrange(0, i as int));
                    assert(f.push(nbs@[k as int]).drop_last() =~= f);
                }
                insert_notebook(&mut roots, &nbs[k]);
            },
            None => {},
        }
        i = i + 1;
    }
    proof {
        assert(data.root_notebooks@.subrange(0, data.root_notebooks@.len() as int) =~= data.root_notebooks@);
    }
    let ghost rv = nb_refs(roots@);
    let fuel = nbs.len();
    let mut j: usize = 0;
    proof {
        assert(rv.subrange(0, 0).len() == 0);
        assert(head + Seq::<Seq<char>>::empty() =~= head);
    }
    while j < roots.len()
        invariant
            j <= roots@.len(),
            rv == nb_refs(roots@),
            fuel == nbs@.len(),
            strings_view(lines@) == head + trees_of(nbs@, sns@, rv.subrange(0, j as int), 0, fuel as nat),
        decreases roots.len() - j,
    {
        proof {
            assert(rv.subrange(0, j + 1).drop_last() =~= rv.subrange(0, j as int));
            assert(rv.subrange(0, j + 1).last() == *roots@[j as int]);
        }
        push_notebook_lines(nbs, sns, roots[j], 0, fuel, &mut lines);
        proof {
            assert(strings_view(lines@) =~= head + trees_of(nbs@, sns@, rv.subrange(0, j + 1), 0, fuel as nat));
        }
        j = j + 1;
    }
    proof {
        assert(rv.subrange(0, rv.len() as int) =~= rv);
        assert(strings_view(lines@) =~= summary_lines(file_name@, *data));
        assert(lines@.map_values(|p: String| p@) =~= strings_view(lines@));
    }
    join_strings(&lines, "\n")
}

/// `sorted` (newest first) with `x` put after every backup at least as new.
pub open spec fn insert_by_created(sorted: Seq<BackupInfo>, x: BackupInfo) -> Seq<BackupInfo>
    decreases sorted.len(),
{
    if sorted.len() == 0 {
        seq![x]
    } else if sorted.last().created_at >= x.created_at {
        sorted.push(x)
    } else {
        insert_by_created(sorted.drop_last(), x).push(sorted.last())
    }
}

/// The backups newest first; backups of one time keep their order (as a
/// stable sort).
pub open spec fn newest_backups_first(s: Seq<BackupInfo>) -> Seq<BackupInfo>
    decreases s.len(),
{
    if s.len() == 0 { Seq::empty() } else { insert_by_created(newest_backups_first(s.drop_last()), s.last()) }
}

/// The backups newest first, backups of one time keeping their order
/// (as the backup window lists them).
pub fn sort_backups(v: Vec<BackupInfo>) -> (r: Vec<BackupInfo>)
    ensures
        r@ == newest_backups_first(v@),
{
    let ghost orig = v@;
    let mut rest = v;
    let mut out: Vec<BackupInfo> = Vec::new();
    let mut k: usize = 0;
    proof {
        assert(orig.len() == rest.len());
        assert(orig.subrange(0, 0).len() == 0);
        assert(orig.subrange(0, orig.len() as int) =~= orig);
    }
    while rest.len() > 0
        invariant
            k + rest@.len() == orig.len(),
            orig.len() <= usize::MAX,
            rest@ == orig.subrange(k as int, orig.len() as int),
            out@ == newest_backups_first(orig.subrange(0, k as int)),
        decreases rest.len(),
    {
        let x = rest.remove(0);
        proof {
            assert(x == orig[k as int]);
            assert(rest@ =~= orig.subrange(k + 1, orig.len() as int));
            assert(orig.subrange(0, k + 1).drop_last() =~= orig.subrange(0, k as int));
        }
        let ghost sorted = out@;
        let mut p: usize = out.len();
        proof {
            assert(sorted.subrange(0, sorted.len() as int) =~= sorted);
            assert(insert_by_created(sorted, x) + sorted.subrange(sorted.len() as int, sorted.len() as int)
                =~= insert_by_created(sorted, x));
        }
        while p > 0 && out[p - 1].created_at < x.created_at
            invariant
                p <= out@.len(),
                sorted == out@,
                insert_by_created(sorted, x) == insert_by_created(sorted.subrange(0, p as int), x)
                    + sorted.subrange(p as int, sorted.len() as int),
            decreases p,
        {
            proof {
                let a = sorted.subrange(0, p as int);
                assert(a.drop_last() =~= sorted.subrange(0, p - 1));
                assert(a.last() == sorted[p - 1]);
                assert(insert_by_created(a.drop_last(), x).push(a.last()) + sorted.subrange(p as int, sorted.len() as int)
                    =~= insert_by_created(sorted.subrange(0, p - 1), x) + sorted.subrange(p - 1, sorted.len() as int));
            }
            p = p - 1;
        }
        proof {
            let a = sorted.subrange(0, p as int);
            if p > 0 {
                assert(a.last() == sorted[p - 1]);
            }
            assert(insert_by_created(sorted, x) =~= sorted.insert(p as int, x));
        }
        out.insert(p, x);
        k = k + 1;
    }
    proof {
        assert(orig.subrange(0, k as int) =~= orig);
    }
    out
}

} // verus!
