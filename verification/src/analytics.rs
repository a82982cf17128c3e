//! The figures of the analytics tab of the about page: counts over the
//! snippets, their sizes and ages, and how they spread over languages.
use vstd::prelude::*;
use crate::chat::{utf8_len, lemma_encoded_len};
use crate::chat_state::{count_names, counts_view, name_counts};
use crate::database::SnippetDatabase;
use crate::notebook::strings_view;
use crate::snippet::CodeSnippet;
use crate::tags::TagManager;
use crate::text::copy_str;

verus! {

/// The whole days from `t` to `now` (milliseconds since the Unix epoch),
/// rounded toward zero (as chrono's `num_days`).
pub open spec fn day_count(now: i64, t: i64) -> int {
    let d = now - t;
    if d >= 0 { d / 86_400_000 } else { -((-d) / 86_400_000) }
}

/// The bytes of all the snippets' contents.
pub open spec fn size_total(s: Seq<CodeSnippet>) -> nat
    decreases s.len(),
{
    if s.len() == 0 { 0 } else { size_total(s.drop_last()) + utf8_len(s.last().content@) }
}

/// The bytes of the largest content (0 for no snippet).
pub open spec fn size_max(s: Seq<CodeSnippet>) -> nat
    decreases s.len(),
{
    if s.len() == 0 {
        0
    } else {
        let m = size_max(s.drop_last());
        let b = utf8_len(s.last().content@);
        if b > m { b } else { m }
    }
}

/// How many snippets are favorites.
pub open spec fn fav_count(s: Seq<CodeSnippet>) -> nat
    decreases s.len(),
{
    if s.len() == 0 { 0 } else { fav_count(s.drop_last()) + if s.last().is_favorite { 1nat } else { 0nat } }
}

/// How many snippets carry a tag.
pub open spec fn tagged_count(s: Seq<CodeSnippet>) -> nat
    decreases s.len(),
{
    if s.len() == 0 { 0 } else { tagged_count(s.drop_last()) + if s.last().tags@.len() > 0 { 1nat } else { 0nat } }
}

/// How many snippets were made fewer than `limit` whole days before `now`.
pub open spec fn recent_count(s: Seq<CodeSnippet>, now: i64, limit: int) -> nat
    decreases s.len(),
{
    if s.len() == 0 {
        0
    } else {
        recent_count(s.drop_last(), now, limit) + if day_count(now, s.last().created_at) < limit { 1nat } else { 0nat }
    }
}

/// The earliest creation time (meaningful for at least one snippet).
pub open spec fn oldest_time(s: Seq<CodeSnippet>) -> i64
    decreases s.len(),
{
    if s.len() <= 1 {
        s[0].created_at
    } else {
        let m = oldest_time(s.drop_last());
        if s.last().created_at < m { s.last().created_at } else { m }
    }
}

/// The short language names of the snippets, in order.
pub open spec fn short_names(s: Seq<CodeSnippet>) -> Seq<Seq<char>>
    decreases s.len(),
{
    if s.len() == 0 { Seq::empty() } else { short_names(s.drop_last()).push(s.last().language.spec_short_name()) }
}

/// `sorted` (most first) with `x` put after every entry counted at least as often.
pub open spec fn insert_by_count(sorted: Seq<(Seq<char>, nat)>, x: (Seq<char>, nat)) -> Seq<(Seq<char>, nat)>
    decreases sorted.len(),
{
    if sorted.len() == 0 {
        seq![x]
    } else if sorted.last().1 >= x.1 {
        sorted.push(x)
    } else {
        insert_by_count(sorted.drop_last(), x).push(sorted.last())
    }
}

/// The entries most counted first; equal counts keep their order.
pub open spec fn by_count(s: Seq<(Seq<char>, nat)>) -> Seq<(Seq<char>, nat)>
    decreases s.len(),
{
    if s.len() == 0 { Seq::empty() } else { insert_by_count(by_count(s.drop_last()), s.last()) }
}

/// `sorted` (newest first) with `x` put after every snippet made no later.
pub open spec fn insert_by_creation(sorted: Seq<CodeSnippet>, x: CodeSnippet) -> Seq<CodeSnippet>
    decreases sorted.len(),
{
    if sorted.len() == 0 {
        seq![x]
    } else if sorted.last().created_at >= x.created_at {
        sorted.push(x)
    } else {
        insert_by_creation(sorted.drop_last(), x).push(sorted.last())
    }
}

/// The snippets newest first; equal times keep their order.
pub open spec fn newest_made(s: Seq<CodeSnippet>) -> Seq<CodeSnippet>
    decreases s.len(),
{
    if s.len() == 0 { Seq::empty() } else { insert_by_creation(newest_made(s.drop_last()), s.last()) }
}

/// The ids of the (at most) three newest snippets.
pub open spec fn newest_three(s: Seq<CodeSnippet>) -> Seq<u128> {
    let n = newest_made(s);
    n.subrange(0, if n.len() < 3 { n.len() as int } else { 3 }).map_values(|x: CodeSnippet| x.id)
}

/// `part` as a whole percentage of `total` (0 for no total).
pub open spec fn percent_of(part: nat, total: nat) -> nat {
    if total > 0 { part * 100 / total } else { 0 }
}

/// The figures of the analytics tab.
#[derive(Debug)]
pub struct SnippetStats {
    pub total_notebooks: usize,
    pub total_snippets: usize,
    pub favorites: usize,
    /// The mean size of a snippet's content, in bytes.
    pub average_size: usize,
    /// The size of the largest content, in bytes.
    pub largest_size: usize,
    pub tags_created: usize,
    pub tagged_snippets: usize,
    /// Snippets made within the last seven and thirty days.
    pub last_week: usize,
    pub last_month: usize,
    /// The age of the oldest snippet, in whole days.
    pub oldest_days: i64,
    /// Each language (by short name) with its number of snippets, most first.
    pub languages: Vec<(String, usize)>,
    /// The ids of the three newest snippets, newest first.
    pub newest: Vec<u128>,
}

/// Whole days between two moments (see `day_count`).
pub(crate) fn days_between(now: i64, t: i64) -> (r: i64)
    ensures
        r == day_count(now, t),
{
    let d: i128 = (now as i128) - (t as i128);
    if d >= 0 {
        (d / 86_400_000) as i64
    } else {
        let e: i128 = -d;
        let q: i128 = e / 86_400_000;
        (-q) as i64
    }
}

/// `part` as a percentage of `total` (see `percent_of`).
pub fn percent(part: usize, total: usize) -> (r: u128)
    ensures
        r == percent_of(part as nat, total as nat),
{
    if total > 0 {
        proof {
            assert(part * 100 <= u128::MAX) by (nonlinear_arith)
                requires part <= usize::MAX;
        }
        ((part as u128) * 100) / (total as u128)
    } else {
        0
    }
}

/// Sorts counted names, most first (see `by_count`).
pub(crate) fn sort_counts(v: Vec<(String, usize)>) -> (r: Vec<(String, usize)>)
    ensures
        counts_view(r@) == by_count(counts_view(v@)),
{
    let ghost orig = counts_view(v@);
    let mut rest = v;
    let mut out: Vec<(String, usize)> = Vec::new();
    let mut k: usize = 0;
    proof {
        assert(orig.len() == rest.len());
        assert(counts_view(rest@) =~= orig.subrange(0, orig.len() as int));
        assert(counts_view(out@) =~= by_count(orig.subrange(0, 0)));
    }
    while rest.len() > 0
        invariant
            k + rest@.len() == orig.len(),
            orig.len() <= usize::MAX,
            counts_view(rest@) == orig.subrange(k as int, orig.len() as int),
            counts_view(out@) == by_count(orig.subrange(0, k as int)),
        decreases rest.len(),
    {
        let ghost before_rest = rest@;
        let x = rest.remove(0);
        let ghost xv = (x.0@, x.1 as nat);
        proof {
            assert(counts_view(before_rest)[0] == xv);
            assert(xv == orig[k as int]);
            assert(rest@ =~= before_rest.subrange(1, before_rest.len() as int));
            assert forall|j: int| 0 <= j < rest@.len() implies counts_view(rest@)[j] == orig[k + 1 + j] by {
                assert(rest@[j] == before_rest[j + 1]);
                assert(counts_view(before_rest)[j + 1] == orig.subrange(k as int, orig.len() as int)[j + 1]);
            }
            assert(counts_view(rest@) =~= orig.subrange(k + 1, orig.len() as int));
            assert(orig.subrange(0, k + 1).drop_last() =~= orig.subrange(0, k as int));
        }
        let ghost sorted = counts_view(out@);
        let mut p: usize = out.len();
        proof {
            assert(sorted.subrange(0, sorted.len() as int) =~= sorted);
            assert(insert_by_count(sorted, xv) + sorted.subrange(sorted.len() as int, sorted.len() as int)
                =~= insert_by_count(sorted, xv));
        }
        while p > 0 && out[p - 1].1 < x.1
            invariant
                p <= out@.len(),
                sorted == counts_view(out@),
                xv == (x.0@, x.1 as nat),
                insert_by_count(sorted, xv) == insert_by_count(sorted.subrange(0, p as int), xv)
                    + sorted.subrange(p as int, sorted.len() as int),
            decreases p,
        {
            proof {
                let a = sorted.subrange(0, p as int);
                assert(a.drop_last() =~= sorted.subrange(0, p - 1));
                assert(a.last() == sorted[p - 1]);
                assert(insert_by_count(a.drop_last(), xv).push(a.last()) + sorted.subrange(p as int, sorted.len() as int)
                    =~= insert_by_count(sorted.subrange(0, p - 1), xv) + sorted.subrange(p - 1, sorted.len() as int));
            }
            p = p - 1;
        }
        proof {
            let a = sorted.subrange(0, p as int);
            if p > 0 {
                assert(a.last() == sorted[p - 1]);
            }
            assert(insert_by_count(sorted, xv) =~= sorted.insert(p as int, xv));
        }
        out.insert(p, x);
        proof {
            assert(counts_view(out@) =~= sorted.insert(p as int, xv));
        }
        k = k + 1;
    }
    proof {
        assert(orig.subrange(0, k as int) =~= orig);
    }
    out
}

/// The snippets newest first, as references (see `newest_made`).
fn newest_refs<'a>(sns: &'a Vec<CodeSnippet>) -> (r: Vec<&'a CodeSnippet>)
    ensures
        r@.map_values(|x: &CodeSnippet| *x) == newest_made(sns@),
{
    let mut out: Vec<&'a CodeSnippet> = Vec::new();
    let mut i: usize = 0;
    proof {
        assert(out@.map_values(|x: &CodeSnippet| *x) =~= Seq::<CodeSnippet>::empty());
    }
    while i < sns.len()
        invariant
            i <= sns@.len(),
            out@.map_values(|x: &CodeSnippet| *x) == newest_made(sns@.subrange(0, i as int)),
        decreases sns.len() - i,
    {
        proof {
            assert(sns@.subrange(0, i + 1).drop_last() =~= sns@.subrange(0, i as int));
        }
        let x = &sns[i];
        let ghost sorted = out@.map_values(|y: &CodeSnippet| *y);
        let mut p: usize = out.len();
        proof {
            assert(sorted.subrange(0, sorted.len() as int) =~= sorted);
            assert(insert_by_creation(sorted, *x) + sorted.subrange(sorted.len() as int, sorted.len() as int)
                =~= insert_by_creation(sorted, *x));
        }
        while p > 0 && out[p - 1].created_at < x.created_at
            invariant
                p <= out@.len(),
                sorted == out@.map_values(|y: &CodeSnippet| *y),
                *x == sns@[i as int],
                insert_by_creation(sorted, *x) == insert_by_creation(sorted.subrange(0, p as int), *x)
                    + sorted.subrange(p as int, sorted.len() as int),
            decreases p,
        {
            proof {
                let a = sorted.subrange(0, p as int);
                assert(a.drop_last() =~= sorted.subrange(0, p - 1));
                assert(a.last() == sorted[p - 1]);
                assert(insert_by_creation(a.drop_last(), *x).push(a.last()) + sorted.subrange(p as int, sorted.len() as int)
                    =~= insert_by_creation(sorted.subrange(0, p - 1), *x) + sorted.subrange(p - 1, sorted.len() as int));
            }
            p = p - 1;
        }
        proof {
            let a = sorted.subrange(0, p as int);
            if p > 0 {
                assert(a.last() == sorted[p - 1]);
            }
            assert(insert_by_creation(sorted, *x) =~= sorted.insert(p as int, *x));
        }
        out.insert(p, x);
        proof {
            assert(out@.map_values(|y: &CodeSnippet| *y) =~= sorted.insert(p as int, *x));
        }
        i = i + 1;
    }
    proof {
        assert(sns@.subrange(0, sns@.len() as int) =~= sns@);
    }
    out
}

/// One more size keeps the total within the count times the largest size.
proof fn lemma_total_bound(total: nat, i: nat, largest: nat, b: nat, nm: nat)
    requires
        total <= i * largest,
        largest <= nm,
        b <= nm,
    ensures
        total + b <= (i + 1) * nm,
{
    assert(i * largest <= i * nm) by (nonlinear_arith)
        requires largest <= nm;
    assert((i + 1) * nm == i * nm + nm) by (nonlinear_arith);
}

/// A total within `n` times the largest gives a mean within the largest.
proof fn lemma_mean_bound(total: nat, n: nat, largest: nat)
    requires
        n > 0,
        total <= n * largest,
    ensures
        total / n <= largest,
{
    assert(total / n <= largest) by (nonlinear_arith)
        requires n > 0, total <= n * largest;
}

/// The figures of the analytics tab for the database and tags, at time
/// `now` (milliseconds since the Unix epoch).
pub fn snippet_stats(db: &SnippetDatabase, tags: &TagManager, now: i64) -> (r: SnippetStats)
    ensures
        r.total_notebooks == db.notebooks@.len(),
        r.total_snippets == db.snippets@.len(),
        r.favorites == fav_count(db.snippets@),
        r.average_size == (if db.snippets@.len() > 0 { size_total(db.snippets@) / db.snippets@.len() } else { 0 }),
        r.largest_size == size_max(db.snippets@),
        r.tags_created == tags.tags@.len(),
        r.tagged_snippets == tagged_count(db.snippets@),
        r.last_week == recent_count(db.snippets@, now, 7),
        r.last_month == recent_count(db.snippets@, now, 30),
        r.oldest_days == (if db.snippets@.len() > 0 { day_count(now, oldest_time(db.snippets@)) } else { 0 }),
        counts_view(r.languages@) == by_count(name_counts(short_names(db.snippets@))),
        r.newest@ == newest_three(db.snippets@),
{
    let sns = &db.snippets;
    let mut total: u128 = 0;
    let mut largest: usize = 0;
    let mut favs: usize = 0;
    let mut tagged: usize = 0;
    let mut week: usize = 0;
    let mut month: usize = 0;
    let mut oldest: i64 = 0;
    let mut names: Vec<String> = Vec::new();
    let mut i: usize = 0;
    proof {
        assert(strings_view(names@) =~= short_names(sns@.subrange(0, 0)));
    }
    while i < sns.len()
        invariant
            i <= sns@.len(),
            total == size_total(sns@.subrange(0, i as int)),
            largest == size_max(sns@.subrange(0, i as int)),
            total <= i * largest,
            favs == fav_count(sns@.subrange(0, i as int)),
            tagged == tagged_count(sns@.subrange(0, i as int)),
            week == recent_count(sns@.subrange(0, i as int), now, 7),
            month == recent_count(sns@.subrange(0, i as int), now, 30),
            favs <= i,
            tagged <= i,
            week <= i,
            month <= i,
            i > 0 ==> oldest == oldest_time(sns@.subrange(0, i as int)),
            strings_view(names@) == short_names(sns@.subrange(0, i as int)),
        decreases sns.len() - i,
    {
        let ghost pre = sns@.subrange(0, i + 1);
        proof {
            assert(pre.drop_last() =~= sns@.subrange(0, i as int));
            assert(pre.last() == sns@[i as int]);
        }
        let s = &sns[i];
        let b = s.content.as_str().as_bytes().len();
        proof {
            lemma_encoded_len(s.content@);
        }
        let nm: usize = if b > largest { b } else { largest };
        proof {
            lemma_total_bound(total as nat, i as nat, largest as nat, b as nat, nm as nat);
            assert((i + 1) * nm <= u128::MAX) by (nonlinear_arith)
                requires i < usize::MAX, nm <= usize::MAX;
        }
        total = total + (b as u128);
        largest = nm;
        if s.is_favorite {
            favs = favs + 1;
        }
        if s.tags.len() > 0 {
            tagged = tagged + 1;
        }
        let d = days_between(now, s.created_at);
        if d < 7 {
            week = week + 1;
        }
        if d < 30 {
            month = month + 1;
        }
        if i == 0 || s.created_at < oldest {
            oldest = s.created_at;
        }
        let ghost before = names@;
        names.push(copy_str(s.language.short_name()));
        proof {
            assert(strings_view(names@) =~= strings_view(before).push(s.language.spec_short_name()));
        }
        i = i + 1;
    }
    proof {
        assert(sns@.subrange(0, sns@.len() as int) =~= sns@);
    }
    let n = sns.len();
    let average: usize = if n > 0 {
        proof {
            lemma_mean_bound(total as nat, n as nat, largest as nat);
        }
        (total / (n as u128)) as usize
    } else {
        0
    };
    let oldest_days: i64 = if n > 0 { days_between(now, oldest) } else { 0 };
    let languages = sort_counts(count_names(&names));
    let refs = newest_refs(sns);
    let ghost nv = newest_made(sns@);
    let m: usize = if refs.len() < 3 { refs.len() } else { 3 };
    let mut newest: Vec<u128> = Vec::new();
    let mut j: usize = 0;
    while j < m
        invariant
            j <= m,
            m <= refs@.len(),
            refs@.map_values(|x: &CodeSnippet| *x) == nv,
            newest@ == nv.subrange(0, j as int).map_values(|x: CodeSnippet| x.id),
        decreases m - j,
    {
        proof {
            assert(refs@.map_values(|x: &CodeSnippet| *x)[j as int] == *refs@[j as int]);
        }
        newest.push(refs[j].id);
        proof {
            assert(newest@ =~= nv.subrange(0, j + 1).map_values(|x: CodeSnippet| x.id));
        }
        j = j + 1;
    }
    proof {
        assert(nv.len() == refs@.len());
        assert(newest@ =~= newest_three(sns@));
    }
    SnippetStats {
        total_notebooks: db.notebooks.len(),
        total_snippets: n,
        favorites: favs,
        average_size: average,
        largest_size: largest,
        tags_created: tags.tags.len(),
        tagged_snippets: tagged,
        last_week: week,
        last_month: month,
        oldest_days,
        languages,
        newest,
    }
}

} // verus!
