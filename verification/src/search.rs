//! Searching notebooks and snippets by text or by tag, the list of recent
//! searches, and opening a search result in the tree.
use vstd::prelude::*;
use crate::app::{App, CodeSnippetsState, RecentSearchEntry, SearchResult, SearchResultType, TreeItem};
use crate::database::{SnippetDatabase, has_sn, sn_idx, lemma_sn_idx};
use crate::notebook::{Notebook, strings_view};
use crate::snippet::{CodeSnippet, snippet_has_tag};
use crate::tags::{Tag, TagManager, tags_matching, snippets_with};
use crate::text::{lowercase, seq_contains, trim, lines, decimal, join, to_lower, str_contains, copy_str,
    concat2, concat3, trim_string, decimal_string, split_lines, join_strings, is_blank, all_whitespace,
    chars_of, string_from_chars, str_has_char};

verus! {

/// The most recent searches that are kept.
pub const MAX_RECENT_SEARCHES: usize = 10;

/// What a search result holds, with strings taken as sequences.
pub struct HitView {
    pub id: u128,
    pub name: Seq<char>,
    pub kind: SearchResultType,
    pub context: Seq<char>,
    pub parent: Option<u128>,
}

impl View for SearchResult {
    type V = HitView;

    open spec fn view(&self) -> HitView {
        HitView {
            id: self.id,
            name: self.name@,
            kind: self.result_type,
            context: self.match_context@,
            parent: self.parent_id,
        }
    }
}

/// The views of a list of results.
pub open spec fn hits_view(v: Seq<SearchResult>) -> Seq<HitView> {
    v.map_values(|r: SearchResult| r@)
}

/// The results for one notebook: its name, then its description, when
/// they contain `q` (compared in lower case; `q` is lower case already).
pub open spec fn notebook_hits(n: Notebook, q: Seq<char>) -> Seq<HitView> {
    (if seq_contains(lowercase(n.name@), q) {
        seq![HitView { id: n.id, name: n.name@, kind: SearchResultType::Notebook,
            context: "Notebook name match: "@ + n.name@, parent: n.parent_id }]
    } else {
        Seq::empty()
    }) + match n.description {
        Some(d) => if seq_contains(lowercase(d@), q) {
            seq![HitView { id: n.id, name: n.name@, kind: SearchResultType::Notebook,
                context: "Description: "@ + d@, parent: n.parent_id }]
        } else {
            Seq::empty()
        },
        None => Seq::empty(),
    }
}

/// The results for a list of notebooks, in order.
pub open spec fn all_notebook_hits(nbs: Seq<Notebook>, q: Seq<char>) -> Seq<HitView>
    decreases nbs.len(),
{
    if nbs.len() == 0 {
        Seq::empty()
    } else {
        all_notebook_hits(nbs.drop_last(), q) + notebook_hits(nbs.last(), q)
    }
}

/// The tags (each with a `#` in front) that contain `q` in lower case.
pub open spec fn tag_labels(tags: Seq<Seq<char>>, q: Seq<char>) -> Seq<Seq<char>>
    decreases tags.len(),
{
    if tags.len() == 0 {
        Seq::empty()
    } else {
        let p = tag_labels(tags.drop_last(), q);
        if seq_contains(lowercase(tags.last()), q) { p.push(seq!['#'] + tags.last()) } else { p }
    }
}

/// `Line n: text` for the first line from `i` on that contains `q` in
/// lower case (numbered from 1, trimmed); empty when there is none.
pub open spec fn line_context_from(ls: Seq<Seq<char>>, q: Seq<char>, i: int) -> Seq<char>
    decreases ls.len() - i,
{
    if i < 0 || i >= ls.len() {
        Seq::empty()
    } else if seq_contains(lowercase(ls[i]), q) {
        "Line "@ + decimal((i + 1) as nat) + ": "@ + trim(ls[i])
    } else {
        line_context_from(ls, q, i + 1)
    }
}

/// The results for one snippet: title, description, tags and content,
/// each when it contains `q` in lower case.
pub open spec fn snippet_hits(s: CodeSnippet, q: Seq<char>) -> Seq<HitView> {
    let labels = tag_labels(strings_view(s.tags@), q);
    (if seq_contains(lowercase(s.title@), q) {
        seq![HitView { id: s.id, name: s.title@, kind: SearchResultType::Snippet,
            context: "Snippet title match: "@ + s.title@, parent: Some(s.notebook_id) }]
    } else {
        Seq::empty()
    }) + (match s.description {
        Some(d) => if seq_contains(lowercase(d@), q) {
            seq![HitView { id: s.id, name: s.title@, kind: SearchResultType::Snippet,
                context: "Description: "@ + d@, parent: Some(s.notebook_id) }]
        } else {
            Seq::empty()
        },
        None => Seq::empty(),
    }) + (if labels.len() > 0 {
        seq![HitView { id: s.id, name: s.title@, kind: SearchResultType::Snippet,
            context: "Tags: "@ + join(labels, ", "@), parent: Some(s.notebook_id) }]
    } else {
        Seq::empty()
    }) + (if seq_contains(lowercase(s.content@), q) {
        seq![HitView { id: s.id, name: s.title@, kind: SearchResultType::CodeContent,
            context: line_context_from(lines(s.content@), q, 0), parent: Some(s.notebook_id) }]
    } else {
        Seq::empty()
    })
}

/// The results for a list of snippets, in order.
pub open spec fn all_snippet_hits(sns: Seq<CodeSnippet>, q: Seq<char>) -> Seq<HitView>
    decreases sns.len(),
{
    if sns.len() == 0 {
        Seq::empty()
    } else {
        all_snippet_hits(sns.drop_last(), q) + snippet_hits(sns.last(), q)
    }
}

/// The results of a text search for the lower-case `q`: notebooks first,
/// then snippets.
pub open spec fn regular_hits(db: SnippetDatabase, q: Seq<char>) -> Seq<HitView> {
    all_notebook_hits(db.notebooks@, q) + all_snippet_hits(db.snippets@, q)
}

/// A result that points at a snippet because of a tag.
pub open spec fn tagged_hit(id: u128, s: CodeSnippet, ctx: Seq<char>) -> HitView {
    HitView { id, name: s.title@, kind: SearchResultType::Snippet, context: ctx, parent: Some(s.notebook_id) }
}

/// The snippets that carry a tag named `t` themselves, as results.
pub open spec fn direct_tag_hits(sns: Seq<CodeSnippet>, t: Seq<char>) -> Seq<HitView>
    decreases sns.len(),
{
    if sns.len() == 0 {
        Seq::empty()
    } else {
        let p = direct_tag_hits(sns.drop_last(), t);
        if snippet_has_tag(sns.last().tags@, t) {
            p.push(tagged_hit(sns.last().id, sns.last(), "Tagged with #"@ + t))
        } else {
            p
        }
    }
}

/// Some result points at `id`.
pub open spec fn hits_have(h: Seq<HitView>, id: u128) -> bool {
    exists|i: int| 0 <= i < h.len() && #[trigger] h[i].id == id
}

/// `acc` followed by a result for each of `ids` that names a snippet.
pub open spec fn linked_hits(acc: Seq<HitView>, ids: Seq<u128>, sns: Seq<CodeSnippet>, ctx: Seq<char>) -> Seq<HitView>
    decreases ids.len(),
{
    if ids.len() == 0 {
        acc
    } else {
        let p = linked_hits(acc, ids.drop_last(), sns, ctx);
        if has_sn(sns, ids.last()) {
            p.push(tagged_hit(ids.last(), sns[sn_idx(sns, ids.last())], ctx))
        } else {
            p
        }
    }
}

/// `acc` followed by a result for each snippet that carries a tag named
/// `t` and has no result yet.
pub open spec fn unlisted_tag_hits(acc: Seq<HitView>, sns: Seq<CodeSnippet>, t: Seq<char>, ctx: Seq<char>) -> Seq<HitView>
    decreases sns.len(),
{
    if sns.len() == 0 {
        acc
    } else {
        let p = unlisted_tag_hits(acc, sns.drop_last(), t, ctx);
        let s = sns.last();
        if snippet_has_tag(s.tags@, t) && !hits_have(p, s.id) {
            p.push(tagged_hit(s.id, s, ctx))
        } else {
            p
        }
    }
}

/// The results for the known tags `ts`, one tag after another: the
/// snippets linked to the tag, then those that carry its name and have no
/// result yet.
pub open spec fn known_tag_hits(ts: Seq<Tag>, links: Seq<(u128, u128)>, sns: Seq<CodeSnippet>) -> Seq<HitView>
    decreases ts.len(),
{
    if ts.len() == 0 {
        Seq::empty()
    } else {
        let p = known_tag_hits(ts.drop_last(), links, sns);
        let t = ts.last();
        let ctx = "Tagged with "@ + (seq!['#'] + t.name@);
        unlisted_tag_hits(linked_hits(p, snippets_with(links, t.id), sns, ctx), sns, t.name@, ctx)
    }
}

/// The results of a search for tag `t` (lower case, without `#`): through
/// the known tags whose name contains it, or else through the snippets
/// that carry it themselves.
pub open spec fn tag_hits(tm: TagManager, sns: Seq<CodeSnippet>, t: Seq<char>) -> Seq<HitView> {
    let ts = tags_matching(tm.tags@, t);
    if ts.len() == 0 { direct_tag_hits(sns, t) } else { known_tag_hits(ts, tm.links@, sns) }
}

/// Holds of an entry for a query other than `q`.
pub open spec fn other_query(q: Seq<char>) -> spec_fn(RecentSearchEntry) -> bool {
    |e: RecentSearchEntry| e.query@ != q
}

/// The entries kept after a search for `q`: `first`, then the earlier
/// entries for other queries, cut to the first ten.
pub open spec fn recent_list(old: Seq<RecentSearchEntry>, q: Seq<char>, first: RecentSearchEntry) -> Seq<RecentSearchEntry> {
    let all = seq![first] + old.filter(other_query(q));
    if all.len() > MAX_RECENT_SEARCHES { all.subrange(0, MAX_RECENT_SEARCHES as int) } else { all }
}

/// A search for the lower-case `q` is a tag search: it starts with `#`
/// and holds no space.
pub open spec fn is_tag_query(q: Seq<char>) -> bool {
    q.len() > 0 && q[0] == '#' && !q.contains(' ')
}

/// Holds of a tree row that shows snippet `id`.
pub open spec fn shows_snippet(id: u128) -> spec_fn(TreeItem) -> bool {
    |item: TreeItem| item matches TreeItem::Snippet(s, _) && s == id
}

/// `b` is `a` after a search for `query`: the results and the recent
/// searches as the search gives them, with the first result selected.
pub open spec fn searched(a: App, b: App, query: Seq<char>, r: usize) -> bool {
    let q = lowercase(query);
    &&& b.selected_search_result == 0
    &&& r == b.search_results@.len()
    &&& b == (App {
            search_results: b.search_results,
            selected_search_result: 0,
            recent_searches: b.recent_searches,
            selected_recent_search: b.selected_recent_search,
            ..a
        })
    &&& if all_whitespace(query) {
        &&& b.search_results@.len() == 0
        &&& b.recent_searches == a.recent_searches
        &&& b.selected_recent_search == a.selected_recent_search
    } else {
        let t = q.drop_first();
        let saved = if is_tag_query(q) {
            if tags_matching(a.tag_manager.tags@, t).len() == 0 { None } else { Some(seq!['#'] + t) }
        } else {
            Some(q)
        };
        &&& hits_view(b.search_results@) == if is_tag_query(q) {
                tag_hits(a.tag_manager, a.snippet_database.snippets@, t)
            } else {
                regular_hits(a.snippet_database, q)
            }
        &&& match saved {
            Some(sq) if !all_whitespace(sq) => {
                &&& b.recent_searches@.len() > 0
                &&& b.recent_searches@[0].query@ == sq
                &&& b.recent_searches@[0].result_count == r
                &&& b.recent_searches@[0].last_selected_type is None
                &&& b.recent_searches@[0].last_selected_id is None
                &&& b.recent_searches@ == recent_list(a.recent_searches@, sq, b.recent_searches@[0])
                &&& b.selected_recent_search == 0
            },
            _ => b.recent_searches == a.recent_searches && b.selected_recent_search == a.selected_recent_search,
        }
    }
}

/// Appends one result.
fn push_hit(out: &mut Vec<SearchResult>, id: u128, name: &str, kind: SearchResultType, context: String, parent: Option<u128>)
    ensures
        hits_view(final(out)@) == hits_view(old(out)@).push(HitView { id, name: name@, kind, context: context@, parent }),
{
    let r = SearchResult { id, name: copy_str(name), result_type: kind, match_context: context, parent_id: parent };
    out.push(r);
    proof {
        assert(hits_view(out@) =~= hits_view(old(out)@).push(HitView { id, name: name@, kind, context: context@, parent }));
    }
}

/// Appends the results for one notebook.
fn push_notebook_hits(n: &Notebook, q: &str, out: &mut Vec<SearchResult>)
    ensures
        hits_view(final(out)@) == hits_view(old(out)@) + notebook_hits(*n, q@),
{
    let ghost start = hits_view(out@);
    let name_l = to_lower(n.name.as_str());
    if str_contains(name_l.as_str(), q) {
        let ctx = concat2("Notebook name match: ", n.name.as_str());
        push_hit(out, n.id, n.name.as_str(), SearchResultType::Notebook, ctx, n.parent_id);
    }
    let ghost mid = hits_view(out@);
    match &n.description {
        Some(d) => {
            let dl = to_lower(d.as_str());
            if str_contains(dl.as_str(), q) {
                let ctx = concat2("Description: ", d.as_str());
                push_hit(out, n.id, n.name.as_str(), SearchResultType::Notebook, ctx, n.parent_id);
            }
        },
        None => {},
    }
    proof {
        assert(hits_view(out@) =~= start + notebook_hits(*n, q@));
    }
}

/// The tag labels of a snippet's tags for `q`.
fn matching_tag_labels(tags: &Vec<String>, q: &str) -> (r: Vec<String>)
    ensures
        strings_view(r@) == tag_labels(strings_view(tags@), q@),
{
    let mut out: Vec<String> = Vec::new();
    let mut i: usize = 0;
    while i < tags.len()
        invariant
            i <= tags.len(),
            strings_view(out@) == tag_labels(strings_view(tags@.subrange(0, i as int)), q@),
        decreases tags.len() - i,
    {
        let ghost before = strings_view(out@);
        proof {
            assert(strings_view(tags@.subrange(0, i + 1)).drop_last() =~= strings_view(tags@.subrange(0, i as int)));
            assert(strings_view(tags@.subrange(0, i + 1)).last() == tags@[i as int]@);
        }
        let tl = to_lower(tags[i].as_str());
        if str_contains(tl.as_str(), q) {
            let label = concat2("#", tags[i].as_str());
            out.push(label);
            proof {
                reveal_strlit("#");
                assert("#"@ =~= seq!['#']);
                assert(strings_view(out@) =~= before.push(seq!['#'] + tags@[i as int]@));
            }
        }
        i = i + 1;
    }
    proof {
        assert(tags@.subrange(0, tags@.len() as int) =~= tags@);
    }
    out
}

/// `Line n: text` for the first line of `content` that contains `q`.
fn line_context(content: &str, q: &str) -> (r: String)
    ensures
        r@ == line_context_from(lines(content@), q@, 0),
{
    let ls = split_lines(content);
    let ghost lv = lines(content@);
    proof {
        assert(ls@.map_values(|l: String| l@) =~= strings_view(ls@));
    }
    let mut i: usize = 0;
    while i < ls.len()
        invariant
            i <= ls.len(),
            strings_view(ls@) == lv,
            lv == lines(content@),
            line_context_from(lv, q@, 0) == line_context_from(lv, q@, i as int),
        decreases ls.len() - i,
    {
        let ll = to_lower(ls[i].as_str());
        if str_contains(ll.as_str(), q) {
            assert(lv[i as int] == ls@[i as int]@);
            let num = decimal_string(i + 1);
            let t = trim_string(ls[i].as_str());
            let head = concat3("Line ", num.as_str(), ": ");
            let r = concat2(head.as_str(), t.as_str());
            proof {
                assert(seq_contains(lowercase(lv[i as int]), q@));
                assert(t@ == trim(lv[i as int]));
                assert(num@ == decimal((i + 1) as nat));
                assert(r@ == "Line "@ + decimal((i + 1) as nat) + ": "@ + trim(lv[i as int]));
                assert(line_context_from(lv, q@, i as int) == "Line "@ + decimal((i + 1) as nat) + ": "@ + trim(lv[i as int]));
            }
            return r;
        }
        assert(lv[i as int] == ls@[i as int]@);
        i = i + 1;
    }
    String::new()
}

/// Appends the results for one snippet.
fn push_snippet_hits(s: &CodeSnippet, q: &str, out: &mut Vec<SearchResult>)
    ensures
        hits_view(final(out)@) == hits_view(old(out)@) + snippet_hits(*s, q@),
{
    let ghost start = hits_view(out@);
    let parent = Some(s.notebook_id);
    let tl = to_lower(s.title.as_str());
    if str_contains(tl.as_str(), q) {
        let ctx = concat2("Snippet title match: ", s.title.as_str());
        push_hit(out, s.id, s.title.as_str(), SearchResultType::Snippet, ctx, parent);
    }
    match &s.description {
        Some(d) => {
            let dl = to_lower(d.as_str());
            if str_contains(dl.as_str(), q) {
                let ctx = concat2("Description: ", d.as_str());
                push_hit(out, s.id, s.title.as_str(), SearchResultType::Snippet, ctx, parent);
            }
        },
        None => {},
    }
    let labels = matching_tag_labels(&s.tags, q);
    if labels.len() > 0 {
        let list = join_strings(&labels, ", ");
        proof {
            assert(labels@.map_values(|p: String| p@) =~= strings_view(labels@));
        }
        let ctx = concat2("Tags: ", list.as_str());
        push_hit(out, s.id, s.title.as_str(), SearchResultType::Snippet, ctx, parent);
    }
    let cl = to_lower(s.content.as_str());
    if str_contains(cl.as_str(), q) {
        let ctx = line_context(s.content.as_str(), q);
        push_hit(out, s.id, s.title.as_str(), SearchResultType::CodeContent, ctx, parent);
    }
    proof {
        assert(hits_view(out@) =~= start + snippet_hits(*s, q@));
    }
}

/// The results of a text search for the lower-case `q`.
pub fn regular_search(db: &SnippetDatabase, q: &str) -> (r: Vec<SearchResult>)
    ensures
        hits_view(r@) == regular_hits(*db, q@),
{
    let mut out: Vec<SearchResult> = Vec::new();
    let mut i: usize = 0;
    while i < db.notebooks.len()
        invariant
            i <= db.notebooks.len(),
            hits_view(out@) == all_notebook_hits(db.notebooks@.subrange(0, i as int), q@),
        decreases db.notebooks.len() - i,
    {
        proof {
            assert(db.notebooks@.subrange(0, i + 1).drop_last() =~= db.notebooks@.subrange(0, i as int));
        }
        push_notebook_hits(&db.notebooks[i], q, &mut out);
        i = i + 1;
    }
    proof {
        assert(db.notebooks@.subrange(0, db.notebooks@.len() as int) =~= db.notebooks@);
    }
    let ghost nb_part = hits_view(out@);
    let mut k: usize = 0;
    while k < db.snippets.len()
        invariant
            k <= db.snippets.len(),
            nb_part == all_notebook_hits(db.notebooks@, q@),
            hits_view(out@) == nb_part + all_snippet_hits(db.snippets@.subrange(0, k as int), q@),
        decreases db.snippets.len() - k,
    {
        proof {
            assert(db.snippets@.subrange(0, k + 1).drop_last() =~= db.snippets@.subrange(0, k as int));
        }
        let ghost before = hits_view(out@);
        push_snippet_hits(&db.snippets[k], q, &mut out);
        proof {
            let sub = db.snippets@.subrange(0, k + 1);
            assert(sub.last() == db.snippets@[k as int]);
            assert(nb_part + all_snippet_hits(sub, q@) =~= before + snippet_hits(db.snippets@[k as int], q@));
        }
        k = k + 1;
    }
    proof {
        assert(db.snippets@.subrange(0, db.snippets@.len() as int) =~= db.snippets@);
    }
    out
}

/// Appends a result for each snippet that carries tag `t` itself.
fn direct_tag_search(sns: &Vec<CodeSnippet>, t: &str) -> (r: Vec<SearchResult>)
    ensures
        hits_view(r@) == direct_tag_hits(sns@, t@),
{
    let mut out: Vec<SearchResult> = Vec::new();
    let ctx_head = "Tagged with #";
    let mut k: usize = 0;
    while k < sns.len()
        invariant
            k <= sns.len(),
            ctx_head@ == "Tagged with #"@,
            hits_view(out@) == direct_tag_hits(sns@.subrange(0, k as int), t@),
        decreases sns.len() - k,
    {
        proof {
            assert(sns@.subrange(0, k + 1).drop_last() =~= sns@.subrange(0, k as int));
        }
        if sns[k].has_tag(t) {
            let ctx = concat2(ctx_head, t);
            push_hit(&mut out, sns[k].id, sns[k].title.as_str(), SearchResultType::Snippet, ctx, Some(sns[k].notebook_id));
        }
        k = k + 1;
    }
    proof {
        assert(sns@.subrange(0, sns@.len() as int) =~= sns@);
    }
    out
}

/// Whether some result points at `id`.
fn has_hit_for(out: &Vec<SearchResult>, id: u128) -> (r: bool)
    ensures
        r == hits_have(hits_view(out@), id),
{
    let mut i: usize = 0;
    while i < out.len()
        invariant
            i <= out.len(),
            forall|j: int| 0 <= j < i ==> out@[j].id != id,
        decreases out.len() - i,
    {
        if out[i].id == id {
            proof {
                assert(hits_view(out@)[i as int].id == id);
            }
            return true;
        }
        i = i + 1;
    }
    proof {
        if hits_have(hits_view(out@), id) {
            let j = choose|j: int| 0 <= j < hits_view(out@).len() && hits_view(out@)[j].id == id;
            assert(out@[j].id == id);
        }
    }
    false
}

/// Appends a result for each of `ids` that names a snippet.
fn push_linked_hits(db: &SnippetDatabase, ids: &Vec<u128>, ctx: &str, out: &mut Vec<SearchResult>)
    requires
        db.wf(),
    ensures
        hits_view(final(out)@) == linked_hits(hits_view(old(out)@), ids@, db.snippets@, ctx@),
{
    let ghost start = hits_view(out@);
    let mut i: usize = 0;
    while i < ids.len()
        invariant
            db.wf(),
            i <= ids.len(),
            hits_view(out@) == linked_hits(start, ids@.subrange(0, i as int), db.snippets@, ctx@),
        decreases ids.len() - i,
    {
        proof {
            assert(ids@.subrange(0, i + 1).drop_last() =~= ids@.subrange(0, i as int));
        }
        match db.find_snippet(ids[i]) {
            Some(k) => {
                push_hit(out, ids[i], db.snippets[k].title.as_str(), SearchResultType::Snippet, copy_str(ctx), Some(db.snippets[k].notebook_id));
            },
            None => {},
        }
        i = i + 1;
    }
    proof {
        assert(ids@.subrange(0, ids@.len() as int) =~= ids@);
    }
}

/// Appends a result for each snippet that carries tag `t` itself and has
/// no result yet.
fn push_unlisted_hits(sns: &Vec<CodeSnippet>, t: &str, ctx: &str, out: &mut Vec<SearchResult>)
    ensures
        hits_view(final(out)@) == unlisted_tag_hits(hits_view(old(out)@), sns@, t@, ctx@),
{
    let ghost start = hits_view(out@);
    let mut k: usize = 0;
    while k < sns.len()
        invariant
            k <= sns.len(),
            hits_view(out@) == unlisted_tag_hits(start, sns@.subrange(0, k as int), t@, ctx@),
        decreases sns.len() - k,
    {
        proof {
            assert(sns@.subrange(0, k + 1).drop_last() =~= sns@.subrange(0, k as int));
        }
        if sns[k].has_tag(t) && !has_hit_for(out, sns[k].id) {
            push_hit(out, sns[k].id, sns[k].title.as_str(), SearchResultType::Snippet, copy_str(ctx), Some(sns[k].notebook_id));
        }
        k = k + 1;
    }
    proof {
        assert(sns@.subrange(0, sns@.len() as int) =~= sns@);
    }
}

/// The results for the known tags `ts` (see `known_tag_hits`).
fn known_tag_search(tm: &TagManager, db: &SnippetDatabase, ts: &Vec<Tag>) -> (r: Vec<SearchResult>)
    requires
        db.wf(),
    ensures
        hits_view(r@) == known_tag_hits(ts@, tm.links@, db.snippets@),
{
    let mut out: Vec<SearchResult> = Vec::new();
    let mut i: usize = 0;
    while i < ts.len()
        invariant
            db.wf(),
            i <= ts.len(),
            hits_view(out@) == known_tag_hits(ts@.subrange(0, i as int), tm.links@, db.snippets@),
        decreases ts.len() - i,
    {
        proof {
            assert(ts@.subrange(0, i + 1).drop_last() =~= ts@.subrange(0, i as int));
            assert(ts@.subrange(0, i + 1).last() == ts@[i as int]);
            reveal_strlit("Tagged with ");
        }
        let shown = ts[i].display_name();
        let ctx = concat2("Tagged with ", shown.as_str());
        let ids = tm.tagged_snippet_ids(ts[i].id);
        push_linked_hits(db, &ids, ctx.as_str(), &mut out);
        push_unlisted_hits(&db.snippets, ts[i].name.as_str(), ctx.as_str(), &mut out);
        i = i + 1;
    }
    proof {
        assert(ts@.subrange(0, ts@.len() as int) =~= ts@);
    }
    out
}

impl App {
    /// Puts a search for `query` with `n` results first among the recent
    /// searches (dropping an earlier entry for the same query and keeping
    /// at most ten), and selects it. A blank query is not kept.
    pub fn save_to_recent_searches(&mut self, query: String, n: usize)
        ensures
            all_whitespace(query@) ==> *final(self) == *old(self),
            !all_whitespace(query@) ==> {
                &&& final(self).recent_searches@.len() > 0
                &&& final(self).recent_searches@[0].query@ == query@
                &&& final(self).recent_searches@[0].result_count == n
                &&& final(self).recent_searches@[0].last_selected_type is None
                &&& final(self).recent_searches@[0].last_selected_id is None
                &&& final(self).recent_searches@ == recent_list(old(self).recent_searches@, query@, final(self).recent_searches@[0])
                &&& final(self).selected_recent_search == 0
                &&& *final(self) == (App {
                        recent_searches: final(self).recent_searches,
                        selected_recent_search: 0,
                        ..*old(self)
                    })
            },
    {
        if is_blank(query.as_str()) {
            return;
        }
        let ghost q = query@;
        let ghost old_list = self.recent_searches@;
        let ghost n_old = old_list.len();
        let mut taken: Vec<RecentSearchEntry> = Vec::new();
        std::mem::swap(&mut taken, &mut self.recent_searches);
        let mut kept: Vec<RecentSearchEntry> = Vec::new();
        let ghost i: int = 0;
        while taken.len() > 0
            invariant
                0 <= i <= n_old,
                n_old == old_list.len(),
                q == query@,
                taken@ == old_list.subrange(i, n_old as int),
                kept@ == old_list.subrange(0, i).filter(other_query(q)),
            decreases taken.len(),
        {
            proof {
                reveal_with_fuel(Seq::filter, 1);
                assert(old_list.subrange(0, i + 1).drop_last() =~= old_list.subrange(0, i));
            }
            let e = taken.remove(0);
            if !crate::text::str_eq(e.query.as_str(), query.as_str()) {
                kept.push(e);
            }
            proof {
                i = i + 1;
                assert(taken@ =~= old_list.subrange(i, n_old as int));
            }
        }
        proof {
            assert(old_list.subrange(0, n_old as int) =~= old_list);
        }
        let entry = RecentSearchEntry::new(query, n);
        kept.insert(0, entry);
        if kept.len() > MAX_RECENT_SEARCHES {
            kept.truncate(MAX_RECENT_SEARCHES);
        }
        proof {
            let first = kept@[0];
            let all = seq![first] + old_list.filter(other_query(q));
            if all.len() > MAX_RECENT_SEARCHES {
                assert(kept@ =~= all.subrange(0, MAX_RECENT_SEARCHES as int));
            } else {
                assert(kept@ =~= all);
            }
        }
        self.recent_searches = kept;
        self.selected_recent_search = 0;
    }
}

/// `b` is `a0` after the selected search result was opened, `r` telling
/// whether its row was found (see `App::open_selected_search_result`).
pub open spec fn opened_result(a0: App, b: App, r: bool) -> bool {
    &&& a0.search_results@.len() == 0 ==> !r && b == a0
    &&& a0.search_results@.len() > 0 ==> {
        let a = a0;
        let h = a.search_results@[a.selected_search_result as int]@;
        let rows = crate::app::tree_rows(a.snippet_database, a.collapsed_notebooks@);
        let recent = if a.recent_searches@.len() > 0 && a.recent_searches@[0].query@ == a.search_query@ {
            a.recent_searches@.update(0, RecentSearchEntry {
                last_selected_type: Some(h.kind),
                last_selected_id: Some(h.id),
                ..a.recent_searches@[0]
            })
        } else {
            a.recent_searches@
        };
        &&& b.recent_searches@ =~= recent
        &&& b.snippet_database == a.snippet_database
        &&& b.tag_manager == a.tag_manager
        &&& b.search_results == a.search_results
        &&& match h.kind {
            SearchResultType::Notebook => {
                let row = crate::app_move::nb_row(rows, h.id);
                &&& r == (row >= 0)
                &&& row >= 0 ==> {
                    &&& b.collapsed_notebooks@ =~= a.collapsed_notebooks@.remove(h.id)
                    &&& b.tree_fresh(row as usize)
                    &&& b.code_snippets_state == (CodeSnippetsState::NotebookView { notebook_id: h.id })
                }
                &&& row < 0 ==> {
                    &&& b.collapsed_notebooks == a.collapsed_notebooks
                    &&& b.tree_fresh(a.selected_tree_item)
                    &&& b.code_snippets_state == a.code_snippets_state
                }
            },
            _ => {
                let row = crate::app_move::first_row(rows, shows_snippet(h.id));
                &&& r == (row >= 0)
                &&& b.code_snippets_state == a.code_snippets_state
                &&& row >= 0 && h.parent is Some ==> {
                    &&& b.collapsed_notebooks@ =~= a.collapsed_notebooks@.remove(h.parent->0)
                    &&& b.tree_fresh(row as usize)
                }
                &&& row >= 0 && h.parent is None ==> {
                    &&& b.collapsed_notebooks == a.collapsed_notebooks
                    &&& b.tree_items@ =~= rows
                    &&& b.selected_tree_item == row
                }
                &&& row < 0 ==> {
                    &&& b.collapsed_notebooks == a.collapsed_notebooks
                    &&& b.tree_fresh(a.selected_tree_item)
                }
            },
        }
    }
}

impl App {
    /// Searches notebooks and snippets for `query` (see `searched`) and
    /// returns the number of results.
    pub fn perform_search(&mut self, query: &str) -> (r: usize)
        requires
            old(self).wf(),
        ensures
            final(self).wf(),
            searched(*old(self), *final(self), query@, r),
    {
        self.search_results = Vec::new();
        self.selected_search_result = 0;
        if is_blank(query) {
            return 0;
        }
        let q = to_lower(query);
        let qv = chars_of(q.as_str());
        let is_tag = qv.len() > 0 && qv[0] == '#' && !str_has_char(q.as_str(), ' ');
        if is_tag {
            let tag_name = string_from_chars(vstd::slice::slice_subrange(qv.as_slice(), 1, qv.len()));
            proof {
                assert(qv@.subrange(1, qv@.len() as int) =~= q@.drop_first());
            }
            let ts = self.tag_manager.find_tags_by_name(tag_name.as_str());
            if ts.len() == 0 {
                let results = direct_tag_search(&self.snippet_database.snippets, tag_name.as_str());
                self.search_results = results;
                self.search_results.len()
            } else {
                let results = known_tag_search(&self.tag_manager, &self.snippet_database, &ts);
                let n = results.len();
                self.search_results = results;
                let saved = concat2("#", tag_name.as_str());
                proof {
                    reveal_strlit("#");
                    assert("#"@ =~= seq!['#']);
                }
                self.save_to_recent_searches(saved, n);
                n
            }
        } else {
            let results = regular_search(&self.snippet_database, q.as_str());
            let n = results.len();
            self.search_results = results;
            self.save_to_recent_searches(q, n);
            n
        }
    }

    /// The first row of the tree that shows snippet `id`.
    fn snippet_row(&self, id: u128) -> (r: Option<usize>)
        ensures
            r is Some <==> crate::app_move::first_row(self.tree_items@, shows_snippet(id)) >= 0,
            r matches Some(j) ==> j == crate::app_move::first_row(self.tree_items@, shows_snippet(id)) && j < self.tree_items@.len(),
    {
        let ghost pred = shows_snippet(id);
        proof {
            crate::app_move::lemma_first_row(self.tree_items@, pred);
        }
        let mut i: usize = 0;
        while i < self.tree_items.len()
            invariant
                i <= self.tree_items.len(),
                pred == shows_snippet(id),
                forall|j: int| 0 <= j < i ==> !pred(#[trigger] self.tree_items@[j]),
                -1 <= crate::app_move::first_row(self.tree_items@, pred) < self.tree_items@.len(),
                crate::app_move::first_row(self.tree_items@, pred) >= 0 ==> pred(self.tree_items@[crate::app_move::first_row(self.tree_items@, pred)]),
                forall|j: int| 0 <= j < self.tree_items@.len() && (crate::app_move::first_row(self.tree_items@, pred) < 0 || j < crate::app_move::first_row(self.tree_items@, pred))
                    ==> !pred(#[trigger] self.tree_items@[j]),
            decreases self.tree_items.len() - i,
        {
            match self.tree_items[i] {
                TreeItem::Snippet(s, _) => {
                    if s == id {
                        proof {
                            assert(pred(self.tree_items@[i as int]));
                        }
                        return Some(i);
                    }
                },
                TreeItem::Notebook(_, _) => {},
            }
            i = i + 1;
        }
        None
    }

    /// Opens the selected search result: records the choice in the most
    /// recent search when it is the current query, rebuilds the tree, and
    /// selects the result's row (a notebook is then expanded and shown; a
    /// snippet's notebook is expanded). Returns whether the row was found.
    pub fn open_selected_search_result(&mut self) -> (r: bool)
        requires
            old(self).wf(),
            old(self).search_results@.len() > 0 ==> old(self).selected_search_result < old(self).search_results@.len(),
        ensures
            final(self).wf(),
            opened_result(*old(self), *final(self), r),
    {
        if self.search_results.len() == 0 {
            return false;
        }
        let idx = self.selected_search_result;
        let id = self.search_results[idx].id;
        let kind = self.search_results[idx].result_type;
        let parent = self.search_results[idx].parent_id;
        if self.recent_searches.len() > 0
            && crate::text::str_eq(self.recent_searches[0].query.as_str(), self.search_query.as_str()) {
            self.recent_searches[0].last_selected_type = Some(kind);
            self.recent_searches[0].last_selected_id = Some(id);
        }
        match kind {
            SearchResultType::Notebook => {
                self.refresh_tree_items();
                match crate::app_move::notebook_row(&self.tree_items, id) {
                    Some(row) => {
                        proof {
                            crate::app_move::lemma_nb_row(self.tree_items@, id, 0);
                        }
                        self.selected_tree_item = row;
                        self.expand_notebook(id);
                        self.code_snippets_state = CodeSnippetsState::NotebookView { notebook_id: id };
                        true
                    },
                    None => false,
                }
            },
            _ => {
                self.refresh_tree_items();
                match self.snippet_row(id) {
                    Some(row) => {
                        self.selected_tree_item = row;
                        match parent {
                            Some(nb) => {
                                self.expand_notebook(nb);
                            },
                            None => {},
                        }
                        true
                    },
                    None => false,
                }
            },
        }
    }
}

/// Some result points at `id` with kind `kind`.
pub open spec fn has_hit(h: Seq<HitView>, id: u128, kind: SearchResultType) -> bool {
    exists|j: int| 0 <= j < h.len() && h[j].id == id && h[j].kind == kind
}

/// A result found among some results is found among more that follow or
/// precede them.
proof fn lemma_has_hit_concat(x: Seq<HitView>, y: Seq<HitView>, id: u128, kind: SearchResultType)
    ensures
        has_hit(x, id, kind) ==> has_hit(x + y, id, kind),
        has_hit(y, id, kind) ==> has_hit(x + y, id, kind),
{
    if has_hit(x, id, kind) {
        let j = choose|j: int| 0 <= j < x.len() && x[j].id == id && x[j].kind == kind;
        assert((x + y)[j] == x[j]);
    }
    if has_hit(y, id, kind) {
        let j = choose|j: int| 0 <= j < y.len() && y[j].id == id && y[j].kind == kind;
        assert((x + y)[x.len() + j] == y[j]);
    }
}

/// A snippet whose title or code contains the query is found, as a
/// snippet or as code respectively.
proof fn lemma_snippet_found(s: CodeSnippet, q: Seq<char>)
    ensures
        seq_contains(lowercase(s.title@), q) ==> has_hit(snippet_hits(s, q), s.id, SearchResultType::Snippet),
        seq_contains(lowercase(s.content@), q) ==> has_hit(snippet_hits(s, q), s.id, SearchResultType::CodeContent),
{
    let h = snippet_hits(s, q);
    if seq_contains(lowercase(s.title@), q) {
        assert(h[0].id == s.id && h[0].kind == SearchResultType::Snippet);
    }
    if seq_contains(lowercase(s.content@), q) {
        assert(h[h.len() - 1].id == s.id && h[h.len() - 1].kind == SearchResultType::CodeContent);
    }
}

/// Every snippet whose title or code contains the query is found.
proof fn lemma_all_snippets_found(sns: Seq<CodeSnippet>, q: Seq<char>, i: int)
    requires
        0 <= i < sns.len(),
    ensures
        seq_contains(lowercase(sns[i].title@), q) ==> has_hit(all_snippet_hits(sns, q), sns[i].id, SearchResultType::Snippet),
        seq_contains(lowercase(sns[i].content@), q) ==> has_hit(all_snippet_hits(sns, q), sns[i].id, SearchResultType::CodeContent),
    decreases sns.len(),
{
    let d = sns.drop_last();
    let s = sns[i];
    if i < sns.len() - 1 {
        assert(d[i] == s);
        lemma_all_snippets_found(d, q, i);
    } else {
        lemma_snippet_found(s, q);
    }
    lemma_has_hit_concat(all_snippet_hits(d, q), snippet_hits(sns.last(), q), s.id, SearchResultType::Snippet);
    lemma_has_hit_concat(all_snippet_hits(d, q), snippet_hits(sns.last(), q), s.id, SearchResultType::CodeContent);
}

/// A text search (not a tag search) finds every snippet whose code
/// contains the query, ignoring case, as a code result, and every snippet
/// whose title contains it as a snippet result.
pub proof fn law_search_finds_snippets(a: App, b: App, query: Seq<char>, r: usize)
    requires
        searched(a, b, query, r),
        !all_whitespace(query),
        !is_tag_query(lowercase(query)),
    ensures
        forall|i: int| 0 <= i < a.snippet_database.snippets@.len()
            && seq_contains(lowercase(#[trigger] a.snippet_database.snippets@[i].content@), lowercase(query))
            ==> has_hit(hits_view(b.search_results@), a.snippet_database.snippets@[i].id, SearchResultType::CodeContent),
        forall|i: int| 0 <= i < a.snippet_database.snippets@.len()
            && seq_contains(lowercase(#[trigger] a.snippet_database.snippets@[i].title@), lowercase(query))
            ==> has_hit(hits_view(b.search_results@), a.snippet_database.snippets@[i].id, SearchResultType::Snippet),
{
    let q = lowercase(query);
    let db = a.snippet_database;
    assert forall|i: int| 0 <= i < db.snippets@.len()
        && seq_contains(lowercase(#[trigger] db.snippets@[i].content@), q)
        implies has_hit(hits_view(b.search_results@), db.snippets@[i].id, SearchResultType::CodeContent) by {
        lemma_all_snippets_found(db.snippets@, q, i);
        lemma_has_hit_concat(all_notebook_hits(db.notebooks@, q), all_snippet_hits(db.snippets@, q), db.snippets@[i].id, SearchResultType::CodeContent);
    }
    assert forall|i: int| 0 <= i < db.snippets@.len()
        && seq_contains(lowercase(#[trigger] db.snippets@[i].title@), q)
        implies has_hit(hits_view(b.search_results@), db.snippets@[i].id, SearchResultType::Snippet) by {
        lemma_all_snippets_found(db.snippets@, q, i);
        lemma_has_hit_concat(all_notebook_hits(db.notebooks@, q), all_snippet_hits(db.snippets@, q), db.snippets@[i].id, SearchResultType::Snippet);
    }
}

/// Every notebook whose name contains the query is found.
proof fn lemma_all_notebooks_found(nbs: Seq<Notebook>, q: Seq<char>, i: int)
    requires
        0 <= i < nbs.len(),
        seq_contains(lowercase(nbs[i].name@), q),
    ensures
        has_hit(all_notebook_hits(nbs, q), nbs[i].id, SearchResultType::Notebook),
    decreases nbs.len(),
{
    let d = nbs.drop_last();
    if i < nbs.len() - 1 {
        assert(d[i] == nbs[i]);
        lemma_all_notebooks_found(d, q, i);
    } else {
        let h = notebook_hits(nbs[i], q);
        assert(h[0].id == nbs[i].id && h[0].kind == SearchResultType::Notebook);
    }
    lemma_has_hit_concat(all_notebook_hits(d, q), notebook_hits(nbs.last(), q), nbs[i].id, SearchResultType::Notebook);
}

/// A text search (not a tag search) finds every notebook whose name
/// contains the query, ignoring case.
pub proof fn law_search_finds_notebooks(a: App, b: App, query: Seq<char>, r: usize)
    requires
        searched(a, b, query, r),
        !all_whitespace(query),
        !is_tag_query(lowercase(query)),
    ensures
        forall|i: int| 0 <= i < a.snippet_database.notebooks@.len()
            && seq_contains(lowercase(#[trigger] a.snippet_database.notebooks@[i].name@), lowercase(query))
            ==> has_hit(hits_view(b.search_results@), a.snippet_database.notebooks@[i].id, SearchResultType::Notebook),
{
    let q = lowercase(query);
    let db = a.snippet_database;
    assert forall|i: int| 0 <= i < db.notebooks@.len()
        && seq_contains(lowercase(#[trigger] db.notebooks@[i].name@), q)
        implies has_hit(hits_view(b.search_results@), db.notebooks@[i].id, SearchResultType::Notebook) by {
        lemma_all_notebooks_found(db.notebooks@, q, i);
        lemma_has_hit_concat(all_notebook_hits(db.notebooks@, q), all_snippet_hits(db.snippets@, q), db.notebooks@[i].id, SearchResultType::Notebook);
    }
}

/// A blank query finds nothing.
pub proof fn law_blank_search_finds_nothing(a: App, b: App, query: Seq<char>, r: usize)
    requires
        searched(a, b, query, r),
        all_whitespace(query),
    ensures
        r == 0,
        b.search_results@.len() == 0,
{
}

/// Each result for a snippet points at it, as a snippet or as code, and a
/// code result is given only when its code contains the query.
proof fn lemma_snippet_hits_sound(s: CodeSnippet, q: Seq<char>)
    ensures
        forall|j: int| 0 <= j < snippet_hits(s, q).len() ==> {
            let h = #[trigger] snippet_hits(s, q)[j];
            &&& h.id == s.id
            &&& h.kind != SearchResultType::Notebook
            &&& (h.kind == SearchResultType::CodeContent ==> seq_contains(lowercase(s.content@), q))
        },
{
    let labels = tag_labels(strings_view(s.tags@), q);
    let a = if seq_contains(lowercase(s.title@), q) {
        seq![HitView { id: s.id, name: s.title@, kind: SearchResultType::Snippet,
            context: "Snippet title match: "@ + s.title@, parent: Some(s.notebook_id) }]
    } else {
        Seq::empty()
    };
    let b = match s.description {
        Some(d) => if seq_contains(lowercase(d@), q) {
            seq![HitView { id: s.id, name: s.title@, kind: SearchResultType::Snippet,
                context: "Description: "@ + d@, parent: Some(s.notebook_id) }]
        } else {
            Seq::empty()
        },
        None => Seq::empty(),
    };
    let c = if labels.len() > 0 {
        seq![HitView { id: s.id, name: s.title@, kind: SearchResultType::Snippet,
            context: "Tags: "@ + join(labels, ", "@), parent: Some(s.notebook_id) }]
    } else {
        Seq::empty()
    };
    let d = if seq_contains(lowercase(s.content@), q) {
        seq![HitView { id: s.id, name: s.title@, kind: SearchResultType::CodeContent,
            context: line_context_from(lines(s.content@), q, 0), parent: Some(s.notebook_id) }]
    } else {
        Seq::empty()
    };
    let h = snippet_hits(s, q);
    assert(h == a + b + c + d);
    assert forall|j: int| 0 <= j < h.len() implies {
        let x = #[trigger] h[j];
        &&& x.id == s.id
        &&& x.kind != SearchResultType::Notebook
        &&& (x.kind == SearchResultType::CodeContent ==> seq_contains(lowercase(s.content@), q))
    } by {
        let ab = a + b;
        let abc = ab + c;
        if j < a.len() {
            assert(h[j] == a[j]);
        } else if j < ab.len() {
            assert(h[j] == b[j - a.len()]);
        } else if j < abc.len() {
            assert(h[j] == c[j - ab.len()]);
        } else {
            assert(h[j] == d[j - abc.len()]);
        }
    }
}

/// Each result for a list of snippets points at one of them, as a snippet
/// or as code, and a code result only at one whose code contains the query.
proof fn lemma_all_snippet_hits_sound(sns: Seq<CodeSnippet>, q: Seq<char>)
    ensures
        forall|j: int| 0 <= j < all_snippet_hits(sns, q).len() ==> {
            let h = #[trigger] all_snippet_hits(sns, q)[j];
            &&& h.kind != SearchResultType::Notebook
            &&& exists|i: int| 0 <= i < sns.len() && sns[i].id == h.id
                && (h.kind == SearchResultType::CodeContent ==> seq_contains(lowercase(sns[i].content@), q))
        },
    decreases sns.len(),
{
    if sns.len() > 0 {
        let dl = sns.drop_last();
        lemma_all_snippet_hits_sound(dl, q);
        lemma_snippet_hits_sound(sns.last(), q);
        let x = all_snippet_hits(dl, q);
        let y = snippet_hits(sns.last(), q);
        assert forall|j: int| 0 <= j < all_snippet_hits(sns, q).len() implies {
            let h = #[trigger] all_snippet_hits(sns, q)[j];
            &&& h.kind != SearchResultType::Notebook
            &&& exists|i: int| 0 <= i < sns.len() && sns[i].id == h.id
                && (h.kind == SearchResultType::CodeContent ==> seq_contains(lowercase(sns[i].content@), q))
        } by {
            if j < x.len() {
                assert(all_snippet_hits(sns, q)[j] == x[j]);
                let i = choose|i: int| 0 <= i < dl.len() && dl[i].id == x[j].id
                    && (x[j].kind == SearchResultType::CodeContent ==> seq_contains(lowercase(dl[i].content@), q));
                assert(sns[i] == dl[i]);
            } else {
                assert(all_snippet_hits(sns, q)[j] == y[j - x.len()]);
                assert(sns[sns.len() - 1] == sns.last());
            }
        }
    }
}

/// Each result for a list of notebooks points at one of them whose name or
/// description contains the query.
proof fn lemma_all_notebook_hits_sound(nbs: Seq<Notebook>, q: Seq<char>)
    ensures
        forall|j: int| 0 <= j < all_notebook_hits(nbs, q).len() ==> {
            let h = #[trigger] all_notebook_hits(nbs, q)[j];
            &&& h.kind == SearchResultType::Notebook
            &&& exists|i: int| 0 <= i < nbs.len() && nbs[i].id == h.id
                && (seq_contains(lowercase(nbs[i].name@), q)
                    || (nbs[i].description matches Some(d) && seq_contains(lowercase(d@), q)))
        },
    decreases nbs.len(),
{
    if nbs.len() > 0 {
        let dl = nbs.drop_last();
        lemma_all_notebook_hits_sound(dl, q);
        let n = nbs.last();
        let x = all_notebook_hits(dl, q);
        let y = notebook_hits(n, q);
        let a = if seq_contains(lowercase(n.name@), q) {
            seq![HitView { id: n.id, name: n.name@, kind: SearchResultType::Notebook,
                context: "Notebook name match: "@ + n.name@, parent: n.parent_id }]
        } else {
            Seq::empty()
        };
        let b = match n.description {
            Some(d) => if seq_contains(lowercase(d@), q) {
                seq![HitView { id: n.id, name: n.name@, kind: SearchResultType::Notebook,
                    context: "Description: "@ + d@, parent: n.parent_id }]
            } else {
                Seq::empty()
            },
            None => Seq::empty(),
        };
        assert(y == a + b);
        assert forall|j: int| 0 <= j < all_notebook_hits(nbs, q).len() implies {
            let h = #[trigger] all_notebook_hits(nbs, q)[j];
            &&& h.kind == SearchResultType::Notebook
            &&& exists|i: int| 0 <= i < nbs.len() && nbs[i].id == h.id
                && (seq_contains(lowercase(nbs[i].name@), q)
                    || (nbs[i].description matches Some(d) && seq_contains(lowercase(d@), q)))
        } by {
            if j < x.len() {
                assert(all_notebook_hits(nbs, q)[j] == x[j]);
                let i = choose|i: int| 0 <= i < dl.len() && dl[i].id == x[j].id
                    && (seq_contains(lowercase(dl[i].name@), q)
                        || (dl[i].description matches Some(d) && seq_contains(lowercase(d@), q)));
                assert(nbs[i] == dl[i]);
            } else {
                let k = j - x.len();
                assert(all_notebook_hits(nbs, q)[j] == y[k]);
                assert(nbs[nbs.len() - 1] == n);
                if k < a.len() {
                    assert(y[k] == a[k]);
                } else {
                    assert(y[k] == b[k - a.len()]);
                }
            }
        }
    }
}

/// Every result of a text search (not a tag search) is justified: a
/// notebook result names a notebook whose name or description contains the
/// query, a code result a snippet whose code contains it, and any other
/// result a snippet.
pub proof fn law_search_results_match(a: App, b: App, query: Seq<char>, r: usize)
    requires
        searched(a, b, query, r),
        !all_whitespace(query),
        !is_tag_query(lowercase(query)),
    ensures
        forall|j: int| 0 <= j < b.search_results@.len() ==> {
            let h = #[trigger] hits_view(b.search_results@)[j];
            let nbs = a.snippet_database.notebooks@;
            let sns = a.snippet_database.snippets@;
            let q = lowercase(query);
            &&& (h.kind == SearchResultType::Notebook ==> exists|i: int| 0 <= i < nbs.len() && nbs[i].id == h.id
                    && (seq_contains(lowercase(nbs[i].name@), q)
                        || (nbs[i].description matches Some(d) && seq_contains(lowercase(d@), q))))
            &&& (h.kind == SearchResultType::CodeContent ==> exists|i: int| 0 <= i < sns.len() && sns[i].id == h.id
                    && seq_contains(lowercase(sns[i].content@), q))
            &&& (h.kind == SearchResultType::Snippet ==> exists|i: int| 0 <= i < sns.len() && sns[i].id == h.id)
        },
{
    let q = lowercase(query);
    let db = a.snippet_database;
    let x = all_notebook_hits(db.notebooks@, q);
    let y = all_snippet_hits(db.snippets@, q);
    lemma_all_notebook_hits_sound(db.notebooks@, q);
    lemma_all_snippet_hits_sound(db.snippets@, q);
    let hv = hits_view(b.search_results@);
    assert(hv == x + y);
    assert forall|j: int| 0 <= j < b.search_results@.len() implies {
        let h = #[trigger] hits_view(b.search_results@)[j];
        let nbs = a.snippet_database.notebooks@;
        let sns = a.snippet_database.snippets@;
        &&& (h.kind == SearchResultType::Notebook ==> exists|i: int| 0 <= i < nbs.len() && nbs[i].id == h.id
                && (seq_contains(lowercase(nbs[i].name@), q)
                    || (nbs[i].description matches Some(d) && seq_contains(lowercase(d@), q))))
        &&& (h.kind == SearchResultType::CodeContent ==> exists|i: int| 0 <= i < sns.len() && sns[i].id == h.id
                && seq_contains(lowercase(sns[i].content@), q))
        &&& (h.kind == SearchResultType::Snippet ==> exists|i: int| 0 <= i < sns.len() && sns[i].id == h.id)
    } by {
        assert(hv.len() == b.search_results@.len());
        if j < x.len() {
            assert(hv[j] == x[j]);
        } else {
            assert(hv[j] == y[j - x.len()]);
        }
    }
}

/// Every result of `h` points at a snippet of `sns`, as a snippet result.
pub open spec fn snippet_results(h: Seq<HitView>, sns: Seq<CodeSnippet>) -> bool {
    forall|j: int| 0 <= j < h.len() ==> (#[trigger] h[j]).kind == SearchResultType::Snippet && has_sn(sns, h[j].id)
}

/// Results that extend `acc` keep it as their beginning.
pub open spec fn extends(h: Seq<HitView>, acc: Seq<HitView>) -> bool {
    acc.len() <= h.len() && forall|j: int| 0 <= j < acc.len() ==> #[trigger] h[j] == acc[j]
}

/// A result present before a push is present after it.
proof fn lemma_hits_have_push(h: Seq<HitView>, x: HitView, id: u128)
    ensures
        hits_have(h, id) ==> hits_have(h.push(x), id),
        hits_have(h.push(x), x.id),
{
    if hits_have(h, id) {
        let i = choose|i: int| 0 <= i < h.len() && #[trigger] h[i].id == id;
        assert(h.push(x)[i].id == id);
    }
    assert(h.push(x)[h.len() as int].id == x.id);
}

/// A result kept at the beginning is still found.
proof fn lemma_hits_have_extends(h: Seq<HitView>, acc: Seq<HitView>, id: u128)
    requires
        extends(h, acc),
        hits_have(acc, id),
    ensures
        hits_have(h, id),
{
    let i = choose|i: int| 0 <= i < acc.len() && #[trigger] acc[i].id == id;
    assert(h[i].id == id);
}

/// The snippets that carry tag `t` themselves are each found, and nothing
/// else is.
proof fn lemma_direct_tag_hits(sns: Seq<CodeSnippet>, t: Seq<char>)
    ensures
        forall|i: int| 0 <= i < sns.len() && snippet_has_tag(#[trigger] sns[i].tags@, t) ==> hits_have(direct_tag_hits(sns, t), sns[i].id),
        snippet_results(direct_tag_hits(sns, t), sns),
    decreases sns.len(),
{
    if sns.len() > 0 {
        let d = sns.drop_last();
        lemma_direct_tag_hits(d, t);
        let p = direct_tag_hits(d, t);
        let l = sns.last();
        let x = tagged_hit(l.id, l, "Tagged with #"@ + t);
        assert forall|i: int| 0 <= i < sns.len() && snippet_has_tag(#[trigger] sns[i].tags@, t) implies hits_have(direct_tag_hits(sns, t), sns[i].id) by {
            lemma_hits_have_push(p, x, sns[i].id);
            if i < d.len() {
                assert(d[i] == sns[i]);
            } else {
                assert(sns[i] == l);
            }
        }
        assert(has_sn(sns, l.id)) by { assert(sns[sns.len() - 1] == l); }
        assert forall|j: int| 0 <= j < direct_tag_hits(sns, t).len() implies
            (#[trigger] direct_tag_hits(sns, t)[j]).kind == SearchResultType::Snippet && has_sn(sns, direct_tag_hits(sns, t)[j].id) by {
            if j < p.len() {
                assert(direct_tag_hits(sns, t)[j] == p[j]);
                let i = choose|i: int| 0 <= i < d.len() && #[trigger] d[i].id == p[j].id;
                assert(sns[i] == d[i]);
            }
        }
    }
}

/// Adding the snippets linked to a tag keeps what was there, finds each
/// linked snippet that exists, and adds only snippet results.
proof fn lemma_linked_hits(acc: Seq<HitView>, ids: Seq<u128>, sns: Seq<CodeSnippet>, ctx: Seq<char>)
    requires
        snippet_results(acc, sns),
    ensures
        extends(linked_hits(acc, ids, sns, ctx), acc),
        snippet_results(linked_hits(acc, ids, sns, ctx), sns),
        forall|k: int| 0 <= k < ids.len() && has_sn(sns, #[trigger] ids[k]) ==> hits_have(linked_hits(acc, ids, sns, ctx), ids[k]),
    decreases ids.len(),
{
    if ids.len() > 0 {
        let d = ids.drop_last();
        lemma_linked_hits(acc, d, sns, ctx);
        let p = linked_hits(acc, d, sns, ctx);
        let id = ids.last();
        if has_sn(sns, id) {
            let x = tagged_hit(id, sns[sn_idx(sns, id)], ctx);
            assert forall|k: int| 0 <= k < ids.len() && has_sn(sns, #[trigger] ids[k]) implies hits_have(linked_hits(acc, ids, sns, ctx), ids[k]) by {
                lemma_hits_have_push(p, x, ids[k]);
                if k < d.len() {
                    assert(d[k] == ids[k]);
                }
            }
            assert forall|j: int| 0 <= j < p.push(x).len() implies
                (#[trigger] p.push(x)[j]).kind == SearchResultType::Snippet && has_sn(sns, p.push(x)[j].id) by {
                if j < p.len() {
                    assert(p.push(x)[j] == p[j]);
                }
            }
        } else {
            assert forall|k: int| 0 <= k < ids.len() && has_sn(sns, #[trigger] ids[k]) implies hits_have(linked_hits(acc, ids, sns, ctx), ids[k]) by {
                assert(d[k] == ids[k]);
            }
        }
    }
}

/// Adding the snippets that carry a tag keeps what was there, finds each
/// of them, and adds only snippet results.
proof fn lemma_unlisted_acc(acc: Seq<HitView>, sns: Seq<CodeSnippet>, t: Seq<char>, ctx: Seq<char>)
    requires
        snippet_results(acc, sns),
    ensures
        extends(unlisted_tag_hits(acc, sns, t, ctx), acc),
        snippet_results(unlisted_tag_hits(acc, sns, t, ctx), sns),
        forall|i: int| 0 <= i < sns.len() && snippet_has_tag(#[trigger] sns[i].tags@, t)
            ==> hits_have(unlisted_tag_hits(acc, sns, t, ctx), sns[i].id),
{
    lemma_unlisted_prefix(acc, sns, sns.len() as int, t, ctx);
    assert(sns.subrange(0, sns.len() as int) =~= sns);
}

/// Working on the first `n` snippets of `all`: what was there is kept, each
/// of them that carries the tag is found, and every result is a snippet of
/// `all`.
proof fn lemma_unlisted_prefix(acc: Seq<HitView>, all: Seq<CodeSnippet>, n: int, t: Seq<char>, ctx: Seq<char>)
    requires
        0 <= n <= all.len(),
        snippet_results(acc, all),
    ensures
        extends(unlisted_tag_hits(acc, all.subrange(0, n), t, ctx), acc),
        snippet_results(unlisted_tag_hits(acc, all.subrange(0, n), t, ctx), all),
        forall|i: int| 0 <= i < n && snippet_has_tag(#[trigger] all[i].tags@, t)
            ==> hits_have(unlisted_tag_hits(acc, all.subrange(0, n), t, ctx), all[i].id),
    decreases n,
{
    let sub = all.subrange(0, n);
    if n > 0 {
        lemma_unlisted_prefix(acc, all, n - 1, t, ctx);
        assert(sub.drop_last() =~= all.subrange(0, n - 1));
        let p = unlisted_tag_hits(acc, all.subrange(0, n - 1), t, ctx);
        let s = all[n - 1];
        assert(sub.last() == s);
        let x = tagged_hit(s.id, s, ctx);
        let h = unlisted_tag_hits(acc, sub, t, ctx);
        assert(has_sn(all, s.id));
        if snippet_has_tag(s.tags@, t) && !hits_have(p, s.id) {
            assert(h == p.push(x));
            assert forall|j: int| 0 <= j < h.len() implies (#[trigger] h[j]).kind == SearchResultType::Snippet && has_sn(all, h[j].id) by {
                if j < p.len() {
                    assert(h[j] == p[j]);
                }
            }
        } else {
            assert(h == p);
        }
        assert forall|i: int| 0 <= i < n && snippet_has_tag(#[trigger] all[i].tags@, t) implies hits_have(h, all[i].id) by {
            lemma_hits_have_push(p, x, all[i].id);
        }
    } else {
        assert(extends(acc, acc));
    }
}

/// The results for several tags keep what each tag added, find every
/// snippet linked to one of them or carrying its name, and are all snippet
/// results.
proof fn lemma_known_tag_hits(ts: Seq<Tag>, links: Seq<(u128, u128)>, sns: Seq<CodeSnippet>)
    ensures
        snippet_results(known_tag_hits(ts, links, sns), sns),
        forall|m: int, i: int| #![trigger ts[m], sns[i]] 0 <= m < ts.len() && 0 <= i < sns.len()
            && (snippet_has_tag(sns[i].tags@, ts[m].name@) || links.contains((sns[i].id, ts[m].id)))
            ==> hits_have(known_tag_hits(ts, links, sns), sns[i].id),
    decreases ts.len(),
{
    if ts.len() > 0 {
        let d = ts.drop_last();
        lemma_known_tag_hits(d, links, sns);
        let p = known_tag_hits(d, links, sns);
        let t = ts.last();
        let ctx = "Tagged with "@ + (seq!['#'] + t.name@);
        let ids = snippets_with(links, t.id);
        lemma_linked_hits(p, ids, sns, ctx);
        let q = linked_hits(p, ids, sns, ctx);
        lemma_unlisted_acc(q, sns, t.name@, ctx);
        let h = known_tag_hits(ts, links, sns);
        assert forall|m: int, i: int| #![trigger ts[m], sns[i]] 0 <= m < ts.len() && 0 <= i < sns.len()
            && (snippet_has_tag(sns[i].tags@, ts[m].name@) || links.contains((sns[i].id, ts[m].id)))
            implies hits_have(h, sns[i].id) by {
            if m < d.len() {
                assert(d[m] == ts[m]);
                assert(hits_have(p, sns[i].id));
                lemma_hits_have_extends(q, p, sns[i].id);
                lemma_hits_have_extends(h, q, sns[i].id);
            } else {
                assert(ts[m] == t);
                if snippet_has_tag(sns[i].tags@, t.name@) {
                } else {
                    crate::laws::law_linked_snippet_listed(links, sns[i].id, t.id);
                    let k = choose|k: int| 0 <= k < ids.len() && ids[k] == sns[i].id;
                    assert(has_sn(sns, ids[k]));
                    lemma_hits_have_extends(h, q, sns[i].id);
                }
            }
        }
    }
}

/// A tag search (`#` and a tag) gives only snippet results, each naming a
/// snippet. When no known tag's name contains the tag, it finds every
/// snippet that carries the tag itself; otherwise it finds every snippet
/// linked to a known tag whose name contains it, or carrying that tag's
/// name.
pub proof fn law_tag_search_finds_tagged(a: App, b: App, query: Seq<char>, r: usize)
    requires
        searched(a, b, query, r),
        !all_whitespace(query),
        is_tag_query(lowercase(query)),
    ensures
        ({
            let sns = a.snippet_database.snippets@;
            let t = lowercase(query).drop_first();
            let ts = tags_matching(a.tag_manager.tags@, t);
            let hv = hits_view(b.search_results@);
            &&& snippet_results(hv, sns)
            &&& (ts.len() == 0 ==> forall|i: int| 0 <= i < sns.len() && snippet_has_tag(#[trigger] sns[i].tags@, t)
                    ==> hits_have(hv, sns[i].id))
            &&& forall|m: int, i: int| #![trigger ts[m], sns[i]] 0 <= m < ts.len() && 0 <= i < sns.len()
                    && (snippet_has_tag(sns[i].tags@, ts[m].name@) || a.tag_manager.links@.contains((sns[i].id, ts[m].id)))
                    ==> hits_have(hv, sns[i].id)
        }),
{
    let sns = a.snippet_database.snippets@;
    let t = lowercase(query).drop_first();
    let ts = tags_matching(a.tag_manager.tags@, t);
    lemma_direct_tag_hits(sns, t);
    lemma_known_tag_hits(ts, a.tag_manager.links@, sns);
}

} // verus!
