//! Export and import of the snippet database.
//!
//! An export holds a chosen part of the database and the tags of the
//! snippets it holds; an import merges such data into the database.
//! Writing and reading the files is left to the caller.
use vstd::prelude::*;
use crate::database::{SnippetDatabase, hasv, shasv, upserted, sn_upserted, lemma_views_distinct};
use crate::notebook::{Notebook, NotebookView, notebooks_view, ids_contain, clone_ids, strings_view};
use crate::snippet::{CodeSnippet, SnippetView, snippets_view};
use crate::tags::{Tag, TagManager, snippets_with};
use crate::text::{copy_str, str_eq};
use crate::ui_state::ExportFormat;

verus! {

/// What to export.
#[derive(Debug)]
pub struct ExportOptions {
    pub format: ExportFormat,
    pub include_content: bool,
    /// Only these notebooks and their snippets, when given.
    pub notebook_ids: Option<Vec<u128>>,
    pub include_favorites_only: bool,
}

impl ExportOptions {
    /// Everything, with content, as JSON.
    pub fn default() -> (r: ExportOptions)
        ensures
            r.format == ExportFormat::JSON,
            r.include_content,
            r.notebook_ids is None,
            !r.include_favorites_only,
    {
        ExportOptions { format: ExportFormat::JSON, include_content: true, notebook_ids: None, include_favorites_only: false }
    }

    /// The notebooks asked for, as a sequence.
    pub open spec fn ids(self) -> Option<Seq<u128>> {
        match self.notebook_ids {
            Some(v) => Some(v@),
            None => None,
        }
    }
}

/// The data of an export. Tags are kept as pairs of a tag name and the
/// ids of the exported snippets that carry it; names are distinct.
#[derive(Debug)]
pub struct ExportData {
    pub version: String,
    /// When the export was made, in milliseconds since the Unix epoch.
    pub created_at: i64,
    pub notebooks: Vec<Notebook>,
    pub snippets: Vec<CodeSnippet>,
    pub root_notebooks: Vec<u128>,
    pub tags: Vec<(String, Vec<u128>)>,
}

/// The tag pairs taken as sequences.
pub open spec fn tag_pairs_view(v: Seq<(String, Vec<u128>)>) -> Seq<(Seq<char>, Seq<u128>)> {
    v.map_values(|p: (String, Vec<u128>)| (p.0@, p.1@))
}

/// An id passes the notebook filter: there is none, or it lists the id.
pub open spec fn chosen(ids: Option<Seq<u128>>, id: u128) -> bool {
    match ids {
        Some(v) => v.contains(id),
        None => true,
    }
}

/// The notebooks that pass the filter, in order.
pub open spec fn exported_notebooks(nbs: Seq<NotebookView>, ids: Option<Seq<u128>>) -> Seq<NotebookView>
    decreases nbs.len(),
{
    if nbs.len() == 0 {
        Seq::empty()
    } else {
        let p = exported_notebooks(nbs.drop_last(), ids);
        if chosen(ids, nbs.last().id) { p.push(nbs.last()) } else { p }
    }
}

/// The root notebooks that pass the filter, in order.
pub open spec fn exported_roots(roots: Seq<u128>, ids: Option<Seq<u128>>) -> Seq<u128>
    decreases roots.len(),
{
    if roots.len() == 0 {
        Seq::empty()
    } else {
        let p = exported_roots(roots.drop_last(), ids);
        if chosen(ids, roots.last()) { p.push(roots.last()) } else { p }
    }
}

/// A snippet as exported: without its content unless content is included.
pub open spec fn exported_snippet(v: SnippetView, content: bool) -> SnippetView {
    if content { v } else { SnippetView { content: Seq::empty(), ..v } }
}

/// The snippets whose notebook passes the filter (and that are favorites,
/// when only favorites are asked for), as exported, in order.
pub open spec fn exported_snippets(sns: Seq<SnippetView>, o: ExportOptions) -> Seq<SnippetView>
    decreases sns.len(),
{
    if sns.len() == 0 {
        Seq::empty()
    } else {
        let p = exported_snippets(sns.drop_last(), o);
        let v = sns.last();
        if chosen(o.ids(), v.notebook_id) && (!o.include_favorites_only || v.is_favorite) {
            p.push(exported_snippet(v, o.include_content))
        } else {
            p
        }
    }
}

/// Some snippet view has id `id`.
pub open spec fn has_snippet_view(sns: Seq<SnippetView>, id: u128) -> bool {
    exists|i: int| 0 <= i < sns.len() && #[trigger] sns[i].id == id
}

/// The ids among `ids` that name one of `sns`, in order.
pub open spec fn ids_in(ids: Seq<u128>, sns: Seq<SnippetView>) -> Seq<u128>
    decreases ids.len(),
{
    if ids.len() == 0 {
        Seq::empty()
    } else {
        let p = ids_in(ids.drop_last(), sns);
        if has_snippet_view(sns, ids.last()) { p.push(ids.last()) } else { p }
    }
}

/// The position of the pair named `name`, or -1.
pub open spec fn pair_pos(v: Seq<(Seq<char>, Seq<u128>)>, name: Seq<char>) -> int
    decreases v.len(),
{
    if v.len() == 0 {
        -1
    } else if v.last().0 == name {
        v.len() - 1
    } else {
        pair_pos(v.drop_last(), name)
    }
}

/// The pairs after `(name, ids)` is stored under `name` (as `HashMap::insert`).
pub open spec fn pair_stored(v: Seq<(Seq<char>, Seq<u128>)>, name: Seq<char>, ids: Seq<u128>) -> Seq<(Seq<char>, Seq<u128>)> {
    if pair_pos(v, name) >= 0 { v.update(pair_pos(v, name), (name, ids)) } else { v.push((name, ids)) }
}

/// The tag pairs of an export holding `kept`: for each tag in order, its
/// name with the exported snippets linked to it, when there are any.
pub open spec fn exported_tags(tags: Seq<Tag>, links: Seq<(u128, u128)>, kept: Seq<SnippetView>) -> Seq<(Seq<char>, Seq<u128>)>
    decreases tags.len(),
{
    if tags.len() == 0 {
        Seq::empty()
    } else {
        let p = exported_tags(tags.drop_last(), links, kept);
        let t = tags.last();
        let ids = ids_in(snippets_with(links, t.id), kept);
        if ids.len() > 0 { pair_stored(p, t.name@, ids) } else { p }
    }
}

/// The notebooks after the imported ones are merged in order: each is
/// stored when its id is new or when overwriting.
pub open spec fn merged_notebooks(nbs: Seq<NotebookView>, imp: Seq<NotebookView>, ow: bool) -> Seq<NotebookView>
    decreases imp.len(),
{
    if imp.len() == 0 {
        nbs
    } else {
        let m = merged_notebooks(nbs, imp.drop_last(), ow);
        if !hasv(m, imp.last().id) || ow { upserted(m, imp.last()) } else { m }
    }
}

/// How many imported notebooks `merged_notebooks` stores.
pub open spec fn notebooks_added(nbs: Seq<NotebookView>, imp: Seq<NotebookView>, ow: bool) -> nat
    decreases imp.len(),
{
    if imp.len() == 0 {
        0
    } else {
        let m = merged_notebooks(nbs, imp.drop_last(), ow);
        notebooks_added(nbs, imp.drop_last(), ow) + if !hasv(m, imp.last().id) || ow { 1nat } else { 0nat }
    }
}

/// The roots after the imported ones are added in order: each that is
/// not a root yet and names a notebook of `nbs`.
pub open spec fn merged_roots(roots: Seq<u128>, imp: Seq<u128>, nbs: Seq<NotebookView>) -> Seq<u128>
    decreases imp.len(),
{
    if imp.len() == 0 {
        roots
    } else {
        let r = merged_roots(roots, imp.drop_last(), nbs);
        if !r.contains(imp.last()) && hasv(nbs, imp.last()) { r.push(imp.last()) } else { r }
    }
}

/// Whether the imported snippet `v` is stored when merged into `m`: its id
/// is new or overwriting is on, and its notebook is one of `nbs`.
pub open spec fn snippet_taken(m: Seq<SnippetView>, v: SnippetView, ow: bool, nbs: Seq<NotebookView>) -> bool {
    (!shasv(m, v.id) || ow) && hasv(nbs, v.notebook_id)
}

/// The snippets after the imported ones are merged in order.
pub open spec fn merged_snippets(sns: Seq<SnippetView>, imp: Seq<SnippetView>, ow: bool, nbs: Seq<NotebookView>) -> Seq<SnippetView>
    decreases imp.len(),
{
    if imp.len() == 0 {
        sns
    } else {
        let m = merged_snippets(sns, imp.drop_last(), ow, nbs);
        if snippet_taken(m, imp.last(), ow, nbs) { sn_upserted(m, imp.last()) } else { m }
    }
}

/// How many imported snippets `merged_snippets` stores.
pub open spec fn snippets_added(sns: Seq<SnippetView>, imp: Seq<SnippetView>, ow: bool, nbs: Seq<NotebookView>) -> nat
    decreases imp.len(),
{
    if imp.len() == 0 {
        0
    } else {
        let m = merged_snippets(sns, imp.drop_last(), ow, nbs);
        snippets_added(sns, imp.drop_last(), ow, nbs) + if snippet_taken(m, imp.last(), ow, nbs) { 1nat } else { 0nat }
    }
}

/// The database `b` is `a` with `data` merged in (notebooks, then roots,
/// then snippets), and `counts` says how many notebooks and snippets were stored.
pub open spec fn merged(a: SnippetDatabase, b: SnippetDatabase, data: ExportData, ow: bool, counts: (usize, usize)) -> bool {
    let nbs = merged_notebooks(a@.notebooks, notebooks_view(data.notebooks@), ow);
    &&& b@.notebooks == nbs
    &&& b@.roots == merged_roots(a@.roots, data.root_notebooks@, nbs)
    &&& b@.snippets == merged_snippets(a@.snippets, snippets_view(data.snippets@), ow, nbs)
    &&& counts.0 == notebooks_added(a@.notebooks, notebooks_view(data.notebooks@), ow)
    &&& counts.1 == snippets_added(a@.snippets, snippets_view(data.snippets@), ow, nbs)
}

/// `pair_pos` is -1 or a position holding the name.
proof fn lemma_pair_pos(v: Seq<(Seq<char>, Seq<u128>)>, name: Seq<char>)
    ensures
        -1 <= pair_pos(v, name) < v.len(),
        pair_pos(v, name) >= 0 ==> v[pair_pos(v, name)].0 == name,
        pair_pos(v, name) < 0 ==> forall|i: int| 0 <= i < v.len() ==> v[i].0 != name,
    decreases v.len(),
{
    if v.len() > 0 && v.last().0 != name {
        lemma_pair_pos(v.drop_last(), name);
        if pair_pos(v, name) < 0 {
            assert forall|i: int| 0 <= i < v.len() implies v[i].0 != name by {
                if i < v.len() - 1 {
                    assert(v[i] == v.drop_last()[i]);
                }
            }
        }
    }
}

/// The position of the pair named `name` in a list of tag pairs.
fn find_pair(v: &Vec<(String, Vec<u128>)>, name: &str) -> (r: Option<usize>)
    ensures
        r is Some <==> pair_pos(tag_pairs_view(v@), name@) >= 0,
        r matches Some(i) ==> i == pair_pos(tag_pairs_view(v@), name@),
{
    let ghost tv = tag_pairs_view(v@);
    proof {
        assert(tv.subrange(0, v@.len() as int) =~= tv);
    }
    let mut i: usize = v.len();
    while i > 0
        invariant
            i <= v.len(),
            tv == tag_pairs_view(v@),
            pair_pos(tv, name@) == pair_pos(tv.subrange(0, i as int), name@),
        decreases i,
    {
        let j = i - 1;
        proof {
            assert(tv.subrange(0, i as int).drop_last() =~= tv.subrange(0, j as int));
            assert(tv.subrange(0, i as int).last() == tv[j as int]);
            assert(tv[j as int].0 == v@[j as int].0@);
        }
        if str_eq(v[j].0.as_str(), name) {
            return Some(j);
        }
        i = j;
    }
    proof {
        assert(tv.subrange(0, 0) =~= Seq::<(Seq<char>, Seq<u128>)>::empty());
    }
    None
}

/// Whether some snippet of the list has id `id`.
fn has_snippet_id(sns: &Vec<CodeSnippet>, id: u128) -> (r: bool)
    ensures
        r == has_snippet_view(snippets_view(sns@), id),
{
    let mut i: usize = 0;
    while i < sns.len()
        invariant
            i <= sns.len(),
            forall|j: int| 0 <= j < i ==> sns@[j].id != id,
        decreases sns.len() - i,
    {
        if sns[i].id == id {
            proof {
                assert(snippets_view(sns@)[i as int].id == id);
            }
            return true;
        }
        i = i + 1;
    }
    proof {
        if has_snippet_view(snippets_view(sns@), id) {
            let j = choose|j: int| 0 <= j < sns@.len() && snippets_view(sns@)[j].id == id;
            assert(sns@[j].id == id);
        }
    }
    false
}

impl ExportData {
    /// The part of the database that the options choose: the chosen
    /// notebooks and roots, and the snippets of chosen notebooks (only
    /// favorites, when asked), without content unless it is included. No tags.
    pub fn from_database(db: &SnippetDatabase, options: &ExportOptions) -> (r: ExportData)
        ensures
            r.version@ == "0.1.0"@,
            notebooks_view(r.notebooks@) == exported_notebooks(db@.notebooks, options.ids()),
            r.root_notebooks@ == exported_roots(db@.roots, options.ids()),
            snippets_view(r.snippets@) == exported_snippets(db@.snippets, *options),
            r.tags@.len() == 0,
    {
        let mut notebooks: Vec<Notebook> = Vec::new();
        let mut i: usize = 0;
        while i < db.notebooks.len()
            invariant
                i <= db.notebooks.len(),
                notebooks_view(notebooks@) == exported_notebooks(notebooks_view(db.notebooks@.subrange(0, i as int)), options.ids()),
            decreases db.notebooks.len() - i,
        {
            proof {
                assert(notebooks_view(db.notebooks@.subrange(0, i + 1)).drop_last() =~= notebooks_view(db.notebooks@.subrange(0, i as int)));
                assert(notebooks_view(db.notebooks@.subrange(0, i + 1)).last() == db.notebooks@[i as int]@);
            }
            let keep = match &options.notebook_ids {
                Some(v) => ids_contain(v, db.notebooks[i].id),
                None => true,
            };
            if keep {
                let ghost before = notebooks_view(notebooks@);
                notebooks.push(db.notebooks[i].copy());
                proof {
                    assert(notebooks_view(notebooks@) =~= before.push(db.notebooks@[i as int]@));
                }
            }
            i = i + 1;
        }
        proof {
            assert(db.notebooks@.subrange(0, db.notebooks@.len() as int) =~= db.notebooks@);
        }
        let mut roots: Vec<u128> = Vec::new();
        let mut j: usize = 0;
        while j < db.root_notebooks.len()
            invariant
                j <= db.root_notebooks.len(),
                roots@ == exported_roots(db.root_notebooks@.subrange(0, j as int), options.ids()),
            decreases db.root_notebooks.len() - j,
        {
            proof {
                assert(db.root_notebooks@.subrange(0, j + 1).drop_last() =~= db.root_notebooks@.subrange(0, j as int));
            }
            let keep = match &options.notebook_ids {
                Some(v) => ids_contain(v, db.root_notebooks[j]),
                None => true,
            };
            if keep {
                roots.push(db.root_notebooks[j]);
            }
            j = j + 1;
        }
        proof {
            assert(db.root_notebooks@.subrange(0, db.root_notebooks@.len() as int) =~= db.root_notebooks@);
        }
        let mut snippets: Vec<CodeSnippet> = Vec::new();
        let mut k: usize = 0;
        while k < db.snippets.len()
            invariant
                k <= db.snippets.len(),
                snippets_view(snippets@) == exported_snippets(snippets_view(db.snippets@.subrange(0, k as int)), *options),
            decreases db.snippets.len() - k,
        {
            proof {
                assert(snippets_view(db.snippets@.subrange(0, k + 1)).drop_last() =~= snippets_view(db.snippets@.subrange(0, k as int)));
                assert(snippets_view(db.snippets@.subrange(0, k + 1)).last() == db.snippets@[k as int]@);
            }
            let mut wanted = match &options.notebook_ids {
                Some(v) => ids_contain(v, db.snippets[k].notebook_id),
                None => true,
            };
            if options.include_favorites_only {
                wanted = wanted && db.snippets[k].is_favorite;
            }
            if wanted {
                let ghost before = snippets_view(snippets@);
                let mut c = db.snippets[k].clone();
                if !options.include_content {
                    c.content = String::new();
                }
                snippets.push(c);
                proof {
                    assert(snippets_view(snippets@) =~= before.push(exported_snippet(db.snippets@[k as int]@, options.include_content)));
                }
            }
            k = k + 1;
        }
        proof {
            assert(db.snippets@.subrange(0, db.snippets@.len() as int) =~= db.snippets@);
        }
        ExportData {
            version: copy_str("0.1.0"),
            created_at: crate::ids::now_millis(),
            notebooks,
            snippets,
            root_notebooks: roots,
            tags: Vec::new(),
        }
    }

    /// As `from_database`, with the tag pairs of the exported snippets.
    pub fn from_database_with_tags(db: &SnippetDatabase, tag_manager: &TagManager, options: &ExportOptions) -> (r: ExportData)
        ensures
            r.version@ == "0.1.0"@,
            notebooks_view(r.notebooks@) == exported_notebooks(db@.notebooks, options.ids()),
            r.root_notebooks@ == exported_roots(db@.roots, options.ids()),
            snippets_view(r.snippets@) == exported_snippets(db@.snippets, *options),
            tag_pairs_view(r.tags@) == exported_tags(tag_manager.tags@, tag_manager.links@, snippets_view(r.snippets@)),
    {
        let mut data = Self::from_database(db, options);
        let ghost kept = snippets_view(data.snippets@);
        let mut pairs: Vec<(String, Vec<u128>)> = Vec::new();
        let mut i: usize = 0;
        while i < tag_manager.tags.len()
            invariant
                i <= tag_manager.tags.len(),
                kept == snippets_view(data.snippets@),
                tag_pairs_view(pairs@) == exported_tags(tag_manager.tags@.subrange(0, i as int), tag_manager.links@, kept),
            decreases tag_manager.tags.len() - i,
        {
            proof {
                assert(tag_manager.tags@.subrange(0, i + 1).drop_last() =~= tag_manager.tags@.subrange(0, i as int));
                assert(tag_manager.tags@.subrange(0, i + 1).last() == tag_manager.tags@[i as int]);
            }
            let linked = tag_manager.tagged_snippet_ids(tag_manager.tags[i].id);
            let mut ids: Vec<u128> = Vec::new();
            let mut j: usize = 0;
            while j < linked.len()
                invariant
                    j <= linked.len(),
                    kept == snippets_view(data.snippets@),
                    ids@ == ids_in(linked@.subrange(0, j as int), kept),
                decreases linked.len() - j,
            {
                proof {
                    assert(linked@.subrange(0, j + 1).drop_last() =~= linked@.subrange(0, j as int));
                }
                if has_snippet_id(&data.snippets, linked[j]) {
                    ids.push(linked[j]);
                }
                j = j + 1;
            }
            proof {
                assert(linked@.subrange(0, linked@.len() as int) =~= linked@);
            }
            if ids.len() > 0 {
                let ghost before = tag_pairs_view(pairs@);
                let ghost iv = ids@;
                let name = tag_manager.tags[i].name.clone();
                proof {
                    lemma_pair_pos(before, name@);
                }
                match find_pair(&pairs, name.as_str()) {
                    Some(p) => {
                        pairs.set(p, (name, ids));
                        proof {
                            assert(tag_pairs_view(pairs@) =~= before.update(p as int, (tag_manager.tags@[i as int].name@, iv)));
                        }
                    },
                    None => {
                        pairs.push((name, ids));
                        proof {
                            assert(tag_pairs_view(pairs@) =~= before.push((tag_manager.tags@[i as int].name@, iv)));
                        }
                    },
                }
            }
            i = i + 1;
        }
        proof {
            assert(tag_manager.tags@.subrange(0, tag_manager.tags@.len() as int) =~= tag_manager.tags@);
        }
        data.tags = pairs;
        data
    }
}

/// Merges `data` into the database (see `merged`).
fn merge_data(db: &mut SnippetDatabase, data: &ExportData, overwrite_existing: bool) -> (r: (usize, usize))
    requires
        old(db).wf(),
    ensures
        final(db).wf(),
        merged(*old(db), *final(db), *data, overwrite_existing, r),
{
    let ghost imp_n = notebooks_view(data.notebooks@);
    let mut added_nb: usize = 0;
    let mut i: usize = 0;
    while i < data.notebooks.len()
        invariant
            db.wf(),
            i <= data.notebooks.len(),
            imp_n == notebooks_view(data.notebooks@),
            db@.notebooks == merged_notebooks(old(db)@.notebooks, imp_n.subrange(0, i as int), overwrite_existing),
            db@.snippets == old(db)@.snippets,
            db@.roots == old(db)@.roots,
            added_nb == notebooks_added(old(db)@.notebooks, imp_n.subrange(0, i as int), overwrite_existing),
            added_nb <= i,
        decreases data.notebooks.len() - i,
    {
        proof {
            assert(imp_n.subrange(0, i + 1).drop_last() =~= imp_n.subrange(0, i as int));
            assert(imp_n.subrange(0, i + 1).last() == data.notebooks@[i as int]@);
            lemma_views_distinct(db.notebooks@, db.snippets@);
        }
        if !db.contains_notebook(data.notebooks[i].id) || overwrite_existing {
            db.upsert_notebook(data.notebooks[i].copy());
            added_nb = added_nb + 1;
        }
        i = i + 1;
    }
    proof {
        assert(imp_n.subrange(0, imp_n.len() as int) =~= imp_n);
    }
    let ghost nbs = db@.notebooks;
    let mut j: usize = 0;
    while j < data.root_notebooks.len()
        invariant
            db.wf(),
            j <= data.root_notebooks.len(),
            nbs == db@.notebooks,
            nbs == merged_notebooks(old(db)@.notebooks, notebooks_view(data.notebooks@), overwrite_existing),
            added_nb == notebooks_added(old(db)@.notebooks, notebooks_view(data.notebooks@), overwrite_existing),
            db@.snippets == old(db)@.snippets,
            db@.roots == merged_roots(old(db)@.roots, data.root_notebooks@.subrange(0, j as int), nbs),
        decreases data.root_notebooks.len() - j,
    {
        proof {
            assert(data.root_notebooks@.subrange(0, j + 1).drop_last() =~= data.root_notebooks@.subrange(0, j as int));
            lemma_views_distinct(db.notebooks@, db.snippets@);
        }
        let id = data.root_notebooks[j];
        if !ids_contain(&db.root_notebooks, id) && db.contains_notebook(id) {
            db.root_notebooks.push(id);
        }
        j = j + 1;
    }
    proof {
        assert(data.root_notebooks@.subrange(0, data.root_notebooks@.len() as int) =~= data.root_notebooks@);
    }
    let ghost imp_s = snippets_view(data.snippets@);
    let mut added_sn: usize = 0;
    let mut k: usize = 0;
    while k < data.snippets.len()
        invariant
            db.wf(),
            k <= data.snippets.len(),
            imp_s == snippets_view(data.snippets@),
            nbs == db@.notebooks,
            nbs == merged_notebooks(old(db)@.notebooks, notebooks_view(data.notebooks@), overwrite_existing),
            added_nb == notebooks_added(old(db)@.notebooks, notebooks_view(data.notebooks@), overwrite_existing),
            db@.roots == merged_roots(old(db)@.roots, data.root_notebooks@, nbs),
            db@.snippets == merged_snippets(old(db)@.snippets, imp_s.subrange(0, k as int), overwrite_existing, nbs),
            added_sn == snippets_added(old(db)@.snippets, imp_s.subrange(0, k as int), overwrite_existing, nbs),
            added_sn <= k,
        decreases data.snippets.len() - k,
    {
        proof {
            assert(imp_s.subrange(0, k + 1).drop_last() =~= imp_s.subrange(0, k as int));
            assert(imp_s.subrange(0, k + 1).last() == data.snippets@[k as int]@);
            lemma_views_distinct(db.notebooks@, db.snippets@);
        }
        if (!db.contains_snippet(data.snippets[k].id) || overwrite_existing) && db.contains_notebook(data.snippets[k].notebook_id) {
            db.upsert_snippet(data.snippets[k].clone());
            added_sn = added_sn + 1;
        }
        k = k + 1;
    }
    proof {
        assert(imp_s.subrange(0, imp_s.len() as int) =~= imp_s);
    }
    (added_nb, added_sn)
}

/// Merges imported data into the database: notebooks whose id is new (or
/// all, when overwriting), roots that are new and name a notebook, and
/// snippets whose id is new (or all, when overwriting) and whose notebook
/// exists. Returns how many notebooks and snippets were stored.
pub fn merge_import_into_database(db: &mut SnippetDatabase, import_data: ExportData, overwrite_existing: bool) -> (r: Result<(usize, usize), String>)
    requires
        old(db).wf(),
    ensures
        final(db).wf(),
        r matches Ok(c) && merged(*old(db), *final(db), import_data, overwrite_existing, c),
{
    let c = merge_data(db, &import_data, overwrite_existing);
    Ok(c)
}

/// As `merge_import_into_database`, then gives each imported snippet that
/// the database holds the tags the data names for it. No tag is lost.
pub fn merge_import_into_database_with_tags(db: &mut SnippetDatabase, tag_manager: &mut TagManager,
    import_data: ExportData, overwrite_existing: bool) -> (r: Result<(usize, usize), String>)
    requires
        old(db).wf(),
        old(tag_manager).wf(),
    ensures
        final(db).wf(),
        final(tag_manager).wf(),
        r matches Ok(c) && merged(*old(db), *final(db), import_data, overwrite_existing, c),
        forall|t: u128| crate::tags::has_tag_id(old(tag_manager).tags@, t) ==> crate::tags::has_tag_id(final(tag_manager).tags@, t),
{
    let c = merge_data(db, &import_data, overwrite_existing);
    let mut i: usize = 0;
    while i < import_data.tags.len()
        invariant
            db.wf(),
            tag_manager.wf(),
            i <= import_data.tags.len(),
            forall|t: u128| crate::tags::has_tag_id(old(tag_manager).tags@, t) ==> crate::tags::has_tag_id(tag_manager.tags@, t),
        decreases import_data.tags.len() - i,
    {
        let mut j: usize = 0;
        while j < import_data.tags[i].1.len()
            invariant
                db.wf(),
                tag_manager.wf(),
                i < import_data.tags.len(),
                j <= import_data.tags@[i as int].1.len(),
                forall|t: u128| crate::tags::has_tag_id(old(tag_manager).tags@, t) ==> crate::tags::has_tag_id(tag_manager.tags@, t),
            decreases import_data.tags@[i as int].1.len() - j,
        {
            let id = import_data.tags[i].1[j];
            if db.contains_snippet(id) {
                tag_manager.add_tag_to_snippet(id, import_data.tags[i].0.clone());
            }
            j = j + 1;
        }
        i = i + 1;
    }
    Ok(c)
}

} // verus!
