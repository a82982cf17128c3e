//! The command line: which command the arguments ask for, and what each
//! command finds in the database. Printing is left to the caller.
use vstd::prelude::*;
use crate::database::SnippetDatabase;
use crate::notebook::Notebook;
use crate::snippet::CodeSnippet;
use crate::text::{lowercase, seq_contains, to_lower, str_contains, str_eq, concat3, copy_str};
use crate::database::{has_nb, nb_idx};
use crate::notebook::clone_ids;

verus! {

/// A command of the command line.
#[derive(Debug)]
pub enum CliCommand {
    /// No argument: show the help.
    Help,
    /// `list` or `ls`, with the notebook to show when one is named.
    List(Option<String>),
    /// `notebooks`.
    Notebooks,
    /// `favorites` or `fav`.
    Favorites,
    /// `show`, `view` or `cat`, with the snippet when one is named.
    Show(Option<String>),
    /// `search` or `find`, with the query when one is given.
    Search(Option<String>),
    /// Any other word.
    Unknown(String),
}

/// The second argument, if there is one.
pub open spec fn second(args: Seq<String>) -> Option<String> {
    if args.len() >= 2 { Some(args[1]) } else { None }
}

/// The command the arguments ask for.
pub open spec fn command_of(args: Seq<String>) -> CliCommand {
    if args.len() == 0 {
        CliCommand::Help
    } else {
        let w = args[0]@;
        if w == "list"@ || w == "ls"@ {
            CliCommand::List(second(args))
        } else if w == "notebooks"@ {
            CliCommand::Notebooks
        } else if w == "favorites"@ || w == "fav"@ {
            CliCommand::Favorites
        } else if w == "show"@ || w == "view"@ || w == "cat"@ {
            CliCommand::Show(second(args))
        } else if w == "search"@ || w == "find"@ {
            CliCommand::Search(second(args))
        } else if w == "help"@ {
            CliCommand::Help
        } else {
            CliCommand::Unknown(args[0])
        }
    }
}

/// A copy of the second argument, if there is one.
fn second_arg(args: &Vec<String>) -> (r: Option<String>)
    ensures
        r == second(args@),
{
    if args.len() >= 2 {
        let s = args[1].clone();
        Some(s)
    } else {
        None
    }
}

/// The command the arguments ask for (see `command_of`).
pub fn parse_command(args: &Vec<String>) -> (r: CliCommand)
    ensures
        r == command_of(args@),
{
    if args.len() == 0 {
        return CliCommand::Help;
    }
    let w = args[0].as_str();
    if str_eq(w, "list") || str_eq(w, "ls") {
        CliCommand::List(second_arg(args))
    } else if str_eq(w, "notebooks") {
        CliCommand::Notebooks
    } else if str_eq(w, "favorites") || str_eq(w, "fav") {
        CliCommand::Favorites
    } else if str_eq(w, "show") || str_eq(w, "view") || str_eq(w, "cat") {
        CliCommand::Show(second_arg(args))
    } else if str_eq(w, "search") || str_eq(w, "find") {
        CliCommand::Search(second_arg(args))
    } else if str_eq(w, "help") {
        CliCommand::Help
    } else {
        CliCommand::Unknown(args[0].clone())
    }
}

/// The notebook a name finds, without regard to case: the first whose
/// name is the name, else the first whose name contains it.
pub open spec fn notebook_named(nbs: Seq<Notebook>, name: Seq<char>) -> Option<u128> {
    let q = lowercase(name);
    if exists|i: int| 0 <= i < nbs.len() && #[trigger] named_exactly(q)(nbs[i]) {
        Some(nbs[first_where(nbs, named_exactly(q))].id)
    } else if exists|i: int| 0 <= i < nbs.len() && #[trigger] named_partly(q)(nbs[i]) {
        Some(nbs[first_where(nbs, named_partly(q))].id)
    } else {
        None
    }
}

/// The position of the first notebook for which `p` holds (the length
/// when there is none).
pub open spec fn first_where(nbs: Seq<Notebook>, p: spec_fn(Notebook) -> bool) -> int
    decreases nbs.len(),
{
    if nbs.len() == 0 {
        0
    } else if p(nbs[0]) {
        0
    } else {
        1 + first_where(nbs.drop_first(), p)
    }
}

/// `first_where` is the first position where `p` holds.
proof fn lemma_first_where(nbs: Seq<Notebook>, p: spec_fn(Notebook) -> bool, j: int)
    requires
        0 <= j < nbs.len(),
        p(nbs[j]),
        forall|k: int| 0 <= k < j ==> !p(#[trigger] nbs[k]),
    ensures
        first_where(nbs, p) == j,
    decreases j,
{
    if j > 0 {
        assert(!p(nbs[0]));
        assert forall|k: int| 0 <= k < j - 1 implies !p(#[trigger] nbs.drop_first()[k]) by {
            assert(nbs.drop_first()[k] == nbs[k + 1]);
        }
        lemma_first_where(nbs.drop_first(), p, j - 1);
    }
}

/// Holds of a notebook whose lower-case name is `q`.
pub open spec fn named_exactly(q: Seq<char>) -> spec_fn(Notebook) -> bool {
    |n: Notebook| lowercase(n.name@) == q
}

/// Holds of a notebook whose lower-case name contains `q`.
pub open spec fn named_partly(q: Seq<char>) -> spec_fn(Notebook) -> bool {
    |n: Notebook| seq_contains(lowercase(n.name@), q)
}

/// `named_exactly` or `named_partly`, as `exact` says.
pub open spec fn name_test(exact: bool, q: Seq<char>) -> spec_fn(Notebook) -> bool {
    if exact { named_exactly(q) } else { named_partly(q) }
}

/// The first notebook whose lower-case name is (or, when `exact` is
/// false, contains) the lower-case text `q`.
fn first_notebook_where(db: &SnippetDatabase, q: &str, exact: bool) -> (r: Option<u128>)
    ensures
        r is Some <==> exists|i: int| 0 <= i < db.notebooks@.len() && #[trigger] name_test(exact, q@)(db.notebooks@[i]),
        r matches Some(id) ==> id == db.notebooks@[first_where(db.notebooks@, name_test(exact, q@))].id,
{
    let ghost p = name_test(exact, q@);
    let mut i: usize = 0;
    while i < db.notebooks.len()
        invariant
            i <= db.notebooks.len(),
            p == name_test(exact, q@),
            forall|k: int| 0 <= k < i ==> !p(#[trigger] db.notebooks@[k]),
        decreases db.notebooks.len() - i,
    {
        let l = to_lower(db.notebooks[i].name.as_str());
        let hit = if exact { str_eq(l.as_str(), q) } else { str_contains(l.as_str(), q) };
        if hit {
            proof {
                assert(p(db.notebooks@[i as int]));
                lemma_first_where(db.notebooks@, p, i as int);
            }
            return Some(db.notebooks[i].id);
        }
        i = i + 1;
    }
    None
}

/// Finds a notebook by name, without regard to case: an exact match
/// first, else the first name that contains it.
pub fn find_notebook_by_name(database: &SnippetDatabase, name: &str) -> (r: Option<u128>)
    ensures
        r == notebook_named(database.notebooks@, name@),
{
    let q = to_lower(name);
    match first_notebook_where(database, q.as_str(), true) {
        Some(id) => Some(id),
        None => first_notebook_where(database, q.as_str(), false),
    }
}

/// What `uuid::Uuid::parse_str` gives for a text, as the UUID's value.
pub uninterp spec fn parsed_uuid(s: Seq<char>) -> Option<u128>;

/// Calls `uuid::Uuid::parse_str`; the result is named `parsed_uuid` of the text.
#[verifier::external_body]
fn parse_uuid(s: &str) -> (r: Option<u128>)
    ensures
        r == parsed_uuid(s@),
{
    match uuid::Uuid::parse_str(s) {
        Ok(u) => Some(u.as_u128()),
        Err(_) => None,
    }
}

/// The notebook the `list` command shows: the one whose id the text
/// holds, else the one found by name (see `find_notebook_by_name`).
pub fn list_target(database: &SnippetDatabase, arg: &str) -> (r: Option<u128>)
    ensures
        r == (match parsed_uuid(arg@) {
            Some(id) => Some(id),
            None => notebook_named(database.notebooks@, arg@),
        }),
{
    match parse_uuid(arg) {
        Some(id) => Some(id),
        None => find_notebook_by_name(database, arg),
    }
}

/// Where a command-line search matched a snippet.
#[derive(Debug, Clone, Copy, PartialEq, Eq, Structural)]
pub enum MatchPlace {
    Title,
    Content,
    Description,
}

/// Where the lower-case `q` first matches snippet `s` (title, then
/// content, then description), if it does.
pub open spec fn match_place(s: CodeSnippet, q: Seq<char>) -> Option<MatchPlace> {
    if seq_contains(lowercase(s.title@), q) {
        Some(MatchPlace::Title)
    } else if seq_contains(lowercase(s.content@), q) {
        Some(MatchPlace::Content)
    } else if (match s.description {
        Some(d) => seq_contains(lowercase(d@), q),
        None => false,
    }) {
        Some(MatchPlace::Description)
    } else {
        None
    }
}

/// The matches of a command-line search, in snippet order.
pub open spec fn cli_matches(sns: Seq<CodeSnippet>, q: Seq<char>) -> Seq<(u128, MatchPlace)>
    decreases sns.len(),
{
    if sns.len() == 0 {
        Seq::empty()
    } else {
        let p = cli_matches(sns.drop_last(), q);
        match match_place(sns.last(), q) {
            Some(m) => p.push((sns.last().id, m)),
            None => p,
        }
    }
}

/// The snippets a command-line search for `query` finds, each with where
/// it matched (case is ignored).
pub fn search_matches(database: &SnippetDatabase, query: &str) -> (r: Vec<(u128, MatchPlace)>)
    ensures
        r@ == cli_matches(database.snippets@, lowercase(query@)),
{
    let q = to_lower(query);
    let mut out: Vec<(u128, MatchPlace)> = Vec::new();
    let mut i: usize = 0;
    while i < database.snippets.len()
        invariant
            i <= database.snippets.len(),
            q@ == lowercase(query@),
            out@ == cli_matches(database.snippets@.subrange(0, i as int), q@),
        decreases database.snippets.len() - i,
    {
        proof {
            assert(database.snippets@.subrange(0, i + 1).drop_last() =~= database.snippets@.subrange(0, i as int));
        }
        let s = &database.snippets[i];
        let t = to_lower(s.title.as_str());
        if str_contains(t.as_str(), q.as_str()) {
            out.push((s.id, MatchPlace::Title));
        } else {
            let c = to_lower(s.content.as_str());
            if str_contains(c.as_str(), q.as_str()) {
                out.push((s.id, MatchPlace::Content));
            } else {
                match &s.description {
                    Some(d) => {
                        let dl = to_lower(d.as_str());
                        if str_contains(dl.as_str(), q.as_str()) {
                            out.push((s.id, MatchPlace::Description));
                        }
                    },
                    None => {},
                }
            }
        }
        i = i + 1;
    }
    proof {
        assert(database.snippets@.subrange(0, database.snippets@.len() as int) =~= database.snippets@);
    }
    out
}

/// The ids of the favorite snippets, in order.
pub open spec fn favorite_ids(sns: Seq<CodeSnippet>) -> Seq<u128>
    decreases sns.len(),
{
    if sns.len() == 0 {
        Seq::empty()
    } else {
        let p = favorite_ids(sns.drop_last());
        if sns.last().is_favorite { p.push(sns.last().id) } else { p }
    }
}

/// The ids of the favorite snippets, in order.
pub fn favorite_snippets(database: &SnippetDatabase) -> (r: Vec<u128>)
    ensures
        r@ == favorite_ids(database.snippets@),
{
    let mut out: Vec<u128> = Vec::new();
    let mut i: usize = 0;
    while i < database.snippets.len()
        invariant
            i <= database.snippets.len(),
            out@ == favorite_ids(database.snippets@.subrange(0, i as int)),
        decreases database.snippets.len() - i,
    {
        proof {
            assert(database.snippets@.subrange(0, i + 1).drop_last() =~= database.snippets@.subrange(0, i as int));
        }
        if database.snippets[i].is_favorited() {
            out.push(database.snippets[i].id);
        }
        i = i + 1;
    }
    proof {
        assert(database.snippets@.subrange(0, database.snippets@.len() as int) =~= database.snippets@);
    }
    out
}

/// Holds of a snippet whose lower-case title is `q`.
pub open spec fn titled_exactly(q: Seq<char>) -> spec_fn(CodeSnippet) -> bool {
    |s: CodeSnippet| lowercase(s.title@) == q
}

/// Holds of a snippet whose lower-case title contains `q`.
pub open spec fn titled_partly(q: Seq<char>) -> spec_fn(CodeSnippet) -> bool {
    |s: CodeSnippet| seq_contains(lowercase(s.title@), q)
}

/// The snippet a title finds, without regard to case: the first whose
/// title is the text, else the first whose title contains it.
pub open spec fn snippet_titled(sns: Seq<CodeSnippet>, arg: Seq<char>) -> Option<u128> {
    let q = lowercase(arg);
    if exists|i: int| 0 <= i < sns.len() && #[trigger] titled_exactly(q)(sns[i]) {
        Some(sns[first_snippet_where(sns, titled_exactly(q))].id)
    } else if exists|i: int| 0 <= i < sns.len() && #[trigger] titled_partly(q)(sns[i]) {
        Some(sns[first_snippet_where(sns, titled_partly(q))].id)
    } else {
        None
    }
}

/// The snippet `show` displays for a text: the one whose id it holds,
/// else the one its title finds (see `snippet_titled`).
pub open spec fn snippet_for(sns: Seq<CodeSnippet>, arg: Seq<char>) -> Option<u128> {
    match parsed_uuid(arg) {
        Some(id) => Some(id),
        None => snippet_titled(sns, arg),
    }
}

/// The position of the first snippet for which `p` holds (the length when
/// there is none).
pub open spec fn first_snippet_where(sns: Seq<CodeSnippet>, p: spec_fn(CodeSnippet) -> bool) -> int
    decreases sns.len(),
{
    if sns.len() == 0 {
        0
    } else if p(sns[0]) {
        0
    } else {
        1 + first_snippet_where(sns.drop_first(), p)
    }
}

/// `first_snippet_where` is the first position where `p` holds.
proof fn lemma_first_snippet_where(sns: Seq<CodeSnippet>, p: spec_fn(CodeSnippet) -> bool, j: int)
    requires
        0 <= j < sns.len(),
        p(sns[j]),
        forall|k: int| 0 <= k < j ==> !p(#[trigger] sns[k]),
    ensures
        first_snippet_where(sns, p) == j,
    decreases j,
{
    if j > 0 {
        assert(!p(sns[0]));
        assert forall|k: int| 0 <= k < j - 1 implies !p(#[trigger] sns.drop_first()[k]) by {
            assert(sns.drop_first()[k] == sns[k + 1]);
        }
        lemma_first_snippet_where(sns.drop_first(), p, j - 1);
    }
}

/// `titled_exactly` or `titled_partly`, as `exact` says.
pub open spec fn title_test(exact: bool, q: Seq<char>) -> spec_fn(CodeSnippet) -> bool {
    if exact { titled_exactly(q) } else { titled_partly(q) }
}

/// The first snippet whose lower-case title is (or, when `exact` is
/// false, contains) the lower-case text `q`.
fn first_snippet_titled(db: &SnippetDatabase, q: &str, exact: bool) -> (r: Option<u128>)
    ensures
        r is Some <==> exists|i: int| 0 <= i < db.snippets@.len() && #[trigger] title_test(exact, q@)(db.snippets@[i]),
        r matches Some(id) ==> id == db.snippets@[first_snippet_where(db.snippets@, title_test(exact, q@))].id,
{
    let ghost p = title_test(exact, q@);
    let mut i: usize = 0;
    while i < db.snippets.len()
        invariant
            i <= db.snippets.len(),
            p == title_test(exact, q@),
            forall|k: int| 0 <= k < i ==> !p(#[trigger] db.snippets@[k]),
        decreases db.snippets.len() - i,
    {
        let l = to_lower(db.snippets[i].title.as_str());
        let hit = if exact { str_eq(l.as_str(), q) } else { str_contains(l.as_str(), q) };
        if hit {
            proof {
                assert(p(db.snippets@[i as int]));
                lemma_first_snippet_where(db.snippets@, p, i as int);
            }
            return Some(db.snippets[i].id);
        }
        i = i + 1;
    }
    None
}

/// The snippet the `show` command displays for its argument: the one
/// whose id the text holds, else the one found by its title.
pub fn resolve_snippet(database: &SnippetDatabase, arg: &str) -> (r: Option<u128>)
    ensures
        r == snippet_for(database.snippets@, arg@),
{
    match parse_uuid(arg) {
        Some(id) => Some(id),
        None => {
            let q = to_lower(arg);
            match first_snippet_titled(database, q.as_str(), true) {
                Some(id) => Some(id),
                None => first_snippet_titled(database, q.as_str(), false),
            }
        },
    }
}

/// What a line of the command-line tree shows.
#[derive(Debug, Clone, Copy, PartialEq, Eq, Structural)]
pub enum CliItem {
    /// A notebook at the top of a tree, shown without a connector.
    Header(u128),
    Notebook(u128),
    Snippet(u128),
}

/// A line of the command-line tree: what it shows, whether it is the last
/// of its siblings, the guides of the levels above it (`true` where a line
/// continues below), and the path of the item.
#[derive(Debug)]
pub struct CliRow {
    pub item: CliItem,
    pub last: bool,
    pub guides: Vec<bool>,
    pub path: String,
}

/// A line of the command-line tree, with its texts as sequences.
pub struct CliRowView {
    pub item: CliItem,
    pub last: bool,
    pub guides: Seq<bool>,
    pub path: Seq<char>,
}

impl View for CliRow {
    type V = CliRowView;

    open spec fn view(&self) -> CliRowView {
        CliRowView { item: self.item, last: self.last, guides: self.guides@, path: self.path@ }
    }
}

/// The views of a list of lines.
pub open spec fn rows_view(v: Seq<CliRow>) -> Seq<CliRowView> {
    v.map_values(|r: CliRow| r@)
}

/// The snippets of notebook `id`, in order.
pub open spec fn snippets_of(sns: Seq<CodeSnippet>, id: u128) -> Seq<CodeSnippet> {
    sns.filter(in_notebook(id))
}

/// Holds of the snippets of notebook `id`.
pub open spec fn in_notebook(id: u128) -> spec_fn(CodeSnippet) -> bool {
    |s: CodeSnippet| s.notebook_id == id
}

/// Holds of the ids of notebooks that exist.
pub open spec fn known_notebook(nbs: Seq<Notebook>) -> spec_fn(u128) -> bool {
    |c: u128| has_nb(nbs, c)
}

/// The children of notebook `id` that exist, in order.
pub open spec fn known_children(nbs: Seq<Notebook>, id: u128) -> Seq<u128> {
    if has_nb(nbs, id) { nbs[nb_idx(nbs, id)].children@.filter(known_notebook(nbs)) } else { Seq::empty() }
}

/// The lines of the snippets `snips` under a notebook at path `path`;
/// the last is the last sibling when `alone` (no child notebooks follow).
pub open spec fn snippet_lines(snips: Seq<CodeSnippet>, alone: bool, guides: Seq<bool>, path: Seq<char>) -> Seq<CliRowView> {
    Seq::new(snips.len(), |i: int| CliRowView {
        item: CliItem::Snippet(snips[i].id),
        last: i == snips.len() - 1 && alone,
        guides,
        path: path + "/"@ + snips[i].title@,
    })
}

/// The lines under notebook `id` at path `path`: its snippets, then each
/// child notebook followed by its own lines. At most `fuel` levels are shown.
pub open spec fn cli_subtree(nbs: Seq<Notebook>, sns: Seq<CodeSnippet>, id: u128, guides: Seq<bool>, path: Seq<char>, fuel: nat) -> Seq<CliRowView>
    decreases fuel, 0nat, 0nat,
{
    if fuel == 0 {
        Seq::empty()
    } else {
        let kids = known_children(nbs, id);
        snippet_lines(snippets_of(sns, id), kids.len() == 0, guides, path)
            + kid_lines(nbs, sns, kids, kids.len(), guides, path, (fuel - 1) as nat)
    }
}

/// The lines of the first `k` of the child notebooks `kids`.
pub open spec fn kid_lines(nbs: Seq<Notebook>, sns: Seq<CodeSnippet>, kids: Seq<u128>, k: nat, guides: Seq<bool>, path: Seq<char>, fuel: nat) -> Seq<CliRowView>
    decreases fuel, 1nat, k,
{
    if k == 0 || k > kids.len() {
        Seq::empty()
    } else {
        let i = k - 1;
        let c = kids[i];
        let last = i == kids.len() - 1;
        let p = path + "/"@ + nbs[nb_idx(nbs, c)].name@;
        kid_lines(nbs, sns, kids, (k - 1) as nat, guides, path, fuel)
            + seq![CliRowView { item: CliItem::Notebook(c), last, guides, path: p }]
            + cli_subtree(nbs, sns, c, guides.push(!last), p, fuel)
    }
}

/// The positions of the snippets of notebook `id`, in order.
fn snippet_positions(sns: &Vec<CodeSnippet>, id: u128) -> (r: Vec<usize>)
    ensures
        r@.len() == snippets_of(sns@, id).len(),
        forall|j: int| 0 <= j < r@.len() ==> #[trigger] r@[j] < sns@.len() && sns@[r@[j] as int] == snippets_of(sns@, id)[j],
{
    let mut r: Vec<usize> = Vec::new();
    let mut i: usize = 0;
    while i < sns.len()
        invariant
            i <= sns.len(),
            r@.len() == sns@.subrange(0, i as int).filter(in_notebook(id)).len(),
            forall|j: int| 0 <= j < r@.len() ==> #[trigger] r@[j] < i && sns@[r@[j] as int] == sns@.subrange(0, i as int).filter(in_notebook(id))[j],
        decreases sns.len() - i,
    {
        proof {
            reveal_with_fuel(Seq::filter, 1);
            assert(sns@.subrange(0, i + 1).drop_last() =~= sns@.subrange(0, i as int));
        }
        if sns[i].notebook_id == id {
            r.push(i);
        }
        i = i + 1;
    }
    proof {
        assert(sns@.subrange(0, sns@.len() as int) =~= sns@);
    }
    r
}

/// The children of notebook `id` that exist (see `known_children`).
fn known_children_of(db: &SnippetDatabase, id: u128) -> (r: Vec<u128>)
    requires
        db.wf(),
    ensures
        r@ == known_children(db.notebooks@, id),
{
    match db.find_notebook(id) {
        None => Vec::new(),
        Some(k) => {
            let children = clone_ids(&db.notebooks[k].children);
            let mut r: Vec<u128> = Vec::new();
            let mut c: usize = 0;
            while c < children.len()
                invariant
                    db.wf(),
                    c <= children.len(),
                    r@ == children@.subrange(0, c as int).filter(known_notebook(db.notebooks@)),
                decreases children.len() - c,
            {
                proof {
                    reveal_with_fuel(Seq::filter, 1);
                    assert(children@.subrange(0, c + 1).drop_last() =~= children@.subrange(0, c as int));
                }
                if db.find_notebook(children[c]).is_some() {
                    r.push(children[c]);
                }
                c = c + 1;
            }
            proof {
                assert(children@.subrange(0, children@.len() as int) =~= children@);
            }
            r
        },
    }
}

/// Appends to `out` the lines under notebook `id` (see `cli_subtree`).
fn push_cli_subtree(db: &SnippetDatabase, out: &mut Vec<CliRow>, id: u128, guides: &Vec<bool>, path: &str, fuel: usize)
    requires
        db.wf(),
    ensures
        rows_view(final(out)@) == rows_view(old(out)@) + cli_subtree(db.notebooks@, db.snippets@, id, guides@, path@, fuel as nat),
    decreases fuel, 0nat,
{
    let ghost start = rows_view(out@);
    if fuel == 0 {
        proof {
            assert(rows_view(out@) =~= start + Seq::<CliRowView>::empty());
        }
        return;
    }
    let kids = known_children_of(db, id);
    let alone = kids.len() == 0;
    let pos = snippet_positions(&db.snippets, id);
    let ghost snips = snippets_of(db.snippets@, id);
    let mut j: usize = 0;
    while j < pos.len()
        invariant
            j <= pos.len(),
            pos@.len() == snips.len(),
            snips == snippets_of(db.snippets@, id),
            forall|q: int| 0 <= q < pos@.len() ==> #[trigger] pos@[q] < db.snippets@.len() && db.snippets@[pos@[q] as int] == snips[q],
            rows_view(out@) == start + snippet_lines(snips, alone, guides@, path@).subrange(0, j as int),
        decreases pos.len() - j,
    {
        let k = pos[j];
        let s = &db.snippets[k];
        let p = concat3(path, "/", s.title.as_str());
        let row = CliRow { item: CliItem::Snippet(s.id), last: j == pos.len() - 1 && alone, guides: guides.clone(), path: p };
        let ghost before = out@;
        out.push(row);
        proof {
            assert(rows_view(out@) =~= rows_view(before).push(out@.last()@));
            assert(snippet_lines(snips, alone, guides@, path@).subrange(0, j + 1)
                =~= snippet_lines(snips, alone, guides@, path@).subrange(0, j as int).push(out@.last()@));
        }
        j = j + 1;
    }
    proof {
        assert(snippet_lines(snips, alone, guides@, path@).subrange(0, pos@.len() as int) =~= snippet_lines(snips, alone, guides@, path@));
    }
    let ghost mid = rows_view(out@);
    let mut c: usize = 0;
    while c < kids.len()
        invariant
            db.wf(),
            fuel > 0,
            c <= kids.len(),
            kids@ == known_children(db.notebooks@, id),
            rows_view(out@) == mid + kid_lines(db.notebooks@, db.snippets@, kids@, c as nat, guides@, path@, (fuel - 1) as nat),
        decreases kids.len() - c,
    {
        let cid = kids[c];
        let last = c == kids.len() - 1;
        proof {
            assert(known_notebook(db.notebooks@)(cid)) by {
                let ch = db.notebooks@[nb_idx(db.notebooks@, id)].children@;
                ch.lemma_filter_pred(known_notebook(db.notebooks@), c as int);
            }
        }
        let k = db.find_notebook(cid).unwrap();
        let p = concat3(path, "/", db.notebooks[k].name.as_str());
        let mut g = guides.clone();
        g.push(!last);
        let ghost before = rows_view(out@);
        out.push(CliRow { item: CliItem::Notebook(cid), last, guides: guides.clone(), path: p.clone() });
        let ghost after_row = rows_view(out@);
        proof {
            assert(after_row =~= before.push(out@.last()@));
        }
        push_cli_subtree(db, out, cid, &g, p.as_str(), fuel - 1);
        proof {
            assert(rows_view(out@) =~= mid + kid_lines(db.notebooks@, db.snippets@, kids@, (c + 1) as nat, guides@, path@, (fuel - 1) as nat));
        }
        c = c + 1;
    }
    proof {
        assert(rows_view(out@) =~= start + cli_subtree(db.notebooks@, db.snippets@, id, guides@, path@, fuel as nat));
    }
}

/// What the `list` command shows.
#[derive(Debug)]
pub enum CliTree {
    /// The database holds no notebook.
    NoNotebooks,
    /// No notebook has this id.
    NotFound(u128),
    /// The lines of the tree.
    Rows(Vec<CliRow>),
}

/// The line at the top of the tree of notebook `id`.
pub open spec fn header_line(nbs: Seq<Notebook>, id: u128) -> CliRowView {
    CliRowView { item: CliItem::Header(id), last: false, guides: Seq::empty(), path: nbs[nb_idx(nbs, id)].name@ }
}

/// The lines of the first `k` root notebooks (those that exist), each
/// with its tree; the guide of a root continues unless it is the last root.
pub open spec fn root_lines(nbs: Seq<Notebook>, sns: Seq<CodeSnippet>, roots: Seq<u128>, k: nat) -> Seq<CliRowView>
    decreases k,
{
    if k == 0 || k > roots.len() {
        Seq::empty()
    } else {
        let i = k - 1;
        let r = roots[i];
        root_lines(nbs, sns, roots, (k - 1) as nat) + if has_nb(nbs, r) {
            seq![header_line(nbs, r)]
                + cli_subtree(nbs, sns, r, seq![i != roots.len() - 1], nbs[nb_idx(nbs, r)].name@, nbs.len())
        } else {
            Seq::<CliRowView>::empty()
        }
    }
}

/// The lines the `list` command shows for `root` (all root notebooks when
/// `None`).
pub open spec fn cli_tree_rows(db: SnippetDatabase, root: Option<u128>) -> Seq<CliRowView> {
    let nbs = db.notebooks@;
    let sns = db.snippets@;
    match root {
        Some(id) => seq![header_line(nbs, id)] + cli_subtree(nbs, sns, id, Seq::empty(), nbs[nb_idx(nbs, id)].name@, nbs.len()),
        None => root_lines(nbs, sns, db.root_notebooks@, db.root_notebooks@.len()),
    }
}

/// The tree the `list` command shows for `root` (all root notebooks when
/// `None`): nothing when there are no notebooks, and `NotFound` for an id
/// that no notebook has.
pub fn display_tree(database: &SnippetDatabase, root_id: Option<u128>) -> (r: CliTree)
    requires
        database.wf(),
    ensures
        database.notebooks@.len() == 0 ==> r is NoNotebooks,
        database.notebooks@.len() > 0 ==> match root_id {
            Some(id) => if has_nb(database.notebooks@, id) {
                r matches CliTree::Rows(v) && rows_view(v@) == cli_tree_rows(*database, root_id)
            } else {
                r == CliTree::NotFound(id)
            },
            None => r matches CliTree::Rows(v) && rows_view(v@) == cli_tree_rows(*database, root_id),
        },
{
    let n = database.notebooks.len();
    if n == 0 {
        return CliTree::NoNotebooks;
    }
    let mut out: Vec<CliRow> = Vec::new();
    let empty: Vec<bool> = Vec::new();
    match root_id {
        Some(id) => {
            match database.find_notebook(id) {
                None => CliTree::NotFound(id),
                Some(k) => {
                    let name = database.notebooks[k].name.clone();
                    out.push(CliRow { item: CliItem::Header(id), last: false, guides: Vec::new(), path: name.clone() });
                    proof {
                        assert(rows_view(out@) =~= seq![header_line(database.notebooks@, id)]);
                    }
                    push_cli_subtree(database, &mut out, id, &empty, name.as_str(), n);
                    CliTree::Rows(out)
                },
            }
        },
        None => {
            let count = database.root_notebooks.len();
            let mut i: usize = 0;
            while i < count
                invariant
                    database.wf(),
                    n == database.notebooks@.len(),
                    count == database.root_notebooks@.len(),
                    i <= count,
                    empty@.len() == 0,
                    rows_view(out@) == root_lines(database.notebooks@, database.snippets@, database.root_notebooks@, i as nat),
                decreases count - i,
            {
                let r = database.root_notebooks[i];
                let ghost before = rows_view(out@);
                match database.find_notebook(r) {
                    Some(k) => {
                        let name = database.notebooks[k].name.clone();
                        out.push(CliRow { item: CliItem::Header(r), last: false, guides: Vec::new(), path: name.clone() });
                        proof {
                            assert(rows_view(out@) =~= before.push(header_line(database.notebooks@, r)));
                        }
                        let mut g: Vec<bool> = Vec::new();
                        g.push(i != count - 1);
                        proof {
                            assert(g@ =~= seq![i != count - 1]);
                        }
                        push_cli_subtree(database, &mut out, r, &g, name.as_str(), n);
                        proof {
                            assert(rows_view(out@) =~= root_lines(database.notebooks@, database.snippets@, database.root_notebooks@, (i + 1) as nat));
                        }
                    },
                    None => {
                        proof {
                            assert(rows_view(out@) =~= root_lines(database.notebooks@, database.snippets@, database.root_notebooks@, (i + 1) as nat));
                        }
                    },
                }
                i = i + 1;
            }
            CliTree::Rows(out)
        },
    }
}

/// How the `notebooks` command describes where notebook `n` sits: at the
/// root, in its parent (by name), or nothing when the parent is missing.
pub open spec fn parent_label_of(nbs: Seq<Notebook>, n: Notebook) -> Seq<char> {
    match n.parent_id {
        Some(p) => if has_nb(nbs, p) { " (in "@ + nbs[nb_idx(nbs, p)].name@ + ")"@ } else { Seq::empty() },
        None => " (root)"@,
    }
}

/// Where the notebook at position `i` sits (see `parent_label_of`).
pub fn parent_label(database: &SnippetDatabase, i: usize) -> (r: String)
    requires
        database.wf(),
        i < database.notebooks@.len(),
    ensures
        r@ == parent_label_of(database.notebooks@, database.notebooks@[i as int]),
{
    match database.notebooks[i].parent_id {
        Some(p) => match database.find_notebook(p) {
            Some(k) => concat3(" (in ", database.notebooks[k].name.as_str(), ")"),
            None => String::new(),
        },
        None => copy_str(" (root)"),
    }
}

} // verus!
