//! Notebooks: named folders that hold snippets and child notebooks.
use vstd::prelude::*;
use crate::ids::{new_id, now_millis};
use crate::snippet::{clone_opt_string, clone_pairs, clone_strings};
use crate::text::{copy_str, str_eq};

verus! {

/// A notebook. `parent_id` is `None` for a notebook at the root; `children`
/// lists the child notebooks in the order the tree shows them.
#[derive(Debug)]
pub struct Notebook {
    pub id: u128,
    pub name: String,
    pub description: Option<String>,
    pub created_at: i64,
    pub updated_at: i64,
    pub tags: Vec<String>,
    pub color: String,
    pub icon: String,
    pub parent_id: Option<u128>,
    pub children: Vec<u128>,
    pub snippet_count: usize,
    pub metadata: Vec<(String, String)>,
}

/// What a notebook holds, with strings and lists taken as sequences.
pub struct NotebookView {
    pub id: u128,
    pub name: Seq<char>,
    pub description: Option<Seq<char>>,
    pub created_at: i64,
    pub updated_at: i64,
    pub tags: Seq<Seq<char>>,
    pub color: Seq<char>,
    pub icon: Seq<char>,
    pub parent_id: Option<u128>,
    pub children: Seq<u128>,
    pub snippet_count: usize,
    pub metadata: Seq<(Seq<char>, Seq<char>)>,
}

/// An optional string taken as an optional sequence.
pub open spec fn opt_view(o: Option<String>) -> Option<Seq<char>> {
    match o {
        Some(s) => Some(s@),
        None => None,
    }
}

/// A list of strings taken as sequences.
pub open spec fn strings_view(v: Seq<String>) -> Seq<Seq<char>> {
    v.map_values(|s: String| s@)
}

/// A list of string pairs taken as sequences.
pub open spec fn pairs_view(v: Seq<(String, String)>) -> Seq<(Seq<char>, Seq<char>)> {
    v.map_values(|kv: (String, String)| (kv.0@, kv.1@))
}

impl View for Notebook {
    type V = NotebookView;

    open spec fn view(&self) -> NotebookView {
        NotebookView {
            id: self.id,
            name: self.name@,
            description: opt_view(self.description),
            created_at: self.created_at,
            updated_at: self.updated_at,
            tags: strings_view(self.tags@),
            color: self.color@,
            icon: self.icon@,
            parent_id: self.parent_id,
            children: self.children@,
            snippet_count: self.snippet_count,
            metadata: pairs_view(self.metadata@),
        }
    }
}

/// The views of a list of notebooks.
pub open spec fn notebooks_view(v: Seq<Notebook>) -> Seq<NotebookView> {
    v.map_values(|n: Notebook| n@)
}

/// The position of the first `x` in `s`, or -1 when there is none.
pub open spec fn id_pos(s: Seq<u128>, x: u128) -> int
    decreases s.len(),
{
    if s.len() == 0 {
        -1
    } else if s[0] == x {
        0
    } else {
        let r = id_pos(s.drop_first(), x);
        if r < 0 { -1 } else { r + 1 }
    }
}

/// `id_pos` is -1 exactly when `x` is missing, and is otherwise a
/// position of `x` with no `x` before it.
pub proof fn lemma_id_pos(s: Seq<u128>, x: u128)
    ensures
        -1 <= id_pos(s, x) < s.len(),
        id_pos(s, x) == -1 <==> !s.contains(x),
        id_pos(s, x) >= 0 ==> s[id_pos(s, x)] == x,
        forall|j: int| 0 <= j < id_pos(s, x) ==> s[j] != x,
    decreases s.len(),
{
    if s.len() > 0 && s[0] != x {
        let t = s.drop_first();
        lemma_id_pos(t, x);
        if s.contains(x) {
            let j = choose|j: int| 0 <= j < s.len() && s[j] == x;
            assert(t[j - 1] == x);
        }
        if t.contains(x) {
            let j = choose|j: int| 0 <= j < t.len() && t[j] == x;
            assert(s[j + 1] == x);
        }
        assert forall|j: int| 0 <= j < id_pos(s, x) implies s[j] != x by {
            if j > 0 {
                assert(s[j] == t[j - 1]);
            }
        }
    } else if s.len() > 0 {
        assert(s[0] == x);
    }
}

/// A position of `x` with no `x` before it is `id_pos`.
pub proof fn lemma_id_pos_first(s: Seq<u128>, x: u128, j: int)
    requires
        0 <= j < s.len(),
        s[j] == x,
        forall|k: int| 0 <= k < j ==> s[k] != x,
    ensures
        id_pos(s, x) == j,
{
    lemma_id_pos(s, x);
    assert(s.contains(x));
    let p = id_pos(s, x);
    if p < j {
        assert(s[p] == x);
    } else if p > j {
        assert(s[j] != x);
    }
}

/// The element after `x` in `s`, going round to the front after the last.
pub open spec fn next_in(s: Seq<u128>, x: u128) -> u128 {
    s[(id_pos(s, x) + 1) % (s.len() as int)]
}

/// The element before `x` in `s`, going round to the back before the first.
pub open spec fn prev_in(s: Seq<u128>, x: u128) -> u128 {
    if id_pos(s, x) == 0 { s[s.len() - 1] } else { s[id_pos(s, x) - 1] }
}

/// `s` with `x` taken out and put back right after `y` (at the end when
/// `y` is not there).
pub open spec fn moved_after(s: Seq<u128>, x: u128, y: u128) -> Seq<u128> {
    let t = ids_minus(s, x);
    if id_pos(t, y) >= 0 { t.insert(id_pos(t, y) + 1, x) } else { t.push(x) }
}

/// `s` with `x` taken out and put back right before `y` (at the front when
/// `y` is not there).
pub open spec fn moved_before(s: Seq<u128>, x: u128, y: u128) -> Seq<u128> {
    let t = ids_minus(s, x);
    if id_pos(t, y) >= 0 { t.insert(id_pos(t, y), x) } else { t.insert(0, x) }
}

/// `s` with its element at `i` taken out and put back at position
/// `(i + 1) % len` of what is left.
pub open spec fn rotated_next(s: Seq<u128>, i: int) -> Seq<u128> {
    s.remove(i).insert((i + 1) % (s.len() as int), s[i])
}

/// `s` with its element at `i` taken out and put back one place earlier,
/// or at the end when it was first.
pub open spec fn rotated_prev(s: Seq<u128>, i: int) -> Seq<u128> {
    s.remove(i).insert(if i == 0 { s.len() - 1 } else { i - 1 }, s[i])
}

/// The list with `x` moved right after `y`.
pub fn place_after(v: &Vec<u128>, x: u128, y: u128) -> (r: Vec<u128>)
    ensures
        r@ == moved_after(v@, x, y),
{
    let mut t = ids_without(v, x);
    let n = t.len();
    match id_position(&t, y) {
        Some(i) => {
            t.insert(i + 1, x);
        },
        None => {
            t.push(x);
        },
    }
    t
}

/// The list with `x` moved right before `y`.
pub fn place_before(v: &Vec<u128>, x: u128, y: u128) -> (r: Vec<u128>)
    ensures
        r@ == moved_before(v@, x, y),
{
    let mut t = ids_without(v, x);
    match id_position(&t, y) {
        Some(i) => {
            t.insert(i, x);
        },
        None => {
            t.insert(0, x);
        },
    }
    t
}

/// The list with its element at `i` moved one place on, going round.
pub fn rotate_next(v: &Vec<u128>, i: usize) -> (r: Vec<u128>)
    requires
        i < v@.len(),
    ensures
        r@ == rotated_next(v@, i as int),
{
    let x = v[i];
    let n = v.len();
    let mut w = clone_ids(v);
    w.remove(i);
    w.insert((i + 1) % n, x);
    w
}

/// The list with its element at `i` moved one place back, going round.
pub fn rotate_prev(v: &Vec<u128>, i: usize) -> (r: Vec<u128>)
    requires
        i < v@.len(),
    ensures
        r@ == rotated_prev(v@, i as int),
{
    let x = v[i];
    let n = v.len();
    let mut w = clone_ids(v);
    w.remove(i);
    let j = if i == 0 { n - 1 } else { i - 1 };
    w.insert(j, x);
    w
}

/// A copy of a list of ids.
pub fn clone_ids(v: &Vec<u128>) -> (r: Vec<u128>)
    ensures
        r@ == v@,
{
    let mut r: Vec<u128> = Vec::new();
    let mut i: usize = 0;
    while i < v.len()
        invariant
            i <= v.len(),
            r@ == v@.subrange(0, i as int),
        decreases v.len() - i,
    {
        r.push(v[i]);
        i = i + 1;
        proof {
            assert(r@ =~= v@.subrange(0, i as int));
        }
    }
    proof {
        assert(v@.subrange(0, v@.len() as int) =~= v@);
    }
    r
}

/// Whether a list of ids holds `id`.
pub fn ids_contain(v: &Vec<u128>, id: u128) -> (r: bool)
    ensures
        r == v@.contains(id),
{
    let mut i: usize = 0;
    while i < v.len()
        invariant
            i <= v.len(),
            forall|j: int| 0 <= j < i ==> v@[j] != id,
        decreases v.len() - i,
    {
        if v[i] == id {
            return true;
        }
        i = i + 1;
    }
    false
}

/// The position of `id` in a list of ids, if it is there.
pub fn id_position(v: &Vec<u128>, id: u128) -> (r: Option<usize>)
    ensures
        match r {
            Some(i) => i < v@.len() && v@[i as int] == id && forall|j: int| 0 <= j < i ==> v@[j] != id,
            None => !v@.contains(id),
        },
        r is Some <==> id_pos(v@, id) >= 0,
        r matches Some(i) ==> i == id_pos(v@, id),
{
    proof {
        lemma_id_pos(v@, id);
    }
    let mut i: usize = 0;
    while i < v.len()
        invariant
            i <= v.len(),
            forall|j: int| 0 <= j < i ==> v@[j] != id,
        decreases v.len() - i,
    {
        if v[i] == id {
            proof {
                lemma_id_pos_first(v@, id, i as int);
            }
            return Some(i);
        }
        i = i + 1;
    }
    None
}

/// The ids of `s` other than `c`, in order.
pub open spec fn ids_minus(s: Seq<u128>, c: u128) -> Seq<u128> {
    s.filter(|x: u128| x != c)
}

/// The list of ids without `id` (as `retain(|x| x != id)`).
pub fn ids_without(v: &Vec<u128>, id: u128) -> (r: Vec<u128>)
    ensures
        r@ == ids_minus(v@, id),
{
    let mut r: Vec<u128> = Vec::new();
    let mut i: usize = 0;
    while i < v.len()
        invariant
            i <= v.len(),
            r@ == ids_minus(v@.subrange(0, i as int), id),
        decreases v.len() - i,
    {
        proof {
            reveal_with_fuel(Seq::filter, 1);
            assert(v@.subrange(0, i + 1).drop_last() =~= v@.subrange(0, i as int));
        }
        if v[i] != id {
            r.push(v[i]);
        }
        i = i + 1;
    }
    proof {
        assert(v@.subrange(0, v@.len() as int) =~= v@);
    }
    r
}

/// `v` is a notebook as `Notebook::new` or `new_with_parent` makes it:
/// empty, inside `parent`, created and updated at one time.
pub open spec fn fresh_notebook(v: NotebookView, name: Seq<char>, parent: Option<u128>) -> bool {
    &&& v.name == name
    &&& v.description is None
    &&& v.created_at == v.updated_at
    &&& v.tags.len() == 0
    &&& v.color == "#f38ba8"@
    &&& v.icon == if parent is None { "\u{25cb}"@ } else { "\u{25c9}"@ }
    &&& v.parent_id == parent
    &&& v.children.len() == 0
    &&& v.snippet_count == 0
    &&& v.metadata.len() == 0
}

impl Notebook {
    /// `self` holds the same values as `o`, list fields compared by their elements.
    pub open spec fn same_as(self, o: Notebook) -> bool {
        &&& self.id == o.id
        &&& self.name == o.name
        &&& self.description == o.description
        &&& self.created_at == o.created_at
        &&& self.updated_at == o.updated_at
        &&& self.tags@ == o.tags@
        &&& self.color == o.color
        &&& self.icon == o.icon
        &&& self.parent_id == o.parent_id
        &&& self.children@ == o.children@
        &&& self.snippet_count == o.snippet_count
        &&& self.metadata@ == o.metadata@
    }

    /// `self` differs from `o` at most in its children and update time.
    pub open spec fn same_but_children(self, o: Notebook) -> bool {
        &&& self.id == o.id
        &&& self.name == o.name
        &&& self.description == o.description
        &&& self.created_at == o.created_at
        &&& self.tags@ == o.tags@
        &&& self.color == o.color
        &&& self.icon == o.icon
        &&& self.parent_id == o.parent_id
        &&& self.snippet_count == o.snippet_count
        &&& self.metadata@ == o.metadata@
    }

    /// A copy of the notebook.
    pub fn copy(&self) -> (r: Notebook)
        ensures
            r.same_as(*self),
            r@ == self@,
    {
        Notebook {
            id: self.id,
            name: self.name.clone(),
            description: clone_opt_string(&self.description),
            created_at: self.created_at,
            updated_at: self.updated_at,
            tags: clone_strings(&self.tags),
            color: self.color.clone(),
            icon: self.icon.clone(),
            parent_id: self.parent_id,
            children: clone_ids(&self.children),
            snippet_count: self.snippet_count,
            metadata: clone_pairs(&self.metadata),
        }
    }

    /// A new root notebook with a fresh id.
    pub fn new(name: String) -> (r: Notebook)
        ensures
            fresh_notebook(r@, name@, None),
            r.name == name,
            r.description is None,
            r.created_at == r.updated_at,
            r.tags@.len() == 0,
            r.color@ == "#f38ba8"@,
            r.icon@ == "\u{25cb}"@,
            r.parent_id is None,
            r.children@.len() == 0,
            r.snippet_count == 0,
            r.metadata@.len() == 0,
    {
        let now = now_millis();
        Notebook {
            id: new_id(),
            name,
            description: None,
            created_at: now,
            updated_at: now,
            tags: Vec::new(),
            color: copy_str("#f38ba8"),
            icon: copy_str("\u{25cb}"),
            parent_id: None,
            children: Vec::new(),
            snippet_count: 0,
            metadata: Vec::new(),
        }
    }

    /// A new notebook inside `parent_id`, with a fresh id.
    pub fn new_with_parent(name: String, parent_id: u128) -> (r: Notebook)
        ensures
            fresh_notebook(r@, name@, Some(parent_id)),
            r.name == name,
            r.description is None,
            r.created_at == r.updated_at,
            r.tags@.len() == 0,
            r.color@ == "#f38ba8"@,
            r.icon@ == "\u{25c9}"@,
            r.parent_id == Some(parent_id),
            r.children@.len() == 0,
            r.snippet_count == 0,
            r.metadata@.len() == 0,
    {
        let mut notebook = Self::new(name);
        notebook.parent_id = Some(parent_id);
        notebook.icon = copy_str("\u{25c9}");
        notebook
    }

    /// Adds a child notebook, unless it is already a child.
    pub fn add_child(&mut self, child_id: u128)
        ensures
            final(self).children@ == if old(self).children@.contains(child_id) {
                old(self).children@
            } else {
                old(self).children@.push(child_id)
            },
            final(self).same_but_children(*old(self)),
            old(self).children@.contains(child_id) ==> final(self).updated_at == old(self).updated_at,
    {
        if !ids_contain(&self.children, child_id) {
            self.children.push(child_id);
            self.updated_at = now_millis();
        }
    }

    /// Removes a child notebook from the list of children.
    pub fn remove_child(&mut self, child_id: &u128)
        ensures
            final(self).children@ == ids_minus(old(self).children@, *child_id),
            final(self).same_but_children(*old(self)),
    {
        self.children = ids_without(&self.children, *child_id);
        self.updated_at = now_millis();
    }

    /// Sets the number of snippets shown for the notebook.
    pub fn update_snippet_count(&mut self, count: usize)
        ensures
            final(self).snippet_count == count,
            final(self).id == old(self).id,
            final(self).name == old(self).name,
            final(self).description == old(self).description,
            final(self).parent_id == old(self).parent_id,
            final(self).children == old(self).children,
            final(self).tags == old(self).tags,
            final(self).metadata == old(self).metadata,
            final(self).color == old(self).color,
            final(self).icon == old(self).icon,
            final(self).created_at == old(self).created_at,
    {
        self.snippet_count = count;
        self.updated_at = now_millis();
    }

    /// Whether the notebook is at the root.
    pub fn _is_root(&self) -> (r: bool)
        ensures
            r == self.parent_id is None,
    {
        self.parent_id.is_none()
    }

    /// Whether the notebook has child notebooks.
    pub fn _has_children(&self) -> (r: bool)
        ensures
            r == (self.children@.len() > 0),
    {
        self.children.len() > 0
    }

    /// Adds a tag, unless the notebook has it already.
    pub fn _add_tag(&mut self, tag: String)
        ensures
            final(self).tags@.map_values(|t: String| t@) == if old(self).tags@.map_values(|t: String| t@).contains(tag@) {
                old(self).tags@.map_values(|t: String| t@)
            } else {
                old(self).tags@.map_values(|t: String| t@).push(tag@)
            },
            final(self).id == old(self).id,
            final(self).name == old(self).name,
            final(self).children == old(self).children,
            final(self).parent_id == old(self).parent_id,
    {
        let mut i: usize = 0;
        let ghost views = self.tags@.map_values(|t: String| t@);
        while i < self.tags.len()
            invariant
                i <= self.tags.len(),
                views == self.tags@.map_values(|t: String| t@),
                forall|j: int| 0 <= j < i ==> views[j] != tag@,
            decreases self.tags.len() - i,
        {
            if str_eq(self.tags[i].as_str(), tag.as_str()) {
                proof {
                    assert(views[i as int] == tag@);
                }
                return;
            }
            i = i + 1;
        }
        self.tags.push(tag);
        self.updated_at = now_millis();
        proof {
            assert(self.tags@.map_values(|t: String| t@) =~= views.push(tag@));
        }
    }

    /// Removes every copy of a tag.
    pub fn _remove_tag(&mut self, tag: &str)
        ensures
            final(self).tags@.map_values(|t: String| t@) == old(self).tags@.map_values(|t: String| t@).filter(|t: Seq<char>| t != tag@),
            final(self).id == old(self).id,
            final(self).name == old(self).name,
            final(self).children == old(self).children,
            final(self).parent_id == old(self).parent_id,
    {
        let ghost views = self.tags@.map_values(|t: String| t@);
        let mut kept: Vec<String> = Vec::new();
        let mut i: usize = 0;
        while i < self.tags.len()
            invariant
                i <= self.tags.len(),
                views == self.tags@.map_values(|t: String| t@),
                kept@.map_values(|t: String| t@) == views.subrange(0, i as int).filter(|t: Seq<char>| t != tag@),
            decreases self.tags.len() - i,
        {
            let ghost before = kept@.map_values(|t: String| t@);
            proof {
                reveal_with_fuel(Seq::filter, 1);
                assert(views.subrange(0, i + 1).drop_last() =~= views.subrange(0, i as int));
                assert(views.subrange(0, i + 1).last() == self.tags@[i as int]@);
            }
            if !str_eq(self.tags[i].as_str(), tag) {
                kept.push(self.tags[i].clone());
                proof {
                    assert(kept@.map_values(|t: String| t@) =~= before.push(self.tags@[i as int]@));
                }
            }
            i = i + 1;
        }
        proof {
            assert(views.subrange(0, views.len() as int) =~= views);
        }
        self.tags = kept;
        self.updated_at = now_millis();
    }

    /// Sets a metadata value, replacing the value the key had.
    pub fn _set_metadata(&mut self, key: String, value: String)
        ensures
            final(self).metadata@.map_values(|kv: (String, String)| (kv.0@, kv.1@))
                == set_pair(old(self).metadata@.map_values(|kv: (String, String)| (kv.0@, kv.1@)), key@, value@),
            final(self).id == old(self).id,
            final(self).name == old(self).name,
            final(self).children == old(self).children,
            final(self).parent_id == old(self).parent_id,
    {
        let ghost views = self.metadata@.map_values(|kv: (String, String)| (kv.0@, kv.1@));
        let mut i: usize = 0;
        while i < self.metadata.len()
            invariant
                i <= self.metadata.len(),
                *self == *old(self),
                views == self.metadata@.map_values(|kv: (String, String)| (kv.0@, kv.1@)),
                forall|j: int| 0 <= j < i ==> views[j].0 != key@,
            decreases self.metadata.len() - i,
        {
            if str_eq(self.metadata[i].0.as_str(), key.as_str()) {
                proof {
                    assert(views[i as int].0 == key@);
                    lemma_first_key(views, key@, i as int);
                }
                let k = self.metadata[i].0.clone();
                self.metadata.set(i, (k, value));
                self.updated_at = now_millis();
                proof {
                    assert(self.metadata@.map_values(|kv: (String, String)| (kv.0@, kv.1@)) =~= views.update(i as int, (key@, value@)));
                }
                return;
            }
            i = i + 1;
        }
        proof {
            lemma_no_key(views, key@);
        }
        self.metadata.push((key, value));
        self.updated_at = now_millis();
        proof {
            assert(self.metadata@.map_values(|kv: (String, String)| (kv.0@, kv.1@)) =~= views.push((key@, value@)));
        }
    }

    /// The metadata value for a key, if there is one.
    pub fn _get_metadata(&self, key: &str) -> (r: Option<&String>)
        ensures
            match r {
                Some(v) => get_pair(self.metadata@.map_values(|kv: (String, String)| (kv.0@, kv.1@)), key@) == Some(v@),
                None => get_pair(self.metadata@.map_values(|kv: (String, String)| (kv.0@, kv.1@)), key@) is None,
            },
    {
        let ghost views = self.metadata@.map_values(|kv: (String, String)| (kv.0@, kv.1@));
        let mut i: usize = 0;
        while i < self.metadata.len()
            invariant
                i <= self.metadata.len(),
                views == self.metadata@.map_values(|kv: (String, String)| (kv.0@, kv.1@)),
                forall|j: int| 0 <= j < i ==> views[j].0 != key@,
            decreases self.metadata.len() - i,
        {
            if str_eq(self.metadata[i].0.as_str(), key) {
                proof {
                    lemma_first_key(views, key@, i as int);
                }
                return Some(&self.metadata[i].1);
            }
            i = i + 1;
        }
        proof {
            lemma_no_key(views, key@);
        }
        None
    }
}

/// The first position of `key` among the pairs, or the length when it is absent.
pub open spec fn key_pos(s: Seq<(Seq<char>, Seq<char>)>, key: Seq<char>) -> int
    decreases s.len(),
{
    if s.len() == 0 {
        0
    } else if s[0].0 == key {
        0
    } else {
        1 + key_pos(s.drop_first(), key)
    }
}

/// The value of `key` among key/value pairs (the first pair with that key).
pub open spec fn get_pair(s: Seq<(Seq<char>, Seq<char>)>, key: Seq<char>) -> Option<Seq<char>> {
    let i = key_pos(s, key);
    if i < s.len() { Some(s[i].1) } else { None }
}

/// The pairs with the value of `key` replaced, or a new pair at the end.
pub open spec fn set_pair(s: Seq<(Seq<char>, Seq<char>)>, key: Seq<char>, value: Seq<char>) -> Seq<(Seq<char>, Seq<char>)> {
    let i = key_pos(s, key);
    if i < s.len() { s.update(i, (key, value)) } else { s.push((key, value)) }
}

proof fn lemma_first_key(s: Seq<(Seq<char>, Seq<char>)>, key: Seq<char>, i: int)
    requires
        0 <= i < s.len(),
        s[i].0 == key,
        forall|j: int| 0 <= j < i ==> s[j].0 != key,
    ensures
        key_pos(s, key) == i,
    decreases i,
{
    if i > 0 {
        assert forall|j: int| 0 <= j < i - 1 implies s.drop_first()[j].0 != key by {
            assert(s.drop_first()[j] == s[j + 1]);
        }
        lemma_first_key(s.drop_first(), key, i - 1);
    }
}

proof fn lemma_no_key(s: Seq<(Seq<char>, Seq<char>)>, key: Seq<char>)
    requires
        forall|j: int| 0 <= j < s.len() ==> s[j].0 != key,
    ensures
        key_pos(s, key) == s.len(),
    decreases s.len(),
{
    if s.len() > 0 {
        assert forall|j: int| 0 <= j < s.drop_first().len() implies s.drop_first()[j].0 != key by {
            assert(s.drop_first()[j] == s[j + 1]);
        }
        lemma_no_key(s.drop_first(), key);
    }
}

} // verus!
