//! Tags and the index that links tags to snippets.
use vstd::prelude::*;
use crate::ids::{new_id, now_millis};
use crate::snippet::clone_opt_string;
use crate::text::{chars_of, concat2, lowercase, seq_contains, str_contains, str_eq, string_from_chars, to_lower};

verus! {

/// A tag that snippets can carry.
#[derive(Debug)]
pub struct Tag {
    pub id: u128,
    /// The name, without the `#` prefix.
    pub name: String,
    /// An optional colour (RGB hex code without `#`).
    pub color: Option<String>,
    pub created_at: i64,
    pub last_used_at: i64,
    pub usage_count: usize,
}

/// A name without one leading `#`.
pub open spec fn without_hash(n: Seq<char>) -> Seq<char> {
    if n.len() > 0 && n[0] == '#' { n.drop_first() } else { n }
}

/// The name without one leading `#`.
pub fn strip_hash(name: &str) -> (r: String)
    ensures
        r@ == without_hash(name@),
{
    let v = chars_of(name);
    if v.len() > 0 && v[0] == '#' {
        let r = string_from_chars(vstd::slice::slice_subrange(v.as_slice(), 1, v.len()));
        proof {
            assert(v@.subrange(1, v@.len() as int) =~= v@.drop_first());
        }
        r
    } else {
        string_from_chars(v.as_slice())
    }
}

/// The usage count after one more use; the count wraps at the top of `usize`.
pub open spec fn next_count(c: usize) -> usize {
    if c < usize::MAX { (c + 1) as usize } else { 0 }
}

impl Tag {
    /// A new tag with a fresh id; a leading `#` is removed from the name.
    pub fn new(name: String) -> (r: Tag)
        ensures
            r.name@ == without_hash(name@),
            r.color is None,
            r.usage_count == 0,
            r.created_at == r.last_used_at,
    {
        let clean = strip_hash(name.as_str());
        let now = now_millis();
        Tag {
            id: new_id(),
            name: clean,
            color: None,
            created_at: now,
            last_used_at: now,
            usage_count: 0,
        }
    }

    /// The name with its `#` prefix, as shown.
    pub fn display_name(&self) -> (r: String)
        ensures
            r@ == seq!['#'] + self.name@,
    {
        let r = concat2("#", self.name.as_str());
        proof {
            reveal_strlit("#");
        }
        r
    }

    /// Counts one more use of the tag.
    pub fn mark_used(&mut self)
        ensures
            final(self).usage_count == next_count(old(self).usage_count),
            final(self).id == old(self).id,
            final(self).name == old(self).name,
            final(self).color == old(self).color,
            final(self).created_at == old(self).created_at,
    {
        self.usage_count = if self.usage_count < usize::MAX { self.usage_count + 1 } else { 0 };
        self.last_used_at = now_millis();
    }

    /// A copy of the tag.
    pub fn copy(&self) -> (r: Tag)
        ensures
            r == *self,
    {
        Tag {
            id: self.id,
            name: self.name.clone(),
            color: clone_opt_string(&self.color),
            created_at: self.created_at,
            last_used_at: self.last_used_at,
            usage_count: self.usage_count,
        }
    }
}

/// All tags, and which snippet carries which tag.
#[derive(Debug)]
pub struct TagManager {
    /// The known tags, in the order they were created.
    pub tags: Vec<Tag>,
    /// Pairs `(snippet id, tag id)`: the snippet carries the tag.
    pub links: Vec<(u128, u128)>,
}

/// The position of the tag with id `id`, or the length when there is none.
pub open spec fn tag_pos(tags: Seq<Tag>, id: u128) -> int
    decreases tags.len(),
{
    if tags.len() == 0 {
        0
    } else if tags.last().id == id {
        tags.len() - 1
    } else {
        if tag_pos(tags.drop_last(), id) < tags.len() - 1 { tag_pos(tags.drop_last(), id) } else { tags.len() as int }
    }
}

/// There is a tag with id `id`.
pub open spec fn has_tag_id(tags: Seq<Tag>, id: u128) -> bool {
    exists|i: int| 0 <= i < tags.len() && #[trigger] tags[i].id == id
}

/// The position of the first tag whose name equals `n` without regard to case,
/// or the length when there is none.
pub open spec fn first_named(tags: Seq<Tag>, n: Seq<char>) -> int
    decreases tags.len(),
{
    if tags.len() == 0 {
        0
    } else if lowercase(tags[0].name@) == lowercase(n) {
        0
    } else {
        1 + first_named(tags.drop_first(), n)
    }
}

/// Keeps the links that are not to tag `t`.
pub open spec fn off_tag(t: u128) -> spec_fn((u128, u128)) -> bool {
    |l: (u128, u128)| l.1 != t
}

/// `b` is `a` after `create_tag(name)` gave `r`: the first tag named like
/// `name` (a leading `#` removed, case ignored), unchanged; or else a new
/// tag `r` holding that name (one more `#` removed) with no use and no
/// colour, put in place of a tag with the same id (as a map insert does)
/// or at the end, the other tags as they were and no link to `r` kept.
pub open spec fn tag_created(a: TagManager, b: TagManager, name: Seq<char>, r: u128) -> bool {
    let clean = without_hash(name);
    let k = first_named(a.tags@, clean);
    if k < a.tags@.len() {
        &&& r == a.tags@[k].id
        &&& b.tags@ == a.tags@
        &&& b.links@ == a.links@
    } else {
        let had = has_tag_id(a.tags@, r);
        let p = if had { tag_pos(a.tags@, r) } else { a.tags@.len() as int };
        &&& b.tags@.len() == if had { a.tags@.len() } else { a.tags@.len() + 1 }
        &&& 0 <= p < b.tags@.len()
        &&& forall|i: int| 0 <= i < b.tags@.len() && i != p ==> #[trigger] b.tags@[i] == a.tags@[i]
        &&& b.tags@[p].id == r
        &&& b.tags@[p].name@ == without_hash(clean)
        &&& b.tags@[p].usage_count == 0
        &&& b.tags@[p].color is None
        &&& b.links@ == a.links@.filter(off_tag(r))
    }
}

/// The ids of the snippets that carry tag `t`, in link order.
pub open spec fn snippets_with(links: Seq<(u128, u128)>, t: u128) -> Seq<u128> {
    links.filter(on_tag(t)).map_values(|l: (u128, u128)| l.0)
}

/// Holds of a link to tag `t`.
pub open spec fn on_tag(t: u128) -> spec_fn((u128, u128)) -> bool {
    |l: (u128, u128)| l.1 == t
}

/// The ids of the tags that snippet `s` carries, in link order.
pub open spec fn tags_of(links: Seq<(u128, u128)>, s: u128) -> Seq<u128> {
    links.filter(|l: (u128, u128)| l.0 == s).map_values(|l: (u128, u128)| l.1)
}

/// Some link names tag `t`.
pub open spec fn tag_in_use(links: Seq<(u128, u128)>, t: u128) -> bool {
    exists|i: int| 0 <= i < links.len() && #[trigger] links[i].1 == t
}

/// Keeps the links of snippets other than `s`.
pub open spec fn not_of_snippet(s: u128) -> spec_fn((u128, u128)) -> bool {
    |l: (u128, u128)| l.0 != s
}

/// The links left when snippet `s` is forgotten.
pub open spec fn links_without_snippet(links: Seq<(u128, u128)>, s: u128) -> Seq<(u128, u128)> {
    links.filter(not_of_snippet(s))
}

/// Keeps a tag unless snippet `s` carried it and no other snippet does.
pub open spec fn keep_tag_after(links: Seq<(u128, u128)>, s: u128) -> spec_fn(Tag) -> bool {
    |t: Tag| !(links.contains((s, t.id)) && !tag_in_use(links_without_snippet(links, s), t.id))
}

/// The tags left when snippet `s` is forgotten.
pub open spec fn tags_without_snippet(tags: Seq<Tag>, links: Seq<(u128, u128)>, s: u128) -> Seq<Tag> {
    tags.filter(keep_tag_after(links, s))
}

/// The tags and links left when the snippets `ids` are forgotten one after another.
pub open spec fn forget_snippets(tags: Seq<Tag>, links: Seq<(u128, u128)>, ids: Seq<u128>) -> (Seq<Tag>, Seq<(u128, u128)>)
    decreases ids.len(),
{
    if ids.len() == 0 {
        (tags, links)
    } else {
        let prev = forget_snippets(tags, links, ids.drop_last());
        (tags_without_snippet(prev.0, prev.1, ids.last()), links_without_snippet(prev.1, ids.last()))
    }
}

/// Holds of a tag whose lower-case name contains the lower-case `q`.
pub open spec fn matches_name(q: Seq<char>) -> spec_fn(Tag) -> bool {
    |t: Tag| name_matches(t, q)
}

/// The tags whose lower-case name contains the lower-case `q`, in order.
pub open spec fn tags_matching(tags: Seq<Tag>, q: Seq<char>) -> Seq<Tag> {
    tags.filter(matches_name(q))
}

/// Whether the tags of `tags` matching `q` (lower-case) in their lower-case name.
pub open spec fn name_matches(t: Tag, q: Seq<char>) -> bool {
    seq_contains(lowercase(t.name@), lowercase(q))
}

impl TagManager {
    /// Tag ids are distinct, no link is listed twice, and every link names a known tag.
    pub open spec fn wf(self) -> bool {
        &&& forall|i: int, j: int| 0 <= i < self.tags@.len() && 0 <= j < self.tags@.len() && self.tags@[i].id == self.tags@[j].id ==> i == j
        &&& self.links@.no_duplicates()
        &&& forall|i: int| 0 <= i < self.links@.len() ==> has_tag_id(self.tags@, #[trigger] self.links@[i].1)
    }

    /// An empty tag manager.
    pub fn new() -> (r: TagManager)
        ensures
            r.wf(),
            r.tags@.len() == 0,
            r.links@.len() == 0,
    {
        TagManager { tags: Vec::new(), links: Vec::new() }
    }

    /// The position of the first tag whose name equals `n` without regard to case.
    fn find_named(&self, n: &str) -> (r: usize)
        ensures
            r == first_named(self.tags@, n@),
            r <= self.tags@.len(),
    {
        let want = to_lower(n);
        let mut i: usize = 0;
        proof {
            assert(self.tags@.subrange(0, self.tags@.len() as int) =~= self.tags@);
        }
        while i < self.tags.len()
            invariant
                i <= self.tags.len(),
                want@ == lowercase(n@),
                first_named(self.tags@, n@) == i + first_named(self.tags@.subrange(i as int, self.tags@.len() as int), n@),
            decreases self.tags.len() - i,
        {
            let ghost rest = self.tags@.subrange(i as int, self.tags@.len() as int);
            proof {
                assert(rest[0] == self.tags@[i as int]);
                assert(rest.drop_first() =~= self.tags@.subrange(i + 1, self.tags@.len() as int));
            }
            let have = to_lower(self.tags[i].name.as_str());
            if str_eq(have.as_str(), want.as_str()) {
                return i;
            }
            i = i + 1;
        }
        proof {
            assert(self.tags@.subrange(i as int, self.tags@.len() as int).len() == 0);
        }
        i
    }

    /// The position of the tag with id `id`, if there is one.
    pub fn position_of(&self, id: u128) -> (r: Option<usize>)
        ensures
            match r {
                Some(i) => i < self.tags@.len() && self.tags@[i as int].id == id,
                None => !has_tag_id(self.tags@, id),
            },
    {
        let mut i: usize = 0;
        while i < self.tags.len()
            invariant
                i <= self.tags.len(),
                forall|j: int| 0 <= j < i ==> self.tags@[j].id != id,
            decreases self.tags.len() - i,
        {
            if self.tags[i].id == id {
                return Some(i);
            }
            i = i + 1;
        }
        None
    }

    /// The links without those naming tag `t`.
    fn links_without_tag(links: &Vec<(u128, u128)>, t: u128) -> (r: Vec<(u128, u128)>)
        ensures
            r@ == links@.filter(|l: (u128, u128)| l.1 != t),
    {
        let mut r: Vec<(u128, u128)> = Vec::new();
        let mut i: usize = 0;
        while i < links.len()
            invariant
                i <= links.len(),
                r@ == links@.subrange(0, i as int).filter(|l: (u128, u128)| l.1 != t),
            decreases links.len() - i,
        {
            proof {
                reveal_with_fuel(Seq::filter, 1);
                assert(links@.subrange(0, i + 1).drop_last() =~= links@.subrange(0, i as int));
            }
            if links[i].1 != t {
                r.push(links[i]);
            }
            i = i + 1;
        }
        proof {
            assert(links@.subrange(0, links@.len() as int) =~= links@);
        }
        r
    }

    /// Whether the link `(snippet_id, tag_id)` is recorded.
    pub fn has_link(&self, snippet_id: u128, tag_id: u128) -> (r: bool)
        ensures
            r == self.links@.contains((snippet_id, tag_id)),
    {
        let mut i: usize = 0;
        while i < self.links.len()
            invariant
                i <= self.links.len(),
                forall|j: int| 0 <= j < i ==> self.links@[j] != (snippet_id, tag_id),
            decreases self.links.len() - i,
        {
            if self.links[i].0 == snippet_id && self.links[i].1 == tag_id {
                return true;
            }
            i = i + 1;
        }
        false
    }

    /// Gives `snippet_id` the tag named `tag_name` (created when there is none),
    /// counts a use of the tag, and returns the tag's id.
    pub fn add_tag_to_snippet(&mut self, snippet_id: u128, tag_name: String) -> (r: u128)
        requires
            old(self).wf(),
        ensures
            final(self).wf(),
            final(self).links@.contains((snippet_id, r)),
            has_tag_id(final(self).tags@, r),
            final(self).tags@.len() >= old(self).tags@.len(),
            ({
                let clean = without_hash(tag_name@);
                let k = first_named(old(self).tags@, clean);
                if k < old(self).tags@.len() {
                    &&& r == old(self).tags@[k].id
                    &&& final(self).tags@.len() == old(self).tags@.len()
                    &&& (forall|j: int| 0 <= j < old(self).tags@.len() && j != k ==> final(self).tags@[j] == old(self).tags@[j])
                    &&& final(self).tags@[k].id == old(self).tags@[k].id
                    &&& final(self).tags@[k].name == old(self).tags@[k].name
                    &&& final(self).tags@[k].usage_count == next_count(old(self).tags@[k].usage_count)
                    &&& final(self).links@ == if old(self).links@.contains((snippet_id, r)) {
                        old(self).links@
                    } else {
                        old(self).links@.push((snippet_id, r))
                    }
                } else {
                    &&& final(self).tags@[tag_pos(final(self).tags@, r)].name@ == without_hash(clean)
                    &&& final(self).tags@[tag_pos(final(self).tags@, r)].usage_count == 1
                    &&& final(self).links@ == old(self).links@.filter(|l: (u128, u128)| l.1 != r).push((snippet_id, r))
                }
            }),
            forall|t: u128| has_tag_id(old(self).tags@, t) ==> has_tag_id(final(self).tags@, t),
    {
        let tag_id = self.create_tag(tag_name);
        let ghost mid = self.tags@;
        let ghost mid_links = self.links@;
        let p = self.position_of(tag_id);
        let i = p.unwrap();
        proof {
            let clean = without_hash(tag_name@);
            let k = first_named(old(self).tags@, clean);
            lemma_first_named_bounds(old(self).tags@, clean);
            if k < old(self).tags@.len() {
                assert(self.tags@[k].id == tag_id);
                assert(self.tags@[i as int].id == tag_id);
                assert(i == k);
            }
        }
        let mut tag = self.tags[i].copy();
        tag.mark_used();
        self.tags.set(i, tag);
        proof {
            lemma_tag_pos_unique(mid, i as int);
            lemma_tag_pos_unique(self.tags@, i as int);
            assert forall|t: u128| has_tag_id(mid, t) <==> has_tag_id(self.tags@, t) by {
                if has_tag_id(mid, t) {
                    let j = choose|j: int| 0 <= j < mid.len() && mid[j].id == t;
                    assert(self.tags@[j].id == t);
                }
                if has_tag_id(self.tags@, t) {
                    let j = choose|j: int| 0 <= j < self.tags@.len() && self.tags@[j].id == t;
                    assert(mid[j].id == t);
                }
            }
            let clean = without_hash(tag_name@);
            let k = first_named(old(self).tags@, clean);
            if k < old(self).tags@.len() {
                assert(i == k);
            } else {
                assert(tag_pos(mid, tag_id) == i);
            }
        }
        if !self.has_link(snippet_id, tag_id) {
            self.links.push((snippet_id, tag_id));
            proof {
                assert(self.links@[self.links@.len() - 1] == (snippet_id, tag_id));
                assert forall|a: int, b: int| 0 <= a < b < self.links@.len() implies self.links@[a] != self.links@[b] by {
                    if b == self.links@.len() - 1 {
                        assert(mid_links[a] == self.links@[a]);
                    } else {
                        assert(mid_links[a] == self.links@[a]);
                        assert(mid_links[b] == self.links@[b]);
                    }
                }
                assert forall|j: int| 0 <= j < self.links@.len() implies has_tag_id(self.tags@, #[trigger] self.links@[j].1) by {
                    if j < mid_links.len() {
                        assert(mid_links[j] == self.links@[j]);
                    }
                }
                let clean = without_hash(tag_name@);
                let k = first_named(old(self).tags@, clean);
                if k >= old(self).tags@.len() {
                    assert(mid_links == old(self).links@.filter(|l: (u128, u128)| l.1 != tag_id));
                }
            }
        } else {
            proof {
                let clean = without_hash(tag_name@);
                let k = first_named(old(self).tags@, clean);
                if k >= old(self).tags@.len() {
                    lemma_filter_subset(old(self).links@, |l: (u128, u128)| l.1 != tag_id);
                    let j = choose|j: int| 0 <= j < mid_links.len() && mid_links[j] == (snippet_id, tag_id);
                    assert(false);
                }
            }
        }
        tag_id
    }

    /// The snippets that carry tag `tag_id`, or `None` when there is no such tag.
    pub fn get_snippets_with_tag(&self, tag_id: &u128) -> (r: Option<Vec<u128>>)
        ensures
            match r {
                Some(v) => has_tag_id(self.tags@, *tag_id) && v@ == snippets_with(self.links@, *tag_id),
                None => !has_tag_id(self.tags@, *tag_id),
            },
    {
        match self.position_of(*tag_id) {
            None => None,
            Some(_) => Some(self.tagged_snippet_ids(*tag_id)),
        }
    }

    /// The ids of the snippets linked to tag `t`, in link order.
    pub fn tagged_snippet_ids(&self, t: u128) -> (r: Vec<u128>)
        ensures
            r@ == snippets_with(self.links@, t),
    {
        let mut v: Vec<u128> = Vec::new();
        let mut i: usize = 0;
        while i < self.links.len()
            invariant
                i <= self.links.len(),
                v@ == snippets_with(self.links@.subrange(0, i as int), t),
            decreases self.links.len() - i,
        {
            proof {
                reveal_with_fuel(Seq::filter, 1);
                assert(self.links@.subrange(0, i + 1).drop_last() =~= self.links@.subrange(0, i as int));
            }
            if self.links[i].1 == t {
                v.push(self.links[i].0);
                proof {
                    let f = self.links@.subrange(0, i as int).filter(on_tag(t));
                    assert(f.push(self.links@[i as int]).map_values(|l: (u128, u128)| l.0) =~= f.map_values(|l: (u128, u128)| l.0).push(self.links@[i as int].0));
                }
            }
            i = i + 1;
        }
        proof {
            assert(self.links@.subrange(0, self.links@.len() as int) =~= self.links@);
        }
        v
    }

    /// The tags that snippet `snippet_id` carries.
    pub fn tags_of_snippet(&self, snippet_id: u128) -> (r: Vec<u128>)
        ensures
            r@ == tags_of(self.links@, snippet_id),
    {
        let s = snippet_id;
        let mut v: Vec<u128> = Vec::new();
        let mut i: usize = 0;
        while i < self.links.len()
            invariant
                i <= self.links.len(),
                v@ == tags_of(self.links@.subrange(0, i as int), s),
            decreases self.links.len() - i,
        {
            proof {
                reveal_with_fuel(Seq::filter, 1);
                assert(self.links@.subrange(0, i + 1).drop_last() =~= self.links@.subrange(0, i as int));
            }
            if self.links[i].0 == s {
                v.push(self.links[i].1);
                proof {
                    let f = self.links@.subrange(0, i as int).filter(|l: (u128, u128)| l.0 == s);
                    assert(f.push(self.links@[i as int]).map_values(|l: (u128, u128)| l.1) =~= f.map_values(|l: (u128, u128)| l.1).push(self.links@[i as int].1));
                }
            }
            i = i + 1;
        }
        proof {
            assert(self.links@.subrange(0, self.links@.len() as int) =~= self.links@);
        }
        v
    }

    /// The tags whose name contains `query`, both taken in lower case.
    pub fn find_tags_by_name(&self, query: &str) -> (r: Vec<Tag>)
        ensures
            r@ == tags_matching(self.tags@, query@),
    {
        let q = to_lower(query);
        let mut v: Vec<Tag> = Vec::new();
        let mut i: usize = 0;
        while i < self.tags.len()
            invariant
                i <= self.tags.len(),
                q@ == lowercase(query@),
                v@ == tags_matching(self.tags@.subrange(0, i as int), query@),
            decreases self.tags.len() - i,
        {
            proof {
                reveal_with_fuel(Seq::filter, 1);
                assert(self.tags@.subrange(0, i + 1).drop_last() =~= self.tags@.subrange(0, i as int));
            }
            let name = to_lower(self.tags[i].name.as_str());
            if str_contains(name.as_str(), q.as_str()) {
                v.push(self.tags[i].copy());
            }
            i = i + 1;
        }
        proof {
            assert(self.tags@.subrange(0, self.tags@.len() as int) =~= self.tags@);
        }
        v
    }

    /// Whether some link names tag `t`.
    fn tag_used(links: &Vec<(u128, u128)>, t: u128) -> (r: bool)
        ensures
            r == tag_in_use(links@, t),
    {
        let mut i: usize = 0;
        while i < links.len()
            invariant
                i <= links.len(),
                forall|j: int| 0 <= j < i ==> links@[j].1 != t,
            decreases links.len() - i,
        {
            if links[i].1 == t {
                return true;
            }
            i = i + 1;
        }
        false
    }

    /// Forgets deleted snippets one after another (see `handle_snippet_deleted`).
    pub fn handle_snippets_deleted(&mut self, ids: &Vec<u128>)
        requires
            old(self).wf(),
        ensures
            final(self).wf(),
            (final(self).tags@, final(self).links@) == forget_snippets(old(self).tags@, old(self).links@, ids@),
    {
        let mut k: usize = 0;
        while k < ids.len()
            invariant
                self.wf(),
                k <= ids.len(),
                (self.tags@, self.links@) == forget_snippets(old(self).tags@, old(self).links@, ids@.subrange(0, k as int)),
            decreases ids.len() - k,
        {
            proof {
                assert(ids@.subrange(0, k + 1).drop_last() =~= ids@.subrange(0, k as int));
            }
            self.handle_snippet_deleted(&ids[k]);
            k = k + 1;
        }
        proof {
            assert(ids@.subrange(0, ids@.len() as int) =~= ids@);
        }
    }

    /// Forgets a deleted snippet: its links go, and so does each of its tags
    /// that no other snippet carries.
    pub fn handle_snippet_deleted(&mut self, snippet_id: &u128)
        requires
            old(self).wf(),
        ensures
            final(self).wf(),
            final(self).links@ == links_without_snippet(old(self).links@, *snippet_id),
            final(self).tags@ == tags_without_snippet(old(self).tags@, old(self).links@, *snippet_id),
    {
        let s = *snippet_id;
        let ghost old_links = self.links@;
        let mut kept: Vec<(u128, u128)> = Vec::new();
        let mut i: usize = 0;
        while i < self.links.len()
            invariant
                i <= self.links.len(),
                self.links@ == old_links,
                kept@ == links_without_snippet(old_links.subrange(0, i as int), s),
            decreases self.links.len() - i,
        {
            proof {
                reveal_with_fuel(Seq::filter, 1);
                assert(old_links.subrange(0, i + 1).drop_last() =~= old_links.subrange(0, i as int));
            }
            if self.links[i].0 != s {
                kept.push(self.links[i]);
            }
            i = i + 1;
        }
        proof {
            assert(old_links.subrange(0, old_links.len() as int) =~= old_links);
        }
        let ghost old_tags = self.tags@;
        let ghost pred = keep_tag_after(old_links, s);
        let mut tags: Vec<Tag> = Vec::new();
        let mut j: usize = 0;
        while j < self.tags.len()
            invariant
                j <= self.tags.len(),
                self.tags@ == old_tags,
                self.links@ == old_links,
                kept@ == links_without_snippet(old_links, s),
                pred == keep_tag_after(old_links, s),
                tags@ == old_tags.subrange(0, j as int).filter(pred),
            decreases self.tags.len() - j,
        {
            proof {
                reveal_with_fuel(Seq::filter, 1);
                assert(old_tags.subrange(0, j + 1).drop_last() =~= old_tags.subrange(0, j as int));
            }
            let t = self.tags[j].id;
            let drop = self.has_link(s, t) && !Self::tag_used(&kept, t);
            if !drop {
                tags.push(self.tags[j].copy());
            }
            j = j + 1;
        }
        proof {
            assert(old_tags.subrange(0, old_tags.len() as int) =~= old_tags);
            lemma_filter_no_dups(old_links, not_of_snippet(s));
            lemma_filter_subset(old_links, not_of_snippet(s));
            lemma_filter_subset(old_tags, pred);
            lemma_filter_distinct_ids(old_tags, pred);
            assert forall|k: int| 0 <= k < kept@.len() implies has_tag_id(tags@, #[trigger] kept@[k].1) by {
                let l = kept@[k];
                assert(old_links.contains(l));
                let a = choose|a: int| 0 <= a < old_links.len() && old_links[a] == l;
                assert(has_tag_id(old_tags, old_links[a].1));
                let b = choose|b: int| 0 <= b < old_tags.len() && old_tags[b].id == l.1;
                assert(tag_in_use(kept@, l.1));
                assert(pred(old_tags[b]));
                broadcast use vstd::seq_lib::group_filter_ensures;
                assert(old_tags.filter(pred).contains(old_tags[b]));
                let c = choose|c: int| 0 <= c < tags@.len() && tags@[c] == old_tags[b];
                assert(tags@[c].id == l.1);
            }
        }
        self.links = kept;
        self.tags = tags;
    }

    /// Returns the id of the tag named `name` (a leading `#` removed, case
    /// ignored); when there is none, creates it.
    pub fn create_tag(&mut self, name: String) -> (r: u128)
        requires
            old(self).wf(),
        ensures
            final(self).wf(),
            tag_created(*old(self), *final(self), name@, r),
            ({
                let clean = without_hash(name@);
                let k = first_named(old(self).tags@, clean);
                if k < old(self).tags@.len() {
                    &&& r == old(self).tags@[k].id
                    &&& final(self).tags@ == old(self).tags@
                    &&& final(self).links@ == old(self).links@
                } else {
                    &&& has_tag_id(final(self).tags@, r)
                    &&& final(self).tags@[tag_pos(final(self).tags@, r)].name@ == without_hash(clean)
                    &&& final(self).tags@[tag_pos(final(self).tags@, r)].usage_count == 0
                    &&& (forall|t: u128| t != r ==> (has_tag_id(final(self).tags@, t) <==> has_tag_id(old(self).tags@, t)))
                    &&& final(self).links@ == old(self).links@.filter(|l: (u128, u128)| l.1 != r)
                }
            }),
            forall|t: u128| has_tag_id(old(self).tags@, t) ==> has_tag_id(final(self).tags@, t),
            has_tag_id(final(self).tags@, r),
            final(self).tags@.len() >= old(self).tags@.len(),
    {
        let clean = strip_hash(name.as_str());
        let k = self.find_named(clean.as_str());
        if k < self.tags.len() {
            proof {
                assert(self.tags@[k as int].id == self.tags@[k as int].id);
            }
            return self.tags[k].id;
        }
        let tag = Tag::new(clean);
        let tag_id = tag.id;
        let ghost old_tags = self.tags@;
        match self.position_of(tag_id) {
            Some(i) => {
                self.tags.set(i, tag);
                proof {
                    lemma_tag_pos_unique(old_tags, i as int);
                    assert(has_tag_id(old_tags, tag_id));
                    lemma_tag_pos_unique(self.tags@, i as int);
                    assert forall|t: u128| has_tag_id(self.tags@, t) <==> has_tag_id(old_tags, t) by {
                        if has_tag_id(old_tags, t) {
                            let j = choose|j: int| 0 <= j < old_tags.len() && old_tags[j].id == t;
                            assert(self.tags@[j].id == t);
                        }
                        if has_tag_id(self.tags@, t) {
                            let j = choose|j: int| 0 <= j < self.tags@.len() && self.tags@[j].id == t;
                            assert(old_tags[j].id == t);
                        }
                    }
                }
            },
            None => {
                self.tags.push(tag);
                proof {
                    lemma_tag_pos_unique(self.tags@, (self.tags@.len() - 1) as int);
                    assert forall|t: u128| t != tag_id implies (has_tag_id(self.tags@, t) <==> has_tag_id(old_tags, t)) by {
                        if has_tag_id(old_tags, t) {
                            let j = choose|j: int| 0 <= j < old_tags.len() && old_tags[j].id == t;
                            assert(self.tags@[j].id == t);
                        }
                        if has_tag_id(self.tags@, t) {
                            let j = choose|j: int| 0 <= j < self.tags@.len() && self.tags@[j].id == t;
                            assert(old_tags[j].id == t);
                        }
                    }
                    assert forall|t: u128| has_tag_id(old_tags, t) implies has_tag_id(self.tags@, t) by {
                        let j = choose|j: int| 0 <= j < old_tags.len() && old_tags[j].id == t;
                        assert(self.tags@[j].id == t);
                    }
                }
            },
        }
        let ghost old_links = self.links@;
        self.links = Self::links_without_tag(&self.links, tag_id);
        proof {
            assert(off_tag(tag_id) =~= (|l: (u128, u128)| l.1 != tag_id));
            assert(self.links@ == old_links.filter(off_tag(tag_id)));
            assert(has_tag_id(self.tags@, tag_id)) by {
                let p = tag_pos(self.tags@, tag_id);
                assert(self.tags@[p].id == tag_id);
            }
            lemma_filter_subset(old_links, |l: (u128, u128)| l.1 != tag_id);
            assert forall|i: int| 0 <= i < self.links@.len() implies has_tag_id(self.tags@, #[trigger] self.links@[i].1) by {
                let l = self.links@[i];
                assert(old_links.contains(l));
                let j = choose|j: int| 0 <= j < old_links.len() && old_links[j] == l;
                assert(has_tag_id(old_tags, old_links[j].1));
            }
            lemma_filter_no_dups(old_links, |l: (u128, u128)| l.1 != tag_id);
        }
        tag_id
    }
}

/// A filter keeps only elements of the sequence.
pub proof fn lemma_filter_subset<A>(s: Seq<A>, p: spec_fn(A) -> bool)
    ensures
        forall|i: int| 0 <= i < s.filter(p).len() ==> s.contains(#[trigger] s.filter(p)[i]) && p(s.filter(p)[i]),
{
    broadcast use vstd::seq_lib::group_filter_ensures, Seq::lemma_filter_contains_rev;
    assert forall|i: int| 0 <= i < s.filter(p).len() implies s.contains(#[trigger] s.filter(p)[i]) && p(s.filter(p)[i]) by {
        assert(s.filter(p).contains(s.filter(p)[i]));
    }
}

/// A filter of a sequence without duplicates has none.
pub proof fn lemma_filter_no_dups<A>(s: Seq<A>, p: spec_fn(A) -> bool)
    requires
        s.no_duplicates(),
    ensures
        s.filter(p).no_duplicates(),
    decreases s.len(),
{
    reveal_with_fuel(Seq::filter, 1);
    if s.len() > 0 {
        let d = s.drop_last();
        assert(d.no_duplicates());
        lemma_filter_no_dups(d, p);
        lemma_filter_subset(d, p);
        if p(s.last()) {
            assert forall|i: int, j: int| 0 <= i < j < s.filter(p).len() implies s.filter(p)[i] != s.filter(p)[j] by {
                if j == s.filter(p).len() - 1 {
                    let x = d.filter(p)[i];
                    assert(d.contains(x));
                    let k = choose|k: int| 0 <= k < d.len() && d[k] == x;
                    assert(s[k] == x);
                    assert(s[s.len() - 1] == s.last());
                }
            }
        }
    }
}

/// `first_named` is a position in the list or its length.
pub proof fn lemma_first_named_bounds(tags: Seq<Tag>, n: Seq<char>)
    ensures
        0 <= first_named(tags, n) <= tags.len(),
        first_named(tags, n) < tags.len() ==> lowercase(tags[first_named(tags, n)].name@) == lowercase(n),
        forall|j: int| 0 <= j < first_named(tags, n) ==> lowercase(#[trigger] tags[j].name@) != lowercase(n),
    decreases tags.len(),
{
    if tags.len() > 0 && lowercase(tags[0].name@) != lowercase(n) {
        lemma_first_named_bounds(tags.drop_first(), n);
        assert forall|j: int| 0 <= j < first_named(tags, n) implies lowercase(#[trigger] tags[j].name@) != lowercase(n) by {
            if j > 0 {
                assert(tags[j] == tags.drop_first()[j - 1]);
            }
        }
    }
}

/// A filter of tags with distinct ids has distinct ids.
pub proof fn lemma_filter_distinct_ids(tags: Seq<Tag>, p: spec_fn(Tag) -> bool)
    requires
        forall|a: int, b: int| 0 <= a < tags.len() && 0 <= b < tags.len() && tags[a].id == tags[b].id ==> a == b,
    ensures
        forall|a: int, b: int| 0 <= a < tags.filter(p).len() && 0 <= b < tags.filter(p).len()
            && tags.filter(p)[a].id == tags.filter(p)[b].id ==> a == b,
    decreases tags.len(),
{
    reveal_with_fuel(Seq::filter, 1);
    if tags.len() > 0 {
        let d = tags.drop_last();
        lemma_filter_distinct_ids(d, p);
        lemma_filter_subset(d, p);
        if p(tags.last()) {
            assert forall|a: int, b: int| 0 <= a < tags.filter(p).len() && 0 <= b < tags.filter(p).len()
                && tags.filter(p)[a].id == tags.filter(p)[b].id implies a == b by {
                let n = tags.filter(p).len() - 1;
                if a != b && (a == n || b == n) {
                    let o = if a == n { b } else { a };
                    let x = d.filter(p)[o];
                    assert(d.contains(x));
                    let k = choose|k: int| 0 <= k < d.len() && d[k] == x;
                    assert(tags[k] == x);
                    assert(tags[tags.len() - 1] == tags.last());
                }
            }
        }
    }
}

/// With distinct ids, `tag_pos` finds the one tag with a given id.
pub proof fn lemma_tag_pos_unique(tags: Seq<Tag>, i: int)
    requires
        0 <= i < tags.len(),
        forall|a: int, b: int| 0 <= a < tags.len() && 0 <= b < tags.len() && tags[a].id == tags[b].id ==> a == b,
    ensures
        tag_pos(tags, tags[i].id) == i,
    decreases tags.len(),
{
    if i < tags.len() - 1 {
        let d = tags.drop_last();
        assert(d[i] == tags[i]);
        lemma_tag_pos_unique(d, i);
        assert(tags.last().id != tags[i].id) by {
            assert(tags[tags.len() - 1] == tags.last());
        }
    }
}

/// Creating a tag twice under one name gives the same tag, and the
/// second time changes nothing (for a name with at most one leading `#`;
/// with two, the second call looks for a name the first did not store).
pub proof fn law_create_tag_twice(a: TagManager, b: TagManager, c: TagManager, name: Seq<char>, r1: u128, r2: u128)
    requires
        tag_created(a, b, name, r1),
        tag_created(b, c, name, r2),
        without_hash(without_hash(name)) == without_hash(name),
    ensures
        r2 == r1,
        c.tags@ == b.tags@,
        c.links@ == b.links@,
{
    let clean = without_hash(name);
    lemma_first_named_bounds(a.tags@, clean);
    lemma_first_named_bounds(b.tags@, clean);
    if first_named(a.tags@, clean) >= a.tags@.len() {
        let had = has_tag_id(a.tags@, r1);
        let p = if had { tag_pos(a.tags@, r1) } else { a.tags@.len() as int };
        let f = first_named(b.tags@, clean);
        assert(lowercase(b.tags@[p].name@) == lowercase(clean));
        if f > p {
            assert(lowercase(b.tags@[p].name@) != lowercase(clean));
        }
        if f < p {
            assert(b.tags@[f] == a.tags@[f]);
            assert(lowercase(a.tags@[f].name@) != lowercase(clean));
        }
        assert(f == p);
    }
}

/// Snippet `s` is the one snippet that carries tag `t`.
pub open spec fn only_carrier(links: Seq<(u128, u128)>, s: u128, t: u128) -> bool {
    &&& links.contains((s, t))
    &&& forall|i: int| 0 <= i < links.len() && #[trigger] links[i].1 == t ==> links[i].0 == s
}

/// Forgetting a deleted snippet leaves no link to it and every other link
/// as it was; a tag goes exactly when that snippet was the one snippet
/// carrying it, and every other tag stays as it was.
pub proof fn law_snippet_deleted_tags(a: TagManager, b: TagManager, s: u128)
    requires
        a.wf(),
        b.links@ == links_without_snippet(a.links@, s),
        b.tags@ == tags_without_snippet(a.tags@, a.links@, s),
    ensures
        forall|l: (u128, u128)| #[trigger] b.links@.contains(l) <==> a.links@.contains(l) && l.0 != s,
        forall|t: Tag| #[trigger] b.tags@.contains(t) <==> a.tags@.contains(t) && !only_carrier(a.links@, s, t.id),
{
    broadcast use vstd::seq_lib::group_filter_ensures, Seq::lemma_filter_contains_rev;
    let la = a.links@;
    let kept = links_without_snippet(la, s);
    assert forall|l: (u128, u128)| #[trigger] b.links@.contains(l) <==> la.contains(l) && l.0 != s by {
        if la.contains(l) && l.0 != s {
            let i = choose|i: int| 0 <= i < la.len() && la[i] == l;
            assert(not_of_snippet(s)(la[i]));
        }
    }
    assert forall|t: u128| tag_in_use(kept, t) <==> exists|i: int| 0 <= i < la.len() && #[trigger] la[i].1 == t && la[i].0 != s by {
        if tag_in_use(kept, t) {
            let k = choose|k: int| 0 <= k < kept.len() && #[trigger] kept[k].1 == t;
            assert(kept.contains(kept[k]));
            let i = choose|i: int| 0 <= i < la.len() && la[i] == kept[k];
            assert(la[i].1 == t && la[i].0 != s);
        }
        if exists|i: int| 0 <= i < la.len() && #[trigger] la[i].1 == t && la[i].0 != s {
            let i = choose|i: int| 0 <= i < la.len() && #[trigger] la[i].1 == t && la[i].0 != s;
            assert(not_of_snippet(s)(la[i]));
            assert(kept.contains(la[i]));
            let k = choose|k: int| 0 <= k < kept.len() && kept[k] == la[i];
            assert(kept[k].1 == t);
        }
    }
    let pred = keep_tag_after(la, s);
    assert forall|t: Tag| #[trigger] b.tags@.contains(t) <==> a.tags@.contains(t) && !only_carrier(la, s, t.id) by {
        assert(pred(t) <==> !only_carrier(la, s, t.id));
        if a.tags@.contains(t) && pred(t) {
            let i = choose|i: int| 0 <= i < a.tags@.len() && a.tags@[i] == t;
            assert(pred(a.tags@[i]));
        }
    }
}

} // verus!
