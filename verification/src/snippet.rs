//! Code snippets.
use vstd::prelude::*;
use crate::ids::{new_id, now_millis};
use crate::language::SnippetLanguage;
use crate::text::{copy_str, lowercase, lines, split_lines, to_lower, str_eq, whitespace, is_whitespace_char, string_from_chars, chars_of};

verus! {

/// A stored piece of code, kept in one notebook.
#[derive(Debug)]
pub struct CodeSnippet {
    pub id: u128,
    pub title: String,
    pub description: Option<String>,
    pub content: String,
    pub language: SnippetLanguage,
    pub notebook_id: u128,
    pub created_at: i64,
    pub updated_at: i64,
    pub accessed_at: i64,
    pub tags: Vec<String>,
    pub is_favorite: bool,
    pub use_count: u32,
    pub file_extension: String,
    pub metadata: Vec<(String, String)>,
    pub version: u32,
    pub syntax_theme: String,
}

/// What a snippet holds, with strings and lists taken as sequences.
pub struct SnippetView {
    pub id: u128,
    pub title: Seq<char>,
    pub description: Option<Seq<char>>,
    pub content: Seq<char>,
    pub language: SnippetLanguage,
    pub notebook_id: u128,
    pub created_at: i64,
    pub updated_at: i64,
    pub accessed_at: i64,
    pub tags: Seq<Seq<char>>,
    pub is_favorite: bool,
    pub use_count: u32,
    pub file_extension: Seq<char>,
    pub metadata: Seq<(Seq<char>, Seq<char>)>,
    pub version: u32,
    pub syntax_theme: Seq<char>,
}

impl View for CodeSnippet {
    type V = SnippetView;

    open spec fn view(&self) -> SnippetView {
        SnippetView {
            id: self.id,
            title: self.title@,
            description: crate::notebook::opt_view(self.description),
            content: self.content@,
            language: self.language,
            notebook_id: self.notebook_id,
            created_at: self.created_at,
            updated_at: self.updated_at,
            accessed_at: self.accessed_at,
            tags: crate::notebook::strings_view(self.tags@),
            is_favorite: self.is_favorite,
            use_count: self.use_count,
            file_extension: self.file_extension@,
            metadata: crate::notebook::pairs_view(self.metadata@),
            version: self.version,
            syntax_theme: self.syntax_theme@,
        }
    }
}

/// The views of a list of snippets.
pub open spec fn snippets_view(v: Seq<CodeSnippet>) -> Seq<SnippetView> {
    v.map_values(|s: CodeSnippet| s@)
}

/// A copy of an optional string.
pub fn clone_opt_string(s: &Option<String>) -> (r: Option<String>)
    ensures
        r == *s,
{
    match s {
        Some(x) => Some(x.clone()),
        None => None,
    }
}

/// A copy of a list of strings.
pub fn clone_strings(v: &Vec<String>) -> (r: Vec<String>)
    ensures
        r@ == v@,
{
    let mut r: Vec<String> = Vec::new();
    let mut i: usize = 0;
    while i < v.len()
        invariant
            i <= v.len(),
            r@ == v@.subrange(0, i as int),
        decreases v.len() - i,
    {
        r.push(v[i].clone());
        i = i + 1;
        proof {
            assert(r@ =~= v@.subrange(0, i as int));
        }
    }
    proof {
        assert(v@.subrange(0, v@.len() as int) =~= v@);
    }
    r
}

/// A copy of a list of key/value string pairs.
pub fn clone_pairs(v: &Vec<(String, String)>) -> (r: Vec<(String, String)>)
    ensures
        r@ == v@,
{
    let mut r: Vec<(String, String)> = Vec::new();
    let mut i: usize = 0;
    while i < v.len()
        invariant
            i <= v.len(),
            r@ == v@.subrange(0, i as int),
        decreases v.len() - i,
    {
        let (a, b) = &v[i];
        r.push((a.clone(), b.clone()));
        i = i + 1;
        proof {
            assert(r@ =~= v@.subrange(0, i as int));
        }
    }
    proof {
        assert(v@.subrange(0, v@.len() as int) =~= v@);
    }
    r
}

impl CodeSnippet {
    /// `self` holds the same values as `o`, list fields compared by their elements.
    pub open spec fn same_as(self, o: CodeSnippet) -> bool {
        &&& self.id == o.id
        &&& self.title == o.title
        &&& self.description == o.description
        &&& self.content == o.content
        &&& self.language == o.language
        &&& self.notebook_id == o.notebook_id
        &&& self.created_at == o.created_at
        &&& self.updated_at == o.updated_at
        &&& self.accessed_at == o.accessed_at
        &&& self.tags@ == o.tags@
        &&& self.is_favorite == o.is_favorite
        &&& self.use_count == o.use_count
        &&& self.file_extension == o.file_extension
        &&& self.metadata@ == o.metadata@
        &&& self.version == o.version
        &&& self.syntax_theme == o.syntax_theme
    }
}

impl Clone for CodeSnippet {
    fn clone(&self) -> (r: Self)
        ensures
            r.same_as(*self),
            r@ == self@,
    {
        CodeSnippet {
            id: self.id,
            title: self.title.clone(),
            description: clone_opt_string(&self.description),
            content: self.content.clone(),
            language: self.language.clone(),
            notebook_id: self.notebook_id,
            created_at: self.created_at,
            updated_at: self.updated_at,
            accessed_at: self.accessed_at,
            tags: clone_strings(&self.tags),
            is_favorite: self.is_favorite,
            use_count: self.use_count,
            file_extension: self.file_extension.clone(),
            metadata: clone_pairs(&self.metadata),
            version: self.version,
            syntax_theme: self.syntax_theme.clone(),
        }
    }
}

/// One of the snippet's tags matches `tag` without regard to case.
pub open spec fn snippet_has_tag(tags: Seq<String>, tag: Seq<char>) -> bool {
    exists|i: int| 0 <= i < tags.len() && lowercase(#[trigger] tags[i]@) == lowercase(tag)
}

/// The tags that a line of text names: its pieces between commas and
/// whitespace, each without a leading `#`, the empty ones left out.
pub open spec fn tags_in_text(t: Seq<char>) -> Seq<Seq<char>>
    decreases t.len(),
{
    tags_in_text_from(t, Seq::empty())
}

/// The tags of `t`, where `cur` is the piece read so far before `t`.
pub open spec fn tags_in_text_from(t: Seq<char>, cur: Seq<char>) -> Seq<Seq<char>>
    decreases t.len(),
{
    if t.len() == 0 {
        finish_tag(Seq::empty(), cur)
    } else if t[0] == ',' || whitespace(t[0]) {
        finish_tag(Seq::empty(), cur) + tags_in_text_from(t.drop_first(), Seq::empty())
    } else {
        tags_in_text_from(t.drop_first(), cur.push(t[0]))
    }
}

/// `acc` with the piece `cur` added as a tag, if it names one.
pub open spec fn finish_tag(acc: Seq<Seq<char>>, cur: Seq<char>) -> Seq<Seq<char>> {
    let name = if cur.len() > 0 && cur[0] == '#' { cur.drop_first() } else { cur };
    if name.len() == 0 { acc } else { acc.push(name) }
}

/// `v` is a snippet as `CodeSnippet::new` makes it: empty, in notebook `nb`,
/// created, updated and accessed at one time, at version 1.
pub open spec fn fresh_snippet(v: SnippetView, title: Seq<char>, language: SnippetLanguage, nb: u128) -> bool {
    &&& v.title == title
    &&& v.language == language
    &&& v.notebook_id == nb
    &&& v.description is None
    &&& v.content.len() == 0
    &&& v.created_at == v.updated_at
    &&& v.created_at == v.accessed_at
    &&& v.tags.len() == 0
    &&& !v.is_favorite
    &&& v.use_count == 0
    &&& v.file_extension == language.spec_file_extension()
    &&& v.metadata.len() == 0
    &&& v.version == 1
    &&& v.syntax_theme == "base16-ocean.dark"@
}

impl CodeSnippet {
    /// A new, empty snippet in a notebook, with a fresh id.
    pub fn new(title: String, language: SnippetLanguage, notebook_id: u128) -> (r: CodeSnippet)
        ensures
            fresh_snippet(r@, title@, language, notebook_id),
            r.title == title,
            r.language == language,
            r.notebook_id == notebook_id,
            r.description is None,
            r.content@ == Seq::<char>::empty(),
            r.created_at == r.updated_at,
            r.created_at == r.accessed_at,
            r.tags@.len() == 0,
            !r.is_favorite,
            r.use_count == 0,
            r.file_extension@ == language.spec_file_extension(),
            r.metadata@.len() == 0,
            r.version == 1,
            r.syntax_theme@ == "base16-ocean.dark"@,
    {
        let now = now_millis();
        let file_extension = copy_str(language.file_extension());
        CodeSnippet {
            id: new_id(),
            title,
            description: None,
            content: String::new(),
            language,
            notebook_id,
            created_at: now,
            updated_at: now,
            accessed_at: now,
            tags: Vec::new(),
            is_favorite: false,
            use_count: 0,
            file_extension,
            metadata: Vec::new(),
            version: 1,
            syntax_theme: copy_str("base16-ocean.dark"),
        }
    }

    /// Replaces the content and counts a new version.
    pub fn update_content(&mut self, content: String)
        requires
            old(self).version < u32::MAX,
        ensures
            final(self).content == content,
            final(self).version == old(self).version + 1,
            final(self).id == old(self).id,
            final(self).title == old(self).title,
            final(self).notebook_id == old(self).notebook_id,
            final(self).tags == old(self).tags,
            final(self).is_favorite == old(self).is_favorite,
            final(self).use_count == old(self).use_count,
            final(self).description == old(self).description,
            final(self).language == old(self).language,
            final(self).file_extension == old(self).file_extension,
    {
        self.content = content;
        self.updated_at = now_millis();
        self.version = self.version + 1;
    }

    /// Records one more use of the snippet.
    pub fn mark_accessed(&mut self)
        requires
            old(self).use_count < u32::MAX,
        ensures
            final(self).use_count == old(self).use_count + 1,
            final(self).content == old(self).content,
            final(self).version == old(self).version,
            final(self).id == old(self).id,
            final(self).title == old(self).title,
            final(self).notebook_id == old(self).notebook_id,
            final(self).tags == old(self).tags,
            final(self).is_favorite == old(self).is_favorite,
            final(self).description == old(self).description,
            final(self).updated_at == old(self).updated_at,
    {
        self.accessed_at = now_millis();
        self.use_count = self.use_count + 1;
    }

    /// The text shown as a preview: the whole content (the line limit is not applied).
    pub fn get_preview(&self, _max_lines: usize) -> (r: String)
        ensures
            r@ == self.content@,
    {
        self.content.clone()
    }

    /// The number of lines of the content.
    pub fn get_line_count(&self) -> (r: usize)
        ensures
            r == lines(self.content@).len(),
    {
        let l = split_lines(self.content.as_str());
        proof {
            assert(l@.map_values(|x: String| x@).len() == l@.len());
        }
        l.len()
    }

    /// Whether one of the snippet's tags equals `tag` without regard to case.
    pub fn has_tag(&self, tag: &str) -> (r: bool)
        ensures
            r == snippet_has_tag(self.tags@, tag@),
    {
        let wanted = to_lower(tag);
        let mut i: usize = 0;
        while i < self.tags.len()
            invariant
                wanted@ == lowercase(tag@),
                i <= self.tags.len(),
                forall|j: int| 0 <= j < i ==> lowercase(#[trigger] self.tags@[j]@) != lowercase(tag@),
            decreases self.tags.len() - i,
        {
            let have = to_lower(self.tags[i].as_str());
            if str_eq(have.as_str(), wanted.as_str()) {
                return true;
            }
            i = i + 1;
        }
        false
    }

    /// Whether the snippet is marked as a favorite.
    pub fn is_favorited(&self) -> (r: bool)
        ensures
            r == self.is_favorite,
    {
        self.is_favorite
    }

    /// Marks the snippet as a favorite, or unmarks it.
    pub fn toggle_favorite(&mut self)
        ensures
            final(self).is_favorite == !old(self).is_favorite,
            final(self).id == old(self).id,
            final(self).title == old(self).title,
            final(self).notebook_id == old(self).notebook_id,
            final(self).tags == old(self).tags,
            final(self).content == old(self).content,
            final(self).description == old(self).description,
            final(self).use_count == old(self).use_count,
            final(self).version == old(self).version,
    {
        self.is_favorite = !self.is_favorite;
        self.updated_at = now_millis();
    }

    /// Replaces the tags by those a line of text names (see `tags_in_text`).
    pub fn set_tags_from_text(&mut self, text: &str)
        ensures
            final(self).tags@.map_values(|t: String| t@) == tags_in_text(text@),
            *final(self) == (CodeSnippet { tags: final(self).tags, ..*old(self) }),
    {
        let tags = Self::parse_tags(text);
        proof {
            assert(tags@.map_values(|t: String| t@) =~= crate::notebook::strings_view(tags@));
        }
        self.tags = tags;
    }

    /// The tags a line of text names (see `tags_in_text`).
    pub fn parse_tags(text: &str) -> (r: Vec<String>)
        ensures
            crate::notebook::strings_view(r@) == tags_in_text(text@),
    {
        let v = chars_of(text);
        let mut out: Vec<String> = Vec::new();
        let mut cur: Vec<char> = Vec::new();
        let mut i: usize = 0;
        proof {
            assert(v@.subrange(0, 0) + v@.subrange(0, v@.len() as int) =~= v@);
            assert(v@.subrange(0, v@.len() as int) =~= v@);
        }
        while i < v.len()
            invariant
                v@ == text@,
                i <= v.len(),
                out@.map_values(|t: String| t@) + tags_in_text_from(v@.subrange(i as int, v@.len() as int), cur@)
                    == tags_in_text(text@),
            decreases v.len() - i,
        {
            let c = v[i];
            let ghost rest = v@.subrange(i as int, v@.len() as int);
            proof {
                assert(rest[0] == c);
                assert(rest.drop_first() =~= v@.subrange(i + 1, v@.len() as int));
            }
            if c == ',' || is_whitespace_char(c) {
                let ghost before = out@.map_values(|t: String| t@);
                Self::push_piece(&mut out, &cur);
                proof {
                    assert(out@.map_values(|t: String| t@) == finish_tag(before, cur@));
                    lemma_finish_concat(before, cur@);
                    assert(finish_tag(before, cur@) =~= before + finish_tag(Seq::empty(), cur@));
                    assert((before + finish_tag(Seq::empty(), cur@)) + tags_in_text_from(rest.drop_first(), Seq::empty())
                        =~= before + (finish_tag(Seq::empty(), cur@) + tags_in_text_from(rest.drop_first(), Seq::empty())));
                }
                cur = Vec::new();
            } else {
                cur.push(c);
            }
            i = i + 1;
        }
        let ghost before = out@.map_values(|t: String| t@);
        Self::push_piece(&mut out, &cur);
        proof {
            assert(v@.subrange(v@.len() as int, v@.len() as int) =~= Seq::<char>::empty());
            lemma_finish_concat(before, cur@);
            assert(out@.map_values(|t: String| t@) =~= crate::notebook::strings_view(out@));
        }
        out
    }

    /// Adds the piece `cur` to `out` as a tag, if it names one.
    fn push_piece(out: &mut Vec<String>, cur: &Vec<char>)
        ensures
            final(out)@.map_values(|t: String| t@) == finish_tag(old(out)@.map_values(|t: String| t@), cur@),
    {
        let ghost before = old(out)@.map_values(|t: String| t@);
        let n = cur.len();
        if n > 0 && cur[0] == '#' {
            if n > 1 {
                let s = string_from_chars(vstd::slice::slice_subrange(cur.as_slice(), 1, n));
                proof {
                    assert(cur@.subrange(1, n as int) =~= cur@.drop_first());
                }
                out.push(s);
                proof {
                    assert(out@.map_values(|t: String| t@) =~= before.push(cur@.drop_first()));
                }
            } else {
                proof {
                    assert(cur@.drop_first().len() == 0);
                }
            }
        } else if n > 0 {
            let s = string_from_chars(cur.as_slice());
            out.push(s);
            proof {
                assert(out@.map_values(|t: String| t@) =~= before.push(cur@));
            }
        }
    }
}

/// Adding a piece to a list is adding it to the empty list and appending.
proof fn lemma_finish_concat(acc: Seq<Seq<char>>, cur: Seq<char>)
    ensures
        finish_tag(acc, cur) =~= acc + finish_tag(Seq::empty(), cur),
{
}

} // verus!
