//! The figures of a notebook's details page: how many snippets, lines,
//! uses and tags it holds, which tags and languages occur most, and how
//! old it is.
use vstd::prelude::*;
use crate::analytics::{by_count, day_count, short_names, sort_counts};
use crate::backup_tree::snippets_of_nb;
use crate::chat_state::{count_names, counts_view, name_counts};
use crate::database::{SnippetDatabase, has_nb, nb_idx};
use crate::notebook::strings_view;
use crate::snippet::CodeSnippet;
use crate::text::{copy_str, lines, str_eq};

verus! {

/// The lines of all the snippets.
pub open spec fn lines_total(s: Seq<CodeSnippet>) -> nat
    decreases s.len(),
{
    if s.len() == 0 { 0 } else { lines_total(s.drop_last()) + lines(s.last().content@).len() }
}

/// The uses of all the snippets.
pub open spec fn uses_total(s: Seq<CodeSnippet>) -> nat
    decreases s.len(),
{
    if s.len() == 0 { 0 } else { uses_total(s.drop_last()) + s.last().use_count as nat }
}

/// The tags of all the snippets, one after another (a tag as often as it is carried).
pub open spec fn all_tags(s: Seq<CodeSnippet>) -> Seq<Seq<char>>
    decreases s.len(),
{
    if s.len() == 0 { Seq::empty() } else { all_tags(s.drop_last()) + strings_view(s.last().tags@) }
}

/// The lines of the snippets whose language has the short name `name`.
pub open spec fn language_lines(s: Seq<CodeSnippet>, name: Seq<char>) -> nat
    decreases s.len(),
{
    if s.len() == 0 {
        0
    } else {
        language_lines(s.drop_last(), name)
            + if s.last().language.spec_short_name() == name { lines(s.last().content@).len() } else { 0 }
    }
}

/// The figures of one notebook's details page.
#[derive(Debug)]
pub struct NotebookStats {
    pub snippet_count: usize,
    pub total_lines: u128,
    pub total_uses: u128,
    /// Tags carried, counting a tag once per snippet that carries it.
    pub total_tags: u128,
    /// Each tag with the number of snippets carrying it, most first.
    pub tags: Vec<(String, usize)>,
    /// Each language (by short name) with its number of snippets, most first.
    pub languages: Vec<(String, usize)>,
    /// The lines in each language of `languages`, in the same order.
    pub language_lines: Vec<u128>,
    /// Whole days since the notebook was made and since it last changed.
    pub age_days: i64,
    pub updated_days: i64,
}

/// The lines in the snippets of `sns` in notebook `id` whose language has
/// the short name `name`.
fn lines_in_language(sns: &Vec<CodeSnippet>, id: u128, name: &str) -> (r: u128)
    ensures
        r == language_lines(snippets_of_nb(sns@, id), name@),
{
    let mut total: u128 = 0;
    let mut i: usize = 0;
    while i < sns.len()
        invariant
            i <= sns@.len(),
            total == language_lines(snippets_of_nb(sns@.subrange(0, i as int), id), name@),
            total <= i * (usize::MAX as int),
        decreases sns.len() - i,
    {
        proof {
            assert(sns@.subrange(0, i + 1).drop_last() =~= sns@.subrange(0, i as int));
            assert(sns@.subrange(0, i + 1).last() == sns@[i as int]);
        }
        let s = &sns[i];
        proof {
            let f = snippets_of_nb(sns@.subrange(0, i as int), id);
            assert(f.push(sns@[i as int]).drop_last() =~= f);
        }
        if s.notebook_id == id && str_eq(s.language.short_name(), name) {
            let n = s.get_line_count();
            proof {
                assert((i + 1) * (usize::MAX as int) == i * (usize::MAX as int) + usize::MAX) by (nonlinear_arith);
                assert((i + 1) * (usize::MAX as int) <= u128::MAX) by (nonlinear_arith)
                    requires i < usize::MAX;
            }
            total = total + (n as u128);
        } else {
            proof {
                assert((i + 1) * (usize::MAX as int) == i * (usize::MAX as int) + usize::MAX) by (nonlinear_arith);
            }
        }
        i = i + 1;
    }
    proof {
        assert(sns@.subrange(0, sns@.len() as int) =~= sns@);
    }
    total
}

/// The figures of notebook `id`'s details page at time `now` (milliseconds
/// since the Unix epoch), or none when there is no such notebook.
pub fn notebook_stats(db: &SnippetDatabase, id: u128, now: i64) -> (r: Option<NotebookStats>)
    requires
        db.wf(),
    ensures
        match r {
            None => !has_nb(db.notebooks@, id),
            Some(st) => {
                let s = snippets_of_nb(db.snippets@, id);
                let nb = db.notebooks@[nb_idx(db.notebooks@, id)];
                &&& has_nb(db.notebooks@, id)
                &&& st.snippet_count == s.len()
                &&& st.total_lines == lines_total(s)
                &&& st.total_uses == uses_total(s)
                &&& st.total_tags == all_tags(s).len()
                &&& counts_view(st.tags@) == by_count(name_counts(all_tags(s)))
                &&& counts_view(st.languages@) == by_count(name_counts(short_names(s)))
                &&& st.language_lines@.len() == st.languages@.len()
                &&& forall|i: int| 0 <= i < st.languages@.len() ==>
                        #[trigger] st.language_lines@[i] == language_lines(s, st.languages@[i].0@)
                &&& st.age_days == day_count(now, nb.created_at)
                &&& st.updated_days == day_count(now, nb.updated_at)
            },
        },
{
    let k = match db.find_notebook(id) {
        Some(k) => k,
        None => return None,
    };
    let sns = &db.snippets;
    let mut count: usize = 0;
    let mut line_sum: u128 = 0;
    let mut use_sum: u128 = 0;
    let mut tag_names: Vec<String> = Vec::new();
    let mut langs: Vec<String> = Vec::new();
    let mut i: usize = 0;
    proof {
        assert(strings_view(tag_names@) =~= all_tags(snippets_of_nb(sns@.subrange(0, 0), id)));
        assert(strings_view(langs@) =~= short_names(snippets_of_nb(sns@.subrange(0, 0), id)));
    }
    while i < sns.len()
        invariant
            i <= sns@.len(),
            count == snippets_of_nb(sns@.subrange(0, i as int), id).len(),
            count <= i,
            line_sum == lines_total(snippets_of_nb(sns@.subrange(0, i as int), id)),
            line_sum <= i * (usize::MAX as int),
            use_sum == uses_total(snippets_of_nb(sns@.subrange(0, i as int), id)),
            use_sum <= i * (u32::MAX as int),
            strings_view(tag_names@) == all_tags(snippets_of_nb(sns@.subrange(0, i as int), id)),
            strings_view(langs@) == short_names(snippets_of_nb(sns@.subrange(0, i as int), id)),
        decreases sns.len() - i,
    {
        let ghost pre = sns@.subrange(0, i + 1);
        proof {
            assert(pre.drop_last() =~= sns@.subrange(0, i as int));
            assert(pre.last() == sns@[i as int]);
            assert((i + 1) * (usize::MAX as int) == i * (usize::MAX as int) + usize::MAX) by (nonlinear_arith);
            assert((i + 1) * (u32::MAX as int) == i * (u32::MAX as int) + u32::MAX) by (nonlinear_arith);
            assert((i + 1) * (usize::MAX as int) <= u128::MAX) by (nonlinear_arith)
                requires i < usize::MAX;
            assert((i + 1) * (u32::MAX as int) <= (i + 1) * (usize::MAX as int)) by (nonlinear_arith);
        }
        let s = &sns[i];
        proof {
            let f = snippets_of_nb(sns@.subrange(0, i as int), id);
            assert(f.push(sns@[i as int]).drop_last() =~= f);
            assert(f.push(sns@[i as int]).last() == sns@[i as int]);
        }
        if s.notebook_id == id {
            let n = s.get_line_count();
            count = count + 1;
            line_sum = line_sum + (n as u128);
            use_sum = use_sum + (s.use_count as u128);
            let ghost before_tags = strings_view(tag_names@);
            let mut t: usize = 0;
            proof {
                assert(before_tags + strings_view(s.tags@).subrange(0, 0) =~= before_tags);
            }
            while t < s.tags.len()
                invariant
                    t <= s.tags@.len(),
                    strings_view(tag_names@) == before_tags + strings_view(s.tags@).subrange(0, t as int),
                decreases s.tags.len() - t,
            {
                let ghost b = tag_names@;
                tag_names.push(copy_str(s.tags[t].as_str()));
                proof {
                    assert(strings_view(tag_names@) =~= strings_view(b).push(s.tags@[t as int]@));
                    assert(strings_view(s.tags@).subrange(0, t + 1) =~= strings_view(s.tags@).subrange(0, t as int).push(s.tags@[t as int]@));
                }
                t = t + 1;
            }
            proof {
                assert(strings_view(s.tags@).subrange(0, s.tags@.len() as int) =~= strings_view(s.tags@));
            }
            let ghost bl = langs@;
            langs.push(copy_str(s.language.short_name()));
            proof {
                assert(strings_view(langs@) =~= strings_view(bl).push(s.language.spec_short_name()));
            }
        }
        i = i + 1;
    }
    proof {
        assert(sns@.subrange(0, sns@.len() as int) =~= sns@);
    }
    let total_tags = tag_names.len() as u128;
    let tags = sort_counts(count_names(&tag_names));
    let languages = sort_counts(count_names(&langs));
    let mut language_lines_v: Vec<u128> = Vec::new();
    let mut j: usize = 0;
    while j < languages.len()
        invariant
            j <= languages@.len(),
            language_lines_v@.len() == j,
            forall|q: int| 0 <= q < j ==>
                #[trigger] language_lines_v@[q] == language_lines(snippets_of_nb(sns@, id), languages@[q].0@),
        decreases languages.len() - j,
    {
        let n = lines_in_language(sns, id, languages[j].0.as_str());
        language_lines_v.push(n);
        j = j + 1;
    }
    let nb = &db.notebooks[k];
    Some(NotebookStats {
        snippet_count: count,
        total_lines: line_sum,
        total_uses: use_sum,
        total_tags,
        tags,
        languages,
        language_lines: language_lines_v,
        age_days: crate::analytics::days_between(now, nb.created_at),
        updated_days: crate::analytics::days_between(now, nb.updated_at),
    })
}

} // verus!
