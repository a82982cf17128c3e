//! Where the application keeps its files: the folder of its data, the
//! database file, and one file per snippet in a folder per notebook.
//! Reading and writing the files is left to the caller.
use vstd::prelude::*;
use crate::chat::hex_digit;
use crate::snippet::CodeSnippet;
use crate::text::{copy_str, concat2, concat3, chars_of};

verus! {

/// The `w` last lower-case hexadecimal digits of `n`, zeros in front.
pub open spec fn hex_fixed(n: nat, w: nat) -> Seq<char>
    decreases w,
{
    if w == 0 { Seq::empty() } else { hex_fixed(n / 16, (w - 1) as nat).push(hex_digit(n % 16)) }
}

/// The text of a UUID: its 32 hexadecimal digits (lower case) in groups
/// of 8, 4, 4, 4 and 12, joined by hyphens.
pub open spec fn uuid_text(id: u128) -> Seq<char> {
    let d = hex_fixed(id as nat, 32);
    d.subrange(0, 8) + "-"@ + d.subrange(8, 12) + "-"@ + d.subrange(12, 16) + "-"@ + d.subrange(16, 20) + "-"@
        + d.subrange(20, 32)
}

/// Calls `uuid::Uuid::from_u128` and `to_string`: the UUID's text, which
/// the crate writes hyphenated and in lower case (see `uuid_text`).
#[verifier::external_body]
pub(crate) fn uuid_string(id: u128) -> (r: String)
    ensures
        r@ == uuid_text(id),
{
    uuid::Uuid::from_u128(id).to_string()
}

/// A relative path `b` put under the directory `a` (as `Path::join` does
/// on Unix: one `/` between them).
pub open spec fn path_join(a: Seq<char>, b: Seq<char>) -> Seq<char> {
    if a.len() > 0 && a.last() == '/' { a + b } else { a + "/"@ + b }
}

/// A relative path put under a directory (see `path_join`).
pub fn join_path(a: &str, b: &str) -> (r: String)
    ensures
        r@ == path_join(a@, b@),
{
    let v = chars_of(a);
    if v.len() > 0 && v[v.len() - 1] == '/' {
        concat2(a, b)
    } else {
        concat3(a, "/", b)
    }
}

/// The places of the application's files.
#[derive(Debug)]
pub struct StorageManager {
    pub data_dir: String,
    pub snippets_dir: String,
    pub notebooks_dir: String,
    pub database_file: String,
}

impl StorageManager {
    /// The places under the user's data folder `base`: a `snix` folder
    /// holding `database.json` and a `snippets` folder.
    pub fn with_data_dir(base: &str) -> (r: StorageManager)
        ensures
            r.data_dir@ == path_join(base@, "snix"@),
            r.database_file@ == path_join(r.data_dir@, "database.json"@),
            r.snippets_dir@ == path_join(r.data_dir@, "snippets"@),
            r.notebooks_dir@ == r.data_dir@,
    {
        let data_dir = join_path(base, "snix");
        let database_file = join_path(data_dir.as_str(), "database.json");
        let snippets_dir = join_path(data_dir.as_str(), "snippets");
        let notebooks_dir = data_dir.clone();
        StorageManager { data_dir, snippets_dir, notebooks_dir, database_file }
    }

    /// The folder of the snippet files of notebook `notebook_id`.
    pub fn notebook_directory(&self, notebook_id: u128) -> (r: String)
        ensures
            r@ == path_join(self.snippets_dir@, uuid_text(notebook_id)),
    {
        let n = uuid_string(notebook_id);
        join_path(self.snippets_dir.as_str(), n.as_str())
    }

    /// The file of a snippet with id `snippet_id` and extension `extension`
    /// in notebook `notebook_id`: `<id>.<extension>` in the notebook's folder.
    pub fn snippet_file(&self, snippet_id: u128, notebook_id: u128, extension: &str) -> (r: String)
        ensures
            r@ == path_join(path_join(self.snippets_dir@, uuid_text(notebook_id)), uuid_text(snippet_id) + "."@ + extension@),
    {
        let dir = self.notebook_directory(notebook_id);
        let id = uuid_string(snippet_id);
        let name = concat3(id.as_str(), ".", extension);
        join_path(dir.as_str(), name.as_str())
    }

    /// The file that holds the content of `snippet`.
    pub fn get_snippet_file_path(&self, snippet: &CodeSnippet) -> (r: String)
        ensures
            r@ == path_join(path_join(self.snippets_dir@, uuid_text(snippet.notebook_id)),
                uuid_text(snippet.id) + "."@ + snippet.file_extension@),
    {
        self.snippet_file(snippet.id, snippet.notebook_id, snippet.file_extension.as_str())
    }
}

} // verus!
