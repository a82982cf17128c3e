//! Chat sessions with a local language model: messages, sessions,
//! notifications, storage statistics, and the text the chat shows.
use vstd::prelude::*;
use crate::text::{copy_str, concat2, concat3, chars_of, string_from_chars, decimal, decimal_string, decimal_string_u64,
    seq_contains, str_contains, split_newlines, split_on, lines, split_lines, str_eq};
use crate::notebook::strings_view;
use std::hash::{Hash, Hasher};

verus! {

/// Who wrote a chat message.
#[derive(Debug, Clone, Copy, PartialEq, Eq, Structural)]
pub enum ChatRole {
    User,
    Assistant,
    System,
}

/// The panel of the chat window that has the focus.
#[derive(Debug, Clone, Copy, PartialEq, Eq, Structural)]
pub enum ActivePanel {
    CurrentChat,
    ChatHistory,
    Settings,
}

/// Which saved sessions the history shows.
#[derive(Debug, Clone, Copy, PartialEq, Eq, Structural)]
pub enum HistoryFilter {
    All,
    Recent,
    Favorites,
    CurrentSnippet,
    Search,
}

/// The kind of a notification.
#[derive(Debug, Clone, Copy, PartialEq, Eq, Structural)]
pub enum NotificationType {
    Success,
    Error,
    Info,
}

/// The formats a session can be exported in.
#[derive(Debug, Clone, Copy, PartialEq, Eq, Structural)]
pub enum ExportFormat {
    Json,
    Markdown,
}

/// A message from the background work that talks to the model server.
#[derive(Debug)]
pub enum OllamaMessage {
    ModelsLoaded { models: Vec<String> },
    ResponseChunk { request_id: u64, content: String, done: bool },
    Error { request_id: u64, message: String },
}

/// One message of a conversation.
#[derive(Debug)]
pub struct ChatMessage {
    pub role: ChatRole,
    pub content: String,
}

/// A saved conversation.
#[derive(Debug)]
pub struct ChatSession {
    pub id: u128,
    pub title: String,
    /// Times in milliseconds since the Unix epoch.
    pub created_at: i64,
    pub updated_at: i64,
    pub model_name: String,
    pub system_prompt: String,
    /// The hash (lower-case hexadecimal) of the snippet the chat is about.
    pub snippet_hash: Option<String>,
    pub snippet_title: Option<String>,
    pub conversation: Vec<ChatMessage>,
    pub is_favorited: bool,
    pub tags: Vec<String>,
}

/// What `DefaultHasher` gives for a string (`str::hash`, then `finish`).
pub uninterp spec fn text_hash(s: Seq<char>) -> u64;

/// Hashes a string with `std::hash::DefaultHasher::new()`; the result is
/// named `text_hash` of the string (new hashers all start from one state).
#[verifier::external_body]
fn hash_text(s: &str) -> (r: u64)
    ensures
        r == text_hash(s@),
{
    let mut h = std::collections::hash_map::DefaultHasher::new();
    s.hash(&mut h);
    h.finish()
}

/// The lower-case hexadecimal digit for `d`.
pub open spec fn hex_digit(d: nat) -> char {
    if d < 10 { crate::text::digit_char(d) }
    else if d == 10 { 'a' }
    else if d == 11 { 'b' }
    else if d == 12 { 'c' }
    else if d == 13 { 'd' }
    else if d == 14 { 'e' }
    else { 'f' }
}

/// The lower-case hexadecimal digits of `n` (as `format!("{:x}", n)`).
pub open spec fn hex(n: nat) -> Seq<char>
    decreases n,
{
    if n < 16 { seq![hex_digit(n)] } else { hex(n / 16).push(hex_digit(n % 16)) }
}

/// The lower-case hexadecimal digits of a number.
pub fn hex_string(n: u64) -> (r: String)
    ensures
        r@ == hex(n as nat),
    decreases n,
{
    let d = n % 16;
    let c = if d < 10 {
        let v = decimal_string(d as usize);
        proof {
            reveal_with_fuel(decimal, 1);
        }
        let cs = chars_of(v.as_str());
        cs[0]
    } else if d == 10 { 'a' } else if d == 11 { 'b' } else if d == 12 { 'c' } else if d == 13 { 'd' } else if d == 14 { 'e' } else { 'f' };
    let mut r = if n < 16 { String::new() } else { hex_string(n / 16) };
    crate::text::push_char(&mut r, c);
    proof {
        if n < 16 {
            assert(r@ =~= seq![hex_digit(n as nat)]);
        }
    }
    r
}

/// The hash of a snippet's text as kept in a session.
pub open spec fn snippet_key(content: Seq<char>) -> Seq<char> {
    hex(text_hash(content) as nat)
}

/// The hash of a snippet's text as kept in a session.
pub fn snippet_key_of(content: &str) -> (r: String)
    ensures
        r@ == snippet_key(content@),
{
    hex_string(hash_text(content))
}

/// The number of bytes of the UTF-8 encoding of a character.
pub open spec fn utf8_width(c: char) -> nat {
    if (c as u32) < 0x80 { 1 } else if (c as u32) < 0x800 { 2 } else if (c as u32) < 0x10000 { 3 } else { 4 }
}

/// The number of bytes of the UTF-8 encoding of a string (as `str::len`).
pub open spec fn utf8_len(s: Seq<char>) -> nat
    decreases s.len(),
{
    if s.len() == 0 { 0 } else { utf8_len(s.drop_last()) + utf8_width(s.last()) }
}

/// The bytes of a text are those of its first character and of the rest.
proof fn lemma_utf8_len_first(s: Seq<char>)
    requires
        s.len() > 0,
    ensures
        utf8_len(s) == utf8_width(s[0]) + utf8_len(s.drop_first()),
    decreases s.len(),
{
    if s.len() > 1 {
        let d = s.drop_last();
        let f = s.drop_first();
        lemma_utf8_len_first(d);
        assert(d.drop_first() =~= f.drop_last());
        assert(f.last() == s.last());
        assert(d[0] == s[0]);
        assert(utf8_len(s) == utf8_len(d) + utf8_width(s.last()));
        assert(utf8_len(f) == utf8_len(f.drop_last()) + utf8_width(f.last()));
    } else {
        assert(s.drop_first().len() == 0);
        assert(s.drop_last().len() == 0);
        assert(s.last() == s[0]);
        assert(utf8_len(s) == utf8_len(s.drop_last()) + utf8_width(s.last()));
    }
}

/// `utf8_len` is the length of vstd's UTF-8 encoding of the text.
pub proof fn lemma_encoded_len(s: Seq<char>)
    ensures
        vstd::utf8::encode_utf8(s).len() == utf8_len(s),
    decreases s.len(),
{
    if s.len() > 0 {
        lemma_encoded_len(s.drop_first());
        lemma_utf8_len_first(s);
        let v = s[0] as u32;
        vstd::utf8::char_is_scalar(s[0]);
        assert(vstd::utf8::encode_scalar(v).len() == utf8_width(s[0]));
        assert(vstd::utf8::encode_utf8(s) == vstd::utf8::encode_scalar(v) + vstd::utf8::encode_utf8(s.drop_first()));
    }
}

/// Whether the UTF-8 encoding of `s` is longer than `n` bytes.
pub fn longer_than_bytes(s: &str, n: usize) -> (r: bool)
    ensures
        r == (utf8_len(s@) > n),
{
    let v = chars_of(s);
    let mut total: u128 = 0;
    let mut i: usize = 0;
    while i < v.len()
        invariant
            i <= v.len(),
            v@ == s@,
            total == utf8_len(v@.subrange(0, i as int)),
            total <= 4 * i,
        decreases v.len() - i,
    {
        proof {
            assert(v@.subrange(0, i + 1).drop_last() =~= v@.subrange(0, i as int));
        }
        let c = v[i] as u32;
        let w: u128 = if c < 0x80 { 1 } else if c < 0x800 { 2 } else if c < 0x10000 { 3 } else { 4 };
        total = total + w;
        i = i + 1;
    }
    proof {
        assert(v@.subrange(0, v@.len() as int) =~= v@);
    }
    total > n as u128
}

/// The first `n` characters of a string.
pub fn take_chars(s: &str, n: usize) -> (r: String)
    ensures
        r@ == if s@.len() <= n { s@ } else { s@.subrange(0, n as int) },
{
    let v = chars_of(s);
    if v.len() <= n {
        string_from_chars(v.as_slice())
    } else {
        string_from_chars(vstd::slice::slice_subrange(v.as_slice(), 0, n))
    }
}

/// The text shown for how long ago something happened, `ms`
/// milliseconds before now: whole weeks after seven days, else days,
/// hours or minutes, else `now`.
pub open spec fn relative_time_text(ms: int) -> Seq<char> {
    let s = if ms > 0 { ms / 1000 } else { 0 };
    let d = s / 86400;
    if d > 7 {
        decimal((d / 7) as nat) + "w ago"@
    } else if d > 0 {
        decimal(d as nat) + "d ago"@
    } else if s / 3600 > 0 {
        decimal((s / 3600) as nat) + "h ago"@
    } else if s / 60 > 0 {
        decimal((s / 60) as nat) + "m ago"@
    } else {
        "now"@
    }
}

/// The text for how long before the clock reading `now` the moment `at`
/// was (both in milliseconds since the Unix epoch).
pub open spec fn relative_time_at(now: i64, at: i64) -> Seq<char> {
    relative_time_text(now - at)
}

/// The text for how long ago something happened, given the time since then.
pub fn relative_time_from(elapsed_ms: i128) -> (r: String)
    requires
        elapsed_ms < 0x1_0000_0000_0000_0000_0000,
    ensures
        r@ == relative_time_text(elapsed_ms as int),
{
    let s: i128 = if elapsed_ms > 0 { elapsed_ms / 1000 } else { 0 };
    let d = s / 86400;
    if d > 7 {
        let w = decimal_string_u64((d / 7) as u64);
        concat2(w.as_str(), "w ago")
    } else if d > 0 {
        let x = decimal_string_u64(d as u64);
        concat2(x.as_str(), "d ago")
    } else if s / 3600 > 0 {
        let x = decimal_string_u64((s / 3600) as u64);
        concat2(x.as_str(), "h ago")
    } else if s / 60 > 0 {
        let x = decimal_string_u64((s / 60) as u64);
        concat2(x.as_str(), "m ago")
    } else {
        copy_str("now")
    }
}

impl ChatSession {
    /// A new, empty session with a fresh id, titled after the model.
    pub fn new(model_name: String, system_prompt: String) -> (r: ChatSession)
        ensures
            r.title@ == "Chat with "@ + model_name@,
            r.created_at == r.updated_at,
            r.model_name == model_name,
            r.system_prompt == system_prompt,
            r.snippet_hash is None,
            r.snippet_title is None,
            r.conversation@.len() == 0,
            !r.is_favorited,
            r.tags@.len() == 0,
    {
        let now = crate::ids::now_millis();
        let title = concat2("Chat with ", model_name.as_str());
        ChatSession {
            id: crate::ids::new_id(),
            title,
            created_at: now,
            updated_at: now,
            model_name,
            system_prompt,
            snippet_hash: None,
            snippet_title: None,
            conversation: Vec::new(),
            is_favorited: false,
            tags: Vec::new(),
        }
    }

    /// The session tied to a snippet: it keeps the snippet's hash and title
    /// and is titled after the snippet.
    pub fn with_snippet(self, snippet_content: &str, snippet_title: String) -> (r: ChatSession)
        ensures
            r == (ChatSession {
                snippet_hash: r.snippet_hash,
                snippet_title: r.snippet_title,
                title: r.title,
                ..self
            }),
            r.snippet_hash matches Some(h) && h@ == snippet_key(snippet_content@),
            r.snippet_title == Some(snippet_title),
            r.title@ == "Chat about "@ + snippet_title@,
    {
        let mut s = self;
        s.snippet_hash = Some(snippet_key_of(snippet_content));
        s.title = concat2("Chat about ", snippet_title.as_str());
        s.snippet_title = Some(snippet_title);
        s
    }

    /// Appends a message and records the time of the change.
    pub fn add_message(&mut self, role: ChatRole, content: String)
        ensures
            *final(self) == (ChatSession {
                conversation: final(self).conversation,
                updated_at: final(self).updated_at,
                ..*old(self)
            }),
            final(self).conversation@ == old(self).conversation@.push(ChatMessage { role, content }),
    {
        self.conversation.push(ChatMessage { role, content });
        self.updated_at = crate::ids::now_millis();
    }

    /// The start of the last message (its first 40 characters, with `...`
    /// when it is longer than 40 bytes), or `New conversation`.
    pub fn get_preview(&self) -> (r: String)
        ensures
            r@ == if self.conversation@.len() == 0 {
                "New conversation"@
            } else {
                let c = self.conversation@.last().content@;
                let p = if c.len() <= 40 { c } else { c.subrange(0, 40) };
                if utf8_len(c) > 40 { p + "..."@ } else { p }
            },
    {
        let n = self.conversation.len();
        if n == 0 {
            return copy_str("New conversation");
        }
        let last = &self.conversation[n - 1];
        let preview = take_chars(last.content.as_str(), 40);
        if longer_than_bytes(last.content.as_str(), 40) {
            concat2(preview.as_str(), "...")
        } else {
            preview
        }
    }

    /// The number of messages.
    pub fn get_message_count(&self) -> (r: usize)
        ensures
            r == self.conversation@.len(),
    {
        self.conversation.len()
    }

    /// How long ago the session last changed, as text: the text for the
    /// time from its last change to the clock's reading, which is not known
    /// ahead (see `relative_time_text`).
    pub fn get_relative_time(&self) -> (r: String)
        ensures
            exists|now: i64| r@ == #[trigger] relative_time_at(now, self.updated_at),
    {
        let now = crate::ids::now_millis();
        let elapsed = (now as i128) - (self.updated_at as i128);
        let r = relative_time_from(elapsed);
        proof {
            assert(r@ == relative_time_at(now, self.updated_at));
        }
        r
    }
}

/// The prompt that sets the model up to discuss a snippet.
pub open spec fn snippet_prompt(language: Seq<char>, title: Seq<char>, content: Seq<char>) -> Seq<char> {
    "You are a helpful AI assistant specializing in code analysis and development. You are currently working with a "@
        + language + " code snippet titled '"@ + title + "'. Here is the code snippet:\n```"@ + language + "\n"@
        + content
        + "\n```\n\nPlease provide helpful analysis, suggestions, explanations, or answer questions about this code. When discussing the code, be specific and reference particular parts when relevant."@
}

/// The prompt that sets the model up to discuss a snippet.
pub fn create_snippet_system_prompt(snippet_language: &str, snippet_title: &str, snippet_content: &str) -> (r: String)
    ensures
        r@ == snippet_prompt(snippet_language@, snippet_title@, snippet_content@),
{
    let a = concat3("You are a helpful AI assistant specializing in code analysis and development. You are currently working with a ",
        snippet_language, " code snippet titled '");
    let b = concat3(a.as_str(), snippet_title, "'. Here is the code snippet:\n```");
    let c = concat3(b.as_str(), snippet_language, "\n");
    let d = concat2(c.as_str(), snippet_content);
    concat2(d.as_str(), "\n```\n\nPlease provide helpful analysis, suggestions, explanations, or answer questions about this code. When discussing the code, be specific and reference particular parts when relevant.")
}

/// Whether an error message says that the server could not be reached.
pub fn is_connection_error(error: &str) -> (r: bool)
    ensures
        r == (seq_contains(error@, "Connection refused"@) || seq_contains(error@, "No such host"@)),
{
    str_contains(error, "Connection refused") || str_contains(error, "No such host")
}

/// The number of display lines a text is estimated to take at `width`
/// columns: each piece between line feeds takes one line when empty and
/// otherwise its length divided by the width, rounded up; the total (at
/// least one) is raised by a fifth for formatting, rounded up.
pub open spec fn estimated_lines(pieces: Seq<Seq<char>>, width: nat) -> nat
    decreases pieces.len(),
{
    if pieces.len() == 0 {
        0
    } else {
        let p = pieces.last();
        estimated_lines(pieces.drop_last(), width) + if p.len() == 0 { 1 } else { ((p.len() + width - 1) / (width as int)) as nat }
    }
}

/// The estimated height of a text (see `estimated_lines`).
pub open spec fn estimated_height(text: Seq<char>, width: nat) -> nat {
    if width == 0 {
        1
    } else {
        let t = estimated_lines(split_on(text, '\n'), width);
        let e = if t == 0 { 1 } else { t };
        ((6 * e + 4) / 5) as nat
    }
}

/// The estimate raises the line count by a fifth and rounds up: it is the
/// least height whose five-fold is at least six times the line count
/// (counted as one when there are none).
pub proof fn law_estimate_rounds_up(text: Seq<char>, width: nat)
    requires
        width > 0,
    ensures
        ({
            let t = estimated_lines(split_on(text, '\n'), width);
            let e = if t == 0 { 1 } else { t };
            let h = estimated_height(text, width);
            &&& 5 * h >= 6 * e
            &&& 5 * (h - 1) < 6 * e
        }),
{
}

/// A value, or the largest `usize` when it does not fit.
pub open spec fn capped(n: nat) -> usize {
    if n <= usize::MAX { n as usize } else { usize::MAX }
}

/// Dividing by at least one, rounding up, gives at most the number divided.
proof fn lemma_ceil_div_le(n: int, w: int)
    requires
        n >= 1,
        w >= 1,
    ensures
        (n + w - 1) / w <= n,
{
    assert(n + w - 1 <= n * w) by (nonlinear_arith)
        requires
            n >= 1,
            w >= 1;
    assert((n + w - 1) / w <= (n * w) / w) by (nonlinear_arith)
        requires
            n + w - 1 <= n * w,
            w >= 1,
            n + w - 1 >= 0;
    assert((n * w) / w == n) by (nonlinear_arith)
        requires
            w >= 1;
}

/// The estimated height of a text at `width` columns (see `estimated_height`).
pub fn calculate_estimated_wrapped_height(text: &str, width: usize) -> (r: usize)
    ensures
        r == capped(estimated_height(text@, width as nat)),
{
    if width == 0 {
        return 1;
    }
    let pieces = split_newlines(text);
    let ghost pv = split_on(text@, '\n');
    proof {
        assert(pieces@.map_values(|l: String| l@) =~= strings_view(pieces@));
    }
    let mut total: u128 = 0;
    let mut i: usize = 0;
    while i < pieces.len()
        invariant
            width > 0,
            i <= pieces.len(),
            strings_view(pieces@) == pv,
            total == estimated_lines(pv.subrange(0, i as int), width as nat),
            total <= i * 0x1_0000_0000_0000_0000u128,
        decreases pieces.len() - i,
    {
        proof {
            assert(pv.subrange(0, i + 1).drop_last() =~= pv.subrange(0, i as int));
            assert(pv.subrange(0, i + 1).last() == pieces@[i as int]@);
        }
        let n = chars_of(pieces[i].as_str()).len();
        let add: u128 = if n == 0 { 1 } else { ((n as u128) + (width as u128) - 1) / (width as u128) };
        proof {
            if n > 0 {
                lemma_ceil_div_le(n as int, width as int);
            }
        }
        total = total + add;
        i = i + 1;
    }
    proof {
        assert(pv.subrange(0, pv.len() as int) =~= pv);
    }
    let e: u128 = if total == 0 { 1 } else { total };
    if e > usize::MAX as u128 {
        return usize::MAX;
    }
    let h: u128 = (6 * e + 4) / 5;
    if h > usize::MAX as u128 { usize::MAX } else { h as usize }
}

/// Calls `UnicodeWidthChar::width`: control characters (below U+0020 and
/// from U+007F to U+009F) have no width, other ASCII characters width 1,
/// and the rest the width of the crate's tables (a `u8`), named
/// `table_width`.
#[verifier::external_body]
fn char_width(c: char) -> (r: Option<usize>)
    ensures
        r == if (c as u32) < 0x7F {
            if (c as u32) >= 0x20 { Some(1usize) } else { None }
        } else if (c as u32) >= 0xA0 {
            Some(table_width(c) as usize)
        } else {
            None
        },
{
    unicode_width::UnicodeWidthChar::width(c)
}

/// The display width the tables of the `unicode-width` crate give a
/// character from U+00A0 on.
pub uninterp spec fn table_width(c: char) -> u8;

/// The display width used for wrapping: that of `char_width`, 1 for a
/// control character.
pub open spec fn shown_width(c: char) -> nat {
    if (c as u32) < 0x7F {
        1
    } else if (c as u32) >= 0xA0 {
        table_width(c) as nat
    } else {
        1
    }
}

/// The number of rows and the width of the last row after greedily
/// wrapping the characters `cs` at `width` columns.
pub open spec fn wrap_state(cs: Seq<char>, width: nat) -> (nat, nat)
    decreases cs.len(),
{
    if cs.len() == 0 {
        (1, 0)
    } else {
        let p = wrap_state(cs.drop_last(), width);
        let w = shown_width(cs.last());
        if p.1 + w > width { (p.0 + 1, w) } else { (p.0, p.1 + w) }
    }
}

/// The rows each line takes (one for an empty line), summed.
pub open spec fn wrapped_rows(ls: Seq<Seq<char>>, width: nat) -> nat
    decreases ls.len(),
{
    if ls.len() == 0 {
        0
    } else {
        let l = ls.last();
        wrapped_rows(ls.drop_last(), width) + if l.len() == 0 { 1 } else { wrap_state(l, width).0 }
    }
}

/// The height of a text wrapped at `width` columns: its number of lines
/// when the width is zero, else the rows of its lines (at least one).
pub open spec fn wrapped_height(text: Seq<char>, width: nat) -> nat {
    if width == 0 {
        lines(text).len()
    } else {
        let h = wrapped_rows(lines(text), width);
        if h == 0 { 1 } else { h }
    }
}

/// The rows a line takes when wrapped at `width` columns.
fn line_rows(line: &str, width: usize) -> (r: u128)
    ensures
        r == wrap_state(line@, width as nat).0,
        r <= line@.len() + 1,
{
    let cs = chars_of(line);
    let mut rows: u128 = 1;
    let mut cur: u128 = 0;
    let mut i: usize = 0;
    while i < cs.len()
        invariant
            i <= cs.len(),
            cs@ == line@,
            (rows as nat, cur as nat) == wrap_state(cs@.subrange(0, i as int), width as nat),
            rows <= i + 1,
            cur <= 256 * i,
        decreases cs.len() - i,
    {
        proof {
            assert(cs@.subrange(0, i + 1).drop_last() =~= cs@.subrange(0, i as int));
            assert(cs@.subrange(0, i + 1).last() == cs@[i as int]);
        }
        let w: u128 = match char_width(cs[i]) {
            Some(w) => w as u128,
            None => 1,
        };
        if cur + w > width as u128 {
            rows = rows + 1;
            cur = w;
        } else {
            cur = cur + w;
        }
        i = i + 1;
    }
    proof {
        assert(cs@.subrange(0, cs@.len() as int) =~= cs@);
    }
    rows
}

/// The height of a text wrapped at `width` columns (see `wrapped_height`).
pub fn calculate_wrapped_height(text: &str, width: usize) -> (r: usize)
    ensures
        r == capped(wrapped_height(text@, width as nat)),
{
    let ls = split_lines(text);
    let ghost lv = lines(text@);
    proof {
        assert(ls@.map_values(|l: String| l@) =~= strings_view(ls@));
    }
    if width == 0 {
        return ls.len();
    }
    let mut h: u128 = 0;
    let mut i: usize = 0;
    while i < ls.len()
        invariant
            i <= ls.len(),
            strings_view(ls@) == lv,
            h == wrapped_rows(lv.subrange(0, i as int), width as nat),
            h <= i * 0x1_0000_0000_0000_0001u128,
        decreases ls.len() - i,
    {
        proof {
            assert(lv.subrange(0, i + 1).drop_last() =~= lv.subrange(0, i as int));
            assert(lv.subrange(0, i + 1).last() == ls@[i as int]@);
        }
        let n = chars_of(ls[i].as_str()).len();
        let add = if n == 0 { 1 } else { line_rows(ls[i].as_str(), width) };
        h = h + add;
        i = i + 1;
    }
    proof {
        assert(lv.subrange(0, lv.len() as int) =~= lv);
    }
    let t: u128 = if h == 0 { 1 } else { h };
    if t > usize::MAX as u128 { usize::MAX } else { t as usize }
}

} // verus!
