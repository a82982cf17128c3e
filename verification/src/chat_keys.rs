//! What a key press does in the chat window: panels, model and session
//! choice, scrolling, typing, and preparing a message for the model.
use vstd::prelude::*;
use crate::chat::{ActivePanel, ChatMessage, ChatRole, ChatSession, HistoryFilter, NotificationType, snippet_key};
use crate::chat_state::{OllamaState, toasts_info, filtered_sessions, derefs, scroll_step, fast_scroll_step, max_scroll,
    scroll_chat_up, scroll_chat_down, fast_scroll_chat_up, fast_scroll_chat_down};
use crate::keys::{KeyCode, KeyInput, is_char};
use crate::notebook::strings_view;
use crate::snippet::{clone_opt_string, clone_strings};
use crate::text::{copy_str, concat2, concat3, is_blank, trim, trim_string, join, join_strings, decimal, decimal_string, char_count,
    drop_last_char, push_char};

verus! {

/// What the chat window leaves for the caller to do after a key.
#[derive(Debug)]
pub enum ChatEffect {
    /// Nothing more.
    Stay,
    /// Ask the model server for a reply (the request is ready).
    Send(ChatRequest),
    /// Ask the model server for its list of models.
    LoadModels,
    /// Read the saved sessions again from storage.
    RefreshSessions,
    /// Save the current session to storage.
    SaveSession,
    /// Store the saved session with this id again (its favorite mark changed).
    SaveSessionFile(u128),
    /// Delete the stored session with this id.
    DeleteSessionFile(u128),
}

/// A message for the model server, with what it needs to answer.
#[derive(Debug)]
pub struct ChatRequest {
    pub model: String,
    pub message: String,
    pub system_prompt: String,
    pub history: Vec<ChatMessage>,
    pub request_id: u64,
}

/// The line a message of the history adds to the prompt: the speaker and
/// the text for the user and the assistant, nothing for the system.
pub open spec fn history_line(role: ChatRole, content: Seq<char>) -> Seq<char> {
    match role {
        ChatRole::User => "User: "@ + content + "\n"@,
        ChatRole::Assistant => "Assistant: "@ + content + "\n"@,
        ChatRole::System => Seq::empty(),
    }
}

/// The lines of a whole history, in order.
pub open spec fn history_text(h: Seq<ChatMessage>) -> Seq<char>
    decreases h.len(),
{
    if h.len() == 0 {
        Seq::empty()
    } else {
        history_text(h.drop_last()) + history_line(h.last().role, h.last().content@)
    }
}

/// The prompt sent to the model: the system prompt and a blank line (when
/// it is not blank), the history, then the new message and the cue for
/// the assistant's answer.
pub open spec fn prompt_text(system_prompt: Seq<char>, h: Seq<ChatMessage>, message: Seq<char>) -> Seq<char> {
    (if trim(system_prompt).len() > 0 { system_prompt + "\n\n"@ } else { Seq::empty() })
        + history_text(h) + "User: "@ + message + "\nAssistant: "@
}

/// Builds the prompt of a request to the model (see `prompt_text`).
pub fn build_prompt(system_prompt: &str, history: &Vec<ChatMessage>, message: &str) -> (r: String)
    ensures
        r@ == prompt_text(system_prompt@, history@, message@),
{
    let mut out = if !is_blank(system_prompt) { concat2(system_prompt, "\n\n") } else { String::new() };
    let ghost head = out@;
    let mut i: usize = 0;
    proof {
        assert(history@.subrange(0, 0) =~= Seq::<ChatMessage>::empty());
        assert(head + history_text(Seq::<ChatMessage>::empty()) =~= head);
    }
    while i < history.len()
        invariant
            i <= history@.len(),
            out@ == head + history_text(history@.subrange(0, i as int)),
        decreases history.len() - i,
    {
        let ghost pre = out@;
        let line = match history[i].role {
            ChatRole::User => concat3("User: ", history[i].content.as_str(), "\n"),
            ChatRole::Assistant => concat3("Assistant: ", history[i].content.as_str(), "\n"),
            ChatRole::System => String::new(),
        };
        out.append(line.as_str());
        proof {
            let sub = history@.subrange(0, i + 1);
            assert(sub.drop_last() =~= history@.subrange(0, i as int));
            assert(sub.last() == history@[i as int]);
            assert(line@ == history_line(history@[i as int].role, history@[i as int].content@));
            assert(out@ =~= head + history_text(sub));
        }
        i = i + 1;
    }
    proof {
        assert(history@.subrange(0, history@.len() as int) =~= history@);
    }
    let tail = concat3("User: ", message, "\nAssistant: ");
    out.append(tail.as_str());
    proof {
        assert(out@ =~= prompt_text(system_prompt@, history@, message@));
    }
    out
}

/// The role and text of each message.
pub open spec fn messages_view(v: Seq<ChatMessage>) -> Seq<(ChatRole, Seq<char>)> {
    v.map_values(|m: ChatMessage| (m.role, m.content@))
}

/// `t` is `s` with the notification `msg` of kind `k`, shown for `d` seconds.
pub open spec fn toasted(s: OllamaState, t: OllamaState, msg: Seq<char>, k: NotificationType, d: u64) -> bool {
    let all = toasts_info(s.toast_notifications@).push((msg, k, d));
    &&& toasts_info(t.toast_notifications@) == if all.len() > 5 { all.drop_first() } else { all }
    &&& t == (OllamaState { toast_notifications: t.toast_notifications, ..s })
}

/// The panel after `p` when Tab cycles.
pub open spec fn next_panel(p: ActivePanel) -> ActivePanel {
    match p {
        ActivePanel::CurrentChat => ActivePanel::ChatHistory,
        ActivePanel::ChatHistory => ActivePanel::Settings,
        ActivePanel::Settings => ActivePanel::CurrentChat,
    }
}

/// The history filter to the left of `f` (the search filter stays).
pub open spec fn filter_left(f: HistoryFilter) -> HistoryFilter {
    match f {
        HistoryFilter::All => HistoryFilter::CurrentSnippet,
        HistoryFilter::Recent => HistoryFilter::All,
        HistoryFilter::Favorites => HistoryFilter::Recent,
        HistoryFilter::CurrentSnippet => HistoryFilter::Favorites,
        HistoryFilter::Search => HistoryFilter::Search,
    }
}

/// The history filter to the right of `f` (the search filter stays).
pub open spec fn filter_right(f: HistoryFilter) -> HistoryFilter {
    match f {
        HistoryFilter::All => HistoryFilter::Recent,
        HistoryFilter::Recent => HistoryFilter::Favorites,
        HistoryFilter::Favorites => HistoryFilter::CurrentSnippet,
        HistoryFilter::CurrentSnippet => HistoryFilter::All,
        HistoryFilter::Search => HistoryFilter::Search,
    }
}

/// The text a typing key goes into: the system prompt being edited, the
/// history search, or (while no reply is awaited) the chat input.
pub open spec fn typing_target(s: OllamaState) -> int {
    if s.editing_system_prompt { 0 } else if s.active_panel is ChatHistory { 1 } else if s.active_panel is CurrentChat && !s.is_sending { 2 } else { 3 }
}

/// `t` is `s` after a typing key changed the text `typing_target` names
/// from `x` to `f(x)`.
pub open spec fn typed_into(s: OllamaState, t: OllamaState, f: spec_fn(Seq<char>) -> Seq<char>) -> bool {
    let k = typing_target(s);
    if k == 0 {
        t.system_prompt_buffer@ == f(s.system_prompt_buffer@) && t == (OllamaState { system_prompt_buffer: t.system_prompt_buffer, ..s })
    } else if k == 1 {
        t.search_query@ == f(s.search_query@) && t == (OllamaState { search_query: t.search_query, ..s })
    } else if k == 2 {
        t.input_buffer@ == f(s.input_buffer@) && t == (OllamaState { input_buffer: t.input_buffer, ..s })
    } else {
        t == s
    }
}

/// Adds the character `c` at the end.
pub open spec fn append(c: char) -> spec_fn(Seq<char>) -> Seq<char> {
    |x: Seq<char>| x.push(c)
}

/// Takes off the last character, if any.
pub open spec fn erase() -> spec_fn(Seq<char>) -> Seq<char> {
    |x: Seq<char>| if x.len() > 0 { x.drop_last() } else { x }
}

/// `t` is `s` after the model selection moved up (`up`) or down, with
/// the notifications that go with it.
pub open spec fn model_moved(s: OllamaState, t: OllamaState, up: bool) -> bool {
    let n = s.models@.len();
    let i = s.selected_model_index;
    if n == 0 {
        toasted(s, t, "No models available. Please install models first."@, NotificationType::Error, 8)
    } else if up && i > 0 {
        let j = (i - 1) as usize;
        if j < n {
            toasted(OllamaState { selected_model_index: j, ..s }, t, "Selected model: "@ + s.models@[j as int]@, NotificationType::Info, 5)
        } else {
            t == (OllamaState { selected_model_index: 0, ..s })
        }
    } else if !up && i < n - 1 {
        let j = (i + 1) as usize;
        toasted(OllamaState { selected_model_index: j, ..s }, t, "Selected model: "@ + s.models@[j as int]@, NotificationType::Info, 5)
    } else {
        t == s
    }
}

/// `t` is `s` after the session selection moved up (`up`) or down in the
/// history, with the notification that goes with it.
pub open spec fn session_moved(s: OllamaState, t: OllamaState, up: bool) -> bool {
    let n = filtered_sessions(s).len();
    let i = s.selected_session_index;
    if n == 0 {
        toasted(s, t, "No chat sessions available."@, NotificationType::Info, 5)
    } else if up && i > 0 {
        t == (OllamaState { selected_session_index: (i - 1) as usize, ..s })
    } else if !up && i < n - 1 {
        t == (OllamaState { selected_session_index: (i + 1) as usize, ..s })
    } else {
        t == s
    }
}

/// `t` is `s` with the chat scrolled one step up.
pub open spec fn scrolled_up(s: OllamaState, t: OllamaState) -> bool {
    t == (OllamaState {
        scroll_position: if s.scroll_position >= scroll_step(s.scroll_speed) { (s.scroll_position - scroll_step(s.scroll_speed)) as usize } else { 0 },
        ..s
    })
}

/// `t` is `s` with the chat scrolled one step down (see `scroll_chat_down`).
pub open spec fn scrolled_down(s: OllamaState, t: OllamaState) -> bool {
    let a = s.scroll_position + scroll_step(s.scroll_speed);
    let m = max_scroll(s);
    let b = if a < m { a } else { m as int };
    t == (OllamaState { scroll_position: (if b < 2000 { b } else { 2000 }) as usize, ..s })
}

/// What a key (other than Enter, `f`, Delete and the control keys that
/// reach outside) does in the chat window.
pub open spec fn chat_key_moved(key: KeyInput, s: OllamaState, t: OllamaState) -> bool {
    let c = key.code;
    if c is Esc {
        if s.editing_system_prompt {
            t.system_prompt_buffer@ == Seq::<char>::empty()
                && t == (OllamaState { editing_system_prompt: false, system_prompt_buffer: t.system_prompt_buffer, ..s })
        } else {
            t == (OllamaState { show_popup: false, ..s })
        }
    } else if c is Tab {
        t == (OllamaState { active_panel: next_panel(s.active_panel), ..s })
    } else if c is Up && key.control {
        model_moved(s, t, true)
    } else if c is Down && key.control {
        model_moved(s, t, false)
    } else if c is Up {
        if s.active_panel is ChatHistory { session_moved(s, t, true) } else { scrolled_up(s, t) }
    } else if c is Down {
        if s.active_panel is ChatHistory { session_moved(s, t, false) } else { scrolled_down(s, t) }
    } else if c is Left || c is Right {
        if s.active_panel is ChatHistory {
            t == (OllamaState {
                history_filter: if c is Left { filter_left(s.history_filter) } else { filter_right(s.history_filter) },
                selected_session_index: 0,
                ..s
            })
        } else {
            t == s
        }
    } else if c is PageUp {
        t == (OllamaState {
            scroll_position: if s.scroll_position >= fast_scroll_step(s.scroll_speed) { (s.scroll_position - fast_scroll_step(s.scroll_speed)) as usize } else { 0 },
            ..s
        })
    } else if c is PageDown {
        let a = s.scroll_position + fast_scroll_step(s.scroll_speed);
        let m = max_scroll(s);
        let b = if a < m { a } else { m as int };
        t == (OllamaState { scroll_position: (if b < 2000 { b } else { 2000 }) as usize, ..s })
    } else if c is Home {
        t == (OllamaState { scroll_position: 0, ..s })
    } else if c is End {
        t == (OllamaState { scroll_position: 999999, ..s })
    } else if is_char(c, 'm') || is_char(c, 'M') {
        if key.control {
            if s.models@.len() > 0 {
                toasted(s, t, "Models ("@ + decimal(s.models@.len()) + "): "@ + join(strings_view(s.models@), ", "@), NotificationType::Info, 5)
            } else {
                toasted(s, t, "No models available! Ensure Ollama is running and models are installed."@, NotificationType::Error, 8)
            }
        } else {
            t == s
        }
    } else if is_char(c, ' ') {
        if s.active_panel is Settings { t == (OllamaState { auto_save_enabled: !s.auto_save_enabled, ..s }) } else { t == s }
    } else if is_char(c, 'l') && key.control {
        &&& t.conversation@.len() == 0
        &&& match s.current_session {
            Some(cs) => t.current_session matches Some(ns) && ns.conversation@.len() == 0
                && ns == (ChatSession { conversation: ns.conversation, ..cs }),
            None => t.current_session is None,
        }
        &&& toasted(OllamaState {
                conversation: t.conversation,
                scroll_position: 0,
                current_session: t.current_session,
                ..s
            }, t, "Conversation cleared! 󰚃"@, NotificationType::Success, 5)
    } else {
        match c {
            KeyCode::Char(ch) => typed_into(s, t, append(ch)),
            KeyCode::Backspace => typed_into(s, t, erase()),
            _ => t == s,
        }
    }
}

/// What the moving and typing keys may be given: the scroll arithmetic
/// stays within the machine limits.
pub open spec fn chat_move_ok(key: KeyInput, s: OllamaState) -> bool {
    let c = key.code;
    &&& (c is Down && !key.control && !(s.active_panel is ChatHistory)) ==> s.scroll_position + scroll_step(s.scroll_speed) <= usize::MAX
    &&& (c is PageUp || c is PageDown) ==> 5 * s.scroll_speed <= usize::MAX
    &&& c is PageDown ==> s.scroll_position + fast_scroll_step(s.scroll_speed) <= usize::MAX
}

/// Whether `k` is the character key `x` (see `is_char`).
fn key_is(k: KeyCode, x: char) -> (r: bool)
    ensures
        r == is_char(k, x),
{
    match k {
        KeyCode::Char(c) => c == x,
        _ => false,
    }
}

/// Moves the model selection (see `model_moved`).
fn move_model(s: &mut OllamaState, up: bool)
    ensures
        model_moved(*old(s), *final(s), up),
{
    let n = s.models.len();
    let i = s.selected_model_index;
    if n == 0 {
        s.add_error_toast(copy_str("No models available. Please install models first."));
    } else if up && i > 0 {
        s.selected_model_index = i - 1;
        if i - 1 < n {
            let m = concat2("Selected model: ", s.models[i - 1].as_str());
            s.add_info_toast(m);
        } else {
            s.selected_model_index = 0;
        }
    } else if !up && i < n - 1 {
        s.selected_model_index = i + 1;
        let m = concat2("Selected model: ", s.models[i + 1].as_str());
        s.add_info_toast(m);
    }
}

/// Moves the session selection in the history (see `session_moved`).
fn move_session(s: &mut OllamaState, up: bool)
    ensures
        session_moved(*old(s), *final(s), up),
{
    let n = s.get_filtered_sessions().len();
    let i = s.selected_session_index;
    if n == 0 {
        s.add_info_toast(copy_str("No chat sessions available."));
    } else if up && i > 0 {
        s.selected_session_index = i - 1;
    } else if !up && i < n - 1 {
        s.selected_session_index = i + 1;
    }
}

/// Changes the text a typing key goes into (see `typed_into`).
fn type_key(s: &mut OllamaState, c: Option<char>)
    ensures
        match c {
            Some(ch) => typed_into(*old(s), *final(s), append(ch)),
            None => typed_into(*old(s), *final(s), erase()),
        },
{
    if s.editing_system_prompt {
        match c {
            Some(ch) => push_char(&mut s.system_prompt_buffer, ch),
            None => if char_count(s.system_prompt_buffer.as_str()) > 0 {
                s.system_prompt_buffer = drop_last_char(s.system_prompt_buffer.as_str());
            },
        }
    } else if s.active_panel == ActivePanel::ChatHistory {
        match c {
            Some(ch) => push_char(&mut s.search_query, ch),
            None => if char_count(s.search_query.as_str()) > 0 {
                s.search_query = drop_last_char(s.search_query.as_str());
            },
        }
    } else if s.active_panel == ActivePanel::CurrentChat && !s.is_sending {
        match c {
            Some(ch) => push_char(&mut s.input_buffer, ch),
            None => if char_count(s.input_buffer.as_str()) > 0 {
                s.input_buffer = drop_last_char(s.input_buffer.as_str());
            },
        }
    }
}

/// Handles the keys that move, scroll, type or change a setting in the
/// chat window (see `chat_key_moved`).
fn chat_move(key: KeyInput, s: &mut OllamaState)
    requires
        chat_move_ok(key, *old(s)),
    ensures
        chat_key_moved(key, *old(s), *final(s)),
{
    let c = key.code;
    if c == KeyCode::Esc {
        if s.editing_system_prompt {
            s.editing_system_prompt = false;
            s.system_prompt_buffer = String::new();
        } else {
            s.show_popup = false;
        }
    } else if c == KeyCode::Tab {
        s.active_panel = match s.active_panel {
            ActivePanel::CurrentChat => ActivePanel::ChatHistory,
            ActivePanel::ChatHistory => ActivePanel::Settings,
            ActivePanel::Settings => ActivePanel::CurrentChat,
        };
    } else if c == KeyCode::Up && key.control {
        move_model(s, true);
    } else if c == KeyCode::Down && key.control {
        move_model(s, false);
    } else if c == KeyCode::Up {
        if s.active_panel == ActivePanel::ChatHistory { move_session(s, true); } else { scroll_chat_up(s); }
    } else if c == KeyCode::Down {
        if s.active_panel == ActivePanel::ChatHistory { move_session(s, false); } else { scroll_chat_down(s); }
    } else if c == KeyCode::Left || c == KeyCode::Right {
        if s.active_panel == ActivePanel::ChatHistory {
            let left = c == KeyCode::Left;
            s.history_filter = match s.history_filter {
                HistoryFilter::All => if left { HistoryFilter::CurrentSnippet } else { HistoryFilter::Recent },
                HistoryFilter::Recent => if left { HistoryFilter::All } else { HistoryFilter::Favorites },
                HistoryFilter::Favorites => if left { HistoryFilter::Recent } else { HistoryFilter::CurrentSnippet },
                HistoryFilter::CurrentSnippet => if left { HistoryFilter::Favorites } else { HistoryFilter::All },
                HistoryFilter::Search => HistoryFilter::Search,
            };
            s.selected_session_index = 0;
        }
    } else if c == KeyCode::PageUp {
        fast_scroll_chat_up(s);
    } else if c == KeyCode::PageDown {
        fast_scroll_chat_down(s);
    } else if c == KeyCode::Home {
        s.scroll_position = 0;
    } else if c == KeyCode::End {
        s.scroll_position = 999999;
    } else if key_is(c, 'm') || key_is(c, 'M') {
        if key.control {
            if s.models.len() > 0 {
                let mut m = copy_str("Models (");
                let n = decimal_string(s.models.len());
                m.append(n.as_str());
                m.append("): ");
                let names = join_strings(&s.models, ", ");
                m.append(names.as_str());
                proof {
                    assert(s.models@.map_values(|p: String| p@) =~= strings_view(s.models@));
                }
                s.add_info_toast(m);
            } else {
                s.add_error_toast(copy_str("No models available! Ensure Ollama is running and models are installed."));
            }
        }
    } else if key_is(c, ' ') {
        if s.active_panel == ActivePanel::Settings {
            s.auto_save_enabled = !s.auto_save_enabled;
        }
    } else if key_is(c, 'l') && key.control {
        s.clear_conversation();
        s.add_success_toast(copy_str("Conversation cleared! 󰚃"));
    } else {
        match c {
            KeyCode::Char(ch) => type_key(s, Some(ch)),
            KeyCode::Backspace => type_key(s, None),
            _ => {},
        }
    }
}

/// A copy of a list of messages.
pub fn copy_messages(v: &Vec<ChatMessage>) -> (r: Vec<ChatMessage>)
    ensures
        r@ == v@,
{
    let mut r: Vec<ChatMessage> = Vec::new();
    let mut i: usize = 0;
    while i < v.len()
        invariant
            i <= v.len(),
            r@ == v@.subrange(0, i as int),
        decreases v.len() - i,
    {
        r.push(ChatMessage { role: v[i].role, content: v[i].content.clone() });
        proof {
            assert(r@ =~= v@.subrange(0, i + 1));
        }
        i = i + 1;
    }
    proof {
        assert(v@.subrange(0, v@.len() as int) =~= v@);
    }
    r
}

/// `a` and `b` hold the same session.
pub open spec fn same_session(a: ChatSession, b: ChatSession) -> bool {
    &&& a == (ChatSession { conversation: a.conversation, tags: a.tags, ..b })
    &&& a.conversation@ == b.conversation@
    &&& a.tags@ == b.tags@
}

/// A copy of a session.
pub fn copy_session(s: &ChatSession) -> (r: ChatSession)
    ensures
        same_session(r, *s),
{
    ChatSession {
        id: s.id,
        title: s.title.clone(),
        created_at: s.created_at,
        updated_at: s.updated_at,
        model_name: s.model_name.clone(),
        system_prompt: s.system_prompt.clone(),
        snippet_hash: clone_opt_string(&s.snippet_hash),
        snippet_title: clone_opt_string(&s.snippet_title),
        conversation: copy_messages(&s.conversation),
        is_favorited: s.is_favorited,
        tags: clone_strings(&s.tags),
    }
}

/// The session a message starts when none is open: for model `m`, with
/// the system prompt, tied to the current snippet when there is one.
pub open spec fn started_session(ns: ChatSession, s: OllamaState, m: Seq<char>, msg: Seq<char>) -> bool {
    &&& ns.model_name@ == m
    &&& ns.system_prompt@ == s.system_prompt@
    &&& messages_view(ns.conversation@) == seq![(ChatRole::User, msg)]
    &&& !ns.is_favorited
    &&& ns.tags@.len() == 0
    &&& match s.current_snippet {
        Some(c) => {
            &&& ns.snippet_hash matches Some(h) && h@ == snippet_key(c@)
            &&& ns.snippet_title matches Some(x) && x@ == "Current Snippet"@
            &&& ns.title@ == "Chat about "@ + "Current Snippet"@
        },
        None => {
            &&& ns.snippet_hash is None
            &&& ns.snippet_title is None
            &&& ns.title@ == "Chat with "@ + m
        },
    }
}

/// `t` is `s` after the chat input was sent to model `m`, `r` the request
/// for the server (nothing happens with a blank input or while a reply is
/// awaited).
pub open spec fn message_sent(s: OllamaState, t: OllamaState, m: Seq<char>, r: ChatEffect) -> bool {
    let msg = trim(s.input_buffer@);
    if msg.len() == 0 || s.is_sending {
        r is Stay && t == s
    } else {
        &&& r matches ChatEffect::Send(req) && {
            &&& req.model@ == m
            &&& req.message@ == msg
            &&& req.system_prompt@ == s.system_prompt@
            &&& req.history@ == s.conversation@
            &&& t.pending_response_id == Some(req.request_id)
        }
        &&& messages_view(t.conversation@) == messages_view(s.conversation@).push((ChatRole::User, msg))
        &&& t.input_buffer@ == Seq::<char>::empty()
        &&& t.typing_indicator@ == "Assistant is thinking..."@
        &&& match s.current_session {
            Some(cs) => t.current_session matches Some(ns)
                && messages_view(ns.conversation@) == messages_view(cs.conversation@).push((ChatRole::User, msg))
                && ns == (ChatSession { conversation: ns.conversation, updated_at: ns.updated_at, ..cs }),
            None => t.current_session matches Some(ns) && started_session(ns, s, m, msg),
        }
        &&& t == (OllamaState {
                conversation: t.conversation,
                input_buffer: t.input_buffer,
                is_sending: true,
                pending_response_id: t.pending_response_id,
                typing_indicator: t.typing_indicator,
                current_session: t.current_session,
                ..s
            })
    }
}

/// Calls `SystemTime::now` and returns the nanoseconds since the Unix
/// epoch (zero for a clock set before it), as a request id.
#[verifier::external_body]
fn request_id_now() -> (r: u64) {
    std::time::SystemTime::now()
        .duration_since(std::time::UNIX_EPOCH)
        .map(|d| d.as_nanos() as u64)
        .unwrap_or(0)
}

/// Sends the chat input to model `model` (see `message_sent`).
fn send_chat_message(s: &mut OllamaState, model: String) -> (r: ChatEffect)
    ensures
        message_sent(*old(s), *final(s), model@, r),
{
    let message = trim_string(s.input_buffer.as_str());
    if char_count(message.as_str()) == 0 || s.is_sending {
        return ChatEffect::Stay;
    }
    let history = copy_messages(&s.conversation);
    let request_id = request_id_now();
    let ghost before = messages_view(s.conversation@);
    s.conversation.push(ChatMessage { role: ChatRole::User, content: message.clone() });
    proof {
        assert(messages_view(s.conversation@) =~= before.push((ChatRole::User, message@)));
    }
    s.input_buffer = String::new();
    s.is_sending = true;
    s.pending_response_id = Some(request_id);
    s.typing_indicator = copy_str("Assistant is thinking...");
    let mut taken: Option<ChatSession> = None;
    std::mem::swap(&mut taken, &mut s.current_session);
    match taken {
        Some(mut session) => {
            let ghost cv = messages_view(session.conversation@);
            session.add_message(ChatRole::User, message.clone());
            proof {
                assert(messages_view(session.conversation@) =~= cv.push((ChatRole::User, message@)));
            }
            s.current_session = Some(session);
        },
        None => {
            let mut session = ChatSession::new(model.clone(), s.system_prompt.clone());
            match &s.current_snippet {
                Some(c) => {
                    session = session.with_snippet(c.as_str(), copy_str("Current Snippet"));
                },
                None => {},
            }
            session.add_message(ChatRole::User, message.clone());
            proof {
                assert(messages_view(session.conversation@) =~= seq![(ChatRole::User, message@)]);
            }
            s.current_session = Some(session);
        },
    }
    ChatEffect::Send(ChatRequest {
        model,
        message,
        system_prompt: s.system_prompt.clone(),
        history,
        request_id,
    })
}

/// `t` is `s` after the selected session of the history was opened:
/// its conversation and system prompt are shown in the chat panel,
/// scrolled to the end, with a notification.
pub open spec fn session_loaded(s: OllamaState, t: OllamaState) -> bool {
    let f = filtered_sessions(s);
    let i = s.selected_session_index;
    if i < f.len() {
        let x = f[i as int];
        exists|mid: OllamaState| {
            &&& mid.current_session matches Some(ns) && same_session(ns, x)
            &&& mid.conversation@ == x.conversation@
            &&& mid.system_prompt == x.system_prompt
            &&& mid.system_prompt_buffer == x.system_prompt
            &&& mid == (OllamaState {
                    conversation: mid.conversation,
                    current_session: mid.current_session,
                    system_prompt: mid.system_prompt,
                    system_prompt_buffer: mid.system_prompt_buffer,
                    active_panel: ActivePanel::CurrentChat,
                    scroll_position: 999999,
                    ..s
                })
            &&& #[trigger] toasted(mid, t, "Loaded session: "@ + x.title@ + " ("@ + decimal(x.conversation@.len()) + " messages)"@,
                    NotificationType::Success, 5)
        }
    } else {
        t == s
    }
}

/// What Enter does in the chat window: send the input (with a model
/// chosen), open the selected session, or start or end editing the
/// system prompt.
pub open spec fn enter_handled(s: OllamaState, t: OllamaState, r: ChatEffect) -> bool {
    match s.active_panel {
        ActivePanel::CurrentChat => if s.selected_model_index < s.models@.len() {
            message_sent(s, t, s.models@[s.selected_model_index as int]@, r)
        } else {
            r is Stay && t == s
        },
        ActivePanel::ChatHistory => r is Stay && session_loaded(s, t),
        ActivePanel::Settings => r is Stay && if !s.editing_system_prompt {
            t == (OllamaState { editing_system_prompt: true, system_prompt_buffer: s.system_prompt, ..s })
        } else {
            &&& t.system_prompt == s.system_prompt_buffer
            &&& t.system_prompt_buffer@ == Seq::<char>::empty()
            &&& t == (OllamaState {
                    system_prompt: t.system_prompt,
                    editing_system_prompt: false,
                    system_prompt_buffer: t.system_prompt_buffer,
                    ..s
                })
        },
    }
}

/// The position of the first session with id `id`, or -1.
pub open spec fn session_pos(v: Seq<ChatSession>, id: u128) -> int
    decreases v.len(),
{
    if v.len() == 0 {
        -1
    } else if v[0].id == id {
        0
    } else {
        let p = session_pos(v.drop_first(), id);
        if p < 0 { -1 } else { p + 1 }
    }
}

/// `session_pos` is the first position whose id is `id`.
proof fn lemma_session_pos(v: Seq<ChatSession>, id: u128, j: int)
    requires
        0 <= j <= v.len(),
        forall|k: int| 0 <= k < j ==> (#[trigger] v[k]).id != id,
        j < v.len() ==> v[j].id == id,
    ensures
        session_pos(v, id) == if j < v.len() { j } else { -1 },
    decreases j,
{
    if j > 0 {
        assert(v[0].id != id);
        assert forall|k: int| 0 <= k < j - 1 implies (#[trigger] v.drop_first()[k]).id != id by {
            assert(v.drop_first()[k] == v[k + 1]);
        }
        if j < v.len() {
            assert(v.drop_first()[j - 1] == v[j]);
        }
        lemma_session_pos(v.drop_first(), id, j - 1);
    }
}

/// `t` is `s` after the favorite mark of the selected session of the
/// history was flipped; `r` asks to store that session again when there
/// is storage.
pub open spec fn favorite_toggled(s: OllamaState, t: OllamaState, r: ChatEffect) -> bool {
    let f = filtered_sessions(s);
    let i = s.selected_session_index;
    let v = s.saved_sessions@;
    if i < f.len() && session_pos(v, f[i as int].id) >= 0 {
        let id = f[i as int].id;
        let k = session_pos(v, id);
        &&& t.saved_sessions@ =~= v.update(k, ChatSession { is_favorited: !v[k].is_favorited, ..v[k] })
        &&& t == (OllamaState { saved_sessions: t.saved_sessions, ..s })
        &&& r == if s.chat_storage is Some { ChatEffect::SaveSessionFile(id) } else { ChatEffect::Stay }
    } else {
        r is Stay && t == s
    }
}

/// Holds of the sessions whose id is not `id`.
pub open spec fn other_session(id: u128) -> spec_fn(ChatSession) -> bool {
    |x: ChatSession| x.id != id
}

/// `t` is `s` after the selected session of the history was deleted (the
/// selection kept within the history); `r` asks to delete its stored copy
/// when there is storage.
pub open spec fn session_deleted(s: OllamaState, t: OllamaState, r: ChatEffect) -> bool {
    let f = filtered_sessions(s);
    let i = s.selected_session_index;
    if i < f.len() {
        let id = f[i as int].id;
        let mid = OllamaState { saved_sessions: t.saved_sessions, ..s };
        let n = filtered_sessions(mid).len();
        &&& t.saved_sessions@ =~= s.saved_sessions@.filter(other_session(id))
        &&& t == (OllamaState {
                selected_session_index: if n > 0 && i >= n { (n - 1) as usize } else if n == 0 { 0 } else { i },
                ..mid
            })
        &&& r == if s.chat_storage is Some { ChatEffect::DeleteSessionFile(id) } else { ChatEffect::Stay }
    } else {
        r is Stay && t == s
    }
}

/// What a key does in the chat window: `t` is `s` after it, `r` what is
/// left for the caller.
pub open spec fn chat_key_handled(key: KeyInput, s: OllamaState, t: OllamaState, r: ChatEffect) -> bool {
    let c = key.code;
    let history = s.active_panel is ChatHistory;
    if c is Enter {
        enter_handled(s, t, r)
    } else if is_char(c, 'f') || is_char(c, 'F') {
        if history { favorite_toggled(s, t, r) } else { r is Stay && t == s }
    } else if c is Delete {
        if history { session_deleted(s, t, r) } else { r is Stay && t == s }
    } else if is_char(c, 'N') || (key.control && (is_char(c, 'n') || is_char(c, 'c'))) {
        r is Stay && t == s
    } else if key.control && is_char(c, 's') {
        r is SaveSession && t == s
    } else if key.control && is_char(c, 'r') {
        if s.active_panel is CurrentChat {
            &&& r is LoadModels
            &&& t.models@.len() == 0
            &&& t.error_message matches Some(m) && m@ == " Refreshing models..."@
            &&& t == (OllamaState {
                    models: t.models,
                    selected_model_index: 0,
                    loading_models: true,
                    error_message: t.error_message,
                    ..s
                })
        } else {
            r is RefreshSessions && t == s
        }
    } else {
        r is Stay && chat_key_moved(key, s, t)
    }
}

/// Opens the selected session of the history (see `session_loaded`).
fn load_selected_session(s: &mut OllamaState)
    ensures
        session_loaded(*old(s), *final(s)),
{
    let i = s.selected_session_index;
    let x = {
        let f = s.get_filtered_sessions();
        if i >= f.len() {
            return;
        }
        copy_session(f[i])
    };
    let ghost xs = filtered_sessions(*s)[i as int];
    s.conversation = copy_messages(&x.conversation);
    s.system_prompt = x.system_prompt.clone();
    s.system_prompt_buffer = x.system_prompt.clone();
    s.active_panel = ActivePanel::CurrentChat;
    s.scroll_position = 999999;
    let title = x.title.clone();
    let n = x.get_message_count();
    s.current_session = Some(x);
    let ghost mid = *s;
    let mut m = copy_str("Loaded session: ");
    m.append(title.as_str());
    m.append(" (");
    let d = decimal_string(n);
    m.append(d.as_str());
    m.append(" messages)");
    s.add_success_toast(m);
    proof {
        assert(mid.current_session matches Some(ns) && same_session(ns, xs));
        assert(toasted(mid, *s, "Loaded session: "@ + xs.title@ + " ("@ + decimal(xs.conversation@.len()) + " messages)"@,
            NotificationType::Success, 5));
    }
}

/// Flips the favorite mark of the selected session of the history (see
/// `favorite_toggled`).
fn toggle_session_favorite(s: &mut OllamaState) -> (r: ChatEffect)
    ensures
        favorite_toggled(*old(s), *final(s), r),
{
    let i = s.selected_session_index;
    let id = {
        let f = s.get_filtered_sessions();
        if i >= f.len() {
            return ChatEffect::Stay;
        }
        f[i].id
    };
    let mut k: usize = 0;
    while k < s.saved_sessions.len()
        invariant
            k <= s.saved_sessions.len(),
            *s == *old(s),
            i == old(s).selected_session_index,
            i < filtered_sessions(*old(s)).len(),
            id == filtered_sessions(*old(s))[i as int].id,
            forall|j: int| 0 <= j < k ==> (#[trigger] s.saved_sessions@[j]).id != id,
        decreases s.saved_sessions.len() - k,
    {
        if s.saved_sessions[k].id == id {
            proof {
                lemma_session_pos(s.saved_sessions@, id, k as int);
            }
            let fav = !s.saved_sessions[k].is_favorited;
            s.saved_sessions[k].is_favorited = fav;
            return if s.chat_storage.is_some() { ChatEffect::SaveSessionFile(id) } else { ChatEffect::Stay };
        }
        k = k + 1;
    }
    proof {
        lemma_session_pos(s.saved_sessions@, id, k as int);
    }
    ChatEffect::Stay
}

/// Deletes the selected session of the history (see `session_deleted`).
fn delete_selected_session(s: &mut OllamaState) -> (r: ChatEffect)
    ensures
        session_deleted(*old(s), *final(s), r),
{
    let i = s.selected_session_index;
    let id = {
        let f = s.get_filtered_sessions();
        if i >= f.len() {
            return ChatEffect::Stay;
        }
        f[i].id
    };
    let ghost all = s.saved_sessions@;
    let ghost n_all = all.len();
    let mut taken: Vec<ChatSession> = Vec::new();
    std::mem::swap(&mut taken, &mut s.saved_sessions);
    let mut kept: Vec<ChatSession> = Vec::new();
    let ghost j: int = 0;
    while taken.len() > 0
        invariant
            0 <= j <= n_all,
            n_all == all.len(),
            taken@ == all.subrange(j, n_all as int),
            kept@ == all.subrange(0, j).filter(other_session(id)),
        decreases taken.len(),
    {
        proof {
            reveal_with_fuel(Seq::filter, 1);
            assert(all.subrange(0, j + 1).drop_last() =~= all.subrange(0, j));
        }
        let x = taken.remove(0);
        if x.id != id {
            kept.push(x);
        }
        proof {
            j = j + 1;
            assert(taken@ =~= all.subrange(j, n_all as int));
        }
    }
    proof {
        assert(all.subrange(0, n_all as int) =~= all);
    }
    s.saved_sessions = kept;
    let n = s.get_filtered_sessions().len();
    if n > 0 && i >= n {
        s.selected_session_index = n - 1;
    } else if n == 0 {
        s.selected_session_index = 0;
    }
    if s.chat_storage.is_some() { ChatEffect::DeleteSessionFile(id) } else { ChatEffect::Stay }
}

/// What the chat keys may be given: the scroll arithmetic stays within
/// the machine limits.
pub open spec fn chat_key_ok(key: KeyInput, s: OllamaState) -> bool {
    chat_move_ok(key, s)
}

/// Handles a key in the chat window (see `chat_key_handled`).
pub fn handle_ollama_input(s: &mut OllamaState, key: KeyInput) -> (r: ChatEffect)
    requires
        chat_key_ok(key, *old(s)),
    ensures
        chat_key_handled(key, *old(s), *final(s), r),
{
    let c = key.code;
    let history = s.active_panel == ActivePanel::ChatHistory;
    if c == KeyCode::Enter {
        match s.active_panel {
            ActivePanel::CurrentChat => {
                if s.selected_model_index < s.models.len() {
                    let m = s.models[s.selected_model_index].clone();
                    send_chat_message(s, m)
                } else {
                    ChatEffect::Stay
                }
            },
            ActivePanel::ChatHistory => {
                load_selected_session(s);
                ChatEffect::Stay
            },
            ActivePanel::Settings => {
                if !s.editing_system_prompt {
                    s.editing_system_prompt = true;
                    s.system_prompt_buffer = s.system_prompt.clone();
                } else {
                    s.system_prompt = s.system_prompt_buffer.clone();
                    s.editing_system_prompt = false;
                    s.system_prompt_buffer = String::new();
                }
                ChatEffect::Stay
            },
        }
    } else if key_is(c, 'f') || key_is(c, 'F') {
        if history { toggle_session_favorite(s) } else { ChatEffect::Stay }
    } else if c == KeyCode::Delete {
        if history { delete_selected_session(s) } else { ChatEffect::Stay }
    } else if key_is(c, 'N') || (key.control && (key_is(c, 'n') || key_is(c, 'c'))) {
        ChatEffect::Stay
    } else if key.control && key_is(c, 's') {
        ChatEffect::SaveSession
    } else if key.control && key_is(c, 'r') {
        if s.active_panel == ActivePanel::CurrentChat {
            s.models = Vec::new();
            s.selected_model_index = 0;
            s.loading_models = true;
            s.error_message = Some(copy_str(" Refreshing models..."));
            ChatEffect::LoadModels
        } else {
            ChatEffect::RefreshSessions
        }
    } else {
        chat_move(key, s);
        ChatEffect::Stay
    }
}

/// The session saving the chat writes: the current session (`false`), or,
/// when there is none, a new session (`true`) with the chosen model, the
/// system prompt, the snippet of the chat when there is one, and the
/// conversation; nothing when there is no current session and no
/// conversation, or no model is chosen.
pub fn session_for_saving(s: &OllamaState) -> (r: Option<(ChatSession, bool)>)
    ensures
        match s.current_session {
            Some(c) => r matches Some((x, fresh)) && !fresh && same_session(x, c),
            None => if s.conversation@.len() > 0 && s.selected_model_index < s.models@.len() {
                &&& r matches Some((x, fresh))
                &&& fresh
                &&& x.model_name == s.models@[s.selected_model_index as int]
                &&& x.system_prompt == s.system_prompt
                &&& messages_view(x.conversation@) == messages_view(s.conversation@)
                &&& !x.is_favorited
                &&& x.tags@.len() == 0
                &&& match s.current_snippet {
                    Some(c) => (x.snippet_hash matches Some(h) && h@ == snippet_key(c@))
                        && (x.snippet_title matches Some(t) && t@ == "Current Snippet"@),
                    None => x.snippet_title is None && x.snippet_hash is None,
                }
            } else {
                r is None
            },
        },
{
    match &s.current_session {
        Some(c) => Some((copy_session(c), false)),
        None => {
            if s.conversation.len() == 0 || s.selected_model_index >= s.models.len() {
                return None;
            }
            let model = s.models[s.selected_model_index].clone();
            let mut session = ChatSession::new(model, s.system_prompt.clone());
            match &s.current_snippet {
                Some(c) => {
                    session = session.with_snippet(c.as_str(), copy_str("Current Snippet"));
                },
                None => {},
            }
            session.conversation = copy_messages(&s.conversation);
            Some((session, true))
        },
    }
}

/// The saved sessions after `x` was written: for a session that was the
/// current one, it replaces the first saved session with its id (or joins
/// the end); a new session joins the end.
pub open spec fn saved_after(saved: Seq<ChatSession>, x: ChatSession, fresh: bool) -> Seq<ChatSession> {
    let k = first_with_id(saved, x.id);
    if !fresh && k < saved.len() { saved.update(k, x) } else { saved.push(x) }
}

/// The position of the first session with id `id`, or the length.
pub open spec fn first_with_id(saved: Seq<ChatSession>, id: u128) -> int
    decreases saved.len(),
{
    if saved.len() == 0 {
        0
    } else if saved[0].id == id {
        0
    } else {
        1 + first_with_id(saved.drop_first(), id)
    }
}

impl OllamaState {
    /// Takes in a session that the caller wrote (see `session_for_saving`):
    /// the list of saved sessions shows it, and a new session becomes the
    /// current one.
    pub fn record_saved_session(&mut self, session: ChatSession, fresh: bool)
        ensures
            ({
                let saved = final(self).saved_sessions@;
                let want = saved_after(old(self).saved_sessions@, session, fresh);
                &&& saved.len() == want.len()
                &&& forall|i: int| 0 <= i < saved.len() ==> same_session(#[trigger] saved[i], want[i])
            }),
            fresh ==> (final(self).current_session matches Some(c) && same_session(c, session)),
            !fresh ==> final(self).current_session == old(self).current_session,
            *final(self) == (OllamaState {
                saved_sessions: final(self).saved_sessions,
                current_session: final(self).current_session,
                ..*old(self)
            }),
    {
        let ghost old_saved = self.saved_sessions@;
        let mut k: usize = 0;
        proof {
            assert(old_saved.subrange(0, old_saved.len() as int) =~= old_saved);
        }
        while k < self.saved_sessions.len() && self.saved_sessions[k].id != session.id
            invariant
                k <= self.saved_sessions@.len(),
                self.saved_sessions@ == old_saved,
                first_with_id(old_saved, session.id) == k + first_with_id(old_saved.subrange(k as int, old_saved.len() as int), session.id),
            decreases self.saved_sessions.len() - k,
        {
            proof {
                assert(old_saved.subrange(k as int, old_saved.len() as int).drop_first()
                    =~= old_saved.subrange(k + 1, old_saved.len() as int));
            }
            k = k + 1;
        }
        proof {
            if k < old_saved.len() {
                assert(old_saved.subrange(k as int, old_saved.len() as int)[0] == old_saved[k as int]);
            }
        }
        let ghost sv = session;
        let copy = copy_session(&session);
        if !fresh && k < self.saved_sessions.len() {
            self.saved_sessions.set(k, session);
        } else {
            self.saved_sessions.push(session);
        }
        if fresh {
            self.current_session = Some(copy);
        }
        proof {
            let saved = self.saved_sessions@;
            let want = saved_after(old_saved, sv, fresh);
            assert forall|i: int| 0 <= i < saved.len() implies same_session(#[trigger] saved[i], want[i]) by {
                assert(saved[i] == want[i]);
                assert(saved[i].conversation@ == want[i].conversation@);
                assert(saved[i].tags@ == want[i].tags@);
            }
        }
    }
}

} // verus!
