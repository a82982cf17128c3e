//! The state of the chat window: models, the conversation, saved
//! sessions and their filters, notifications and scrolling, and how
//! messages from the model server change it.
use vstd::prelude::*;
use crate::chat::{ChatRole, ExportFormat, ActivePanel, HistoryFilter, NotificationType, OllamaMessage, ChatMessage, ChatSession,
    snippet_key, snippet_key_of, estimated_height, capped, calculate_estimated_wrapped_height};
use crate::notebook::strings_view;
use crate::text::{copy_str, concat2, concat3, decimal, decimal_string, lowercase, to_lower, seq_contains, str_contains,
    str_eq, trim, all_whitespace, is_blank};

verus! {

/// A moment of the monotonic clock (`std::time::Instant`).
#[verifier::external_type_specification]
#[verifier::external_body]
pub struct ExInstant(std::time::Instant);

/// Calls `Instant::now`; nothing is stated of the moment it returns.
#[verifier::external_body]
fn instant_now() -> std::time::Instant {
    std::time::Instant::now()
}

/// Calls `Instant::elapsed` and `Duration::as_secs`: the whole seconds
/// since `t`. It depends on the clock, so nothing is stated of it.
#[verifier::external_body]
fn seconds_since(t: &std::time::Instant) -> u64 {
    t.elapsed().as_secs()
}

/// A short message shown for a few seconds.
#[derive(Debug)]
pub struct ToastNotification {
    pub message: String,
    pub notification_type: NotificationType,
    pub created_at: std::time::Instant,
    pub duration_seconds: u64,
}

impl ToastNotification {
    /// A notification shown from now on for `duration_seconds`.
    pub fn new(message: String, notification_type: NotificationType, duration_seconds: u64) -> (r: ToastNotification)
        ensures
            r.message == message,
            r.notification_type == notification_type,
            r.duration_seconds == duration_seconds,
    {
        ToastNotification { message, notification_type, created_at: instant_now(), duration_seconds }
    }

    /// Whether a notification shown `elapsed` seconds ago has run its time.
    pub fn is_expired_after(&self, elapsed: u64) -> (r: bool)
        ensures
            r == (elapsed >= self.duration_seconds),
    {
        elapsed >= self.duration_seconds
    }

    /// Whether the notification has run its time. One of no duration
    /// always has.
    pub fn is_expired(&self) -> (r: bool)
        ensures
            self.duration_seconds == 0 ==> r,
    {
        self.is_expired_after(seconds_since(&self.created_at))
    }
}

/// Where the chat sessions are kept.
#[derive(Debug)]
pub struct ChatStorage {
    pub storage_dir: String,
}

/// Counts over the saved sessions. `models` pairs each model name with
/// the number of sessions that use it, in the order the names first occur.
#[derive(Debug)]
pub struct StorageStats {
    pub total_sessions: usize,
    pub total_messages: usize,
    pub models: Vec<(String, usize)>,
    pub storage_size_bytes: u64,
}

/// The number of messages over all sessions.
pub open spec fn message_total(s: Seq<ChatSession>) -> nat
    decreases s.len(),
{
    if s.len() == 0 { 0 } else { message_total(s.drop_last()) + s.last().conversation@.len() }
}

/// The model names of sessions, taken as sequences.
pub open spec fn model_names(s: Seq<ChatSession>) -> Seq<Seq<char>> {
    s.map_values(|x: ChatSession| x.model_name@)
}

/// The distinct names of `names`, in the order they first occur, each
/// with its number of occurrences.
pub open spec fn name_counts(names: Seq<Seq<char>>) -> Seq<(Seq<char>, nat)>
    decreases names.len(),
{
    if names.len() == 0 {
        Seq::empty()
    } else {
        let p = name_counts(names.drop_last());
        let n = names.last();
        let k = count_pos(p, n);
        if k >= 0 { p.update(k, (n, p[k].1 + 1)) } else { p.push((n, 1nat)) }
    }
}

/// The position of the entry for `n`, or -1.
pub open spec fn count_pos(p: Seq<(Seq<char>, nat)>, n: Seq<char>) -> int
    decreases p.len(),
{
    if p.len() == 0 { -1 } else if p.last().0 == n { p.len() - 1 } else { count_pos(p.drop_last(), n) }
}

/// `count_pos` is -1 or a position holding the name.
proof fn lemma_count_pos(p: Seq<(Seq<char>, nat)>, n: Seq<char>)
    ensures
        -1 <= count_pos(p, n) < p.len(),
        count_pos(p, n) >= 0 ==> p[count_pos(p, n)].0 == n,
    decreases p.len(),
{
    if p.len() > 0 && p.last().0 != n {
        lemma_count_pos(p.drop_last(), n);
    }
}

/// The model counts taken as sequences and numbers.
pub open spec fn counts_view(v: Seq<(String, usize)>) -> Seq<(Seq<char>, nat)> {
    v.map_values(|p: (String, usize)| (p.0@, p.1 as nat))
}

impl ChatStorage {
    /// The statistics of the saved sessions `sessions`, which take
    /// `storage_size_bytes` bytes on disk.
    pub fn get_storage_stats(&self, sessions: &Vec<ChatSession>, storage_size_bytes: u64) -> (r: StorageStats)
        ensures
            r.total_sessions == sessions@.len(),
            r.total_messages == capped(message_total(sessions@)),
            counts_view(r.models@) == name_counts(model_names(sessions@)),
            r.storage_size_bytes == storage_size_bytes,
    {
        let mut total: u128 = 0;
        let mut models: Vec<(String, usize)> = Vec::new();
        let ghost names = model_names(sessions@);
        let mut i: usize = 0;
        while i < sessions.len()
            invariant
                i <= sessions.len(),
                names == model_names(sessions@),
                total == message_total(sessions@.subrange(0, i as int)),
                total <= i * 0x1_0000_0000_0000_0000u128,
                counts_view(models@) == name_counts(names.subrange(0, i as int)),
                forall|k: int| 0 <= k < models@.len() ==> models@[k].1 <= i,
            decreases sessions.len() - i,
        {
            proof {
                assert(sessions@.subrange(0, i + 1).drop_last() =~= sessions@.subrange(0, i as int));
                assert(names.subrange(0, i + 1).drop_last() =~= names.subrange(0, i as int));
                assert(names.subrange(0, i + 1).last() == sessions@[i as int].model_name@);
            }
            total = total + sessions[i].conversation.len() as u128;
            let ghost before = counts_view(models@);
            proof {
                lemma_count_pos(before, sessions@[i as int].model_name@);
            }
            let ghost nm = sessions@[i as int].model_name@;
            proof {
                assert(before.subrange(0, before.len() as int) =~= before);
            }
            let mut k: usize = models.len();
            let mut found = false;
            while k > 0 && !found
                invariant
                    k <= models.len(),
                    before == counts_view(models@),
                    nm == sessions@[i as int].model_name@,
                    i < sessions.len(),
                    found ==> k > 0 && count_pos(before, nm) == k - 1,
                    !found ==> count_pos(before, nm) == count_pos(before.subrange(0, k as int), nm),
                decreases k, if found { 0int } else { 1int },
            {
                proof {
                    assert(before.subrange(0, k as int).drop_last() =~= before.subrange(0, k - 1));
                    assert(before.subrange(0, k as int).last() == before[k - 1]);
                }
                if str_eq(models[k - 1].0.as_str(), sessions[i].model_name.as_str()) {
                    found = true;
                } else {
                    k = k - 1;
                }
            }
            proof {
                if !found {
                    assert(before.subrange(0, 0) =~= Seq::<(Seq<char>, nat)>::empty());
                }
            }
            if found {
                let idx = k - 1;
                let c = models[idx].1;
                let name = models[idx].0.clone();
                models.set(idx, (name, c + 1));
                proof {
                    assert(counts_view(models@) =~= before.update(idx as int, (sessions@[i as int].model_name@, before[idx as int].1 + 1)));
                }
            } else {
                models.push((sessions[i].model_name.clone(), 1));
                proof {
                    assert(counts_view(models@) =~= before.push((sessions@[i as int].model_name@, 1nat)));
                }
            }
            i = i + 1;
        }
        proof {
            assert(sessions@.subrange(0, sessions@.len() as int) =~= sessions@);
            assert(names.subrange(0, names.len() as int) =~= names);
        }
        StorageStats {
            total_sessions: sessions.len(),
            total_messages: if total > usize::MAX as u128 { usize::MAX } else { total as usize },
            models,
            storage_size_bytes,
        }
    }
}

/// The prompt a new chat starts with.
pub open spec fn default_system_prompt() -> Seq<char> {
    "You are a helpful AI assistant. When working with code snippets, provide clear explanations and suggestions for improvement."@
}

/// The state of the chat window.
#[derive(Debug)]
pub struct OllamaState {
    pub show_popup: bool,
    pub models: Vec<String>,
    pub selected_model_index: usize,
    pub loading_models: bool,
    pub error_message: Option<String>,
    pub conversation: Vec<ChatMessage>,
    pub input_buffer: String,
    pub is_sending: bool,
    pub current_snippet: Option<String>,
    pub scroll_position: usize,
    pub scroll_speed: usize,
    pub loading_animation_frame: usize,
    pub pending_response_id: Option<u64>,
    pub typing_indicator: String,
    pub active_panel: ActivePanel,
    pub system_prompt: String,
    pub system_prompt_buffer: String,
    pub editing_system_prompt: bool,
    pub chat_storage: Option<ChatStorage>,
    pub current_session: Option<ChatSession>,
    pub saved_sessions: Vec<ChatSession>,
    pub selected_session_index: usize,
    pub history_filter: HistoryFilter,
    pub search_query: String,
    pub auto_save_enabled: bool,
    pub toast_notifications: Vec<ToastNotification>,
}

/// The message, kind and duration of each notification.
pub open spec fn toasts_info(v: Seq<ToastNotification>) -> Seq<(Seq<char>, NotificationType, u64)> {
    v.map_values(|t: ToastNotification| (t.message@, t.notification_type, t.duration_seconds))
}

/// The notifications of `ts` that have run less than their duration,
/// `ages[i]` being how long the one at `i` has been shown, in order.
pub open spec fn toasts_kept(ts: Seq<ToastNotification>, ages: Seq<u64>) -> Seq<ToastNotification>
    decreases ts.len(),
{
    if ts.len() == 0 {
        Seq::empty()
    } else {
        toasts_kept(ts.drop_last(), ages) + if ages[ts.len() - 1] < ts.last().duration_seconds {
            seq![ts.last()]
        } else {
            Seq::empty()
        }
    }
}

/// Every notification kept has a duration.
proof fn lemma_toasts_kept_durations(ts: Seq<ToastNotification>, ages: Seq<u64>)
    ensures
        forall|i: int| 0 <= i < toasts_kept(ts, ages).len() ==> #[trigger] toasts_kept(ts, ages)[i].duration_seconds > 0,
    decreases ts.len(),
{
    if ts.len() > 0 {
        lemma_toasts_kept_durations(ts.drop_last(), ages);
        let k = toasts_kept(ts.drop_last(), ages);
        assert forall|i: int| 0 <= i < toasts_kept(ts, ages).len() implies #[trigger] toasts_kept(ts, ages)[i].duration_seconds > 0 by {
            if i < k.len() {
                assert(toasts_kept(ts, ages)[i] == k[i]);
            }
        }
    }
}

/// The sessions `r` points at.
pub open spec fn derefs(r: Seq<&ChatSession>) -> Seq<ChatSession> {
    r.map_values(|x: &ChatSession| *x)
}

/// `sorted` (newest first) with `x` put after every session at least as new.
pub open spec fn insert_by_time(sorted: Seq<ChatSession>, x: ChatSession) -> Seq<ChatSession>
    decreases sorted.len(),
{
    if sorted.len() == 0 {
        seq![x]
    } else if sorted.last().updated_at >= x.updated_at {
        sorted.push(x)
    } else {
        insert_by_time(sorted.drop_last(), x).push(sorted.last())
    }
}

/// The sessions newest first; sessions of one time keep their order (as a
/// stable sort).
pub open spec fn newest_first(s: Seq<ChatSession>) -> Seq<ChatSession>
    decreases s.len(),
{
    if s.len() == 0 { Seq::empty() } else { insert_by_time(newest_first(s.drop_last()), s.last()) }
}

/// Holds of every session.
pub open spec fn any_session() -> spec_fn(ChatSession) -> bool {
    |s: ChatSession| true
}

/// Holds of a favorite session.
pub open spec fn is_favorite_session() -> spec_fn(ChatSession) -> bool {
    |s: ChatSession| s.is_favorited
}

/// Holds of a session about the snippet with hash `h`.
pub open spec fn about_snippet(h: Seq<char>) -> spec_fn(ChatSession) -> bool {
    |s: ChatSession| s.snippet_hash matches Some(x) && x@ == h
}

/// Some message of the conversation contains `q` in lower case.
pub open spec fn some_message_has(c: Seq<ChatMessage>, q: Seq<char>) -> bool {
    exists|i: int| 0 <= i < c.len() && seq_contains(lowercase(#[trigger] c[i].content@), q)
}

/// Holds of a session whose title, model or some message contains `q` in
/// lower case.
pub open spec fn session_matches(q: Seq<char>) -> spec_fn(ChatSession) -> bool {
    |s: ChatSession| seq_contains(lowercase(s.title@), q) || seq_contains(lowercase(s.model_name@), q)
        || some_message_has(s.conversation@, q)
}

/// The sessions the history shows under the state's filter.
pub open spec fn filtered_sessions(st: OllamaState) -> Seq<ChatSession> {
    let s = st.saved_sessions@;
    match st.history_filter {
        HistoryFilter::All => s,
        HistoryFilter::Recent => {
            let n = newest_first(s);
            if n.len() > 10 { n.subrange(0, 10) } else { n }
        },
        HistoryFilter::Favorites => s.filter(is_favorite_session()),
        HistoryFilter::CurrentSnippet => match st.current_snippet {
            Some(c) => s.filter(about_snippet(snippet_key(c@))),
            None => Seq::empty(),
        },
        HistoryFilter::Search => if st.search_query@.len() == 0 {
            s
        } else {
            s.filter(session_matches(lowercase(st.search_query@)))
        },
    }
}

/// The sessions of `s` for which `p` holds, in order, as references.
fn select_sessions<'a>(s: &'a Vec<ChatSession>, p: Ghost<spec_fn(ChatSession) -> bool>, keep: &Vec<bool>) -> (r: Vec<&'a ChatSession>)
    requires
        keep@.len() == s@.len(),
        forall|i: int| 0 <= i < s@.len() ==> keep@[i] == (p@)(#[trigger] s@[i]),
    ensures
        derefs(r@) == s@.filter(p@),
{
    let mut r: Vec<&'a ChatSession> = Vec::new();
    let mut i: usize = 0;
    while i < s.len()
        invariant
            i <= s.len(),
            keep@.len() == s@.len(),
            forall|j: int| 0 <= j < s@.len() ==> keep@[j] == (p@)(#[trigger] s@[j]),
            derefs(r@) == s@.subrange(0, i as int).filter(p@),
        decreases s.len() - i,
    {
        proof {
            reveal_with_fuel(Seq::filter, 1);
            assert(s@.subrange(0, i + 1).drop_last() =~= s@.subrange(0, i as int));
        }
        if keep[i] {
            let ghost before = derefs(r@);
            r.push(&s[i]);
            proof {
                assert(derefs(r@) =~= before.push(s@[i as int]));
            }
        }
        i = i + 1;
    }
    proof {
        assert(s@.subrange(0, s@.len() as int) =~= s@);
    }
    r
}

/// Whether some message of a conversation contains the lower-case `q`.
fn any_message_has(c: &Vec<ChatMessage>, q: &str) -> (r: bool)
    ensures
        r == some_message_has(c@, q@),
{
    let mut i: usize = 0;
    while i < c.len()
        invariant
            i <= c.len(),
            forall|j: int| 0 <= j < i ==> !seq_contains(lowercase(#[trigger] c@[j].content@), q@),
        decreases c.len() - i,
    {
        let l = to_lower(c[i].content.as_str());
        if str_contains(l.as_str(), q) {
            return true;
        }
        i = i + 1;
    }
    false
}

impl OllamaState {
    /// The state the chat window opens with (no storage attached yet).
    pub fn new() -> (r: OllamaState)
        ensures
            !r.show_popup,
            r.models@.len() == 0,
            r.selected_model_index == 0,
            !r.loading_models,
            r.error_message is None,
            r.conversation@.len() == 0,
            r.input_buffer@.len() == 0,
            !r.is_sending,
            r.current_snippet is None,
            r.scroll_position == 0,
            r.scroll_speed == 3,
            r.loading_animation_frame == 0,
            r.pending_response_id is None,
            r.typing_indicator@.len() == 0,
            r.active_panel == ActivePanel::CurrentChat,
            r.system_prompt@ == default_system_prompt(),
            r.system_prompt_buffer@.len() == 0,
            !r.editing_system_prompt,
            r.chat_storage is None,
            r.current_session is None,
            r.saved_sessions@.len() == 0,
            r.selected_session_index == 0,
            r.history_filter == HistoryFilter::All,
            r.search_query@.len() == 0,
            r.auto_save_enabled,
            r.toast_notifications@.len() == 0,
    {
        OllamaState {
            show_popup: false,
            models: Vec::new(),
            selected_model_index: 0,
            loading_models: false,
            error_message: None,
            conversation: Vec::new(),
            input_buffer: String::new(),
            is_sending: false,
            current_snippet: None,
            scroll_position: 0,
            scroll_speed: 3,
            loading_animation_frame: 0,
            pending_response_id: None,
            typing_indicator: String::new(),
            active_panel: ActivePanel::CurrentChat,
            system_prompt: copy_str("You are a helpful AI assistant. When working with code snippets, provide clear explanations and suggestions for improvement."),
            system_prompt_buffer: String::new(),
            editing_system_prompt: false,
            chat_storage: None,
            current_session: None,
            saved_sessions: Vec::new(),
            selected_session_index: 0,
            history_filter: HistoryFilter::All,
            search_query: String::new(),
            auto_save_enabled: true,
            toast_notifications: Vec::new(),
        }
    }

    /// Appends a message and scrolls to the bottom.
    pub fn add_message(&mut self, role: ChatRole, content: String)
        ensures
            final(self).conversation@ == old(self).conversation@.push(ChatMessage { role, content }),
            final(self).scroll_position == 999999,
            *final(self) == (OllamaState {
                conversation: final(self).conversation,
                scroll_position: 999999,
                ..*old(self)
            }),
    {
        self.conversation.push(ChatMessage { role, content });
        self.scroll_position = 999999;
    }

    /// The selected model, when the selection is on one.
    pub fn get_selected_model(&self) -> (r: Option<&String>)
        ensures
            r == if self.selected_model_index < self.models@.len() {
                Some(&self.models@[self.selected_model_index as int])
            } else {
                None
            },
    {
        if self.models.len() == 0 || self.selected_model_index >= self.models.len() {
            None
        } else {
            Some(&self.models[self.selected_model_index])
        }
    }

    /// Shows a notification, keeping the last five.
    pub fn add_toast(&mut self, message: String, notification_type: NotificationType, duration_seconds: u64)
        ensures
            ({
                let all = toasts_info(old(self).toast_notifications@).push((message@, notification_type, duration_seconds));
                toasts_info(final(self).toast_notifications@) == if all.len() > 5 { all.drop_first() } else { all }
            }),
            *final(self) == (OllamaState { toast_notifications: final(self).toast_notifications, ..*old(self) }),
    {
        let ghost m = message@;
        let toast = ToastNotification::new(message, notification_type, duration_seconds);
        let ghost before = toasts_info(self.toast_notifications@);
        self.toast_notifications.push(toast);
        proof {
            assert(toasts_info(self.toast_notifications@) =~= before.push((m, notification_type, duration_seconds)));
        }
        if self.toast_notifications.len() > 5 {
            let ghost full = toasts_info(self.toast_notifications@);
            self.toast_notifications.remove(0);
            proof {
                assert(toasts_info(self.toast_notifications@) =~= full.drop_first());
            }
        }
    }

    /// Shows a success notification for five seconds.
    pub fn add_success_toast(&mut self, message: String)
        ensures
            ({
                let all = toasts_info(old(self).toast_notifications@).push((message@, NotificationType::Success, 5u64));
                toasts_info(final(self).toast_notifications@) == if all.len() > 5 { all.drop_first() } else { all }
            }),
            *final(self) == (OllamaState { toast_notifications: final(self).toast_notifications, ..*old(self) }),
    {
        self.add_toast(message, NotificationType::Success, 5);
    }

    /// Shows an error notification for eight seconds.
    pub fn add_error_toast(&mut self, message: String)
        ensures
            ({
                let all = toasts_info(old(self).toast_notifications@).push((message@, NotificationType::Error, 8u64));
                toasts_info(final(self).toast_notifications@) == if all.len() > 5 { all.drop_first() } else { all }
            }),
            *final(self) == (OllamaState { toast_notifications: final(self).toast_notifications, ..*old(self) }),
    {
        self.add_toast(message, NotificationType::Error, 8);
    }

    /// Shows an information notification for five seconds.
    pub fn add_info_toast(&mut self, message: String)
        ensures
            ({
                let all = toasts_info(old(self).toast_notifications@).push((message@, NotificationType::Info, 5u64));
                toasts_info(final(self).toast_notifications@) == if all.len() > 5 { all.drop_first() } else { all }
            }),
            *final(self) == (OllamaState { toast_notifications: final(self).toast_notifications, ..*old(self) }),
    {
        self.add_toast(message, NotificationType::Info, 5);
    }

    /// The whole seconds each notification has been shown, in order. They
    /// are read from the clock.
    pub fn toast_ages(&self) -> (r: Vec<u64>)
        ensures
            r@.len() == self.toast_notifications@.len(),
    {
        let mut ages: Vec<u64> = Vec::new();
        let mut i: usize = 0;
        while i < self.toast_notifications.len()
            invariant
                i <= self.toast_notifications@.len(),
                ages@.len() == i,
            decreases self.toast_notifications.len() - i,
        {
            ages.push(seconds_since(&self.toast_notifications[i].created_at));
            i = i + 1;
        }
        ages
    }

    /// Drops the notifications that have run their time, given how long
    /// each has been shown (`ages`, in the order of the notifications).
    pub fn drop_expired_toasts(&mut self, ages: &Vec<u64>)
        requires
            ages@.len() == old(self).toast_notifications@.len(),
        ensures
            final(self).toast_notifications@ == toasts_kept(old(self).toast_notifications@, ages@),
            *final(self) == (OllamaState { toast_notifications: final(self).toast_notifications, ..*old(self) }),
    {
        let mut taken: Vec<ToastNotification> = Vec::new();
        std::mem::swap(&mut taken, &mut self.toast_notifications);
        let ghost all = taken@;
        let ghost n = all.len();
        assert(taken@.len() == taken.len());
        let mut kept: Vec<ToastNotification> = Vec::new();
        let mut i: usize = 0;
        proof {
            assert(all.subrange(0, 0) =~= Seq::<ToastNotification>::empty());
            assert(all.subrange(0, n as int) =~= all);
        }
        while taken.len() > 0
            invariant
                0 <= i <= n,
                n == all.len(),
                n <= usize::MAX,
                ages@.len() == n,
                taken@ == all.subrange(i as int, n as int),
                kept@ == toasts_kept(all.subrange(0, i as int), ages@),
            decreases taken.len(),
        {
            let t = taken.remove(0);
            proof {
                assert(all[i as int] == t);
                let pre = all.subrange(0, i + 1);
                assert(pre.drop_last() =~= all.subrange(0, i as int));
                assert(pre.last() == t);
            }
            if ages[i] < t.duration_seconds {
                kept.push(t);
            }
            proof {
                assert(taken@ =~= all.subrange(i + 1, n as int));
            }
            i = i + 1;
        }
        self.toast_notifications = kept;
    }

    /// Drops the notifications that have run their time: those shown for at
    /// least their duration, as the clock gives it. Those kept keep their
    /// order; one of no duration is never kept.
    pub fn clean_expired_toasts(&mut self)
        ensures
            exists|ages: Seq<u64>| ages.len() == old(self).toast_notifications@.len()
                && final(self).toast_notifications@ == #[trigger] toasts_kept(old(self).toast_notifications@, ages),
            forall|i: int| 0 <= i < final(self).toast_notifications@.len()
                ==> #[trigger] final(self).toast_notifications@[i].duration_seconds > 0,
            *final(self) == (OllamaState { toast_notifications: final(self).toast_notifications, ..*old(self) }),
    {
        let ages = self.toast_ages();
        proof {
            lemma_toasts_kept_durations(self.toast_notifications@, ages@);
        }
        self.drop_expired_toasts(&ages);
    }

    /// The saved sessions the history shows (see `filtered_sessions`).
    pub fn get_filtered_sessions(&self) -> (r: Vec<&ChatSession>)
        ensures
            derefs(r@) == filtered_sessions(*self),
    {
        let s = &self.saved_sessions;
        match self.history_filter {
            HistoryFilter::All => {
                let keep = all_true(s.len());
                let r = select_sessions(s, Ghost(any_session()), &keep);
                proof {
                    lemma_filter_all(s@, any_session());
                }
                r
            },
            HistoryFilter::Recent => self.newest_sessions(),
            HistoryFilter::Favorites => {
                let mut keep: Vec<bool> = Vec::new();
                let mut i: usize = 0;
                while i < s.len()
                    invariant
                        i <= s.len(),
                        keep@.len() == i,
                        forall|j: int| 0 <= j < i ==> keep@[j] == (is_favorite_session())(#[trigger] s@[j]),
                    decreases s.len() - i,
                {
                    keep.push(s[i].is_favorited);
                    i = i + 1;
                }
                select_sessions(s, Ghost(is_favorite_session()), &keep)
            },
            HistoryFilter::CurrentSnippet => match &self.current_snippet {
                Some(c) => {
                    let h = snippet_key_of(c.as_str());
                    let mut keep: Vec<bool> = Vec::new();
                    let mut i: usize = 0;
                    while i < s.len()
                        invariant
                            i <= s.len(),
                            keep@.len() == i,
                            forall|j: int| 0 <= j < i ==> keep@[j] == (about_snippet(h@))(#[trigger] s@[j]),
                        decreases s.len() - i,
                    {
                        let k = match &s[i].snippet_hash {
                            Some(x) => str_eq(x.as_str(), h.as_str()),
                            None => false,
                        };
                        keep.push(k);
                        i = i + 1;
                    }
                    select_sessions(s, Ghost(about_snippet(h@)), &keep)
                },
                None => Vec::new(),
            },
            HistoryFilter::Search => {
                if self.search_query.as_str().is_empty() {
                    let keep = all_true(s.len());
                    let r = select_sessions(s, Ghost(any_session()), &keep);
                    proof {
                        lemma_filter_all(s@, any_session());
                    }
                    r
                } else {
                    let q = to_lower(self.search_query.as_str());
                    let mut keep: Vec<bool> = Vec::new();
                    let mut i: usize = 0;
                    while i < s.len()
                        invariant
                            i <= s.len(),
                            keep@.len() == i,
                            q@ == lowercase(self.search_query@),
                            forall|j: int| 0 <= j < i ==> keep@[j] == (session_matches(q@))(#[trigger] s@[j]),
                        decreases s.len() - i,
                    {
                        let t = to_lower(s[i].title.as_str());
                        let m = to_lower(s[i].model_name.as_str());
                        let k = str_contains(t.as_str(), q.as_str()) || str_contains(m.as_str(), q.as_str())
                            || any_message_has(&s[i].conversation, q.as_str());
                        keep.push(k);
                        i = i + 1;
                    }
                    select_sessions(s, Ghost(session_matches(q@)), &keep)
                }
            },
        }
    }

    /// The ten newest saved sessions, newest first.
    fn newest_sessions(&self) -> (r: Vec<&ChatSession>)
        ensures
            derefs(r@) == {
                let n = newest_first(self.saved_sessions@);
                if n.len() > 10 { n.subrange(0, 10) } else { n }
            },
    {
        let s = &self.saved_sessions;
        let mut out: Vec<&ChatSession> = Vec::new();
        let mut i: usize = 0;
        while i < s.len()
            invariant
                i <= s.len(),
                derefs(out@) == newest_first(s@.subrange(0, i as int)),
                out@.len() == i,
            decreases s.len() - i,
        {
            proof {
                assert(s@.subrange(0, i + 1).drop_last() =~= s@.subrange(0, i as int));
                assert(s@.subrange(0, i + 1).last() == s@[i as int]);
            }
            let x = &s[i];
            let ghost sorted = derefs(out@);
            proof {
                assert(sorted.len() == out@.len());
                assert(sorted.subrange(0, sorted.len() as int) =~= sorted);
                assert(insert_by_time(sorted, *x) + sorted.subrange(sorted.len() as int, sorted.len() as int) =~= insert_by_time(sorted, *x));
            }
            let mut p: usize = out.len();
            while p > 0 && out[p - 1].updated_at < x.updated_at
                invariant
                    p <= out@.len(),
                    sorted == derefs(out@),
                    *x == s@[i as int],
                    insert_by_time(sorted, *x) == insert_by_time(sorted.subrange(0, p as int), *x) + sorted.subrange(p as int, sorted.len() as int),
                decreases p,
            {
                proof {
                    let a = sorted.subrange(0, p as int);
                    assert(a.drop_last() =~= sorted.subrange(0, p - 1));
                    assert(a.last() == sorted[p - 1]);
                    assert(insert_by_time(a, *x) == insert_by_time(a.drop_last(), *x).push(a.last()));
                    assert(insert_by_time(a.drop_last(), *x).push(a.last()) + sorted.subrange(p as int, sorted.len() as int)
                        =~= insert_by_time(sorted.subrange(0, p - 1), *x) + sorted.subrange(p - 1, sorted.len() as int));
                }
                p = p - 1;
            }
            proof {
                let a = sorted.subrange(0, p as int);
                if p > 0 {
                    assert(a.last() == sorted[p - 1]);
                }
                assert(insert_by_time(sorted, *x) =~= sorted.insert(p as int, *x));
            }
            out.insert(p, x);
            proof {
                assert(derefs(out@) =~= sorted.insert(p as int, *x));
            }
            i = i + 1;
        }
        proof {
            assert(s@.subrange(0, s@.len() as int) =~= s@);
        }
        if out.len() > 10 {
            out.truncate(10);
            proof {
                assert(derefs(out@) =~= newest_first(s@).subrange(0, 10));
            }
        }
        out
    }
}

/// A list of `n` trues.
fn all_true(n: usize) -> (r: Vec<bool>)
    ensures
        r@.len() == n,
        forall|i: int| 0 <= i < n ==> r@[i],
{
    let mut r: Vec<bool> = Vec::new();
    while r.len() < n
        invariant
            r@.len() <= n,
            forall|i: int| 0 <= i < r@.len() ==> r@[i],
        decreases n - r@.len(),
    {
        r.push(true);
    }
    r
}

/// A filter that keeps everything keeps the sequence.
proof fn lemma_filter_all(s: Seq<ChatSession>, p: spec_fn(ChatSession) -> bool)
    requires
        forall|x: ChatSession| #[trigger] p(x),
    ensures
        s.filter(p) == s,
    decreases s.len(),
{
    reveal_with_fuel(Seq::filter, 1);
    if s.len() > 0 {
        lemma_filter_all(s.drop_last(), p);
        assert(s.drop_last().push(s.last()) =~= s);
    } else {
        assert(s.filter(p) =~= s);
    }
}

/// The role and text of each message.
pub open spec fn messages_view(c: Seq<ChatMessage>) -> Seq<(ChatRole, Seq<char>)> {
    c.map_values(|m: ChatMessage| (m.role, m.content@))
}

/// A conversation after a piece of the model's answer arrives: it is
/// added to the last message when that is the assistant's, else it starts
/// a new assistant message.
pub open spec fn with_chunk(c: Seq<(ChatRole, Seq<char>)>, chunk: Seq<char>) -> Seq<(ChatRole, Seq<char>)> {
    if c.len() > 0 && c.last().0 == ChatRole::Assistant {
        c.update(c.len() - 1, (ChatRole::Assistant, c.last().1 + chunk))
    } else {
        c.push((ChatRole::Assistant, chunk))
    }
}

/// The text shown when the server has no models.
pub open spec fn no_models_text() -> Seq<char> {
    "\u{f0159} No models found!\n\nTo fix this:\n1. Install Ollama from https://ollama.ai\n2. Run 'ollama serve' in terminal\n3. Install a model: 'ollama pull llama2'\n4. Restart this application"@
}

/// What the caller is asked to write to the session storage after a reply ends.
#[derive(Debug, Clone, Copy, PartialEq, Eq, Structural)]
pub enum SessionSave {
    /// The current session changed.
    Current,
    /// A new session was made for the conversation.
    New,
}

/// The scroll step: the scroll speed, at least one.
pub open spec fn scroll_step(speed: usize) -> nat {
    if speed >= 1 { speed as nat } else { 1 }
}

/// The fast scroll step: five times the scroll speed, at least five.
pub open spec fn fast_scroll_step(speed: usize) -> nat {
    if 5 * speed >= 5 { (5 * speed) as nat } else { 5 }
}

/// The total height the messages take in the chat (each message's
/// estimated height at 60 columns, plus five), plus four while a reply is
/// awaited.
pub open spec fn chat_height(c: Seq<ChatMessage>) -> nat
    decreases c.len(),
{
    if c.len() == 0 {
        0
    } else {
        chat_height(c.drop_last()) + (capped(estimated_height(c.last().content@, 60)) as nat) + 5
    }
}

/// How far the chat can scroll: nothing when empty; the height beyond
/// twelve rows (at most 1000); else one row when there are several messages.
pub open spec fn max_scroll(st: OllamaState) -> nat {
    let c = st.conversation@;
    let total = chat_height(c) + if st.is_sending { 4nat } else { 0nat };
    if c.len() == 0 {
        0
    } else if total > 12 {
        if total - 12 < 1000 { (total - 12) as nat } else { 1000 }
    } else if c.len() > 1 {
        1
    } else {
        0
    }
}

/// A conversation is at least as high as any of its beginnings.
proof fn lemma_chat_height_grows(c: Seq<ChatMessage>, i: int)
    requires
        0 <= i <= c.len(),
    ensures
        chat_height(c.subrange(0, i)) <= chat_height(c),
    decreases c.len() - i,
{
    if i < c.len() {
        lemma_chat_height_grows(c, i + 1);
        let p = c.subrange(0, i + 1);
        assert(p.drop_last() =~= c.subrange(0, i));
    } else {
        assert(c.subrange(0, i) =~= c);
    }
}

/// How far the chat can scroll (see `max_scroll`).
pub fn calculate_max_scroll_position(ollama_state: &OllamaState) -> (r: usize)
    ensures
        r == max_scroll(*ollama_state),
{
    let c = &ollama_state.conversation;
    if c.len() == 0 {
        return 0;
    }
    let mut total: u128 = 0;
    let mut i: usize = 0;
    while i < c.len()
        invariant
            i <= c.len(),
            total == chat_height(c@.subrange(0, i as int)),
            total <= 1012,
            c@ == ollama_state.conversation@,
        decreases c.len() - i,
    {
        proof {
            assert(c@.subrange(0, i + 1).drop_last() =~= c@.subrange(0, i as int));
            assert(c@.subrange(0, i + 1).last() == c@[i as int]);
        }
        let h = calculate_estimated_wrapped_height(c[i].content.as_str(), 60);
        if (h as u128) + 5 > 1012 - total {
            proof {
                lemma_chat_height_grows(c@, i + 1);
                assert(chat_height(c@.subrange(0, i + 1)) == total + h + 5);
                assert(chat_height(c@) > 1012);

            }
            return 1000;
        }
        total = total + (h as u128) + 5;
        i = i + 1;
    }
    proof {
        assert(c@.subrange(0, c@.len() as int) =~= c@);
    }
    if ollama_state.is_sending {
        total = total + 4;
    }
    if total > 12 {
        if total - 12 < 1000 { (total - 12) as usize } else { 1000 }
    } else if c.len() > 1 {
        1
    } else {
        0
    }
}

/// Scrolls the chat up by one step (not above the top).
pub fn scroll_chat_up(ollama_state: &mut OllamaState)
    ensures
        final(ollama_state).scroll_position == if old(ollama_state).scroll_position >= scroll_step(old(ollama_state).scroll_speed) {
            (old(ollama_state).scroll_position - scroll_step(old(ollama_state).scroll_speed)) as usize
        } else {
            0
        },
        *final(ollama_state) == (OllamaState { scroll_position: final(ollama_state).scroll_position, ..*old(ollama_state) }),
{
    let step = if ollama_state.scroll_speed >= 1 { ollama_state.scroll_speed } else { 1 };
    ollama_state.scroll_position = if ollama_state.scroll_position >= step { ollama_state.scroll_position - step } else { 0 };
}

/// Scrolls the chat down by one step, not past `max_scroll` nor row 2000.
pub fn scroll_chat_down(ollama_state: &mut OllamaState)
    requires
        old(ollama_state).scroll_position + scroll_step(old(ollama_state).scroll_speed) <= usize::MAX,
    ensures
        ({
            let a = old(ollama_state).scroll_position + scroll_step(old(ollama_state).scroll_speed);
            let m = max_scroll(*old(ollama_state));
            let b = if a < m { a } else { m as int };
            final(ollama_state).scroll_position == if b < 2000 { b } else { 2000 }
        }),
        *final(ollama_state) == (OllamaState { scroll_position: final(ollama_state).scroll_position, ..*old(ollama_state) }),
{
    let max = calculate_max_scroll_position(ollama_state);
    let step = if ollama_state.scroll_speed >= 1 { ollama_state.scroll_speed } else { 1 };
    let a = ollama_state.scroll_position + step;
    let b = if a < max { a } else { max };
    ollama_state.scroll_position = if b < 2000 { b } else { 2000 };
}

/// Scrolls the chat up by a fast step (not above the top).
pub fn fast_scroll_chat_up(ollama_state: &mut OllamaState)
    requires
        5 * old(ollama_state).scroll_speed <= usize::MAX,
    ensures
        final(ollama_state).scroll_position == if old(ollama_state).scroll_position >= fast_scroll_step(old(ollama_state).scroll_speed) {
            (old(ollama_state).scroll_position - fast_scroll_step(old(ollama_state).scroll_speed)) as usize
        } else {
            0
        },
        *final(ollama_state) == (OllamaState { scroll_position: final(ollama_state).scroll_position, ..*old(ollama_state) }),
{
    let f = ollama_state.scroll_speed * 5;
    let step = if f >= 5 { f } else { 5 };
    ollama_state.scroll_position = if ollama_state.scroll_position >= step { ollama_state.scroll_position - step } else { 0 };
}

/// Scrolls the chat down by a fast step, not past `max_scroll` nor row 2000.
pub fn fast_scroll_chat_down(ollama_state: &mut OllamaState)
    requires
        5 * old(ollama_state).scroll_speed <= usize::MAX,
        old(ollama_state).scroll_position + fast_scroll_step(old(ollama_state).scroll_speed) <= usize::MAX,
    ensures
        ({
            let a = old(ollama_state).scroll_position + fast_scroll_step(old(ollama_state).scroll_speed);
            let m = max_scroll(*old(ollama_state));
            let b = if a < m { a } else { m as int };
            final(ollama_state).scroll_position == if b < 2000 { b } else { 2000 }
        }),
        *final(ollama_state) == (OllamaState { scroll_position: final(ollama_state).scroll_position, ..*old(ollama_state) }),
{
    let max = calculate_max_scroll_position(ollama_state);
    let f = ollama_state.scroll_speed * 5;
    let step = if f >= 5 { f } else { 5 };
    let a = ollama_state.scroll_position + step;
    let b = if a < max { a } else { max };
    ollama_state.scroll_position = if b < 2000 { b } else { 2000 };
}

/// Adds a piece of the model's answer to a conversation (see `with_chunk`).
fn push_chunk(c: &mut Vec<ChatMessage>, chunk: &str)
    ensures
        messages_view(final(c)@) == with_chunk(messages_view(old(c)@), chunk@),
{
    let n = c.len();
    let ghost before = messages_view(c@);
    if n > 0 && c[n - 1].role == ChatRole::Assistant {
        let joined = concat2(c[n - 1].content.as_str(), chunk);
        c[n - 1].content = joined;
        proof {
            assert(messages_view(c@) =~= with_chunk(before, chunk@));
        }
    } else {
        c.push(ChatMessage { role: ChatRole::Assistant, content: copy_str(chunk) });
        proof {
            assert(messages_view(c@) =~= with_chunk(before, chunk@));
        }
    }
}

impl OllamaState {
    /// Moves the loading animation on while a reply or the model list is
    /// awaited, and drops expired notifications.
    pub fn tick(&mut self)
        ensures
            final(self).loading_animation_frame == if old(self).is_sending || old(self).loading_models {
                if old(self).loading_animation_frame < usize::MAX { (old(self).loading_animation_frame + 1) as usize } else { 0 }
            } else {
                old(self).loading_animation_frame
            },
            exists|ages: Seq<u64>| ages.len() == old(self).toast_notifications@.len()
                && final(self).toast_notifications@ == #[trigger] toasts_kept(old(self).toast_notifications@, ages),
            *final(self) == (OllamaState {
                loading_animation_frame: final(self).loading_animation_frame,
                toast_notifications: final(self).toast_notifications,
                ..*old(self)
            }),
    {
        if self.is_sending || self.loading_models {
            self.loading_animation_frame = if self.loading_animation_frame < usize::MAX { self.loading_animation_frame + 1 } else { 0 };
        }
        self.clean_expired_toasts();
    }

    /// Empties the conversation (and that of the current session) and
    /// scrolls to the top.
    pub fn clear_conversation(&mut self)
        ensures
            final(self).conversation@.len() == 0,
            final(self).scroll_position == 0,
            match old(self).current_session {
                Some(s) => final(self).current_session matches Some(t) && t.conversation@.len() == 0
                    && t == (ChatSession { conversation: t.conversation, ..s }),
                None => final(self).current_session is None,
            },
            *final(self) == (OllamaState {
                conversation: final(self).conversation,
                scroll_position: 0,
                current_session: final(self).current_session,
                ..*old(self)
            }),
    {
        self.conversation = Vec::new();
        self.scroll_position = 0;
        match &mut self.current_session {
            Some(s) => {
                s.conversation = Vec::new();
            },
            None => {},
        }
    }
}

/// A copy of a conversation.
fn copy_messages(c: &Vec<ChatMessage>) -> (r: Vec<ChatMessage>)
    ensures
        messages_view(r@) == messages_view(c@),
{
    let mut r: Vec<ChatMessage> = Vec::new();
    let mut i: usize = 0;
    while i < c.len()
        invariant
            i <= c.len(),
            messages_view(r@) == messages_view(c@.subrange(0, i as int)),
        decreases c.len() - i,
    {
        let ghost before = messages_view(r@);
        let content = c[i].content.clone();
        let ghost cv = content@;
        r.push(ChatMessage { role: c[i].role, content });
        proof {
            assert(cv == c@[i as int].content@);
            assert(messages_view(r@) =~= before.push((c@[i as int].role, cv)));
            assert(messages_view(c@.subrange(0, i + 1)) =~= messages_view(c@.subrange(0, i as int)).push((c@[i as int].role, c@[i as int].content@)));
        }
        i = i + 1;
    }
    proof {
        assert(c@.subrange(0, c@.len() as int) =~= c@);
    }
    r
}

/// The notification shown when the models arrive.
pub open spec fn models_loaded_text(n: nat, model: Seq<char>) -> Seq<char> {
    "Loaded "@ + decimal(n) + " models! Selected: "@ + model + ". Models visible in sidebar."@
}

/// `b` is `a` after the list of models `models` arrived, with result `r`.
pub open spec fn after_models(a: OllamaState, b: OllamaState, models: Vec<String>, r: Option<SessionSave>) -> bool {
        &&& r is None
        &&& !b.loading_models
        &&& models@.len() == 0 ==> {
            &&& b.error_message matches Some(e) && e@ == no_models_text()
            &&& b == (OllamaState { loading_models: false, error_message: b.error_message, ..a })
        }
        &&& models@.len() > 0 ==> {
            let sel = if a.selected_model_index >= models@.len() { 0 } else { a.selected_model_index };
            let all = toasts_info(a.toast_notifications@).push((
                models_loaded_text(models@.len(), models@[sel as int]@), NotificationType::Success, 5u64));
            &&& b.models@ == models@
            &&& b.selected_model_index == sel
            &&& toasts_info(b.toast_notifications@) == if all.len() > 5 { all.drop_first() } else { all }
            &&& b == (OllamaState {
                    loading_models: false,
                    models: b.models,
                    selected_model_index: sel,
                    toast_notifications: b.toast_notifications,
                    ..a
                })
        }
}

/// `b` is `a` after a piece `content` of reply `request_id` arrived (`done` when it is the last), with result `r`.
pub open spec fn after_chunk(a: OllamaState, b: OllamaState, request_id: u64, content: String, done: bool, r: Option<SessionSave>) -> bool {
        if a.pending_response_id != Some(request_id) || (trim(content@).len() == 0 && !done) {
            r is None && b == a
        } else {
            let grow = content@.len() > 0;
            let convo = if grow { with_chunk(messages_view(a.conversation@), content@) } else { messages_view(a.conversation@) };
            &&& messages_view(b.conversation@) == convo
            &&& b.scroll_position == 999999
            &&& !done ==> {
                &&& r is None
                &&& match a.current_session {
                    Some(s) => b.current_session matches Some(t) && {
                        &&& t == (ChatSession { conversation: t.conversation, updated_at: t.updated_at, ..s })
                        &&& messages_view(t.conversation@) == if grow { with_chunk(messages_view(s.conversation@), content@) } else { messages_view(s.conversation@) }
                    },
                    None => b.current_session is None,
                }
                &&& b == (OllamaState {
                        conversation: b.conversation,
                        current_session: b.current_session,
                        scroll_position: 999999,
                        ..a
                    })
            }
            &&& done ==> {
                &&& !b.is_sending
                &&& b.pending_response_id is None
                &&& b.typing_indicator@.len() == 0
                &&& match a.current_session {
                    Some(s) => {
                        &&& b.current_session matches Some(t) && {
                            &&& t == (ChatSession { conversation: t.conversation, updated_at: t.updated_at, ..s })
                            &&& messages_view(t.conversation@) == if grow { with_chunk(messages_view(s.conversation@), content@) } else { messages_view(s.conversation@) }
                        }
                        &&& r == if a.auto_save_enabled && a.chat_storage is Some { Some(SessionSave::Current) } else { None }
                    },
                    None => if a.auto_save_enabled && a.selected_model_index < a.models@.len() {
                        &&& b.current_session matches Some(t) && {
                            &&& t.model_name == a.models@[a.selected_model_index as int]
                            &&& t.system_prompt == a.system_prompt
                            &&& messages_view(t.conversation@) == convo
                            &&& !t.is_favorited
                            &&& t.tags@.len() == 0
                            &&& match a.current_snippet {
                                Some(c) => {
                                    &&& (t.snippet_hash matches Some(h) && h@ == snippet_key(c@))
                                    &&& (t.snippet_title matches Some(st) && st@ == "Current Snippet"@)
                                    &&& t.title@ == "Chat about Current Snippet"@
                                },
                                None => t.snippet_hash is None && t.snippet_title is None
                                    && t.title@ == "Chat with "@ + a.models@[a.selected_model_index as int]@,
                            }
                        }
                        &&& r == if a.chat_storage is Some { Some(SessionSave::New) } else { None }
                    } else {
                        r is None && b.current_session is None
                    },
                }
                &&& b == (OllamaState {
                        conversation: b.conversation,
                        current_session: b.current_session,
                        scroll_position: 999999,
                        is_sending: false,
                        pending_response_id: None,
                        typing_indicator: b.typing_indicator,
                        ..a
                    })
            }
        }
}

/// `b` is `a` after an error `message` for request `request_id` arrived, with result `r`.
pub open spec fn after_error(a: OllamaState, b: OllamaState, request_id: u64, message: String, r: Option<SessionSave>) -> bool {
        &&& r is None
        &&& if a.pending_response_id == Some(request_id) || request_id == 0 {
            &&& messages_view(b.conversation@) == if request_id != 0 {
                    messages_view(a.conversation@).push((ChatRole::System, "\u{f0159} Error: "@ + message@))
                } else {
                    messages_view(a.conversation@)
                }
            &&& !b.is_sending
            &&& b.pending_response_id is None
            &&& b.typing_indicator@.len() == 0
            &&& b.error_message == Some(message)
            &&& b.scroll_position == 999999
            &&& b == (OllamaState {
                    conversation: b.conversation,
                    is_sending: false,
                    pending_response_id: None,
                    typing_indicator: b.typing_indicator,
                    error_message: Some(message),
                    scroll_position: 999999,
                    ..a
                })
        } else {
            b == a
        }
}

impl OllamaState {
    /// Takes in the list of models (see `after_models`).
    fn take_models(&mut self, models: Vec<String>) -> (r: Option<SessionSave>)
        ensures
            after_models(*old(self), *final(self), models, r),
    {
        self.loading_models = false;
        if models.len() == 0 {
            self.error_message = Some(copy_str("\u{f0159} No models found!\n\nTo fix this:\n1. Install Ollama from https://ollama.ai\n2. Run 'ollama serve' in terminal\n3. Install a model: 'ollama pull llama2'\n4. Restart this application"));
        } else {
            let ghost mv = models;
            self.models = models;
            if self.selected_model_index >= self.models.len() {
                self.selected_model_index = 0;
            }
            let n = decimal_string(self.models.len());
            let a = concat3("Loaded ", n.as_str(), " models! Selected: ");
            let b = concat3(a.as_str(), self.models[self.selected_model_index].as_str(), ". Models visible in sidebar.");
            proof {
                assert(self.models == mv);
                assert(b@ == models_loaded_text(mv@.len(), mv@[self.selected_model_index as int]@));
            }
            self.add_success_toast(b);
        }
        None
    }

    /// Takes in a piece of the awaited reply (see `after_chunk`).
    fn take_chunk(&mut self, request_id: u64, content: String, done: bool) -> (r: Option<SessionSave>)
        ensures
            after_chunk(*old(self), *final(self), request_id, content, done, r),
    {
        let matches = match self.pending_response_id {
            Some(p) => p == request_id,
            None => false,
        };
        if !matches || (is_blank(content.as_str()) && !done) {
            return None;
        }
        if !content.as_str().is_empty() {
            push_chunk(&mut self.conversation, content.as_str());
            match &mut self.current_session {
                Some(s) => {
                    let k = s.conversation.len();
                    if k > 0 && s.conversation[k - 1].role == ChatRole::Assistant {
                        push_chunk(&mut s.conversation, content.as_str());
                    } else {
                        let ghost before = messages_view(s.conversation@);
                        s.add_message(ChatRole::Assistant, copy_str(content.as_str()));
                        proof {
                            assert(messages_view(s.conversation@) =~= with_chunk(before, content@));
                        }
                    }
                },
                None => {},
            }
        }
        let mut save: Option<SessionSave> = None;
        if done {
            self.is_sending = false;
            self.pending_response_id = None;
            self.typing_indicator = String::new();
            if self.auto_save_enabled {
                if self.current_session.is_some() {
                    if self.chat_storage.is_some() {
                        save = Some(SessionSave::Current);
                    }
                } else if self.selected_model_index < self.models.len() {
                    let model = self.models[self.selected_model_index].clone();
                    let mut session = ChatSession::new(model, self.system_prompt.clone());
                    match &self.current_snippet {
                        Some(c) => {
                            session = session.with_snippet(c.as_str(), copy_str("Current Snippet"));
                            proof {
                                reveal_strlit("Chat about ");
                                reveal_strlit("Current Snippet");
                                reveal_strlit("Chat about Current Snippet");
                                assert("Chat about "@ + "Current Snippet"@ =~= "Chat about Current Snippet"@);
                            }
                        },
                        None => {},
                    }
                    session.conversation = copy_messages(&self.conversation);
                    if self.chat_storage.is_some() {
                        save = Some(SessionSave::New);
                    }
                    self.current_session = Some(session);
                }
            }
        }
        self.scroll_position = 999999;
        save
    }

    /// Takes in an error (see `after_error`).
    fn take_error(&mut self, request_id: u64, message: String) -> (r: Option<SessionSave>)
        ensures
            after_error(*old(self), *final(self), request_id, message, r),
    {
        let matches = match self.pending_response_id {
            Some(p) => p == request_id,
            None => false,
        };
        if matches || request_id == 0 {
            if request_id != 0 {
                let text = concat2("\u{f0159} Error: ", message.as_str());
                let ghost tv = text@;
                let ghost before = messages_view(self.conversation@);
                self.conversation.push(ChatMessage { role: ChatRole::System, content: text });
                proof {
                    assert(messages_view(self.conversation@) =~= before.push((ChatRole::System, tv)));
                }
            }
            self.is_sending = false;
            self.pending_response_id = None;
            self.typing_indicator = String::new();
            self.error_message = Some(message);
            self.scroll_position = 999999;
        }
        None
    }

    /// Takes in one message from the work that talks to the model server:
    /// the list of models, a piece of the awaited reply, or an error. When
    /// a reply ends and sessions are saved automatically, returns which
    /// session the caller should write to storage.
    pub fn apply_message(&mut self, message: OllamaMessage) -> (r: Option<SessionSave>)
        ensures
            match message {
                OllamaMessage::ModelsLoaded { models } => after_models(*old(self), *final(self), models, r),
                OllamaMessage::ResponseChunk { request_id, content, done } => after_chunk(*old(self), *final(self), request_id, content, done, r),
                OllamaMessage::Error { request_id, message } => after_error(*old(self), *final(self), request_id, message, r),
            },
    {
        match message {
            OllamaMessage::ModelsLoaded { models } => self.take_models(models),
            OllamaMessage::ResponseChunk { request_id, content, done } => self.take_chunk(request_id, content, done),
            OllamaMessage::Error { request_id, message } => self.take_error(request_id, message),
        }
    }
}

/// How a message's author is written in a Markdown export.
pub open spec fn role_heading(r: ChatRole) -> Seq<char> {
    match r {
        ChatRole::User => "\u{1f9d1} **User**"@,
        ChatRole::Assistant => "\u{1f916} **Assistant**"@,
        ChatRole::System => "\u{2699}\u{fe0f} **System**"@,
    }
}

/// The messages of a Markdown export: each author, its text, and a rule.
pub open spec fn messages_markdown(c: Seq<ChatMessage>) -> Seq<char>
    decreases c.len(),
{
    if c.len() == 0 {
        Seq::empty()
    } else {
        messages_markdown(c.drop_last()) + role_heading(c.last().role) + "\n\n"@ + c.last().content@ + "\n\n---\n\n"@
    }
}

/// A moment as `YYYY-MM-DD HH:MM:SS UTC` (empty when it cannot be shown).
pub open spec fn second_text(ms: i64) -> Seq<char> {
    match crate::ui_helpers::utc_format_text(ms, "%Y-%m-%d %H:%M:%S UTC"@) {
        Some(t) => t,
        None => Seq::empty(),
    }
}

/// A session written as Markdown: title, model, times, snippet, tags,
/// then each message.
pub open spec fn session_markdown(s: ChatSession) -> Seq<char> {
    "# "@ + s.title@ + "\n\n"@
        + "**Model:** "@ + s.model_name@ + "\n"@
        + "**Created:** "@ + second_text(s.created_at) + "\n"@
        + "**Updated:** "@ + second_text(s.updated_at) + "\n"@
        + match s.snippet_title {
            Some(t) => "**Code Snippet:** "@ + t@ + "\n"@,
            None => Seq::empty(),
        }
        + if s.tags@.len() > 0 { "**Tags:** "@ + crate::text::join(strings_view(s.tags@), ", "@) + "\n"@ } else { Seq::empty() }
        + "\n---\n\n"@
        + messages_markdown(s.conversation@)
}

/// A moment as `YYYY-MM-DD HH:MM:SS UTC` (see `second_text`).
fn second_string(ms: i64) -> (r: String)
    ensures
        r@ == second_text(ms),
{
    match crate::ui_helpers::utc_format(ms, "%Y-%m-%d %H:%M:%S UTC") {
        Some(t) => t,
        None => String::new(),
    }
}

impl ChatStorage {
    /// A session in the given format: the Markdown text for `Markdown`;
    /// for `Json`, none, as the JSON form is written by whoever holds the
    /// session's serialised form.
    pub fn export_session(&self, session: &ChatSession, format: ExportFormat) -> (r: Option<String>)
        ensures
            match format {
                ExportFormat::Markdown => r matches Some(t) && t@ == session_markdown(*session),
                ExportFormat::Json => r is None,
            },
    {
        match format {
            ExportFormat::Json => None,
            ExportFormat::Markdown => {
                let mut out = concat3("# ", session.title.as_str(), "\n\n");
                out.append("**Model:** ");
                out.append(session.model_name.as_str());
                out.append("\n");
                out.append("**Created:** ");
                let c = second_string(session.created_at);
                out.append(c.as_str());
                out.append("\n");
                out.append("**Updated:** ");
                let u = second_string(session.updated_at);
                out.append(u.as_str());
                out.append("\n");
                let ghost before_snippet = out@;
                match &session.snippet_title {
                    Some(t) => {
                        out.append("**Code Snippet:** ");
                        out.append(t.as_str());
                        out.append("\n");
                    },
                    None => {},
                }
                let ghost before_tags = out@;
                if session.tags.len() > 0 {
                    out.append("**Tags:** ");
                    let j = crate::text::join_strings(&session.tags, ", ");
                    proof {
                        assert(session.tags@.map_values(|p: String| p@) =~= strings_view(session.tags@));
                    }
                    out.append(j.as_str());
                    out.append("\n");
                }
                out.append("\n---\n\n");
                let ghost head = out@;
                let mut i: usize = 0;
                let c = &session.conversation;
                proof {
                    assert(c@.subrange(0, 0).len() == 0);
                    assert(head + Seq::<char>::empty() =~= head);
                }
                while i < c.len()
                    invariant
                        i <= c@.len(),
                        c == &session.conversation,
                        out@ == head + messages_markdown(c@.subrange(0, i as int)),
                    decreases c.len() - i,
                {
                    proof {
                        assert(c@.subrange(0, i + 1).drop_last() =~= c@.subrange(0, i as int));
                    }
                    let label = match c[i].role {
                        ChatRole::User => "\u{1f9d1} **User**",
                        ChatRole::Assistant => "\u{1f916} **Assistant**",
                        ChatRole::System => "\u{2699}\u{fe0f} **System**",
                    };
                    out.append(label);
                    out.append("\n\n");
                    out.append(c[i].content.as_str());
                    out.append("\n\n---\n\n");
                    proof {
                        assert(out@ =~= head + messages_markdown(c@.subrange(0, i + 1)));
                    }
                    i = i + 1;
                }
                proof {
                    assert(c@.subrange(0, c@.len() as int) =~= c@);
                    assert(out@ =~= session_markdown(*session));
                }
                Some(out)
            },
        }
    }
}

/// The sessions newest first, sessions of one time keeping their order
/// (as the stored sessions are listed).
pub fn sort_sessions(v: Vec<ChatSession>) -> (r: Vec<ChatSession>)
    ensures
        r@ == newest_first(v@),
{
    let ghost orig = v@;
    let mut rest = v;
    let mut out: Vec<ChatSession> = Vec::new();
    let mut k: usize = 0;
    proof {
        assert(orig.len() == rest.len());
        assert(orig.subrange(0, 0).len() == 0);
        assert(orig.subrange(0, orig.len() as int) =~= orig);
    }
    while rest.len() > 0
        invariant
            k + rest@.len() == orig.len(),
            orig.len() <= usize::MAX,
            rest@ == orig.subrange(k as int, orig.len() as int),
            out@ == newest_first(orig.subrange(0, k as int)),
        decreases rest.len(),
    {
        let x = rest.remove(0);
        proof {
            assert(x == orig[k as int]);
            assert(rest@ =~= orig.subrange(k + 1, orig.len() as int));
            assert(orig.subrange(0, k + 1).drop_last() =~= orig.subrange(0, k as int));
        }
        let ghost sorted = out@;
        let mut p: usize = out.len();
        proof {
            assert(sorted.subrange(0, sorted.len() as int) =~= sorted);
            assert(insert_by_time(sorted, x) + sorted.subrange(sorted.len() as int, sorted.len() as int)
                =~= insert_by_time(sorted, x));
        }
        while p > 0 && out[p - 1].updated_at < x.updated_at
            invariant
                p <= out@.len(),
                sorted == out@,
                insert_by_time(sorted, x) == insert_by_time(sorted.subrange(0, p as int), x)
                    + sorted.subrange(p as int, sorted.len() as int),
            decreases p,
        {
            proof {
                let a = sorted.subrange(0, p as int);
                assert(a.drop_last() =~= sorted.subrange(0, p - 1));
                assert(a.last() == sorted[p - 1]);
                assert(insert_by_time(a.drop_last(), x).push(a.last()) + sorted.subrange(p as int, sorted.len() as int)
                    =~= insert_by_time(sorted.subrange(0, p - 1), x) + sorted.subrange(p - 1, sorted.len() as int));
            }
            p = p - 1;
        }
        proof {
            let a = sorted.subrange(0, p as int);
            if p > 0 {
                assert(a.last() == sorted[p - 1]);
            }
            assert(insert_by_time(sorted, x) =~= sorted.insert(p as int, x));
        }
        out.insert(p, x);
        k = k + 1;
    }
    proof {
        assert(orig.subrange(0, k as int) =~= orig);
    }
    out
}

/// Each distinct name of `names`, in the order names first occur, with
/// how often it occurs (see `name_counts`).
pub fn count_names(names: &Vec<String>) -> (r: Vec<(String, usize)>)
    ensures
        counts_view(r@) == name_counts(strings_view(names@)),
{
    let ghost nv = strings_view(names@);
    let mut out: Vec<(String, usize)> = Vec::new();
    let mut i: usize = 0;
    proof {
        assert(counts_view(out@) =~= Seq::<(Seq<char>, nat)>::empty());
        assert(nv.subrange(0, 0) =~= Seq::<Seq<char>>::empty());
    }
    while i < names.len()
        invariant
            i <= names@.len(),
            nv == strings_view(names@),
            counts_view(out@) == name_counts(nv.subrange(0, i as int)),
            forall|k: int| 0 <= k < out@.len() ==> out@[k].1 <= i,
        decreases names.len() - i,
    {
        proof {
            assert(nv.subrange(0, i + 1).drop_last() =~= nv.subrange(0, i as int));
            assert(nv.subrange(0, i + 1).last() == names@[i as int]@);
        }
        let ghost before = counts_view(out@);
        let ghost nm = names@[i as int]@;
        proof {
            lemma_count_pos(before, nm);
            assert(before.subrange(0, before.len() as int) =~= before);
        }
        let mut k: usize = out.len();
        let mut found = false;
        while k > 0 && !found
            invariant
                k <= out.len(),
                before == counts_view(out@),
                nm == names@[i as int]@,
                i < names.len(),
                found ==> k > 0 && count_pos(before, nm) == k - 1,
                !found ==> count_pos(before, nm) == count_pos(before.subrange(0, k as int), nm),
            decreases k, if found { 0int } else { 1int },
        {
            proof {
                assert(before.subrange(0, k as int).drop_last() =~= before.subrange(0, k - 1));
                assert(before.subrange(0, k as int).last() == before[k - 1]);
            }
            if str_eq(out[k - 1].0.as_str(), names[i].as_str()) {
                found = true;
            } else {
                k = k - 1;
            }
        }
        proof {
            if !found {
                assert(before.subrange(0, 0) =~= Seq::<(Seq<char>, nat)>::empty());
            }
        }
        if found {
            let idx = k - 1;
            let c = out[idx].1;
            let name = copy_str(out[idx].0.as_str());
            out.set(idx, (name, c + 1));
            proof {
                assert(counts_view(out@) =~= before.update(idx as int, (nm, before[idx as int].1 + 1)));
            }
        } else {
            out.push((copy_str(names[i].as_str()), 1));
            proof {
                assert(counts_view(out@) =~= before.push((nm, 1nat)));
            }
        }
        i = i + 1;
    }
    proof {
        assert(nv.subrange(0, nv.len() as int) =~= nv);
    }
    out
}

} // verus!
