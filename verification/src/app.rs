//! Application state and the update function of the Elm architecture:
//! `update` takes an `Action` and changes the `App`; it performs no I/O.

use vstd::prelude::*;
use crate::action::{Action, StoreRequest, ToolCallConfirmation};
use crate::agent::config::{AgentConfig, AppConfig};
use crate::api::deepseek::{DeepSeekClient, DeepSeekConfig};
use crate::api::types::{Message, Usage};
use crate::text::{concat, join, join_prefix, is_cut_boundary, chars_of, starts_with, string_from_range, byte_prefix, cut_is_boundary, decimal, owned, push_all, push_byte_prefix, push_decimal, str_eq, trim, trimmed};
use crate::api::types::{is_api_form, is_plain_message, ApiMessage, Role, Tool, ToolCall, ToolFunction};
use crate::agent::config::is_api_tool;
use crate::persistence::db::{parse_usize, parse_usize_text};

verus! {

/// The area of the screen that receives keyboard input.
#[derive(Debug, Clone, Copy, PartialEq, Eq, Structural)]
pub enum Focus {
    ChatInput,
    Sidebar,
    MessageList,
    CommandPalette,
}

/// The state of a tool call, shown as a card in the conversation.
#[derive(Debug, Clone)]
pub enum ToolCallStatus {
    Pending,
    Running,
    Success { result: String },
    Failed { error: String },
}

/// The status recorded for key `k`: the last entry of `s` with that key.
pub open spec fn lookup(s: Seq<(String, ToolCallStatus)>, k: Seq<char>) -> Option<ToolCallStatus>
    decreases s.len(),
{
    if s.len() == 0 {
        None
    } else if s.last().0@ == k {
        Some(s.last().1)
    } else {
        lookup(s.drop_last(), k)
    }
}

/// No key occurs twice in `s`.
pub open spec fn keys_unique(s: Seq<(String, ToolCallStatus)>) -> bool {
    forall|i: int, j: int| 0 <= i < j < s.len() ==> s[i].0@ != s[j].0@
}

proof fn lemma_lookup_found(s: Seq<(String, ToolCallStatus)>, i: int)
    requires
        keys_unique(s),
        0 <= i < s.len(),
    ensures
        lookup(s, s[i].0@) == Some(s[i].1),
    decreases s.len(),
{
    if i < s.len() - 1 {
        assert(s.last().0@ != s[i].0@);
        assert(s.drop_last()[i] == s[i]);
        lemma_lookup_found(s.drop_last(), i);
    }
}

proof fn lemma_lookup_absent(s: Seq<(String, ToolCallStatus)>, k: Seq<char>)
    requires
        forall|i: int| 0 <= i < s.len() ==> s[i].0@ != k,
    ensures
        lookup(s, k) is None,
    decreases s.len(),
{
    if s.len() > 0 {
        assert(s.last() == s[s.len() - 1]);
        assert forall|i: int| 0 <= i < s.drop_last().len() implies s.drop_last()[i].0@ != k by {
            assert(s.drop_last()[i] == s[i]);
        }
        lemma_lookup_absent(s.drop_last(), k);
    }
}

/// The status of every tool call of a tab, by call identifier.
#[derive(Debug)]
pub struct ToolCallTable {
    entries: Vec<(String, ToolCallStatus)>,
}

impl View for ToolCallTable {
    type V = Map<Seq<char>, ToolCallStatus>;

    closed spec fn view(&self) -> Map<Seq<char>, ToolCallStatus> {
        Map::new(
            |k: Seq<char>| lookup(self.entries@, k) is Some,
            |k: Seq<char>| lookup(self.entries@, k)->0,
        )
    }
}

impl ToolCallTable {
    #[verifier::type_invariant]
    spec fn inv(self) -> bool {
        keys_unique(self.entries@)
    }

    /// An empty table.
    pub fn new() -> (t: ToolCallTable)
        ensures
            t@ == Map::<Seq<char>, ToolCallStatus>::empty(),
    {
        let t = ToolCallTable { entries: Vec::new() };
        assert(t@ =~= Map::<Seq<char>, ToolCallStatus>::empty());
        t
    }

    fn position(&self, key: &str) -> (r: Option<usize>)
        ensures
            match r {
                Some(i) => i < self.entries@.len() && self.entries@[i as int].0@ == key@,
                None => forall|i: int| 0 <= i < self.entries@.len() ==> self.entries@[i].0@ != key@,
            },
    {
        let n = self.entries.len();
        for i in 0..n
            invariant
                n == self.entries@.len(),
                forall|j: int| 0 <= j < i ==> self.entries@[j].0@ != key@,
        {
            if str_eq(self.entries[i].0.as_str(), key) {
                return Some(i);
            }
        }
        None
    }

    /// Whether a status is recorded for `key`.
    pub fn contains_key(&self, key: &str) -> (b: bool)
        ensures
            b == self@.contains_key(key@),
    {
        proof {
            use_type_invariant(self);
        }
        match self.position(key) {
            Some(i) => {
                proof {
                    lemma_lookup_found(self.entries@, i as int);
                }
                true
            },
            None => {
                proof {
                    lemma_lookup_absent(self.entries@, key@);
                }
                false
            },
        }
    }

    /// The status recorded for `key`, if any.
    pub fn get(&self, key: &str) -> (r: Option<&ToolCallStatus>)
        ensures
            match r {
                Some(v) => self@.contains_key(key@) && *v == self@[key@],
                None => !self@.contains_key(key@),
            },
    {
        proof {
            use_type_invariant(self);
        }
        match self.position(key) {
            Some(i) => {
                proof {
                    lemma_lookup_found(self.entries@, i as int);
                }
                Some(&self.entries[i].1)
            },
            None => {
                proof {
                    lemma_lookup_absent(self.entries@, key@);
                }
                None
            },
        }
    }

    /// Records `value` for `key`, replacing any earlier status of that key.
    pub fn insert(&mut self, key: String, value: ToolCallStatus)
        ensures
            final(self)@ == old(self)@.insert(key@, value),
    {
        proof {
            use_type_invariant(&*self);
        }
        let ghost old_entries = self.entries@;
        let ghost k = key@;
        let ghost v = value;
        match self.position(key.as_str()) {
            Some(i) => {
                let mut entries: Vec<(String, ToolCallStatus)> = Vec::new();
                std::mem::swap(&mut entries, &mut self.entries);
                entries.set(i, (key, value));
                let ghost new_entries = entries@;
                assert(new_entries =~= old_entries.update(i as int, new_entries[i as int]));
                assert(keys_unique(new_entries));
                proof {
                    assert forall|q: Seq<char>| lookup(new_entries, q) == (if q == k {
                        Some(v)
                    } else {
                        lookup(old_entries, q)
                    }) by {
                        if q == k {
                            lemma_lookup_found(new_entries, i as int);
                        } else if exists|j: int| 0 <= j < old_entries.len() && old_entries[j].0@ == q {
                            let j = choose|j: int| 0 <= j < old_entries.len() && old_entries[j].0@ == q;
                            assert(j != i);
                            assert(new_entries[j] == old_entries[j]);
                            lemma_lookup_found(new_entries, j);
                            lemma_lookup_found(old_entries, j);
                        } else {
                            assert forall|j: int| 0 <= j < new_entries.len() implies new_entries[j].0@ != q by {
                                if j != i {
                                    assert(new_entries[j] == old_entries[j]);
                                }
                            }
                            lemma_lookup_absent(new_entries, q);
                            lemma_lookup_absent(old_entries, q);
                        }
                    }
                }
                self.entries = entries;
            },
            None => {
                let mut entries: Vec<(String, ToolCallStatus)> = Vec::new();
                std::mem::swap(&mut entries, &mut self.entries);
                entries.push((key, value));
                let ghost new_entries = entries@;
                assert(new_entries.drop_last() =~= old_entries);
                assert(keys_unique(new_entries));
                self.entries = entries;
            },
        }
        assert(self@ =~= old(self)@.insert(k, v));
    }
}


/// One conversation tab.
#[derive(Debug)]
pub struct Tab {
    pub id: usize,
    pub title: String,
    pub messages: Vec<Message>,
    pub model: String,
    pub agent_name: String,
    pub total_usage: Usage,
    pub input_buffer: String,
    pub scroll_offset: usize,
    pub auto_scroll: bool,
    pub thinking_ticks: u64,
    pub pending_tool_calls: ToolCallTable,
}

/// `t` is a fresh tab with the given identifier, title, model and agent:
/// no messages, no usage, an empty input, scrolled to the bottom.
pub open spec fn is_new_tab(t: Tab, id: usize, title: Seq<char>, model: Seq<char>, agent: Seq<char>) -> bool {
    &&& t.id == id
    &&& t.title@ == title
    &&& t.messages@.len() == 0
    &&& t.model@ == model
    &&& t.agent_name@ == agent
    &&& t.total_usage == Usage { prompt_tokens: 0, completion_tokens: 0, total_tokens: 0 }
    &&& t.input_buffer@.len() == 0
    &&& t.scroll_offset == 0
    &&& t.auto_scroll
    &&& t.thinking_ticks == 0
    &&& t.pending_tool_calls@ == Map::<Seq<char>, ToolCallStatus>::empty()
}

impl Tab {
    /// A fresh tab.
    pub fn new(id: usize, title: &str, model: &str, agent_name: &str) -> (t: Tab)
        ensures
            is_new_tab(t, id, title@, model@, agent_name@),
    {
        Tab {
            id,
            title: owned(title),
            messages: Vec::new(),
            model: owned(model),
            agent_name: owned(agent_name),
            total_usage: Usage::zero(),
            input_buffer: String::new(),
            scroll_offset: 0,
            auto_scroll: true,
            thinking_ticks: 0,
            pending_tool_calls: ToolCallTable::new(),
        }
    }
}

/// The title of the `n`-th tab: "会话 n".
pub open spec fn tab_title(n: nat) -> Seq<char> {
    "会话 "@ + decimal(n)
}

fn make_tab_title(n: u64) -> (s: String)
    ensures
        s@ == tab_title(n as nat),
{
    let mut s = owned("会话 ");
    push_decimal(&mut s, n);
    s
}

/// The name of the first agent, or the empty text when there is none.
pub open spec fn first_agent_name(agents: Seq<AgentConfig>) -> Seq<char> {
    if agents.len() > 0 {
        agents[0].name@
    } else {
        Seq::empty()
    }
}

fn first_agent(agents: &Vec<AgentConfig>) -> (s: String)
    ensures
        s@ == first_agent_name(agents@),
{
    if agents.len() > 0 {
        agents[0].name.clone()
    } else {
        String::new()
    }
}

/// The whole application state.
pub struct App {
    pub tabs: Vec<Tab>,
    pub active_tab: usize,
    pub sidebar_visible: bool,
    pub command_palette_open: bool,
    pub command_palette_input: String,
    pub focus: Focus,
    pub agents: Vec<AgentConfig>,
    pub client: DeepSeekClient,
    pub theme: String,
    pub should_quit: bool,
    pub status_message: String,
    /// Tool calls waiting for the user's decision, oldest first.
    pub confirmations: Vec<ToolCallConfirmation>,
    /// A request to the conversation store, left for the caller.
    pub store_request: Option<StoreRequest>,
}

impl App {
    /// There is at least one tab, and the active index points at one.
    pub open spec fn wf(&self) -> bool {
        self.tabs@.len() > 0 && self.active_tab < self.tabs@.len()
    }

    /// The initial state: one tab "会话 1" with the configured model and the
    /// first agent, the sidebar shown, the palette closed, the input focused.
    pub fn new(agents: Vec<AgentConfig>, app_config: AppConfig) -> (app: App)
        ensures
            app.wf(),
            app.tabs@.len() == 1,
            app.active_tab == 0,
            is_new_tab(app.tabs@[0], 0, tab_title(1), app_config.default_model@, first_agent_name(agents@)),
            app.sidebar_visible,
            !app.command_palette_open,
            app.command_palette_input@.len() == 0,
            app.focus == Focus::ChatInput,
            app.agents@ == agents@,
            app.client.model_spec() == app_config.default_model@,
            app.client.api_key_spec() == app_config.api_key@,
            app.client.api_base_spec() == app_config.api_base@,
            app.theme@ == "default"@,
            !app.should_quit,
            app.status_message@.len() == 0,
            app.confirmations@.len() == 0,
            app.store_request is None,
    {
        let default_agent = first_agent(&agents);
        let title = make_tab_title(1);
        let first_tab = Tab::new(0, title.as_str(), app_config.default_model.as_str(), default_agent.as_str());
        let client = DeepSeekClient::new(
            DeepSeekConfig {
                api_base: app_config.api_base,
                api_key: app_config.api_key,
                model: app_config.default_model,
            },
        );
        let mut tabs: Vec<Tab> = Vec::new();
        tabs.push(first_tab);
        App {
            tabs,
            active_tab: 0,
            sidebar_visible: true,
            command_palette_open: false,
            command_palette_input: String::new(),
            focus: Focus::ChatInput,
            agents,
            client,
            theme: owned("default"),
            should_quit: false,
            status_message: String::new(),
            confirmations: Vec::new(),
            store_request: None,
        }
    }

    /// The active tab.
    pub fn active_tab(&self) -> (t: &Tab)
        requires
            self.wf(),
        ensures
            *t == self.tabs@[self.active_tab as int],
    {
        &self.tabs[self.active_tab]
    }

    /// The active tab, for modification; nothing else changes.
    pub fn active_tab_mut(&mut self) -> (t: &mut Tab)
        requires
            old(self).wf(),
        ensures
            *t == old(self).tabs@[old(self).active_tab as int],
            final(self).tabs@ == old(self).tabs@.update(old(self).active_tab as int, *final(t)),
            *final(self) == (App { tabs: final(self).tabs, ..*old(self) }),
    {
        let i = self.active_tab;
        &mut self.tabs[i]
    }
}


/// `x + 1`, wrapping to zero after the largest value.
pub open spec fn wrapping_inc(x: u64) -> u64 {
    if x == u64::MAX {
        0
    } else {
        (x + 1) as u64
    }
}

/// `post` is `pre` after a tick: the active tab's animation counter advances.
pub open spec fn tick_spec(pre: App, post: App) -> bool {
    let t = pre.active_tab as int;
    &&& post == (App { tabs: post.tabs, ..pre })
    &&& post.tabs@ == pre.tabs@.update(
        t,
        Tab { thinking_ticks: wrapping_inc(pre.tabs@[t].thinking_ticks), ..pre.tabs@[t] },
    )
}

fn do_tick(app: &mut App)
    requires
        old(app).wf(),
    ensures
        tick_spec(*old(app), *final(app)),
{
    let tab = app.active_tab_mut();
    tab.thinking_ticks = if tab.thinking_ticks == u64::MAX {
        0
    } else {
        tab.thinking_ticks + 1
    };
}

/// The status line after a message was sent: "已发送: " and at most the
/// first 40 bytes of the message.
pub open spec fn sent_status(content: Seq<char>) -> Seq<char> {
    "已发送: "@ + byte_prefix(content, 40)
}

/// `post` is `pre` after submitting `content`: its trimmed text, unless
/// empty, becomes a user message of the active tab, whose input is cleared.
pub open spec fn submit_spec(pre: App, content: Seq<char>, post: App, r: bool) -> bool {
    let c = trim(content);
    let t = pre.active_tab as int;
    let pt = pre.tabs@[t];
    let qt = post.tabs@[t];
    if c.len() == 0 {
        post == pre && !r
    } else {
        &&& r
        &&& post == (App { tabs: post.tabs, status_message: post.status_message, ..pre })
        &&& post.tabs@ == pre.tabs@.update(t, qt)
        &&& qt == (Tab { messages: qt.messages, input_buffer: qt.input_buffer, ..pt })
        &&& qt.messages@.len() == pt.messages@.len() + 1
        &&& qt.messages@.drop_last() == pt.messages@
        &&& is_plain_message(qt.messages@.last(), Role::User, c, None)
        &&& qt.input_buffer@.len() == 0
        &&& post.status_message@ == sent_status(c)
    }
}

fn do_submit(app: &mut App, content: String) -> (r: bool)
    requires
        old(app).wf(),
        cut_is_boundary(trim(content@), 40),
    ensures
        submit_spec(*old(app), content@, *final(app), r),
{
    let c = trimmed(content.as_str());
    if c.as_str().is_empty() {
        return false;
    }
    proof {
        assert(c@.len() > 0);
    }
    let user_msg = Message::user(c.as_str());
    let mut status = owned("已发送: ");
    push_byte_prefix(&mut status, c.as_str(), 40);
    let tab = app.active_tab_mut();
    let ghost before = tab.messages@;
    tab.messages.push(user_msg);
    tab.input_buffer = String::new();
    assert(tab.messages@.drop_last() =~= before);
    app.status_message = status;
    true
}

/// `post` is `pre` with tab `i` made active and the input focused, when `i`
/// names a tab; otherwise `pre` unchanged.
pub open spec fn switch_tab_spec(pre: App, i: usize, post: App) -> bool {
    if i < pre.tabs@.len() {
        post == (App { active_tab: i, focus: Focus::ChatInput, ..pre })
    } else {
        post == pre
    }
}

/// `post` is `pre` with one fresh tab appended and made active: its
/// identifier is the old tab count, its title "会话 n" counts from one, it
/// uses the client's model and the first agent.
pub open spec fn new_tab_spec(pre: App, post: App) -> bool {
    let n = pre.tabs@.len();
    &&& post == (App { tabs: post.tabs, active_tab: n as usize, ..pre })
    &&& post.tabs@.len() == n + 1
    &&& post.tabs@.drop_last() == pre.tabs@
    &&& is_new_tab(
        post.tabs@.last(),
        n as usize,
        tab_title(n + 1),
        pre.client.model_spec(),
        first_agent_name(pre.agents@),
    )
}

fn do_new_tab(app: &mut App)
    requires
        old(app).wf(),
        old(app).tabs@.len() < u64::MAX,
    ensures
        new_tab_spec(*old(app), *final(app)),
        final(app).wf(),
{
    let id = app.tabs.len();
    let title = make_tab_title(id as u64 + 1);
    let default_agent = first_agent(&app.agents);
    let tab = Tab::new(id, title.as_str(), app.client.model(), default_agent.as_str());
    let ghost before = app.tabs@;
    app.tabs.push(tab);
    assert(app.tabs@.drop_last() =~= before);
    app.active_tab = app.tabs.len() - 1;
}

/// `post` is `pre` with tab `i` removed, when `i` names a tab and another
/// remains; the active index moves to the last tab if it fell off the end.
/// Otherwise `pre` unchanged.
pub open spec fn close_tab_spec(pre: App, i: usize, post: App) -> bool {
    let n = pre.tabs@.len();
    if n > 1 && i < n {
        &&& post.tabs@ == pre.tabs@.remove(i as int)
        &&& post == (App {
            tabs: post.tabs,
            active_tab: if pre.active_tab >= n - 1 {
                (n - 2) as usize
            } else {
                pre.active_tab
            },
            ..pre
        })
    } else {
        post == pre
    }
}

fn do_close_tab(app: &mut App, index: usize)
    requires
        old(app).wf(),
    ensures
        close_tab_spec(*old(app), index, *final(app)),
        final(app).wf(),
{
    if app.tabs.len() > 1 && index < app.tabs.len() {
        app.tabs.remove(index);
        if app.active_tab >= app.tabs.len() {
            app.active_tab = app.tabs.len() - 1;
        }
    }
}

/// `post` is `pre` with the command palette opened or closed: its input is
/// cleared and the focus follows it.
pub open spec fn palette_toggle_spec(pre: App, post: App) -> bool {
    &&& post == (App {
        command_palette_open: !pre.command_palette_open,
        command_palette_input: post.command_palette_input,
        focus: if !pre.command_palette_open {
            Focus::CommandPalette
        } else {
            Focus::ChatInput
        },
        ..pre
    })
    &&& post.command_palette_input@.len() == 0
}

fn do_toggle_palette(app: &mut App)
    ensures
        palette_toggle_spec(*old(app), *final(app)),
{
    app.command_palette_open = !app.command_palette_open;
    app.command_palette_input = String::new();
    app.focus = if app.command_palette_open {
        Focus::CommandPalette
    } else {
        Focus::ChatInput
    };
}

/// `post` is `pre` scrolled one line up: the offset decreases and following
/// the newest message stops, unless the offset is already zero.
pub open spec fn scroll_up_spec(pre: App, post: App) -> bool {
    let t = pre.active_tab as int;
    let pt = pre.tabs@[t];
    if pt.scroll_offset > 0 {
        &&& post == (App { tabs: post.tabs, ..pre })
        &&& post.tabs@ == pre.tabs@.update(
            t,
            Tab { scroll_offset: (pt.scroll_offset - 1) as usize, auto_scroll: false, ..pt },
        )
    } else {
        post == pre
    }
}

fn do_scroll_up(app: &mut App)
    requires
        old(app).wf(),
    ensures
        scroll_up_spec(*old(app), *final(app)),
{
    if app.tabs[app.active_tab].scroll_offset > 0 {
        let tab = app.active_tab_mut();
        tab.scroll_offset = tab.scroll_offset - 1;
        tab.auto_scroll = false;
    }
}

/// `post` is `pre` scrolled one line down.
pub open spec fn scroll_down_spec(pre: App, post: App) -> bool {
    let t = pre.active_tab as int;
    let pt = pre.tabs@[t];
    &&& post == (App { tabs: post.tabs, ..pre })
    &&& post.tabs@ == pre.tabs@.update(t, Tab { scroll_offset: (pt.scroll_offset + 1) as usize, ..pt })
}

fn do_scroll_down(app: &mut App)
    requires
        old(app).wf(),
        old(app).tabs@[old(app).active_tab as int].scroll_offset < usize::MAX,
    ensures
        scroll_down_spec(*old(app), *final(app)),
{
    let tab = app.active_tab_mut();
    tab.scroll_offset = tab.scroll_offset + 1;
}

/// `post` is `pre` following the newest message again.
pub open spec fn auto_scroll_spec(pre: App, post: App) -> bool {
    let t = pre.active_tab as int;
    &&& post == (App { tabs: post.tabs, ..pre })
    &&& post.tabs@ == pre.tabs@.update(t, Tab { scroll_offset: 0, auto_scroll: true, ..pre.tabs@[t] })
}

fn do_auto_scroll(app: &mut App)
    requires
        old(app).wf(),
    ensures
        auto_scroll_spec(*old(app), *final(app)),
{
    let tab = app.active_tab_mut();
    tab.auto_scroll = true;
    tab.scroll_offset = 0;
}


/// The index of the first message of `s` at or after `i` with identifier
/// `id`, or -1 when there is none.
pub open spec fn find_from(s: Seq<Message>, id: u128, i: int) -> int
    decreases s.len() - i,
{
    if i < 0 || i >= s.len() {
        -1
    } else if s[i].id == id {
        i
    } else {
        find_from(s, id, i + 1)
    }
}

/// The index of the first message of `s` with identifier `id`, or -1.
pub open spec fn find_message(s: Seq<Message>, id: u128) -> int {
    find_from(s, id, 0)
}

/// What `find_from` returns: the first matching index, or -1 when no
/// message from `i` on matches.
pub proof fn lemma_find_from(s: Seq<Message>, id: u128, i: int)
    requires
        0 <= i,
    ensures
        -1 <= find_from(s, id, i) < s.len(),
        find_from(s, id, i) >= 0 ==> find_from(s, id, i) >= i && s[find_from(s, id, i)].id == id
            && forall|j: int| i <= j < find_from(s, id, i) ==> s[j].id != id,
        find_from(s, id, i) == -1 ==> forall|j: int| i <= j < s.len() ==> s[j].id != id,
    decreases s.len() - i,
{
    if i < s.len() && s[i].id != id {
        lemma_find_from(s, id, i + 1);
    }
}

fn find_message_index(msgs: &Vec<Message>, id: u128) -> (r: Option<usize>)
    ensures
        match r {
            Some(k) => k == find_message(msgs@, id) && k < msgs@.len(),
            None => find_message(msgs@, id) == -1,
        },
{
    let n = msgs.len();
    for i in 0..n
        invariant
            n == msgs@.len(),
            find_message(msgs@, id) == find_from(msgs@, id, i as int),
    {
        if msgs[i].id == id {
            return Some(i);
        }
    }
    None
}

/// `qt` is `pt` with the content of message `k` replaced by `content`.
pub open spec fn message_content_set(pt: Tab, qt: Tab, k: int, content: Seq<char>) -> bool {
    &&& 0 <= k < pt.messages@.len()
    &&& qt == (Tab { messages: qt.messages, ..pt })
    &&& qt.messages@ == pt.messages@.update(k, qt.messages@[k])
    &&& qt.messages@[k] == (Message { content: qt.messages@[k].content, ..pt.messages@[k] })
    &&& qt.messages@[k].content@ == content
}

/// `post` is `pre` with an empty assistant message `id` appended to tab
/// `tab_id`, when that tab exists.
pub open spec fn stream_start_spec(pre: App, tab_id: usize, id: u128, post: App) -> bool {
    if tab_id < pre.tabs@.len() {
        let pt = pre.tabs@[tab_id as int];
        let qt = post.tabs@[tab_id as int];
        let m = qt.messages@.last();
        &&& post == (App { tabs: post.tabs, ..pre })
        &&& post.tabs@ == pre.tabs@.update(tab_id as int, qt)
        &&& qt == (Tab { messages: qt.messages, ..pt })
        &&& qt.messages@.len() == pt.messages@.len() + 1
        &&& qt.messages@.drop_last() == pt.messages@
        &&& m.id == id
        &&& m.role == Role::Assistant
        &&& m.content@.len() == 0
        &&& m.tool_calls is None
        &&& m.tool_call_id is None
        &&& m.name is None
    } else {
        post == pre
    }
}

fn do_stream_start(app: &mut App, tab_id: usize, message_id: u128)
    requires
        old(app).wf(),
    ensures
        stream_start_spec(*old(app), tab_id, message_id, *final(app)),
{
    if tab_id < app.tabs.len() {
        let msg = Message {
            id: message_id,
            role: Role::Assistant,
            content: String::new(),
            tool_calls: None,
            tool_call_id: None,
            name: None,
        };
        let ghost before = app.tabs@[tab_id as int].messages@;
        app.tabs[tab_id].messages.push(msg);
        assert(app.tabs@[tab_id as int].messages@.drop_last() =~= before);
    }
}

/// `post` is `pre` with `chunk` appended to the first message `id` of tab
/// `tab_id`, when both exist.
pub open spec fn stream_chunk_spec(pre: App, tab_id: usize, id: u128, chunk: Seq<char>, post: App) -> bool {
    if tab_id < pre.tabs@.len() && find_message(pre.tabs@[tab_id as int].messages@, id) >= 0 {
        let pt = pre.tabs@[tab_id as int];
        let k = find_message(pt.messages@, id);
        &&& post == (App { tabs: post.tabs, ..pre })
        &&& post.tabs@ == pre.tabs@.update(tab_id as int, post.tabs@[tab_id as int])
        &&& message_content_set(pt, post.tabs@[tab_id as int], k, pt.messages@[k].content@ + chunk)
    } else {
        post == pre
    }
}

fn do_stream_chunk(app: &mut App, tab_id: usize, message_id: u128, chunk: String)
    requires
        old(app).wf(),
    ensures
        stream_chunk_spec(*old(app), tab_id, message_id, chunk@, *final(app)),
{
    if tab_id < app.tabs.len() {
        match find_message_index(&app.tabs[tab_id].messages, message_id) {
            Some(k) => {
                push_all(&mut app.tabs[tab_id].messages[k].content, chunk.as_str());
            },
            None => {},
        }
    }
}

/// The status line after a stream finished, before its cost:
/// "完成 - Token: {prompt}P + {completion}C".
pub open spec fn done_status(u: Usage) -> Seq<char> {
    "完成 - Token: "@ + decimal(u.prompt_tokens as nat) + "P + "@ + decimal(u.completion_tokens as nat)
        + "C"@
}

/// The text that replaces an empty answer.
pub open spec fn empty_answer() -> Seq<char> {
    "(空响应)"@
}

/// The usage totals of tab `tab_id` can absorb `u` without overflow.
pub open spec fn usage_fits(pre: App, tab_id: usize, u: Usage) -> bool {
    tab_id < pre.tabs@.len() ==> {
        let t = pre.tabs@[tab_id as int].total_usage;
        &&& t.prompt_tokens + u.prompt_tokens <= u64::MAX
        &&& t.completion_tokens + u.completion_tokens <= u64::MAX
        &&& t.total_tokens + u.total_tokens <= u64::MAX
    }
}

/// `u` added field by field to `t`.
pub open spec fn usage_sum(t: Usage, u: Usage) -> Usage {
    Usage {
        prompt_tokens: (t.prompt_tokens + u.prompt_tokens) as u64,
        completion_tokens: (t.completion_tokens + u.completion_tokens) as u64,
        total_tokens: (t.total_tokens + u.total_tokens) as u64,
    }
}

/// `post` is `pre` after a finished stream: tab `tab_id`, when it exists,
/// adds `u` to its totals, and message `id` in it, when found and still
/// empty, reads "(空响应)". The status line reports the token counts.
pub open spec fn stream_done_spec(pre: App, tab_id: usize, id: u128, u: Usage, post: App) -> bool {
    &&& post == (App { tabs: post.tabs, status_message: post.status_message, ..pre })
    &&& post.status_message@ == done_status(u)
    &&& if tab_id < pre.tabs@.len() {
        let pt = pre.tabs@[tab_id as int];
        let mid = Tab { total_usage: usage_sum(pt.total_usage, u), ..pt };
        let k = find_message(pt.messages@, id);
        let qt = post.tabs@[tab_id as int];
        &&& post.tabs@ == pre.tabs@.update(tab_id as int, qt)
        &&& if k >= 0 && pt.messages@[k].content@.len() == 0 {
            message_content_set(mid, qt, k, empty_answer())
        } else {
            qt == mid
        }
    } else {
        post.tabs == pre.tabs
    }
}

fn done_status_text(u: &Usage) -> (s: String)
    ensures
        s@ == done_status(*u),
{
    let mut s = owned("完成 - Token: ");
    push_decimal(&mut s, u.prompt_tokens);
    push_all(&mut s, "P + ");
    push_decimal(&mut s, u.completion_tokens);
    push_all(&mut s, "C");
    s
}

fn do_stream_done(app: &mut App, tab_id: usize, message_id: u128, usage: Usage)
    requires
        old(app).wf(),
        usage_fits(*old(app), tab_id, usage),
    ensures
        stream_done_spec(*old(app), tab_id, message_id, usage, *final(app)),
{
    let ghost pre = *app;
    if tab_id < app.tabs.len() {
        let t = app.tabs[tab_id].total_usage;
        app.tabs[tab_id].total_usage = Usage {
            prompt_tokens: t.prompt_tokens + usage.prompt_tokens,
            completion_tokens: t.completion_tokens + usage.completion_tokens,
            total_tokens: t.total_tokens + usage.total_tokens,
        };
        let ghost pt = pre.tabs@[tab_id as int];
        assert(app.tabs@[tab_id as int] == (Tab { total_usage: usage_sum(pt.total_usage, usage), ..pt }));
        assert(app.tabs@ == pre.tabs@.update(tab_id as int, app.tabs@[tab_id as int]));
        match find_message_index(&app.tabs[tab_id].messages, message_id) {
            Some(k) => {
                if app.tabs[tab_id].messages[k].content.as_str().is_empty() {
                    app.tabs[tab_id].messages[k].content = owned("(空响应)");
                    assert(app.tabs@ == pre.tabs@.update(tab_id as int, app.tabs@[tab_id as int]));
                }
            },
            None => {},
        }
    }
    app.status_message = done_status_text(&usage);
}

/// The text of a message that ended in an error.
pub open spec fn error_content(e: Seq<char>) -> Seq<char> {
    "**错误**: "@ + e
}

/// The status line after a stream error: "错误: " and at most the first 60
/// bytes of the error.
pub open spec fn error_status(e: Seq<char>) -> Seq<char> {
    "错误: "@ + byte_prefix(e, 60)
}

/// `post` is `pre` after a stream error: message `id` of tab `tab_id`, when
/// both exist, reads "**错误**: " and the error; the status line shows it.
pub open spec fn stream_error_spec(pre: App, tab_id: usize, id: u128, e: Seq<char>, post: App) -> bool {
    &&& post == (App { tabs: post.tabs, status_message: post.status_message, ..pre })
    &&& post.status_message@ == error_status(e)
    &&& if tab_id < pre.tabs@.len() && find_message(pre.tabs@[tab_id as int].messages@, id) >= 0 {
        let pt = pre.tabs@[tab_id as int];
        &&& post.tabs@ == pre.tabs@.update(tab_id as int, post.tabs@[tab_id as int])
        &&& message_content_set(pt, post.tabs@[tab_id as int], find_message(pt.messages@, id), error_content(e))
    } else {
        post.tabs == pre.tabs
    }
}

fn do_stream_error(app: &mut App, tab_id: usize, message_id: u128, error: String)
    requires
        old(app).wf(),
        cut_is_boundary(error@, 60),
    ensures
        stream_error_spec(*old(app), tab_id, message_id, error@, *final(app)),
{
    if tab_id < app.tabs.len() {
        match find_message_index(&app.tabs[tab_id].messages, message_id) {
            Some(k) => {
                let mut c = owned("**错误**: ");
                push_all(&mut c, error.as_str());
                app.tabs[tab_id].messages[k].content = c;
            },
            None => {},
        }
    }
    let mut status = owned("错误: ");
    push_byte_prefix(&mut status, error.as_str(), 60);
    app.status_message = status;
}


/// The tool calls of a message: none when it has no list.
pub open spec fn calls_of(m: Message) -> Seq<ToolCall> {
    match m.tool_calls {
        Some(v) => v@,
        None => Seq::empty(),
    }
}

/// `tc` is a function call with the given identifier, name and JSON text.
pub open spec fn is_function_call(tc: ToolCall, id: Seq<char>, name: Seq<char>, args: Seq<char>) -> bool {
    &&& tc.id@ == id
    &&& tc.call_type@ == "function"@
    &&& tc.function.name@ == name
    &&& tc.function.arguments@ == args
}

/// `post` is `pre` after the model requested a tool call: tab `tab_id`,
/// when it exists, records the call as pending, and its last message, when
/// it is the assistant's, lists the call after its earlier ones.
pub open spec fn tool_request_spec(
    pre: App,
    tab_id: usize,
    call_id: Seq<char>,
    name: Seq<char>,
    args: Seq<char>,
    post: App,
) -> bool {
    if tab_id < pre.tabs@.len() {
        let pt = pre.tabs@[tab_id as int];
        let qt = post.tabs@[tab_id as int];
        let n = pt.messages@.len();
        &&& post == (App { tabs: post.tabs, ..pre })
        &&& post.tabs@ == pre.tabs@.update(tab_id as int, qt)
        &&& qt == (Tab { messages: qt.messages, pending_tool_calls: qt.pending_tool_calls, ..pt })
        &&& qt.pending_tool_calls@ == pt.pending_tool_calls@.insert(call_id, ToolCallStatus::Pending)
        &&& if n > 0 && pt.messages@[n - 1].role == Role::Assistant {
            let m = pt.messages@[n - 1];
            let q = qt.messages@[n - 1];
            &&& qt.messages@ == pt.messages@.update(n - 1, q)
            &&& q == (Message { tool_calls: q.tool_calls, ..m })
            &&& q.tool_calls is Some
            &&& calls_of(q).len() == calls_of(m).len() + 1
            &&& calls_of(q).drop_last() == calls_of(m)
            &&& is_function_call(calls_of(q).last(), call_id, name, args)
        } else {
            qt.messages == pt.messages
        }
    } else {
        post == pre
    }
}

fn do_tool_request(app: &mut App, tab_id: usize, call_id: String, name: String, args: String)
    requires
        old(app).wf(),
    ensures
        tool_request_spec(*old(app), tab_id, call_id@, name@, args@, *final(app)),
{
    if tab_id < app.tabs.len() {
        let ghost pre = *app;
        let ghost k = call_id@;
        app.tabs[tab_id].pending_tool_calls.insert(call_id.clone(), ToolCallStatus::Pending);
        let ghost pt = pre.tabs@[tab_id as int];
        assert(app.tabs@[tab_id as int] == (Tab { pending_tool_calls: app.tabs@[tab_id as int].pending_tool_calls, ..pt }));
        assert(app.tabs@ == pre.tabs@.update(tab_id as int, app.tabs@[tab_id as int]));
        let tool_call = ToolCall {
            id: call_id,
            call_type: owned("function"),
            function: ToolFunction { name, arguments: args },
        };
        let n = app.tabs[tab_id].messages.len();
        if n > 0 && app.tabs[tab_id].messages[n - 1].role == Role::Assistant {
            let mut old_calls: Option<Vec<ToolCall>> = None;
            std::mem::swap(&mut old_calls, &mut app.tabs[tab_id].messages[n - 1].tool_calls);
            let mut calls = match old_calls {
                Some(v) => v,
                None => Vec::new(),
            };
            let ghost before = calls@;
            calls.push(tool_call);
            assert(calls@.drop_last() =~= before);
            app.tabs[tab_id].messages[n - 1].tool_calls = Some(calls);
            assert(app.tabs@ == pre.tabs@.update(tab_id as int, app.tabs@[tab_id as int]));
            assert(app.tabs@[tab_id as int].messages@ == pt.messages@.update(n - 1, app.tabs@[tab_id as int].messages@[n - 1]));
        }
    }
}

/// `post` is `pre` after a tool answered: tab `tab_id`, when it exists,
/// records the call's success with its result and appends a tool message
/// carrying the result for that call.
pub open spec fn tool_response_spec(pre: App, tab_id: usize, call_id: Seq<char>, result: String, post: App) -> bool {
    if tab_id < pre.tabs@.len() {
        let pt = pre.tabs@[tab_id as int];
        let qt = post.tabs@[tab_id as int];
        &&& post == (App { tabs: post.tabs, ..pre })
        &&& post.tabs@ == pre.tabs@.update(tab_id as int, qt)
        &&& qt == (Tab { messages: qt.messages, pending_tool_calls: qt.pending_tool_calls, ..pt })
        &&& qt.pending_tool_calls@ == pt.pending_tool_calls@.insert(
            call_id,
            ToolCallStatus::Success { result },
        )
        &&& qt.messages@.len() == pt.messages@.len() + 1
        &&& qt.messages@.drop_last() == pt.messages@
        &&& is_plain_message(qt.messages@.last(), Role::Tool, result@, Some(call_id))
    } else {
        post == pre
    }
}

fn do_tool_response(app: &mut App, tab_id: usize, call_id: String, result: String)
    requires
        old(app).wf(),
    ensures
        tool_response_spec(*old(app), tab_id, call_id@, result, *final(app)),
{
    if tab_id < app.tabs.len() {
        let ghost pre = *app;
        let ghost pt = pre.tabs@[tab_id as int];
        let tool_msg = Message::tool(call_id.as_str(), result.as_str());
        app.tabs[tab_id].pending_tool_calls.insert(call_id, ToolCallStatus::Success { result });
        let ghost before = app.tabs@[tab_id as int].messages@;
        app.tabs[tab_id].messages.push(tool_msg);
        assert(app.tabs@[tab_id as int].messages@.drop_last() =~= before);
        assert(app.tabs@[tab_id as int] == (Tab {
            messages: app.tabs@[tab_id as int].messages,
            pending_tool_calls: app.tabs@[tab_id as int].pending_tool_calls,
            ..pt
        }));
        assert(app.tabs@ == pre.tabs@.update(tab_id as int, app.tabs@[tab_id as int]));
    }
}

/// `post` is `pre` after the user confirmed call `call_id` of tab `tab_id`:
/// the call is running, when the tab exists.
pub open spec fn confirm_spec(pre: App, tab_id: usize, call_id: Seq<char>, post: App) -> bool {
    if tab_id < pre.tabs@.len() {
        let pt = pre.tabs@[tab_id as int];
        let qt = post.tabs@[tab_id as int];
        &&& post == (App { tabs: post.tabs, ..pre })
        &&& post.tabs@ == pre.tabs@.update(tab_id as int, qt)
        &&& qt == (Tab { pending_tool_calls: qt.pending_tool_calls, ..pt })
        &&& qt.pending_tool_calls@ == pt.pending_tool_calls@.insert(call_id, ToolCallStatus::Running)
    } else {
        post == pre
    }
}

fn do_confirm(app: &mut App, tab_id: usize, call_id: String)
    requires
        old(app).wf(),
    ensures
        confirm_spec(*old(app), tab_id, call_id@, *final(app)),
{
    if tab_id < app.tabs.len() {
        app.tabs[tab_id].pending_tool_calls.insert(call_id, ToolCallStatus::Running);
    }
}

/// `post` is `pre` with the client, and tab `tab_id` when it exists, using
/// `model`.
pub open spec fn model_spec(pre: App, tab_id: int, model: Seq<char>, post: App) -> bool {
    &&& post.client.model_spec() == model
    &&& post.client.api_key_spec() == pre.client.api_key_spec()
    &&& post.client.api_base_spec() == pre.client.api_base_spec()
    &&& if 0 <= tab_id < pre.tabs@.len() {
        let pt = pre.tabs@[tab_id];
        let qt = post.tabs@[tab_id];
        &&& post == (App { tabs: post.tabs, client: post.client, ..pre })
        &&& post.tabs@ == pre.tabs@.update(tab_id, qt)
        &&& qt == (Tab { model: qt.model, ..pt })
        &&& qt.model@ == model
    } else {
        post == (App { client: post.client, ..pre })
    }
}

fn do_set_model(app: &mut App, tab_id: usize, model: String)
    requires
        old(app).wf(),
    ensures
        model_spec(*old(app), tab_id as int, model@, *final(app)),
        final(app).wf(),
{
    if tab_id < app.tabs.len() {
        app.tabs[tab_id].model = model.clone();
    }
    app.client.set_model(model);
}

/// Some agent is called `name`.
pub open spec fn agent_exists(agents: Seq<AgentConfig>, name: Seq<char>) -> bool {
    exists|j: int| 0 <= j < agents.len() && #[trigger] agents[j].name@ == name
}

fn has_agent(agents: &Vec<AgentConfig>, name: &str) -> (b: bool)
    ensures
        b == agent_exists(agents@, name@),
{
    let n = agents.len();
    for i in 0..n
        invariant
            n == agents@.len(),
            forall|j: int| 0 <= j < i ==> agents@[j].name@ != name@,
    {
        if str_eq(agents[i].name.as_str(), name) {
            return true;
        }
    }
    false
}

/// `post` is `pre` with tab `tab_id` working with agent `name`, and the
/// status line `prefix` followed by the name, when the tab and an agent of
/// that name exist; otherwise `pre` unchanged.
pub open spec fn agent_spec(pre: App, tab_id: int, name: Seq<char>, prefix: Seq<char>, post: App) -> bool {
    if 0 <= tab_id < pre.tabs@.len() && agent_exists(pre.agents@, name) {
        let pt = pre.tabs@[tab_id];
        let qt = post.tabs@[tab_id];
        &&& post == (App { tabs: post.tabs, status_message: post.status_message, ..pre })
        &&& post.tabs@ == pre.tabs@.update(tab_id, qt)
        &&& qt == (Tab { agent_name: qt.agent_name, ..pt })
        &&& qt.agent_name@ == name
        &&& post.status_message@ == prefix + name
    } else {
        post == pre
    }
}

fn do_set_agent(app: &mut App, tab_id: usize, name: &str, prefix: &str)
    requires
        old(app).wf(),
    ensures
        agent_spec(*old(app), tab_id as int, name@, prefix@, *final(app)),
        final(app).wf(),
{
    if tab_id < app.tabs.len() {
        if has_agent(&app.agents, name) {
            app.tabs[tab_id].agent_name = owned(name);
            let mut status = owned(prefix);
            push_all(&mut status, name);
            app.status_message = status;
        }
    }
}

/// The index of the first agent called `name`, or -1.
pub open spec fn agent_index_from(agents: Seq<AgentConfig>, name: Seq<char>, i: int) -> int
    decreases agents.len() - i,
{
    if i < 0 || i >= agents.len() {
        -1
    } else if agents[i].name@ == name {
        i
    } else {
        agent_index_from(agents, name, i + 1)
    }
}

proof fn lemma_agent_index_from(agents: Seq<AgentConfig>, name: Seq<char>, i: int)
    requires
        0 <= i,
    ensures
        -1 <= agent_index_from(agents, name, i) < agents.len(),
    decreases agents.len() - i,
{
    if i < agents.len() && agents[i].name@ != name {
        lemma_agent_index_from(agents, name, i + 1);
    }
}

/// The index of the agent after the active tab's agent, cycling; the first
/// agent when the tab's agent is not in the list.
pub open spec fn next_agent_index(agents: Seq<AgentConfig>, current: Seq<char>) -> int {
    (agent_index_from(agents, current, 0) + 1) % (agents.len() as int)
}

fn next_agent(agents: &Vec<AgentConfig>, current: &str) -> (k: usize)
    requires
        agents@.len() > 0,
    ensures
        k == next_agent_index(agents@, current@),
        k < agents@.len(),
{
    let n = agents.len();
    let mut i: usize = 0;
    while i < n
        invariant
            n == agents@.len() > 0,
            i <= n,
            agent_index_from(agents@, current@, 0) == agent_index_from(agents@, current@, i as int),
        decreases n - i,
    {
        if str_eq(agents[i].name.as_str(), current) {
            assert(agent_index_from(agents@, current@, i as int) == i);
            if i + 1 == n {
                assert((n as int) % (n as int) == 0) by (nonlinear_arith)
                    requires n > 0;
                return 0;
            } else {
                assert((i + 1) % (n as int) == i + 1) by (nonlinear_arith)
                    requires i + 1 < n;
                return i + 1;
            }
        }
        i = i + 1;
    }
    assert(agent_index_from(agents@, current@, n as int) == -1);
    assert(0int % (n as int) == 0) by (nonlinear_arith)
        requires n > 0;
    0
}


/// `s` begins with `p`.
pub open spec fn has_prefix(s: Seq<char>, p: Seq<char>) -> bool {
    p.len() <= s.len() && s.subrange(0, p.len() as int) == p
}

/// The argument of a palette command whose command word, with its
/// following space, takes seven characters: the rest, trimmed.
pub open spec fn command_arg(s: Seq<char>) -> Seq<char> {
    trim(s.subrange(7, s.len() as int))
}

/// The status line for a command that is recognised but not implemented.
pub open spec fn unimplemented_status(i: Seq<char>) -> Seq<char> {
    "命令 '"@ + i + "' 尚未实现"@
}

/// The status line for an unknown command.
pub open spec fn unknown_status(i: Seq<char>) -> Seq<char> {
    "未知命令: "@ + i
}

/// `pre` with the command palette closed, its input as in `post`, and the
/// chat input focused.
pub open spec fn palette_closed(pre: App, post: App) -> App {
    App {
        command_palette_open: false,
        command_palette_input: post.command_palette_input,
        focus: Focus::ChatInput,
        ..pre
    }
}

/// `post` is `pre` after the palette submitted `input`: the palette closes
/// with an empty input and the chat input focused, then the trimmed command
/// takes effect: "/model m", "/theme t", "/agent a", "/new", "/close";
/// "/save", "/history" and "/load <id>" leave a request for the store;
/// "/compact", "/fork" and "/export" are reported as not implemented, and
/// anything else as unknown.
pub open spec fn palette_submit_spec(pre: App, input: Seq<char>, post: App) -> bool {
    let i = trim(input);
    let b = palette_closed(pre, post);
    &&& post.command_palette_input@.len() == 0
    &&& if has_prefix(i, "/model "@) {
        model_spec(b, b.active_tab as int, command_arg(i), post)
    } else if has_prefix(i, "/theme "@) {
        post == (App { theme: post.theme, ..b }) && post.theme@ == command_arg(i)
    } else if has_prefix(i, "/agent "@) {
        agent_spec(b, b.active_tab as int, command_arg(i), "Agent: "@, post)
    } else if i == "/save"@ {
        post == (App { store_request: Some(StoreRequest::Save { tab_id: b.active_tab }), ..b })
    } else if i == "/history"@ {
        post == (App { store_request: Some(StoreRequest::History), ..b })
    } else if i == "/load"@ || has_prefix(i, "/load "@) {
        load_command_spec(b, i, post)
    } else if i == "/new"@ {
        new_tab_spec(b, post)
    } else if i == "/close"@ {
        close_tab_spec(b, b.active_tab, post)
    } else if i == "/compact"@ || i == "/fork"@ || i == "/export"@ {
        post == (App { status_message: post.status_message, ..b }) && post.status_message@
            == unimplemented_status(i)
    } else {
        post == (App { status_message: post.status_message, ..b }) && post.status_message@
            == unknown_status(i)
    }
}

fn command_argument(i: &String) -> (r: String)
    requires
        i@.len() >= 7,
    ensures
        r@ == command_arg(i@),
{
    let v = chars_of(i.as_str());
    let rest = string_from_range(v.as_slice(), 7, v.len());
    trimmed(rest.as_str())
}

fn do_palette_submit(app: &mut App, input: String)
    requires
        old(app).wf(),
        old(app).tabs@.len() < u64::MAX,
    ensures
        palette_submit_spec(*old(app), input@, *final(app)),
        final(app).wf(),
{
    proof {
        reveal_strlit("/model ");
        reveal_strlit("/theme ");
        reveal_strlit("/agent ");
        reveal_strlit("/load ");
        reveal_strlit("/load");
    }
    let i = trimmed(input.as_str());
    app.command_palette_open = false;
    app.command_palette_input = String::new();
    app.focus = Focus::ChatInput;
    if starts_with(i.as_str(), "/model ") {
        let model = command_argument(&i);
        let t = app.active_tab;
        do_set_model(app, t, model);
    } else if starts_with(i.as_str(), "/theme ") {
        app.theme = command_argument(&i);
    } else if starts_with(i.as_str(), "/agent ") {
        let agent = command_argument(&i);
        let t = app.active_tab;
        do_set_agent(app, t, agent.as_str(), "Agent: ");
    } else if str_eq(i.as_str(), "/save") {
        app.store_request = Some(StoreRequest::Save { tab_id: app.active_tab });
    } else if str_eq(i.as_str(), "/history") {
        app.store_request = Some(StoreRequest::History);
    } else if str_eq(i.as_str(), "/load") || starts_with(i.as_str(), "/load ") {
        let v = chars_of(i.as_str());
        let rest = string_from_range(v.as_slice(), 5, v.len());
        let arg = trimmed(rest.as_str());
        match parse_usize_text(arg.as_str()) {
            Some(n) => {
                app.store_request = Some(StoreRequest::Load { id: n as u64 });
            },
            None => {
                app.status_message = owned("用法: /load <id>");
            },
        }
    } else if str_eq(i.as_str(), "/new") {
        do_new_tab(app);
    } else if str_eq(i.as_str(), "/close") {
        let t = app.active_tab;
        do_close_tab(app, t);
    } else if str_eq(i.as_str(), "/compact") || str_eq(i.as_str(), "/fork") || str_eq(
        i.as_str(),
        "/export",
    ) {
        let mut status = owned("命令 '");
        push_all(&mut status, i.as_str());
        push_all(&mut status, "' 尚未实现");
        app.status_message = status;
    } else {
        let mut status = owned("未知命令: ");
        push_all(&mut status, i.as_str());
        app.status_message = status;
    }
}


/// The queue of confirmations after the user decided on call `call_id` of
/// tab `tab_id`: the first entry leaves when it is that call.
pub open spec fn settled(q: Seq<ToolCallConfirmation>, tab_id: usize, call_id: Seq<char>) -> Seq<ToolCallConfirmation> {
    if q.len() > 0 && q[0].tab_id == tab_id && q[0].call_id@ == call_id {
        q.drop_first()
    } else {
        q
    }
}

fn settle(app: &mut App, tab_id: usize, call_id: &String)
    requires
        old(app).wf(),
    ensures
        *final(app) == (App { confirmations: final(app).confirmations, ..*old(app) }),
        final(app).confirmations@ == settled(old(app).confirmations@, tab_id, call_id@),
        final(app).wf(),
{
    if app.confirmations.len() > 0 && app.confirmations[0].tab_id == tab_id && str_eq(
        app.confirmations[0].call_id.as_str(),
        call_id.as_str(),
    ) {
        let ghost q = app.confirmations@;
        app.confirmations.remove(0);
        assert(app.confirmations@ =~= q.drop_first());
    }
}

/// The queue of confirmations after the model requested a call: the call
/// joins the end when its tab exists.
pub open spec fn queued(
    pre: App,
    tab_id: usize,
    call_id: String,
    name: String,
    args: String,
) -> Seq<ToolCallConfirmation> {
    if tab_id < pre.tabs@.len() {
        pre.confirmations@.push(ToolCallConfirmation { tab_id, call_id, name, args })
    } else {
        pre.confirmations@
    }
}

/// The result recorded for a tool call the user refused.
pub open spec fn rejected_result() -> Seq<char> {
    "用户拒绝执行此工具调用"@
}

/// `post` is `pre` after the user refused call `call_id` of tab `tab_id`:
/// the call is marked failed with the refusal, and a tool message carries
/// the refusal back to the model. A missing tab changes nothing.
pub open spec fn reject_spec(pre: App, tab_id: usize, call_id: Seq<char>, post: App) -> bool {
    if tab_id < pre.tabs@.len() {
        let pt = pre.tabs@[tab_id as int];
        let qt = post.tabs@[tab_id as int];
        &&& post == (App { tabs: post.tabs, ..pre })
        &&& post.tabs@ == pre.tabs@.update(tab_id as int, qt)
        &&& qt == (Tab { messages: qt.messages, pending_tool_calls: qt.pending_tool_calls, ..pt })
        &&& qt.pending_tool_calls@ == pt.pending_tool_calls@.insert(call_id, qt.pending_tool_calls@[call_id])
        &&& (qt.pending_tool_calls@[call_id] matches ToolCallStatus::Failed { error } && error@
            == rejected_result())
        &&& qt.messages@.len() == pt.messages@.len() + 1
        &&& qt.messages@.drop_last() == pt.messages@
        &&& is_plain_message(qt.messages@.last(), Role::Tool, rejected_result(), Some(call_id))
    } else {
        post == pre
    }
}

fn do_reject(app: &mut App, tab_id: usize, call_id: String)
    requires
        old(app).wf(),
    ensures
        reject_spec(*old(app), tab_id, call_id@, *final(app)),
        final(app).wf(),
{
    if tab_id < app.tabs.len() {
        let ghost pre = *app;
        let ghost pt = pre.tabs@[tab_id as int];
        let text = owned("用户拒绝执行此工具调用");
        let tool_msg = Message::tool(call_id.as_str(), text.as_str());
        app.tabs[tab_id].pending_tool_calls.insert(call_id, ToolCallStatus::Failed { error: text });
        let ghost before = app.tabs@[tab_id as int].messages@;
        app.tabs[tab_id].messages.push(tool_msg);
        assert(app.tabs@[tab_id as int].messages@.drop_last() =~= before);
        assert(app.tabs@[tab_id as int] == (Tab {
            messages: app.tabs@[tab_id as int].messages,
            pending_tool_calls: app.tabs@[tab_id as int].pending_tool_calls,
            ..pt
        }));
        assert(app.tabs@ == pre.tabs@.update(tab_id as int, app.tabs@[tab_id as int]));
    }
}

/// The status after the store kept a conversation.
pub open spec fn saved_status(id: nat) -> Seq<char> {
    "已保存对话 #"@ + decimal(id)
}

/// The title of a tab holding stored conversation `id`.
pub open spec fn loaded_title(id: nat) -> Seq<char> {
    "对话 #"@ + decimal(id)
}

/// The status after stored conversation `id` with `n` messages was loaded.
pub open spec fn loaded_status(id: nat, n: nat) -> Seq<char> {
    "已加载对话 #"@ + decimal(id) + " ("@ + decimal(n) + " 条消息)"@
}

/// One stored conversation in the history status: its identifier and title.
pub open spec fn history_entry(e: (u64, String)) -> Seq<char> {
    "#"@ + decimal(e.0 as nat) + " "@ + e.1@
}

/// The status listing the stored conversations.
pub open spec fn history_status(es: Seq<(u64, String)>) -> Seq<char> {
    if es.len() == 0 {
        "没有已保存的对话"@
    } else {
        "已保存对话: "@ + join(es.map_values(|e: (u64, String)| history_entry(e)), "; "@)
    }
}

/// The status after the store failed.
pub open spec fn store_error_status(e: Seq<char>) -> Seq<char> {
    "记忆库错误: "@ + e
}

/// The status for a "/load" without a valid identifier.
pub open spec fn load_usage_status() -> Seq<char> {
    "用法: /load <id>"@
}

/// `t` is a fresh tab holding the messages `msgs`: as `is_new_tab`, with
/// those messages.
pub open spec fn is_loaded_tab(
    t: Tab,
    id: usize,
    title: Seq<char>,
    model: Seq<char>,
    agent: Seq<char>,
    msgs: Seq<Message>,
) -> bool {
    &&& t.id == id
    &&& t.title@ == title
    &&& t.messages@ == msgs
    &&& t.model@ == model
    &&& t.agent_name@ == agent
    &&& t.total_usage == Usage { prompt_tokens: 0, completion_tokens: 0, total_tokens: 0 }
    &&& t.input_buffer@.len() == 0
    &&& t.scroll_offset == 0
    &&& t.auto_scroll
    &&& t.thinking_ticks == 0
    &&& t.pending_tool_calls@ == Map::<Seq<char>, ToolCallStatus>::empty()
}

/// `post` is `pre` after stored conversation `id` came back with `msgs`: a
/// new tab titled with the identifier holds them and becomes active, with
/// the chat input focused and the status naming what was loaded.
pub open spec fn loaded_spec(pre: App, id: u64, msgs: Seq<Message>, post: App) -> bool {
    let n = pre.tabs@.len();
    &&& post == (App {
        tabs: post.tabs,
        active_tab: n as usize,
        focus: Focus::ChatInput,
        status_message: post.status_message,
        ..pre
    })
    &&& post.tabs@.len() == n + 1
    &&& post.tabs@.drop_last() == pre.tabs@
    &&& is_loaded_tab(
        post.tabs@.last(),
        n as usize,
        loaded_title(id as nat),
        pre.client.model_spec(),
        first_agent_name(pre.agents@),
        msgs,
    )
    &&& post.status_message@ == loaded_status(id as nat, msgs.len())
}

fn do_load(app: &mut App, id: u64, messages: Vec<Message>)
    requires
        old(app).wf(),
        old(app).tabs@.len() < u64::MAX,
    ensures
        loaded_spec(*old(app), id, messages@, *final(app)),
        final(app).wf(),
{
    let n = app.tabs.len();
    let count = messages.len();
    let mut title = owned("对话 #");
    push_decimal(&mut title, id);
    let default_agent = first_agent(&app.agents);
    let mut tab = Tab::new(n, title.as_str(), app.client.model(), default_agent.as_str());
    tab.messages = messages;
    let ghost before = app.tabs@;
    app.tabs.push(tab);
    assert(app.tabs@.drop_last() =~= before);
    app.active_tab = n;
    app.focus = Focus::ChatInput;
    let mut status = owned("已加载对话 #");
    push_decimal(&mut status, id);
    push_all(&mut status, " (");
    push_decimal(&mut status, count as u64);
    push_all(&mut status, " 条消息)");
    app.status_message = status;
}

fn history_text(es: &Vec<(u64, String)>) -> (r: String)
    ensures
        r@ == history_status(es@),
{
    if es.len() == 0 {
        return owned("没有已保存的对话");
    }
    let mut items: Vec<String> = Vec::new();
    let n = es.len();
    for i in 0..n
        invariant
            n == es@.len(),
            items@.len() == i,
            forall|j: int| 0 <= j < i ==> #[trigger] items@[j]@ == history_entry(es@[j]),
    {
        let mut e = owned("#");
        push_decimal(&mut e, es[i].0);
        push_all(&mut e, " ");
        push_all(&mut e, es[i].1.as_str());
        items.push(e);
    }
    let body = join_prefix(&items, n, "; ");
    proof {
        assert(items@.take(n as int).map_values(|l: String| l@) =~= es@.map_values(
            |e: (u64, String)| history_entry(e),
        ));
    }
    concat("已保存对话: ", body.as_str())
}

/// Hands the pending store request to the caller and clears it.
pub fn take_store_request(app: &mut App) -> (r: Option<StoreRequest>)
    ensures
        r == old(app).store_request,
        *final(app) == (App { store_request: None, ..*old(app) }),
{
    let r = app.store_request;
    app.store_request = None;
    r
}

/// The argument of "/load": the text after the command word, trimmed.
pub open spec fn load_arg(i: Seq<char>) -> Seq<char> {
    trim(i.subrange(5, i.len() as int))
}

/// `post` is `b` after the palette command "/load" or "/load <id>": a
/// decimal identifier asks the store for that conversation; anything else
/// is answered with the usage.
pub open spec fn load_command_spec(b: App, i: Seq<char>, post: App) -> bool {
    match parse_usize(load_arg(i)) {
        Some(n) => post == (App { store_request: Some(StoreRequest::Load { id: n as u64 }), ..b }),
        None => post == (App { status_message: post.status_message, ..b }) && post.status_message@
            == load_usage_status(),
    }
}

/// The status line prefix after switching agents.
pub open spec fn switched_prefix() -> Seq<char> {
    "已切换到: "@
}

/// The inputs on which `update` is defined: a well-formed state, and the
/// conditions without which the step would fail. A status line cuts a text
/// at a byte count, which must fall on a character boundary; counters and
/// the tab count must not overflow.
pub open spec fn update_requires(app: App, action: Action) -> bool {
    &&& app.wf()
    &&& match action {
        Action::SubmitMessage(c) => cut_is_boundary(trim(c@), 40),
        Action::NewTab => app.tabs@.len() < u64::MAX,
        Action::CommandPaletteSubmit(_) => app.tabs@.len() < u64::MAX,
        Action::ConversationLoaded { .. } => app.tabs@.len() < u64::MAX,
        Action::ScrollDown => app.tabs@[app.active_tab as int].scroll_offset < usize::MAX,
        Action::StreamDone { tab_id, usage, .. } => usage_fits(app, tab_id, usage),
        Action::StreamError { error, .. } => cut_is_boundary(error@, 60),
        _ => true,
    }
}

/// What `update` does: `post` and the redraw flag `r` after `action` on
/// `pre`.
#[verifier::opaque]
pub open spec fn update_spec(pre: App, action: Action, post: App, r: bool) -> bool {
    let t = pre.active_tab as int;
    match action {
        Action::Key(_) => post == pre && r,
        Action::SubmitMessage(c) => submit_spec(pre, c@, post, r),
        Action::SwitchTab(i) => switch_tab_spec(pre, i, post) && r,
        Action::NewTab => new_tab_spec(App { focus: Focus::ChatInput, ..pre }, post) && r,
        Action::CloseTab(i) => close_tab_spec(pre, i, post) && r,
        Action::ToggleSidebar => post == (App { sidebar_visible: !pre.sidebar_visible, ..pre }) && r,
        Action::OpenCommandPalette => palette_toggle_spec(pre, post) && r,
        Action::Tick => tick_spec(pre, post) && !r,
        Action::Resize(_, _) => post == pre && r,
        Action::Shutdown => post == (App { should_quit: true, ..pre }) && r,
        Action::StreamStart { tab_id, message_id } => stream_start_spec(pre, tab_id, message_id, post)
            && r,
        Action::StreamChunk { tab_id, message_id, chunk } => stream_chunk_spec(
            pre,
            tab_id,
            message_id,
            chunk@,
            post,
        ) && r,
        Action::StreamDone { tab_id, message_id, usage, .. } => stream_done_spec(
            pre,
            tab_id,
            message_id,
            usage,
            post,
        ) && r,
        Action::StreamError { tab_id, message_id, error } => stream_error_spec(
            pre,
            tab_id,
            message_id,
            error@,
            post,
        ) && r,
        Action::ToolCallRequest { tab_id, call_id, name, args } => r && post.confirmations@ == queued(
            pre,
            tab_id,
            call_id,
            name,
            args,
        ) && tool_request_spec(
            App { confirmations: post.confirmations, ..pre },
            tab_id,
            call_id@,
            name@,
            args@,
            post,
        ),
        Action::ToolCallResponse { tab_id, call_id, result } => tool_response_spec(
            pre,
            tab_id,
            call_id@,
            result,
            post,
        ) && r,
        Action::ConfirmToolCall(c) => r && post.confirmations@ == settled(
            pre.confirmations@,
            c.tab_id,
            c.call_id@,
        ) && confirm_spec(App { confirmations: post.confirmations, ..pre }, c.tab_id, c.call_id@, post),
        Action::RejectToolCall { tab_id, call_id } => r && post.confirmations@ == settled(
            pre.confirmations@,
            tab_id,
            call_id@,
        ) && reject_spec(App { confirmations: post.confirmations, ..pre }, tab_id, call_id@, post),
        Action::ConversationSaved { id } => r && post == (App { status_message: post.status_message, ..pre })
            && post.status_message@ == saved_status(id as nat),
        Action::ConversationLoaded { id, messages } => r && loaded_spec(pre, id, messages@, post),
        Action::ConversationsListed(es) => r && post == (App { status_message: post.status_message, ..pre })
            && post.status_message@ == history_status(es@),
        Action::StoreFailed(e) => r && post == (App { status_message: post.status_message, ..pre })
            && post.status_message@ == store_error_status(e@),
        Action::CommandPaletteSubmit(i) => palette_submit_spec(pre, i@, post) && r,
        Action::ScrollUp => scroll_up_spec(pre, post) && r,
        Action::ScrollDown => scroll_down_spec(pre, post) && r,
        Action::AutoScroll => auto_scroll_spec(pre, post) && r,
        Action::ChangeTheme(theme) => post == (App { theme, ..pre }) && r,
        Action::ChangeModel { tab_id, model } => model_spec(pre, tab_id as int, model@, post) && r,
        Action::SwitchAgent { tab_id, agent_name } => agent_spec(
            pre,
            tab_id as int,
            agent_name@,
            switched_prefix(),
            post,
        ) && r,
        Action::SwitchAgentByIndex(i) => r && if i < pre.agents@.len() {
            agent_spec(pre, t, pre.agents@[i as int].name@, switched_prefix(), post)
        } else {
            post == pre
        },
        Action::SwitchAgentNext => r && if pre.agents@.len() > 0 {
            let k = next_agent_index(pre.agents@, pre.tabs@[t].agent_name@);
            agent_spec(pre, t, pre.agents@[k].name@, switched_prefix(), post)
        } else {
            post == pre
        },
    }
}

/// Applies `action` to `app`. Returns whether the screen must be redrawn.
/// It performs no I/O: the caller sends requests and runs tools.
///
/// After `StreamDone` the status line holds the token counts; the caller
/// appends the cost, a floating-point figure.
pub fn update(app: &mut App, action: Action) -> (r: bool)
    requires
        update_requires(*old(app), action),
    ensures
        final(app).wf(),
        update_spec(*old(app), action, *final(app), r),
{
    reveal(update_spec);
    match action {
        Action::Key(_event) => true,
        Action::Tick => {
            do_tick(app);
            false
        },
        Action::Resize(_w, _h) => true,
        Action::Shutdown => {
            app.should_quit = true;
            true
        },
        Action::SubmitMessage(content) => do_submit(app, content),
        Action::SwitchTab(index) => {
            if index < app.tabs.len() {
                app.active_tab = index;
                app.focus = Focus::ChatInput;
            }
            true
        },
        Action::NewTab => {
            app.focus = Focus::ChatInput;
            do_new_tab(app);
            true
        },
        Action::CloseTab(index) => {
            do_close_tab(app, index);
            true
        },
        Action::ToggleSidebar => {
            app.sidebar_visible = !app.sidebar_visible;
            true
        },
        Action::OpenCommandPalette => {
            do_toggle_palette(app);
            true
        },
        Action::StreamStart { tab_id, message_id } => {
            do_stream_start(app, tab_id, message_id);
            true
        },
        Action::StreamChunk { tab_id, message_id, chunk } => {
            do_stream_chunk(app, tab_id, message_id, chunk);
            true
        },
        Action::StreamDone { tab_id, message_id, usage, .. } => {
            do_stream_done(app, tab_id, message_id, usage);
            true
        },
        Action::StreamError { tab_id, message_id, error } => {
            do_stream_error(app, tab_id, message_id, error);
            true
        },
        Action::ToolCallRequest { tab_id, call_id, name, args } => {
            if tab_id < app.tabs.len() {
                let c = ToolCallConfirmation {
                    tab_id,
                    call_id: call_id.clone(),
                    name: name.clone(),
                    args: args.clone(),
                };
                app.confirmations.push(c);
            }
            do_tool_request(app, tab_id, call_id, name, args);
            true
        },
        Action::ToolCallResponse { tab_id, call_id, result } => {
            do_tool_response(app, tab_id, call_id, result);
            true
        },
        Action::ConfirmToolCall(confirmation) => {
            settle(app, confirmation.tab_id, &confirmation.call_id);
            do_confirm(app, confirmation.tab_id, confirmation.call_id);
            true
        },
        Action::RejectToolCall { tab_id, call_id } => {
            settle(app, tab_id, &call_id);
            do_reject(app, tab_id, call_id);
            true
        },
        Action::ConversationSaved { id } => {
            let mut status = owned("已保存对话 #");
            push_decimal(&mut status, id);
            app.status_message = status;
            true
        },
        Action::ConversationLoaded { id, messages } => {
            do_load(app, id, messages);
            true
        },
        Action::ConversationsListed(es) => {
            app.status_message = history_text(&es);
            true
        },
        Action::StoreFailed(e) => {
            app.status_message = concat("记忆库错误: ", e.as_str());
            true
        },
        Action::CommandPaletteSubmit(input) => {
            do_palette_submit(app, input);
            true
        },
        Action::ScrollUp => {
            do_scroll_up(app);
            true
        },
        Action::ScrollDown => {
            do_scroll_down(app);
            true
        },
        Action::AutoScroll => {
            do_auto_scroll(app);
            true
        },
        Action::ChangeTheme(theme) => {
            app.theme = theme;
            true
        },
        Action::ChangeModel { tab_id, model } => {
            do_set_model(app, tab_id, model);
            true
        },
        Action::SwitchAgent { tab_id, agent_name } => {
            do_set_agent(app, tab_id, agent_name.as_str(), "已切换到: ");
            true
        },
        Action::SwitchAgentByIndex(i) => {
            if i < app.agents.len() {
                let name = app.agents[i].name.clone();
                let t = app.active_tab;
                do_set_agent(app, t, name.as_str(), "已切换到: ");
            }
            true
        },
        Action::SwitchAgentNext => {
            if app.agents.len() > 0 {
                let k = next_agent(&app.agents, app.tabs[app.active_tab].agent_name.as_str());
                let name = app.agents[k].name.clone();
                let t = app.active_tab;
                do_set_agent(app, t, name.as_str(), "已切换到: ");
            }
            true
        },
    }
}


/// Whether `update` is defined on `app` and `action` (`update_requires`).
/// A caller that cannot prove it tests it first.
pub fn update_allowed(app: &App, action: &Action) -> (b: bool)
    ensures
        b == update_requires(*app, *action),
{
    if !(app.tabs.len() > 0 && app.active_tab < app.tabs.len()) {
        return false;
    }
    match action {
        Action::SubmitMessage(c) => {
            let t = trimmed(c.as_str());
            is_cut_boundary(t.as_str(), 40)
        },
        Action::NewTab => (app.tabs.len() as u64) < u64::MAX,
        Action::CommandPaletteSubmit(_) => (app.tabs.len() as u64) < u64::MAX,
        Action::ConversationLoaded { .. } => (app.tabs.len() as u64) < u64::MAX,
        Action::ScrollDown => app.tabs[app.active_tab].scroll_offset < usize::MAX,
        Action::StreamDone { tab_id, usage, .. } => {
            if *tab_id < app.tabs.len() {
                let t = app.tabs[*tab_id].total_usage;
                t.prompt_tokens <= u64::MAX - usage.prompt_tokens && t.completion_tokens <= u64::MAX
                    - usage.completion_tokens && t.total_tokens <= u64::MAX - usage.total_tokens
            } else {
                true
            }
        },
        Action::StreamError { error, .. } => is_cut_boundary(error.as_str(), 60),
        _ => true,
    }
}

/// Showing or hiding the sidebar twice leaves the application as it was.
pub proof fn law_toggle_sidebar_twice(a0: App, a1: App, a2: App, r1: bool, r2: bool)
    requires
        update_spec(a0, Action::ToggleSidebar, a1, r1),
        update_spec(a1, Action::ToggleSidebar, a2, r2),
    ensures
        a2 == a0,
{
    reveal(update_spec);
}

/// Toggling the command palette twice restores whether it is open, leaves
/// its input empty, and changes nothing but the palette and the focus.
pub proof fn law_palette_toggle_twice(a0: App, a1: App, a2: App, r1: bool, r2: bool)
    requires
        update_spec(a0, Action::OpenCommandPalette, a1, r1),
        update_spec(a1, Action::OpenCommandPalette, a2, r2),
    ensures
        a2.command_palette_open == a0.command_palette_open,
        a2.command_palette_input@.len() == 0,
        a2.focus == (if a0.command_palette_open {
            Focus::CommandPalette
        } else {
            Focus::ChatInput
        }),
        a2 == (App { command_palette_input: a2.command_palette_input, focus: a2.focus, ..a0 }),
{
    reveal(update_spec);
}

/// Opening a tab and closing it again, by its index, restores the tabs.
pub proof fn law_new_tab_then_close(a0: App, a1: App, a2: App, r1: bool, r2: bool)
    requires
        a0.wf(),
        update_spec(a0, Action::NewTab, a1, r1),
        update_spec(a1, Action::CloseTab(a0.tabs.len()), a2, r2),
    ensures
        a2.tabs@ == a0.tabs@,
        a2.active_tab == a0.tabs@.len() - 1,
{
    reveal(update_spec);
    assert(a1.tabs@.remove(a0.tabs@.len() as int) =~= a1.tabs@.drop_last());
}

/// Closing tab `i`, when it exists and another remains, removes exactly
/// that tab. The active index stays the same number whenever it still
/// names a tab, and moves to the last tab only when it fell off the end.
pub proof fn law_close_tab_keeps_active_index(a0: App, i: usize, a1: App, r: bool)
    requires
        a0.wf(),
        a0.tabs@.len() > 1,
        i < a0.tabs@.len(),
        update_spec(a0, Action::CloseTab(i), a1, r),
    ensures
        a1.tabs@ == a0.tabs@.remove(i as int),
        a1.tabs@.len() == a0.tabs@.len() - 1,
        a0.active_tab < a1.tabs@.len() ==> a1.active_tab == a0.active_tab,
        a0.active_tab >= a1.tabs@.len() ==> a1.active_tab == a1.tabs@.len() - 1,
{
    reveal(update_spec);
}

/// Every step keeps at least one tab, with the active index on a tab.
pub proof fn law_update_keeps_tabs(a0: App, action: Action, a1: App, r: bool)
    requires
        a0.wf(),
        update_spec(a0, action, a1, r),
    ensures
        a1.wf(),
{
    reveal(update_spec);
    let t = a0.active_tab as int;
    match action {
        Action::CommandPaletteSubmit(i) => {
            let b = palette_closed(a0, a1);
            assert(b.wf());
        },
        _ => {},
    }
}

proof fn lemma_palette_words()
    ensures
        "/model "@ == seq!['/', 'm', 'o', 'd', 'e', 'l', ' '],
        "/theme "@ == seq!['/', 't', 'h', 'e', 'm', 'e', ' '],
        "/agent "@ == seq!['/', 'a', 'g', 'e', 'n', 't', ' '],
        "/save"@ == seq!['/', 's', 'a', 'v', 'e'],
        "/history"@ == seq!['/', 'h', 'i', 's', 't', 'o', 'r', 'y'],
        "/load"@ == seq!['/', 'l', 'o', 'a', 'd'],
        "/load "@ == seq!['/', 'l', 'o', 'a', 'd', ' '],
        "/new"@ == seq!['/', 'n', 'e', 'w'],
        "/close"@ == seq!['/', 'c', 'l', 'o', 's', 'e'],
        "/compact"@ == seq!['/', 'c', 'o', 'm', 'p', 'a', 'c', 't'],
        "/fork"@ == seq!['/', 'f', 'o', 'r', 'k'],
        "/export"@ == seq!['/', 'e', 'x', 'p', 'o', 'r', 't'],
{
    reveal_strlit("/model ");
    reveal_strlit("/theme ");
    reveal_strlit("/agent ");
    reveal_strlit("/save");
    reveal_strlit("/history");
    reveal_strlit("/load");
    reveal_strlit("/load ");
    reveal_strlit("/new");
    reveal_strlit("/close");
    reveal_strlit("/compact");
    reveal_strlit("/fork");
    reveal_strlit("/export");
}

/// A new tab is appended after the others, titled with its number, with
/// the client's model and no messages; it becomes active and the chat
/// input takes the focus.
pub proof fn law_new_tab(a0: App, a1: App, r: bool)
    requires
        a0.wf(),
        a0.tabs@.len() < usize::MAX,
        update_spec(a0, Action::NewTab, a1, r),
    ensures
        r,
        a1.tabs@.len() == a0.tabs@.len() + 1,
        a1.tabs@.take(a0.tabs@.len() as int) == a0.tabs@,
        a1.active_tab == a0.tabs@.len(),
        a1.focus == Focus::ChatInput,
        a1.tabs@[a0.tabs@.len() as int].title@ == tab_title(a0.tabs@.len() + 1),
        a1.tabs@[a0.tabs@.len() as int].model@ == a1.client.model_spec(),
        a1.tabs@[a0.tabs@.len() as int].messages@.len() == 0,
{
    reveal(update_spec);
    assert(a1.tabs@.last() == a1.tabs@[a0.tabs@.len() as int]);
    assert(a1.tabs@.take(a0.tabs@.len() as int) =~= a1.tabs@.drop_last());
}

/// Submitting any palette input closes the palette, empties its input and
/// gives the chat input the focus.
pub proof fn law_palette_submit_closes(a0: App, s: String, a1: App, r: bool)
    requires
        a0.wf(),
        update_spec(a0, Action::CommandPaletteSubmit(s), a1, r),
    ensures
        r,
        !a1.command_palette_open,
        a1.command_palette_input@.len() == 0,
        a1.focus == Focus::ChatInput,
{
    reveal(update_spec);
}

/// The palette command "/new" opens a tab as `NewTab` does.
pub proof fn law_palette_new(a0: App, s: String, a1: App, r: bool)
    requires
        a0.wf(),
        a0.tabs@.len() < usize::MAX,
        s@ == "/new"@,
        update_spec(a0, Action::CommandPaletteSubmit(s), a1, r),
    ensures
        a1.tabs@.len() == a0.tabs@.len() + 1,
        a1.tabs@.take(a0.tabs@.len() as int) == a0.tabs@,
        a1.active_tab == a0.tabs@.len(),
        a1.tabs@[a0.tabs@.len() as int].title@ == tab_title(a0.tabs@.len() + 1),
        a1.tabs@[a0.tabs@.len() as int].model@ == a1.client.model_spec(),
        a1.tabs@[a0.tabs@.len() as int].messages@.len() == 0,
{
    reveal(update_spec);
    lemma_palette_words();
    crate::text::lemma_trim_unpadded(s@);
    assert(!has_prefix(s@, "/model "@));
    assert(!has_prefix(s@, "/theme "@));
    assert(!has_prefix(s@, "/agent "@));
    assert(!has_prefix(s@, "/load "@));
    assert(s@ != "/save"@ && s@ != "/history"@ && s@ != "/load"@);
    assert(a1.tabs@.last() == a1.tabs@[a0.tabs@.len() as int]);
    assert(a1.tabs@.take(a0.tabs@.len() as int) =~= a1.tabs@.drop_last());
}

/// The palette command "/close" closes the active tab as `CloseTab` does.
pub proof fn law_palette_close(a0: App, s: String, a1: App, r: bool, a2: App, r2: bool)
    requires
        a0.wf(),
        s@ == "/close"@,
        update_spec(a0, Action::CommandPaletteSubmit(s), a1, r),
        update_spec(a0, Action::CloseTab(a0.active_tab), a2, r2),
    ensures
        a1.tabs@ == a2.tabs@,
        a1.active_tab == a2.active_tab,
{
    reveal(update_spec);
    lemma_palette_words();
    crate::text::lemma_trim_unpadded(s@);
    assert(!has_prefix(s@, "/model "@));
    assert(!has_prefix(s@, "/theme "@));
    assert(!has_prefix(s@, "/agent "@));
    assert(!has_prefix(s@, "/load "@));
    assert(s@ != "/save"@ && s@ != "/history"@ && s@ != "/load"@ && s@ != "/new"@);
}

/// "/model m" sets the model of the active tab and of the client to `m`,
/// and changes no other tab.
pub proof fn law_palette_model(a0: App, m: Seq<char>, s: String, a1: App, r: bool)
    requires
        a0.wf(),
        m.len() > 0,
        !crate::text::is_ws(m[0]),
        !crate::text::is_ws(m.last()),
        s@ == "/model "@ + m,
        update_spec(a0, Action::CommandPaletteSubmit(s), a1, r),
    ensures
        a1.tabs@[a0.active_tab as int].model@ == m,
        a1.client.model_spec() == m,
        forall|j: int| 0 <= j < a0.tabs@.len() && j != a0.active_tab ==> a1.tabs@[j] == a0.tabs@[j],
        a1.tabs@.len() == a0.tabs@.len(),
{
    reveal(update_spec);
    reveal_strlit("/model ");
    crate::text::lemma_trim_unpadded(s@);
    assert(s@.subrange(0, 7) =~= "/model "@);
    assert(s@.subrange(7, s@.len() as int) =~= m);
    crate::text::lemma_trim_unpadded(m);
}

/// "/theme t" sets the theme to `t` and changes nothing else but the
/// palette.
pub proof fn law_palette_theme(a0: App, t: Seq<char>, s: String, a1: App, r: bool)
    requires
        a0.wf(),
        t.len() > 0,
        !crate::text::is_ws(t[0]),
        !crate::text::is_ws(t.last()),
        s@ == "/theme "@ + t,
        update_spec(a0, Action::CommandPaletteSubmit(s), a1, r),
    ensures
        a1.theme@ == t,
        a1 == (App {
            theme: a1.theme,
            command_palette_open: false,
            command_palette_input: a1.command_palette_input,
            focus: Focus::ChatInput,
            ..a0
        }),
{
    reveal(update_spec);
    reveal_strlit("/theme ");
    reveal_strlit("/model ");
    crate::text::lemma_trim_unpadded(s@);
    assert(s@.subrange(0, 7) =~= "/theme "@);
    assert(s@.subrange(0, 7)[1] != "/model "@[1]);
    assert(s@.subrange(7, s@.len() as int) =~= t);
    crate::text::lemma_trim_unpadded(t);
}

/// "/save" asks the store to keep the active tab's conversation, and
/// "/history" asks it for the list; nothing else changes but the palette.
pub proof fn law_palette_store_requests(a0: App, s: String, a1: App, r: bool)
    requires
        a0.wf(),
        s@ == "/save"@ || s@ == "/history"@,
        update_spec(a0, Action::CommandPaletteSubmit(s), a1, r),
    ensures
        a1.store_request == (if s@ == "/save"@ {
            Some(StoreRequest::Save { tab_id: a0.active_tab })
        } else {
            Some(StoreRequest::History)
        }),
        a1 == (App {
            store_request: a1.store_request,
            command_palette_open: false,
            command_palette_input: a1.command_palette_input,
            focus: Focus::ChatInput,
            ..a0
        }),
{
    reveal(update_spec);
    lemma_palette_words();
    crate::text::lemma_trim_unpadded(s@);
    assert(!has_prefix(s@, "/model "@));
    assert(!has_prefix(s@, "/theme "@));
    assert(!has_prefix(s@, "/agent "@));
    assert(s@ == "/save"@ || s@ != "/save"@);
}

/// Scrolling down and then up restores the scroll offset; following the
/// newest message stops.
pub proof fn law_scroll_down_then_up(a0: App, a1: App, a2: App, r1: bool, r2: bool)
    requires
        a0.wf(),
        a0.tabs@[a0.active_tab as int].scroll_offset < usize::MAX,
        update_spec(a0, Action::ScrollDown, a1, r1),
        update_spec(a1, Action::ScrollUp, a2, r2),
    ensures
        a2.tabs@ == a0.tabs@.update(
            a0.active_tab as int,
            Tab { auto_scroll: false, ..a0.tabs@[a0.active_tab as int] },
        ),
        a2 == (App { tabs: a2.tabs, ..a0 }),
{
    reveal(update_spec);
}


/// The concatenation of the texts of `cs`, in order.
pub open spec fn concat_texts(cs: Seq<String>) -> Seq<char>
    decreases cs.len(),
{
    if cs.len() == 0 {
        Seq::empty()
    } else {
        concat_texts(cs.drop_last()) + cs.last()@
    }
}

proof fn lemma_find_unchanged(pt: Tab, qt: Tab, k: int, c: Seq<char>, id: u128)
    requires
        message_content_set(pt, qt, k, c),
    ensures
        find_message(qt.messages@, id) == find_message(pt.messages@, id),
{
    let a = pt.messages@;
    let b = qt.messages@;
    assert forall|i: int| 0 <= i < a.len() implies b[i].id == a[i].id by {
        if i == k {
        }
    }
    lemma_find_same(a, b, id, 0);
}

proof fn lemma_find_same(a: Seq<Message>, b: Seq<Message>, id: u128, i: int)
    requires
        a.len() == b.len(),
        forall|j: int| 0 <= j < a.len() ==> b[j].id == a[j].id,
        0 <= i,
    ensures
        find_from(b, id, i) == find_from(a, id, i),
    decreases a.len() - i,
{
    if i < a.len() {
        lemma_find_same(a, b, id, i + 1);
    }
}

proof fn lemma_update_chunk(pre: App, tab_id: usize, id: u128, chunk: String, post: App, r: bool)
    requires
        update_spec(pre, Action::StreamChunk { tab_id, message_id: id, chunk }, post, r),
    ensures
        stream_chunk_spec(pre, tab_id, id, chunk@, post),
{
    reveal(update_spec);
}

proof fn lemma_update_done(pre: App, tab_id: usize, id: u128, content: String, u: Usage, post: App, r: bool)
    requires
        update_spec(pre, Action::StreamDone { tab_id, message_id: id, content, usage: u }, post, r),
    ensures
        stream_done_spec(pre, tab_id, id, u, post),
{
    reveal(update_spec);
}

/// Streaming: after the chunks `chunks` arrive for message `id` of tab
/// `tab_id`, in order, the message's text is its earlier text followed by
/// the chunks, in order.
pub proof fn law_stream_chunks_concatenate(
    states: Seq<App>,
    flags: Seq<bool>,
    chunks: Seq<String>,
    tab_id: usize,
    id: u128,
)
    requires
        states.len() == chunks.len() + 1,
        flags.len() == chunks.len(),
        tab_id < states[0].tabs@.len(),
        find_message(states[0].tabs@[tab_id as int].messages@, id) >= 0,
        forall|i: int|
            0 <= i < chunks.len() ==> update_spec(
                #[trigger] states[i],
                Action::StreamChunk { tab_id, message_id: id, chunk: chunks[i] },
                states[i + 1],
                flags[i],
            ),
    ensures
        ({
            let k = find_message(states[0].tabs@[tab_id as int].messages@, id);
            let last = states[chunks.len() as int];
            &&& tab_id < last.tabs@.len()
            &&& find_message(last.tabs@[tab_id as int].messages@, id) == k
            &&& last.tabs@[tab_id as int].messages@[k].content@
                == states[0].tabs@[tab_id as int].messages@[k].content@ + concat_texts(chunks)
            &&& message_content_set(
                states[0].tabs@[tab_id as int],
                last.tabs@[tab_id as int],
                k,
                states[0].tabs@[tab_id as int].messages@[k].content@ + concat_texts(chunks),
            )
        }),
    decreases chunks.len(),
{
    let k = find_message(states[0].tabs@[tab_id as int].messages@, id);
    lemma_find_from(states[0].tabs@[tab_id as int].messages@, id, 0);
    if chunks.len() == 0 {
        assert(states[0].tabs@[tab_id as int].messages@[k].content@ + concat_texts(chunks)
            =~= states[0].tabs@[tab_id as int].messages@[k].content@);
        let t0 = states[0].tabs@[tab_id as int];
        assert(t0.messages@.update(k, t0.messages@[k]) =~= t0.messages@);
    } else {
        let n = chunks.len() - 1;
        let s2 = states.take(n + 1);
        let c2 = chunks.take(n);
        let f2 = flags.take(n);
        assert forall|i: int| 0 <= i < c2.len() implies update_spec(
            #[trigger] s2[i],
            Action::StreamChunk { tab_id, message_id: id, chunk: c2[i] },
            s2[i + 1],
            f2[i],
        ) by {
            assert(s2[i] == states[i]);
            assert(s2[i + 1] == states[i + 1]);
            assert(c2[i] == chunks[i]);
            assert(update_spec(
                states[i],
                Action::StreamChunk { tab_id, message_id: id, chunk: chunks[i] },
                states[i + 1],
                flags[i],
            ));
        }
        law_stream_chunks_concatenate(s2, f2, c2, tab_id, id);
        assert(s2[n] == states[n]);
        assert(update_spec(
            states[n],
            Action::StreamChunk { tab_id, message_id: id, chunk: chunks[n] },
            states[n + 1],
            flags[n],
        ));
        lemma_update_chunk(states[n], tab_id, id, chunks[n], states[n + 1], flags[n]);
        let pre = states[n];
        let post = states[n + 1];
        lemma_find_unchanged(
            pre.tabs@[tab_id as int],
            post.tabs@[tab_id as int],
            k,
            pre.tabs@[tab_id as int].messages@[k].content@ + chunks[n]@,
            id,
        );
        assert(chunks.drop_last() == c2);
        assert(states[0].tabs@[tab_id as int].messages@[k].content@ + concat_texts(chunks)
            =~= states[0].tabs@[tab_id as int].messages@[k].content@ + concat_texts(c2) + chunks[n]@);
        lemma_content_set_compose(
            states[0].tabs@[tab_id as int],
            pre.tabs@[tab_id as int],
            post.tabs@[tab_id as int],
            k,
            states[0].tabs@[tab_id as int].messages@[k].content@ + concat_texts(c2),
            states[0].tabs@[tab_id as int].messages@[k].content@ + concat_texts(chunks),
        );
    }
}

proof fn lemma_content_set_compose(a: Tab, b: Tab, c: Tab, k: int, x: Seq<char>, y: Seq<char>)
    requires
        message_content_set(a, b, k, x),
        message_content_set(b, c, k, y),
    ensures
        message_content_set(a, c, k, y),
{
    assert(c.messages@ =~= a.messages@.update(k, c.messages@[k]));
}


/// A tool call from request to result: after the model requests call `c`
/// in tab `t`, whose last message is the assistant's, the call is pending
/// and listed last on that message, and it waits for the user; once the
/// user confirms it, it is running and no longer waits; once its result
/// `r` arrives, it has succeeded with `r`, and a tool message for `c`
/// carrying `r` follows the assistant's message.
pub proof fn law_tool_call_lifecycle(
    a0: App,
    a1: App,
    a2: App,
    a3: App,
    t: usize,
    c: String,
    name: String,
    args: String,
    result: String,
    f1: bool,
    f2: bool,
    f3: bool,
)
    requires
        a0.wf(),
        t < a0.tabs@.len(),
        a0.tabs@[t as int].messages@.len() > 0,
        a0.tabs@[t as int].messages@.last().role == Role::Assistant,
        a0.confirmations@.len() == 0,
        update_spec(a0, Action::ToolCallRequest { tab_id: t, call_id: c, name, args }, a1, f1),
        update_spec(
            a1,
            Action::ConfirmToolCall(ToolCallConfirmation { tab_id: t, call_id: c, name, args }),
            a2,
            f2,
        ),
        update_spec(a2, Action::ToolCallResponse { tab_id: t, call_id: c, result }, a3, f3),
    ensures
        ({
            let k = a0.tabs@[t as int].messages@.len();
            let m1 = a1.tabs@[t as int].messages@[k - 1];
            &&& a1.tabs@[t as int].pending_tool_calls@[c@] == ToolCallStatus::Pending
            &&& is_function_call(calls_of(m1).last(), c@, name@, args@)
            &&& a1.confirmations@ == seq![ToolCallConfirmation { tab_id: t, call_id: c, name, args }]
            &&& a2.tabs@[t as int].pending_tool_calls@[c@] == ToolCallStatus::Running
            &&& a2.confirmations@.len() == 0
            &&& a3.tabs@[t as int].pending_tool_calls@[c@] == ToolCallStatus::Success { result }
            &&& a3.tabs@[t as int].messages@.len() == k + 1
            &&& a3.tabs@[t as int].messages@[k - 1] == m1
            &&& is_plain_message(a3.tabs@[t as int].messages@[k as int], Role::Tool, result@, Some(c@))
        }),
{
    reveal(update_spec);
    let k = a0.tabs@[t as int].messages@.len();
    assert(a0.tabs@[t as int].messages@.last() == a0.tabs@[t as int].messages@[k - 1]);
    assert(a1.confirmations@ =~= seq![ToolCallConfirmation { tab_id: t, call_id: c, name, args }]);
    let m3 = a3.tabs@[t as int].messages@;
    assert(m3[k - 1] == m3.drop_last()[k - 1]);
    assert(m3[k as int] == m3.last());
}

proof fn lemma_find_first(s: Seq<Message>, id: u128, k: int)
    requires
        0 <= k < s.len(),
        s[k].id == id,
        forall|j: int| 0 <= j < k ==> s[j].id != id,
    ensures
        find_message(s, id) == k,
{
    lemma_find_from(s, id, 0);
}

/// A whole stream, from start to end: after `StreamStart` for a message
/// `id` that tab `tab_id` does not hold yet, the chunks in order, and then
/// `StreamDone` or `StreamError` for the same message, the tab holds one
/// more message, an assistant message `id` after the earlier ones. When the
/// stream is done its text is the chunks joined, or "(空响应)" when they
/// are empty, and the stream's usage is added to the tab's; after an error
/// the text is the error and the usage stays.
pub proof fn law_stream_session(
    states: Seq<App>,
    flags: Seq<bool>,
    chunks: Seq<String>,
    tab_id: usize,
    id: u128,
    last: Action,
)
    requires
        states.len() == chunks.len() + 3,
        flags.len() == chunks.len() + 2,
        tab_id < states[0].tabs@.len(),
        find_message(states[0].tabs@[tab_id as int].messages@, id) == -1,
        update_spec(states[0], Action::StreamStart { tab_id, message_id: id }, states[1], flags[0]),
        forall|i: int|
            0 <= i < chunks.len() ==> update_spec(
                #[trigger] states[i + 1],
                Action::StreamChunk { tab_id, message_id: id, chunk: chunks[i] },
                states[i + 2],
                flags[i + 1],
            ),
        match last {
            Action::StreamDone { tab_id: t, message_id: m, .. } => t == tab_id && m == id,
            Action::StreamError { tab_id: t, message_id: m, .. } => t == tab_id && m == id,
            _ => false,
        },
        update_spec(states[chunks.len() as int + 1], last, states[chunks.len() as int + 2], flags[chunks.len() as int + 1]),
    ensures
        ({
            let t0 = states[0].tabs@[tab_id as int];
            let k = t0.messages@.len() as int;
            let t = states[chunks.len() as int + 2].tabs@[tab_id as int];
            let text = concat_texts(chunks);
            &&& tab_id < states[chunks.len() as int + 2].tabs@.len()
            &&& t.messages@.len() == k + 1
            &&& t.messages@.take(k) == t0.messages@
            &&& t.messages@[k].id == id
            &&& t.messages@[k].role == Role::Assistant
            &&& match last {
                Action::StreamDone { usage, .. } => t.total_usage == usage_sum(t0.total_usage, usage)
                    && t.messages@[k].content@ == (if text.len() == 0 {
                    empty_answer()
                } else {
                    text
                }),
                Action::StreamError { error, .. } => t.total_usage == t0.total_usage
                    && t.messages@[k].content@ == error_content(error@),
                _ => true,
            }
        }),
{
    reveal(update_spec);
    let n = chunks.len() as int;
    let t0 = states[0].tabs@[tab_id as int];
    let k = t0.messages@.len() as int;
    let t1 = states[1].tabs@[tab_id as int];
    let text = concat_texts(chunks);
    assert(t1.messages@[k] == t1.messages@.last());
    lemma_find_from(t0.messages@, id, 0);
    assert forall|j: int| 0 <= j < k implies t1.messages@[j].id != id by {
        assert(t1.messages@[j] == t1.messages@.drop_last()[j]);
    }
    lemma_find_first(t1.messages@, id, k);
    let sub = states.subrange(1, n + 2);
    let fsub = flags.subrange(1, n + 1);
    assert forall|i: int| 0 <= i < chunks.len() implies update_spec(
        #[trigger] sub[i],
        Action::StreamChunk { tab_id, message_id: id, chunk: chunks[i] },
        sub[i + 1],
        fsub[i],
    ) by {
        assert(sub[i] == states[i + 1]);
        assert(sub[i + 1] == states[i + 2]);
        assert(fsub[i] == flags[i + 1]);
    }
    assert(sub[0] == states[1]);
    law_stream_chunks_concatenate(sub, fsub, chunks, tab_id, id);
    assert(sub[n] == states[n + 1]);
    let pre = states[n + 1];
    let tp = pre.tabs@[tab_id as int];
    assert(t1.messages@[k].content@ + text =~= text);
    assert(tp.messages@.take(k) =~= t0.messages@) by {
        assert(t1.messages@.drop_last() == t0.messages@);
        assert forall|j: int| 0 <= j < k implies tp.messages@[j] == t0.messages@[j] by {
            assert(tp.messages@[j] == t1.messages@[j]);
            assert(t1.messages@[j] == t1.messages@.drop_last()[j]);
        }
    }
    let fin = states[n + 2];
    let tf = fin.tabs@[tab_id as int];
    match last {
        Action::StreamDone { usage, .. } => {
            let mid = Tab { total_usage: usage_sum(tp.total_usage, usage), ..tp };
            if text.len() == 0 {
                assert(tf.messages@.take(k) =~= tp.messages@.take(k));
            } else {
                assert(tf == mid);
            }
        },
        Action::StreamError { error, .. } => {
            assert(tf.messages@.take(k) =~= tp.messages@.take(k));
        },
        _ => {},
    }
}

/// `start` with every usage of `us` added, in order.
pub open spec fn usage_fold(start: Usage, us: Seq<Usage>) -> Usage
    decreases us.len(),
{
    if us.len() == 0 {
        start
    } else {
        usage_sum(usage_fold(start, us.drop_last()), us.last())
    }
}

/// Token accounting: after streams finish in tab `tab_id` with usages `us`,
/// in order, the tab's totals are its earlier totals plus all of them.
pub proof fn law_usage_accumulates(
    states: Seq<App>,
    flags: Seq<bool>,
    ids: Seq<u128>,
    contents: Seq<String>,
    us: Seq<Usage>,
    tab_id: usize,
)
    requires
        states.len() == us.len() + 1,
        flags.len() == us.len(),
        ids.len() == us.len(),
        contents.len() == us.len(),
        tab_id < states[0].tabs@.len(),
        forall|i: int|
            0 <= i < us.len() ==> update_spec(
                #[trigger] states[i],
                Action::StreamDone { tab_id, message_id: ids[i], content: contents[i], usage: us[i] },
                states[i + 1],
                flags[i],
            ),
    ensures
        tab_id < states[us.len() as int].tabs@.len(),
        states[us.len() as int].tabs@[tab_id as int].total_usage == usage_fold(
            states[0].tabs@[tab_id as int].total_usage,
            us,
        ),
    decreases us.len(),
{
    if us.len() > 0 {
        let n = us.len() - 1;
        let s2 = states.take(n + 1);
        assert forall|i: int| 0 <= i < n implies update_spec(
            #[trigger] s2[i],
            Action::StreamDone {
                tab_id,
                message_id: ids.take(n)[i],
                content: contents.take(n)[i],
                usage: us.take(n)[i],
            },
            s2[i + 1],
            flags.take(n)[i],
        ) by {
            assert(s2[i] == states[i]);
            assert(s2[i + 1] == states[i + 1]);
            assert(update_spec(
                states[i],
                Action::StreamDone { tab_id, message_id: ids[i], content: contents[i], usage: us[i] },
                states[i + 1],
                flags[i],
            ));
        }
        law_usage_accumulates(s2, flags.take(n), ids.take(n), contents.take(n), us.take(n), tab_id);
        assert(s2[n] == states[n]);
        assert(update_spec(
            states[n],
            Action::StreamDone { tab_id, message_id: ids[n], content: contents[n], usage: us[n] },
            states[n + 1],
            flags[n],
        ));
        lemma_update_done(states[n], tab_id, ids[n], contents[n], us[n], states[n + 1], flags[n]);
        assert(us.drop_last() == us.take(n));
    }
}


/// A chat request for the API, without its sampling temperature.
#[derive(Debug)]
pub struct ChatRequest {
    /// The tab the answer belongs to.
    pub tab_id: usize,
    pub model: String,
    pub messages: Vec<ApiMessage>,
    pub tools: Option<Vec<Tool>>,
    pub max_tokens: u32,
    pub stream: bool,
}

fn find_agent(agents: &Vec<AgentConfig>, name: &str) -> (r: Option<usize>)
    ensures
        match r {
            Some(k) => k == agent_index_from(agents@, name@, 0) && k < agents@.len(),
            None => agent_index_from(agents@, name@, 0) == -1,
        },
{
    let n = agents.len();
    for i in 0..n
        invariant
            n == agents@.len(),
            agent_index_from(agents@, name@, 0) == agent_index_from(agents@, name@, i as int),
    {
        if str_eq(agents[i].name.as_str(), name) {
            return Some(i);
        }
    }
    None
}

impl App {
    /// The streamed request for the active tab: the client's model, the
    /// system prompt of the tab's agent (empty when no agent has its name)
    /// followed by the tab's messages in API form, and that agent's tools.
    pub fn chat_request(&self) -> (r: ChatRequest)
        requires
            self.wf(),
        ensures
            ({
                let t = self.tabs@[self.active_tab as int];
                let k = agent_index_from(self.agents@, t.agent_name@, 0);
                &&& r.tab_id == self.active_tab
                &&& r.model@ == self.client.model_spec()
                &&& r.max_tokens == 4096
                &&& r.stream
                &&& r.messages@.len() == t.messages@.len() + 1
                &&& r.messages@[0].role@ == "system"@
                &&& r.messages@[0].content@ == (if k >= 0 {
                    self.agents@[k].system_prompt@
                } else {
                    Seq::empty()
                })
                &&& r.messages@[0].tool_calls is None
                &&& r.messages@[0].tool_call_id is None
                &&& r.messages@[0].name is None
                &&& forall|i: int| 0 <= i < t.messages@.len() ==> is_api_form(#[trigger] r.messages@[i + 1], t.messages@[i])
                &&& match r.tools {
                    Some(ts) => k >= 0 && ts@.len() == self.agents@[k].tools@.len() && forall|j: int|
                        0 <= j < ts@.len() ==> is_api_tool(#[trigger] ts@[j], self.agents@[k].tools@[j]),
                    None => k == -1,
                }
            }),
    {
        let tab = &self.tabs[self.active_tab];
        let agent = find_agent(&self.agents, tab.agent_name.as_str());
        proof {
            lemma_agent_index_from(self.agents@, tab.agent_name@, 0);
        }
        let system_content = match agent {
            Some(k) => self.agents[k].system_prompt.clone(),
            None => String::new(),
        };
        let mut messages: Vec<ApiMessage> = Vec::new();
        messages.push(ApiMessage {
            role: owned("system"),
            content: system_content,
            tool_calls: None,
            tool_call_id: None,
            name: None,
        });
        let n = tab.messages.len();
        for i in 0..n
            invariant
                n == tab.messages@.len(),
                messages@.len() == i + 1,
                messages@[0].role@ == "system"@,
                messages@[0].content@ == (if agent_index_from(self.agents@, tab.agent_name@, 0) >= 0 {
                    self.agents@[agent_index_from(self.agents@, tab.agent_name@, 0)].system_prompt@
                } else {
                    Seq::empty()
                }),
                messages@[0].tool_calls is None,
                messages@[0].tool_call_id is None,
                messages@[0].name is None,
                forall|j: int| 0 <= j < i ==> is_api_form(#[trigger] messages@[j + 1], tab.messages@[j]),
        {
            messages.push(ApiMessage::from_message(&tab.messages[i]));
        }
        let tools = match agent {
            Some(k) => Some(self.agents[k].to_api_tools()),
            None => None,
        };
        ChatRequest {
            tab_id: self.active_tab,
            model: owned(self.client.model()),
            messages,
            tools,
            max_tokens: 4096,
            stream: true,
        }
    }
}

} // verus!
