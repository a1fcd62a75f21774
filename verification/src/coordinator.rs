//! The coordinator's state and its decisions.
//!
//! The coordinator owns the table of sessions. What it decides is stated
//! here as transitions from a state and an event to the next state and an
//! action; to perform the action, and to report what came of it, is the
//! caller's part.

use crate::assoc::{Keyed, KeyedList};
use crate::hooks::{HookEvent, HookEventView};
use crate::paths::{is_absolute, join_path, joined, path_is_absolute};
use crate::settings::{thread_workspace, thread_workspace_path};
use crate::sessions::{pane_ready, prompt_ready, PROMPT_GLYPH};
use crate::text::str_eq;
use crate::types::{copy_option, option_view, IncomingMessage, IncomingView, OutgoingMessage, OutgoingView};
use vstd::prelude::*;

verus! {

/// A conversation: a channel, or a thread of a channel.
#[derive(Debug, Clone, PartialEq, Eq)]
pub struct ConversationKey {
    pub conversation_id: String,
    pub thread_id: Option<String>,
}

/// The mathematical value of a `ConversationKey`.
pub struct KeyView {
    pub conversation_id: Seq<char>,
    pub thread_id: Option<Seq<char>>,
}

/// What is known of a live session.
#[derive(Debug, Clone, PartialEq, Eq)]
pub struct SessionEntry {
    pub session_name: String,
    pub workspace_dir: String,
    pub last_transcript_path: Option<String>,
    pub last_delivered_turn_id: Option<String>,
}

/// The mathematical value of a `SessionEntry`.
pub struct EntryView {
    pub session_name: Seq<char>,
    pub workspace_dir: Seq<char>,
    pub last_transcript_path: Option<Seq<char>>,
    pub last_delivered_turn_id: Option<Seq<char>>,
}

impl View for ConversationKey {
    type V = KeyView;

    open spec fn view(&self) -> KeyView {
        KeyView { conversation_id: self.conversation_id@, thread_id: option_view(self.thread_id) }
    }
}

impl View for SessionEntry {
    type V = EntryView;

    open spec fn view(&self) -> EntryView {
        EntryView {
            session_name: self.session_name@,
            workspace_dir: self.workspace_dir@,
            last_transcript_path: option_view(self.last_transcript_path),
            last_delivered_turn_id: option_view(self.last_delivered_turn_id),
        }
    }
}

fn option_same(a: &Option<String>, b: &Option<String>) -> (r: bool)
    ensures
        r == (option_view(*a) == option_view(*b)),
{
    match (a, b) {
        (Some(x), Some(y)) => *x == *y,
        (None, None) => true,
        _ => false,
    }
}

impl Keyed for ConversationKey {
    fn same(&self, other: &Self) -> (b: bool) {
        self.conversation_id == other.conversation_id && option_same(
            &self.thread_id,
            &other.thread_id,
        )
    }

    fn copy(&self) -> (r: Self) {
        ConversationKey {
            conversation_id: self.conversation_id.clone(),
            thread_id: copy_option(&self.thread_id),
        }
    }
}

impl ConversationKey {
    /// The key of a channel itself.
    pub fn main(conversation_id: &str) -> (r: Self)
        ensures
            r@ == main_key(conversation_id@),
    {
        ConversationKey { conversation_id: String::from_str(conversation_id), thread_id: None }
    }

    /// The key of the conversation that a message belongs to.
    pub fn of_message(msg: &IncomingMessage) -> (r: Self)
        ensures
            r@ == key_of(msg@),
    {
        ConversationKey {
            conversation_id: msg.conversation_id.clone(),
            thread_id: copy_option(&msg.thread_id),
        }
    }
}

impl SessionEntry {
    /// A copy of the entry.
    pub fn copy(&self) -> (r: Self)
        ensures
            r@ == self@,
    {
        SessionEntry {
            session_name: self.session_name.clone(),
            workspace_dir: self.workspace_dir.clone(),
            last_transcript_path: copy_option(&self.last_transcript_path),
            last_delivered_turn_id: copy_option(&self.last_delivered_turn_id),
        }
    }
}

/// The key of a channel itself.
pub open spec fn main_key(conversation_id: Seq<char>) -> KeyView {
    KeyView { conversation_id, thread_id: None }
}

/// The key of the conversation that a message belongs to.
pub open spec fn key_of(msg: IncomingView) -> KeyView {
    KeyView { conversation_id: msg.conversation_id, thread_id: msg.thread_id }
}

/// The coordinator's state as mathematics.
pub struct CoordinatorView {
    pub base_workspace: Seq<char>,
    pub events_path: Seq<char>,
    pub sessions_by_key: Map<KeyView, EntryView>,
    pub key_by_workspace: Map<Seq<char>, KeyView>,
    pub main_by_conversation: Map<Seq<char>, KeyView>,
    pub hook_receivers: Set<Seq<char>>,
}

impl CoordinatorView {
    /// What holds of every state: each workspace on record leads to a
    /// session that runs in it, each session's workspace is on record,
    /// each channel on record leads to its own key, and each channel that
    /// has a session is on record.
    pub open spec fn wf(self) -> bool {
        &&& forall|w: Seq<char>| #[trigger]
            self.key_by_workspace.contains_key(w) ==> self.sessions_by_key.contains_key(
                self.key_by_workspace[w],
            ) && self.sessions_by_key[self.key_by_workspace[w]].workspace_dir == w
        &&& forall|k: KeyView| #[trigger]
            self.sessions_by_key.contains_key(k) ==> self.key_by_workspace.contains_key(
                self.sessions_by_key[k].workspace_dir,
            )
        &&& forall|c: Seq<char>| #[trigger]
            self.main_by_conversation.contains_key(c) ==> self.main_by_conversation[c] == main_key(
                c,
            )
        &&& forall|k: KeyView| #[trigger]
            self.sessions_by_key.contains_key(k) && k.thread_id is None
                ==> self.main_by_conversation.contains_key(k.conversation_id)
    }

    /// Whether no two sessions run in the same workspace.
    pub open spec fn workspaces_distinct(self) -> bool {
        forall|a: KeyView, b: KeyView|
            #![trigger self.sessions_by_key[a], self.sessions_by_key[b]]
            self.sessions_by_key.contains_key(a) && self.sessions_by_key.contains_key(b) && a != b
                ==> self.sessions_by_key[a].workspace_dir != self.sessions_by_key[b].workspace_dir
    }

    /// Where the hook file of a workspace lies: at the configured path
    /// where that is absolute, else at that path below the workspace.
    pub open spec fn hook_path(self, workspace_dir: Seq<char>) -> Seq<char> {
        if is_absolute(self.events_path) {
            self.events_path
        } else {
            joined(workspace_dir, self.events_path)
        }
    }

    /// The workspace in which the session of a conversation runs: the base
    /// workspace for a channel, a directory of its own for a thread.
    pub open spec fn workspace_of(self, key: KeyView) -> Seq<char> {
        match key.thread_id {
            None => self.base_workspace,
            Some(thread_id) => thread_workspace(self.base_workspace, thread_id),
        }
    }
}

/// What to do with a message from the chat platform.
#[derive(Debug, Clone, PartialEq, Eq)]
pub enum IncomingAction {
    /// The conversation has a session: wait for its prompt, then send.
    Send { session_name: String, text: String },
    /// The conversation has none: start one in `workspace_dir`, report it
    /// with `session_started`, then wait for its prompt and send.
    Start { key: ConversationKey, workspace_dir: String, text: String },
}

/// The mathematical value of an `IncomingAction`.
pub enum IncomingActionView {
    Send { session_name: Seq<char>, text: Seq<char> },
    Start { key: KeyView, workspace_dir: Seq<char>, text: Seq<char> },
}

impl View for IncomingAction {
    type V = IncomingActionView;

    open spec fn view(&self) -> IncomingActionView {
        match self {
            IncomingAction::Send { session_name, text } => IncomingActionView::Send {
                session_name: session_name@,
                text: text@,
            },
            IncomingAction::Start { key, workspace_dir, text } => IncomingActionView::Start {
                key: key@,
                workspace_dir: workspace_dir@,
                text: text@,
            },
        }
    }
}

/// The state after a message came in: a message for a channel puts the
/// channel on record; nothing else changes.
pub open spec fn after_incoming(state: CoordinatorView, msg: IncomingView) -> CoordinatorView {
    match msg.thread_id {
        None => CoordinatorView {
            main_by_conversation: state.main_by_conversation.insert(
                msg.conversation_id,
                main_key(msg.conversation_id),
            ),
            ..state
        },
        Some(_) => state,
    }
}

/// What to do with a message that came in.
pub open spec fn incoming_action(state: CoordinatorView, msg: IncomingView) -> IncomingActionView {
    let key = key_of(msg);
    if state.sessions_by_key.contains_key(key) {
        IncomingActionView::Send {
            session_name: state.sessions_by_key[key].session_name,
            text: msg.text,
        }
    } else {
        IncomingActionView::Start { key, workspace_dir: state.workspace_of(key), text: msg.text }
    }
}

/// The state after a session was started for `key`: the session is on
/// record with nothing known of its transcript, its workspace leads to
/// it, and where it is the session of a channel, the channel is on
/// record. A conversation that has a session keeps it.
pub open spec fn after_session_started(
    state: CoordinatorView,
    key: KeyView,
    session_name: Seq<char>,
    workspace_dir: Seq<char>,
) -> CoordinatorView {
    if state.sessions_by_key.contains_key(key) {
        state
    } else {
        CoordinatorView {
            sessions_by_key: state.sessions_by_key.insert(
                key,
                EntryView {
                    session_name,
                    workspace_dir,
                    last_transcript_path: None,
                    last_delivered_turn_id: None,
                },
            ),
            key_by_workspace: state.key_by_workspace.insert(workspace_dir, key),
            main_by_conversation: match key.thread_id {
                None => state.main_by_conversation.insert(
                    key.conversation_id,
                    main_key(key.conversation_id),
                ),
                Some(_) => state.main_by_conversation,
            },
            ..state
        }
    }
}

/// What to do with an event of the hook file.
#[derive(Debug, Clone, PartialEq, Eq)]
pub enum HookAction {
    /// The event is no `Stop`: nothing to do.
    Ignored,
    /// No session runs in the event's workspace: nothing to do but to say
    /// so in the log.
    Unregistered,
    /// Read the transcript and hand its latest turn to `plan_delivery`.
    ReadTranscript { key: ConversationKey, transcript_path: String },
}

/// The mathematical value of a `HookAction`.
pub enum HookActionView {
    Ignored,
    Unregistered,
    ReadTranscript { key: KeyView, transcript_path: Seq<char> },
}

impl View for HookAction {
    type V = HookActionView;

    open spec fn view(&self) -> HookActionView {
        match self {
            HookAction::Ignored => HookActionView::Ignored,
            HookAction::Unregistered => HookActionView::Unregistered,
            HookAction::ReadTranscript { key, transcript_path } => HookActionView::ReadTranscript {
                key: key@,
                transcript_path: transcript_path@,
            },
        }
    }
}

/// A reply that is due: the turn it stems from and the message to send.
#[derive(Debug, Clone, PartialEq, Eq)]
pub struct Delivery {
    pub turn_id: String,
    pub message: OutgoingMessage,
}

/// The mathematical value of a `Delivery`.
pub struct DeliveryView {
    pub turn_id: Seq<char>,
    pub message: OutgoingView,
}

impl View for Delivery {
    type V = DeliveryView;

    open spec fn view(&self) -> DeliveryView {
        DeliveryView { turn_id: self.turn_id@, message: self.message@ }
    }
}

/// The name of the event that ends a turn.
pub open spec fn stop_event() -> Seq<char> {
    "Stop"@
}

/// Whether an event is a `Stop` from a workspace in which a session runs.
pub open spec fn hook_counts(state: CoordinatorView, hook: HookEventView) -> bool {
    hook.event_name == stop_event() && state.key_by_workspace.contains_key(hook.cwd)
}

/// The state after an event of the hook file: a `Stop` from the workspace
/// of a session puts the event's transcript on record for that session.
/// Any other event changes nothing.
pub open spec fn after_hook(state: CoordinatorView, hook: HookEventView) -> CoordinatorView {
    if hook_counts(state, hook) {
        let key = state.key_by_workspace[hook.cwd];
        CoordinatorView {
            sessions_by_key: state.sessions_by_key.insert(
                key,
                EntryView {
                    last_transcript_path: Some(hook.transcript_path),
                    ..state.sessions_by_key[key]
                },
            ),
            ..state
        }
    } else {
        state
    }
}

/// What to do with an event of the hook file. The session is found by the
/// event's workspace.
pub open spec fn hook_action(state: CoordinatorView, hook: HookEventView) -> HookActionView {
    if hook.event_name != stop_event() {
        HookActionView::Ignored
    } else if !state.key_by_workspace.contains_key(hook.cwd) {
        HookActionView::Unregistered
    } else {
        HookActionView::ReadTranscript {
            key: state.key_by_workspace[hook.cwd],
            transcript_path: hook.transcript_path,
        }
    }
}

/// The reply that is due for a conversation whose transcript ends in the
/// turn `latest`: the turn's text, unless the conversation has no session,
/// the transcript has no turn, or the turn is the one delivered last.
pub open spec fn delivery_for(
    state: CoordinatorView,
    key: KeyView,
    latest: Option<(Seq<char>, Seq<char>)>,
) -> Option<DeliveryView> {
    match latest {
        Some((turn_id, text)) => if state.sessions_by_key.contains_key(key)
            && state.sessions_by_key[key].last_delivered_turn_id != Some(turn_id) {
            Some(
                DeliveryView {
                    turn_id,
                    message: OutgoingView {
                        text,
                        conversation_id: key.conversation_id,
                        thread_id: key.thread_id,
                    },
                },
            )
        } else {
            None
        },
        None => None,
    }
}

/// The state after a reply was delivered: its turn is on record as the
/// one delivered last.
pub open spec fn after_delivery(
    state: CoordinatorView,
    key: KeyView,
    turn_id: Seq<char>,
) -> CoordinatorView {
    if state.sessions_by_key.contains_key(key) {
        CoordinatorView {
            sessions_by_key: state.sessions_by_key.insert(
                key,
                EntryView {
                    last_delivered_turn_id: Some(turn_id),
                    ..state.sessions_by_key[key]
                },
            ),
            ..state
        }
    } else {
        state
    }
}

/// Where the context of a new thread comes from: the transcript of the
/// channel's own session, read up to the time of the message. There is
/// none where the channel has no session or its session has not ended a
/// turn yet.
pub open spec fn context_source(state: CoordinatorView, msg: IncomingView) -> Option<
    (Seq<char>, Option<Seq<char>>),
> {
    let key = main_key(msg.conversation_id);
    if state.main_by_conversation.contains_key(msg.conversation_id)
        && state.sessions_by_key.contains_key(key) {
        match state.sessions_by_key[key].last_transcript_path {
            Some(path) => Some((path, msg.timestamp)),
            None => None,
        }
    } else {
        None
    }
}

/// The coordinator's state.
pub struct Coordinator {
    base_workspace: String,
    events_path: String,
    sessions_by_key: KeyedList<ConversationKey, SessionEntry>,
    key_by_workspace: KeyedList<String, ConversationKey>,
    main_by_conversation: KeyedList<String, ConversationKey>,
    hook_receivers: KeyedList<String, String>,
}

impl View for Coordinator {
    type V = CoordinatorView;

    closed spec fn view(&self) -> CoordinatorView {
        CoordinatorView {
            base_workspace: self.base_workspace@,
            events_path: self.events_path@,
            sessions_by_key: self.sessions_by_key@,
            key_by_workspace: self.key_by_workspace@,
            main_by_conversation: self.main_by_conversation@,
            hook_receivers: self.hook_receivers@.dom(),
        }
    }
}

impl Coordinator {
    /// A coordinator without sessions. `base_workspace` is the base
    /// working directory, `events_path` the configured path of the hook
    /// file.
    pub fn new(base_workspace: &str, events_path: &str) -> (r: Self)
        ensures
            r@.wf(),
            r@.base_workspace == base_workspace@,
            r@.events_path == events_path@,
            r@.sessions_by_key == Map::<KeyView, EntryView>::empty(),
            r@.key_by_workspace == Map::<Seq<char>, KeyView>::empty(),
            r@.main_by_conversation == Map::<Seq<char>, KeyView>::empty(),
            r@.hook_receivers == Set::<Seq<char>>::empty(),
    {
        let r = Coordinator {
            base_workspace: String::from_str(base_workspace),
            events_path: String::from_str(events_path),
            sessions_by_key: KeyedList::new(),
            key_by_workspace: KeyedList::new(),
            main_by_conversation: KeyedList::new(),
            hook_receivers: KeyedList::new(),
        };
        assert(r@.hook_receivers =~= Set::<Seq<char>>::empty());
        r
    }

    /// Where the hook file of a workspace lies.
    pub fn hook_path_for_cwd(&self, workspace_dir: &str) -> (r: String)
        ensures
            r@ == self@.hook_path(workspace_dir@),
    {
        if path_is_absolute(self.events_path.as_str()) {
            self.events_path.clone()
        } else {
            join_path(workspace_dir, self.events_path.as_str())
        }
    }

    /// The session of a conversation, if it has one.
    pub fn session(&self, key: &ConversationKey) -> (r: Option<SessionEntry>)
        ensures
            match r {
                Some(entry) => self@.sessions_by_key.contains_key(key@)
                    && self@.sessions_by_key[key@] == entry@,
                None => !self@.sessions_by_key.contains_key(key@),
            },
    {
        match self.sessions_by_key.get(key) {
            Some(entry) => Some(entry.copy()),
            None => None,
        }
    }

    /// Whether a tailer still has to be started for the hook file of a
    /// workspace.
    pub fn needs_hook_receiver(&self, workspace_dir: &str) -> (r: bool)
        ensures
            r == !self@.hook_receivers.contains(workspace_dir@),
    {
        let key = String::from_str(workspace_dir);
        !self.hook_receivers.contains_key(&key)
    }
}

impl Coordinator {
    /// Takes a message from the chat platform: see `after_incoming` and
    /// `incoming_action`. Any text is taken, an empty one too.
    pub fn handle_incoming(&mut self, msg: &IncomingMessage) -> (action: IncomingAction)
        requires
            old(self)@.wf(),
        ensures
            final(self)@.wf(),
            final(self)@ == after_incoming(old(self)@, msg@),
            action@ == incoming_action(old(self)@, msg@),
    {
        let key = ConversationKey::of_message(msg);
        if msg.thread_id.is_none() {
            self.main_by_conversation.insert(
                msg.conversation_id.clone(),
                ConversationKey::main(msg.conversation_id.as_str()),
            );
        }
        assert(self@ == after_incoming(old(self)@, msg@));
        match self.sessions_by_key.get(&key) {
            Some(entry) => IncomingAction::Send {
                session_name: entry.session_name.clone(),
                text: msg.text.clone(),
            },
            None => {
                let workspace_dir = match &msg.thread_id {
                    None => self.base_workspace.clone(),
                    Some(thread_id) => thread_workspace_path(
                        self.base_workspace.as_str(),
                        thread_id.as_str(),
                    ),
                };
                IncomingAction::Start { key, workspace_dir, text: msg.text.clone() }
            },
        }
    }

    /// Records that a tailer runs for the hook file `hook_path` of a
    /// workspace.
    pub fn hook_receiver_started(&mut self, workspace_dir: &str, hook_path: &str)
        requires
            old(self)@.wf(),
        ensures
            final(self)@.wf(),
            final(self)@ == (CoordinatorView {
                hook_receivers: old(self)@.hook_receivers.insert(workspace_dir@),
                ..old(self)@
            }),
    {
        self.hook_receivers.insert(String::from_str(workspace_dir), String::from_str(hook_path));
        assert(self@.hook_receivers =~= old(self)@.hook_receivers.insert(workspace_dir@));
    }

    /// Records the session that was started for a conversation, once its
    /// prompt is ready: see `after_session_started`.
    pub fn session_started(&mut self, key: &ConversationKey, session_name: &str, workspace_dir: &str)
        requires
            old(self)@.wf(),
        ensures
            final(self)@.wf(),
            final(self)@ == after_session_started(
                old(self)@,
                key@,
                session_name@,
                workspace_dir@,
            ),
    {
        if self.sessions_by_key.contains_key(key) {
            return ;
        }
        let entry = SessionEntry {
            session_name: String::from_str(session_name),
            workspace_dir: String::from_str(workspace_dir),
            last_transcript_path: None,
            last_delivered_turn_id: None,
        };
        self.sessions_by_key.insert(key.copy(), entry);
        self.key_by_workspace.insert(String::from_str(workspace_dir), key.copy());
        if key.thread_id.is_none() {
            self.main_by_conversation.insert(
                key.conversation_id.clone(),
                ConversationKey::main(key.conversation_id.as_str()),
            );
        }
        proof {
            lemma_session_started_wf(old(self)@, key@, session_name@, workspace_dir@);
        }
    }
}

/// Recording a started session keeps the state well formed.
pub proof fn lemma_session_started_wf(
    state: CoordinatorView,
    key: KeyView,
    session_name: Seq<char>,
    workspace_dir: Seq<char>,
)
    requires
        state.wf(),
    ensures
        after_session_started(state, key, session_name, workspace_dir).wf(),
{
    let next = after_session_started(state, key, session_name, workspace_dir);
    if !state.sessions_by_key.contains_key(key) {
        assert forall|w: Seq<char>| #[trigger]
            next.key_by_workspace.contains_key(w) implies next.sessions_by_key.contains_key(
            next.key_by_workspace[w],
        ) && next.sessions_by_key[next.key_by_workspace[w]].workspace_dir == w by {
            if w != workspace_dir {
                assert(state.key_by_workspace.contains_key(w));
            }
        }
        assert forall|k: KeyView| #[trigger]
            next.sessions_by_key.contains_key(k) implies next.key_by_workspace.contains_key(
            next.sessions_by_key[k].workspace_dir,
        ) by {
            if k != key {
                assert(state.sessions_by_key.contains_key(k));
            }
        }
        assert forall|c: Seq<char>| #[trigger]
            next.main_by_conversation.contains_key(c) implies next.main_by_conversation[c]
            == main_key(c) by {
            if state.main_by_conversation.contains_key(c) {
            }
        }
        assert forall|k: KeyView| #[trigger]
            next.sessions_by_key.contains_key(k) && k.thread_id is None
                implies next.main_by_conversation.contains_key(k.conversation_id) by {
            if k != key {
                assert(state.sessions_by_key.contains_key(k));
            }
        }
    }
}

proof fn lemma_entry_update_wf(state: CoordinatorView, key: KeyView, entry: EntryView)
    requires
        state.wf(),
        state.sessions_by_key.contains_key(key),
        entry.workspace_dir == state.sessions_by_key[key].workspace_dir,
    ensures
        (CoordinatorView {
            sessions_by_key: state.sessions_by_key.insert(key, entry),
            ..state
        }).wf(),
{
    let next = CoordinatorView {
        sessions_by_key: state.sessions_by_key.insert(key, entry),
        ..state
    };
    assert forall|w: Seq<char>| #[trigger]
        next.key_by_workspace.contains_key(w) implies next.sessions_by_key.contains_key(
        next.key_by_workspace[w],
    ) && next.sessions_by_key[next.key_by_workspace[w]].workspace_dir == w by {
        assert(state.key_by_workspace.contains_key(w));
    }
    assert forall|k: KeyView| #[trigger]
        next.sessions_by_key.contains_key(k) implies next.key_by_workspace.contains_key(
        next.sessions_by_key[k].workspace_dir,
    ) by {
        assert(state.sessions_by_key.contains_key(k));
    }
    assert forall|k: KeyView| #[trigger]
        next.sessions_by_key.contains_key(k) && k.thread_id is None
            implies next.main_by_conversation.contains_key(k.conversation_id) by {
        assert(state.sessions_by_key.contains_key(k));
    }
}

impl Coordinator {
    /// Takes an event of the hook file: see `after_hook` and
    /// `hook_action`. `hook.cwd` is the canonical path of the workspace.
    pub fn handle_hook(&mut self, hook: &HookEvent) -> (action: HookAction)
        requires
            old(self)@.wf(),
        ensures
            final(self)@.wf(),
            final(self)@ == after_hook(old(self)@, hook@),
            action@ == hook_action(old(self)@, hook@),
    {
        if !str_eq(hook.event_name.as_str(), "Stop") {
            return HookAction::Ignored;
        }
        let key = match self.key_by_workspace.get(&hook.cwd) {
            Some(key) => key.copy(),
            None => {
                return HookAction::Unregistered;
            },
        };
        let mut entry = match self.sessions_by_key.get(&key) {
            Some(entry) => entry.copy(),
            None => {
                assert(false);
                return HookAction::Unregistered;
            },
        };
        entry.last_transcript_path = Some(hook.transcript_path.clone());
        proof {
            lemma_entry_update_wf(old(self)@, key@, entry@);
        }
        self.sessions_by_key.insert(key.copy(), entry);
        HookAction::ReadTranscript { key, transcript_path: hook.transcript_path.clone() }
    }

    /// The reply that is due after a `Stop`, where `latest` is the latest
    /// turn of the transcript, as its identifier and its text: see
    /// `delivery_for`.
    pub fn plan_delivery(&self, key: &ConversationKey, latest: Option<(String, String)>) -> (r:
        Option<Delivery>)
        ensures
            match r {
                Some(delivery) => delivery_for(
                    self@,
                    key@,
                    match latest {
                        Some((id, text)) => Some((id@, text@)),
                        None => None,
                    },
                ) == Some(delivery@),
                None => delivery_for(
                    self@,
                    key@,
                    match latest {
                        Some((id, text)) => Some((id@, text@)),
                        None => None,
                    },
                ) is None,
            },
    {
        let (turn_id, text) = match latest {
            Some(turn) => turn,
            None => {
                return None;
            },
        };
        let entry = match self.sessions_by_key.get(key) {
            Some(entry) => entry,
            None => {
                return None;
            },
        };
        if let Some(delivered) = &entry.last_delivered_turn_id {
            if *delivered == turn_id {
                return None;
            }
        }
        let copy = key.copy();
        Some(
            Delivery {
                turn_id,
                message: OutgoingMessage {
                    text,
                    conversation_id: copy.conversation_id,
                    thread_id: copy.thread_id,
                },
            },
        )
    }

    /// Records that the reply for the turn `turn_id` reached the chat
    /// platform: see `after_delivery`. A reply that did not is not
    /// reported, so that the next `Stop` plans it again.
    pub fn delivery_succeeded(&mut self, key: &ConversationKey, turn_id: &str)
        requires
            old(self)@.wf(),
        ensures
            final(self)@.wf(),
            final(self)@ == after_delivery(old(self)@, key@, turn_id@),
    {
        let mut entry = match self.sessions_by_key.get(key) {
            Some(entry) => entry.copy(),
            None => {
                return ;
            },
        };
        entry.last_delivered_turn_id = Some(String::from_str(turn_id));
        proof {
            lemma_entry_update_wf(old(self)@, key@, entry@);
        }
        self.sessions_by_key.insert(key.copy(), entry);
    }

    /// Where the context of a new thread comes from, as the path of a
    /// transcript and the cutoff: see `context_source`.
    pub fn thread_context_source(&self, msg: &IncomingMessage) -> (r: Option<
        (String, Option<String>),
    >)
        ensures
            match r {
                Some((path, cutoff)) => context_source(self@, msg@) == Some(
                    (path@, option_view(cutoff)),
                ),
                None => context_source(self@, msg@) is None,
            },
    {
        if !self.main_by_conversation.contains_key(&msg.conversation_id) {
            return None;
        }
        let lookup = ConversationKey::main(msg.conversation_id.as_str());
        let entry = match self.sessions_by_key.get(&lookup) {
            Some(entry) => entry,
            None => {
                return None;
            },
        };
        match &entry.last_transcript_path {
            Some(path) => Some((path.clone(), copy_option(&msg.timestamp))),
            None => None,
        }
    }
}

/// A message for a conversation that has a session changes nothing: no
/// table, no entry.
pub proof fn lemma_message_to_session_changes_nothing(state: CoordinatorView, msg: IncomingView)
    requires
        state.wf(),
        state.sessions_by_key.contains_key(key_of(msg)),
    ensures
        after_incoming(state, msg) == state,
        incoming_action(state, msg) is Send,
{
    if msg.thread_id is None {
        assert(state.main_by_conversation.contains_key(msg.conversation_id));
        assert(state.main_by_conversation.insert(
            msg.conversation_id,
            main_key(msg.conversation_id),
        ) =~= state.main_by_conversation);
    }
}

/// Where no two sessions share a workspace, the workspace of each session
/// leads back to the session's own conversation. Two channels do share
/// one, the base workspace: there the workspace leads to the channel whose
/// session was started last.
pub proof fn lemma_workspace_leads_back(state: CoordinatorView, key: KeyView)
    requires
        state.wf(),
        state.workspaces_distinct(),
        state.sessions_by_key.contains_key(key),
    ensures
        state.key_by_workspace.contains_key(state.sessions_by_key[key].workspace_dir),
        state.key_by_workspace[state.sessions_by_key[key].workspace_dir] == key,
{
    let w = state.sessions_by_key[key].workspace_dir;
    assert(state.key_by_workspace.contains_key(w));
    let other = state.key_by_workspace[w];
    assert(state.sessions_by_key.contains_key(other));
    assert(state.sessions_by_key[other].workspace_dir == w);
}

/// In every state, each workspace on record leads to a session that runs
/// in that very workspace.
pub proof fn lemma_workspace_leads_to_its_session(state: CoordinatorView, workspace_dir: Seq<char>)
    requires
        state.wf(),
        state.key_by_workspace.contains_key(workspace_dir),
    ensures
        state.sessions_by_key.contains_key(state.key_by_workspace[workspace_dir]),
        state.sessions_by_key[state.key_by_workspace[workspace_dir]].workspace_dir
            == workspace_dir,
{
}

/// A session started in a workspace in which none runs keeps the
/// workspaces of the sessions distinct.
pub proof fn lemma_fresh_workspace_keeps_distinct(
    state: CoordinatorView,
    key: KeyView,
    session_name: Seq<char>,
    workspace_dir: Seq<char>,
)
    requires
        state.workspaces_distinct(),
        forall|k: KeyView| #[trigger]
            state.sessions_by_key.contains_key(k) ==> state.sessions_by_key[k].workspace_dir
                != workspace_dir,
    ensures
        after_session_started(state, key, session_name, workspace_dir).workspaces_distinct(),
{
    let next = after_session_started(state, key, session_name, workspace_dir);
    assert forall|a: KeyView, b: KeyView|
        #![trigger next.sessions_by_key[a], next.sessions_by_key[b]]
        next.sessions_by_key.contains_key(a) && next.sessions_by_key.contains_key(b) && a
            != b implies next.sessions_by_key[a].workspace_dir
        != next.sessions_by_key[b].workspace_dir by {
        if !state.sessions_by_key.contains_key(key) {
            if a != key {
                assert(state.sessions_by_key.contains_key(a));
            }
            if b != key {
                assert(state.sessions_by_key.contains_key(b));
            }
            if a != key && b != key {
                assert(state.sessions_by_key[a].workspace_dir
                    != state.sessions_by_key[b].workspace_dir);
            }
        } else {
            assert(state.sessions_by_key[a].workspace_dir != state.sessions_by_key[b].workspace_dir);
        }
    }
}

/// Once a reply was delivered, its turn is the one on record, and the
/// same turn is not due again, whatever its text.
pub proof fn lemma_delivered_turn_is_not_due(
    state: CoordinatorView,
    key: KeyView,
    turn_id: Seq<char>,
    text: Seq<char>,
)
    requires
        state.sessions_by_key.contains_key(key),
    ensures
        after_delivery(state, key, turn_id).sessions_by_key[key].last_delivered_turn_id == Some(
            turn_id,
        ),
        delivery_for(after_delivery(state, key, turn_id), key, Some((turn_id, text))) is None,
{
}

/// An event of the hook file leaves on record which turn was delivered
/// last. So a second `Stop` for a turn that was delivered has no reply
/// due.
pub proof fn lemma_second_stop_has_nothing_due(
    state: CoordinatorView,
    hook: HookEventView,
    key: KeyView,
    turn_id: Seq<char>,
    text: Seq<char>,
)
    requires
        state.wf(),
        state.sessions_by_key.contains_key(key),
        state.sessions_by_key[key].last_delivered_turn_id == Some(turn_id),
    ensures
        after_hook(state, hook).sessions_by_key.contains_key(key),
        after_hook(state, hook).sessions_by_key[key].last_delivered_turn_id == Some(turn_id),
        delivery_for(after_hook(state, hook), key, Some((turn_id, text))) is None,
{
    if hook_counts(state, hook) {
        let found = state.key_by_workspace[hook.cwd];
        assert(state.sessions_by_key.contains_key(found));
    }
}

/// An event from a workspace in which no session runs changes nothing and
/// has nothing read.
pub proof fn lemma_unregistered_hook_changes_nothing(state: CoordinatorView, hook: HookEventView)
    requires
        !state.key_by_workspace.contains_key(hook.cwd),
    ensures
        after_hook(state, hook) == state,
        hook_action(state, hook) is Ignored || hook_action(state, hook) is Unregistered,
{
}

/// How far a message has come on its way into a session.
#[derive(Debug, Clone, Copy, PartialEq, Eq, Structural)]
pub enum SendPhase {
    /// The prompt was not seen ready yet.
    Waiting,
    /// The message was handed over to be sent.
    Sent,
    /// The prompt did not come in time.
    Abandoned,
}

/// What to do after a look at the pane of a session.
#[derive(Debug, Clone, PartialEq, Eq)]
pub enum SendStep {
    /// The prompt is ready: send `text` to the session, followed by return.
    Transmit { session_name: String, text: String },
    /// Not yet: sleep for the poll interval and look again.
    Retry,
    /// The prompt did not come in time: the message is given up.
    TimedOut,
    /// Nothing is left to do.
    Finished,
}

/// The kinds of `SendStep`.
#[derive(Debug, Clone, Copy, PartialEq, Eq, Structural)]
pub enum StepKind {
    Transmit,
    Retry,
    TimedOut,
    Finished,
}

/// A message on its way into a session: it is sent at most once, and only
/// on a look at the pane that shows the prompt ready.
pub struct PendingSend {
    session_name: String,
    text: String,
    timeout_ms: u64,
    phase: SendPhase,
}

/// What a look at a pane leads to: the step, and the phase after it.
pub open spec fn send_step(
    phase: SendPhase,
    pane: Seq<char>,
    elapsed_nanos: int,
    timeout_ms: int,
) -> (StepKind, SendPhase) {
    match phase {
        SendPhase::Waiting => if pane_ready(pane, PROMPT_GLYPH) {
            (StepKind::Transmit, SendPhase::Sent)
        } else if elapsed_nanos > timeout_ms * 1_000_000 {
            (StepKind::TimedOut, SendPhase::Abandoned)
        } else {
            (StepKind::Retry, SendPhase::Waiting)
        },
        _ => (StepKind::Finished, phase),
    }
}

/// The steps that a series of looks leads to, each look given as the pane
/// and the time elapsed.
pub open spec fn send_steps(
    phase: SendPhase,
    looks: Seq<(Seq<char>, int)>,
    timeout_ms: int,
) -> Seq<StepKind>
    decreases looks.len(),
{
    if looks.len() == 0 {
        Seq::empty()
    } else {
        let (kind, next) = send_step(phase, looks[0].0, looks[0].1, timeout_ms);
        seq![kind] + send_steps(next, looks.skip(1), timeout_ms)
    }
}

impl SendStep {
    /// The kind of the step.
    pub open spec fn kind(self) -> StepKind {
        match self {
            SendStep::Transmit { .. } => StepKind::Transmit,
            SendStep::Retry => StepKind::Retry,
            SendStep::TimedOut => StepKind::TimedOut,
            SendStep::Finished => StepKind::Finished,
        }
    }
}

impl PendingSend {
    /// The phase of the message.
    pub closed spec fn phase(self) -> SendPhase {
        self.phase
    }

    /// The session that the message is for.
    pub closed spec fn session(self) -> Seq<char> {
        self.session_name@
    }

    /// The text of the message.
    pub closed spec fn text(self) -> Seq<char> {
        self.text@
    }

    /// How long the prompt is waited for, in milliseconds.
    pub closed spec fn timeout(self) -> int {
        self.timeout_ms as int
    }

    /// A message for a session, not yet sent.
    pub fn new(session_name: &str, text: &str, timeout_ms: u64) -> (r: Self)
        ensures
            r.phase() == SendPhase::Waiting,
            r.session() == session_name@,
            r.text() == text@,
            r.timeout() == timeout_ms,
    {
        PendingSend {
            session_name: String::from_str(session_name),
            text: String::from_str(text),
            timeout_ms,
            phase: SendPhase::Waiting,
        }
    }

    /// Takes a look at the pane, `elapsed_nanos` after the wait began: see
    /// `send_step`. The message is handed over only on a look that shows
    /// the prompt ready, and then as it was given.
    pub fn observe(&mut self, pane: &str, elapsed_nanos: u128) -> (step: SendStep)
        ensures
            (step.kind(), final(self).phase()) == send_step(
                old(self).phase(),
                pane@,
                elapsed_nanos as int,
                old(self).timeout(),
            ),
            final(self).session() == old(self).session(),
            final(self).text() == old(self).text(),
            final(self).timeout() == old(self).timeout(),
            step matches SendStep::Transmit { session_name, text } ==> session_name@ == old(
                self,
            ).session() && text@ == old(self).text(),
    {
        match self.phase {
            SendPhase::Waiting => {
                if prompt_ready(pane) {
                    self.phase = SendPhase::Sent;
                    SendStep::Transmit {
                        session_name: self.session_name.clone(),
                        text: self.text.clone(),
                    }
                } else if elapsed_nanos > (self.timeout_ms as u128) * 1_000_000 {
                    self.phase = SendPhase::Abandoned;
                    SendStep::TimedOut
                } else {
                    SendStep::Retry
                }
            },
            _ => SendStep::Finished,
        }
    }
}

/// How often a kind of step occurs.
pub open spec fn count_of(steps: Seq<StepKind>, kind: StepKind) -> nat
    decreases steps.len(),
{
    if steps.len() == 0 {
        0
    } else {
        count_of(steps.drop_last(), kind) + if steps.last() == kind {
            1nat
        } else {
            0nat
        }
    }
}

proof fn lemma_count_prepend(first: StepKind, rest: Seq<StepKind>, kind: StepKind)
    ensures
        count_of(seq![first] + rest, kind) == count_of(rest, kind) + if first == kind {
            1nat
        } else {
            0nat
        },
    decreases rest.len(),
{
    let all = seq![first] + rest;
    if rest.len() == 0 {
        assert(all.len() == 1);
        assert(all.last() == first);
        assert(all.drop_last() == Seq::<StepKind>::empty());
        assert(count_of(all.drop_last(), kind) == 0);
        assert(count_of(rest, kind) == 0);
    } else {
        let shorter = seq![first] + rest.drop_last();
        assert(all.drop_last() == shorter);
        assert(all.last() == rest.last());
        lemma_count_prepend(first, rest.drop_last(), kind);
        assert(count_of(all, kind) == count_of(shorter, kind) + if rest.last() == kind {
            1nat
        } else {
            0nat
        });
    }
}

proof fn lemma_finished_stays(phase: SendPhase, looks: Seq<(Seq<char>, int)>, timeout_ms: int)
    requires
        phase != SendPhase::Waiting,
    ensures
        count_of(send_steps(phase, looks, timeout_ms), StepKind::Transmit) == 0,
    decreases looks.len(),
{
    if looks.len() > 0 {
        lemma_finished_stays(phase, looks.skip(1), timeout_ms);
        lemma_count_prepend(
            StepKind::Finished,
            send_steps(phase, looks.skip(1), timeout_ms),
            StepKind::Transmit,
        );
    }
}

/// Whatever is seen of the pane, a message is handed over at most once,
/// and each time it is, the look that led to it showed the prompt ready.
/// So two sends to a session are always parted by a wait that succeeded.
pub proof fn lemma_sent_once_on_ready_prompt(
    phase: SendPhase,
    looks: Seq<(Seq<char>, int)>,
    timeout_ms: int,
)
    ensures
        send_steps(phase, looks, timeout_ms).len() == looks.len(),
        count_of(send_steps(phase, looks, timeout_ms), StepKind::Transmit) <= 1,
        forall|i: int|
            0 <= i < looks.len() && (#[trigger] send_steps(phase, looks, timeout_ms)[i])
                == StepKind::Transmit ==> pane_ready(looks[i].0, PROMPT_GLYPH),
    decreases looks.len(),
{
    if looks.len() > 0 {
        let (kind, next) = send_step(phase, looks[0].0, looks[0].1, timeout_ms);
        let rest = send_steps(next, looks.skip(1), timeout_ms);
        lemma_sent_once_on_ready_prompt(next, looks.skip(1), timeout_ms);
        lemma_count_prepend(kind, rest, StepKind::Transmit);
        if kind == StepKind::Transmit {
            lemma_finished_stays(next, looks.skip(1), timeout_ms);
        }
        assert forall|i: int|
            0 <= i < looks.len() && (#[trigger] send_steps(phase, looks, timeout_ms)[i])
                == StepKind::Transmit implies pane_ready(looks[i].0, PROMPT_GLYPH) by {
            if i > 0 {
                assert(send_steps(phase, looks, timeout_ms)[i] == rest[i - 1]);
                assert(looks.skip(1)[i - 1] == looks[i]);
            }
        }
    }
}

/// Where the prompt is never seen ready, nothing is sent; and the first
/// look after the time limit gives the message up.
pub proof fn lemma_never_ready_never_sent(looks: Seq<(Seq<char>, int)>, timeout_ms: int)
    requires
        forall|i: int| 0 <= i < looks.len() ==> !pane_ready((#[trigger] looks[i]).0, PROMPT_GLYPH),
    ensures
        count_of(send_steps(SendPhase::Waiting, looks, timeout_ms), StepKind::Transmit) == 0,
        looks.len() > 0 && looks[0].1 > timeout_ms * 1_000_000 ==> send_steps(
            SendPhase::Waiting,
            looks,
            timeout_ms,
        )[0] == StepKind::TimedOut,
    decreases looks.len(),
{
    if looks.len() > 0 {
        let (kind, next) = send_step(SendPhase::Waiting, looks[0].0, looks[0].1, timeout_ms);
        let rest = send_steps(next, looks.skip(1), timeout_ms);
        assert forall|i: int| 0 <= i < looks.skip(1).len() implies !pane_ready(
            (#[trigger] looks.skip(1)[i]).0,
            PROMPT_GLYPH,
        ) by {
            assert(looks.skip(1)[i] == looks[i + 1]);
        }
        if next == SendPhase::Waiting {
            lemma_never_ready_never_sent(looks.skip(1), timeout_ms);
        } else {
            lemma_finished_stays(next, looks.skip(1), timeout_ms);
        }
        lemma_count_prepend(kind, rest, StepKind::Transmit);
    }
}

} // verus!
