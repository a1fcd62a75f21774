//! The settings of a thread workspace: where it lies, and how the hook
//! commands of the template are pointed at this program.

use crate::json::{
    item_views, json_parse, json_pretty, last_index, lemma_array_view,
    lemma_lookup_at_last_index, lemma_object_view, lookup, member_views, Json, JsonModel,
};
use crate::context::{history, history_context, history_context_of};
use crate::paths::{is_absolute, join_path, joined};
use crate::types::option_str_view;
use crate::text::{
    can_complete, char_is_ascii_alphanumeric, chars_of, contains, is_ascii_alphanumeric,
    lemma_replace_all_leaves_none, lemma_replace_all_without_occurrence, occurs_at, push_char,
    replace_all, replace_chars, string_of,
};
use vstd::prelude::*;

verus! {

/// The command of a debug build, as the template writes it.
pub open spec fn debug_placeholder() -> Seq<char> {
    "$CLAUDE_PROJECT_DIR/target/debug/ccterm"@
}

/// The command of a release build, as the template writes it.
pub open spec fn release_placeholder() -> Seq<char> {
    "$CLAUDE_PROJECT_DIR/target/release/ccterm"@
}

/// Where the thread workspaces lie below the base workspace.
pub open spec fn threads_dir() -> Seq<char> {
    ".ccterm/threads"@
}

/// A thread id as a directory name: every character that is not an ASCII
/// letter or digit becomes `_`.
pub open spec fn sanitized(thread_id: Seq<char>) -> Seq<char> {
    Seq::new(
        thread_id.len(),
        |i: int|
            if is_ascii_alphanumeric(thread_id[i]) {
                thread_id[i]
            } else {
                '_'
            },
    )
}

/// A hook command pointed at `exe_path`: every occurrence of the
/// placeholder of a debug build is replaced by the path, and then every
/// occurrence of the placeholder of a release build.
pub open spec fn replaced_command(command: Seq<char>, exe_path: Seq<char>) -> Seq<char> {
    replace_all(
        replace_all(command, debug_placeholder(), exe_path),
        release_placeholder(),
        exe_path,
    )
}

/// Whether a path can be part of a placeholder that only the replacement
/// puts together. Either a placeholder can begin within the path: from
/// some `$` on, the path reads as a placeholder does, as far as the path
/// reaches. Or a placeholder that began before the path can go on at its
/// start: the path reads as a placeholder does from some place after its
/// `$`, as far as both reach; `/ccterm` and `/target` do so, and so does
/// the empty path.
pub open spec fn path_completes_placeholder(exe_path: Seq<char>) -> bool {
    can_complete(exe_path, debug_placeholder()) || can_complete(exe_path, release_placeholder())
}

/// The workspace of a thread below `base`.
pub open spec fn thread_workspace(base: Seq<char>, thread_id: Seq<char>) -> Seq<char> {
    joined(joined(base, threads_dir()), sanitized(thread_id))
}

/// A thread id as a directory name: see `sanitized`.
pub fn sanitize_thread_id(thread_id: &str) -> (r: String)
    ensures
        r@ == sanitized(thread_id@),
        r@.len() == thread_id@.len(),
        forall|i: int|
            0 <= i < thread_id@.len() ==> r@[i] == if is_ascii_alphanumeric(thread_id@[i]) {
                thread_id@[i]
            } else {
                '_'
            },
{
    let chars = chars_of(thread_id);
    let mut out: Vec<char> = Vec::new();
    let mut i: usize = 0;
    while i < chars.len()
        invariant
            i <= chars.len(),
            out@ == sanitized(chars@).take(i as int),
        decreases chars.len() - i,
    {
        let c = chars[i];
        if char_is_ascii_alphanumeric(c) {
            out.push(c);
        } else {
            out.push('_');
        }
        assert(out@ == sanitized(chars@).take(i + 1));
        i += 1;
    }
    assert(sanitized(chars@).take(chars.len() as int) == sanitized(chars@));
    string_of(&out)
}

/// A hook command pointed at `exe_path`: see `replaced_command`.
pub fn replace_ccterm_command(command: &str, exe_path: &str) -> (r: String)
    ensures
        r@ == replaced_command(command@, exe_path@),
{
    let text = chars_of(command);
    let exe = chars_of(exe_path);
    let debug = chars_of("$CLAUDE_PROJECT_DIR/target/debug/ccterm");
    let release = chars_of("$CLAUDE_PROJECT_DIR/target/release/ccterm");
    let first = replace_chars(&text, &debug, &exe);
    string_of(&replace_chars(&first, &release, &exe))
}

/// The workspace of a thread below `base`: see `thread_workspace`.
pub fn thread_workspace_path(base: &str, thread_id: &str) -> (r: String)
    ensures
        r@ == thread_workspace(base@, thread_id@),
{
    let threads = join_path(base, ".ccterm/threads");
    let name = sanitize_thread_id(thread_id);
    join_path(threads.as_str(), name.as_str())
}

/// `members` with `value` as the value of the last member named `key`;
/// `members` themselves where none is named so.
pub open spec fn with_member(
    members: Seq<(Seq<char>, JsonModel)>,
    key: Seq<char>,
    value: JsonModel,
) -> Seq<(Seq<char>, JsonModel)> {
    let at = last_index(members, key);
    if 0 <= at < members.len() {
        members.update(at, (members[at].0, value))
    } else {
        members
    }
}

/// One hook with its `command` pointed at `exe_path`, where it is an object
/// whose `command` is a string.
pub open spec fn rewritten_hook(hook: JsonModel, exe_path: Seq<char>) -> JsonModel {
    match hook {
        JsonModel::Object(members) => match hook.member("command"@) {
            Some(JsonModel::Text(command)) => JsonModel::Object(
                with_member(
                    members,
                    "command"@,
                    JsonModel::Text(replaced_command(command, exe_path)),
                ),
            ),
            _ => hook,
        },
        _ => hook,
    }
}

/// Each of the hooks rewritten.
pub open spec fn rewritten_hooks(hooks: Seq<JsonModel>, exe_path: Seq<char>) -> Seq<JsonModel> {
    Seq::new(hooks.len(), |i: int| rewritten_hook(hooks[i], exe_path))
}

/// One entry of an event with the hooks of its `hooks` list rewritten,
/// where it is an object whose `hooks` is a list.
pub open spec fn rewritten_entry(entry: JsonModel, exe_path: Seq<char>) -> JsonModel {
    match entry {
        JsonModel::Object(members) => match entry.member("hooks"@) {
            Some(JsonModel::Array(hooks)) => JsonModel::Object(
                with_member(members, "hooks"@, JsonModel::Array(rewritten_hooks(hooks, exe_path))),
            ),
            _ => entry,
        },
        _ => entry,
    }
}

/// Each of the entries rewritten.
pub open spec fn rewritten_entries(entries: Seq<JsonModel>, exe_path: Seq<char>) -> Seq<JsonModel> {
    Seq::new(entries.len(), |i: int| rewritten_entry(entries[i], exe_path))
}

/// What stands under one event name with its entries rewritten, where it
/// is a list.
pub open spec fn rewritten_event(value: JsonModel, exe_path: Seq<char>) -> JsonModel {
    match value {
        JsonModel::Array(entries) => JsonModel::Array(rewritten_entries(entries, exe_path)),
        _ => value,
    }
}

/// Each of the events rewritten, under its own name.
pub open spec fn rewritten_events(
    events: Seq<(Seq<char>, JsonModel)>,
    exe_path: Seq<char>,
) -> Seq<(Seq<char>, JsonModel)> {
    Seq::new(events.len(), |i: int| (events[i].0, rewritten_event(events[i].1, exe_path)))
}

/// The settings with every hook command at `hooks.<event>[].hooks[].command`
/// pointed at `exe_path`, where the settings are an object whose `hooks` is
/// an object. All else stays as it is.
pub open spec fn rewritten_settings(settings: JsonModel, exe_path: Seq<char>) -> JsonModel {
    match settings {
        JsonModel::Object(members) => match settings.member("hooks"@) {
            Some(JsonModel::Object(events)) => JsonModel::Object(
                with_member(
                    members,
                    "hooks"@,
                    JsonModel::Object(rewritten_events(events, exe_path)),
                ),
            ),
            _ => settings,
        },
        _ => settings,
    }
}

/// The settings file of a thread workspace: the template rewritten,
/// written as indented JSON and ended by a line feed.
pub open spec fn rendered_settings(template: Seq<char>, exe_path: Seq<char>) -> Option<Seq<char>> {
    match json_parse(template) {
        Some(settings) => match json_pretty(rewritten_settings(settings, exe_path)) {
            Some(text) => Some(text.push('\n')),
            None => None,
        },
        None => None,
    }
}

/// Why the settings of a thread workspace could not be rendered.
#[derive(Debug, Clone, Copy, PartialEq, Eq, Structural)]
pub enum SettingsError {
    /// The template is not JSON.
    Template,
    /// The rewritten settings could not be written as JSON.
    Render,
}

impl SettingsError {
    /// The error in words.
    pub fn message(&self) -> (r: String)
        ensures
            r@ == match *self {
                SettingsError::Template => "failed to parse base settings.json"@,
                SettingsError::Render => "failed to render settings.json"@,
            },
    {
        match self {
            SettingsError::Template => String::from_str("failed to parse base settings.json"),
            SettingsError::Render => String::from_str("failed to render settings.json"),
        }
    }
}

fn copy_members_with(members: &Vec<(String, Json)>, at: usize, value: Json) -> (r: Vec<
    (String, Json),
>)
    requires
        at < members.len(),
    ensures
        member_views(r@) == member_views(members@).update(
            at as int,
            (members@[at as int].0@, value@),
        ),
{
    let mut out: Vec<(String, Json)> = Vec::new();
    let mut held: Option<Json> = Some(value);
    let mut i: usize = 0;
    while i < members.len()
        invariant
            i <= members.len(),
            at < members.len(),
            out.len() == i,
            i <= at ==> held == Some(value),
            forall|j: int|
                0 <= j < i ==> out@[j].0@ == members@[j].0@ && out@[j].1@ == if j == at {
                    value@
                } else {
                    members@[j].1@
                },
        decreases members.len() - i,
    {
        let name = members[i].0.clone();
        let item = if i == at {
            match held.take() {
                Some(v) => v,
                None => members[i].1.deep_copy(),
            }
        } else {
            members[i].1.deep_copy()
        };
        out.push((name, item));
        i += 1;
    }
    assert(member_views(out@) =~= member_views(members@).update(
        at as int,
        (members@[at as int].0@, value@),
    ));
    out
}

fn rewrite_hook(hook: &Json, exe_path: &str) -> (r: Json)
    ensures
        r@ == rewritten_hook(hook@, exe_path@),
{
    if let Json::Object(members) = hook {
        proof {
            lemma_object_view(*members);
            lemma_lookup_at_last_index(member_views(members@), "command"@);
        }
        if let Some(at) = Json::find_member(members, "command") {
            if let Json::Text(command) = &members[at].1 {
                let updated = Json::Text(replace_ccterm_command(command.as_str(), exe_path));
                let out = copy_members_with(members, at, updated);
                proof {
                    lemma_object_view(out);
                }
                return Json::Object(out);
            }
        }
    }
    hook.deep_copy()
}

fn rewrite_entry(entry: &Json, exe_path: &str) -> (r: Json)
    ensures
        r@ == rewritten_entry(entry@, exe_path@),
{
    if let Json::Object(members) = entry {
        proof {
            lemma_object_view(*members);
            lemma_lookup_at_last_index(member_views(members@), "hooks"@);
        }
        if let Some(at) = Json::find_member(members, "hooks") {
            if let Json::Array(hooks) = &members[at].1 {
                proof {
                    lemma_array_view(*hooks);
                }
                let mut list: Vec<Json> = Vec::new();
                let mut i: usize = 0;
                while i < hooks.len()
                    invariant
                        i <= hooks.len(),
                        list.len() == i,
                        forall|j: int|
                            0 <= j < i ==> list@[j]@ == rewritten_hook(hooks@[j]@, exe_path@),
                    decreases hooks.len() - i,
                {
                    list.push(rewrite_hook(&hooks[i], exe_path));
                    i += 1;
                }
                proof {
                    lemma_array_view(list);
                    assert(item_views(list@) =~= rewritten_hooks(item_views(hooks@), exe_path@));
                }
                let out = copy_members_with(members, at, Json::Array(list));
                proof {
                    lemma_object_view(out);
                }
                return Json::Object(out);
            }
        }
    }
    entry.deep_copy()
}

fn rewrite_event(value: &Json, exe_path: &str) -> (r: Json)
    ensures
        r@ == rewritten_event(value@, exe_path@),
{
    if let Json::Array(entries) = value {
        proof {
            lemma_array_view(*entries);
        }
        let mut list: Vec<Json> = Vec::new();
        let mut i: usize = 0;
        while i < entries.len()
            invariant
                i <= entries.len(),
                list.len() == i,
                forall|j: int| 0 <= j < i ==> list@[j]@ == rewritten_entry(entries@[j]@, exe_path@),
            decreases entries.len() - i,
        {
            list.push(rewrite_entry(&entries[i], exe_path));
            i += 1;
        }
        proof {
            lemma_array_view(list);
            assert(item_views(list@) =~= rewritten_entries(item_views(entries@), exe_path@));
        }
        return Json::Array(list);
    }
    value.deep_copy()
}

/// The settings with every hook command pointed at `exe_path`: see
/// `rewritten_settings`.
pub fn rewrite_hook_commands(settings: &Json, exe_path: &str) -> (r: Json)
    ensures
        r@ == rewritten_settings(settings@, exe_path@),
{
    if let Json::Object(members) = settings {
        proof {
            lemma_object_view(*members);
            lemma_lookup_at_last_index(member_views(members@), "hooks"@);
        }
        if let Some(at) = Json::find_member(members, "hooks") {
            if let Json::Object(events) = &members[at].1 {
                proof {
                    lemma_object_view(*events);
                }
                let mut list: Vec<(String, Json)> = Vec::new();
                let mut i: usize = 0;
                while i < events.len()
                    invariant
                        i <= events.len(),
                        list.len() == i,
                        forall|j: int|
                            0 <= j < i ==> list@[j].0@ == events@[j].0@ && list@[j].1@
                                == rewritten_event(events@[j].1@, exe_path@),
                    decreases events.len() - i,
                {
                    let name = events[i].0.clone();
                    let value = rewrite_event(&events[i].1, exe_path);
                    list.push((name, value));
                    i += 1;
                }
                proof {
                    lemma_object_view(list);
                    assert(member_views(list@) =~= rewritten_events(
                        member_views(events@),
                        exe_path@,
                    ));
                }
                let out = copy_members_with(members, at, Json::Object(list));
                proof {
                    lemma_object_view(out);
                }
                return Json::Object(out);
            }
        }
    }
    settings.deep_copy()
}

/// The settings file of a thread workspace, from the template of the base
/// workspace: see `rendered_settings`. The template is refused if and only
/// if it is not JSON.
pub fn render_thread_settings(template: &str, exe_path: &str) -> (r: Result<String, SettingsError>)
    ensures
        match r {
            Ok(text) => rendered_settings(template@, exe_path@) == Some(text@),
            Err(SettingsError::Template) => json_parse(template@) is None,
            Err(SettingsError::Render) => json_parse(template@) is Some && rendered_settings(
                template@,
                exe_path@,
            ) is None,
        },
{
    let settings = match Json::parse(template) {
        Ok(settings) => settings,
        Err(_) => {
            return Err(SettingsError::Template);
        },
    };
    let rewritten = rewrite_hook_commands(&settings, exe_path);
    match rewritten.to_pretty_string() {
        Ok(text) => {
            let mut out = text;
            push_char(&mut out, '\n');
            Ok(out)
        },
        Err(_) => Err(SettingsError::Render),
    }
}

/// The two placeholders never occur at the same place: they differ
/// where one says `debug` and the other `release`.
proof fn lemma_placeholders()
    ensures
        debug_placeholder().len() == 39,
        release_placeholder().len() == 41,
        debug_placeholder()[27] == 'd',
        release_placeholder()[27] == 'r',
{
    reveal_strlit("$CLAUDE_PROJECT_DIR/target/debug/ccterm");
    reveal_strlit("$CLAUDE_PROJECT_DIR/target/release/ccterm");
}

/// A command that was pointed at a path holds neither placeholder, unless
/// the path can complete one.
pub proof fn lemma_rewritten_command_holds_no_placeholder(command: Seq<char>, exe_path: Seq<char>)
    requires
        !path_completes_placeholder(exe_path),
    ensures
        !contains(replaced_command(command, exe_path), debug_placeholder()),
        !contains(replaced_command(command, exe_path), release_placeholder()),
{
    lemma_placeholders();
    let debug = debug_placeholder();
    let release = release_placeholder();
    let first = replace_all(command, debug, exe_path);
    lemma_replace_all_leaves_none(command, debug, exe_path, debug);
    assert forall|at: int| occurs_at(first, debug, at) implies occurs_at(first, release, at) by {
        assert(contains(first, debug));
    }
    lemma_replace_all_leaves_none(first, release, exe_path, debug);
    lemma_replace_all_leaves_none(first, release, exe_path, release);
}

/// To point a command at the same path a second time changes nothing,
/// unless the path can complete a placeholder.
pub proof fn lemma_command_twice(command: Seq<char>, exe_path: Seq<char>)
    requires
        !path_completes_placeholder(exe_path),
    ensures
        replaced_command(replaced_command(command, exe_path), exe_path) == replaced_command(
            command,
            exe_path,
        ),
{
    let once = replaced_command(command, exe_path);
    lemma_rewritten_command_holds_no_placeholder(command, exe_path);
    lemma_replace_all_without_occurrence(once, debug_placeholder(), exe_path);
    lemma_replace_all_without_occurrence(once, release_placeholder(), exe_path);
}

proof fn lemma_last_index_of_names(
    a: Seq<(Seq<char>, JsonModel)>,
    b: Seq<(Seq<char>, JsonModel)>,
    key: Seq<char>,
)
    requires
        a.len() == b.len(),
        forall|i: int| 0 <= i < a.len() ==> a[i].0 == b[i].0,
    ensures
        last_index(a, key) == last_index(b, key),
    decreases a.len(),
{
    if a.len() > 0 {
        assert(a.last().0 == b.last().0);
        assert forall|i: int| 0 <= i < a.drop_last().len() implies a.drop_last()[i].0
            == b.drop_last()[i].0 by {
            assert(a.drop_last()[i] == a[i]);
            assert(b.drop_last()[i] == b[i]);
        }
        lemma_last_index_of_names(a.drop_last(), b.drop_last(), key);
    }
}

/// Replacing the value of a member leaves its place, makes the lookup find
/// the new value, and is undone by a second replacement.
proof fn lemma_with_member(
    members: Seq<(Seq<char>, JsonModel)>,
    key: Seq<char>,
    value: JsonModel,
    other: JsonModel,
)
    requires
        last_index(members, key) >= 0,
    ensures
        last_index(with_member(members, key, value), key) == last_index(members, key),
        lookup(with_member(members, key, value), key) == Some(value),
        with_member(with_member(members, key, value), key, other) == with_member(
            members,
            key,
            other,
        ),
{
    lemma_lookup_at_last_index(members, key);
    let changed = with_member(members, key, value);
    lemma_last_index_of_names(changed, members, key);
    lemma_lookup_at_last_index(changed, key);
    assert(with_member(changed, key, other) =~= with_member(members, key, other));
}

proof fn lemma_hook_twice(hook: JsonModel, exe_path: Seq<char>)
    requires
        !path_completes_placeholder(exe_path),
    ensures
        rewritten_hook(rewritten_hook(hook, exe_path), exe_path) == rewritten_hook(hook, exe_path),
{
    if let JsonModel::Object(members) = hook {
        lemma_lookup_at_last_index(members, "command"@);
        if let Some(JsonModel::Text(command)) = hook.member("command"@) {
            lemma_command_twice(command, exe_path);
            let once = JsonModel::Text(replaced_command(command, exe_path));
            let twice = JsonModel::Text(
                replaced_command(replaced_command(command, exe_path), exe_path),
            );
            lemma_with_member(members, "command"@, once, twice);
            lemma_with_member(members, "command"@, once, once);
        }
    }
}

proof fn lemma_entry_twice(entry: JsonModel, exe_path: Seq<char>)
    requires
        !path_completes_placeholder(exe_path),
    ensures
        rewritten_entry(rewritten_entry(entry, exe_path), exe_path) == rewritten_entry(
            entry,
            exe_path,
        ),
{
    if let JsonModel::Object(members) = entry {
        lemma_lookup_at_last_index(members, "hooks"@);
        if let Some(JsonModel::Array(hooks)) = entry.member("hooks"@) {
            let once = rewritten_hooks(hooks, exe_path);
            assert forall|i: int| 0 <= i < hooks.len() implies rewritten_hook(once[i], exe_path)
                == once[i] by {
                lemma_hook_twice(hooks[i], exe_path);
            }
            assert(rewritten_hooks(once, exe_path) =~= once);
            lemma_with_member(
                members,
                "hooks"@,
                JsonModel::Array(once),
                JsonModel::Array(once),
            );
        }
    }
}

proof fn lemma_event_twice(value: JsonModel, exe_path: Seq<char>)
    requires
        !path_completes_placeholder(exe_path),
    ensures
        rewritten_event(rewritten_event(value, exe_path), exe_path) == rewritten_event(
            value,
            exe_path,
        ),
{
    if let JsonModel::Array(entries) = value {
        let once = rewritten_entries(entries, exe_path);
        assert forall|i: int| 0 <= i < entries.len() implies rewritten_entry(once[i], exe_path)
            == once[i] by {
            lemma_entry_twice(entries[i], exe_path);
        }
        assert(rewritten_entries(once, exe_path) =~= once);
    }
}

/// To rewrite the settings a second time with the same path changes
/// nothing, unless the path can complete a placeholder. With such a path
/// a command can hold a placeholder after the first rewriting, which the
/// second then replaces.
pub proof fn lemma_rewrite_twice(settings: JsonModel, exe_path: Seq<char>)
    requires
        !path_completes_placeholder(exe_path),
    ensures
        rewritten_settings(rewritten_settings(settings, exe_path), exe_path) == rewritten_settings(
            settings,
            exe_path,
        ),
{
    if let JsonModel::Object(members) = settings {
        lemma_lookup_at_last_index(members, "hooks"@);
        if let Some(JsonModel::Object(events)) = settings.member("hooks"@) {
            let once = rewritten_events(events, exe_path);
            assert forall|i: int| 0 <= i < events.len() implies rewritten_event(
                once[i].1,
                exe_path,
            ) == once[i].1 by {
                lemma_event_twice(events[i].1, exe_path);
            }
            assert(rewritten_events(once, exe_path) =~= once);
            lemma_with_member(
                members,
                "hooks"@,
                JsonModel::Object(once),
                JsonModel::Object(once),
            );
        }
    }
}

/// What a thread workspace needs: its directories, and the settings file
/// to write where it has none.
#[derive(Debug, Clone, PartialEq, Eq)]
pub struct WorkspacePlan {
    /// The workspace itself.
    pub dir: String,
    /// The directory of its settings.
    pub settings_dir: String,
    /// The settings file.
    pub settings_path: String,
    /// What to write into the settings file; nothing where it exists.
    pub settings: Option<String>,
}

/// The name of the settings file.
pub open spec fn settings_file() -> Seq<char> {
    "settings.json"@
}

/// What the workspace of a thread needs. `settings_dir_name` names the
/// directory of the settings below a workspace, `settings_exists` says
/// whether the thread's settings file is there already. The paths depend
/// on the base workspace and the thread alone; a settings file that exists
/// is left as it is, and the template is then not read.
pub fn plan_thread_workspace(
    base: &str,
    thread_id: &str,
    settings_dir_name: &str,
    template: &str,
    exe_path: &str,
    settings_exists: bool,
) -> (r: Result<WorkspacePlan, SettingsError>)
    ensures
        match r {
            Ok(plan) => {
                &&& plan.dir@ == thread_workspace(base@, thread_id@)
                &&& plan.settings_dir@ == joined(plan.dir@, settings_dir_name@)
                &&& plan.settings_path@ == joined(plan.settings_dir@, settings_file())
                &&& match plan.settings {
                    Some(text) => !settings_exists && rendered_settings(template@, exe_path@)
                        == Some(text@),
                    None => settings_exists,
                }
            },
            Err(SettingsError::Template) => !settings_exists && json_parse(template@) is None,
            Err(SettingsError::Render) => !settings_exists && json_parse(template@) is Some
                && rendered_settings(template@, exe_path@) is None,
        },
{
    let dir = thread_workspace_path(base, thread_id);
    let settings_dir = join_path(dir.as_str(), settings_dir_name);
    let settings_path = join_path(settings_dir.as_str(), "settings.json");
    let settings = if settings_exists {
        None
    } else {
        match render_thread_settings(template, exe_path) {
            Ok(text) => Some(text),
            Err(e) => {
                return Err(e);
            },
        }
    };
    Ok(WorkspacePlan { dir, settings_dir, settings_path, settings })
}

/// The context to write into the workspace of a new thread: the context
/// block of the channel's transcript up to the cutoff. Nothing is written
/// where the context file exists, where there is no transcript, or where
/// the transcript has no history.
pub open spec fn context_to_write(
    transcript: Option<Seq<char>>,
    cutoff_ts: Option<Seq<char>>,
    context_exists: bool,
) -> Option<Seq<char>> {
    match transcript {
        Some(content) => if context_exists {
            None
        } else {
            history_context(history(content, cutoff_ts))
        },
        None => None,
    }
}

/// The context to write into the workspace of a new thread: see
/// `context_to_write`. `transcript` is the text of the channel's
/// transcript file, where there is one.
pub fn plan_thread_context(
    transcript: Option<&str>,
    cutoff_ts: Option<&str>,
    context_exists: bool,
) -> (r: Option<String>)
    ensures
        match r {
            Some(block) => context_to_write(
                option_str_view(transcript),
                option_str_view(cutoff_ts),
                context_exists,
            ) == Some(block@),
            None => context_to_write(
                option_str_view(transcript),
                option_str_view(cutoff_ts),
                context_exists,
            ) is None,
        },
{
    match transcript {
        Some(content) => if context_exists {
            None
        } else {
            history_context_of(content, cutoff_ts)
        },
        None => None,
    }
}

/// Where the context file of a thread workspace exists, no context is
/// written, whatever the transcript holds.
pub proof fn lemma_existing_context_is_kept(
    transcript: Option<Seq<char>>,
    cutoff_ts: Option<Seq<char>>,
)
    ensures
        context_to_write(transcript, cutoff_ts, true) is None,
{
}

/// The workspace of a thread is the directory of the thread workspaces,
/// a separator and the thread's directory name.
proof fn lemma_thread_workspace_shape(base: Seq<char>, thread_id: Seq<char>)
    ensures
        thread_workspace(base, thread_id) == joined(base, threads_dir()).push('/') + sanitized(
            thread_id,
        ),
        joined(base, threads_dir()).len() >= base.len() + 15,
{
    reveal_strlit(".ccterm/threads");
    let dir = joined(base, threads_dir());
    assert(!is_absolute(threads_dir()));
    assert(dir.last() == 's');
    assert(!is_absolute(sanitized(thread_id)));
}

/// The workspace of a thread is never the base workspace.
pub proof fn lemma_thread_workspace_is_not_base(base: Seq<char>, thread_id: Seq<char>)
    ensures
        thread_workspace(base, thread_id) != base,
{
    lemma_thread_workspace_shape(base, thread_id);
    assert(thread_workspace(base, thread_id).len() > base.len());
}

/// Two threads have the same workspace if and only if their ids give the
/// same directory name: ids that differ only in characters that are no
/// ASCII letters or digits, as `1700.123` and `1700_123`, share one.
pub proof fn lemma_thread_workspaces_by_name(base: Seq<char>, a: Seq<char>, b: Seq<char>)
    ensures
        thread_workspace(base, a) == thread_workspace(base, b) <==> sanitized(a) == sanitized(b),
{
    lemma_thread_workspace_shape(base, a);
    lemma_thread_workspace_shape(base, b);
    let stem = joined(base, threads_dir()).push('/');
    if thread_workspace(base, a) == thread_workspace(base, b) {
        assert((stem + sanitized(a)).skip(stem.len() as int) == sanitized(a));
        assert((stem + sanitized(b)).skip(stem.len() as int) == sanitized(b));
    }
}

} // verus!
