//! The session store: where a session's files lie, which sessions exist,
//! which persisted log becomes the context, and the writes that the
//! controller asks of the disk, with their effect on what is persisted.

use vstd::prelude::*;
use vstd::string::*;
use crate::message::{Message, MessageView, log_view, copy_log};
use crate::decoder::string_views;
use crate::text::{has_prefix, push_char, to_chars, from_chars, matches_at};

verus! {

// ---------------------------------------------------------------- layout

pub open spec fn digit_char(d: nat) -> char {
    if d == 0 { '0' } else if d == 1 { '1' } else if d == 2 { '2' } else if d == 3 { '3' }
    else if d == 4 { '4' } else if d == 5 { '5' } else if d == 6 { '6' } else if d == 7 { '7' }
    else if d == 8 { '8' } else { '9' }
}

/// The decimal digits of `n`, without leading zeros.
pub open spec fn decimal(n: nat) -> Seq<char>
    decreases n,
{
    if n < 10 {
        seq![digit_char(n)]
    } else {
        decimal(n / 10).push(digit_char(n % 10))
    }
}

fn append_decimal(out: &mut String, n: u64)
    ensures
        final(out)@ == old(out)@ + decimal(n as nat),
    decreases n,
{
    if n >= 10 {
        append_decimal(out, n / 10);
    }
    let d = n % 10;
    let c = if d == 0 { '0' } else if d == 1 { '1' } else if d == 2 { '2' } else if d == 3 { '3' }
    else if d == 4 { '4' } else if d == 5 { '5' } else if d == 6 { '6' } else if d == 7 { '7' }
    else if d == 8 { '8' } else { '9' };
    push_char(out, c);
    assert(final(out)@ =~= old(out)@ + decimal(n as nat));
}

/// The file that holds a session's log.
pub open spec fn history_path_of(root: Seq<char>, name: Seq<char>) -> Seq<char> {
    root + "/history/history_"@ + name + ".json"@
}

/// The file that holds a session's memory block.
pub open spec fn summary_path_of(root: Seq<char>, name: Seq<char>) -> Seq<char> {
    root + "/chats/summary_"@ + name + ".json"@
}

/// The file that receives a backup of a session's log taken at `secs`.
pub open spec fn backup_path_of(root: Seq<char>, name: Seq<char>, secs: nat) -> Seq<char> {
    root + "/backups/log_"@ + name + "_"@ + decimal(secs) + ".json"@
}

/// Where the files of every session lie, under one root directory.
pub struct StoreLayout {
    root: String,
}

impl StoreLayout {
    pub closed spec fn root_view(&self) -> Seq<char> {
        self.root@
    }

    pub fn new(root: String) -> (r: StoreLayout)
        ensures
            r.root_view() == root@,
    {
        StoreLayout { root }
    }

    /// The layout under `yuki_client` in the user's home directory.
    pub fn for_home(home: &str) -> (r: StoreLayout)
        ensures
            r.root_view() == home@ + "/yuki_client"@,
    {
        let mut root = String::from_str(home);
        root.append("/yuki_client");
        StoreLayout { root }
    }

    fn dir(&self, dir: &str) -> (r: String)
        ensures
            r@ == self.root_view() + dir@,
    {
        let mut r = self.root.clone();
        r.append(dir);
        r
    }

    fn under(&self, dir: &str, name: &str, ext: &str) -> (r: String)
        ensures
            r@ == self.root_view() + dir@ + name@ + ext@,
    {
        let mut r = self.dir(dir);
        r.append(name);
        r.append(ext);
        assert(r@ =~= self.root_view() + dir@ + name@ + ext@);
        r
    }

    pub fn history_path(&self, name: &str) -> (r: String)
        ensures
            r@ == history_path_of(self.root_view(), name@),
    {
        self.under("/history/history_", name, ".json")
    }

    pub fn summary_path(&self, name: &str) -> (r: String)
        ensures
            r@ == summary_path_of(self.root_view(), name@),
    {
        self.under("/chats/summary_", name, ".json")
    }

    pub fn backup_path(&self, name: &str, secs: u64) -> (r: String)
        ensures
            r@ == backup_path_of(self.root_view(), name@, secs as nat),
    {
        let mut r = self.root.clone();
        r.append("/backups/log_");
        r.append(name);
        r.append("_");
        append_decimal(&mut r, secs);
        r.append(".json");
        assert(r@ =~= backup_path_of(self.root_view(), name@, secs as nat));
        r
    }

    /// The directory of session logs.
    pub fn history_dir(&self) -> (r: String)
        ensures
            r@ == self.root_view() + "/history"@,
    {
        self.dir("/history")
    }

    /// The directories that must exist before a session is written.
    pub fn dirs(&self) -> (r: Vec<String>)
        ensures
            string_views(r@) == seq![
                self.root_view() + "/history"@,
                self.root_view() + "/chats"@,
                self.root_view() + "/backups"@,
            ],
    {
        let mut r: Vec<String> = Vec::new();
        r.push(self.dir("/history"));
        r.push(self.dir("/chats"));
        r.push(self.dir("/backups"));
        assert(string_views(r@) =~= seq![
            self.root_view() + "/history"@,
            self.root_view() + "/chats"@,
            self.root_view() + "/backups"@,
        ]);
        r
    }
}

/// The two files of a session: its log and its memory block.
pub fn get_file_paths(layout: &StoreLayout, chat_name: &str) -> (r: (String, String))
    ensures
        r.0@ == history_path_of(layout.root_view(), chat_name@),
        r.1@ == summary_path_of(layout.root_view(), chat_name@),
{
    (layout.history_path(chat_name), layout.summary_path(chat_name))
}

/// Two sessions never share a log file.
pub proof fn lemma_history_paths_distinct(root: Seq<char>, a: Seq<char>, b: Seq<char>)
    requires
        a != b,
    ensures
        history_path_of(root, a) != history_path_of(root, b),
{
    let pa = history_path_of(root, a);
    let pb = history_path_of(root, b);
    let k: int = (root.len() + "/history/history_"@.len()) as int;
    assert(pa.len() == root.len() + "/history/history_"@.len() + a.len() + ".json"@.len());
    assert(pb.len() == root.len() + "/history/history_"@.len() + b.len() + ".json"@.len());
    if pa == pb {
        assert(a.len() == b.len());
        assert(pa.subrange(k, k + a.len()) =~= a);
        assert(pb.subrange(k, k + b.len()) =~= b);
    }
}

// ---------------------------------------------------------------- discovery

/// The session whose log file is named `f`: `history_<name>.json`.
pub open spec fn session_of(f: Seq<char>) -> Option<Seq<char>> {
    if f.len() >= 13 && has_prefix(f, "history_"@) && f.subrange(f.len() - 5, f.len() as int)
        == ".json"@ {
        Some(f.subrange(8, f.len() - 5))
    } else {
        None
    }
}

/// The sessions named by a list of file names, in its order.
pub open spec fn sessions_in(files: Seq<Seq<char>>) -> Seq<Seq<char>>
    decreases files.len(),
{
    if files.len() == 0 {
        Seq::empty()
    } else {
        match session_of(files.last()) {
            Some(n) => sessions_in(files.drop_last()).push(n),
            None => sessions_in(files.drop_last()),
        }
    }
}

/// The sessions among `files` whose name begins with `prefix`.
pub open spec fn completions_in(files: Seq<Seq<char>>, prefix: Seq<char>) -> Seq<Seq<char>>
    decreases files.len(),
{
    if files.len() == 0 {
        Seq::empty()
    } else {
        match session_of(files.last()) {
            Some(n) => if has_prefix(n, prefix) {
                completions_in(files.drop_last(), prefix).push(n)
            } else {
                completions_in(files.drop_last(), prefix)
            },
            None => completions_in(files.drop_last(), prefix),
        }
    }
}

/// The session whose log file is named `file_name`, if it is one.
pub fn session_of_file(file_name: &str) -> (r: Option<String>)
    ensures
        crate::json::string_opt_view(r) == session_of(file_name@),
{
    proof {
        reveal_strlit("history_");
        reveal_strlit(".json");
    }
    let v = to_chars(file_name);
    let n = v.len();
    if n < 13 {
        return None;
    }
    if !matches_at(&v, 0, "history_") {
        assert(v@.subrange(0, n as int) =~= v@);
        return None;
    }
    assert(v@.subrange(0, n as int) =~= v@);
    if !matches_at(&v, n - 5, ".json") {
        assert(v@.subrange(n - 5, n as int).subrange(0, 5) =~= v@.subrange(n - 5, n as int));
        return None;
    }
    assert(v@.subrange(n - 5, n as int).subrange(0, 5) =~= v@.subrange(n - 5, n as int));
    Some(from_chars(&v, 8, n - 5))
}

/// The sessions that have a log, from the names of the files in the log
/// directory, in the order given.
pub fn list_sessions(files: &Vec<String>) -> (r: Vec<String>)
    ensures
        string_views(r@) == sessions_in(string_views(files@)),
{
    let mut r: Vec<String> = Vec::new();
    let mut i: usize = 0;
    while i < files.len()
        invariant
            i <= files@.len(),
            string_views(r@) == sessions_in(string_views(files@.subrange(0, i as int))),
        decreases files@.len() - i,
    {
        let ghost next = string_views(files@.subrange(0, i + 1));
        assert(next.drop_last() =~= string_views(files@.subrange(0, i as int)));
        assert(next.last() == files@[i as int]@);
        match session_of_file(files[i].as_str()) {
            Some(n) => {
                r.push(n);
                assert(string_views(r@) =~= sessions_in(next));
            },
            None => {},
        }
        i = i + 1;
    }
    assert(files@.subrange(0, files@.len() as int) =~= files@);
    r
}

/// The sessions that complete `prefix`, from the names of the files in the
/// log directory, in the order given.
pub fn complete_names(files: &Vec<String>, prefix: &str) -> (r: Vec<String>)
    ensures
        string_views(r@) == completions_in(string_views(files@), prefix@),
{
    let mut r: Vec<String> = Vec::new();
    let mut i: usize = 0;
    while i < files.len()
        invariant
            i <= files@.len(),
            string_views(r@) == completions_in(string_views(files@.subrange(0, i as int)), prefix@),
        decreases files@.len() - i,
    {
        let ghost next = string_views(files@.subrange(0, i + 1));
        assert(next.drop_last() =~= string_views(files@.subrange(0, i as int)));
        assert(next.last() == files@[i as int]@);
        match session_of_file(files[i].as_str()) {
            Some(n) => {
                let cs = to_chars(n.as_str());
                if matches_at(&cs, 0, prefix) {
                    assert(cs@.subrange(0, cs@.len() as int) =~= cs@);
                    r.push(n);
                    assert(string_views(r@) =~= completions_in(next, prefix@));
                } else {
                    assert(cs@.subrange(0, cs@.len() as int) =~= cs@);
                }
            },
            None => {},
        }
        i = i + 1;
    }
    assert(files@.subrange(0, files@.len() as int) =~= files@);
    r
}

// ---------------------------------------------------------------- loading

pub open spec fn opt_log_view(o: Option<Vec<Message>>) -> Option<Seq<MessageView>> {
    match o {
        Some(v) => Some(log_view(v@)),
        None => None,
    }
}

/// The context of a session from what is persisted for it: the memory
/// block where one is present and not empty, else the log where one is
/// present, else nothing. The two are never joined.
pub open spec fn chosen_context(
    memory: Option<Seq<MessageView>>,
    history: Option<Seq<MessageView>>,
) -> Seq<MessageView> {
    match memory {
        Some(m) if m.len() > 0 => m,
        _ => match history {
            Some(h) => h,
            None => Seq::empty(),
        },
    }
}

/// Picks the context of a session from its memory file and its log file,
/// each `None` where it is absent or could not be read.
pub fn select_context(memory: Option<Vec<Message>>, history: Option<Vec<Message>>) -> (r: Vec<
    Message,
>)
    ensures
        log_view(r@) == chosen_context(opt_log_view(memory), opt_log_view(history)),
{
    match memory {
        Some(m) if m.len() > 0 => m,
        _ => match history {
            Some(h) => h,
            None => {
                let r: Vec<Message> = Vec::new();
                assert(log_view(r@) =~= Seq::<MessageView>::empty());
                r
            },
        },
    }
}

// ---------------------------------------------------------------- writes

/// A write that the controller asks of the store.
#[derive(Debug)]
pub enum StoreOp {
    /// Overwrite the session's log.
    WriteHistory(String, Vec<Message>),
    /// Overwrite the session's memory block.
    WriteMemory(String, Vec<Message>),
    /// Remove the session's log, if there is one.
    RemoveHistory(String),
    /// Remove the session's memory block, if there is one.
    RemoveMemory(String),
    /// Copy the session's log, if there is one, to a new backup.
    Backup(String),
}

pub ghost enum StoreOpView {
    WriteHistory(Seq<char>, Seq<MessageView>),
    WriteMemory(Seq<char>, Seq<MessageView>),
    RemoveHistory(Seq<char>),
    RemoveMemory(Seq<char>),
    Backup(Seq<char>),
}

impl View for StoreOp {
    type V = StoreOpView;

    open spec fn view(&self) -> StoreOpView {
        match self {
            StoreOp::WriteHistory(n, l) => StoreOpView::WriteHistory(n@, log_view(l@)),
            StoreOp::WriteMemory(n, l) => StoreOpView::WriteMemory(n@, log_view(l@)),
            StoreOp::RemoveHistory(n) => StoreOpView::RemoveHistory(n@),
            StoreOp::RemoveMemory(n) => StoreOpView::RemoveMemory(n@),
            StoreOp::Backup(n) => StoreOpView::Backup(n@),
        }
    }
}

pub open spec fn ops_view(ops: Seq<StoreOp>) -> Seq<StoreOpView> {
    ops.map_values(|o: StoreOp| o@)
}

/// What is persisted: each session's log and memory block, and the
/// backups taken so far, oldest first.
pub ghost struct StoreModel {
    pub history: Map<Seq<char>, Seq<MessageView>>,
    pub memory: Map<Seq<char>, Seq<MessageView>>,
    pub backups: Seq<(Seq<char>, Seq<MessageView>)>,
}

pub open spec fn apply_op(s: StoreModel, op: StoreOpView) -> StoreModel {
    match op {
        StoreOpView::WriteHistory(n, l) => StoreModel { history: s.history.insert(n, l), ..s },
        StoreOpView::WriteMemory(n, l) => StoreModel { memory: s.memory.insert(n, l), ..s },
        StoreOpView::RemoveHistory(n) => StoreModel { history: s.history.remove(n), ..s },
        StoreOpView::RemoveMemory(n) => StoreModel { memory: s.memory.remove(n), ..s },
        StoreOpView::Backup(n) => if s.history.contains_key(n) {
            StoreModel { backups: s.backups.push((n, s.history[n])), ..s }
        } else {
            s
        },
    }
}

/// The state after the writes, in order.
pub open spec fn apply_ops(s: StoreModel, ops: Seq<StoreOpView>) -> StoreModel
    decreases ops.len(),
{
    if ops.len() == 0 {
        s
    } else {
        apply_op(apply_ops(s, ops.drop_last()), ops.last())
    }
}

pub open spec fn map_get(m: Map<Seq<char>, Seq<MessageView>>, k: Seq<char>) -> Option<
    Seq<MessageView>,
> {
    if m.contains_key(k) {
        Some(m[k])
    } else {
        None
    }
}

/// What loading a session returns.
pub open spec fn load_spec(s: StoreModel, name: Seq<char>) -> Seq<MessageView> {
    chosen_context(map_get(s.memory, name), map_get(s.history, name))
}

pub open spec fn delete_spec(name: Seq<char>) -> Seq<StoreOpView> {
    seq![StoreOpView::RemoveHistory(name), StoreOpView::RemoveMemory(name)]
}

pub open spec fn clear_spec(name: Seq<char>) -> Seq<StoreOpView> {
    seq![
        StoreOpView::Backup(name),
        StoreOpView::WriteHistory(name, Seq::empty()),
        StoreOpView::WriteMemory(name, Seq::empty()),
    ]
}

pub open spec fn summary_spec(name: Seq<char>, memory: MessageView) -> Seq<StoreOpView> {
    seq![StoreOpView::WriteMemory(name, seq![memory]), StoreOpView::WriteHistory(name, Seq::empty())]
}

/// The writes that delete a session: its log and its memory block.
pub fn delete_ops(name: &str) -> (r: Vec<StoreOp>)
    ensures
        ops_view(r@) == delete_spec(name@),
{
    let r = vec![
        StoreOp::RemoveHistory(String::from_str(name)),
        StoreOp::RemoveMemory(String::from_str(name)),
    ];
    assert(ops_view(r@) =~= delete_spec(name@));
    r
}

/// The writes that clear a session: a backup first, then an empty log and
/// an empty memory block.
pub fn clear_ops(name: &str) -> (r: Vec<StoreOp>)
    ensures
        ops_view(r@) == clear_spec(name@),
{
    let h: Vec<Message> = Vec::new();
    let m: Vec<Message> = Vec::new();
    assert(log_view(h@) =~= Seq::<MessageView>::empty());
    assert(log_view(m@) =~= Seq::<MessageView>::empty());
    let r = vec![
        StoreOp::Backup(String::from_str(name)),
        StoreOp::WriteHistory(String::from_str(name), h),
        StoreOp::WriteMemory(String::from_str(name), m),
    ];
    assert(ops_view(r@) =~= clear_spec(name@));
    r
}

/// The write that persists a session's log.
pub fn history_ops(name: &str, log: &Vec<Message>) -> (r: Vec<StoreOp>)
    ensures
        ops_view(r@) == seq![StoreOpView::WriteHistory(name@, log_view(log@))],
{
    let r = vec![StoreOp::WriteHistory(String::from_str(name), copy_log(log))];
    assert(ops_view(r@) =~= seq![StoreOpView::WriteHistory(name@, log_view(log@))]);
    r
}

/// The writes that make `memory` a session's only context: its memory
/// block, and an empty log in place of the one it replaces.
pub fn summary_ops(name: &str, memory: &Message) -> (r: Vec<StoreOp>)
    ensures
        ops_view(r@) == summary_spec(name@, memory@),
{
    let mut block: Vec<Message> = Vec::new();
    block.push(memory.duplicate());
    assert(log_view(block@) =~= seq![memory@]);
    let empty: Vec<Message> = Vec::new();
    assert(log_view(empty@) =~= Seq::<MessageView>::empty());
    let r = vec![
        StoreOp::WriteMemory(String::from_str(name), block),
        StoreOp::WriteHistory(String::from_str(name), empty),
    ];
    assert(ops_view(r@) =~= summary_spec(name@, memory@));
    r
}

proof fn lemma_apply_two(s: StoreModel, a: StoreOpView, b: StoreOpView)
    ensures
        apply_ops(s, seq![a, b]) == apply_op(apply_op(s, a), b),
{
    assert(seq![a, b].drop_last() =~= seq![a]);
    assert(seq![a].drop_last() =~= Seq::<StoreOpView>::empty());
    assert(apply_ops(s, Seq::<StoreOpView>::empty()) == s);
    assert(apply_ops(s, seq![a]) == apply_op(s, a));
}

proof fn lemma_apply_three(s: StoreModel, a: StoreOpView, b: StoreOpView, c: StoreOpView)
    ensures
        apply_ops(s, seq![a, b, c]) == apply_op(apply_op(apply_op(s, a), b), c),
{
    assert(seq![a, b, c].drop_last() =~= seq![a, b]);
    lemma_apply_two(s, a, b);
}

/// Deleting a session that has nothing persisted changes nothing, and
/// deleting twice leaves what deleting once leaves.
pub proof fn lemma_delete_idempotent(s: StoreModel, name: Seq<char>)
    ensures
        !s.history.contains_key(name) && !s.memory.contains_key(name) ==> apply_ops(
            s,
            delete_spec(name),
        ) == s,
        apply_ops(apply_ops(s, delete_spec(name)), delete_spec(name)) == apply_ops(
            s,
            delete_spec(name),
        ),
        !apply_ops(s, delete_spec(name)).history.contains_key(name),
        !apply_ops(s, delete_spec(name)).memory.contains_key(name),
        load_spec(apply_ops(s, delete_spec(name)), name) == Seq::<MessageView>::empty(),
{
    let d = delete_spec(name);
    lemma_apply_two(s, d[0], d[1]);
    let t = apply_ops(s, d);
    lemma_apply_two(t, d[0], d[1]);
    assert(apply_ops(t, d).history =~= t.history);
    assert(apply_ops(t, d).memory =~= t.memory);
    if !s.history.contains_key(name) && !s.memory.contains_key(name) {
        assert(t.history =~= s.history);
        assert(t.memory =~= s.memory);
    }
}

/// A log written for a session without a memory block is what loading
/// the session returns.
pub proof fn lemma_persist_then_load(s: StoreModel, name: Seq<char>, log: Seq<MessageView>)
    requires
        !s.memory.contains_key(name) || s.memory[name].len() == 0,
    ensures
        load_spec(apply_op(s, StoreOpView::WriteHistory(name, log)), name) == log,
{
}

/// A non-empty memory block is what loading a session returns, whatever
/// its log holds.
pub proof fn lemma_memory_precedence(s: StoreModel, name: Seq<char>)
    requires
        s.memory.contains_key(name),
        s.memory[name].len() > 0,
    ensures
        load_spec(s, name) == s.memory[name],
{
}

/// Clearing a session with a log takes exactly one new backup, which holds
/// that log, and leaves the log and the context empty.
pub proof fn lemma_clear_backs_up(s: StoreModel, name: Seq<char>)
    requires
        s.history.contains_key(name),
    ensures
        apply_ops(s, clear_spec(name)).backups == s.backups.push((name, s.history[name])),
        apply_ops(s, clear_spec(name)).history[name] == Seq::<MessageView>::empty(),
        load_spec(apply_ops(s, clear_spec(name)), name) == Seq::<MessageView>::empty(),
{
    let c = clear_spec(name);
    lemma_apply_three(s, c[0], c[1], c[2]);
}

/// After a summary is persisted, loading the session returns the memory
/// block alone, the log that it replaces is empty, and a backup taken next
/// is a fresh one.
pub proof fn lemma_summary_then_load(s: StoreModel, name: Seq<char>, memory: MessageView)
    ensures
        load_spec(apply_ops(s, summary_spec(name, memory)), name) == seq![memory],
        apply_ops(s, summary_spec(name, memory)).history[name] == Seq::<MessageView>::empty(),
        apply_op(apply_ops(s, summary_spec(name, memory)), StoreOpView::Backup(name)).backups
            == apply_ops(s, summary_spec(name, memory)).backups.push(
            (name, Seq::<MessageView>::empty()),
        ),
{
    let c = summary_spec(name, memory);
    lemma_apply_two(s, c[0], c[1]);
}

} // verus!
