use std::collections::HashMap;
use yuki_client::controller::{file_message, parse_command, Command, Controller};
use yuki_client::message::{Message, Role};
use yuki_client::store::{
    clear_ops, complete_names, delete_ops, list_sessions, select_context, session_of_file,
    StoreLayout, StoreOp,
};

fn msg(role: Role, content: &str) -> Message {
    Message::new(role, content.to_string())
}

fn contents(log: &[Message]) -> Vec<String> {
    log.iter().map(|m| m.content.clone()).collect()
}

/// A disk made of maps, to run the store's writes on.
#[derive(Default)]
struct Disk {
    history: HashMap<String, Vec<Message>>,
    memory: HashMap<String, Vec<Message>>,
    backups: Vec<(String, Vec<Message>)>,
}

impl Disk {
    fn apply(&mut self, ops: Vec<StoreOp>) {
        for op in ops {
            match op {
                StoreOp::WriteHistory(n, l) => {
                    self.history.insert(n, l);
                }
                StoreOp::WriteMemory(n, l) => {
                    self.memory.insert(n, l);
                }
                StoreOp::RemoveHistory(n) => {
                    self.history.remove(&n);
                }
                StoreOp::RemoveMemory(n) => {
                    self.memory.remove(&n);
                }
                StoreOp::Backup(n) => {
                    if let Some(l) = self.history.get(&n) {
                        self.backups.push((n.clone(), l.clone()));
                    }
                }
            }
        }
    }

    fn load(&self, name: &str) -> Vec<Message> {
        select_context(self.memory.get(name).cloned(), self.history.get(name).cloned())
    }
}

#[test]
fn paths_follow_the_layout() {
    let l = StoreLayout::new("/home/u/yuki_client".to_string());
    assert_eq!(l.history_path("a"), "/home/u/yuki_client/history/history_a.json");
    assert_eq!(l.summary_path("a"), "/home/u/yuki_client/chats/summary_a.json");
    assert_eq!(l.backup_path("a", 1700000000), "/home/u/yuki_client/backups/log_a_1700000000.json");
    assert_eq!(l.backup_path("a", 0), "/home/u/yuki_client/backups/log_a_0.json");
    assert_eq!(l.history_dir(), "/home/u/yuki_client/history");
    assert_eq!(
        l.dirs(),
        vec![
            "/home/u/yuki_client/history".to_string(),
            "/home/u/yuki_client/chats".to_string(),
            "/home/u/yuki_client/backups".to_string(),
        ]
    );
}

#[test]
fn session_names_from_file_names() {
    assert_eq!(session_of_file("history_work.json"), Some("work".to_string()));
    assert_eq!(session_of_file("history_.json"), Some(String::new()));
    assert_eq!(session_of_file("summary_work.json"), None);
    assert_eq!(session_of_file("history_work.txt"), None);
    assert_eq!(session_of_file("history.json"), None);
    let files: Vec<String> =
        vec!["history_b.json".into(), "notes.txt".into(), "history_ab.json".into()];
    assert_eq!(list_sessions(&files), vec!["b".to_string(), "ab".to_string()]);
    assert_eq!(complete_names(&files, "a"), vec!["ab".to_string()]);
    assert_eq!(complete_names(&files, ""), vec!["b".to_string(), "ab".to_string()]);
    assert!(list_sessions(&Vec::new()).is_empty());
}

#[test]
fn load_prefers_non_empty_memory() {
    let mem = vec![msg(Role::Assistant, "MEMORY_BLOCK:\nm")];
    let hist = vec![msg(Role::User, "h1"), msg(Role::Assistant, "h2")];
    assert_eq!(contents(&select_context(Some(mem.clone()), Some(hist.clone()))), vec!["MEMORY_BLOCK:\nm"]);
    assert_eq!(contents(&select_context(Some(Vec::new()), Some(hist.clone()))), vec!["h1", "h2"]);
    assert_eq!(contents(&select_context(None, Some(hist))), vec!["h1", "h2"]);
    assert!(select_context(None, None).is_empty());
    assert!(select_context(Some(Vec::new()), None).is_empty());
}

#[test]
fn delete_of_missing_session_changes_nothing() {
    let mut disk = Disk::default();
    disk.history.insert("other".into(), vec![msg(Role::User, "x")]);
    disk.apply(delete_ops("ghost"));
    disk.apply(delete_ops("ghost"));
    assert_eq!(disk.history.len(), 1);
    assert!(disk.load("ghost").is_empty());
}

#[test]
fn persist_then_load_round_trip() {
    let mut c = Controller::new();
    c.open_session("s".into(), Vec::new());
    let mut disk = Disk::default();
    disk.apply(c.record_turn("hello", "hi there".to_string()));
    assert_eq!(contents(&disk.load("s")), vec!["hello", "hi there"]);
    assert_eq!(disk.load("s")[0].role, Role::User);
    assert_eq!(disk.load("s")[1].role, Role::Assistant);
}

#[test]
fn clear_backs_up_five_messages() {
    let log: Vec<Message> = (0..5).map(|i| msg(Role::User, &format!("m{}", i))).collect();
    let mut disk = Disk::default();
    disk.history.insert("s".into(), log.clone());
    let mut c = Controller::new();
    c.open_session("s".into(), disk.load("s"));
    disk.apply(c.clear());
    assert_eq!(disk.backups.len(), 1);
    assert_eq!(disk.backups[0].0, "s");
    assert_eq!(contents(&disk.backups[0].1), contents(&log));
    assert!(disk.history["s"].is_empty());
    assert!(c.context().is_empty());
    assert!(disk.load("s").is_empty());
    assert_eq!(contents(&clear_ops("t").into_iter().filter_map(|o| match o {
        StoreOp::WriteHistory(_, l) => Some(l),
        _ => None,
    }).flatten().collect::<Vec<_>>()), Vec::<String>::new());
}

#[test]
fn summarize_then_load_gives_memory_only() {
    let mut disk = Disk::default();
    let mut c = Controller::new();
    c.open_session("s".into(), Vec::new());
    disk.apply(c.record_turn("q", "a".to_string()));
    let (backup, request) = c.summary_request();
    disk.apply(backup);
    assert_eq!(disk.backups.len(), 1);
    assert_eq!(
        contents(&request),
        vec!["q", "a", "Summarize our conversation into 4 bullet points for your memory."]
    );
    disk.apply(c.record_summary("- point"));
    assert_eq!(contents(c.context()), vec!["MEMORY_BLOCK:\n- point"]);
    let loaded = disk.load("s");
    assert_eq!(contents(&loaded), vec!["MEMORY_BLOCK:\n- point"]);
    assert_eq!(loaded[0].role, Role::Assistant);
    assert!(disk.history["s"].is_empty());
    // A second summary takes a fresh backup and replaces the first block.
    let (backup, _) = c.summary_request();
    disk.apply(backup);
    assert_eq!(disk.backups.len(), 2);
    disk.apply(c.record_summary("- other"));
    assert_eq!(contents(&disk.load("s")), vec!["MEMORY_BLOCK:\n- other"]);
}

#[test]
fn turn_request_leaves_context_alone() {
    let mut c = Controller::new();
    assert!(!c.is_active());
    c.open_session("s".into(), vec![msg(Role::User, "a")]);
    let req = c.turn_request("b");
    assert_eq!(contents(&req), vec!["a", "b"]);
    assert_eq!(contents(c.context()), vec!["a"]);
    assert_eq!(c.session_name(), Some("s".to_string()));
}

#[test]
fn deleting_the_active_session_ends_it() {
    let mut c = Controller::new();
    c.open_session("s".into(), vec![msg(Role::User, "a")]);
    let ops = c.delete_session("other");
    assert_eq!(ops.len(), 2);
    assert!(c.is_active());
    c.delete_session("s");
    assert!(!c.is_active());
    assert!(c.context().is_empty());
}

#[test]
fn commands_are_recognised() {
    assert!(matches!(parse_command("   "), Command::Empty));
    assert!(matches!(parse_command(" /exit "), Command::Exit));
    assert!(matches!(parse_command("/quit"), Command::Exit));
    assert!(matches!(parse_command("/clear"), Command::Clear));
    assert!(matches!(parse_command("/summarize"), Command::Summarize));
    assert!(matches!(parse_command("/delete"), Command::Delete(None)));
    assert!(matches!(parse_command("/delete  old "), Command::Delete(Some(n)) if n == "old"));
    assert!(matches!(parse_command("/load work"), Command::Load(n) if n == "work"));
    assert!(matches!(parse_command("/load"), Command::Unknown(t) if t == "/load"));
    assert!(matches!(parse_command("/read ./a.txt"), Command::Read(p) if p == "./a.txt"));
    assert!(matches!(parse_command("/frobnicate"), Command::Unknown(t) if t == "/frobnicate"));
    assert!(matches!(parse_command("  hello there\n"), Command::Chat(t) if t == "hello there"));
    assert!(matches!(parse_command("exit"), Command::Chat(t) if t == "exit"));
}

#[test]
fn file_message_names_the_file() {
    assert_eq!(file_message("a.txt", "body"), "Here is the content of the file a.txt:\n\nbody");
}

#[test]
fn file_paths_of_a_session() {
    let l = StoreLayout::new("/r".to_string());
    assert_eq!(
        yuki_client::store::get_file_paths(&l, "x"),
        ("/r/history/history_x.json".to_string(), "/r/chats/summary_x.json".to_string())
    );
}

#[test]
fn layout_under_home() {
    let l = StoreLayout::for_home("/home/u");
    assert_eq!(l.history_path("n"), "/home/u/yuki_client/history/history_n.json");
}

#[test]
fn roles_by_name() {
    assert_eq!(Role::from_name("user"), Some(Role::User));
    assert_eq!(Role::from_name("assistant"), Some(Role::Assistant));
    assert_eq!(Role::from_name("system"), Some(Role::System));
    assert_eq!(Role::from_name("tool"), None);
    assert_eq!(Role::Assistant.name(), "assistant");
}

#[test]
fn unicode_whitespace_is_trimmed() {
    assert!(matches!(parse_command("\u{c}"), Command::Empty));
    assert!(matches!(parse_command("\u{a0}\u{3000} "), Command::Empty));
    assert!(matches!(parse_command("\u{2003}/clear\u{85}"), Command::Clear));
    assert!(matches!(parse_command("\u{a0}hi\u{a0}"), Command::Chat(t) if t == "hi"));
}
