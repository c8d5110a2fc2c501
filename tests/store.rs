use todo_cli::db::DB;
use todo_cli::item::{TODOItem, TodoError};
use todo_cli::lines::{join_lines, split_lines};
use todo_cli::render::render_line;
use todo_cli::stamp::Stamp;

const MIDNIGHT: i64 = 1_700_000_000;
const DAY: i64 = 86_400;

fn at(secs: i64) -> Stamp {
    Stamp { secs, nanos: 0, offset: 3_600 }
}

fn item(text: &str, secs: i64) -> TODOItem {
    TODOItem::new_at(text.to_string(), at(secs)).unwrap()
}

fn db_with(created: &[i64]) -> DB {
    let mut db = DB::new("db_file".to_string());
    for (k, secs) in created.iter().enumerate() {
        db.insert(item(&format!("task {}", k), *secs));
    }
    db
}

#[test]
fn new_at_rejects_empty_text() {
    assert_eq!(TODOItem::new_at(String::new(), at(5)).err(), Some(TodoError::InvalidInput));
}

#[test]
fn new_at_keeps_text_and_time() {
    let it = item("buy milk", 42);
    assert_eq!(it.content, "buy milk");
    assert_eq!(it.create_time, at(42));
    assert_eq!(it.check_time, None);
}

#[test]
fn new_reads_the_clock() {
    let it = TODOItem::new("x".to_string()).unwrap();
    assert_eq!(it.check_time, None);
    assert_eq!(TODOItem::new(String::new()).err(), Some(TodoError::InvalidInput));
}

#[test]
fn check_at_sets_completion_once() {
    let mut it = item("a", 100);
    it.check_at(at(200));
    assert_eq!(it.check_time, Some(at(200)));
    it.check_at(at(300));
    assert_eq!(it.check_time, Some(at(200)));
    it.check_at(at(50));
    assert_eq!(it.check_time, Some(at(200)));
}

#[test]
fn check_at_never_precedes_creation() {
    let mut it = item("a", 100);
    it.check_at(at(10));
    assert_eq!(it.check_time, Some(at(100)));
}

#[test]
fn check_reads_the_clock() {
    let mut it = TODOItem::new("x".to_string()).unwrap();
    it.check();
    let first = it.check_time;
    assert!(first.is_some());
    it.check();
    assert_eq!(it.check_time, first);
}

#[test]
fn windows_over_several_days() {
    let db = db_with(&[MIDNIGHT - 2 * DAY, MIDNIGHT - 1, MIDNIGHT, MIDNIGHT + 10]);
    let m = at(MIDNIGHT);
    assert_eq!(db.windowed(1, m), vec![3]);
    assert_eq!(db.today_at(m), vec![3]);
    assert_eq!(db.windowed(2, m), vec![1, 2, 3]);
    assert_eq!(db.windowed(3, m), vec![1, 2, 3]);
    assert_eq!(db.windowed(4, m), vec![0, 1, 2, 3]);
}

#[test]
fn window_compares_nanoseconds() {
    let mut db = DB::new("f".to_string());
    db.insert(TODOItem::new_at("a".to_string(), Stamp { secs: MIDNIGHT, nanos: 1, offset: 0 }).unwrap());
    assert_eq!(db.windowed(1, at(MIDNIGHT)), vec![0]);
    assert_eq!(db.windowed(1, Stamp { secs: MIDNIGHT, nanos: 1, offset: 0 }), Vec::<usize>::new());
}

#[test]
fn check_uses_position_in_todays_view() {
    let mut db = db_with(&[MIDNIGHT - 5, MIDNIGHT + 1, MIDNIGHT + 2]);
    assert_eq!(db.check_todo_at(1, at(MIDNIGHT), at(MIDNIGHT + 9)), Ok(()));
    assert_eq!(db.items[0].check_time, None);
    assert_eq!(db.items[1].check_time, None);
    assert_eq!(db.items[2].check_time, Some(at(MIDNIGHT + 9)));
}

#[test]
fn check_on_empty_view_is_invalid() {
    let mut db = db_with(&[MIDNIGHT - 5]);
    assert_eq!(db.check_todo_at(0, at(MIDNIGHT), at(MIDNIGHT + 9)), Err(TodoError::InvalidIndex));
    assert_eq!(db.items[0].check_time, None);
}

#[test]
fn check_past_the_view_is_invalid() {
    let mut db = db_with(&[MIDNIGHT - 5, MIDNIGHT + 1]);
    assert_eq!(db.check_todo_at(1, at(MIDNIGHT), at(MIDNIGHT + 9)), Err(TodoError::InvalidIndex));
    assert_eq!(db.check_todo_at(usize::MAX, at(MIDNIGHT), at(MIDNIGHT + 9)), Err(TodoError::InvalidIndex));
    assert!(db.items.iter().all(|i| i.check_time.is_none()));
}

#[test]
fn completion_survives_later_checks() {
    let mut db = db_with(&[MIDNIGHT + 1, MIDNIGHT + 2]);
    db.check_todo_at(0, at(MIDNIGHT), at(MIDNIGHT + 9)).unwrap();
    db.check_todo_at(0, at(MIDNIGHT), at(MIDNIGHT + 99)).unwrap();
    db.check_todo_at(1, at(MIDNIGHT), at(MIDNIGHT + 100)).unwrap();
    db.insert(item("later", MIDNIGHT + 200));
    assert_eq!(db.items[0].check_time, Some(at(MIDNIGHT + 9)));
    assert_eq!(db.items[1].check_time, Some(at(MIDNIGHT + 100)));
}

#[test]
fn check_todo_on_fresh_record() {
    let mut db = DB::new("f".to_string());
    db.insert(TODOItem::new("now".to_string()).unwrap());
    assert_eq!(db.check_todo(0), Ok(()));
    assert!(db.items[0].check_time.is_some());
    assert_eq!(db.check_todo(1), Err(TodoError::InvalidIndex));
    assert_eq!(db.get_todays_todo().unwrap(), vec![0]);
    assert_eq!(db.get_todos_in_last_n_days(3).unwrap(), vec![0]);
    assert_eq!(db.show_todo_today().unwrap().len(), 1);
}

#[test]
fn load_appends_in_order() {
    let mut db = db_with(&[1]);
    db.load(vec![item("b", 2), item("c", 3)]);
    let texts: Vec<&str> = db.items.iter().map(|i| i.content.as_str()).collect();
    assert_eq!(texts, vec!["task 0", "b", "c"]);
    assert_eq!(db.path, "db_file");
}

#[test]
fn join_writes_one_line_each() {
    let lines = vec![b"{\"a\":1}".to_vec(), b"x".to_vec()];
    assert_eq!(join_lines(&lines), b"{\"a\":1}\nx\n".to_vec());
    assert_eq!(join_lines(&Vec::new()), Vec::<u8>::new());
}

#[test]
fn split_skips_empty_lines() {
    assert_eq!(split_lines(b"a\n\nbc\n"), vec![b"a".to_vec(), b"bc".to_vec()]);
    assert_eq!(split_lines(b"a\nlast"), vec![b"a".to_vec(), b"last".to_vec()]);
    assert_eq!(split_lines(b""), Vec::<Vec<u8>>::new());
    assert_eq!(split_lines(b"\n\n"), Vec::<Vec<u8>>::new());
}

#[test]
fn lines_round_trip() {
    let lines = vec![b"one".to_vec(), b"two words".to_vec(), b"{}".to_vec()];
    let bytes = join_lines(&lines);
    assert_eq!(split_lines(&bytes), lines);
}

#[test]
fn rewriting_gives_same_bytes() {
    let lines = vec![b"p".to_vec(), b"q".to_vec()];
    let first = join_lines(&lines);
    let second = join_lines(&split_lines(&first));
    assert_eq!(first, second);
}

#[test]
fn renders_open_record() {
    assert_eq!(render_line(0, &item("buy milk", 1)), "    1. \u{2606}  buy milk ");
}

#[test]
fn renders_completed_record_in_red() {
    let mut it = item("buy milk", 1);
    it.check_at(at(2));
    assert_eq!(render_line(11, &it), "   12. \u{1b}[31m\u{2605}\u{1b}[0m  buy milk ");
}

#[test]
fn renders_wide_numbers_unpadded() {
    assert_eq!(render_line(99_999, &item("z", 1)), "100000. \u{2606}  z ");
    assert_eq!(render_line(9_999, &item("z", 1)), "10000. \u{2606}  z ");
}

#[test]
fn add_then_check_scenario() {
    let m = at(MIDNIGHT);
    let mut db = DB::new("db_file".to_string());
    db.insert(TODOItem::new_at("buy milk".to_string(), at(MIDNIGHT + 60)).unwrap());
    assert_eq!(db.today_lines(m), vec!["    1. \u{2606}  buy milk ".to_string()]);
    assert_eq!(db.check_todo_at(0, m, at(MIDNIGHT + 120)), Ok(()));
    assert_eq!(db.today_lines(m), vec!["    1. \u{1b}[31m\u{2605}\u{1b}[0m  buy milk ".to_string()]);
}

#[test]
fn add_then_check_with_the_clock() {
    let mut db = DB::new("db_file".to_string());
    db.insert(TODOItem::new("buy milk".to_string()).unwrap());
    assert_eq!(db.show_todo_today().unwrap(), vec!["    1. \u{2606}  buy milk ".to_string()]);
    assert_eq!(db.check_todo(0), Ok(()));
    assert_eq!(
        db.show_todo_today().unwrap(),
        vec!["    1. \u{1b}[31m\u{2605}\u{1b}[0m  buy milk ".to_string()]
    );
}
