use fzz::corpus::Corpus;
use fzz::error::Error;
use fzz::events::{Event, Key};
use fzz::finder::{FzzWidgetState, Step};
use fzz::ingest::{Batcher, DEBOUNCE_MS};
use fzz::job::Job;
use fzz::rank::rank;

fn chars(s: &str) -> Vec<char> {
    s.chars().collect()
}

fn lines(ls: &[&str]) -> Vec<Vec<char>> {
    ls.iter().map(|l| chars(l)).collect()
}

#[test]
fn append_keeps_existing_entries_in_place() {
    let mut c = Corpus::new();
    c.append(&lines(&["one", "two"]), '\n');
    assert_eq!(c.count('\n'), 2);
    let before = c.entry_at(1, '\n');
    assert_eq!(before, Some(chars("two")));
    c.append(&lines(&["three", "four"]), '\n');
    assert_eq!(c.count('\n'), 4);
    assert_eq!(c.entry_at(0, '\n'), Some(chars("one")));
    assert_eq!(c.entry_at(1, '\n'), before);
    assert_eq!(c.entry_at(3, '\n'), Some(chars("four")));
    assert_eq!(c.entry_at(4, '\n'), None);
}

#[test]
fn appended_line_containing_delimiter_splits() {
    let mut c = Corpus::new();
    c.append(&lines(&["a\nb"]), '\n');
    assert_eq!(c.count('\n'), 2);
    assert_eq!(c.entry_at(0, '\n'), Some(chars("a")));
    assert_eq!(c.entry_at(1, '\n'), Some(chars("b")));
}

#[test]
fn snapshot_is_independent_of_later_appends() {
    let mut c = Corpus::new();
    c.append(&lines(&["alpha"]), '\n');
    let snap = c.snapshot();
    c.append(&lines(&["beta"]), '\n');
    assert_eq!(snap.count('\n'), 1);
    assert_eq!(c.count('\n'), 2);
}

#[test]
fn no_stdin_ends_the_session_as_a_failure() {
    let mut st = FzzWidgetState::new();
    let step = st.update(Event::NoStdin);
    assert_eq!(step, Step::NoInput);
    assert!(st.exit);
    assert!(st.get_selected().is_none());
}

#[test]
fn selection_survives_corpus_growth() {
    let mut st = FzzWidgetState::new();
    assert_eq!(st.update(Event::AddList(lines(&["alpha", "beta", "gamma"]))), Step::Refresh);
    let list = rank(&st.corpus, &st.search_input, &st.options);
    // zero scores everywhere: beta (4) first, then alpha and gamma (5)
    assert_eq!(st.update(Event::RefreshList(list)), Step::Idle);
    assert_eq!(st.cursor, 0);
    st.update(Event::Input(Key::Up));
    st.update(Event::Input(Key::Up));
    assert_eq!(st.cursor, 2);
    let step = st.update(Event::Input(Key::Enter));
    assert_eq!(step, Step::Exit);
    assert!(st.exit);
    assert_eq!(st.selected_index, Some(2));
    // the corpus keeps growing before the session actually ends
    st.update(Event::AddList(lines(&["d", "e", "f", "g", "h", "i", "j"])));
    assert_eq!(st.corpus.count('\n'), 10);
    assert_eq!(st.get_selected(), Some(chars("gamma")));
}

#[test]
fn escape_exits_without_selection() {
    let mut st = FzzWidgetState::new();
    st.update(Event::AddList(lines(&["alpha", "beta"])));
    let list = rank(&st.corpus, &st.search_input, &st.options);
    st.update(Event::RefreshList(list));
    let step = st.update(Event::Input(Key::Esc));
    assert_eq!(step, Step::Exit);
    assert!(st.exit);
    assert_eq!(st.get_selected(), None);
}

#[test]
fn enter_on_empty_list_selects_nothing() {
    let mut st = FzzWidgetState::new();
    let step = st.update(Event::Input(Key::Enter));
    assert_eq!(step, Step::Exit);
    assert_eq!(st.get_selected(), None);
}

#[test]
fn typing_edits_query_and_requests_ranking() {
    let mut st = FzzWidgetState::new();
    assert_eq!(st.update(Event::Input(Key::Char('a'))), Step::Refresh);
    assert_eq!(st.update(Event::Input(Key::Char('b'))), Step::Refresh);
    assert_eq!(st.search_input, chars("ab"));
    assert_eq!(st.update(Event::Input(Key::Backspace)), Step::Refresh);
    assert_eq!(st.search_input, chars("a"));
    st.update(Event::Input(Key::Backspace));
    st.update(Event::Input(Key::Backspace));
    assert_eq!(st.search_input, chars(""));
}

#[test]
fn cursor_moves_stay_in_bounds_and_reset_on_refresh() {
    let mut st = FzzWidgetState::new();
    st.update(Event::Input(Key::Up));
    st.update(Event::Input(Key::Down));
    assert_eq!(st.cursor, 0);
    st.update(Event::AddList(lines(&["a", "b", "c"])));
    let list = rank(&st.corpus, &st.search_input, &st.options);
    st.update(Event::RefreshList(list));
    st.update(Event::Input(Key::Up));
    st.update(Event::Input(Key::Up));
    st.update(Event::Input(Key::Up));
    assert_eq!(st.cursor, 2);
    st.update(Event::Input(Key::Down));
    assert_eq!(st.cursor, 1);
    let list = rank(&st.corpus, &st.search_input, &st.options);
    st.update(Event::RefreshList(list));
    assert_eq!(st.cursor, 0);
}

#[test]
fn stale_selection_beyond_corpus_resolves_to_nothing() {
    let mut st = FzzWidgetState::new();
    st.update(Event::AddList(lines(&["only"])));
    st.selected_index = Some(7);
    assert_eq!(st.get_selected(), None);
}

#[test]
fn ranking_job_carries_a_snapshot_and_reports_back() {
    let (tx, rx) = std::sync::mpsc::channel();
    let mut st = FzzWidgetState::new().set_tx(tx);
    st.update(Event::AddList(lines(&["cat", "caterpillar", "dog"])));
    st.update(Event::Input(Key::Char('c')));
    st.update(Event::Input(Key::Char('a')));
    st.update(Event::Input(Key::Char('t')));
    let job = st.should_refresh();
    assert_eq!(job.data.query, chars("cat"));
    let list = rank(&job.data.snapshot, &job.data.query, &job.data.options);
    job.send(Event::RefreshList(list));
    match rx.recv().unwrap() {
        Event::RefreshList(list) => {
            st.update(Event::RefreshList(list));
        },
        _ => panic!("expected a ranking result"),
    }
    assert_eq!(st.sorted_list.len(), 2);
    assert_eq!(st.sorted_list[0].text, chars("cat"));
    assert_eq!(st.sorted_list[1].text, chars("caterpillar"));
}

#[test]
fn job_sends_its_payload_through_the_channel() {
    let (tx, rx) = std::sync::mpsc::channel();
    let job: Job<u32, u32> = Job::new(42).tx(tx);
    assert_eq!(job.data, 42);
    job.send(7);
    assert_eq!(rx.recv().unwrap(), 7);
}

#[test]
fn job_starts_without_a_channel() {
    let job: Job<u32, u32> = Job::new(5);
    assert!(job.tx.is_none());
}

#[test]
fn batcher_flushes_after_the_debounce_window() {
    let mut b = Batcher::new();
    b.push_line(chars("first"));
    assert_eq!(b.take_due(DEBOUNCE_MS - 1), None);
    b.push_line(chars("second"));
    let batch = b.take_due(DEBOUNCE_MS);
    assert_eq!(batch, Some(lines(&["first", "second"])));
    assert_eq!(b.take_due(DEBOUNCE_MS), None);
}

#[test]
fn batcher_flushes_the_rest_at_end_of_input() {
    let mut b = Batcher::new();
    assert_eq!(b.finish(), None);
    b.push_line(chars("tail"));
    assert_eq!(b.finish(), Some(lines(&["tail"])));
    assert_eq!(b.finish(), None);
}

#[test]
fn error_messages_name_the_failure() {
    assert_eq!(Error::NoStdin.message(), "Nothing to do");
    let from_recv = Error::from(std::sync::mpsc::RecvError);
    assert!(matches!(from_recv, Error::EventReceiveError(_)));
    assert!(from_recv.message().starts_with("Event Receive Error: "));
    let draw = Error::UnableToDraw {
        from: "main",
        e: std::io::Error::new(std::io::ErrorKind::Other, "broken pipe"),
    };
    assert!(draw.message().starts_with("Unable To Draw: main\n"));
}
