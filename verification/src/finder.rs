//! The controller state and its transitions.
//!
//! One thread owns this state and feeds it events; every transition is a
//! plain function of the state and the event. Whatever must happen beyond
//! the state change — spawning a ranking job, ending the session — is
//! returned as a [`Step`] for the caller to perform.

use vstd::prelude::*;

use crate::corpus::{lines_entries, Corpus};
use crate::events::{Event, Key};
use crate::job::{clone_sender, Job};
use crate::rank::{Options, SortedList};
use crate::text::texts_of;

verus! {

/// What the caller must do after a transition.
#[derive(Clone, Copy, Debug, PartialEq, Eq, Structural)]
pub enum Step {
    /// Nothing beyond the state change.
    Idle,
    /// Spawn a ranking job over a fresh snapshot.
    Refresh,
    /// The session ends; resolve the selection, if any.
    Exit,
    /// The session ends: no input was available, which is a failure.
    NoInput,
}

/// The payload of a ranking job: an immutable snapshot of the corpus, the
/// query and the options, taken when the job is created.
pub struct RankRequest {
    pub snapshot: Corpus,
    pub query: Vec<char>,
    pub options: Options,
}

/// The state owned by the controller: the query, the live corpus, the
/// currently displayed ranked list with its cursor, and the committed
/// selection.
pub struct FzzWidgetState {
    pub tx: Option<std::sync::mpsc::Sender<Event>>,
    pub selected_index: Option<usize>,
    pub search_input: Vec<char>,
    pub corpus: Corpus,
    pub sorted_list: SortedList,
    pub cursor: usize,
    pub options: Options,
    pub exit: bool,
}

impl FzzWidgetState {
    pub open spec fn wf(self) -> bool {
        self.corpus.wf() && self.options.wf()
    }

    /// The entries of the live corpus under the configured delimiter.
    pub open spec fn entries(self) -> Seq<Seq<char>> {
        self.corpus.entries(self.options.delimiter)
    }

    pub fn new() -> (r: Self)
        ensures
            r.wf(),
            r.tx is None,
            r.selected_index is None,
            r.search_input@ == Seq::<char>::empty(),
            r.entries() == Seq::<Seq<char>>::empty(),
            r.sorted_list@.len() == 0,
            r.cursor == 0,
            r.options == Options::default_options(),
            !r.exit,
    {
        Self::default()
    }

    /// Hands the state the sending end of the event bus, so that ranking
    /// jobs built here can announce their results.
    pub fn set_tx(self, sender: std::sync::mpsc::Sender<Event>) -> (r: Self)
        ensures
            r.tx is Some,
            r.selected_index == self.selected_index,
            r.search_input == self.search_input,
            r.corpus == self.corpus,
            r.sorted_list == self.sorted_list,
            r.cursor == self.cursor,
            r.options == self.options,
            r.exit == self.exit,
    {
        FzzWidgetState { tx: Some(sender), ..self }
    }

    /// Installs the session's options.
    pub fn set_args(self, args: &Options) -> (r: Self)
        ensures
            r.options == *args,
            r.tx == self.tx,
            r.selected_index == self.selected_index,
            r.search_input == self.search_input,
            r.corpus == self.corpus,
            r.sorted_list == self.sorted_list,
            r.cursor == self.cursor,
            r.exit == self.exit,
    {
        FzzWidgetState { options: *args, ..self }
    }

    /// Appends a character to the query.
    pub fn push_char(&mut self, c: char)
        ensures
            final(self).search_input@ == old(self).search_input@.push(c),
            final(self).tx == old(self).tx,
            final(self).selected_index == old(self).selected_index,
            final(self).corpus == old(self).corpus,
            final(self).sorted_list == old(self).sorted_list,
            final(self).cursor == old(self).cursor,
            final(self).options == old(self).options,
            final(self).exit == old(self).exit,
    {
        self.search_input.push(c);
    }

    /// Removes the last query character, if any.
    pub fn pop_char(&mut self)
        ensures
            final(self).search_input@ == if old(self).search_input@.len() == 0 {
                old(self).search_input@
            } else {
                old(self).search_input@.drop_last()
            },
            final(self).tx == old(self).tx,
            final(self).selected_index == old(self).selected_index,
            final(self).corpus == old(self).corpus,
            final(self).sorted_list == old(self).sorted_list,
            final(self).cursor == old(self).cursor,
            final(self).options == old(self).options,
            final(self).exit == old(self).exit,
    {
        let _ = self.search_input.pop();
        proof {
            if old(self).search_input@.len() > 0 {
                assert(final(self).search_input@ =~= old(self).search_input@.drop_last());
            }
        }
    }

    /// Moves the cursor one place towards the end of the list, staying in
    /// bounds.
    pub fn up(&mut self)
        ensures
            final(self).cursor == if old(self).cursor + 1 < old(self).sorted_list@.len() {
                old(self).cursor + 1
            } else {
                old(self).cursor as int
            },
            final(self).tx == old(self).tx,
            final(self).selected_index == old(self).selected_index,
            final(self).search_input == old(self).search_input,
            final(self).corpus == old(self).corpus,
            final(self).sorted_list == old(self).sorted_list,
            final(self).options == old(self).options,
            final(self).exit == old(self).exit,
    {
        if self.cursor < self.sorted_list.len() && self.sorted_list.len() - self.cursor > 1 {
            self.cursor += 1;
        }
    }

    /// Moves the cursor one place towards the top of the list.
    pub fn down(&mut self)
        ensures
            final(self).cursor == if old(self).cursor > 0 {
                old(self).cursor - 1
            } else {
                0int
            },
            final(self).tx == old(self).tx,
            final(self).selected_index == old(self).selected_index,
            final(self).search_input == old(self).search_input,
            final(self).corpus == old(self).corpus,
            final(self).sorted_list == old(self).sorted_list,
            final(self).options == old(self).options,
            final(self).exit == old(self).exit,
    {
        if self.cursor > 0 {
            self.cursor -= 1;
        }
    }

    /// Installs a freshly ranked list and resets the cursor to the top,
    /// in one step.
    pub fn refresh_list(&mut self, v: SortedList)
        ensures
            final(self).sorted_list == v,
            final(self).cursor == 0,
            final(self).tx == old(self).tx,
            final(self).selected_index == old(self).selected_index,
            final(self).search_input == old(self).search_input,
            final(self).corpus == old(self).corpus,
            final(self).options == old(self).options,
            final(self).exit == old(self).exit,
    {
        self.sorted_list = v;
        self.cursor = 0;
    }

    /// Commits the entry under the cursor as the selection, if the cursor
    /// is on an entry.
    pub fn select_item(&mut self)
        ensures
            final(self).selected_index == if old(self).cursor < old(self).sorted_list@.len() {
                Some(old(self).sorted_list@[old(self).cursor as int].index)
            } else {
                old(self).selected_index
            },
            final(self).tx == old(self).tx,
            final(self).search_input == old(self).search_input,
            final(self).corpus == old(self).corpus,
            final(self).sorted_list == old(self).sorted_list,
            final(self).cursor == old(self).cursor,
            final(self).options == old(self).options,
            final(self).exit == old(self).exit,
    {
        if self.cursor < self.sorted_list.len() {
            self.selected_index = Some(self.sorted_list[self.cursor].index);
        }
    }

    /// Resolves the committed selection against the live corpus — not
    /// against the possibly stale ranked list.
    pub fn get_selected(&self) -> (r: Option<Vec<char>>)
        ensures
            match self.selected_index {
                None => r is None,
                Some(i) => match r {
                    Some(v) => i < self.entries().len() && v@ == self.entries()[i as int],
                    None => i >= self.entries().len(),
                },
            },
    {
        match self.selected_index {
            None => None,
            Some(i) => self.corpus.entry_at(i, self.options.delimiter),
        }
    }

    /// Appends a batch of lines to the live corpus. Existing entries keep
    /// their original indices and texts.
    pub fn add_list(&mut self, lines: &Vec<Vec<char>>)
        requires
            old(self).wf(),
        ensures
            final(self).wf(),
            final(self).entries() == old(self).entries()
                + lines_entries(texts_of(lines@), old(self).options.delimiter),
            final(self).tx == old(self).tx,
            final(self).selected_index == old(self).selected_index,
            final(self).search_input == old(self).search_input,
            final(self).sorted_list == old(self).sorted_list,
            final(self).cursor == old(self).cursor,
            final(self).options == old(self).options,
            final(self).exit == old(self).exit,
    {
        let delimiter = self.options.delimiter;
        self.corpus.append(lines, delimiter);
    }

    /// Builds a ranking job over an immutable snapshot of the corpus, the
    /// query and the options, taken now. The caller runs it off this
    /// thread and sends its result back as an event.
    pub fn should_refresh(&self) -> (r: Job<RankRequest, Event>)
        requires
            self.tx is Some,
            self.wf(),
        ensures
            r.tx is Some,
            r.data.snapshot.wf(),
            r.data.snapshot.entries(self.options.delimiter)
                == self.entries(),
            r.data.query@ == self.search_input@,
            r.data.options == self.options,
    {
        let tx = match &self.tx {
            Some(t) => clone_sender(t),
            None => unreached(),
        };
        let query = self.search_input.clone();
        proof {
            assert(query@ =~= self.search_input@);
        }
        Job::new(RankRequest {
            snapshot: self.corpus.snapshot(),
            query,
            options: self.options,
        }).tx(tx)
    }

    /// One key press, as the controller reacts to it while running.
    pub fn handel_key_events(&mut self, key: Key) -> (r: Step)
        requires
            old(self).wf(),
        ensures
            final(self).wf(),
            final(self).tx == old(self).tx,
            final(self).corpus == old(self).corpus,
            final(self).options == old(self).options,
            match key {
                Key::Char(c) => {
                    &&& r == Step::Refresh
                    &&& final(self).search_input@ == old(self).search_input@.push(c)
                    &&& final(self).exit == old(self).exit
                    &&& final(self).selected_index == old(self).selected_index
                    &&& final(self).sorted_list == old(self).sorted_list
                    &&& final(self).cursor == old(self).cursor
                },
                Key::Backspace => {
                    &&& r == Step::Refresh
                    &&& final(self).search_input@ == if old(self).search_input@.len() == 0 {
                        old(self).search_input@
                    } else {
                        old(self).search_input@.drop_last()
                    }
                    &&& final(self).exit == old(self).exit
                    &&& final(self).selected_index == old(self).selected_index
                    &&& final(self).sorted_list == old(self).sorted_list
                    &&& final(self).cursor == old(self).cursor
                },
                Key::Up => {
                    &&& r == Step::Idle
                    &&& final(self).cursor == if old(self).cursor + 1
                        < old(self).sorted_list@.len() {
                        old(self).cursor + 1
                    } else {
                        old(self).cursor as int
                    }
                    &&& final(self).exit == old(self).exit
                    &&& final(self).search_input == old(self).search_input
                    &&& final(self).selected_index == old(self).selected_index
                    &&& final(self).sorted_list == old(self).sorted_list
                },
                Key::Down => {
                    &&& r == Step::Idle
                    &&& final(self).cursor == if old(self).cursor > 0 {
                        old(self).cursor - 1
                    } else {
                        0int
                    }
                    &&& final(self).exit == old(self).exit
                    &&& final(self).search_input == old(self).search_input
                    &&& final(self).selected_index == old(self).selected_index
                    &&& final(self).sorted_list == old(self).sorted_list
                },
                Key::Enter => {
                    &&& r == Step::Exit
                    &&& final(self).exit
                    &&& final(self).selected_index == if old(self).cursor
                        < old(self).sorted_list@.len() {
                        Some(old(self).sorted_list@[old(self).cursor as int].index)
                    } else {
                        old(self).selected_index
                    }
                    &&& final(self).search_input == old(self).search_input
                    &&& final(self).sorted_list == old(self).sorted_list
                    &&& final(self).cursor == old(self).cursor
                },
                Key::Esc => {
                    &&& r == Step::Exit
                    &&& final(self).exit
                    &&& final(self).selected_index == old(self).selected_index
                    &&& final(self).search_input == old(self).search_input
                    &&& final(self).sorted_list == old(self).sorted_list
                    &&& final(self).cursor == old(self).cursor
                },
                Key::Other => {
                    &&& r == Step::Idle
                    &&& final(self).exit == old(self).exit
                    &&& final(self).search_input == old(self).search_input
                    &&& final(self).selected_index == old(self).selected_index
                    &&& final(self).sorted_list == old(self).sorted_list
                    &&& final(self).cursor == old(self).cursor
                },
            },
    {
        match key {
            Key::Char(c) => {
                self.push_char(c);
                Step::Refresh
            },
            Key::Backspace => {
                self.pop_char();
                Step::Refresh
            },
            Key::Up => {
                self.up();
                Step::Idle
            },
            Key::Down => {
                self.down();
                Step::Idle
            },
            Key::Enter => {
                self.exit = true;
                self.select_item();
                Step::Exit
            },
            Key::Esc => {
                self.exit = true;
                Step::Exit
            },
            Key::Other => Step::Idle,
        }
    }

    /// One event, as the controller consumes it from the bus.
    pub fn update(&mut self, ev: Event) -> (r: Step)
        requires
            old(self).wf(),
        ensures
            final(self).wf(),
            final(self).tx == old(self).tx,
            final(self).options == old(self).options,
            match ev {
                Event::Input(_) => final(self).corpus == old(self).corpus,
                Event::AddList(lines) => {
                    &&& r == Step::Refresh
                    &&& final(self).entries() == old(self).entries()
                        + lines_entries(texts_of(lines@), old(self).options.delimiter)
                    &&& final(self).search_input == old(self).search_input
                    &&& final(self).selected_index == old(self).selected_index
                    &&& final(self).sorted_list == old(self).sorted_list
                    &&& final(self).cursor == old(self).cursor
                    &&& final(self).exit == old(self).exit
                },
                Event::RefreshList(v) => {
                    &&& r == Step::Idle
                    &&& final(self).sorted_list == v
                    &&& final(self).cursor == 0
                    &&& final(self).corpus == old(self).corpus
                    &&& final(self).search_input == old(self).search_input
                    &&& final(self).selected_index == old(self).selected_index
                    &&& final(self).exit == old(self).exit
                },
                Event::NoStdin => {
                    &&& r == Step::NoInput
                    &&& final(self).exit
                    &&& final(self).corpus == old(self).corpus
                    &&& final(self).search_input == old(self).search_input
                    &&& final(self).selected_index == old(self).selected_index
                    &&& final(self).sorted_list == old(self).sorted_list
                    &&& final(self).cursor == old(self).cursor
                },
            },
    {
        match ev {
            Event::Input(key) => self.handel_key_events(key),
            Event::AddList(lines) => {
                self.add_list(&lines);
                Step::Refresh
            },
            Event::RefreshList(v) => {
                self.refresh_list(v);
                Step::Idle
            },
            Event::NoStdin => {
                self.exit = true;
                Step::NoInput
            },
        }
    }
}

impl Default for FzzWidgetState {
    /// An empty session: no query, no corpus, no list, default options.
    fn default() -> (r: Self)
        ensures
            r.wf(),
            r.tx is None,
            r.selected_index is None,
            r.search_input@ == Seq::<char>::empty(),
            r.entries() == Seq::<Seq<char>>::empty(),
            r.sorted_list@.len() == 0,
            r.cursor == 0,
            r.options == Options::default_options(),
            !r.exit,
    {
        FzzWidgetState {
            tx: None,
            selected_index: None,
            search_input: Vec::new(),
            corpus: Corpus::new(),
            sorted_list: Vec::new(),
            cursor: 0,
            options: Options::default(),
            exit: false,
        }
    }
}

} // verus!
