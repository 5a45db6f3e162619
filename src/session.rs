//! The launcher session: how the state shown to the user reacts to events,
//! and what the program around it is asked to do next.
use vstd::prelude::*;
use crate::search::SearchResult;
use crate::entry::opt_view;

verus! {

/// Milliseconds between two polls of a running scan's status.
pub const POLL_INTERVAL_MS: u64 = 100;

/// One row shown to the user.
#[derive(Clone, Debug)]
pub struct ProgramResult {
    pub path: String,
    pub display_name: String,
    pub icon_path: Option<String>,
}

pub struct ProgramResultView {
    pub path: Seq<char>,
    pub display_name: Seq<char>,
    pub icon_path: Option<Seq<char>>,
}

impl View for ProgramResult {
    type V = ProgramResultView;

    open spec fn view(&self) -> ProgramResultView {
        ProgramResultView { path: self.path@, display_name: self.display_name@, icon_path: opt_view(self.icon_path) }
    }
}

pub open spec fn row_views(rs: Seq<ProgramResult>) -> Seq<ProgramResultView> {
    rs.map_values(|r: ProgramResult| r@)
}

/// The keys that the session reacts to.
#[derive(Clone, Copy, Debug, PartialEq, Eq, Structural)]
pub enum Key {
    ArrowDown,
    ArrowUp,
    Enter,
    Escape,
    Other,
}

/// An event of the session.
#[derive(Clone, Debug)]
pub enum Message {
    SearchChanged(String),
    SearchCompleted(Vec<ProgramResult>),
    LaunchSelected,
    KeyPressed(Key),
    IndexingProgress(bool, usize),
    StartIndexing,
    CacheLoaded(bool),
    WindowMinimize,
    WindowMaximize,
    WindowClose,
    WindowDrag,
}

pub enum MessageView {
    SearchChanged(Seq<char>),
    SearchCompleted(Seq<ProgramResultView>),
    LaunchSelected,
    KeyPressed(Key),
    IndexingProgress(bool, nat),
    StartIndexing,
    CacheLoaded(bool),
    WindowMinimize,
    WindowMaximize,
    WindowClose,
    WindowDrag,
}

impl View for Message {
    type V = MessageView;

    open spec fn view(&self) -> MessageView {
        match self {
            Message::SearchChanged(q) => MessageView::SearchChanged(q@),
            Message::SearchCompleted(rs) => MessageView::SearchCompleted(row_views(rs@)),
            Message::LaunchSelected => MessageView::LaunchSelected,
            Message::KeyPressed(k) => MessageView::KeyPressed(*k),
            Message::IndexingProgress(b, c) => MessageView::IndexingProgress(*b, *c as nat),
            Message::StartIndexing => MessageView::StartIndexing,
            Message::CacheLoaded(b) => MessageView::CacheLoaded(*b),
            Message::WindowMinimize => MessageView::WindowMinimize,
            Message::WindowMaximize => MessageView::WindowMaximize,
            Message::WindowClose => MessageView::WindowClose,
            Message::WindowDrag => MessageView::WindowDrag,
        }
    }
}

/// What the program around the session is to do after an event.
#[derive(Clone, Debug)]
pub enum Action {
    /// Nothing.
    Idle,
    /// Load the index snapshot from disk and answer with `CacheLoaded`.
    LoadCache,
    /// Search the current snapshot for the current query and answer with
    /// `SearchCompleted`.
    Search,
    /// Both `Search` and `RequestIndexing`.
    SearchAndRequestIndexing,
    /// Answer with `StartIndexing`.
    RequestIndexing,
    /// Start a scan of the index and answer with `IndexingProgress(true, 0)`.
    StartScan,
    /// Wait `POLL_INTERVAL_MS`, then answer with `IndexingProgress` holding
    /// the index's status and count.
    PollAfterDelay,
    /// Open this path with the system's default handler.
    Launch(String),
    Minimize,
    ToggleMaximize,
    Close,
    Drag,
}

pub enum ActionView {
    Idle,
    LoadCache,
    Search,
    SearchAndRequestIndexing,
    RequestIndexing,
    StartScan,
    PollAfterDelay,
    Launch(Seq<char>),
    Minimize,
    ToggleMaximize,
    Close,
    Drag,
}

impl View for Action {
    type V = ActionView;

    open spec fn view(&self) -> ActionView {
        match self {
            Action::Idle => ActionView::Idle,
            Action::LoadCache => ActionView::LoadCache,
            Action::Search => ActionView::Search,
            Action::SearchAndRequestIndexing => ActionView::SearchAndRequestIndexing,
            Action::RequestIndexing => ActionView::RequestIndexing,
            Action::StartScan => ActionView::StartScan,
            Action::PollAfterDelay => ActionView::PollAfterDelay,
            Action::Launch(p) => ActionView::Launch(p@),
            Action::Minimize => ActionView::Minimize,
            Action::ToggleMaximize => ActionView::ToggleMaximize,
            Action::Close => ActionView::Close,
            Action::Drag => ActionView::Drag,
        }
    }
}

/// The state shown to the user.
pub struct Session {
    search_query: String,
    search_results: Vec<ProgramResult>,
    selected_index: usize,
    is_indexing: bool,
    indexed_count: usize,
}

pub struct SessionView {
    pub query: Seq<char>,
    pub results: Seq<ProgramResultView>,
    pub selected: nat,
    pub indexing: bool,
    pub count: nat,
}

impl View for Session {
    type V = SessionView;

    closed spec fn view(&self) -> SessionView {
        SessionView {
            query: self.search_query@,
            results: row_views(self.search_results@),
            selected: self.selected_index as nat,
            indexing: self.is_indexing,
            count: self.indexed_count as nat,
        }
    }
}

/// The selection is the first row or a row that exists.
pub open spec fn selection_ok(s: SessionView) -> bool {
    s.selected == 0 || s.selected < s.results.len()
}

/// Launching the selected row, where there is one.
pub open spec fn launch_selected(s: SessionView) -> ActionView {
    if s.selected < s.results.len() {
        ActionView::Launch(s.results[s.selected as int].path)
    } else {
        ActionView::Idle
    }
}

/// The state and the action after message `m` in state `s`.
pub open spec fn step(s: SessionView, m: MessageView) -> (SessionView, ActionView) {
    match m {
        MessageView::SearchChanged(q) => (SessionView { query: q, selected: 0, ..s }, ActionView::Search),
        MessageView::SearchCompleted(rs) => (
            SessionView { results: rs, selected: if s.selected >= rs.len() { 0 } else { s.selected }, ..s },
            ActionView::Idle,
        ),
        MessageView::LaunchSelected => (s, launch_selected(s)),
        MessageView::CacheLoaded(loaded) => (
            s,
            if loaded { ActionView::SearchAndRequestIndexing } else { ActionView::RequestIndexing },
        ),
        MessageView::WindowMinimize => (s, ActionView::Minimize),
        MessageView::WindowMaximize => (s, ActionView::ToggleMaximize),
        MessageView::WindowClose => (s, ActionView::Close),
        MessageView::WindowDrag => (s, ActionView::Drag),
        MessageView::KeyPressed(k) => match k {
            Key::ArrowDown => (
                if s.results.len() > 0 {
                    SessionView { selected: ((s.selected + 1) as nat % s.results.len()) as nat, ..s }
                } else {
                    s
                },
                ActionView::Idle,
            ),
            Key::ArrowUp => (
                if s.results.len() > 0 {
                    SessionView {
                        selected: if s.selected == 0 { (s.results.len() - 1) as nat } else { (s.selected - 1) as nat },
                        ..s
                    }
                } else {
                    s
                },
                ActionView::Idle,
            ),
            Key::Enter => (s, launch_selected(s)),
            Key::Escape => (SessionView { query: Seq::empty(), selected: 0, ..s }, ActionView::Search),
            Key::Other => (s, ActionView::Idle),
        },
        MessageView::StartIndexing => if s.indexing {
            (s, ActionView::Idle)
        } else {
            (SessionView { indexing: true, ..s }, ActionView::StartScan)
        },
        MessageView::IndexingProgress(indexing, count) => (
            SessionView { indexing, count, ..s },
            if indexing { ActionView::PollAfterDelay } else { ActionView::Search },
        ),
    }
}

impl Session {
    pub closed spec fn wf(&self) -> bool {
        selection_ok(self@)
    }

    /// A fresh session, and its first action: load the snapshot where the
    /// cache is enabled, else ask for a scan at once.
    pub fn new(enable_cache: bool) -> (r: (Session, Action))
        ensures
            r.0.wf(),
            r.0@ == (SessionView { query: Seq::empty(), results: Seq::empty(), selected: 0, indexing: false, count: 0 }),
            r.1@ == (if enable_cache { ActionView::LoadCache } else { ActionView::RequestIndexing }),
    {
        let s = Session {
            search_query: String::new(),
            search_results: Vec::new(),
            selected_index: 0,
            is_indexing: false,
            indexed_count: 0,
        };
        assert(s@.results =~= Seq::<ProgramResultView>::empty());
        (s, if enable_cache { Action::LoadCache } else { Action::RequestIndexing })
    }

    pub fn search_query(&self) -> (r: &String)
        ensures
            r@ == self@.query,
    {
        &self.search_query
    }

    pub fn search_results(&self) -> (r: &Vec<ProgramResult>)
        ensures
            row_views(r@) == self@.results,
    {
        &self.search_results
    }

    pub fn selected_index(&self) -> (r: usize)
        ensures
            r == self@.selected,
    {
        self.selected_index
    }

    pub fn is_indexing(&self) -> (r: bool)
        ensures
            r == self@.indexing,
    {
        self.is_indexing
    }

    pub fn indexed_count(&self) -> (r: usize)
        ensures
            r == self@.count,
    {
        self.indexed_count
    }

    fn launch_action(&self) -> (r: Action)
        requires
            self.wf(),
        ensures
            r@ == launch_selected(self@),
    {
        if self.selected_index < self.search_results.len() {
            Action::Launch(self.search_results[self.selected_index].path.clone())
        } else {
            Action::Idle
        }
    }

    /// Applies one event and returns what is to be done next.
    pub fn update(&mut self, message: Message) -> (r: Action)
        requires
            old(self).wf(),
        ensures
            final(self).wf(),
            (final(self)@, r@) == step(old(self)@, message@),
    {
        match message {
            Message::SearchChanged(query) => {
                self.search_query = query;
                self.selected_index = 0;
                Action::Search
            },
            Message::SearchCompleted(results) => {
                self.search_results = results;
                if self.selected_index >= self.search_results.len() {
                    self.selected_index = 0;
                }
                Action::Idle
            },
            Message::LaunchSelected => self.launch_action(),
            Message::CacheLoaded(loaded) => {
                if loaded {
                    Action::SearchAndRequestIndexing
                } else {
                    Action::RequestIndexing
                }
            },
            Message::WindowMinimize => Action::Minimize,
            Message::WindowMaximize => Action::ToggleMaximize,
            Message::WindowClose => Action::Close,
            Message::WindowDrag => Action::Drag,
            Message::KeyPressed(key) => match key {
                Key::ArrowDown => {
                    let n = self.search_results.len();
                    if n > 0 {
                        self.selected_index = (self.selected_index + 1) % n;
                    }
                    Action::Idle
                },
                Key::ArrowUp => {
                    let n = self.search_results.len();
                    if n > 0 {
                        self.selected_index = if self.selected_index == 0 {
                            n - 1
                        } else {
                            self.selected_index - 1
                        };
                    }
                    Action::Idle
                },
                Key::Enter => self.launch_action(),
                Key::Escape => {
                    self.search_query = String::new();
                    self.selected_index = 0;
                    Action::Search
                },
                Key::Other => Action::Idle,
            },
            Message::StartIndexing => {
                if !self.is_indexing {
                    self.is_indexing = true;
                    Action::StartScan
                } else {
                    Action::Idle
                }
            },
            Message::IndexingProgress(is_indexing, count) => {
                self.is_indexing = is_indexing;
                self.indexed_count = count;
                if is_indexing {
                    Action::PollAfterDelay
                } else {
                    Action::Search
                }
            },
        }
    }
}

/// The rows shown for ranked results: the first `max_results` of them.
pub fn to_program_results(results: &Vec<SearchResult>, max_results: usize) -> (r: Vec<ProgramResult>)
    ensures
        r@.len() == (if results@.len() < max_results { results@.len() } else { max_results as nat }),
        forall|k: int|
            0 <= k < r@.len() ==> #[trigger] r@[k]@ == (ProgramResultView {
                path: results@[k].entry.path@,
                display_name: results@[k].entry.display_name@,
                icon_path: opt_view(results@[k].entry.icon_path),
            }),
{
    let n = if results.len() < max_results { results.len() } else { max_results };
    let mut r: Vec<ProgramResult> = Vec::new();
    let mut k: usize = 0;
    while k < n
        invariant
            n <= results@.len(),
            n == (if results@.len() < max_results { results@.len() } else { max_results as nat }),
            k <= n,
            r@.len() == k,
            forall|j: int|
                0 <= j < k ==> #[trigger] r@[j]@ == (ProgramResultView {
                    path: results@[j].entry.path@,
                    display_name: results@[j].entry.display_name@,
                    icon_path: opt_view(results@[j].entry.icon_path),
                }),
        decreases n - k,
    {
        let e = &results[k].entry;
        let icon_path = match &e.icon_path {
            Some(p) => Some(p.clone()),
            None => None,
        };
        r.push(ProgramResult { path: e.path.clone(), display_name: e.display_name.clone(), icon_path });
        k = k + 1;
    }
    r
}

} // verus!
