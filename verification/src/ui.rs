//! The state of the terminal interface and how keys change it. Drawing and
//! reading keys are left to the program around it.

use crate::storage::StoredSummary;
use crate::summary::{Summary, SummaryView};
use crate::text::string_of;
use vstd::prelude::*;
use vstd::string::*;

verus! {

/// The hint that the status line shows while nothing else is to be said.
pub const STATUS_HINT: &'static str =
    "Press 'o' to open URL, ↑↓ to navigate, Tab to switch panes, 'q' to quit";

/// Application state
#[derive(Debug, Clone, PartialEq, Eq)]
pub enum AppState {
    /// Main view showing summary or welcome message
    Main,
    /// URL input dialogue
    UrlInput,
    /// Loading content
    Loading,
    /// Error state
    Error(String),
}

/// Which pane is currently focused
#[derive(Debug, Clone, Copy, PartialEq, Eq, Structural)]
pub enum FocusedPane {
    List,
    Detail,
}

/// A key that was pressed.
#[derive(Debug, Clone, Copy, PartialEq, Eq, Structural)]
pub enum Key {
    Char(char),
    Tab,
    Up,
    Down,
    PageUp,
    PageDown,
    Home,
    Esc,
    Enter,
    Backspace,
    /// Any other key
    Other,
}

/// The main TUI application
#[derive(Debug)]
pub struct App {
    /// Current application state
    pub state: AppState,
    /// URL input buffer
    pub url_input: Vec<char>,
    /// Current summary being displayed
    pub summary: Option<Summary>,
    /// Source URL of the current summary
    pub source_url: Option<String>,
    /// Whether the app should quit
    pub should_quit: bool,
    /// Status message
    pub status: String,
    /// List of stored summaries
    pub stored_summaries: Vec<StoredSummary>,
    /// The place in the list that is selected
    pub selected: Option<usize>,
    /// Which pane is focused
    pub focused_pane: FocusedPane,
    /// Scroll offset for detail view
    pub detail_scroll: u16,
}

/// The value of the summary on display.
pub open spec fn shown_summary(summary: Option<Summary>) -> Option<SummaryView> {
    match summary {
        Some(s) => Some(s@),
        None => None,
    }
}

/// The text of the URL on display.
pub open spec fn shown_url(url: Option<String>) -> Option<Seq<char>> {
    match url {
        Some(u) => Some(u@),
        None => None,
    }
}

/// The place before the selected one, the last place before the first;
/// the first place where nothing is selected.
pub open spec fn place_before(selected: Option<usize>, len: int) -> int {
    match selected {
        Some(i) => if i == 0 {
            len - 1
        } else {
            i - 1
        },
        None => 0,
    }
}

/// The place after the selected one, the first place after the last; the
/// first place where nothing is selected.
pub open spec fn place_after(selected: Option<usize>, len: int) -> int {
    match selected {
        Some(i) => if i >= len - 1 {
            0
        } else {
            i + 1
        },
        None => 0,
    }
}

/// The number that `n` becomes by `by` lines up, not below 0.
pub open spec fn scrolled_up(n: u16, by: u16) -> u16 {
    if n >= by {
        (n - by) as u16
    } else {
        0
    }
}

/// The number that `n` becomes by `by` lines down, not above the largest.
pub open spec fn scrolled_down(n: u16, by: u16) -> u16 {
    if n + by <= u16::MAX {
        (n + by) as u16
    } else {
        u16::MAX
    }
}

impl App {
    /// What does not change when a key is pressed or the selection moves:
    /// the list of stored summaries.
    pub open spec fn same_list(self, after: App) -> bool {
        after.stored_summaries == self.stored_summaries
    }

    /// `after` differs from `self` at most in what is selected and on display.
    pub open spec fn same_but_selection(self, after: App) -> bool {
        &&& self.same_list(after)
        &&& after.state == self.state
        &&& after.url_input == self.url_input
        &&& after.should_quit == self.should_quit
        &&& after.status == self.status
        &&& after.focused_pane == self.focused_pane
    }

    /// `after` has on display what is selected in it: the summary and the
    /// URL of the selected place, from the top. Where nothing in the list
    /// is selected, the display is that of `self`.
    pub open spec fn shows_selected(self, after: App) -> bool {
        match after.selected {
            Some(i) if i < after.stored_summaries@.len() => {
                &&& shown_summary(after.summary) == Some(after.stored_summaries@[i as int]@.summary)
                &&& shown_url(after.source_url) == Some(after.stored_summaries@[i as int]@.url)
                &&& after.detail_scroll == 0
            },
            _ => {
                &&& after.summary == self.summary
                &&& after.source_url == self.source_url
                &&& after.detail_scroll == self.detail_scroll
            },
        }
    }

    /// `after` is `self` with `place` selected and on display; `self` where the list is empty.
    pub open spec fn selected_at(self, after: App, place: int) -> bool {
        if self.stored_summaries@.len() == 0 {
            after == self
        } else {
            &&& self.same_but_selection(after)
            &&& after.selected == Some(place as usize)
            &&& self.shows_selected(after)
        }
    }

    /// `after` differs from `self` at most in the scroll offset, which is `scroll`.
    pub open spec fn scrolled_to(self, after: App, scroll: u16) -> bool {
        after == (App { detail_scroll: scroll, ..self })
    }

    /// What a key does in the main view.
    pub open spec fn main_key(self, key: Key, after: App) -> bool {
        match key {
            Key::Char('q') => after == (App { should_quit: true, ..self }),
            Key::Char('o') => {
                &&& after.state == AppState::UrlInput
                &&& after.url_input@.len() == 0
                &&& after == (App { state: after.state, url_input: after.url_input, ..self })
            },
            Key::Tab => after == (App {
                focused_pane: match self.focused_pane {
                    FocusedPane::List => FocusedPane::Detail,
                    FocusedPane::Detail => FocusedPane::List,
                },
                ..self
            }),
            Key::Up | Key::Char('k') => if self.focused_pane == FocusedPane::List {
                self.selected_at(after, place_before(self.selected, self.stored_summaries@.len() as int))
            } else {
                self.scrolled_to(after, scrolled_up(self.detail_scroll, 1))
            },
            Key::Down | Key::Char('j') => if self.focused_pane == FocusedPane::List {
                self.selected_at(after, place_after(self.selected, self.stored_summaries@.len() as int))
            } else {
                self.scrolled_to(after, scrolled_down(self.detail_scroll, 1))
            },
            Key::PageUp => if self.focused_pane == FocusedPane::Detail {
                self.scrolled_to(after, scrolled_up(self.detail_scroll, 10))
            } else {
                after == self
            },
            Key::PageDown => if self.focused_pane == FocusedPane::Detail {
                self.scrolled_to(after, scrolled_down(self.detail_scroll, 10))
            } else {
                after == self
            },
            Key::Home => if self.focused_pane == FocusedPane::Detail {
                self.scrolled_to(after, 0)
            } else {
                after == self
            },
            _ => after == self,
        }
    }

    /// What a key does in the URL dialogue.
    pub open spec fn input_key(self, key: Key, after: App) -> bool {
        match key {
            Key::Esc => {
                &&& after.state == AppState::Main
                &&& after.url_input@.len() == 0
                &&& after == (App { state: after.state, url_input: after.url_input, ..self })
            },
            Key::Enter => if self.url_input@.len() > 0 {
                after == (App { state: AppState::Loading, ..self })
            } else {
                after == self
            },
            Key::Backspace => {
                &&& after.url_input@ == (if self.url_input@.len() > 0 {
                    self.url_input@.drop_last()
                } else {
                    self.url_input@
                })
                &&& after == (App { url_input: after.url_input, ..self })
            },
            Key::Char(c) => {
                &&& after.url_input@ == self.url_input@.push(c)
                &&& after == (App { url_input: after.url_input, ..self })
            },
            _ => after == self,
        }
    }

    /// What a key does while an error is shown.
    pub open spec fn error_key(self, key: Key, after: App) -> bool {
        match key {
            Key::Esc | Key::Enter => after == (App { state: AppState::Main, ..self }),
            Key::Char('q') => after == (App { should_quit: true, ..self }),
            _ => after == self,
        }
    }

    /// What a key does: `after` is the state that follows `self` on `key`.
    /// While a page is loading, keys do nothing.
    pub open spec fn after_key(self, key: Key, after: App) -> bool {
        match self.state {
            AppState::Main => self.main_key(key, after),
            AppState::UrlInput => self.input_key(key, after),
            AppState::Loading => after == self,
            AppState::Error(_) => self.error_key(key, after),
        }
    }

    /// Create a new App instance
    pub fn new() -> (app: Self)
        ensures
            app.state == AppState::Main,
            app.url_input@.len() == 0,
            app.summary is None,
            app.source_url is None,
            !app.should_quit,
            app.status@ == STATUS_HINT@,
            app.stored_summaries@.len() == 0,
            app.selected is None,
            app.focused_pane == FocusedPane::List,
            app.detail_scroll == 0,
    {
        App {
            state: AppState::Main,
            url_input: Vec::new(),
            summary: None,
            source_url: None,
            should_quit: false,
            status: STATUS_HINT.to_owned(),
            stored_summaries: Vec::new(),
            selected: None,
            focused_pane: FocusedPane::List,
            detail_scroll: 0,
        }
    }

    /// Takes over the summaries that were loaded from storage. The first
    /// is selected and put on display, if there is one.
    pub fn set_summaries(&mut self, summaries: Vec<StoredSummary>)
        ensures
            final(self).stored_summaries == summaries,
            final(self).state == old(self).state,
            final(self).url_input == old(self).url_input,
            final(self).should_quit == old(self).should_quit,
            final(self).status == old(self).status,
            final(self).focused_pane == old(self).focused_pane,
            final(self).selected == (if summaries@.len() > 0 {
                Some(0usize)
            } else {
                old(self).selected
            }),
            summaries@.len() > 0 ==> old(self).shows_selected(*final(self)),
            summaries@.len() == 0 ==> final(self).summary == old(self).summary,
            summaries@.len() == 0 ==> final(self).source_url == old(self).source_url,
            summaries@.len() == 0 ==> final(self).detail_scroll == old(self).detail_scroll,
    {
        self.stored_summaries = summaries;
        if self.stored_summaries.len() > 0 {
            self.selected = Some(0);
            self.update_selected_summary();
        }
    }

    /// The URL that was typed, as a text.
    pub fn typed_url(&self) -> (url: String)
        ensures
            url@ == self.url_input@,
    {
        string_of(&self.url_input)
    }

    /// The fetch of the typed URL begins: the status line says so.
    pub fn fetch_started(&mut self)
        ensures
            final(self).status@ == "Fetching: "@ + old(self).url_input@,
            *final(self) == (App { status: final(self).status, ..*old(self) }),
    {
        let mut status = "Fetching: ".to_owned();
        let url = self.typed_url();
        status.append(url.as_str());
        self.status = status;
    }

    /// The page was fetched and holds `length` bytes of text: the status line says so.
    pub fn summarising(&mut self, length: usize)
        ensures
            final(self).status@ == "Summarising "@ + decimal_digits(length as nat) + " characters..."@,
            *final(self) == (App { status: final(self).status, ..*old(self) }),
    {
        let mut status = "Summarising ".to_owned();
        let digits = to_decimal(length);
        status.append(string_of(&digits).as_str());
        status.append(" characters...");
        self.status = status;
    }

    /// The summary of `url` has arrived: it is put on display in the main view.
    pub fn summarised(&mut self, summary: Summary, url: String)
        ensures
            final(self).status@ == STATUS_HINT@,
            *final(self) == (App {
                summary: Some(summary),
                source_url: Some(url),
                state: AppState::Main,
                status: final(self).status,
                ..*old(self)
            }),
    {
        self.summary = Some(summary);
        self.source_url = Some(url);
        self.state = AppState::Main;
        self.status = STATUS_HINT.to_owned();
    }

    /// A step towards the summary failed: the error is shown.
    pub fn failed(&mut self, step: FailedStep, message: &str)
        ensures
            final(self).state matches AppState::Error(text) && text@ == failure_text(step, message@),
            *final(self) == (App { state: final(self).state, ..*old(self) }),
    {
        let mut text = match step {
            FailedStep::Fetch => "Failed to fetch URL: ".to_owned(),
            FailedStep::Config => "Config error: ".to_owned(),
            FailedStep::Summary => "Summarisation failed: ".to_owned(),
        };
        text.append(message);
        self.state = AppState::Error(text);
    }

    /// Update the displayed summary based on selection
    pub fn update_selected_summary(&mut self)
        ensures
            old(self).same_but_selection(*final(self)),
            final(self).selected == old(self).selected,
            old(self).shows_selected(*final(self)),
    {
        if let Some(index) = self.selected {
            if index < self.stored_summaries.len() {
                let summary = self.stored_summaries[index].summary.clone();
                let url = self.stored_summaries[index].url.clone();
                self.summary = Some(summary);
                self.source_url = Some(url);
                self.detail_scroll = 0;
            }
        }
    }

    /// Select the previous item in the list
    pub fn select_previous(&mut self)
        ensures
            old(self).selected_at(
                *final(self),
                place_before(old(self).selected, old(self).stored_summaries@.len() as int),
            ),
    {
        if self.stored_summaries.len() == 0 {
            return ;
        }
        let i = match self.selected {
            Some(i) => {
                if i == 0 {
                    self.stored_summaries.len() - 1
                } else {
                    i - 1
                }
            },
            None => 0,
        };
        self.selected = Some(i);
        self.update_selected_summary();
    }

    /// Select the next item in the list
    pub fn select_next(&mut self)
        ensures
            old(self).selected_at(
                *final(self),
                place_after(old(self).selected, old(self).stored_summaries@.len() as int),
            ),
    {
        if self.stored_summaries.len() == 0 {
            return ;
        }
        let i = match self.selected {
            Some(i) => {
                if i >= self.stored_summaries.len() - 1 {
                    0
                } else {
                    i + 1
                }
            },
            None => 0,
        };
        self.selected = Some(i);
        self.update_selected_summary();
    }

    /// Handle keyboard input
    pub fn handle_key(&mut self, key: Key)
        ensures
            old(self).after_key(key, *final(self)),
    {
        match &self.state {
            AppState::Main => match key {
                Key::Char('q') => { self.should_quit = true; },
                Key::Char('o') => {
                    self.state = AppState::UrlInput;
                    self.url_input.clear();
                },
                Key::Tab => {
                    self.focused_pane = match self.focused_pane {
                        FocusedPane::List => FocusedPane::Detail,
                        FocusedPane::Detail => FocusedPane::List,
                    };
                },
                Key::Up | Key::Char('k') => {
                    match self.focused_pane {
                        FocusedPane::List => { self.select_previous(); },
                        FocusedPane::Detail => {
                            self.detail_scroll = self.detail_scroll.saturating_sub(1);
                        },
                    }
                },
                Key::Down | Key::Char('j') => {
                    match self.focused_pane {
                        FocusedPane::List => { self.select_next(); },
                        FocusedPane::Detail => {
                            self.detail_scroll = self.detail_scroll.saturating_add(1);
                        },
                    }
                },
                Key::PageUp => {
                    match self.focused_pane {
                        FocusedPane::Detail => {
                            self.detail_scroll = self.detail_scroll.saturating_sub(10);
                        },
                        FocusedPane::List => {},
                    }
                },
                Key::PageDown => {
                    match self.focused_pane {
                        FocusedPane::Detail => {
                            self.detail_scroll = self.detail_scroll.saturating_add(10);
                        },
                        FocusedPane::List => {},
                    }
                },
                Key::Home => {
                    match self.focused_pane {
                        FocusedPane::Detail => { self.detail_scroll = 0; },
                        FocusedPane::List => {},
                    }
                },
                _ => {},
            },
            AppState::UrlInput => match key {
                Key::Esc => {
                    self.state = AppState::Main;
                    self.url_input.clear();
                },
                Key::Enter => {
                    if self.url_input.len() > 0 {
                        self.state = AppState::Loading;
                    }
                },
                Key::Backspace => {
                    self.url_input.pop();
                },
                Key::Char(c) => {
                    self.url_input.push(c);
                },
                _ => {},
            },
            AppState::Loading => {},
            AppState::Error(_) => match key {
                Key::Esc | Key::Enter => { self.state = AppState::Main; },
                Key::Char('q') => { self.should_quit = true; },
                _ => {},
            },
        }
    }
}

/// The step towards a summary that failed.
#[derive(Debug, Clone, Copy, PartialEq, Eq, Structural)]
pub enum FailedStep {
    /// Fetching the page
    Fetch,
    /// Loading the configuration
    Config,
    /// Asking the model
    Summary,
}

/// The text that reports a failure.
pub open spec fn failure_text(step: FailedStep, message: Seq<char>) -> Seq<char> {
    match step {
        FailedStep::Fetch => "Failed to fetch URL: "@ + message,
        FailedStep::Config => "Config error: "@ + message,
        FailedStep::Summary => "Summarisation failed: "@ + message,
    }
}

/// The character for a decimal digit.
pub open spec fn decimal_digit(d: nat) -> char
    recommends
        d < 10,
{
    ((48 + d) as u8) as char
}

/// The decimal digits of `n`, most significant first, without leading zeros.
pub open spec fn decimal_digits(n: nat) -> Seq<char>
    decreases n,
{
    if n < 10 {
        seq![decimal_digit(n)]
    } else {
        decimal_digits(n / 10).push(decimal_digit(n % 10))
    }
}

fn push_decimal(out: &mut Vec<char>, n: usize)
    ensures
        final(out)@ == old(out)@ + decimal_digits(n as nat),
    decreases n,
{
    if n >= 10 {
        push_decimal(out, n / 10);
    }
    let d: u8 = (n % 10) as u8;
    let c: char = (48 + d) as char;
    out.push(c);
    assert(out@ =~= old(out)@ + decimal_digits(n as nat));
}

/// Writes a number in decimal.
pub fn to_decimal(n: usize) -> (digits: Vec<char>)
    ensures
        digits@ == decimal_digits(n as nat),
{
    let mut out: Vec<char> = Vec::new();
    push_decimal(&mut out, n);
    assert(out@ =~= decimal_digits(n as nat));
    out
}

/// The text cut to `max_len` characters: the text itself where it is no
/// longer, else its first `max_len - 1` characters and an ellipsis.
pub open spec fn truncated(s: Seq<char>, max_len: int) -> Seq<char> {
    if s.len() <= max_len {
        s
    } else {
        s.take(max_len - 1).push('…')
    }
}

/// Truncate a string to a maximum length
pub fn truncate_string(s: &str, max_len: usize) -> (out: String)
    requires
        max_len > 0 || s@.len() == 0,
    ensures
        out@ == truncated(s@, max_len as int),
{
    if s.unicode_len() <= max_len {
        s.to_owned()
    } else {
        let mut out = s.substring_char(0, max_len - 1).to_owned();
        proof {
            reveal_strlit("…");
            assert("…"@ =~= seq!['…']);
        }
        out.append("…");
        assert(out@ =~= truncated(s@, max_len as int));
        out
    }
}

} // verus!
