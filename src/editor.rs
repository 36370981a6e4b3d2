use vstd::prelude::*;

verus! {

/// The line being typed at the terminal, with its cursor, the history of
/// entered lines and the state of history browsing and tab completion.
pub struct LineEditor {
    pub line: Vec<char>,
    pub cursor: usize,
    pub history: Vec<Vec<char>>,
    /// The history entry shown, or `history.len()` for the line being typed.
    pub index_history: usize,
    /// The line being typed, kept while browsing the history.
    pub saved: Option<Vec<char>>,
    /// How many times Tab was pressed in a row.
    pub tab_index: usize,
    /// The text that completions are computed from while Tab is pressed in a row.
    pub suggest: Option<Vec<char>>,
}

/// What the terminal must show after a key.
#[derive(Debug, PartialEq, Eq, Structural, Clone, Copy)]
pub enum Echo {
    /// Nothing changed on screen.
    Nothing,
    /// Clear the line and print it again, with the cursor at `cursor`.
    Redraw,
    /// Move the cursor one place left.
    CursorLeft,
    /// Move the cursor one place right.
    CursorRight,
    /// Print every completion on its own line, then the line again.
    ListCompletions,
}

pub open spec fn chars_of(v: Vec<Vec<char>>) -> Seq<Seq<char>> {
    v@.map_values(|l: Vec<char>| l@)
}

pub open spec fn opt_chars(o: Option<Vec<char>>) -> Option<Seq<char>> {
    match o {
        Some(v) => Some(v@),
        None => None,
    }
}

fn copy_chars(v: &Vec<char>) -> (r: Vec<char>)
    ensures
        r@ == v@,
{
    let mut r: Vec<char> = Vec::new();
    let mut i: usize = 0;
    while i < v.len()
        invariant
            0 <= i <= v@.len(),
            r@ == v@.take(i as int),
        decreases v@.len() - i,
    {
        r.push(v[i]);
        i = i + 1;
        assert(r@ =~= v@.take(i as int));
    }
    assert(v@.take(v@.len() as int) =~= v@);
    r
}

impl LineEditor {
    /// The cursor stands within the line and the history index within the history.
    pub open spec fn wf(&self) -> bool {
        &&& self.cursor <= self.line@.len()
        &&& self.index_history <= self.history@.len()
    }

    pub fn new() -> (r: LineEditor)
        ensures
            r.wf(),
            r.line@.len() == 0,
            r.cursor == 0,
            r.history@.len() == 0,
            r.index_history == 0,
            r.saved is None,
            r.tab_index == 0,
            r.suggest is None,
    {
        LineEditor {
            line: Vec::new(),
            cursor: 0,
            history: Vec::new(),
            index_history: 0,
            saved: None,
            tab_index: 0,
            suggest: None,
        }
    }

    /// Any key but Tab ends a run of Tab presses.
    fn end_tab_run(&mut self)
        ensures
            final(self).tab_index == 0,
            final(self).suggest is None,
            final(self).line == old(self).line,
            final(self).cursor == old(self).cursor,
            final(self).history == old(self).history,
            final(self).index_history == old(self).index_history,
            final(self).saved == old(self).saved,
    {
        self.tab_index = 0;
        self.suggest = None;
    }

    /// Inserts a typed character at the cursor and moves the cursor past it.
    pub fn insert_char(&mut self, c: char) -> (e: Echo)
        requires
            old(self).wf(),
            old(self).line@.len() < usize::MAX,
        ensures
            final(self).wf(),
            final(self).line@ == old(self).line@.insert(old(self).cursor as int, c),
            final(self).cursor == old(self).cursor + 1,
            final(self).history == old(self).history,
            final(self).index_history == old(self).index_history,
            final(self).saved == old(self).saved,
            final(self).tab_index == 0,
            final(self).suggest is None,
            e == Echo::Redraw,
    {
        self.end_tab_run();
        self.line.insert(self.cursor, c);
        self.cursor = self.cursor + 1;
        Echo::Redraw
    }

    /// Deletes the character before the cursor, if any, and leaves history browsing.
    pub fn backspace(&mut self) -> (e: Echo)
        requires
            old(self).wf(),
        ensures
            final(self).wf(),
            old(self).cursor > 0 ==> final(self).line@ == old(self).line@.remove(old(self).cursor - 1)
                && final(self).cursor == old(self).cursor - 1 && e == Echo::Redraw,
            old(self).cursor == 0 ==> final(self).line == old(self).line && final(self).cursor == 0
                && e == Echo::Nothing,
            final(self).history == old(self).history,
            final(self).index_history == old(self).history@.len(),
            final(self).saved == old(self).saved,
            final(self).tab_index == 0,
            final(self).suggest is None,
    {
        self.end_tab_run();
        self.index_history = self.history.len();
        if self.cursor > 0 {
            self.cursor = self.cursor - 1;
            self.line.remove(self.cursor);
            Echo::Redraw
        } else {
            Echo::Nothing
        }
    }

    /// Moves the cursor one place left, if it can, and leaves history browsing.
    pub fn left(&mut self) -> (e: Echo)
        requires
            old(self).wf(),
        ensures
            final(self).wf(),
            final(self).line == old(self).line,
            old(self).cursor > 0 ==> final(self).cursor == old(self).cursor - 1 && e == Echo::CursorLeft,
            old(self).cursor == 0 ==> final(self).cursor == 0 && e == Echo::Nothing,
            final(self).history == old(self).history,
            final(self).index_history == old(self).history@.len(),
            final(self).saved is None,
            final(self).tab_index == 0,
            final(self).suggest is None,
    {
        self.end_tab_run();
        self.saved = None;
        self.index_history = self.history.len();
        if self.cursor > 0 {
            self.cursor = self.cursor - 1;
            Echo::CursorLeft
        } else {
            Echo::Nothing
        }
    }

    /// Moves the cursor one place right, if it can, and leaves history browsing.
    pub fn right(&mut self) -> (e: Echo)
        requires
            old(self).wf(),
        ensures
            final(self).wf(),
            final(self).line == old(self).line,
            old(self).cursor < old(self).line@.len() ==> final(self).cursor == old(self).cursor + 1
                && e == Echo::CursorRight,
            old(self).cursor == old(self).line@.len() ==> final(self).cursor == old(self).cursor
                && e == Echo::Nothing,
            final(self).history == old(self).history,
            final(self).index_history == old(self).history@.len(),
            final(self).saved is None,
            final(self).tab_index == 0,
            final(self).suggest is None,
    {
        self.end_tab_run();
        self.saved = None;
        self.index_history = self.history.len();
        if self.cursor < self.line.len() {
            self.cursor = self.cursor + 1;
            Echo::CursorRight
        } else {
            Echo::Nothing
        }
    }

    /// Shows the previous history entry; the line being typed is kept aside
    /// on the first step back.
    pub fn up(&mut self) -> (e: Echo)
        requires
            old(self).wf(),
        ensures
            final(self).wf(),
            final(self).history == old(self).history,
            final(self).tab_index == 0,
            final(self).suggest is None,
            old(self).index_history > 0 ==> {
                let k = old(self).index_history - 1;
                &&& final(self).index_history == k
                &&& final(self).line@ == old(self).history@[k as int]@
                &&& final(self).cursor == final(self).line@.len()
                &&& final(self).saved == if old(self).saved is None {
                    Some(old(self).line)
                } else {
                    old(self).saved
                }
                &&& e == Echo::Redraw
            },
            old(self).index_history == 0 ==> final(self).line == old(self).line && final(self).cursor
                == old(self).cursor && final(self).index_history == 0 && final(self).saved
                == old(self).saved && e == Echo::Nothing,
    {
        self.end_tab_run();
        if self.index_history > 0 {
            let k = self.index_history - 1;
            let shown = copy_chars(&self.history[k]);
            if self.saved.is_none() {
                let mut typed = shown;
                std::mem::swap(&mut self.line, &mut typed);
                self.saved = Some(typed);
            } else {
                self.line = shown;
            }
            self.cursor = self.line.len();
            self.index_history = k;
            Echo::Redraw
        } else {
            Echo::Nothing
        }
    }

    /// Shows the next history entry, or, past the last one, the line that
    /// was kept aside.
    pub fn down(&mut self) -> (e: Echo)
        requires
            old(self).wf(),
        ensures
            final(self).wf(),
            final(self).history == old(self).history,
            final(self).tab_index == 0,
            final(self).suggest is None,
            old(self).index_history + 1 < old(self).history@.len() ==> {
                let k = old(self).index_history + 1;
                &&& final(self).index_history == k
                &&& final(self).line@ == old(self).history@[k as int]@
                &&& final(self).cursor == final(self).line@.len()
                &&& final(self).saved == old(self).saved
                &&& e == Echo::Redraw
            },
            old(self).index_history + 1 >= old(self).history@.len() ==> match old(self).saved {
                Some(s) => final(self).line == s && final(self).cursor == s@.len() && final(self).saved
                    is None && final(self).index_history == old(self).history@.len() && e == Echo::Redraw,
                None => final(self).line == old(self).line && final(self).cursor == old(self).cursor
                    && final(self).saved is None && final(self).index_history == old(self).index_history
                    && e == Echo::Nothing,
            },
    {
        self.end_tab_run();
        if self.history.len() > 0 && self.index_history < self.history.len() - 1 {
            let k = self.index_history + 1;
            self.line = copy_chars(&self.history[k]);
            self.cursor = self.line.len();
            self.index_history = k;
            Echo::Redraw
        } else {
            match self.saved.take() {
                Some(s) => {
                    self.line = s;
                    self.cursor = self.line.len();
                    self.index_history = self.history.len();
                    Echo::Redraw
                },
                None => Echo::Nothing,
            }
        }
    }

    /// Ends the line: it is returned for submission and added to the
    /// history, and an empty line begins.
    pub fn enter(&mut self) -> (r: Vec<char>)
        requires
            old(self).wf(),
        ensures
            final(self).wf(),
            r == old(self).line,
            chars_of(final(self).history) == chars_of(old(self).history).push(old(self).line@),
            final(self).index_history == final(self).history@.len(),
            final(self).line@.len() == 0,
            final(self).cursor == 0,
            final(self).saved == old(self).saved,
            final(self).tab_index == 0,
            final(self).suggest is None,
    {
        self.end_tab_run();
        let mut typed: Vec<char> = Vec::new();
        std::mem::swap(&mut self.line, &mut typed);
        let ghost before = self.history;
        self.history.push(copy_chars(&typed));
        proof {
            assert(chars_of(self.history) =~= chars_of(before).push(typed@));
        }
        self.index_history = self.history.len();
        self.cursor = 0;
        typed
    }

    /// The text that Tab completes: the line as it stood at the first Tab of a run.
    pub fn completion_base(&self) -> (r: Vec<char>)
        ensures
            r@ == match self.suggest {
                Some(s) => s@,
                None => self.line@,
            },
    {
        match &self.suggest {
            Some(s) => copy_chars(s),
            None => copy_chars(&self.line),
        }
    }

    /// Tab, given the completions of `completion_base`: a single completion
    /// replaces the line; with several, the first Tab lists them and each
    /// further Tab cycles through them.
    pub fn tab(&mut self, completions: &Vec<Vec<char>>) -> (e: Echo)
        requires
            old(self).wf(),
            old(self).tab_index < usize::MAX,
        ensures
            final(self).wf(),
            final(self).history == old(self).history,
            final(self).index_history == old(self).index_history,
            final(self).saved is None,
            opt_chars(final(self).suggest) == if old(self).suggest is None {
                Some(old(self).line@)
            } else {
                opt_chars(old(self).suggest)
            },
            completions@.len() == 0 ==> e == Echo::Nothing && final(self).line == old(self).line
                && final(self).cursor == old(self).cursor && final(self).tab_index == old(self).tab_index,
            completions@.len() == 1 ==> e == Echo::Redraw && final(self).line@ == completions@[0]@
                && final(self).cursor == final(self).line@.len() && final(self).tab_index
                == old(self).tab_index,
            completions@.len() > 1 && old(self).tab_index == 0 ==> e == Echo::ListCompletions
                && final(self).line == old(self).line && final(self).cursor == old(self).cursor
                && final(self).tab_index == 1,
            completions@.len() > 1 && old(self).tab_index > 0 ==> {
                let k = if old(self).tab_index >= completions@.len() { 0 } else { old(self).tab_index as int };
                &&& e == Echo::Redraw
                &&& final(self).line@ == completions@[k]@
                &&& final(self).cursor == final(self).line@.len()
                &&& final(self).tab_index == k + 1
            },
    {
        self.saved = None;
        if self.suggest.is_none() {
            self.suggest = Some(copy_chars(&self.line));
        }
        let n = completions.len();
        if n == 1 {
            self.line = copy_chars(&completions[0]);
            self.cursor = self.line.len();
            Echo::Redraw
        } else if n > 1 {
            if self.tab_index == 0 {
                self.tab_index = 1;
                Echo::ListCompletions
            } else {
                if self.tab_index >= n {
                    self.tab_index = 0;
                }
                self.line = copy_chars(&completions[self.tab_index]);
                self.cursor = self.line.len();
                self.tab_index = self.tab_index + 1;
                Echo::Redraw
            }
        } else {
            Echo::Nothing
        }
    }
}

} // verus!
