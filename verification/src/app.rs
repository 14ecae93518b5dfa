//! The state of the dashboard and every decision it takes: what a key press
//! does, what a message of the manager changes, and what each panel shows.
//! Drawing and the event loop stand outside this crate; they hand events in
//! and take panel contents out.
use vstd::prelude::*;

use crate::queue_data::love_payload::{
    script_stream_view, scripts_of_type, LovePayload, Script, ScriptInfo, ScriptStream,
    ScriptStreamView, StateStream,
};
use crate::text::{
    chars_of, contains_exec, contains_seq, decimal, dedup, dedup_strings, extend_chars,
    find_char, first_index_of, has_prefix, has_prefix_exec, last_index_of, push_decimal,
    replace_all, replace_all_exec, rfind_char, slice_chars, string_of,
};

verus! {

// ---------------------------------------------------------------------------
// Types
// ---------------------------------------------------------------------------

/// The panel that has the keyboard focus.
#[derive(Debug, Clone, Copy, PartialEq, Eq, Structural)]
pub enum Panel {
    Unfocused,
    State,
    CurrentScripts,
    AvailableScripts,
    WaitingScripts,
    DoneScripts,
}

/// Where the browser of available scripts stands: at the top, or inside a
/// directory of the standard or of the external scripts.
#[derive(Debug)]
pub enum SelectedScriptType {
    Top,
    Standard(String),
    External(String),
}

/// The model of [`SelectedScriptType`].
pub enum Selection {
    Top,
    Standard(Seq<char>),
    External(Seq<char>),
}

impl View for SelectedScriptType {
    type V = Selection;

    open spec fn view(&self) -> Selection {
        match self {
            SelectedScriptType::Top => Selection::Top,
            SelectedScriptType::Standard(p) => Selection::Standard(p@),
            SelectedScriptType::External(p) => Selection::External(p@),
        }
    }
}

/// A key of the keyboard, as far as the dashboard tells keys apart.
#[derive(Debug, Clone, Copy, PartialEq, Eq, Structural)]
pub enum KeyCode {
    Char(char),
    Esc,
    Left,
    Right,
    Up,
    Down,
    Enter,
    Other,
}

/// Whether a key went down, repeats or went up.
#[derive(Debug, Clone, Copy, PartialEq, Eq, Structural)]
pub enum KeyEventKind {
    Press,
    Repeat,
    Release,
}

/// A key event.
#[derive(Debug, Clone, Copy, PartialEq, Eq, Structural)]
pub struct KeyEvent {
    pub code: KeyCode,
    pub kind: KeyEventKind,
}

/// A terminal event.
#[derive(Debug, Clone, Copy, PartialEq, Eq, Structural)]
pub enum InputEvent {
    Key(KeyEvent),
    Other,
}

/// What a poll of the channel from the backend gave.
pub enum Received {
    Payload(LovePayload),
    Empty,
    Disconnected,
}

/// The backend stopped sending.
#[derive(Debug, Clone, Copy, PartialEq, Eq, Structural)]
pub enum BackendError {
    Disconnected,
}

/// The state of the dashboard.
pub struct App {
    counter: u8,
    available_scripts_scroll: u16,
    available_scripts_scroll_max: u16,
    availabale_script_cursor_position: u16,
    selected_panel: Panel,
    exit: bool,
    updated: bool,
    script_stream: Option<ScriptStream>,
    state_stream: Option<StateStream>,
    standard_scripts: Option<Vec<Script>>,
    external_scripts: Option<Vec<Script>>,
    selected_script_type: SelectedScriptType,
    visible_scripts_text: Vec<String>,
}

/// The model of the dashboard's state.
pub struct AppView {
    pub counter: u8,
    pub scroll: u16,
    pub scroll_max: u16,
    pub cursor: u16,
    pub panel: Panel,
    pub exit: bool,
    pub updated: bool,
    pub script_stream: Option<ScriptStreamView>,
    pub state_stream: Option<StateStream>,
    pub standard_scripts: Option<Seq<Script>>,
    pub external_scripts: Option<Seq<Script>>,
    pub selection: Selection,
    pub visible: Seq<Seq<char>>,
}

pub open spec fn scripts_view(o: Option<Vec<Script>>) -> Option<Seq<Script>> {
    match o {
        Some(v) => Some(v@),
        None => None,
    }
}

pub open spec fn strings_view(v: Seq<String>) -> Seq<Seq<char>> {
    v.map_values(|s: String| s@)
}

impl View for App {
    type V = AppView;

    closed spec fn view(&self) -> AppView {
        AppView {
            counter: self.counter,
            scroll: self.available_scripts_scroll,
            scroll_max: self.available_scripts_scroll_max,
            cursor: self.availabale_script_cursor_position,
            panel: self.selected_panel,
            exit: self.exit,
            updated: self.updated,
            script_stream: script_stream_view(self.script_stream),
            state_stream: self.state_stream,
            standard_scripts: scripts_view(self.standard_scripts),
            external_scripts: scripts_view(self.external_scripts),
            selection: self.selected_script_type@,
            visible: strings_view(self.visible_scripts_text@),
        }
    }
}

// ---------------------------------------------------------------------------
// The model's transitions
// ---------------------------------------------------------------------------

/// A directory path of the browser: the top (empty) or a path ending in `/`.
pub open spec fn is_directory_path(p: Seq<char>) -> bool {
    p.len() == 0 || p.last() == '/'
}

/// What every reachable state satisfies: the cursor and the scroll offset of
/// the available-scripts panel move together, a standard path is a directory
/// path, the external browser never leaves its top, and the panel's lines
/// are those of the browser's position (before any was computed, there are
/// none and the browser is at the top).
pub open spec fn well_formed(m: AppView) -> bool {
    &&& m.cursor == m.scroll
    &&& m.selection matches Selection::Standard(p) ==> is_directory_path(p)
    &&& m.selection matches Selection::External(p) ==> p.len() == 0
    &&& m.visible == visible_lines(m.selection, m.standard_scripts, m.external_scripts)
        || (m.visible.len() == 0 && m.selection is Top)
}

/// The state in which the dashboard starts.
pub open spec fn initial_view() -> AppView {
    AppView {
        counter: 0,
        scroll: 0,
        scroll_max: 0,
        cursor: 0,
        panel: Panel::Unfocused,
        exit: false,
        updated: false,
        script_stream: None,
        state_stream: None,
        standard_scripts: None,
        external_scripts: None,
        selection: Selection::Top,
        visible: Seq::empty(),
    }
}

/// The counter one step up, wrapping from 255 to 0.
pub open spec fn wrapping_increment(c: u8) -> u8 {
    if c == 255 { 0 } else { (c + 1) as u8 }
}

/// The counter one step down, wrapping from 0 to 255.
pub open spec fn wrapping_decrement(c: u8) -> u8 {
    if c == 0 { 255 } else { (c - 1) as u8 }
}

pub open spec fn after_increment(m: AppView) -> AppView {
    AppView { counter: wrapping_increment(m.counter), ..m }
}

pub open spec fn after_decrement(m: AppView) -> AppView {
    AppView { counter: wrapping_decrement(m.counter), ..m }
}

/// Moving down in the available-scripts panel; past the last position the
/// panel wraps to its top.
pub open spec fn after_down(m: AppView) -> AppView {
    if m.panel == Panel::AvailableScripts {
        if m.scroll >= m.scroll_max {
            AppView { scroll: 0, cursor: 0, ..m }
        } else {
            AppView { scroll: (m.scroll + 1) as u16, cursor: (m.cursor + 1) as u16, ..m }
        }
    } else {
        m
    }
}

/// Moving up in the available-scripts panel; at the top nothing changes.
pub open spec fn after_up(m: AppView) -> AppView {
    if m.panel == Panel::AvailableScripts && m.scroll != 0 {
        AppView { scroll: (m.scroll - 1) as u16, cursor: (m.cursor - 1) as u16, ..m }
    } else {
        m
    }
}

/// Giving the focus to `p`, which happens only while no panel has it.
pub open spec fn after_select(m: AppView, p: Panel) -> AppView {
    if m.panel == Panel::Unfocused {
        AppView { panel: p, ..m }
    } else {
        m
    }
}

/// The line shown for a script under the directory `dir`: the next component
/// of its path below `dir`, marked with `>>` when it is a directory; `None`
/// when the script is not under `dir`.
pub open spec fn entry_for(path: Seq<char>, dir: Seq<char>) -> Option<Seq<char>> {
    if has_prefix(path, dir) {
        let rest = path.skip(dir.len() as int);
        let k = first_index_of(rest, '/');
        if k >= 0 {
            Some(" - "@ + rest.take(k) + " >>"@)
        } else {
            Some(" - "@ + rest)
        }
    } else {
        None
    }
}

/// The lines of the scripts under `dir`, in the order of `scripts`.
pub open spec fn entries_of(scripts: Seq<Script>, dir: Seq<char>) -> Seq<Seq<char>>
    decreases scripts.len(),
{
    if scripts.len() == 0 {
        Seq::empty()
    } else {
        let rest = entries_of(scripts.drop_last(), dir);
        match entry_for(scripts.last().path@, dir) {
            Some(e) => rest.push(e),
            None => rest,
        }
    }
}

pub open spec fn entries_in(scripts: Option<Seq<Script>>, dir: Seq<char>) -> Seq<Seq<char>> {
    match scripts {
        Some(s) => entries_of(s, dir),
        None => Seq::empty(),
    }
}

/// The lines of the available-scripts panel for a position of the browser.
pub open spec fn visible_lines(
    sel: Selection,
    standard: Option<Seq<Script>>,
    external: Option<Seq<Script>>,
) -> Seq<Seq<char>> {
    match sel {
        Selection::Top => seq!["Standard Scripts >>"@, "External Scripts >>"@],
        Selection::Standard(dir) => seq![" << "@] + dedup(entries_in(standard, dir)),
        Selection::External(dir) => seq![" <<  "@] + dedup(entries_in(external, dir)),
    }
}

/// The directory above a directory path: `None` at the top, where going up
/// leaves the standard scripts.
pub open spec fn parent_dir(p: Seq<char>) -> Option<Seq<char>> {
    if p.len() > 0 && p.last() == '/' {
        let t = p.drop_last();
        let k = last_index_of(t, '/');
        if k >= 0 {
            Some(t.take(k).push('/'))
        } else {
            Some(Seq::empty())
        }
    } else {
        None
    }
}

/// The name that a directory line of the panel stands for.
pub open spec fn line_name(line: Seq<char>) -> Seq<char> {
    replace_all(replace_all(line, " >>"@, Seq::empty()), " - "@, Seq::empty())
}

/// The directory below `p` that a directory line names.
pub open spec fn child_dir(p: Seq<char>, line: Seq<char>) -> Seq<char> {
    p + line_name(line) + "/"@
}

/// The position of the browser after Enter on `line` (the line under the
/// cursor, read only inside a standard directory).
pub open spec fn selection_after_enter(sel: Selection, cursor: u16, line: Seq<char>) -> Selection {
    match sel {
        Selection::Top => if cursor == 0 {
            Selection::Standard(Seq::empty())
        } else {
            Selection::External(Seq::empty())
        },
        Selection::Standard(p) => if contains_seq(line, "<<"@) {
            match parent_dir(p) {
                Some(q) => Selection::Standard(q),
                None => Selection::Top,
            }
        } else if contains_seq(line, ">>"@) {
            Selection::Standard(child_dir(p, line))
        } else {
            Selection::Standard(p)
        },
        Selection::External(p) => Selection::External(p),
    }
}

/// Enter reads the line under the cursor, except at the top of the browser.
pub open spec fn enter_in_bounds(m: AppView) -> bool {
    m.panel == Panel::AvailableScripts && !(m.selection is Top) ==> m.cursor < m.visible.len()
}

/// Enter in the available-scripts panel: the browser moves, the cursor and
/// the scroll offset return to the top (except in the external browser),
/// and the lines are recomputed.
pub open spec fn after_enter(m: AppView) -> AppView {
    if m.panel == Panel::AvailableScripts {
        let line = if m.selection is Top { Seq::empty() } else { m.visible[m.cursor as int] };
        let sel = selection_after_enter(m.selection, m.cursor, line);
        let keep = m.selection is External;
        AppView {
            selection: sel,
            cursor: if keep { m.cursor } else { 0 },
            scroll: if keep { m.scroll } else { 0 },
            visible: visible_lines(sel, m.standard_scripts, m.external_scripts),
            ..m
        }
    } else {
        m
    }
}

/// What a pressed key does.
pub open spec fn after_key(m: AppView, code: KeyCode) -> AppView {
    match code {
        KeyCode::Char(c) => if c == 'q' {
            AppView { exit: true, ..m }
        } else if c == 'a' {
            after_select(m, Panel::AvailableScripts)
        } else if c == 's' {
            after_select(m, Panel::State)
        } else if c == 'c' {
            after_select(m, Panel::CurrentScripts)
        } else if c == 'w' {
            after_select(m, Panel::WaitingScripts)
        } else if c == 'd' {
            after_select(m, Panel::DoneScripts)
        } else if c == 'k' {
            after_up(m)
        } else if c == 'j' {
            after_down(m)
        } else {
            m
        },
        KeyCode::Esc => AppView { panel: Panel::Unfocused, ..m },
        KeyCode::Left => after_decrement(m),
        KeyCode::Right => after_increment(m),
        KeyCode::Up => after_up(m),
        KeyCode::Down => after_down(m),
        KeyCode::Enter => after_enter(m),
        KeyCode::Other => m,
    }
}

/// What a terminal event does: only key presses count.
pub open spec fn after_input(m: AppView, ev: InputEvent) -> AppView {
    match ev {
        InputEvent::Key(k) => if k.kind == KeyEventKind::Press {
            after_key(m, k.code)
        } else {
            m
        },
        InputEvent::Other => m,
    }
}

/// A key event reads the line under the cursor only within bounds.
pub open spec fn key_in_bounds(m: AppView, code: KeyCode) -> bool {
    code == KeyCode::Enter ==> enter_in_bounds(m)
}

pub open spec fn input_in_bounds(m: AppView, ev: InputEvent) -> bool {
    match ev {
        InputEvent::Key(k) => k.kind == KeyEventKind::Press ==> key_in_bounds(m, k.code),
        InputEvent::Other => true,
    }
}

/// A message of the manager: each stream it carries replaces the stored one,
/// new available scripts are split by type and the panel's lines
/// recomputed, and the counter of idle polls restarts.
pub open spec fn after_payload(m: AppView, p: LovePayload) -> AppView {
    let m1 = if p.script_stream_of() is Some {
        AppView { script_stream: p.script_stream_of(), updated: true, ..m }
    } else {
        m
    };
    let m2 = if p.state_stream_of() is Some {
        AppView { state_stream: p.state_stream_of(), updated: true, ..m1 }
    } else {
        m1
    };
    let m3 = match p.available_scripts_of() {
        Some(a) => {
            let standard = Some(scripts_of_type(a, "standard"@));
            let external = Some(scripts_of_type(a, "external"@));
            AppView {
                standard_scripts: standard,
                external_scripts: external,
                scroll_max: (a.len() % 0x10000) as u16,
                visible: visible_lines(m2.selection, standard, external),
                ..m2
            }
        },
        None => m2,
    };
    AppView { counter: 0, ..m3 }
}

// ---------------------------------------------------------------------------
// Helpers for the available-scripts browser
// ---------------------------------------------------------------------------

/// The line for one script under `dir`, as `entry_for` describes it.
fn entry_line(path: &String, dir: &Vec<char>) -> (r: Option<String>)
    ensures
        match r {
            Some(s) => entry_for(path@, dir@) == Some(s@),
            None => entry_for(path@, dir@) is None,
        },
{
    let p = chars_of(path.as_str());
    if !has_prefix_exec(&p, dir) {
        return None;
    }
    let rest = slice_chars(&p, dir.len(), p.len());
    proof {
        assert(rest@ =~= p@.skip(dir@.len() as int));
    }
    let mut line = chars_of(" - ");
    match find_char(&rest, '/') {
        Some(k) => {
            let name = slice_chars(&rest, 0, k);
            assert(name@ =~= rest@.take(k as int));
            extend_chars(&mut line, &name);
            extend_chars(&mut line, &chars_of(" >>"));
        },
        None => {
            extend_chars(&mut line, &rest);
        },
    }
    Some(string_of(&line))
}

/// The lines of the scripts under `dir`, in their order.
fn entry_lines(scripts: &Vec<Script>, dir: &Vec<char>) -> (r: Vec<String>)
    ensures
        strings_view(r@) == entries_of(scripts@, dir@),
{
    let mut out: Vec<String> = Vec::new();
    let mut i: usize = 0;
    while i < scripts.len()
        invariant
            i <= scripts.len(),
            strings_view(out@) == entries_of(scripts@.take(i as int), dir@),
        decreases scripts.len() - i,
    {
        let ghost t = scripts@.take(i as int + 1);
        assert(t.drop_last() =~= scripts@.take(i as int));
        assert(t.last() == scripts@[i as int]);
        match entry_line(&scripts[i].path, dir) {
            Some(line) => {
                let ghost before = strings_view(out@);
                out.push(line);
                assert(strings_view(out@) =~= before.push(line@));
            },
            None => {},
        }
        i = i + 1;
    }
    assert(scripts@.take(scripts.len() as int) =~= scripts@);
    out
}

/// The lines of the panel inside `dir`: a line to go back, then the
/// deduplicated script lines.
fn browser_lines(scripts: &Option<Vec<Script>>, dir: &String, back: &str) -> (r: Vec<String>)
    ensures
        strings_view(r@) == seq![back@] + dedup(entries_in(scripts_view(*scripts), dir@)),
{
    let d = chars_of(dir.as_str());
    let entries = match scripts {
        Some(v) => entry_lines(v, &d),
        None => Vec::new(),
    };
    proof {
        if scripts is None {
            assert(strings_view(entries@) =~= Seq::<Seq<char>>::empty());
        }
    }
    let deduped = dedup_strings(entries);
    let mut out: Vec<String> = Vec::new();
    out.push(string_of(&chars_of(back)));
    let mut i: usize = 0;
    while i < deduped.len()
        invariant
            i <= deduped.len(),
            strings_view(out@) == seq![back@] + strings_view(deduped@).take(i as int),
        decreases deduped.len() - i,
    {
        let ghost before = strings_view(out@);
        out.push(deduped[i].clone());
        assert(strings_view(out@) =~= before.push(deduped@[i as int]@));
        assert(strings_view(deduped@).take(i as int + 1) =~= strings_view(deduped@).take(i as int).push(deduped@[i as int]@));
        i = i + 1;
    }
    assert(strings_view(deduped@).take(deduped.len() as int) =~= strings_view(deduped@));
    out
}

/// The directory above `current`, or `None` at the top.
fn parent_selection(current: &String) -> (r: SelectedScriptType)
    ensures
        r@ == match parent_dir(current@) {
            Some(q) => Selection::Standard(q),
            None => Selection::Top,
        },
{
    let p = chars_of(current.as_str());
    if p.len() > 0 && p[p.len() - 1] == '/' {
        let t = slice_chars(&p, 0, p.len() - 1);
        assert(t@ =~= p@.drop_last());
        match rfind_char(&t, '/') {
            Some(k) => {
                let mut q = slice_chars(&t, 0, k);
                q.push('/');
                assert(q@ =~= t@.take(k as int).push('/'));
                SelectedScriptType::Standard(string_of(&q))
            },
            None => {
                let q: Vec<char> = Vec::new();
                assert(q@ =~= Seq::<char>::empty());
                SelectedScriptType::Standard(string_of(&q))
            },
        }
    } else {
        SelectedScriptType::Top
    }
}

/// The directory below `current` that `line` names.
fn child_selection(current: &String, line: &Vec<char>) -> (r: SelectedScriptType)
    ensures
        r@ == Selection::Standard(child_dir(current@, line@)),
{
    proof {
        reveal_strlit(" >>");
        reveal_strlit(" - ");
    }
    let empty: Vec<char> = Vec::new();
    let without_marker = replace_all_exec(line, &chars_of(" >>"), &empty);
    let name = replace_all_exec(&without_marker, &chars_of(" - "), &empty);
    let mut q = chars_of(current.as_str());
    extend_chars(&mut q, &name);
    extend_chars(&mut q, &chars_of("/"));
    assert(empty@ =~= Seq::<char>::empty());
    SelectedScriptType::Standard(string_of(&q))
}

// ---------------------------------------------------------------------------
// The dashboard
// ---------------------------------------------------------------------------

impl App {
    /// The invariant of the dashboard's state.
    pub open spec fn wf(&self) -> bool {
        well_formed(self@)
    }

    /// The dashboard as it starts: no data, no focus, the counter at zero.
    pub fn new() -> (r: App)
        ensures
            r.wf(),
            r@ == initial_view(),
    {
        let r = App {
            counter: 0,
            available_scripts_scroll: 0,
            available_scripts_scroll_max: 0,
            availabale_script_cursor_position: 0,
            selected_panel: Panel::Unfocused,
            exit: false,
            updated: false,
            script_stream: None,
            state_stream: None,
            standard_scripts: None,
            external_scripts: None,
            selected_script_type: SelectedScriptType::Top,
            visible_scripts_text: Vec::new(),
        };
        assert(strings_view(r.visible_scripts_text@) =~= Seq::<Seq<char>>::empty());
        r
    }

    /// Whether the user asked to quit.
    pub fn should_exit(&self) -> (r: bool)
        ensures
            r == self@.exit,
    {
        self.exit
    }

    /// Asks the dashboard to quit.
    pub fn exit(&mut self)
        requires
            old(self).wf(),
        ensures
            final(self).wf(),
            final(self)@ == (AppView { exit: true, ..old(self)@ }),
    {
        self.exit = true;
    }

    /// Counts one down, wrapping from 0 to 255.
    pub fn decrement_counter(&mut self)
        requires
            old(self).wf(),
        ensures
            final(self).wf(),
            final(self)@ == after_decrement(old(self)@),
    {
        if self.counter == 0 {
            self.counter = u8::MAX;
        } else {
            self.counter -= 1;
        }
    }

    /// Counts one up, wrapping from 255 to 0.
    pub fn increment_counter(&mut self)
        requires
            old(self).wf(),
        ensures
            final(self).wf(),
            final(self)@ == after_increment(old(self)@),
    {
        if self.counter == u8::MAX {
            self.counter = 0;
        } else {
            self.counter += 1;
        }
    }

    /// Moves the cursor of the available-scripts panel down.
    pub fn handle_down(&mut self)
        requires
            old(self).wf(),
        ensures
            final(self).wf(),
            final(self)@ == after_down(old(self)@),
    {
        match self.selected_panel {
            Panel::AvailableScripts => {
                if self.available_scripts_scroll >= self.available_scripts_scroll_max {
                    self.available_scripts_scroll = 0;
                    self.availabale_script_cursor_position = 0;
                } else {
                    self.available_scripts_scroll += 1;
                    self.availabale_script_cursor_position += 1;
                }
            },
            _ => {},
        }
    }

    /// Moves the cursor of the available-scripts panel up.
    pub fn handle_up(&mut self)
        requires
            old(self).wf(),
        ensures
            final(self).wf(),
            final(self)@ == after_up(old(self)@),
    {
        match self.selected_panel {
            Panel::AvailableScripts => {
                if self.available_scripts_scroll != 0 {
                    self.available_scripts_scroll -= 1;
                    self.availabale_script_cursor_position -= 1;
                }
            },
            _ => {},
        }
    }

    /// Whether Enter may be handled now: it reads the line under the cursor.
    pub fn can_handle_enter(&self) -> (r: bool)
        ensures
            r == enter_in_bounds(self@),
    {
        match self.selected_script_type {
            SelectedScriptType::Top => true,
            _ => self.selected_panel != Panel::AvailableScripts
                || (self.availabale_script_cursor_position as usize) < self.visible_scripts_text.len(),
        }
    }

    /// The lines of the available-scripts panel for the browser's position.
    pub fn get_visible_scripts(&self) -> (r: Vec<String>)
        ensures
            strings_view(r@) == visible_lines(
                self@.selection,
                self@.standard_scripts,
                self@.external_scripts,
            ),
    {
        match &self.selected_script_type {
            SelectedScriptType::Top => {
                let mut v: Vec<String> = Vec::new();
                v.push(string_of(&chars_of("Standard Scripts >>")));
                v.push(string_of(&chars_of("External Scripts >>")));
                assert(strings_view(v@) =~= seq!["Standard Scripts >>"@, "External Scripts >>"@]);
                v
            },
            SelectedScriptType::Standard(path) => browser_lines(&self.standard_scripts, path, " << "),
            SelectedScriptType::External(path) => browser_lines(&self.external_scripts, path, " <<  "),
        }
    }

    /// Enter in the available-scripts panel: moves the browser.
    pub fn handle_enter(&mut self)
        requires
            old(self).wf(),
            enter_in_bounds(old(self)@),
        ensures
            final(self).wf(),
            final(self)@ == after_enter(old(self)@),
    {
        if self.selected_panel != Panel::AvailableScripts {
            return;
        }
        let ghost m = self@;
        let next = match &self.selected_script_type {
            SelectedScriptType::Top => {
                if self.availabale_script_cursor_position == 0 {
                    SelectedScriptType::Standard(String::new())
                } else {
                    SelectedScriptType::External(String::new())
                }
            },
            SelectedScriptType::Standard(current) => {
                let i = self.availabale_script_cursor_position as usize;
                let line = chars_of(self.visible_scripts_text[i].as_str());
                assert(line@ == m.visible[m.cursor as int]);
                if contains_exec(&line, &chars_of("<<")) {
                    parent_selection(current)
                } else if contains_exec(&line, &chars_of(">>")) {
                    child_selection(current, &line)
                } else {
                    SelectedScriptType::Standard(current.clone())
                }
            },
            SelectedScriptType::External(current) => {
                // The line under the cursor names the script that would be
                // picked; the external browser does not move.
                SelectedScriptType::External(current.clone())
            },
        };
        let keep = match self.selected_script_type {
            SelectedScriptType::External(_) => true,
            _ => false,
        };
        self.selected_script_type = next;
        if !keep {
            self.availabale_script_cursor_position = 0;
            self.available_scripts_scroll = 0;
        }
        let visible = self.get_visible_scripts();
        self.visible_scripts_text = visible;
        proof {
            lemma_after_enter_well_formed(m);
        }
    }
}

impl App {
    fn select_panel(&mut self, p: Panel)
        requires
            old(self).wf(),
        ensures
            final(self).wf(),
            final(self)@ == after_select(old(self)@, p),
    {
        if self.selected_panel == Panel::Unfocused {
            self.selected_panel = p;
        }
    }

    /// What a pressed key does: `q` quits; `a`, `s`, `c`, `w`, `d` give the
    /// focus to a panel when none has it; Esc takes the focus away; `k`/Up
    /// and `j`/Down move the cursor; Left and Right count down and up; Enter
    /// moves the script browser.
    pub fn handle_key_event(&mut self, key_event: KeyEvent)
        requires
            old(self).wf(),
            key_in_bounds(old(self)@, key_event.code),
        ensures
            final(self).wf(),
            final(self)@ == after_key(old(self)@, key_event.code),
    {
        match key_event.code {
            KeyCode::Char(c) => {
                if c == 'q' {
                    self.exit();
                } else if c == 'a' {
                    self.select_panel(Panel::AvailableScripts);
                } else if c == 's' {
                    self.select_panel(Panel::State);
                } else if c == 'c' {
                    self.select_panel(Panel::CurrentScripts);
                } else if c == 'w' {
                    self.select_panel(Panel::WaitingScripts);
                } else if c == 'd' {
                    self.select_panel(Panel::DoneScripts);
                } else if c == 'k' {
                    self.handle_up();
                } else if c == 'j' {
                    self.handle_down();
                }
            },
            KeyCode::Esc => self.selected_panel = Panel::Unfocused,
            KeyCode::Left => self.decrement_counter(),
            KeyCode::Right => self.increment_counter(),
            KeyCode::Up => self.handle_up(),
            KeyCode::Down => self.handle_down(),
            KeyCode::Enter => self.handle_enter(),
            KeyCode::Other => {},
        }
    }

    /// What a terminal event does: key presses are handled, the rest ignored.
    pub fn handle_input(&mut self, event: InputEvent)
        requires
            old(self).wf(),
            input_in_bounds(old(self)@, event),
        ensures
            final(self).wf(),
            final(self)@ == after_input(old(self)@, event),
    {
        match event {
            InputEvent::Key(key_event) => {
                if key_event.kind == KeyEventKind::Press {
                    self.handle_key_event(key_event);
                }
            },
            InputEvent::Other => {},
        }
    }

    /// Takes in a message of the manager.
    pub fn apply_payload(&mut self, love_payload: &LovePayload)
        requires
            old(self).wf(),
        ensures
            final(self).wf(),
            final(self)@ == after_payload(old(self)@, *love_payload),
    {
        if let Some(script_stream) = love_payload.get_script_stream() {
            self.script_stream = Some(script_stream);
            self.updated = true;
        }
        if let Some(state_stream) = love_payload.get_state_stream() {
            self.state_stream = Some(state_stream);
            self.updated = true;
        }
        if let Some(available_scripts) = love_payload.get_available_scripts() {
            let scripts = available_scripts.get_standard_scripts();
            self.standard_scripts = Some(scripts);
            let scripts = available_scripts.get_external_scripts();
            self.external_scripts = Some(scripts);
            self.available_scripts_scroll_max = available_scripts.number_of_scripts();
            let visible_scripts = self.get_visible_scripts();
            self.visible_scripts_text = visible_scripts;
        }
        self.counter = 0;
    }

    /// One poll of the channel from the backend: a message is taken in, an
    /// empty channel counts one up, and a closed channel is an error that
    /// leaves the state as it was.
    pub fn receive(&mut self, received: Received) -> (r: Result<(), BackendError>)
        requires
            old(self).wf(),
        ensures
            final(self).wf(),
            match received {
                Received::Payload(p) => r is Ok && final(self)@ == after_payload(old(self)@, p),
                Received::Empty => r is Ok && final(self)@ == after_increment(old(self)@),
                Received::Disconnected => r == Err::<(), BackendError>(BackendError::Disconnected)
                    && final(self)@ == old(self)@,
            },
    {
        match received {
            Received::Payload(love_payload) => {
                self.apply_payload(&love_payload);
                Ok(())
            },
            Received::Empty => {
                self.increment_counter();
                Ok(())
            },
            Received::Disconnected => Err(BackendError::Disconnected),
        }
    }
}

impl BackendError {
    /// The message that reports the error.
    pub fn message(&self) -> (r: String)
        ensures
            r@ == "Error communicating with the backend."@,
    {
        string_of(&chars_of("Error communicating with the backend."))
    }
}

impl Default for App {
    /// The dashboard as it starts, as [`App::new`] makes it.
    fn default() -> (r: App)
        ensures
            r.wf(),
            r@ == initial_view(),
    {
        App::new()
    }
}

// ---------------------------------------------------------------------------
// What the panels show
// ---------------------------------------------------------------------------

/// The state badges of the state panel.
#[derive(Debug, Clone, Copy, PartialEq, Eq, Structural)]
pub enum Badge {
    Running,
    Stopped,
    Enabled,
    Disabled,
    Unknown,
}

/// A colour of a badge's text or background.
#[derive(Debug, Clone, Copy, PartialEq, Eq, Structural)]
pub enum BadgeColor {
    Black,
    Green,
    Yellow,
    Blue,
    Gray,
}

pub open spec fn badge_label(b: Badge) -> Seq<char> {
    match b {
        Badge::Running => "  RUNNING  "@,
        Badge::Stopped => "  STOPPED  "@,
        Badge::Enabled => "  ENABLED  "@,
        Badge::Disabled => "  DISABLED "@,
        Badge::Unknown => " Unknown "@,
    }
}

pub open spec fn badge_color(b: Badge) -> BadgeColor {
    match b {
        Badge::Running => BadgeColor::Green,
        Badge::Stopped => BadgeColor::Yellow,
        Badge::Enabled => BadgeColor::Green,
        Badge::Disabled => BadgeColor::Blue,
        Badge::Unknown => BadgeColor::Gray,
    }
}

impl Badge {
    /// The text of the badge.
    pub fn label(&self) -> (r: String)
        ensures
            r@ == badge_label(*self),
    {
        match self {
            Badge::Running => string_of(&chars_of("  RUNNING  ")),
            Badge::Stopped => string_of(&chars_of("  STOPPED  ")),
            Badge::Enabled => string_of(&chars_of("  ENABLED  ")),
            Badge::Disabled => string_of(&chars_of("  DISABLED ")),
            Badge::Unknown => string_of(&chars_of(" Unknown ")),
        }
    }

    /// The colour of the badge's text: black for every badge.
    pub fn foreground(&self) -> (r: BadgeColor)
        ensures
            r == BadgeColor::Black,
    {
        BadgeColor::Black
    }

    /// The background of the badge.
    pub fn color(&self) -> (r: BadgeColor)
        ensures
            r == badge_color(*self),
    {
        match self {
            Badge::Running => BadgeColor::Green,
            Badge::Stopped => BadgeColor::Yellow,
            Badge::Enabled => BadgeColor::Green,
            Badge::Disabled => BadgeColor::Blue,
            Badge::Unknown => BadgeColor::Gray,
        }
    }
}

/// The contents of the state panel: a line of the summary state (label and
/// badge), a line of the queue state (label and badge), and a line that
/// names the focused panel.
pub struct StatePanel {
    pub title: String,
    pub summary_label: String,
    pub summary_state: Badge,
    pub queue_label: String,
    pub queue_state: Badge,
    pub selected_panel: String,
}

/// The contents of a panel that lists lines.
pub struct ListPanel {
    pub title: String,
    pub lines: Vec<String>,
    pub highlighted: Option<usize>,
    pub scroll: u16,
}

/// A running script: the line that names it and the timestamps from which
/// its duration lines are drawn (`f64` bit patterns).
pub struct RunningScript {
    pub header: String,
    pub expected_duration_bits: u64,
    pub timestamp_process_end_bits: u64,
    pub timestamp_run_start_bits: u64,
}

/// The contents of the panel of running scripts.
pub struct RunningPanel {
    pub title: String,
    pub scripts: Vec<RunningScript>,
}

/// The name of a panel as the state panel shows it.
pub open spec fn panel_name(p: Panel) -> Seq<char> {
    match p {
        Panel::Unfocused => "None"@,
        Panel::State => "State"@,
        Panel::CurrentScripts => "CurrentScripts"@,
        Panel::AvailableScripts => "AvailableScripts"@,
        Panel::WaitingScripts => "WaitingScripts"@,
        Panel::DoneScripts => "DoneScripts"@,
    }
}

/// The title of the state panel: whether a message ever updated it, or
/// else the counter.
pub open spec fn state_title(m: AppView) -> Seq<char> {
    if m.updated {
        "State (updated) \u{1F494} \u{2764}\u{FE0F}:"@
    } else {
        "State (never updated) ["@ + decimal(m.counter as nat) + "]:"@
    }
}

pub open spec fn summary_badge(s: Option<StateStream>) -> Badge {
    match s {
        Some(st) => if st.enabled { Badge::Enabled } else { Badge::Disabled },
        None => Badge::Unknown,
    }
}

pub open spec fn queue_badge(s: Option<StateStream>) -> Badge {
    match s {
        Some(st) => if st.running { Badge::Running } else { Badge::Stopped },
        None => Badge::Unknown,
    }
}

/// The `Debug` text of a string slice: its characters in double quotes,
/// with the escapes that Rust's `Debug` for `str` writes.
pub uninterp spec fn debug_quoted(s: Seq<char>) -> Seq<char>;

/// Formats a string slice with `Debug` (std's `format!("{:?}", ..)`).
#[verifier::external_body]
fn debug_str(s: &str) -> (r: String)
    ensures
        r@ == debug_quoted(s@),
{
    format!("{:?}", s)
}

/// The position of the script browser as the title of its panel shows it.
pub open spec fn selection_text(sel: Selection) -> Seq<char> {
    match sel {
        Selection::Top => "None"@,
        Selection::Standard(p) => "Standard("@ + debug_quoted(p) + ")"@,
        Selection::External(p) => "External("@ + debug_quoted(p) + ")"@,
    }
}

/// The line of a waiting (or running) script: index, process state, path.
pub open spec fn queued_line(s: ScriptInfo) -> Seq<char> {
    " ["@ + decimal(s.index as nat) + "-"@ + s.process_state@ + "] "@ + s.path@
}

/// The line of a finished script: index, process state, script state, path.
pub open spec fn finished_line(s: ScriptInfo) -> Seq<char> {
    " ["@ + decimal(s.index as nat) + "-"@ + s.process_state@ + "-"@ + s.script_state@ + "]:"@
        + s.path@
}

pub open spec fn queued_lines(infos: Seq<ScriptInfo>) -> Seq<Seq<char>> {
    infos.map_values(|s: ScriptInfo| queued_line(s))
}

pub open spec fn finished_lines(infos: Seq<ScriptInfo>) -> Seq<Seq<char>> {
    infos.map_values(|s: ScriptInfo| finished_line(s))
}

fn append_str(out: &mut Vec<char>, s: &str)
    ensures
        final(out)@ == old(out)@ + s@,
{
    extend_chars(out, &chars_of(s));
}

fn queued_line_of(info: &ScriptInfo) -> (r: String)
    ensures
        r@ == queued_line(*info),
{
    let mut out = chars_of(" [");
    push_decimal(&mut out, info.index as u64);
    append_str(&mut out, "-");
    append_str(&mut out, info.process_state.as_str());
    append_str(&mut out, "] ");
    append_str(&mut out, info.path.as_str());
    string_of(&out)
}

fn finished_line_of(info: &ScriptInfo) -> (r: String)
    ensures
        r@ == finished_line(*info),
{
    let mut out = chars_of(" [");
    push_decimal(&mut out, info.index as u64);
    append_str(&mut out, "-");
    append_str(&mut out, info.process_state.as_str());
    append_str(&mut out, "-");
    append_str(&mut out, info.script_state.as_str());
    append_str(&mut out, "]:");
    append_str(&mut out, info.path.as_str());
    string_of(&out)
}

fn queued_lines_of(infos: &Vec<ScriptInfo>) -> (r: Vec<String>)
    ensures
        strings_view(r@) == queued_lines(infos@),
{
    let mut out: Vec<String> = Vec::new();
    let mut i: usize = 0;
    while i < infos.len()
        invariant
            i <= infos.len(),
            strings_view(out@) == queued_lines(infos@.take(i as int)),
        decreases infos.len() - i,
    {
        let line = queued_line_of(&infos[i]);
        let ghost before = strings_view(out@);
        out.push(line);
        assert(strings_view(out@) =~= before.push(line@));
        assert(queued_lines(infos@.take(i as int + 1)) =~= queued_lines(infos@.take(i as int)).push(queued_line(infos@[i as int])));
        i = i + 1;
    }
    assert(infos@.take(infos.len() as int) =~= infos@);
    out
}

fn finished_lines_of(infos: &Vec<ScriptInfo>) -> (r: Vec<String>)
    ensures
        strings_view(r@) == finished_lines(infos@),
{
    let mut out: Vec<String> = Vec::new();
    let mut i: usize = 0;
    while i < infos.len()
        invariant
            i <= infos.len(),
            strings_view(out@) == finished_lines(infos@.take(i as int)),
        decreases infos.len() - i,
    {
        let line = finished_line_of(&infos[i]);
        let ghost before = strings_view(out@);
        out.push(line);
        assert(strings_view(out@) =~= before.push(line@));
        assert(finished_lines(infos@.take(i as int + 1)) =~= finished_lines(infos@.take(i as int)).push(finished_line(infos@[i as int])));
        i = i + 1;
    }
    assert(infos@.take(infos.len() as int) =~= infos@);
    out
}

fn copy_strings(v: &Vec<String>) -> (r: Vec<String>)
    ensures
        r@ == v@,
{
    let mut out: Vec<String> = Vec::new();
    let mut i: usize = 0;
    while i < v.len()
        invariant
            i <= v.len(),
            out@ == v@.take(i as int),
        decreases v.len() - i,
    {
        out.push(v[i].clone());
        assert(v@.take(i as int + 1) =~= v@.take(i as int).push(v@[i as int]));
        i = i + 1;
    }
    assert(v@.take(v.len() as int) =~= v@);
    out
}

impl App {
    /// The contents of the state panel.
    pub fn get_state(&self) -> (r: StatePanel)
        ensures
            r.title@ == state_title(self@),
            r.summary_label@ == "SummaryState: "@,
            r.summary_state == summary_badge(self@.state_stream),
            r.queue_label@ == "Queue State:  "@,
            r.queue_state == queue_badge(self@.state_stream),
            r.selected_panel@ == "Selected Panel:  "@ + panel_name(self@.panel),
    {
        let (queue_state, summary_state) = match self.state_stream {
            Some(state_stream) => (
                if state_stream.running { Badge::Running } else { Badge::Stopped },
                if state_stream.enabled { Badge::Enabled } else { Badge::Disabled },
            ),
            None => (Badge::Unknown, Badge::Unknown),
        };
        let title = if self.updated {
            string_of(&chars_of("State (updated) \u{1F494} \u{2764}\u{FE0F}:"))
        } else {
            let mut out = chars_of("State (never updated) [");
            push_decimal(&mut out, self.counter as u64);
            append_str(&mut out, "]:");
            string_of(&out)
        };
        let mut selected = chars_of("Selected Panel:  ");
        let name = match self.selected_panel {
            Panel::Unfocused => "None",
            Panel::State => "State",
            Panel::CurrentScripts => "CurrentScripts",
            Panel::AvailableScripts => "AvailableScripts",
            Panel::WaitingScripts => "WaitingScripts",
            Panel::DoneScripts => "DoneScripts",
        };
        append_str(&mut selected, name);
        StatePanel {
            title,
            summary_label: string_of(&chars_of("SummaryState: ")),
            summary_state,
            queue_label: string_of(&chars_of("Queue State:  ")),
            queue_state,
            selected_panel: string_of(&selected),
        }
    }

    /// The contents of the available-scripts panel: the browser's lines, the
    /// line under the cursor highlighted while the panel has the focus.
    pub fn get_available_scripts(&self) -> (r: ListPanel)
        ensures
            r.title@ == "Available Scripts: "@ + selection_text(self@.selection),
            strings_view(r.lines@) == self@.visible,
            r.highlighted == (if self@.panel == Panel::AvailableScripts && self@.cursor < self@.visible.len() {
                Some(self@.cursor as usize)
            } else {
                None::<usize>
            }),
            r.scroll == self@.scroll,
    {
        let lines = copy_strings(&self.visible_scripts_text);
        let cursor = self.availabale_script_cursor_position as usize;
        let highlighted = if self.selected_panel == Panel::AvailableScripts && cursor < lines.len() {
            Some(cursor)
        } else {
            None
        };
        let mut title = chars_of("Available Scripts: ");
        match &self.selected_script_type {
            SelectedScriptType::Top => append_str(&mut title, "None"),
            SelectedScriptType::Standard(p) => {
                append_str(&mut title, "Standard(");
                let quoted = debug_str(p.as_str());
                append_str(&mut title, quoted.as_str());
                append_str(&mut title, ")");
            },
            SelectedScriptType::External(p) => {
                append_str(&mut title, "External(");
                let quoted = debug_str(p.as_str());
                append_str(&mut title, quoted.as_str());
                append_str(&mut title, ")");
            },
        }
        ListPanel { title: string_of(&title), lines, highlighted, scroll: self.available_scripts_scroll }
    }

    /// The contents of the panel of waiting scripts.
    pub fn get_waiting_scripts(&self) -> (r: ListPanel)
        ensures
            r.title@ == "Waiting Scripts"@,
            strings_view(r.lines@) == match self@.script_stream {
                Some(st) => queued_lines(st.waiting_scripts),
                None => Seq::empty(),
            },
            r.highlighted is None,
            r.scroll == 0,
    {
        let lines = match &self.script_stream {
            Some(st) => queued_lines_of(&st.waiting_scripts),
            None => Vec::new(),
        };
        assert(self.script_stream is None ==> strings_view(lines@) =~= Seq::<Seq<char>>::empty());
        ListPanel { title: string_of(&chars_of("Waiting Scripts")), lines, highlighted: None, scroll: 0 }
    }

    /// The contents of the panel of finished scripts.
    pub fn get_done_scripts(&self) -> (r: ListPanel)
        ensures
            r.title@ == "Done Scripts"@,
            strings_view(r.lines@) == match self@.script_stream {
                Some(st) => finished_lines(st.finished_scripts),
                None => Seq::empty(),
            },
            r.highlighted is None,
            r.scroll == 0,
    {
        let lines = match &self.script_stream {
            Some(st) => finished_lines_of(&st.finished_scripts),
            None => Vec::new(),
        };
        assert(self.script_stream is None ==> strings_view(lines@) =~= Seq::<Seq<char>>::empty());
        ListPanel { title: string_of(&chars_of("Done Scripts")), lines, highlighted: None, scroll: 0 }
    }

    /// The contents of the panel of running scripts: for each one the line
    /// that names it and the timestamps of its duration line.
    pub fn get_running_scripts(&self) -> (r: RunningPanel)
        ensures
            r.title@ == "Current Scripts"@,
            match self@.script_stream {
                Some(st) => {
                    &&& r.scripts@.len() == st.current_scripts.len()
                    &&& forall|i: int| 0 <= i < r.scripts@.len() ==> {
                        let s = #[trigger] r.scripts@[i];
                        let info = st.current_scripts[i];
                        &&& s.header@ == queued_line(info)
                        &&& s.expected_duration_bits == info.expected_duration_bits
                        &&& s.timestamp_process_end_bits == info.timestamp_process_end_bits
                        &&& s.timestamp_run_start_bits == info.timestamp_run_start_bits
                    }
                },
                None => r.scripts@.len() == 0,
            },
    {
        let mut scripts: Vec<RunningScript> = Vec::new();
        match &self.script_stream {
            Some(st) => {
                let infos = &st.current_scripts;
                let mut i: usize = 0;
                while i < infos.len()
                    invariant
                        i <= infos.len(),
                        scripts@.len() == i,
                        forall|j: int| 0 <= j < i ==> {
                            let s = #[trigger] scripts@[j];
                            let info = infos@[j];
                            &&& s.header@ == queued_line(info)
                            &&& s.expected_duration_bits == info.expected_duration_bits
                            &&& s.timestamp_process_end_bits == info.timestamp_process_end_bits
                            &&& s.timestamp_run_start_bits == info.timestamp_run_start_bits
                        },
                    decreases infos.len() - i,
                {
                    let info = &infos[i];
                    scripts.push(RunningScript {
                        header: queued_line_of(info),
                        expected_duration_bits: info.expected_duration_bits,
                        timestamp_process_end_bits: info.timestamp_process_end_bits,
                        timestamp_run_start_bits: info.timestamp_run_start_bits,
                    });
                    i = i + 1;
                }
            },
            None => {},
        }
        RunningPanel { title: string_of(&chars_of("Current Scripts")), scripts }
    }

    /// The counter as the dashboard's footer shows it.
    pub fn counter_text(&self) -> (r: String)
        ensures
            r@ == decimal(self@.counter as nat),
    {
        let mut out: Vec<char> = Vec::new();
        push_decimal(&mut out, self.counter as u64);
        assert(out@ =~= decimal(self.counter as nat));
        string_of(&out)
    }
}

pub proof fn lemma_after_enter_well_formed(m: AppView)
    requires
        well_formed(m),
        enter_in_bounds(m),
    ensures
        well_formed(after_enter(m)),
{
    reveal_strlit("/");
    if m.panel == Panel::AvailableScripts {
        match m.selection {
            Selection::Standard(p) => {
                let line = m.visible[m.cursor as int];
                if contains_seq(line, "<<"@) {
                    if let Some(q) = parent_dir(p) {
                        assert(is_directory_path(q));
                    }
                } else if contains_seq(line, ">>"@) {
                    let c = child_dir(p, line);
                    assert(c.last() == '/');
                }
            },
            _ => {},
        }
    }
}

} // verus!
