//! Properties of the dashboard that hold across its operations.
use vstd::prelude::*;

use crate::app::{
    after_decrement, after_enter, after_increment, after_input, after_key, after_payload,
    after_down, after_up, child_dir, entries_in, entries_of, entry_for,
    input_in_bounds, is_directory_path, lemma_after_enter_well_formed, line_name, parent_dir,
    visible_lines, well_formed, panel_name, state_title, queue_badge, summary_badge, queued_lines, finished_lines, AppView, Badge, InputEvent, KeyCode, KeyEvent, KeyEventKind, Panel,
    Selection,
};
use crate::queue_data::love_payload::{scripts_of_type, LovePayload, Script, ScriptInfo, StateStream};
use crate::text::{
    contains_seq, decimal, dedup, digit_char, first_index_of, has_prefix, last_index_of,
    lemma_dedup_keeps_every_value, lemma_dedup_no_adjacent_duplicates, lemma_first_index_of, lemma_last_index_of,
    lemma_replace_all_char_free, no_adjacent_duplicates, occurs_at, replace_all,
};

verus! {

/// `s` holds no `/`.
pub open spec fn slash_free(s: Seq<char>) -> bool {
    forall|j: int| 0 <= j < s.len() ==> s[j] != '/'
}

proof fn lemma_slash_free_concat(a: Seq<char>, b: Seq<char>)
    requires
        slash_free(a),
        slash_free(b),
    ensures
        slash_free(a + b),
{
    assert forall|j: int| 0 <= j < (a + b).len() implies (a + b)[j] != '/' by {
        if j >= a.len() {
            assert((a + b)[j] == b[j - a.len()]);
        }
    }
}

proof fn lemma_entry_for_shape(path: Seq<char>, dir: Seq<char>)
    ensures
        entry_for(path, dir) matches Some(e) ==> slash_free(e) && has_prefix(e, " - "@),
{
    reveal_strlit(" - ");
    reveal_strlit(" >>");
    if let Some(e) = entry_for(path, dir) {
        let rest = path.skip(dir.len() as int);
        let k = first_index_of(rest, '/');
        lemma_first_index_of(rest, '/');
        assert(slash_free(" - "@));
        assert(slash_free(" >>"@));
        if k >= 0 {
            assert(slash_free(rest.take(k)));
            lemma_slash_free_concat(" - "@, rest.take(k));
            lemma_slash_free_concat(" - "@ + rest.take(k), " >>"@);
            assert(e.take(3) =~= " - "@);
        } else {
            lemma_slash_free_concat(" - "@, rest);
            assert(e.take(3) =~= " - "@);
        }
    }
}

proof fn lemma_entries_shape(scripts: Seq<Script>, dir: Seq<char>)
    ensures
        forall|i: int| 0 <= i < entries_of(scripts, dir).len() ==>
            slash_free(#[trigger] entries_of(scripts, dir)[i]) && has_prefix(entries_of(scripts, dir)[i], " - "@),
    decreases scripts.len(),
{
    if scripts.len() > 0 {
        let rest = entries_of(scripts.drop_last(), dir);
        lemma_entries_shape(scripts.drop_last(), dir);
        lemma_entry_for_shape(scripts.last().path@, dir);
        let all = entries_of(scripts, dir);
        assert forall|i: int| 0 <= i < all.len() implies
            slash_free(#[trigger] all[i]) && has_prefix(all[i], " - "@) by {
            if i < rest.len() {
                assert(all[i] == rest[i]);
            }
        }
    }
}

proof fn lemma_dedup_entries_shape(s: Option<Seq<Script>>, dir: Seq<char>)
    ensures
        forall|i: int| 0 <= i < dedup(entries_in(s, dir)).len() ==>
            slash_free(#[trigger] dedup(entries_in(s, dir))[i]) && has_prefix(dedup(entries_in(s, dir))[i], " - "@),
{
    let e = entries_in(s, dir);
    if let Some(v) = s {
        lemma_entries_shape(v, dir);
    }
    lemma_dedup_no_adjacent_duplicates(e);
    assert forall|i: int| 0 <= i < dedup(e).len() implies
        slash_free(#[trigger] dedup(e)[i]) && has_prefix(dedup(e)[i], " - "@) by {
        assert(e.contains(dedup(e)[i]));
        let j = choose|j: int| 0 <= j < e.len() && e[j] == dedup(e)[i];
    }
}

/// The lines of the available-scripts panel: at the top, the two lines that
/// lead to the standard and the external scripts; inside a directory, a
/// line to go back, then one line per distinct adjacent entry, each starting
/// with ` - `. No line holds a `/`.
pub proof fn law_visible_lines_shape(
    sel: Selection,
    standard: Option<Seq<Script>>,
    external: Option<Seq<Script>>,
)
    ensures
        ({
            let v = visible_lines(sel, standard, external);
            &&& v.len() >= 1
            &&& forall|i: int| 0 <= i < v.len() ==> slash_free(#[trigger] v[i])
            &&& sel is Top ==> v =~= seq!["Standard Scripts >>"@, "External Scripts >>"@]
            &&& sel is Standard ==> v[0] == " << "@
            &&& sel is External ==> v[0] == " <<  "@
            &&& !(sel is Top) ==> forall|i: int| 1 <= i < v.len() ==> has_prefix(#[trigger] v[i], " - "@)
            &&& !(sel is Top) ==> no_adjacent_duplicates(v.skip(1))
        }),
{
    reveal_strlit("Standard Scripts >>");
    reveal_strlit("External Scripts >>");
    reveal_strlit(" << ");
    reveal_strlit(" <<  ");
    let v = visible_lines(sel, standard, external);
    match sel {
        Selection::Top => {
            assert(slash_free("Standard Scripts >>"@));
            assert(slash_free("External Scripts >>"@));
        },
        Selection::Standard(dir) => {
            lemma_dedup_entries_shape(standard, dir);
            lemma_dedup_no_adjacent_duplicates(entries_in(standard, dir));
            let d = dedup(entries_in(standard, dir));
            assert(v.skip(1) =~= d);
            assert(slash_free(" << "@));
            assert forall|i: int| 0 <= i < v.len() implies slash_free(#[trigger] v[i]) by {
                if i >= 1 {
                    assert(v[i] == d[i - 1]);
                }
            }
            assert forall|i: int| 1 <= i < v.len() implies has_prefix(#[trigger] v[i], " - "@) by {
                assert(v[i] == d[i - 1]);
            }
        },
        Selection::External(dir) => {
            lemma_dedup_entries_shape(external, dir);
            lemma_dedup_no_adjacent_duplicates(entries_in(external, dir));
            let d = dedup(entries_in(external, dir));
            assert(v.skip(1) =~= d);
            assert(slash_free(" <<  "@));
            assert forall|i: int| 0 <= i < v.len() implies slash_free(#[trigger] v[i]) by {
                if i >= 1 {
                    assert(v[i] == d[i - 1]);
                }
            }
            assert forall|i: int| 1 <= i < v.len() implies has_prefix(#[trigger] v[i], " - "@) by {
                assert(v[i] == d[i - 1]);
            }
        },
    }
}

/// Counting up and then down, or down and then up, restores the counter.
pub proof fn law_counter_round_trip(m: AppView)
    ensures
        after_decrement(after_increment(m)) == m,
        after_increment(after_decrement(m)) == m,
{
}

/// In the available-scripts panel, moving down and then up restores the
/// position unless moving down wrapped to the top; moving up from below
/// the top and then down restores it too.
pub proof fn law_scroll_round_trip(m: AppView)
    requires
        well_formed(m),
        m.panel == Panel::AvailableScripts,
    ensures
        m.scroll < m.scroll_max ==> after_up(after_down(m)) == m,
        0 < m.scroll <= m.scroll_max ==> after_down(after_up(m)) == m,
        m.scroll >= m.scroll_max ==> after_down(m).scroll == 0 && after_down(m).cursor == 0,
{
}

/// A focus key pressed while no panel has the focus, followed by Esc,
/// leaves the state as it was.
pub proof fn law_focus_then_escape(m: AppView, c: char)
    requires
        m.panel == Panel::Unfocused,
        c == 'a' || c == 's' || c == 'c' || c == 'w' || c == 'd',
    ensures
        after_key(m, KeyCode::Char(c)).panel != Panel::Unfocused,
        after_key(after_key(m, KeyCode::Char(c)), KeyCode::Esc) == m,
{
}

/// Once the user asked to quit, or a message updated the state panel, no
/// terminal event and no message takes it back.
pub proof fn law_flags_are_permanent(m: AppView, ev: InputEvent, p: LovePayload)
    ensures
        m.exit ==> after_input(m, ev).exit && after_payload(m, p).exit,
        m.updated ==> after_input(m, ev).updated && after_payload(m, p).updated,
{
}

/// Every terminal event that the dashboard may take keeps its invariant.
pub proof fn law_input_keeps_well_formed(m: AppView, ev: InputEvent)
    requires
        well_formed(m),
        input_in_bounds(m, ev),
    ensures
        well_formed(after_input(m, ev)),
{
    if let InputEvent::Key(k) = ev {
        if k.kind == KeyEventKind::Press && k.code == KeyCode::Enter {
            lemma_after_enter_well_formed(m);
        }
    }
}

/// Every message of the manager keeps the dashboard's invariant.
pub proof fn law_payload_keeps_well_formed(m: AppView, p: LovePayload)
    requires
        well_formed(m),
    ensures
        well_formed(after_payload(m, p)),
{
}

/// Opening a directory and going back up returns to the directory one
/// started from, for a directory name without `/`.
pub proof fn law_directory_round_trip(p: Seq<char>, line: Seq<char>)
    requires
        is_directory_path(p),
        slash_free(line),
    ensures
        parent_dir(child_dir(p, line)) == Some(p),
{
    reveal_strlit("/");
    let empty = Seq::<char>::empty();
    lemma_replace_all_char_free(line, " >>"@, empty, '/');
    lemma_replace_all_char_free(replace_all(line, " >>"@, empty), " - "@, empty, '/');
    let name = line_name(line);
    assert(slash_free(name));
    let c = child_dir(p, line);
    assert(c.len() > 0 && c.last() == '/');
    let t = c.drop_last();
    assert(t =~= p + name);
    lemma_last_index_of(t, '/');
    if p.len() == 0 {
        assert(t =~= name);
        assert(last_index_of(t, '/') == -1);
    } else {
        let k = p.len() - 1;
        assert(t[k] == '/');
        assert(last_index_of(t, '/') == k) by {
            assert forall|j: int| k < j < t.len() implies t[j] != '/' by {
                assert(t[j] == name[j - p.len()]);
            }
            if last_index_of(t, '/') > k {
                assert(t[last_index_of(t, '/')] == name[last_index_of(t, '/') - p.len()]);
            }
        }
        assert(t.take(k).push('/') =~= p);
    }
}

/// Enter on a directory line of the standard scripts opens that directory
/// with the cursor on the line that leads back; a second Enter returns to
/// the directory one started from.
pub proof fn law_open_then_back(m: AppView)
    requires
        well_formed(m),
        m.panel == Panel::AvailableScripts,
        m.selection is Standard,
        m.cursor < m.visible.len(),
        contains_seq(m.visible[m.cursor as int], ">>"@),
        !contains_seq(m.visible[m.cursor as int], "<<"@),
    ensures
        after_enter(m).cursor == 0,
        after_enter(m).visible.len() > 0,
        after_enter(after_enter(m)).selection == m.selection,
{
    reveal_strlit(" << ");
    reveal_strlit("<<");
    let p = m.selection->Standard_0;
    law_visible_lines_shape(m.selection, m.standard_scripts, m.external_scripts);
    let line = m.visible[m.cursor as int];
    assert(slash_free(line));
    law_directory_round_trip(p, line);
    let m1 = after_enter(m);
    law_visible_lines_shape(m1.selection, m1.standard_scripts, m1.external_scripts);
    assert(m1.visible[0] == " << "@);
    assert(occurs_at(" << "@, "<<"@, 1)) by {
        assert(" << "@.subrange(1, 3) =~= "<<"@);
    }
    assert(contains_seq(m1.visible[0], "<<"@));
}

/// The scripts of `a` whose type is neither `k1` nor `k2`, in their order.
pub open spec fn scripts_of_other_types(a: Seq<Script>, k1: Seq<char>, k2: Seq<char>) -> Seq<Script>
    decreases a.len(),
{
    if a.len() == 0 {
        Seq::empty()
    } else {
        let rest = scripts_of_other_types(a.drop_last(), k1, k2);
        if a.last().script_type@ != k1 && a.last().script_type@ != k2 {
            rest.push(a.last())
        } else {
            rest
        }
    }
}

/// Splitting the available scripts by type: each part holds only scripts of
/// its type, so for two different types no script is in both parts; the two
/// parts and the scripts of other types together are exactly as many as the
/// list, so the two parts make up the whole list exactly when every script
/// has one of the two types.
pub proof fn law_scripts_by_type(a: Seq<Script>, k1: Seq<char>, k2: Seq<char>)
    requires
        k1 != k2,
    ensures
        forall|i: int| 0 <= i < scripts_of_type(a, k1).len() ==> (#[trigger] scripts_of_type(a, k1)[i]).script_type@ == k1,
        forall|i: int| 0 <= i < scripts_of_type(a, k2).len() ==> (#[trigger] scripts_of_type(a, k2)[i]).script_type@ != k1,
        scripts_of_type(a, k1).len() + scripts_of_type(a, k2).len() + scripts_of_other_types(a, k1, k2).len() == a.len(),
        scripts_of_type(a, k1).len() + scripts_of_type(a, k2).len() <= a.len(),
        (scripts_of_type(a, k1).len() + scripts_of_type(a, k2).len() == a.len())
            <==> (forall|i: int| 0 <= i < a.len() ==> #[trigger] a[i].script_type@ == k1 || a[i].script_type@ == k2),
    decreases a.len(),
{
    if a.len() > 0 {
        let t = a.drop_last();
        law_scripts_by_type(t, k1, k2);
        let p1 = scripts_of_type(t, k1);
        let p2 = scripts_of_type(t, k2);
        assert forall|i: int| 0 <= i < scripts_of_type(a, k1).len() implies
            (#[trigger] scripts_of_type(a, k1)[i]).script_type@ == k1 by {
            if i < p1.len() {
                assert(scripts_of_type(a, k1)[i] == p1[i]);
            }
        }
        assert forall|i: int| 0 <= i < scripts_of_type(a, k2).len() implies
            (#[trigger] scripts_of_type(a, k2)[i]).script_type@ != k1 by {
            if i < p2.len() {
                assert(scripts_of_type(a, k2)[i] == p2[i]);
            }
        }
        if forall|i: int| 0 <= i < a.len() ==> #[trigger] a[i].script_type@ == k1 || a[i].script_type@ == k2 {
            assert forall|i: int| 0 <= i < t.len() implies #[trigger] t[i].script_type@ == k1 || t[i].script_type@ == k2 by {
                assert(t[i] == a[i]);
            }
            assert(a[a.len() - 1] == a.last());
        } else {
            let j = choose|j: int| 0 <= j < a.len() && !(#[trigger] a[j].script_type@ == k1 || a[j].script_type@ == k2);
            if j < t.len() {
                assert(t[j] == a[j]);
            } else {
                assert(a[j] == a.last());
            }
        }
    }
}

/// A key event does what the handler that its code names does: `k`/Up move
/// up, `j`/Down move down, Left counts down, Right counts up, Enter moves
/// the browser, `q` asks to quit, Esc takes the focus away; any other
/// character, and any key the dashboard does not tell apart, does nothing.
pub proof fn law_key_dispatch(m: AppView, c: char)
    ensures
        after_key(m, KeyCode::Char('k')) == after_up(m),
        after_key(m, KeyCode::Up) == after_up(m),
        after_key(m, KeyCode::Char('j')) == after_down(m),
        after_key(m, KeyCode::Down) == after_down(m),
        after_key(m, KeyCode::Left) == after_decrement(m),
        after_key(m, KeyCode::Right) == after_increment(m),
        after_key(m, KeyCode::Enter) == after_enter(m),
        after_key(m, KeyCode::Char('q')) == (AppView { exit: true, ..m }),
        after_key(m, KeyCode::Esc) == (AppView { panel: Panel::Unfocused, ..m }),
        after_key(m, KeyCode::Other) == m,
        !(c == 'q' || c == 'a' || c == 's' || c == 'c' || c == 'w' || c == 'd' || c == 'k' || c == 'j')
            ==> after_key(m, KeyCode::Char(c)) == m,
{
}

/// A terminal event acts only when it is a key press, and then exactly as
/// that key does; releases, repeats and other events change nothing.
pub proof fn law_input_is_key_press(m: AppView, k: KeyEvent)
    ensures
        k.kind == KeyEventKind::Press ==> after_input(m, InputEvent::Key(k)) == after_key(m, k.code),
        k.kind != KeyEventKind::Press ==> after_input(m, InputEvent::Key(k)) == m,
        after_input(m, InputEvent::Other) == m,
{
}

/// The counter steps by exactly one: up from below 255 adds one and 255
/// goes to 0; down from above 0 subtracts one and 0 goes to 255. Nothing
/// else changes.
pub proof fn law_counter_steps(m: AppView)
    ensures
        m.counter < 255 ==> after_increment(m).counter == m.counter + 1,
        m.counter == 255 ==> after_increment(m).counter == 0,
        m.counter > 0 ==> after_decrement(m).counter == m.counter - 1,
        m.counter == 0 ==> after_decrement(m).counter == 255,
        after_increment(m) == (AppView { counter: after_increment(m).counter, ..m }),
        after_decrement(m) == (AppView { counter: after_decrement(m).counter, ..m }),
{
}

/// The cursor of the available-scripts panel steps by exactly one, together
/// with the scroll offset: down adds one below the number of scripts and
/// returns to the top at it; up subtracts one above the top and stays at
/// the top. Outside the panel, or for other fields, nothing changes.
pub proof fn law_cursor_steps(m: AppView)
    requires
        well_formed(m),
    ensures
        m.panel != Panel::AvailableScripts ==> after_down(m) == m && after_up(m) == m,
        m.panel == Panel::AvailableScripts && m.scroll < m.scroll_max ==>
            after_down(m).scroll == m.scroll + 1 && after_down(m).cursor == m.cursor + 1,
        m.panel == Panel::AvailableScripts && m.scroll > 0 ==>
            after_up(m).scroll == m.scroll - 1 && after_up(m).cursor == m.cursor - 1,
        m.scroll == 0 ==> after_up(m) == m,
        after_down(m) == (AppView { scroll: after_down(m).scroll, cursor: after_down(m).cursor, ..m }),
        after_up(m) == (AppView { scroll: after_up(m).scroll, cursor: after_up(m).cursor, ..m }),
{
}

/// A focus key changes nothing while a panel has the focus.
pub proof fn law_focus_keys_need_no_focus(m: AppView, c: char)
    requires
        m.panel != Panel::Unfocused,
        c == 'a' || c == 's' || c == 'c' || c == 'w' || c == 'd',
    ensures
        after_key(m, KeyCode::Char(c)) == m,
{
}

/// Enter at the top of the browser opens the standard scripts when the
/// cursor is on the first line and the external scripts otherwise, with
/// the cursor back on the first line.
pub proof fn law_enter_at_top(m: AppView)
    requires
        m.panel == Panel::AvailableScripts,
        m.selection is Top,
    ensures
        m.cursor == 0 ==> after_enter(m).selection == Selection::Standard(Seq::<char>::empty()),
        m.cursor != 0 ==> after_enter(m).selection == Selection::External(Seq::<char>::empty()),
        after_enter(m).cursor == 0,
        after_enter(m).scroll == 0,
{
}

/// Enter inside the external scripts leaves the browser, the cursor and the
/// scroll offset where they are.
pub proof fn law_enter_in_external(m: AppView)
    requires
        m.panel == Panel::AvailableScripts,
        m.selection is External,
    ensures
        after_enter(m).selection == m.selection,
        after_enter(m).cursor == m.cursor,
        after_enter(m).scroll == m.scroll,
{
}

/// Enter outside the available-scripts panel changes nothing.
pub proof fn law_enter_needs_focus(m: AppView)
    requires
        m.panel != Panel::AvailableScripts,
    ensures
        after_enter(m) == m,
{
}

/// Enter inside a standard directory on a line that holds neither `<<` nor
/// `>>` (a script, not a directory) leaves the browser in that directory,
/// with the cursor back on the first line and the lines of that directory.
pub proof fn law_enter_on_script_line_stays(m: AppView)
    requires
        m.panel == Panel::AvailableScripts,
        m.selection is Standard,
        m.cursor < m.visible.len(),
        forall|i: int| 0 <= i && i + 2 <= m.visible[m.cursor as int].len()
            ==> #[trigger] m.visible[m.cursor as int].subrange(i, i + 2) != "<<"@,
        forall|i: int| 0 <= i && i + 2 <= m.visible[m.cursor as int].len()
            ==> #[trigger] m.visible[m.cursor as int].subrange(i, i + 2) != ">>"@,
    ensures
        after_enter(m).selection == m.selection,
        after_enter(m).cursor == 0,
        after_enter(m).scroll == 0,
        after_enter(m).visible == visible_lines(m.selection, m.standard_scripts, m.external_scripts),
{
    reveal_strlit("<<");
    reveal_strlit(">>");
    let line = m.visible[m.cursor as int];
    assert(!contains_seq(line, "<<"@)) by {
        if contains_seq(line, "<<"@) {
            let i = choose|i: int| occurs_at(line, "<<"@, i);
            assert(line.subrange(i, i + 2) != "<<"@);
        }
    }
    assert(!contains_seq(line, ">>"@)) by {
        if contains_seq(line, ">>"@) {
            let i = choose|i: int| occurs_at(line, ">>"@, i);
            assert(line.subrange(i, i + 2) != ">>"@);
        }
    }
}

/// A message stores each stream that its first data entry carries, whatever
/// the stream holds, and sets the updated mark for a script or state
/// stream; available scripts are split into the standard and the external
/// ones, their number (mod 2^16) bounds the cursor, and the browser's lines
/// are recomputed. A stream the message does not carry stays as it was.
/// The idle counter restarts; the focus, the browser's position, the cursor
/// and the quit request are untouched.
pub proof fn law_payload_stores_streams(m: AppView, p: LovePayload)
    ensures
        ({
            let r = after_payload(m, p);
            let carried = p.data@.len() > 0;
            &&& carried && p.data@[0].data.script_stream is Some ==>
                r.script_stream == Some(p.data@[0].data.script_stream->Some_0@) && r.updated
            &&& !(carried && p.data@[0].data.script_stream is Some) ==> r.script_stream == m.script_stream
            &&& carried && p.data@[0].data.state_stream is Some ==>
                r.state_stream == p.data@[0].data.state_stream && r.updated
            &&& !(carried && p.data@[0].data.state_stream is Some) ==> r.state_stream == m.state_stream
            &&& r.updated == (m.updated || (carried && (p.data@[0].data.script_stream is Some
                || p.data@[0].data.state_stream is Some)))
            &&& carried && p.data@[0].data.available_scripts_stream is Some ==> {
                let a = p.data@[0].data.available_scripts_stream->Some_0@;
                &&& r.standard_scripts == Some(scripts_of_type(a, "standard"@))
                &&& r.external_scripts == Some(scripts_of_type(a, "external"@))
                &&& r.scroll_max as int == a.len() % 0x10000
                &&& r.visible == visible_lines(m.selection, r.standard_scripts, r.external_scripts)
            }
            &&& !(carried && p.data@[0].data.available_scripts_stream is Some) ==> {
                &&& r.standard_scripts == m.standard_scripts
                &&& r.external_scripts == m.external_scripts
                &&& r.scroll_max == m.scroll_max
                &&& r.visible == m.visible
            }
            &&& r.counter == 0
            &&& r.panel == m.panel
            &&& r.selection == m.selection
            &&& r.cursor == m.cursor
            &&& r.scroll == m.scroll
            &&& r.exit == m.exit
        }),
{
}

/// The state panel's badges follow the stored state stream: the queue badge
/// is Running exactly when the queue runs and Stopped exactly when it does
/// not, whatever the enabled flag; the summary badge is Enabled exactly when
/// the queue is enabled and Disabled exactly when it is not, whatever the
/// running flag; without a state stream both are Unknown.
pub proof fn law_state_badges(s: Option<StateStream>)
    ensures
        s is Some ==> (queue_badge(s) == Badge::Running) == s->Some_0.running,
        s is Some ==> (queue_badge(s) == Badge::Stopped) == !s->Some_0.running,
        s is Some ==> (summary_badge(s) == Badge::Enabled) == s->Some_0.enabled,
        s is Some ==> (summary_badge(s) == Badge::Disabled) == !s->Some_0.enabled,
        s is None ==> queue_badge(s) == Badge::Unknown && summary_badge(s) == Badge::Unknown,
{
}

/// After a message that carries a queue state, the queue badge shows that
/// state's running flag and the summary badge its enabled flag.
pub proof fn law_badges_after_state_message(m: AppView, p: LovePayload)
    requires
        p.data@.len() > 0,
        p.data@[0].data.state_stream is Some,
    ensures
        ({
            let st = p.data@[0].data.state_stream->Some_0;
            let r = after_payload(m, p);
            &&& queue_badge(r.state_stream) == (if st.running { Badge::Running } else { Badge::Stopped })
            &&& summary_badge(r.state_stream) == (if st.enabled { Badge::Enabled } else { Badge::Disabled })
        }),
{
}

/// The waiting (and running) panel has one line per script, in order, and
/// line `i` is ` [index-process_state] path` of script `i`; the finished
/// panel likewise with ` [index-process_state-script_state]:path`.
pub proof fn law_queue_lines(infos: Seq<ScriptInfo>)
    ensures
        queued_lines(infos).len() == infos.len(),
        forall|i: int| 0 <= i < infos.len() ==> #[trigger] queued_lines(infos)[i]
            == " ["@ + decimal(infos[i].index as nat) + "-"@ + infos[i].process_state@ + "] "@ + infos[i].path@,
        finished_lines(infos).len() == infos.len(),
        forall|i: int| 0 <= i < infos.len() ==> #[trigger] finished_lines(infos)[i]
            == " ["@ + decimal(infos[i].index as nat) + "-"@ + infos[i].process_state@ + "-"@
                + infos[i].script_state@ + "]:"@ + infos[i].path@,
{
}

/// `line` is the browser's line for a script at `path` under the directory
/// `dir`: ` - ` and the rest of the path when no `/` follows the directory,
/// or ` - `, the next component, and ` >>` when the path goes on into a
/// subdirectory of that name.
pub open spec fn names_script_under(line: Seq<char>, path: Seq<char>, dir: Seq<char>) -> bool {
    &&& has_prefix(path, dir)
    &&& {
        let below = path.skip(dir.len() as int);
        ||| slash_free(below) && line == " - "@ + below
        ||| {
            let name = line.subrange(3, line.len() - 3);
            &&& line.len() >= 6
            &&& line == " - "@ + name + " >>"@
            &&& slash_free(name)
            &&& has_prefix(below, name.push('/'))
        }
    }
}

/// Some script of `scripts` has `line` as its line under `dir`.
pub open spec fn names_some_script(line: Seq<char>, scripts: Seq<Script>, dir: Seq<char>) -> bool {
    exists|j: int| 0 <= j < scripts.len() && #[trigger] names_script_under(line, scripts[j].path@, dir)
}

proof fn lemma_entry_for_names_script(path: Seq<char>, dir: Seq<char>)
    ensures
        entry_for(path, dir) matches Some(e) ==> names_script_under(e, path, dir),
{
    reveal_strlit(" - ");
    reveal_strlit(" >>");
    if let Some(e) = entry_for(path, dir) {
        let rest = path.skip(dir.len() as int);
        let k = first_index_of(rest, '/');
        lemma_first_index_of(rest, '/');
        if k >= 0 {
            let name = rest.take(k);
            assert(e.len() == k + 6);
            assert(e.subrange(3, e.len() - 3) =~= name);
            assert(rest.take(k + 1) =~= name.push('/'));
        }
    }
}

proof fn lemma_entries_name_scripts(scripts: Seq<Script>, dir: Seq<char>)
    ensures
        forall|k: int| #![trigger entries_of(scripts, dir)[k]] 0 <= k < entries_of(scripts, dir).len() ==> names_some_script(entries_of(scripts, dir)[k], scripts, dir),
    decreases scripts.len(),
{
    if scripts.len() > 0 {
        let t = scripts.drop_last();
        let rest = entries_of(t, dir);
        lemma_entries_name_scripts(t, dir);
        lemma_entry_for_names_script(scripts.last().path@, dir);
        let all = entries_of(scripts, dir);
        assert forall|k: int| #![trigger entries_of(scripts, dir)[k]] 0 <= k < entries_of(scripts, dir).len() implies names_some_script(entries_of(scripts, dir)[k], scripts, dir) by {
            if k < rest.len() {
                assert(all[k] == rest[k]);
                let j = choose|j: int| 0 <= j < t.len() && #[trigger] names_script_under(rest[k], t[j].path@, dir);
                assert(scripts[j] == t[j]);
            } else {
                let j = scripts.len() - 1;
                assert(scripts[j] == scripts.last());
                assert(names_script_under(all[k], scripts[j].path@, dir));
            }
        }
    } else {
        assert(entries_of(scripts, dir).len() == 0);
    }
}

proof fn lemma_entries_contain(scripts: Seq<Script>, dir: Seq<char>, i: int)
    requires
        0 <= i < scripts.len(),
        entry_for(scripts[i].path@, dir) is Some,
    ensures
        entries_of(scripts, dir).contains(entry_for(scripts[i].path@, dir)->Some_0),
    decreases scripts.len(),
{
    let t = scripts.drop_last();
    let rest = entries_of(t, dir);
    if i < scripts.len() - 1 {
        assert(t[i] == scripts[i]);
        lemma_entries_contain(t, dir, i);
        let j = choose|j: int| 0 <= j < rest.len() && rest[j] == entry_for(scripts[i].path@, dir)->Some_0;
        assert(entries_of(scripts, dir)[j] == rest[j]);
    } else {
        assert(scripts.last() == scripts[i]);
        assert(entries_of(scripts, dir)[rest.len() as int] == entry_for(scripts[i].path@, dir)->Some_0);
    }
}

proof fn lemma_entry_for_under(path: Seq<char>, dir: Seq<char>, name: Seq<char>, rest: Seq<char>)
    requires
        slash_free(name),
    ensures
        path == dir + name + "/"@ + rest ==> entry_for(path, dir) == Some(" - "@ + name + " >>"@),
        path == dir + name ==> entry_for(path, dir) == Some(" - "@ + name),
{
    reveal_strlit("/");
    if path == dir + name + "/"@ + rest {
        assert(path.take(dir.len() as int) =~= dir);
        let below = path.skip(dir.len() as int);
        assert(below =~= name + "/"@ + rest);
        lemma_first_index_of(below, '/');
        assert(below[name.len() as int] == '/');
        let k = first_index_of(below, '/');
        assert(k == name.len()) by {
            if k < name.len() {
                assert(below[k] == name[k]);
            }
        }
        assert(below.take(k) =~= name);
    }
    if path == dir + name {
        assert(path.take(dir.len() as int) =~= dir);
        let below = path.skip(dir.len() as int);
        assert(below =~= name);
        lemma_first_index_of(below, '/');
    }
}

/// Every script under the browser's directory has its line in the listing,
/// however deep its path goes: a path `dir + name + "/" + rest` (with `name`
/// free of `/`) is listed as ` - name >>`, and a path `dir + name` as
/// ` - name`; this holds for the standard and for the external scripts.
pub proof fn law_listing_shows_scripts_under_directory(
    scripts: Seq<Script>,
    other: Option<Seq<Script>>,
    dir: Seq<char>,
    i: int,
    name: Seq<char>,
    rest: Seq<char>,
)
    requires
        0 <= i < scripts.len(),
        slash_free(name),
    ensures
        scripts[i].path@ == dir + name + "/"@ + rest ==> {
            &&& visible_lines(Selection::Standard(dir), Some(scripts), other).contains(" - "@ + name + " >>"@)
            &&& visible_lines(Selection::External(dir), other, Some(scripts)).contains(" - "@ + name + " >>"@)
        },
        scripts[i].path@ == dir + name ==> {
            &&& visible_lines(Selection::Standard(dir), Some(scripts), other).contains(" - "@ + name)
            &&& visible_lines(Selection::External(dir), other, Some(scripts)).contains(" - "@ + name)
        },
{
    let path = scripts[i].path@;
    lemma_entry_for_under(path, dir, name, rest);
    if let Some(e) = entry_for(path, dir) {
        lemma_entries_contain(scripts, dir, i);
        let es = entries_of(scripts, dir);
        let j = choose|j: int| 0 <= j < es.len() && es[j] == e;
        lemma_dedup_keeps_every_value(es);
        assert(dedup(es).contains(es[j]));
        let d = dedup(es);
        let k = choose|k: int| 0 <= k < d.len() && d[k] == e;
        assert((seq![" << "@] + d)[k + 1] == e);
        assert((seq![" <<  "@] + d)[k + 1] == e);
        assert(visible_lines(Selection::Standard(dir), Some(scripts), other) == seq![" << "@] + d);
        assert(visible_lines(Selection::External(dir), other, Some(scripts)) == seq![" <<  "@] + d);
    }
}

/// Every line of the listing inside a directory after the first names a
/// script under that directory; with no scripts of that kind the listing
/// holds only the line that leads back.
pub proof fn law_listing_lines_come_from_scripts(scripts: Seq<Script>, other: Option<Seq<Script>>, dir: Seq<char>)
    ensures
        ({
            let v = visible_lines(Selection::Standard(dir), Some(scripts), other);
            forall|k: int| #![trigger v[k]] 1 <= k < v.len() ==> names_some_script(v[k], scripts, dir)
        }),
        ({
            let v = visible_lines(Selection::External(dir), other, Some(scripts));
            forall|k: int| #![trigger v[k]] 1 <= k < v.len() ==> names_some_script(v[k], scripts, dir)
        }),
        visible_lines(Selection::Standard(dir), None, other) == seq![" << "@],
        visible_lines(Selection::External(dir), other, None) == seq![" <<  "@],
{
    let es = entries_of(scripts, dir);
    lemma_entries_name_scripts(scripts, dir);
    lemma_dedup_no_adjacent_duplicates(es);
    let d = dedup(es);
    assert forall|k: int| #![trigger d[k]] 0 <= k < d.len() implies names_some_script(d[k], scripts, dir) by {
        assert(es.contains(d[k]));
        let m = choose|m: int| 0 <= m < es.len() && es[m] == d[k];
        let j = choose|j: int| 0 <= j < scripts.len() && #[trigger] names_script_under(es[m], scripts[j].path@, dir);
    }
    let v1 = visible_lines(Selection::Standard(dir), Some(scripts), other);
    assert forall|k: int| #![trigger v1[k]] 1 <= k < v1.len() implies names_some_script(v1[k], scripts, dir) by {
        assert(v1[k] == d[k - 1]);
    }
    let v2 = visible_lines(Selection::External(dir), other, Some(scripts));
    assert forall|k: int| #![trigger v2[k]] 1 <= k < v2.len() implies names_some_script(v2[k], scripts, dir) by {
        assert(v2[k] == d[k - 1]);
    }
    assert(dedup(Seq::<Seq<char>>::empty()) =~= Seq::<Seq<char>>::empty());
    assert(seq![" << "@] + Seq::<Seq<char>>::empty() =~= seq![" << "@]);
    assert(seq![" <<  "@] + Seq::<Seq<char>>::empty() =~= seq![" <<  "@]);
}

/// The value of a string of decimal digits.
pub open spec fn digits_value(s: Seq<char>) -> int
    decreases s.len(),
{
    if s.len() == 0 {
        0
    } else {
        digits_value(s.drop_last()) * 10 + (s.last() as int - '0' as int)
    }
}

proof fn lemma_digit_value(d: nat)
    requires
        d < 10,
    ensures
        digit_char(d) as int - '0' as int == d,
        '0' <= digit_char(d) <= '9',
{
    if d == 0 {} else if d == 1 {} else if d == 2 {} else if d == 3 {} else if d == 4 {}
    else if d == 5 {} else if d == 6 {} else if d == 7 {} else if d == 8 {} else {}
}

/// The decimal text of a number reads back as that number, consists of
/// digits, and starts with `0` only for zero.
pub proof fn law_decimal_reads_back(n: nat)
    ensures
        digits_value(decimal(n)) == n,
        decimal(n).len() > 0,
        forall|i: int| 0 <= i < decimal(n).len() ==> '0' <= #[trigger] decimal(n)[i] <= '9',
        decimal(n)[0] == '0' ==> n == 0,
    decreases n,
{
    lemma_digit_value((n % 10) as nat);
    if n < 10 {
        assert(decimal(n).drop_last() =~= Seq::<char>::empty());
        assert(decimal(n).last() == digit_char(n));
        assert(digits_value(decimal(n)) == digits_value(Seq::<char>::empty()) * 10 + (digit_char(n) as int - '0' as int));
    } else {
        law_decimal_reads_back(n / 10);
        let d = decimal(n);
        assert(d.drop_last() =~= decimal(n / 10));
        assert(d.last() == digit_char(n % 10));
        assert(digits_value(d) == digits_value(decimal(n / 10)) * 10 + (digit_char(n % 10) as int - '0' as int));
        assert(n == (n / 10) * 10 + n % 10);
        assert(d.drop_last() =~= decimal(n / 10));
        assert(d[0] == decimal(n / 10)[0]);
        assert forall|i: int| 0 <= i < d.len() implies '0' <= #[trigger] d[i] <= '9' by {
            if i < d.len() - 1 {
                assert(d[i] == decimal(n / 10)[i]);
            }
        }
    }
}

/// Removing only adjacent repeats: a sequence without adjacent repeats is
/// left as it is, and removing repeats twice is removing them once.
pub proof fn law_dedup_only_adjacent<A>(s: Seq<A>)
    ensures
        no_adjacent_duplicates(s) ==> dedup(s) == s,
        dedup(dedup(s)) == dedup(s),
    decreases s.len(),
{
    if s.len() > 1 {
        let t = s.drop_last();
        law_dedup_only_adjacent(t);
        if no_adjacent_duplicates(s) {
            assert forall|i: int, j: int| 0 <= i && j == i + 1 && j < t.len() implies #[trigger] t[i] != #[trigger] t[j] by {
                assert(t[i] == s[i] && t[j] == s[j]);
            }
            assert(s[s.len() - 2] != s[s.len() - 1]);
            assert(t.push(s.last()) =~= s);
        }
    }
    lemma_dedup_no_adjacent_duplicates(s);
    if s.len() > 0 {
        law_dedup_only_adjacent_fixed(dedup(s));
    }
}

proof fn law_dedup_only_adjacent_fixed<A>(d: Seq<A>)
    requires
        no_adjacent_duplicates(d),
    ensures
        dedup(d) == d,
    decreases d.len(),
{
    if d.len() > 1 {
        let t = d.drop_last();
        assert forall|i: int, j: int| 0 <= i && j == i + 1 && j < t.len() implies #[trigger] t[i] != #[trigger] t[j] by {
            assert(t[i] == d[i] && t[j] == d[j]);
        }
        law_dedup_only_adjacent_fixed(t);
        assert(d[d.len() - 2] != d[d.len() - 1]);
        assert(t.push(d.last()) =~= d);
    }
}

/// Splitting by type keeps the order of the list: the scripts of a type in
/// `a + b` are those in `a` followed by those in `b`, and a single script
/// is kept exactly when it has the type.
pub proof fn law_scripts_of_type_keeps_order(a: Seq<Script>, b: Seq<Script>, k: Seq<char>)
    ensures
        scripts_of_type(a + b, k) == scripts_of_type(a, k) + scripts_of_type(b, k),
        b.len() == 1 ==> scripts_of_type(b, k) == (if b[0].script_type@ == k { b } else { Seq::empty() }),
    decreases b.len(),
{
    if b.len() > 0 {
        law_scripts_of_type_keeps_order(a, b.drop_last(), k);
        assert((a + b).drop_last() =~= a + b.drop_last());
        assert((a + b).last() == b.last());
        if b.len() == 1 {
            assert(b.drop_last() =~= Seq::<Script>::empty());
            assert(b =~= seq![b[0]]);
        }
    } else {
        assert(a + b =~= a);
        assert(scripts_of_type(a, k) + Seq::<Script>::empty() =~= scripts_of_type(a, k));
    }
}

/// The browser lists the scripts in the order of the list: the lines of
/// `a + b` are those of `a` followed by those of `b`, and a single script
/// gives its own line when it is under the directory and none otherwise.
pub proof fn law_entries_keep_order(a: Seq<Script>, b: Seq<Script>, dir: Seq<char>)
    ensures
        entries_of(a + b, dir) == entries_of(a, dir) + entries_of(b, dir),
        b.len() == 1 ==> entries_of(b, dir) == match entry_for(b[0].path@, dir) {
            Some(e) => seq![e],
            None => Seq::empty(),
        },
    decreases b.len(),
{
    if b.len() > 0 {
        law_entries_keep_order(a, b.drop_last(), dir);
        assert((a + b).drop_last() =~= a + b.drop_last());
        assert((a + b).last() == b.last());
        if b.len() == 1 {
            assert(b.drop_last() =~= Seq::<Script>::empty());
            assert(b.last() == b[0]);
        }
    } else {
        assert(a + b =~= a);
        assert(entries_of(a, dir) + Seq::<Seq<char>>::empty() =~= entries_of(a, dir));
    }
}

/// Enter in the available-scripts panel recomputes its lines for the new
/// position of the browser and leaves the stored scripts, the counter, the
/// focus and the quit request as they were.
pub proof fn law_enter_recomputes_lines(m: AppView)
    requires
        m.panel == Panel::AvailableScripts,
    ensures
        ({
            let r = after_enter(m);
            &&& r.visible == visible_lines(r.selection, m.standard_scripts, m.external_scripts)
            &&& r.standard_scripts == m.standard_scripts
            &&& r.external_scripts == m.external_scripts
            &&& r.counter == m.counter
            &&& r.panel == m.panel
            &&& r.exit == m.exit
            &&& r.scroll_max == m.scroll_max
            &&& r.script_stream == m.script_stream
            &&& r.state_stream == m.state_stream
        }),
{
}

/// Text without spaces is copied unchanged past a pattern that starts with
/// a space.
proof fn lemma_replace_passes_spaceless(s: Seq<char>, t: Seq<char>, pat: Seq<char>, rep: Seq<char>)
    requires
        pat.len() > 0,
        pat[0] == ' ',
        forall|i: int| 0 <= i < s.len() ==> s[i] != ' ',
    ensures
        replace_all(s + t, pat, rep) == s + replace_all(t, pat, rep),
    decreases s.len(),
{
    let u = s + t;
    if s.len() == 0 {
        assert(u =~= t);
    } else if u.len() < pat.len() {
        assert(t.len() < pat.len());
    } else {
        assert(u.take(pat.len() as int)[0] == s[0]);
        assert(u.take(pat.len() as int) != pat);
        let s1 = s.skip(1);
        assert forall|i: int| 0 <= i < s1.len() implies s1[i] != ' ' by {
            assert(s1[i] == s[i + 1]);
        }
        lemma_replace_passes_spaceless(s1, t, pat, rep);
        assert(u.skip(1) =~= s1 + t);
        assert(seq![s[0]] + (s1 + replace_all(t, pat, rep)) =~= s + replace_all(t, pat, rep));
    }
}

/// The name on a directory line ` - name >>` is `name`, for a name without
/// spaces that does not start with `>`; Enter on such a line inside the
/// standard directory `p` opens `p + name + "/"`.
pub proof fn law_directory_line_names_directory(p: Seq<char>, name: Seq<char>)
    requires
        forall|i: int| 0 <= i < name.len() ==> name[i] != ' ',
        name.len() > 0 ==> name[0] != '>',
    ensures
        line_name(" - "@ + name + " >>"@) == name,
        child_dir(p, " - "@ + name + " >>"@) == p + name + "/"@,
{
    reveal_strlit(" - ");
    reveal_strlit(" >>");
    let empty = Seq::<char>::empty();
    let x = " - "@ + name + " >>"@;
    let tail = name + " >>"@;
    // The marker ` >>` is removed only at the end.
    lemma_replace_passes_spaceless(name, " >>"@, " >>"@, empty);
    assert(" >>"@.take(3) =~= " >>"@);
    assert(" >>"@.skip(3) =~= empty);
    assert(replace_all(empty, " >>"@, empty) =~= empty);
    assert(replace_all(" >>"@, " >>"@, empty) =~= empty + replace_all(" >>"@.skip(3), " >>"@, empty));
    assert(replace_all(tail, " >>"@, empty) =~= name);
    let x2 = x.skip(2);
    assert(x2 =~= seq![' '] + tail);
    assert(x2.take(3) != " >>"@) by {
        if name.len() > 0 {
            assert(x2.take(3)[1] == name[0]);
        } else {
            assert(x2.take(3)[1] == ' ');
        }
    }
    assert(x2.skip(1) =~= tail);
    assert(replace_all(x2, " >>"@, empty) =~= seq![' '] + name);
    let x1 = x.skip(1);
    assert(x1.take(3) != " >>"@) by {
        assert(x1.take(3)[0] == '-');
    }
    assert(x1.skip(1) =~= x2);
    assert(replace_all(x1, " >>"@, empty) =~= seq!['-', ' '] + name);
    assert(x.take(3) != " >>"@) by {
        assert(x.take(3)[1] == '-');
    }
    assert(x.skip(1) =~= x1);
    assert(replace_all(x, " >>"@, empty) =~= " - "@ + name);
    // Then the prefix ` - ` is removed, and nothing else.
    let y = " - "@ + name;
    assert(y.take(3) =~= " - "@);
    assert(y.skip(3) =~= name);
    lemma_replace_passes_spaceless(name, empty, " - "@, empty);
    assert(name + empty =~= name);
    assert(replace_all(empty, " - "@, empty) =~= empty);
    assert(replace_all(y, " - "@, empty) =~= name);
}

/// The state panel names every panel differently.
pub proof fn law_panel_names_differ(a: Panel, b: Panel)
    ensures
        panel_name(a) == panel_name(b) ==> a == b,
{
    reveal_strlit("None");
    reveal_strlit("State");
    reveal_strlit("CurrentScripts");
    reveal_strlit("AvailableScripts");
    reveal_strlit("WaitingScripts");
    reveal_strlit("DoneScripts");
    if panel_name(a) == panel_name(b) && a != b {
        assert(panel_name(a).len() == panel_name(b).len());
        assert(panel_name(a)[0] == panel_name(b)[0]);
    }
}

/// The title of the state panel: once a message updated the state it says
/// so; before, it shows the idle counter in brackets.
pub proof fn law_state_title(m: AppView)
    ensures
        m.updated ==> state_title(m) == "State (updated) \u{1F494} \u{2764}\u{FE0F}:"@,
        !m.updated ==> state_title(m) == "State (never updated) ["@ + decimal(m.counter as nat) + "]:"@,
{
}

} // verus!
