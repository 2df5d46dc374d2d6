//! Pure projection from the editor state to the text drawn on screen: the
//! title, one list line per committed pair, and the two footer labels.

use vstd::prelude::*;
use vstd::string::StrSliceExecFns;
use vstd::string::StringExecFns;
use crate::app::{App, CurrentScreen, CurrentlyEditing, push_char_raw};

verus! {

/// A run of spaces.
pub open spec fn spaces(n: nat) -> Seq<char> {
    Seq::new(n, |i: int| ' ')
}

/// The key column of a list line: the key, padded with spaces to the
/// column width when it is shorter.
pub open spec fn padded_key(k: Seq<char>) -> Seq<char> {
    if k.len() >= 25 {
        k
    } else {
        k + spaces((25 - k.len()) as nat)
    }
}

/// The list line a committed pair is shown as.
pub open spec fn pair_line_spec(k: Seq<char>, v: Seq<char>) -> Seq<char> {
    padded_key(k) + " : "@ + v
}

/// Render one committed pair as its list line.
pub fn pair_line(k: &String, v: &String) -> (line: String)
    ensures
        line@ == pair_line_spec(k@, v@),
{
    let mut line = k.clone();
    let mut len: usize = line.as_str().unicode_len();
    while len < 25
        invariant
            len == line@.len(),
            k@.len() <= line@.len(),
            k@.len() < 25 ==> len <= 25,
            k@.len() >= 25 ==> len == k@.len(),
            line@ == k@ + spaces((line@.len() - k@.len()) as nat),
        decreases 25 - len,
    {
        let ghost before = line@;
        push_char_raw(&mut line, ' ');
        len = len + 1;
        proof {
            assert(line@ == before.push(' '));
            assert(line@ =~= k@ + spaces((line@.len() - k@.len()) as nat));
        }
    }
    proof {
        if k@.len() >= 25 {
            assert(spaces(0) =~= Seq::<char>::empty());
            assert(line@ =~= k@);
        } else {
            assert(line@.len() == 25);
        }
        assert(line@ == padded_key(k@));
    }
    line.append(" : ");
    line.append(v.as_str());
    line
}

/// Render the whole pair list, one line per committed pair, in store
/// order.
pub fn pair_lines(app: &App) -> (lines: Vec<String>)
    ensures
        lines@.len() == app.pairs@.len(),
        forall|i: int|
            0 <= i < lines@.len() ==> lines@[i]@ == pair_line_spec(
                app.pairs@[i].0@,
                app.pairs@[i].1@,
            ),
{
    let mut lines: Vec<String> = Vec::new();
    let n: usize = app.pairs.len();
    let mut i: usize = 0;
    while i < n
        invariant
            n == app.pairs@.len(),
            i <= n,
            lines@.len() == i,
            forall|j: int|
                0 <= j < i ==> lines@[j]@ == pair_line_spec(app.pairs@[j].0@, app.pairs@[j].1@),
        decreases n - i,
    {
        let line = pair_line(&app.pairs[i].0, &app.pairs[i].1);
        lines.push(line);
        i += 1;
    }
    lines
}

/// The title shown above the pair list.
pub open spec fn title_spec() -> Seq<char> {
    "Create New Json"@
}

/// The title shown above the pair list.
pub fn title() -> (r: &'static str)
    ensures
        r@ == title_spec(),
{
    "Create New Json"
}

/// The footer label naming the current screen mode.
pub open spec fn mode_label_spec(s: CurrentScreen) -> Seq<char> {
    match s {
        CurrentScreen::Main => "Normal Mode"@,
        CurrentScreen::Editing => "Editing Mode"@,
        CurrentScreen::Exiting => "Exiting"@,
    }
}

/// The footer label naming the current screen mode.
pub fn mode_label(s: CurrentScreen) -> (r: &'static str)
    ensures
        r@ == mode_label_spec(s),
{
    match s {
        CurrentScreen::Main => "Normal Mode",
        CurrentScreen::Editing => "Editing Mode",
        CurrentScreen::Exiting => "Exiting",
    }
}

/// The footer label naming the focused edit target.
pub open spec fn target_label_spec(t: Option<CurrentlyEditing>) -> Seq<char> {
    match t {
        Some(CurrentlyEditing::Key) => "Editing Json Key"@,
        Some(CurrentlyEditing::Value) => "Editing Json Value"@,
        None => "Not Editing Anything"@,
    }
}

/// The footer label naming the focused edit target.
pub fn target_label(t: Option<CurrentlyEditing>) -> (r: &'static str)
    ensures
        r@ == target_label_spec(t),
{
    match t {
        Some(CurrentlyEditing::Key) => "Editing Json Key",
        Some(CurrentlyEditing::Value) => "Editing Json Value",
        None => "Not Editing Anything",
    }
}

/// The key-hint line for the current screen mode.
pub open spec fn keys_hint_spec(s: CurrentScreen) -> Seq<char> {
    match s {
        CurrentScreen::Main => "(q) to quit / (e) to make new pair"@,
        CurrentScreen::Editing => "(ESC) to cancel / (tab) to switch boxes/enter to complete"@,
        CurrentScreen::Exiting => "(q) to quit / (e) to make new pair"@,
    }
}

/// The key-hint line for the current screen mode.
pub fn keys_hint(s: CurrentScreen) -> (r: &'static str)
    ensures
        r@ == keys_hint_spec(s),
{
    match s {
        CurrentScreen::Main => "(q) to quit / (e) to make new pair",
        CurrentScreen::Editing => "(ESC) to cancel / (tab) to switch boxes/enter to complete",
        CurrentScreen::Exiting => "(q) to quit / (e) to make new pair",
    }
}

} // verus!
