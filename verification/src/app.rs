//! The interaction state machine: screen mode, edit target, edit buffers
//! and the accumulated pair store, together with its transition operations.

use vstd::prelude::*;

verus! {

/// Top-level state governing which keys are meaningful and what is rendered.
#[derive(Clone, Copy, PartialEq, Eq, Structural, Debug)]
pub enum CurrentScreen {
    /// Browsing the accumulated pairs, no active edit.
    Main,
    /// An edit is in progress; requires a focused edit target.
    Editing,
    /// Confirmation pending for program termination.
    Exiting,
}

/// Which of the two text buffers currently receives character input.
#[derive(Clone, Copy, PartialEq, Eq, Structural, Debug)]
pub enum CurrentlyEditing {
    Key,
    Value,
}

/// The mapping a pair sequence denotes: later entries overwrite earlier ones.
pub open spec fn map_of_pairs(ps: Seq<(String, String)>) -> Map<Seq<char>, Seq<char>>
    decreases ps.len(),
{
    if ps.len() == 0 {
        Map::empty()
    } else {
        map_of_pairs(ps.drop_last()).insert(ps.last().0@, ps.last().1@)
    }
}

/// No two entries of the pair sequence share a key.
pub open spec fn keys_unique(ps: Seq<(String, String)>) -> bool {
    forall|i: int, j: int| 0 <= i < j < ps.len() ==> ps[i].0@ != ps[j].0@
}

/// Mathematical snapshot of the whole editor state.
#[verifier::ext_equal]
pub ghost struct AppView {
    pub key_input: Seq<char>,
    pub value_input: Seq<char>,
    pub pairs: Map<Seq<char>, Seq<char>>,
    pub current_screen: CurrentScreen,
    pub currently_editing: Option<CurrentlyEditing>,
}

/// The editor state: two edit buffers, the committed pairs, the screen mode
/// and the currently focused edit target.
pub struct App {
    pub key_input: String,
    pub value_input: String,
    pub pairs: Vec<(String, String)>,
    pub current_screen: CurrentScreen,
    pub currently_editing: Option<CurrentlyEditing>,
}

impl View for App {
    type V = AppView;

    open spec fn view(&self) -> AppView {
        AppView {
            key_input: self.key_input@,
            value_input: self.value_input@,
            pairs: map_of_pairs(self.pairs@),
            current_screen: self.current_screen,
            currently_editing: self.currently_editing,
        }
    }
}

impl App {
    /// Well-formedness: stored keys are unique, and while an edit is in
    /// progress some edit target is focused.
    pub open spec fn wf(self) -> bool {
        &&& keys_unique(self.pairs@)
        &&& self.current_screen is Editing ==> self.currently_editing is Some
    }

    /// A fresh editor: empty buffers, empty pair store, main screen,
    /// nothing focused.
    pub fn new() -> (app: App)
        ensures
            app.wf(),
            app@.key_input == Seq::<char>::empty(),
            app@.value_input == Seq::<char>::empty(),
            app@.pairs == Map::<Seq<char>, Seq<char>>::empty(),
            app.current_screen is Main,
            app.currently_editing is None,
            app.pairs@.len() == 0,
    {
        let app = App {
            key_input: String::new(),
            value_input: String::new(),
            pairs: Vec::new(),
            current_screen: CurrentScreen::Main,
            currently_editing: None,
        };
        proof {
            assert(map_of_pairs(app.pairs@) =~= Map::<Seq<char>, Seq<char>>::empty());
        }
        app
    }
}

/// Relies on String::push: appends the given character to the end of the
/// string.
#[verifier::external_body]
pub(crate) fn push_char_raw(s: &mut String, c: char)
    ensures
        final(s)@ == old(s)@.push(c),
{
    s.push(c);
}

/// Relies on String::pop: removes the last character and returns it, or
/// returns None when the string is empty.
#[verifier::external_body]
fn pop_char_raw(s: &mut String) -> (r: Option<char>)
    ensures
        old(s)@.len() == 0 ==> r is None && final(s)@ == old(s)@,
        old(s)@.len() > 0 ==> r == Some(old(s)@.last()) && final(s)@ == old(s)@.drop_last(),
{
    s.pop()
}

/// A key is in the denoted mapping exactly when some entry of the pair
/// sequence carries it.
pub proof fn lemma_map_of_pairs_contains(ps: Seq<(String, String)>, k: Seq<char>)
    ensures
        map_of_pairs(ps).contains_key(k) <==> exists|i: int| 0 <= i < ps.len() && ps[i].0@ == k,
    decreases ps.len(),
{
    if ps.len() == 0 {
    } else {
        lemma_map_of_pairs_contains(ps.drop_last(), k);
        if ps.last().0@ == k {
            assert(ps[ps.len() - 1].0@ == k);
        } else {
            if map_of_pairs(ps).contains_key(k) {
                let i = choose|i: int|
                    0 <= i < ps.drop_last().len() && ps.drop_last()[i].0@ == k;
                assert(ps[i].0@ == k);
            }
            if exists|i: int| 0 <= i < ps.len() && ps[i].0@ == k {
                let i = choose|i: int| 0 <= i < ps.len() && ps[i].0@ == k;
                assert(i < ps.len() - 1);
                assert(ps.drop_last()[i].0@ == k);
            }
        }
    }
}

/// With unique keys, taking an entry out of the sequence and re-inserting
/// its pair into the denoted mapping gives the mapping back.
pub proof fn lemma_map_of_pairs_remove(ps: Seq<(String, String)>, i: int)
    requires
        keys_unique(ps),
        0 <= i < ps.len(),
    ensures
        map_of_pairs(ps) =~= map_of_pairs(ps.remove(i)).insert(ps[i].0@, ps[i].1@),
    decreases ps.len(),
{
    if i == ps.len() - 1 {
        assert(ps.remove(i) =~= ps.drop_last());
    } else {
        let qs = ps.drop_last();
        assert forall|a: int, b: int| 0 <= a < b < qs.len() implies qs[a].0@ != qs[b].0@ by {
            assert(ps[a].0@ != ps[b].0@);
        }
        lemma_map_of_pairs_remove(qs, i);
        assert(ps.remove(i).drop_last() =~= qs.remove(i));
        assert(ps.remove(i).last() == ps.last());
        assert(ps[i].0@ != ps[ps.len() - 1].0@);
        assert(map_of_pairs(ps.remove(i)) == map_of_pairs(qs.remove(i)).insert(
            ps.last().0@,
            ps.last().1@,
        ));
        assert(map_of_pairs(ps) =~= map_of_pairs(ps.remove(i)).insert(ps[i].0@, ps[i].1@));
    }
}

/// What a toggle of the edit target yields: a defined target flips, an
/// undefined one is initialised to the key buffer.
pub open spec fn toggle_spec(t: Option<CurrentlyEditing>) -> Option<CurrentlyEditing> {
    match t {
        Some(CurrentlyEditing::Key) => Some(CurrentlyEditing::Value),
        Some(CurrentlyEditing::Value) => Some(CurrentlyEditing::Key),
        None => Some(CurrentlyEditing::Key),
    }
}

impl App {
    /// Flip the edit target between key and value; from an undefined target,
    /// focus the key buffer.
    pub fn toggle_editing(&mut self)
        ensures
            final(self).currently_editing == toggle_spec(old(self).currently_editing),
            final(self).currently_editing is Some,
            final(self).key_input@ == old(self).key_input@,
            final(self).value_input@ == old(self).value_input@,
            final(self).pairs == old(self).pairs,
            final(self).current_screen == old(self).current_screen,
            old(self).wf() ==> final(self).wf(),
    {
        match self.currently_editing {
            Some(CurrentlyEditing::Key) => {
                self.currently_editing = Some(CurrentlyEditing::Value);
            }
            Some(CurrentlyEditing::Value) => {
                self.currently_editing = Some(CurrentlyEditing::Key);
            }
            None => {
                self.currently_editing = Some(CurrentlyEditing::Key);
            }
        }
    }

    /// Append `c` to the buffer the edit target points at; with no target
    /// focused, leave everything unchanged.
    pub fn push_char(&mut self, c: char)
        requires
            old(self).current_screen is Editing,
        ensures
            final(self).pairs == old(self).pairs,
            final(self).current_screen == old(self).current_screen,
            final(self).currently_editing == old(self).currently_editing,
            match old(self).currently_editing {
                Some(CurrentlyEditing::Key) => final(self).key_input@ == old(self).key_input@.push(c)
                    && final(self).value_input@ == old(self).value_input@,
                Some(CurrentlyEditing::Value) => final(self).value_input@ == old(self).value_input@.push(c)
                    && final(self).key_input@ == old(self).key_input@,
                None => final(self).key_input@ == old(self).key_input@
                    && final(self).value_input@ == old(self).value_input@,
            },
            old(self).wf() ==> final(self).wf(),
    {
        match self.currently_editing {
            Some(CurrentlyEditing::Key) => push_char_raw(&mut self.key_input, c),
            Some(CurrentlyEditing::Value) => push_char_raw(&mut self.value_input, c),
            None => {}
        }
    }

    /// Drop the last character of the buffer the edit target points at; a
    /// pop on an empty buffer, or with no target focused, changes nothing.
    pub fn pop_char(&mut self)
        requires
            old(self).current_screen is Editing,
        ensures
            final(self).pairs == old(self).pairs,
            final(self).current_screen == old(self).current_screen,
            final(self).currently_editing == old(self).currently_editing,
            match old(self).currently_editing {
                Some(CurrentlyEditing::Key) => final(self).value_input@ == old(self).value_input@
                    && (if old(self).key_input@.len() == 0 {
                        final(self).key_input@ == old(self).key_input@
                    } else {
                        final(self).key_input@ == old(self).key_input@.drop_last()
                    }),
                Some(CurrentlyEditing::Value) => final(self).key_input@ == old(self).key_input@
                    && (if old(self).value_input@.len() == 0 {
                        final(self).value_input@ == old(self).value_input@
                    } else {
                        final(self).value_input@ == old(self).value_input@.drop_last()
                    }),
                None => final(self).key_input@ == old(self).key_input@
                    && final(self).value_input@ == old(self).value_input@,
            },
            old(self).wf() ==> final(self).wf(),
    {
        match self.currently_editing {
            Some(CurrentlyEditing::Key) => {
                let _ = pop_char_raw(&mut self.key_input);
            }
            Some(CurrentlyEditing::Value) => {
                let _ = pop_char_raw(&mut self.value_input);
            }
            None => {}
        }
    }
}

/// One buffer edit: append a character, or drop the last one.
pub ghost enum EditOp {
    Push(char),
    Pop,
}

/// What one edit does to a buffer: a push appends, a pop drops the last
/// character and is a no-op on an empty buffer.
pub open spec fn edit_step(buf: Seq<char>, op: EditOp) -> Seq<char> {
    match op {
        EditOp::Push(c) => buf.push(c),
        EditOp::Pop => if buf.len() == 0 {
            buf
        } else {
            buf.drop_last()
        },
    }
}

/// A whole sequence of edits applied to a buffer, first to last.
pub open spec fn apply_edit_ops(buf: Seq<char>, ops: Seq<EditOp>) -> Seq<char>
    decreases ops.len(),
{
    if ops.len() == 0 {
        buf
    } else {
        apply_edit_ops(edit_step(buf, ops.first()), ops.drop_first())
    }
}

/// How many of the edits push a character.
pub open spec fn count_pushes(ops: Seq<EditOp>) -> nat
    decreases ops.len(),
{
    if ops.len() == 0 {
        0
    } else {
        (if ops.first() is Push {
            1nat
        } else {
            0nat
        }) + count_pushes(ops.drop_first())
    }
}

/// How many of the edits pop a character off a non-empty buffer, when the
/// edits run against `buf`.
pub open spec fn count_effective_pops(buf: Seq<char>, ops: Seq<EditOp>) -> nat
    decreases ops.len(),
{
    if ops.len() == 0 {
        0
    } else {
        (match ops.first() {
            EditOp::Pop => if buf.len() > 0 {
                1nat
            } else {
                0nat
            },
            EditOp::Push(_) => 0nat,
        }) + count_effective_pops(edit_step(buf, ops.first()), ops.drop_first())
    }
}

/// The characters the edits push, in push order.
pub open spec fn pushed_chars(ops: Seq<EditOp>) -> Seq<char>
    decreases ops.len(),
{
    if ops.len() == 0 {
        Seq::empty()
    } else {
        (match ops.first() {
            EditOp::Push(c) => seq![c],
            EditOp::Pop => Seq::empty(),
        }) + pushed_chars(ops.drop_first())
    }
}

/// Law: after any sequence of pushes and pops against a fixed buffer, the
/// buffer length is the starting length plus the pushes, minus the pops
/// that hit a non-empty buffer.
pub proof fn lemma_edit_ops_length(buf: Seq<char>, ops: Seq<EditOp>)
    ensures
        apply_edit_ops(buf, ops).len() + count_effective_pops(buf, ops) == buf.len()
            + count_pushes(ops),
    decreases ops.len(),
{
    if ops.len() == 0 {
    } else {
        lemma_edit_ops_length(edit_step(buf, ops.first()), ops.drop_first());
    }
}

/// Law: a sequence of pushes alone appends exactly its characters, in
/// push order.
pub proof fn lemma_push_order(buf: Seq<char>, ops: Seq<EditOp>)
    requires
        forall|i: int| 0 <= i < ops.len() ==> ops[i] is Push,
    ensures
        apply_edit_ops(buf, ops) =~= buf + pushed_chars(ops),
    decreases ops.len(),
{
    if ops.len() == 0 {
    } else {
        assert(ops.first() is Push);
        assert(forall|i: int|
            0 <= i < ops.drop_first().len() ==> ops.drop_first()[i] == ops[i + 1]
                && ops[i + 1] is Push);
        lemma_push_order(edit_step(buf, ops.first()), ops.drop_first());
    }
}

/// One sequence is an in-order selection of another.
pub open spec fn is_subsequence(s: Seq<char>, t: Seq<char>) -> bool
    decreases s.len() + t.len(),
{
    if s.len() == 0 {
        true
    } else if t.len() == 0 {
        false
    } else if s.last() == t.last() {
        is_subsequence(s.drop_last(), t.drop_last())
    } else {
        is_subsequence(s, t.drop_last())
    }
}

/// An in-order selection survives anything put before the selected-from
/// sequence.
proof fn lemma_subsequence_prepend_target(s: Seq<char>, u: Seq<char>, t: Seq<char>)
    requires
        is_subsequence(s, t),
    ensures
        is_subsequence(s, u + t),
    decreases s.len() + t.len(),
{
    if s.len() == 0 {
    } else if t.len() == 0 {
        assert(false);
    } else {
        assert((u + t).last() == t.last());
        assert((u + t).drop_last() =~= u + t.drop_last());
        if s.last() == t.last() {
            lemma_subsequence_prepend_target(s.drop_last(), u, t.drop_last());
        } else {
            lemma_subsequence_prepend_target(s, u, t.drop_last());
        }
    }
}

/// A one-character sequence is an in-order selection of itself with
/// anything after it.
proof fn lemma_subsequence_single(c: char, t: Seq<char>)
    ensures
        is_subsequence(seq![c], seq![c] + t),
    decreases t.len(),
{
    if t.len() == 0 {
        assert(seq![c] + t =~= seq![c]);
        assert(seq![c].drop_last() =~= Seq::<char>::empty());
        assert(is_subsequence(Seq::<char>::empty(), Seq::<char>::empty()));
        assert(is_subsequence(seq![c], seq![c]));
    } else {
        lemma_subsequence_single(c, t.drop_last());
        assert((seq![c] + t).drop_last() =~= seq![c] + t.drop_last());
        assert((seq![c] + t).last() == t.last());
        if t.last() == c {
            assert(seq![c].drop_last() =~= Seq::<char>::empty());
            assert(is_subsequence(Seq::<char>::empty(), (seq![c] + t).drop_last()));
            assert(is_subsequence(seq![c], seq![c] + t));
        } else {
            assert(is_subsequence(seq![c], seq![c] + t));
        }
    }
}

/// An in-order selection stays one when the same character is put in
/// front of both sequences.
proof fn lemma_subsequence_cons_both(c: char, s: Seq<char>, t: Seq<char>)
    requires
        is_subsequence(s, t),
    ensures
        is_subsequence(seq![c] + s, seq![c] + t),
    decreases s.len() + t.len(),
{
    if s.len() == 0 {
        assert(seq![c] + s =~= seq![c]);
        lemma_subsequence_single(c, t);
    } else if t.len() == 0 {
        assert(false);
    } else {
        assert((seq![c] + s).last() == s.last());
        assert((seq![c] + t).last() == t.last());
        assert((seq![c] + s).drop_last() =~= seq![c] + s.drop_last());
        assert((seq![c] + t).drop_last() =~= seq![c] + t.drop_last());
        if s.last() == t.last() {
            lemma_subsequence_cons_both(c, s.drop_last(), t.drop_last());
        } else {
            lemma_subsequence_cons_both(c, s, t.drop_last());
        }
    }
}

/// The buffer after a sequence of edits splits at `m`: an untouched
/// prefix of the starting buffer, with only pushed characters above it,
/// in push order.
pub open spec fn edit_order_decomposition(buf: Seq<char>, ops: Seq<EditOp>, m: int) -> bool {
    &&& 0 <= m <= buf.len()
    &&& m <= apply_edit_ops(buf, ops).len()
    &&& apply_edit_ops(buf, ops).take(m) == buf.take(m)
    &&& is_subsequence(apply_edit_ops(buf, ops).skip(m), pushed_chars(ops))
}

/// Law: after any sequence of pushes and pops, also one that pops into
/// the starting buffer, the buffer is an untouched prefix of the start
/// with surviving pushed characters above it, and those appear in push
/// order.
pub proof fn lemma_edit_ops_order(buf: Seq<char>, ops: Seq<EditOp>)
    ensures
        exists|m: int| edit_order_decomposition(buf, ops, m),
    decreases ops.len(),
{
    let result = apply_edit_ops(buf, ops);
    if ops.len() == 0 {
        assert(buf.take(buf.len() as int) =~= buf);
        assert(result.skip(buf.len() as int) =~= Seq::<char>::empty());
        assert(edit_order_decomposition(buf, ops, buf.len() as int));
    } else {
        let op0 = ops.first();
        let rest = ops.drop_first();
        let buf2 = edit_step(buf, op0);
        lemma_edit_ops_order(buf2, rest);
        let m2 = choose|m: int| edit_order_decomposition(buf2, rest, m);
        assert(result == apply_edit_ops(buf2, rest));
        match op0 {
            EditOp::Pop => {
                assert(pushed_chars(ops) =~= pushed_chars(rest));
                if buf.len() == 0 {
                    assert(edit_order_decomposition(buf, ops, m2));
                } else {
                    assert(buf2.take(m2) =~= buf.take(m2));
                    assert(edit_order_decomposition(buf, ops, m2));
                }
            }
            EditOp::Push(c) => {
                assert(pushed_chars(ops) =~= seq![c] + pushed_chars(rest));
                if m2 <= buf.len() {
                    assert(buf2.take(m2) =~= buf.take(m2));
                    lemma_subsequence_prepend_target(result.skip(m2), seq![c], pushed_chars(rest));
                    assert(edit_order_decomposition(buf, ops, m2));
                } else {
                    let m: int = buf.len() as int;
                    assert(m2 == buf2.len());
                    assert(result.take(m2) == buf2.take(m2));
                    assert(buf2.take(m2) =~= buf2);
                    assert(result.take(m) =~= buf.take(m));
                    assert(result[m] == buf2[m]);
                    assert(buf2[m] == c);
                    assert(result.skip(m) =~= seq![c] + result.skip(m2));
                    lemma_subsequence_cons_both(c, result.skip(m2), pushed_chars(rest));
                    assert(edit_order_decomposition(buf, ops, m));
                }
            }
        }
    }
}

/// Law: committing a key equal to a present key overwrites only that
/// key's value; the set of keys, and every other entry, are untouched.
pub proof fn lemma_commit_overwrite(m: Map<Seq<char>, Seq<char>>, k: Seq<char>, v: Seq<char>)
    requires
        m.contains_key(k),
    ensures
        m.insert(k, v).dom() =~= m.dom(),
        m.insert(k, v)[k] == v,
        forall|k2: Seq<char>| m.contains_key(k2) && k2 != k ==> m.insert(k, v)[k2] == m[k2],
{
}

/// Law: toggling the edit target twice from a defined target gives the
/// target back, and a first toggle from an undefined target focuses the
/// key buffer.
pub proof fn lemma_toggle_involution(t: CurrentlyEditing)
    ensures
        toggle_spec(toggle_spec(Some(t))) == Some(t),
        toggle_spec(None::<CurrentlyEditing>) == Some(CurrentlyEditing::Key),
{
}

/// What the state machine hands back to the session loop after a key:
/// either keep going, or terminate, emitting the pairs or not.
#[derive(Clone, Copy, PartialEq, Eq, Structural, Debug)]
pub enum Flow {
    Continue,
    Terminate { emit: bool },
}

impl App {
    /// Commit the current edit: move the buffer contents into the pair
    /// store (overwriting an equal key), clear both buffers, and drop the
    /// edit target.  The caller leaves the editing screen afterwards;
    /// `advance_edit` does both in one step.
    pub fn save_key_value(&mut self)
        requires
            old(self).wf(),
        ensures
            keys_unique(final(self).pairs@),
            final(self)@.pairs == old(self)@.pairs.insert(
                old(self).key_input@,
                old(self).value_input@,
            ),
            final(self).key_input@ == Seq::<char>::empty(),
            final(self).value_input@ == Seq::<char>::empty(),
            final(self).currently_editing is None,
            final(self).current_screen == old(self).current_screen,
            old(self)@.pairs.contains_key(old(self).key_input@) ==> final(self).pairs@.len()
                == old(self).pairs@.len(),
            !old(self)@.pairs.contains_key(old(self).key_input@) ==> final(self).pairs@.len()
                == old(self).pairs@.len() + 1,
    {
        let n: usize = self.pairs.len();
        let mut i: usize = 0;
        let mut found: bool = false;
        let mut idx: usize = 0;
        while i < n && !found
            invariant
                n == self.pairs@.len(),
                i <= n,
                self.pairs@ == old(self).pairs@,
                self.key_input@ == old(self).key_input@,
                self.value_input@ == old(self).value_input@,
                self.current_screen == old(self).current_screen,
                self.currently_editing == old(self).currently_editing,
                keys_unique(self.pairs@),
                !found ==> forall|j: int| 0 <= j < i ==> self.pairs@[j].0@ != self.key_input@,
                found ==> idx < n && self.pairs@[idx as int].0@ == self.key_input@,
            decreases n - i,
        {
            if self.pairs[i].0 == self.key_input {
                found = true;
                idx = i;
            }
            i += 1;
        }

        let ghost ps = self.pairs@;
        let ghost k0 = self.key_input@;
        let ghost v0 = self.value_input@;
        let k = self.key_input.clone();
        let v = self.value_input.clone();
        if found {
            proof {
                lemma_map_of_pairs_contains(ps, k0);
                lemma_map_of_pairs_remove(ps, idx as int);
            }
            let _ = self.pairs.remove(idx);
            let ghost rs = self.pairs@;
            proof {
                assert(rs =~= ps.remove(idx as int));
                assert forall|j: int| 0 <= j < rs.len() implies rs[j].0@ != k0 by {
                    if j < idx {
                        assert(rs[j] == ps[j]);
                    } else {
                        assert(rs[j] == ps[j + 1]);
                    }
                }
                assert forall|a: int, b: int| 0 <= a < b < rs.len() implies rs[a].0@
                    != rs[b].0@ by {
                    let pa: int = if a < idx { a } else { a + 1 };
                    let pb: int = if b < idx { b } else { b + 1 };
                    assert(rs[a] == ps[pa]);
                    assert(rs[b] == ps[pb]);
                }
            }
            self.pairs.push((k, v));
            proof {
                let qs = self.pairs@;
                assert(qs.drop_last() =~= rs);
                assert(qs.last() == (k, v));
                assert(map_of_pairs(qs) == map_of_pairs(rs).insert(k@, v@));
                assert(map_of_pairs(qs) =~= map_of_pairs(ps).insert(k0, v0));
                assert forall|a: int, b: int| 0 <= a < b < qs.len() implies qs[a].0@
                    != qs[b].0@ by {
                    if b < qs.len() - 1 {
                        assert(qs[a] == rs[a] && qs[b] == rs[b]);
                    } else {
                        assert(qs[a] == rs[a] && qs[b] == (k, v));
                    }
                }
            }
        } else {
            proof {
                lemma_map_of_pairs_contains(ps, k0);
            }
            self.pairs.push((k, v));
            proof {
                let qs = self.pairs@;
                assert(qs.drop_last() =~= ps);
                assert(qs.last() == (k, v));
                assert(map_of_pairs(qs) == map_of_pairs(ps).insert(k0, v0));
                assert forall|a: int, b: int| 0 <= a < b < qs.len() implies qs[a].0@
                    != qs[b].0@ by {
                    if b < qs.len() - 1 {
                        assert(qs[a] == ps[a] && qs[b] == ps[b]);
                    } else {
                        assert(qs[a] == ps[a] && qs[b] == (k, v));
                    }
                }
            }
        }
        self.key_input = String::new();
        self.value_input = String::new();
        self.currently_editing = None;
    }

    /// Runtime check of well-formedness, for callers outside the verified
    /// world.
    pub fn check_wf(&self) -> (r: bool)
        ensures
            r == self.wf(),
    {
        if matches!(self.current_screen, CurrentScreen::Editing) && self.currently_editing.is_none() {
            return false;
        }
        let n: usize = self.pairs.len();
        let mut i: usize = 0;
        while i < n
            invariant
                n == self.pairs@.len(),
                i <= n,
                self.current_screen is Editing ==> self.currently_editing is Some,
                forall|a: int, b: int|
                    0 <= a < b < n && a < i ==> self.pairs@[a].0@ != self.pairs@[b].0@,
            decreases n - i,
        {
            let mut j: usize = i + 1;
            while j < n
                invariant
                    n == self.pairs@.len(),
                    i < j <= n,
                    i < n,
                    self.current_screen is Editing ==> self.currently_editing is Some,
                    forall|a: int, b: int|
                        0 <= a < b < n && a < i ==> self.pairs@[a].0@ != self.pairs@[b].0@,
                    forall|b: int| i < b < j ==> self.pairs@[i as int].0@ != self.pairs@[b].0@,
                decreases n - j,
            {
                if self.pairs[i].0 == self.pairs[j].0 {
                    return false;
                }
                j += 1;
            }
            i += 1;
        }
        true
    }

    /// Start a new edit from the main screen, focusing the key buffer.
    pub fn enter_editing(&mut self)
        requires
            old(self).current_screen is Main,
        ensures
            final(self).current_screen is Editing,
            final(self).currently_editing == Some(CurrentlyEditing::Key),
            final(self).key_input@ == old(self).key_input@,
            final(self).value_input@ == old(self).value_input@,
            final(self).pairs == old(self).pairs,
            old(self).wf() ==> final(self).wf(),
    {
        self.current_screen = CurrentScreen::Editing;
        self.currently_editing = Some(CurrentlyEditing::Key);
    }

    /// Ask to quit from the main screen; the edit target is left alone.
    pub fn request_exit(&mut self)
        requires
            old(self).current_screen is Main,
        ensures
            final(self).current_screen is Exiting,
            final(self).currently_editing == old(self).currently_editing,
            final(self).key_input@ == old(self).key_input@,
            final(self).value_input@ == old(self).value_input@,
            final(self).pairs == old(self).pairs,
            old(self).wf() ==> final(self).wf(),
    {
        self.current_screen = CurrentScreen::Exiting;
    }

    /// Abandon the edit in progress and ask to confirm quitting.
    pub fn cancel_edit(&mut self)
        requires
            old(self).current_screen is Editing,
        ensures
            final(self).current_screen is Exiting,
            final(self).currently_editing is None,
            final(self).key_input@ == old(self).key_input@,
            final(self).value_input@ == old(self).value_input@,
            final(self).pairs == old(self).pairs,
            old(self).wf() ==> final(self).wf(),
    {
        self.current_screen = CurrentScreen::Exiting;
        self.currently_editing = None;
    }

    /// Move the edit forward: from the key buffer on to the value buffer;
    /// from the value buffer, commit the pair and return to the main screen.
    pub fn advance_edit(&mut self)
        requires
            old(self).current_screen is Editing,
            old(self).wf(),
        ensures
            final(self).wf(),
            match old(self).currently_editing {
                Some(CurrentlyEditing::Key) => {
                    &&& final(self).currently_editing == Some(CurrentlyEditing::Value)
                    &&& final(self).current_screen == old(self).current_screen
                    &&& final(self).key_input@ == old(self).key_input@
                    &&& final(self).value_input@ == old(self).value_input@
                    &&& final(self).pairs == old(self).pairs
                },
                Some(CurrentlyEditing::Value) => {
                    &&& final(self)@.pairs == old(self)@.pairs.insert(
                        old(self).key_input@,
                        old(self).value_input@,
                    )
                    &&& final(self).key_input@ == Seq::<char>::empty()
                    &&& final(self).value_input@ == Seq::<char>::empty()
                    &&& final(self).currently_editing is None
                    &&& final(self).current_screen is Main
                },
                None => *final(self) == *old(self),
            },
    {
        match self.currently_editing {
            Some(CurrentlyEditing::Key) => {
                self.currently_editing = Some(CurrentlyEditing::Value);
            }
            Some(CurrentlyEditing::Value) => {
                self.save_key_value();
                self.current_screen = CurrentScreen::Main;
            }
            None => {}
        }
    }

    /// Confirm the pending exit: terminate and emit the pairs.
    pub fn confirm_exit(&self) -> (flow: Flow)
        requires
            self.current_screen is Exiting,
        ensures
            flow == (Flow::Terminate { emit: true }),
    {
        Flow::Terminate { emit: true }
    }

    /// Decline the pending exit and return to the main screen; buffers and
    /// pairs are untouched.
    pub fn abort_exit(&mut self)
        requires
            old(self).current_screen is Exiting,
        ensures
            final(self).current_screen is Main,
            final(self).currently_editing == old(self).currently_editing,
            final(self).key_input@ == old(self).key_input@,
            final(self).value_input@ == old(self).value_input@,
            final(self).pairs == old(self).pairs,
            old(self).wf() ==> final(self).wf(),
    {
        self.current_screen = CurrentScreen::Main;
    }
}

} // verus!
