use vstd::prelude::*;
use vstd::string::*;
use crate::model::{
    default_name, is_initial_time_presence, Presence, State, TimePresence, WinState, DEFAULT_APP_ID,
};
use crate::update::{byte_len, utf8_len};
use crate::window::after_report;

verus! {

/// The most bytes that the name of a presence may have.
pub const MAX_NAME_LEN: usize = 16;

/// Why the window's request was refused.
#[derive(Clone, Copy, PartialEq, Eq, Structural, Debug)]
pub enum CommandError {
    /// The new name of a presence has more than `MAX_NAME_LEN` bytes.
    NameTooLong,
    /// The new name of a presence is empty.
    NameEmpty,
}

impl CommandError {
    /// The text that the window shows for the error.
    pub fn message(&self) -> (m: &'static str)
        ensures
            *self == CommandError::NameTooLong ==> m@ == "Presence name cannot be over 16 characters!"@,
            *self == CommandError::NameEmpty ==> m@ == "Presence name cannot be empty!"@,
    {
        match self {
            CommandError::NameTooLong => "Presence name cannot be over 16 characters!",
            CommandError::NameEmpty => "Presence name cannot be empty!",
        }
    }
}

/// `q` is the presence that `Presence::new` makes when `n` presences exist.
pub open spec fn is_new_presence(q: Presence, n: nat) -> bool {
    &&& q.name@ == default_name(n)
    &&& q.application_id == DEFAULT_APP_ID
    &&& q.elapsed == 0
    &&& q.active_presence == 0
    &&& q.time_presences@.len() == 0
}

/// The name check of a rename: `None` when `name` is accepted.
pub open spec fn name_error(name: Seq<char>) -> Option<CommandError> {
    if utf8_len(name) > MAX_NAME_LEN {
        Some(CommandError::NameTooLong)
    } else if utf8_len(name) == 0 {
        Some(CommandError::NameEmpty)
    } else {
        None
    }
}

/// `s` with the item at `from` taken out and put back in at `to`.
pub open spec fn reordered<T>(s: Seq<T>, from: int, to: int) -> Seq<T> {
    s.remove(from).insert(to, s[from])
}

/// `p` renamed to `name`.
pub open spec fn with_name(p: Presence, name: String) -> Presence {
    Presence { name, ..p }
}

impl State {
    /// Appends `p`, or a new presence named after its position when `p` is
    /// `None`; returns the index of the appended presence.
    pub fn add_presence(&mut self, p: Option<Presence>) -> (i: usize)
        requires
            p is None ==> old(self).presences@.len() < usize::MAX,
        ensures
            i == old(self).presences@.len(),
            final(self).presences@ == old(self).presences@.push(final(self).presences@[i as int]),
            p matches Some(q) ==> final(self).presences@[i as int] == q,
            p is None ==> is_new_presence(final(self).presences@[i as int], i as nat),
            final(self).current == old(self).current,
            final(self).update == old(self).update,
    {
        let q = match p {
            Some(q) => q,
            None => Presence::new(self),
        };
        let i = self.presences.len();
        self.presences.push(q);
        i
    }

    /// Removes the presence at `i`; the later ones move down by one.
    pub fn del_presence(&mut self, i: usize)
        requires
            i < old(self).presences@.len(),
        ensures
            final(self).presences@ == old(self).presences@.remove(i as int),
            final(self).current == old(self).current,
            final(self).update == old(self).update,
    {
        self.presences.remove(i);
    }

    /// Renames the presence at `i`, when `name` has 1 to `MAX_NAME_LEN` bytes.
    pub fn rename_presence(&mut self, i: usize, name: String) -> (r: Result<(), CommandError>)
        requires
            name_error(name@) is None ==> i < old(self).presences@.len(),
        ensures
            r == match name_error(name@) {
                Some(e) => Err(e),
                None => Ok(()),
            },
            r is Err ==> *final(self) == *old(self),
            r is Ok ==> final(self).presences@ == old(self).presences@.update(
                i as int,
                with_name(old(self).presences@[i as int], name),
            ),
            final(self).current == old(self).current,
            final(self).update == old(self).update,
    {
        let n = byte_len(name.as_str());
        if n > MAX_NAME_LEN {
            return Err(CommandError::NameTooLong);
        } else if n == 0 {
            return Err(CommandError::NameEmpty);
        }
        self.presences[i].name = name;
        Ok(())
    }

    /// Moves the presence at `from` to position `to`.
    pub fn reorder_presence(&mut self, from: usize, to: usize)
        requires
            from < old(self).presences@.len(),
            to < old(self).presences@.len(),
        ensures
            final(self).presences@ == reordered(old(self).presences@, from as int, to as int),
            final(self).current == old(self).current,
            final(self).update == old(self).update,
    {
        let e = self.presences.remove(from);
        self.presences.insert(to, e);
    }

    /// Makes the presence at `i` the current one.
    pub fn activate_presence(&mut self, i: usize)
        requires
            i < old(self).presences@.len(),
        ensures
            final(self).current == i,
            final(self).presences@ == old(self).presences@,
            final(self).update == old(self).update,
    {
        self.current = i;
    }

    /// Replaces the current presence with `p`.
    pub fn update_presence(&mut self, p: Presence)
        requires
            old(self).current < old(self).presences@.len(),
        ensures
            final(self).presences@ == old(self).presences@.update(old(self).current as int, p),
            final(self).current == old(self).current,
            final(self).update == old(self).update,
    {
        let cur = self.current;
        self.presences.set(cur, p);
    }
}

/// Takes in the window's report of its state (see `after_report`).
pub fn report_window_state<E>(ws: &mut WinState<E>, new_state: String)
    ensures
        *final(ws) == after_report(*old(ws), new_state@),
{
    let closing = String::from_str("closing");
    if new_state == closing {
        *ws = WinState::Closing;
    }
}

/// The requests that the window can make, by name.
#[derive(Clone, Copy, PartialEq, Eq, Structural, Debug)]
pub enum RequestKind {
    AddPresence,
    DelPresence,
    RenamePresence,
    SerPresence,
    DePresence,
    ReorderPresence,
    ActivatePresence,
    UpdatePresence,
    NewTimePresence,
    Win,
}

/// The request that the window's call `name` with `nargs` arguments makes,
/// or `None` when it makes none (an unknown name or a wrong number of arguments).
pub open spec fn spec_request_kind(name: Seq<char>, nargs: nat) -> Option<RequestKind> {
    if name == "add_presence"@ && nargs == 1 {
        Some(RequestKind::AddPresence)
    } else if name == "del_presence"@ && nargs == 1 {
        Some(RequestKind::DelPresence)
    } else if name == "rename_presence"@ && nargs == 2 {
        Some(RequestKind::RenamePresence)
    } else if name == "ser_presence"@ && nargs == 1 {
        Some(RequestKind::SerPresence)
    } else if name == "de_presence"@ && nargs == 1 {
        Some(RequestKind::DePresence)
    } else if name == "reorder_presence"@ && nargs == 2 {
        Some(RequestKind::ReorderPresence)
    } else if name == "activate_presence"@ && nargs == 1 {
        Some(RequestKind::ActivatePresence)
    } else if name == "update_presence"@ && nargs == 1 {
        Some(RequestKind::UpdatePresence)
    } else if name == "new_time_presence"@ && nargs == 0 {
        Some(RequestKind::NewTimePresence)
    } else if name == "win"@ && nargs == 1 {
        Some(RequestKind::Win)
    } else {
        None
    }
}

fn is_name(name: &String, lit: &str) -> (r: bool)
    ensures
        r == (name@ == lit@),
{
    let l = String::from_str(lit);
    *name == l
}

/// The request that the window's call `name` with `nargs` arguments makes
/// (see `spec_request_kind`).
pub fn request_kind(name: &str, nargs: usize) -> (r: Option<RequestKind>)
    ensures
        r == spec_request_kind(name@, nargs as nat),
{
    let n = String::from_str(name);
    if is_name(&n, "add_presence") && nargs == 1 {
        Some(RequestKind::AddPresence)
    } else if is_name(&n, "del_presence") && nargs == 1 {
        Some(RequestKind::DelPresence)
    } else if is_name(&n, "rename_presence") && nargs == 2 {
        Some(RequestKind::RenamePresence)
    } else if is_name(&n, "ser_presence") && nargs == 1 {
        Some(RequestKind::SerPresence)
    } else if is_name(&n, "de_presence") && nargs == 1 {
        Some(RequestKind::DePresence)
    } else if is_name(&n, "reorder_presence") && nargs == 2 {
        Some(RequestKind::ReorderPresence)
    } else if is_name(&n, "activate_presence") && nargs == 1 {
        Some(RequestKind::ActivatePresence)
    } else if is_name(&n, "update_presence") && nargs == 1 {
        Some(RequestKind::UpdatePresence)
    } else if is_name(&n, "new_time_presence") && nargs == 0 {
        Some(RequestKind::NewTimePresence)
    } else if is_name(&n, "win") && nargs == 1 {
        Some(RequestKind::Win)
    } else {
        None
    }
}

/// A request of the window, with its arguments read.
pub enum Command {
    /// Append the given presence, or a new one.
    AddPresence(Option<Presence>),
    /// Remove the presence at the index.
    DelPresence(usize),
    /// Rename the presence at the index.
    RenamePresence(usize, String),
    /// Hand back the presence at the index for serialisation.
    SerPresence(usize),
    /// Hand back a presence read from its serialised form.
    DePresence(Presence),
    /// Move the presence at the first index to the second.
    ReorderPresence(usize, usize),
    /// Make the presence at the index current.
    ActivatePresence(usize),
    /// Replace the current presence.
    UpdatePresence(Presence),
    /// Hand back a new time presence.
    NewTimePresence,
    /// The window reports its state.
    Win(String),
}

/// The answer to a request that was carried out.
pub enum Reply {
    /// The presence now at this index was appended.
    Added(usize),
    /// Done, with nothing to hand back.
    Done,
    /// The presence at this index is to be serialised.
    Serialize(usize),
    /// The presence that was read.
    Parsed(Presence),
    /// The presence at this index is now current.
    Activated(usize),
    /// A new time presence.
    NewTimePresence(TimePresence),
}

/// When `cmd` can be carried out on `s`: the indexes it uses are in range.
pub open spec fn command_requires(s: State, cmd: Command) -> bool {
    let n = s.presences@.len();
    match cmd {
        Command::AddPresence(p) => p is None ==> n < usize::MAX,
        Command::DelPresence(i) => i < n,
        Command::RenamePresence(i, name) => name_error(name@) is None ==> i < n,
        Command::SerPresence(i) => i < n,
        Command::DePresence(_) => true,
        Command::ReorderPresence(from, to) => from < n && to < n,
        Command::ActivatePresence(i) => i < n,
        Command::UpdatePresence(_) => s.current < n,
        Command::NewTimePresence => true,
        Command::Win(_) => true,
    }
}

/// `cmd` leaves the presences and the current index of the state as they are.
pub open spec fn keeps_state(cmd: Command) -> bool {
    match cmd {
        Command::SerPresence(_) | Command::DePresence(_) | Command::NewTimePresence | Command::Win(
            _,
        ) => true,
        _ => false,
    }
}

/// Whether `cmd` can be carried out on `s` (see `command_requires`).
pub fn command_ok(s: &State, cmd: &Command) -> (r: bool)
    ensures
        r == command_requires(*s, *cmd),
        *cmd matches Command::AddPresence(p) && p is Some ==> r,
        *cmd matches Command::DelPresence(i) && i < s.presences@.len() ==> r,
        *cmd matches Command::SerPresence(i) && i < s.presences@.len() ==> r,
        *cmd matches Command::ActivatePresence(i) && i < s.presences@.len() ==> r,
        *cmd matches Command::RenamePresence(i, _) && i < s.presences@.len() ==> r,
        *cmd matches Command::ReorderPresence(a, b) && a < s.presences@.len() && b
            < s.presences@.len() ==> r,
        *cmd matches Command::UpdatePresence(_) && s.current < s.presences@.len() ==> r,
{
    proof {
        lemma_existing_indexes_accepted(*s);
    }
    let n = s.presences.len();
    match cmd {
        Command::AddPresence(p) => p.is_some() || n < usize::MAX,
        Command::DelPresence(i) => *i < n,
        Command::RenamePresence(i, name) => {
            let len = byte_len(name.as_str());
            len > MAX_NAME_LEN || len == 0 || *i < n
        },
        Command::SerPresence(i) => *i < n,
        Command::DePresence(_) => true,
        Command::ReorderPresence(from, to) => *from < n && *to < n,
        Command::ActivatePresence(i) => *i < n,
        Command::UpdatePresence(_) => s.current < n,
        Command::NewTimePresence => true,
        Command::Win(_) => true,
    }
}

/// Carries out a request of the window on the state and the window state.
pub fn handle_script_call<E>(state: &mut State, wstate: &mut WinState<E>, cmd: Command) -> (r:
    Result<Reply, CommandError>)
    requires
        command_requires(*old(state), cmd),
    ensures
        final(state).update == old(state).update,
        !(cmd is Win) ==> *final(wstate) == *old(wstate),
        keeps_state(cmd) ==> *final(state) == *old(state),
        !(cmd is ActivatePresence) ==> final(state).current == old(state).current,
        match cmd {
            Command::AddPresence(p) => {
                let n = old(state).presences@.len();
                &&& r == Ok::<Reply, CommandError>(Reply::Added(n as usize))
                &&& final(state).presences@ == old(state).presences@.push(final(state).presences@[n as int])
                &&& p matches Some(q) ==> final(state).presences@[n as int] == q
                &&& p is None ==> is_new_presence(final(state).presences@[n as int], n)
            },
            Command::DelPresence(i) => {
                &&& r == Ok::<Reply, CommandError>(Reply::Done)
                &&& final(state).presences@ == old(state).presences@.remove(i as int)
            },
            Command::RenamePresence(i, name) => match name_error(name@) {
                Some(e) => r == Err::<Reply, CommandError>(e) && *final(state) == *old(state),
                None => {
                    &&& r == Ok::<Reply, CommandError>(Reply::Done)
                    &&& final(state).presences@ == old(state).presences@.update(
                        i as int,
                        with_name(old(state).presences@[i as int], name),
                    )
                },
            },
            Command::SerPresence(i) => r == Ok::<Reply, CommandError>(Reply::Serialize(i)),
            Command::DePresence(p) => r == Ok::<Reply, CommandError>(Reply::Parsed(p)),
            Command::ReorderPresence(from, to) => {
                &&& r == Ok::<Reply, CommandError>(Reply::Done)
                &&& final(state).presences@ == reordered(
                    old(state).presences@,
                    from as int,
                    to as int,
                )
            },
            Command::ActivatePresence(i) => {
                &&& r == Ok::<Reply, CommandError>(Reply::Activated(i))
                &&& final(state).current == i
                &&& final(state).presences@ == old(state).presences@
            },
            Command::UpdatePresence(p) => {
                &&& r == Ok::<Reply, CommandError>(Reply::Done)
                &&& final(state).presences@ == old(state).presences@.update(
                    old(state).current as int,
                    p,
                )
            },
            Command::NewTimePresence => r matches Ok(Reply::NewTimePresence(t))
                && is_initial_time_presence(t),
            Command::Win(new_state) => {
                &&& r == Ok::<Reply, CommandError>(Reply::Done)
                &&& *final(wstate) == after_report(*old(wstate), new_state@)
            },
        },
{
    match cmd {
        Command::AddPresence(p) => Ok(Reply::Added(state.add_presence(p))),
        Command::DelPresence(i) => {
            state.del_presence(i);
            Ok(Reply::Done)
        },
        Command::RenamePresence(i, name) => {
            state.rename_presence(i, name)?;
            Ok(Reply::Done)
        },
        Command::SerPresence(i) => Ok(Reply::Serialize(i)),
        Command::DePresence(p) => Ok(Reply::Parsed(p)),
        Command::ReorderPresence(from, to) => {
            state.reorder_presence(from, to);
            Ok(Reply::Done)
        },
        Command::ActivatePresence(i) => {
            state.activate_presence(i);
            Ok(Reply::Activated(i))
        },
        Command::UpdatePresence(p) => {
            state.update_presence(p);
            Ok(Reply::Done)
        },
        Command::NewTimePresence => Ok(Reply::NewTimePresence(TimePresence::new())),
        Command::Win(new_state) => {
            report_window_state(wstate, new_state);
            Ok(Reply::Done)
        },
    }
}

/// Moving a presence from `from` to `to` and then from `to` back to `from`
/// restores the list.
pub proof fn lemma_reorder_undo<T>(s: Seq<T>, from: int, to: int)
    requires
        0 <= from < s.len(),
        0 <= to < s.len(),
    ensures
        reordered(reordered(s, from, to), to, from) == s,
{
    let t = reordered(s, from, to);
    assert(t[to] == s[from]);
    assert(t.remove(to) =~= s.remove(from));
    assert(reordered(t, to, from) =~= s);
}

/// Moving a presence keeps the list's items and their number: it only permutes them.
pub proof fn lemma_reorder_permutes<T>(s: Seq<T>, from: int, to: int)
    requires
        0 <= from < s.len(),
        0 <= to < s.len(),
    ensures
        reordered(s, from, to).len() == s.len(),
        reordered(s, from, to).to_multiset() == s.to_multiset(),
{
    broadcast use vstd::seq_lib::group_to_multiset_ensures;
    lemma_insert_multiset(s.remove(from), to, s[from]);
    lemma_insert_multiset(s.remove(from), from, s[from]);
    assert(s.remove(from).insert(from, s[from]) =~= s);
}

/// Inserting an item adds it to the multiset of items.
pub proof fn lemma_insert_multiset<T>(s: Seq<T>, i: int, x: T)
    requires
        0 <= i <= s.len(),
    ensures
        s.insert(i, x).to_multiset() == s.to_multiset().insert(x),
{
    broadcast use vstd::seq_lib::group_to_multiset_ensures;
    let a = s.subrange(0, i);
    let b = s.subrange(i, s.len() as int);
    assert(s =~= a + b);
    assert(s.insert(i, x) =~= a.push(x) + b);
    vstd::seq_lib::lemma_multiset_commutative(a.push(x), b);
    vstd::seq_lib::lemma_multiset_commutative(a, b);
}

/// Adding a presence and then removing the last one gives back the list.
pub proof fn lemma_add_then_delete<T>(s: Seq<T>, x: T)
    ensures
        s.push(x).remove(s.len() as int) == s,
{
    assert(s.push(x).remove(s.len() as int) =~= s);
}

/// Removing the presence at `i` shifts the later ones down by one and keeps the earlier ones.
pub proof fn lemma_delete_shifts<T>(s: Seq<T>, i: int)
    requires
        0 <= i < s.len(),
    ensures
        s.remove(i).len() == s.len() - 1,
        forall|j: int| 0 <= j < i ==> s.remove(i)[j] == s[j],
        forall|j: int| i <= j < s.len() - 1 ==> s.remove(i)[j] == s[j + 1],
{
}

/// Every request about a presence that exists is accepted: adding a given
/// presence always, and deleting, exporting, activating, renaming, moving or
/// updating at any index of the list (the last one included).
pub proof fn lemma_existing_indexes_accepted(s: State)
    ensures
        forall|p: Presence| #[trigger] command_requires(s, Command::AddPresence(Some(p))),
        forall|i: usize|
            i < s.presences@.len() ==> #[trigger] command_requires(s, Command::DelPresence(i)),
        forall|i: usize|
            i < s.presences@.len() ==> #[trigger] command_requires(s, Command::SerPresence(i)),
        forall|i: usize|
            i < s.presences@.len() ==> #[trigger] command_requires(s, Command::ActivatePresence(i)),
        forall|i: usize, name: String|
            i < s.presences@.len() ==> #[trigger] command_requires(
                s,
                Command::RenamePresence(i, name),
            ),
        forall|a: usize, b: usize|
            a < s.presences@.len() && b < s.presences@.len() ==> #[trigger] command_requires(
                s,
                Command::ReorderPresence(a, b),
            ),
        forall|p: Presence|
            s.current < s.presences@.len() ==> #[trigger] command_requires(
                s,
                Command::UpdatePresence(p),
            ),
        forall|p: Presence| #[trigger] command_requires(s, Command::DePresence(p)),
        command_requires(s, Command::NewTimePresence),
        forall|w: String| #[trigger] command_requires(s, Command::Win(w)),
{
}

/// A rename is accepted exactly when the new name has 1 to `MAX_NAME_LEN`
/// bytes, and an accepted rename changes the name of that presence only.
pub proof fn lemma_rename_changes_only_the_name(ps: Seq<Presence>, i: int, name: String)
    requires
        0 <= i < ps.len(),
    ensures
        name_error(name@) is None <==> 1 <= utf8_len(name@) <= MAX_NAME_LEN,
        name_error(name@) == Some(CommandError::NameTooLong) <==> utf8_len(name@) > MAX_NAME_LEN,
        name_error(name@) == Some(CommandError::NameEmpty) <==> utf8_len(name@) == 0,
        ({
            let q = ps.update(i, with_name(ps[i], name));
            &&& q.len() == ps.len()
            &&& q[i].name == name
            &&& q[i].application_id == ps[i].application_id
            &&& q[i].elapsed == ps[i].elapsed
            &&& q[i].active_presence == ps[i].active_presence
            &&& q[i].time_presences == ps[i].time_presences
            &&& forall|j: int| 0 <= j < ps.len() && j != i ==> q[j] == ps[j]
        }),
{
}

/// Moving the item at `from` to `to` puts it at `to`; the items between the
/// two positions shift by one towards `from`, and all others stay in place.
pub proof fn lemma_reorder_moves_one<T>(s: Seq<T>, from: int, to: int)
    requires
        0 <= from < s.len(),
        0 <= to < s.len(),
    ensures
        reordered(s, from, to).len() == s.len(),
        reordered(s, from, to)[to] == s[from],
        from <= to ==> forall|j: int| from <= j < to ==> #[trigger] reordered(s, from, to)[j] == s[j
            + 1],
        to <= from ==> forall|j: int| to < j <= from ==> #[trigger] reordered(s, from, to)[j] == s[j
            - 1],
        forall|j: int|
            0 <= j < s.len() && (j < from && j < to || j > from && j > to) ==> #[trigger] reordered(
                s,
                from,
                to,
            )[j] == s[j],
{
}

} // verus!
