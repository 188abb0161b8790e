use vstd::prelude::*;
use vstd::string::*;
use crate::decimal::{decimal, lemma_decimal_injective, lemma_decimal_reads_back, push_decimal, value_of};

verus! {

/// The Discord application that a new presence is shown under.
pub const DEFAULT_APP_ID: u64 = 465995275563958272;

/// Which time a time presence shows on the profile.
#[derive(Clone, Copy, PartialEq, Eq, Structural, Debug)]
pub enum ShowTime {
    Elapsed,
    Remaining,
    /// No time is shown.
    Hidden,
}

/// One slide of a presence: the texts and images shown while it is active.
#[derive(Clone, Debug)]
pub struct TimePresence {
    pub details: String,
    pub state: String,
    pub tooltip: String,
    pub small_image: String,
    pub large_image: String,
    pub show_time: ShowTime,
    /// How long the slide stays up, in nanoseconds; `None` keeps it up.
    pub length: Option<u64>,
}

/// A named presence: a Discord application and its slideshow of time presences.
#[derive(Clone, Debug)]
pub struct Presence {
    pub application_id: u64,
    pub name: String,
    /// Time spent on the active slide, in nanoseconds.
    pub elapsed: u64,
    pub active_presence: usize,
    pub time_presences: Vec<TimePresence>,
}

/// Everything the client keeps: its presences and which one is shown.
#[derive(Clone, Debug)]
pub struct State {
    pub current: usize,
    pub presences: Vec<Presence>,
    pub update: bool,
}

/// The state of the window; `E` is the handle of the open window's content.
#[derive(Clone, Debug)]
pub enum WinState<E> {
    Opening,
    Tray,
    Open(E),
    Closing,
}

impl State {
    /// A state with no presence, the first one current, updates on.
    pub fn new() -> (s: State)
        ensures
            s.current == 0,
            s.presences@.len() == 0,
            s.update,
    {
        State { current: 0, presences: Vec::new(), update: true }
    }
}

/// `t` is the slide that a new time presence starts as.
pub open spec fn is_initial_time_presence(t: TimePresence) -> bool {
    &&& t.state@ == "Hello world!"@
    &&& t.details@ == "I like dogs!"@
    &&& t.tooltip@ == "...I hate cats"@
    &&& t.small_image@ == "yawny"@
    &&& t.large_image@ == "wuht"@
    &&& t.show_time == ShowTime::Elapsed
    &&& t.length is None
}

impl TimePresence {
    /// The slide that a new time presence starts as.
    pub fn new() -> (t: TimePresence)
        ensures
            is_initial_time_presence(t),
    {
        TimePresence {
            state: String::from_str("Hello world!"),
            details: String::from_str("I like dogs!"),
            tooltip: String::from_str("...I hate cats"),
            small_image: String::from_str("yawny"),
            large_image: String::from_str("wuht"),
            show_time: ShowTime::Elapsed,
            length: None,
        }
    }
}

/// The index of the slide that `p` shows: the active one when it exists, else the first.
pub open spec fn current_index(p: Presence) -> Option<int> {
    if p.active_presence < p.time_presences@.len() {
        Some(p.active_presence as int)
    } else if p.time_presences@.len() > 0 {
        Some(0)
    } else {
        None
    }
}

/// The name that a new presence gets when `n` presences exist.
pub open spec fn default_name(n: nat) -> Seq<char> {
    "Presence "@ + decimal(n + 1)
}

impl Presence {
    /// The slide shown: the active one, or the first one when the active index is out of range.
    pub fn current(&self) -> (r: Option<&TimePresence>)
        ensures
            match current_index(*self) {
                Some(i) => r == Some(&self.time_presences@[i]),
                None => r is None,
            },
    {
        if self.active_presence < self.time_presences.len() {
            Some(&self.time_presences[self.active_presence])
        } else if self.time_presences.len() > 0 {
            Some(&self.time_presences[0])
        } else {
            None
        }
    }

    /// A new presence for `state`, named after its position at the end of the list.
    pub fn new(state: &State) -> (p: Presence)
        requires
            state.presences@.len() < usize::MAX,
        ensures
            p.name@ == default_name(state.presences@.len()),
            p.application_id == DEFAULT_APP_ID,
            p.elapsed == 0,
            p.active_presence == 0,
            p.time_presences@.len() == 0,
    {
        let mut name = String::from_str("Presence ");
        push_decimal(&mut name, state.presences.len() + 1);
        Presence {
            name,
            application_id: DEFAULT_APP_ID,
            elapsed: 0,
            active_presence: 0,
            time_presences: Vec::new(),
        }
    }
}


/// New presences made at different list lengths get different names.
pub proof fn lemma_default_names_differ(a: nat, b: nat)
    requires
        a != b,
    ensures
        default_name(a) != default_name(b),
{
    if default_name(a) == default_name(b) {
        let pre = "Presence "@;
        assert(decimal(a + 1) =~= default_name(a).subrange(pre.len() as int, default_name(a).len() as int));
        assert(decimal(b + 1) =~= default_name(b).subrange(pre.len() as int, default_name(b).len() as int));
        lemma_decimal_injective(a + 1, b + 1);
    }
}

/// The name of a new presence made when `n` presences exist is "Presence "
/// followed by the digits of `n + 1`.
pub proof fn lemma_default_name_counts_from_one(n: nat)
    ensures
        default_name(n).subrange(0, 9) == "Presence "@,
        value_of(default_name(n).subrange(9, default_name(n).len() as int)) == n + 1,
{
    reveal_strlit("Presence ");
    lemma_decimal_reads_back(n + 1);
    assert(default_name(n).subrange(0, 9) =~= "Presence "@);
    assert(default_name(n).subrange(9, default_name(n).len() as int) =~= decimal(n + 1));
}

/// The slide shown is the active one when it exists, else the first; a
/// presence shows no slide only when it has none.
pub proof fn lemma_current_slide(p: Presence)
    ensures
        current_index(p) is None <==> p.time_presences@.len() == 0,
        p.active_presence < p.time_presences@.len() ==> current_index(p) == Some(
            p.active_presence as int,
        ),
        p.active_presence >= p.time_presences@.len() > 0 ==> current_index(p) == Some(0int),
        current_index(p) matches Some(i) ==> 0 <= i < p.time_presences@.len(),
{
}

} // verus!
