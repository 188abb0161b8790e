use vstd::prelude::*;
use vstd::utf8::encode_utf8;
use crate::discord::rich_presence::RichPresence;
use crate::model::{current_index, Presence, ShowTime, State, TimePresence};

verus! {

/// The fewest bytes that Discord accepts in a text field of a rich presence.
pub const DISCORD_CHAR_LIMIT: usize = 2;

/// The number of bytes in the UTF-8 encoding of `s`.
pub open spec fn utf8_len(s: Seq<char>) -> nat {
    encode_utf8(s).len()
}

/// The number of bytes of `s`, which is what `str::len` returns.
pub fn byte_len(s: &str) -> (n: usize)
    ensures
        n == utf8_len(s@),
{
    s.as_bytes().len()
}

/// `None` when the UTF-8 encoding of `s` is shorter than `threshold` bytes,
/// `Some(s)` otherwise.
pub fn str_opt(s: String, threshold: usize) -> (res: Option<String>)
    ensures
        res == (if utf8_len(s@) < threshold { None } else { Some(s) }),
{
    if byte_len(s.as_str()) < threshold {
        None
    } else {
        Some(s)
    }
}

/// `a + b`, or `u64::MAX` when that does not fit.
pub open spec fn add_capped(a: u64, b: u64) -> u64 {
    if a + b > u64::MAX {
        u64::MAX
    } else {
        (a + b) as u64
    }
}

/// The presence `p` after `step` nanoseconds of its shown slide: when the
/// slide has a length, the time on it grows by `step`; once it exceeds the
/// length the next slide becomes active (after the last comes the first) and
/// the time starts again at 0. A slide without a length stays up.
pub open spec fn advanced(p: Presence, step: u64) -> Presence {
    match current_index(p) {
        Some(i) => match p.time_presences@[i].length {
            Some(length) => {
                let e = add_capped(p.elapsed, step);
                if e > length {
                    Presence {
                        active_presence: ((p.active_presence + 1) % (p.time_presences@.len() as int)) as usize,
                        elapsed: 0,
                        ..p
                    }
                } else {
                    Presence { elapsed: e, ..p }
                }
            },
            None => p,
        },
        None => p,
    }
}

/// When a step of `step` nanoseconds can run on `p`: if the step runs past
/// the length of the shown slide, the active position has a successor.
pub open spec fn advance_requires(p: Presence, step: u64) -> bool {
    match current_index(p) {
        Some(i) => match p.time_presences@[i].length {
            Some(length) => add_capped(p.elapsed, step) > length ==> p.active_presence < usize::MAX,
            None => true,
        },
        None => true,
    }
}

/// What `str_opt` returns.
pub open spec fn spec_str_opt(s: String, threshold: usize) -> Option<String> {
    if utf8_len(s@) < threshold {
        None
    } else {
        Some(s)
    }
}

/// What the updater hands on after a step: the application to connect to,
/// where the slideshow stands and the slide that is shown.
pub struct Shown {
    pub application_id: u64,
    pub active_presence: usize,
    /// Time on the active slide, in nanoseconds.
    pub elapsed: u64,
    /// The number of slides of the presence.
    pub slide_count: usize,
    pub slide: TimePresence,
}

/// What a presence `p` shows through its slide `i`.
pub open spec fn shown_of(p: Presence, i: int) -> Shown {
    Shown {
        application_id: p.application_id,
        active_presence: p.active_presence,
        elapsed: p.elapsed,
        slide_count: p.time_presences@.len() as usize,
        slide: p.time_presences@[i],
    }
}

/// The start of the shown slide, in nanoseconds since the UNIX epoch, when it shows a time.
pub open spec fn start_time_of(s: Shown, now: u64) -> Option<u64> {
    match s.slide.show_time {
        ShowTime::Hidden => None,
        _ => Some((now - s.elapsed) as u64),
    }
}

/// The end of the shown slide, when it shows the remaining time and has a length.
pub open spec fn end_time_of(s: Shown, now: u64) -> Option<u64> {
    match (s.slide.show_time, s.slide.length) {
        (ShowTime::Remaining, Some(length)) => Some((now - s.elapsed + length) as u64),
        _ => None,
    }
}

/// The rich presence that shows `s` at time `now` (nanoseconds since the
/// UNIX epoch). Texts shorter than Discord accepts are left out; a slideshow
/// of several slides shows as a party whose size is the active slide's
/// position and whose maximum is the number of slides.
pub open spec fn shown_view(s: Shown, now: u64) -> RichPresence {
    let t = s.slide;
    let l = s.slide_count;
    RichPresence {
        details: spec_str_opt(t.details, DISCORD_CHAR_LIMIT),
        state: spec_str_opt(t.state, DISCORD_CHAR_LIMIT),
        start_time: start_time_of(s, now),
        end_time: end_time_of(s, now),
        large_image_key: Some(t.large_image),
        small_image_key: Some(t.small_image),
        small_image_text: spec_str_opt(t.tooltip, DISCORD_CHAR_LIMIT),
        large_image_text: spec_str_opt(t.tooltip, DISCORD_CHAR_LIMIT),
        party_id: None,
        party_size: if l > 1 { Some((s.active_presence + 1) as u32) } else { None },
        party_max: if l > 1 { Some(l as u32) } else { None },
        spectate_secret: None,
        join_secret: None,
    }
}

/// When `shown_view(s, now)` can be computed: the slide's start is not
/// before the UNIX epoch, its end fits in 64 bits of nanoseconds, and the
/// active position has a successor when it is shown as a party size.
pub open spec fn view_requires(s: Shown, now: u64) -> bool {
    &&& s.slide.show_time != ShowTime::Hidden ==> s.elapsed <= now
    &&& (s.slide.show_time == ShowTime::Remaining && s.slide.length is Some) ==> now - s.elapsed
        + s.slide.length->0 <= u64::MAX
    &&& s.slide_count > 1 ==> s.active_presence < usize::MAX
}

/// Whether `p` can advance by `step` nanoseconds (see `advance_requires`).
pub fn advance_ok(p: &Presence, step: u64) -> (r: bool)
    ensures
        r == advance_requires(*p, step),
{
    match p.current() {
        Some(t) => match t.length {
            Some(length) => p.elapsed.saturating_add(step) <= length || p.active_presence
                < usize::MAX,
            None => true,
        },
        None => true,
    }
}

/// The active position and the time on it after `step` nanoseconds (see `advanced`).
pub fn next_position(p: &Presence, step: u64) -> (r: (usize, u64))
    requires
        advance_requires(*p, step),
    ensures
        r.0 == advanced(*p, step).active_presence,
        r.1 == advanced(*p, step).elapsed,
{
    let n = p.time_presences.len();
    let length = match p.current() {
        Some(t) => t.length,
        None => None,
    };
    match length {
        Some(length) => {
            let e = p.elapsed.saturating_add(step);
            if e > length {
                ((p.active_presence + 1) % n, 0)
            } else {
                (p.active_presence, e)
            }
        },
        None => (p.active_presence, p.elapsed),
    }
}

impl Presence {
    /// Lets `step` nanoseconds pass on the shown slide.
    pub fn advance(&mut self, step: u64)
        requires
            advance_requires(*old(self), step),
        ensures
            *final(self) == advanced(*old(self), step),
    {
        let (active, elapsed) = next_position(self, step);
        self.active_presence = active;
        self.elapsed = elapsed;
    }
}

/// A slide equal to `t`.
pub fn copy_slide(t: &TimePresence) -> (r: TimePresence)
    ensures
        r == *t,
{
    TimePresence {
        details: t.details.clone(),
        state: t.state.clone(),
        tooltip: t.tooltip.clone(),
        small_image: t.small_image.clone(),
        large_image: t.large_image.clone(),
        show_time: t.show_time,
        length: t.length,
    }
}

impl Shown {
    /// Whether `rich_presence(now)` can run (see `view_requires`).
    pub fn view_ok(&self, now: u64) -> (r: bool)
        ensures
            r == view_requires(*self, now),
    {
        let t = &self.slide;
        let start_ok = match t.show_time {
            ShowTime::Hidden => true,
            _ => self.elapsed <= now,
        };
        let end_ok = match (t.show_time, t.length) {
            (ShowTime::Remaining, Some(length)) => self.elapsed > now || now - self.elapsed
                <= u64::MAX - length,
            _ => true,
        };
        let party_ok = self.slide_count <= 1 || self.active_presence < usize::MAX;
        start_ok && end_ok && party_ok
    }

    /// The rich presence that shows this slide at `now` (see `shown_view`).
    pub fn rich_presence(&self, now: u64) -> (r: RichPresence)
        requires
            view_requires(*self, now),
        ensures
            r == shown_view(*self, now),
            r.large_image_key == Some(self.slide.large_image),
            r.small_image_key == Some(self.slide.small_image),
            r.party_id is None,
            r.join_secret is None,
            r.spectate_secret is None,
    {
        proof {
            lemma_images_always_shown(*self, now);
        }
        let t = &self.slide;
        let (start_time, end_time) = match t.show_time {
            ShowTime::Elapsed | ShowTime::Remaining => {
                let start = now - self.elapsed;
                let end = match (t.show_time, t.length) {
                    (ShowTime::Remaining, Some(length)) => Some(start + length),
                    _ => None,
                };
                (Some(start), end)
            },
            _ => (None, None),
        };
        let l = self.slide_count;
        let (party_size, party_max) = if l > 1 {
            (Some((self.active_presence + 1) as u32), Some(l as u32))
        } else {
            (None, None)
        };
        RichPresence {
            details: str_opt(t.details.clone(), DISCORD_CHAR_LIMIT),
            state: str_opt(t.state.clone(), DISCORD_CHAR_LIMIT),
            start_time,
            end_time,
            large_image_key: Some(t.large_image.clone()),
            small_image_key: Some(t.small_image.clone()),
            small_image_text: str_opt(t.tooltip.clone(), DISCORD_CHAR_LIMIT),
            large_image_text: str_opt(t.tooltip.clone(), DISCORD_CHAR_LIMIT),
            party_id: None,
            party_size,
            party_max,
            spectate_secret: None,
            join_secret: None,
        }
    }
}

/// The presences of `s` after one step of `step` nanoseconds: the current
/// presence, when there is one, advances; the others stay.
pub open spec fn ticked(s: State, step: u64) -> Seq<Presence> {
    if s.current < s.presences@.len() {
        s.presences@.update(s.current as int, advanced(s.presences@[s.current as int], step))
    } else {
        s.presences@
    }
}

/// What a step of `step` nanoseconds hands on: nothing when no presence is
/// current or the current one has no slide; else what the advanced presence shows.
pub open spec fn tick_result(s: State, step: u64) -> Option<Shown> {
    if s.current < s.presences@.len() {
        let p = advanced(s.presences@[s.current as int], step);
        match current_index(p) {
            Some(i) => Some(shown_of(p, i)),
            None => None,
        }
    } else {
        None
    }
}

/// When a step can run: the current presence, if any, can advance (see `advance_requires`).
pub open spec fn tick_requires(s: State, step: u64) -> bool {
    s.current < s.presences@.len() ==> advance_requires(s.presences@[s.current as int], step)
}

impl State {
    /// Whether `tick(step)` can run on this state (see `tick_requires`).
    pub fn tick_ok(&self, step: u64) -> (r: bool)
        ensures
            r == tick_requires(*self, step),
    {
        let cur = self.current;
        if cur < self.presences.len() {
            advance_ok(&self.presences[cur], step)
        } else {
            true
        }
    }

    /// One step of the updater: `step` nanoseconds pass on the current
    /// presence, and what it then shows is handed on.
    pub fn tick(&mut self, step: u64) -> (r: Option<Shown>)
        requires
            tick_requires(*old(self), step),
        ensures
            final(self).current == old(self).current,
            final(self).update == old(self).update,
            final(self).presences@ == ticked(*old(self), step),
            r == tick_result(*old(self), step),
            final(self).presences@.len() == old(self).presences@.len(),
            forall|j: int|
                0 <= j < old(self).presences@.len() && j != old(self).current
                    ==> #[trigger] final(self).presences@[j] == old(self).presences@[j],
    {
        proof {
            lemma_tick_touches_only_current(*old(self), step);
        }
        let cur = self.current;
        if cur < self.presences.len() {
            self.presences[cur].advance(step);
            let p = &self.presences[cur];
            match p.current() {
                Some(t) => Some(
                    Shown {
                        application_id: p.application_id,
                        active_presence: p.active_presence,
                        elapsed: p.elapsed,
                        slide_count: p.time_presences.len(),
                        slide: copy_slide(t),
                    },
                ),
                None => None,
            }
        } else {
            None
        }
    }
}

/// The updater's connection: the client `C` when one is up, and the
/// application that it was last made for.
pub struct AppClient<C> {
    pub client: Option<C>,
    pub c_app_id: Option<u64>,
}

/// A connection to `app_id` must be made: none is up, or it is for another application.
pub open spec fn needs_connection<C>(a: AppClient<C>, app_id: u64) -> bool {
    a.client is None || a.c_app_id != Some(app_id)
}

impl<C> AppClient<C> {
    /// No connection, for no application.
    pub fn new() -> (a: AppClient<C>)
        ensures
            a.client is None,
            a.c_app_id is None,
    {
        AppClient { client: None, c_app_id: None }
    }

    /// Whether `app_id` is another application than the last one connected to.
    pub fn new_client(&self, app_id: u64) -> (r: bool)
        ensures
            r == (self.c_app_id != Some(app_id)),
    {
        match self.c_app_id {
            Some(id) => id != app_id,
            None => true,
        }
    }

    /// Whether a connection to `app_id` must be made before it can be used.
    pub fn needs_init(&self, app_id: u64) -> (r: bool)
        ensures
            r == needs_connection(*self, app_id),
    {
        self.client.is_none() || self.new_client(app_id)
    }

    /// The first half of getting the client for `app_id`: when a new
    /// connection is needed, drops the current one and records `app_id`, and
    /// returns `true`: the caller connects and hands the result to `attach`.
    /// Otherwise nothing changes and the current client serves.
    pub fn prepare_client(&mut self, app_id: u64) -> (r: bool)
        ensures
            r == needs_connection(*old(self), app_id),
            r ==> final(self).client is None && final(self).c_app_id == Some(app_id),
            !r ==> *final(self) == *old(self),
    {
        if self.needs_init(app_id) {
            self.client = None;
            self.c_app_id = Some(app_id);
            true
        } else {
            false
        }
    }

    /// The second half: keeps the connection that was made, if any.
    pub fn attach(&mut self, client: Option<C>)
        ensures
            final(self).client == client,
            final(self).c_app_id == old(self).c_app_id,
    {
        self.client = client;
    }
}

/// Once a connection to an application is up, asking for the same
/// application again keeps it; asking for another one drops it.
pub proof fn lemma_connection_kept<C>(a: AppClient<C>, app_id: u64, other: u64, c: C)
    requires
        a.client == Some(c),
        a.c_app_id == Some(app_id),
    ensures
        !needs_connection(a, app_id),
        other != app_id ==> needs_connection(a, other),
{
}

/// A step keeps the slides of a presence, its name and application, and keeps
/// an active position that was in range in range.
pub proof fn lemma_advance_keeps_slides(p: Presence, step: u64)
    requires
        p.active_presence < p.time_presences@.len(),
    ensures
        advanced(p, step).active_presence < p.time_presences@.len(),
        advanced(p, step).time_presences == p.time_presences,
        advanced(p, step).name == p.name,
        advanced(p, step).application_id == p.application_id,
{
}

/// After a step on a slide with a length, the time on the active slide is at
/// most that length; when the step ran past it the next slide is active and
/// its time starts at 0.
pub proof fn lemma_advance_within_length(p: Presence, step: u64, i: int, length: u64)
    requires
        current_index(p) == Some(i),
        p.time_presences@[i].length == Some(length),
    ensures
        advanced(p, step).elapsed <= length,
        add_capped(p.elapsed, step) > length ==> advanced(p, step).elapsed == 0
            && advanced(p, step).active_presence == (p.active_presence + 1) % (
        p.time_presences@.len() as int),
        add_capped(p.elapsed, step) <= length ==> advanced(p, step).elapsed == add_capped(
            p.elapsed,
            step,
        ) && advanced(p, step).active_presence == p.active_presence,
{
    assert(p.time_presences@.len() == p.time_presences.len());
}

/// The shown times agree with the slideshow: a timed slide starts `elapsed`
/// nanoseconds before now, and one that shows the remaining time ends its
/// length after its start.
pub proof fn lemma_shown_times(s: Shown, now: u64)
    requires
        view_requires(s, now),
    ensures
        s.slide.show_time != ShowTime::Hidden ==> shown_view(s, now).start_time == Some(
            (now - s.elapsed) as u64,
        ),
        s.slide.show_time == ShowTime::Hidden ==> shown_view(s, now).start_time is None
            && shown_view(s, now).end_time is None,
        (s.slide.show_time == ShowTime::Remaining && s.slide.length is Some) ==> shown_view(
            s,
            now,
        ).end_time->0 - shown_view(s, now).start_time->0 == s.slide.length->0,
{
}

/// A step changes only the current presence: the list keeps its length, every
/// other presence stays as it was, and when no presence is current nothing changes.
pub proof fn lemma_tick_touches_only_current(s: State, step: u64)
    ensures
        ticked(s, step).len() == s.presences@.len(),
        forall|j: int|
            0 <= j < s.presences@.len() && j != s.current ==> #[trigger] ticked(s, step)[j]
                == s.presences@[j],
        s.current >= s.presences@.len() ==> ticked(s, step) == s.presences@,
        s.current < s.presences@.len() ==> ticked(s, step)[s.current as int].time_presences
            == s.presences@[s.current as int].time_presences,
        s.current < s.presences@.len() ==> ticked(s, step)[s.current as int].name
            == s.presences@[s.current as int].name,
        s.current < s.presences@.len() ==> ticked(s, step)[s.current as int].application_id
            == s.presences@[s.current as int].application_id,
{
}

/// A shown slide always shows both its images, whatever the length of their
/// keys (only texts are left out when short), and never a party id or secrets.
pub proof fn lemma_images_always_shown(s: Shown, now: u64)
    ensures
        shown_view(s, now).large_image_key == Some(s.slide.large_image),
        shown_view(s, now).small_image_key == Some(s.slide.small_image),
        shown_view(s, now).party_id is None,
        shown_view(s, now).join_secret is None,
        shown_view(s, now).spectate_secret is None,
{
}

/// What a step hands on: nothing when no presence is current or the current
/// one has no slide; otherwise the current presence's application, one of its
/// own slides (the active one after the step, or the first when the active
/// index is out of range) and the number of its slides.
pub proof fn lemma_tick_hands_on_the_current_slide(s: State, step: u64)
    ensures
        s.current >= s.presences@.len() ==> tick_result(s, step) is None,
        s.current < s.presences@.len() && s.presences@[s.current as int].time_presences@.len()
            == 0 ==> tick_result(s, step) is None,
        s.current < s.presences@.len() && s.presences@[s.current as int].time_presences@.len() > 0
            ==> ({
            let p = s.presences@[s.current as int];
            let q = ticked(s, step)[s.current as int];
            &&& tick_result(s, step) matches Some(sh)
            &&& sh.application_id == p.application_id
            &&& sh.slide_count == p.time_presences@.len()
            &&& sh.active_presence == q.active_presence
            &&& sh.elapsed == q.elapsed
            &&& q.active_presence < p.time_presences@.len() ==> sh.slide
                == p.time_presences@[q.active_presence as int]
            &&& q.active_presence >= p.time_presences@.len() ==> sh.slide == p.time_presences@[0]
        }),
{
    if s.current < s.presences@.len() {
        let p = s.presences@[s.current as int];
        assert(p.time_presences@.len() == p.time_presences.len());
    }
}

/// A slide without a length, or a presence without slides, does not move:
/// a step leaves the presence as it was.
pub proof fn lemma_untimed_slide_stays(p: Presence, step: u64)
    requires
        current_index(p) matches Some(i) ==> p.time_presences@[i].length is None,
    ensures
        advanced(p, step) == p,
{
}

/// The texts of a shown slide: each is shown unchanged exactly when it has at
/// least `DISCORD_CHAR_LIMIT` bytes, and the tooltip serves both images. A
/// slideshow of several slides shows as a party of the active position (from 1)
/// out of the number of slides; a single slide shows no party.
pub proof fn lemma_shown_texts_and_party(s: Shown, now: u64)
    ensures
        shown_view(s, now).details is Some <==> utf8_len(s.slide.details@) >= DISCORD_CHAR_LIMIT,
        shown_view(s, now).details matches Some(d) ==> d == s.slide.details,
        shown_view(s, now).state is Some <==> utf8_len(s.slide.state@) >= DISCORD_CHAR_LIMIT,
        shown_view(s, now).state matches Some(d) ==> d == s.slide.state,
        shown_view(s, now).large_image_text is Some <==> utf8_len(s.slide.tooltip@)
            >= DISCORD_CHAR_LIMIT,
        shown_view(s, now).large_image_text matches Some(d) ==> d == s.slide.tooltip,
        shown_view(s, now).small_image_text == shown_view(s, now).large_image_text,
        s.slide_count <= 1 ==> shown_view(s, now).party_size is None && shown_view(
            s,
            now,
        ).party_max is None,
        (1 < s.slide_count <= u32::MAX && s.active_presence < s.slide_count) ==> ({
            &&& shown_view(s, now).party_size matches Some(size)
            &&& shown_view(s, now).party_max matches Some(max)
            &&& size == s.active_presence + 1
            &&& max == s.slide_count
            &&& 1 <= size <= max
        }),
{
    if 1 < s.slide_count <= u32::MAX && s.active_presence < s.slide_count {
        assert(((s.active_presence + 1) as u32) == s.active_presence + 1);
        assert((s.slide_count as u32) == s.slide_count);
    }
}

/// Adding time caps at the largest count instead of wrapping around.
pub proof fn lemma_add_capped(a: u64, b: u64)
    ensures
        a + b <= u64::MAX ==> add_capped(a, b) == a + b,
        a + b > u64::MAX ==> add_capped(a, b) == u64::MAX,
        add_capped(a, b) >= a,
        add_capped(a, b) >= b,
{
}

/// Without a connection, or with one for another application, a connection
/// must be made.
pub proof fn lemma_connection_needed<C>(a: AppClient<C>, app_id: u64)
    ensures
        a.client is None ==> needs_connection(a, app_id),
        a.c_app_id != Some(app_id) ==> needs_connection(a, app_id),
        a.client is Some && a.c_app_id == Some(app_id) ==> !needs_connection(a, app_id),
{
}

} // verus!
