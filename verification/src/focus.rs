//! Which desktop surface each seat focuses (keyboard focus) or hovers (pointer
//! focus): one entry per seat, in the order the seats first focused.

use vstd::prelude::*;

verus! {

/// status of a focus
#[derive(Clone, Copy, Debug, PartialEq, Eq, Structural)]
pub enum FocusStatus {
    /// focused
    Focused,
    /// instant last focused (milliseconds of a monotonic clock)
    LastFocused(u64),
}

/// A desktop surface that a seat focuses, or last focused.
#[derive(Debug)]
pub struct FocusEntry {
    /// id of the desktop surface
    pub surface: u64,
    /// name of the seat
    pub seat: String,
    /// whether the seat still focuses it
    pub status: FocusStatus,
}

/// A focus entry as a mathematical value.
pub struct FocusEntryView {
    pub surface: u64,
    pub seat: Seq<char>,
    pub status: FocusStatus,
}

impl View for FocusEntry {
    type V = FocusEntryView;

    open spec fn view(&self) -> FocusEntryView {
        FocusEntryView { surface: self.surface, seat: self.seat@, status: self.status }
    }
}

/// The entries of a focus list as mathematical values.
pub open spec fn focus_views(s: Seq<FocusEntry>) -> Seq<FocusEntryView> {
    s.map_values(|e: FocusEntry| e@)
}

/// `i` is the first entry of seat `seat`.
pub open spec fn is_first_of_seat(vs: Seq<FocusEntryView>, seat: Seq<char>, i: int) -> bool {
    &&& 0 <= i < vs.len()
    &&& vs[i].seat == seat
    &&& forall|j: int| 0 <= j < i ==> vs[j].seat != seat
}

/// The first entry of seat `seat`, if any.
pub open spec fn first_of_seat(vs: Seq<FocusEntryView>, seat: Seq<char>) -> Option<int> {
    if exists|i: int| is_first_of_seat(vs, seat, i) {
        Some(choose|i: int| is_first_of_seat(vs, seat, i))
    } else {
        None
    }
}

/// `i` is the first entry of surface `surface`.
pub open spec fn is_first_of_surface(vs: Seq<FocusEntryView>, surface: u64, i: int) -> bool {
    &&& 0 <= i < vs.len()
    &&& vs[i].surface == surface
    &&& forall|j: int| 0 <= j < i ==> vs[j].surface != surface
}

/// The first entry of surface `surface`, if any.
pub open spec fn first_of_surface(vs: Seq<FocusEntryView>, surface: u64) -> Option<int> {
    if exists|i: int| is_first_of_surface(vs, surface, i) {
        Some(choose|i: int| is_first_of_surface(vs, surface, i))
    } else {
        None
    }
}

/// The surface that seat `seat` focuses or last focused, with the status.
pub open spec fn seat_focus(vs: Seq<FocusEntryView>, seat: Seq<char>) -> Option<(u64, FocusStatus)> {
    match first_of_seat(vs, seat) {
        Some(i) => Some((vs[i].surface, vs[i].status)),
        None => None,
    }
}

/// The focus list after seat `seat` entered surface `surface`: the seat's
/// entry now names that surface as focused, or a new entry is added.
pub open spec fn entered(vs: Seq<FocusEntryView>, surface: u64, seat: Seq<char>) -> Seq<
    FocusEntryView,
> {
    let e = FocusEntryView { surface, seat, status: FocusStatus::Focused };
    match first_of_seat(vs, seat) {
        Some(i) => vs.update(i, e),
        None => vs.push(e),
    }
}

/// The focus list after surface `surface` lost a focus at time `now`: the
/// first entry of that surface is last focused at `now`.
pub open spec fn left(vs: Seq<FocusEntryView>, surface: u64, now: u64) -> Seq<FocusEntryView> {
    match first_of_surface(vs, surface) {
        Some(i) => vs.update(i, FocusEntryView { status: FocusStatus::LastFocused(now), ..vs[i] }),
        None => vs,
    }
}

/// No two entries belong to the same seat.
pub open spec fn seats_distinct(vs: Seq<FocusEntryView>) -> bool {
    forall|i: int, j: int| 0 <= i < j < vs.len() ==> vs[i].seat != vs[j].seat
}

proof fn lemma_first_of_seat(vs: Seq<FocusEntryView>, seat: Seq<char>, i: int)
    requires
        is_first_of_seat(vs, seat, i),
    ensures
        first_of_seat(vs, seat) == Some(i),
{
    let k = choose|k: int| is_first_of_seat(vs, seat, k);
    assert(is_first_of_seat(vs, seat, k));
    if k < i {
        assert(vs[k].seat != seat);
    } else if i < k {
        assert(vs[i].seat != seat);
    }
}

proof fn lemma_no_seat(vs: Seq<FocusEntryView>, seat: Seq<char>)
    requires
        forall|j: int| 0 <= j < vs.len() ==> vs[j].seat != seat,
    ensures
        first_of_seat(vs, seat) is None,
{
    if exists|i: int| is_first_of_seat(vs, seat, i) {
        let i = choose|i: int| is_first_of_seat(vs, seat, i);
        assert(vs[i].seat == seat);
    }
}

proof fn lemma_first_of_surface(vs: Seq<FocusEntryView>, surface: u64, i: int)
    requires
        is_first_of_surface(vs, surface, i),
    ensures
        first_of_surface(vs, surface) == Some(i),
{
    let k = choose|k: int| is_first_of_surface(vs, surface, k);
    assert(is_first_of_surface(vs, surface, k));
    if k < i {
        assert(vs[k].surface != surface);
    } else if i < k {
        assert(vs[i].surface != surface);
    }
}

proof fn lemma_no_surface(vs: Seq<FocusEntryView>, surface: u64)
    requires
        forall|j: int| 0 <= j < vs.len() ==> vs[j].surface != surface,
    ensures
        first_of_surface(vs, surface) is None,
{
    if exists|i: int| is_first_of_surface(vs, surface, i) {
        let i = choose|i: int| is_first_of_surface(vs, surface, i);
        assert(vs[i].surface == surface);
    }
}

/// Finds the first entry of seat `seat`.
pub fn find_seat_entry(entries: &Vec<FocusEntry>, seat: &str) -> (res: Option<usize>)
    ensures
        match res {
            Some(i) => first_of_seat(focus_views(entries@), seat@) == Some(i as int),
            None => first_of_seat(focus_views(entries@), seat@) is None,
        },
{
    let ghost vs = focus_views(entries@);
    let key = seat.to_owned();
    let mut i: usize = 0;
    while i < entries.len()
        invariant
            i <= entries@.len(),
            vs == focus_views(entries@),
            key@ == seat@,
            forall|j: int| 0 <= j < i ==> vs[j].seat != seat@,
        decreases entries@.len() - i,
    {
        if entries[i].seat == key {
            proof {
                lemma_first_of_seat(vs, seat@, i as int);
            }
            return Some(i);
        }
        i = i + 1;
    }
    proof {
        lemma_no_seat(vs, seat@);
    }
    None
}

/// Finds the first entry of surface `surface`.
pub fn find_surface_entry(entries: &Vec<FocusEntry>, surface: u64) -> (res: Option<usize>)
    ensures
        match res {
            Some(i) => first_of_surface(focus_views(entries@), surface) == Some(i as int),
            None => first_of_surface(focus_views(entries@), surface) is None,
        },
{
    let ghost vs = focus_views(entries@);
    let mut i: usize = 0;
    while i < entries.len()
        invariant
            i <= entries@.len(),
            vs == focus_views(entries@),
            forall|j: int| 0 <= j < i ==> vs[j].surface != surface,
        decreases entries@.len() - i,
    {
        if entries[i].surface == surface {
            proof {
                lemma_first_of_surface(vs, surface, i as int);
            }
            return Some(i);
        }
        i = i + 1;
    }
    proof {
        lemma_no_surface(vs, surface);
    }
    None
}

/// Seat `seat` entered (focused or hovered) surface `surface`.
pub fn focus_enter(entries: &mut Vec<FocusEntry>, surface: u64, seat: &str)
    ensures
        focus_views(final(entries)@) == entered(focus_views(old(entries)@), surface, seat@),
{
    let ghost vs = focus_views(entries@);
    let e = FocusEntry { surface, seat: seat.to_owned(), status: FocusStatus::Focused };
    match find_seat_entry(entries, seat) {
        Some(i) => {
            entries.set(i, e);
        },
        None => {
            entries.push(e);
        },
    }
    assert(focus_views(entries@) =~= entered(vs, surface, seat@));
}

/// Surface `surface` lost a focus at time `now`; returns whether an entry
/// names that surface.
pub fn focus_leave(entries: &mut Vec<FocusEntry>, surface: u64, now: u64) -> (found: bool)
    ensures
        found == (first_of_surface(focus_views(old(entries)@), surface) is Some),
        focus_views(final(entries)@) == left(focus_views(old(entries)@), surface, now),
{
    let ghost vs = focus_views(entries@);
    match find_surface_entry(entries, surface) {
        Some(i) => {
            let old_e = entries.remove(i);
            let e = FocusEntry {
                surface: old_e.surface,
                seat: old_e.seat,
                status: FocusStatus::LastFocused(now),
            };
            entries.insert(i, e);
            assert(focus_views(entries@) =~= left(vs, surface, now));
            true
        },
        None => {
            assert(focus_views(entries@) =~= left(vs, surface, now));
            false
        },
    }
}

/// The surface that seat `seat` focuses or last focused.
pub fn focused_surface_of(entries: &Vec<FocusEntry>, seat: &str) -> (res: Option<u64>)
    ensures
        res == match seat_focus(focus_views(entries@), seat@) {
            Some(f) => Some(f.0),
            None => None,
        },
{
    match find_seat_entry(entries, seat) {
        Some(i) => Some(entries[i].surface),
        None => None,
    }
}

/// After a seat enters a surface, that seat focuses that surface.
pub proof fn lemma_enter_then_focus(vs: Seq<FocusEntryView>, surface: u64, seat: Seq<char>)
    ensures
        seat_focus(entered(vs, surface, seat), seat) == Some((surface, FocusStatus::Focused)),
{
    let r = entered(vs, surface, seat);
    match first_of_seat(vs, seat) {
        Some(i) => {
            assert(is_first_of_seat(vs, seat, i));
            assert(is_first_of_seat(r, seat, i));
            lemma_first_of_seat(r, seat, i);
        },
        None => {
            assert forall|j: int| 0 <= j < vs.len() implies vs[j].seat != seat by {
                if vs[j].seat == seat {
                    lemma_least_seat(vs, seat, j);
                }
            }
            assert(is_first_of_seat(r, seat, vs.len() as int));
            lemma_first_of_seat(r, seat, vs.len() as int);
        },
    }
}

proof fn lemma_least_seat(vs: Seq<FocusEntryView>, seat: Seq<char>, j: int)
    requires
        0 <= j < vs.len(),
        vs[j].seat == seat,
    ensures
        exists|k: int| is_first_of_seat(vs, seat, k),
    decreases j,
{
    if forall|m: int| 0 <= m < j ==> vs[m].seat != seat {
        assert(is_first_of_seat(vs, seat, j));
    } else {
        let m = choose|m: int| 0 <= m < j && vs[m].seat == seat;
        lemma_least_seat(vs, seat, m);
    }
}

/// Entering keeps one entry per seat: a focus list that starts empty never
/// holds two entries of one seat.
pub proof fn lemma_enter_keeps_seats_distinct(vs: Seq<FocusEntryView>, surface: u64, seat: Seq<char>)
    requires
        seats_distinct(vs),
    ensures
        seats_distinct(entered(vs, surface, seat)),
{
    let r = entered(vs, surface, seat);
    match first_of_seat(vs, seat) {
        Some(i) => {
            assert(is_first_of_seat(vs, seat, i));
            assert forall|a: int, b: int| 0 <= a < b < r.len() implies r[a].seat != r[b].seat by {
                if a == i {
                    assert(vs[b].seat != vs[i].seat);
                } else if b == i {
                    assert(vs[a].seat != vs[i].seat);
                }
            }
        },
        None => {
            assert forall|j: int| 0 <= j < vs.len() implies vs[j].seat != seat by {
                if vs[j].seat == seat {
                    lemma_least_seat(vs, seat, j);
                }
            }
        },
    }
}

/// Losing a focus changes no entry's surface or seat, and no other entry.
pub proof fn lemma_leave_keeps_entries(vs: Seq<FocusEntryView>, surface: u64, now: u64)
    ensures
        left(vs, surface, now).len() == vs.len(),
        forall|i: int|
            0 <= i < vs.len() ==> #[trigger] left(vs, surface, now)[i].surface == vs[i].surface
                && left(vs, surface, now)[i].seat == vs[i].seat,
        forall|i: int|
            0 <= i < vs.len() && vs[i].surface != surface ==> #[trigger] left(vs, surface, now)[i]
                == vs[i],
{
    match first_of_surface(vs, surface) {
        Some(i) => {
            assert(is_first_of_surface(vs, surface, i));
        },
        None => {},
    }
}

/// The focus list after the status of seat `seat`'s entry became `status`.
pub open spec fn marked(vs: Seq<FocusEntryView>, seat: Seq<char>, status: FocusStatus) -> Seq<FocusEntryView> {
    match first_of_seat(vs, seat) {
        Some(i) => vs.update(i, FocusEntryView { status, ..vs[i] }),
        None => vs,
    }
}

/// A drag entered (`Focused`) or left (`LastFocused`) a surface of seat
/// `seat`: the seat's entry takes that status, its surface unchanged.
/// Returns whether the seat has an entry.
pub fn focus_mark_seat(entries: &mut Vec<FocusEntry>, seat: &str, status: FocusStatus) -> (found: bool)
    ensures
        found == (first_of_seat(focus_views(old(entries)@), seat@) is Some),
        focus_views(final(entries)@) == marked(focus_views(old(entries)@), seat@, status),
{
    let ghost vs = focus_views(entries@);
    match find_seat_entry(entries, seat) {
        Some(i) => {
            let old_e = entries.remove(i);
            entries.insert(i, FocusEntry { surface: old_e.surface, seat: old_e.seat, status });
            assert(focus_views(entries@) =~= marked(vs, seat@, status));
            true
        },
        None => {
            assert(focus_views(entries@) =~= marked(vs, seat@, status));
            false
        },
    }
}

} // verus!
