//! Seats of the desktop compositor and their counterparts on the embedded
//! compositor: which input devices each seat has on either side, and how
//! input of a desktop device finds its seat.

use vstd::prelude::*;

verus! {

/// The first position of `s` whose element satisfies `p`, if any.
pub open spec fn first_where<A>(s: Seq<A>, p: spec_fn(A) -> bool) -> Option<int> {
    if exists|i: int| is_first_where(s, p, i) {
        Some(choose|i: int| is_first_where(s, p, i))
    } else {
        None
    }
}

/// `i` is the first position of `s` whose element satisfies `p`.
pub open spec fn is_first_where<A>(s: Seq<A>, p: spec_fn(A) -> bool, i: int) -> bool {
    &&& 0 <= i < s.len()
    &&& p(s[i])
    &&& forall|j: int| 0 <= j < i ==> !p(#[trigger] s[j])
}

proof fn lemma_first_where<A>(s: Seq<A>, p: spec_fn(A) -> bool, i: int)
    requires
        is_first_where(s, p, i),
    ensures
        first_where(s, p) == Some(i),
{
    let k = choose|k: int| is_first_where(s, p, k);
    assert(is_first_where(s, p, k));
    if k < i {
        assert(!p(s[k]));
    } else if i < k {
        assert(!p(s[i]));
    }
}

proof fn lemma_none_where<A>(s: Seq<A>, p: spec_fn(A) -> bool)
    requires
        forall|j: int| 0 <= j < s.len() ==> !p(#[trigger] s[j]),
    ensures
        first_where(s, p) is None,
{
    if exists|i: int| is_first_where(s, p, i) {
        let i = choose|i: int| is_first_where(s, p, i);
        assert(p(s[i]));
    }
}

/// A seat of the desktop compositor paired with its embedded seat.
#[derive(Debug)]
pub struct SeatPair {
    /// name of the seat
    pub name: String,
    /// id of the desktop seat
    pub seat: u64,
    /// id of the desktop keyboard, if the seat got one
    pub kbd: Option<u64>,
    /// id of the desktop pointer, if the seat got one
    pub ptr: Option<u64>,
    /// the embedded seat has a keyboard
    pub server_kbd: bool,
    /// the embedded seat has a pointer
    pub server_ptr: bool,
}

/// A seat pair as a mathematical value.
pub struct SeatPairView {
    pub name: Seq<char>,
    pub seat: u64,
    pub kbd: Option<u64>,
    pub ptr: Option<u64>,
    pub server_kbd: bool,
    pub server_ptr: bool,
}

impl View for SeatPair {
    type V = SeatPairView;

    open spec fn view(&self) -> SeatPairView {
        SeatPairView {
            name: self.name@,
            seat: self.seat,
            kbd: self.kbd,
            ptr: self.ptr,
            server_kbd: self.server_kbd,
            server_ptr: self.server_ptr,
        }
    }
}

/// The seat pairs as mathematical values.
pub open spec fn seat_views(s: Seq<SeatPair>) -> Seq<SeatPairView> {
    s.map_values(|p: SeatPair| p@)
}

/// Capabilities of a seat.
#[derive(Clone, Copy, Debug, PartialEq, Eq, Structural)]
pub enum Capability {
    /// a keyboard
    Keyboard,
    /// a pointer
    Pointer,
    /// a touch screen
    Touch,
}

/// The first pair of the desktop seat `seat`.
pub open spec fn seat_index(vs: Seq<SeatPairView>, seat: u64) -> Option<int> {
    first_where(vs, |p: SeatPairView| p.seat == seat)
}

/// Finds the first pair of the desktop seat `seat`.
pub fn find_seat(seats: &Vec<SeatPair>, seat: u64) -> (res: Option<usize>)
    ensures
        match res {
            Some(i) => seat_index(seat_views(seats@), seat) == Some(i as int),
            None => seat_index(seat_views(seats@), seat) is None,
        },
{
    let ghost vs = seat_views(seats@);
    let ghost p = |q: SeatPairView| q.seat == seat;
    let mut i: usize = 0;
    while i < seats.len()
        invariant
            i <= seats@.len(),
            vs == seat_views(seats@),
            p == (|q: SeatPairView| q.seat == seat),
            forall|j: int| 0 <= j < i ==> !p(#[trigger] vs[j]),
        decreases seats@.len() - i,
    {
        if seats[i].seat == seat {
            proof {
                lemma_first_where(vs, p, i as int);
            }
            return Some(i);
        }
        i = i + 1;
    }
    proof {
        lemma_none_where(vs, p);
    }
    None
}

/// A new desktop seat `seat` named `name`, with the keyboard and the pointer
/// that could be obtained for it: the pair is added, and the embedded seat
/// gets a keyboard and a pointer where the desktop seat did.
pub fn new_seat(seats: &mut Vec<SeatPair>, seat: u64, name: String, kbd: Option<u64>, ptr: Option<u64>)
    ensures
        seat_views(final(seats)@) == seat_views(old(seats)@).push(
            SeatPairView {
                name: name@,
                seat,
                kbd,
                ptr,
                server_kbd: kbd is Some,
                server_ptr: ptr is Some,
            },
        ),
{
    let ghost before = seat_views(seats@);
    let server_kbd = kbd.is_some();
    let server_ptr = ptr.is_some();
    seats.push(SeatPair { name, seat, kbd, ptr, server_kbd, server_ptr });
    assert(seat_views(seats@) =~= before.push(seats@.last()@));
}

/// The pair after the desktop seat gained `capability`, where `available`
/// says whether the seat reports it and `device` is the device obtained for
/// it, if any: a keyboard or pointer is taken on both sides; touch is ignored.
pub open spec fn with_capability(p: SeatPairView, capability: Capability, available: bool, device: Option<
    u64,
>) -> SeatPairView {
    match (capability, available, device) {
        (Capability::Keyboard, true, Some(d)) => SeatPairView { kbd: Some(d), server_kbd: true, ..p },
        (Capability::Pointer, true, Some(d)) => SeatPairView { ptr: Some(d), server_ptr: true, ..p },
        _ => p,
    }
}

/// The pair after the desktop seat lost `capability`: the embedded seat
/// drops its keyboard or pointer.
pub open spec fn without_capability(p: SeatPairView, capability: Capability) -> SeatPairView {
    match capability {
        Capability::Keyboard => SeatPairView { server_kbd: false, ..p },
        Capability::Pointer => SeatPairView { server_ptr: false, ..p },
        Capability::Touch => p,
    }
}

fn replace_pair(seats: &mut Vec<SeatPair>, i: usize, p: SeatPair)
    requires
        i < old(seats)@.len(),
    ensures
        seat_views(final(seats)@) == seat_views(old(seats)@).update(i as int, p@),
{
    let ghost before = seat_views(seats@);
    seats.set(i, p);
    assert(seat_views(seats@) =~= before.update(i as int, p@));
}

/// The desktop seat `seat` gained `capability` (see `with_capability`);
/// nothing changes for an unknown seat.
pub fn new_capability(
    seats: &mut Vec<SeatPair>,
    seat: u64,
    capability: Capability,
    available: bool,
    device: Option<u64>,
)
    ensures
        seat_views(final(seats)@) == match seat_index(seat_views(old(seats)@), seat) {
            Some(i) => seat_views(old(seats)@).update(
                i,
                with_capability(seat_views(old(seats)@)[i], capability, available, device),
            ),
            None => seat_views(old(seats)@),
        },
{
    match find_seat(seats, seat) {
        Some(i) => {
            proof {
                assert(is_first_where(seat_views(seats@), |q: SeatPairView| q.seat == seat, i as int));
            }
            let old_p = seats.remove(i);
            let ghost pv = old_p@;
            let mut p = old_p;
            match (capability, available, device) {
                (Capability::Keyboard, true, Some(d)) => {
                    p.kbd = Some(d);
                    p.server_kbd = true;
                },
                (Capability::Pointer, true, Some(d)) => {
                    p.ptr = Some(d);
                    p.server_ptr = true;
                },
                _ => {},
            }
            let ghost mid = seat_views(seats@);
            seats.insert(i, p);
            proof {
                assert(p@ == with_capability(pv, capability, available, device));
                assert(seat_views(seats@) =~= seat_views(old(seats)@).update(i as int, p@));
            }
        },
        None => {},
    }
}

/// The desktop seat `seat` lost `capability` (see `without_capability`);
/// nothing changes for an unknown seat.
pub fn remove_capability(seats: &mut Vec<SeatPair>, seat: u64, capability: Capability)
    ensures
        seat_views(final(seats)@) == match seat_index(seat_views(old(seats)@), seat) {
            Some(i) => seat_views(old(seats)@).update(
                i,
                without_capability(seat_views(old(seats)@)[i], capability),
            ),
            None => seat_views(old(seats)@),
        },
{
    match find_seat(seats, seat) {
        Some(i) => {
            let mut p = seats.remove(i);
            let ghost pv = p@;
            match capability {
                Capability::Keyboard => {
                    p.server_kbd = false;
                },
                Capability::Pointer => {
                    p.server_ptr = false;
                },
                Capability::Touch => {},
            }
            seats.insert(i, p);
            proof {
                assert(p@ == without_capability(pv, capability));
                assert(seat_views(seats@) =~= seat_views(old(seats)@).update(i as int, p@));
            }
        },
        None => {},
    }
}

/// The pairs after the first pair of seat `seat` is removed: the last pair
/// takes its place.
pub open spec fn seat_removed(vs: Seq<SeatPairView>, i: int) -> Seq<SeatPairView> {
    if i == vs.len() - 1 {
        vs.drop_last()
    } else {
        vs.update(i, vs.last()).drop_last()
    }
}

/// The desktop seat `seat` went away: its first pair is removed, and the
/// last pair takes its place. Returns whether one was.
pub fn remove_seat(seats: &mut Vec<SeatPair>, seat: u64) -> (removed: bool)
    ensures
        removed == (seat_index(seat_views(old(seats)@), seat) is Some),
        seat_views(final(seats)@) == match seat_index(seat_views(old(seats)@), seat) {
            Some(i) => seat_removed(seat_views(old(seats)@), i),
            None => seat_views(old(seats)@),
        },
{
    match find_seat(seats, seat) {
        Some(i) => {
            let ghost before = seat_views(seats@);
            proof {
                assert(is_first_where(before, |q: SeatPairView| q.seat == seat, i as int));
            }
            let _ = seats.swap_remove(i);
            assert(seat_views(seats@) =~= seat_removed(before, i as int));
            true
        },
        None => false,
    }
}

/// The first pair whose desktop pointer is `pointer`, when its embedded seat
/// has both a pointer and a keyboard: the seat that a pointer frame goes to.
pub open spec fn pointer_seat(vs: Seq<SeatPairView>, pointer: u64) -> Option<int> {
    match first_where(vs, |p: SeatPairView| p.ptr == Some(pointer)) {
        Some(i) => if vs[i].server_ptr && vs[i].server_kbd {
            Some(i)
        } else {
            None
        },
        None => None,
    }
}

/// The first pair whose desktop keyboard is `keyboard`, when its embedded
/// seat has a keyboard: the seat that keyboard focus and key releases go to.
pub open spec fn keyboard_seat(vs: Seq<SeatPairView>, keyboard: u64) -> Option<int> {
    match first_where(vs, |p: SeatPairView| p.kbd == Some(keyboard)) {
        Some(i) => if vs[i].server_kbd {
            Some(i)
        } else {
            None
        },
        None => None,
    }
}

/// The seat that a key press of `keyboard` goes to: the first pair that has
/// any desktop keyboard, when that keyboard is `keyboard` and its embedded
/// seat has a keyboard.
pub open spec fn key_press_seat(vs: Seq<SeatPairView>, keyboard: u64) -> Option<int> {
    match first_where(vs, |p: SeatPairView| p.kbd is Some) {
        Some(i) => if vs[i].kbd == Some(keyboard) && vs[i].server_kbd {
            Some(i)
        } else {
            None
        },
        None => None,
    }
}

/// The seat that repeat information of `keyboard` goes to: the first pair
/// whose desktop keyboard is `keyboard` and whose embedded seat has one.
pub open spec fn repeat_info_seat(vs: Seq<SeatPairView>, keyboard: u64) -> Option<int> {
    first_where(vs, |p: SeatPairView| p.kbd == Some(keyboard) && p.server_kbd)
}

/// Finds the seat that a pointer frame of `pointer` goes to.
pub fn find_pointer_seat(seats: &Vec<SeatPair>, pointer: u64) -> (res: Option<usize>)
    ensures
        res matches Some(i) ==> pointer_seat(seat_views(seats@), pointer) == Some(i as int),
        res is None ==> pointer_seat(seat_views(seats@), pointer) is None,
{
    let ghost vs = seat_views(seats@);
    let ghost p = |q: SeatPairView| q.ptr == Some(pointer);
    let mut i: usize = 0;
    while i < seats.len()
        invariant
            i <= seats@.len(),
            vs == seat_views(seats@),
            p == (|q: SeatPairView| q.ptr == Some(pointer)),
            forall|j: int| 0 <= j < i ==> !p(#[trigger] vs[j]),
        decreases seats@.len() - i,
    {
        if seats[i].ptr == Some(pointer) {
            proof {
                lemma_first_where(vs, p, i as int);
            }
            if seats[i].server_ptr && seats[i].server_kbd {
                return Some(i);
            } else {
                return None;
            }
        }
        i = i + 1;
    }
    proof {
        lemma_none_where(vs, p);
    }
    None
}

/// Finds the seat that keyboard focus and key releases of `keyboard` go to.
pub fn find_keyboard_seat(seats: &Vec<SeatPair>, keyboard: u64) -> (res: Option<usize>)
    ensures
        res matches Some(i) ==> keyboard_seat(seat_views(seats@), keyboard) == Some(i as int),
        res is None ==> keyboard_seat(seat_views(seats@), keyboard) is None,
{
    let ghost vs = seat_views(seats@);
    let ghost p = |q: SeatPairView| q.kbd == Some(keyboard);
    let mut i: usize = 0;
    while i < seats.len()
        invariant
            i <= seats@.len(),
            vs == seat_views(seats@),
            p == (|q: SeatPairView| q.kbd == Some(keyboard)),
            forall|j: int| 0 <= j < i ==> !p(#[trigger] vs[j]),
        decreases seats@.len() - i,
    {
        if seats[i].kbd == Some(keyboard) {
            proof {
                lemma_first_where(vs, p, i as int);
            }
            if seats[i].server_kbd {
                return Some(i);
            } else {
                return None;
            }
        }
        i = i + 1;
    }
    proof {
        lemma_none_where(vs, p);
    }
    None
}

/// Finds the seat that a key press of `keyboard` goes to.
pub fn find_key_press_seat(seats: &Vec<SeatPair>, keyboard: u64) -> (res: Option<usize>)
    ensures
        res matches Some(i) ==> key_press_seat(seat_views(seats@), keyboard) == Some(i as int),
        res is None ==> key_press_seat(seat_views(seats@), keyboard) is None,
{
    let ghost vs = seat_views(seats@);
    let ghost p = |q: SeatPairView| q.kbd is Some;
    let mut i: usize = 0;
    while i < seats.len()
        invariant
            i <= seats@.len(),
            vs == seat_views(seats@),
            p == (|q: SeatPairView| q.kbd is Some),
            forall|j: int| 0 <= j < i ==> !p(#[trigger] vs[j]),
        decreases seats@.len() - i,
    {
        if seats[i].kbd.is_some() {
            proof {
                lemma_first_where(vs, p, i as int);
            }
            if seats[i].kbd == Some(keyboard) && seats[i].server_kbd {
                return Some(i);
            } else {
                return None;
            }
        }
        i = i + 1;
    }
    proof {
        lemma_none_where(vs, p);
    }
    None
}

/// Finds the seat that repeat information of `keyboard` goes to.
pub fn find_repeat_info_seat(seats: &Vec<SeatPair>, keyboard: u64) -> (res: Option<usize>)
    ensures
        res matches Some(i) ==> repeat_info_seat(seat_views(seats@), keyboard) == Some(i as int),
        res is None ==> repeat_info_seat(seat_views(seats@), keyboard) is None,
{
    let ghost vs = seat_views(seats@);
    let ghost p = |q: SeatPairView| q.kbd == Some(keyboard) && q.server_kbd;
    let mut i: usize = 0;
    while i < seats.len()
        invariant
            i <= seats@.len(),
            vs == seat_views(seats@),
            p == (|q: SeatPairView| q.kbd == Some(keyboard) && q.server_kbd),
            forall|j: int| 0 <= j < i ==> !p(#[trigger] vs[j]),
        decreases seats@.len() - i,
    {
        if seats[i].kbd == Some(keyboard) && seats[i].server_kbd {
            proof {
                lemma_first_where(vs, p, i as int);
            }
            return Some(i);
        }
        i = i + 1;
    }
    proof {
        lemma_none_where(vs, p);
    }
    None
}

/// Key repeat settings of the desktop keyboard.
#[derive(Clone, Copy, Debug, PartialEq, Eq, Structural)]
pub enum RepeatInfo {
    /// keys repeat `rate` times a second after `delay` milliseconds
    Repeat { rate: u32, delay: u32 },
    /// keys do not repeat
    Disable,
}

/// The repeat rate and delay given to the embedded keyboard: a disabled
/// repeat is a rate and delay of zero.
pub open spec fn repeat_values(info: RepeatInfo) -> (i32, i32) {
    match info {
        RepeatInfo::Repeat { rate, delay } => (rate as i32, delay as i32),
        RepeatInfo::Disable => (0, 0),
    }
}

/// The repeat rate and delay given to the embedded keyboard.
pub fn repeat_info_values(info: RepeatInfo) -> (res: (i32, i32))
    requires
        info matches RepeatInfo::Repeat { delay, .. } ==> delay <= i32::MAX,
    ensures
        res == repeat_values(info),
{
    match info {
        RepeatInfo::Repeat { rate, delay } => (rate as i32, delay as i32),
        RepeatInfo::Disable => (0, 0),
    }
}

/// The keysym of the Escape key.
pub const XKB_KEY_ESCAPE: u32 = 0xff1b;

/// A released key with modified keysym `keysym` is kept from the embedded
/// compositor, and then drops the keyboard focus, when it is Escape.
pub fn release_intercepted(keysym: u32) -> (res: bool)
    ensures
        res == (keysym == XKB_KEY_ESCAPE),
{
    keysym == XKB_KEY_ESCAPE
}

/// A seat of the desktop compositor as the event-callback generation of the
/// wrapper keeps it: whether it has bound the keyboard and the pointer.
#[derive(Debug)]
pub struct DesktopSeat {
    /// name of the seat
    pub name: String,
    /// a desktop keyboard is bound (and the embedded seat has a keyboard)
    pub has_kbd: bool,
    /// a desktop pointer is bound (and the embedded seat has a pointer)
    pub has_ptr: bool,
}

/// A desktop seat as a mathematical value: (name, keyboard bound, pointer bound).
pub open spec fn desktop_seat_views(s: Seq<DesktopSeat>) -> Seq<(Seq<char>, bool, bool)> {
    s.map_values(|d: DesktopSeat| (d.name@, d.has_kbd, d.has_ptr))
}

/// Finds the desktop seat named `name`.
pub fn find_desktop_seat(seats: &Vec<DesktopSeat>, name: &str) -> (res: Option<usize>)
    ensures
        res == match first_where(
            desktop_seat_views(seats@),
            |d: (Seq<char>, bool, bool)| d.0 == name@,
        ) {
            Some(k) => Some(k as usize),
            None => None::<usize>,
        },
        res matches Some(k) ==> k < seats@.len(),
{
    let ghost before = desktop_seat_views(seats@);
    let ghost p = |d: (Seq<char>, bool, bool)| d.0 == name@;
    let key = name.to_owned();
    let mut i: usize = 0;
    while i < seats.len()
        invariant
            i <= seats@.len(),
            before == desktop_seat_views(seats@),
            key@ == name@,
            p == (|d: (Seq<char>, bool, bool)| d.0 == name@),
            forall|j: int| 0 <= j < i ==> !p(#[trigger] before[j]),
        decreases seats@.len() - i,
    {
        if seats[i].name == key {
            proof {
                lemma_first_where(before, p, i as int);
            }
            return Some(i);
        }
        i = i + 1;
    }
    proof {
        lemma_none_where(before, p);
    }
    None
}

/// What the program does after a seat changed (`seat_handler`).
#[derive(Clone, Copy, Debug, PartialEq, Eq, Structural)]
pub struct SeatPlan {
    /// position of the seat in the list
    pub index: usize,
    /// a new seat was added to the list (with a new embedded seat)
    pub added: bool,
    /// bind a keyboard and add one to the embedded seat
    pub bind_keyboard: bool,
    /// bind a pointer and add one to the embedded seat
    pub bind_pointer: bool,
    /// release the keyboard and remove it from the embedded seat
    pub release_keyboard: bool,
    /// release the pointer and remove it from the embedded seat
    pub release_pointer: bool,
}

/// The seat named `name` changed: it is found, or added when it is unknown;
/// a seat that is not defunct and has a keyboard or a pointer binds both a
/// keyboard and a pointer where it has none yet, any other releases what it
/// has bound.
pub fn seat_handler(seats: &mut Vec<DesktopSeat>, name: &str, has_keyboard: bool, has_pointer: bool, defunct: bool)
    -> (plan: SeatPlan)
    requires
        old(seats)@.len() < usize::MAX,
    ensures
        ({
            let before = desktop_seat_views(old(seats)@);
            let found = first_where(before, |d: (Seq<char>, bool, bool)| d.0 == name@);
            let with_seat = match found {
                Some(_) => before,
                None => before.push((name@, false, false)),
            };
            let i = plan.index as int;
            let cur = with_seat[i];
            let keep = (has_keyboard || has_pointer) && !defunct;
            &&& plan.added == (found is None)
            &&& found matches Some(k) ==> i == k
            &&& found is None ==> i == before.len()
            &&& plan.bind_keyboard == (keep && !cur.1)
            &&& plan.bind_pointer == (keep && !cur.2)
            &&& plan.release_keyboard == (!keep && cur.1)
            &&& plan.release_pointer == (!keep && cur.2)
            &&& desktop_seat_views(final(seats)@) == with_seat.update(i, (name@, keep, keep))
        }),
{
    let ghost before = desktop_seat_views(seats@);
    let found = find_desktop_seat(seats, name);
    let i: usize = match found {
        Some(k) => k,
        None => {
            seats.push(DesktopSeat { name: name.to_owned(), has_kbd: false, has_ptr: false });
            proof {
                assert(desktop_seat_views(seats@) =~= before.push((name@, false, false)));
            }
            seats.len() - 1
        },
    };
    let ghost with_seat = desktop_seat_views(seats@);
    let keep = (has_keyboard || has_pointer) && !defunct;
    let cur_kbd = seats[i].has_kbd;
    let cur_ptr = seats[i].has_ptr;
    let s = DesktopSeat { name: name.to_owned(), has_kbd: keep, has_ptr: keep };
    seats.set(i, s);
    proof {
        assert(desktop_seat_views(seats@) =~= with_seat.update(i as int, (name@, keep, keep)));
    }
    SeatPlan {
        index: i,
        added: found.is_none(),
        bind_keyboard: keep && !cur_kbd,
        bind_pointer: keep && !cur_ptr,
        release_keyboard: !keep && cur_kbd,
        release_pointer: !keep && cur_ptr,
    }
}

/// A seat found when the wrapper connects: it binds a keyboard when it has
/// one and is not defunct, and a pointer likewise; it is added to the list.
/// Returns whether a keyboard and a pointer are bound.
pub fn initial_seat(seats: &mut Vec<DesktopSeat>, name: &str, has_keyboard: bool, has_pointer: bool, defunct: bool)
    -> (res: (bool, bool))
    ensures
        res == (has_keyboard && !defunct, has_pointer && !defunct),
        desktop_seat_views(final(seats)@) == desktop_seat_views(old(seats)@).push(
            (name@, has_keyboard && !defunct, has_pointer && !defunct),
        ),
{
    let ghost before = desktop_seat_views(seats@);
    let kbd = has_keyboard && !defunct;
    let ptr = has_pointer && !defunct;
    seats.push(DesktopSeat { name: name.to_owned(), has_kbd: kbd, has_ptr: ptr });
    assert(desktop_seat_views(seats@) =~= before.push((name@, kbd, ptr)));
    (kbd, ptr)
}

} // verus!
