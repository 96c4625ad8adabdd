use vstd::pervasive::VecAdditionalExecFns;
use vstd::prelude::*;

verus! {

/// Number of controller slots.
pub const SLOT_COUNT: usize = 6;

/// A controller held in a slot.
#[derive(Debug, Clone)]
pub struct JoystickSlot {
    /// Stable id of the controller.
    pub uuid: String,
    pub name: String,
    /// Id of the device while it is attached.
    pub device: usize,
    /// Locked to this slot.
    pub locked: bool,
    pub connected: bool,
}

/// Mathematical form of a [`JoystickSlot`].
pub struct SlotView {
    pub uuid: Seq<char>,
    pub name: Seq<char>,
    pub device: usize,
    pub locked: bool,
    pub connected: bool,
}

impl View for JoystickSlot {
    type V = SlotView;

    open spec fn view(&self) -> SlotView {
        SlotView {
            uuid: self.uuid@,
            name: self.name@,
            device: self.device,
            locked: self.locked,
            connected: self.connected,
        }
    }
}

/// Hat angle of a direction pad: 0 up, then clockwise in steps of 45
/// degrees for the single directions and the adjacent pairs; -1 when no
/// direction, or no such combination, is pressed.
pub open spec fn spec_dpad_pov(up: bool, right: bool, down: bool, left: bool) -> i16 {
    if up && !right && !down && !left {
        0
    } else if up && right && !down && !left {
        45
    } else if !up && right && !down && !left {
        90
    } else if !up && right && down && !left {
        135
    } else if !up && !right && down && !left {
        180
    } else if !up && !right && down && left {
        225
    } else if !up && !right && !down && left {
        270
    } else if up && !right && !down && left {
        315
    } else {
        -1i16
    }
}

/// Hat angle of a direction pad from its four buttons.
pub fn dpad_pov(up: bool, right: bool, down: bool, left: bool) -> (r: i16)
    ensures
        r == spec_dpad_pov(up, right, down, left),
{
    match (up, right, down, left) {
        (true, false, false, false) => 0,
        (true, true, false, false) => 45,
        (false, true, false, false) => 90,
        (false, true, true, false) => 135,
        (false, false, true, false) => 180,
        (false, false, true, true) => 225,
        (false, false, false, true) => 270,
        (true, false, false, true) => 315,
        _ => -1,
    }
}

/// Information about a slot's controller for display.
#[derive(Debug, Clone)]
pub struct JoystickInfo {
    pub slot: u8,
    pub uuid: String,
    pub name: String,
    pub locked: bool,
    pub connected: bool,
    pub axis_count: u8,
    pub button_count: u8,
    pub pov_count: u8,
}

pub open spec fn slot_view(s: Option<JoystickSlot>) -> Option<SlotView> {
    match s {
        Some(j) => Some(j@),
        None => None,
    }
}

pub open spec fn slots_view(s: Seq<Option<JoystickSlot>>) -> Seq<Option<SlotView>> {
    s.map_values(|o: Option<JoystickSlot>| slot_view(o))
}

pub open spec fn locks_view(l: Seq<(String, u8)>) -> Seq<(Seq<char>, u8)> {
    l.map_values(|e: (String, u8)| (e.0@, e.1))
}

/// Slot `i` holds the controller `uuid`.
pub open spec fn holds(slots: Seq<Option<SlotView>>, i: int, uuid: Seq<char>) -> bool {
    slots[i] matches Some(s) && s.uuid == uuid
}

/// Slot `i` holds the device `device`.
pub open spec fn holds_device(slots: Seq<Option<SlotView>>, i: int, device: usize) -> bool {
    slots[i] matches Some(s) && s.device == device
}

/// First slot at or after `from` that holds `uuid`.
pub open spec fn find_uuid(slots: Seq<Option<SlotView>>, uuid: Seq<char>, from: int) -> Option<int>
    decreases slots.len() - from,
{
    if from < 0 || from >= slots.len() {
        None
    } else if holds(slots, from, uuid) {
        Some(from)
    } else {
        find_uuid(slots, uuid, from + 1)
    }
}

/// First empty slot at or after `from`.
pub open spec fn find_empty(slots: Seq<Option<SlotView>>, from: int) -> Option<int>
    decreases slots.len() - from,
{
    if from < 0 || from >= slots.len() {
        None
    } else if slots[from] is None {
        Some(from)
    } else {
        find_empty(slots, from + 1)
    }
}

/// The slot that the last lock entry for `uuid` names.
pub open spec fn lock_of(locks: Seq<(Seq<char>, u8)>, uuid: Seq<char>) -> Option<u8>
    decreases locks.len(),
{
    if locks.len() == 0 {
        None
    } else if locks.last().0 == uuid {
        Some(locks.last().1)
    } else {
        lock_of(locks.drop_last(), uuid)
    }
}

/// The lock entries for other controllers than `uuid`.
pub open spec fn without_lock(locks: Seq<(Seq<char>, u8)>, uuid: Seq<char>) -> Seq<(Seq<char>, u8)>
    decreases locks.len(),
{
    if locks.len() == 0 {
        locks
    } else if locks.last().0 == uuid {
        without_lock(locks.drop_last(), uuid)
    } else {
        without_lock(locks.drop_last(), uuid).push(locks.last())
    }
}

proof fn lemma_find_uuid(slots: Seq<Option<SlotView>>, uuid: Seq<char>, from: int)
    requires
        from >= 0,
    ensures
        match find_uuid(slots, uuid, from) {
            Some(i) => from <= i < slots.len() && holds(slots, i, uuid),
            None => true,
        },
    decreases slots.len() - from,
{
    if from < slots.len() && !holds(slots, from, uuid) {
        lemma_find_uuid(slots, uuid, from + 1);
    }
}

proof fn lemma_find_device(slots: Seq<Option<SlotView>>, device: usize, from: int)
    requires
        from >= 0,
    ensures
        match find_device(slots, device, from) {
            Some(i) => from <= i < slots.len() && holds_device(slots, i, device),
            None => true,
        },
    decreases slots.len() - from,
{
    if from < slots.len() && !holds_device(slots, from, device) {
        lemma_find_device(slots, device, from + 1);
    }
}

proof fn lemma_find_empty(slots: Seq<Option<SlotView>>, from: int)
    requires
        from >= 0,
    ensures
        match find_empty(slots, from) {
            Some(i) => from <= i < slots.len() && slots[i] is None,
            None => true,
        },
    decreases slots.len() - from,
{
    if from < slots.len() && slots[from] is Some {
        lemma_find_empty(slots, from + 1);
    }
}

proof fn lemma_place_ordered_len(cur: Seq<Option<SlotView>>, order: Seq<Seq<char>>)
    ensures
        place_ordered(cur, order).1.len() == order.len(),
    decreases order.len(),
{
    if order.len() > 0 {
        lemma_place_ordered_len(cur, order.drop_last());
    }
}

pub open spec fn names_view(names: Seq<String>) -> Seq<Seq<char>> {
    names.map_values(|s: String| s@)
}

/// No controller has two lock entries.
pub open spec fn locks_unique(locks: Seq<(Seq<char>, u8)>) -> bool {
    forall|i: int, j: int| 0 <= i < j < locks.len() ==> locks[i].0 != locks[j].0
}

/// Dropping the entries of `uuid` keeps only entries of the list, none for
/// `uuid`, and keeps the keys unique.
proof fn lemma_without_lock(locks: Seq<(Seq<char>, u8)>, uuid: Seq<char>)
    ensures
        forall|k: int|
            0 <= k < without_lock(locks, uuid).len() ==> #[trigger] without_lock(locks, uuid)[k].0
                != uuid && exists|j: int|
                0 <= j < locks.len() && locks[j] == without_lock(locks, uuid)[k],
        locks_unique(locks) ==> locks_unique(without_lock(locks, uuid)),
    decreases locks.len(),
{
    if locks.len() > 0 {
        let init = locks.drop_last();
        lemma_without_lock(init, uuid);
        let w = without_lock(init, uuid);
        assert forall|k: int| 0 <= k < w.len() implies exists|j: int|
            0 <= j < locks.len() && locks[j] == #[trigger] w[k] by {
            assert(without_lock(init, uuid)[k].0 != uuid);
            let j = choose|j: int| 0 <= j < init.len() && init[j] == w[k];
            assert(locks[j] == init[j]);
        }
        if locks.last().0 != uuid {
            let r = w.push(locks.last());
            assert forall|k: int| 0 <= k < r.len() implies exists|j: int|
                0 <= j < locks.len() && locks[j] == #[trigger] r[k] by {
                if k == w.len() {
                    assert(locks[locks.len() - 1] == r[k]);
                } else {
                    assert(r[k] == w[k]);
                }
            }
            if locks_unique(locks) {
                assert(locks_unique(init)) by {
                    assert forall|i: int, j: int| 0 <= i < j < init.len() implies init[i].0
                        != init[j].0 by {
                        assert(init[i] == locks[i] && init[j] == locks[j]);
                    }
                }
                assert forall|i: int, j: int| 0 <= i < j < r.len() implies r[i].0 != r[j].0 by {
                    if j == w.len() {
                        assert(without_lock(init, uuid)[i].0 != uuid);
                        let jj = choose|jj: int| 0 <= jj < init.len() && init[jj] == w[i];
                        assert(locks[jj] == init[jj]);
                    } else {
                        assert(r[i] == w[i] && r[j] == w[j]);
                    }
                }
            }
        } else if locks_unique(locks) {
            assert forall|i: int, j: int| 0 <= i < j < init.len() implies init[i].0 != init[j].0 by {
                assert(init[i] == locks[i] && init[j] == locks[j]);
            }
        }
    }
}

/// Mathematical state of [`JoystickSlots`].
pub struct JoystickSlotsView {
    pub slots: Seq<Option<SlotView>>,
    pub locks: Seq<(Seq<char>, u8)>,
}

/// Assignment of controllers to the six slots, with the slots that
/// controllers are locked to.
///
/// The locks are a list of (controller id, slot) pairs that acts as a map:
/// the last entry for an id counts, and locking or unlocking an id first
/// drops its entries, so ids stay unique once they are. A list rather than
/// a `HashMap` because vstd specifies `HashMap` only for keys that obey its
/// key model, which `String` does not, so a `String`-keyed map would carry
/// no contract.
pub struct JoystickSlots {
    slots: Vec<Option<JoystickSlot>>,
    locks: Vec<(String, u8)>,
}

impl View for JoystickSlots {
    type V = JoystickSlotsView;

    closed spec fn view(&self) -> JoystickSlotsView {
        JoystickSlotsView { slots: slots_view(self.slots@), locks: locks_view(self.locks@) }
    }
}

/// A controller newly attached: its id, name and device.
pub open spec fn new_slot(uuid: Seq<char>, name: Seq<char>, device: usize, locked: bool) -> SlotView {
    SlotView { uuid, name, device, locked, connected: true }
}

/// The slots after the controller `uuid` attaches as `device`: a known
/// controller is marked connected where it is; a new one goes to the slot it
/// is locked to, else to the first empty slot, else nowhere.
pub open spec fn spec_connect(
    v: JoystickSlotsView,
    uuid: Seq<char>,
    name: Seq<char>,
    device: usize,
) -> Seq<Option<SlotView>> {
    match find_uuid(v.slots, uuid, 0) {
        Some(i) => v.slots.update(
            i,
            Some(SlotView { connected: true, device, ..v.slots[i]->0 }),
        ),
        None => match lock_of(v.locks, uuid) {
            Some(p) if (p as int) < v.slots.len() => v.slots.update(
                p as int,
                Some(new_slot(uuid, name, device, true)),
            ),
            _ => match find_empty(v.slots, 0) {
                Some(e) => v.slots.update(e, Some(new_slot(uuid, name, device, false))),
                None => v.slots,
            },
        },
    }
}

/// First slot holding `device`.
pub open spec fn find_device(slots: Seq<Option<SlotView>>, device: usize, from: int) -> Option<int>
    decreases slots.len() - from,
{
    if from < 0 || from >= slots.len() {
        None
    } else if holds_device(slots, from, device) {
        Some(from)
    } else {
        find_device(slots, device, from + 1)
    }
}

/// The slots after `device` detaches: a locked controller keeps its slot,
/// marked disconnected; another leaves its slot.
pub open spec fn spec_disconnect(slots: Seq<Option<SlotView>>, device: usize) -> Seq<Option<SlotView>> {
    match find_device(slots, device, 0) {
        Some(i) => if slots[i]->0.locked {
            slots.update(i, Some(SlotView { connected: false, ..slots[i]->0 }))
        } else {
            slots.update(i, None)
        },
        None => slots,
    }
}

/// Take the first controller `uuid` out of `cur`.
pub open spec fn take_uuid(cur: Seq<Option<SlotView>>, uuid: Seq<char>) -> (Seq<Option<SlotView>>, Option<SlotView>) {
    match find_uuid(cur, uuid, 0) {
        Some(i) => (cur.update(i, None), cur[i]),
        None => (cur, None),
    }
}

/// Place the controllers named by `order` into slots 0, 1, ... in that
/// order, taking each out of `cur`.
pub open spec fn place_ordered(cur: Seq<Option<SlotView>>, order: Seq<Seq<char>>) -> (Seq<Option<SlotView>>, Seq<Option<SlotView>>)
    decreases order.len(),
{
    if order.len() == 0 {
        (cur, Seq::empty())
    } else {
        let (c1, placed) = place_ordered(cur, order.drop_last());
        let (c2, got) = take_uuid(c1, order.last());
        (c2, placed.push(got))
    }
}

/// Put the controllers left in `rest[from..]`, in slot order, into the
/// empty slots of `new`, in order, while there are empty slots.
pub open spec fn fill_empty(new: Seq<Option<SlotView>>, rest: Seq<Option<SlotView>>, from: int) -> Seq<Option<SlotView>>
    decreases rest.len() - from,
{
    if from < 0 || from >= rest.len() {
        new
    } else {
        match rest[from] {
            Some(s) => match find_empty(new, 0) {
                Some(e) => fill_empty(new.update(e, Some(s)), rest, from + 1),
                None => fill_empty(new, rest, from + 1),
            },
            None => fill_empty(new, rest, from + 1),
        }
    }
}

/// The slots after reordering by `order`: the controllers it names (at most
/// six) take slots 0, 1, ... in turn; the others keep their relative order
/// in the slots left empty.
pub open spec fn spec_reorder(slots: Seq<Option<SlotView>>, order: Seq<Seq<char>>) -> Seq<Option<SlotView>> {
    let first = if order.len() <= SLOT_COUNT {
        order
    } else {
        order.take(SLOT_COUNT as int)
    };
    let (rest, placed) = place_ordered(slots, first);
    let padded = placed + Seq::new((SLOT_COUNT - placed.len()) as nat, |i: int| None::<SlotView>);
    fill_empty(padded, rest, 0)
}


/// Mathematical form of a [`JoystickInfo`].
pub struct InfoView {
    pub slot: u8,
    pub uuid: Seq<char>,
    pub name: Seq<char>,
    pub locked: bool,
    pub connected: bool,
    pub axis_count: u8,
    pub button_count: u8,
    pub pov_count: u8,
}

impl View for JoystickInfo {
    type V = InfoView;

    open spec fn view(&self) -> InfoView {
        InfoView {
            slot: self.slot,
            uuid: self.uuid@,
            name: self.name@,
            locked: self.locked,
            connected: self.connected,
            axis_count: self.axis_count,
            button_count: self.button_count,
            pov_count: self.pov_count,
        }
    }
}

/// Display information for each occupied slot, in slot order. Every
/// controller reports the standard layout: 6 axes, 10 buttons, 1 hat.
pub open spec fn spec_infos(slots: Seq<Option<SlotView>>) -> Seq<InfoView>
    decreases slots.len(),
{
    if slots.len() == 0 {
        Seq::empty()
    } else {
        let before = spec_infos(slots.drop_last());
        match slots.last() {
            Some(s) => before.push(
                InfoView {
                    slot: (slots.len() - 1) as u8,
                    uuid: s.uuid,
                    name: s.name,
                    locked: s.locked,
                    connected: s.connected,
                    axis_count: 6,
                    button_count: 10,
                    pov_count: 1,
                },
            ),
            None => before,
        }
    }
}

/// A slot with the controller `uuid` marked locked (`lock`) or unlocked.
pub open spec fn with_lock(s: Option<SlotView>, uuid: Seq<char>, lock: bool) -> Option<SlotView> {
    match s {
        Some(j) => if j.uuid == uuid {
            Some(SlotView { locked: lock, ..j })
        } else {
            s
        },
        None => None,
    }
}

/// The slots with the controller `uuid` locked (`lock`) or unlocked.
pub open spec fn spec_set_locked(slots: Seq<Option<SlotView>>, uuid: Seq<char>, lock: bool) -> Seq<Option<SlotView>> {
    Seq::new(slots.len(), |i: int| with_lock(slots[i], uuid, lock))
}

/// A slot kept only if its controller is locked.
pub open spec fn keep_locked(s: Option<SlotView>) -> Option<SlotView> {
    match s {
        Some(j) => if j.locked {
            s
        } else {
            None
        },
        None => None,
    }
}

/// The state after locking controller `uuid` to `slot`: only when that slot
/// holds it. The lock list keeps one entry for the controller.
pub open spec fn spec_lock(v: JoystickSlotsView, uuid: Seq<char>, slot: u8) -> JoystickSlotsView {
    if (slot as int) < v.slots.len() && holds(v.slots, slot as int, uuid) {
        JoystickSlotsView {
            slots: v.slots.update(
                slot as int,
                Some(SlotView { locked: true, ..v.slots[slot as int]->0 }),
            ),
            locks: without_lock(v.locks, uuid).push((uuid, slot)),
        }
    } else {
        v
    }
}

fn position_of(slots: &Vec<Option<JoystickSlot>>, uuid: &String) -> (r: Option<usize>)
    ensures
        match r {
            Some(i) => find_uuid(slots_view(slots@), uuid@, 0) == Some(i as int) && i < slots@.len(),
            None => find_uuid(slots_view(slots@), uuid@, 0) is None,
        },
{
    let ghost v = slots_view(slots@);
    let mut i: usize = 0;
    while i < slots.len()
        invariant
            v == slots_view(slots@),
            i <= slots@.len(),
            find_uuid(v, uuid@, 0) == find_uuid(v, uuid@, i as int),
        decreases slots@.len() - i,
    {
        let hit = match &slots[i] {
            Some(js) => js.uuid == *uuid,
            None => false,
        };
        if hit {
            return Some(i);
        }
        i = i + 1;
    }
    None
}

fn device_position(slots: &Vec<Option<JoystickSlot>>, device: usize) -> (r: Option<usize>)
    ensures
        match r {
            Some(i) => find_device(slots_view(slots@), device, 0) == Some(i as int) && i < slots@.len(),
            None => find_device(slots_view(slots@), device, 0) is None,
        },
{
    let ghost v = slots_view(slots@);
    let mut i: usize = 0;
    while i < slots.len()
        invariant
            v == slots_view(slots@),
            i <= slots@.len(),
            find_device(v, device, 0) == find_device(v, device, i as int),
        decreases slots@.len() - i,
    {
        let hit = match &slots[i] {
            Some(js) => js.device == device,
            None => false,
        };
        if hit {
            return Some(i);
        }
        i = i + 1;
    }
    None
}

fn empty_position(slots: &Vec<Option<JoystickSlot>>) -> (r: Option<usize>)
    ensures
        match r {
            Some(i) => find_empty(slots_view(slots@), 0) == Some(i as int) && i < slots@.len(),
            None => find_empty(slots_view(slots@), 0) is None,
        },
{
    let ghost v = slots_view(slots@);
    let mut i: usize = 0;
    while i < slots.len()
        invariant
            v == slots_view(slots@),
            i <= slots@.len(),
            find_empty(v, 0) == find_empty(v, i as int),
        decreases slots@.len() - i,
    {
        if slots[i].is_none() {
            return Some(i);
        }
        i = i + 1;
    }
    None
}

fn locked_slot(locks: &Vec<(String, u8)>, uuid: &String) -> (r: Option<u8>)
    ensures
        r == lock_of(locks_view(locks@), uuid@),
{
    let ghost v = locks_view(locks@);
    let mut i: usize = locks.len();
    proof {
        assert(v.take(i as int) =~= v);
    }
    while i > 0
        invariant
            v == locks_view(locks@),
            i <= locks@.len(),
            lock_of(v, uuid@) == lock_of(v.take(i as int), uuid@),
        decreases i,
    {
        i = i - 1;
        proof {
            assert(v.take(i + 1).drop_last() =~= v.take(i as int));
        }
        if locks[i].0 == *uuid {
            return Some(locks[i].1);
        }
    }
    proof {
        assert(v.take(0) =~= Seq::<(Seq<char>, u8)>::empty());
    }
    None
}

fn drop_lock(locks: &Vec<(String, u8)>, uuid: &String) -> (r: Vec<(String, u8)>)
    ensures
        locks_view(r@) == without_lock(locks_view(locks@), uuid@),
{
    let ghost v = locks_view(locks@);
    let mut kept: Vec<(String, u8)> = Vec::new();
    let mut i: usize = 0;
    while i < locks.len()
        invariant
            v == locks_view(locks@),
            i <= locks@.len(),
            locks_view(kept@) == without_lock(v.take(i as int), uuid@),
        decreases locks@.len() - i,
    {
        proof {
            assert(v.take(i + 1).drop_last() =~= v.take(i as int));
        }
        if locks[i].0 != *uuid {
            let ghost before = kept@;
            kept.push((locks[i].0.clone(), locks[i].1));
            proof {
                assert(locks_view(kept@) =~= locks_view(before).push(v[i as int]));
            }
        }
        i = i + 1;
    }
    proof {
        assert(v.take(locks@.len() as int) =~= v);
    }
    kept
}

impl JoystickSlots {
    /// Six empty slots, with the given locks.
    pub fn new(locks: Vec<(String, u8)>) -> (r: JoystickSlots)
        ensures
            r@.slots == Seq::new(SLOT_COUNT as nat, |i: int| None::<SlotView>),
            r@.locks == locks_view(locks@),
    {
        let mut slots: Vec<Option<JoystickSlot>> = Vec::new();
        let mut i: usize = 0;
        while i < SLOT_COUNT
            invariant
                i <= SLOT_COUNT,
                slots@.len() == i,
                forall|k: int| 0 <= k < i ==> slots@[k] is None,
            decreases SLOT_COUNT - i,
        {
            slots.push(None);
            i = i + 1;
        }
        proof {
            assert(slots_view(slots@) =~= Seq::new(SLOT_COUNT as nat, |i: int| None::<SlotView>));
        }
        JoystickSlots { slots, locks }
    }

    /// A controller attached: `uuid` and `name` identify it, `device` is its
    /// current device id.
    pub fn on_device_connected(&mut self, uuid: String, name: String, device: usize)
        ensures
            final(self)@.slots == spec_connect(old(self)@, uuid@, name@, device),
            final(self)@.locks == old(self)@.locks,
    {
        let ghost v = self@;
        proof {
            lemma_find_uuid(v.slots, uuid@, 0);
            lemma_find_empty(v.slots, 0);
        }
        match position_of(&self.slots, &uuid) {
            Some(i) => {
                let mut cell: Option<JoystickSlot> = None;
                self.slots.set_and_swap(i, &mut cell);
                if let Some(mut js) = cell {
                    js.connected = true;
                    js.device = device;
                    self.slots.set(i, Some(js));
                }
                proof {
                    assert(slots_view(self.slots@) =~= spec_connect(v, uuid@, name@, device));
                }
            },
            None => {
                let preferred = locked_slot(&self.locks, &uuid);
                let target: Option<(usize, bool)> = match preferred {
                    Some(p) if (p as usize) < self.slots.len() => Some((p as usize, true)),
                    _ => match empty_position(&self.slots) {
                        Some(e) => Some((e, false)),
                        None => None,
                    },
                };
                if let Some((t, locked)) = target {
                    self.slots.set(t, Some(JoystickSlot { uuid, name, device, locked, connected: true }));
                }
                proof {
                    assert(slots_view(self.slots@) =~= spec_connect(v, uuid@, name@, device));
                }
            },
        }
    }

    /// A device detached.
    pub fn on_device_disconnected(&mut self, device: usize)
        ensures
            final(self)@.slots == spec_disconnect(old(self)@.slots, device),
            final(self)@.locks == old(self)@.locks,
    {
        let ghost v = self@;
        proof {
            lemma_find_device(v.slots, device, 0);
        }
        if let Some(i) = device_position(&self.slots, device) {
            let mut cell: Option<JoystickSlot> = None;
            self.slots.set_and_swap(i, &mut cell);
            if let Some(mut js) = cell {
                if js.locked {
                    js.connected = false;
                    self.slots.set(i, Some(js));
                }
            }
            proof {
                assert(slots_view(self.slots@) =~= spec_disconnect(v.slots, device));
            }
        }
    }

    /// Lock the controller `uuid` to `slot`, if it is there.
    pub fn lock(&mut self, uuid: &str, slot: u8)
        ensures
            final(self)@ == spec_lock(old(self)@, uuid@, slot),
            locks_unique(old(self)@.locks) ==> locks_unique(final(self)@.locks),
    {
        proof {
            lemma_without_lock(self@.locks, uuid@);
        }
        let ghost v = self@;
        let key = uuid.to_owned();
        let s = slot as usize;
        if s < self.slots.len() {
            let here = match &self.slots[s] {
                Some(js) => js.uuid == key,
                None => false,
            };
            if here {
                let mut cell: Option<JoystickSlot> = None;
                self.slots.set_and_swap(s, &mut cell);
                if let Some(mut js) = cell {
                    js.locked = true;
                    self.slots.set(s, Some(js));
                }
                let mut locks = drop_lock(&self.locks, &key);
                let ghost dropped = locks@;
                locks.push((key, slot));
                self.locks = locks;
                proof {
                    assert(locks_view(self.locks@) =~= locks_view(dropped).push((uuid@, slot)));
                    assert(slots_view(self.slots@) =~= spec_lock(v, uuid@, slot).slots);
                }
            }
        }
    }

    /// Unlock the controller `uuid`: it keeps its slot but may be moved.
    pub fn unlock(&mut self, uuid: &str)
        ensures
            final(self)@.slots == spec_set_locked(old(self)@.slots, uuid@, false),
            final(self)@.locks == without_lock(old(self)@.locks, uuid@),
            locks_unique(old(self)@.locks) ==> locks_unique(final(self)@.locks),
    {
        proof {
            lemma_without_lock(self@.locks, uuid@);
        }
        let ghost v = self@;
        let key = uuid.to_owned();
        self.locks = drop_lock(&self.locks, &key);
        let mut i: usize = 0;
        while i < self.slots.len()
            invariant
                i <= self.slots@.len(),
                self.slots@.len() == v.slots.len(),
                forall|k: int|
                    0 <= k < v.slots.len() ==> #[trigger] slots_view(self.slots@)[k] == if k < i {
                        with_lock(v.slots[k], uuid@, false)
                    } else {
                        v.slots[k]
                    },
                locks_view(self.locks@) == without_lock(v.locks, uuid@),
                key@ == uuid@,
            decreases v.slots.len() - i,
        {
            let ghost old_slots = self.slots@;
            proof {
                assert(slots_view(old_slots)[i as int] == v.slots[i as int]);
            }
            let mut cell: Option<JoystickSlot> = None;
            self.slots.set_and_swap(i, &mut cell);
            if let Some(mut js) = cell {
                if js.uuid == key {
                    js.locked = false;
                }
                self.slots.set(i, Some(js));
            }
            proof {
                assert forall|k: int| 0 <= k < v.slots.len() implies #[trigger] slots_view(self.slots@)[k] == if k < i + 1 {
                    with_lock(v.slots[k], uuid@, false)
                } else {
                    v.slots[k]
                } by {
                    if k != i {
                        assert(self.slots@[k] == old_slots[k]);
                        assert(slots_view(old_slots)[k] == slots_view(self.slots@)[k]);
                    }
                }
            }
            i = i + 1;
        }
        proof {
            assert(slots_view(self.slots@) =~= spec_set_locked(v.slots, uuid@, false));
        }
    }

    /// Empty every slot whose controller is not locked, before a rescan.
    pub fn clear_unlocked(&mut self)
        ensures
            final(self)@.slots == Seq::new(
                old(self)@.slots.len(),
                |i: int| keep_locked(old(self)@.slots[i]),
            ),
            final(self)@.locks == old(self)@.locks,
    {
        let ghost v = self@;
        let mut i: usize = 0;
        while i < self.slots.len()
            invariant
                i <= self.slots@.len(),
                self.slots@.len() == v.slots.len(),
                forall|k: int|
                    0 <= k < v.slots.len() ==> #[trigger] slots_view(self.slots@)[k] == if k < i {
                        keep_locked(v.slots[k])
                    } else {
                        v.slots[k]
                    },
                locks_view(self.locks@) == v.locks,
            decreases v.slots.len() - i,
        {
            let ghost old_slots = self.slots@;
            proof {
                assert(slots_view(old_slots)[i as int] == v.slots[i as int]);
            }
            let mut cell: Option<JoystickSlot> = None;
            self.slots.set_and_swap(i, &mut cell);
            if let Some(js) = cell {
                if js.locked {
                    self.slots.set(i, Some(js));
                }
            }
            proof {
                assert forall|k: int| 0 <= k < v.slots.len() implies #[trigger] slots_view(self.slots@)[k] == if k < i + 1 {
                    keep_locked(v.slots[k])
                } else {
                    v.slots[k]
                } by {
                    if k != i {
                        assert(self.slots@[k] == old_slots[k]);
                        assert(slots_view(old_slots)[k] == slots_view(self.slots@)[k]);
                    }
                }
            }
            i = i + 1;
        }
        proof {
            assert(slots_view(self.slots@) =~= Seq::new(
                v.slots.len(),
                |i: int| keep_locked(v.slots[i]),
            ));
        }
    }

    /// Reorder the slots: the controllers named by `order` take slots 0, 1,
    /// ... in turn (six at most); the others fill the slots left empty, in
    /// their former order. Controllers that find no slot are dropped.
    pub fn reorder(&mut self, order: Vec<String>)
        ensures
            final(self)@.slots == spec_reorder(old(self)@.slots, names_view(order@)),
            final(self)@.locks == old(self)@.locks,
    {
        let ghost orig = self@.slots;
        let ghost ord = names_view(order@);
        let n: usize = if order.len() <= SLOT_COUNT {
            order.len()
        } else {
            SLOT_COUNT
        };
        let ghost first = if ord.len() <= SLOT_COUNT {
            ord
        } else {
            ord.take(SLOT_COUNT as int)
        };
        let mut placed: Vec<Option<JoystickSlot>> = Vec::new();
        let mut t: usize = 0;
        while t < n
            invariant
                t <= n,
                n == first.len(),
                ord == names_view(order@),
                first == (if ord.len() <= SLOT_COUNT {
                    ord
                } else {
                    ord.take(SLOT_COUNT as int)
                }),
                (slots_view(self.slots@), slots_view(placed@)) == place_ordered(
                    orig,
                    first.take(t as int),
                ),
                locks_view(self.locks@) == old(self)@.locks,
            decreases n - t,
        {
            proof {
                assert(first.take(t + 1).drop_last() =~= first.take(t as int));
                assert(first.take(t + 1).last() == order@[t as int]@);
                lemma_find_uuid(slots_view(self.slots@), order@[t as int]@, 0);
            }
            let ghost before_slots = self.slots@;
            let ghost before_placed = placed@;
            match position_of(&self.slots, &order[t]) {
                Some(i) => {
                    let mut cell: Option<JoystickSlot> = None;
                    self.slots.set_and_swap(i, &mut cell);
                    placed.push(cell);
                    proof {
                        assert(slots_view(self.slots@) =~= slots_view(before_slots).update(
                            i as int,
                            None,
                        ));
                        assert(slots_view(placed@) =~= slots_view(before_placed).push(
                            slots_view(before_slots)[i as int],
                        ));
                    }
                },
                None => {
                    placed.push(None);
                    proof {
                        assert(slots_view(placed@) =~= slots_view(before_placed).push(None));
                    }
                },
            }
            t = t + 1;
        }
        proof {
            assert(first.take(n as int) =~= first);
        }
        let ghost rest = slots_view(self.slots@);
        let ghost placed_only = slots_view(placed@);
        proof {
            lemma_place_ordered_len(orig, first);
        }
        while placed.len() < SLOT_COUNT
            invariant
                placed_only.len() <= placed@.len() <= SLOT_COUNT,
                forall|k: int| 0 <= k < placed_only.len() ==> #[trigger] slots_view(placed@)[k] == placed_only[k],
                forall|k: int| placed_only.len() <= k < placed@.len() ==> #[trigger] placed@[k] is None,
            decreases SLOT_COUNT - placed@.len(),
        {
            let ghost before = placed@;
            placed.push(None);
            proof {
                assert forall|k: int| 0 <= k < before.len() implies placed@[k] == before[k] by {}
                assert forall|k: int| 0 <= k < placed_only.len() implies #[trigger] slots_view(placed@)[k] == placed_only[k] by {
                    assert(slots_view(before)[k] == placed_only[k]);
                }
            }
        }
        let ghost padded = slots_view(placed@);
        proof {
            assert(padded =~= placed_only + Seq::new(
                (SLOT_COUNT - placed_only.len()) as nat,
                |i: int| None::<SlotView>,
            ));
        }
        let mut j: usize = 0;
        while j < self.slots.len()
            invariant
                j <= self.slots@.len(),
                self.slots@.len() == rest.len(),
                forall|k: int| j <= k < rest.len() ==> #[trigger] slots_view(self.slots@)[k] == rest[k],
                fill_empty(padded, rest, 0) == fill_empty(slots_view(placed@), rest, j as int),
                locks_view(self.locks@) == old(self)@.locks,
            decreases rest.len() - j,
        {
            let ghost old_slots = self.slots@;
            proof {
                assert(slots_view(old_slots)[j as int] == rest[j as int]);
                lemma_find_empty(slots_view(placed@), 0);
            }
            let mut cell: Option<JoystickSlot> = None;
            self.slots.set_and_swap(j, &mut cell);
            if let Some(js) = cell {
                if let Some(e) = empty_position(&placed) {
                    let ghost before = placed@;
                    placed.set(e, Some(js));
                    proof {
                        assert(slots_view(placed@) =~= slots_view(before).update(e as int, rest[j as int]));
                    }
                }
            }
            proof {
                assert forall|k: int| j + 1 <= k < rest.len() implies #[trigger] slots_view(self.slots@)[k] == rest[k] by {
                    assert(self.slots@[k] == old_slots[k]);
                    assert(slots_view(old_slots)[k] == slots_view(self.slots@)[k]);
                }
            }
            j = j + 1;
        }
        self.slots = placed;
    }

    /// Whether any slot holds a connected controller.
    pub fn any_connected(&self) -> (r: bool)
        ensures
            r == exists|i: int|
                0 <= i < self@.slots.len() && (#[trigger] self@.slots[i] matches Some(s) && s.connected),
    {
        let mut i: usize = 0;
        while i < self.slots.len()
            invariant
                i <= self.slots@.len(),
                forall|k: int|
                    0 <= k < i ==> !(#[trigger] self@.slots[k] matches Some(s) && s.connected),
            decreases self.slots@.len() - i,
        {
            let on = match &self.slots[i] {
                Some(js) => js.connected,
                None => false,
            };
            if on {
                proof {
                    assert(self@.slots[i as int] matches Some(s) && s.connected);
                }
                return true;
            }
            i = i + 1;
        }
        false
    }

    /// Device of each slot's controller while it is connected.
    pub fn connected_devices(&self) -> (r: Vec<Option<usize>>)
        ensures
            r@.len() == self@.slots.len(),
            forall|i: int|
                0 <= i < r@.len() ==> #[trigger] r@[i] == match self@.slots[i] {
                    Some(s) => if s.connected {
                        Some(s.device)
                    } else {
                        None
                    },
                    None => None,
                },
    {
        let mut out: Vec<Option<usize>> = Vec::new();
        let mut i: usize = 0;
        while i < self.slots.len()
            invariant
                i <= self.slots@.len(),
                out@.len() == i,
                forall|k: int|
                    0 <= k < i ==> #[trigger] out@[k] == match self@.slots[k] {
                        Some(s) => if s.connected {
                            Some(s.device)
                        } else {
                            None
                        },
                        None => None,
                    },
            decreases self.slots@.len() - i,
        {
            let d = match &self.slots[i] {
                Some(js) => if js.connected {
                    Some(js.device)
                } else {
                    None
                },
                None => None,
            };
            out.push(d);
            i = i + 1;
        }
        out
    }

    /// Display information for the occupied slots.
    pub fn joystick_info(&self) -> (r: Vec<JoystickInfo>)
        requires
            self@.slots.len() <= 256,
        ensures
            r@.map_values(|j: JoystickInfo| j@) == spec_infos(self@.slots),
    {
        let ghost v = self@.slots;
        let mut out: Vec<JoystickInfo> = Vec::new();
        let mut i: usize = 0;
        while i < self.slots.len()
            invariant
                v == self@.slots,
                v.len() <= 256,
                i <= v.len(),
                out@.map_values(|j: JoystickInfo| j@) == spec_infos(v.take(i as int)),
            decreases v.len() - i,
        {
            proof {
                assert(v.take(i + 1).drop_last() =~= v.take(i as int));
            }
            let ghost before = out@;
            match &self.slots[i] {
                Some(js) => {
                    out.push(
                        JoystickInfo {
                            slot: i as u8,
                            uuid: js.uuid.clone(),
                            name: js.name.clone(),
                            locked: js.locked,
                            connected: js.connected,
                            axis_count: 6,
                            button_count: 10,
                            pov_count: 1,
                        },
                    );
                    proof {
                        assert(out@.map_values(|j: JoystickInfo| j@) =~= before.map_values(
                            |j: JoystickInfo| j@,
                        ).push(out@.last()@));
                    }
                },
                None => {},
            }
            i = i + 1;
        }
        proof {
            assert(v.take(v.len() as int) =~= v);
        }
        out
    }

    /// Number of slots.
    pub fn slot_count(&self) -> (r: usize)
        ensures
            r == self@.slots.len(),
    {
        self.slots.len()
    }

    /// The slot that the controller `uuid` is locked to, if any.
    pub fn locked_slot_of(&self, uuid: &str) -> (r: Option<u8>)
        ensures
            r == lock_of(self@.locks, uuid@),
    {
        let key = uuid.to_owned();
        locked_slot(&self.locks, &key)
    }
}

} // verus!
