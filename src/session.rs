//! Brightness changes within one session: the values each bus had when the
//! session began, the values set since, and whether the two differ.

use vstd::prelude::*;
use crate::registry::ControlMethod;

verus! {

/// Number of bus indices a session can track.
pub const BUS_SLOTS: usize = 256;

/// Original and current brightness per I2C bus.
pub struct BrightnessState {
    original: Vec<Option<u8>>,
    current: Vec<Option<u8>>,
    has_changes: bool,
    timer_active: bool,
}

/// Content of a `BrightnessState`.
pub struct SessionView {
    pub original: Seq<Option<u8>>,
    pub current: Seq<Option<u8>>,
    pub has_changes: bool,
    pub timer_active: bool,
}

impl View for BrightnessState {
    type V = SessionView;

    closed spec fn view(&self) -> SessionView {
        SessionView {
            original: self.original@,
            current: self.current@,
            has_changes: self.has_changes,
            timer_active: self.timer_active,
        }
    }
}

/// Some bus other than `exclude` has a current value that differs from its
/// original one.
pub open spec fn changed_elsewhere(v: SessionView, exclude: u8) -> bool {
    exists|b: int|
        0 <= b < BUS_SLOTS && b != exclude as int && #[trigger] v.current[b] is Some
            && v.original[b] is Some && v.original[b] != v.current[b]
}

fn all_none() -> (r: Vec<Option<u8>>)
    ensures
        r@.len() == BUS_SLOTS,
        forall|i: int| 0 <= i < BUS_SLOTS ==> #[trigger] r@[i] is None,
{
    let mut v: Vec<Option<u8>> = Vec::new();
    let mut i: usize = 0;
    while i < BUS_SLOTS
        invariant
            i <= BUS_SLOTS,
            v@.len() == i,
            forall|j: int| 0 <= j < i ==> #[trigger] v@[j] is None,
        decreases BUS_SLOTS - i,
    {
        v.push(None);
        i = i + 1;
    }
    v
}

fn copy_slots(v: &Vec<Option<u8>>) -> (r: Vec<Option<u8>>)
    ensures
        r@ == v@,
{
    let mut r: Vec<Option<u8>> = Vec::new();
    let mut i: usize = 0;
    while i < v.len()
        invariant
            i <= v@.len(),
            r@ == v@.subrange(0, i as int),
        decreases v@.len() - i,
    {
        r.push(v[i]);
        i = i + 1;
    }
    assert(v@.subrange(0, v@.len() as int) =~= v@);
    r
}

impl BrightnessState {
    /// One slot per bus index.
    pub open spec fn wf(&self) -> bool {
        self@.original.len() == BUS_SLOTS && self@.current.len() == BUS_SLOTS
    }

    /// A session with nothing recorded.
    pub fn new() -> (r: BrightnessState)
        ensures
            r.wf(),
            forall|i: int| 0 <= i < BUS_SLOTS ==> #[trigger] r@.original[i] is None && r@.current[i] is None,
            !r@.has_changes,
            !r@.timer_active,
    {
        BrightnessState { original: all_none(), current: all_none(), has_changes: false, timer_active: false }
    }

    /// Records a value read from a bus: it becomes the bus's original value
    /// unless one is recorded already, and its current value.
    pub fn save_original(&mut self, bus: u8, value: u8)
        requires
            old(self).wf(),
        ensures
            final(self).wf(),
            final(self)@.original == (if old(self)@.original[bus as int] is None {
                old(self)@.original.update(bus as int, Some(value))
            } else {
                old(self)@.original
            }),
            final(self)@.current == old(self)@.current.update(bus as int, Some(value)),
            final(self)@.has_changes == old(self)@.has_changes,
            final(self)@.timer_active == old(self)@.timer_active,
    {
        let b = bus as usize;
        if self.original[b].is_none() {
            self.original.set(b, Some(value));
        }
        self.current.set(b, Some(value));
    }

    /// Whether some bus other than `exclude_bus` has moved from its
    /// original value.
    pub fn has_changes_for_other_buses(&self, exclude_bus: u8) -> (r: bool)
        requires
            self.wf(),
        ensures
            r == changed_elsewhere(self@, exclude_bus),
    {
        let mut b: usize = 0;
        while b < BUS_SLOTS
            invariant
                b <= BUS_SLOTS,
                self.wf(),
                forall|j: int|
                    0 <= j < b && j != exclude_bus as int ==> !(#[trigger] self@.current[j] is Some
                        && self@.original[j] is Some && self@.original[j] != self@.current[j]),
            decreases BUS_SLOTS - b,
        {
            if b != exclude_bus as usize {
                match (self.current[b], self.original[b]) {
                    (Some(c), Some(o)) => {
                        if o != c {
                            assert(self@.current[b as int] is Some);
                            return true;
                        }
                    },
                    _ => {},
                }
            }
            b = b + 1;
        }
        false
    }

    /// Records a value set on a bus; a bus with an original value then has
    /// changes when it differs from it or another bus has moved.
    pub fn update_current(&mut self, bus: u8, value: u8)
        requires
            old(self).wf(),
        ensures
            final(self).wf(),
            final(self)@.original == old(self)@.original,
            final(self)@.current == old(self)@.current.update(bus as int, Some(value)),
            final(self)@.has_changes == match old(self)@.original[bus as int] {
                Some(o) => o != value || changed_elsewhere(final(self)@, bus),
                None => old(self)@.has_changes,
            },
            final(self)@.timer_active == old(self)@.timer_active,
    {
        self.current.set(bus as usize, Some(value));
        match self.original[bus as usize] {
            Some(o) => {
                let elsewhere = self.has_changes_for_other_buses(bus);
                self.has_changes = o != value || elsewhere;
            },
            None => {},
        }
    }

    /// Drops the changes: every bus goes back to its original value.
    pub fn reset_to_original(&mut self)
        requires
            old(self).wf(),
        ensures
            final(self).wf(),
            final(self)@.original == old(self)@.original,
            final(self)@.current == old(self)@.original,
            !final(self)@.has_changes,
            !final(self)@.timer_active,
    {
        self.current = copy_slots(&self.original);
        self.has_changes = false;
        self.timer_active = false;
    }

    /// Keeps the changes: the current values become the original ones.
    pub fn confirm_changes(&mut self)
        requires
            old(self).wf(),
        ensures
            final(self).wf(),
            final(self)@.original == old(self)@.current,
            final(self)@.current == old(self)@.current,
            !final(self)@.has_changes,
            !final(self)@.timer_active,
    {
        self.original = copy_slots(&self.current);
        self.has_changes = false;
        self.timer_active = false;
    }

    /// Marks the confirmation countdown as running.
    pub fn start_timer(&mut self)
        requires
            old(self).wf(),
        ensures
            final(self).wf(),
            final(self)@ == (SessionView { timer_active: true, ..old(self)@ }),
    {
        self.timer_active = true;
    }

    /// Forgets every value, as when the display list is rebuilt.
    pub fn clear(&mut self)
        ensures
            final(self).wf(),
            forall|i: int| 0 <= i < BUS_SLOTS ==> #[trigger] final(self)@.original[i] is None && final(self)@.current[i] is None,
            !final(self)@.has_changes,
            !final(self)@.timer_active,
    {
        *self = BrightnessState::new();
    }

    pub fn original(&self, bus: u8) -> (r: Option<u8>)
        requires
            self.wf(),
        ensures
            r == self@.original[bus as int],
    {
        self.original[bus as usize]
    }

    pub fn current(&self, bus: u8) -> (r: Option<u8>)
        requires
            self.wf(),
        ensures
            r == self@.current[bus as int],
    {
        self.current[bus as usize]
    }

    pub fn has_changes(&self) -> (r: bool)
        ensures
            r == self@.has_changes,
    {
        self.has_changes
    }

    pub fn timer_active(&self) -> (r: bool)
        ensures
            r == self@.timer_active,
    {
        self.timer_active
    }
}


/// Per-bus slider bookkeeping: whether the next slider event was caused by
/// the program rather than the user, and the last value set through each
/// control method.
pub struct SliderMemory {
    programmatic: Vec<bool>,
    last_ddc: Vec<Option<u8>>,
    last_software: Vec<Option<u8>>,
}

/// Content of a `SliderMemory`.
pub struct SliderView {
    pub programmatic: Seq<bool>,
    pub last_ddc: Seq<Option<u8>>,
    pub last_software: Seq<Option<u8>>,
}

impl View for SliderMemory {
    type V = SliderView;

    closed spec fn view(&self) -> SliderView {
        SliderView {
            programmatic: self.programmatic@,
            last_ddc: self.last_ddc@,
            last_software: self.last_software@,
        }
    }
}

fn all_false() -> (r: Vec<bool>)
    ensures
        r@.len() == BUS_SLOTS,
        forall|i: int| 0 <= i < BUS_SLOTS ==> !#[trigger] r@[i],
{
    let mut v: Vec<bool> = Vec::new();
    let mut i: usize = 0;
    while i < BUS_SLOTS
        invariant
            i <= BUS_SLOTS,
            v@.len() == i,
            forall|j: int| 0 <= j < i ==> !#[trigger] v@[j],
        decreases BUS_SLOTS - i,
    {
        v.push(false);
        i = i + 1;
    }
    v
}

impl SliderMemory {
    /// One slot per bus index.
    pub open spec fn wf(&self) -> bool {
        &&& self@.programmatic.len() == BUS_SLOTS
        &&& self@.last_ddc.len() == BUS_SLOTS
        &&& self@.last_software.len() == BUS_SLOTS
    }

    /// Nothing marked, nothing remembered.
    pub fn new() -> (r: SliderMemory)
        ensures
            r.wf(),
            forall|i: int| 0 <= i < BUS_SLOTS ==> !#[trigger] r@.programmatic[i] && r@.last_ddc[i] is None
                && r@.last_software[i] is None,
    {
        SliderMemory { programmatic: all_false(), last_ddc: all_none(), last_software: all_none() }
    }

    /// Marks or clears the programmatic flag of a bus: a slider moved by the
    /// program is marked, a newly added slider is cleared.
    pub fn set_programmatic(&mut self, bus: u8, on: bool)
        requires
            old(self).wf(),
        ensures
            final(self).wf(),
            final(self)@ == (SliderView { programmatic: old(self)@.programmatic.update(bus as int, on), ..old(self)@ }),
    {
        self.programmatic.set(bus as usize, on);
    }

    /// Whether the latest slider event on a bus was the program's own; the
    /// flag is consumed.
    pub fn is_programmatic_update(&mut self, bus: u8) -> (r: bool)
        requires
            old(self).wf(),
        ensures
            final(self).wf(),
            r == old(self)@.programmatic[bus as int],
            final(self)@ == (SliderView { programmatic: old(self)@.programmatic.update(bus as int, false), ..old(self)@ }),
    {
        let was = self.programmatic[bus as usize];
        self.programmatic.set(bus as usize, false);
        was
    }

    /// Remembers the value last set on a bus through `method`.
    pub fn remember_value(&mut self, bus: u8, method: ControlMethod, value: u8)
        requires
            old(self).wf(),
        ensures
            final(self).wf(),
            method == ControlMethod::Ddc ==> final(self)@ == (SliderView {
                last_ddc: old(self)@.last_ddc.update(bus as int, Some(value)),
                ..old(self)@
            }),
            method == ControlMethod::Software ==> final(self)@ == (SliderView {
                last_software: old(self)@.last_software.update(bus as int, Some(value)),
                ..old(self)@
            }),
    {
        match method {
            ControlMethod::Ddc => self.last_ddc.set(bus as usize, Some(value)),
            ControlMethod::Software => self.last_software.set(bus as usize, Some(value)),
        }
    }

    /// The value last set on a bus through `method`, if any.
    pub fn get_last_value(&self, bus: u8, method: ControlMethod) -> (r: Option<u8>)
        requires
            self.wf(),
        ensures
            r == match method {
                ControlMethod::Ddc => self@.last_ddc[bus as int],
                ControlMethod::Software => self@.last_software[bus as int],
            },
    {
        match method {
            ControlMethod::Ddc => self.last_ddc[bus as usize],
            ControlMethod::Software => self.last_software[bus as usize],
        }
    }
}

} // verus!
