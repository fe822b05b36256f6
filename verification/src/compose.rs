//! Decisions of the widget integration: which slot of a container with a
//! start, a center and an end (or a start and an end) takes a component
//! added to it, and the counter state of the example application.
use vstd::prelude::*;

verus! {

/// A slot of a container.
#[derive(Clone, Copy, Debug, PartialEq, Eq, Structural)]
pub enum Slot {
    Start,
    Center,
    End,
}

/// Where a container with a start, a center and an end slot puts a new
/// component, given which slots are taken: the start when nothing is there,
/// then the center, then the end; nowhere when the center and the end are
/// both taken.
pub open spec fn spec_center_box_slot(start: bool, center: bool, end: bool) -> Option<Slot> {
    if center {
        if !end {
            Some(Slot::End)
        } else {
            None
        }
    } else if start {
        Some(Slot::Center)
    } else {
        Some(Slot::Start)
    }
}

/// Where a container with a start, a center and an end slot puts a new
/// component (see [`spec_center_box_slot`]).
pub fn center_box_slot(start: bool, center: bool, end: bool) -> (r: Option<Slot>)
    ensures
        r == spec_center_box_slot(start, center, end),
{
    if center {
        if !end {
            Some(Slot::End)
        } else {
            None
        }
    } else if start {
        Some(Slot::Center)
    } else {
        Some(Slot::Start)
    }
}

/// Where a container with a start and an end slot puts a new component:
/// the start when it is free, else the end when it is free, else nowhere.
pub open spec fn spec_paned_slot(start: bool, end: bool) -> Option<Slot> {
    if start {
        if !end {
            Some(Slot::End)
        } else {
            None
        }
    } else {
        Some(Slot::Start)
    }
}

/// Where a container with a start and an end slot puts a new component
/// (see [`spec_paned_slot`]).
pub fn paned_slot(start: bool, end: bool) -> (r: Option<Slot>)
    ensures
        r == spec_paned_slot(start, end),
{
    if start {
        if !end {
            Some(Slot::End)
        } else {
            None
        }
    } else {
        Some(Slot::Start)
    }
}

/// A message of the counter application.
#[derive(Clone, Copy, Debug, PartialEq, Eq, Structural)]
pub enum Msg {
    Increase,
    Decrease,
}

/// The state of the counter application.
#[derive(Clone, Copy, Debug, PartialEq, Eq, Structural)]
pub struct State {
    pub count: i32,
}

/// A value brought back into the range of `i32` by wrapping around.
pub open spec fn wrap_i32(x: int) -> i32 {
    if x > i32::MAX {
        (x - 0x1_0000_0000) as i32
    } else if x < i32::MIN {
        (x + 0x1_0000_0000) as i32
    } else {
        x as i32
    }
}

/// The count after a message: one more or one less, wrapping around.
pub open spec fn spec_update(count: i32, msg: Msg) -> i32 {
    match msg {
        Msg::Increase => wrap_i32(count + 1),
        Msg::Decrease => wrap_i32(count - 1),
    }
}

/// Updates the state with a message.
pub fn update_state(state: &mut State, msg: Msg)
    ensures
        final(state).count == spec_update(old(state).count, msg),
{
    match msg {
        Msg::Increase => state.count = state.count.wrapping_add(1),
        Msg::Decrease => state.count = state.count.wrapping_sub(1),
    }
}

/// A component added to a container with a start, a center and an end slot
/// never replaces one already there: the slot chosen is free, and no slot
/// is chosen only when the center and the end are both taken.
pub proof fn law_center_box_keeps_components(start: bool, center: bool, end: bool)
    ensures
        match spec_center_box_slot(start, center, end) {
            Some(Slot::Start) => !start,
            Some(Slot::Center) => !center,
            Some(Slot::End) => !end,
            None => center && end,
        },
{
}

/// A container with a start, a center and an end slot fills its slots in
/// order: the start first whenever both the start and the center are free,
/// whatever the end holds; the center only after the start is taken and
/// while the center is free; the end only after the center is taken.
pub proof fn law_center_box_fills_in_order(start: bool, center: bool, end: bool)
    ensures
        !start && !center ==> spec_center_box_slot(start, center, end) == Some(Slot::Start),
        start && !center ==> spec_center_box_slot(start, center, end) == Some(Slot::Center),
        spec_center_box_slot(start, center, end) == Some(Slot::Center) ==> start && !center,
        spec_center_box_slot(start, center, end) == Some(Slot::End) ==> center && !end,
{
}

/// A component added to a container with a start and an end slot never
/// replaces one already there, and goes nowhere only when both are taken.
pub proof fn law_paned_keeps_components(start: bool, end: bool)
    ensures
        match spec_paned_slot(start, end) {
            Some(Slot::Start) => !start,
            Some(Slot::End) => !end,
            Some(Slot::Center) => false,
            None => start && end,
        },
{
}

/// Increasing then decreasing the count, or the other way round, gives the
/// count back, also where it wraps around.
pub proof fn law_update_undoes(count: i32)
    ensures
        spec_update(spec_update(count, Msg::Increase), Msg::Decrease) == count,
        spec_update(spec_update(count, Msg::Decrease), Msg::Increase) == count,
{
}

} // verus!
