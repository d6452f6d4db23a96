//! The discrete half of an orbit camera controller: whether it listens,
//! whether a drag is under way, and what each input event asks of the numeric
//! half, which the application keeps.

use vstd::prelude::*;

verus! {

/// An input event, without its coordinates.
#[derive(Clone, Copy, Debug, PartialEq, Eq)]
pub enum Input {
    PointerDown,
    PointerMove,
    PointerUp,
    Wheel,
    /// A touch began; `touches` counts the touch points that the event
    /// reports as changed.
    TouchStart { touches: u32 },
    /// A touch moved.
    TouchMove { touches: u32 },
    /// A touch ended.
    TouchEnd { touches: u32 },
    SetEnabled(bool),
    SetViewport,
}

/// What the numeric half does about an event.
#[derive(Clone, Copy, Debug, PartialEq, Eq)]
pub enum Effect {
    /// Nothing.
    Nothing,
    /// Take the pointer as the point where the drag began.
    BeginDrag,
    /// Set the parallax offset from the pointer, then turn the camera by the
    /// pointer's displacement since the drag began, within the pitch limits.
    Drag,
    /// Set the parallax offset from the pointer, and note the pointer as the
    /// position to smooth towards.
    Hover,
    /// Keep the angles reached as the start of the next drag, and move the
    /// pointer position there at once.
    EndDrag,
    /// Move the radius aimed at by the wheel's travel, and move the pointer
    /// position there at once.
    Zoom,
    /// Take the new viewport size.
    Resize,
}

/// What a controller is, for contracts.
#[derive(PartialEq, Eq, Structural)]
pub struct ControlsView {
    pub enabled: bool,
    pub down: bool,
}

/// The pointer event that `input` stands for: a touch event with at least one
/// changed touch point stands for the pointer event of its kind, at the first
/// of those points; one with none stands for nothing. Other events stand for
/// themselves.
pub open spec fn as_pointer(input: Input) -> Option<Input> {
    match input {
        Input::TouchStart { touches } => if touches > 0 {
            Some(Input::PointerDown)
        } else {
            None
        },
        Input::TouchMove { touches } => if touches > 0 {
            Some(Input::PointerMove)
        } else {
            None
        },
        Input::TouchEnd { touches } => if touches > 0 {
            Some(Input::PointerUp)
        } else {
            None
        },
        _ => Some(input),
    }
}

/// The controller after `input`, and what the numeric half does about it.
/// `SetEnabled` always takes effect. Every other event does nothing while the
/// controller is disabled.
pub open spec fn step(state: ControlsView, input: Input) -> (ControlsView, Effect) {
    match as_pointer(input) {
        Some(Input::SetEnabled(enabled)) => (ControlsView { enabled, ..state }, Effect::Nothing),
        None => (state, Effect::Nothing),
        Some(event) => if !state.enabled {
            (state, Effect::Nothing)
        } else {
            match event {
                Input::PointerDown => (ControlsView { down: true, ..state }, Effect::BeginDrag),
                Input::PointerMove => if state.down {
                    (state, Effect::Drag)
                } else {
                    (state, Effect::Hover)
                },
                Input::PointerUp => (ControlsView { down: false, ..state }, Effect::EndDrag),
                Input::Wheel => (state, Effect::Zoom),
                _ => (state, Effect::Resize),
            }
        },
    }
}

/// The switches of an orbit camera controller.
pub struct CameraControls {
    enabled: bool,
    down: bool,
}

impl View for CameraControls {
    type V = ControlsView;

    closed spec fn view(&self) -> ControlsView {
        ControlsView { enabled: self.enabled, down: self.down }
    }
}

impl CameraControls {
    /// A controller that listens, with no drag under way.
    pub fn new() -> (controls: CameraControls)
        ensures
            controls@ == (ControlsView { enabled: true, down: false }),
    {
        CameraControls { enabled: true, down: false }
    }

    /// Makes the controller listen or stop listening. A drag under way stays
    /// under way.
    pub fn set_enabled(&mut self, enabled: bool)
        ensures
            final(self)@ == (ControlsView { enabled, ..old(self)@ }),
    {
        self.enabled = enabled;
    }

    /// Whether the controller listens.
    pub fn enabled(&self) -> (enabled: bool)
        ensures
            enabled == self@.enabled,
    {
        self.enabled
    }

    /// Whether a drag is under way.
    pub fn dragging(&self) -> (down: bool)
        ensures
            down == self@.down,
    {
        self.down
    }

    /// Takes `input` and says what the numeric half does about it.
    pub fn handle(&mut self, input: Input) -> (effect: Effect)
        ensures
            (final(self)@, effect) == step(old(self)@, input),
    {
        if let Input::SetEnabled(enabled) = input {
            self.enabled = enabled;
            return Effect::Nothing;
        }
        if !self.enabled {
            return Effect::Nothing;
        }
        match input {
            Input::PointerDown => {
                self.down = true;
                Effect::BeginDrag
            },
            Input::TouchStart { touches } => {
                if touches > 0 {
                    self.down = true;
                    Effect::BeginDrag
                } else {
                    Effect::Nothing
                }
            },
            Input::PointerMove => {
                if self.down {
                    Effect::Drag
                } else {
                    Effect::Hover
                }
            },
            Input::TouchMove { touches } => {
                if touches == 0 {
                    Effect::Nothing
                } else if self.down {
                    Effect::Drag
                } else {
                    Effect::Hover
                }
            },
            Input::PointerUp => {
                self.down = false;
                Effect::EndDrag
            },
            Input::TouchEnd { touches } => {
                if touches > 0 {
                    self.down = false;
                    Effect::EndDrag
                } else {
                    Effect::Nothing
                }
            },
            Input::Wheel => Effect::Zoom,
            Input::SetViewport => Effect::Resize,
            Input::SetEnabled(_) => Effect::Nothing,
        }
    }
}

/// While the controller is disabled every event but `SetEnabled` leaves it as
/// it is and asks nothing of the numeric half.
pub proof fn lemma_disabled_ignores(state: ControlsView, input: Input)
    requires
        !state.enabled,
        !(input is SetEnabled),
    ensures
        step(state, input) == (state, Effect::Nothing),
{
}

/// The controller after the events `inputs`, taken in order.
pub open spec fn after(state: ControlsView, inputs: Seq<Input>) -> ControlsView
    decreases inputs.len(),
{
    if inputs.len() == 0 {
        state
    } else {
        step(after(state, inputs.drop_last()), inputs.last()).0
    }
}

/// A disabled controller stays as it is through any run of events without a
/// `SetEnabled` among them.
pub proof fn lemma_disabled_stays(state: ControlsView, inputs: Seq<Input>)
    requires
        !state.enabled,
        forall|i: int| 0 <= i < inputs.len() ==> !(#[trigger] inputs[i] is SetEnabled),
    ensures
        after(state, inputs) == state,
    decreases inputs.len(),
{
    if inputs.len() > 0 {
        lemma_disabled_stays(state, inputs.drop_last());
    }
}

/// The camera turns only while a drag is under way: a move drags where a
/// pointer went down and has not come up, and hovers otherwise.
pub proof fn lemma_drag_needs_down(state: ControlsView, input: Input)
    ensures
        step(state, input).1 == Effect::Drag ==> state.enabled && state.down,
        step(state, input).1 == Effect::Hover ==> state.enabled && !state.down,
        step(state, input).1 == Effect::BeginDrag ==> step(state, input).0.down,
        step(state, input).1 == Effect::EndDrag ==> !step(state, input).0.down,
        step(state, input).0.down != state.down ==> step(state, input).1 == Effect::BeginDrag || step(
            state,
            input,
        ).1 == Effect::EndDrag,
{
}

/// A touch event with a touch point does what the pointer event of its kind
/// does.
pub proof fn lemma_touch_mirrors_pointer(state: ControlsView, touches: u32)
    requires
        touches > 0,
    ensures
        step(state, Input::TouchStart { touches }) == step(state, Input::PointerDown),
        step(state, Input::TouchMove { touches }) == step(state, Input::PointerMove),
        step(state, Input::TouchEnd { touches }) == step(state, Input::PointerUp),
{
}

} // verus!
