//! The state of the gamma control protocol: which client object controls the
//! gamma tables of which output.
//!
//! Control objects and outputs go by numbers that their owner gives them and
//! never gives twice.

use std::collections::HashMap;

use vstd::prelude::*;

use crate::gamma_table::law_table_layout;
use crate::gamma_table::{holds_ramps, is_native_order};
use crate::gamma_table::{native_byte_order, parse_gamma_ramps, ByteOrder, GammaTableError};
use crate::ramps::GammaRamps;

verus! {

/// What a control object was made for.
#[derive(Debug, Clone, Copy, PartialEq, Eq, Structural)]
pub struct GammaControlData {
    /// The output, if there is one behind the client's object.
    pub output: Option<u64>,
}

/// A control object.
#[derive(Debug, Clone, Copy, PartialEq, Eq, Structural)]
pub struct GammaControl {
    /// `Some(size)` while the control object is valid, `None` after `failed` was sent.
    pub gamma_size: Option<usize>,
    /// What it was made for.
    pub data: GammaControlData,
}

/// The event that answers the request for a control object.
#[derive(Debug, Clone, Copy, PartialEq, Eq, Structural)]
pub enum ControlEvent {
    /// The object is valid, and ramps have this size.
    GammaSize(u32),
    /// The object is not valid.
    Failed,
}

/// What comes of a request to set the gamma tables.
#[derive(Debug, PartialEq, Eq)]
pub enum SetGammaAction {
    /// Nothing: the control object is not valid.
    Ignored,
    /// Apply the ramps to the output.
    Apply {
        /// The output.
        output: u64,
        /// The ramps.
        ramps: GammaRamps,
    },
    /// Tell the client that its control object is no longer valid.
    Failed {
        /// What is wrong with the gamma table, if it was read and that is the reason.
        error: Option<GammaTableError>,
    },
}

/// The size that a control object has announced, while it is valid.
pub open spec fn announced(controls: Map<u64, GammaControl>, control: u64) -> Option<usize> {
    if controls.contains_key(control) {
        controls[control].gamma_size
    } else {
        None
    }
}

/// Is `control` the valid control object of the output?
pub open spec fn owns(controls: Map<u64, GammaControl>, control: u64, output: u64) -> bool {
    announced(controls, control) is Some && controls[control].data.output == Some(output)
}

/// Has the output a valid control object?
pub open spec fn is_taken(controls: Map<u64, GammaControl>, output: u64) -> bool {
    exists|control: u64| owns(controls, control, output)
}

/// There can only be one gamma control object per output, and a valid one has
/// an output.
pub open spec fn one_per_output(controls: Map<u64, GammaControl>) -> bool {
    &&& forall|control: u64| #[trigger]
        announced(controls, control) is Some ==> controls[control].data.output is Some
    &&& forall|a: u64, b: u64, output: u64|
        owns(controls, a, output) && owns(controls, b, output) ==> a == b
}

/// The size that a request for the output's control object is granted: the size
/// of its gamma tables, unless the output is taken.
pub open spec fn granted(
    controls: Map<u64, GammaControl>,
    output: Option<u64>,
    gamma_size: Option<usize>,
) -> Option<usize> {
    if output is Some && !is_taken(controls, output->0) {
        gamma_size
    } else {
        None
    }
}

/// The control objects after a request for one.
pub open spec fn after_get(
    controls: Map<u64, GammaControl>,
    control: u64,
    output: Option<u64>,
    gamma_size: Option<usize>,
) -> Map<u64, GammaControl> {
    controls.insert(
        control,
        GammaControl {
            gamma_size: granted(controls, output, gamma_size),
            data: GammaControlData { output },
        },
    )
}

/// The control objects after one of them has become invalid.
pub open spec fn after_invalidate(controls: Map<u64, GammaControl>, control: u64) -> Map<
    u64,
    GammaControl,
> {
    if controls.contains_key(control) {
        controls.insert(
            control,
            GammaControl { gamma_size: None, data: controls[control].data },
        )
    } else {
        controls
    }
}

/// Is `action` what comes of a request to set the gamma tables from a table with
/// these contents, if they could be read? `alive` says whether the output is
/// still there.
pub open spec fn is_set_gamma(
    controls: Map<u64, GammaControl>,
    control: u64,
    contents: Option<Seq<u8>>,
    order: ByteOrder,
    alive: bool,
    action: SetGammaAction,
) -> bool {
    match announced(controls, control) {
        None => action == SetGammaAction::Ignored,
        Some(size) => match contents {
            None => action == (SetGammaAction::Failed { error: None }),
            Some(bytes) => if bytes.len() != 6 * size {
                action == (SetGammaAction::Failed {
                    error: Some(
                        GammaTableError {
                            expected: (6 * size) as usize,
                            got: bytes.len() as usize,
                        },
                    ),
                })
            } else if alive {
                &&& action is Apply
                &&& Some(action->output) == controls[control].data.output
                &&& holds_ramps(bytes, size as int, order, action->ramps)
            } else {
                action == (SetGammaAction::Failed { error: None })
            },
        },
    }
}

/// The control objects after a request to set the gamma tables: one that failed
/// is no longer valid.
pub open spec fn after_set_gamma(
    controls: Map<u64, GammaControl>,
    control: u64,
    action: SetGammaAction,
) -> Map<u64, GammaControl> {
    if action is Failed {
        after_invalidate(controls, control)
    } else {
        controls
    }
}

/// The output whose gamma tables are to be restored when a control object is
/// destroyed: its own, if it is valid and the output is still there.
pub open spec fn to_restore(controls: Map<u64, GammaControl>, control: u64, alive: bool) -> Option<
    u64,
> {
    if announced(controls, control) is Some && alive {
        controls[control].data.output
    } else {
        None
    }
}

/// The state of the protocol. `G` is the type of the id of its global.
#[derive(Debug)]
pub struct GammaControlState<G> {
    global: G,
    gamma_controls: HashMap<u64, GammaControl>,
}

impl<G> View for GammaControlState<G> {
    type V = Map<u64, GammaControl>;

    closed spec fn view(&self) -> Map<u64, GammaControl> {
        self.gamma_controls@
    }
}

impl<G> GammaControlState<G> {
    /// The id of the protocol's global.
    pub closed spec fn global(&self) -> G {
        self.global
    }

    /// No output has two valid control objects.
    pub open spec fn well_formed(&self) -> bool {
        one_per_output(self@)
    }

    /// The state of a protocol whose global has just been created.
    pub fn new(global: G) -> (state: GammaControlState<G>)
        ensures
            state.well_formed(),
            state@ == Map::<u64, GammaControl>::empty(),
            state.global() == global,
    {
        GammaControlState { global, gamma_controls: HashMap::new() }
    }

    /// The id of the protocol's global.
    pub fn global_id(&self) -> (id: G) where G: Clone
        ensures
            cloned(self.global(), id),
    {
        self.global.clone()
    }

    /// Has the output a valid control object?
    pub fn is_taken(&self, output: u64) -> (taken: bool)
        ensures
            taken == is_taken(self@, output),
    {
        broadcast use vstd::std_specs::hash::group_hash_axioms;

        for entry in it: self.gamma_controls.iter()
            invariant
                forall|j: int|
                    0 <= j < it.index() ==> !owns(self@, *(#[trigger] it.seq()[j]).0, output),
        {
            let (control, gamma_control) = entry;
            assert(self.gamma_controls@[*it.seq()[it.index()].0] == *gamma_control);
            if gamma_control.gamma_size.is_some() && gamma_control.data.output == Some(output) {
                assert(owns(self@, *control, output));
                return true;
            }
        }
        false
    }

    /// Answers the request for a control object of an output. `gamma_size` is the
    /// size of the output's gamma tables, if it has any; without an output it
    /// does not count.
    pub fn get_gamma_control(
        &mut self,
        control: u64,
        output: Option<u64>,
        gamma_size: Option<usize>,
    ) -> (event: ControlEvent)
        requires
            old(self).well_formed(),
        ensures
            final(self).well_formed(),
            final(self)@ == after_get(old(self)@, control, output, gamma_size),
            final(self).global() == old(self).global(),
            event == match granted(old(self)@, output, gamma_size) {
                Some(size) => ControlEvent::GammaSize(size as u32),
                None => ControlEvent::Failed,
            },
    {
        broadcast use vstd::std_specs::hash::group_hash_axioms;

        // There can only be one gamma control object per output.
        let already_taken = match output {
            Some(output) => self.is_taken(output),
            None => false,
        };
        let gamma_size: Option<usize> = if output.is_some() && !already_taken {
            gamma_size
        } else {
            None
        };
        let data = GammaControlData { output };
        let ghost before = self@;
        self.gamma_controls.insert(control, GammaControl { gamma_size, data });
        proof {
            lemma_get_keeps_one_per_output(before, control, data.output, gamma_size);
        }
        match gamma_size {
            Some(size) => ControlEvent::GammaSize(size as u32),
            None => ControlEvent::Failed,
        }
    }

    /// The size of the gamma table that a control object asks for, while it is
    /// valid.
    pub fn announced_size(&self, control: u64) -> (size: Option<usize>)
        ensures
            size == announced(self@, control),
    {
        broadcast use vstd::std_specs::hash::group_hash_axioms;

        match self.gamma_controls.get(&control) {
            Some(gamma_control) => gamma_control.gamma_size,
            None => None,
        }
    }

    /// Makes a control object invalid.
    pub fn invalidate_control(&mut self, control: u64)
        requires
            old(self).well_formed(),
        ensures
            final(self).well_formed(),
            final(self)@ == after_invalidate(old(self)@, control),
            final(self).global() == old(self).global(),
    {
        broadcast use vstd::std_specs::hash::group_hash_axioms;

        let ghost before = self@;
        let data: Option<GammaControlData> = match self.gamma_controls.get(&control) {
            Some(gamma_control) => Some(gamma_control.data),
            None => None,
        };
        if let Some(data) = data {
            self.gamma_controls.insert(control, GammaControl { gamma_size: None, data });
        }
        proof {
            lemma_invalidate_keeps_one_per_output(before, control);
        }
    }

    /// Answers a request to set the gamma tables of a control object's output from
    /// the contents of a file in the given byte order. `contents` is `None` where
    /// the file could not be read, and `output_alive` says whether the output is
    /// still there.
    pub fn set_gamma_ordered(
        &mut self,
        control: u64,
        contents: Option<Vec<u8>>,
        order: ByteOrder,
        output_alive: bool,
    ) -> (action: SetGammaAction)
        requires
            old(self).well_formed(),
            contents is Some ==> (announced(old(self)@, control) matches Some(size) ==> 6 * size
                <= usize::MAX),
        ensures
            final(self).well_formed(),
            is_set_gamma(
                old(self)@,
                control,
                match contents {
                    Some(bytes) => Some(bytes@),
                    None => None,
                },
                order,
                output_alive,
                action,
            ),
            final(self)@ == after_set_gamma(old(self)@, control, action),
            final(self).global() == old(self).global(),
    {
        broadcast use vstd::std_specs::hash::group_hash_axioms;

        let found: Option<GammaControl> = match self.gamma_controls.get(&control) {
            Some(gamma_control) => Some(*gamma_control),
            None => None,
        };
        let gamma_control = match found {
            Some(gamma_control) => gamma_control,
            None => {
                return SetGammaAction::Ignored;
            },
        };
        let size: usize = match gamma_control.gamma_size {
            Some(size) => size,
            // The control object was already invalidated with a `failed` event.
            None => {
                return SetGammaAction::Ignored;
            },
        };
        assert(announced(self@, control) is Some);
        let bytes = match contents {
            Some(bytes) => bytes,
            None => {
                self.invalidate_control(control);
                return SetGammaAction::Failed { error: None };
            },
        };
        match parse_gamma_ramps(&bytes, size, order) {
            Ok(ramps) => match gamma_control.data.output {
                Some(output) if output_alive => SetGammaAction::Apply { output, ramps },
                _ => {
                    self.invalidate_control(control);
                    SetGammaAction::Failed { error: None }
                },
            },
            Err(error) => {
                self.invalidate_control(control);
                SetGammaAction::Failed { error: Some(error) }
            },
        }
    }

    /// Answers a request to set the gamma tables of a control object's output from
    /// the contents of a file, in the machine's byte order. `contents` is `None`
    /// where the file could not be read, and `output_alive` says whether the
    /// output is still there.
    pub fn set_gamma(
        &mut self,
        control: u64,
        contents: Option<Vec<u8>>,
        output_alive: bool,
    ) -> (action: SetGammaAction)
        requires
            old(self).well_formed(),
            contents is Some ==> (announced(old(self)@, control) matches Some(size) ==> 6 * size
                <= usize::MAX),
        ensures
            final(self).well_formed(),
            exists|order: ByteOrder| #[trigger]
                is_native_order(order) && is_set_gamma(
                    old(self)@,
                    control,
                    match contents {
                        Some(bytes) => Some(bytes@),
                        None => None,
                    },
                    order,
                    output_alive,
                    action,
                ),
            final(self)@ == after_set_gamma(old(self)@, control, action),
            final(self).global() == old(self).global(),
    {
        let order = native_byte_order();
        self.set_gamma_ordered(control, contents, order, output_alive)
    }

    /// Removes a control object that its client has destroyed, and gives the
    /// output whose original gamma tables are then to be restored, if any.
    pub fn destroyed(&mut self, control: u64, output_alive: bool) -> (restore: Option<u64>)
        requires
            old(self).well_formed(),
        ensures
            final(self).well_formed(),
            final(self)@ == old(self)@.remove(control),
            final(self).global() == old(self).global(),
            restore == to_restore(old(self)@, control, output_alive),
    {
        broadcast use vstd::std_specs::hash::group_hash_axioms;

        let ghost before = self@;
        let removed = self.gamma_controls.remove(&control);
        proof {
            lemma_remove_keeps_one_per_output(before, control);
        }
        match removed {
            Some(gamma_control) => if gamma_control.gamma_size.is_some() && output_alive {
                gamma_control.data.output
            } else {
                None
            },
            None => None,
        }
    }
}

proof fn lemma_get_keeps_one_per_output(
    controls: Map<u64, GammaControl>,
    control: u64,
    output: Option<u64>,
    gamma_size: Option<usize>,
)
    requires
        one_per_output(controls),
    ensures
        one_per_output(after_get(controls, control, output, gamma_size)),
{
    let after = after_get(controls, control, output, gamma_size);
    assert forall|c: u64| #[trigger] announced(after, c) is Some implies after[c].data.output is Some by {
        if c != control {
            assert(announced(controls, c) is Some);
        }
    }
    assert forall|a: u64, b: u64, o: u64| owns(after, a, o) && owns(after, b, o) implies a == b by {
        if a != control {
            assert(owns(controls, a, o));
        }
        if b != control {
            assert(owns(controls, b, o));
        }
    }
}

proof fn lemma_invalidate_keeps_one_per_output(controls: Map<u64, GammaControl>, control: u64)
    requires
        one_per_output(controls),
    ensures
        one_per_output(after_invalidate(controls, control)),
{
    let after = after_invalidate(controls, control);
    assert forall|c: u64| #[trigger] announced(after, c) is Some implies after[c].data.output is Some by {
        assert(announced(controls, c) is Some);
    }
    assert forall|a: u64, b: u64, o: u64| owns(after, a, o) && owns(after, b, o) implies a == b by {
        assert(owns(controls, a, o));
        assert(owns(controls, b, o));
    }
}

proof fn lemma_remove_keeps_one_per_output(controls: Map<u64, GammaControl>, control: u64)
    requires
        one_per_output(controls),
    ensures
        one_per_output(controls.remove(control)),
{
    let after = controls.remove(control);
    assert forall|c: u64| #[trigger] announced(after, c) is Some implies after[c].data.output is Some by {
        assert(announced(controls, c) is Some);
    }
    assert forall|a: u64, b: u64, o: u64| owns(after, a, o) && owns(after, b, o) implies a == b by {
        assert(owns(controls, a, o));
        assert(owns(controls, b, o));
    }
}

/// While an output is taken, a request for it is refused, and its owner keeps
/// the output.
pub proof fn law_taken_output_refused(
    controls: Map<u64, GammaControl>,
    owner: u64,
    control: u64,
    output: u64,
    gamma_size: Option<usize>,
)
    requires
        owns(controls, owner, output),
        control != owner,
    ensures
        granted(controls, Some(output), gamma_size) is None,
        owns(after_get(controls, control, Some(output), gamma_size), owner, output),
        announced(after_get(controls, control, Some(output), gamma_size), control) is None,
{
    assert(is_taken(controls, output));
}

/// An output that is not taken and has gamma tables is granted to the first
/// client that asks, which then owns it.
pub proof fn law_free_output_granted(
    controls: Map<u64, GammaControl>,
    control: u64,
    output: u64,
    size: usize,
)
    requires
        !is_taken(controls, output),
    ensures
        granted(controls, Some(output), Some(size)) == Some(size),
        owns(after_get(controls, control, Some(output), Some(size)), control, output),
{
}

/// An output is free again once its owner is destroyed.
pub proof fn law_destroy_frees_output(controls: Map<u64, GammaControl>, owner: u64, output: u64)
    requires
        one_per_output(controls),
        owns(controls, owner, output),
    ensures
        !is_taken(controls.remove(owner), output),
{
    let after = controls.remove(owner);
    if is_taken(after, output) {
        let c = choose|c: u64| owns(after, c, output);
        assert(owns(controls, c, output));
    }
}

/// An output is free again once its owner has failed.
pub proof fn law_failure_frees_output(controls: Map<u64, GammaControl>, owner: u64, output: u64)
    requires
        one_per_output(controls),
        owns(controls, owner, output),
    ensures
        !is_taken(after_invalidate(controls, owner), output),
{
    let after = after_invalidate(controls, owner);
    if is_taken(after, output) {
        let c = choose|c: u64| owns(after, c, output);
        assert(owns(controls, c, output));
    }
}

/// A control object that has failed sets no gamma tables and restores none.
pub proof fn law_failed_control_is_inert(
    controls: Map<u64, GammaControl>,
    control: u64,
    contents: Option<Seq<u8>>,
    order: ByteOrder,
    alive: bool,
    action: SetGammaAction,
)
    requires
        is_set_gamma(
            after_invalidate(controls, control),
            control,
            contents,
            order,
            alive,
            action,
        ),
    ensures
        announced(after_invalidate(controls, control), control) is None,
        action is Ignored,
        after_set_gamma(after_invalidate(controls, control), control, action)
            == after_invalidate(controls, control),
        to_restore(after_invalidate(controls, control), control, alive) is None,
{
}

/// Once a request to set the gamma tables has failed, its control object is not
/// valid any more; otherwise no control object changes.
pub proof fn law_set_gamma_fails_once(
    controls: Map<u64, GammaControl>,
    control: u64,
    action: SetGammaAction,
)
    ensures
        action is Failed ==> announced(after_set_gamma(controls, control, action), control) is None,
        !(action is Failed) ==> after_set_gamma(controls, control, action) == controls,
{
}

/// Ramps are applied to the control object's own output only, and have the size
/// that it has announced.
pub proof fn law_applied_ramps_fit(
    controls: Map<u64, GammaControl>,
    control: u64,
    contents: Option<Seq<u8>>,
    order: ByteOrder,
    alive: bool,
    action: SetGammaAction,
)
    requires
        is_set_gamma(controls, control, contents, order, alive, action),
        action is Apply,
    ensures
        alive,
        owns(controls, control, action->output),
        announced(controls, control) == Some(action->ramps.0@.len() as usize),
        action->ramps.0@.len() == action->ramps.1@.len(),
        action->ramps.1@.len() == action->ramps.2@.len(),
{
}

/// A request for a control object concerns no other one, and destroying the new
/// object takes the request back.
pub proof fn law_destroy_undoes_get(
    controls: Map<u64, GammaControl>,
    control: u64,
    output: Option<u64>,
    gamma_size: Option<usize>,
)
    requires
        !controls.contains_key(control),
    ensures
        after_get(controls, control, output, gamma_size).remove(control) == controls,
{
    assert(after_get(controls, control, output, gamma_size).remove(control) =~= controls);
}

/// No request that concerns one control object changes another one.
pub proof fn law_others_untouched(
    controls: Map<u64, GammaControl>,
    control: u64,
    other: u64,
    output: Option<u64>,
    gamma_size: Option<usize>,
    action: SetGammaAction,
)
    requires
        other != control,
    ensures
        announced(after_get(controls, control, output, gamma_size), other) == announced(
            controls,
            other,
        ),
        announced(after_set_gamma(controls, control, action), other) == announced(controls, other),
        announced(controls.remove(control), other) == announced(controls, other),
{
}

/// Something that happens to control objects.
pub ghost enum Happening {
    /// A client asks for a control object.
    Get { control: u64, output: Option<u64>, gamma_size: Option<usize> },
    /// A client asks to set gamma tables, and `action` comes of it.
    SetGamma {
        control: u64,
        contents: Option<Seq<u8>>,
        order: ByteOrder,
        alive: bool,
        action: SetGammaAction,
    },
    /// A control object is destroyed.
    Destroyed { control: u64 },
}

impl Happening {
    /// Can it happen to these control objects? A control object that is asked for
    /// has a number that none has had, and what comes of a request is what does.
    pub open spec fn can_happen(self, controls: Map<u64, GammaControl>, failed: Set<u64>) -> bool {
        match self {
            Happening::Get { control, output, gamma_size } => !controls.contains_key(control)
                && !failed.contains(control),
            Happening::SetGamma { control, contents, order, alive, action } => is_set_gamma(
                controls,
                control,
                contents,
                order,
                alive,
                action,
            ),
            Happening::Destroyed { control } => true,
        }
    }

    /// The control objects after it.
    pub open spec fn after(self, controls: Map<u64, GammaControl>) -> Map<u64, GammaControl> {
        match self {
            Happening::Get { control, output, gamma_size } => after_get(
                controls,
                control,
                output,
                gamma_size,
            ),
            Happening::SetGamma { control, contents, order, alive, action } => after_set_gamma(
                controls,
                control,
                action,
            ),
            Happening::Destroyed { control } => controls.remove(control),
        }
    }

    /// The control object that is sent `failed`, if any.
    pub open spec fn sends_failed(self, controls: Map<u64, GammaControl>) -> Option<u64> {
        match self {
            Happening::Get { control, output, gamma_size } => if granted(
                controls,
                output,
                gamma_size,
            ) is None {
                Some(control)
            } else {
                None
            },
            Happening::SetGamma { control, contents, order, alive, action } => if action is Failed {
                Some(control)
            } else {
                None
            },
            Happening::Destroyed { control } => None,
        }
    }
}

/// Is `failed` the control objects that were sent `failed`, as far as they still
/// exist: those that are not valid?
pub open spec fn failed_are(controls: Map<u64, GammaControl>, failed: Set<u64>) -> bool {
    forall|control: u64| #[trigger]
        controls.contains_key(control) ==> (controls[control].gamma_size is None
            <==> failed.contains(control))
}

/// Whatever happens, no output gets two valid control objects.
pub proof fn law_always_one_per_output(controls: Map<u64, GammaControl>, happening: Happening)
    requires
        one_per_output(controls),
    ensures
        one_per_output(happening.after(controls)),
{
    match happening {
        Happening::Get { control, output, gamma_size } => {
            lemma_get_keeps_one_per_output(controls, control, output, gamma_size);
        },
        Happening::SetGamma { control, contents, order, alive, action } => {
            lemma_invalidate_keeps_one_per_output(controls, control);
        },
        Happening::Destroyed { control } => {
            lemma_remove_keeps_one_per_output(controls, control);
        },
    }
}

/// A newcomer takes nothing over: every control object that was there before a
/// request for another one is still there, with its size unchanged.
pub proof fn law_newcomer_takes_nothing(
    controls: Map<u64, GammaControl>,
    failed: Set<u64>,
    control: u64,
    output: Option<u64>,
    gamma_size: Option<usize>,
    other: u64,
)
    requires
        (Happening::Get { control, output, gamma_size }).can_happen(controls, failed),
        controls.contains_key(other),
    ensures
        after_get(controls, control, output, gamma_size).contains_key(other),
        after_get(controls, control, output, gamma_size)[other] == controls[other],
{
}

/// Whatever happens, a control object has a size while it is valid and none once
/// it was sent `failed`, and it is sent `failed` at most once.
pub proof fn law_failed_at_most_once(
    controls: Map<u64, GammaControl>,
    failed: Set<u64>,
    happening: Happening,
)
    requires
        failed_are(controls, failed),
        happening.can_happen(controls, failed),
    ensures
        match happening.sends_failed(controls) {
            Some(control) => !failed.contains(control) && failed_are(
                happening.after(controls),
                failed.insert(control),
            ),
            None => failed_are(happening.after(controls), failed),
        },
{
}

/// Whatever happens, a control object that was sent `failed` never becomes valid
/// again.
pub proof fn law_failed_stays_failed(
    controls: Map<u64, GammaControl>,
    failed: Set<u64>,
    happening: Happening,
    control: u64,
)
    requires
        failed_are(controls, failed),
        happening.can_happen(controls, failed),
        failed.contains(control),
    ensures
        announced(happening.after(controls), control) is None,
{
}

/// A control object is valid, with a size, if it is there and has one; nothing
/// that holds of others counts.
pub proof fn law_announced(controls: Map<u64, GammaControl>, control: u64, size: usize)
    ensures
        announced(controls, control) == Some(size) <==> controls.contains_key(control)
            && controls[control].gamma_size == Some(size),
        announced(controls, control) is None <==> !controls.contains_key(control)
            || controls[control].gamma_size is None,
{
}

/// An output is taken if, and only if, some control object that is there was made
/// for it and has a size.
pub proof fn law_taken(controls: Map<u64, GammaControl>, control: u64, output: u64)
    ensures
        owns(controls, control, output) <==> controls.contains_key(control)
            && controls[control].gamma_size is Some && controls[control].data.output == Some(
            output,
        ),
        is_taken(controls, output) <==> exists|c: u64| #[trigger]
            controls.contains_key(c) && controls[c].gamma_size is Some && controls[c].data.output
                == Some(output),
{
    if is_taken(controls, output) {
        let c = choose|c: u64| owns(controls, c, output);
        assert(controls.contains_key(c));
    }
    if exists|c: u64| #[trigger]
        controls.contains_key(c) && controls[c].gamma_size is Some && controls[c].data.output
            == Some(output) {
        let c = choose|c: u64| #[trigger]
            controls.contains_key(c) && controls[c].gamma_size is Some && controls[c].data.output
                == Some(output);
        assert(owns(controls, c, output));
    }
}

/// Of two control objects that are there, have a size and were made for one
/// output, each is the other; and one that has a size was made for an output.
pub proof fn law_one_per_output(controls: Map<u64, GammaControl>, a: u64, b: u64)
    requires
        one_per_output(controls),
        controls.contains_key(a),
        controls.contains_key(b),
        controls[a].gamma_size is Some,
        controls[b].gamma_size is Some,
    ensures
        controls[a].data.output is Some,
        controls[a].data.output == controls[b].data.output ==> a == b,
{
    assert(announced(controls, a) is Some);
    let output = controls[a].data.output->0;
    assert(owns(controls, a, output));
    if controls[b].data.output == Some(output) {
        assert(owns(controls, b, output));
    }
}

/// What a request for a control object is granted: the size of the output's gamma
/// tables, if there is an output, it has tables, and no control object that is
/// there and has a size was made for it; otherwise nothing.
pub proof fn law_grant(
    controls: Map<u64, GammaControl>,
    output: Option<u64>,
    gamma_size: Option<usize>,
)
    ensures
        output is None ==> granted(controls, output, gamma_size) is None,
        gamma_size is None ==> granted(controls, output, gamma_size) is None,
        output is Some && (exists|c: u64| #[trigger]
            controls.contains_key(c) && controls[c].gamma_size is Some && controls[c].data.output
                == output) ==> granted(controls, output, gamma_size) is None,
        output is Some && (forall|c: u64| #[trigger]
            controls.contains_key(c) && controls[c].gamma_size is Some ==> controls[c].data.output
                != output) ==> granted(controls, output, gamma_size) == gamma_size,
{
    if let Some(output) = output {
        law_taken(controls, 0, output);
    }
}

/// What a request for a control object leaves: the new one, with what it was
/// granted and what it was made for, and every other one as it was.
pub proof fn law_get_registers(
    controls: Map<u64, GammaControl>,
    control: u64,
    output: Option<u64>,
    gamma_size: Option<usize>,
    other: u64,
)
    ensures
        ({
            let after = after_get(controls, control, output, gamma_size);
            &&& after.contains_key(control)
            &&& after[control].gamma_size == granted(controls, output, gamma_size)
            &&& after[control].data.output == output
            &&& other != control ==> (after.contains_key(other) <==> controls.contains_key(other))
            &&& other != control && controls.contains_key(other) ==> after[other]
                == controls[other]
        }),
{
}

/// What is left once a control object has become invalid: the same ones, all as
/// they were, but for that one, which has lost its size and nothing else.
pub proof fn law_invalidate_takes_size(
    controls: Map<u64, GammaControl>,
    control: u64,
    other: u64,
)
    ensures
        ({
            let after = after_invalidate(controls, control);
            &&& after.contains_key(other) <==> controls.contains_key(other)
            &&& other != control && controls.contains_key(other) ==> after[other]
                == controls[other]
            &&& controls.contains_key(control) ==> after[control].gamma_size is None
                && after[control].data == controls[control].data
        }),
{
}

/// What comes of a request to set gamma tables. A control object that is not
/// there or has no size is ignored. Otherwise a table that could be read, with
/// two bytes for each value of three ramps of its size, is applied to its output
/// while that is alive: red first, then green, then blue, the low byte of each
/// value first in the little order and the high byte in the big one. Anything
/// else is a failure, with the sizes as its reason if the table has the wrong
/// one.
pub proof fn law_set_gamma_outcome(
    controls: Map<u64, GammaControl>,
    control: u64,
    contents: Option<Seq<u8>>,
    order: ByteOrder,
    alive: bool,
    action: SetGammaAction,
    i: int,
)
    requires
        is_set_gamma(controls, control, contents, order, alive, action),
    ensures
        !controls.contains_key(control) || controls[control].gamma_size is None
            ==> action is Ignored,
        controls.contains_key(control) ==> (controls[control].gamma_size matches Some(size) ==> {
            &&& contents is None ==> action is Failed && action->error is None
            &&& contents matches Some(bytes) ==> {
                &&& bytes.len() != size * 3 * 2 ==> action is Failed && action->error is Some
                    && action->error->0.expected == (size * 3 * 2) as usize && action->error->0.got
                    == bytes.len() as usize
                &&& bytes.len() == size * 3 * 2 && !alive ==> action is Failed
                    && action->error is None
                &&& bytes.len() == size * 3 * 2 && alive ==> action is Apply && Some(action->output)
                    == controls[control].data.output && action->ramps.0@.len() == size
                    && action->ramps.1@.len() == size && action->ramps.2@.len() == size
                &&& bytes.len() == size * 3 * 2 && alive && 0 <= i < size && order is Little ==> {
                    &&& action->ramps.0@[i] == bytes[2 * i] + 256 * bytes[2 * i + 1]
                    &&& action->ramps.1@[i] == bytes[2 * (size + i)] + 256 * bytes[2 * (size + i)
                        + 1]
                    &&& action->ramps.2@[i] == bytes[2 * (2 * size + i)] + 256 * bytes[2 * (2 * size
                        + i) + 1]
                }
                &&& bytes.len() == size * 3 * 2 && alive && 0 <= i < size && order is Big ==> {
                    &&& action->ramps.0@[i] == 256 * bytes[2 * i] + bytes[2 * i + 1]
                    &&& action->ramps.1@[i] == 256 * bytes[2 * (size + i)] + bytes[2 * (size + i)
                        + 1]
                    &&& action->ramps.2@[i] == 256 * bytes[2 * (2 * size + i)] + bytes[2 * (2 * size
                        + i) + 1]
                }
            }
        }),
{
    if let Some(size) = announced(controls, control) {
        if let Some(bytes) = contents {
            if action is Apply && 0 <= i < size {
                law_table_layout(bytes, size as int, order, action->ramps, i);
            }
        }
    }
}

/// What a request to set gamma tables leaves: every control object as it was,
/// unless it failed; then its own has lost its size, and nothing else changed.
pub proof fn law_set_gamma_leaves(
    controls: Map<u64, GammaControl>,
    control: u64,
    action: SetGammaAction,
    other: u64,
)
    ensures
        ({
            let after = after_set_gamma(controls, control, action);
            &&& after.contains_key(other) <==> controls.contains_key(other)
            &&& controls.contains_key(other) && (other != control || !(action is Failed))
                ==> after[other] == controls[other]
            &&& controls.contains_key(control) && action is Failed
                ==> after[control].gamma_size is None && after[control].data
                == controls[control].data
        }),
{
}

/// What is restored when a control object is destroyed: its own output, if it is
/// there, has a size and was made for it, and the output is alive, whatever other
/// control objects there are; otherwise nothing.
pub proof fn law_destroyed_restores_own(
    controls: Map<u64, GammaControl>,
    control: u64,
    output: u64,
    alive: bool,
)
    ensures
        to_restore(controls, control, alive) == Some(output) <==> alive && controls.contains_key(
            control,
        ) && controls[control].gamma_size is Some && controls[control].data.output == Some(output),
        owns(controls, control, output) && alive ==> to_restore(controls, control, alive) == Some(
            output,
        ),
        to_restore(controls, control, alive) is None <==> !alive || !controls.contains_key(control)
            || controls[control].gamma_size is None || controls[control].data.output is None,
{
}

/// Other control objects have no say in what one announces, in what is restored
/// after it, or in what comes of setting its gamma tables.
pub proof fn law_others_have_no_say(
    a: Map<u64, GammaControl>,
    b: Map<u64, GammaControl>,
    control: u64,
    contents: Option<Seq<u8>>,
    order: ByteOrder,
    alive: bool,
    action: SetGammaAction,
)
    requires
        a.contains_key(control),
        b.contains_key(control),
        a[control] == b[control],
    ensures
        announced(a, control) == announced(b, control),
        to_restore(a, control, alive) == to_restore(b, control, alive),
        is_set_gamma(a, control, contents, order, alive, action) <==> is_set_gamma(
            b,
            control,
            contents,
            order,
            alive,
            action,
        ),
{
}

} // verus!
