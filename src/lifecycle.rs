//! The order in which a render session's steps may run: initialise the
//! device context, load the scene configuration, render, clean up.
use vstd::prelude::*;

verus! {

/// Where a render session stands.
#[derive(Clone, Copy, Debug, PartialEq, Eq, Structural)]
pub enum Stage {
    Uninitialized,
    Initialized,
    Configured,
    Rendered,
    CleanedUp,
}

/// A step that the session is asked to take.
#[derive(Clone, Copy, Debug, PartialEq, Eq, Structural)]
pub enum Step {
    Init,
    Configure,
    Render,
    Cleanup,
}

/// A step asked for in a stage that does not allow it.
#[derive(Clone, Copy, Debug, PartialEq, Eq, Structural)]
pub enum LifecycleError {
    OutOfOrder { stage: Stage, step: Step },
}

/// The stage after taking `step` in `stage`, or `None` where the step is not
/// allowed there. A context is created once; a scene is loaded only into an
/// initialised context and may be reloaded; rendering needs a loaded scene and
/// may be repeated; cleanup ends any started session.
pub open spec fn next_stage(stage: Stage, step: Step) -> Option<Stage> {
    match (stage, step) {
        (Stage::Uninitialized, Step::Init) => Some(Stage::Initialized),
        (Stage::Initialized, Step::Configure) => Some(Stage::Configured),
        (Stage::Configured, Step::Configure) => Some(Stage::Configured),
        (Stage::Rendered, Step::Configure) => Some(Stage::Configured),
        (Stage::Configured, Step::Render) => Some(Stage::Rendered),
        (Stage::Rendered, Step::Render) => Some(Stage::Rendered),
        (Stage::Initialized, Step::Cleanup) => Some(Stage::CleanedUp),
        (Stage::Configured, Step::Cleanup) => Some(Stage::CleanedUp),
        (Stage::Rendered, Step::Cleanup) => Some(Stage::CleanedUp),
        _ => None,
    }
}

/// Takes one step of the session, or reports that it is out of order.
pub fn advance(stage: Stage, step: Step) -> (r: Result<Stage, LifecycleError>)
    ensures
        r == match next_stage(stage, step) {
            Some(s) => Ok(s),
            None => Err(LifecycleError::OutOfOrder { stage, step }),
        },
{
    match (stage, step) {
        (Stage::Uninitialized, Step::Init) => Ok(Stage::Initialized),
        (Stage::Initialized, Step::Configure) => Ok(Stage::Configured),
        (Stage::Configured, Step::Configure) => Ok(Stage::Configured),
        (Stage::Rendered, Step::Configure) => Ok(Stage::Configured),
        (Stage::Configured, Step::Render) => Ok(Stage::Rendered),
        (Stage::Rendered, Step::Render) => Ok(Stage::Rendered),
        (Stage::Initialized, Step::Cleanup) => Ok(Stage::CleanedUp),
        (Stage::Configured, Step::Cleanup) => Ok(Stage::CleanedUp),
        (Stage::Rendered, Step::Cleanup) => Ok(Stage::CleanedUp),
        _ => Err(LifecycleError::OutOfOrder { stage, step }),
    }
}

/// The stage after taking each of `steps` in turn from `stage`, or `None` if
/// one of them is out of order.
pub open spec fn run(stage: Stage, steps: Seq<Step>) -> Option<Stage>
    decreases steps.len(),
{
    if steps.len() == 0 {
        Some(stage)
    } else {
        match next_stage(stage, steps[0]) {
            Some(s) => run(s, steps.drop_first()),
            None => None,
        }
    }
}

/// A stage in which a device context exists.
pub open spec fn has_context(stage: Stage) -> bool {
    stage is Initialized || stage is Configured || stage is Rendered
}

/// A stage in which a scene has been loaded.
pub open spec fn has_scene(stage: Stage) -> bool {
    stage is Configured || stage is Rendered
}

/// No session renders before it has created a device context and loaded a
/// scene: in any accepted run of steps from the start, every render comes
/// after an initialisation and after a scene load.
pub proof fn lemma_render_needs_context_and_scene(steps: Seq<Step>, i: int)
    requires
        run(Stage::Uninitialized, steps) is Some,
        0 <= i < steps.len(),
        steps[i] == Step::Render,
    ensures
        exists|j: int| 0 <= j < i && steps[j] == Step::Init,
        exists|j: int| 0 <= j < i && steps[j] == Step::Configure,
{
    lemma_stage_history(Stage::Uninitialized, steps, i);
}

/// Walking `steps` from `stage` up to step `i` (exclusive) and then rendering:
/// either the starting stage already held a scene, or a load came first, and
/// likewise for the context and an initialisation.
proof fn lemma_stage_history(stage: Stage, steps: Seq<Step>, i: int)
    requires
        run(stage, steps) is Some,
        0 <= i < steps.len(),
        steps[i] == Step::Render,
    ensures
        has_scene(stage) || exists|j: int| 0 <= j < i && steps[j] == Step::Configure,
        has_context(stage) || exists|j: int| 0 <= j < i && steps[j] == Step::Init,
    decreases i,
{
    if i > 0 {
        let s = next_stage(stage, steps[0]).unwrap();
        let rest = steps.drop_first();
        lemma_stage_history(s, rest, i - 1);
        if exists|j: int| 0 <= j < i - 1 && rest[j] == Step::Configure {
            let j = choose|j: int| 0 <= j < i - 1 && rest[j] == Step::Configure;
            assert(steps[j + 1] == Step::Configure);
        }
        if exists|j: int| 0 <= j < i - 1 && rest[j] == Step::Init {
            let j = choose|j: int| 0 <= j < i - 1 && rest[j] == Step::Init;
            assert(steps[j + 1] == Step::Init);
        }
        if has_scene(s) && !has_scene(stage) {
            assert(steps[0] == Step::Configure);
        }
        if has_context(s) && !has_context(stage) {
            assert(steps[0] == Step::Init);
        }
    }
}

} // verus!
