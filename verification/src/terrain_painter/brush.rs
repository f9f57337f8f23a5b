//! The sculpting brush: its tools, and what a frame of mouse input asks of
//! it. The strokes themselves are floating-point work done by the
//! application.
use vstd::prelude::*;

verus! {

/// What a brush stroke does to the terrain.
#[derive(Clone, Copy, Debug, PartialEq, Eq, Structural)]
pub enum TerrainTool {
    Raise,
    Lower,
    Flatten,
    Smooth,
}

/// What the brush does with a frame's input.
#[derive(Clone, Copy, Debug, PartialEq, Eq, Structural)]
pub enum BrushStep {
    /// Nothing this frame.
    Idle,
    /// Take the height under the cursor as the flatten target, and stop
    /// sampling.
    SampleFlattenTarget,
    /// Paint a stroke; `invert` turns raising into lowering and back.
    Paint { invert: bool },
}

/// Whether the right button inverts a tool: it does for raising and
/// lowering; flattening and smoothing paint the same with either button.
pub open spec fn tool_inverts(tool: TerrainTool) -> bool {
    tool == TerrainTool::Raise || tool == TerrainTool::Lower
}

/// The brush's decision for a frame: whether the brush is active, whether
/// the interface has the pointer or keyboard, whether the brush is waiting
/// for a click to sample the flatten target, the state of the mouse buttons,
/// and the tool in use.
pub fn brush_step(
    active: bool,
    ui_captured: bool,
    flatten_sampling: bool,
    left_just_pressed: bool,
    left_pressed: bool,
    right_pressed: bool,
    tool: TerrainTool,
) -> (step: BrushStep)
    ensures
        step == if !active || ui_captured {
            BrushStep::Idle
        } else if flatten_sampling {
            if left_just_pressed {
                BrushStep::SampleFlattenTarget
            } else {
                BrushStep::Idle
            }
        } else if !left_pressed && !right_pressed {
            BrushStep::Idle
        } else {
            BrushStep::Paint { invert: right_pressed && tool_inverts(tool) }
        },
        active && !ui_captured && !flatten_sampling && (left_pressed || right_pressed) ==> {
            &&& tool == TerrainTool::Raise ==> step == (BrushStep::Paint { invert: right_pressed })
            &&& tool == TerrainTool::Lower ==> step == (BrushStep::Paint { invert: right_pressed })
            &&& tool == TerrainTool::Flatten ==> step == (BrushStep::Paint { invert: false })
            &&& tool == TerrainTool::Smooth ==> step == (BrushStep::Paint { invert: false })
        },
{
    if !active || ui_captured {
        return BrushStep::Idle;
    }
    if flatten_sampling {
        if left_just_pressed {
            return BrushStep::SampleFlattenTarget;
        }
        return BrushStep::Idle;
    }
    if !left_pressed && !right_pressed {
        return BrushStep::Idle;
    }
    let invert = match tool {
        TerrainTool::Raise | TerrainTool::Lower => right_pressed,
        TerrainTool::Flatten | TerrainTool::Smooth => false,
    };
    BrushStep::Paint { invert }
}

/// The right button inverts raising and lowering, and nothing else: raising
/// with it lowers, lowering with it raises, and flattening and smoothing
/// paint the same with either button.
pub proof fn lemma_right_button_inverts()
    ensures
        tool_inverts(TerrainTool::Raise),
        tool_inverts(TerrainTool::Lower),
        !tool_inverts(TerrainTool::Flatten),
        !tool_inverts(TerrainTool::Smooth),
{
}

} // verus!
