//! What a frame draws, and in which colours: the decisions behind the
//! canvas calls, as plain values.

use vstd::prelude::*;

use crate::clumpiverse::{Clumpiverse, NO_MASS};

verus! {

/// How the canvas is prepared before a frame.
pub enum CanvasClear {
    /// Erase it.
    Clear,
    /// Paint it over with this translucent colour, leaving a fading trail.
    Fill(&'static str),
    /// Leave it as it is, keeping the full trail.
    Keep,
}

/// The colour that picks `purple`, `black` or `white` for themes 0, 1 and 2,
/// and the empty colour for any other theme.
pub open spec fn by_theme(theme: u8, purple: Seq<char>, black: Seq<char>, white: Seq<char>) -> Seq<
    char,
> {
    if theme == 0 {
        purple
    } else if theme == 1 {
        black
    } else if theme == 2 {
        white
    } else {
        ""@
    }
}

/// The translucent colour that fades old frames into the background.
pub fn trail_color(theme: u8) -> (c: &'static str)
    ensures
        c@ == by_theme(theme, "#29133705"@, "#00000005"@, "#ffffff05"@),
{
    match theme {
        0 => "#29133705",
        1 => "#00000005",
        2 => "#ffffff05",
        _ => "",
    }
}

/// How the canvas is prepared for trail setting `trail`: erased for none
/// (0), painted over with the theme's trail colour for fade (1), and kept
/// for full (2) or any other code.
pub fn clear_action(trail: u8, theme: u8) -> (a: CanvasClear)
    ensures
        trail == 0 ==> a is Clear,
        trail == 1 ==> (a matches CanvasClear::Fill(c) && c@ == by_theme(
            theme,
            "#29133705"@,
            "#00000005"@,
            "#ffffff05"@,
        )),
        trail != 0 && trail != 1 ==> a is Keep,
{
    match trail {
        0 => CanvasClear::Clear,
        1 => CanvasClear::Fill(trail_color(theme)),
        _ => CanvasClear::Keep,
    }
}

/// The colour of the radius disc of matter `matter`: magenta for
/// antigrav (0), red for elastic (1), cyan for gas (2), and the empty
/// colour for any other code.
pub fn matter_color(matter: u8) -> (c: &'static str)
    ensures
        matter == 0 ==> c@ == "#87028780"@,
        matter == 1 ==> c@ == "#8a063580"@,
        matter == 2 ==> c@ == "#015e9080"@,
        matter > 2 ==> c@ == ""@,
{
    match matter {
        0 => "#87028780",
        1 => "#8a063580",
        2 => "#015e9080",
        _ => "",
    }
}

/// The colour of the Mass centres.
pub fn center_color(theme: u8) -> (c: &'static str)
    ensures
        c@ == by_theme(theme, "#fff"@, "#fff"@, "#000"@),
{
    match theme {
        0 => "#fff",
        1 => "#fff",
        2 => "#000",
        _ => "",
    }
}

/// The colour that fills grabbed Masses.
pub fn grab_color(theme: u8) -> (c: &'static str)
    ensures
        c@ == by_theme(theme, "#fff3"@, "#fff3"@, "#0003"@),
{
    match theme {
        0 => "#fff3",
        1 => "#fff3",
        2 => "#0003",
        _ => "",
    }
}

/// The colour that fills hovered Masses.
pub fn hover_color(theme: u8) -> (c: &'static str)
    ensures
        c@ == by_theme(theme, "#fff1"@, "#fff1"@, "#0001"@),
{
    match theme {
        0 => "#fff1",
        1 => "#fff1",
        2 => "#0001",
        _ => "",
    }
}

/// The colour that outlines the focused Mass.
pub fn focus_color(theme: u8) -> (c: &'static str)
    ensures
        c@ == by_theme(theme, "#fff8"@, "#fff8"@, "#0008"@),
{
    match theme {
        0 => "#fff8",
        1 => "#fff8",
        2 => "#0008",
        _ => "",
    }
}

/// The colour of connection lines; for an unknown theme the stroke colour
/// is left as it was.
pub fn connection_color(theme: u8) -> (c: Option<&'static str>)
    ensures
        theme <= 2 ==> (c matches Some(s) && s@ == by_theme(theme, "#fff6"@, "#fff6"@, "#0003"@)),
        theme > 2 ==> c is None,
{
    match theme {
        0 => Some("#fff6"),
        1 => Some("#fff6"),
        2 => Some("#0003"),
        _ => None,
    }
}

/// Whether the Mass centres are drawn: for every guide setting but none (2).
pub fn show_centers(guide: u8) -> (b: bool)
    ensures
        b == (guide != 2),
{
    guide != 2
}

/// The layers of one frame.
pub struct FramePlan {
    /// How the canvas is prepared.
    pub clear: CanvasClear,
    /// Whether the Mass centres are drawn.
    pub centers: bool,
    /// Whether the grabbed Masses are highlighted (a grab is in progress);
    /// otherwise the Masses under the pointer are.
    pub grabbed: bool,
    /// The Mass outlined as focused, if any.
    pub focused: Option<usize>,
    /// Whether the connections are drawn (guide all, 0).
    pub connections: bool,
}

/// The layers of the next frame: the canvas is prepared for the trail
/// setting, radius discs are always drawn and centres unless the guide is
/// none, grabbed Masses are highlighted during a grab and hovered ones
/// otherwise, the focused Mass is outlined when there is one, and the
/// connections are drawn under guide all.
pub fn frame_plan(c: &Clumpiverse) -> (p: FramePlan)
    ensures
        c@.trail == 0 ==> p.clear is Clear,
        c@.trail == 1 ==> (p.clear matches CanvasClear::Fill(col) && col@ == by_theme(
            c@.theme,
            "#29133705"@,
            "#00000005"@,
            "#ffffff05"@,
        )),
        c@.trail != 0 && c@.trail != 1 ==> p.clear is Keep,
        p.centers == (c@.guide != 2),
        p.grabbed == c@.grabbing,
        p.focused == (if c@.focused == NO_MASS {
            None
        } else {
            Some(c@.focused)
        }),
        p.connections == (c@.guide == 0),
{
    let focused = c.focused_mass();
    FramePlan {
        clear: clear_action(c.trail(), c.theme()),
        centers: show_centers(c.guide()),
        grabbed: c.grabbing(),
        focused: if focused == NO_MASS {
            None
        } else {
            Some(focused)
        },
        connections: c.guide() == 0,
    }
}

} // verus!
