use rgx::app::{PANEL_EXPLAIN, PANEL_TEST};
use rgx::dispatch::{mouse_effect, Cells, MouseEffect, MouseInput, PanelAreas};

fn areas() -> PanelAreas {
    PanelAreas {
        regex: Cells { x: 0, y: 0, width: 40, height: 3 },
        test: Cells { x: 0, y: 3, width: 40, height: 10 },
        replace: Cells { x: 0, y: 13, width: 40, height: 3 },
        matches: Cells { x: 40, y: 0, width: 40, height: 8 },
        explain: Cells { x: 40, y: 8, width: 40, height: 8 },
    }
}

#[test]
fn mouse_click_focuses_the_panel_under_the_pointer() {
    assert_eq!(mouse_effect(&areas(), MouseInput::LeftClick, 5, 4), MouseEffect::Focus(PANEL_TEST));
    assert_eq!(mouse_effect(&areas(), MouseInput::LeftClick, 50, 10), MouseEffect::Focus(PANEL_EXPLAIN));
    assert_eq!(mouse_effect(&areas(), MouseInput::LeftClick, 100, 100), MouseEffect::Nothing);
    // The right and bottom edges are outside a panel.
    assert_eq!(mouse_effect(&areas(), MouseInput::LeftClick, 80, 10), MouseEffect::Nothing);
}

#[test]
fn mouse_wheel_scrolls_what_is_under_the_pointer() {
    assert_eq!(mouse_effect(&areas(), MouseInput::ScrollUp, 5, 4), MouseEffect::TestLineUp);
    assert_eq!(mouse_effect(&areas(), MouseInput::ScrollDown, 45, 2), MouseEffect::NextMatch);
    assert_eq!(mouse_effect(&areas(), MouseInput::ScrollUp, 45, 2), MouseEffect::PreviousMatch);
    assert_eq!(mouse_effect(&areas(), MouseInput::ScrollDown, 45, 9), MouseEffect::ExplainDown);
    assert_eq!(mouse_effect(&areas(), MouseInput::ScrollDown, 5, 1), MouseEffect::Nothing);
    assert_eq!(mouse_effect(&areas(), MouseInput::Other, 5, 4), MouseEffect::Nothing);
}
