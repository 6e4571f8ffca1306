use space_golf::launch::{on_left_click, ButtonState, Launch};
use space_golf::vector::IVec3;

#[test]
fn press_records_mouse_position() {
    let out = on_left_click(None, ButtonState::Pressed, IVec3::new(10, 20, 0));
    assert_eq!(out, (Some(IVec3::new(10, 20, 0)), None));
    let again = on_left_click(Some(IVec3::new(1, 1, 0)), ButtonState::Pressed, IVec3::new(3, 4, 0));
    assert_eq!(again, (Some(IVec3::new(3, 4, 0)), None));
}

#[test]
fn release_launches_with_reversed_drag() {
    let out = on_left_click(Some(IVec3::new(100, 50, 0)), ButtonState::Released, IVec3::new(40, 70, 0));
    assert_eq!(
        out,
        (
            None,
            Some(Launch { position: IVec3::new(40, 70, 0), velocity: IVec3::new(60, -20, 0) })
        )
    );
}

#[test]
fn release_without_press_does_nothing() {
    let out = on_left_click(None, ButtonState::Released, IVec3::new(5, 5, 0));
    assert_eq!(out, (None, None));
}
