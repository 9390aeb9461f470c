use vstd::prelude::*;

verus! {

/// What the player can ask for from the keyboard.
#[allow(non_camel_case_types)]
#[derive(Clone, Copy, Debug, PartialEq, Eq, Hash, Structural)]
pub enum InputAction {
    Shoot,
    Move_Up,
    Move_Down,
    Move_Left,
    Move_Right,
}

/// Whether `action` is among the `pressed` actions.
pub fn is_pressed(pressed: &Vec<InputAction>, action: InputAction) -> (r: bool)
    ensures
        r == pressed@.contains(action),
{
    let mut i: usize = 0;
    while i < pressed.len()
        invariant
            0 <= i <= pressed.len(),
            forall|k: int| 0 <= k < i ==> #[trigger] pressed@[k] != action,
        decreases pressed.len() - i,
    {
        if pressed[i] == action {
            return true;
        }
        i = i + 1;
    }
    false
}

} // verus!
