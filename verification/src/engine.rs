use std::collections::HashSet;

use vstd::prelude::*;

use crate::component::ComponentDetails;
use crate::engine_types::EngineTypes;
use crate::scene::Scene;

verus! {

/// The abstract state of the engine's scenes.
pub ghost struct SceneSetView<C: ComponentDetails, E: EngineTypes> {
    pub scenes: Seq<Scene<C, E>>,
    pub active_scene: usize,
    pub last_active_scene: usize,
    pub initialized_scene: bool,
}

/// The scenes of the engine, which one is shown, and whether it has been initialized.
///
/// A scene is initialized on the first redraw that shows it; when the active scene changes,
/// the next redraw only takes note of the change, and the one after initializes the newly
/// active scene.
pub struct SceneSet<C: ComponentDetails, E: EngineTypes> {
    scenes: Vec<Scene<C, E>>,
    active_scene: usize,
    last_active_scene: usize,
    initialized_scene: bool,
}

impl<C: ComponentDetails, E: EngineTypes> View for SceneSet<C, E> {
    type V = SceneSetView<C, E>;

    closed spec fn view(&self) -> SceneSetView<C, E> {
        SceneSetView {
            scenes: self.scenes@,
            active_scene: self.active_scene,
            last_active_scene: self.last_active_scene,
            initialized_scene: self.initialized_scene,
        }
    }
}

/// What one redraw does: whether the active scene is initialized first (and which), and
/// whether a frame is then updated and rendered.
#[derive(Debug, Clone, Copy, PartialEq, Eq)]
pub struct RedrawPlan {
    pub initialize_scene: Option<usize>,
    pub run_frame: bool,
}

/// The redraw plan for a scene set in state `s`, and the state after it.
pub open spec fn redraw<C: ComponentDetails, E: EngineTypes>(s: SceneSetView<C, E>) -> (RedrawPlan, SceneSetView<C, E>) {
    if s.scenes.len() == 0 {
        (RedrawPlan { initialize_scene: None, run_frame: false }, s)
    } else {
        let initialize_scene = if s.initialized_scene {
            None
        } else {
            Some(s.active_scene)
        };
        if s.active_scene != s.last_active_scene {
            (
                RedrawPlan { initialize_scene, run_frame: false },
                SceneSetView { initialized_scene: false, last_active_scene: s.active_scene, ..s },
            )
        } else {
            (RedrawPlan { initialize_scene, run_frame: true }, SceneSetView { initialized_scene: true, ..s })
        }
    }
}

impl<C: ComponentDetails, E: EngineTypes> SceneSet<C, E> {
    /// No scenes; the first scene attached is the active one, and no scene was shown yet.
    pub fn new() -> (r: Self)
        ensures
            r@.scenes.len() == 0,
            r@.active_scene == 0,
            r@.last_active_scene == usize::MAX,
            !r@.initialized_scene,
    {
        SceneSet { scenes: Vec::new(), active_scene: 0, last_active_scene: usize::MAX, initialized_scene: false }
    }

    /// Adds a scene after the others and returns its index.
    pub fn attach_scene(&mut self, scene: Scene<C, E>) -> (index: usize)
        ensures
            index == old(self)@.scenes.len(),
            final(self)@ == (SceneSetView { scenes: old(self)@.scenes.push(scene), ..old(self)@ }),
    {
        let index = self.scenes.len();
        self.scenes.push(scene);
        index
    }

    pub fn scene_count(&self) -> (r: usize)
        ensures
            r == self@.scenes.len(),
    {
        self.scenes.len()
    }

    /// The index of the scene that is shown.
    pub fn active_scene(&self) -> (r: usize)
        ensures
            r == self@.active_scene,
    {
        self.active_scene
    }

    /// Shows scene `index` from the next redraw on.
    pub fn set_active_scene(&mut self, index: usize)
        ensures
            final(self)@ == (SceneSetView { active_scene: index, ..old(self)@ }),
    {
        self.active_scene = index;
    }

    /// Whether the active scene has been initialized.
    pub fn initialized_scene(&self) -> (r: bool)
        ensures
            r == self@.initialized_scene,
    {
        self.initialized_scene
    }

    /// Makes the active scene be initialized again on the next redraw.
    pub fn set_initialized_scene(&mut self, initialized: bool)
        ensures
            final(self)@ == (SceneSetView { initialized_scene: initialized, ..old(self)@ }),
    {
        self.initialized_scene = initialized;
    }

    /// The scene at `index`, for change.
    pub fn scene_mut(&mut self, index: usize) -> (r: &mut Scene<C, E>)
        requires
            index < old(self)@.scenes.len(),
        ensures
            *r == old(self)@.scenes[index as int],
            final(self)@ == (SceneSetView { scenes: old(self)@.scenes.update(index as int, *final(r)), ..old(self)@ }),
    {
        &mut self.scenes[index]
    }

    /// Decides what a redraw does: nothing without scenes; otherwise the active scene is
    /// initialized first if it was not yet; then, if another scene became active since the
    /// last redraw, the change is noted and no frame is run (the next redraw initializes the
    /// new scene); else a frame is run.
    pub fn plan_redraw(&mut self) -> (p: RedrawPlan)
        ensures
            (p, final(self)@) == redraw(old(self)@),
    {
        if self.scenes.len() == 0 {
            return RedrawPlan { initialize_scene: None, run_frame: false };
        }
        let initialize_scene = if self.initialized_scene {
            None
        } else {
            Some(self.active_scene)
        };
        self.initialized_scene = true;
        if self.active_scene != self.last_active_scene {
            self.initialized_scene = false;
            self.last_active_scene = self.active_scene;
            RedrawPlan { initialize_scene, run_frame: false }
        } else {
            RedrawPlan { initialize_scene, run_frame: true }
        }
    }
}

/// The abstract state of the frame counter and the mouse buttons.
pub ghost struct FrameInputView {
    pub frames_elapsed: u128,
    pub mouse_buttons: Set<u32>,
}

/// The mouse buttons after an input event of `button`: a press of a button that is not down
/// puts it down, and another event of a button that is down lifts it.
pub open spec fn mouse_toggled(buttons: Set<u32>, button: u32) -> Set<u32> {
    if buttons.contains(button) {
        buttons.remove(button)
    } else {
        buttons.insert(button)
    }
}

/// How many frames the engine has run, and which mouse buttons are down, each button named by
/// a number.
#[derive(Debug)]
pub struct FrameInput {
    frames_elapsed: u128,
    mouse_buttons: HashSet<u32>,
}

impl View for FrameInput {
    type V = FrameInputView;

    closed spec fn view(&self) -> FrameInputView {
        FrameInputView { frames_elapsed: self.frames_elapsed, mouse_buttons: self.mouse_buttons@ }
    }
}

impl FrameInput {
    /// No frame run yet, and no button down.
    pub fn new() -> (r: Self)
        ensures
            r@.frames_elapsed == 0,
            r@.mouse_buttons == Set::<u32>::empty(),
    {
        FrameInput { frames_elapsed: 0, mouse_buttons: HashSet::new() }
    }

    pub fn frames_elapsed(&self) -> (r: u128)
        ensures
            r == self@.frames_elapsed,
    {
        self.frames_elapsed
    }

    /// Counts a frame that has run.
    pub fn frame_finished(&mut self)
        requires
            old(self)@.frames_elapsed < u128::MAX,
        ensures
            final(self)@ == (FrameInputView { frames_elapsed: (old(self)@.frames_elapsed + 1) as u128, ..old(self)@ }),
    {
        self.frames_elapsed = self.frames_elapsed + 1;
    }

    /// Whether `button` is down.
    pub fn is_mouse_button_down(&self, button: u32) -> (r: bool)
        ensures
            r == self@.mouse_buttons.contains(button),
    {
        self.mouse_buttons.contains(&button)
    }

    /// Takes note of an input event of `button`: it goes down if it was up, and up if it was
    /// down.
    pub fn toggle_mouse_button(&mut self, button: u32)
        ensures
            final(self)@ == (FrameInputView { mouse_buttons: mouse_toggled(old(self)@.mouse_buttons, button), ..old(self)@ }),
    {
        if self.mouse_buttons.contains(&button) {
            self.mouse_buttons.remove(&button);
        } else {
            self.mouse_buttons.insert(button);
        }
    }
}

} // verus!
