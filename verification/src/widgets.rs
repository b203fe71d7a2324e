//! The common widgets: their state, the content they collect, and the
//! camera a body is drawn with.
use vstd::prelude::*;

verus! {

/// Marks the set of common widget systems.
pub struct CommonWidgetsPlugin;

/// Tells that a content rule applied.
pub struct Implemented;

/// The content rules of a div: what may become its children.
pub struct DivDesign;

impl DivDesign {
    /// A text child: `text_entity` is the text node made for the string,
    /// appended to `content`.
    pub fn push_text(&self, content: &mut Vec<u64>, text_entity: u64) -> (r: Implemented)
        ensures
            final(content)@ == old(content)@.push(text_entity),
    {
        content.push(text_entity);
        Implemented
    }

    /// A child element (a div or an element built on a div), appended to
    /// `content`.
    pub fn push_content(&self, content: &mut Vec<u64>, entity: u64) -> (r: Implemented)
        ensures
            final(content)@ == old(content)@.push(entity),
    {
        content.push(entity);
        Implemented
    }
}

/// The root of a UI tree, drawn with its own camera or the default one.
pub struct Body {
    target_camera: Option<u64>,
}

impl Body {
    pub fn new(target_camera: Option<u64>) -> (b: Self)
        ensures
            b.spec_target_camera() == target_camera,
    {
        Body { target_camera }
    }

    pub closed spec fn spec_target_camera(&self) -> Option<u64> {
        self.target_camera
    }

    /// The camera the body asks for, if any.
    pub fn target_camera(&self) -> (c: Option<u64>)
        ensures
            c == self.spec_target_camera(),
    {
        self.target_camera
    }
}

/// The camera a body is drawn with: its own, else the default one.
pub open spec fn spec_body_camera(target_camera: Option<u64>, default_camera: u64) -> u64 {
    match target_camera {
        Some(c) => c,
        None => default_camera,
    }
}

/// The camera each body is drawn with, in order. A default UI camera must
/// exist as soon as there is a body, whether or not the body names its own.
pub fn body_system(bodies: &Vec<Body>, default_camera: Option<u64>) -> (cameras: Vec<u64>)
    requires
        bodies@.len() > 0 ==> default_camera is Some,
    ensures
        cameras@.len() == bodies@.len(),
        forall|i: int|
            0 <= i < bodies@.len() ==> #[trigger] cameras@[i] == spec_body_camera(
                bodies@[i].spec_target_camera(),
                default_camera->0,
            ),
{
    let mut cameras: Vec<u64> = Vec::new();
    let mut i: usize = 0;
    while i < bodies.len()
        invariant
            i <= bodies@.len(),
            bodies@.len() > 0 ==> default_camera is Some,
            cameras@.len() == i,
            forall|k: int|
                0 <= k < i ==> #[trigger] cameras@[k] == spec_body_camera(
                    bodies@[k].spec_target_camera(),
                    default_camera->0,
                ),
        decreases bodies.len() - i,
    {
        let default = match default_camera {
            Some(c) => c,
            None => {
                assert(false);
                0
            },
        };
        let camera = match bodies[i].target_camera() {
            Some(c) => c,
            None => default,
        };
        cameras.push(camera);
        i += 1;
    }
    cameras
}

/// A button.
pub struct Button {}

/// The handle of a slider.
pub struct SliderHandle {
    abc: u32,
}

impl SliderHandle {
    pub closed spec fn spec_abc(&self) -> u32 {
        self.abc
    }
}

impl Default for SliderHandle {
    fn default() -> (h: Self)
        ensures
            h.spec_abc() == 0,
    {
        SliderHandle { abc: 0 }
    }
}

} // verus!
