//! Camera profiles: a video mode and control values under a name.

use vstd::prelude::*;
use vstd::string::*;

verus! {

/// The video mode that a profile asks for.
#[derive(Debug, Clone)]
pub struct ProfileVideoMode {
    pub width: u32,
    pub height: u32,
    pub fps: u32,
    pub format: String,
}

/// A camera profile. The controls stand in the order in which they are applied. What is made of
/// them is the same whether or not a name occurs twice; in a profile that is well formed none does.
#[derive(Debug, Clone)]
pub struct Profile {
    pub name: String,
    pub description: String,
    pub video_mode: Option<ProfileVideoMode>,
    pub controls: Vec<(String, i64)>,
}

impl Profile {
    /// Whether no two controls have the same name.
    pub open spec fn wf(self) -> bool {
        forall|i: int, j: int|
            0 <= i < j < self.controls@.len() ==> (#[trigger] self.controls@[i]).0@ != (
            #[trigger] self.controls@[j]).0@
    }

    /// The profile that is used where the wanted one cannot be loaded: it asks for no mode and
    /// sets no control.
    pub fn fallback() -> (r: Self)
        ensures
            r.name@ == "fallback"@,
            r.description@ == "Auto-generated fallback"@,
            r.video_mode is None,
            r.controls@.len() == 0,
            r.wf(),
    {
        Profile {
            name: "fallback".to_owned(),
            description: "Auto-generated fallback".to_owned(),
            video_mode: None,
            controls: Vec::new(),
        }
    }
}

} // verus!
