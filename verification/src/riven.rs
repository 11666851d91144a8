//! Resource decoders for the game's own record formats, and the stack layout
//! of its containers.

pub mod blst;
pub mod card;
pub mod flst;
pub mod hspt;
pub mod mlst;
pub mod name;
pub mod plst;
pub mod rmap;
pub mod script;
pub mod sfxe;
pub mod slst;
pub mod tbmp;
pub mod tcur;

use vstd::prelude::*;

verus! {

/// A named logical grouping of containers: one chapter of game content.
#[derive(Debug, PartialEq, Eq, Hash, Clone, Copy, Structural)]
pub enum Stack {
    A,
    B,
    G,
    J,
    O,
    P,
    R,
    T,
    Extras,
    Exe,
}

impl Stack {
    /// A stable position for this stack inside any per-stack table.
    pub open spec fn spec_ordinal(self) -> int {
        match self {
            Stack::A => 0,
            Stack::B => 1,
            Stack::G => 2,
            Stack::J => 3,
            Stack::O => 4,
            Stack::P => 5,
            Stack::R => 6,
            Stack::T => 7,
            Stack::Extras => 8,
            Stack::Exe => 9,
        }
    }

    /// The position of this stack inside any per-stack table.
    pub fn ordinal(&self) -> (r: usize)
        ensures
            r == self.spec_ordinal(),
            r < 10,
    {
        match self {
            Stack::A => 0,
            Stack::B => 1,
            Stack::G => 2,
            Stack::J => 3,
            Stack::O => 4,
            Stack::P => 5,
            Stack::R => 6,
            Stack::T => 7,
            Stack::Extras => 8,
            Stack::Exe => 9,
        }
    }
}

impl crate::stack::Stack for Stack {
    fn name(&self) -> (r: &'static str) {
        match self {
            Stack::A => "aspit",
            Stack::B => "bspit",
            Stack::G => "gspit",
            Stack::J => "jspit",
            Stack::O => "ospit",
            Stack::P => "pspit",
            Stack::R => "rspit",
            Stack::T => "tspit",
            Stack::Extras => "extras",
            Stack::Exe => "exe",
        }
    }

    fn all() -> (r: Vec<Self>) {
        let mut v: Vec<Stack> = Vec::new();
        v.push(Stack::A);
        v.push(Stack::B);
        v.push(Stack::G);
        v.push(Stack::J);
        v.push(Stack::O);
        v.push(Stack::P);
        v.push(Stack::R);
        v.push(Stack::T);
        v.push(Stack::Extras);
        v.push(Stack::Exe);
        v
    }
}



/// The container files of each stack in the five-disc release, indexed by
/// stack ordinal: the resolver consults each stack's files in this order.
pub fn stack_files() -> (r: Vec<Vec<Vec<String>>>)
    ensures
        r@.len() == 10,
{
    let mut all: Vec<Vec<Vec<String>>> = Vec::new();
    let mut files: Vec<Vec<String>> = Vec::new();
    files.push(vec!["a_Data.MHK".to_owned()]);
    files.push(vec!["a_Sounds.MHK".to_owned()]);
    all.push(files);
    let mut files: Vec<Vec<String>> = Vec::new();
    files.push(vec!["b_Data.MHK".to_owned()]);
    files.push(vec!["b_Sounds.MHK".to_owned()]);
    files.push(vec!["b2_data.MHK".to_owned()]);
    all.push(files);
    let mut files: Vec<Vec<String>> = Vec::new();
    files.push(vec!["g_Data.MHK".to_owned()]);
    files.push(vec!["g_Sounds.MHK".to_owned()]);
    all.push(files);
    let mut files: Vec<Vec<String>> = Vec::new();
    files.push(vec!["j_Data1.MHK".to_owned()]);
    files.push(vec!["j_Data2.MHK".to_owned()]);
    files.push(vec!["j_Sounds.MHK".to_owned()]);
    all.push(files);
    let mut files: Vec<Vec<String>> = Vec::new();
    files.push(vec!["o_Data.MHK".to_owned()]);
    files.push(vec!["o_Sounds.MHK".to_owned()]);
    all.push(files);
    let mut files: Vec<Vec<String>> = Vec::new();
    files.push(vec!["p_Data.MHK".to_owned()]);
    files.push(vec!["p_Sounds.MHK".to_owned()]);
    all.push(files);
    let mut files: Vec<Vec<String>> = Vec::new();
    files.push(vec!["r_Data.MHK".to_owned()]);
    files.push(vec!["r_Sounds.MHK".to_owned()]);
    all.push(files);
    let mut files: Vec<Vec<String>> = Vec::new();
    files.push(vec!["t_Data.MHK".to_owned()]);
    files.push(vec!["t_Sounds.MHK".to_owned()]);
    all.push(files);
    let mut files: Vec<Vec<String>> = Vec::new();
    files.push(vec!["Extras.MHK".to_owned()]);
    all.push(files);
    let mut files: Vec<Vec<String>> = Vec::new();
    files.push(vec!["Riven.exe".to_owned()]);
    all.push(files);
    all
}

impl crate::resource_type::ResourceType for blst::TBlst {
    type Data = crate::format::Record<Vec<blst::ButtonMeta>>;

    fn name(&self) -> &'static str {
        "BLST"
    }
}

impl crate::resource_type::ResourceType for card::TCard {
    type Data = crate::format::Record<card::Card>;

    fn name(&self) -> &'static str {
        "CARD"
    }
}

impl crate::resource_type::ResourceType for flst::TFlst {
    type Data = crate::format::Record<Vec<flst::EffectMeta>>;

    fn name(&self) -> &'static str {
        "FLST"
    }
}

impl crate::resource_type::ResourceType for hspt::THspt {
    type Data = crate::format::Record<Vec<hspt::Hotspot>>;

    fn name(&self) -> &'static str {
        "HSPT"
    }
}

impl crate::resource_type::ResourceType for mlst::TMlst {
    type Data = crate::format::Record<Vec<mlst::MovieMeta>>;

    fn name(&self) -> &'static str {
        "MLST"
    }
}

impl crate::resource_type::ResourceType for plst::TPlst {
    type Data = crate::format::Record<Vec<plst::PictureMeta>>;

    fn name(&self) -> &'static str {
        "PLST"
    }
}

impl crate::resource_type::ResourceType for rmap::TRmap {
    type Data = crate::format::Record<Vec<u32>>;

    fn name(&self) -> &'static str {
        "RMAP"
    }
}

impl crate::resource_type::ResourceType for slst::TSlst {
    type Data = crate::format::Record<Vec<slst::SoundMeta>>;

    fn name(&self) -> &'static str {
        "SLST"
    }
}

impl crate::resource_type::ResourceType for tbmp::TBmp {
    type Data = crate::bitmap::Bitmap;

    fn name(&self) -> &'static str {
        "tBMP"
    }
}

} // verus!
