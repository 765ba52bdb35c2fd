use vstd::prelude::*;

verus! {

/// The drawing shown at stage `index`, one more stroke per wrong guess.
pub open spec fn picture_text(index: int) -> Seq<char> {
    if index == 0 {
        PICTURE_0@
    } else if index == 1 {
        PICTURE_1@
    } else if index == 2 {
        PICTURE_2@
    } else if index == 3 {
        PICTURE_3@
    } else if index == 4 {
        PICTURE_4@
    } else if index == 5 {
        PICTURE_5@
    } else {
        PICTURE_6@
    }
}

pub const PICTURE_0: &'static str = "
|-----|
|
|
|
|_______
    ";

pub const PICTURE_1: &'static str = "
|-----|
|     o
|
|
|_______
    ";

pub const PICTURE_2: &'static str = "
|-----|
|     o
|     |
|
|_______
    ";

pub const PICTURE_3: &'static str = "
|-----|
|     o
|     |
|    /
|_______
    ";

pub const PICTURE_4: &'static str = "
|-----|
|     o
|     |
|    / \\
|_______
    ";

pub const PICTURE_5: &'static str = "
|-----|
|     o
|    /|
|    / \\
|_______
    ";

pub const PICTURE_6: &'static str = "
|-----|
|     o
|    /|\\
|    / \\
|_______
    ";

/// The drawing for stage `index`; the last stage is the full figure.
pub fn stage_picture(index: usize) -> (r: &'static str)
    requires
        index < crate::game::STAGE_COUNT,
    ensures
        r@ == picture_text(index as int),
{
    if index == 0 {
        PICTURE_0
    } else if index == 1 {
        PICTURE_1
    } else if index == 2 {
        PICTURE_2
    } else if index == 3 {
        PICTURE_3
    } else if index == 4 {
        PICTURE_4
    } else if index == 5 {
        PICTURE_5
    } else {
        PICTURE_6
    }
}

} // verus!
