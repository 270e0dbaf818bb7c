//! The files of the parts of a skin, before they become textures.
use vstd::prelude::*;

verus! {

/// The file of every part of a skin.
#[derive(Clone)]
pub struct LoadSkin {
    pub body: Vec<u8>,
    pub marking: Vec<u8>,
    pub decoration: Vec<u8>,
    pub left_hand: Vec<u8>,
    pub right_hand: Vec<u8>,
    pub left_foot: Vec<u8>,
    pub right_foot: Vec<u8>,
    pub left_eye: Vec<u8>,
    pub right_eye: Vec<u8>,
}

impl LoadSkin {
    /// A skin whose parts all come from one file.
    pub fn new(file: &Vec<u8>) -> (r: LoadSkin)
        ensures
            r.body@ == file@,
            r.marking@ == file@,
            r.decoration@ == file@,
            r.left_hand@ == file@,
            r.right_hand@ == file@,
            r.left_foot@ == file@,
            r.right_foot@ == file@,
            r.left_eye@ == file@,
            r.right_eye@ == file@,
    {
        LoadSkin {
            body: file.clone(),
            marking: file.clone(),
            decoration: file.clone(),
            left_hand: file.clone(),
            right_hand: file.clone(),
            left_foot: file.clone(),
            right_foot: file.clone(),
            left_eye: file.clone(),
            right_eye: file.clone(),
        }
    }
}

} // verus!
