//! What the lighting API reports and is sent, as plain values. Identifiers are
//! UUIDs held as their 128-bit value; a brightness is in hundredths of a percent.
use vstd::prelude::*;

verus! {

/// A response of the lighting API: the resources asked for, and any errors.
#[derive(Debug)]
pub struct HueResponse<T, E = ()> {
    pub data: Vec<T>,
    pub errors: Vec<E>,
}

/// Whether a group of lights is on.
#[derive(Debug, Clone, Copy, PartialEq, Eq, Structural)]
pub struct LightGroupOn {
    pub on: bool,
}

impl LightGroupOn {
    pub fn new(on: bool) -> (r: LightGroupOn)
        ensures
            r.on == on,
    {
        LightGroupOn { on }
    }
}

/// The brightness of a group of lights, in hundredths of a percent.
#[derive(Debug, Clone, Copy, PartialEq, Eq, Structural)]
pub struct LightGroupDimming {
    pub brightness: u32,
}

impl LightGroupDimming {
    pub fn new(brightness: u32) -> (r: LightGroupDimming)
        ensures
            r.brightness == brightness,
    {
        LightGroupDimming { brightness }
    }
}

/// A reference from one resource of the lighting API to another.
#[derive(Debug, Clone)]
pub enum HueReference {
    Device(u128),
    GroupedLight(u128),
    Room(u128),
    Empty(String),
}

/// The lights of a room as one group.
#[derive(Debug, Clone)]
pub struct GroupedLight {
    pub id: u128,
    pub on: LightGroupOn,
    pub dimming: LightGroupDimming,
    pub owner: HueReference,
}

/// How a scene is recalled.
#[derive(Debug, Clone, Copy, PartialEq, Eq, Structural)]
pub enum RecallSceneAction {
    Active,
    Static,
}

/// The name and kind of a resource.
#[derive(Debug, Clone)]
pub struct HueObjectMetadata {
    pub name: String,
    pub archtype: String,
}

/// A room as the lighting API describes it.
#[derive(Debug, Clone)]
pub struct HueRoom {
    pub id: u128,
    pub children: Vec<HueReference>,
    pub services: Vec<HueReference>,
    pub metadata: HueObjectMetadata,
}

} // verus!
