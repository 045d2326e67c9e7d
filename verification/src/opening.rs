//! Opening a camera, or finding the one that is open already.

use vstd::prelude::*;

use crate::device::{
    CameraIndex, CameraInfo, DeviceLink, a_told_id_finds_the_entry_of_its_number, canonical_key,
    canonical_registry_key, device_rows, is_a_stable_id, is_first_with_its_number, listed,
    name_to_open, opening_name,
};
use crate::error::{CameraError, CameraErrorView, runtime_result};
use crate::registry::Registry;

verus! {

/// Takes a camera's name as a caller gives it: a number comes before an id, and anything else is
/// refused.
pub fn requested_camera(as_index: Option<u32>, as_id: Option<String>) -> (result: Result<
    CameraIndex,
    CameraError,
>)
    ensures
        match (as_index, as_id) {
            (Some(index), _) => result == Ok::<CameraIndex, CameraError>(CameraIndex::Index(index)),
            (None, Some(id)) => result == Ok::<CameraIndex, CameraError>(CameraIndex::String(id)),
            (None, None) => {
                result matches Err(error) && error@ == CameraErrorView::Value(
                    "Camera index must be an int index or string unique_id"@,
                )
            },
        },
{
    match (as_index, as_id) {
        (Some(index), _) => Ok(CameraIndex::Index(index)),
        (None, Some(id)) => Ok(CameraIndex::String(id)),
        (None, None) => Err(
            CameraError::Value("Camera index must be an int index or string unique_id".to_owned()),
        ),
    }
}

/// A request to open a camera: the name to open it by, and the key to look under.
#[derive(Debug)]
pub struct CameraOpening {
    pub camera_index: CameraIndex,
    pub registry_key: String,
}

/// What a request to open a camera calls for.
#[derive(Debug, PartialEq, Eq)]
pub enum OpeningAction<'a, C> {
    /// Hand out the camera that is open already.
    Reuse(C),
    /// Open the device of this name, and finish.
    Open(&'a CameraIndex),
}

impl CameraOpening {
    /// Resolves the name that was asked for.
    pub fn new(
        camera_index: CameraIndex,
        devices: &Option<Vec<CameraInfo>>,
        links: &Vec<DeviceLink>,
    ) -> (opening: CameraOpening)
        ensures
            opening.camera_index == opening_name(camera_index, listed(*devices), links@),
            opening.registry_key@ == canonical_key(camera_index, listed(*devices), links@),
    {
        let registry_key = canonical_registry_key(&camera_index, devices, links);
        CameraOpening { camera_index: name_to_open(camera_index, devices, links), registry_key }
    }

    /// Takes in whether a camera registered under the key is still in use.
    pub fn found<'a, C>(&'a self, live: Option<C>) -> (action: OpeningAction<'a, C>)
        ensures
            action == (match live {
                Some(camera) => OpeningAction::<'a, C>::Reuse(camera),
                None => OpeningAction::<'a, C>::Open(&self.camera_index),
            }),
    {
        match live {
            Some(camera) => OpeningAction::Reuse(camera),
            None => OpeningAction::Open(&self.camera_index),
        }
    }

    /// Takes in what opening the device gave: the new camera and its entry are registered, an error
    /// is passed on.
    pub fn finish<C, V>(
        self,
        registry: &mut Registry<V>,
        opened: Result<(C, V), String>,
    ) -> (result: Result<C, CameraError>)
        ensures
            match opened {
                Ok((camera, entry)) => {
                    &&& result == Ok::<C, CameraError>(camera)
                    &&& final(registry)@ == old(registry)@.insert(self.registry_key@, entry)
                },
                Err(text) => {
                    &&& result matches Err(error)
                    &&& error@ == CameraErrorView::Runtime(text@)
                    &&& final(registry)@ == old(registry)@
                },
            },
    {
        match runtime_result(opened) {
            Ok((camera, entry)) => {
                registry.insert(self.registry_key, entry);
                Ok(camera)
            },
            Err(error) => Err(error),
        }
    }
}

/// A camera that was registered under its number is found under its unique id, and the other way
/// round, as long as the list of devices is the same, no earlier device has that number, and an
/// id that only stands in for the number is no stable id of another device.
pub proof fn a_registered_camera_is_found_under_either_name<V>(
    registry: Map<Seq<char>, V>,
    entry: V,
    devices: Seq<CameraInfo>,
    links: Seq<DeviceLink>,
    row: int,
    id: String,
)
    requires
        is_first_with_its_number(device_rows(devices, links), row),
        device_rows(devices, links)[row].id_stable || !is_a_stable_id(
            device_rows(devices, links),
            id@,
        ),
        id@ == device_rows(devices, links)[row].unique_id,
    ensures
        ({
            let by_number = canonical_key(
                CameraIndex::Index(device_rows(devices, links)[row].index),
                devices,
                links,
            );
            let by_id = canonical_key(CameraIndex::String(id), devices, links);
            &&& registry.insert(by_number, entry).contains_key(by_id)
            &&& registry.insert(by_number, entry)[by_id] == entry
            &&& registry.insert(by_id, entry).contains_key(by_number)
            &&& registry.insert(by_id, entry)[by_number] == entry
        }),
{
    a_told_id_finds_the_entry_of_its_number(devices, links, row, id);
}

/// What came of trying to open a device.
#[derive(Clone, Copy, Debug, PartialEq, Eq, Structural)]
pub enum ProbeOutcome {
    Opened,
    Failed,
    Panicked,
}

/// What is known while a device is checked.
#[derive(Debug)]
pub enum CanUseEvent {
    /// Whether a camera registered under the device's key is still in use.
    Registered { live: bool },
    /// What came of trying to open the device.
    Probed(ProbeOutcome),
}

/// What checking a device calls for.
#[derive(Debug, PartialEq, Eq)]
pub enum CanUseAction {
    /// Try to open the device of this name, and close it at once.
    Probe(CameraIndex),
    /// The device can be used, or not.
    Answer(bool),
}

/// Checks whether a device can be used: one that is in use can, any other if it opens. A panic on
/// the way counts as a failure.
pub fn check_can_use(index: u32, event: CanUseEvent) -> (action: CanUseAction)
    ensures
        action is Probe <==> (event matches CanUseEvent::Registered { live } && !live),
        action matches CanUseAction::Probe(name) ==> name == CameraIndex::Index(index),
        action matches CanUseAction::Answer(usable) ==> (usable <==> {
            ||| event is Registered
            ||| event == CanUseEvent::Probed(ProbeOutcome::Opened)
        }),
        action == match event {
            CanUseEvent::Registered { live: true } => CanUseAction::Answer(true),
            CanUseEvent::Registered { live: false } => CanUseAction::Probe(
                CameraIndex::Index(index),
            ),
            CanUseEvent::Probed(outcome) => CanUseAction::Answer(outcome == ProbeOutcome::Opened),
        },
{
    match event {
        CanUseEvent::Registered { live } => if live {
            CanUseAction::Answer(true)
        } else {
            CanUseAction::Probe(CameraIndex::Index(index))
        },
        CanUseEvent::Probed(ProbeOutcome::Opened) => CanUseAction::Answer(true),
        CanUseEvent::Probed(ProbeOutcome::Failed) => CanUseAction::Answer(false),
        CanUseEvent::Probed(ProbeOutcome::Panicked) => CanUseAction::Answer(false),
    }
}

} // verus!
