//! Which devices there are, and the one key under which each of them is registered.

use vstd::prelude::*;
use vstd::string::*;

use crate::error::{CameraError, CameraErrorView};
use crate::text::{concat, decimal, decimal_is_injective, decimal_text};

verus! {

/// How a caller names a camera.
#[derive(Debug, PartialEq, Eq)]
pub enum CameraIndex {
    /// By its number.
    Index(u32),
    /// By its unique id.
    String(String),
}

/// A device as the system lists it.
#[derive(Debug, PartialEq, Eq)]
pub struct CameraInfo {
    pub human_name: String,
    pub description: String,
    /// The system's own id of the device; empty where it has none.
    pub misc: String,
    pub index: CameraIndex,
}

/// A link under `/dev/v4l/by-id`, whose name is stable, to the device that it stands for at
/// present.
#[derive(Debug, PartialEq, Eq)]
pub struct DeviceLink {
    pub path: String,
    /// The file name of its target, if it can be read.
    pub target: Option<String>,
}

/// What is told of one device: index, name, description, system id, unique id, and whether the
/// unique id is stable.
pub type DeviceRow = (u32, String, String, String, String, bool);

/// A [`DeviceRow`] as contracts speak of it.
pub struct DeviceRowView {
    pub index: u32,
    pub human_name: Seq<char>,
    pub description: Seq<char>,
    pub misc: Seq<char>,
    pub unique_id: Seq<char>,
    pub id_stable: bool,
}

pub open spec fn row_view(row: DeviceRow) -> DeviceRowView {
    DeviceRowView {
        index: row.0,
        human_name: row.1@,
        description: row.2@,
        misc: row.3@,
        unique_id: row.4@,
        id_stable: row.5,
    }
}

pub open spec fn rows_view(rows: Seq<DeviceRow>) -> Seq<DeviceRowView> {
    rows.map_values(|row: DeviceRow| row_view(row))
}

/// The key of a device that is known by its number only.
pub open spec fn index_key(index: u32) -> Seq<char> {
    "index:"@ + decimal(index as nat)
}

/// The key of a device that is known by a unique id.
pub open spec fn id_key(id: Seq<char>) -> Seq<char> {
    "id:"@ + id
}

/// The key that a name spells out.
pub open spec fn registry_key(index: CameraIndex) -> Seq<char> {
    match index {
        CameraIndex::Index(index) => index_key(index),
        CameraIndex::String(id) => id_key(id@),
    }
}

/// The path of the first link to `/dev/video<index>`.
pub open spec fn link_to(index: u32, links: Seq<DeviceLink>) -> Option<Seq<char>>
    decreases links.len(),
{
    if links.len() == 0 {
        None
    } else if links.first().target matches Some(name) && name@ == "video"@ + decimal(
        index as nat,
    ) {
        Some(links.first().path@)
    } else {
        link_to(index, links.drop_first())
    }
}

/// The unique id of a device, and whether it stays the same when devices come and go: the system's
/// own id, else a stable link to it, else its number.
pub open spec fn unique_id(index: u32, misc: Seq<char>, links: Seq<DeviceLink>) -> (
    Seq<char>,
    bool,
) {
    if misc.len() > 0 {
        (misc, true)
    } else {
        match link_to(index, links) {
            Some(path) => (path, true),
            None => (index_key(index), false),
        }
    }
}

/// Whether this is the number of the device.
pub open spec fn has_number(device: CameraInfo, index: u32) -> bool {
    device.index == CameraIndex::Index(index)
}

/// Whether this is the unique id of the device, as a stable one or as one that stands in for its
/// number.
pub open spec fn has_id(
    device: CameraInfo,
    id: Seq<char>,
    stable: bool,
    links: Seq<DeviceLink>,
) -> bool {
    device.index matches CameraIndex::Index(own) && unique_id(own, device.misc@, links) == (
        id,
        stable,
    )
}

/// The first device of a list that fits.
pub open spec fn first_device(
    devices: Seq<CameraInfo>,
    fits: spec_fn(CameraInfo) -> bool,
) -> Option<CameraInfo>
    decreases devices.len(),
{
    if devices.len() == 0 {
        None
    } else if fits(devices.first()) {
        Some(devices.first())
    } else {
        first_device(devices.drop_first(), fits)
    }
}

/// The device that a name stands for: the first one with that number, or with that unique id. A
/// stable id comes before one that only stands in for a number.
pub open spec fn device_named(
    name: CameraIndex,
    devices: Seq<CameraInfo>,
    links: Seq<DeviceLink>,
) -> Option<CameraInfo> {
    match name {
        CameraIndex::Index(index) => first_device(
            devices,
            |device: CameraInfo| has_number(device, index),
        ),
        CameraIndex::String(id) => {
            match first_device(devices, |device: CameraInfo| has_id(device, id@, true, links)) {
                Some(device) => Some(device),
                None => first_device(
                    devices,
                    |device: CameraInfo| has_id(device, id@, false, links),
                ),
            }
        },
    }
}

/// The key of a device that has a number.
pub open spec fn device_key(device: CameraInfo, links: Seq<DeviceLink>) -> Seq<char> {
    let index = device.index->Index_0;
    let (id, stable) = unique_id(index, device.misc@, links);
    if stable {
        id_key(id)
    } else {
        index_key(index)
    }
}

/// The key of the device that a name stands for; the key that the name spells out if there is none.
pub open spec fn canonical_key(
    name: CameraIndex,
    devices: Seq<CameraInfo>,
    links: Seq<DeviceLink>,
) -> Seq<char> {
    match device_named(name, devices, links) {
        Some(device) => device_key(device, links),
        None => registry_key(name),
    }
}

/// The name under which a device is opened: its number where its unique id only stands in for that,
/// else the name that it was asked for by.
pub open spec fn opening_name(
    name: CameraIndex,
    devices: Seq<CameraInfo>,
    links: Seq<DeviceLink>,
) -> CameraIndex {
    match device_named(name, devices, links) {
        Some(device) => if unique_id(device.index->Index_0, device.misc@, links).1 {
            name
        } else {
            CameraIndex::Index(device.index->Index_0)
        },
        None => name,
    }
}

/// The devices of a list; none if the system could not list them.
pub open spec fn listed(devices: Option<Vec<CameraInfo>>) -> Seq<CameraInfo> {
    match devices {
        Some(devices) => devices@,
        None => Seq::empty(),
    }
}

/// What is told of a device that has a number.
pub open spec fn device_row(device: CameraInfo, links: Seq<DeviceLink>) -> DeviceRowView {
    let index = device.index->Index_0;
    let (id, stable) = unique_id(index, device.misc@, links);
    DeviceRowView {
        index,
        human_name: device.human_name@,
        description: device.description@,
        misc: device.misc@,
        unique_id: id,
        id_stable: stable,
    }
}

/// What is told of all devices that have a number, in their order.
pub open spec fn device_rows(devices: Seq<CameraInfo>, links: Seq<DeviceLink>) -> Seq<DeviceRowView> {
    devices.filter(|device: CameraInfo| device.index is Index).map_values(
        |device: CameraInfo| device_row(device, links),
    )
}

/// Spells out the key of a name.
pub fn camera_registry_key(index: &CameraIndex) -> (key: String)
    ensures
        key@ == registry_key(*index),
{
    match index {
        CameraIndex::Index(index) => index_key_text(*index),
        CameraIndex::String(id) => concat("id:", id.as_str()),
    }
}

fn index_key_text(index: u32) -> (key: String)
    ensures
        key@ == index_key(index),
{
    concat("index:", decimal_text(index).as_str())
}

/// Finds the first link to a device.
pub fn linux_unique_id(index: u32, links: &Vec<DeviceLink>) -> (path: Option<String>)
    ensures
        match link_to(index, links@) {
            Some(expected) => path matches Some(path) && path@ == expected,
            None => path is None,
        },
{
    let video_name = concat("video", decimal_text(index).as_str());
    let mut i: usize = 0;
    assert(links@.skip(0) =~= links@);
    while i < links.len()
        invariant
            i <= links@.len(),
            video_name@ == "video"@ + decimal(index as nat),
            link_to(index, links@) == link_to(index, links@.skip(i as int)),
        decreases links@.len() - i,
    {
        assert(links@.skip(i as int).first() == links@[i as int]);
        assert(links@.skip(i as int).drop_first() =~= links@.skip(i as int + 1));
        if let Some(name) = &links[i].target {
            if *name == video_name {
                return Some(links[i].path.clone());
            }
        }
        i = i + 1;
    }
    None
}

/// The unique id of a device, and whether it is stable.
pub fn stable_unique_id(index: u32, misc: &str, links: &Vec<DeviceLink>) -> (id: (String, bool))
    ensures
        (id.0@, id.1) == unique_id(index, misc@, links@),
{
    if !misc.is_empty() {
        return (misc.to_owned(), true);
    }
    match linux_unique_id(index, links) {
        Some(path) => (path, true),
        None => (index_key_text(index), false),
    }
}

/// What is known of a device that was found: its number, its unique id, and whether that is stable.
type FoundDevice = (u32, String, bool);

/// Whether what was found is what is told of `device`.
spec fn tells_of(
    found: Option<FoundDevice>,
    device: Option<CameraInfo>,
    links: Seq<DeviceLink>,
) -> bool {
    match device {
        Some(device) => {
            &&& found matches Some((index, id, stable))
            &&& device.index == CameraIndex::Index(index)
            &&& (id@, stable) == unique_id(index, device.misc@, links)
        },
        None => found is None,
    }
}

/// Finds the first device with this number.
fn find_number(index: u32, devices: &Vec<CameraInfo>, links: &Vec<DeviceLink>) -> (found: Option<
    FoundDevice,
>)
    ensures
        tells_of(
            found,
            first_device(devices@, |device: CameraInfo| has_number(device, index)),
            links@,
        ),
{
    let ghost fits = |device: CameraInfo| has_number(device, index);
    let mut i: usize = 0;
    assert(devices@.skip(0) =~= devices@);
    while i < devices.len()
        invariant
            i <= devices@.len(),
            fits == (|device: CameraInfo| has_number(device, index)),
            first_device(devices@, fits) == first_device(devices@.skip(i as int), fits),
        decreases devices@.len() - i,
    {
        let device = &devices[i];
        assert(devices@.skip(i as int).first() == device);
        assert(devices@.skip(i as int).drop_first() =~= devices@.skip(i as int + 1));
        i = i + 1;
        if let CameraIndex::Index(own) = &device.index {
            if *own == index {
                let (id, stable) = stable_unique_id(*own, device.misc.as_str(), links);
                return Some((*own, id, stable));
            }
        }
    }
    None
}

/// Finds the first device with this unique id, as a stable one or as one that stands in for its
/// number.
fn find_id(
    id: &String,
    stable: bool,
    devices: &Vec<CameraInfo>,
    links: &Vec<DeviceLink>,
) -> (found: Option<FoundDevice>)
    ensures
        tells_of(
            found,
            first_device(devices@, |device: CameraInfo| has_id(device, id@, stable, links@)),
            links@,
        ),
{
    let ghost fits = |device: CameraInfo| has_id(device, id@, stable, links@);
    let mut i: usize = 0;
    assert(devices@.skip(0) =~= devices@);
    while i < devices.len()
        invariant
            i <= devices@.len(),
            fits == (|device: CameraInfo| has_id(device, id@, stable, links@)),
            first_device(devices@, fits) == first_device(devices@.skip(i as int), fits),
        decreases devices@.len() - i,
    {
        let device = &devices[i];
        assert(devices@.skip(i as int).first() == device);
        assert(devices@.skip(i as int).drop_first() =~= devices@.skip(i as int + 1));
        i = i + 1;
        if let CameraIndex::Index(own) = &device.index {
            let (own_id, own_stable) = stable_unique_id(*own, device.misc.as_str(), links);
            if own_id == *id && own_stable == stable {
                return Some((*own, own_id, own_stable));
            }
        }
    }
    None
}

/// Finds the device that a name stands for.
fn find_device(
    name: &CameraIndex,
    devices: &Option<Vec<CameraInfo>>,
    links: &Vec<DeviceLink>,
) -> (found: Option<FoundDevice>)
    ensures
        tells_of(found, device_named(*name, listed(*devices), links@), links@),
{
    match (devices, name) {
        (None, _) => None,
        (Some(list), CameraIndex::Index(index)) => find_number(*index, list, links),
        (Some(list), CameraIndex::String(id)) => match find_id(id, true, list, links) {
            Some(found) => Some(found),
            None => find_id(id, false, list, links),
        },
    }
}

/// Resolves a number or a unique id to the key of the device that it stands for, so that opening
/// one device under either name finds the same entry.
pub fn canonical_registry_key(
    camera_index: &CameraIndex,
    devices: &Option<Vec<CameraInfo>>,
    links: &Vec<DeviceLink>,
) -> (key: String)
    ensures
        key@ == canonical_key(*camera_index, listed(*devices), links@),
{
    match find_device(camera_index, devices, links) {
        Some((index, id, stable)) => if stable {
            concat("id:", id.as_str())
        } else {
            index_key_text(index)
        },
        None => camera_registry_key(camera_index),
    }
}

/// Resolves a name to the one under which its device is opened.
pub fn name_to_open(
    name: CameraIndex,
    devices: &Option<Vec<CameraInfo>>,
    links: &Vec<DeviceLink>,
) -> (resolved: CameraIndex)
    ensures
        resolved == opening_name(name, listed(*devices), links@),
{
    match find_device(&name, devices, links) {
        Some((index, _, false)) => CameraIndex::Index(index),
        _ => name,
    }
}

/// One more device adds its row at the end, if it has a number.
proof fn lemma_one_more_row(devices: Seq<CameraInfo>, device: CameraInfo, links: Seq<DeviceLink>)
    ensures
        device_rows(devices.push(device), links) == if device.index is Index {
            device_rows(devices, links).push(device_row(device, links))
        } else {
            device_rows(devices, links)
        },
{
    reveal(Seq::filter);
    assert(devices.push(device).drop_last() =~= devices);
    assert(device_rows(devices.push(device), links) =~= if device.index is Index {
        device_rows(devices, links).push(device_row(device, links))
    } else {
        device_rows(devices, links)
    });
}

/// Tells of every device that has a number, or passes on why the system could not list them.
pub fn query(devices: Result<Vec<CameraInfo>, String>, links: &Vec<DeviceLink>) -> (result: Result<
    Vec<DeviceRow>,
    CameraError,
>)
    ensures
        match devices {
            Ok(devices) => {
                result matches Ok(rows) && rows_view(rows@) == device_rows(devices@, links@)
            },
            Err(text) => {
                result matches Err(error) && error@ == CameraErrorView::Runtime(text@)
            },
        },
{
    let devices = match devices {
        Ok(devices) => devices,
        Err(text) => {
            return Err(CameraError::Runtime(text));
        },
    };
    let mut rows: Vec<DeviceRow> = Vec::new();
    let mut i: usize = 0;
    proof {
        reveal(Seq::filter);
        assert(rows_view(rows@) =~= device_rows(devices@.take(0), links@));
    }
    while i < devices.len()
        invariant
            i <= devices@.len(),
            rows_view(rows@) == device_rows(devices@.take(i as int), links@),
        decreases devices@.len() - i,
    {
        let device = &devices[i];
        let ghost before = rows@;
        proof {
            lemma_one_more_row(devices@.take(i as int), *device, links@);
            assert(devices@.take(i as int).push(*device) =~= devices@.take(i as int + 1));
        }
        if let CameraIndex::Index(index) = &device.index {
            let (id, stable) = stable_unique_id(*index, device.misc.as_str(), links);
            rows.push(
                (
                    *index,
                    device.human_name.clone(),
                    device.description.clone(),
                    device.misc.clone(),
                    id,
                    stable,
                ),
            );
            assert(rows_view(rows@) =~= rows_view(before).push(device_row(*device, links@)));
        }
        i = i + 1;
    }
    assert(devices@.take(i as int) =~= devices@);
    Ok(rows)
}

/// A number and an id never spell out the same key.
pub proof fn number_keys_are_no_id_keys(index: u32, id: Seq<char>)
    ensures
        index_key(index) != id_key(id),
{
    reveal_strlit("index:");
    reveal_strlit("id:");
    assert(index_key(index)[1] == 'n');
    assert(id_key(id)[1] == 'd');
}

/// Names that spell out the same key are the same name.
pub proof fn names_with_one_key_are_one_name(a: CameraIndex, b: CameraIndex)
    requires
        registry_key(a) == registry_key(b),
    ensures
        match (a, b) {
            (CameraIndex::Index(m), CameraIndex::Index(n)) => m == n,
            (CameraIndex::String(s), CameraIndex::String(t)) => s@ == t@,
            _ => false,
        },
{
    match (a, b) {
        (CameraIndex::Index(m), CameraIndex::Index(n)) => {
            lemma_same_tail("index:"@, decimal(m as nat), decimal(n as nat));
            decimal_is_injective(m as nat, n as nat);
        },
        (CameraIndex::String(s), CameraIndex::String(t)) => {
            lemma_same_tail("id:"@, s@, t@);
        },
        (CameraIndex::Index(m), CameraIndex::String(t)) => {
            number_keys_are_no_id_keys(m, t@);
        },
        (CameraIndex::String(s), CameraIndex::Index(n)) => {
            number_keys_are_no_id_keys(n, s@);
        },
    }
}

proof fn lemma_same_tail(head: Seq<char>, a: Seq<char>, b: Seq<char>)
    requires
        head + a == head + b,
    ensures
        a == b,
{
    assert(a =~= (head + a).skip(head.len() as int));
    assert(b =~= (head + b).skip(head.len() as int));
}

/// The key of a device by what is told of it.
pub open spec fn row_key(row: DeviceRowView) -> Seq<char> {
    if row.id_stable {
        id_key(row.unique_id)
    } else {
        index_key(row.index)
    }
}

/// The rows of a list are the row of its first device, if that has a number, and the rows of the
/// rest.
proof fn lemma_first_row(devices: Seq<CameraInfo>, links: Seq<DeviceLink>)
    requires
        devices.len() > 0,
    ensures
        device_rows(devices, links) == if devices.first().index is Index {
            seq![device_row(devices.first(), links)] + device_rows(devices.drop_first(), links)
        } else {
            device_rows(devices.drop_first(), links)
        },
    decreases devices.len(),
{
    let rest = devices.drop_first();
    if rest.len() == 0 {
        assert(devices =~= Seq::<CameraInfo>::empty().push(devices.first()));
        assert(rest =~= Seq::<CameraInfo>::empty());
        lemma_one_more_row(rest, devices.first(), links);
        reveal(Seq::filter);
        assert(device_rows(rest, links) =~= Seq::empty());
        assert(device_rows(devices, links) =~= if devices.first().index is Index {
            seq![device_row(devices.first(), links)] + device_rows(rest, links)
        } else {
            device_rows(rest, links)
        });
    } else {
        let shorter = devices.drop_last();
        lemma_first_row(shorter, links);
        assert(shorter.push(devices.last()) =~= devices);
        assert(shorter.drop_first().push(devices.last()) =~= rest);
        lemma_one_more_row(shorter, devices.last(), links);
        lemma_one_more_row(shorter.drop_first(), devices.last(), links);
        assert(device_rows(devices, links) =~= if devices.first().index is Index {
            seq![device_row(devices.first(), links)] + device_rows(rest, links)
        } else {
            device_rows(rest, links)
        });
    }
}

/// The first device that fits is the one of the first row that does.
proof fn lemma_first_fitting_row(
    devices: Seq<CameraInfo>,
    links: Seq<DeviceLink>,
    fits: spec_fn(CameraInfo) -> bool,
    row_fits: spec_fn(DeviceRowView) -> bool,
    first: int,
)
    requires
        forall|device: CameraInfo| #[trigger]
            fits(device) <==> device.index is Index && row_fits(device_row(device, links)),
        0 <= first < device_rows(devices, links).len(),
        row_fits(device_rows(devices, links)[first]),
        forall|k: int| 0 <= k < first ==> !row_fits(#[trigger] device_rows(devices, links)[k]),
    ensures
        first_device(devices, fits) matches Some(device) && device_row(device, links)
            == device_rows(devices, links)[first],
    decreases devices.len(),
{
    let rows = device_rows(devices, links);
    if devices.len() == 0 {
        reveal(Seq::filter);
    } else {
        let rest = device_rows(devices.drop_first(), links);
        lemma_first_row(devices, links);
        if devices.first().index is Index {
            assert(rows[0] == device_row(devices.first(), links));
            if first > 0 {
                assert(!row_fits(rows[0]));
                assert forall|k: int| 0 <= k < first - 1 implies !row_fits(
                    #[trigger] rest[k],
                ) by {
                    assert(!row_fits(rows[k + 1]));
                }
                lemma_first_fitting_row(
                    devices.drop_first(),
                    links,
                    fits,
                    row_fits,
                    first - 1,
                );
            }
        } else {
            lemma_first_fitting_row(devices.drop_first(), links, fits, row_fits, first);
        }
    }
}

/// Where no row fits, no device does.
proof fn lemma_no_fitting_row(
    devices: Seq<CameraInfo>,
    links: Seq<DeviceLink>,
    fits: spec_fn(CameraInfo) -> bool,
    row_fits: spec_fn(DeviceRowView) -> bool,
)
    requires
        forall|device: CameraInfo| #[trigger]
            fits(device) <==> device.index is Index && row_fits(device_row(device, links)),
        forall|k: int|
            0 <= k < device_rows(devices, links).len() ==> !row_fits(
                #[trigger] device_rows(devices, links)[k],
            ),
    ensures
        first_device(devices, fits) is None,
    decreases devices.len(),
{
    if devices.len() > 0 {
        let rows = device_rows(devices, links);
        let rest = device_rows(devices.drop_first(), links);
        lemma_first_row(devices, links);
        if devices.first().index is Index {
            assert(rows[0] == device_row(devices.first(), links));
            assert forall|k: int| 0 <= k < rest.len() implies !row_fits(#[trigger] rest[k]) by {
                assert(!row_fits(rows[k + 1]));
            }
        }
        lemma_no_fitting_row(devices.drop_first(), links, fits, row_fits);
    }
}

/// Whether `first` is the first row with its number.
pub open spec fn is_first_with_its_number(rows: Seq<DeviceRowView>, first: int) -> bool {
    &&& 0 <= first < rows.len()
    &&& forall|k: int| 0 <= k < first ==> (#[trigger] rows[k]).index != rows[first].index
}

/// Whether some row has this unique id as a stable one.
pub open spec fn is_a_stable_id(rows: Seq<DeviceRowView>, id: Seq<char>) -> bool {
    exists|k: int| 0 <= k < rows.len() && (#[trigger] rows[k]).unique_id == id && rows[k].id_stable
}

/// Whether `found` is the row that its unique id stands for: the first row that has it as a stable
/// one, or, where no row does, the first row that has it.
pub open spec fn is_found_by_its_id(rows: Seq<DeviceRowView>, found: int) -> bool {
    &&& 0 <= found < rows.len()
    &&& forall|k: int|
        0 <= k < found && (#[trigger] rows[k]).unique_id == rows[found].unique_id
            ==> rows[k].id_stable != rows[found].id_stable
    &&& rows[found].id_stable || !is_a_stable_id(rows, rows[found].unique_id)
}

/// A device that is named by its number is registered under the key of the first row with that
/// number, and opened by it.
pub proof fn a_number_stands_for_its_first_row(
    devices: Seq<CameraInfo>,
    links: Seq<DeviceLink>,
    first: int,
)
    requires
        is_first_with_its_number(device_rows(devices, links), first),
    ensures
        ({
            let row = device_rows(devices, links)[first];
            let name = CameraIndex::Index(row.index);
            &&& canonical_key(name, devices, links) == row_key(row)
            &&& opening_name(name, devices, links) == name
        }),
{
    let index = device_rows(devices, links)[first].index;
    lemma_first_fitting_row(
        devices,
        links,
        |device: CameraInfo| has_number(device, index),
        |row: DeviceRowView| row.index == index,
        first,
    );
}

/// A device that is named by a unique id is registered under the key of the row that the id stands
/// for. It is opened by the id if that is stable, else by its number.
pub proof fn an_id_stands_for_its_row(
    devices: Seq<CameraInfo>,
    links: Seq<DeviceLink>,
    found: int,
    id: String,
)
    requires
        is_found_by_its_id(device_rows(devices, links), found),
        id@ == device_rows(devices, links)[found].unique_id,
    ensures
        ({
            let row = device_rows(devices, links)[found];
            let name = CameraIndex::String(id);
            &&& canonical_key(name, devices, links) == row_key(row)
            &&& opening_name(name, devices, links) == if row.id_stable {
                name
            } else {
                CameraIndex::Index(row.index)
            }
        }),
{
    let stable = device_rows(devices, links)[found].id_stable;
    if !stable {
        lemma_no_fitting_row(
            devices,
            links,
            |device: CameraInfo| has_id(device, id@, true, links),
            |row: DeviceRowView| row.unique_id == id@ && row.id_stable,
        );
    }
    lemma_first_fitting_row(
        devices,
        links,
        |device: CameraInfo| has_id(device, id@, stable, links),
        |row: DeviceRowView| row.unique_id == id@ && row.id_stable == stable,
        found,
    );
}

/// A number that no device has is registered as it stands.
pub proof fn an_unlisted_number_is_its_own_key(
    index: u32,
    devices: Seq<CameraInfo>,
    links: Seq<DeviceLink>,
)
    requires
        forall|k: int|
            0 <= k < device_rows(devices, links).len() ==> (#[trigger] device_rows(
                devices,
                links,
            )[k]).index != index,
    ensures
        canonical_key(CameraIndex::Index(index), devices, links) == index_key(index),
{
    lemma_no_fitting_row(
        devices,
        links,
        |device: CameraInfo| has_number(device, index),
        |row: DeviceRowView| row.index == index,
    );
}

/// An id that is told of no device is registered as it stands.
pub proof fn an_unlisted_id_is_its_own_key(
    id: String,
    devices: Seq<CameraInfo>,
    links: Seq<DeviceLink>,
)
    requires
        forall|k: int|
            0 <= k < device_rows(devices, links).len() ==> (#[trigger] device_rows(
                devices,
                links,
            )[k]).unique_id != id@,
    ensures
        canonical_key(CameraIndex::String(id), devices, links) == id_key(id@),
{
    lemma_no_fitting_row(
        devices,
        links,
        |device: CameraInfo| has_id(device, id@, true, links),
        |row: DeviceRowView| row.unique_id == id@ && row.id_stable,
    );
    lemma_no_fitting_row(
        devices,
        links,
        |device: CameraInfo| has_id(device, id@, false, links),
        |row: DeviceRowView| row.unique_id == id@ && !row.id_stable,
    );
}

/// Rows have the same key exactly if they have the same unique id, and it is stable in both or in
/// neither.
pub proof fn keys_follow_ids(devices: Seq<CameraInfo>, links: Seq<DeviceLink>, a: int, b: int)
    requires
        0 <= a < device_rows(devices, links).len(),
        0 <= b < device_rows(devices, links).len(),
    ensures
        row_key(device_rows(devices, links)[a]) == row_key(device_rows(devices, links)[b]) <==> {
            &&& device_rows(devices, links)[a].unique_id == device_rows(devices, links)[b].unique_id
            &&& device_rows(devices, links)[a].id_stable == device_rows(devices, links)[b].id_stable
        },
{
    let p = device_rows(devices, links)[a];
    let q = device_rows(devices, links)[b];
    if p.id_stable && q.id_stable {
        if row_key(p) == row_key(q) {
            lemma_same_tail("id:"@, p.unique_id, q.unique_id);
        }
    } else if p.id_stable {
        number_keys_are_no_id_keys(q.index, p.unique_id);
    } else if q.id_stable {
        number_keys_are_no_id_keys(p.index, q.unique_id);
    }
}

/// Opening a listed device by its number or by its unique id finds the same entry, exactly if the
/// first row with that number and the row that the id stands for agree in the id and in whether it
/// is stable.
pub proof fn either_name_finds_the_same_entry(
    devices: Seq<CameraInfo>,
    links: Seq<DeviceLink>,
    by_number: int,
    by_id: int,
    id: String,
)
    requires
        is_first_with_its_number(device_rows(devices, links), by_number),
        is_found_by_its_id(device_rows(devices, links), by_id),
        id@ == device_rows(devices, links)[by_id].unique_id,
    ensures
        canonical_key(
            CameraIndex::Index(device_rows(devices, links)[by_number].index),
            devices,
            links,
        ) == canonical_key(CameraIndex::String(id), devices, links) <==> {
            &&& device_rows(devices, links)[by_number].unique_id == id@
            &&& device_rows(devices, links)[by_number].id_stable == device_rows(
                devices,
                links,
            )[by_id].id_stable
        },
{
    a_number_stands_for_its_first_row(devices, links, by_number);
    an_id_stands_for_its_row(devices, links, by_id, id);
    keys_follow_ids(devices, links, by_number, by_id);
}

/// The row that an id stands for, at or before a row that has the id as that one does.
proof fn lemma_found_by_id(rows: Seq<DeviceRowView>, row: int) -> (found: int)
    requires
        0 <= row < rows.len(),
        rows[row].id_stable || !is_a_stable_id(rows, rows[row].unique_id),
    ensures
        is_found_by_its_id(rows, found),
        rows[found].unique_id == rows[row].unique_id,
        rows[found].id_stable == rows[row].id_stable,
    decreases row,
{
    if exists|k: int|
        0 <= k < row && (#[trigger] rows[k]).unique_id == rows[row].unique_id && rows[k].id_stable
            == rows[row].id_stable {
        let k = choose|k: int|
            0 <= k < row && (#[trigger] rows[k]).unique_id == rows[row].unique_id
                && rows[k].id_stable == rows[row].id_stable;
        lemma_found_by_id(rows, k)
    } else {
        row
    }
}

/// A stable unique id finds the entry of its number, for the first device with that number,
/// whichever other devices there are.
pub proof fn a_stable_id_finds_the_entry_of_its_number(
    devices: Seq<CameraInfo>,
    links: Seq<DeviceLink>,
    row: int,
    id: String,
)
    requires
        is_first_with_its_number(device_rows(devices, links), row),
        device_rows(devices, links)[row].id_stable,
        id@ == device_rows(devices, links)[row].unique_id,
    ensures
        canonical_key(
            CameraIndex::Index(device_rows(devices, links)[row].index),
            devices,
            links,
        ) == canonical_key(CameraIndex::String(id), devices, links),
        canonical_key(CameraIndex::String(id), devices, links) == id_key(id@),
        opening_name(CameraIndex::String(id), devices, links) == CameraIndex::String(id),
{
    let found = lemma_found_by_id(device_rows(devices, links), row);
    either_name_finds_the_same_entry(devices, links, row, found, id);
    an_id_stands_for_its_row(devices, links, found, id);
}

/// The unique id that is told of a device, stable or not, finds the entry of its number, for the
/// first device with that number. Left out is only an id that stands in for the number, such as
/// `index:3`, where another device has an id of that spelling as a stable one.
pub proof fn a_told_id_finds_the_entry_of_its_number(
    devices: Seq<CameraInfo>,
    links: Seq<DeviceLink>,
    row: int,
    id: String,
)
    requires
        is_first_with_its_number(device_rows(devices, links), row),
        device_rows(devices, links)[row].id_stable || !is_a_stable_id(
            device_rows(devices, links),
            id@,
        ),
        id@ == device_rows(devices, links)[row].unique_id,
    ensures
        canonical_key(
            CameraIndex::Index(device_rows(devices, links)[row].index),
            devices,
            links,
        ) == canonical_key(CameraIndex::String(id), devices, links),
{
    let found = lemma_found_by_id(device_rows(devices, links), row);
    either_name_finds_the_same_entry(devices, links, row, found, id);
}

/// A link is found for every number that one points to, and it is the first of them.
pub proof fn the_first_link_to_a_number_is_found(index: u32, links: Seq<DeviceLink>, first: int)
    requires
        0 <= first < links.len(),
        links[first].target matches Some(name) && name@ == "video"@ + decimal(index as nat),
        forall|k: int|
            0 <= k < first ==> !((#[trigger] links[k]).target matches Some(name) && name@
                == "video"@ + decimal(index as nat)),
    ensures
        link_to(index, links) == Some(links[first].path@),
    decreases links.len(),
{
    if first > 0 {
        let rest = links.drop_first();
        assert(!(links[0].target matches Some(name) && name@ == "video"@ + decimal(index as nat)));
        assert forall|k: int| 0 <= k < first - 1 implies !((#[trigger] rest[k]).target matches Some(
            name,
        ) && name@ == "video"@ + decimal(index as nat)) by {
            assert(rest[k] == links[k + 1]);
        }
        the_first_link_to_a_number_is_found(index, rest, first - 1);
    }
}

/// No link is found only where none points to the number.
pub proof fn no_link_is_found_only_if_there_is_none(index: u32, links: Seq<DeviceLink>)
    ensures
        link_to(index, links) is None <==> forall|k: int|
            0 <= k < links.len() ==> !((#[trigger] links[k]).target matches Some(name) && name@
                == "video"@ + decimal(index as nat)),
    decreases links.len(),
{
    if links.len() > 0 {
        let rest = links.drop_first();
        no_link_is_found_only_if_there_is_none(index, rest);
        if link_to(index, links) is None {
            assert forall|k: int| 0 <= k < links.len() implies !((
            #[trigger] links[k]).target matches Some(name) && name@ == "video"@ + decimal(
                index as nat,
            )) by {
                if k > 0 {
                    assert(links[k] == rest[k - 1]);
                }
            }
        }
        if forall|k: int|
            0 <= k < links.len() ==> !((#[trigger] links[k]).target matches Some(name) && name@
                == "video"@ + decimal(index as nat)) {
            assert(links[0] == links.first());
            assert forall|k: int| 0 <= k < rest.len() implies !((
            #[trigger] rest[k]).target matches Some(name) && name@ == "video"@ + decimal(
                index as nat,
            )) by {
                assert(rest[k] == links[k + 1]);
            }
        }
    }
}

/// The system's own id of a device comes before everything else, and is stable.
pub proof fn a_system_id_is_the_unique_id(index: u32, misc: Seq<char>, links: Seq<DeviceLink>)
    requires
        misc.len() > 0,
    ensures
        unique_id(index, misc, links).0 == misc,
        unique_id(index, misc, links).1,
{
}

/// A device without an id of the system is known by the first link to it, which is stable.
pub proof fn a_linked_device_is_known_by_its_first_link(
    index: u32,
    links: Seq<DeviceLink>,
    first: int,
)
    requires
        0 <= first < links.len(),
        links[first].target matches Some(name) && name@ == "video"@ + decimal(index as nat),
        forall|k: int|
            0 <= k < first ==> !((#[trigger] links[k]).target matches Some(name) && name@
                == "video"@ + decimal(index as nat)),
    ensures
        unique_id(index, Seq::empty(), links).0 == links[first].path@,
        unique_id(index, Seq::empty(), links).1,
{
    the_first_link_to_a_number_is_found(index, links, first);
}

/// A device with neither is known by its number, which is not stable.
pub proof fn any_other_device_is_known_by_its_number(index: u32, links: Seq<DeviceLink>)
    requires
        forall|k: int|
            0 <= k < links.len() ==> !((#[trigger] links[k]).target matches Some(name) && name@
                == "video"@ + decimal(index as nat)),
    ensures
        unique_id(index, Seq::empty(), links).0 == "index:"@ + decimal(index as nat),
        !unique_id(index, Seq::empty(), links).1,
{
    no_link_is_found_only_if_there_is_none(index, links);
}

/// A key says whether it is made of a number or of an id, and gives it back whole.
pub proof fn a_key_gives_back_its_name(index: u32, id: String)
    ensures
        registry_key(CameraIndex::Index(index)).take(6) == seq!['i', 'n', 'd', 'e', 'x', ':'],
        registry_key(CameraIndex::Index(index)).skip(6) == decimal(index as nat),
        registry_key(CameraIndex::String(id)).take(3) == seq!['i', 'd', ':'],
        registry_key(CameraIndex::String(id)).skip(3) == id@,
{
    reveal_strlit("index:");
    reveal_strlit("id:");
    let number = registry_key(CameraIndex::Index(index));
    let name = registry_key(CameraIndex::String(id));
    assert(number.take(6) =~= seq!['i', 'n', 'd', 'e', 'x', ':']);
    assert(number.skip(6) =~= decimal(index as nat));
    assert(name.take(3) =~= seq!['i', 'd', ':']);
    assert(name.skip(3) =~= id@);
}

/// What is told of a device is what it says of itself, together with its unique id; of one that has
/// no number nothing is told.
pub proof fn a_device_is_told_of_as_it_is(device: CameraInfo, links: Seq<DeviceLink>)
    ensures
        device.index matches CameraIndex::Index(index) ==> {
            &&& device_rows(seq![device], links).len() == 1
            &&& device_rows(seq![device], links)[0].index == index
            &&& device_rows(seq![device], links)[0].human_name == device.human_name@
            &&& device_rows(seq![device], links)[0].description == device.description@
            &&& device_rows(seq![device], links)[0].misc == device.misc@
            &&& device_rows(seq![device], links)[0].unique_id == unique_id(
                index,
                device.misc@,
                links,
            ).0
            &&& device_rows(seq![device], links)[0].id_stable == unique_id(
                index,
                device.misc@,
                links,
            ).1
        },
        device.index is String ==> device_rows(seq![device], links).len() == 0,
{
    lemma_first_row(seq![device], links);
    assert(seq![device].drop_first() =~= Seq::empty());
    reveal(Seq::filter);
    assert(device_rows(Seq::empty(), links) =~= Seq::empty());
}

/// Devices are told of one by one, in their order: what is told of two lists after each other is
/// what is told of the first and then what is told of the second.
pub proof fn devices_are_told_of_in_order(
    first: Seq<CameraInfo>,
    second: Seq<CameraInfo>,
    links: Seq<DeviceLink>,
)
    ensures
        device_rows(first + second, links) == device_rows(first, links) + device_rows(
            second,
            links,
        ),
    decreases second.len(),
{
    if second.len() == 0 {
        reveal(Seq::filter);
        assert(device_rows(second, links) =~= Seq::empty());
        assert(first + second =~= first);
        assert(device_rows(first, links) + device_rows(second, links) =~= device_rows(first, links));
    } else {
        let shorter = second.drop_last();
        devices_are_told_of_in_order(first, shorter, links);
        lemma_one_more_row(first + shorter, second.last(), links);
        lemma_one_more_row(shorter, second.last(), links);
        assert(shorter.push(second.last()) =~= second);
        assert((first + shorter).push(second.last()) =~= first + second);
        assert(device_rows(first + second, links) =~= device_rows(first, links) + device_rows(
            second,
            links,
        ));
    }
}

/// A row is seen with its own columns.
pub proof fn a_row_is_seen_as_it_is(rows: Seq<DeviceRow>, i: int)
    requires
        0 <= i < rows.len(),
    ensures
        rows_view(rows).len() == rows.len(),
        rows_view(rows)[i].index == rows[i].0,
        rows_view(rows)[i].human_name == rows[i].1@,
        rows_view(rows)[i].description == rows[i].2@,
        rows_view(rows)[i].misc == rows[i].3@,
        rows_view(rows)[i].unique_id == rows[i].4@,
        rows_view(rows)[i].id_stable == rows[i].5,
{
}

/// The first device that fits stands at the first position that does.
proof fn lemma_first_device(
    devices: Seq<CameraInfo>,
    fits: spec_fn(CameraInfo) -> bool,
    first: int,
)
    requires
        0 <= first < devices.len(),
        fits(devices[first]),
        forall|k: int| 0 <= k < first ==> !fits(#[trigger] devices[k]),
    ensures
        first_device(devices, fits) == Some(devices[first]),
    decreases devices.len(),
{
    if first > 0 {
        let rest = devices.drop_first();
        assert(!fits(devices[0]));
        assert forall|k: int| 0 <= k < first - 1 implies !fits(#[trigger] rest[k]) by {
            assert(rest[k] == devices[k + 1]);
        }
        lemma_first_device(rest, fits, first - 1);
    }
}

/// Where no position fits, no device does.
proof fn lemma_no_device(devices: Seq<CameraInfo>, fits: spec_fn(CameraInfo) -> bool)
    requires
        forall|k: int| 0 <= k < devices.len() ==> !fits(#[trigger] devices[k]),
    ensures
        first_device(devices, fits) is None,
    decreases devices.len(),
{
    if devices.len() > 0 {
        let rest = devices.drop_first();
        assert(!fits(devices[0]));
        assert forall|k: int| 0 <= k < rest.len() implies !fits(#[trigger] rest[k]) by {
            assert(rest[k] == devices[k + 1]);
        }
        lemma_no_device(rest, fits);
    }
}

/// Some position that fits has a first one at or before it.
proof fn lemma_least_position(
    devices: Seq<CameraInfo>,
    fits: spec_fn(CameraInfo) -> bool,
    at: int,
) -> (first: int)
    requires
        0 <= at < devices.len(),
        fits(devices[at]),
    ensures
        0 <= first <= at,
        fits(devices[first]),
        forall|k: int| 0 <= k < first ==> !fits(#[trigger] devices[k]),
    decreases at,
{
    if exists|k: int| 0 <= k < at && fits(#[trigger] devices[k]) {
        let k = choose|k: int| 0 <= k < at && fits(#[trigger] devices[k]);
        lemma_least_position(devices, fits, k)
    } else {
        at
    }
}

/// A number stands for the first device that has it: the key is made of that device's unique id
/// where this is stable, else of the number. The device is opened by the number.
pub proof fn a_number_stands_for_the_first_device_that_has_it(
    devices: Seq<CameraInfo>,
    links: Seq<DeviceLink>,
    index: u32,
    first: int,
)
    requires
        0 <= first < devices.len(),
        devices[first].index == CameraIndex::Index(index),
        forall|k: int|
            0 <= k < first ==> (#[trigger] devices[k]).index != CameraIndex::Index(index),
    ensures
        ({
            let (id, stable) = unique_id(index, devices[first].misc@, links);
            canonical_key(CameraIndex::Index(index), devices, links) == if stable {
                "id:"@ + id
            } else {
                "index:"@ + decimal(index as nat)
            }
        }),
        opening_name(CameraIndex::Index(index), devices, links) == CameraIndex::Index(index),
{
    lemma_first_device(devices, |device: CameraInfo| has_number(device, index), first);
}

/// A stable unique id stands for a device that has it, whichever other devices there are: it is the
/// key, and the device is opened by it.
pub proof fn a_stable_id_stands_for_its_device(
    devices: Seq<CameraInfo>,
    links: Seq<DeviceLink>,
    id: String,
    index: u32,
    at: int,
)
    requires
        0 <= at < devices.len(),
        devices[at].index == CameraIndex::Index(index),
        unique_id(index, devices[at].misc@, links) == (id@, true),
    ensures
        canonical_key(CameraIndex::String(id), devices, links) == "id:"@ + id@,
        opening_name(CameraIndex::String(id), devices, links) == CameraIndex::String(id),
{
    let fits = |device: CameraInfo| has_id(device, id@, true, links);
    assert(fits(devices[at]));
    let first = lemma_least_position(devices, fits, at);
    lemma_first_device(devices, fits, first);
}

/// A unique id that is no device's stable one stands for the first device that it stands in for:
/// the key is made of that device's number, and the device is opened by it.
pub proof fn a_stand_in_stands_for_its_device(
    devices: Seq<CameraInfo>,
    links: Seq<DeviceLink>,
    id: String,
    index: u32,
    at: int,
)
    requires
        0 <= at < devices.len(),
        devices[at].index == CameraIndex::Index(index),
        unique_id(index, devices[at].misc@, links) == (id@, false),
        forall|k: int|
            0 <= k < devices.len() ==> ((#[trigger] devices[k]).index matches CameraIndex::Index(own)
                ==> unique_id(own, devices[k].misc@, links) != (id@, true)),
    ensures
        canonical_key(CameraIndex::String(id), devices, links) == "index:"@ + decimal(index as nat),
        opening_name(CameraIndex::String(id), devices, links) == CameraIndex::Index(index),
{
    let fits = |device: CameraInfo| has_id(device, id@, false, links);
    lemma_no_device(devices, |device: CameraInfo| has_id(device, id@, true, links));
    assert(fits(devices[at]));
    let first = lemma_least_position(devices, fits, at);
    lemma_first_device(devices, fits, first);
    let own = devices[first].index->Index_0;
    assert(index_key(own) == id@ && index_key(index) == id@);
    names_with_one_key_are_one_name(CameraIndex::Index(own), CameraIndex::Index(index));
}

/// A name that no device answers to is its own key, and is opened as it stands.
pub proof fn an_unknown_name_is_taken_as_it_stands(
    devices: Seq<CameraInfo>,
    links: Seq<DeviceLink>,
    name: CameraIndex,
)
    requires
        forall|k: int|
            0 <= k < devices.len() ==> ((#[trigger] devices[k]).index matches CameraIndex::Index(own)
                ==> match name {
                CameraIndex::Index(index) => own != index,
                CameraIndex::String(id) => unique_id(own, devices[k].misc@, links).0 != id@,
            }),
    ensures
        name matches CameraIndex::Index(index) ==> canonical_key(name, devices, links) == "index:"@
            + decimal(index as nat),
        name matches CameraIndex::String(id) ==> canonical_key(name, devices, links) == "id:"@ + id@,
        opening_name(name, devices, links) == name,
{
    match name {
        CameraIndex::Index(index) => {
            lemma_no_device(devices, |device: CameraInfo| has_number(device, index));
        },
        CameraIndex::String(id) => {
            lemma_no_device(devices, |device: CameraInfo| has_id(device, id@, true, links));
            lemma_no_device(devices, |device: CameraInfo| has_id(device, id@, false, links));
        },
    }
}

/// Where the system lists its devices, they are all taken into account, in their order; where it
/// does not, there are none to find a name among.
pub proof fn a_list_is_taken_whole(devices: Vec<CameraInfo>)
    ensures
        listed(Some(devices)) == devices@,
        listed(None) == Seq::<CameraInfo>::empty(),
{
}

} // verus!
