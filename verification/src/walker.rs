//! Rebuilding the object tree from what the daemon reports: the children of one object
//! by their node names, and adapters and devices from the tree of managed objects.

use vstd::prelude::*;
use vstd::string::*;
use crate::adapter::{ADAPTER_PREFIX, AdapterId, ROOT_PATH};
use crate::characteristic::{CHARACTERISTIC_PREFIX, CharacteristicId};
use crate::descriptor::{DESCRIPTOR_PREFIX, DescriptorId};
use crate::device::{decoded, DeviceId, DeviceInfo, DeviceInfoView, missing_property};
use crate::error::BluetoothError;
use crate::path::{child_of, depth, is_object_path, is_segment};
use crate::property::{bag_view, BagView, Property, texts};
use crate::service::{SERVICE_PREFIX, ServiceId};
use crate::text::same_text;

verus! {

/// The interface that every adapter exposes.
pub const ADAPTER_INTERFACE: &'static str = "org.bluez.Adapter1";

/// The interface that every device exposes.
pub const DEVICE_INTERFACE: &'static str = "org.bluez.Device1";

/// One interface of a managed object, with its properties.
#[derive(Clone, Debug, PartialEq, Eq)]
pub struct Interface {
    pub name: String,
    pub properties: Vec<Property>,
}

/// One object of the daemon's tree, with the interfaces that it exposes.
#[derive(Clone, Debug, PartialEq, Eq)]
pub struct ManagedObject {
    pub path: String,
    pub interfaces: Vec<Interface>,
}

/// The paths of the children of `parent` among the node names `names`, in order: a
/// name counts where it is a path segment that begins with `prefix`, and every other
/// name is passed over.
pub open spec fn child_paths(parent: Seq<char>, names: Seq<Seq<char>>, prefix: Seq<char>) -> Seq<
    Seq<char>,
>
    decreases names.len(),
{
    if names.len() == 0 {
        seq![]
    } else {
        let rest = child_paths(parent, names.drop_last(), prefix);
        if is_segment(names.last()) && prefix.is_prefix_of(names.last()) {
            rest.push(child_of(parent, names.last()))
        } else {
            rest
        }
    }
}

/// The object paths of a list of adapter identifiers.
pub open spec fn adapter_paths(ids: Seq<AdapterId>) -> Seq<Seq<char>> {
    ids.map_values(|id: AdapterId| id@)
}

/// The object paths of a list of service identifiers.
pub open spec fn service_paths(ids: Seq<ServiceId>) -> Seq<Seq<char>> {
    ids.map_values(|id: ServiceId| id@)
}

/// The object paths of a list of characteristic identifiers.
pub open spec fn characteristic_paths(ids: Seq<CharacteristicId>) -> Seq<Seq<char>> {
    ids.map_values(|id: CharacteristicId| id@)
}

/// The object paths of a list of descriptor identifiers.
pub open spec fn descriptor_paths(ids: Seq<DescriptorId>) -> Seq<Seq<char>> {
    ids.map_values(|id: DescriptorId| id@)
}

/// Picks the adapters that the daemon's root holds out of the node names `names`.
pub fn adapter_ids(names: &Vec<String>) -> (ids: Vec<AdapterId>)
    ensures
        adapter_paths(ids@) == child_paths(ROOT_PATH@, texts(names@), ADAPTER_PREFIX@),
        forall|i: int| 0 <= i < ids.len() ==> (#[trigger] ids@[i]).wf(),
{
    let mut ids: Vec<AdapterId> = Vec::new();
    let mut i: usize = 0;
    assert(adapter_paths(ids@) =~= seq![]);
    while i < names.len()
        invariant
            i <= names.len(),
            adapter_paths(ids@) == child_paths(
                ROOT_PATH@,
                texts(names@).subrange(0, i as int),
                ADAPTER_PREFIX@,
            ),
            forall|j: int| 0 <= j < ids.len() ==> (#[trigger] ids@[j]).wf(),
        decreases names.len() - i,
    {
        proof {
            assert(texts(names@).subrange(0, i + 1).drop_last() =~= texts(names@).subrange(
                0,
                i as int,
            ));
        }
        let ghost before = ids@;
        match AdapterId::in_root(names[i].as_str()) {
            Some(id) => {
                ids.push(id);
                assert(adapter_paths(ids@) =~= adapter_paths(before).push(id@));
            },
            None => {},
        }
        i += 1;
    }
    assert(texts(names@).subrange(0, i as int) =~= texts(names@));
    ids
}

/// Picks the services of `device` out of the node names `names`.
pub fn service_ids(device: &DeviceId, names: &Vec<String>) -> (ids: Vec<ServiceId>)
    ensures
        service_paths(ids@) == child_paths(device@, texts(names@), SERVICE_PREFIX@),
        forall|i: int| 0 <= i < ids.len() ==> (#[trigger] ids@[i]).wf(),
{
    let mut ids: Vec<ServiceId> = Vec::new();
    let mut i: usize = 0;
    assert(service_paths(ids@) =~= seq![]);
    while i < names.len()
        invariant
            i <= names.len(),
            service_paths(ids@) == child_paths(
                device@,
                texts(names@).subrange(0, i as int),
                SERVICE_PREFIX@,
            ),
            forall|j: int| 0 <= j < ids.len() ==> (#[trigger] ids@[j]).wf(),
        decreases names.len() - i,
    {
        proof {
            assert(texts(names@).subrange(0, i + 1).drop_last() =~= texts(names@).subrange(
                0,
                i as int,
            ));
        }
        let ghost before = ids@;
        match ServiceId::in_device(device, names[i].as_str()) {
            Some(id) => {
                ids.push(id);
                assert(service_paths(ids@) =~= service_paths(before).push(id@));
            },
            None => {},
        }
        i += 1;
    }
    assert(texts(names@).subrange(0, i as int) =~= texts(names@));
    ids
}

/// Picks the characteristics of `service` out of the node names `names`.
pub fn characteristic_ids(service: &ServiceId, names: &Vec<String>) -> (ids: Vec<CharacteristicId>)
    ensures
        characteristic_paths(ids@) == child_paths(service@, texts(names@), CHARACTERISTIC_PREFIX@),
        forall|i: int| 0 <= i < ids.len() ==> (#[trigger] ids@[i]).wf(),
{
    let mut ids: Vec<CharacteristicId> = Vec::new();
    let mut i: usize = 0;
    assert(characteristic_paths(ids@) =~= seq![]);
    while i < names.len()
        invariant
            i <= names.len(),
            characteristic_paths(ids@) == child_paths(
                service@,
                texts(names@).subrange(0, i as int),
                CHARACTERISTIC_PREFIX@,
            ),
            forall|j: int| 0 <= j < ids.len() ==> (#[trigger] ids@[j]).wf(),
        decreases names.len() - i,
    {
        proof {
            assert(texts(names@).subrange(0, i + 1).drop_last() =~= texts(names@).subrange(
                0,
                i as int,
            ));
        }
        let ghost before = ids@;
        match CharacteristicId::in_service(service, names[i].as_str()) {
            Some(id) => {
                ids.push(id);
                assert(characteristic_paths(ids@) =~= characteristic_paths(before).push(id@));
            },
            None => {},
        }
        i += 1;
    }
    assert(texts(names@).subrange(0, i as int) =~= texts(names@));
    ids
}

/// Picks the descriptors of `characteristic` out of the node names `names`.
pub fn descriptor_ids(characteristic: &CharacteristicId, names: &Vec<String>) -> (ids: Vec<DescriptorId>)
    ensures
        descriptor_paths(ids@) == child_paths(characteristic@, texts(names@), DESCRIPTOR_PREFIX@),
        forall|i: int| 0 <= i < ids.len() ==> (#[trigger] ids@[i]).wf(),
{
    let mut ids: Vec<DescriptorId> = Vec::new();
    let mut i: usize = 0;
    assert(descriptor_paths(ids@) =~= seq![]);
    while i < names.len()
        invariant
            i <= names.len(),
            descriptor_paths(ids@) == child_paths(
                characteristic@,
                texts(names@).subrange(0, i as int),
                DESCRIPTOR_PREFIX@,
            ),
            forall|j: int| 0 <= j < ids.len() ==> (#[trigger] ids@[j]).wf(),
        decreases names.len() - i,
    {
        proof {
            assert(texts(names@).subrange(0, i + 1).drop_last() =~= texts(names@).subrange(
                0,
                i as int,
            ));
        }
        let ghost before = ids@;
        match DescriptorId::in_characteristic(characteristic, names[i].as_str()) {
            Some(id) => {
                ids.push(id);
                assert(descriptor_paths(ids@) =~= descriptor_paths(before).push(id@));
            },
            None => {},
        }
        i += 1;
    }
    assert(texts(names@).subrange(0, i as int) =~= texts(names@));
    ids
}

/// The properties of the first interface called `name`, if the object exposes one.
pub open spec fn properties_of(interfaces: Seq<Interface>, name: Seq<char>) -> Option<BagView>
    decreases interfaces.len(),
{
    if interfaces.len() == 0 {
        None
    } else if interfaces[0].name@ == name {
        Some(bag_view(interfaces[0].properties@))
    } else {
        properties_of(interfaces.drop_first(), name)
    }
}

/// Looks up the properties of the first interface called `name`.
pub fn interface_properties<'a>(interfaces: &'a Vec<Interface>, name: &str) -> (found: Option<
    &'a Vec<Property>,
>)
    ensures
        match found {
            Some(properties) => properties_of(interfaces@, name@) == Some(bag_view(properties@)),
            None => properties_of(interfaces@, name@) is None,
        },
{
    let mut i: usize = 0;
    proof {
        assert(interfaces@.subrange(0, interfaces.len() as int) =~= interfaces@);
    }
    while i < interfaces.len()
        invariant
            i <= interfaces.len(),
            properties_of(interfaces@, name@) == properties_of(
                interfaces@.subrange(i as int, interfaces.len() as int),
                name@,
            ),
        decreases interfaces.len() - i,
    {
        proof {
            let rest = interfaces@.subrange(i as int, interfaces.len() as int);
            assert(rest[0] == interfaces@[i as int]);
            assert(rest.drop_first() =~= interfaces@.subrange(i + 1, interfaces.len() as int));
        }
        if same_text(interfaces[i].name.as_str(), name) {
            return Some(&interfaces[i].properties);
        }
        i += 1;
    }
    None
}

/// The path of `object` where it is an adapter: it exposes the adapter interface and
/// stands at an object path.
pub open spec fn adapter_at(object: ManagedObject) -> Option<Seq<char>> {
    if properties_of(object.interfaces@, ADAPTER_INTERFACE@) is Some && is_object_path(
        object.path@,
    ) {
        Some(object.path@)
    } else {
        None
    }
}

/// The paths of the adapters of `tree`, in order.
pub open spec fn adapters_in(tree: Seq<ManagedObject>) -> Seq<Seq<char>>
    decreases tree.len(),
{
    if tree.len() == 0 {
        seq![]
    } else {
        let rest = adapters_in(tree.drop_last());
        match adapter_at(tree.last()) {
            Some(path) => rest.push(path),
            None => rest,
        }
    }
}

/// The adapters of a tree are the objects of it that are adapters, and nothing else: a
/// tree without such an object has none, whatever else it holds.
pub proof fn lemma_adapters_in(tree: Seq<ManagedObject>)
    ensures
        adapters_in(tree).len() <= tree.len(),
        forall|path: Seq<char>|
            adapters_in(tree).contains(path) <==> exists|i: int|
                0 <= i < tree.len() && adapter_at(#[trigger] tree[i]) == Some(path),
        adapters_in(tree).len() == 0 <==> forall|i: int|
            0 <= i < tree.len() ==> adapter_at(#[trigger] tree[i]) is None,
    decreases tree.len(),
{
    if tree.len() > 0 {
        let front = tree.drop_last();
        lemma_adapters_in(front);
        let rest = adapters_in(front);
        let all = adapters_in(tree);
        assert forall|path: Seq<char>|
            all.contains(path) <==> exists|i: int|
                0 <= i < tree.len() && adapter_at(#[trigger] tree[i]) == Some(path) by {
            if all.contains(path) {
                let k = choose|k: int| 0 <= k < all.len() && all[k] == path;
                if k < rest.len() {
                    assert(rest[k] == path);
                    assert(rest.contains(path));
                    let i = choose|i: int|
                        0 <= i < front.len() && adapter_at(#[trigger] front[i]) == Some(path);
                    assert(tree[i] == front[i]);
                } else {
                    assert(adapter_at(tree[tree.len() - 1]) == Some(path));
                }
            }
            if exists|i: int| 0 <= i < tree.len() && adapter_at(#[trigger] tree[i]) == Some(path) {
                let i = choose|i: int|
                    0 <= i < tree.len() && adapter_at(#[trigger] tree[i]) == Some(path);
                if i < front.len() {
                    assert(front[i] == tree[i]);
                    assert(rest.contains(path));
                    let k = choose|k: int| 0 <= k < rest.len() && rest[k] == path;
                    assert(all[k] == path);
                } else {
                    assert(all[all.len() - 1] == path);
                }
            }
        }
        if all.len() == 0 {
            assert forall|i: int| 0 <= i < tree.len() implies adapter_at(
                #[trigger] tree[i],
            ) is None by {
                if i < front.len() {
                    assert(front[i] == tree[i]);
                }
            }
        } else {
            assert(all.contains(all[0]));
            let i = choose|i: int|
                0 <= i < tree.len() && adapter_at(#[trigger] tree[i]) == Some(all[0]);
            assert(adapter_at(tree[i]) is Some);
        }
    }
}

/// The record of `object` where it is a device: it exposes the device interface with
/// every required property, and stands at an object path of two segments or more.
pub open spec fn device_at(object: ManagedObject) -> Option<DeviceInfoView> {
    match properties_of(object.interfaces@, DEVICE_INTERFACE@) {
        Some(bag) => if is_object_path(object.path@) && depth(object.path@) >= 2
            && missing_property(bag) is None {
            Some(decoded(object.path@, bag))
        } else {
            None
        },
        None => None,
    }
}

/// The records of the devices of `tree`, in order.
pub open spec fn devices_in(tree: Seq<ManagedObject>) -> Seq<DeviceInfoView>
    decreases tree.len(),
{
    if tree.len() == 0 {
        seq![]
    } else {
        let rest = devices_in(tree.drop_last());
        match device_at(tree.last()) {
            Some(record) => rest.push(record),
            None => rest,
        }
    }
}

/// What a list of device records holds.
pub open spec fn device_views(devices: Seq<DeviceInfo>) -> Seq<DeviceInfoView> {
    devices.map_values(|d: DeviceInfo| d@)
}

/// Lists the adapters in the tree of managed objects: the objects that expose the
/// adapter interface. A tree without any is an error.
pub fn adapters_from_tree(tree: &Vec<ManagedObject>) -> (adapters: Result<
    Vec<AdapterId>,
    BluetoothError,
>)
    ensures
        match adapters {
            Ok(ids) => {
                &&& ids.len() > 0
                &&& adapter_paths(ids@) == adapters_in(tree@)
                &&& forall|i: int| 0 <= i < ids.len() ==> (#[trigger] ids@[i]).wf()
            },
            Err(e) => e is NoBluetoothAdapters && adapters_in(tree@).len() == 0,
        },
{
    let mut ids: Vec<AdapterId> = Vec::new();
    let mut i: usize = 0;
    assert(adapter_paths(ids@) =~= seq![]);
    while i < tree.len()
        invariant
            i <= tree.len(),
            adapter_paths(ids@) == adapters_in(tree@.subrange(0, i as int)),
            forall|j: int| 0 <= j < ids.len() ==> (#[trigger] ids@[j]).wf(),
        decreases tree.len() - i,
    {
        proof {
            assert(tree@.subrange(0, i + 1).drop_last() =~= tree@.subrange(0, i as int));
        }
        let ghost before = ids@;
        if interface_properties(&tree[i].interfaces, ADAPTER_INTERFACE).is_some() {
            match AdapterId::new(tree[i].path.as_str()) {
                Some(id) => {
                    ids.push(id);
                    assert(adapter_paths(ids@) =~= adapter_paths(before).push(id@));
                },
                None => {},
            }
        }
        i += 1;
    }
    assert(tree@.subrange(0, i as int) =~= tree@);
    if ids.len() == 0 {
        Err(BluetoothError::NoBluetoothAdapters)
    } else {
        assert(adapter_paths(ids@).len() == ids.len());
        Ok(ids)
    }
}

/// Lists the devices in the tree of managed objects: the objects that expose the
/// device interface and whose properties decode. An object whose record cannot be
/// decoded is passed over.
pub fn devices_from_tree(tree: &Vec<ManagedObject>) -> (devices: Vec<DeviceInfo>)
    ensures
        device_views(devices@) == devices_in(tree@),
{
    let mut devices: Vec<DeviceInfo> = Vec::new();
    let mut i: usize = 0;
    assert(device_views(devices@) =~= seq![]);
    while i < tree.len()
        invariant
            i <= tree.len(),
            device_views(devices@) == devices_in(tree@.subrange(0, i as int)),
        decreases tree.len() - i,
    {
        proof {
            assert(tree@.subrange(0, i + 1).drop_last() =~= tree@.subrange(0, i as int));
        }
        let ghost before = devices@;
        match interface_properties(&tree[i].interfaces, DEVICE_INTERFACE) {
            Some(properties) => match DeviceId::new(tree[i].path.as_str()) {
                Some(id) => match DeviceInfo::from_properties(id, properties) {
                    Ok(record) => {
                        devices.push(record);
                        assert(device_views(devices@) =~= device_views(before).push(record@));
                    },
                    Err(_) => {},
                },
                None => {},
            },
            None => {},
        }
        i += 1;
    }
    assert(tree@.subrange(0, i as int) =~= tree@);
    devices
}

} // verus!
