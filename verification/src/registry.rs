//! The input devices that were granted, and what the input library knows of
//! them.
//!
//! The input library opens devices by path, and every path it may open is one
//! that was granted: what it gets is the granted descriptor. `F` is the type of
//! the descriptors, `D` that of the library's device handles.

use vstd::prelude::*;
use vstd::utf8::{decode_utf8, valid_utf8};

use crate::path::{is_absolute, is_absolute_path, is_same_path, path_str, same_path};
use crate::sgc::Resource;

verus! {

/// One granted input device.
pub struct GrantedInput<F, D> {
    /// The resource it was granted as.
    pub resource: Resource,
    /// The descriptor to read it from.
    pub fd: F,
    /// The path of the device.
    pub path: Vec<u8>,
    /// The input library's handle, once it has taken the device.
    pub device: Option<D>,
}

/// A granted input device.
#[verifier::ext_equal]
pub struct DeviceEntry<F, D> {
    pub resource: Resource,
    pub fd: F,
    pub path: Seq<u8>,
    pub device: Option<D>,
}

impl<F, D> View for GrantedInput<F, D> {
    type V = DeviceEntry<F, D>;

    open spec fn view(&self) -> DeviceEntry<F, D> {
        DeviceEntry {
            resource: self.resource,
            fd: self.fd,
            path: self.path@,
            device: self.device,
        }
    }
}

/// The first entry with the path, or the number of entries where there is none.
/// Paths are compared component by component.
pub open spec fn entry_at<F, D>(entries: Seq<DeviceEntry<F, D>>, path: Seq<u8>) -> int
    decreases entries.len(),
{
    if entries.len() == 0 {
        0
    } else if same_path(entries[0].path, path) {
        0
    } else {
        1 + entry_at(entries.skip(1), path)
    }
}

/// Some entry has the path.
pub open spec fn is_granted<F, D>(entries: Seq<DeviceEntry<F, D>>, path: Seq<u8>) -> bool {
    entry_at(entries, path) < entries.len()
}

/// No two entries have the same path, and every path starts at the root.
pub open spec fn entries_valid<F, D>(entries: Seq<DeviceEntry<F, D>>) -> bool {
    &&& forall|i: int, j: int|
        0 <= i < j < entries.len() ==> !same_path(
            (#[trigger] entries[i]).path,
            (#[trigger] entries[j]).path,
        )
    &&& forall|i: int| 0 <= i < entries.len() ==> is_absolute_path((#[trigger] entries[i]).path)
}

/// The paths and resources of the devices that the input library has not taken
/// yet, in order.
pub open spec fn pending<F, D>(entries: Seq<DeviceEntry<F, D>>) -> Seq<(Seq<u8>, Resource)>
    decreases entries.len(),
{
    if entries.len() == 0 {
        Seq::empty()
    } else if entries.last().device is None {
        pending(entries.drop_last()).push((entries.last().path, entries.last().resource))
    } else {
        pending(entries.drop_last())
    }
}

/// The entries after the input library took the device at `path`.
pub open spec fn with_device<F, D>(
    entries: Seq<DeviceEntry<F, D>>,
    path: Seq<u8>,
    device: D,
) -> Seq<DeviceEntry<F, D>> {
    let i = entry_at(entries, path);
    if i < entries.len() {
        entries.update(i, DeviceEntry { device: Some(device), ..entries[i] })
    } else {
        entries
    }
}

/// The entries after the input library was asked to take devices, with its
/// answers.
pub open spec fn with_answers<F, D>(
    entries: Seq<DeviceEntry<F, D>>,
    asked: Seq<Seq<u8>>,
    answers: Seq<Option<D>>,
) -> Seq<DeviceEntry<F, D>>
    decreases asked.len(),
{
    if asked.len() == 0 {
        entries
    } else {
        let before = with_answers(entries, asked.drop_last(), answers.drop_last());
        match answers.last() {
            Some(device) => with_device(before, asked.last(), device),
            None => before,
        }
    }
}

/// How many of the devices that the input library took are granted.
pub open spec fn added_count<F, D>(
    entries: Seq<DeviceEntry<F, D>>,
    asked: Seq<Seq<u8>>,
    answers: Seq<Option<D>>,
) -> nat
    decreases asked.len(),
{
    if asked.len() == 0 {
        0
    } else {
        added_count(entries, asked.drop_last(), answers.drop_last()) + if answers.last() is Some
            && is_granted(entries, asked.last()) {
            1nat
        } else {
            0nat
        }
    }
}

/// The handles of the devices that the input library took and that are granted
/// no longer, in order.
pub open spec fn orphans<F, D>(
    entries: Seq<DeviceEntry<F, D>>,
    asked: Seq<Seq<u8>>,
    answers: Seq<Option<D>>,
) -> Seq<D>
    decreases asked.len(),
{
    if asked.len() == 0 {
        Seq::empty()
    } else {
        let before = orphans(entries, asked.drop_last(), answers.drop_last());
        match answers.last() {
            Some(device) => if is_granted(entries, asked.last()) {
                before
            } else {
                before.push(device)
            },
            None => before,
        }
    }
}

/// The entries that stay when a resource is revoked.
pub open spec fn without_resource<F, D>(
    entries: Seq<DeviceEntry<F, D>>,
    resource: Resource,
) -> Seq<DeviceEntry<F, D>>
    decreases entries.len(),
{
    if entries.len() == 0 {
        Seq::empty()
    } else {
        let before = without_resource(entries.drop_last(), resource);
        if entries.last().resource == resource {
            before
        } else {
            before.push(entries.last())
        }
    }
}

/// The handles that the input library has of a resource, in order.
pub open spec fn devices_of<F, D>(
    entries: Seq<DeviceEntry<F, D>>,
    resource: Resource,
) -> Seq<D>
    decreases entries.len(),
{
    if entries.len() == 0 {
        Seq::empty()
    } else {
        let before = devices_of(entries.drop_last(), resource);
        match entries.last().device {
            Some(device) => if entries.last().resource == resource {
                before.push(device)
            } else {
                before
            },
            None => before,
        }
    }
}

/// [`entry_at`] finds the first entry with the path.
proof fn lemma_entry_at<F, D>(entries: Seq<DeviceEntry<F, D>>, path: Seq<u8>)
    ensures
        0 <= entry_at(entries, path) <= entries.len(),
        is_granted(entries, path) ==> same_path(entries[entry_at(entries, path)].path, path),
        forall|j: int|
            0 <= j < entry_at(entries, path) ==> !same_path((#[trigger] entries[j]).path, path),
    decreases entries.len(),
{
    if entries.len() > 0 && !same_path(entries[0].path, path) {
        let rest = entries.skip(1);
        lemma_entry_at(rest, path);
        assert forall|j: int| 0 <= j < entry_at(entries, path) implies !same_path(
            (#[trigger] entries[j]).path,
            path,
        ) by {
            if j > 0 {
                assert(rest[j - 1] == entries[j]);
            }
        }
    }
}

/// Why a granted device is passed over.
#[derive(Clone, Copy, PartialEq, Eq, Structural, Debug)]
pub enum Skipped {
    /// Its path is not known.
    Unresolved,
    /// Its path is none of a device.
    NotAbsolute,
    /// Its descriptor's flags could not be set; holds the error number.
    Flags(i32),
    /// A device with its path is registered already.
    Duplicate,
}

/// The path of a granted device, from what reading its descriptor's link gave.
/// Only an absolute path is one of a device.
pub fn device_path(link: Option<Vec<u8>>) -> (path: Result<Vec<u8>, Skipped>)
    ensures
        match link {
            None => path == Err::<Vec<u8>, Skipped>(Skipped::Unresolved),
            Some(link) => if is_absolute_path(link@) {
                path == Ok::<Vec<u8>, Skipped>(link)
            } else {
                path == Err::<Vec<u8>, Skipped>(Skipped::NotAbsolute)
            },
        },
{
    match link {
        None => Err(Skipped::Unresolved),
        Some(link) => if is_absolute(link.as_slice()) {
            Ok(link)
        } else {
            Err(Skipped::NotAbsolute)
        },
    }
}

/// A device that the input library has to be asked to take.
#[derive(PartialEq, Eq, Debug)]
pub struct PendingDevice {
    /// The path of the device.
    pub path: Vec<u8>,
    /// The resource it was granted as.
    pub resource: Resource,
}

impl View for PendingDevice {
    type V = (Seq<u8>, Resource);

    open spec fn view(&self) -> (Seq<u8>, Resource) {
        (self.path@, self.resource)
    }
}

impl PendingDevice {
    /// The path as the input library takes it; one that is no text cannot be
    /// handed over.
    pub fn path_text(&self) -> (text: Option<&str>)
        ensures
            text is Some <==> valid_utf8(self@.0),
            text matches Some(text) ==> text@ == decode_utf8(self@.0),
    {
        path_str(self.path.as_slice())
    }
}

/// The granted devices.
pub struct InputRegistry<F, D> {
    devices: Vec<GrantedInput<F, D>>,
}

impl<F, D> View for InputRegistry<F, D> {
    type V = Seq<DeviceEntry<F, D>>;

    closed spec fn view(&self) -> Seq<DeviceEntry<F, D>> {
        self.devices@.map_values(|granted: GrantedInput<F, D>| granted@)
    }
}

/// The error number for a file that is not there: `nix::errno::Errno::ENOENT`,
/// which is 2 on Linux.
#[verifier::external_body]
fn no_entry() -> (errno: i32)
    ensures
        errno == 2,
{
    nix::errno::Errno::ENOENT as i32
}

impl<F, D> InputRegistry<F, D> {
    /// A registry with no devices.
    pub fn new() -> (registry: InputRegistry<F, D>)
        ensures
            registry@ == Seq::<DeviceEntry<F, D>>::empty(),
            entries_valid(registry@),
    {
        let registry = InputRegistry { devices: Vec::new() };
        assert(registry@ =~= Seq::<DeviceEntry<F, D>>::empty());
        registry
    }

    /// The index of the entry with the path.
    fn position(&self, path: &[u8]) -> (i: Option<usize>)
        ensures
            match i {
                Some(i) => i == entry_at(self@, path@) && i < self@.len(),
                None => !is_granted(self@, path@),
            },
    {
        let mut i: usize = 0;
        while i < self.devices.len()
            invariant
                0 <= i <= self.devices@.len(),
                forall|j: int| 0 <= j < i ==> !same_path((#[trigger] self@[j]).path, path@),
            decreases self.devices@.len() - i,
        {
            assert(self@[i as int] == self.devices@[i as int]@);
            if is_same_path(self.devices[i].path.as_slice(), path) {
                proof {
                    lemma_entry_at(self@, path@);
                }
                return Some(i);
            }
            i += 1;
        }
        proof {
            lemma_entry_at(self@, path@);
        }
        None
    }

    /// Registers a granted device. `flags` is what setting up its descriptor
    /// returned. A device that cannot be registered is passed over; input is best
    /// effort.
    pub fn add_granted(
        &mut self,
        resource: Resource,
        fd: F,
        path: Vec<u8>,
        flags: Result<(), i32>,
    ) -> (registered: Result<(), Skipped>)
        requires
            entries_valid(old(self)@),
            is_absolute_path(path@),
        ensures
            entries_valid(final(self)@),
            match registered {
                Ok(_) => {
                    &&& flags is Ok
                    &&& !is_granted(old(self)@, path@)
                    &&& final(self)@ == old(self)@.push(
                        DeviceEntry { resource, fd, path: path@, device: None },
                    )
                },
                Err(Skipped::Flags(errno)) => {
                    &&& flags == Err::<(), i32>(errno)
                    &&& final(self)@ == old(self)@
                },
                Err(Skipped::Duplicate) => {
                    &&& flags is Ok
                    &&& is_granted(old(self)@, path@)
                    &&& final(self)@ == old(self)@
                },
                Err(_) => false,
            },
    {
        if let Err(errno) = flags {
            return Err(Skipped::Flags(errno));
        }
        if let Some(_) = self.position(path.as_slice()) {
            return Err(Skipped::Duplicate);
        }
        proof {
            lemma_entry_at(self@, path@);
        }
        let granted = GrantedInput { resource, fd, path, device: None };
        self.devices.push(granted);
        assert(self@ =~= old(self)@.push(
            DeviceEntry { resource, fd, path: path@, device: None },
        ));
        Ok(())
    }

    /// The descriptor of the device that the input library asks for by path.
    pub fn find_fd(&self, path: &[u8]) -> (fd: Option<&F>)
        ensures
            match fd {
                Some(fd) => is_granted(self@, path@) && *fd == self@[entry_at(self@, path@)].fd,
                None => !is_granted(self@, path@),
            },
    {
        match self.position(path) {
            Some(i) => {
                assert(self@[i as int] == self.devices@[i as int]@);
                Some(&self.devices[i].fd)
            },
            None => None,
        }
    }

    /// The devices that the input library has not taken yet.
    pub fn pending_devices(&self) -> (devices: Vec<PendingDevice>)
        ensures
            devices@.map_values(|device: PendingDevice| device@) == pending(self@),
    {
        let mut devices: Vec<PendingDevice> = Vec::new();
        let mut i: usize = 0;
        assert(self@.take(0) =~= Seq::<DeviceEntry<F, D>>::empty());
        assert(devices@.map_values(|device: PendingDevice| device@) =~= pending(self@.take(0)));
        while i < self.devices.len()
            invariant
                0 <= i <= self.devices@.len(),
                self@.len() == self.devices@.len(),
                devices@.map_values(|device: PendingDevice| device@) == pending(
                    self@.take(i as int),
                ),
            decreases self.devices@.len() - i,
        {
            let granted = &self.devices[i];
            let ghost before = devices@;
            proof {
                assert(self@[i as int] == granted@);
                assert(self@.take(i + 1).drop_last() =~= self@.take(i as int));
                assert(self@.take(i + 1).last() == granted@);
            }
            if granted.device.is_none() {
                let path = vstd::slice::slice_to_vec(granted.path.as_slice());
                devices.push(PendingDevice { path, resource: granted.resource });
                assert(devices@.map_values(|device: PendingDevice| device@) =~= before.map_values(
                    |device: PendingDevice| device@,
                ).push((granted@.path, granted@.resource)));
            }
            i += 1;
        }
        assert(self@.take(i as int) =~= self@);
        devices
    }

    /// Stores the input library's handle of the device at `path`. The handle
    /// comes back if the device is granted no longer, so that the library can be
    /// told to drop it.
    pub fn attach_device(&mut self, path: &[u8], device: D) -> (rejected: Option<D>)
        requires
            entries_valid(old(self)@),
        ensures
            entries_valid(final(self)@),
            final(self)@ == with_device(old(self)@, path@, device),
            rejected == (if is_granted(old(self)@, path@) {
                None
            } else {
                Some(device)
            }),
    {
        match self.position(path) {
            Some(i) => {
                assert(self@[i as int] == self.devices@[i as int]@);
                self.devices[i].device = Some(device);
                assert(self@ =~= with_device(old(self)@, path@, device));
                None
            },
            None => Some(device),
        }
    }

    /// What the input library gets when it opens a path: the granted device's
    /// descriptor, or the error for a file that is not there.
    pub fn open_restricted(&self, path: &[u8]) -> (fd: Result<&F, i32>)
        ensures
            match fd {
                Ok(fd) => is_granted(self@, path@) && *fd == self@[entry_at(self@, path@)].fd,
                Err(errno) => !is_granted(self@, path@) && errno == 2,
            },
    {
        match self.find_fd(path) {
            Some(fd) => Ok(fd),
            None => Err(no_entry()),
        }
    }

    /// Drops the entries of a resource that was revoked, and returns the handles
    /// that the input library has to be told to drop.
    pub fn remove_granted(&mut self, resource: Resource) -> (devices: Vec<D>)
        requires
            entries_valid(old(self)@),
        ensures
            entries_valid(final(self)@),
            final(self)@ == without_resource(old(self)@, resource),
            devices@ == devices_of(old(self)@, resource),
    {
        let mut kept: Vec<GrantedInput<F, D>> = Vec::new();
        let mut devices: Vec<D> = Vec::new();
        let ghost entries = self@;
        let mut rest: Vec<GrantedInput<F, D>> = Vec::new();
        std::mem::swap(&mut rest, &mut self.devices);
        let ghost all = rest@;
        let ghost mut done: int = 0;
        assert(entries.take(0) =~= Seq::<DeviceEntry<F, D>>::empty());
        assert(kept@.map_values(|granted: GrantedInput<F, D>| granted@)
            =~= without_resource(entries.take(0), resource));
        assert(devices@ =~= devices_of(entries.take(0), resource));
        while rest.len() > 0
            invariant
                0 <= done <= all.len(),
                entries == all.map_values(|granted: GrantedInput<F, D>| granted@),
                rest@ =~= all.skip(done),
                kept@.map_values(|granted: GrantedInput<F, D>| granted@) == without_resource(
                    entries.take(done),
                    resource,
                ),
                devices@ == devices_of(entries.take(done), resource),
            decreases rest@.len(),
        {
            let granted = rest.remove(0);
            let ghost kept_before = kept@;
            proof {
                assert(granted == all[done]);
                assert(entries[done] == granted@);
                assert(entries.take(done + 1).drop_last() =~= entries.take(done));
                assert(entries.take(done + 1).last() == granted@);
            }
            if granted.resource == resource {
                if let Some(device) = granted.device {
                    devices.push(device);
                }
            } else {
                kept.push(granted);
                assert(kept@.map_values(|granted: GrantedInput<F, D>| granted@)
                    =~= kept_before.map_values(|granted: GrantedInput<F, D>| granted@).push(
                    granted@,
                ));
            }
            proof {
                done = done + 1;
            }
        }
        assert(entries.take(done) =~= entries);
        proof {
            lemma_without_resource(entries, resource);
        }
        self.devices = kept;
        devices
    }
}

/// What stays when a resource is revoked is the rest of the entries, in order.
proof fn lemma_without_resource<F, D>(entries: Seq<DeviceEntry<F, D>>, resource: Resource)
    requires
        entries_valid(entries),
    ensures
        entries_valid(without_resource(entries, resource)),
        forall|i: int|
            0 <= i < without_resource(entries, resource).len() ==> entries.contains(
                #[trigger] without_resource(entries, resource)[i],
            ) && without_resource(entries, resource)[i].resource != resource,
        forall|i: int|
            0 <= i < entries.len() && (#[trigger] entries[i]).resource != resource
                ==> without_resource(entries, resource).contains(entries[i]),
    decreases entries.len(),
{
    if entries.len() > 0 {
        let front = entries.drop_last();
        let last = entries.last();
        lemma_without_resource(front, resource);
        let before = without_resource(front, resource);
        let after = without_resource(entries, resource);
        assert forall|i: int| 0 <= i < before.len() implies entries.contains(
            #[trigger] before[i],
        ) && !same_path(before[i].path, last.path) by {
            let k = choose|k: int| 0 <= k < front.len() && front[k] == before[i];
            assert(entries[k] == before[i]);
            assert(entries[entries.len() - 1] == last);
        }
        assert forall|i: int| 0 <= i < after.len() implies entries.contains(
            #[trigger] after[i],
        ) && after[i].resource != resource by {
            if i < before.len() {
                assert(after[i] == before[i]);
            } else {
                assert(entries[entries.len() - 1] == last);
            }
        }
        assert forall|i: int| 0 <= i < after.len() implies is_absolute_path(
            (#[trigger] after[i]).path,
        ) by {
            let k = choose|k: int| 0 <= k < entries.len() && entries[k] == after[i];
            assert(entries[k] == after[i]);
        }
        assert forall|i: int|
            0 <= i < entries.len() && (
            #[trigger] entries[i]).resource != resource implies after.contains(entries[i]) by {
            if i < front.len() {
                assert(front[i] == entries[i]);
                let k = choose|k: int| 0 <= k < before.len() && before[k] == entries[i];
                assert(after[k] == entries[i]);
            } else {
                assert(after[after.len() - 1] == last);
            }
        }
    }
}

/// A granted device that is ready to be registered.
pub struct ReadyDevice<F> {
    /// The resource it was granted as.
    pub resource: Resource,
    /// The descriptor to read it from.
    pub fd: F,
    /// The path of the device.
    pub path: Vec<u8>,
    /// What setting up the descriptor returned.
    pub flags: Result<(), i32>,
}

/// Why a device is passed over if it is registered now, if it is.
pub open spec fn skipped_now<F, D>(
    entries: Seq<DeviceEntry<F, D>>,
    ready: ReadyDevice<F>,
) -> Option<Skipped> {
    match ready.flags {
        Err(errno) => Some(Skipped::Flags(errno)),
        Ok(_) => if is_granted(entries, ready.path@) {
            Some(Skipped::Duplicate)
        } else {
            None
        },
    }
}

/// The entries after devices were registered one by one: those whose descriptor
/// is set up and whose path is not taken.
pub open spec fn with_ready<F, D>(
    entries: Seq<DeviceEntry<F, D>>,
    devices: Seq<ReadyDevice<F>>,
) -> Seq<DeviceEntry<F, D>>
    decreases devices.len(),
{
    if devices.len() == 0 {
        entries
    } else {
        let before = with_ready(entries, devices.drop_last());
        let ready = devices.last();
        if skipped_now(before, ready) is None {
            before.push(
                DeviceEntry {
                    resource: ready.resource,
                    fd: ready.fd,
                    path: ready.path@,
                    device: None,
                },
            )
        } else {
            before
        }
    }
}

/// What became of the devices that the input library was asked to take.
#[derive(PartialEq, Eq, Debug)]
pub struct AddedDevices<D> {
    /// How many it knows now that it did not know before.
    pub added: usize,
    /// The devices that are granted no longer: it has to be told to drop them.
    pub orphans: Vec<D>,
}

/// The input devices of a session.
pub struct InputState<F, D> {
    /// The devices that were granted.
    pub registry: InputRegistry<F, D>,
}

impl<F, D> InputState<F, D> {
    /// No device has a path of another, and all paths start at the root.
    pub open spec fn valid(self) -> bool {
        entries_valid(self.registry@)
    }

    /// The state without any device.
    pub fn new() -> (state: InputState<F, D>)
        ensures
            state.registry@ == Seq::<DeviceEntry<F, D>>::empty(),
            state.valid(),
    {
        InputState { registry: InputRegistry::new() }
    }

    /// Registers the devices that a session starts with, as far as that works, and
    /// says of each why it was passed over, if it was.
    pub fn seed_from_session(&mut self, devices: Vec<ReadyDevice<F>>) -> (skipped: Vec<
        Option<Skipped>,
    >)
        requires
            old(self).valid(),
            forall|i: int|
                0 <= i < devices@.len() ==> is_absolute_path((#[trigger] devices@[i]).path@),
        ensures
            final(self).valid(),
            final(self).registry@ == with_ready(old(self).registry@, devices@),
            skipped@.len() == devices@.len(),
            forall|i: int|
                0 <= i < devices@.len() ==> #[trigger] skipped@[i] == skipped_now(
                    with_ready(old(self).registry@, devices@.take(i)),
                    devices@[i],
                ),
    {
        let ghost all = devices@;
        let mut rest = devices;
        let mut skipped: Vec<Option<Skipped>> = Vec::new();
        while rest.len() > 0
            invariant
                skipped@.len() <= all.len(),
                rest@ =~= all.skip(skipped@.len() as int),
                self.valid(),
                forall|i: int| 0 <= i < all.len() ==> is_absolute_path((#[trigger] all[i]).path@),
                self.registry@ == with_ready(
                    old(self).registry@,
                    all.take(skipped@.len() as int),
                ),
                forall|i: int|
                    0 <= i < skipped@.len() ==> #[trigger] skipped@[i] == skipped_now(
                        with_ready(old(self).registry@, all.take(i)),
                        all[i],
                    ),
            decreases rest@.len(),
        {
            let ghost done = skipped@.len() as int;
            let ready = rest.remove(0);
            proof {
                assert(ready == all[done]);
                assert(all.take(done + 1).drop_last() =~= all.take(done));
            }
            match self.registry.add_granted(ready.resource, ready.fd, ready.path, ready.flags) {
                Ok(_) => {
                    skipped.push(None);
                },
                Err(why) => {
                    skipped.push(Some(why));
                },
            }
        }
        assert(all.take(skipped@.len() as int) =~= all);
        skipped
    }

    /// The devices to ask the input library to take: those that it does not know
    /// and whose path can be handed over.
    pub fn devices_to_add(&self) -> (devices: Vec<PendingDevice>)
        ensures
            devices@.map_values(|device: PendingDevice| device@) == pending(
                self.registry@,
            ).filter(|device: (Seq<u8>, Resource)| valid_utf8(device.0)),
    {
        let ghost p = |device: (Seq<u8>, Resource)| valid_utf8(device.0);
        let all = self.registry.pending_devices();
        let ghost whole = pending(self.registry@);
        let mut devices: Vec<PendingDevice> = Vec::new();
        let mut i: usize = 0;
        assert(whole.take(0).filter(p) =~= Seq::empty()) by {
            reveal(Seq::filter);
        }
        assert(devices@.map_values(|device: PendingDevice| device@) =~= Seq::empty());
        while i < all.len()
            invariant
                0 <= i <= all@.len(),
                p == (|device: (Seq<u8>, Resource)| valid_utf8(device.0)),
                whole == all@.map_values(|device: PendingDevice| device@),
                devices@.map_values(|device: PendingDevice| device@) == whole.take(
                    i as int,
                ).filter(p),
            decreases all@.len() - i,
        {
            let ghost before = devices@;
            proof {
                assert(whole[i as int] == all@[i as int]@);
                reveal(Seq::filter);
                assert(whole.take(i + 1).drop_last() =~= whole.take(i as int));
            }
            if all[i].path_text().is_some() {
                let path = vstd::slice::slice_to_vec(all[i].path.as_slice());
                devices.push(PendingDevice { path, resource: all[i].resource });
                assert(devices@.map_values(|device: PendingDevice| device@) =~= before.map_values(
                    |device: PendingDevice| device@,
                ).push(whole[i as int]));
            }
            i += 1;
        }
        assert(whole.take(i as int) =~= whole);
        devices
    }

    /// Takes note of the input library's answers: its handle of each device that
    /// it was asked to take, or none if it rejected the device, whose grant stays
    /// registered all the same.
    pub fn add_pending_devices(&mut self, asked: &[PendingDevice], answers: Vec<Option<D>>) -> (
        outcome: AddedDevices<D>)
        requires
            old(self).valid(),
            asked@.len() == answers@.len(),
        ensures
            final(self).valid(),
            final(self).registry@ == with_answers(old(self).registry@, paths_of(asked@), answers@),
            outcome.added == added_count(old(self).registry@, paths_of(asked@), answers@),
            outcome.orphans@ == orphans(old(self).registry@, paths_of(asked@), answers@),
    {
        let ghost all = answers@;
        let ghost paths = paths_of(asked@);
        let ghost entries = self.registry@;
        let mut rest = answers;
        let mut added: usize = 0;
        let mut dropped: Vec<D> = Vec::new();
        let mut i: usize = 0;
        while i < asked.len()
            invariant
                0 <= i <= asked@.len(),
                asked@.len() == all.len(),
                paths == paths_of(asked@),
                entries_valid(entries),
                self.valid(),
                rest@ =~= all.skip(i as int),
                self.registry@ == with_answers(entries, paths.take(i as int), all.take(i as int)),
                added <= i,
                added == added_count(entries, paths.take(i as int), all.take(i as int)),
                dropped@ == orphans(entries, paths.take(i as int), all.take(i as int)),
            decreases asked@.len() - i,
        {
            let answer = rest.remove(0);
            proof {
                assert(answer == all[i as int]);
                assert(paths[i as int] == asked@[i as int]@.0);
                assert(paths.take(i + 1).drop_last() =~= paths.take(i as int));
                assert(all.take(i + 1).drop_last() =~= all.take(i as int));
                lemma_answers_keep_the_paths(
                    entries,
                    paths.take(i as int),
                    all.take(i as int),
                    paths[i as int],
                );
            }
            if let Some(device) = answer {
                match self.registry.attach_device(asked[i].path.as_slice(), device) {
                    None => {
                        added += 1;
                    },
                    Some(device) => {
                        dropped.push(device);
                    },
                }
            }
            i += 1;
        }
        assert(paths.take(i as int) =~= paths);
        assert(all.take(i as int) =~= all);
        AddedDevices { added, orphans: dropped }
    }

    /// Drops a device that was revoked, and returns the handles that the input
    /// library has to be told to drop.
    pub fn on_revoked(&mut self, resource: Resource) -> (devices: Vec<D>)
        requires
            old(self).valid(),
        ensures
            final(self).valid(),
            final(self).registry@ == without_resource(old(self).registry@, resource),
            devices@ == devices_of(old(self).registry@, resource),
    {
        self.registry.remove_granted(resource)
    }
}

/// The paths of the devices.
pub open spec fn paths_of(devices: Seq<PendingDevice>) -> Seq<Seq<u8>> {
    devices.map_values(|device: PendingDevice| device@.0)
}

/// Answers of the input library change neither the paths of the entries nor
/// their descriptors and resources, so the same paths are granted as before.
proof fn lemma_answers_keep_the_paths<F, D>(
    entries: Seq<DeviceEntry<F, D>>,
    asked: Seq<Seq<u8>>,
    answers: Seq<Option<D>>,
    path: Seq<u8>,
)
    requires
        asked.len() == answers.len(),
    ensures
        with_answers(entries, asked, answers).len() == entries.len(),
        entry_at(with_answers(entries, asked, answers), path) == entry_at(entries, path),
        forall|k: int|
            0 <= k < entries.len() ==> {
                let after = #[trigger] with_answers(entries, asked, answers)[k];
                after.path == entries[k].path && after.fd == entries[k].fd && after.resource
                    == entries[k].resource
            },
    decreases asked.len(),
{
    if asked.len() > 0 {
        lemma_answers_keep_the_paths(entries, asked.drop_last(), answers.drop_last(), path);
        let before = with_answers(entries, asked.drop_last(), answers.drop_last());
        lemma_entry_at(before, asked.last());
        assert forall|k: int| 0 <= k < entries.len() implies {
            let after = #[trigger] with_answers(entries, asked, answers)[k];
            after.path == entries[k].path && after.fd == entries[k].fd && after.resource
                == entries[k].resource
        } by {
            assert(before[k].path == entries[k].path);
        }
    }
    let after = with_answers(entries, asked, answers);
    lemma_entry_at(after, path);
    lemma_entry_at(entries, path);
    let a = entry_at(after, path);
    let b = entry_at(entries, path);
    assert(a < entries.len() ==> after[a].path == entries[a].path);
    assert(b < entries.len() ==> after[b].path == entries[b].path);
}

/// An entry with the path in a valid registry is the one that is found.
proof fn lemma_entry_is<F, D>(entries: Seq<DeviceEntry<F, D>>, i: int)
    requires
        entries_valid(entries),
        0 <= i < entries.len(),
    ensures
        entry_at(entries, entries[i].path) == i,
{
    lemma_entry_at(entries, entries[i].path);
    let k = entry_at(entries, entries[i].path);
    assert(k < i ==> !same_path(entries[k].path, entries[i].path));
    assert(k > i ==> !same_path(entries[i].path, entries[i].path));
}

/// A device that was registered is opened on its own descriptor from then on, and
/// every other device on the same descriptor as before.
pub proof fn a_granted_device_is_opened_on_its_descriptor<F, D>(
    entries: Seq<DeviceEntry<F, D>>,
    entry: DeviceEntry<F, D>,
    other: Seq<u8>,
)
    requires
        entries_valid(entries),
        is_absolute_path(entry.path),
        !is_granted(entries, entry.path),
        !same_path(other, entry.path),
    ensures
        entry_at(entries.push(entry), entry.path) == entries.len(),
        is_granted(entries.push(entry), other) == is_granted(entries, other),
        is_granted(entries, other) ==> entries.push(entry)[entry_at(entries.push(entry), other)]
            == entries[entry_at(entries, other)],
{
    let after = entries.push(entry);
    lemma_entry_at(entries, entry.path);
    lemma_entry_at(after, entry.path);
    lemma_entry_at(entries, other);
    lemma_entry_at(after, other);
    let a = entry_at(after, entry.path);
    assert(a < entries.len() ==> after[a] == entries[a]);
    assert(after[entries.len() as int] == entry);
    let b = entry_at(after, other);
    let c = entry_at(entries, other);
    assert(b < entries.len() ==> after[b] == entries[b]);
    assert(c < entries.len() ==> after[c] == entries[c]);
}

/// After a resource was revoked its devices cannot be opened any more, and every
/// other device still is on the same descriptor.
pub proof fn a_revoked_device_is_not_opened<F, D>(
    entries: Seq<DeviceEntry<F, D>>,
    resource: Resource,
    path: Seq<u8>,
)
    requires
        entries_valid(entries),
    ensures
        ({
            let after = without_resource(entries, resource);
            let i = entry_at(entries, path);
            let k = entry_at(after, path);
            &&& is_granted(after, path) <==> is_granted(entries, path) && entries[i].resource
                != resource
            &&& is_granted(after, path) ==> after[k] == entries[i]
        }),
{
    let after = without_resource(entries, resource);
    lemma_without_resource(entries, resource);
    lemma_entry_at(entries, path);
    lemma_entry_at(after, path);
    let i = entry_at(entries, path);
    let k = entry_at(after, path);
    if k < after.len() {
        assert(entries.contains(after[k]));
        let j = choose|j: int| 0 <= j < entries.len() && entries[j] == after[k];
        lemma_entry_is(entries, j);
    }
    if i < entries.len() && entries[i].resource != resource {
        assert(after.contains(entries[i]));
        let j = choose|j: int| 0 <= j < after.len() && after[j] == entries[i];
        lemma_entry_is(after, j);
    }
}

/// A device that is pending is registered without a handle.
proof fn lemma_pending_is_registered<F, D>(entries: Seq<DeviceEntry<F, D>>, i: int) -> (k: int)
    requires
        0 <= i < pending(entries).len(),
    ensures
        0 <= k < entries.len(),
        entries[k].device is None,
        pending(entries)[i] == (entries[k].path, entries[k].resource),
    decreases entries.len(),
{
    let front = entries.drop_last();
    if i < pending(front).len() {
        let k = lemma_pending_is_registered(front, i);
        assert(entries[k] == front[k]);
        k
    } else {
        entries.len() - 1
    }
}

/// A device that is registered without a handle is pending.
proof fn lemma_registered_is_pending<F, D>(entries: Seq<DeviceEntry<F, D>>, k: int) -> (i: int)
    requires
        0 <= k < entries.len(),
        entries[k].device is None,
    ensures
        0 <= i < pending(entries).len(),
        pending(entries)[i] == (entries[k].path, entries[k].resource),
    decreases entries.len(),
{
    let front = entries.drop_last();
    if k < front.len() {
        assert(entries[k] == front[k]);
        lemma_registered_is_pending(front, k)
    } else {
        pending(entries).len() - 1
    }
}

/// A device is pending exactly if it is registered without a handle.
proof fn lemma_pending<F, D>(entries: Seq<DeviceEntry<F, D>>)
    ensures
        forall|i: int|
            #![trigger pending(entries)[i]]
            0 <= i < pending(entries).len() ==> exists|k: int|
                0 <= k < entries.len() && (#[trigger] entries[k]).device is None && pending(
                    entries,
                )[i] == (entries[k].path, entries[k].resource),
        forall|k: int|
            0 <= k < entries.len() && (#[trigger] entries[k]).device is None ==> exists|i: int|
                0 <= i < pending(entries).len() && #[trigger] pending(entries)[i] == (
                    entries[k].path,
                    entries[k].resource,
                ),
{
    let devices = pending(entries);
    assert forall|i: int|
        #![trigger devices[i]]
        0 <= i < devices.len() implies exists|k: int|
        0 <= k < entries.len() && (#[trigger] entries[k]).device is None && devices[i] == (
            entries[k].path,
            entries[k].resource,
        ) by {
        let k = lemma_pending_is_registered(entries, i);
        assert(entries[k].device is None && devices[i] == (entries[k].path, entries[k].resource));
    }
    if devices.len() > 0 {
        // Some entry has to be at hand for the statement above to be used.
        let k = lemma_pending_is_registered(entries, 0);
        assert(entries[k].device is None);
    }
    assert forall|k: int|
        0 <= k < entries.len() && (#[trigger] entries[k]).device is None implies exists|i: int|
        0 <= i < pending(entries).len() && #[trigger] pending(entries)[i] == (
            entries[k].path,
            entries[k].resource,
        ) by {
        let i = lemma_registered_is_pending(entries, k);
        assert(pending(entries)[i] == (entries[k].path, entries[k].resource));
    }
}

/// Which entries have a handle after the input library's answers.
proof fn lemma_answers_give_handles<F, D>(
    entries: Seq<DeviceEntry<F, D>>,
    asked: Seq<Seq<u8>>,
    answers: Seq<Option<D>>,
    k: int,
)
    requires
        entries_valid(entries),
        asked.len() == answers.len(),
        0 <= k < entries.len(),
    ensures
        with_answers(entries, asked, answers).len() == entries.len(),
        with_answers(entries, asked, answers)[k].device is Some <==> entries[k].device is Some || (
        exists|j: int|
            0 <= j < asked.len() && same_path(#[trigger] asked[j], entries[k].path) && answers[j] is Some),
    decreases asked.len(),
{
    if asked.len() > 0 {
        let front = asked.drop_last();
        let n = front.len() as int;
        let front_answers = answers.drop_last();
        lemma_answers_give_handles(entries, front, front_answers, k);
        lemma_answers_keep_the_paths(entries, front, front_answers, asked.last());
        lemma_entry_at(entries, asked.last());
        let before = with_answers(entries, front, front_answers);
        let after = with_answers(entries, asked, answers);
        if same_path(asked.last(), entries[k].path) {
            lemma_entry_is(entries, k);
            if answers.last() is Some {
                assert(same_path(asked[n], entries[k].path) && answers[n] is Some);
            }
        }
        if exists|j: int|
            0 <= j < front.len() && same_path(#[trigger] front[j], entries[k].path)
                && front_answers[j] is Some {
            let j = choose|j: int|
                0 <= j < front.len() && same_path(#[trigger] front[j], entries[k].path)
                    && front_answers[j] is Some;
            assert(same_path(asked[j], entries[k].path) && answers[j] is Some);
        }
        if exists|j: int|
            0 <= j < asked.len() && same_path(#[trigger] asked[j], entries[k].path) && answers[j] is Some {
            let j = choose|j: int|
                0 <= j < asked.len() && same_path(#[trigger] asked[j], entries[k].path)
                    && answers[j] is Some;
            if j < n {
                assert(same_path(front[j], entries[k].path) && front_answers[j] is Some);
            }
        }
    }
}

/// If every path that is asked for is granted, all answers with a handle count
/// and none is left over.
proof fn lemma_no_orphans<F, D>(
    entries: Seq<DeviceEntry<F, D>>,
    asked: Seq<Seq<u8>>,
    answers: Seq<Option<D>>,
)
    requires
        asked.len() == answers.len(),
        forall|j: int| 0 <= j < asked.len() ==> is_granted(entries, #[trigger] asked[j]),
    ensures
        orphans(entries, asked, answers) == Seq::<D>::empty(),
        (forall|j: int| 0 <= j < answers.len() ==> #[trigger] answers[j] is Some) ==> added_count(
            entries,
            asked,
            answers,
        ) == asked.len(),
    decreases asked.len(),
{
    if asked.len() > 0 {
        let front = asked.drop_last();
        let front_answers = answers.drop_last();
        assert forall|j: int| 0 <= j < front.len() implies is_granted(
            entries,
            #[trigger] front[j],
        ) by {
            assert(front[j] == asked[j]);
        }
        assert(is_granted(entries, asked[asked.len() - 1]));
        lemma_no_orphans(entries, front, front_answers);
        if forall|j: int| 0 <= j < answers.len() ==> #[trigger] answers[j] is Some {
            assert forall|j: int| 0 <= j < front_answers.len() implies #[trigger] front_answers[j]
                is Some by {
                assert(front_answers[j] == answers[j]);
            }
            assert(answers[answers.len() - 1] is Some);
        }
    }
}

/// Asking the input library for the pending devices leaves no handle over. If it
/// takes all of them, all count as added and none is pending any more.
pub proof fn pending_devices_are_added<F, D>(
    entries: Seq<DeviceEntry<F, D>>,
    answers: Seq<Option<D>>,
)
    requires
        entries_valid(entries),
        answers.len() == pending(entries).len(),
    ensures
        ({
            let asked = pending(entries).map_values(|device: (Seq<u8>, Resource)| device.0);
            let after = with_answers(entries, asked, answers);
            &&& orphans(entries, asked, answers) == Seq::<D>::empty()
            &&& (forall|j: int| 0 <= j < answers.len() ==> #[trigger] answers[j] is Some) ==> {
                &&& added_count(entries, asked, answers) == pending(entries).len()
                &&& pending(after) == Seq::<(Seq<u8>, Resource)>::empty()
            }
        }),
{
    let asked = pending(entries).map_values(|device: (Seq<u8>, Resource)| device.0);
    let after = with_answers(entries, asked, answers);
    lemma_pending(entries);
    assert forall|j: int| 0 <= j < asked.len() implies is_granted(
        entries,
        #[trigger] asked[j],
    ) by {
        let wanted = pending(entries)[j];
        let k = choose|k: int|
            0 <= k < entries.len() && (#[trigger] entries[k]).device is None && wanted == (
                entries[k].path,
                entries[k].resource,
            );
        lemma_entry_is(entries, k);
    }
    lemma_no_orphans(entries, asked, answers);
    if forall|j: int| 0 <= j < answers.len() ==> #[trigger] answers[j] is Some {
        lemma_answers_keep_the_paths(entries, asked, answers, Seq::empty());
        assert forall|k: int| 0 <= k < after.len() implies (#[trigger] after[k]).device is Some by {
            lemma_answers_give_handles(entries, asked, answers, k);
            if entries[k].device is None {
                let i = choose|i: int|
                    0 <= i < pending(entries).len() && #[trigger] pending(entries)[i] == (
                        entries[k].path,
                        entries[k].resource,
                    );
                assert(same_path(asked[i], entries[k].path) && answers[i] is Some);
            }
        }
        lemma_pending(after);
        if pending(after).len() > 0 {
            let wanted = pending(after)[0];
            let k = choose|k: int|
                0 <= k < after.len() && (#[trigger] after[k]).device is None && wanted == (
                    after[k].path,
                    after[k].resource,
                );
            assert(after[k].device is Some);
        }
        assert(pending(after) =~= Seq::<(Seq<u8>, Resource)>::empty());
    }
}

/// A path is granted exactly if some device was registered under it, in whatever
/// spelling, and what is found under it is that device: no other one has the path.
pub proof fn a_path_leads_to_the_device_registered_under_it<F, D>(
    entries: Seq<DeviceEntry<F, D>>,
    path: Seq<u8>,
)
    requires
        entries_valid(entries),
    ensures
        is_granted(entries, path) <==> exists|i: int|
            0 <= i < entries.len() && same_path((#[trigger] entries[i]).path, path),
        forall|i: int|
            0 <= i < entries.len() && same_path((#[trigger] entries[i]).path, path) ==> entry_at(
                entries,
                path,
            ) == i,
{
    lemma_entry_at(entries, path);
    let k = entry_at(entries, path);
    if k < entries.len() {
        assert(same_path(entries[k].path, path));
    }
    assert forall|i: int|
        0 <= i < entries.len() && same_path((#[trigger] entries[i]).path, path) implies entry_at(
        entries,
        path,
    ) == i by {
        if k < i {
            assert(!same_path(entries[k].path, entries[i].path));
        }
    }
}

/// The devices of a registry are valid exactly if each has an absolute path of its
/// own.
pub proof fn valid_entries_have_paths_of_their_own<F, D>(
    entries: Seq<DeviceEntry<F, D>>,
    entry: DeviceEntry<F, D>,
)
    ensures
        entries_valid(Seq::<DeviceEntry<F, D>>::empty()),
        entries_valid(entries.push(entry)) <==> entries_valid(entries) && is_absolute_path(
            entry.path,
        ) && forall|i: int|
            0 <= i < entries.len() ==> !same_path((#[trigger] entries[i]).path, entry.path),
{
    let all = entries.push(entry);
    let n = entries.len() as int;
    assert(all[n] == entry);
    assert forall|i: int| 0 <= i < n implies #[trigger] all[i] == entries[i] by {}
    if entries_valid(all) {
        assert forall|i: int, j: int| 0 <= i < j < n implies !same_path(
            (#[trigger] entries[i]).path,
            (#[trigger] entries[j]).path,
        ) by {
            assert(all[i] == entries[i] && all[j] == entries[j]);
        }
        assert forall|i: int| 0 <= i < n implies is_absolute_path((#[trigger] entries[i]).path) by {
            assert(all[i] == entries[i]);
        }
        assert forall|i: int| 0 <= i < n implies !same_path(
            (#[trigger] entries[i]).path,
            entry.path,
        ) by {
            assert(all[i] == entries[i]);
        }
    }
}

/// Each device is pending or not by itself and in its place: those without a
/// handle are, by their path and resource, in the order of the registry.
pub proof fn pending_devices_are_those_without_a_handle<F, D>(
    entries: Seq<DeviceEntry<F, D>>,
    entry: DeviceEntry<F, D>,
)
    ensures
        pending(Seq::<DeviceEntry<F, D>>::empty()) == Seq::<(Seq<u8>, Resource)>::empty(),
        entry.device is None ==> pending(entries.push(entry)) == pending(entries).push(
            (entry.path, entry.resource),
        ),
        entry.device is Some ==> pending(entries.push(entry)) == pending(entries),
{
    assert(entries.push(entry).drop_last() =~= entries);
}

/// A revoke takes out the devices of that resource and no others, which keep their
/// order, and gives back the handles of those that it takes out.
pub proof fn a_revoke_takes_out_just_its_devices<F, D>(
    entries: Seq<DeviceEntry<F, D>>,
    entry: DeviceEntry<F, D>,
    resource: Resource,
)
    ensures
        without_resource(Seq::<DeviceEntry<F, D>>::empty(), resource) == Seq::<
            DeviceEntry<F, D>,
        >::empty(),
        devices_of(Seq::<DeviceEntry<F, D>>::empty(), resource) == Seq::<D>::empty(),
        entry.resource == resource ==> without_resource(entries.push(entry), resource)
            == without_resource(entries, resource),
        entry.resource != resource ==> without_resource(entries.push(entry), resource)
            == without_resource(entries, resource).push(entry),
        entry.resource != resource ==> devices_of(entries.push(entry), resource) == devices_of(
            entries,
            resource,
        ),
        entry.resource == resource ==> devices_of(entries.push(entry), resource) == (
        match entry.device {
            Some(device) => devices_of(entries, resource).push(device),
            None => devices_of(entries, resource),
        }),
{
    assert(entries.push(entry).drop_last() =~= entries);
}

/// The input library's handle goes to the device at that path and to no other, and
/// nothing else of that device changes. A path that is not granted changes nothing.
pub proof fn a_handle_goes_to_the_device_at_its_path<F, D>(
    entries: Seq<DeviceEntry<F, D>>,
    path: Seq<u8>,
    device: D,
    i: int,
)
    requires
        entries_valid(entries),
        0 <= i < entries.len(),
    ensures
        with_device(entries, path, device).len() == entries.len(),
        same_path(entries[i].path, path) ==> with_device(entries, path, device)[i] == (DeviceEntry {
            resource: entries[i].resource,
            fd: entries[i].fd,
            path: entries[i].path,
            device: Some(device),
        }),
        !same_path(entries[i].path, path) ==> with_device(entries, path, device)[i] == entries[i],
{
    a_path_leads_to_the_device_registered_under_it(entries, path);
    lemma_entry_at(entries, path);
}

/// Answers are taken one by one. A handle for a path that is granted goes to the
/// device there and counts as added, one for any other path is to be dropped, and
/// a device that was rejected stays as it is.
pub proof fn answers_are_taken_one_by_one<F, D>(
    entries: Seq<DeviceEntry<F, D>>,
    asked: Seq<Seq<u8>>,
    answers: Seq<Option<D>>,
    path: Seq<u8>,
    answer: Option<D>,
)
    requires
        entries_valid(entries),
        asked.len() == answers.len(),
    ensures
        ({
            let before = with_answers(entries, asked, answers);
            let after = with_answers(entries, asked.push(path), answers.push(answer));
            let added = added_count(entries, asked.push(path), answers.push(answer));
            let dropped = orphans(entries, asked.push(path), answers.push(answer));
            let known = exists|i: int|
                0 <= i < entries.len() && same_path((#[trigger] entries[i]).path, path);
            &&& answer is None ==> after == before && added == added_count(entries, asked, answers)
                && dropped == orphans(entries, asked, answers)
            &&& answer matches Some(device) ==> if known {
                &&& after == with_device(before, path, device)
                &&& added == added_count(entries, asked, answers) + 1
                &&& dropped == orphans(entries, asked, answers)
            } else {
                &&& after == before
                &&& added == added_count(entries, asked, answers)
                &&& dropped == orphans(entries, asked, answers).push(device)
            }
        }),
        with_answers(entries, Seq::empty(), Seq::empty()) == entries,
        added_count(entries, Seq::empty(), Seq::empty()) == 0,
        orphans(entries, Seq::empty(), Seq::empty()) == Seq::<D>::empty(),
{
    assert(asked.push(path).drop_last() =~= asked);
    assert(answers.push(answer).drop_last() =~= answers);
    a_path_leads_to_the_device_registered_under_it(entries, path);
    lemma_answers_keep_the_paths(entries, asked, answers, path);
}

/// After the answers a device has the handle that was given last for its path, and
/// without one it has what it had before. Its path, descriptor and resource stay.
pub proof fn the_last_handle_for_a_path_counts<F, D>(
    entries: Seq<DeviceEntry<F, D>>,
    asked: Seq<Seq<u8>>,
    answers: Seq<Option<D>>,
    k: int,
    j: int,
)
    requires
        entries_valid(entries),
        asked.len() == answers.len(),
        0 <= k < entries.len(),
        -1 <= j < asked.len(),
        j >= 0 ==> same_path(asked[j], entries[k].path) && answers[j] is Some,
        forall|i: int|
            j < i < asked.len() ==> !(same_path(#[trigger] asked[i], entries[k].path)
                && answers[i] is Some),
    ensures
        ({
            let after = with_answers(entries, asked, answers);
            &&& after.len() == entries.len()
            &&& after[k] == (DeviceEntry {
                resource: entries[k].resource,
                fd: entries[k].fd,
                path: entries[k].path,
                device: if j >= 0 {
                    answers[j]
                } else {
                    entries[k].device
                },
            })
        }),
    decreases asked.len(),
{
    lemma_answers_keep_the_paths(entries, asked, answers, Seq::empty());
    let after = with_answers(entries, asked, answers);
    assert(after[k].path == entries[k].path);
    if asked.len() > 0 {
        let front = asked.drop_last();
        let front_answers = answers.drop_last();
        let n = front.len() as int;
        let before = with_answers(entries, front, front_answers);
        lemma_answers_keep_the_paths(entries, front, front_answers, asked.last());
        a_path_leads_to_the_device_registered_under_it(entries, asked.last());
        lemma_entry_at(before, asked.last());
        if j < n {
            assert(!(same_path(asked[n], entries[k].path) && answers[n] is Some));
            assert forall|i: int| j < i < front.len() implies !(same_path(
                #[trigger] front[i],
                entries[k].path,
            ) && front_answers[i] is Some) by {
                assert(front[i] == asked[i] && front_answers[i] == answers[i]);
            }
            the_last_handle_for_a_path_counts(entries, front, front_answers, k, j);
            if j >= 0 {
                assert(front_answers[j] == answers[j]);
            }
        } else {
            assert(entry_at(before, asked.last()) == k);
        }
    }
}

/// A device is passed over exactly if its descriptor could not be set up, with
/// that error, or else if its path is taken.
pub proof fn a_device_is_passed_over_for_a_reason<F, D>(
    entries: Seq<DeviceEntry<F, D>>,
    ready: ReadyDevice<F>,
)
    ensures
        ready.flags matches Err(errno) ==> skipped_now(entries, ready) == Some(
            Skipped::Flags(errno),
        ),
        ready.flags is Ok && is_granted(entries, ready.path@) ==> skipped_now(entries, ready)
            == Some(Skipped::Duplicate),
        ready.flags is Ok && !is_granted(entries, ready.path@) ==> skipped_now(entries, ready) is None,
{
}

/// Devices are registered one by one, each after those before it: one that is not
/// passed over comes last, with its resource, descriptor and path, and is pending.
pub proof fn devices_are_registered_one_by_one<F, D>(
    entries: Seq<DeviceEntry<F, D>>,
    devices: Seq<ReadyDevice<F>>,
    ready: ReadyDevice<F>,
)
    ensures
        ({
            let before = with_ready(entries, devices);
            let after = with_ready(entries, devices.push(ready));
            &&& with_ready(entries, Seq::empty()) == entries
            &&& ready.flags is Ok && !is_granted(before, ready.path@) ==> after == before.push(
                DeviceEntry {
                    resource: ready.resource,
                    fd: ready.fd,
                    path: ready.path@,
                    device: None,
                },
            )
            &&& ready.flags is Err || is_granted(before, ready.path@) ==> after == before
        }),
{
    assert(devices.push(ready).drop_last() =~= devices);
}

/// The paths of devices are theirs, one each and in their order.
pub proof fn paths_are_those_of_the_devices(devices: Seq<PendingDevice>, i: int)
    requires
        0 <= i < devices.len(),
    ensures
        paths_of(devices).len() == devices.len(),
        paths_of(devices)[i] == devices[i].path@,
{
}

} // verus!
