//! The table of supported devices, keyed by USB vendor and product id.

use vstd::prelude::*;

verus! {

/// Make and model of one supported device, with its USB ids.
#[derive(Clone, Copy, Debug)]
pub struct DeviceInfo {
    pub make: &'static str,
    pub model: &'static str,
    pub usb_vid: u16,
    pub usb_pid: u16,
}

impl DeviceInfo {
    /// The abstract value of an entry: make, model, vendor id, product id.
    pub open spec fn model_of(&self) -> (Seq<char>, Seq<char>, u16, u16) {
        (self.make@, self.model@, self.usb_vid, self.usb_pid)
    }
}

/// The supported devices, in table order.
pub open spec fn spec_device_table() -> Seq<(Seq<char>, Seq<char>, u16, u16)> {
    seq![
        ("ROCCAT"@, "Vulcan 100/12x"@, 0x1e7du16, 0x3098u16),
        ("ROCCAT"@, "Vulcan 100/12x"@, 0x1e7du16, 0x307au16),
        ("ROCCAT"@, "Vulcan Pro"@, 0x1e7du16, 0x30f7u16),
        ("ROCCAT"@, "Vulcan TKL"@, 0x1e7du16, 0x2feeu16),
        ("ROCCAT"@, "Vulcan Pro TKL"@, 0x1e7du16, 0x311au16),
        ("Corsair"@, "Corsair STRAFE Gaming Keyboard"@, 0x1b1cu16, 0x1b15u16),
        ("ROCCAT"@, "Kone Aimo"@, 0x1e7du16, 0x2e27u16),
        ("ROCCAT"@, "Kone Aimo Remastered"@, 0x1e7du16, 0x2e2cu16),
        ("ROCCAT"@, "Kone XTD Mouse"@, 0x1e7du16, 0x2e22u16),
        ("ROCCAT"@, "Kone Pure Ultra"@, 0x1e7du16, 0x2dd2u16),
        ("ROCCAT"@, "Burst Pro"@, 0x1e7du16, 0x2de1u16),
        ("ROCCAT"@, "Kova AIMO"@, 0x1e7du16, 0x2cf1u16),
        ("ROCCAT"@, "Kova AIMO"@, 0x1e7du16, 0x2cf3u16),
        ("ROCCAT"@, "Nyth"@, 0x1e7du16, 0x2e7cu16),
        ("ROCCAT"@, "Nyth"@, 0x1e7du16, 0x2e7du16),
    ]
}

/// The first table entry carrying the given USB ids, if any.
pub open spec fn spec_find_device(table: Seq<(Seq<char>, Seq<char>, u16, u16)>, usb_vid: u16, usb_pid: u16) -> Option<
    (Seq<char>, Seq<char>, u16, u16),
>
    decreases table.len(),
{
    if table.len() == 0 {
        None
    } else if table[0].2 == usb_vid && table[0].3 == usb_pid {
        Some(table[0])
    } else {
        spec_find_device(table.drop_first(), usb_vid, usb_pid)
    }
}

/// The device table as values.
pub fn device_info_table() -> (table: Vec<DeviceInfo>)
    ensures
        table@.len() == spec_device_table().len(),
        forall|i: int|
            0 <= i < table@.len() ==> (#[trigger] table@[i].model_of()) == spec_device_table()[i],
{
    let mut table: Vec<DeviceInfo> = Vec::new();
    table.push(DeviceInfo { make: "ROCCAT", model: "Vulcan 100/12x", usb_vid: 0x1e7d, usb_pid: 0x3098 });
    table.push(DeviceInfo { make: "ROCCAT", model: "Vulcan 100/12x", usb_vid: 0x1e7d, usb_pid: 0x307a });
    table.push(DeviceInfo { make: "ROCCAT", model: "Vulcan Pro", usb_vid: 0x1e7d, usb_pid: 0x30f7 });
    table.push(DeviceInfo { make: "ROCCAT", model: "Vulcan TKL", usb_vid: 0x1e7d, usb_pid: 0x2fee });
    table.push(DeviceInfo { make: "ROCCAT", model: "Vulcan Pro TKL", usb_vid: 0x1e7d, usb_pid: 0x311a });
    table.push(DeviceInfo { make: "Corsair", model: "Corsair STRAFE Gaming Keyboard", usb_vid: 0x1b1c, usb_pid: 0x1b15 });
    table.push(DeviceInfo { make: "ROCCAT", model: "Kone Aimo", usb_vid: 0x1e7d, usb_pid: 0x2e27 });
    table.push(DeviceInfo { make: "ROCCAT", model: "Kone Aimo Remastered", usb_vid: 0x1e7d, usb_pid: 0x2e2c });
    table.push(DeviceInfo { make: "ROCCAT", model: "Kone XTD Mouse", usb_vid: 0x1e7d, usb_pid: 0x2e22 });
    table.push(DeviceInfo { make: "ROCCAT", model: "Kone Pure Ultra", usb_vid: 0x1e7d, usb_pid: 0x2dd2 });
    table.push(DeviceInfo { make: "ROCCAT", model: "Burst Pro", usb_vid: 0x1e7d, usb_pid: 0x2de1 });
    table.push(DeviceInfo { make: "ROCCAT", model: "Kova AIMO", usb_vid: 0x1e7d, usb_pid: 0x2cf1 });
    table.push(DeviceInfo { make: "ROCCAT", model: "Kova AIMO", usb_vid: 0x1e7d, usb_pid: 0x2cf3 });
    table.push(DeviceInfo { make: "ROCCAT", model: "Nyth", usb_vid: 0x1e7d, usb_pid: 0x2e7c });
    table.push(DeviceInfo { make: "ROCCAT", model: "Nyth", usb_vid: 0x1e7d, usb_pid: 0x2e7d });
    proof {
        assert forall|i: int| 0 <= i < table@.len() implies (#[trigger] table@[i].model_of())
            == spec_device_table()[i] by {
            assert(spec_device_table().len() == 15);
        }
    }
    table
}

/// Looks a device up by its USB ids: the first matching table entry, `None`
/// exactly when no entry matches.
pub fn get_device_info(usb_vid: u16, usb_pid: u16) -> (r: Option<DeviceInfo>)
    ensures
        match r {
            Some(info) => Some(info.model_of()) == spec_find_device(
                spec_device_table(),
                usb_vid,
                usb_pid,
            ),
            None => spec_find_device(spec_device_table(), usb_vid, usb_pid) is None,
        },
{
    let table = device_info_table();
    let n = table.len();
    proof {
        assert(spec_device_table().subrange(0, n as int) =~= spec_device_table());
    }
    let mut i: usize = 0;
    while i < n
        invariant
            i <= n,
            n == table@.len(),
            table@.len() == spec_device_table().len(),
            forall|k: int|
                0 <= k < table@.len() ==> (#[trigger] table@[k].model_of())
                    == spec_device_table()[k],
            spec_find_device(spec_device_table(), usb_vid, usb_pid) == spec_find_device(
                spec_device_table().subrange(i as int, n as int),
                usb_vid,
                usb_pid,
            ),
        decreases n - i,
    {
        proof {
            assert(spec_device_table().subrange(i as int, n as int).len() == n - i);
            assert(spec_device_table().subrange(i as int, n as int)[0] == spec_device_table()[
                i as int
            ]);
            assert(spec_device_table().subrange(i as int, n as int).drop_first()
                =~= spec_device_table().subrange(i + 1 as int, n as int));
        }
        proof {
            assert(table@[i as int].model_of() == spec_device_table()[i as int]);
        }
        if table[i].usb_vid == usb_vid && table[i].usb_pid == usb_pid {
            return Some(table[i]);
        }
        i = i + 1;
    }
    proof {
        assert(spec_device_table().subrange(n as int, n as int).len() == 0);
    }
    None
}

/// The make of the device with the given USB ids, if it is supported.
pub fn get_device_make(usb_vid: u16, usb_pid: u16) -> (r: Option<&'static str>)
    ensures
        match r {
            Some(make) => {
                &&& spec_find_device(spec_device_table(), usb_vid, usb_pid) is Some
                &&& make@ == spec_find_device(spec_device_table(), usb_vid, usb_pid)->Some_0.0
            },
            None => spec_find_device(spec_device_table(), usb_vid, usb_pid) is None,
        },
{
    match get_device_info(usb_vid, usb_pid) {
        Some(info) => Some(info.make),
        None => None,
    }
}

/// The model of the device with the given USB ids, if it is supported.
pub fn get_device_model(usb_vid: u16, usb_pid: u16) -> (r: Option<&'static str>)
    ensures
        match r {
            Some(model) => {
                &&& spec_find_device(spec_device_table(), usb_vid, usb_pid) is Some
                &&& model@ == spec_find_device(spec_device_table(), usb_vid, usb_pid)->Some_0.1
            },
            None => spec_find_device(spec_device_table(), usb_vid, usb_pid) is None,
        },
{
    match get_device_info(usb_vid, usb_pid) {
        Some(info) => Some(info.model),
        None => None,
    }
}

} // verus!
