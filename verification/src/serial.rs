//! Device selection by serial number.
//!
//! Enumerating devices and opening one are transport work, but which of
//! the enumerated devices to open is a decision, and it is made here: a
//! requested serial number selects the most recently listed device that
//! carries it, no request selects the single device present, and anything
//! else is refused before any device is touched.

use vstd::prelude::*;

verus! {

/// USB vendor id of the device maker this library targets.
pub const TARGET_VENDOR_ID: u16 = 0x1050;

/// USB product id of the target hardware security module.
pub const TARGET_PRODUCT_ID: u16 = 0x0030;

/// Whether an enumerated USB device is one of the modules this library
/// speaks to. Enumeration itself is transport work; this is the filter it
/// applies.
pub fn is_target_device(vendor_id: u16, product_id: u16) -> (r: bool)
    ensures
        r == (vendor_id == TARGET_VENDOR_ID && product_id == TARGET_PRODUCT_ID),
{
    vendor_id == TARGET_VENDOR_ID && product_id == TARGET_PRODUCT_ID
}

/// The serial number a device reports.
#[derive(Clone, Copy, Debug, PartialEq, Eq, Structural)]
pub struct SerialNumber(pub u32);

/// Why no device was selected.
#[derive(Clone, Copy, Debug, PartialEq, Eq, Structural)]
pub enum DeviceSelectError {
    /// No enumerated device carries the requested serial number.
    SerialNotFound,
    /// Nothing was requested and the enumeration does not single out one
    /// device.
    NotExactlyOne,
}

/// The index of the last device in the enumeration that carries `wanted`,
/// if any does.
pub open spec fn last_match(serials: Seq<SerialNumber>, wanted: SerialNumber) -> Option<int>
    decreases serials.len(),
{
    if serials.len() == 0 {
        None
    } else if serials.last() == wanted {
        Some(serials.len() - 1)
    } else {
        last_match(serials.drop_last(), wanted)
    }
}

/// Picks the device to open: the last one carrying the requested serial
/// number, or — when none is requested — the single enumerated device.
pub fn select_device(serials: &Vec<SerialNumber>, requested: Option<SerialNumber>) -> (r: Result<
    usize,
    DeviceSelectError,
>)
    ensures
        match requested {
            Some(wanted) => match last_match(serials@, wanted) {
                Some(i) => r == Ok::<usize, DeviceSelectError>(i as usize),
                None => r == Err::<usize, DeviceSelectError>(DeviceSelectError::SerialNotFound),
            },
            None => if serials@.len() == 1 {
                r == Ok::<usize, DeviceSelectError>(0)
            } else {
                r == Err::<usize, DeviceSelectError>(DeviceSelectError::NotExactlyOne)
            },
        },
{
    let wanted = match requested {
        None => {
            if serials.len() == 1 {
                return Ok(0);
            }
            return Err(DeviceSelectError::NotExactlyOne);
        },
        Some(w) => w,
    };
    let mut i: usize = serials.len();
    proof {
        assert(serials@.subrange(0, serials@.len() as int) =~= serials@);
    }
    while i > 0
        invariant
            requested == Some(wanted),
            i <= serials@.len(),
            last_match(serials@, wanted) == last_match(serials@.subrange(0, i as int), wanted),
        decreases i,
    {
        if serials[i - 1].0 == wanted.0 {
            proof {
                let prefix = serials@.subrange(0, i as int);
                assert(serials@[i - 1] == wanted);
                assert(prefix.last() == serials@[i - 1]);
                assert(last_match(prefix, wanted) == Some(i - 1));
            }
            return Ok(i - 1);
        }
        proof {
            let prefix = serials@.subrange(0, i as int);
            assert(prefix.last() == serials@[i - 1]);
            assert(prefix.drop_last() =~= serials@.subrange(0, i - 1));
        }
        i = i - 1;
    }
    proof {
        assert(serials@.subrange(0, 0) =~= Seq::<SerialNumber>::empty());
    }
    Err(DeviceSelectError::SerialNotFound)
}

} // verus!
