//! A user's devices.

use vstd::prelude::*;
use crate::exchange::PKEcdh;
use crate::validation::{length_rule, min_max_length, RuleError};

verus! {

/// A device registered to an account.
pub struct Device {
    pub id: Vec<u8>,
    pub one_time: Vec<PKEcdh>,
    pub name: Vec<u8>,
    pub created: i64,
    pub last_seen: i64,
    pub created_account: bool,
    pub expired: bool,
}

impl Device {
    /// An id of 1 to 32 bytes and a name of at most 16 bytes.
    pub open spec fn validity(&self) -> Result<(), RuleError> {
        if length_rule(self.id@.len(), 1, 32) is Err {
            length_rule(self.id@.len(), 1, 32)
        } else {
            length_rule(self.name@.len(), 0, 16)
        }
    }

    /// Checks the device's rules.
    pub fn check_validity(&self) -> (r: Result<(), RuleError>)
        ensures
            r == self.validity(),
    {
        match min_max_length(self.id.as_slice(), 1, 32) {
            Err(e) => Err(e),
            Ok(()) => min_max_length(self.name.as_slice(), 0, 16),
        }
    }
}

/// The first broken rule among the first `n` devices, if any.
pub open spec fn devices_prefix_rule(devices: Seq<Device>, n: int) -> Result<(), RuleError>
    decreases n,
{
    if n <= 0 {
        Ok(())
    } else if devices_prefix_rule(devices, n - 1) is Err {
        devices_prefix_rule(devices, n - 1)
    } else {
        devices[n - 1].validity()
    }
}

/// The first broken rule among all devices, if any.
pub open spec fn devices_rule(devices: Seq<Device>) -> Result<(), RuleError> {
    devices_prefix_rule(devices, devices.len() as int)
}

/// The rule that checks every device of a list.
pub struct CheckDevices();

impl CheckDevices {
    /// Checks the devices in order and reports the first broken rule.
    pub fn check(&self, devices: &Vec<Device>) -> (r: Result<(), RuleError>)
        ensures
            r == devices_rule(devices@),
    {
        check_devices(devices)
    }
}

/// Checks the devices in order and reports the first broken rule.
pub fn check_devices(devices: &Vec<Device>) -> (r: Result<(), RuleError>)
    ensures
        r == devices_rule(devices@),
{
    let mut i: usize = 0;
    while i < devices.len()
        invariant
            i <= devices@.len(),
            devices_prefix_rule(devices@, i as int) is Ok,
        decreases devices@.len() - i,
    {
        match devices[i].check_validity() {
            Err(e) => {
                proof {
                    assert(devices_prefix_rule(devices@, i + 1) == devices@[i as int].validity());
                    lemma_prefix_err_stays(devices@, i + 1, devices@.len() as int);
                }
                return Err(e);
            },
            Ok(()) => {},
        }
        i = i + 1;
    }
    Ok(())
}

/// Once a prefix has a broken rule, every longer prefix reports the same one.
pub proof fn lemma_prefix_err_stays(devices: Seq<Device>, n: int, m: int)
    requires
        0 <= n <= m,
        devices_prefix_rule(devices, n) is Err,
    ensures
        devices_prefix_rule(devices, m) == devices_prefix_rule(devices, n),
    decreases m - n,
{
    if m > n {
        lemma_prefix_err_stays(devices, n, m - 1);
    }
}

/// A device passes exactly when its id has 1 to 32 bytes and its name at
/// most 16; an empty id is too short, a longer id or name too long.
pub proof fn lemma_device_rules(d: Device)
    ensures
        d.validity() is Ok <==> 1 <= d.id@.len() && d.id@.len() <= 32 && d.name@.len() <= 16,
        d.id@.len() == 0 ==> d.validity() == Err::<(), RuleError>(RuleError::TooShort),
        d.id@.len() > 32 ==> d.validity() == Err::<(), RuleError>(RuleError::TooLong),
        1 <= d.id@.len() && d.id@.len() <= 32 && d.name@.len() > 16 ==> d.validity() == Err::<(), RuleError>(RuleError::TooLong),
{
}

/// A list of devices passes exactly when every device passes; otherwise the
/// rule broken by the first failing device is reported.
pub proof fn lemma_devices_rule(devices: Seq<Device>)
    ensures
        devices_rule(devices) is Ok <==> forall|i: int| 0 <= i < devices.len() ==> #[trigger] devices[i].validity() is Ok,
        forall|i: int| 0 <= i < devices.len() && #[trigger] devices[i].validity() is Err
            && (forall|j: int| 0 <= j < i ==> devices[j].validity() is Ok)
            ==> devices_rule(devices) == devices[i].validity(),
{
    lemma_devices_prefix(devices, devices.len() as int);
}

/// The rule of a prefix: every device of it passes, or the first failing
/// one's rule is reported.
proof fn lemma_devices_prefix(devices: Seq<Device>, n: int)
    requires
        0 <= n <= devices.len(),
    ensures
        devices_prefix_rule(devices, n) is Ok <==> forall|i: int| 0 <= i < n ==> #[trigger] devices[i].validity() is Ok,
        forall|i: int| 0 <= i < n && #[trigger] devices[i].validity() is Err
            && (forall|j: int| 0 <= j < i ==> devices[j].validity() is Ok)
            ==> devices_prefix_rule(devices, n) == devices[i].validity(),
    decreases n,
{
    if n > 0 {
        lemma_devices_prefix(devices, n - 1);
        assert forall|i: int| 0 <= i < n && #[trigger] devices[i].validity() is Err
            && (forall|j: int| 0 <= j < i ==> devices[j].validity() is Ok)
            implies devices_prefix_rule(devices, n) == devices[i].validity() by {
            if i < n - 1 {
            } else {
                assert(devices_prefix_rule(devices, n - 1) is Ok);
            }
        }
    }
}

} // verus!
