//! What the core knows about audio output devices: their reported
//! capabilities, and the decision rules for picking a fallback when the
//! device in use disappears. Probing the hardware itself is an outside
//! concern; this module works on the plain values such a probe hands back.

use vstd::prelude::*;
use vstd::string::StringExecFns;
use crate::text::chars_of;

verus! {

/// What a probe reported about one output device.
#[derive(Debug, Clone)]
pub struct AudioDeviceInfo {
    pub name: String,
    pub id: String,
    pub is_default: bool,
    pub is_available: bool,
    pub supported_sample_rates: Vec<u32>,
    pub supported_buffer_sizes: Vec<u32>,
}

impl AudioDeviceInfo {
    /// Whether the device reported both the sample rate and the buffer size.
    pub fn supports_config(&self, sample_rate: u32, buffer_size: u32) -> (r: bool)
        ensures
            r == (self.supported_sample_rates@.contains(sample_rate)
                && self.supported_buffer_sizes@.contains(buffer_size)),
    {
        contains_u32(&self.supported_sample_rates, sample_rate) && contains_u32(
            &self.supported_buffer_sizes,
            buffer_size,
        )
    }
}

/// Whether the vector holds the value.
#[verifier::loop_isolation(false)]
fn contains_u32(v: &Vec<u32>, x: u32) -> (r: bool)
    ensures
        r == v@.contains(x),
{
    let mut i: usize = 0;
    while i < v.len()
        invariant
            i <= v@.len(),
            forall|j: int| 0 <= j < i ==> v@[j] != x,
        decreases v@.len() - i,
    {
        if v[i] == x {
            return true;
        }
        i = i + 1;
    }
    proof {
        assert(!v@.contains(x));
    }
    false
}

/// What to do when the device in use may be gone.
#[derive(Debug, Clone, PartialEq)]
pub enum DeviceRecoveryAction {
    /// The device still works; change nothing.
    NoAction,
    /// Move to the system's default device.
    FallbackToDefault,
    /// Move to the named device.
    FallbackToDevice(String),
    /// Nothing to fall back to.
    DeviceUnavailable,
}

/// The index of the first candidate that differs from `current`, if any.
pub open spec fn first_other(candidates: Seq<String>, current: Seq<char>, i: int) -> Option<int>
    decreases candidates.len() - i,
{
    if i < 0 || i >= candidates.len() {
        None
    } else if candidates[i]@ != current {
        Some(i)
    } else {
        first_other(candidates, current, i + 1)
    }
}

/// Decides how to recover from a possibly lost device, from what a probe
/// reported: with monitoring off or the device still present, nothing; with
/// automatic fallback, first the last known good device if it is another one
/// and present, then the system default if the lost device was not it, then
/// the first other candidate the probe listed; otherwise the device is
/// simply unavailable.
#[verifier::loop_isolation(false)]
pub fn recovery_action(
    monitoring_enabled: bool,
    auto_fallback_enabled: bool,
    current_device: &String,
    current_available: bool,
    last_known_good: &Option<String>,
    last_good_available: bool,
    default_available: bool,
    candidates: &Vec<String>,
) -> (r: DeviceRecoveryAction)
    ensures
        !monitoring_enabled ==> r == DeviceRecoveryAction::NoAction,
        monitoring_enabled && current_available ==> r == DeviceRecoveryAction::NoAction,
        monitoring_enabled && !current_available && !auto_fallback_enabled ==> r
            == DeviceRecoveryAction::DeviceUnavailable,
        monitoring_enabled && !current_available && auto_fallback_enabled ==> ({
            let lg_takes = (*last_known_good) is Some && (*last_known_good).unwrap()@
                != current_device@ && last_good_available;
            let default_takes = current_device@ != "Default Device"@ && default_available;
            &&& lg_takes ==> (r matches DeviceRecoveryAction::FallbackToDevice(d) && d@
                == (*last_known_good).unwrap()@)
            &&& !lg_takes && default_takes ==> r == DeviceRecoveryAction::FallbackToDefault
            &&& !lg_takes && !default_takes ==> match first_other(
                candidates@,
                current_device@,
                0,
            ) {
                Some(k) => r matches DeviceRecoveryAction::FallbackToDevice(d) && d@
                    == candidates@[k]@,
                None => r == DeviceRecoveryAction::DeviceUnavailable,
            }
        }),
{
    if !monitoring_enabled {
        return DeviceRecoveryAction::NoAction;
    }
    if current_available {
        return DeviceRecoveryAction::NoAction;
    }
    if !auto_fallback_enabled {
        return DeviceRecoveryAction::DeviceUnavailable;
    }
    match last_known_good {
        Some(lg) => {
            if !(*lg == *current_device) && last_good_available {
                return DeviceRecoveryAction::FallbackToDevice(lg.clone());
            }
        },
        None => {},
    }
    let default_name = String::from_str("Default Device");
    if !(*current_device == default_name) && default_available {
        return DeviceRecoveryAction::FallbackToDefault;
    }
    let mut i: usize = 0;
    while i < candidates.len()
        invariant
            i <= candidates@.len(),
            first_other(candidates@, current_device@, 0) == first_other(
                candidates@,
                current_device@,
                i as int,
            ),
        decreases candidates@.len() - i,
    {
        if !(candidates[i] == *current_device) {
            return DeviceRecoveryAction::FallbackToDevice(candidates[i].clone());
        }
        i = i + 1;
    }
    DeviceRecoveryAction::DeviceUnavailable
}


/// Whether some reported range holds the rate.
pub open spec fn in_any_range(rate: u32, ranges: Seq<(u32, u32)>) -> bool {
    exists|j: int| 0 <= j < ranges.len() && (#[trigger] ranges[j]).0 <= rate <= ranges[j].1
}

/// The rates of a candidate list that some reported range holds, in the
/// candidates' order.
pub open spec fn rates_within(rates: Seq<u32>, ranges: Seq<(u32, u32)>) -> Seq<u32>
    decreases rates.len(),
{
    if rates.len() == 0 {
        Seq::<u32>::empty()
    } else if in_any_range(rates[0], ranges) {
        seq![rates[0]] + rates_within(rates.drop_first(), ranges)
    } else {
        rates_within(rates.drop_first(), ranges)
    }
}

/// The standard sample rates probes are held against, ascending.
pub open spec fn standard_rates() -> Seq<u32> {
    seq![22_050u32, 44_100u32, 48_000u32, 88_200u32, 96_000u32, 192_000u32]
}

/// Filters the standard sample rates through the ranges a device reported;
/// a device reporting none of them falls back to the two common rates.
#[verifier::loop_isolation(false)]
pub fn supported_standard_rates(ranges: &Vec<(u32, u32)>) -> (r: Vec<u32>)
    ensures
        r@ == if rates_within(standard_rates(), ranges@).len() > 0 {
            rates_within(standard_rates(), ranges@)
        } else {
            seq![44_100u32, 48_000u32]
        },
{
    let candidates: [u32; 6] = [22_050, 44_100, 48_000, 88_200, 96_000, 192_000];
    let mut r: Vec<u32> = Vec::new();
    let mut i: usize = 0;
    proof {
        assert(standard_rates().skip(0) =~= standard_rates());
        assert(r@ + rates_within(standard_rates(), ranges@) =~= rates_within(
            standard_rates(),
            ranges@,
        ));
    }
    while i < 6
        invariant
            i <= 6,
            r@ + rates_within(standard_rates().skip(i as int), ranges@) == rates_within(
                standard_rates(),
                ranges@,
            ),
            forall|j: int| 0 <= j < r@.len() ==> in_any_range(#[trigger] r@[j], ranges@),
        decreases 6 - i,
    {
        let rate = candidates[i];
        proof {
            assert(standard_rates().skip(i as int)[0] == standard_rates()[i as int]);
            assert(standard_rates()[i as int] == rate);
            assert(standard_rates().skip(i as int).drop_first() =~= standard_rates().skip(
                i as int + 1,
            ));
        }
        let mut hit = false;
        let mut j: usize = 0;
        while j < ranges.len()
            invariant
                j <= ranges@.len(),
                hit ==> in_any_range(rate, ranges@),
                !hit ==> forall|k: int|
                    0 <= k < j ==> !((#[trigger] ranges@[k]).0 <= rate <= ranges@[k].1),
            decreases ranges@.len() - j,
        {
            let (lo, hi) = ranges[j];
            if lo <= rate && rate <= hi {
                hit = true;
            }
            j = j + 1;
        }
        if hit {
            r.push(rate);
            proof {
                assert(r@ =~= r@.drop_last() + seq![rate]);
                assert(r@.drop_last() + (seq![rate] + rates_within(
                    standard_rates().skip(i as int + 1),
                    ranges@,
                )) =~= r@ + rates_within(standard_rates().skip(i as int + 1), ranges@));
            }
        } else {
            proof {
                assert(!in_any_range(rate, ranges@));
            }
        }
        i = i + 1;
    }
    proof {
        assert(standard_rates().skip(6) =~= Seq::<u32>::empty());
        assert(r@ + Seq::<u32>::empty() =~= r@);
    }
    if r.len() == 0 {
        let mut fallback: Vec<u32> = Vec::new();
        fallback.push(44_100);
        fallback.push(48_000);
        proof {
            assert(fallback@ =~= seq![44_100u32, 48_000u32]);
        }
        fallback
    } else {
        r
    }
}

/// The standard power-of-two buffer sizes offered for any device.
pub fn standard_buffer_sizes() -> (r: Vec<u32>)
    ensures
        r@ == seq![64u32, 128u32, 256u32, 512u32, 1024u32, 2048u32, 4096u32],
{
    let mut r: Vec<u32> = Vec::new();
    r.push(64);
    r.push(128);
    r.push(256);
    r.push(512);
    r.push(1024);
    r.push(2048);
    r.push(4096);
    proof {
        assert(r@ =~= seq![64u32, 128u32, 256u32, 512u32, 1024u32, 2048u32, 4096u32]);
    }
    r
}


/// Whether a device name carries the marker the probe appends to the
/// system's default device.
pub open spec fn ends_with_default(s: Seq<char>) -> bool {
    s.len() >= 10 && s.subrange(s.len() - 10, s.len() as int) == " (Default)"@
}

/// Whether a name stands for the system's default device, by the exact name
/// or by the appended marker.
pub open spec fn names_default(s: Seq<char>) -> bool {
    s == "Default Device"@ || ends_with_default(s)
}

/// A device name with the default marker stripped, if it carries one.
pub open spec fn clean_name(s: Seq<char>) -> Seq<char> {
    if ends_with_default(s) {
        s.take(s.len() - 10)
    } else {
        s
    }
}

/// Whether the characters end with the default marker.
#[verifier::loop_isolation(false)]
fn ends_with_default_chars(cs: &Vec<char>) -> (r: bool)
    ensures
        r == ends_with_default(cs@),
{
    let marker = chars_of(" (Default)");
    proof {
        reveal_strlit(" (Default)");
    }
    if cs.len() < 10 {
        return false;
    }
    let base = cs.len() - 10;
    let mut i: usize = 0;
    while i < 10
        invariant
            i <= 10,
            marker@ == " (Default)"@,
            marker@.len() == 10,
            base == cs@.len() - 10,
            forall|j: int| 0 <= j < i ==> cs@[base + j] == marker@[j],
        decreases 10 - i,
    {
        if cs[base + i] != marker[i] {
            proof {
                assert(cs@.subrange(cs@.len() - 10, cs@.len() as int)[i as int] != " (Default)"@[
                    i as int]);
            }
            return false;
        }
        i = i + 1;
    }
    proof {
        assert(cs@.subrange(cs@.len() - 10, cs@.len() as int) =~= " (Default)"@);
    }
    true
}

/// The characters of a name with the default marker stripped.
fn cleaned_chars(s: &String) -> (r: Vec<char>)
    ensures
        r@ == clean_name(s@),
{
    let mut cs = chars_of(s.as_str());
    if ends_with_default_chars(&cs) {
        let keep = cs.len() - 10;
        cs.truncate(keep);
        proof {
            assert(cs@ =~= s@.take(s@.len() - 10));
        }
    }
    cs
}

/// Whether two character lists are equal.
#[verifier::loop_isolation(false)]
fn chars_equal(a: &Vec<char>, b: &Vec<char>) -> (r: bool)
    ensures
        r == (a@ == b@),
{
    if a.len() != b.len() {
        return false;
    }
    let mut i: usize = 0;
    while i < a.len()
        invariant
            i <= a@.len(),
            a@.len() == b@.len(),
            forall|j: int| 0 <= j < i ==> a@[j] == b@[j],
        decreases a@.len() - i,
    {
        if a[i] != b[i] {
            return false;
        }
        i = i + 1;
    }
    proof {
        assert(a@ =~= b@);
    }
    true
}

/// Whether a probe's device list carries the named device: a name standing
/// for the default device matches any listed default, any other name
/// matches a listed name equal to it once default markers are stripped from
/// both.
#[verifier::loop_isolation(false)]
pub fn is_device_listed(device_name: &str, devices: &Vec<String>) -> (r: bool)
    ensures
        names_default(device_name@) ==> (r <==> exists|i: int|
            0 <= i < devices@.len() && names_default((#[trigger] devices@[i])@)),
        !names_default(device_name@) ==> (r <==> exists|i: int|
            0 <= i < devices@.len() && clean_name((#[trigger] devices@[i])@) == clean_name(
                device_name@,
            )),
{
    let owned = device_name.to_owned();
    let name_chars = chars_of(device_name);
    let default_name = String::from_str("Default Device");
    let is_default = owned == default_name || ends_with_default_chars(&name_chars);
    if is_default {
        let mut i: usize = 0;
        while i < devices.len()
            invariant
                i <= devices@.len(),
                forall|j: int| 0 <= j < i ==> !names_default((#[trigger] devices@[j])@),
            decreases devices@.len() - i,
        {
            let d_chars = chars_of(devices[i].as_str());
            if devices[i] == default_name || ends_with_default_chars(&d_chars) {
                return true;
            }
            i = i + 1;
        }
        false
    } else {
        let cleaned = cleaned_chars(&owned);
        proof {
            assert(owned@ == device_name@);
        }
        let mut i: usize = 0;
        while i < devices.len()
            invariant
                i <= devices@.len(),
                cleaned@ == clean_name(device_name@),
                forall|j: int|
                    0 <= j < i ==> clean_name((#[trigger] devices@[j])@) != clean_name(
                        device_name@,
                    ),
            decreases devices@.len() - i,
        {
            let d_cleaned = cleaned_chars(&devices[i]);
            if chars_equal(&d_cleaned, &cleaned) {
                return true;
            }
            i = i + 1;
        }
        false
    }
}

} // verus!
