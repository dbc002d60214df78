//! The decisions of a spectrum capture: which server ports to listen to, and when to
//! compute a spectrum from the buffered samples.
use vstd::prelude::*;
use crate::ring::{most_recent, RingBuffer};
use crate::text::{
    append_chars, append_str, chars_of, contains, decimal, decimal_chars, ends_with, has_infix, has_prefix,
    has_suffix, starts_with, string_of,
};
use crate::types::DeviceId;

verus! {

/// Samples kept per capture.
pub const BUFFER_CAPACITY: usize = 8192;

/// Samples per spectrum.
pub const FFT_SIZE: usize = 2048;

/// Frequency bins per spectrum.
pub const NUM_BINS: usize = 64;

/// Least time between two spectra of one capture, in milliseconds.
pub const PROCESS_INTERVAL_MS: u64 = 33;

/// The name of the audio client that captures `device_id`: `wavewire_<n>`.
pub open spec fn client_name_of(device_id: DeviceId) -> Seq<char> {
    "wavewire_"@ + decimal(device_id.0 as nat)
}

/// Whether the server port `port` can feed a capture of `target`: it is a monitor port,
/// and for a virtual or OBS sink it starts with the target's name, for an ALSA device
/// any monitor port does, otherwise it contains the target's name.
pub open spec fn port_matches_target(target: Seq<char>, port: Seq<char>) -> bool {
    has_infix(port, "monitor"@) && if has_prefix(target, "virtual_"@) || has_prefix(target, "obs_"@) {
        has_prefix(port, target)
    } else if has_prefix(target, "alsa_output"@) || has_prefix(target, "alsa_input"@) {
        true
    } else {
        has_infix(port, target)
    }
}

/// The last port of `ports` that matches `target` and ends with `suffix`.
pub open spec fn last_monitor(ports: Seq<Seq<char>>, target: Seq<char>, suffix: Seq<char>) -> Option<Seq<char>>
    decreases ports.len(),
{
    if ports.len() == 0 {
        None
    } else if port_matches_target(target, ports.last()) && has_suffix(ports.last(), suffix) {
        Some(ports.last())
    } else {
        last_monitor(ports.drop_last(), target, suffix)
    }
}

/// The client name for a capture of `device_id`.
pub fn capture_client_name(device_id: DeviceId) -> (r: String)
    ensures
        r@ == client_name_of(device_id),
{
    let mut cs: Vec<char> = Vec::new();
    append_str(&mut cs, "wavewire_");
    let digits = decimal_chars(device_id.0);
    append_chars(&mut cs, &digits);
    string_of(&cs)
}

/// Whether the server port `port_name` can feed a capture of `target`.
pub fn matches_target(target: &str, port_name: &str) -> (r: bool)
    ensures
        r == port_matches_target(target@, port_name@),
{
    let t = chars_of(target);
    let p = chars_of(port_name);
    if !contains(&p, &chars_of("monitor")) {
        return false;
    }
    if starts_with(&t, &chars_of("virtual_")) || starts_with(&t, &chars_of("obs_")) {
        starts_with(&p, &t)
    } else if starts_with(&t, &chars_of("alsa_output")) || starts_with(&t, &chars_of("alsa_input")) {
        true
    } else {
        contains(&p, &t)
    }
}

/// The left and right monitor ports (suffixes `monitor_FL` and `monitor_FR`) among
/// `ports` for a capture of `target`; where several match, the last. An empty target
/// matches nothing.
pub fn find_monitor_ports(target: &str, ports: &Vec<String>) -> (r: (Option<String>, Option<String>))
    ensures
        ({
            let names = ports@.map_values(|s: String| s@);
            if target@.len() == 0 {
                r.0 is None && r.1 is None
            } else {
                &&& r.0 is Some == last_monitor(names, target@, "monitor_FL"@) is Some
                &&& r.0 matches Some(s) ==> last_monitor(names, target@, "monitor_FL"@) == Some(s@)
                &&& r.1 is Some == last_monitor(names, target@, "monitor_FR"@) is Some
                &&& r.1 matches Some(s) ==> last_monitor(names, target@, "monitor_FR"@) == Some(s@)
            }
        }),
{
    if target.is_empty() {
        return (None, None);
    }
    let ghost names = ports@.map_values(|s: String| s@);
    let fl = chars_of("monitor_FL");
    let fr = chars_of("monitor_FR");
    let mut left: Option<String> = None;
    let mut right: Option<String> = None;
    let mut i: usize = 0;
    proof {
        assert(names.subrange(0, 0) =~= Seq::<Seq<char>>::empty());
    }
    while i < ports.len()
        invariant
            i <= ports@.len(),
            names == ports@.map_values(|s: String| s@),
            fl@ == "monitor_FL"@,
            fr@ == "monitor_FR"@,
            left is Some == last_monitor(names.subrange(0, i as int), target@, fl@) is Some,
            left matches Some(s) ==> last_monitor(names.subrange(0, i as int), target@, fl@) == Some(s@),
            right is Some == last_monitor(names.subrange(0, i as int), target@, fr@) is Some,
            right matches Some(s) ==> last_monitor(names.subrange(0, i as int), target@, fr@) == Some(s@),
        decreases ports.len() - i,
    {
        let name = ports[i].as_str();
        let chars = chars_of(name);
        let m = matches_target(target, name);
        proof {
            assert(names.subrange(0, i + 1).drop_last() =~= names.subrange(0, i as int));
            assert(names.subrange(0, i + 1).last() == ports@[i as int]@);
        }
        if m && ends_with(&chars, &fl) {
            left = Some(ports[i].clone());
        }
        if m && ends_with(&chars, &fr) {
            right = Some(ports[i].clone());
        }
        i = i + 1;
    }
    proof {
        assert(names.subrange(0, ports@.len() as int) =~= names);
    }
    (left, right)
}

/// When a capture computes its next spectrum.
pub struct SpectrumSchedule {
    /// When the last spectrum was computed, in milliseconds of the caller's clock.
    pub last_process_ms: u64,
}

impl SpectrumSchedule {
    /// A schedule whose last computation was at `now_ms`.
    pub fn new(now_ms: u64) -> (r: Self)
        ensures
            r.last_process_ms == now_ms,
    {
        SpectrumSchedule { last_process_ms: now_ms }
    }

    /// One periodic tick at `now_ms` with `buffered` samples held. Once the interval has
    /// passed since the last computation, the tick restarts the interval and says to
    /// compute a spectrum where at least `fft_size` samples are held; before that it
    /// says not to and changes nothing.
    pub fn update(&mut self, now_ms: u64, buffered: usize, fft_size: usize) -> (r: bool)
        ensures
            ({
                let due = now_ms as int - old(self).last_process_ms as int >= PROCESS_INTERVAL_MS as int;
                &&& r == (due && buffered >= fft_size)
                &&& final(self).last_process_ms == if due {
                    now_ms
                } else {
                    old(self).last_process_ms
                }
            }),
    {
        let elapsed = if now_ms >= self.last_process_ms { now_ms - self.last_process_ms } else { 0 };
        if elapsed >= PROCESS_INTERVAL_MS {
            self.last_process_ms = now_ms;
            buffered >= fft_size
        } else {
            false
        }
    }
}

/// The samples a spectrum is computed from: the most recent `fft_size` ones, where the
/// buffer holds that many.
pub fn spectrum_window<T: Copy>(buffer: &RingBuffer<T>, fft_size: usize) -> (r: Option<Vec<T>>)
    ensures
        match r {
            Some(v) => buffer@.len() >= fft_size && v@ == most_recent(buffer@, fft_size as nat),
            None => buffer@.len() < fft_size,
        },
{
    if buffer.has_enough_samples(fft_size) {
        Some(buffer.peek(fft_size))
    } else {
        None
    }
}

} // verus!
