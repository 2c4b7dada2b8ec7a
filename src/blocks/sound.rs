use vstd::prelude::*;
use vstd::string::*;

verus! {

/// Whether a sound device plays or records.
#[derive(Clone, Copy, Debug, PartialEq, Eq, Structural)]
pub enum DeviceKind {
    Sink,
    Source,
}

/// `needle` occurs in `hay`.
pub open spec fn occurs_in(hay: Seq<char>, needle: Seq<char>) -> bool {
    exists|i: int| 0 <= i && i + needle.len() <= hay.len() && #[trigger] hay.subrange(i, i + needle.len()) == needle
}

/// The device is a headphone: its form factor says so, or, when it has
/// none, its active port's name mentions headphones.
pub open spec fn is_headphones(form_factor: Option<Seq<char>>, active_port: Option<Seq<char>>) -> bool {
    match form_factor {
        Some(f) => f == "headset"@ || f == "headphone"@ || f == "hands-free"@ || f == "portable"@,
        None => match active_port {
            Some(p) => occurs_in(p, "headphones"@),
            None => false,
        },
    }
}

/// The volume's part of the icon name.
pub open spec fn volume_suffix(volume: u32) -> Seq<char> {
    if volume == 0 {
        "muted"@
    } else if volume <= 20 {
        "empty"@
    } else if volume <= 70 {
        "half"@
    } else {
        "full"@
    }
}

/// The icon of a device of `kind` at `volume`; the headphone icon when the
/// indicator is on and the sink is a headphone.
pub open spec fn icon_name(
    kind: DeviceKind,
    hp_indicator: bool,
    form_factor: Option<Seq<char>>,
    active_port: Option<Seq<char>>,
    volume: u32,
) -> Seq<char> {
    if hp_indicator && kind == DeviceKind::Sink && is_headphones(form_factor, active_port) {
        "headphones"@
    } else {
        let prefix = match kind {
            DeviceKind::Source => "microphone"@,
            DeviceKind::Sink => "volume"@,
        };
        prefix + "_"@ + volume_suffix(volume)
    }
}

/// `a` and `b` hold the same characters.
pub fn str_eq(a: &str, b: &str) -> (r: bool)
    ensures
        r == (a@ == b@),
{
    let n = a.unicode_len();
    if n != b.unicode_len() {
        return false;
    }
    let mut i: usize = 0;
    while i < n
        invariant
            n == a@.len(),
            n == b@.len(),
            i <= n,
            forall|k: int| 0 <= k < i ==> a@[k] == b@[k],
        decreases n - i,
    {
        if a.get_char(i) != b.get_char(i) {
            return false;
        }
        i += 1;
    }
    proof {
        assert(a@ =~= b@);
    }
    true
}

/// `needle` occurs in `hay`.
pub fn str_contains(hay: &str, needle: &str) -> (r: bool)
    ensures
        r == occurs_in(hay@, needle@),
{
    let h = hay.unicode_len();
    let n = needle.unicode_len();
    if n > h {
        return false;
    }
    let mut i: usize = 0;
    while i <= h - n
        invariant
            h == hay@.len(),
            n == needle@.len(),
            n <= h,
            i <= h - n + 1,
            forall|q: int| 0 <= q < i ==> #[trigger] hay@.subrange(q, q + needle@.len()) != needle@,
        decreases h - n + 1 - i,
    {
        let mut j: usize = 0;
        let mut same = true;
        while same && j < n
            invariant
                h == hay@.len(),
                n == needle@.len(),
                i + n <= h,
                j <= n,
                forall|k: int| 0 <= k < j ==> hay@[i + k] == needle@[k],
                !same ==> j < n && hay@[i + j] != needle@[j as int],
            decreases n - j + if same { 1int } else { 0int },
        {
            if hay.get_char(i + j) != needle.get_char(j) {
                same = false;
            } else {
                j += 1;
            }
        }
        if same {
            proof {
                assert(hay@.subrange(i as int, i + n) =~= needle@);
            }
            return true;
        }
        proof {
            assert(hay@.subrange(i as int, i + n)[j as int] != needle@[j as int]);
        }
        i += 1;
    }
    false
}

fn volume_suffix_str(volume: u32) -> (r: &'static str)
    ensures
        r@ == volume_suffix(volume),
{
    if volume == 0 {
        "muted"
    } else if volume <= 20 {
        "empty"
    } else if volume <= 70 {
        "half"
    } else {
        "full"
    }
}

fn headphones(form_factor: Option<&str>, active_port: Option<&str>) -> (r: bool)
    ensures
        r == is_headphones(
            match form_factor {
                Some(f) => Some(f@),
                None => None,
            },
            match active_port {
                Some(p) => Some(p@),
                None => None,
            },
        ),
{
    match form_factor {
        Some(f) => str_eq(f, "headset") || str_eq(f, "headphone") || str_eq(f, "hands-free") || str_eq(
            f,
            "portable",
        ),
        None => match active_port {
            Some(p) => str_contains(p, "headphones"),
            None => false,
        },
    }
}

/// The name of the icon for a device of `device_kind` at `volume`, given
/// the device's form factor and active port.
pub fn device_icon(
    device_kind: DeviceKind,
    hp_indicator: bool,
    form_factor: Option<&str>,
    active_port: Option<&str>,
    volume: u32,
) -> (r: String)
    ensures
        r@ == icon_name(
            device_kind,
            hp_indicator,
            match form_factor {
                Some(f) => Some(f@),
                None => None,
            },
            match active_port {
                Some(p) => Some(p@),
                None => None,
            },
            volume,
        ),
{
    if hp_indicator && device_kind == DeviceKind::Sink && headphones(form_factor, active_port) {
        return String::from_str("headphones");
    }
    let prefix = match device_kind {
        DeviceKind::Source => "microphone",
        DeviceKind::Sink => "volume",
    };
    let mut name = String::from_str(prefix);
    name.append("_");
    name.append(volume_suffix_str(volume));
    name
}

} // verus!
