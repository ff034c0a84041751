use vstd::prelude::*;

verus! {

/// What device selection reads from one entry of the host's device catalog.
pub struct DeviceInfo {
    /// The device's name, or `None` where the query for it failed.
    pub name: Option<String>,
    /// How many input configurations the device offers, or `None` where the
    /// query for them failed.
    pub input_configs: Option<usize>,
}

/// The lower-case form of `s`, as `str::to_lowercase` gives it.
pub uninterp spec fn lower_of(s: Seq<char>) -> Seq<char>;

/// Relies on `str::to_lowercase`: its result depends on the characters of `s` alone.
#[verifier::external_body]
fn lowercase(s: &str) -> (r: String)
    ensures
        r@ == lower_of(s@),
{
    s.to_lowercase()
}

/// `needle` occurs in `hay` as a contiguous run of characters.
pub open spec fn contains_seq(hay: Seq<char>, needle: Seq<char>) -> bool {
    exists|i: int|
        0 <= i && i + needle.len() <= hay.len() && #[trigger] hay.subrange(i, i + needle.len())
            == needle
}

/// Relies on `str::contains` with a `&str` pattern: true exactly when `needle`
/// occurs in `hay`.
#[verifier::external_body]
fn text_contains(hay: &str, needle: &str) -> (r: bool)
    ensures
        r == contains_seq(hay@, needle@),
{
    hay.contains(needle)
}

/// Relies on `==` on `str`: true exactly when both hold the same characters.
#[verifier::external_body]
fn same_text(a: &str, b: &str) -> (r: bool)
    ensures
        r == (a@ == b@),
{
    a == b
}

/// A lower-case device name that marks a loopback device (one that captures
/// what the machine plays rather than a microphone).
pub open spec fn has_loopback_marker(lower: Seq<char>) -> bool {
    ||| contains_seq(lower, "stereo mix"@)
    ||| contains_seq(lower, "loopback"@)
    ||| contains_seq(lower, "blackhole"@)
    ||| contains_seq(lower, "soundflower"@)
}

/// Tells whether an already lower-cased device name holds one of the
/// loopback markers.
pub fn is_loopback_name_lower(lower: &str) -> (r: bool)
    ensures
        r == has_loopback_marker(lower@),
{
    text_contains(lower, "stereo mix") || text_contains(lower, "loopback") || text_contains(
        lower,
        "blackhole",
    ) || text_contains(lower, "soundflower")
}

impl DeviceInfo {
    /// The device reports at least one input configuration.
    pub open spec fn supports_input(&self) -> bool {
        match self.input_configs {
            Some(n) => n > 0,
            None => false,
        }
    }

    /// The device's name is known and equals `n`.
    pub open spec fn is_named(&self, n: Seq<char>) -> bool {
        match self.name {
            Some(s) => s@ == n,
            None => false,
        }
    }

    /// The device's name is known and, case-insensitively, holds a loopback marker.
    pub open spec fn is_loopback(&self) -> bool {
        match self.name {
            Some(s) => has_loopback_marker(lower_of(s@)),
            None => false,
        }
    }

    /// A descriptor with a known name, offering one input configuration
    /// where `has_input` holds and none otherwise.
    pub fn new(name: &str, has_input: bool) -> (r: Self)
        ensures
            r.is_named(name@),
            r.supports_input() == has_input,
    {
        let count: usize = if has_input { 1 } else { 0 };
        DeviceInfo { name: Some(name.to_string()), input_configs: Some(count) }
    }

    /// Whether the device reports at least one input configuration.
    pub fn has_input(&self) -> (r: bool)
        ensures
            r == self.supports_input(),
    {
        match self.input_configs {
            Some(n) => n > 0,
            None => false,
        }
    }
}


/// Device `i` is the first of `s` that `rule` accepts.
pub open spec fn is_first(s: Seq<DeviceInfo>, rule: spec_fn(DeviceInfo) -> bool, i: int) -> bool {
    &&& 0 <= i < s.len()
    &&& rule(s[i])
    &&& forall|j: int| 0 <= j < i ==> !rule(#[trigger] s[j])
}

/// The position of the first device of `s` that `rule` accepts, if any.
pub open spec fn first_where(s: Seq<DeviceInfo>, rule: spec_fn(DeviceInfo) -> bool) -> Option<int> {
    if exists|i: int| is_first(s, rule, i) {
        Some(choose|i: int| is_first(s, rule, i))
    } else {
        None
    }
}

/// Accepts a device whose name marks it as a loopback device.
pub open spec fn loopback_rule() -> spec_fn(DeviceInfo) -> bool {
    |d: DeviceInfo| d.is_loopback()
}

/// Accepts a device that takes input.
pub open spec fn input_rule() -> spec_fn(DeviceInfo) -> bool {
    |d: DeviceInfo| d.supports_input()
}

/// Accepts a device named exactly `n` that takes input.
pub open spec fn named_input_rule(n: Seq<char>) -> spec_fn(DeviceInfo) -> bool {
    |d: DeviceInfo| d.is_named(n) && d.supports_input()
}

/// The position of the device that the selection policy picks from `s`:
/// an explicit index is honoured only where that device takes input; an
/// explicit name picks the first input device of exactly that name; with
/// neither, the first loopback device, else the first input device.
pub open spec fn selection(s: Seq<DeviceInfo>, index: Option<usize>, name: Option<Seq<char>>) -> Option<
    int,
> {
    match index {
        Some(k) => if k < s.len() && s[k as int].supports_input() {
            Some(k as int)
        } else {
            None
        },
        None => match name {
            Some(n) => first_where(s, named_input_rule(n)),
            None => match first_where(s, loopback_rule()) {
                Some(i) => Some(i),
                None => first_where(s, input_rule()),
            },
        },
    }
}

/// `r` is the device at position `pos` of `s`, or nothing where `pos` is `None`.
pub open spec fn picks(r: Option<&DeviceInfo>, s: Seq<DeviceInfo>, pos: Option<int>) -> bool {
    match pos {
        Some(i) => r matches Some(d) && *d == s[i],
        None => r is None,
    }
}

/// Two first positions under one rule are the same position.
proof fn lemma_first_unique(s: Seq<DeviceInfo>, rule: spec_fn(DeviceInfo) -> bool, i: int, k: int)
    requires
        is_first(s, rule, i),
        is_first(s, rule, k),
    ensures
        i == k,
{
    if i < k {
        assert(!rule(s[i]));
    } else if k < i {
        assert(!rule(s[k]));
    }
}

/// Once `i` is known to be first under `rule`, `first_where` gives `i`.
proof fn lemma_first_where_is(s: Seq<DeviceInfo>, rule: spec_fn(DeviceInfo) -> bool, i: int)
    requires
        is_first(s, rule, i),
    ensures
        first_where(s, rule) == Some(i),
{
    let k = choose|k: int| is_first(s, rule, k);
    lemma_first_unique(s, rule, i, k);
}

/// Where `rule` accepts no device, `first_where` gives nothing.
proof fn lemma_first_where_none(s: Seq<DeviceInfo>, rule: spec_fn(DeviceInfo) -> bool)
    requires
        forall|j: int| 0 <= j < s.len() ==> !rule(#[trigger] s[j]),
    ensures
        first_where(s, rule) is None,
{
    if exists|i: int| is_first(s, rule, i) {
        let i = choose|i: int| is_first(s, rule, i);
        assert(!rule(s[i]));
    }
}

/// Whether the device's name, lower-cased, holds a loopback marker.
fn device_is_loopback(d: &DeviceInfo) -> (r: bool)
    ensures
        r == d.is_loopback(),
{
    match &d.name {
        Some(n) => {
            let lower = lowercase(n.as_str());
            is_loopback_name_lower(lower.as_str())
        },
        None => false,
    }
}

/// The first device whose name, compared without regard to case, holds one
/// of the loopback markers "stereo mix", "loopback", "blackhole" or
/// "soundflower". Devices whose name cannot be read never match.
pub fn find_loopback_device(devices: &[DeviceInfo]) -> (r: Option<&DeviceInfo>)
    ensures
        picks(r, devices@, first_where(devices@, loopback_rule())),
{
    let mut i: usize = 0;
    while i < devices.len()
        invariant
            0 <= i <= devices@.len(),
            forall|j: int| 0 <= j < i ==> !(#[trigger] loopback_rule()(devices@[j])),
        decreases devices@.len() - i,
    {
        if device_is_loopback(&devices[i]) {
            proof {
                assert(is_first(devices@, loopback_rule(), i as int));
                lemma_first_where_is(devices@, loopback_rule(), i as int);
            }
            return Some(&devices[i]);
        }
        i = i + 1;
    }
    proof {
        lemma_first_where_none(devices@, loopback_rule());
    }
    None
}

/// The first device that reports an input configuration.
fn find_input_device(devices: &[DeviceInfo]) -> (r: Option<&DeviceInfo>)
    ensures
        picks(r, devices@, first_where(devices@, input_rule())),
{
    let mut i: usize = 0;
    while i < devices.len()
        invariant
            0 <= i <= devices@.len(),
            forall|j: int| 0 <= j < i ==> !(#[trigger] input_rule()(devices@[j])),
        decreases devices@.len() - i,
    {
        if devices[i].has_input() {
            proof {
                assert(is_first(devices@, input_rule(), i as int));
                lemma_first_where_is(devices@, input_rule(), i as int);
            }
            return Some(&devices[i]);
        }
        i = i + 1;
    }
    proof {
        lemma_first_where_none(devices@, input_rule());
    }
    None
}

/// The first device named exactly `name` that reports an input configuration.
fn find_named_input_device<'a>(devices: &'a [DeviceInfo], name: &str) -> (r: Option<&'a DeviceInfo>)
    ensures
        picks(r, devices@, first_where(devices@, named_input_rule(name@))),
{
    let mut i: usize = 0;
    while i < devices.len()
        invariant
            0 <= i <= devices@.len(),
            forall|j: int| 0 <= j < i ==> !(#[trigger] named_input_rule(name@)(devices@[j])),
        decreases devices@.len() - i,
    {
        let d = &devices[i];
        let named = match &d.name {
            Some(n) => same_text(n.as_str(), name),
            None => false,
        };
        if named && d.has_input() {
            proof {
                assert(is_first(devices@, named_input_rule(name@), i as int));
                lemma_first_where_is(devices@, named_input_rule(name@), i as int);
            }
            return Some(d);
        }
        i = i + 1;
    }
    proof {
        lemma_first_where_none(devices@, named_input_rule(name@));
    }
    None
}

/// The view of an optional name.
pub open spec fn opt_view(name: Option<&str>) -> Option<Seq<char>> {
    match name {
        Some(n) => Some(n@),
        None => None,
    }
}

/// Picks the capture device. An explicit index wins and is a hard choice:
/// the device there is returned only where it takes input, with no
/// fallback. Otherwise an explicit name picks the first input device of
/// exactly that name. With neither, the first loopback device is taken, and
/// failing that the first device that takes input.
pub fn select_device<'a>(
    devices: &'a [DeviceInfo],
    device_index: Option<usize>,
    device_name: Option<&str>,
) -> (r: Option<&'a DeviceInfo>)
    ensures
        picks(r, devices@, selection(devices@, device_index, opt_view(device_name))),
{
    match device_index {
        Some(index) => {
            if index < devices.len() && devices[index].has_input() {
                Some(&devices[index])
            } else {
                None
            }
        },
        None => match device_name {
            Some(name) => find_named_input_device(devices, name),
            None => match find_loopback_device(devices) {
                Some(d) => Some(d),
                None => find_input_device(devices),
            },
        },
    }
}


/// Where some device of `s` passes `rule`, a first such device exists.
proof fn lemma_first_exists(s: Seq<DeviceInfo>, rule: spec_fn(DeviceInfo) -> bool, j: int)
    requires
        0 <= j < s.len(),
        rule(s[j]),
    ensures
        first_where(s, rule) matches Some(i) && is_first(s, rule, i),
    decreases j,
{
    if forall|k: int| 0 <= k < j ==> !rule(#[trigger] s[k]) {
        lemma_first_where_is(s, rule, j);
    } else {
        let k = choose|k: int| 0 <= k < j && rule(#[trigger] s[k]);
        lemma_first_exists(s, rule, k);
    }
}

/// An explicit index that points at a device without input selects nothing:
/// there is no fallback to another device.
pub proof fn lemma_index_without_input_selects_nothing(
    s: Seq<DeviceInfo>,
    k: usize,
    name: Option<Seq<char>>,
)
    requires
        k < s.len(),
        !s[k as int].supports_input(),
    ensures
        selection(s, Some(k), name) is None,
{
}

/// An explicit name that no device taking input carries selects nothing.
pub proof fn lemma_unknown_name_selects_nothing(s: Seq<DeviceInfo>, n: Seq<char>)
    requires
        forall|j: int| 0 <= j < s.len() ==> !(#[trigger] s[j].is_named(n) && s[j].supports_input()),
    ensures
        selection(s, None, Some(n)) is None,
{
    assert forall|j: int| 0 <= j < s.len() implies !(#[trigger] named_input_rule(n)(s[j])) by {
        assert(!(s[j].is_named(n) && s[j].supports_input()));
    }
    lemma_first_where_none(s, named_input_rule(n));
}

/// With no explicit choice and some loopback device in the list, the
/// selection is the first loopback device in list order, whatever stands
/// before it.
pub proof fn lemma_default_prefers_first_loopback(s: Seq<DeviceInfo>, j: int)
    requires
        0 <= j < s.len(),
        s[j].is_loopback(),
    ensures
        selection(s, None, None) matches Some(i) && 0 <= i <= j && s[i].is_loopback() && (forall|
            k: int,
        | 0 <= k < i ==> !(#[trigger] s[k]).is_loopback()),
{
    lemma_first_exists(s, loopback_rule(), j);
    let i = first_where(s, loopback_rule())->0;
    assert forall|k: int| 0 <= k < i implies !(#[trigger] s[k]).is_loopback() by {
        assert(!loopback_rule()(s[k]));
    }
}

/// With no explicit choice and no loopback device, the selection is the
/// first device that takes input, in list order, or nothing where none does.
pub proof fn lemma_default_falls_back_to_first_input(s: Seq<DeviceInfo>)
    requires
        forall|j: int| 0 <= j < s.len() ==> !(#[trigger] s[j]).is_loopback(),
    ensures
        match selection(s, None, None) {
            Some(i) => 0 <= i < s.len() && s[i].supports_input() && (forall|k: int|
                0 <= k < i ==> !(#[trigger] s[k]).supports_input()),
            None => forall|k: int| 0 <= k < s.len() ==> !(#[trigger] s[k]).supports_input(),
        },
{
    assert forall|j: int| 0 <= j < s.len() implies !(#[trigger] loopback_rule()(s[j])) by {
        assert(!s[j].is_loopback());
    }
    lemma_first_where_none(s, loopback_rule());
    if exists|j: int| 0 <= j < s.len() && (#[trigger] s[j]).supports_input() {
        let j = choose|j: int| 0 <= j < s.len() && (#[trigger] s[j]).supports_input();
        lemma_first_exists(s, input_rule(), j);
        let i = first_where(s, input_rule())->0;
        assert forall|k: int| 0 <= k < i implies !(#[trigger] s[k]).supports_input() by {
            assert(!input_rule()(s[k]));
        }
    } else {
        assert forall|j: int| 0 <= j < s.len() implies !(#[trigger] input_rule()(s[j])) by {
            assert(!s[j].supports_input());
        }
        lemma_first_where_none(s, input_rule());
    }
}

} // verus!
