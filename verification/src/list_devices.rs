//! Device discovery: which video nodes are color cameras, as opposed to the
//! infrared, depth and metadata nodes of multi-sensor devices.

use vstd::prelude::*;

use crate::fourcc::{code_is, is_bytes, is_code};
use crate::order::{
    comes_first, is_sorted, is_stable_sort, law_order_is_that_of_characters, lex_le, sort_by_key,
    with_key, Keyed,
};
use crate::text::{
    contains, ends_with, has_prefix, has_substring, has_suffix, has_word, law_words_are_found,
    lowercase, starts_with, trim, trimmed,
};

verus! {

/// Codes of infrared, depth and grey formats.
pub open spec fn is_non_rgb_code(repr: [u8; 4]) -> bool {
    ||| is_code(repr, 'G', 'R', 'E', 'Y')
    ||| is_code(repr, 'Y', '8', '0', '0')
    ||| is_code(repr, 'Y', '8', ' ', ' ')
    ||| is_code(repr, 'Y', '1', '0', ' ')
    ||| is_code(repr, 'Y', '1', '2', ' ')
    ||| is_code(repr, 'Y', '1', '4', ' ')
    ||| is_code(repr, 'Y', '1', '6', ' ')
    ||| is_code(repr, 'Z', '1', '6', ' ')
    ||| is_code(repr, 'I', 'N', 'V', 'Z')
    ||| is_code(repr, 'Z', '1', '6', 'C')
    ||| is_code(repr, 'D', '1', '6', ' ')
}

/// Codes of the color formats that can be decoded.
pub open spec fn is_color_code(repr: [u8; 4]) -> bool {
    ||| is_code(repr, 'M', 'J', 'P', 'G')
    ||| is_code(repr, 'Y', 'U', 'Y', 'V')
    ||| is_code(repr, 'Y', 'U', 'Y', '2')
    ||| is_code(repr, 'R', 'G', 'B', '3')
    ||| is_code(repr, 'B', 'G', 'R', '3')
}

/// Whether a format is infrared, depth or grey. Some depth nodes offer MJPG
/// as well, so a color format alone does not make a color camera.
pub fn is_non_rgb_sensor_format(repr: &[u8; 4]) -> (r: bool)
    ensures
        r == is_non_rgb_code(*repr),
{
    code_is(repr, 'G', 'R', 'E', 'Y') || code_is(repr, 'Y', '8', '0', '0') || code_is(
        repr,
        'Y',
        '8',
        ' ',
        ' ',
    ) || code_is(repr, 'Y', '1', '0', ' ') || code_is(repr, 'Y', '1', '2', ' ') || code_is(
        repr,
        'Y',
        '1',
        '4',
        ' ',
    ) || code_is(repr, 'Y', '1', '6', ' ') || code_is(repr, 'Z', '1', '6', ' ') || code_is(
        repr,
        'I',
        'N',
        'V',
        'Z',
    ) || code_is(repr, 'Z', '1', '6', 'C') || code_is(repr, 'D', '1', '6', ' ')
}

/// Whether a format is a color format that can be decoded.
pub fn is_supported_color_format(repr: &[u8; 4]) -> (r: bool)
    ensures
        r == is_color_code(*repr),
{
    code_is(repr, 'M', 'J', 'P', 'G') || code_is(repr, 'Y', 'U', 'Y', 'V') || code_is(
        repr,
        'Y',
        'U',
        'Y',
        '2',
    ) || code_is(repr, 'R', 'G', 'B', '3') || code_is(repr, 'B', 'G', 'R', '3')
}

/// A format list of a color camera: nothing infrared, depth or grey, and at
/// least one color format that can be decoded.
pub open spec fn is_rgb_format_set(formats: Seq<[u8; 4]>) -> bool {
    &&& forall|i: int| 0 <= i < formats.len() ==> !is_non_rgb_code(#[trigger] formats[i])
    &&& exists|i: int| 0 <= i < formats.len() && is_color_code(#[trigger] formats[i])
}

/// Whether a format list is that of a color camera.
pub fn formats_are_rgb(formats: &Vec<[u8; 4]>) -> (r: bool)
    ensures
        r == is_rgb_format_set(formats@),
{
    let mut has_color: bool = false;
    let mut i: usize = 0;
    while i < formats.len()
        invariant
            i <= formats@.len(),
            forall|j: int| 0 <= j < i ==> !is_non_rgb_code(#[trigger] formats@[j]),
            has_color == exists|j: int| 0 <= j < i && is_color_code(#[trigger] formats@[j]),
        decreases formats@.len() - i,
    {
        if is_non_rgb_sensor_format(&formats[i]) {
            return false;
        }
        if is_supported_color_format(&formats[i]) {
            has_color = true;
        }
        i = i + 1;
    }
    has_color
}

/// The lower-case name speaks of an infrared, depth, monochrome or metadata
/// sensor.
pub open spec fn names_non_rgb(n: Seq<char>) -> bool {
    ||| has_substring(n, "infrared"@)
    ||| has_substring(n, "infra-red"@)
    ||| has_substring(n, " ir "@)
    ||| has_suffix(n, " ir"@)
    ||| has_substring(n, "metadata"@)
    ||| has_substring(n, "point cloud"@)
    ||| {
        &&& has_substring(n, "depth"@)
        &&& !has_substring(n, "rgb"@)
        &&& !has_substring(n, "color"@)
        &&& !has_substring(n, "colour"@)
    }
    ||| {
        &&& has_substring(n, "mono"@)
        &&& !has_substring(n, "rgb"@)
        &&& !has_substring(n, "color"@)
    }
}

/// Whether a device name plainly is that of an infrared, depth, monochrome or
/// metadata sensor.
pub fn name_suggests_non_rgb_camera(name: &str) -> (r: bool)
    ensures
        r == names_non_rgb(lowercase(name@)),
{
    let lower: String = name.to_lowercase();
    lower_name_suggests_non_rgb(lower.as_str())
}

/// `name_suggests_non_rgb_camera` of a name in lower case.
pub fn lower_name_suggests_non_rgb(n: &str) -> (r: bool)
    ensures
        r == names_non_rgb(n@),
{
    if contains(n, "infrared") || contains(n, "infra-red") || contains(n, " ir ") || ends_with(
        n,
        " ir",
    ) || contains(n, "metadata") || contains(n, "point cloud") {
        return true;
    }
    if contains(n, "depth") && !contains(n, "rgb") && !contains(n, "color") && !contains(
        n,
        "colour",
    ) {
        return true;
    }
    contains(n, "mono") && !contains(n, "rgb") && !contains(n, "color")
}

/// What the driver says of a node.
#[derive(Debug, Clone, PartialEq, Eq)]
pub struct DeviceCaps {
    /// The node captures video.
    pub video_capture: bool,
    /// The card name.
    pub card: String,
}

/// What was found out about one entry of the device class directory.
#[derive(Debug, Clone, PartialEq, Eq)]
pub struct DeviceProbe {
    /// The entry's file name.
    pub node: String,
    /// Absent if the device could not be opened or queried.
    pub caps: Option<DeviceCaps>,
    /// The content of the entry's `name` file, if it can be read.
    pub sysfs_name: Option<String>,
    /// The format codes; absent if they could not be listed.
    pub formats: Option<Vec<[u8; 4]>>,
}

/// Whether a directory entry is a video node.
pub fn is_video_node(name: &str) -> (r: bool)
    ensures
        r == has_prefix(name@, "video"@),
{
    starts_with(name, "video")
}

/// The path of a node.
pub open spec fn node_path(node: Seq<char>) -> Seq<char> {
    "/dev/"@ + node
}

/// The path of a node.
pub fn device_path(node: &str) -> (r: String)
    ensures
        r@ == node_path(node@),
{
    let mut out: String = "/dev/".to_owned();
    out.append(node);
    out
}

/// The name of a device: its card name, else what its `name` file holds, else
/// a placeholder.
pub open spec fn display_name(card: Seq<char>, sysfs_name: Option<Seq<char>>) -> Seq<char> {
    if trimmed(card).len() > 0 {
        trimmed(card)
    } else {
        match sysfs_name {
            Some(name) => trimmed(name),
            None => "Unknown Camera"@,
        }
    }
}

/// The view of an optional text.
pub open spec fn opt_text(s: Option<String>) -> Option<Seq<char>> {
    match s {
        Some(t) => Some(t@),
        None => None,
    }
}

/// The name of a device, see `display_name`.
pub fn device_name(card: &str, sysfs_name: &Option<String>) -> (r: String)
    ensures
        r@ == display_name(card@, opt_text(*sysfs_name)),
{
    let name: String = trim(card);
    if !name.as_str().is_empty() {
        return name;
    }
    match sysfs_name {
        Some(text) => trim(text.as_str()),
        None => "Unknown Camera".to_owned(),
    }
}

/// Name and path under which a probed entry is listed, if it is a color
/// camera.
pub open spec fn listed_as(probe: DeviceProbe) -> Option<(Seq<char>, Seq<char>)> {
    match (probe.caps, probe.formats) {
        (Some(caps), Some(formats)) => {
            let name = display_name(caps.card@, opt_text(probe.sysfs_name));
            if {
                &&& has_prefix(probe.node@, "video"@)
                &&& caps.video_capture
                &&& !names_non_rgb(lowercase(name))
                &&& is_rgb_format_set(formats@)
            } {
                Some((name, node_path(probe.node@)))
            } else {
                None
            }
        },
        _ => None,
    }
}

/// The color cameras among probed entries, in their order.
pub open spec fn listed(probes: Seq<DeviceProbe>) -> Seq<(Seq<char>, Seq<char>)>
    decreases probes.len(),
{
    if probes.len() == 0 {
        Seq::empty()
    } else {
        match listed_as(probes.last()) {
            Some(device) => listed(probes.drop_last()).push(device),
            None => listed(probes.drop_last()),
        }
    }
}

impl Keyed for (String, String) {
    open spec fn key(&self) -> Seq<char> {
        self.1@
    }

    fn key_text(&self) -> (r: &str) {
        self.1.as_str()
    }
}

/// The texts of a list of name and path pairs.
pub open spec fn pair_texts(pairs: Seq<(String, String)>) -> Seq<(Seq<char>, Seq<char>)> {
    pairs.map_values(|p: (String, String)| (p.0@, p.1@))
}

/// Name and path of a probed entry, if it is a color camera.
pub fn rgb_device(probe: &DeviceProbe) -> (r: Option<(String, String)>)
    ensures
        match r {
            Some(device) => listed_as(*probe) == Some((device.0@, device.1@)),
            None => listed_as(*probe) is None,
        },
{
    if !is_video_node(probe.node.as_str()) {
        return None;
    }
    let caps: &DeviceCaps = match &probe.caps {
        Some(caps) => caps,
        None => return None,
    };
    if !caps.video_capture {
        return None;
    }
    let name: String = device_name(caps.card.as_str(), &probe.sysfs_name);
    if name_suggests_non_rgb_camera(name.as_str()) {
        return None;
    }
    let formats: &Vec<[u8; 4]> = match &probe.formats {
        Some(formats) => formats,
        None => return None,
    };
    if !formats_are_rgb(formats) {
        return None;
    }
    Some((name, device_path(probe.node.as_str())))
}

/// Lists the color cameras among probed entries as name and path, ordered by
/// path.
pub fn list_rgb_video_devices(probes: &Vec<DeviceProbe>) -> (r: Vec<(String, String)>)
    ensures
        exists|found: Seq<(String, String)>|
            pair_texts(found) == listed(probes@) && #[trigger] is_stable_sort(found, r@),
        is_sorted(r@),
        r@.len() == listed(probes@).len(),
{
    let mut list: Vec<(String, String)> = Vec::new();
    let mut i: usize = 0;
    assert(pair_texts(list@) =~= listed(probes@.take(0)));
    while i < probes.len()
        invariant
            i <= probes@.len(),
            pair_texts(list@) == listed(probes@.take(i as int)),
        decreases probes@.len() - i,
    {
        proof {
            assert(probes@.take(i + 1).drop_last() =~= probes@.take(i as int));
            assert(probes@.take(i + 1).last() == probes@[i as int]);
        }
        let ghost before = list@;
        if let Some(device) = rgb_device(&probes[i]) {
            list.push(device);
            assert(pair_texts(list@) =~= pair_texts(before).push((device.0@, device.1@)));
        }
        i = i + 1;
    }
    assert(probes@.take(i as int) =~= probes@);
    let ghost found = list@;
    assert(pair_texts(found).len() == found.len());
    let sorted: Vec<(String, String)> = sort_by_key(list);
    assert(is_stable_sort(found, sorted@));
    sorted
}

/// The line that lists a camera: its name and its path, with a tab between
/// them.
pub fn device_line(name: &str, address: &str) -> (r: String)
    ensures
        r@ == name@ + "\t"@ + address@,
{
    let mut out: String = name.to_owned();
    out.append("\t");
    out.append(address);
    out
}

/// No format is both a color format and an infrared, depth or grey one, so a
/// node with a format of each kind is refused whatever their order.
pub proof fn law_format_kinds_are_disjoint(repr: [u8; 4])
    ensures
        !(is_non_rgb_code(repr) && is_color_code(repr)),
{
}

/// The color formats are `MJPG`, `YUYV`, `YUY2`, `RGB3` and `BGR3`; the others
/// that count are `GREY`, `Y800`, `Y8`, `Y10`, `Y12`, `Y14`, `Y16`, `Z16`,
/// `INVZ`, `Z16C` and `D16`, padded with spaces.
pub proof fn law_format_codes(repr: [u8; 4])
    ensures
        is_color_code(repr) <==> {
            ||| is_bytes(repr, 77, 74, 80, 71)
            ||| is_bytes(repr, 89, 85, 89, 86)
            ||| is_bytes(repr, 89, 85, 89, 50)
            ||| is_bytes(repr, 82, 71, 66, 51)
            ||| is_bytes(repr, 66, 71, 82, 51)
        },
        is_non_rgb_code(repr) <==> {
            ||| is_bytes(repr, 71, 82, 69, 89)
            ||| is_bytes(repr, 89, 56, 48, 48)
            ||| is_bytes(repr, 89, 56, 32, 32)
            ||| is_bytes(repr, 89, 49, 48, 32)
            ||| is_bytes(repr, 89, 49, 50, 32)
            ||| is_bytes(repr, 89, 49, 52, 32)
            ||| is_bytes(repr, 89, 49, 54, 32)
            ||| is_bytes(repr, 90, 49, 54, 32)
            ||| is_bytes(repr, 73, 78, 86, 90)
            ||| is_bytes(repr, 90, 49, 54, 67)
            ||| is_bytes(repr, 68, 49, 54, 32)
        },
{
}

/// A lower-case name is that of another sensor only if it says so: it speaks of
/// infrared, of metadata or of a point cloud; or of depth, without speaking of
/// color too; or of mono, likewise. A name without any of these words is never
/// refused, and each of them is heeded.
pub proof fn law_names_of_other_sensors(name: Seq<char>)
    ensures
        !has_word(name, "infrared"@) && !has_word(name, "infra-red"@) && !has_word(name, " ir "@)
            && !(exists|before: Seq<char>| name == #[trigger] (before + " ir"@)) && !has_word(
            name,
            "metadata"@,
        ) && !has_word(name, "point cloud"@) && !has_word(name, "depth"@) && !has_word(
            name,
            "mono"@,
        ) ==> !names_non_rgb(name),
        has_word(name, "infrared"@) || has_word(name, "infra-red"@) || has_word(name, " ir "@)
            || has_word(name, "metadata"@) || has_word(name, "point cloud"@) ==> names_non_rgb(
            name,
        ),
        (exists|before: Seq<char>| name == #[trigger] (before + " ir"@)) ==> names_non_rgb(name),
        has_word(name, "depth"@) && !has_word(name, "rgb"@) && !has_word(name, "color"@)
            && !has_word(name, "colour"@) ==> names_non_rgb(name),
        has_word(name, "mono"@) && !has_word(name, "rgb"@) && !has_word(name, "color"@)
            ==> names_non_rgb(name),
        has_word(name, "rgb"@) || has_word(name, "color"@) ==> (names_non_rgb(name) ==> {
            ||| has_word(name, "infrared"@)
            ||| has_word(name, "infra-red"@)
            ||| has_word(name, " ir "@)
            ||| exists|before: Seq<char>| name == #[trigger] (before + " ir"@)
            ||| has_word(name, "metadata"@)
            ||| has_word(name, "point cloud"@)
        }),
        has_word(name, "colour"@) ==> (names_non_rgb(name) ==> {
            ||| has_word(name, "infrared"@)
            ||| has_word(name, "infra-red"@)
            ||| has_word(name, " ir "@)
            ||| exists|before: Seq<char>| name == #[trigger] (before + " ir"@)
            ||| has_word(name, "metadata"@)
            ||| has_word(name, "point cloud"@)
            ||| has_word(name, "mono"@)
        }),
{
    law_words_are_found(name, "infrared"@);
    law_words_are_found(name, "infra-red"@);
    law_words_are_found(name, " ir "@);
    law_words_are_found(name, "metadata"@);
    law_words_are_found(name, "point cloud"@);
    law_words_are_found(name, "depth"@);
    law_words_are_found(name, "mono"@);
    law_words_are_found(name, "rgb"@);
    law_words_are_found(name, "color"@);
    law_words_are_found(name, "colour"@);
    let end: Seq<char> = " ir"@;
    if has_suffix(name, end) {
        let before = name.take(name.len() - end.len());
        assert(name =~= before + end);
    }
    if exists|before: Seq<char>| name == #[trigger] (before + end) {
        let before = choose|before: Seq<char>| name == #[trigger] (before + end);
        assert(name.subrange(name.len() - end.len(), name.len() as int) =~= end);
    }
}

/// A node of the video class is listed, under its path and the name of its
/// device, exactly if it captures video, offers a color format and nothing but
/// color formats or such as are not known, and is not named like another sensor.
/// The name is what the driver says, without the space around it.
pub proof fn law_color_cameras_are_listed(probe: DeviceProbe, caps: DeviceCaps, number: Seq<char>)
    requires
        probe.caps == Some(caps),
        probe.node@ == "video"@ + number,
        trimmed(caps.card@).len() > 0,
    ensures
        listed_as(probe) is Some <==> {
            &&& caps.video_capture
            &&& !names_non_rgb(lowercase(trimmed(caps.card@)))
            &&& probe.formats matches Some(formats) && {
                &&& exists|i: int| 0 <= i < formats@.len() && is_color_code(#[trigger] formats@[i])
                &&& forall|i: int|
                    0 <= i < formats@.len() ==> !is_non_rgb_code(#[trigger] formats@[i])
            }
        },
        listed_as(probe) matches Some((name, path)) ==> {
            &&& name == trimmed(caps.card@)
            &&& path == "/dev/video"@ + number
        },
{
    reveal_strlit("video");
    reveal_strlit("/dev/");
    reveal_strlit("/dev/video");
    assert(probe.node@.subrange(0, "video"@.len() as int) =~= "video"@);
    assert("/dev/"@ + ("video"@ + number) =~= "/dev/video"@ + number);
}

/// A device whose driver names none has the name in its `name` file, without the
/// space around it; without that file, a placeholder. Its name is heeded as any
/// other, and changes nothing else.
pub proof fn law_nameless_devices(probe: DeviceProbe, other: DeviceProbe)
    requires
        probe.caps is Some,
        other.caps is Some,
        trimmed(probe.caps->0.card@).len() == 0,
        other.node == probe.node,
        other.formats == probe.formats,
        other.caps->0.video_capture == probe.caps->0.video_capture,
        trimmed(other.caps->0.card@).len() > 0,
        trimmed(other.caps->0.card@) == (match probe.sysfs_name {
            Some(text) => trimmed(text@),
            None => "Unknown Camera"@,
        }),
    ensures
        listed_as(other) == listed_as(probe),
        listed_as(probe) matches Some((name, _)) ==> name == (match probe.sysfs_name {
            Some(text) => trimmed(text@),
            None => "Unknown Camera"@,
        }),
{
}

/// Whether an entry is listed does not depend on the others: the list of two
/// groups of entries is that of the first and that of the second behind it, and
/// of a single entry it is that entry or nothing. An entry that is no video node,
/// cannot be opened or does not tell its formats is not listed.
pub proof fn law_entries_are_listed_one_by_one(
    first: Seq<DeviceProbe>,
    second: Seq<DeviceProbe>,
    probe: DeviceProbe,
)
    ensures
        listed(first + second) == listed(first) + listed(second),
        listed(seq![probe]) == (match listed_as(probe) {
            Some(device) => seq![device],
            None => Seq::empty(),
        }),
        probe.caps is None || probe.formats is None || !(exists|number: Seq<char>|
            probe.node@ == #[trigger] ("video"@ + number)) ==> listed_as(probe) is None,
    decreases second.len(),
{
    reveal_with_fuel(listed, 2);
    assert(seq![probe].drop_last() =~= Seq::empty());
    match listed_as(probe) {
        Some(device) => {
            assert(listed(seq![probe]) =~= seq![device]);
        },
        None => {},
    }
    if has_prefix(probe.node@, "video"@) {
        let number = probe.node@.skip("video"@.len() as int);
        assert(probe.node@ =~= "video"@ + number);
    }
    if second.len() == 0 {
        assert(first + second =~= first);
        assert(listed(first) + listed(second) =~= listed(first));
    } else {
        law_entries_are_listed_one_by_one(first, second.drop_last(), probe);
        assert((first + second).drop_last() =~= first + second.drop_last());
        assert((first + second).last() == second.last());
        assert(listed(first + second) =~= listed(first) + listed(second));
    }
}

/// A device list is ordered by path, holds as many entries as there are color
/// cameras, and holds exactly those.
pub proof fn law_list_is_ordered_and_complete(
    probes: Seq<DeviceProbe>,
    found: Seq<(String, String)>,
    list: Seq<(String, String)>,
)
    requires
        pair_texts(found) == listed(probes),
        is_stable_sort(found, list),
    ensures
        is_sorted(list),
        list.len() == listed(probes).len(),
        forall|i: int| 0 <= i < list.len() ==> found.contains(#[trigger] list[i]),
        forall|i: int| 0 <= i < found.len() ==> list.contains(#[trigger] found[i]),
{
    assert(pair_texts(found).len() == found.len());
    assert forall|i: int| 0 <= i < list.len() implies found.contains(#[trigger] list[i]) by {
        let k = list[i].key();
        lemma_in_its_class(list, i);
        assert(with_key(list, k) == with_key(found, k));
        lemma_class_is_part(found, k, list[i]);
    }
    assert forall|i: int| 0 <= i < found.len() implies list.contains(#[trigger] found[i]) by {
        let k = found[i].key();
        lemma_in_its_class(found, i);
        assert(with_key(list, k) == with_key(found, k));
        lemma_class_is_part(list, k, found[i]);
    }
}

/// What `list_rgb_video_devices` returns are the color cameras among the entries,
/// all of them and as many as were found, with their paths in the order of
/// characters.
pub proof fn law_list_holds_the_color_cameras(
    probes: &Vec<DeviceProbe>,
    list: Vec<(String, String)>,
)
    requires
        call_ensures(list_rgb_video_devices, (probes,), list),
    ensures
        list@.len() == listed(probes@).len(),
        forall|i: int, j: int|
            0 <= i < j < list@.len() ==> comes_first(
                (#[trigger] list@[i]).1@,
                (#[trigger] list@[j]).1@,
            ),
        forall|i: int|
            0 <= i < list@.len() ==> listed(probes@).contains(
                ((#[trigger] list@[i]).0@, list@[i].1@),
            ),
        forall|k: int|
            0 <= k < listed(probes@).len() ==> pair_texts(list@).contains(
                #[trigger] listed(probes@)[k],
            ),
{
    let found = choose|found: Seq<(String, String)>|
        pair_texts(found) == listed(probes@) && #[trigger] is_stable_sort(found, list@);
    law_list_is_ordered_and_complete(probes@, found, list@);
    assert forall|i: int, j: int| 0 <= i < j < list@.len() implies comes_first(
        (#[trigger] list@[i]).1@,
        (#[trigger] list@[j]).1@,
    ) by {
        assert(lex_le(list@[i].key(), list@[j].key()));
        law_order_is_that_of_characters(list@[i].key(), list@[j].key());
    }
    assert forall|i: int| 0 <= i < list@.len() implies listed(probes@).contains(
        ((#[trigger] list@[i]).0@, list@[i].1@),
    ) by {
        assert(found.contains(list@[i]));
        let k = choose|k: int| 0 <= k < found.len() && found[k] == list@[i];
        assert(pair_texts(found)[k] == (list@[i].0@, list@[i].1@));
    }
    assert forall|k: int| 0 <= k < listed(probes@).len() implies pair_texts(list@).contains(
        #[trigger] listed(probes@)[k],
    ) by {
        assert(pair_texts(found)[k] == (found[k].0@, found[k].1@));
        assert(list@.contains(found[k]));
        let i = choose|i: int| 0 <= i < list@.len() && list@[i] == found[k];
        assert(pair_texts(list@)[i] == listed(probes@)[k]);
    }
}

proof fn lemma_in_its_class<T: Keyed>(s: Seq<T>, i: int)
    requires
        0 <= i < s.len(),
    ensures
        with_key(s, s[i].key()).contains(s[i]),
    decreases s.len(),
{
    let k = s[i].key();
    let rest = with_key(s.drop_last(), k);
    if i == s.len() - 1 {
        assert(rest.push(s.last())[rest.len() as int] == s[i]);
    } else {
        assert(s.drop_last()[i] == s[i]);
        lemma_in_its_class(s.drop_last(), i);
        let j = choose|j: int| 0 <= j < rest.len() && rest[j] == s[i];
        assert(rest.push(s.last())[j] == s[i]);
    }
}

proof fn lemma_class_is_part<T: Keyed>(s: Seq<T>, k: Seq<char>, x: T)
    requires
        with_key(s, k).contains(x),
    ensures
        s.contains(x),
    decreases s.len(),
{
    if s.len() > 0 {
        let rest = with_key(s.drop_last(), k);
        let all = with_key(s, k);
        let j = choose|j: int| 0 <= j < all.len() && all[j] == x;
        if s.last().key() == k && j == rest.len() {
            assert(s[s.len() - 1] == x);
        } else {
            assert(rest[j] == x);
            lemma_class_is_part(s.drop_last(), k, x);
            let m = choose|m: int| 0 <= m < s.drop_last().len() && s.drop_last()[m] == x;
            assert(s[m] == x);
        }
    }
}

/// `rgb_device` returns name and path of an entry that is listed; a line of the
/// list is the name and the path with a tab between them.
pub proof fn law_names_and_paths(
    probe: &DeviceProbe,
    r: Option<(String, String)>,
    name: &str,
    address: &str,
    line: String,
)
    requires
        call_ensures(rgb_device, (probe,), r),
        call_ensures(device_line, (name, address), line),
    ensures
        listed_as(*probe) is None <==> r is None,
        r matches Some(device) ==> listed_as(*probe) == Some((device.0@, device.1@)),
        line@ == name@ + "\t"@ + address@,
{
}

} // verus!
