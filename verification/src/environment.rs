//! A look at the environment that opens no device.

use vstd::prelude::*;

use crate::list_devices::{device_path, is_video_node, node_path};
use crate::order::{is_sorted, is_stable_sort, sort_by_key};
use crate::text::{
    decimal, digit_number, has_prefix, law_beginnings_and_ends, law_octal_notation, octal3,
    octal_mode, push_decimal, texts,
};

verus! {

/// What the file system says of a device node.
#[derive(Debug, Clone, Copy, PartialEq, Eq, Structural)]
pub struct NodeStat {
    pub mode: u32,
    pub uid: u32,
    pub gid: u32,
}

/// A device node for which the file system was asked, with its answer or the
/// text of its error.
#[derive(Debug)]
pub struct NodeProbe {
    pub path: String,
    pub stat: Result<NodeStat, String>,
}

/// Owner and permissions of a device node.
#[derive(Debug, Clone, PartialEq, Eq)]
pub struct VideoDevicePermission {
    pub path: String,
    /// The permission bits in octal notation.
    pub mode: String,
    pub owner_uid: u32,
    pub owner_gid: u32,
    pub has_read_bit: bool,
    pub has_write_bit: bool,
}

/// What a permission entry says.
pub struct PermissionFields {
    pub path: Seq<char>,
    pub mode: Seq<char>,
    pub owner_uid: u32,
    pub owner_gid: u32,
    pub has_read_bit: bool,
    pub has_write_bit: bool,
}

impl View for VideoDevicePermission {
    type V = PermissionFields;

    open spec fn view(&self) -> PermissionFields {
        PermissionFields {
            path: self.path@,
            mode: self.mode@,
            owner_uid: self.owner_uid,
            owner_gid: self.owner_gid,
            has_read_bit: self.has_read_bit,
            has_write_bit: self.has_write_bit,
        }
    }
}

/// The result of the look at the environment.
#[derive(Debug, Clone, PartialEq, Eq)]
pub struct EnvironmentCheck {
    pub os: String,
    pub supported: bool,
    pub video_devices: Vec<VideoDevicePermission>,
    pub notes: Vec<String>,
}

/// What the entries of a list say.
pub open spec fn permissions(list: Seq<VideoDevicePermission>) -> Seq<PermissionFields> {
    list.map_values(|d: VideoDevicePermission| d@)
}

/// The paths of the video nodes among directory entries, in the order of the
/// entries.
pub open spec fn video_paths(names: Seq<String>) -> Seq<Seq<char>>
    decreases names.len(),
{
    if names.len() == 0 {
        Seq::empty()
    } else {
        let rest = video_paths(names.drop_last());
        if has_prefix(names.last()@, "video"@) {
            rest.push(node_path(names.last()@))
        } else {
            rest
        }
    }
}

/// The paths of the video nodes among the entries of the device directory,
/// ordered.
pub fn video_node_paths(names: &Vec<String>) -> (r: Vec<String>)
    ensures
        exists|found: Seq<String>|
            texts(found) == video_paths(names@) && #[trigger] is_stable_sort(found, r@),
        is_sorted(r@),
        r@.len() == video_paths(names@).len(),
{
    let mut paths: Vec<String> = Vec::new();
    let mut i: usize = 0;
    assert(texts(paths@) =~= video_paths(names@.take(0)));
    while i < names.len()
        invariant
            i <= names@.len(),
            texts(paths@) == video_paths(names@.take(i as int)),
        decreases names@.len() - i,
    {
        proof {
            assert(names@.take(i + 1).drop_last() =~= names@.take(i as int));
            assert(names@.take(i + 1).last() == names@[i as int]);
        }
        if is_video_node(names[i].as_str()) {
            let ghost before: Seq<String> = paths@;
            let path: String = device_path(names[i].as_str());
            paths.push(path);
            assert(texts(paths@) =~= texts(before).push(path@));
        }
        i = i + 1;
    }
    assert(names@.take(i as int) =~= names@);
    let ghost found: Seq<String> = paths@;
    assert(texts(found).len() == found.len());
    let sorted: Vec<String> = sort_by_key(paths);
    assert(is_stable_sort(found, sorted@));
    sorted
}

/// The permission entry of a node.
pub open spec fn permission_of(path: Seq<char>, stat: NodeStat) -> PermissionFields {
    let mode = stat.mode & 0o777;
    PermissionFields {
        path,
        mode: octal3(mode as nat),
        owner_uid: stat.uid,
        owner_gid: stat.gid,
        has_read_bit: mode & 0o444 != 0,
        has_write_bit: mode & 0o222 != 0,
    }
}

/// The permission entry of a node, see `permission_of`.
pub fn device_permission(path: &str, stat: NodeStat) -> (r: VideoDevicePermission)
    ensures
        r@ == permission_of(path@, stat),
{
    let full: u32 = stat.mode;
    let mode: u32 = full & 0o777;
    assert(full & 0o777 <= 0o777) by (bit_vector);
    VideoDevicePermission {
        path: path.to_owned(),
        mode: octal_mode(mode),
        owner_uid: stat.uid,
        owner_gid: stat.gid,
        has_read_bit: mode & 0o444 != 0,
        has_write_bit: mode & 0o222 != 0,
    }
}

/// The entries of the nodes about which something is known.
pub open spec fn known_nodes(probes: Seq<NodeProbe>) -> Seq<PermissionFields>
    decreases probes.len(),
{
    if probes.len() == 0 {
        Seq::empty()
    } else {
        let rest = known_nodes(probes.drop_last());
        match probes.last().stat {
            Ok(stat) => rest.push(permission_of(probes.last().path@, stat)),
            Err(_) => rest,
        }
    }
}

/// The notes about the other nodes.
pub open spec fn unknown_nodes(probes: Seq<NodeProbe>) -> Seq<Seq<char>>
    decreases probes.len(),
{
    if probes.len() == 0 {
        Seq::empty()
    } else {
        let rest = unknown_nodes(probes.drop_last());
        match probes.last().stat {
            Ok(_) => rest,
            Err(error) => rest.push(
                "无法读取 "@ + probes.last().path@ + " 的元数据："@ + error@,
            ),
        }
    }
}

/// The notes of a look at the device directory.
pub open spec fn environment_notes(listing: Result<Seq<NodeProbe>, Seq<char>>) -> Seq<Seq<char>> {
    let (found, notes) = match listing {
        Ok(probes) => (known_nodes(probes).len() > 0, unknown_nodes(probes)),
        Err(error) => (false, seq!["无法枚举 /dev："@ + error]),
    };
    let notes = if found {
        notes
    } else {
        notes.push("未发现 /dev/video*；请检查 USB 连接和 V4L2 驱动。"@)
    };
    notes.push(
        "权限结果仅检查设备节点元数据和读写权限位，不调用 open/ioctl，不验证设备可采集性。"@,
    ).push(
        "若当前用户仍无法访问，请检查其是否属于设备节点所属组（通常为 video），并重新登录。"@,
    )
}

/// The probed nodes, or the text of the error.
pub open spec fn listing_view(listing: Result<Vec<NodeProbe>, String>) -> Result<
    Seq<NodeProbe>,
    Seq<char>,
> {
    match listing {
        Ok(probes) => Ok(probes@),
        Err(error) => Err(error@),
    }
}

/// The report about a system on which cameras cannot be captured at all.
pub fn unsupported_report(os: String) -> (r: EnvironmentCheck)
    ensures
        r.os == os,
        !r.supported,
        r.video_devices@.len() == 0,
        texts(r.notes@) == seq!["当前 backend 仅支持 Linux。"@],
{
    let note: String = "当前 backend 仅支持 Linux。".to_owned();
    let notes: Vec<String> = vec![note];
    assert(texts(notes@) =~= seq!["当前 backend 仅支持 Linux。"@]);
    EnvironmentCheck { os, supported: false, video_devices: Vec::new(), notes }
}

fn push_note(notes: &mut Vec<String>, note: &str)
    ensures
        texts(final(notes)@) == texts(old(notes)@).push(note@),
{
    notes.push(note.to_owned());
    assert(texts(notes@) =~= texts(old(notes)@).push(note@));
}

fn unreadable_note(path: &str, error: &str) -> (r: String)
    ensures
        r@ == "无法读取 "@ + path@ + " 的元数据："@ + error@,
{
    let mut out: String = "无法读取 ".to_owned();
    out.append(path);
    out.append(" 的元数据：");
    out.append(error);
    out
}

/// The report about a system with these device nodes, or whose device directory
/// could not be read.
pub fn environment_report(os: String, listing: Result<Vec<NodeProbe>, String>) -> (r:
    EnvironmentCheck)
    ensures
        r.os == os,
        r.supported,
        permissions(r.video_devices@) == (match listing {
            Ok(probes) => known_nodes(probes@),
            Err(_) => Seq::empty(),
        }),
        texts(r.notes@) == environment_notes(listing_view(listing)),
{
    let mut video_devices: Vec<VideoDevicePermission> = Vec::new();
    let mut notes: Vec<String> = Vec::new();
    assert(permissions(video_devices@) =~= Seq::empty());
    assert(texts(notes@) =~= Seq::empty());
    match &listing {
        Ok(probes) => {
            let mut i: usize = 0;
            assert(probes@.take(0) =~= Seq::empty());
            while i < probes.len()
                invariant
                    i <= probes@.len(),
                    permissions(video_devices@) == known_nodes(probes@.take(i as int)),
                    texts(notes@) == unknown_nodes(probes@.take(i as int)),
                decreases probes@.len() - i,
            {
                proof {
                    assert(probes@.take(i + 1).drop_last() =~= probes@.take(i as int));
                    assert(probes@.take(i + 1).last() == probes@[i as int]);
                }
                match &probes[i].stat {
                    Ok(stat) => {
                        let ghost before: Seq<VideoDevicePermission> = video_devices@;
                        let entry: VideoDevicePermission = device_permission(
                            probes[i].path.as_str(),
                            *stat,
                        );
                        video_devices.push(entry);
                        assert(permissions(video_devices@) =~= permissions(before).push(entry@));
                    },
                    Err(error) => {
                        let note: String = unreadable_note(probes[i].path.as_str(), error.as_str());
                        push_note(&mut notes, note.as_str());
                    },
                }
                i = i + 1;
            }
            assert(probes@.take(i as int) =~= probes@);
        },
        Err(error) => {
            let mut note: String = "无法枚举 /dev：".to_owned();
            note.append(error.as_str());
            push_note(&mut notes, note.as_str());
            assert(texts(notes@) =~= seq!["无法枚举 /dev："@ + error@]);
        },
    }
    proof {
        assert(permissions(video_devices@).len() == video_devices@.len());
    }
    if video_devices.len() == 0 {
        push_note(&mut notes, "未发现 /dev/video*；请检查 USB 连接和 V4L2 驱动。");
    }
    push_note(
        &mut notes,
        "权限结果仅检查设备节点元数据和读写权限位，不调用 open/ioctl，不验证设备可采集性。",
    );
    push_note(
        &mut notes,
        "若当前用户仍无法访问，请检查其是否属于设备节点所属组（通常为 video），并重新登录。",
    );
    EnvironmentCheck { os, supported: true, video_devices, notes }
}

/// A truth value as text.
pub open spec fn bool_text(b: bool) -> Seq<char> {
    if b {
        "true"@
    } else {
        "false"@
    }
}

fn bool_word(b: bool) -> (r: &'static str)
    ensures
        r@ == bool_text(b),
{
    if b {
        "true"
    } else {
        "false"
    }
}

/// The line about the system.
pub fn system_line(check: &EnvironmentCheck) -> (r: String)
    ensures
        r@ == "OS: "@ + check.os@ + " ("@ + (if check.supported {
            "supported"@
        } else {
            "unsupported"@
        }) + ")"@,
{
    let mut out: String = "OS: ".to_owned();
    out.append(check.os.as_str());
    out.append(" (");
    if check.supported {
        out.append("supported");
    } else {
        out.append("unsupported");
    }
    out.append(")");
    out
}

/// The line about a device node.
pub open spec fn permission_text(d: PermissionFields) -> Seq<char> {
    d.path + " mode="@ + d.mode + " uid="@ + decimal(d.owner_uid as nat) + " gid="@ + decimal(
        d.owner_gid as nat,
    ) + " read_bit="@ + bool_text(d.has_read_bit) + " write_bit="@ + bool_text(d.has_write_bit)
}

/// The line about a device node.
pub fn permission_line(device: &VideoDevicePermission) -> (r: String)
    ensures
        r@ == permission_text(device@),
{
    let mut out: String = device.path.clone();
    out.append(" mode=");
    out.append(device.mode.as_str());
    out.append(" uid=");
    push_decimal(&mut out, device.owner_uid as u128);
    out.append(" gid=");
    push_decimal(&mut out, device.owner_gid as u128);
    out.append(" read_bit=");
    out.append(bool_word(device.has_read_bit));
    out.append(" write_bit=");
    out.append(bool_word(device.has_write_bit));
    out
}

/// The line about a note.
pub fn note_line(note: &str) -> (r: String)
    ensures
        r@ == "NOTE: "@ + note@,
{
    let mut out: String = "NOTE: ".to_owned();
    out.append(note);
    out
}

/// Every probed node is accounted for, by its entry or by a note.
pub proof fn law_every_node_is_accounted_for(probes: Seq<NodeProbe>)
    ensures
        known_nodes(probes).len() + unknown_nodes(probes).len() == probes.len(),
    decreases probes.len(),
{
    if probes.len() > 0 {
        law_every_node_is_accounted_for(probes.drop_last());
    }
}

/// Of the mode of a node, only the permission bits matter.
pub proof fn law_only_permission_bits_matter(path: Seq<char>, stat: NodeStat, other: NodeStat)
    requires
        stat.mode & 0o777 == other.mode & 0o777,
        stat.uid == other.uid,
        stat.gid == other.gid,
    ensures
        permission_of(path, stat) == permission_of(path, other),
{
}

/// The entry of a node names its path and owner, and its permission bits as three
/// octal digits. It may be read, or written, if the owner, the group or the
/// others may.
pub proof fn law_permission_bits(path: Seq<char>, stat: NodeStat)
    ensures
        ({
            let entry = permission_of(path, stat);
            let mode = stat.mode;
            &&& entry.path == path && entry.owner_uid == stat.uid && entry.owner_gid == stat.gid
            &&& entry.has_read_bit <==> mode / 0o400 % 2 == 1 || mode / 0o40 % 2 == 1 || mode / 4
                % 2 == 1
            &&& entry.has_write_bit <==> mode / 0o200 % 2 == 1 || mode / 0o20 % 2 == 1 || mode / 2
                % 2 == 1
            &&& entry.mode.len() == 3
            &&& 64 * digit_number(entry.mode[0]) + 8 * digit_number(entry.mode[1]) + digit_number(
                entry.mode[2],
            ) == mode % 0o1000
        }),
{
    let mode = stat.mode;
    assert(mode & 0o777 == mode % 0o1000) by (bit_vector);
    assert((mode & 0o777) & 0o444 != 0 <==> mode / 0o400 % 2 == 1 || mode / 0o40 % 2 == 1 || mode
        / 4 % 2 == 1) by (bit_vector);
    assert((mode & 0o777) & 0o222 != 0 <==> mode / 0o200 % 2 == 1 || mode / 0o20 % 2 == 1 || mode
        / 2 % 2 == 1) by (bit_vector);
    law_octal_notation((mode & 0o777) as nat);
}

/// What is said of a node does not depend on the others: entries and notes of
/// two groups of nodes are those of the first and those of the second behind
/// them. A node that could be asked has an entry, any other a note with the
/// reason.
pub proof fn law_nodes_are_reported_one_by_one(
    first: Seq<NodeProbe>,
    second: Seq<NodeProbe>,
    probe: NodeProbe,
)
    ensures
        known_nodes(first + second) == known_nodes(first) + known_nodes(second),
        unknown_nodes(first + second) == unknown_nodes(first) + unknown_nodes(second),
        match probe.stat {
            Ok(stat) => {
                &&& known_nodes(seq![probe]) == seq![permission_of(probe.path@, stat)]
                &&& unknown_nodes(seq![probe]).len() == 0
            },
            Err(error) => {
                &&& known_nodes(seq![probe]).len() == 0
                &&& unknown_nodes(seq![probe]) == seq![
                    "无法读取 "@ + probe.path@ + " 的元数据："@ + error@,
                ]
            },
        },
    decreases second.len(),
{
    reveal_with_fuel(known_nodes, 2);
    reveal_with_fuel(unknown_nodes, 2);
    assert(seq![probe].drop_last() =~= Seq::empty());
    match probe.stat {
        Ok(stat) => {
            assert(known_nodes(seq![probe]) =~= seq![permission_of(probe.path@, stat)]);
        },
        Err(error) => {
            assert(unknown_nodes(seq![probe]) =~= seq![
                "无法读取 "@ + probe.path@ + " 的元数据："@ + error@,
            ]);
        },
    }
    if second.len() == 0 {
        assert(first + second =~= first);
        assert(known_nodes(first) + known_nodes(second) =~= known_nodes(first));
        assert(unknown_nodes(first) + unknown_nodes(second) =~= unknown_nodes(first));
    } else {
        law_nodes_are_reported_one_by_one(first, second.drop_last(), probe);
        assert((first + second).drop_last() =~= first + second.drop_last());
        assert((first + second).last() == second.last());
        assert(known_nodes(first + second) =~= known_nodes(first) + known_nodes(second));
        assert(unknown_nodes(first + second) =~= unknown_nodes(first) + unknown_nodes(second));
    }
}

/// The notes are those about nodes, or about the directory, that could not be
/// read; then, if no node is known, one that says so; then the two about what
/// was not checked.
pub proof fn law_notes(listing: Result<Seq<NodeProbe>, Seq<char>>)
    ensures
        ({
            let notes = environment_notes(listing);
            let n = notes.len() as int;
            let about = match listing {
                Ok(probes) => unknown_nodes(probes),
                Err(error) => seq!["无法枚举 /dev："@ + error],
            };
            let none_known = match listing {
                Ok(probes) => known_nodes(probes).len() == 0,
                Err(_) => true,
            };
            &&& n == about.len() + (if none_known {
                3int
            } else {
                2int
            })
            &&& notes.take(about.len() as int) == about
            &&& none_known ==> notes[n - 3]
                == "未发现 /dev/video*；请检查 USB 连接和 V4L2 驱动。"@
            &&& notes[n - 2]
                == "权限结果仅检查设备节点元数据和读写权限位，不调用 open/ioctl，不验证设备可采集性。"@
            &&& notes[n - 1]
                == "若当前用户仍无法访问，请检查其是否属于设备节点所属组（通常为 video），并重新登录。"@
        }),
{
    let about = match listing {
        Ok(probes) => unknown_nodes(probes),
        Err(error) => seq!["无法枚举 /dev："@ + error],
    };
    assert(environment_notes(listing).take(about.len() as int) =~= about);
}

/// The nodes asked about are the entries of the device directory that are named
/// like video nodes, each by its path; whether one is does not depend on the
/// others.
pub proof fn law_video_nodes_are_found(first: Seq<String>, second: Seq<String>, name: String)
    ensures
        video_paths(first + second) == video_paths(first) + video_paths(second),
        (exists|number: Seq<char>| name@ == #[trigger] ("video"@ + number)) ==> video_paths(
            seq![name],
        ) == seq!["/dev/"@ + name@],
        !(exists|number: Seq<char>| name@ == #[trigger] ("video"@ + number)) ==> video_paths(
            seq![name],
        ).len() == 0,
    decreases second.len(),
{
    reveal_with_fuel(video_paths, 2);
    law_beginnings_and_ends(name@, "video"@);
    assert(seq![name].drop_last() =~= Seq::empty());
    if has_prefix(name@, "video"@) {
        assert(video_paths(seq![name]) =~= seq!["/dev/"@ + name@]);
    }
    if second.len() == 0 {
        assert(first + second =~= first);
        assert(video_paths(first) + video_paths(second) =~= video_paths(first));
    } else {
        law_video_nodes_are_found(first, second.drop_last(), name);
        assert((first + second).drop_last() =~= first + second.drop_last());
        assert((first + second).last() == second.last());
        assert(video_paths(first + second) =~= video_paths(first) + video_paths(second));
    }
}

/// The report about a supported system has an entry for each node that is known
/// and the notes; that about another has one note only. Both name the system.
pub proof fn law_reports_about_systems(
    os: String,
    listing: Result<Vec<NodeProbe>, String>,
    r: EnvironmentCheck,
    unsupported: EnvironmentCheck,
)
    requires
        call_ensures(environment_report, (os, listing), r),
        call_ensures(unsupported_report, (os,), unsupported),
    ensures
        r.os == os && r.supported,
        listing matches Ok(probes) ==> permissions(r.video_devices@) == known_nodes(probes@),
        listing is Err ==> r.video_devices@.len() == 0,
        texts(r.notes@) == environment_notes(listing_view(listing)),
        unsupported.os == os && !unsupported.supported,
        unsupported.video_devices@.len() == 0,
        unsupported.notes@.len() == 1,
        unsupported.notes@[0]@ == "当前 backend 仅支持 Linux。"@,
{
    assert(permissions(r.video_devices@).len() == r.video_devices@.len());
    assert(texts(unsupported.notes@).len() == unsupported.notes@.len());
    assert(texts(unsupported.notes@)[0] == unsupported.notes@[0]@);
}

/// The lines of a report name what it says of the system, of a node and in a
/// note.
pub proof fn law_lines_of_a_report(
    check: &EnvironmentCheck,
    device: &VideoDevicePermission,
    note: &str,
    first: String,
    second: String,
    third: String,
)
    requires
        call_ensures(system_line, (check,), first),
        call_ensures(permission_line, (device,), second),
        call_ensures(note_line, (note,), third),
    ensures
        first@ == "OS: "@ + check.os@ + " ("@ + (if check.supported {
            "supported"@
        } else {
            "unsupported"@
        }) + ")"@,
        second@ == device.path@ + " mode="@ + device.mode@ + " uid="@ + decimal(
            device.owner_uid as nat,
        ) + " gid="@ + decimal(device.owner_gid as nat) + " read_bit="@ + (if device.has_read_bit {
            "true"@
        } else {
            "false"@
        }) + " write_bit="@ + (if device.has_write_bit {
            "true"@
        } else {
            "false"@
        }),
        third@ == "NOTE: "@ + note@,
{
}

} // verus!
