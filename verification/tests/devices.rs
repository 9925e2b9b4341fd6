use usb_camera::environment::{
    device_permission, environment_report, note_line, permission_line, system_line,
    unsupported_report, video_node_paths, NodeProbe, NodeStat,
};
use usb_camera::list_devices::{
    device_line, device_name, formats_are_rgb, is_non_rgb_sensor_format, is_supported_color_format,
    list_rgb_video_devices, lower_name_suggests_non_rgb, name_suggests_non_rgb_camera, rgb_device,
    DeviceCaps, DeviceProbe,
};
use usb_camera::negotiation::pixel_format_from_fourcc;

#[test]
fn rejects_depth_or_ir_formats_even_when_mjpeg_is_available() {
    let depth_node_formats = [*b"Y10 ", *b"GREY", *b"MJPG", *b"Y16 "];
    assert!(depth_node_formats.iter().any(is_non_rgb_sensor_format));
    assert!(depth_node_formats.iter().any(is_supported_color_format));
    assert!(!formats_are_rgb(&depth_node_formats.to_vec()));
}

#[test]
fn accepts_normal_rgb_format_sets() {
    let rgb_node_formats = [*b"YUYV", *b"MJPG"];
    assert!(!rgb_node_formats.iter().any(is_non_rgb_sensor_format));
    assert!(rgb_node_formats.iter().any(is_supported_color_format));
    assert!(formats_are_rgb(&rgb_node_formats.to_vec()));
}

#[test]
fn all_format_codes_are_classified() {
    for code in [
        b"GREY", b"Y800", b"Y8  ", b"Y10 ", b"Y12 ", b"Y14 ", b"Y16 ", b"Z16 ", b"INVZ", b"Z16C",
        b"D16 ",
    ] {
        assert!(is_non_rgb_sensor_format(code));
        assert!(!is_supported_color_format(code));
    }
    for code in [b"MJPG", b"YUYV", b"YUY2", b"RGB3", b"BGR3"] {
        assert!(is_supported_color_format(code));
        assert!(!is_non_rgb_sensor_format(code));
        assert!(pixel_format_from_fourcc(*code).is_ok());
    }
    for code in [b"NV12", b"H264", b"mjpg"] {
        assert!(!is_supported_color_format(code));
        assert!(!is_non_rgb_sensor_format(code));
    }
    assert!(!formats_are_rgb(&vec![*b"NV12"]));
    assert!(!formats_are_rgb(&vec![]));
    assert!(formats_are_rgb(&vec![*b"NV12", *b"MJPG"]));
}

#[test]
fn names_of_other_sensors_are_recognised() {
    for name in [
        "INFRARED Cam",
        "Infra-Red",
        "Cam IR Module",
        "Cam IR",
        "Frame METADATA",
        "Point Cloud",
        "Depth Camera",
        "Mono Camera",
    ] {
        assert!(name_suggests_non_rgb_camera(name), "{name}");
    }
    for name in [
        "USB Camera",
        "IRIS Camera",
        "RGB Depth Camera",
        "Depth Colour Camera",
        "Mono Color Camera",
        "",
    ] {
        assert!(!name_suggests_non_rgb_camera(name), "{name}");
    }
    // "colour" excuses depth but not mono.
    assert!(lower_name_suggests_non_rgb("mono colour"));
    assert!(!lower_name_suggests_non_rgb("depth colour"));
}

fn probe(node: &str, card: &str, formats: &[&[u8; 4]]) -> DeviceProbe {
    DeviceProbe {
        node: node.to_string(),
        caps: Some(DeviceCaps {
            video_capture: true,
            card: card.to_string(),
        }),
        sysfs_name: None,
        formats: Some(formats.iter().map(|code| **code).collect()),
    }
}

#[test]
fn color_cameras_are_listed_by_path() {
    let mut no_capture = probe("video3", "Meta", &[b"MJPG"]);
    no_capture.caps = Some(DeviceCaps {
        video_capture: false,
        card: "Meta".to_string(),
    });
    let mut closed = probe("video4", "Closed", &[b"MJPG"]);
    closed.caps = None;
    let mut silent = probe("video5", "Silent", &[b"MJPG"]);
    silent.formats = None;
    let probes = vec![
        probe("video2", "  Second \n", &[b"YUYV"]),
        no_capture,
        closed,
        silent,
        probe("media0", "Media", &[b"MJPG"]),
        probe("video10", "Ten", &[b"MJPG"]),
        probe("video1", "Cam IR", &[b"MJPG"]),
        probe("video0", "First", &[b"MJPG", b"H264"]),
        probe("video6", "Depth rgb", &[b"Z16 ", b"MJPG"]),
    ];
    let expected = [
        ("First", "/dev/video0"),
        ("Ten", "/dev/video10"),
        ("Second", "/dev/video2"),
    ];
    let listed = list_rgb_video_devices(&probes);
    assert_eq!(listed.len(), expected.len());
    for (found, wanted) in listed.iter().zip(expected) {
        assert_eq!((found.0.as_str(), found.1.as_str()), wanted);
    }
    assert!(list_rgb_video_devices(&vec![]).is_empty());
    assert_eq!(device_line("First", "/dev/video0"), "First\t/dev/video0");
    assert!(rgb_device(&probe("vide0", "First", &[b"MJPG"])).is_none());
}

#[test]
fn nameless_cards_are_named_by_the_system() {
    assert_eq!(device_name(" Card ", &Some("other".to_string())), "Card");
    assert_eq!(device_name("  ", &Some(" other\n".to_string())), "other");
    assert_eq!(device_name("", &Some(" ".to_string())), "");
    assert_eq!(device_name("", &None), "Unknown Camera");
}

#[test]
fn video_nodes_are_found_and_ordered() {
    let names: Vec<String> = ["video2", "null", "video10", "video", "xvideo", "video0"]
        .iter()
        .map(|name| name.to_string())
        .collect();
    assert_eq!(
        video_node_paths(&names),
        ["/dev/video", "/dev/video0", "/dev/video10", "/dev/video2"]
    );
}

#[test]
fn permissions_are_read_from_the_mode() {
    let entry = device_permission(
        "/dev/video0",
        NodeStat {
            mode: 0o020660,
            uid: 0,
            gid: 44,
        },
    );
    assert_eq!(entry.mode, "660");
    assert!(entry.has_read_bit && entry.has_write_bit);
    assert_eq!(
        permission_line(&entry),
        "/dev/video0 mode=660 uid=0 gid=44 read_bit=true write_bit=true"
    );
    let entry = device_permission(
        "/dev/video1",
        NodeStat {
            mode: 0o020004,
            uid: 1000,
            gid: 7,
        },
    );
    assert_eq!(
        permission_line(&entry),
        "/dev/video1 mode=004 uid=1000 gid=7 read_bit=true write_bit=false"
    );
    let entry = device_permission("/dev/video1", NodeStat { mode: 0o7111, uid: 1, gid: 1 });
    assert_eq!(entry.mode, "111");
    assert!(!entry.has_read_bit && !entry.has_write_bit);
}

#[test]
fn reports_list_nodes_and_notes() {
    let fixed = [
        "权限结果仅检查设备节点元数据和读写权限位，不调用 open/ioctl，不验证设备可采集性。",
        "若当前用户仍无法访问，请检查其是否属于设备节点所属组（通常为 video），并重新登录。",
    ];
    let stat = NodeStat {
        mode: 0o660,
        uid: 0,
        gid: 44,
    };
    let report = environment_report(
        "linux".to_string(),
        Ok(vec![
            NodeProbe {
                path: "/dev/video0".to_string(),
                stat: Ok(stat),
            },
            NodeProbe {
                path: "/dev/video1".to_string(),
                stat: Err("gone".to_string()),
            },
        ]),
    );
    assert!(report.supported);
    assert_eq!(system_line(&report), "OS: linux (supported)");
    assert_eq!(report.video_devices.len(), 1);
    assert_eq!(report.video_devices[0].path, "/dev/video0");
    assert_eq!(
        report.notes,
        ["无法读取 /dev/video1 的元数据：gone", fixed[0], fixed[1]]
    );
    assert_eq!(
        note_line(&report.notes[0]),
        "NOTE: 无法读取 /dev/video1 的元数据：gone"
    );

    let none = "未发现 /dev/video*；请检查 USB 连接和 V4L2 驱动。";
    let report = environment_report("linux".to_string(), Ok(vec![]));
    assert_eq!(report.notes, [none, fixed[0], fixed[1]]);
    let report = environment_report("linux".to_string(), Err("denied".to_string()));
    assert_eq!(
        report.notes,
        ["无法枚举 /dev：denied", none, fixed[0], fixed[1]]
    );

    let report = unsupported_report("macos".to_string());
    assert_eq!(system_line(&report), "OS: macos (unsupported)");
    assert!(report.video_devices.is_empty());
    assert_eq!(report.notes, ["当前 backend 仅支持 Linux。"]);
}
