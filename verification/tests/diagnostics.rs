use facecam::clock::{name_with_stamp, stamped_name};
use facecam::diagnostics::{
    bundle_dir, collect_config_files, collect_kernel_module_info, collect_module_params,
    collect_system_info, config_paths, create_bundle, export_bundle, list_v4l2_devices,
    ModuleFiles, ModuleParam, SystemFiles,
};

fn text(s: &str) -> Option<String> {
    Some(s.to_string())
}

fn system_files() -> SystemFiles {
    SystemFiles {
        hostname: text("box\n"),
        version: text("Linux 6.17\n"),
        os_release: text("NAME=x\nPRETTY_NAME=\"Ubuntu 24.04\"\nVERSION_ID=\"24.04\"\nVERSION_ID=2\n"),
        uptime_secs: 99,
    }
}

fn module_files(modules: &str) -> ModuleFiles {
    ModuleFiles {
        modules: text(modules),
        uvcvideo_version: text("1.1.1\n"),
        v4l2loopback_version: None,
        v4l2loopback_params: Some(vec![
            ModuleParam { name: "video_nr".to_string(), value: text("10\n") },
            ModuleParam { name: "secret".to_string(), value: None },
            ModuleParam { name: "devices".to_string(), value: text(" 1 ") },
        ]),
    }
}

#[test]
fn system_information_comes_from_files() {
    let info = collect_system_info(&system_files());
    assert_eq!(info.hostname, "box");
    assert_eq!(info.kernel_version, "Linux 6.17");
    assert_eq!(info.os_release, "Ubuntu 24.04");
    assert_eq!(info.ubuntu_version, "24.04");
    assert_eq!(info.uptime_secs, 99);
    let none = collect_system_info(&SystemFiles {
        hostname: None,
        version: None,
        os_release: None,
        uptime_secs: 0,
    });
    assert_eq!((none.hostname.as_str(), none.os_release.as_str(), none.ubuntu_version.as_str()), ("", "", ""));
}

#[test]
fn modules_are_found_by_whole_names() {
    let info = collect_kernel_module_info(&module_files("v4l2loopback 53248 0\nuvcvideo 1 0\n"));
    assert!(info.uvcvideo_loaded && info.v4l2loopback_loaded);
    assert_eq!(info.uvcvideo_version.as_deref(), Some("1.1.1"));
    assert_eq!(info.v4l2loopback_version, None);
    assert_eq!(info.v4l2loopback_params.as_deref(), Some("devices=1\nvideo_nr=10"));
    let info = collect_kernel_module_info(&module_files("uvcvideo2 1\nxuvcvideo 1\n"));
    assert!(!info.uvcvideo_loaded && !info.v4l2loopback_loaded);
    assert_eq!(info.v4l2loopback_params, None);
    assert_eq!(collect_module_params(&vec![]), "");
}

#[test]
fn video_nodes_are_listed_in_order() {
    let names: Vec<String> = ["video10", "null", "video2", "video0"].iter().map(|s| s.to_string()).collect();
    assert_eq!(list_v4l2_devices(&names), vec!["/dev/video0", "/dev/video10", "/dev/video2"]);
}

#[test]
fn config_files_are_kept_where_they_can_be_read() {
    assert_eq!(config_paths(&text("/home/u"))[3], "/home/u/.config/facecam/daemon.toml");
    assert_eq!(config_paths(&None)[3], ".config/facecam/daemon.toml");
    assert_eq!(config_paths(&None)[0], "/etc/modprobe.d/v4l2loopback.conf");
    let kept = collect_config_files(&vec![
        ("a".to_string(), text("A")),
        ("b".to_string(), None),
        ("c".to_string(), text("")),
    ]);
    let seen: Vec<_> = kept.iter().map(|f| (f.path.as_str(), f.content.as_str())).collect();
    assert_eq!(seen, vec![("a", "A"), ("c", "")]);
}

#[test]
fn bundles_are_named_by_the_utc_time() {
    assert_eq!(bundle_dir(&None), "/tmp/.local/share/facecam/diagnostics");
    assert_eq!(
        export_bundle(&text("/home/u"), 1_431_648_000).unwrap(),
        "/home/u/.local/share/facecam/diagnostics/facecam-diag-20150515-000000.json"
    );
    assert_eq!(stamped_name("x-", 0, ".y").unwrap(), "x-19700101-000000.y");
    assert_eq!(stamped_name("x-", 253_402_300_799, "").unwrap(), "x-99991231-235959");
    assert_eq!(stamped_name("x-", i64::MAX, ".y"), None);
    assert_eq!(name_with_stamp("a", "b", "c"), "abc");
}

#[test]
fn bundles_hold_what_was_collected() {
    let bundle = create_bundle(
        7,
        None,
        None,
        vec![],
        vec![],
        collect_system_info(&system_files()),
        vec!["/dev/video0".to_string()],
        collect_kernel_module_info(&module_files("")),
        vec![],
    );
    assert_eq!(bundle.generated_at, 7);
    assert_eq!(bundle.system.hostname, "box");
    assert_eq!(bundle.v4l2_devices, vec!["/dev/video0"]);
    assert!(bundle.usb_topology.is_none() && bundle.format_probes.is_empty());
}
