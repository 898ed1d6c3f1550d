use coolcooler::driver::LiquidctlDriver;
use coolcooler::liquidctl::{build_liquidctl_args, device_registry};
use coolcooler::types::Rotation;

#[test]
fn registry_has_entries() {
    assert!(
        !device_registry().is_empty(),
        "device registry should not be empty"
    );
}

#[test]
fn registry_entries_have_valid_fields() {
    for def in device_registry() {
        assert!(!def.name.is_empty(), "device name must not be empty");
        assert!(def.vendor_id != 0, "vendor_id must not be zero");
        assert!(def.product_id != 0, "product_id must not be zero");
        assert!(def.resolution.width > 0, "resolution width must be > 0");
        assert!(def.resolution.height > 0, "resolution height must be > 0");
        assert!(
            !def.set_screen_args.is_empty(),
            "set_screen_args must not be empty"
        );
        // Every command template must contain {path} in exactly one arg
        let path_count = def
            .set_screen_args
            .iter()
            .filter(|a| a.contains("{path}"))
            .count();
        assert_eq!(
            path_count, 1,
            "{}: set_screen_args must contain exactly one {{path}} placeholder",
            def.name
        );
    }
}

#[test]
fn registry_has_no_duplicate_vid_pid() {
    let registry = device_registry();
    for (i, a) in registry.iter().enumerate() {
        for (j, b) in registry.iter().enumerate() {
            if i != j {
                assert!(
                    !(a.vendor_id == b.vendor_id && a.product_id == b.product_id),
                    "duplicate VID:PID {:#06x}:{:#06x} for '{}' and '{}'",
                    a.vendor_id,
                    a.product_id,
                    a.name,
                    b.name
                );
            }
        }
    }
}

#[test]
fn build_args_nzxt_kraken() {
    let def = &device_registry()[0]; // NZXT Kraken Z
    let args = build_liquidctl_args(def, "/tmp/frame.png");
    assert_eq!(
        args,
        vec!["set", "lcd", "screen", "static", "/tmp/frame.png"]
    );
}

#[test]
fn build_args_msi_mpg() {
    let registry = device_registry();
    let msi = registry
        .iter()
        .find(|d| d.name.contains("MSI"))
        .expect("MSI device should be in registry");
    let args = build_liquidctl_args(msi, "/home/user/image.png");
    assert_eq!(
        args,
        vec!["set", "lcd", "screen", "image", "1;0;/home/user/image.png"]
    );
}

#[test]
fn build_args_path_with_spaces() {
    let def = &device_registry()[0];
    let args = build_liquidctl_args(def, "/tmp/my cool image.png");
    assert_eq!(
        args,
        vec!["set", "lcd", "screen", "static", "/tmp/my cool image.png"]
    );
}

#[test]
fn driver_new_sets_correct_info() {
    let def = device_registry()[0].clone(); // NZXT Kraken Z
    let driver = LiquidctlDriver::new(def, String::from("/tmp/coolcooler_lcd_frame.png"));
    let info = driver.info();
    assert_eq!(info.name, "NZXT Kraken Z");
    assert_eq!(info.resolution.width, 320);
    assert_eq!(info.resolution.height, 320);
    assert_eq!(info.rotation, Rotation::Deg0);
}

/// Verify that all registry device command templates produce well-formed args.
#[test]
fn all_registry_commands_are_well_formed() {
    for def in device_registry() {
        let args = build_liquidctl_args(&def, "/tmp/test.png");

        // Must start with "set"
        assert_eq!(
            args[0], "set",
            "{}: command should start with 'set'",
            def.name
        );
        // Must contain "lcd" as channel
        assert_eq!(args[1], "lcd", "{}: channel should be 'lcd'", def.name);
        // Must contain "screen" as target
        assert_eq!(args[2], "screen", "{}: target should be 'screen'", def.name);
        // Path placeholder must have been substituted
        for arg in &args {
            assert!(
                !arg.contains("{path}"),
                "{}: unsubstituted {{path}} in args: {:?}",
                def.name,
                args
            );
        }
        // The actual image path must appear somewhere in the args
        let has_path = args.iter().any(|a| a.contains("/tmp/test.png"));
        assert!(
            has_path,
            "{}: image path must appear in args: {:?}",
            def.name, args
        );
    }
}

#[test]
fn registry_lists_the_six_devices_in_order() {
    let names: Vec<&str> = device_registry().iter().map(|d| d.name).collect();
    assert_eq!(
        names,
        vec![
            "NZXT Kraken Z",
            "NZXT Kraken 2023",
            "NZXT Kraken 2023 Elite",
            "NZXT Kraken 2024 Elite RGB",
            "NZXT Kraken 2024 Plus",
            "MSI MPG CoreLiquid K360",
        ]
    );
}

#[test]
fn driver_image_args_substitute_the_path() {
    let def = device_registry()[5].clone();
    let driver = LiquidctlDriver::new(def, String::from("/tmp/x.png"));
    assert_eq!(driver.temp_file_path(), "/tmp/x.png");
    assert_eq!(
        driver.image_args("/tmp/x.png"),
        vec!["set", "lcd", "screen", "image", "1;0;/tmp/x.png"]
    );
    assert_eq!(driver.info().target_fps, 1);
    assert_eq!(driver.info().keepalive_interval_secs, 3600);
}

#[test]
fn path_placeholder_is_replaced_everywhere() {
    let def = device_registry()[0].clone();
    let args = build_liquidctl_args(&def, "{path}{path}");
    assert_eq!(args[4], "{path}{path}");
}
