//! Which MCUs may be updated, and which of them need it.
use aldis::eligibility::{
    assess_mcu, classify_mcu, is_selected, revisions_match, CheckoutRevision, Eligibility,
    FirmwareKind, RevisionStatus, UnsupportedReason, UpdateSelection, KALICO_MINIMUM_VERSION,
    KLIPPER_MINIMUM_VERSION,
};
use aldis::moonraker::{Mcu, McuInventory, McuTransport};
use aldis::plan::{build_update_plan, KlipperLifecycle, UpdateStep};
use aldis::prepare::{find_mcu, prepare_build, PreparationError};
use aldis::workspace::{DirectoryFailure, RunWorkspace, WorkspaceError};

fn mcu(app: Option<&str>, version: Option<&str>, kconfig: &str) -> Mcu {
    Mcu {
        name: "mcu".to_owned(),
        app: app.map(str::to_owned),
        version: version.map(str::to_owned),
        mcu: "stm32f446xx".to_owned(),
        canbus_frequency_hz: None,
        transport: None,
        kconfig: kconfig.to_owned(),
    }
}

const CONFIG: &str = "CONFIG_X=y\n";

#[test]
fn the_minimum_versions_are_supported_and_older_ones_are_not() {
    for (app, minimum, older) in [
        ("Klipper", KLIPPER_MINIMUM_VERSION, "v0.13.0-752-gffffffff"),
        ("Klipper", KLIPPER_MINIMUM_VERSION, "v0.12.9-9999-g00000000"),
        ("kalico", KALICO_MINIMUM_VERSION, "v2026.09.00-2-g00000000"),
        ("kalico", KALICO_MINIMUM_VERSION, "v2026.08.99"),
    ] {
        assert_eq!(classify_mcu(&mcu(Some(app), Some(minimum), CONFIG)), Eligibility::Eligible);
        assert!(
            matches!(
                classify_mcu(&mcu(Some(app), Some(older), CONFIG)),
                Eligibility::Unsupported(UnsupportedReason::VersionTooOld { .. })
            ),
            "{older}"
        );
    }
    let reason = UnsupportedReason::VersionTooOld {
        firmware: FirmwareKind::Kalico,
        running: "v1".to_owned(),
        minimum: KALICO_MINIMUM_VERSION,
    };
    assert_eq!(
        reason.message(),
        "Kalico version too old (v1 < v2026.09.00-3-g6127720c4)"
    );
}

#[test]
fn a_version_that_cannot_be_read_goes_by_its_configuration() {
    for version in [Some("v1.2"), Some("0.13.0"), Some("v0.13.x-1"), None] {
        assert_eq!(classify_mcu(&mcu(Some("klipper"), version, CONFIG)), Eligibility::Eligible);
        let bare = classify_mcu(&mcu(Some("klipper"), version, " \n"));
        assert_eq!(bare, Eligibility::Unsupported(UnsupportedReason::NoEmbeddedConfig));
    }
    assert_eq!(
        UnsupportedReason::NoEmbeddedConfig.message(),
        "no embedded configuration found"
    );
}

#[test]
fn firmware_of_others_is_left_alone() {
    let managed = |name: &str| Eligibility::ExternallyManaged(name.to_owned());
    assert_eq!(classify_mcu(&mcu(Some(" Prusa "), None, CONFIG)), managed("Prusa"));
    assert_eq!(classify_mcu(&mcu(Some(""), Some("Beacon 2.1.0"), "")), managed("Beacon"));
    assert_eq!(classify_mcu(&mcu(None, Some("v0.11.0-1-gabc"), CONFIG)), Eligibility::Eligible);
    assert_eq!(classify_mcu(&mcu(None, Some("V2"), CONFIG)), Eligibility::Eligible);
    assert_eq!(classify_mcu(&mcu(None, Some("version"), CONFIG)), managed("version"));
    assert_eq!(
        classify_mcu(&mcu(None, Some("  "), "")),
        Eligibility::Unsupported(UnsupportedReason::NoEmbeddedConfig)
    );
}

#[test]
fn revisions_match_over_abbreviations_but_not_over_local_changes() {
    assert!(revisions_match("v0.13.0-753-g8c29c0a", "v0.13.0-753-g8c29c0a8e"));
    assert!(revisions_match("v0.13.0-753-g8c29c0a8e", "v0.13.0-753-g8c29c0a"));
    assert!(!revisions_match("v0.13.0-753-g8c29c0a8e", "v0.13.0-754-g8c29c0a8e"));
    assert!(!revisions_match("v0.13.0-753-g8c29c0a8e-dirty", "v0.13.0-753-g8c29c0a8e"));
    assert!(revisions_match(
        "v0.13.0-1-gabc-dirty-20260102_030405-my-host",
        "v0.13.0-1-gabcdef-dirty"
    ));
    assert!(!revisions_match(
        "v0.13.0-1-gabc-dirty-2026010_2030405-host",
        "v0.13.0-1-gabc-dirty"
    ));
    assert!(!revisions_match(
        "v0.13.0-1-gabc-dirty-20260102_030405-",
        "v0.13.0-1-gabc-dirty"
    ));
}

#[test]
fn only_eligible_mcus_have_a_revision_status() {
    let known = CheckoutRevision::Known("v0.14.0-1-gabc".to_owned());
    let current = mcu(Some("Klipper"), Some("v0.14.0-1-gabcdef"), CONFIG);
    let outdated = mcu(Some("Klipper"), Some("v0.13.0-900-gabc"), CONFIG);
    let mute = mcu(Some("Klipper"), None, CONFIG);
    let foreign = mcu(Some("Other"), Some("v0.13.0-900-gabc"), CONFIG);
    let revision = |mcu: &Mcu, checkout: &CheckoutRevision| assess_mcu(mcu, checkout).revision;

    assert_eq!(revision(&current, &known), Some(RevisionStatus::Current));
    assert_eq!(revision(&outdated, &known), Some(RevisionStatus::UpdateRequired));
    assert_eq!(revision(&mute, &known), Some(RevisionStatus::Indeterminate));
    assert_eq!(
        revision(&outdated, &CheckoutRevision::Indeterminate),
        Some(RevisionStatus::Indeterminate)
    );
    assert_eq!(revision(&foreign, &known), None);

    let selects = |mcu: &Mcu, selection: UpdateSelection| is_selected(mcu, &known, &selection);
    assert!(selects(&outdated, UpdateSelection::Required));
    assert!(!selects(&current, UpdateSelection::Required));
    assert!(!selects(&mute, UpdateSelection::Required));
    assert!(selects(&current, UpdateSelection::All));
    assert!(selects(&current, UpdateSelection::Force("mcu".to_owned())));
    assert!(!selects(&current, UpdateSelection::Force("mcu tool".to_owned())));
    for selection in [
        UpdateSelection::Required,
        UpdateSelection::All,
        UpdateSelection::Force("mcu".to_owned()),
    ] {
        assert!(!selects(&foreign, selection));
    }
}

fn inventory() -> McuInventory {
    let mut tool = mcu(None, None, "CONFIG_TOOL=y\n");
    tool.name = "mcu tool".to_owned();
    tool.transport = Some(McuTransport::Can {
        interface: "can0".to_owned(),
        uuid: 7,
    });
    McuInventory {
        mcus: vec![mcu(None, None, CONFIG), tool],
    }
}

#[test]
fn prepares_exactly_the_discovered_target() {
    let prepared = prepare_build(
        &inventory(),
        "mcu tool",
        "/w/.config".to_owned(),
        "/w/klipper.bin".to_owned(),
        true,
    )
    .unwrap();
    assert_eq!(prepared.target_name, "mcu tool");
    assert_eq!(prepared.transport, inventory().mcus[1].transport);
    assert_eq!(prepared.request.kconfig, "CONFIG_TOOL=y\n");
    assert_eq!(prepared.request.config_path, "/w/.config");
    assert_eq!(prepared.request.artifact_path, "/w/klipper.bin");
    assert!(prepared.request.clean);

    let error = prepare_build(&inventory(), "a \"b\"", String::new(), String::new(), false)
        .unwrap_err();
    assert_eq!(error, PreparationError::TargetNotDiscovered("a \"b\"".to_owned()));
    assert_eq!(
        error.message(),
        "MCU target \"a \\\"b\\\"\" is not present in Moonraker inventory"
    );
    assert_eq!(find_mcu(&inventory().mcus, "mcu"), Some(0));
    assert_eq!(find_mcu(&inventory().mcus, "MCU"), None);
}

#[test]
fn plans_every_mcu_in_order_without_changing_anything() {
    let plan = build_update_plan(&inventory());
    assert_eq!(
        plan.klipper,
        KlipperLifecycle {
            runs_during_discovery: true,
            stops_before_first_build_or_flash: true,
            restarts_automatically: false
        }
    );
    assert_eq!(
        plan.targets.iter().map(|target| target.name.as_str()).collect::<Vec<_>>(),
        ["mcu", "mcu tool"]
    );
    assert_eq!(plan.targets[1].transport, inventory().mcus[1].transport);
    let labels: Vec<_> = plan.targets[0].steps.iter().map(|step| step.label()).collect();
    assert_eq!(
        labels,
        [
            "validate configuration",
            "confirm write",
            "build firmware",
            "enter bootloader",
            "flash firmware",
            "verify firmware",
            "complete bootloader"
        ]
    );
    assert_eq!(plan.targets[0].steps[1], UpdateStep::ConfirmWrite);
}

#[test]
fn targets_get_separate_directories_in_the_workspace() {
    let workspace = RunWorkspace::create("/runs/1".to_owned(), false).unwrap();
    assert_eq!(workspace.root(), "/runs/1");
    let directories = workspace.target_directories("mcu ä").unwrap();
    assert_eq!(directories.config_dir, "/runs/1/targets/6d637520c3a4");
    assert_eq!(directories.artifact_dir, "/runs/1/artifacts/6d637520c3a4");
    let paths = workspace.build_paths("mcu ä", Ok(())).unwrap();
    assert_eq!(paths.config_path, "/runs/1/targets/6d637520c3a4/.config");
    assert_eq!(paths.artifact_path, "/runs/1/artifacts/6d637520c3a4/klipper.bin");
    assert_ne!(paths, workspace.build_paths("mcu a", Ok(())).unwrap());

    let denied = || aldis::failure::IoFailure {
        message: "denied".to_owned(),
    };
    assert_eq!(
        workspace
            .build_paths("", Err(DirectoryFailure::Config(denied())))
            .unwrap_err(),
        WorkspaceError::EmptyTargetName
    );
    assert_eq!(
        workspace.target_directories("").unwrap_err().message(),
        "MCU target name must not be empty"
    );
    assert_eq!(
        workspace
            .build_paths("mcu", Err(DirectoryFailure::Config(denied())))
            .unwrap_err(),
        WorkspaceError::Io {
            action: "create the target configuration directory",
            source: denied(),
        }
    );
    assert_eq!(
        workspace
            .build_paths("mcu", Err(DirectoryFailure::Artifact(denied())))
            .unwrap_err(),
        WorkspaceError::Io {
            action: "create the artifact directory",
            source: denied(),
        }
    );
    let error = RunWorkspace::create("/runs/1".to_owned(), true).unwrap_err();
    assert_eq!(
        error.message(),
        "run workspace /runs/1 already exists; choose a new per-run directory"
    );
    assert_eq!(
        workspace.clone().after_creation(Ok(())),
        Ok(workspace.clone())
    );
    let error = workspace.after_creation(Err(denied())).unwrap_err();
    let mut messages = Vec::new();
    error.append_chain(&mut messages);
    assert_eq!(messages, ["could not create the run workspace", "denied"]);
}
