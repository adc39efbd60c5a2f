use handy::remote_desktop::{
    frontmost_remote_client, is_remote_desktop_bundle_id, remote_client_for_bundle_id, RemoteClient,
};

#[test]
fn matches_known_bundle_ids_case_insensitively() {
    assert!(is_remote_desktop_bundle_id("com.apple.ScreenSharing"));
    assert!(is_remote_desktop_bundle_id("COM.APPLE.SCREENSHARING"));
    assert!(is_remote_desktop_bundle_id("com.microsoft.rdc.macos"));
}

#[test]
fn matches_substring_heuristics() {
    assert!(is_remote_desktop_bundle_id("com.example.AnyDesk.helper"));
    assert!(is_remote_desktop_bundle_id("org.vendor.parsec-preview"));
}

#[test]
fn rejects_regular_apps() {
    assert!(!is_remote_desktop_bundle_id("com.apple.Safari"));
    assert!(!is_remote_desktop_bundle_id("com.microsoft.VSCode"));
    assert!(!is_remote_desktop_bundle_id(""));
}

#[test]
fn every_known_bundle_id_and_fragment_is_recognized() {
    for id in [
        "com.apple.RemoteDesktop",
        "com.microsoft.rdc.osx.beta",
        "com.realvnc.vncviewer",
        "com.teamviewer.TeamViewer",
        "com.anydesk.anydesk",
        "com.philandro.anydesk",
        "com.parsecgaming.parsec",
        "com.p5sys.jump.mac.viewer",
        "com.nulana.remotixmac",
        "com.splashtop.business-mac",
        "x.SPLASHTOP.y",
        "a.jump.mac.b",
        "RemoteDesktop",
        "vncviewer2",
    ] {
        assert!(is_remote_desktop_bundle_id(id), "{}", id);
    }
    // A known id with a suffix is neither an exact match nor holds a fragment.
    assert!(!is_remote_desktop_bundle_id("com.nulana.remotixmac2"));
    assert!(!is_remote_desktop_bundle_id("com.jumpmac.viewer"));
}

#[test]
fn matching_ignores_ascii_case() {
    for id in ["com.apple.Safari", "COM.TEAMVIEWER.teamviewer", "Org.Vendor.PARSEC"] {
        assert_eq!(
            is_remote_desktop_bundle_id(id),
            is_remote_desktop_bundle_id(&id.to_ascii_lowercase())
        );
    }
}

#[test]
fn screen_sharing_is_told_apart() {
    assert_eq!(
        remote_client_for_bundle_id(Some("com.apple.screensharing")),
        Some(RemoteClient::ScreenSharing)
    );
    assert_eq!(
        remote_client_for_bundle_id(Some("com.anydesk.anydesk")),
        Some(RemoteClient::Other)
    );
    assert_eq!(
        remote_client_for_bundle_id(Some("com.example.screensharing.agent")),
        Some(RemoteClient::Other)
    );
    assert_eq!(remote_client_for_bundle_id(Some("com.apple.Safari")), None);
    assert_eq!(remote_client_for_bundle_id(None), None);
    assert_eq!(frontmost_remote_client(), None);
}
