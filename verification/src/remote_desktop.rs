//! Recognition of native remote-desktop / screen-sharing clients by the
//! bundle identifier of the frontmost application.
//!
//! When such a client is frontmost, keystrokes belong to the remote host, so
//! a transcription is typed as real key events instead of pasted.
use vstd::prelude::*;
use crate::text::{
    lemma_ascii_lower_idempotent, ascii_lower_seq, ascii_lowercase, chars_of, contains_chars, contains_seq, eq_ignore_ascii_case,
    eq_ignore_ascii_case_spec,
};

verus! {

/// Which remote-desktop client is frontmost.
#[derive(Debug, Clone, Copy, PartialEq, Eq, Structural)]
pub enum RemoteClient {
    /// Apple's built-in Screen Sharing (`com.apple.ScreenSharing`).
    ScreenSharing,
    /// Any other recognized remote-desktop client (VNC, RDP, AnyDesk, ...).
    Other,
}

pub const SCREEN_SHARING_BUNDLE_ID: &'static str = "com.apple.ScreenSharing";

/// Known bundle identifiers of remote-desktop clients, matched exactly up to
/// ASCII case.
pub open spec fn known_bundle_ids() -> Seq<Seq<char>> {
    seq![
        "com.apple.ScreenSharing"@,
        "com.apple.RemoteDesktop"@,
        "com.microsoft.rdc.macos"@,
        "com.microsoft.rdc.osx.beta"@,
        "com.realvnc.vncviewer"@,
        "com.teamviewer.TeamViewer"@,
        "com.anydesk.anydesk"@,
        "com.philandro.anydesk"@,
        "com.parsecgaming.parsec"@,
        "com.p5sys.jump.mac.viewer"@,
        "com.nulana.remotixmac"@,
        "com.splashtop.business-mac"@,
    ]
}

/// Fragments that mark a remote-desktop client whose exact id varies, looked
/// for in the ASCII-lowered id.
pub open spec fn bundle_id_fragments() -> Seq<Seq<char>> {
    seq![
        "screensharing"@,
        "remotedesktop"@,
        "vncviewer"@,
        "teamviewer"@,
        "anydesk"@,
        "parsec"@,
        "jump.mac"@,
        "splashtop"@,
    ]
}

pub open spec fn is_remote_desktop_bundle_id_spec(id: Seq<char>) -> bool {
    ||| exists|k: int|
        0 <= k < known_bundle_ids().len() && eq_ignore_ascii_case_spec(
            #[trigger] known_bundle_ids()[k],
            id,
        )
    ||| exists|k: int|
        0 <= k < bundle_id_fragments().len() && contains_seq(
            ascii_lower_seq(id),
            #[trigger] bundle_id_fragments()[k],
        )
}

pub open spec fn remote_client_spec(id: Option<Seq<char>>) -> Option<RemoteClient> {
    match id {
        None => None,
        Some(id) => if eq_ignore_ascii_case_spec(id, SCREEN_SHARING_BUNDLE_ID@) {
            Some(RemoteClient::ScreenSharing)
        } else if is_remote_desktop_bundle_id_spec(id) {
            Some(RemoteClient::Other)
        } else {
            None
        },
    }
}

fn known_bundle_id_list() -> (r: Vec<&'static str>)
    ensures
        r@.map_values(|s: &str| s@) == known_bundle_ids(),
{
    let r = vec![
        "com.apple.ScreenSharing",
        "com.apple.RemoteDesktop",
        "com.microsoft.rdc.macos",
        "com.microsoft.rdc.osx.beta",
        "com.realvnc.vncviewer",
        "com.teamviewer.TeamViewer",
        "com.anydesk.anydesk",
        "com.philandro.anydesk",
        "com.parsecgaming.parsec",
        "com.p5sys.jump.mac.viewer",
        "com.nulana.remotixmac",
        "com.splashtop.business-mac",
    ];
    assert(r@.map_values(|s: &str| s@) == known_bundle_ids());
    r
}

fn bundle_id_fragment_list() -> (r: Vec<&'static str>)
    ensures
        r@.map_values(|s: &str| s@) == bundle_id_fragments(),
{
    let r = vec![
        "screensharing",
        "remotedesktop",
        "vncviewer",
        "teamviewer",
        "anydesk",
        "parsec",
        "jump.mac",
        "splashtop",
    ];
    assert(r@.map_values(|s: &str| s@) == bundle_id_fragments());
    r
}

/// Whether `id` is the bundle id of a remote-desktop client: one of the known
/// ids up to ASCII case, or an id whose lower-cased form holds one of the
/// known fragments.
pub fn is_remote_desktop_bundle_id(id: &str) -> (r: bool)
    ensures
        r == is_remote_desktop_bundle_id_spec(id@),
{
    let idv = chars_of(id);
    let known = known_bundle_id_list();
    let ghost kv = known@.map_values(|s: &str| s@);
    let mut i: usize = 0;
    while i < known.len()
        invariant
            i <= known.len(),
            idv@ == id@,
            kv == known@.map_values(|s: &str| s@),
            kv == known_bundle_ids(),
            forall|k: int| 0 <= k < i ==> !eq_ignore_ascii_case_spec(#[trigger] kv[k], id@),
        decreases known.len() - i,
    {
        assert(kv[i as int] == known@[i as int]@);
        if eq_ignore_ascii_case(&chars_of(known[i]), &idv) {
            return true;
        }
        i = i + 1;
    }
    let lowered = ascii_lowercase(&idv);
    let frags = bundle_id_fragment_list();
    let ghost fv = frags@.map_values(|s: &str| s@);
    let mut j: usize = 0;
    while j < frags.len()
        invariant
            j <= frags.len(),
            lowered@ == ascii_lower_seq(id@),
            fv == frags@.map_values(|s: &str| s@),
            fv == bundle_id_fragments(),
            forall|k: int| 0 <= k < known_bundle_ids().len() ==> !eq_ignore_ascii_case_spec(
                #[trigger] known_bundle_ids()[k],
                id@,
            ),
            forall|k: int| 0 <= k < j ==> !contains_seq(ascii_lower_seq(id@), #[trigger] fv[k]),
        decreases frags.len() - j,
    {
        assert(fv[j as int] == frags@[j as int]@);
        if contains_chars(&lowered, &chars_of(frags[j])) {
            return true;
        }
        j = j + 1;
    }
    false
}

/// The remote-desktop client with bundle id `id`, if it is one. Screen
/// Sharing is told apart from the others.
pub fn remote_client_for_bundle_id(id: Option<&str>) -> (r: Option<RemoteClient>)
    ensures
        r == remote_client_spec(
            match id {
                Some(s) => Some(s@),
                None => None,
            },
        ),
{
    match id {
        None => None,
        Some(s) => {
            if eq_ignore_ascii_case(&chars_of(s), &chars_of(SCREEN_SHARING_BUNDLE_ID)) {
                Some(RemoteClient::ScreenSharing)
            } else if is_remote_desktop_bundle_id(s) {
                Some(RemoteClient::Other)
            } else {
                None
            }
        },
    }
}

/// Recognizing a bundle id ignores ASCII case: an id and its lower-cased
/// form are recognized alike.
pub proof fn law_bundle_id_match_ignores_ascii_case(id: Seq<char>)
    ensures
        is_remote_desktop_bundle_id_spec(id) == is_remote_desktop_bundle_id_spec(ascii_lower_seq(id)),
{
    lemma_ascii_lower_idempotent(id);
    let lid = ascii_lower_seq(id);
    assert forall|k: int| 0 <= k < known_bundle_ids().len() implies eq_ignore_ascii_case_spec(
        #[trigger] known_bundle_ids()[k],
        id,
    ) == eq_ignore_ascii_case_spec(known_bundle_ids()[k], lid) by {}
    assert forall|k: int| 0 <= k < bundle_id_fragments().len() implies contains_seq(
        ascii_lower_seq(id),
        #[trigger] bundle_id_fragments()[k],
    ) == contains_seq(ascii_lower_seq(lid), bundle_id_fragments()[k]) by {}
}

/// A client is reported for a bundle id exactly when the id is recognized
/// as a remote-desktop client.
pub proof fn law_client_reported_iff_recognized(id: Seq<char>)
    ensures
        remote_client_spec(Some(id)) is Some <==> is_remote_desktop_bundle_id_spec(id),
{
    if eq_ignore_ascii_case_spec(id, SCREEN_SHARING_BUNDLE_ID@) {
        assert(known_bundle_ids()[0] == SCREEN_SHARING_BUNDLE_ID@);
        assert(eq_ignore_ascii_case_spec(known_bundle_ids()[0], id));
    }
}

/// The frontmost remote-desktop client. This build has no way to read the
/// frontmost application, so no client is ever reported.
pub fn frontmost_remote_client() -> (r: Option<RemoteClient>)
    ensures
        r is None,
{
    None
}


/// Every id whose ASCII-lowered form contains one of the fragments
/// "screensharing", "remotedesktop", "vncviewer", "teamviewer", "anydesk",
/// "parsec", "jump.mac" or "splashtop" is a remote-desktop client.
pub proof fn law_fragment_ids_recognized(id: Seq<char>)
    ensures
        ({
            let l = ascii_lower_seq(id);
            ||| contains_seq(l, "screensharing"@)
            ||| contains_seq(l, "remotedesktop"@)
            ||| contains_seq(l, "vncviewer"@)
            ||| contains_seq(l, "teamviewer"@)
            ||| contains_seq(l, "anydesk"@)
            ||| contains_seq(l, "parsec"@)
            ||| contains_seq(l, "jump.mac"@)
            ||| contains_seq(l, "splashtop"@)
        }) ==> is_remote_desktop_bundle_id_spec(id) && remote_client_spec(Some(id)) is Some,
{
    let f = bundle_id_fragments();
    assert(f[0] == "screensharing"@);
    assert(f[1] == "remotedesktop"@);
    assert(f[2] == "vncviewer"@);
    assert(f[3] == "teamviewer"@);
    assert(f[4] == "anydesk"@);
    assert(f[5] == "parsec"@);
    assert(f[6] == "jump.mac"@);
    assert(f[7] == "splashtop"@);
    law_client_reported_iff_recognized(id);
}

/// Each of the known client ids, in any ASCII case, is a remote-desktop
/// client; Screen Sharing's is reported as Screen Sharing.
pub proof fn law_known_ids_recognized(id: Seq<char>)
    ensures
        ({
            ||| eq_ignore_ascii_case_spec(id, "com.apple.ScreenSharing"@)
            ||| eq_ignore_ascii_case_spec(id, "com.apple.RemoteDesktop"@)
            ||| eq_ignore_ascii_case_spec(id, "com.microsoft.rdc.macos"@)
            ||| eq_ignore_ascii_case_spec(id, "com.microsoft.rdc.osx.beta"@)
            ||| eq_ignore_ascii_case_spec(id, "com.realvnc.vncviewer"@)
            ||| eq_ignore_ascii_case_spec(id, "com.teamviewer.TeamViewer"@)
            ||| eq_ignore_ascii_case_spec(id, "com.anydesk.anydesk"@)
            ||| eq_ignore_ascii_case_spec(id, "com.philandro.anydesk"@)
            ||| eq_ignore_ascii_case_spec(id, "com.parsecgaming.parsec"@)
            ||| eq_ignore_ascii_case_spec(id, "com.p5sys.jump.mac.viewer"@)
            ||| eq_ignore_ascii_case_spec(id, "com.nulana.remotixmac"@)
            ||| eq_ignore_ascii_case_spec(id, "com.splashtop.business-mac"@)
        }) ==> is_remote_desktop_bundle_id_spec(id) && remote_client_spec(Some(id)) is Some,
        eq_ignore_ascii_case_spec(id, "com.apple.ScreenSharing"@) ==> remote_client_spec(Some(id))
            == Some(RemoteClient::ScreenSharing),
{
    let k = known_bundle_ids();
    assert(k[0] == "com.apple.ScreenSharing"@);
    assert(k[1] == "com.apple.RemoteDesktop"@);
    assert(k[2] == "com.microsoft.rdc.macos"@);
    assert(k[3] == "com.microsoft.rdc.osx.beta"@);
    assert(k[4] == "com.realvnc.vncviewer"@);
    assert(k[5] == "com.teamviewer.TeamViewer"@);
    assert(k[6] == "com.anydesk.anydesk"@);
    assert(k[7] == "com.philandro.anydesk"@);
    assert(k[8] == "com.parsecgaming.parsec"@);
    assert(k[9] == "com.p5sys.jump.mac.viewer"@);
    assert(k[10] == "com.nulana.remotixmac"@);
    assert(k[11] == "com.splashtop.business-mac"@);
    if eq_ignore_ascii_case_spec(id, "com.apple.ScreenSharing"@) {
        assert(eq_ignore_ascii_case_spec(k[0], id));
    }
    law_client_reported_iff_recognized(id);
}

} // verus!
