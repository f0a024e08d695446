//! Servers and cloud drives.

use fileman::connect::ask_cloud;
use fileman::connect::ask_server;
use fileman::connect::cloud_account;
use fileman::connect::cloud_fields;
use fileman::connect::Answer;
use fileman::connect::Provider;
use fileman::connect::ProviderInfo;
use fileman::connect::SchemeInfo;
use fileman::connect::Server;
use fileman::connect::ServerForm;

/// SFTP, which is there, and SMB, which is not.
fn schemes() -> Vec<SchemeInfo> {
    vec![
        SchemeInfo {
            label: "SFTP".to_string(),
            available: true,
            package_hint: "gvfs".to_string(),
        },
        SchemeInfo {
            label: "SMB".to_string(),
            available: false,
            package_hint: "gvfs-smb".to_string(),
        },
    ]
}

/// A server.
fn server() -> Server {
    Server {
        scheme: 0,
        host: "nas.local".to_string(),
        port: Some(2222),
        path: "media".to_string(),
        user: Some("ada".to_string()),
        label: None,
    }
}

/// Checks a form with an address, a user and a label.
fn check(form: &mut ServerForm, selected: usize, address: &str, user: &str, label: &str) {
    let parse = |text: &str, scheme: usize| -> Result<Server, String> {
        if text.trim().is_empty() || text.contains(' ') {
            return Err("Not an address".to_string());
        }
        Ok(Server {
            scheme,
            host: text.to_string(),
            port: None,
            path: String::new(),
            user: Some("embedded".to_string()),
            label: None,
        })
    };
    let uri = |server: &Server| -> String {
        format!("sftp://{}@{}", server.user.as_deref().unwrap_or(""), server.host)
    };
    form.revalidate(&schemes(), selected, 1, address, user, label, parse, uri);
}

#[test]
fn a_saved_connection_fills_the_fields() {
    let form = ask_server(&schemes(), Some(&server()));
    assert_eq!(form.title, "Edit connection");
    assert_eq!(form.names, ["SFTP", "SMB — not installed"]);
    assert_eq!(form.address, "nas.local:2222/media");
    assert_eq!(form.user, "ada");
    assert_eq!(form.label, "");
    let form = ask_server(&schemes(), None);
    assert_eq!(form.title, "Connect to server");
    assert_eq!(form.address, "");
    assert!(!form.accept_enabled);
}

#[test]
fn an_address_is_checked_as_it_is_typed() {
    let mut form = ask_server(&schemes(), None);
    check(&mut form, 0, "  ", "", "");
    assert_eq!(form.status, "Enter the server's address");
    assert!(!form.error && !form.accept_enabled);
    check(&mut form, 0, "no address", "", "");
    assert_eq!(form.status, "Not an address");
    assert!(form.error && !form.accept_enabled);
    check(&mut form, 0, "nas", " ada ", " Music ");
    assert_eq!(form.status, "Will connect to sftp://ada@nas");
    assert!(!form.error && form.accept_enabled);
    let entered = form.parsed.as_ref().unwrap();
    assert_eq!(entered.user.as_deref(), Some("ada"));
    assert_eq!(entered.label.as_deref(), Some("Music"));
}

#[test]
fn a_missing_backend_is_named() {
    let mut form = ask_server(&schemes(), None);
    check(&mut form, 0, "nas", "", "");
    assert!(form.accept_enabled);
    check(&mut form, 1, "nas", "", "");
    assert_eq!(
        form.status,
        "SMB needs a gvfs backend that is not installed.\nInstall gvfs-smb."
    );
    assert!(!form.accept_enabled && form.parsed.is_none());
    // Without a selection the one that was named counts.
    check(&mut form, 7, "nas", "", "");
    assert!(form.error);
}

#[test]
fn closing_counts_as_cancelling() {
    let mut answer = Answer::new();
    answer.closed();
    assert_eq!(answer.given, Some(false));
    let mut answer = Answer::new();
    answer.accept_clicked();
    answer.closed();
    answer.cancel_clicked();
    assert_eq!(answer.given, Some(true));
    let mut answer = Answer::new();
    answer.cancel_clicked();
    assert_eq!(answer.given, Some(false));
}

#[test]
fn only_an_accepted_server_is_connected() {
    let mut yes = Answer::new();
    yes.accept_clicked();
    let mut no = Answer::new();
    no.closed();
    let mut form = ask_server(&schemes(), None);
    check(&mut form, 0, "nas", "", "");
    assert_eq!(form.finish(yes).unwrap().user.as_deref(), Some("embedded"));
    let mut form = ask_server(&schemes(), None);
    check(&mut form, 0, "nas", "", "");
    assert!(form.finish(no).is_none());
    assert!(ask_server(&schemes(), Some(&server())).finish(yes).is_none());
}

/// Three providers.
fn providers() -> Vec<ProviderInfo> {
    [
        (Provider::GoogleDrive, "Google Drive", true),
        (Provider::ProtonDrive, "Proton Drive", false),
        (Provider::Nextcloud, "Nextcloud", false),
    ]
    .into_iter()
    .map(|(provider, label, uses_oauth)| ProviderInfo {
        provider,
        label: label.to_string(),
        uses_oauth,
    })
    .collect()
}

#[test]
fn a_provider_shows_the_fields_it_uses() {
    let google = cloud_fields(&providers(), 0, true);
    assert!(!google.username && !google.password && !google.totp && !google.url);
    assert_eq!(google.accept_label, "Sign in with browser");
    let proton = cloud_fields(&providers(), 1, true);
    assert!(proton.username && proton.password && proton.totp && !proton.url);
    assert_eq!(proton.accept_label, "Connect");
    let nextcloud = cloud_fields(&providers(), 2, true);
    assert!(nextcloud.url && !nextcloud.totp);
    assert!(!cloud_fields(&providers(), 9, true).username);
}

#[test]
fn an_account_needs_an_accepted_dialog() {
    let account = |answer: Answer, selected: usize| {
        cloud_account(
            answer,
            &providers(),
            selected,
            "Work".to_string(),
            "ada".to_string(),
            " secret ".to_string(),
            String::new(),
            String::new(),
        )
    };
    let mut yes = Answer::new();
    yes.accept_clicked();
    let added = account(yes, 1).unwrap();
    assert_eq!(added.provider, Provider::ProtonDrive);
    assert_eq!(added.password, " secret ");
    assert!(account(yes, 9).is_none());
    assert!(account(Answer::new(), 1).is_none());
    assert!(ask_cloud(true, "hint").is_none());
    assert_eq!(ask_cloud(false, "hint").unwrap().body.as_deref(), Some("hint"));
}
