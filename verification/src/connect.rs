//! Dialogs for connecting to network shares and cloud drives.
//!
//! Both follow the same rule as the download dialog: whatever can be checked
//! before committing is checked here, so a bad address is a message under the
//! field rather than a failed mount several seconds later.

use crate::dialogs;
use crate::dialogs::Alert;
use crate::sidebar;
use crate::text;
use vstd::prelude::*;
use vstd::string::*;

verus! {

// ── the answer to a dialog ─────────────────────────────────────────────────

/// The answer to a dialog with a button to accept and one to cancel. The first
/// one given counts: each button also closes the dialog, and closing it counts
/// as cancelling.
#[derive(Clone, Copy, Debug, PartialEq, Eq, Structural)]
pub struct Answer {
    /// What was answered.
    pub given: Option<bool>,
}

impl Answer {
    /// Nothing has been answered.
    pub fn new() -> (r: Answer)
        ensures
            r.given is None,
    {
        Answer { given: None }
    }

    /// Takes an answer, unless there already is one.
    fn give(&mut self, answer: bool)
        ensures
            final(self).given == (if old(self).given is Some {
                old(self).given
            } else {
                Some(answer)
            }),
    {
        if self.given.is_none() {
            self.given = Some(answer);
        }
    }

    /// The button to accept was clicked, and the dialog closes.
    pub fn accept_clicked(&mut self)
        ensures
            final(self).given == (if old(self).given is Some {
                old(self).given
            } else {
                Some(true)
            }),
    {
        self.give(true);
        self.closed();
    }

    /// The button to cancel was clicked, and the dialog closes.
    pub fn cancel_clicked(&mut self)
        ensures
            final(self).given == (if old(self).given is Some {
                old(self).given
            } else {
                Some(false)
            }),
    {
        self.give(false);
        self.closed();
    }

    /// The dialog was closed.
    pub fn closed(&mut self)
        ensures
            final(self).given == (if old(self).given is Some {
                old(self).given
            } else {
                Some(false)
            }),
    {
        self.give(false);
    }
}

// ── servers ────────────────────────────────────────────────────────────────

/// A protocol that servers are reached by.
#[derive(Debug)]
pub struct SchemeInfo {
    /// Its name.
    pub label: String,
    /// Whether it can be used.
    pub available: bool,
    /// What to install for it.
    pub package_hint: String,
}

/// A server.
#[derive(Debug)]
pub struct Server {
    /// The place of its protocol in the list.
    pub scheme: usize,
    /// Its name.
    pub host: String,
    /// Its port.
    pub port: Option<u16>,
    /// The path on it.
    pub path: String,
    /// The user to connect as.
    pub user: Option<String>,
    /// The name in the sidebar.
    pub label: Option<String>,
}

/// The plain values of a server.
pub struct ServerView {
    /// The place of its protocol in the list.
    pub scheme: usize,
    /// Its name.
    pub host: Seq<char>,
    /// Its port.
    pub port: Option<u16>,
    /// The path on it.
    pub path: Seq<char>,
    /// The user to connect as.
    pub user: Option<Seq<char>>,
    /// The name in the sidebar.
    pub label: Option<Seq<char>>,
}

impl View for Server {
    type V = ServerView;

    open spec fn view(&self) -> ServerView {
        ServerView {
            scheme: self.scheme,
            host: self.host@,
            port: self.port,
            path: self.path@,
            user: sidebar::text_of(self.user),
            label: sidebar::text_of(self.label),
        }
    }
}

/// The name a protocol is listed under. One that cannot be used is still
/// listed, because hiding it leaves the user wondering why their NAS is
/// missing; the suffix says what to do about it.
pub open spec fn scheme_name(scheme: SchemeInfo) -> Seq<char> {
    if scheme.available {
        scheme.label@
    } else {
        scheme.label@ + " — not installed"@
    }
}

/// The address of a server as it is typed.
pub open spec fn address_text(server: ServerView) -> Seq<char> {
    let host = match server.port {
        Some(port) => server.host + (":"@ + text::decimal(port as nat)),
        None => server.host,
    };
    if server.path.len() > 0 {
        host.push('/') + server.path
    } else {
        host
    }
}

/// The dialog that asks for a server.
#[derive(Debug)]
pub struct ServerForm {
    /// The heading.
    pub title: &'static str,
    /// The names of the protocols.
    pub names: Vec<String>,
    /// The protocol that is selected at first.
    pub selected: usize,
    /// The address at first.
    pub address: String,
    /// The user at first.
    pub user: String,
    /// The name in the sidebar at first.
    pub label: String,
    /// The server that has been entered, where it is one.
    pub parsed: Option<Server>,
    /// What is known of it.
    pub status: String,
    /// Whether that is an error.
    pub error: bool,
    /// Whether the dialog can be accepted.
    pub accept_enabled: bool,
}

/// The names of some protocols.
pub open spec fn scheme_names(schemes: Seq<SchemeInfo>) -> Seq<Seq<char>> {
    schemes.map_values(|scheme: SchemeInfo| scheme_name(scheme))
}

/// An optional text, or the empty one.
pub open spec fn or_empty(s: Option<Seq<char>>) -> Seq<char> {
    match s {
        Some(s) => s,
        None => ""@,
    }
}

/// The dialog as it opens, before anything has been checked.
///
/// `initial` pre-fills the fields, which is what makes "Edit" on a saved
/// connection work without a second dialog.
pub fn ask_server(schemes: &[SchemeInfo], initial: Option<&Server>) -> (r: ServerForm)
    ensures
        r.valid(),
        text::views(r.names@) == scheme_names(schemes@),
        match initial {
            Some(server) => {
                &&& r.title@ == "Edit connection"@
                &&& r.selected == (if server.scheme < schemes@.len() {
                    server.scheme
                } else {
                    0
                })
                &&& r.address@ == address_text(server@)
                &&& r.user@ == or_empty(server@.user)
                &&& r.label@ == or_empty(server@.label)
            },
            None => {
                &&& r.title@ == "Connect to server"@
                &&& r.selected == 0
                &&& r.address@ == ""@
                &&& r.user@ == ""@
                &&& r.label@ == ""@
            },
        },
        r.parsed is None,
        r.status@ == ""@,
        !r.error,
{
    let mut names: Vec<String> = Vec::new();
    let mut i: usize = 0;
    assert(text::views(names@) =~= scheme_names(schemes@.take(0)));
    while i < schemes.len()
        invariant
            i <= schemes@.len(),
            text::views(names@) == scheme_names(schemes@.take(i as int)),
        decreases schemes@.len() - i,
    {
        let ghost was = text::views(names@);
        let mut name = text::copied(schemes[i].label.as_str());
        if !schemes[i].available {
            name.append(" — not installed");
        }
        names.push(name);
        assert(text::views(names@) =~= was.push(scheme_name(schemes@[i as int])));
        assert(scheme_names(schemes@.take(i as int + 1)) =~= scheme_names(
            schemes@.take(i as int),
        ).push(scheme_name(schemes@[i as int])));
        i = i + 1;
    }
    assert(schemes@.take(schemes@.len() as int) =~= schemes@);
    let mut form = ServerForm {
        title: "Connect to server",
        names,
        selected: 0,
        address: text::copied(""),
        user: text::copied(""),
        label: text::copied(""),
        parsed: None,
        status: text::copied(""),
        error: false,
        accept_enabled: false,
    };
    match initial {
        Some(server) => {
            form.title = "Edit connection";
            if server.scheme < schemes.len() {
                form.selected = server.scheme;
            }
            let mut address = text::copied(server.host.as_str());
            match server.port {
                Some(port) => {
                    let mut suffix = text::copied(":");
                    suffix.append(text::decimal_of(port as u64).as_str());
                    address.append(suffix.as_str());
                },
                None => {},
            }
            if text::chars_of(server.path.as_str()).len() > 0 {
                address.push('/');
                address.append(server.path.as_str());
            }
            form.address = address;
            form.user = text_or_empty(&server.user);
            form.label = text_or_empty(&server.label);
        },
        None => {},
    }
    form
}

/// An optional text, or the empty one.
fn text_or_empty(s: &Option<String>) -> (r: String)
    ensures
        r@ == or_empty(sidebar::text_of(*s)),
{
    match s {
        Some(s) => text::copied(s.as_str()),
        None => text::copied(""),
    }
}

/// A server with what was typed into the dedicated fields, which win over
/// anything embedded in the address, because that is where the user last
/// looked.
pub open spec fn with_fields(server: ServerView, user: Seq<char>, label: Seq<char>) -> ServerView {
    ServerView {
        user: if text::trimmed(user).len() > 0 {
            Some(text::trimmed(user))
        } else {
            server.user
        },
        label: if text::trimmed(label).len() > 0 {
            Some(text::trimmed(label))
        } else {
            server.label
        },
        ..server
    }
}

/// A server with what was typed into the dedicated fields.
fn fill_fields(server: Server, user: &str, label: &str) -> (r: Server)
    ensures
        r@ == with_fields(server@, user@, label@),
{
    let mut filled = server;
    if dialogs::is_filled(user) {
        filled.user = Some(text::trim(user));
    }
    if dialogs::is_filled(label) {
        filled.label = Some(text::trim(label));
    }
    filled
}

/// The place of the protocol that counts.
pub open spec fn protocol(schemes: Seq<SchemeInfo>, selected: usize, smb: usize) -> usize {
    if selected < schemes.len() {
        selected
    } else {
        smb
    }
}

/// What is said of a protocol that cannot be used.
pub open spec fn missing_backend_text(scheme: SchemeInfo) -> Seq<char> {
    scheme.label@ + " needs a gvfs backend that is not installed.\nInstall "@
        + scheme.package_hint@ + "."@
}

impl ServerForm {
    /// The dialog can be accepted exactly while a server has been entered.
    pub open spec fn valid(&self) -> bool {
        self.accept_enabled == (self.parsed is Some)
    }

    /// Whether the form shows that the protocol cannot be used.
    pub open spec fn refuses(&self, scheme: SchemeInfo) -> bool {
        &&& self.parsed is None
        &&& self.error
        &&& self.status@ == missing_backend_text(scheme)
    }

    /// Whether the form shows the outcome of reading an address.
    pub open spec fn shows_parse(
        &self,
        parsed: Result<ServerView, Seq<char>>,
        uri: Seq<char>,
        address: Seq<char>,
        user: Seq<char>,
        label: Seq<char>,
    ) -> bool {
        match parsed {
            Ok(server) => {
                &&& self.parsed matches Some(entered) && entered@ == with_fields(
                    server,
                    user,
                    label,
                )
                &&& !self.error
                &&& self.status@ == "Will connect to "@ + uri
            },
            Err(message) => {
                &&& self.parsed is None
                &&& if text::trimmed(address).len() == 0 {
                    !self.error && self.status@ == "Enter the server's address"@
                } else {
                    self.error && self.status@ == message
                }
            },
        }
    }

    /// Checks again after anything that feeds the address has changed. `parse`
    /// reads an address with a protocol, and `uri` spells a server out. Where no
    /// protocol is selected, the one at `smb` counts.
    pub fn revalidate<
        P: Fn(&str, usize) -> Result<Server, String>,
        U: Fn(&Server) -> String,
    >(
        &mut self,
        schemes: &[SchemeInfo],
        selected: usize,
        smb: usize,
        address: &str,
        user: &str,
        label: &str,
        parse: P,
        uri: U,
    )
        requires
            smb < schemes@.len(),
            call_requires(parse, (address, protocol(schemes@, selected, smb))),
            forall|server: &Server| call_requires(uri, (server,)),
        ensures
            final(self).valid(),
            final(self).title == old(self).title,
            final(self).names == old(self).names,
            final(self).selected == old(self).selected,
            final(self).address == old(self).address,
            final(self).user == old(self).user,
            final(self).label == old(self).label,
            !schemes@[protocol(schemes@, selected, smb) as int].available ==> final(self).refuses(
                schemes@[protocol(schemes@, selected, smb) as int],
            ),
            schemes@[protocol(schemes@, selected, smb) as int].available ==> exists|
                parsed: Result<Server, String>,
                spelled: String,
            |
                {
                    &&& call_ensures(
                        parse,
                        (address, protocol(schemes@, selected, smb)),
                        parsed,
                    )
                    &&& parsed is Ok ==> call_ensures(
                        uri,
                        (&final(self).parsed->0,),
                        spelled,
                    )
                    &&& #[trigger] final(self).shows_parse(
                        parse_view(parsed),
                        spelled@,
                        address@,
                        user@,
                        label@,
                    )
                },
    {
        let at: usize = if selected < schemes.len() {
            selected
        } else {
            smb
        };
        let scheme = &schemes[at];
        if !scheme.available {
            let mut status = text::copied(scheme.label.as_str());
            status.append(" needs a gvfs backend that is not installed.\nInstall ");
            status.append(scheme.package_hint.as_str());
            status.append(".");
            self.status = status;
            self.parsed = None;
            self.accept_enabled = false;
            self.error = true;
            return;
        }
        let result = parse(address, at);
        let ghost outcome = result;
        match result {
            Ok(server) => {
                let filled = fill_fields(server, user, label);
                let spelled = uri(&filled);
                let mut status = text::copied("Will connect to ");
                status.append(spelled.as_str());
                self.status = status;
                self.error = false;
                self.accept_enabled = true;
                self.parsed = Some(filled);
                assert(self.shows_parse(
                    parse_view(outcome),
                    spelled@,
                    address@,
                    user@,
                    label@,
                ));
            },
            Err(message) => {
                self.parsed = None;
                self.accept_enabled = false;
                // An empty field is not a mistake the user has made yet.
                if !dialogs::is_filled(address) {
                    self.error = false;
                    self.status = text::copied("Enter the server's address");
                } else {
                    self.error = true;
                    self.status = text::copied(message.as_str());
                }
                let ghost spelled = message;
                assert(self.shows_parse(
                    parse_view(outcome),
                    spelled@,
                    address@,
                    user@,
                    label@,
                ));
            },
        }
    }

    /// The server that was entered, where the dialog was accepted.
    pub fn finish(self, answer: Answer) -> (r: Option<Server>)
        ensures
            r == (if answer.given == Some(true) {
                self.parsed
            } else {
                None
            }),
    {
        match answer.given {
            Some(true) => self.parsed,
            _ => None,
        }
    }
}

/// The plain values of what reading an address gave.
pub open spec fn parse_view(parsed: Result<Server, String>) -> Result<ServerView, Seq<char>> {
    match parsed {
        Ok(server) => Ok(server@),
        Err(message) => Err(message@),
    }
}

// ── cloud drives ───────────────────────────────────────────────────────────

/// A provider of cloud drives, as far as its sign-in differs.
#[derive(Clone, Copy, Debug, PartialEq, Eq, Structural)]
pub enum Provider {
    /// Google Drive.
    GoogleDrive,
    /// Proton Drive, which may ask for a second factor.
    ProtonDrive,
    /// Nextcloud, which is at an address of its own.
    Nextcloud,
    /// Another WebDAV server.
    Other,
    /// A further provider, by its place in the list.
    Further(usize),
}

/// A provider that is offered.
#[derive(Debug)]
pub struct ProviderInfo {
    /// Which one.
    pub provider: Provider,
    /// Its name.
    pub label: String,
    /// Whether it signs in through a browser.
    pub uses_oauth: bool,
}

/// What is needed to add an account.
#[derive(Debug)]
pub struct NewAccount {
    /// The provider.
    pub provider: Provider,
    /// The name of the drive.
    pub name: String,
    /// The user.
    pub username: String,
    /// The password.
    pub password: String,
    /// The second factor.
    pub totp: String,
    /// The address.
    pub url: String,
}

/// Which fields the dialog shows, and what it says.
#[derive(Clone, Copy, Debug)]
pub struct CloudFields {
    /// Whether the user is asked for.
    pub username: bool,
    /// Whether the password is.
    pub password: bool,
    /// Whether the second factor is.
    pub totp: bool,
    /// Whether the address is.
    pub url: bool,
    /// The text of the button to accept.
    pub accept_label: &'static str,
    /// What is said about the password.
    pub status: &'static str,
}

/// What is said where cloud drives cannot be added; nothing where they can.
pub fn ask_cloud(available: bool, install_hint: &str) -> (r: Option<Alert>)
    ensures
        r is Some <==> !available,
        r matches Some(alert) ==> alert@ == (dialogs::AlertView {
            heading: "rclone is not installed"@,
            body: Some(install_hint@),
            responses: seq![("ok"@, "OK"@, dialogs::Appearance::Plain)],
            default_response: "ok"@,
            close_response: "ok"@,
        }),
{
    if available {
        None
    } else {
        Some(dialogs::show_error("rclone is not installed", install_hint))
    }
}

/// Whether the dialog shows the fields of a provider.
pub open spec fn fields_of(fields: CloudFields, provider: Provider, uses_oauth: bool) -> bool {
    &&& fields.username == !uses_oauth
    &&& fields.password == !uses_oauth
    &&& fields.totp == (provider == Provider::ProtonDrive)
    &&& fields.url == (provider == Provider::Nextcloud || provider == Provider::Other)
    &&& fields.accept_label@ == (if uses_oauth {
        "Sign in with browser"@
    } else {
        "Connect"@
    })
    &&& fields.status@ == (if uses_oauth {
        "A browser window will open so you can sign in. Fileman never sees the password."@
    } else {
        "The password is stored by rclone, not by Fileman."@
    })
}

/// The fields for the selected provider, or for Google Drive where none is:
/// only those it actually uses are shown; an OAuth provider showing an inert
/// password box invites the user to type their password into nothing.
pub fn cloud_fields(providers: &[ProviderInfo], selected: usize, google_uses_oauth: bool) -> (r:
    CloudFields)
    ensures
        selected < providers@.len() ==> fields_of(
            r,
            providers@[selected as int].provider,
            providers@[selected as int].uses_oauth,
        ),
        selected >= providers@.len() ==> fields_of(r, Provider::GoogleDrive, google_uses_oauth),
{
    let mut provider = Provider::GoogleDrive;
    let mut uses_oauth = google_uses_oauth;
    if selected < providers.len() {
        provider = providers[selected].provider;
        uses_oauth = providers[selected].uses_oauth;
    }
    let totp = match provider {
        Provider::ProtonDrive => true,
        _ => false,
    };
    let url = match provider {
        Provider::Nextcloud => true,
        Provider::Other => true,
        _ => false,
    };
    CloudFields {
        username: !uses_oauth,
        password: !uses_oauth,
        totp,
        url,
        accept_label: if uses_oauth {
            "Sign in with browser"
        } else {
            "Connect"
        },
        status: if uses_oauth {
            "A browser window will open so you can sign in. Fileman never sees the password."
        } else {
            "The password is stored by rclone, not by Fileman."
        },
    }
}

/// The account to add, where the dialog was accepted with a provider selected.
/// What was typed is taken as it is.
pub fn cloud_account(
    answer: Answer,
    providers: &[ProviderInfo],
    selected: usize,
    name: String,
    username: String,
    password: String,
    totp: String,
    url: String,
) -> (r: Option<NewAccount>)
    ensures
        r is Some <==> answer.given == Some(true) && selected < providers@.len(),
        r matches Some(account) ==> account == (NewAccount {
            provider: providers@[selected as int].provider,
            name,
            username,
            password,
            totp,
            url,
        }),
{
    match answer.given {
        Some(true) => if selected < providers.len() {
            Some(
                NewAccount {
                    provider: providers[selected].provider,
                    name,
                    username,
                    password,
                    totp,
                    url,
                },
            )
        } else {
            None
        },
        _ => None,
    }
}

/// The address of a server is its host, its port where it has one, and its path
/// behind a slash where it has one.
pub proof fn law_addresses_hold_host_port_and_path(server: ServerView)
    ensures
        server.port is None && server.path.len() == 0 ==> address_text(server) == server.host,
        server.port is Some && server.path.len() == 0 ==> address_text(server) == server.host + (":"@
            + text::decimal(server.port->0 as nat)),
        server.port is None && server.path.len() > 0 ==> address_text(server) == server.host
            + seq!['/'] + server.path,
        server.port is Some && server.path.len() > 0 ==> address_text(server) == server.host + (":"@
            + text::decimal(server.port->0 as nat)) + seq!['/'] + server.path,
{
    if server.path.len() > 0 {
        match server.port {
            Some(port) => {
                let host = server.host + (":"@ + text::decimal(port as nat));
                assert(host.push('/') + server.path =~= host + seq!['/'] + server.path);
            },
            None => {
                assert(server.host.push('/') + server.path =~= server.host + seq!['/']
                    + server.path);
            },
        }
    }
}

/// What is typed into the fields for the user and the name wins over what the
/// address holds; an empty field leaves that as it is, and nothing else changes.
pub proof fn law_fields_win_over_the_address(
    server: ServerView,
    user: Seq<char>,
    label: Seq<char>,
)
    ensures
        ({
            let filled = with_fields(server, user, label);
            &&& text::trimmed(user).len() > 0 ==> filled.user == Some(text::trimmed(user))
            &&& text::trimmed(user).len() == 0 ==> filled.user == server.user
            &&& text::trimmed(label).len() > 0 ==> filled.label == Some(text::trimmed(label))
            &&& text::trimmed(label).len() == 0 ==> filled.label == server.label
            &&& filled.scheme == server.scheme && filled.host == server.host
            &&& filled.port == server.port && filled.path == server.path
        }),
{
}

/// A protocol that cannot be used is listed all the same, with what is missing.
pub proof fn law_every_protocol_is_listed(schemes: Seq<SchemeInfo>, i: int)
    requires
        0 <= i < schemes.len(),
    ensures
        scheme_names(schemes).len() == schemes.len(),
        schemes[i].available ==> scheme_names(schemes)[i] == schemes[i].label@,
        !schemes[i].available ==> scheme_names(schemes)[i] == schemes[i].label@
            + " — not installed"@,
        missing_backend_text(schemes[i]) == schemes[i].label@
            + " needs a gvfs backend that is not installed.\nInstall "@
            + schemes[i].package_hint@ + "."@,
{
}

/// The protocol that counts is the selected one.
pub proof fn law_the_selected_protocol_counts(
    schemes: Seq<SchemeInfo>,
    selected: usize,
    smb: usize,
)
    ensures
        selected < schemes.len() ==> protocol(schemes, selected, smb) == selected,
        selected >= schemes.len() ==> protocol(schemes, selected, smb) == smb,
{
}

/// A form that shows a server can be accepted with it, and one that shows an
/// error cannot.
pub proof fn law_a_form_holds_what_it_shows(
    form: ServerForm,
    server: ServerView,
    uri: Seq<char>,
    address: Seq<char>,
    user: Seq<char>,
    label: Seq<char>,
    message: Seq<char>,
    scheme: SchemeInfo,
)
    requires
        form.valid(),
    ensures
        form.shows_parse(Ok(server), uri, address, user, label) ==> form.accept_enabled
            && form.parsed is Some && form.parsed->0@ == with_fields(server, user, label)
            && !form.error && form.status@ == "Will connect to "@ + uri,
        form.shows_parse(Err(message), uri, address, user, label) ==> !form.accept_enabled,
        form.shows_parse(Err(message), uri, address, user, label) && text::trimmed(address).len()
            > 0 ==> form.error && form.status@ == message,
        form.shows_parse(Err(message), uri, address, user, label) && text::trimmed(address).len()
            == 0 ==> !form.error && form.status@ == "Enter the server's address"@,
        form.refuses(scheme) ==> !form.accept_enabled && form.error,
{
}

/// Only the fields that a provider uses are shown: a user and a password unless
/// it signs in with the browser, a second factor for Proton, and an address for
/// servers of one's own.
pub proof fn law_providers_show_their_fields(
    fields: CloudFields,
    provider: Provider,
    uses_oauth: bool,
)
    requires
        fields_of(fields, provider, uses_oauth),
    ensures
        fields.username <==> !uses_oauth,
        fields.password <==> !uses_oauth,
        fields.totp <==> provider == Provider::ProtonDrive,
        fields.url <==> provider == Provider::Nextcloud || provider == Provider::Other,
        uses_oauth ==> fields.accept_label@ == "Sign in with browser"@,
        !uses_oauth ==> fields.accept_label@ == "Connect"@,
{
}

} // verus!
