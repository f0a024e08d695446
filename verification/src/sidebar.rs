//! The places sidebar: XDG folders, user favourites, trash, and drives.
//!
//! An unmounted Windows partition or a freshly plugged USB disk appears here
//! like any other drive — clicking it mounts it first and then navigates.

use crate::outside;
use crate::path;
use crate::path::FilePath;
use crate::text;
use vstd::prelude::*;
use vstd::string::*;

verus! {

// ── drives ─────────────────────────────────────────────────────────────────

/// The groups that drives are listed in.
#[derive(Clone, Copy, Debug, PartialEq, Eq, Structural)]
pub enum VolumeCategory {
    /// Drives that can be unplugged.
    Removable,
    /// Windows partitions.
    Windows,
    /// The other drives of this computer.
    Internal,
}

/// The heading of a group of drives.
pub open spec fn category_title(category: VolumeCategory) -> Seq<char> {
    match category {
        VolumeCategory::Removable => "Removable Devices"@,
        VolumeCategory::Windows => "Windows"@,
        VolumeCategory::Internal => "On This Computer"@,
    }
}

impl VolumeCategory {
    /// The heading of the group.
    pub fn section_title(&self) -> (r: &'static str)
        ensures
            r@ == category_title(*self),
    {
        match self {
            VolumeCategory::Removable => "Removable Devices",
            VolumeCategory::Windows => "Windows",
            VolumeCategory::Internal => "On This Computer",
        }
    }
}

/// A drive that can be mounted.
#[derive(Debug)]
pub struct Volume {
    /// Its name.
    pub label: String,
    /// Its size in words.
    pub size_label: String,
    /// Its icon.
    pub icon_name: String,
    /// Its group.
    pub category: VolumeCategory,
    /// Whether it is encrypted.
    pub is_encrypted: bool,
    /// Whether it is mounted read-only.
    pub read_only: bool,
    /// Its file system.
    pub fstype: String,
    /// Where it is mounted.
    pub mount_point: Option<FilePath>,
    /// The name of the drive it is on.
    pub drive_name: String,
    /// Its device file.
    pub device: FilePath,
    /// Its UUID.
    pub uuid: String,
    /// Whether its medium can be ejected.
    pub ejectable: bool,
    /// Whether its drive can be powered off.
    pub can_power_off: bool,
}

/// What a drive's row says of its size and state.
pub open spec fn volume_subtitle(v: Volume) -> Seq<char> {
    if v.is_encrypted {
        v.size_label@ + "  encrypted"@
    } else if v.read_only {
        v.size_label@ + "  "@ + v.fstype@ + "  read-only"@
    } else {
        v.size_label@ + "  "@ + v.fstype@
    }
}

/// A drive's tooltip: its name and device, and the UUID that makes it
/// identifiable across replugs.
pub open spec fn volume_tooltip(v: Volume) -> Seq<char> {
    let device = outside::lossy(v.device@);
    let first = if v.drive_name@.len() == 0 {
        device
    } else {
        v.drive_name@ + " — "@ + device
    };
    if v.uuid@.len() == 0 {
        first
    } else {
        first + "\nUUID: "@ + v.uuid@
    }
}

/// The items of a drive's menu, with their actions.
pub open spec fn volume_menu(v: Volume) -> Seq<(Seq<char>, Seq<char>)> {
    if v.mount_point is Some {
        let items = seq![("Open"@, "volume.open"@), ("Unmount"@, "volume.unmount"@)];
        if v.ejectable || v.can_power_off {
            items.push(("Eject — safe to unplug"@, "volume.eject"@))
        } else {
            items
        }
    } else {
        let items = seq![("Mount"@, "volume.mount"@)];
        if is_ntfs(v.fstype@) {
            items.push(("Mount Read-Only"@, "volume.mount-read-only"@))
        } else {
            items
        }
    }
}

/// Whether a file system is NTFS, under the name of any of its drivers.
pub open spec fn is_ntfs(fstype: Seq<char>) -> bool {
    "ntfs"@.is_prefix_of(fstype)
}

impl Volume {
    /// Whether the drive is mounted.
    pub fn is_mounted(&self) -> (r: bool)
        ensures
            r == (self.mount_point is Some),
    {
        self.mount_point.is_some()
    }

    /// What the drive's row says of its size and state. Read-only is worth
    /// calling out: it is the state an NTFS volume lands in after the recovery
    /// dialog's safe option.
    pub fn subtitle(&self) -> (r: String)
        ensures
            r@ == volume_subtitle(*self),
    {
        let mut out = text::copied(self.size_label.as_str());
        if self.is_encrypted {
            out.append("  encrypted");
        } else if self.read_only {
            out.append("  ");
            out.append(self.fstype.as_str());
            out.append("  read-only");
        } else {
            out.append("  ");
            out.append(self.fstype.as_str());
        }
        out
    }

    /// The drive's tooltip.
    pub fn tooltip(&self) -> (r: String)
        ensures
            r@ == volume_tooltip(*self),
    {
        let mut out: String;
        if text::chars_of(self.drive_name.as_str()).len() == 0 {
            out = self.device.display();
        } else {
            out = text::copied(self.drive_name.as_str());
            out.append(" — ");
            out.append(self.device.display().as_str());
        }
        if text::chars_of(self.uuid.as_str()).len() > 0 {
            out.append("\nUUID: ");
            out.append(self.uuid.as_str());
        }
        out
    }

    /// The items of the drive's menu: mount, unmount, eject, and — for NTFS —
    /// the read-only escape hatch. Ejecting powers the drive down, and it will
    /// not reappear until it is unplugged and plugged back in: the item is named
    /// for what it does.
    pub fn menu(&self) -> (r: Vec<(&'static str, &'static str)>)
        ensures
            menu_texts(r@) == volume_menu(*self),
    {
        let mut items: Vec<(&'static str, &'static str)> = Vec::new();
        if self.is_mounted() {
            items.push(("Open", "volume.open"));
            items.push(("Unmount", "volume.unmount"));
            if self.ejectable || self.can_power_off {
                items.push(("Eject — safe to unplug", "volume.eject"));
            }
        } else {
            items.push(("Mount", "volume.mount"));
            if text::starts_with(self.fstype.as_str(), "ntfs") {
                items.push(("Mount Read-Only", "volume.mount-read-only"));
            }
        }
        assert(menu_texts(items@) =~= volume_menu(*self));
        items
    }

    /// How full the drive is: the bytes used, what its row says instead of its
    /// size, and the tooltip of its capacity ring. The sidebar is narrow, so
    /// the label carries the number that prompts action and the ring carries
    /// the ratio.
    pub fn usage(&self, free: u64, total: u64) -> (r: (u64, String, String))
        ensures
            r.0 == used_bytes(free, total),
            r.1@ == outside::size_text(free) + " free"@,
            r.2@ == self.label@ + ": "@ + outside::size_text(used_bytes(free, total)) + " of "@
                + outside::size_text(total) + " used"@,
    {
        let used: u64 = if total >= free {
            total - free
        } else {
            0
        };
        let mut detail = outside::format_size(free);
        detail.append(" free");
        let mut tooltip = text::copied(self.label.as_str());
        tooltip.append(": ");
        tooltip.append(outside::format_size(used).as_str());
        tooltip.append(" of ");
        tooltip.append(outside::format_size(total).as_str());
        tooltip.append(" used");
        (used, detail, tooltip)
    }
}

/// The bytes that are not free.
pub open spec fn used_bytes(free: u64, total: u64) -> u64 {
    if total >= free {
        (total - free) as u64
    } else {
        0
    }
}

/// The texts of a menu.
pub open spec fn menu_texts(items: Seq<(&'static str, &'static str)>) -> Seq<
    (Seq<char>, Seq<char>),
> {
    items.map_values(|item: (&'static str, &'static str)| (item.0@, item.1@))
}

// ── rows ───────────────────────────────────────────────────────────────────

/// What a row points at, so a click can be dispatched without a lookup table.
#[derive(Debug)]
pub enum Target {
    /// A folder.
    Path(FilePath),
    /// The trash.
    Trash,
    /// The recent files.
    Recent,
    /// Mounted network shares, which the desktop bridges into the filesystem.
    Network,
    /// The drive at that place in the list of drives.
    Volume(usize),
}

/// What a target stands for.
pub enum TargetView {
    /// A folder.
    Path(Seq<u8>),
    /// The trash.
    Trash,
    /// The recent files.
    Recent,
    /// Network shares.
    Network,
    /// A drive.
    Volume(int),
}

impl View for Target {
    type V = TargetView;

    open spec fn view(&self) -> TargetView {
        match *self {
            Target::Path(p) => TargetView::Path(p@),
            Target::Trash => TargetView::Trash,
            Target::Recent => TargetView::Recent,
            Target::Network => TargetView::Network,
            Target::Volume(i) => TargetView::Volume(i as int),
        }
    }
}

/// A row of the sidebar.
#[derive(Debug)]
pub struct SidebarRow {
    /// Its text.
    pub label: String,
    /// Its icon.
    pub icon: String,
    /// A count beside the text.
    pub badge: Option<String>,
    /// A second line, which only drives have.
    pub detail: Option<String>,
    /// Its tooltip.
    pub tooltip: Option<String>,
    /// Whether it can be clicked.
    pub sensitive: bool,
    /// Whether it has a button that unmounts.
    pub unmount_button: bool,
    /// The items of its context menu, with their actions.
    pub menu: Vec<(&'static str, &'static str)>,
    /// The folder that files dropped onto it go to.
    pub drop: Option<FilePath>,
    /// What it points at.
    pub target: Target,
}

/// The plain values of a row.
pub struct RowView {
    /// Its text.
    pub label: Seq<char>,
    /// Its icon.
    pub icon: Seq<char>,
    /// A count beside the text.
    pub badge: Option<Seq<char>>,
    /// A second line.
    pub detail: Option<Seq<char>>,
    /// Its tooltip.
    pub tooltip: Option<Seq<char>>,
    /// Whether it can be clicked.
    pub sensitive: bool,
    /// Whether it has a button that unmounts.
    pub unmount_button: bool,
    /// The items of its context menu.
    pub menu: Seq<(Seq<char>, Seq<char>)>,
    /// The folder that files dropped onto it go to.
    pub drop: Option<Seq<u8>>,
    /// What it points at.
    pub target: TargetView,
}

/// The text of an optional string.
pub open spec fn text_of(s: Option<String>) -> Option<Seq<char>> {
    match s {
        Some(s) => Some(s@),
        None => None,
    }
}

impl View for SidebarRow {
    type V = RowView;

    open spec fn view(&self) -> RowView {
        RowView {
            label: self.label@,
            icon: self.icon@,
            badge: text_of(self.badge),
            detail: text_of(self.detail),
            tooltip: text_of(self.tooltip),
            sensitive: self.sensitive,
            unmount_button: self.unmount_button,
            menu: menu_texts(self.menu@),
            drop: match self.drop {
                Some(p) => Some(p@),
                None => None,
            },
            target: self.target@,
        }
    }
}

/// A row with nothing but a text, an icon and what it points at.
pub open spec fn plain_row(label: Seq<char>, icon: Seq<char>, target: TargetView) -> RowView {
    RowView {
        label,
        icon,
        badge: None,
        detail: None,
        tooltip: None,
        sensitive: true,
        unmount_button: false,
        menu: Seq::empty(),
        drop: None,
        target,
    }
}

/// A row with nothing but a text, an icon and what it points at.
fn make_row(label: &str, icon: &str, target: Target) -> (r: SidebarRow)
    ensures
        r@ == plain_row(label@, icon@, target@),
{
    let r = SidebarRow {
        label: text::copied(label),
        icon: text::copied(icon),
        badge: None,
        detail: None,
        tooltip: None,
        sensitive: true,
        unmount_button: false,
        menu: Vec::new(),
        drop: None,
        target,
    };
    assert(r@.menu =~= Seq::<(Seq<char>, Seq<char>)>::empty());
    r
}

/// A titled list of rows, of which one may be highlighted.
#[derive(Debug)]
pub struct Section {
    /// The heading.
    pub title: &'static str,
    /// The rows.
    pub rows: Vec<SidebarRow>,
    /// The highlighted row.
    pub selected: Option<usize>,
}

/// The plain values of some rows.
pub open spec fn rows_of(rows: Seq<SidebarRow>) -> Seq<RowView> {
    rows.map_values(|row: SidebarRow| row@)
}

/// The headings and rows of some sections.
pub open spec fn sections_of(sections: Seq<Section>) -> Seq<(Seq<char>, Seq<RowView>)> {
    sections.map_values(|section: Section| (section.title@, rows_of(section.rows@)))
}

// ── what the sidebar is built from ─────────────────────────────────────────

/// A folder that lives in the user's home.
#[derive(Debug)]
pub struct Place {
    /// Its name.
    pub label: String,
    /// Where it is.
    pub path: FilePath,
    /// Its icon.
    pub icon: String,
}

/// The directory of the mounted network shares.
#[derive(Debug)]
pub struct NetworkRoot {
    /// Where it is.
    pub path: FilePath,
    /// Whether nothing is mounted there.
    pub is_empty: bool,
}

/// What the sidebar finds on the system when it is built.
#[derive(Debug)]
pub struct Surroundings {
    /// The user's folders.
    pub places: Vec<Place>,
    /// Where network shares are mounted, if the desktop provides that.
    pub network: Option<NetworkRoot>,
    /// For each favourite, whether it is a folder that exists.
    pub available: Vec<bool>,
}

/// The row of a place.
pub open spec fn place_row(place: Place) -> RowView {
    RowView {
        drop: Some(place.path@),
        ..plain_row(place.label@, place.icon@, TargetView::Path(place.path@))
    }
}

/// The rows of the places.
pub open spec fn place_rows(places: Seq<Place>) -> Seq<RowView> {
    places.map_values(|place: Place| place_row(place))
}

/// The name a favourite is shown under: its own, or its whole path where it has
/// none.
pub open spec fn favourite_label(p: Seq<u8>) -> Seq<char> {
    match path::file_name(p) {
        Some(name) => outside::lossy(name),
        None => outside::lossy(p),
    }
}

/// The menu of a favourite: remove it, or open it in a new window.
pub open spec fn favourite_menu() -> Seq<(Seq<char>, Seq<char>)> {
    seq![
        ("Remove from Favourites"@, "sidebar.unfavourite"@),
        ("Open in New Window"@, "sidebar.open-window"@),
    ]
}

/// The row of a favourite. A missing one (deleted folder, unmounted drive) is
/// dimmed rather than hidden, so the user can see why it stopped working.
pub open spec fn favourite_row(p: Seq<u8>, available: bool) -> RowView {
    RowView {
        tooltip: Some(
            if available {
                outside::lossy(p)
            } else {
                outside::lossy(p) + " (unavailable)"@
            },
        ),
        sensitive: available,
        menu: favourite_menu(),
        drop: Some(p),
        ..plain_row(favourite_label(p), "starred-symbolic"@, TargetView::Path(p))
    }
}

/// The rows of the favourites.
pub open spec fn favourite_rows(favourites: Seq<FilePath>, available: Seq<bool>) -> Seq<RowView> {
    Seq::new(
        favourites.len(),
        |i: int| favourite_row(favourites[i]@, i < available.len() && available[i]),
    )
}

/// The row of the network shares. It says up front when there is nothing behind
/// it, rather than opening an empty folder and leaving the user to guess why.
pub open spec fn network_row(network: Option<NetworkRoot>) -> RowView {
    RowView {
        sensitive: network is Some,
        tooltip: Some(
            match network {
                Some(root) => if root.is_empty {
                    "No network shares are mounted yet"@
                } else {
                    "Network shares mounted in this session"@
                },
                None => "Needs gvfs, which provides network browsing for the desktop"@,
            },
        ),
        ..plain_row("Network"@, "network-workgroup-symbolic"@, TargetView::Network)
    }
}

/// The row of the trash, with a count where it is not empty.
pub open spec fn trash_row(count: usize) -> RowView {
    RowView {
        badge: if count > 0 {
            Some(text::decimal(count as nat))
        } else {
            None
        },
        ..plain_row("Trash"@, "user-trash-symbolic"@, TargetView::Trash)
    }
}

/// The rows of the locations that the system assembles.
pub open spec fn system_rows(network: Option<NetworkRoot>, trash_count: usize) -> Seq<RowView> {
    seq![
        plain_row("Recent"@, "document-open-recent-symbolic"@, TargetView::Recent),
        network_row(network),
        trash_row(trash_count),
        plain_row(
            "Other Locations"@,
            "drive-multidisk-symbolic"@,
            TargetView::Path(path::root()),
        ),
    ]
}

/// The row of a drive.
pub open spec fn volume_row(v: Volume, i: int) -> RowView {
    RowView {
        detail: Some(volume_subtitle(v)),
        tooltip: Some(volume_tooltip(v)),
        unmount_button: v.mount_point is Some,
        menu: volume_menu(v),
        drop: match v.mount_point {
            Some(p) => Some(p@),
            None => None,
        },
        ..plain_row(v.label@, v.icon_name@, TargetView::Volume(i))
    }
}

/// The drives in groups: each run of drives of one category is a section.
pub open spec fn device_sections(volumes: Seq<Volume>) -> Seq<(Seq<char>, Seq<RowView>)>
    decreases volumes.len(),
{
    if volumes.len() == 0 {
        Seq::empty()
    } else {
        let front = device_sections(volumes.drop_last());
        let last = volumes.last();
        let row = volume_row(last, volumes.len() - 1);
        if volumes.len() > 1 && volumes[volumes.len() - 2].category == last.category && front.len()
            > 0 {
            front.drop_last().push((front.last().0, front.last().1.push(row)))
        } else {
            front.push((category_title(last.category), seq![row]))
        }
    }
}

/// The sidebar as a whole: places, favourites where there are any, system, and
/// the drives.
pub open spec fn built(
    around: Surroundings,
    favourites: Seq<FilePath>,
    trash_count: usize,
    volumes: Seq<Volume>,
) -> Seq<(Seq<char>, Seq<RowView>)> {
    let places = seq![("Places"@, place_rows(around.places@))];
    let starred: Seq<(Seq<char>, Seq<RowView>)> = if favourites.len() > 0 {
        seq![("Favourites"@, favourite_rows(favourites, around.available@))]
    } else {
        seq![]
    };
    let system = seq![("System"@, system_rows(around.network, trash_count))];
    places + starred + system + device_sections(volumes)
}

/// The section of the user's folders.
fn build_places(around: &Surroundings) -> (r: Section)
    ensures
        r.title@ == "Places"@,
        rows_of(r.rows@) == place_rows(around.places@),
        r.selected is None,
{
    let mut rows: Vec<SidebarRow> = Vec::new();
    let mut i: usize = 0;
    while i < around.places.len()
        invariant
            i <= around.places@.len(),
            rows_of(rows@) == place_rows(around.places@.take(i as int)),
        decreases around.places@.len() - i,
    {
        let ghost was = rows_of(rows@);
        let place = &around.places[i];
        let mut row = make_row(
            place.label.as_str(),
            place.icon.as_str(),
            Target::Path(place.path.copy()),
        );
        row.drop = Some(place.path.copy());
        assert(row@ == place_row(*place));
        rows.push(row);
        assert(rows_of(rows@) =~= was.push(place_row(*place)));
        assert(place_rows(around.places@.take(i as int + 1)) =~= place_rows(
            around.places@.take(i as int),
        ).push(place_row(*place)));
        i = i + 1;
    }
    assert(around.places@.take(around.places@.len() as int) =~= around.places@);
    Section { title: "Places", rows, selected: None }
}

/// The section of the favourites.
fn build_favourites(favourites: &Vec<FilePath>, available: &Vec<bool>) -> (r: Section)
    ensures
        r.title@ == "Favourites"@,
        rows_of(r.rows@) == favourite_rows(favourites@, available@),
        r.selected is None,
{
    let mut rows: Vec<SidebarRow> = Vec::new();
    let mut i: usize = 0;
    while i < favourites.len()
        invariant
            i <= favourites@.len(),
            rows@.len() == i,
            forall|j: int|
                0 <= j < i ==> (#[trigger] rows@[j])@ == favourite_row(
                    favourites@[j]@,
                    j < available@.len() && available@[j],
                ),
        decreases favourites@.len() - i,
    {
        let p = &favourites[i];
        let exists_there = i < available.len() && available[i];
        let label = match p.file_name_text() {
            Some(name) => name,
            None => p.display(),
        };
        let mut row = make_row(label.as_str(), "starred-symbolic", Target::Path(p.copy()));
        let mut tooltip = p.display();
        if !exists_there {
            tooltip.append(" (unavailable)");
        }
        row.tooltip = Some(tooltip);
        row.sensitive = exists_there;
        let mut menu: Vec<(&'static str, &'static str)> = Vec::new();
        menu.push(("Remove from Favourites", "sidebar.unfavourite"));
        menu.push(("Open in New Window", "sidebar.open-window"));
        assert(menu_texts(menu@) =~= favourite_menu());
        row.menu = menu;
        row.drop = Some(p.copy());
        assert(row@ == favourite_row(p@, exists_there));
        rows.push(row);
        i = i + 1;
    }
    assert(rows_of(rows@) =~= favourite_rows(favourites@, available@));
    Section { title: "Favourites", rows, selected: None }
}

/// The section of the locations that the system assembles.
fn build_system(network: &Option<NetworkRoot>, trash_count: usize) -> (r: Section)
    ensures
        r.title@ == "System"@,
        rows_of(r.rows@) == system_rows(*network, trash_count),
        r.selected is None,
{
    let mut rows: Vec<SidebarRow> = Vec::new();
    rows.push(make_row("Recent", "document-open-recent-symbolic", Target::Recent));

    let mut shares = make_row("Network", "network-workgroup-symbolic", Target::Network);
    shares.sensitive = network.is_some();
    shares.tooltip = Some(
        match network {
            Some(root) => if root.is_empty {
                text::copied("No network shares are mounted yet")
            } else {
                text::copied("Network shares mounted in this session")
            },
            None => text::copied("Needs gvfs, which provides network browsing for the desktop"),
        },
    );
    assert(shares@ == network_row(*network));
    rows.push(shares);

    let mut trash = make_row("Trash", "user-trash-symbolic", Target::Trash);
    if trash_count > 0 {
        trash.badge = Some(text::decimal_of(trash_count as u64));
    }
    assert(trash@ == trash_row(trash_count));
    rows.push(trash);

    rows.push(
        make_row(
            "Other Locations",
            "drive-multidisk-symbolic",
            Target::Path(FilePath::root()),
        ),
    );
    assert(rows_of(rows@) =~= system_rows(*network, trash_count));
    Section { title: "System", rows, selected: None }
}

/// The row of a drive. Its button always unmounts and never ejects: unmounting
/// is the reversible, everyday action and is what a single click should do;
/// ejecting is a deliberate "I am about to unplug this" and lives in the
/// right-click menu, named.
pub fn make_volume_row(volume: &Volume, i: usize) -> (r: SidebarRow)
    ensures
        r@ == volume_row(*volume, i as int),
{
    let mut row = make_row(
        volume.label.as_str(),
        volume.icon_name.as_str(),
        Target::Volume(i),
    );
    row.detail = Some(volume.subtitle());
    row.tooltip = Some(volume.tooltip());
    row.unmount_button = volume.is_mounted();
    row.menu = volume.menu();
    row.drop = match &volume.mount_point {
        Some(p) => Some(p.copy()),
        None => None,
    };
    row
}

/// The sections of the drives.
fn build_devices(volumes: &Vec<Volume>) -> (r: Vec<Section>)
    ensures
        sections_of(r@) == device_sections(volumes@),
        forall|j: int| 0 <= j < r@.len() ==> (#[trigger] r@[j]).selected is None,
{
    let mut out: Vec<Section> = Vec::new();
    let mut i: usize = 0;
    assert(sections_of(out@) =~= device_sections(volumes@.take(0)));
    while i < volumes.len()
        invariant
            i <= volumes@.len(),
            sections_of(out@) == device_sections(volumes@.take(i as int)),
            i > 0 ==> out@.len() > 0,
            forall|j: int| 0 <= j < out@.len() ==> (#[trigger] out@[j]).selected is None,
        decreases volumes@.len() - i,
    {
        let ghost front = sections_of(out@);
        let ghost taken = volumes@.take(i as int + 1);
        assert(taken.drop_last() =~= volumes@.take(i as int));
        assert(front.len() == out@.len());
        let row = make_volume_row(&volumes[i], i);
        let ghost row_view = row@;
        let same_group = i > 0 && volumes[i - 1].category == volumes[i].category;
        match out.pop() {
            Some(mut section) if same_group => {
                let ghost rest = sections_of(out@);
                let ghost had = rows_of(section.rows@);
                assert(rest =~= front.drop_last());
                assert(front.last() == (section.title@, had));
                section.rows.push(row);
                assert(rows_of(section.rows@) =~= had.push(row_view));
                let ghost done = (section.title@, rows_of(section.rows@));
                section.selected = None;
                out.push(section);
                assert(sections_of(out@) =~= rest.push(done));
            },
            other => {
                match other {
                    Some(section) => {
                        out.push(section);
                    },
                    None => {},
                }
                assert(sections_of(out@) =~= front);
                let title = volumes[i].category.section_title();
                let mut rows: Vec<SidebarRow> = Vec::new();
                rows.push(row);
                assert(rows_of(rows@) =~= seq![row_view]);
                out.push(Section { title, rows, selected: None });
                assert(sections_of(out@) =~= front.push((title@, seq![row_view])));
            },
        }
        i = i + 1;
    }
    assert(volumes@.take(volumes@.len() as int) =~= volumes@);
    out
}

// ── the sidebar ────────────────────────────────────────────────────────────

/// The places sidebar.
#[derive(Debug)]
pub struct Sidebar {
    /// The place that is shown in the window.
    pub current: FilePath,
    /// The drives.
    pub volumes: Vec<Volume>,
    /// The favourites.
    pub favourites: Vec<FilePath>,
    /// How many items are in the trash.
    pub trash_count: usize,
    /// The sections as they were last built.
    pub sections: Vec<Section>,
}

/// What a click on a row means.
#[derive(Debug)]
pub enum SidebarAction {
    /// Go to a folder.
    Navigate(FilePath),
    /// Open the trash.
    OpenTrash,
    /// Open the recent files.
    OpenRecent,
    /// Open a folder in a new window.
    OpenWindow(FilePath),
    /// Mount the drive at that place in the list of drives, and go there.
    Mount(usize),
    /// The same, without being able to change anything on it.
    MountReadOnly(usize),
    /// Unmount it.
    Unmount(usize),
    /// Eject it.
    Eject(usize),
    /// Take a favourite out of the list.
    RemoveFavourite(FilePath),
    /// Nothing.
    Nothing,
}

/// What an action does.
pub enum ActionView {
    /// Go to a folder.
    Navigate(Seq<u8>),
    /// Open the trash.
    OpenTrash,
    /// Open the recent files.
    OpenRecent,
    /// Open a folder in a new window.
    OpenWindow(Seq<u8>),
    /// Mount a drive.
    Mount(int),
    /// Mount a drive read-only.
    MountReadOnly(int),
    /// Unmount a drive.
    Unmount(int),
    /// Eject a drive.
    Eject(int),
    /// Take a favourite out.
    RemoveFavourite(Seq<u8>),
    /// Nothing.
    Nothing,
}

impl View for SidebarAction {
    type V = ActionView;

    open spec fn view(&self) -> ActionView {
        match *self {
            SidebarAction::Navigate(p) => ActionView::Navigate(p@),
            SidebarAction::OpenTrash => ActionView::OpenTrash,
            SidebarAction::OpenRecent => ActionView::OpenRecent,
            SidebarAction::OpenWindow(p) => ActionView::OpenWindow(p@),
            SidebarAction::Mount(i) => ActionView::Mount(i as int),
            SidebarAction::MountReadOnly(i) => ActionView::MountReadOnly(i as int),
            SidebarAction::Unmount(i) => ActionView::Unmount(i as int),
            SidebarAction::Eject(i) => ActionView::Eject(i as int),
            SidebarAction::RemoveFavourite(p) => ActionView::RemoveFavourite(p@),
            SidebarAction::Nothing => ActionView::Nothing,
        }
    }
}

/// What a click on a row with that target means.
pub open spec fn action_for(
    target: TargetView,
    volumes: Seq<Volume>,
    network: Option<Seq<u8>>,
) -> ActionView {
    match target {
        TargetView::Path(p) => ActionView::Navigate(p),
        TargetView::Trash => ActionView::OpenTrash,
        TargetView::Recent => ActionView::OpenRecent,
        TargetView::Network => match network {
            Some(root) => ActionView::Navigate(root),
            None => ActionView::Nothing,
        },
        TargetView::Volume(i) => if 0 <= i < volumes.len() {
            match volumes[i].mount_point {
                Some(p) => ActionView::Navigate(p@),
                None => ActionView::Mount(i),
            }
        } else {
            ActionView::Nothing
        },
    }
}

/// Whether a row with that target is the place shown.
pub open spec fn is_active(
    target: TargetView,
    at: Seq<u8>,
    volumes: Seq<Volume>,
    network: Option<Seq<u8>>,
) -> bool {
    match target {
        TargetView::Path(p) => path::components(p) == path::components(at),
        TargetView::Volume(i) => 0 <= i < volumes.len() && (volumes[i].mount_point matches Some(p)
            && path::components(p@) == path::components(at)),
        TargetView::Network => network matches Some(root) && path::components(root)
            == path::components(at),
        _ => false,
    }
}

/// Whether `n` is the last of some rows that is the place shown, or none is.
pub open spec fn highlights(
    n: Option<usize>,
    rows: Seq<RowView>,
    at: Seq<u8>,
    volumes: Seq<Volume>,
    network: Option<Seq<u8>>,
) -> bool {
    match n {
        Some(i) => i < rows.len() && is_active(rows[i as int].target, at, volumes, network)
            && forall|j: int|
            i < j < rows.len() ==> !is_active((#[trigger] rows[j]).target, at, volumes, network),
        None => forall|j: int|
            0 <= j < rows.len() ==> !is_active((#[trigger] rows[j]).target, at, volumes, network),
    }
}

/// The bytes of an optional path.
pub open spec fn path_of(p: Option<&FilePath>) -> Option<Seq<u8>> {
    match p {
        Some(p) => Some(p@),
        None => None,
    }
}

/// Where the network shares are.
pub open spec fn network_path(network: Option<NetworkRoot>) -> Option<Seq<u8>> {
    match network {
        Some(root) => Some(root.path@),
        None => None,
    }
}

impl Sidebar {
    /// An empty sidebar.
    pub fn new() -> (r: Sidebar)
        ensures
            r.current@.len() == 0,
            r.volumes@.len() == 0,
            r.favourites@.len() == 0,
            r.trash_count == 0,
            r.sections@.len() == 0,
    {
        Sidebar {
            current: FilePath::from_bytes(Vec::new()),
            volumes: Vec::new(),
            favourites: Vec::new(),
            trash_count: 0,
            sections: Vec::new(),
        }
    }

    /// Whether the sections are those of the current state, with the place
    /// shown highlighted.
    pub open spec fn shows(&self, around: Surroundings) -> bool {
        &&& sections_of(self.sections@) == built(
            around,
            self.favourites@,
            self.trash_count,
            self.volumes@,
        )
        &&& forall|i: int|
            0 <= i < self.sections@.len() ==> highlights(
                (#[trigger] self.sections@[i]).selected,
                rows_of(self.sections@[i].rows@),
                self.current@,
                self.volumes@,
                network_path(around.network),
            )
    }

    /// The drives have changed.
    pub fn set_volumes(&mut self, volumes: Vec<Volume>, around: &Surroundings)
        ensures
            final(self).volumes == volumes,
            final(self).current@ == old(self).current@,
            final(self).favourites == old(self).favourites,
            final(self).trash_count == old(self).trash_count,
            final(self).shows(*around),
    {
        self.volumes = volumes;
        self.rebuild(around);
    }

    /// The favourites have changed.
    pub fn set_favourites(&mut self, favourites: Vec<FilePath>, around: &Surroundings)
        ensures
            final(self).favourites == favourites,
            final(self).current@ == old(self).current@,
            final(self).volumes == old(self).volumes,
            final(self).trash_count == old(self).trash_count,
            final(self).shows(*around),
    {
        self.favourites = favourites;
        self.rebuild(around);
    }

    /// The trash has been counted. Returns whether the sidebar was rebuilt; for
    /// the count it already shows, nothing happens.
    pub fn set_trash_count(&mut self, count: usize, around: &Surroundings) -> (r: bool)
        ensures
            r == (old(self).trash_count != count),
            !r ==> *final(self) == *old(self),
            final(self).trash_count == count,
            final(self).current@ == old(self).current@,
            final(self).volumes == old(self).volumes,
            final(self).favourites == old(self).favourites,
            r ==> final(self).shows(*around),
    {
        if self.trash_count == count {
            return false;
        }
        self.trash_count = count;
        self.rebuild(around);
        true
    }

    /// Highlights the row matching `path`, if any. Network resolves to a real
    /// directory, so it highlights like any other path; Trash and Recent have
    /// none and are selected by the window instead.
    pub fn set_current(&mut self, path: &FilePath, network: Option<&FilePath>)
        ensures
            final(self).current@ == path@,
            final(self).volumes == old(self).volumes,
            final(self).favourites == old(self).favourites,
            final(self).trash_count == old(self).trash_count,
            sections_of(final(self).sections@) == sections_of(old(self).sections@),
            forall|i: int|
                0 <= i < final(self).sections@.len() ==> highlights(
                    (#[trigger] final(self).sections@[i]).selected,
                    rows_of(final(self).sections@[i].rows@),
                    path@,
                    old(self).volumes@,
                    path_of(network),
                ),
    {
        self.current = path.copy();
        let ghost before = self.sections@;
        let mut i: usize = 0;
        while i < self.sections.len()
            invariant
                i <= self.sections@.len(),
                self.sections@.len() == before.len(),
                self.current@ == path@,
                self.volumes == old(self).volumes,
                self.favourites == old(self).favourites,
                self.trash_count == old(self).trash_count,
                forall|j: int|
                    0 <= j < before.len() ==> (#[trigger] self.sections@[j]).title
                        == before[j].title && self.sections@[j].rows == before[j].rows,
                forall|j: int|
                    0 <= j < i ==> highlights(
                        (#[trigger] self.sections@[j]).selected,
                        rows_of(self.sections@[j].rows@),
                        path@,
                        self.volumes@,
                        path_of(network),
                    ),
            decreases before.len() - i,
        {
            let section = self.sections.remove(i);
            let selected = last_active(&section.rows, path, &self.volumes, network);
            self.sections.insert(
                i,
                Section { title: section.title, rows: section.rows, selected },
            );
            i = i + 1;
        }
        assert(sections_of(self.sections@) =~= sections_of(before));
    }

    /// Builds the sections anew.
    fn rebuild(&mut self, around: &Surroundings)
        ensures
            final(self).current@ == old(self).current@,
            final(self).volumes == old(self).volumes,
            final(self).favourites == old(self).favourites,
            final(self).trash_count == old(self).trash_count,
            final(self).shows(*around),
    {
        let mut sections: Vec<Section> = Vec::new();
        sections.push(build_places(around));
        assert(sections_of(sections@) =~= seq![("Places"@, place_rows(around.places@))]);
        let ghost places = sections_of(sections@);
        let ghost mut starred: Seq<(Seq<char>, Seq<RowView>)> = seq![];
        if self.favourites.len() > 0 {
            sections.push(build_favourites(&self.favourites, &around.available));
            proof {
                starred =
                seq![("Favourites"@, favourite_rows(self.favourites@, around.available@))];
            }
        }
        assert(sections_of(sections@) =~= places + starred);
        sections.push(build_system(&around.network, self.trash_count));
        let ghost system = seq![("System"@, system_rows(around.network, self.trash_count))];
        assert(sections_of(sections@) =~= places + starred + system);
        let mut devices = build_devices(&self.volumes);
        let ghost upper = sections_of(sections@);
        let ghost lower = sections_of(devices@);
        sections.append(&mut devices);
        assert(sections_of(sections@) =~= upper + lower);
        self.sections = sections;
        let current = self.current.copy();
        match &around.network {
            Some(root) => self.set_current(&current, Some(&root.path)),
            None => self.set_current(&current, None),
        }
    }

    /// What a click on a row means. The network row cannot be clicked while
    /// there are no shares, so a missing root only happens if the bridge
    /// stopped between building the row and the click; doing nothing is the
    /// right response either way.
    pub fn activate_row(&self, section: usize, row: usize, network: Option<&FilePath>) -> (r:
        SidebarAction)
        ensures
            r@ == (if section < self.sections@.len() && row
                < self.sections@[section as int].rows@.len() {
                action_for(
                    self.sections@[section as int].rows@[row as int].target@,
                    self.volumes@,
                    path_of(network),
                )
            } else {
                ActionView::Nothing
            }),
    {
        if section >= self.sections.len() || row >= self.sections[section].rows.len() {
            return SidebarAction::Nothing;
        }
        match &self.sections[section].rows[row].target {
            Target::Path(p) => SidebarAction::Navigate(p.copy()),
            Target::Trash => SidebarAction::OpenTrash,
            Target::Recent => SidebarAction::OpenRecent,
            Target::Network => match network {
                Some(root) => SidebarAction::Navigate(root.copy()),
                None => SidebarAction::Nothing,
            },
            Target::Volume(i) => if *i < self.volumes.len() {
                match &self.volumes[*i].mount_point {
                    // Already mounted: just go there.
                    Some(p) => SidebarAction::Navigate(p.copy()),
                    // Not mounted: the window mounts it and navigates on
                    // success.
                    None => SidebarAction::Mount(*i),
                }
            } else {
                SidebarAction::Nothing
            },
        }
    }
}

/// Whether a row with that target is the place shown.
fn target_is_active(
    target: &Target,
    at: &FilePath,
    volumes: &Vec<Volume>,
    network: Option<&FilePath>,
) -> (r: bool)
    ensures
        r == is_active(target@, at@, volumes@, path_of(network)),
{
    match target {
        Target::Path(p) => p.same_as(at),
        Target::Volume(i) => if *i < volumes.len() {
            match &volumes[*i].mount_point {
                Some(p) => p.same_as(at),
                None => false,
            }
        } else {
            false
        },
        Target::Network => match network {
            Some(root) => root.same_as(at),
            None => false,
        },
        Target::Trash => false,
        Target::Recent => false,
    }
}

/// The last of some rows that is the place shown.
fn last_active(
    rows: &Vec<SidebarRow>,
    at: &FilePath,
    volumes: &Vec<Volume>,
    network: Option<&FilePath>,
) -> (r: Option<usize>)
    ensures
        highlights(r, rows_of(rows@), at@, volumes@, path_of(network)),
{
    let mut n: usize = rows.len();
    while n > 0
        invariant
            n <= rows@.len(),
            forall|j: int|
                n <= j < rows@.len() ==> !is_active(
                    (#[trigger] rows_of(rows@)[j]).target,
                    at@,
                    volumes@,
                    path_of(network),
                ),
        decreases n,
    {
        assert(rows_of(rows@)[n - 1] == rows@[n - 1]@);
        if target_is_active(&rows[n - 1].target, at, volumes, network) {
            return Some(n - 1);
        }
        n = n - 1;
    }
    None
}

/// What choosing an item of a row's context menu means.
pub fn menu_action(item: &str, volumes: &Vec<Volume>, target: &Target) -> (r: SidebarAction)
    ensures
        r@ == menu_choice(item@, volumes@, target@),
{
    match target {
        Target::Volume(i) => {
            if *i >= volumes.len() {
                SidebarAction::Nothing
            } else if text::same(item, "volume.open") {
                match &volumes[*i].mount_point {
                    Some(p) => SidebarAction::Navigate(p.copy()),
                    None => SidebarAction::Nothing,
                }
            } else if text::same(item, "volume.mount") {
                SidebarAction::Mount(*i)
            } else if text::same(item, "volume.mount-read-only") {
                SidebarAction::MountReadOnly(*i)
            } else if text::same(item, "volume.unmount") {
                SidebarAction::Unmount(*i)
            } else if text::same(item, "volume.eject") {
                SidebarAction::Eject(*i)
            } else {
                SidebarAction::Nothing
            }
        },
        Target::Path(p) => if text::same(item, "sidebar.unfavourite") {
            SidebarAction::RemoveFavourite(p.copy())
        } else if text::same(item, "sidebar.open-window") {
            SidebarAction::OpenWindow(p.copy())
        } else {
            SidebarAction::Nothing
        },
        _ => SidebarAction::Nothing,
    }
}

/// What choosing an item of a row's context menu means.
pub open spec fn menu_choice(item: Seq<char>, volumes: Seq<Volume>, target: TargetView) ->
    ActionView {
    match target {
        TargetView::Volume(i) => if !(0 <= i < volumes.len()) {
            ActionView::Nothing
        } else if item == "volume.open"@ {
            match volumes[i].mount_point {
                Some(p) => ActionView::Navigate(p@),
                None => ActionView::Nothing,
            }
        } else if item == "volume.mount"@ {
            ActionView::Mount(i)
        } else if item == "volume.mount-read-only"@ {
            ActionView::MountReadOnly(i)
        } else if item == "volume.unmount"@ {
            ActionView::Unmount(i)
        } else if item == "volume.eject"@ {
            ActionView::Eject(i)
        } else {
            ActionView::Nothing
        },
        TargetView::Path(p) => if item == "sidebar.unfavourite"@ {
            ActionView::RemoveFavourite(p)
        } else if item == "sidebar.open-window"@ {
            ActionView::OpenWindow(p)
        } else {
            ActionView::Nothing
        },
        _ => ActionView::Nothing,
    }
}

/// Files dropped onto a row go to its folder; nothing dropped is no drop.
pub fn dropped_onto(paths: Vec<FilePath>, row: &SidebarRow) -> (r: Option<
    (Vec<FilePath>, FilePath),
>)
    ensures
        r is Some <==> paths@.len() > 0 && row.drop is Some,
        r matches Some((files, folder)) ==> files == paths && folder@ == row.drop->0@,
{
    if paths.len() == 0 {
        return None;
    }
    match &row.drop {
        Some(folder) => Some((paths, folder.copy())),
        None => None,
    }
}

// ── laws ───────────────────────────────────────────────────────────────────

/// The rows of some sections, one section after the other.
pub open spec fn all_rows(sections: Seq<(Seq<char>, Seq<RowView>)>) -> Seq<RowView>
    decreases sections.len(),
{
    if sections.len() == 0 {
        Seq::empty()
    } else {
        all_rows(sections.drop_last()) + sections.last().1
    }
}

/// Every drive has exactly one row, in the order of the drives, whatever the
/// groups.
pub proof fn law_every_drive_has_a_row(volumes: Seq<Volume>)
    ensures
        all_rows(device_sections(volumes)) == Seq::new(
            volumes.len(),
            |i: int| volume_row(volumes[i], i),
        ),
        volumes.len() > 0 ==> device_sections(volumes).len() > 0,
    decreases volumes.len(),
{
    let rows = Seq::new(volumes.len(), |i: int| volume_row(volumes[i], i));
    if volumes.len() > 0 {
        let before = volumes.drop_last();
        let front = device_sections(before);
        law_every_drive_has_a_row(before);
        let row = volume_row(volumes.last(), volumes.len() - 1);
        let all = device_sections(volumes);
        if volumes.len() > 1 && volumes[volumes.len() - 2].category == volumes.last().category
            && front.len() > 0 {
            assert(all.drop_last() =~= front.drop_last());
            assert(all_rows(all) =~= all_rows(front).push(row));
        } else {
            assert(all.drop_last() =~= front);
            assert(all_rows(all) =~= all_rows(front).push(row));
        }
        assert(rows =~= Seq::new(before.len(), |i: int| volume_row(before[i], i)).push(row));
    } else {
        assert(all_rows(device_sections(volumes)) =~= rows);
    }
}

/// Clicking a mounted drive goes where it is mounted and never mounts it again;
/// clicking one that is not mounted mounts it.
pub proof fn law_drives_mount_once(volumes: Seq<Volume>, i: int, network: Option<Seq<u8>>)
    requires
        0 <= i < volumes.len(),
    ensures
        match volumes[i].mount_point {
            Some(p) => action_for(TargetView::Volume(i), volumes, network)
                == ActionView::Navigate(p@),
            None => action_for(TargetView::Volume(i), volumes, network) == ActionView::Mount(i),
        },
{
}

/// Whether an action mounts a drive.
pub open spec fn mounts(action: ActionView) -> bool {
    action is Mount || action is MountReadOnly
}

/// The menu of a drive never offers to unmount what is not mounted or to mount
/// what is. It offers to eject only what can be ejected or powered off, and to
/// mount read-only exactly the NTFS drives that are not mounted. None of its
/// items does nothing.
pub proof fn law_the_menu_fits_the_drive(volumes: Seq<Volume>, i: int, k: int)
    requires
        0 <= i < volumes.len(),
        0 <= k < volume_menu(volumes[i]).len(),
    ensures
        ({
            let v = volumes[i];
            let action = menu_choice(volume_menu(v)[k].1, volumes, TargetView::Volume(i));
            &&& action !is Nothing
            &&& mounts(action) <==> v.mount_point is None
            &&& action is MountReadOnly ==> is_ntfs(v.fstype@)
            &&& action is Eject ==> v.ejectable || v.can_power_off
        }),
        volumes[i].mount_point is None && is_ntfs(volumes[i].fstype@) ==> menu_choice(
            volume_menu(volumes[i]).last().1,
            volumes,
            TargetView::Volume(i),
        ) is MountReadOnly,
{
    reveal_strlit("volume.mount");
    reveal_strlit("volume.mount-read-only");
    reveal_strlit("volume.open");
    reveal_strlit("volume.unmount");
    reveal_strlit("volume.eject");
    assert("volume.open"@.len() == 11 && "volume.mount"@.len() == 12 && "volume.unmount"@.len()
        == 14 && "volume.eject"@.len() == 12 && "volume.mount-read-only"@.len() == 22);
    assert("volume.eject"@[7] != "volume.mount"@[7]);
}

/// The row of a drive shows its name, its size and state, can be unmounted
/// exactly where it is mounted, and takes dropped files to where that is.
pub proof fn law_a_drive_shows_its_state(v: Volume, i: int)
    ensures
        volume_row(v, i).label == v.label@,
        volume_row(v, i).icon == v.icon_name@,
        volume_row(v, i).target == TargetView::Volume(i),
        volume_row(v, i).sensitive,
        volume_row(v, i).unmount_button <==> v.mount_point is Some,
        volume_row(v, i).drop is Some <==> v.mount_point is Some,
        v.mount_point matches Some(p) ==> volume_row(v, i).drop == Some(p@),
        volume_row(v, i).menu == volume_menu(v),
        volume_row(v, i).detail == Some(
            if v.is_encrypted {
                v.size_label@ + "  encrypted"@
            } else if v.read_only {
                v.size_label@ + "  "@ + v.fstype@ + "  read-only"@
            } else {
                v.size_label@ + "  "@ + v.fstype@
            },
        ),
        v.drive_name@.len() == 0 && v.uuid@.len() == 0 ==> volume_row(v, i).tooltip == Some(
            outside::lossy(v.device@),
        ),
        v.drive_name@.len() > 0 && v.uuid@.len() == 0 ==> volume_row(v, i).tooltip == Some(
            v.drive_name@ + " — "@ + outside::lossy(v.device@),
        ),
        v.drive_name@.len() > 0 && v.uuid@.len() > 0 ==> volume_row(v, i).tooltip == Some(
            v.drive_name@ + " — "@ + outside::lossy(v.device@) + "\nUUID: "@ + v.uuid@,
        ),
        v.drive_name@.len() == 0 && v.uuid@.len() > 0 ==> volume_row(v, i).tooltip == Some(
            outside::lossy(v.device@) + "\nUUID: "@ + v.uuid@,
        ),
{
}

/// A mounted drive can be opened, unmounted and, where its medium leaves the
/// machine, ejected; any other can be mounted, and an NTFS one read-only too.
pub proof fn law_the_menu_of_a_drive(v: Volume)
    ensures
        v.mount_point is Some ==> volume_menu(v).contains(("Open"@, "volume.open"@)),
        v.mount_point is Some ==> volume_menu(v).contains(("Unmount"@, "volume.unmount"@)),
        v.mount_point is Some && (v.ejectable || v.can_power_off) ==> volume_menu(v).contains(
            ("Eject — safe to unplug"@, "volume.eject"@),
        ),
        v.mount_point is None ==> volume_menu(v).contains(("Mount"@, "volume.mount"@)),
        v.mount_point is None && "ntfs"@.is_prefix_of(v.fstype@) ==> volume_menu(v).contains(
            ("Mount Read-Only"@, "volume.mount-read-only"@),
        ),
        volume_menu(v).len() == (if v.mount_point is Some {
            if v.ejectable || v.can_power_off {
                3int
            } else {
                2int
            }
        } else if "ntfs"@.is_prefix_of(v.fstype@) {
            2int
        } else {
            1int
        }),
{
    let items = volume_menu(v);
    if v.mount_point is Some {
        assert(items[0] == ("Open"@, "volume.open"@));
        assert(items[1] == ("Unmount"@, "volume.unmount"@));
        if v.ejectable || v.can_power_off {
            assert(items[2] == ("Eject — safe to unplug"@, "volume.eject"@));
        }
    } else {
        assert(items[0] == ("Mount"@, "volume.mount"@));
        if "ntfs"@.is_prefix_of(v.fstype@) {
            assert(items[1] == ("Mount Read-Only"@, "volume.mount-read-only"@));
        }
    }
}

/// An item of a drive's menu acts on that drive, as it says; an item of a
/// favourite's menu acts on that favourite.
pub proof fn law_menu_items_do_what_they_say(volumes: Seq<Volume>, i: int, p: Seq<u8>)
    requires
        0 <= i < volumes.len(),
    ensures
        menu_choice("volume.mount"@, volumes, TargetView::Volume(i)) == ActionView::Mount(i),
        menu_choice("volume.mount-read-only"@, volumes, TargetView::Volume(i))
            == ActionView::MountReadOnly(i),
        menu_choice("volume.unmount"@, volumes, TargetView::Volume(i)) == ActionView::Unmount(i),
        menu_choice("volume.eject"@, volumes, TargetView::Volume(i)) == ActionView::Eject(i),
        volumes[i].mount_point matches Some(at) ==> menu_choice(
            "volume.open"@,
            volumes,
            TargetView::Volume(i),
        ) == ActionView::Navigate(at@),
        menu_choice("sidebar.unfavourite"@, volumes, TargetView::Path(p))
            == ActionView::RemoveFavourite(p),
        menu_choice("sidebar.open-window"@, volumes, TargetView::Path(p)) == ActionView::OpenWindow(
            p,
        ),
        favourite_menu() == seq![
            ("Remove from Favourites"@, "sidebar.unfavourite"@),
            ("Open in New Window"@, "sidebar.open-window"@),
        ],
{
    reveal_strlit("volume.mount");
    reveal_strlit("volume.mount-read-only");
    reveal_strlit("volume.open");
    reveal_strlit("volume.unmount");
    reveal_strlit("volume.eject");
    reveal_strlit("sidebar.unfavourite");
    reveal_strlit("sidebar.open-window");
    assert("volume.open"@.len() == 11 && "volume.mount"@.len() == 12 && "volume.unmount"@.len()
        == 14 && "volume.eject"@.len() == 12 && "volume.mount-read-only"@.len() == 22);
    assert("volume.eject"@[7] != "volume.mount"@[7]);
    assert("sidebar.unfavourite"@[8] != "sidebar.open-window"@[8]);
}

/// A click on a row goes where the row points: to its folder, to the trash, to
/// the recent files, or to the network shares where there are any.
pub proof fn law_a_click_goes_where_the_row_points(
    p: Seq<u8>,
    root: Seq<u8>,
    volumes: Seq<Volume>,
    network: Option<Seq<u8>>,
)
    ensures
        action_for(TargetView::Path(p), volumes, network) == ActionView::Navigate(p),
        action_for(TargetView::Trash, volumes, network) == ActionView::OpenTrash,
        action_for(TargetView::Recent, volumes, network) == ActionView::OpenRecent,
        action_for(TargetView::Network, volumes, Some(root)) == ActionView::Navigate(root),
        action_for(TargetView::Network, volumes, None) == ActionView::Nothing,
{
}

/// The row of the place shown is highlighted, and no other: the last one of its
/// section that stands for it.
pub proof fn law_the_place_shown_is_highlighted(
    n: Option<usize>,
    rows: Seq<RowView>,
    at: Seq<u8>,
    volumes: Seq<Volume>,
    network: Option<Seq<u8>>,
    j: int,
)
    requires
        highlights(n, rows, at, volumes, network),
        0 <= j < rows.len(),
    ensures
        rows[j].target == TargetView::Path(at) ==> n is Some && n->0 >= j,
        n matches Some(i) ==> i < rows.len() && is_active(
            rows[i as int].target,
            at,
            volumes,
            network,
        ),
        n matches Some(i) ==> (rows[i as int].target matches TargetView::Path(p)
            ==> path::components(p) == path::components(at)),
        n matches Some(i) ==> rows[i as int].target !is Trash && rows[i as int].target !is Recent,
        rows[j].target matches TargetView::Volume(k) ==> 0 <= k < volumes.len()
            && volumes[k].mount_point is Some && volumes[k].mount_point->0@ == at ==> n is Some
            && n->0 >= j,
        rows[j].target == TargetView::Network && network == Some(at) ==> n is Some && n->0 >= j,
{
}

/// Every place and every favourite has a row that leads to it and takes dropped
/// files there; a favourite that is missing is dimmed.
pub proof fn law_places_and_favourites_lead_there(
    places: Seq<Place>,
    favourites: Seq<FilePath>,
    available: Seq<bool>,
    i: int,
    k: int,
)
    requires
        0 <= i < places.len(),
        0 <= k < favourites.len(),
        available.len() == favourites.len(),
    ensures
        place_rows(places).len() == places.len(),
        place_rows(places)[i].label == places[i].label@,
        place_rows(places)[i].target == TargetView::Path(places[i].path@),
        place_rows(places)[i].drop == Some(places[i].path@),
        place_rows(places)[i].sensitive,
        place_rows(places)[i].icon == places[i].icon@,
        available[k] ==> favourite_rows(favourites, available)[k].tooltip == Some(
            outside::lossy(favourites[k]@),
        ),
        !available[k] ==> favourite_rows(favourites, available)[k].tooltip == Some(
            outside::lossy(favourites[k]@) + " (unavailable)"@,
        ),
        favourite_rows(favourites, available).len() == favourites.len(),
        favourite_rows(favourites, available)[k].target == TargetView::Path(favourites[k]@),
        favourite_rows(favourites, available)[k].drop == Some(favourites[k]@),
        favourite_rows(favourites, available)[k].sensitive <==> available[k],
        favourite_rows(favourites, available)[k].label == favourite_label(favourites[k]@),
        favourite_rows(favourites, available)[k].menu == favourite_menu(),
{
}

/// A favourite goes by its own name.
pub proof fn law_favourites_go_by_their_names(dir: Seq<u8>, name: Seq<u8>)
    requires
        path::is_name(name),
    ensures
        favourite_label(path::joined(dir, name)) == outside::lossy(name),
{
    path::law_join_appends_a_name(dir, name);
}

/// The trash shows how many items it holds, and nothing where it is empty; the
/// network can be clicked exactly where the desktop provides it.
pub proof fn law_the_system_rows(network: Option<NetworkRoot>, count: usize)
    ensures
        trash_row(0).badge is None,
        count > 0 ==> trash_row(count).badge == Some(text::decimal(count as nat)),
        trash_row(count).target == TargetView::Trash,
        network_row(network).sensitive <==> network is Some,
        network_row(network).target == TargetView::Network,
        system_rows(network, count).len() == 4,
        system_rows(network, count)[0].target == TargetView::Recent,
        system_rows(network, count)[1] == network_row(network),
        system_rows(network, count)[2] == trash_row(count),
        system_rows(network, count)[3].target == TargetView::Path(seq![47u8]),
{
    assert(path::root() =~= seq![47u8]);
}

/// The sidebar has the places, the favourites where there are any, the system's
/// locations, and then the drives.
pub proof fn law_the_sections_of_the_sidebar(
    around: Surroundings,
    favourites: Seq<FilePath>,
    count: usize,
    volumes: Seq<Volume>,
)
    ensures
        favourites.len() == 0 ==> built(around, favourites, count, volumes) == seq![
            ("Places"@, place_rows(around.places@)),
            ("System"@, system_rows(around.network, count)),
        ] + device_sections(volumes),
        favourites.len() > 0 ==> built(around, favourites, count, volumes) == seq![
            ("Places"@, place_rows(around.places@)),
            ("Favourites"@, favourite_rows(favourites, around.available@)),
            ("System"@, system_rows(around.network, count)),
        ] + device_sections(volumes),
{
    let all = built(around, favourites, count, volumes);
    if favourites.len() == 0 {
        assert(all =~= seq![
            ("Places"@, place_rows(around.places@)),
            ("System"@, system_rows(around.network, count)),
        ] + device_sections(volumes));
    } else {
        assert(all =~= seq![
            ("Places"@, place_rows(around.places@)),
            ("Favourites"@, favourite_rows(favourites, around.available@)),
            ("System"@, system_rows(around.network, count)),
        ] + device_sections(volumes));
    }
}

/// A drive joins the group of the one before it where both are of one kind, and
/// otherwise begins a group of its own under the heading of its kind.
pub proof fn law_drives_are_grouped_by_kind(volumes: Seq<Volume>, v: Volume)
    ensures
        volumes.len() > 0 && volumes.last().category == v.category ==> device_sections(
            volumes.push(v),
        ).len() == device_sections(volumes).len() && device_sections(volumes.push(v)).last().0
            == device_sections(volumes).last().0 && device_sections(
            volumes.push(v),
        ).drop_last() == device_sections(volumes).drop_last(),
        volumes.len() == 0 || volumes.last().category != v.category ==> device_sections(
            volumes.push(v),
        ).drop_last() == device_sections(volumes),
        volumes.len() == 0 || volumes.last().category != v.category ==> device_sections(
            volumes.push(v),
        ).len() == device_sections(volumes).len() + 1 && device_sections(volumes.push(v)).last().0
            == category_title(v.category),
        category_title(VolumeCategory::Removable) == "Removable Devices"@,
        category_title(VolumeCategory::Windows) == "Windows"@,
        category_title(VolumeCategory::Internal) == "On This Computer"@,
{
    let all = volumes.push(v);
    assert(all.drop_last() =~= volumes);
    law_every_drive_has_a_row(volumes);
    if volumes.len() > 0 {
        assert(all[all.len() - 2] == volumes.last());
    }
    let front = device_sections(volumes);
    if volumes.len() > 0 && volumes.last().category == v.category {
        assert(device_sections(all).drop_last() =~= front.drop_last());
    } else {
        assert(device_sections(all).drop_last() =~= front);
    }
}

/// What is used and what is free make up the whole.
pub proof fn law_used_and_free_make_the_whole(free: u64, total: u64)
    ensures
        free <= total ==> used_bytes(free, total) + free == total,
        free > total ==> used_bytes(free, total) == 0,
{
}

/// The sections that the sidebar shows are those of its places, its favourites,
/// the system and its drives, row by row, and in each the place shown is
/// highlighted.
pub proof fn law_the_sidebar_shows_its_state(bar: Sidebar, around: Surroundings, i: int, j: int)
    requires
        bar.shows(around),
        0 <= i < bar.sections@.len(),
        0 <= j < bar.sections@[i].rows@.len(),
    ensures
        bar.sections@.len() == built(around, bar.favourites@, bar.trash_count, bar.volumes@).len(),
        bar.sections@[i].title@ == built(
            around,
            bar.favourites@,
            bar.trash_count,
            bar.volumes@,
        )[i].0,
        bar.sections@[i].rows@[j]@ == built(
            around,
            bar.favourites@,
            bar.trash_count,
            bar.volumes@,
        )[i].1[j],
        bar.sections@[i].rows@.len() == built(
            around,
            bar.favourites@,
            bar.trash_count,
            bar.volumes@,
        )[i].1.len(),
        bar.sections@[i].rows@[j].target@ == TargetView::Path(bar.current@)
            ==> bar.sections@[i].selected is Some,
{
    let shown = sections_of(bar.sections@);
    assert(shown[i] == (bar.sections@[i].title@, rows_of(bar.sections@[i].rows@)));
    let rows = rows_of(bar.sections@[i].rows@);
    assert(rows[j] == bar.sections@[i].rows@[j]@);
    law_the_place_shown_is_highlighted(
        bar.sections@[i].selected,
        rows,
        bar.current@,
        bar.volumes@,
        network_path(around.network),
        j,
    );
}

} // verus!
