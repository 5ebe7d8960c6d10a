//! Hyprland windows: what the compositor reports of its clients and monitors,
//! and how a window is captured.
//!
//! A window's id is its client's address, and can exceed 32 bits. Pixels are
//! taken from the window's own buffer where the compositor exports it, and
//! otherwise cropped from the screen, which is right only while the window's
//! workspace is the one shown.
use crate::text::{
    blank, chars_of, hexadecimal, is_blank, number, piece, push_hexadecimal, push_signed_decimal,
    read_number, signed_decimal, string_list, texts,
};
use vstd::prelude::*;

verus! {

/// A workspace, by its number. Special workspaces have negative numbers.
#[derive(Debug, Clone, Copy, PartialEq, Eq)]
pub struct HyprWorkspaceRef {
    pub id: i64,
}

/// A client as `hyprctl clients -j` reports it.
#[derive(Debug)]
pub struct HyprClient {
    pub address: String,
    pub mapped: bool,
    pub hidden: bool,
    pub pid: i64,
    pub title: String,
    pub class: String,
    pub at: [i32; 2],
    pub size: [i32; 2],
    pub monitor: Option<i64>,
    pub workspace: Option<HyprWorkspaceRef>,
}

/// What is known of a client.
pub struct ClientModel {
    pub address: Seq<char>,
    pub mapped: bool,
    pub hidden: bool,
    pub pid: i64,
    pub title: Seq<char>,
    pub class: Seq<char>,
    pub x: i32,
    pub y: i32,
    pub width: i32,
    pub height: i32,
    pub monitor: Option<i64>,
    pub workspace: Option<HyprWorkspaceRef>,
}

impl View for HyprClient {
    type V = ClientModel;

    open spec fn view(&self) -> ClientModel {
        ClientModel {
            address: self.address@,
            mapped: self.mapped,
            hidden: self.hidden,
            pid: self.pid,
            title: self.title@,
            class: self.class@,
            x: self.at@[0],
            y: self.at@[1],
            width: self.size@[0],
            height: self.size@[1],
            monitor: self.monitor,
            workspace: self.workspace,
        }
    }
}

/// What is known of the clients in a list.
pub open spec fn client_models(clients: Seq<HyprClient>) -> Seq<ClientModel> {
    clients.map_values(|c: HyprClient| c@)
}

/// A monitor as `hyprctl monitors -j` reports it.
#[derive(Debug)]
pub struct HyprMonitor {
    pub id: i64,
    pub name: String,
    pub focused: bool,
    pub active_workspace: Option<HyprWorkspaceRef>,
    pub special_workspace: Option<HyprWorkspaceRef>,
}

/// A window as it is listed to callers.
#[derive(Debug)]
pub struct WindowInfo {
    pub xid: u64,
    pub pid: Option<u32>,
    pub title: String,
    pub x: i32,
    pub y: i32,
    pub width: u32,
    pub height: u32,
    pub workspace_id: Option<i64>,
}

/// What is listed of a window.
pub struct WindowModel {
    pub xid: u64,
    pub pid: Option<u32>,
    pub title: Seq<char>,
    pub x: i32,
    pub y: i32,
    pub width: u32,
    pub height: u32,
    pub workspace_id: Option<i64>,
}

impl View for WindowInfo {
    type V = WindowModel;

    open spec fn view(&self) -> WindowModel {
        WindowModel {
            xid: self.xid,
            pid: self.pid,
            title: self.title@,
            x: self.x,
            y: self.y,
            width: self.width,
            height: self.height,
            workspace_id: self.workspace_id,
        }
    }
}

/// What is listed of the windows in a list.
pub open spec fn window_models(windows: Seq<WindowInfo>) -> Seq<WindowModel> {
    windows.map_values(|w: WindowInfo| w@)
}

impl WindowInfo {
    /// A copy of the window's entry.
    pub fn copy(&self) -> (r: WindowInfo)
        ensures
            r@ == self@,
    {
        WindowInfo {
            xid: self.xid,
            pid: self.pid,
            title: self.title.clone(),
            x: self.x,
            y: self.y,
            width: self.width,
            height: self.height,
            workspace_id: self.workspace_id,
        }
    }
}

// Addresses

/// An address without any `0x` at its start.
pub open spec fn unprefixed(s: Seq<char>) -> Seq<char>
    decreases s.len(),
{
    if s.len() >= 2 && s[0] == '0' && s[1] == 'x' {
        unprefixed(s.skip(2))
    } else {
        s
    }
}

/// The window id that an address denotes.
pub open spec fn address_of(s: Seq<char>) -> Option<u64> {
    match number(unprefixed(s), 16, u64::MAX as nat) {
        Some(n) => Some(n as u64),
        None => None,
    }
}

/// Reads a client's address.
pub fn parse_address(address: &str) -> (r: Option<u64>)
    ensures
        r == address_of(address@),
{
    let v = chars_of(address);
    let n: usize = v.len();
    let mut i: usize = 0;
    assert(v@.skip(0) =~= v@);
    while n - i >= 2 && v[i] == '0' && v[i + 1] == 'x'
        invariant
            i <= n == v@.len(),
            v@ == address@,
            unprefixed(address@) == unprefixed(v@.skip(i as int)),
        decreases n - i,
    {
        assert(v@.skip(i as int).skip(2) =~= v@.skip(i + 2));
        i += 2;
    }
    let digits = piece(&v, i, n);
    assert(digits@ =~= v@.skip(i as int));
    read_number(&digits, 16, u64::MAX)
}

// Listing windows

/// The process of a client, where its number is one.
pub open spec fn client_pid(pid: i64) -> Option<u32> {
    if 0 <= pid <= u32::MAX {
        Some(pid as u32)
    } else {
        None
    }
}

/// Whether a client is on screen, or would be if its workspace were.
pub open spec fn displayable(c: ClientModel) -> bool {
    c.mapped && !c.hidden && c.width > 1 && c.height > 1
}

/// A client's title, or its class where the title is blank.
pub open spec fn shown_title(c: ClientModel) -> Seq<char> {
    if blank(c.title) {
        c.class
    } else {
        c.title
    }
}

/// The entry of a client in the list of windows, if it has one. With a filter,
/// only the windows of that process have.
pub open spec fn window_of(c: ClientModel, filter_pid: Option<u32>) -> Option<WindowModel> {
    if displayable(c) && (filter_pid is Some ==> client_pid(c.pid) == filter_pid) && address_of(
        c.address,
    ) is Some && !blank(shown_title(c)) {
        Some(
            WindowModel {
                xid: address_of(c.address)->0,
                pid: client_pid(c.pid),
                title: shown_title(c),
                x: c.x,
                y: c.y,
                width: c.width as u32,
                height: c.height as u32,
                workspace_id: match c.workspace {
                    Some(w) => Some(w.id),
                    None => None,
                },
            },
        )
    } else {
        None
    }
}

/// The list of windows that a list of clients makes, in the same order.
pub open spec fn windows_of(clients: Seq<ClientModel>, filter_pid: Option<u32>) -> Seq<WindowModel>
    decreases clients.len(),
{
    if clients.len() == 0 {
        Seq::empty()
    } else {
        let before = windows_of(clients.drop_last(), filter_pid);
        match window_of(clients.last(), filter_pid) {
            Some(w) => before.push(w),
            None => before,
        }
    }
}

fn pid_of(pid: i64) -> (r: Option<u32>)
    ensures
        r == client_pid(pid),
{
    if 0 <= pid && pid <= 4294967295 {
        Some(pid as u32)
    } else {
        None
    }
}

/// The entry of a client in the list of windows, if it has one.
fn client_window(c: &HyprClient, filter_pid: Option<u32>) -> (r: Option<WindowInfo>)
    ensures
        (match r {
            Some(w) => window_of(c@, filter_pid) == Some(w@),
            None => window_of(c@, filter_pid) is None,
        }),
{
    let width: i32 = c.size[0];
    let height: i32 = c.size[1];
    if !c.mapped || c.hidden || width <= 1 || height <= 1 {
        return None;
    }
    let pid = pid_of(c.pid);
    if let Some(wanted) = filter_pid {
        match pid {
            Some(p) => if p != wanted {
                return None;
            },
            None => {
                return None;
            },
        }
    }
    let xid: u64 = match parse_address(c.address.as_str()) {
        Some(id) => id,
        None => {
            return None;
        },
    };
    let title = if is_blank(c.title.as_str()) {
        c.class.clone()
    } else {
        c.title.clone()
    };
    if is_blank(title.as_str()) {
        return None;
    }
    Some(
        WindowInfo {
            xid,
            pid,
            title,
            x: c.at[0],
            y: c.at[1],
            width: width as u32,
            height: height as u32,
            workspace_id: match &c.workspace {
                Some(w) => Some(w.id),
                None => None,
            },
        },
    )
}

/// The windows of a list of clients, or of one process among them.
pub fn list_windows_inner(clients: &[HyprClient], filter_pid: Option<u32>) -> (r: Vec<WindowInfo>)
    ensures
        window_models(r@) == windows_of(client_models(clients@), filter_pid),
{
    let mut r: Vec<WindowInfo> = Vec::new();
    let mut i: usize = 0;
    let ghost models = client_models(clients@);
    assert(window_models(r@) =~= windows_of(models.take(0), filter_pid));
    while i < clients.len()
        invariant
            i <= clients.len(),
            models == client_models(clients@),
            window_models(r@) == windows_of(models.take(i as int), filter_pid),
        decreases clients.len() - i,
    {
        assert(models.take(i + 1).drop_last() =~= models.take(i as int));
        assert(models.take(i + 1).last() == clients@[i as int]@);
        let ghost before = r@;
        if let Some(w) = client_window(&clients[i], filter_pid) {
            r.push(w);
            assert(window_models(r@) =~= window_models(before).push(w@));
        }
        i += 1;
    }
    assert(models.take(i as int) =~= models);
    r
}

/// The windows on screen, of all processes or of one; none where the
/// compositor did not report its clients.
pub fn list_windows(clients: Option<&[HyprClient]>, filter_pid: Option<u32>) -> (r: Vec<WindowInfo>)
    ensures
        window_models(r@) == (match clients {
            Some(list) => windows_of(client_models(list@), filter_pid),
            None => Seq::empty(),
        }),
{
    match clients {
        Some(list) => list_windows_inner(list, filter_pid),
        None => {
            let none: Vec<WindowInfo> = Vec::new();
            assert(window_models(none@) =~= Seq::<WindowModel>::empty());
            none
        },
    }
}

// Monitors

/// The first monitor that has the focus.
pub open spec fn focused_index(monitors: Seq<HyprMonitor>) -> Option<int> {
    monitors.map_values(|m: HyprMonitor| m.focused).index_of_first(true)
}

/// The name of the monitor that has the focus; none where the compositor did
/// not report its monitors.
pub fn focused_monitor_name(monitors: Option<&[HyprMonitor]>) -> (r: Option<String>)
    ensures
        (match r {
            Some(name) => monitors is Some && focused_index(monitors->0@) is Some && name@
                == monitors->0@[focused_index(monitors->0@)->0].name@,
            None => monitors is Some ==> focused_index(monitors->0@) is None,
        }),
{
    let list = match monitors {
        Some(list) => list,
        None => {
            return None;
        },
    };
    let ghost focus = list@.map_values(|m: HyprMonitor| m.focused);
    let mut i: usize = 0;
    while i < list.len()
        invariant
            i <= list.len(),
            monitors == Some(list),
            focus == list@.map_values(|m: HyprMonitor| m.focused),
            forall|j: int| 0 <= j < i ==> !#[trigger] focus[j],
        decreases list.len() - i,
    {
        if list[i].focused {
            proof {
                focus.index_of_first_ensures(true);
                assert(focus[i as int]);
                assert(focus.contains(true));
            }
            return Some(list[i].name.clone());
        }
        i += 1;
    }
    proof {
        focus.index_of_first_ensures(true);
    }
    None
}

/// The workspaces that a monitor shows: its active one, and a special one that
/// lies over it. A special workspace with the number zero is none.
pub open spec fn shown_workspaces(m: HyprMonitor) -> Seq<i64> {
    (match m.active_workspace {
        Some(w) => seq![w.id],
        None => seq![],
    }) + (match m.special_workspace {
        Some(w) => if w.id != 0 {
            seq![w.id]
        } else {
            seq![]
        },
        None => seq![],
    })
}

/// The workspaces that some monitor shows, monitor by monitor.
pub open spec fn visible_ids(monitors: Seq<HyprMonitor>) -> Seq<i64>
    decreases monitors.len(),
{
    if monitors.len() == 0 {
        Seq::empty()
    } else {
        visible_ids(monitors.drop_last()) + shown_workspaces(monitors.last())
    }
}

/// The workspaces that some monitor shows; none where the compositor did not
/// report its monitors.
pub fn visible_workspace_ids(monitors: Option<&[HyprMonitor]>) -> (r: Vec<i64>)
    ensures
        r@ == (match monitors {
            Some(list) => visible_ids(list@),
            None => Seq::empty(),
        }),
{
    let mut ids: Vec<i64> = Vec::new();
    let list = match monitors {
        Some(list) => list,
        None => {
            return ids;
        },
    };
    let mut i: usize = 0;
    while i < list.len()
        invariant
            i <= list.len(),
            ids@ == visible_ids(list@.take(i as int)),
        decreases list.len() - i,
    {
        assert(list@.take(i + 1).drop_last() =~= list@.take(i as int));
        if let Some(w) = &list[i].active_workspace {
            ids.push(w.id);
        }
        if let Some(w) = &list[i].special_workspace {
            if w.id != 0 {
                ids.push(w.id);
            }
        }
        i += 1;
        assert(ids@ =~= visible_ids(list@.take(i as int)));
    }
    assert(list@.take(i as int) =~= list@);
    ids
}

/// Where a monitor with an id stands first.
pub open spec fn monitor_index(monitors: Seq<HyprMonitor>, id: i64) -> Option<int> {
    monitors.map_values(|m: HyprMonitor| m.id).index_of_first(id)
}

fn find_monitor(monitors: &[HyprMonitor], id: i64) -> (r: Option<usize>)
    ensures
        (match r {
            Some(i) => i < monitors@.len() && monitor_index(monitors@, id) == Some(i as int),
            None => monitor_index(monitors@, id) is None,
        }),
{
    let ghost ids = monitors@.map_values(|m: HyprMonitor| m.id);
    let mut i: usize = 0;
    while i < monitors.len()
        invariant
            i <= monitors.len(),
            ids == monitors@.map_values(|m: HyprMonitor| m.id),
            forall|j: int| 0 <= j < i ==> #[trigger] ids[j] != id,
        decreases monitors.len() - i,
    {
        if monitors[i].id == id {
            proof {
                ids.index_of_first_ensures(id);
                assert(ids[i as int] == id);
                assert(ids.contains(id));
            }
            return Some(i);
        }
        i += 1;
    }
    proof {
        ids.index_of_first_ensures(id);
    }
    None
}

/// Where a client with an address stands first.
pub open spec fn client_index(clients: Seq<ClientModel>, window_id: u64) -> Option<int> {
    clients.map_values(|c: ClientModel| address_of(c.address)).index_of_first(Some(window_id))
}

/// Finds the client of a window.
pub fn find_client(clients: &[HyprClient], window_id: u64) -> (r: Option<usize>)
    ensures
        (match r {
            Some(i) => i < clients@.len() && client_index(client_models(clients@), window_id) == Some(
                i as int,
            ),
            None => client_index(client_models(clients@), window_id) is None,
        }),
{
    let ghost ids = client_models(clients@).map_values(|c: ClientModel| address_of(c.address));
    let mut i: usize = 0;
    while i < clients.len()
        invariant
            i <= clients.len(),
            ids == client_models(clients@).map_values(|c: ClientModel| address_of(c.address)),
            forall|j: int| 0 <= j < i ==> #[trigger] ids[j] != Some(window_id),
        decreases clients.len() - i,
    {
        let id = parse_address(clients[i].address.as_str());
        assert(ids[i as int] == id);
        if let Some(id) = id {
            if id == window_id {
                proof {
                    ids.index_of_first_ensures(Some(window_id));
                    assert(ids.contains(Some(window_id)));
                }
                return Some(i);
            }
        }
        i += 1;
    }
    proof {
        ids.index_of_first_ensures(Some(window_id));
    }
    None
}

/// Where the monitor that a window is on stands in the list of monitors.
pub open spec fn window_monitor(
    clients: Seq<HyprClient>,
    monitors: Seq<HyprMonitor>,
    window_id: u64,
) -> Option<int> {
    match client_index(client_models(clients), window_id) {
        Some(i) => match clients[i].monitor {
            Some(id) => monitor_index(monitors, id),
            None => None,
        },
        None => None,
    }
}

/// Where the monitor that a window is on stands in the list of monitors. A
/// window's pixels are at that monitor's scale.
pub fn monitor_for_window(
    clients: &[HyprClient],
    monitors: &[HyprMonitor],
    window_id: u64,
) -> (r: Option<usize>)
    ensures
        (match window_monitor(clients@, monitors@, window_id) {
            Some(k) => r matches Some(index) && index == k,
            None => r is None,
        }),
{
    match find_client(clients, window_id) {
        Some(i) => match clients[i].monitor {
            Some(id) => find_monitor(monitors, id),
            None => None,
        },
        None => None,
    }
}

// Capturing a window

/// How the pixels of a window were obtained. Cropped pixels come from the
/// screen at the window's place and can show what lies over the window.
#[derive(Debug, Clone, Copy, PartialEq, Eq)]
pub enum CaptureMethod {
    ToplevelExport,
    RegionCrop,
}

/// Why a window cannot be cropped from the screen.
#[derive(Debug, Clone, Copy, PartialEq, Eq)]
pub enum CropError {
    /// There is no client with the window's address.
    NotFound { window_id: u64 },
    /// The client is not more than a pixel wide or high.
    InvalidGeometry { window_id: u64 },
    /// The client's monitor shows another workspace.
    OtherWorkspace { window_id: u64, workspace: i64, shown: i64 },
}

impl CropError {
    /// The window that could not be cropped.
    pub open spec fn window(self) -> u64 {
        match self {
            CropError::NotFound { window_id } => window_id,
            CropError::InvalidGeometry { window_id } => window_id,
            CropError::OtherWorkspace { window_id, .. } => window_id,
        }
    }

    /// The reason in words.
    pub open spec fn words(self) -> Seq<char> {
        "Hyprland client 0x"@ + hexadecimal(self.window() as nat) + (match self {
            CropError::NotFound { .. } => " not found"@,
            CropError::InvalidGeometry { .. } => " has invalid geometry"@,
            CropError::OtherWorkspace { workspace, shown, .. } => " is on workspace "@ + signed_decimal(
                workspace as int,
            ) + " but its monitor shows workspace "@ + signed_decimal(shown as int)
                + "; a grim region crop would capture unrelated content"@,
        })
    }

    /// The reason in words.
    pub fn message(&self) -> (r: String)
        ensures
            r@ == self.words(),
    {
        let mut r = "Hyprland client 0x".to_owned();
        match self {
            CropError::NotFound { window_id } => {
                push_hexadecimal(&mut r, *window_id);
                r.append(" not found");
            },
            CropError::InvalidGeometry { window_id } => {
                push_hexadecimal(&mut r, *window_id);
                r.append(" has invalid geometry");
            },
            CropError::OtherWorkspace { window_id, workspace, shown } => {
                push_hexadecimal(&mut r, *window_id);
                r.append(" is on workspace ");
                push_signed_decimal(&mut r, *workspace);
                r.append(" but its monitor shows workspace ");
                push_signed_decimal(&mut r, *shown);
                r.append("; a grim region crop would capture unrelated content");
            },
        }
        assert(r@ =~= self.words());
        r
    }
}

/// A client's place on the screen, as grim takes it.
pub open spec fn geometry_text(c: ClientModel) -> Seq<char> {
    signed_decimal(c.x as int) + ","@ + signed_decimal(c.y as int) + " "@ + signed_decimal(
        c.width as int,
    ) + "x"@ + signed_decimal(c.height as int)
}

/// The workspace that a monitor shows, as far as it is known.
pub open spec fn active_on(monitors: Option<Seq<HyprMonitor>>, id: i64) -> Option<i64> {
    match monitors {
        Some(list) => match monitor_index(list, id) {
            Some(k) => match list[k].active_workspace {
                Some(w) => Some(w.id),
                None => None,
            },
            None => None,
        },
        None => None,
    }
}

/// The place at which a window is cropped from the screen, or why it is not.
/// It is not where its monitor is known to show another workspace: the crop
/// would hold something else and look like a faithful capture.
pub open spec fn crop_of(
    clients: Seq<ClientModel>,
    monitors: Option<Seq<HyprMonitor>>,
    window_id: u64,
) -> Result<Seq<char>, CropError> {
    match client_index(clients, window_id) {
        None => Err(CropError::NotFound { window_id }),
        Some(i) => {
            let c = clients[i];
            if c.width <= 1 || c.height <= 1 {
                Err(CropError::InvalidGeometry { window_id })
            } else {
                match (c.workspace, c.monitor) {
                    (Some(w), Some(m)) => match active_on(monitors, m) {
                        Some(shown) => if shown != w.id {
                            Err(CropError::OtherWorkspace { window_id, workspace: w.id, shown })
                        } else {
                            Ok(geometry_text(c))
                        },
                        None => Ok(geometry_text(c)),
                    },
                    _ => Ok(geometry_text(c)),
                }
            }
        },
    }
}

/// The contents of the monitors in a list, if there is one.
pub open spec fn monitor_list(monitors: Option<&[HyprMonitor]>) -> Option<Seq<HyprMonitor>> {
    match monitors {
        Some(list) => Some(list@),
        None => None,
    }
}

fn active_workspace_on(monitors: Option<&[HyprMonitor]>, id: i64) -> (r: Option<i64>)
    ensures
        r == active_on(monitor_list(monitors), id),
{
    match monitors {
        Some(list) => match find_monitor(list, id) {
            Some(k) => match &list[k].active_workspace {
                Some(w) => Some(w.id),
                None => None,
            },
            None => None,
        },
        None => None,
    }
}

/// Whether the monitors have to be asked before a window is cropped: its size
/// is valid, and its workspace and its monitor are known.
pub open spec fn needs_monitors(clients: Seq<HyprClient>, window_id: u64) -> bool {
    match client_index(client_models(clients), window_id) {
        Some(i) => clients[i]@.width > 1 && clients[i]@.height > 1 && clients[i].workspace is Some
            && clients[i].monitor is Some,
        None => false,
    }
}

/// Whether the monitors have to be asked before a window is cropped.
pub fn crop_needs_monitors(clients: &[HyprClient], window_id: u64) -> (r: bool)
    ensures
        r == needs_monitors(clients@, window_id),
{
    match find_client(clients, window_id) {
        Some(i) => clients[i].size[0] > 1 && clients[i].size[1] > 1 && clients[i].workspace.is_some()
            && clients[i].monitor.is_some(),
        None => false,
    }
}

fn client_geometry(c: &HyprClient) -> (r: String)
    ensures
        r@ == geometry_text(c@),
{
    let mut r = String::new();
    push_signed_decimal(&mut r, c.at[0] as i64);
    r.append(",");
    push_signed_decimal(&mut r, c.at[1] as i64);
    r.append(" ");
    push_signed_decimal(&mut r, c.size[0] as i64);
    r.append("x");
    push_signed_decimal(&mut r, c.size[1] as i64);
    assert(r@ =~= geometry_text(c@));
    r
}

/// Finds the place at which a window is cropped from the screen.
pub fn screenshot_window_bytes_grim(
    clients: &[HyprClient],
    monitors: Option<&[HyprMonitor]>,
    window_id: u64,
) -> (r: Result<String, CropError>)
    ensures
        (match r {
            Ok(geometry) => crop_of(client_models(clients@), monitor_list(monitors), window_id) == Ok::<
                Seq<char>,
                CropError,
            >(geometry@),
            Err(e) => crop_of(client_models(clients@), monitor_list(monitors), window_id) == Err::<
                Seq<char>,
                CropError,
            >(e),
        }),
{
    let c = match find_client(clients, window_id) {
        Some(i) => &clients[i],
        None => {
            return Err(CropError::NotFound { window_id });
        },
    };
    if c.size[0] <= 1 || c.size[1] <= 1 {
        return Err(CropError::InvalidGeometry { window_id });
    }
    if let (Some(w), Some(m)) = (&c.workspace, &c.monitor) {
        if let Some(shown) = active_workspace_on(monitors, *m) {
            if shown != w.id {
                return Err(CropError::OtherWorkspace { window_id, workspace: w.id, shown });
            }
        }
    }
    Ok(client_geometry(c))
}

/// Keeps the number of exports under way at one: whether one is.
#[derive(Debug, Clone, Copy, PartialEq, Eq)]
pub struct ExportSlot {
    pub in_flight: bool,
}

impl ExportSlot {
    /// Whether an export may begin.
    pub open spec fn grants(self) -> bool {
        !self.in_flight
    }

    /// The slot after a request to begin.
    pub open spec fn begun(self) -> ExportSlot {
        ExportSlot { in_flight: true }
    }

    /// The slot after the end of an export.
    pub open spec fn finished(self) -> ExportSlot {
        ExportSlot { in_flight: false }
    }

    /// A slot with no export under way.
    pub fn new() -> (r: ExportSlot)
        ensures
            !r.in_flight,
    {
        ExportSlot { in_flight: false }
    }

    /// Asks to begin an export, which is granted unless one is under way.
    pub fn begin(&mut self) -> (granted: bool)
        ensures
            granted == old(self).grants(),
            *final(self) == old(self).begun(),
    {
        let granted = !self.in_flight;
        self.in_flight = true;
        granted
    }

    /// Notes that the export has come to its end, or could not be begun.
    pub fn finish(&mut self)
        ensures
            *final(self) == old(self).finished(),
    {
        self.in_flight = false;
    }
}

/// What became of an export of a window's own buffer.
#[derive(Debug)]
pub enum ExportOutcome {
    /// It was not begun, because an earlier one is still under way.
    StillInFlight,
    /// Its thread could not be started.
    NotSpawned,
    /// It did not come to its end in time.
    TimedOut,
    /// It failed.
    Failed,
    /// It gave a picture.
    Captured(Vec<u8>),
}

/// How long an export may take, in seconds.
pub const EXPORT_TIMEOUT_SECS: u64 = 6;

/// What follows an export.
#[derive(Debug)]
pub enum CaptureStep {
    /// The picture is there.
    Done(Vec<u8>, CaptureMethod),
    /// The window is to be cropped from the screen.
    Crop,
}

/// Takes an exported picture, and asks for a crop where there is none.
pub fn screenshot_window_bytes_with_provenance(export: ExportOutcome) -> (r: CaptureStep)
    ensures
        (match export {
            ExportOutcome::Captured(png) => r == CaptureStep::Done(png, CaptureMethod::ToplevelExport),
            _ => r is Crop,
        }),
{
    match export {
        ExportOutcome::Captured(png) => CaptureStep::Done(png, CaptureMethod::ToplevelExport),
        _ => CaptureStep::Crop,
    }
}

/// A picture cropped from the screen, with how it was obtained.
pub fn cropped(png: Vec<u8>) -> (r: (Vec<u8>, CaptureMethod))
    ensures
        r == (png, CaptureMethod::RegionCrop),
{
    (png, CaptureMethod::RegionCrop)
}

/// A window's picture, whichever way it was obtained.
pub fn screenshot_window_bytes(shot: (Vec<u8>, CaptureMethod)) -> (r: Vec<u8>)
    ensures
        r == shot.0,
{
    shot.0
}

// What the tools answered

/// A question to the compositor or to grim that failed.
#[derive(Debug)]
pub enum QueryError {
    /// The compositor did not report its clients.
    Clients,
    /// The compositor did not report its monitors.
    Monitors,
    /// There is no Hyprland session.
    NotASession,
    /// grim did not crop the screen. Holds the place.
    Region(String),
    /// grim did not capture the display.
    Display,
}

impl QueryError {
    /// The failure in words.
    pub open spec fn words(self) -> Seq<char> {
        match self {
            QueryError::Clients => "hyprctl clients -j failed"@,
            QueryError::Monitors => "hyprctl monitors -j failed"@,
            QueryError::NotASession => "not a Hyprland session"@,
            QueryError::Region(geometry) => "grim failed for Hyprland geometry "@ + geometry@,
            QueryError::Display => "grim full-output capture failed"@,
        }
    }

    /// The failure in words.
    pub fn message(&self) -> (r: String)
        ensures
            r@ == self.words(),
    {
        match self {
            QueryError::Clients => "hyprctl clients -j failed".to_owned(),
            QueryError::Monitors => "hyprctl monitors -j failed".to_owned(),
            QueryError::NotASession => "not a Hyprland session".to_owned(),
            QueryError::Region(geometry) => {
                let mut r = "grim failed for Hyprland geometry ".to_owned();
                r.append(geometry.as_str());
                r
            },
            QueryError::Display => "grim full-output capture failed".to_owned(),
        }
    }
}

/// Whether a tool succeeded and wrote something.
pub fn usable(success: bool, stdout: &[u8]) -> (r: bool)
    ensures
        r == (success && stdout@.len() > 0),
{
    success && stdout.len() > 0
}

/// What a tool wrote, if it succeeded and wrote something.
pub fn answered(success: bool, stdout: Vec<u8>, failure: QueryError) -> (r: Result<Vec<u8>, QueryError>)
    ensures
        r == (if success && stdout@.len() > 0 {
            Ok::<Vec<u8>, QueryError>(stdout)
        } else {
            Err::<Vec<u8>, QueryError>(failure)
        }),
{
    if usable(success, &stdout) {
        Ok(stdout)
    } else {
        Err(failure)
    }
}

/// Whether the compositor is to be asked for its monitors.
pub fn may_ask_monitors(session: bool) -> (r: Result<(), QueryError>)
    ensures
        r == (if session {
            Ok::<(), QueryError>(())
        } else {
            Err::<(), QueryError>(QueryError::NotASession)
        }),
{
    if session {
        Ok(())
    } else {
        Err(QueryError::NotASession)
    }
}

/// The arguments with which grim crops a place from the screen.
pub fn grim_region_args(geometry: &str) -> (r: Vec<String>)
    ensures
        texts(r@) == seq!["-g"@, geometry@, "-t"@, "png"@, "-"@],
{
    let r = string_list(&["-g", geometry, "-t", "png", "-"]);
    assert(texts(r@) =~= seq!["-g"@, geometry@, "-t"@, "png"@, "-"@]);
    r
}

/// The arguments with which grim captures the display.
pub fn screenshot_display_bytes_grim() -> (r: Vec<String>)
    ensures
        texts(r@) == seq!["-t"@, "png"@, "-"@],
{
    let r = string_list(&["-t", "png", "-"]);
    assert(texts(r@) =~= seq!["-t"@, "png"@, "-"@]);
    r
}

/// The id of the window that has the focus, from its reported address.
pub fn active_window_address(address: Option<&str>) -> (r: Option<u64>)
    ensures
        r == (match address {
            Some(a) => address_of(a@),
            None => None,
        }),
{
    match address {
        Some(a) => parse_address(a),
        None => None,
    }
}

} // verus!
