//! The LCD screens: which screen comes next, and which values each screen
//! (re)draws for a status, given the status it showed last.
use vstd::prelude::*;
use crate::form::{utf8_len, utf8_width};
use crate::text::{decimal, push_decimal, push_str, str_chars, string_from_chars};

verus! {

/// Number of display screens.
pub const NUM_SCREENS: u8 = 4;

/// The display screens, cycled with button A.
#[derive(Debug, Clone, Copy, PartialEq, Eq, Structural)]
pub enum DisplayScreen {
    /// Traffic statistics, loop time, errors.
    Status,
    /// WiFi, MS/TP state, baud rate, address.
    Connection,
    /// Access point mode information.
    APConfig,
    /// The logo.
    Splash,
}

impl Default for DisplayScreen {
    /// The Status screen.
    fn default() -> (r: DisplayScreen)
        ensures
            r == DisplayScreen::Status,
    {
        DisplayScreen::Status
    }
}

/// Position of a screen in the cycle.
pub open spec fn screen_index(s: DisplayScreen) -> u8 {
    match s {
        DisplayScreen::Status => 0,
        DisplayScreen::Connection => 1,
        DisplayScreen::APConfig => 2,
        DisplayScreen::Splash => 3,
    }
}

impl DisplayScreen {
    /// The next screen in the cycle (after Splash comes Status again).
    pub fn next(self) -> (r: DisplayScreen)
        ensures
            screen_index(r) == (screen_index(self) + 1) % 4,
    {
        match self {
            DisplayScreen::Status => DisplayScreen::Connection,
            DisplayScreen::Connection => DisplayScreen::APConfig,
            DisplayScreen::APConfig => DisplayScreen::Splash,
            DisplayScreen::Splash => DisplayScreen::Status,
        }
    }

    /// The screen at position `val` of the cycle, counted modulo 4.
    pub fn from_u8(val: u8) -> (r: DisplayScreen)
        ensures
            screen_index(r) == val % NUM_SCREENS,
    {
        match val % NUM_SCREENS {
            0 => DisplayScreen::Status,
            1 => DisplayScreen::Connection,
            2 => DisplayScreen::APConfig,
            _ => DisplayScreen::Splash,
        }
    }
}

/// What the screens show.
#[derive(Debug, Clone)]
pub struct GatewayStatus {
    pub wifi_connected: bool,
    pub ip_address: String,
    pub mstp_network: u16,
    pub ip_network: u16,
    pub rx_frames: u64,
    pub tx_frames: u64,
    pub crc_errors: u64,
    pub token_loop_ms: u32,
    pub master_count: u8,
    pub mstp_address: u8,
    pub mstp_max_master: u8,
    pub mstp_baud_rate: u32,
    pub mstp_state: String,
    pub has_token: bool,
    pub ap_mode_active: bool,
    pub ap_ssid: String,
    pub ap_ip: String,
    pub ap_clients: u8,
}

/// Mathematical view of a status.
pub struct StatusView {
    pub wifi_connected: bool,
    pub ip_address: Seq<char>,
    pub mstp_network: u16,
    pub ip_network: u16,
    pub rx_frames: u64,
    pub tx_frames: u64,
    pub crc_errors: u64,
    pub token_loop_ms: u32,
    pub master_count: u8,
    pub mstp_address: u8,
    pub mstp_max_master: u8,
    pub mstp_baud_rate: u32,
    pub mstp_state: Seq<char>,
    pub has_token: bool,
    pub ap_mode_active: bool,
    pub ap_ssid: Seq<char>,
    pub ap_ip: Seq<char>,
    pub ap_clients: u8,
}

impl View for GatewayStatus {
    type V = StatusView;

    open spec fn view(&self) -> StatusView {
        StatusView {
            wifi_connected: self.wifi_connected,
            ip_address: self.ip_address@,
            mstp_network: self.mstp_network,
            ip_network: self.ip_network,
            rx_frames: self.rx_frames,
            tx_frames: self.tx_frames,
            crc_errors: self.crc_errors,
            token_loop_ms: self.token_loop_ms,
            master_count: self.master_count,
            mstp_address: self.mstp_address,
            mstp_max_master: self.mstp_max_master,
            mstp_baud_rate: self.mstp_baud_rate,
            mstp_state: self.mstp_state@,
            has_token: self.has_token,
            ap_mode_active: self.ap_mode_active,
            ap_ssid: self.ap_ssid@,
            ap_ip: self.ap_ip@,
            ap_clients: self.ap_clients,
        }
    }
}

impl Default for GatewayStatus {
    /// Nothing connected, all counters zero, all texts empty.
    fn default() -> (r: GatewayStatus)
        ensures
            r@ == (StatusView {
                wifi_connected: false,
                ip_address: Seq::empty(),
                mstp_network: 0,
                ip_network: 0,
                rx_frames: 0,
                tx_frames: 0,
                crc_errors: 0,
                token_loop_ms: 0,
                master_count: 0,
                mstp_address: 0,
                mstp_max_master: 0,
                mstp_baud_rate: 0,
                mstp_state: Seq::empty(),
                has_token: false,
                ap_mode_active: false,
                ap_ssid: Seq::empty(),
                ap_ip: Seq::empty(),
                ap_clients: 0,
            }),
    {
        GatewayStatus {
            wifi_connected: false,
            ip_address: String::new(),
            mstp_network: 0,
            ip_network: 0,
            rx_frames: 0,
            tx_frames: 0,
            crc_errors: 0,
            token_loop_ms: 0,
            master_count: 0,
            mstp_address: 0,
            mstp_max_master: 0,
            mstp_baud_rate: 0,
            mstp_state: String::new(),
            has_token: false,
            ap_mode_active: false,
            ap_ssid: String::new(),
            ap_ip: String::new(),
            ap_clients: 0,
        }
    }
}

/// Text colours of the screens.
#[derive(Debug, Clone, Copy, PartialEq, Eq, Structural)]
pub enum TextColor {
    White,
    Green,
    Yellow,
    Red,
}

/// One value to draw: the region at (`x`, `y`) of `width` pixels is cleared
/// and `text` drawn there in `color`.
#[derive(Debug, Clone)]
pub struct DrawValue {
    pub x: i32,
    pub y: i32,
    pub width: u32,
    pub text: String,
    pub color: TextColor,
}

/// A value to draw, with its text as characters.
pub type DrawSpec = (i32, i32, u32, Seq<char>, TextColor);

/// The values of `v` as specifications.
pub open spec fn draws_view(v: Seq<DrawValue>) -> Seq<DrawSpec> {
    v.map_values(|d: DrawValue| (d.x, d.y, d.width, d.text@, d.color))
}

/// The status shown last, if any.
pub open spec fn last_view(last: Option<GatewayStatus>) -> Option<StatusView> {
    match last {
        Some(s) => Some(s@),
        None => None,
    }
}

fn draw(out: &mut Vec<DrawValue>, x: i32, y: i32, width: u32, text: &Vec<char>, color: TextColor)
    ensures
        draws_view(final(out)@) == draws_view(old(out)@).push((x, y, width, text@, color)),
{
    let ghost before = draws_view(out@);
    out.push(DrawValue { x, y, width, text: string_from_chars(text), color });
    assert(draws_view(out@) =~= before.push((x, y, width, text@, color)));
}

fn strings_equal(a: &String, b: &String) -> (r: bool)
    ensures
        r == (a@ == b@),
{
    let x = str_chars(a.as_str());
    let y = str_chars(b.as_str());
    if x.len() != y.len() {
        return false;
    }
    let mut i: usize = 0;
    while i < x.len()
        invariant
            i <= x@.len(),
            x@.len() == y@.len(),
            x@ == a@,
            y@ == b@,
            forall|j: int| 0 <= j < i ==> x@[j] == y@[j],
        decreases x@.len() - i,
    {
        if x[i] != y[i] {
            return false;
        }
        i = i + 1;
    }
    assert(x@ =~= y@);
    true
}

fn chars_of(s: &String) -> (r: Vec<char>)
    ensures
        r@ == s@,
{
    str_chars(s.as_str())
}

// ---------------------------------------------------------------------------
// Status screen

/// The WiFi line of the Status screen.
pub open spec fn status_wifi_draw(s: StatusView) -> DrawSpec {
    (10, 35, 230, "WiFi:"@ + if s.wifi_connected {
        "OK"@
    } else {
        "--"@
    } + " "@ + s.ip_address, if s.wifi_connected {
        TextColor::Green
    } else {
        TextColor::Yellow
    })
}

/// The networks value of the Status screen.
pub open spec fn status_net_draw(s: StatusView) -> DrawSpec {
    (34, 55, 80, decimal(s.mstp_network as nat) + "<->"@ + decimal(s.ip_network as nat), TextColor::White)
}

/// The error count of the Status screen: red once there are errors.
pub open spec fn status_crc_draw(s: StatusView) -> DrawSpec {
    (124, 95, 40, decimal(s.crc_errors as nat), if s.crc_errors > 0 {
        TextColor::Red
    } else {
        TextColor::Green
    })
}

/// `d` when `changed`, nothing otherwise.
pub open spec fn when_changed(changed: bool, d: DrawSpec) -> Seq<DrawSpec> {
    if changed {
        seq![d]
    } else {
        Seq::empty()
    }
}

/// The values the Status screen draws for `s`: all of them the first time
/// (nothing shown yet), afterwards only those that changed since `last`.
pub open spec fn status_draws(last: Option<StatusView>, s: StatusView) -> Seq<DrawSpec> {
    let rx = (28i32, 75i32, 60u32, decimal(s.rx_frames as nat), TextColor::Green);
    let tx = (118i32, 75i32, 70u32, decimal(s.tx_frames as nat), TextColor::Green);
    let lp = (40i32, 95i32, 50u32, decimal(s.token_loop_ms as nat) + "ms"@, TextColor::White);
    let mc = (182i32, 95i32, 30u32, decimal(s.master_count as nat), TextColor::White);
    match last {
        None => seq![status_wifi_draw(s), status_net_draw(s), rx, tx, lp, status_crc_draw(s), mc],
        Some(l) => when_changed(
            l.wifi_connected != s.wifi_connected || l.ip_address != s.ip_address,
            status_wifi_draw(s),
        ) + when_changed(l.mstp_network != s.mstp_network || l.ip_network != s.ip_network, status_net_draw(s))
            + when_changed(l.rx_frames != s.rx_frames, rx) + when_changed(l.tx_frames != s.tx_frames, tx)
            + when_changed(l.token_loop_ms != s.token_loop_ms, lp) + when_changed(
            l.crc_errors != s.crc_errors,
            status_crc_draw(s),
        ) + when_changed(l.master_count != s.master_count, mc),
    }
}

fn draw_status_wifi(out: &mut Vec<DrawValue>, s: &GatewayStatus)
    ensures
        draws_view(final(out)@) == draws_view(old(out)@).push(status_wifi_draw(s@)),
{
    let mut t: Vec<char> = Vec::new();
    push_str(&mut t, "WiFi:");
    if s.wifi_connected {
        push_str(&mut t, "OK");
    } else {
        push_str(&mut t, "--");
    }
    push_str(&mut t, " ");
    let mut ip = chars_of(&s.ip_address);
    t.append(&mut ip);
    let color = if s.wifi_connected {
        TextColor::Green
    } else {
        TextColor::Yellow
    };
    draw(out, 10, 35, 230, &t, color);
}

fn draw_status_net(out: &mut Vec<DrawValue>, s: &GatewayStatus)
    ensures
        draws_view(final(out)@) == draws_view(old(out)@).push(status_net_draw(s@)),
{
    let mut t: Vec<char> = Vec::new();
    push_decimal(&mut t, s.mstp_network as u64);
    push_str(&mut t, "<->");
    push_decimal(&mut t, s.ip_network as u64);
    draw(out, 34, 55, 80, &t, TextColor::White);
}

fn draw_number(out: &mut Vec<DrawValue>, x: i32, y: i32, width: u32, n: u64, suffix: &str, color: TextColor)
    ensures
        draws_view(final(out)@) == draws_view(old(out)@).push((x, y, width, decimal(n as nat) + suffix@, color)),
{
    let mut t: Vec<char> = Vec::new();
    push_decimal(&mut t, n);
    push_str(&mut t, suffix);
    draw(out, x, y, width, &t, color);
}

/// The values of `a` among the first `k` whose flag in `ch` is set, in order.
pub open spec fn picked(a: Seq<DrawSpec>, ch: Seq<bool>, k: nat) -> Seq<DrawSpec>
    decreases k,
{
    if k == 0 {
        Seq::empty()
    } else {
        picked(a, ch, (k - 1) as nat) + when_changed(ch[k - 1], a[k - 1])
    }
}

fn plan_status_all(status: &GatewayStatus) -> (r: Vec<DrawValue>)
    ensures
        draws_view(r@) == status_draws(None, status@),
{
    let mut out: Vec<DrawValue> = Vec::new();
    let crc_color = if status.crc_errors > 0 {
        TextColor::Red
    } else {
        TextColor::Green
    };
    proof {
        reveal_strlit("");
    }
    draw_status_wifi(&mut out, status);
    draw_status_net(&mut out, status);
    draw_number(&mut out, 28, 75, 60, status.rx_frames, "", TextColor::Green);
    draw_number(&mut out, 118, 75, 70, status.tx_frames, "", TextColor::Green);
    draw_number(&mut out, 40, 95, 50, status.token_loop_ms as u64, "ms", TextColor::White);
    draw_number(&mut out, 124, 95, 40, status.crc_errors, "", crc_color);
    draw_number(&mut out, 182, 95, 30, status.master_count as u64, "", TextColor::White);
    assert(draws_view(out@) =~= status_draws(None, status@));
    out
}

/// The values of `all` whose flag in `changed` is set, in order.
fn pick_draws(all: &Vec<DrawValue>, changed: &[bool]) -> (r: Vec<DrawValue>)
    requires
        all@.len() == changed@.len(),
    ensures
        draws_view(r@) == picked(draws_view(all@), changed@, changed@.len()),
{
    let ghost a = draws_view(all@);
    let mut out: Vec<DrawValue> = Vec::new();
    let mut i: usize = 0;
    while i < changed.len()
        invariant
            i <= changed@.len(),
            all@.len() == changed@.len(),
            a == draws_view(all@),
            draws_view(out@) == picked(a, changed@, i as nat),
        decreases changed@.len() - i,
    {
        let ghost before = draws_view(out@);
        if changed[i] {
            let t = str_chars(all[i].text.as_str());
            let d = DrawValue {
                x: all[i].x,
                y: all[i].y,
                width: all[i].width,
                text: string_from_chars(&t),
                color: all[i].color,
            };
            out.push(d);
            assert(draws_view(out@) =~= before.push(a[i as int]));
        }
        assert(picked(a, changed@, (i + 1) as nat) == before + when_changed(changed@[i as int], a[i as int]));
        assert(draws_view(out@) =~= before + when_changed(changed@[i as int], a[i as int]));
        i = i + 1;
    }
    out
}

fn plan_status_changes(l: &GatewayStatus, status: &GatewayStatus) -> (r: Vec<DrawValue>)
    ensures
        draws_view(r@) == status_draws(Some(l@), status@),
{
    let ghost s = status@;
    proof {
        reveal_strlit("");
    }
    let all = plan_status_all(status);
    let ghost a = draws_view(all@);
    let c1 = l.wifi_connected != status.wifi_connected || !strings_equal(&l.ip_address, &status.ip_address);
    let c2 = l.mstp_network != status.mstp_network || l.ip_network != status.ip_network;
    let c3 = l.rx_frames != status.rx_frames;
    let c4 = l.tx_frames != status.tx_frames;
    let c5 = l.token_loop_ms != status.token_loop_ms;
    let c6 = l.crc_errors != status.crc_errors;
    let c7 = l.master_count != status.master_count;
    let changed: [bool; 7] = [c1, c2, c3, c4, c5, c6, c7];
    assert(a.len() == 7);
    assert(changed@.len() == 7);
    let out = pick_draws(&all, &changed);
    proof {
        reveal_with_fuel(picked, 8);
        assert(changed@ =~= seq![c1, c2, c3, c4, c5, c6, c7]);
        assert(status_draws(Some(l@), s) =~= picked(a, changed@, 7));
    }
    out
}

/// The values the Status screen draws for `status`, given the status it
/// showed last (`None`: the screen is drawn from scratch).
pub fn plan_status_screen(last: &Option<GatewayStatus>, status: &GatewayStatus) -> (r: Vec<DrawValue>)
    ensures
        draws_view(r@) == status_draws(last_view(*last), status@),
{
    match last {
        None => plan_status_all(status),
        Some(l) => plan_status_changes(l, status),
    }
}

// ---------------------------------------------------------------------------
// Connection screen

/// The values of the Connection screen for `s`: WiFi, MS/TP state, baud
/// rate, address, token.
pub open spec fn connection_all(s: StatusView) -> Seq<DrawSpec> {
    seq![
        (46i32, 35i32, 190u32, if s.wifi_connected {
            "Connected ("@ + s.ip_address + ")"@
        } else {
            "Disconnected"@
        }, if s.wifi_connected {
            TextColor::Green
        } else {
            TextColor::Red
        }),
        (50i32, 55i32, 180u32, s.mstp_state, if s.has_token {
            TextColor::Green
        } else {
            TextColor::Yellow
        }),
        (46i32, 75i32, 100u32, decimal(s.mstp_baud_rate as nat), TextColor::White),
        (46i32, 95i32, 150u32, decimal(s.mstp_address as nat) + " (max: "@ + decimal(
            s.mstp_max_master as nat,
        ) + ")"@, TextColor::White),
        (50i32, 115i32, 100u32, if s.has_token {
            "Have Token"@
        } else {
            "Waiting"@
        }, if s.has_token {
            TextColor::Green
        } else {
            TextColor::Yellow
        }),
    ]
}

/// Which values of the Connection screen changed from `l` to `s`.
pub open spec fn connection_changes(l: StatusView, s: StatusView) -> Seq<bool> {
    seq![
        l.wifi_connected != s.wifi_connected || l.ip_address != s.ip_address,
        l.mstp_state != s.mstp_state || l.has_token != s.has_token,
        l.mstp_baud_rate != s.mstp_baud_rate,
        l.mstp_address != s.mstp_address || l.mstp_max_master != s.mstp_max_master,
        l.has_token != s.has_token,
    ]
}

/// The values the Connection screen draws: all the first time, afterwards
/// those that changed.
pub open spec fn connection_draws(last: Option<StatusView>, s: StatusView) -> Seq<DrawSpec> {
    match last {
        None => connection_all(s),
        Some(l) => picked(connection_all(s), connection_changes(l, s), 5),
    }
}

fn plan_connection_all(status: &GatewayStatus) -> (r: Vec<DrawValue>)
    ensures
        draws_view(r@) == connection_all(status@),
{
    let mut out: Vec<DrawValue> = Vec::new();
    let mut t: Vec<char> = Vec::new();
    if status.wifi_connected {
        push_str(&mut t, "Connected (");
        let mut ip = chars_of(&status.ip_address);
        t.append(&mut ip);
        push_str(&mut t, ")");
        draw(&mut out, 46, 35, 190, &t, TextColor::Green);
    } else {
        push_str(&mut t, "Disconnected");
        draw(&mut out, 46, 35, 190, &t, TextColor::Red);
    }
    let st = chars_of(&status.mstp_state);
    let c = if status.has_token {
        TextColor::Green
    } else {
        TextColor::Yellow
    };
    draw(&mut out, 50, 55, 180, &st, c);
    let mut b: Vec<char> = Vec::new();
    push_decimal(&mut b, status.mstp_baud_rate as u64);
    draw(&mut out, 46, 75, 100, &b, TextColor::White);
    let mut a: Vec<char> = Vec::new();
    push_decimal(&mut a, status.mstp_address as u64);
    push_str(&mut a, " (max: ");
    push_decimal(&mut a, status.mstp_max_master as u64);
    push_str(&mut a, ")");
    draw(&mut out, 46, 95, 150, &a, TextColor::White);
    let mut k: Vec<char> = Vec::new();
    if status.has_token {
        push_str(&mut k, "Have Token");
    } else {
        push_str(&mut k, "Waiting");
    }
    draw(&mut out, 50, 115, 100, &k, c);
    assert(draws_view(out@) =~= connection_all(status@));
    out
}

/// The values the Connection screen draws for `status`, given the status it
/// showed last (`None`: the screen is drawn from scratch).
pub fn plan_connection_screen(last: &Option<GatewayStatus>, status: &GatewayStatus) -> (r: Vec<DrawValue>)
    ensures
        draws_view(r@) == connection_draws(last_view(*last), status@),
{
    let all = plan_connection_all(status);
    match last {
        None => all,
        Some(l) => {
            let ghost a = draws_view(all@);
            assert(a.len() == 5);
            let c1 = l.wifi_connected != status.wifi_connected || !strings_equal(&l.ip_address, &status.ip_address);
            let c2 = !strings_equal(&l.mstp_state, &status.mstp_state) || l.has_token != status.has_token;
            let c3 = l.mstp_baud_rate != status.mstp_baud_rate;
            let c4 = l.mstp_address != status.mstp_address || l.mstp_max_master != status.mstp_max_master;
            let c5 = l.has_token != status.has_token;
            let changed: [bool; 5] = [c1, c2, c3, c4, c5];
            assert(changed@.len() == 5);
            let out = pick_draws(&all, &changed);
            assert(changed@ =~= connection_changes(l@, status@));
            out
        },
    }
}

// ---------------------------------------------------------------------------
// Access point screen

/// The longest prefix of `s` that fits in `n` UTF-8 bytes.
pub open spec fn bytes_prefix(s: Seq<char>, n: nat) -> Seq<char>
    decreases s.len(),
{
    if s.len() == 0 || utf8_width(s[0]) > n {
        Seq::empty()
    } else {
        seq![s[0]] + bytes_prefix(s.drop_first(), (n - utf8_width(s[0])) as nat)
    }
}

/// `s` cut to its first `n` bytes where it is longer (as `&s[..n]`; the cut
/// must fall between characters).
pub open spec fn cut_bytes(s: Seq<char>, n: nat) -> Seq<char> {
    if utf8_len(s) > n {
        bytes_prefix(s, n)
    } else {
        s
    }
}

/// Whether cutting `s` to `n` bytes falls between characters (or is not
/// needed).
pub open spec fn cut_ok(s: Seq<char>, n: nat) -> bool {
    utf8_len(s) > n ==> utf8_len(bytes_prefix(s, n)) == n
}

/// Cut `s` to its first `n` bytes where it is longer.
pub fn cut_to_bytes(s: &Vec<char>, n: usize) -> (r: Vec<char>)
    requires
        n < usize::MAX,
    ensures
        r@ == cut_bytes(s@, n as nat),
{
    let total = crate::form::utf8_length(s.as_slice());
    let mut out: Vec<char> = Vec::new();
    let mut i: usize = 0;
    if total < usize::MAX && total <= n {
        while i < s.len()
            invariant
                i <= s@.len(),
                out@ == s@.take(i as int),
            decreases s@.len() - i,
        {
            out.push(s[i]);
            i = i + 1;
            assert(out@ =~= s@.take(i as int));
        }
        assert(s@.take(i as int) =~= s@);
        return out;
    }
    let mut left: usize = n;
    assert(utf8_len(s@) > n);
    assert(s@.skip(0) =~= s@);
    assert(out@ + bytes_prefix(s@.skip(0), n as nat) =~= bytes_prefix(s@, n as nat));
    while i < s.len()
        invariant
            i <= s@.len(),
            left <= n,
            utf8_len(s@) > n,
            bytes_prefix(s@, n as nat) == out@ + bytes_prefix(s@.skip(i as int), left as nat),
        decreases s@.len() - i,
    {
        let c = s[i] as u32;
        let w: usize = if c < 0x80 {
            1
        } else if c < 0x800 {
            2
        } else if c < 0x10000 {
            3
        } else {
            4
        };
        assert(s@.skip(i as int)[0] == s@[i as int]);
        assert(s@.skip(i as int).drop_first() =~= s@.skip(i as int + 1));
        if w > left {
            assert(bytes_prefix(s@.skip(i as int), left as nat) =~= Seq::<char>::empty());
            assert(out@ + Seq::<char>::empty() =~= out@);
            return out;
        }
        out.push(s[i]);
        left = left - w;
        i = i + 1;
        assert(bytes_prefix(s@, n as nat) =~= out@ + bytes_prefix(s@.skip(i as int), left as nat));
    }
    assert(bytes_prefix(s@.skip(i as int), left as nat) =~= Seq::<char>::empty());
    assert(out@ + Seq::<char>::empty() =~= out@);
    out
}

/// The address an access point hands out by default.
pub open spec fn default_ap_ip() -> Seq<char> {
    "192.168.4.1"@
}

/// The values the access point screen can draw for `s`: status, address,
/// SSID, address again, clients.
pub open spec fn ap_candidates(s: StatusView) -> Seq<DrawSpec> {
    let ip = (28i32, 75i32, 150u32, if s.ap_mode_active {
        s.ap_ip
    } else {
        default_ap_ip()
    }, TextColor::White);
    seq![
        (58i32, 35i32, 100u32, if s.ap_mode_active {
            "ACTIVE"@
        } else {
            "Inactive"@
        }, if s.ap_mode_active {
            TextColor::Green
        } else {
            TextColor::Yellow
        }),
        ip,
        (46i32, 55i32, 180u32, cut_bytes(s.ap_ssid, 18), TextColor::White),
        ip,
        (64i32, 95i32, 50u32, if s.ap_mode_active {
            decimal(s.ap_clients as nat)
        } else {
            "-"@
        }, TextColor::White),
    ]
}

/// Which of the candidates the access point screen draws: everything but the
/// second address the first time; afterwards the status and address when
/// the mode changed, the SSID when it changed, the address when it changed,
/// the clients when they or the mode changed.
pub open spec fn ap_flags(last: Option<StatusView>, s: StatusView) -> Seq<bool> {
    match last {
        None => seq![true, false, true, true, true],
        Some(l) => seq![
            l.ap_mode_active != s.ap_mode_active,
            l.ap_mode_active != s.ap_mode_active,
            l.ap_ssid != s.ap_ssid,
            l.ap_ip != s.ap_ip,
            l.ap_clients != s.ap_clients || l.ap_mode_active != s.ap_mode_active,
        ],
    }
}

/// The values the access point screen draws.
pub open spec fn ap_draws(last: Option<StatusView>, s: StatusView) -> Seq<DrawSpec> {
    picked(ap_candidates(s), ap_flags(last, s), 5)
}

fn plan_ap_candidates(status: &GatewayStatus, cut_needed: bool) -> (r: Vec<DrawValue>)
    requires
        cut_needed ==> cut_ok(status@.ap_ssid, 18),
    ensures
        r@.len() == 5,
        forall|k: int| 0 <= k < 5 && (k != 2 || cut_needed) ==> #[trigger] draws_view(r@)[k] == ap_candidates(status@)[k],
{
    let mut out: Vec<DrawValue> = Vec::new();
    let mut st: Vec<char> = Vec::new();
    if status.ap_mode_active {
        push_str(&mut st, "ACTIVE");
        draw(&mut out, 58, 35, 100, &st, TextColor::Green);
    } else {
        push_str(&mut st, "Inactive");
        draw(&mut out, 58, 35, 100, &st, TextColor::Yellow);
    }
    let ip: Vec<char> = if status.ap_mode_active {
        chars_of(&status.ap_ip)
    } else {
        str_chars("192.168.4.1")
    };
    draw(&mut out, 28, 75, 150, &ip, TextColor::White);
    let ssid = chars_of(&status.ap_ssid);
    let shown: Vec<char> = if cut_needed {
        cut_to_bytes(&ssid, 18)
    } else {
        Vec::new()
    };
    draw(&mut out, 46, 55, 180, &shown, TextColor::White);
    draw(&mut out, 28, 75, 150, &ip, TextColor::White);
    let mut cl: Vec<char> = Vec::new();
    if status.ap_mode_active {
        push_decimal(&mut cl, status.ap_clients as u64);
    } else {
        push_str(&mut cl, "-");
    }
    draw(&mut out, 64, 95, 50, &cl, TextColor::White);
    assert(draws_view(out@).len() == 5);
    out
}

/// The values the access point screen draws for `status`, given the status
/// it showed last (`None`: the screen is drawn from scratch). The SSID, when
/// it is drawn and longer than 18 bytes, must have a character boundary at
/// its 18th byte.
pub fn plan_ap_screen(last: &Option<GatewayStatus>, status: &GatewayStatus) -> (r: Vec<DrawValue>)
    requires
        ap_flags(last_view(*last), status@)[2] ==> cut_ok(status@.ap_ssid, 18),
    ensures
        draws_view(r@) == ap_draws(last_view(*last), status@),
{
    let changed: [bool; 5] = match last {
        None => [true, false, true, true, true],
        Some(l) => [
            l.ap_mode_active != status.ap_mode_active,
            l.ap_mode_active != status.ap_mode_active,
            !strings_equal(&l.ap_ssid, &status.ap_ssid),
            !strings_equal(&l.ap_ip, &status.ap_ip),
            l.ap_clients != status.ap_clients || l.ap_mode_active != status.ap_mode_active,
        ],
    };
    assert(changed@ =~= ap_flags(last_view(*last), status@));
    let all = plan_ap_candidates(status, changed[2]);
    assert(changed@.len() == 5);
    let out = pick_draws(&all, &changed);
    proof {
        let a = draws_view(all@);
        let c = ap_candidates(status@);
        reveal_with_fuel(picked, 6);
        assert(picked(a, changed@, 5) =~= picked(c, changed@, 5)) by {
            assert(a[0] == c[0]);
            assert(a[1] == c[1]);
            assert(a[3] == c[3]);
            assert(a[4] == c[4]);
            if changed@[2] {
                assert(a[2] == c[2]);
            }
        }
    }
    out
}

} // verus!
