//! State behind the operator's screens: settings, the connection form and
//! the display form of partner ids.

use vstd::prelude::*;
use vstd::string::StringSliceAdditionalSpecFns;

use crate::text::{ascii_string, ascii_text, is_ascii_bytes};

verus! {

/// The screen the operator is on.
#[derive(Debug, Clone, Copy, PartialEq, Eq, Structural)]
pub enum AppMode {
    Home,
    RemoteControl,
    FileTransfer,
    Settings,
}

/// Progress of one file transfer.
#[derive(Debug, Clone, Copy, PartialEq, Eq, Structural)]
pub enum TransferStatus {
    Pending,
    Transferring,
    Completed,
    Failed,
    Cancelled,
}

#[derive(Debug, Clone, Copy, PartialEq, Eq, Structural)]
pub enum VideoQuality {
    Low,
    Medium,
    High,
    Adaptive,
}

#[derive(Debug, Clone, Copy, PartialEq, Eq, Structural)]
pub enum LogLevel {
    Error,
    Warn,
    Info,
    Debug,
    Trace,
}

/// Operator preferences.
#[derive(Debug, Clone)]
pub struct Settings {
    pub video_quality: VideoQuality,
    pub enable_clipboard_sync: bool,
    pub enable_file_transfer: bool,
    pub enable_sound: bool,
    pub auto_start_with_system: bool,
    pub relay_server: String,
    pub custom_relay_server: String,
    pub encryption_enabled: bool,
    pub log_level: LogLevel,
}

impl Default for Settings {
    /// Adaptive video, clipboard and file transfer on, sound and autostart
    /// off, the official relay, encryption on, informational logging.
    fn default() -> (r: Self)
        ensures
            r.video_quality == VideoQuality::Adaptive,
            r.enable_clipboard_sync,
            r.enable_file_transfer,
            !r.enable_sound,
            !r.auto_start_with_system,
            r.relay_server@ == "Official"@,
            r.custom_relay_server@.len() == 0,
            r.encryption_enabled,
            r.log_level == LogLevel::Info,
    {
        Settings {
            video_quality: VideoQuality::Adaptive,
            enable_clipboard_sync: true,
            enable_file_transfer: true,
            enable_sound: false,
            auto_start_with_system: false,
            relay_server: "Official".to_string(),
            custom_relay_server: String::new(),
            encryption_enabled: true,
            log_level: LogLevel::Info,
        }
    }
}

/// The settings screen: the settings being edited.
pub struct SettingsPanel {
    settings: Settings,
    show_advanced: bool,
}

impl SettingsPanel {
    pub closed spec fn spec_settings(&self) -> Settings {
        self.settings
    }

    /// A panel on the default settings, advanced options hidden.
    pub fn new() -> (r: Self)
        ensures
            r.spec_settings().encryption_enabled,
            r.spec_settings().video_quality == VideoQuality::Adaptive,
    {
        SettingsPanel { settings: Settings::default(), show_advanced: false }
    }

    pub fn settings(&self) -> (r: &Settings)
        ensures
            *r == self.spec_settings(),
    {
        &self.settings
    }
}

/// The connection form: what the operator typed.
pub struct ConnectionPanel {
    partner_id_input: String,
    password_input: String,
    is_connecting: bool,
}

impl ConnectionPanel {
    pub closed spec fn connecting(&self) -> bool {
        self.is_connecting
    }

    pub closed spec fn partner_id_text(&self) -> Seq<char> {
        self.partner_id_input@
    }

    /// An empty form.
    pub fn new() -> (r: Self)
        ensures
            !r.connecting(),
            r.partner_id_text().len() == 0,
    {
        ConnectionPanel {
            partner_id_input: String::new(),
            password_input: String::new(),
            is_connecting: false,
        }
    }
}

pub open spec fn is_digit_byte(c: u8) -> bool {
    48 <= c <= 57
}

/// The decimal digits of `b`, in order.
pub open spec fn digits_of(b: Seq<u8>) -> Seq<u8>
    decreases b.len(),
{
    if b.len() == 0 {
        b
    } else if is_digit_byte(b.last()) {
        digits_of(b.drop_last()).push(b.last())
    } else {
        digits_of(b.drop_last())
    }
}

/// Up to nine digits grouped by three: "123", "123 456", "123 456 789".
pub open spec fn grouped(d: Seq<u8>) -> Seq<u8> {
    if d.len() <= 3 {
        d
    } else if d.len() <= 6 {
        d.take(3) + seq![32u8] + d.skip(3)
    } else {
        d.take(3) + seq![32u8] + d.subrange(3, 6) + seq![32u8] + d.skip(6)
    }
}

/// The display form of a typed partner id: its first nine digits, grouped
/// by three.
pub open spec fn partner_id_display(input: Seq<u8>) -> Seq<u8> {
    let d = digits_of(input);
    grouped(if d.len() > 9 {
        d.take(9)
    } else {
        d
    })
}

proof fn lemma_digits_are_digits(b: Seq<u8>)
    ensures
        forall|i: int| 0 <= i < digits_of(b).len() ==> is_digit_byte(#[trigger] digits_of(b)[i]),
        digits_of(b).len() <= b.len(),
    decreases b.len(),
{
    if b.len() > 0 {
        lemma_digits_are_digits(b.drop_last());
    }
}

/// ASCII code of a decimal digit.
pub open spec fn digit_byte(d: u32) -> u8 {
    (48 + d) as u8
}

/// A daemon's partner id: "D", then `a` in two digits and `b` and `c` in
/// three, zero-padded, the groups separated by single spaces.
pub open spec fn daemon_id_bytes(a: u32, b: u32, c: u32) -> Seq<u8> {
    seq![
        68u8,
        digit_byte(a / 10),
        digit_byte(a % 10),
        32u8,
        digit_byte(b / 100),
        digit_byte(b / 10 % 10),
        digit_byte(b % 10),
        32u8,
        digit_byte(c / 100),
        digit_byte(c / 10 % 10),
        digit_byte(c % 10),
    ]
}

/// The partner id of a daemon from its three drawn numbers, as in
/// "D42 123 456".
pub fn format_daemon_id(a: u32, b: u32, c: u32) -> (r: String)
    requires
        a < 100,
        b < 1000,
        c < 1000,
    ensures
        r@ == ascii_text(daemon_id_bytes(a, b, c)),
{
    let mut out: Vec<u8> = Vec::new();
    out.push(68u8);
    out.push(48u8 + (a / 10) as u8);
    out.push(48u8 + (a % 10) as u8);
    out.push(32u8);
    out.push(48u8 + (b / 100) as u8);
    out.push(48u8 + (b / 10 % 10) as u8);
    out.push(48u8 + (b % 10) as u8);
    out.push(32u8);
    out.push(48u8 + (c / 100) as u8);
    out.push(48u8 + (c / 10 % 10) as u8);
    out.push(48u8 + (c % 10) as u8);
    proof {
        assert(out@ =~= daemon_id_bytes(a, b, c));
        assert(is_ascii_bytes(out@));
    }
    ascii_string(out)
}

/// Keeps the digits of `input`, at most nine, and groups them by three
/// with single spaces.
pub fn format_partner_id(input: &str) -> (r: String)
    ensures
        r@ == ascii_text(partner_id_display(input.spec_bytes())),
{
    let bytes = input.as_bytes();
    let mut digits: Vec<u8> = Vec::new();
    let mut i: usize = 0;
    assert(bytes@.take(0) =~= Seq::<u8>::empty());
    while i < bytes.len()
        invariant
            0 <= i <= bytes@.len(),
            digits@ == digits_of(bytes@.take(i as int)),
        decreases bytes@.len() - i,
    {
        let c = bytes[i];
        proof {
            assert(bytes@.take(i + 1).drop_last() =~= bytes@.take(i as int));
            assert(bytes@.take(i + 1).last() == c);
        }
        if 48 <= c && c <= 57 {
            digits.push(c);
        }
        i = i + 1;
    }
    proof {
        assert(bytes@.take(bytes@.len() as int) =~= bytes@);
        lemma_digits_are_digits(bytes@);
    }
    let n: usize = if digits.len() > 9 {
        9
    } else {
        digits.len()
    };
    let mut out: Vec<u8> = Vec::new();
    let mut k: usize = 0;
    while k < n
        invariant
            n <= digits@.len(),
            n == (if digits@.len() > 9 {
                9
            } else {
                digits@.len()
            }),
            0 <= k <= n,
            out@ == grouped(digits@.take(k as int)),
        decreases n - k,
    {
        proof {
            let d = digits@.take(k + 1);
            assert(d.take(k as int) =~= digits@.take(k as int));
            if k + 1 <= 3 {
            } else if k + 1 <= 6 {
                assert(d.take(3) =~= digits@.take(k as int).take(3));
                if k == 3 {
                    assert(grouped(d) =~= grouped(digits@.take(k as int)) + seq![32u8, digits@[k as int]]);
                } else {
                    assert(grouped(d) =~= grouped(digits@.take(k as int)).push(digits@[k as int]));
                }
            } else {
                if k == 6 {
                    assert(grouped(d) =~= grouped(digits@.take(k as int)) + seq![32u8, digits@[k as int]]);
                } else {
                    assert(grouped(d) =~= grouped(digits@.take(k as int)).push(digits@[k as int]));
                }
            }
        }
        if k == 3 || k == 6 {
            out.push(32u8);
        }
        out.push(digits[k]);
        proof {
            if k == 3 || k == 6 {
                assert(out@ =~= grouped(digits@.take(k as int)) + seq![32u8, digits@[k as int]]);
            } else {
                assert(out@ =~= grouped(digits@.take(k as int)).push(digits@[k as int]));
            }
        }
        k = k + 1;
    }
    proof {
        let d = digits_of(bytes@);
        if d.len() <= 9 {
            assert(digits@.take(n as int) =~= d);
        }
        assert(out@ == partner_id_display(bytes@));
        assert forall|j: int| 0 <= j < out@.len() implies #[trigger] out@[j] < 128 by {
            let t = digits@.take(n as int);
            assert forall|m: int| 0 <= m < t.len() implies is_digit_byte(#[trigger] t[m]) by {
                assert(t[m] == digits@[m]);
            }
        }
    }
    ascii_string(out)
}

} // verus!
