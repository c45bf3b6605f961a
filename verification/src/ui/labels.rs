//! What the dashboard shows in words: sizes, times, names of states; and how it
//! reads what was typed into it.
use crate::api::DaemonOrigin;
use crate::api::IpAddr;
use crate::api::PluginHealth;
use crate::api::Position;
use crate::finding::first_below;
use crate::finding::lemma_found;
use crate::text::chars_of;
use crate::text::decimal;
use crate::text::digit;
use crate::text::hex_byte;
use crate::text::number;
use crate::text::parse_number;
use crate::text::push_decimal;
use crate::text::push_hex_byte;
use crate::text::split;
use crate::text::split_chars;
use crate::text::string_of;
use crate::text::upper;
use crate::text::upper_chars;
use crate::text::whitespace;
use crate::ui::models::TransportLifecycle;
use vstd::prelude::*;

verus! {

// ---------------------------------------------------------------------------
// Sizes
// ---------------------------------------------------------------------------

/// A quotient to the nearest whole number, and to the even one of two that are
/// equally near.
pub open spec fn nearest(n: nat, d: nat) -> nat {
    if 2 * (n % d) > d || 2 * (n % d) == d && (n / d) % 2 == 1 {
        n / d + 1
    } else {
        n / d
    }
}

/// The largest number that is counted exactly, and one.
pub const EXACT: u128 = 0x20_0000_0000_0000;

/// The step between the numbers that can be told apart near `bytes`: large
/// sizes are known to sixteen digits or so only.
pub open spec fn step(bytes: nat, s: nat) -> nat
    decreases
            (if bytes < EXACT * s {
                0
            } else {
                bytes - EXACT * s + 1
            }),
{
    if s == 0 || bytes < EXACT * s {
        s
    } else {
        proof {
            assert(EXACT * (2 * s) == 2 * (EXACT * s)) by (nonlinear_arith);
            assert(EXACT * s > 0) by (nonlinear_arith)
                requires
                    s > 0,
                    EXACT > 0,
            ;
        }
        step(bytes, 2 * s)
    }
}

/// A size as it is known.
pub open spec fn known_size(bytes: nat) -> nat {
    nearest(bytes, step(bytes, 1)) * step(bytes, 1)
}

/// How often a size can be divided by 1024, up to the largest unit.
pub open spec fn unit_of(size: nat) -> nat {
    if size < 1024 {
        0
    } else if size < 1024 * 1024 {
        1
    } else if size < 1024 * 1024 * 1024 {
        2
    } else if size < 1024 * 1024 * 1024 * 1024 {
        3
    } else {
        4
    }
}

pub open spec fn unit_size(unit: nat) -> nat {
    if unit == 0 {
        1
    } else if unit == 1 {
        1024
    } else if unit == 2 {
        1024 * 1024
    } else if unit == 3 {
        1024 * 1024 * 1024
    } else {
        1024 * 1024 * 1024 * 1024
    }
}

pub open spec fn unit_name(unit: nat) -> Seq<char> {
    if unit == 0 {
        "B"@
    } else if unit == 1 {
        "KiB"@
    } else if unit == 2 {
        "MiB"@
    } else if unit == 3 {
        "GiB"@
    } else {
        "TiB"@
    }
}

/// A size in words: bytes as they are, anything larger with one digit behind
/// the point.
pub open spec fn size_text(bytes: u64) -> Seq<char> {
    let size = known_size(bytes as nat);
    let unit = unit_of(size);
    if unit == 0 {
        decimal(bytes as nat) + " "@ + unit_name(0)
    } else {
        let tenths = nearest(10 * size, unit_size(unit));
        decimal(tenths / 10) + "."@ + seq![digit(tenths % 10)] + " "@ + unit_name(unit)
    }
}

fn to_nearest(n: u128, d: u128) -> (q: u128)
    requires
        0 < d < 0x1000_0000_0000_0000,
        n < 0x1000_0000_0000_0000_0000_0000,
    ensures
        q == nearest(n as nat, d as nat),
{
    let q: u128 = n / d;
    let r: u128 = n % d;
    if 2 * r > d || 2 * r == d && q % 2 == 1 {
        assert(q <= n) by (nonlinear_arith)
            requires
                q == n / d,
                d > 0,
        ;
        q + 1
    } else {
        q
    }
}

fn find_step(bytes: u64) -> (s: u128)
    ensures
        s == step(bytes as nat, 1),
        0 < s <= 4096,
        bytes < EXACT * s,
        s == 1 || bytes >= EXACT * s / 2,
{
    let mut s: u128 = 1;
    while bytes as u128 >= EXACT * s
        invariant
            0 < s <= 4096,
            step(bytes as nat, 1) == step(bytes as nat, s as nat),
            s == 1 || bytes >= EXACT * s / 2,
        decreases 8192 - s,
    {
        assert(s < 4096);
        s = s * 2;
    }
    s
}

/// A size is known to one part in many.
proof fn lemma_known_size(bytes: nat)
    requires
        bytes <= u64::MAX,
        step(bytes, 1) > 0,
    ensures
        known_size(bytes) <= bytes + step(bytes, 1),
{
    let s = step(bytes, 1);
    assert((bytes / s) * s <= bytes) by (nonlinear_arith)
        requires
            s > 0,
    ;
    assert((bytes / s + 1) * s == (bytes / s) * s + s) by (nonlinear_arith);
}

/// A size in words.
pub fn format_bytes(bytes: u64) -> (s: String)
    ensures
        s@ == size_text(bytes),
{
    let step: u128 = find_step(bytes);
    proof {
        lemma_known_size(bytes as nat);
    }
    let rounded: u128 = to_nearest(bytes as u128, step);
    assert(rounded <= bytes + 1) by {
        assert(bytes as nat / (step as nat) <= bytes) by (nonlinear_arith)
            requires
                step > 0,
        ;
    }
    assert(rounded * step <= bytes + 4096);
    let size: u128 = rounded * step;
    if size < 1024 {
        proof {
            assert(step == 1) by {
                if step > 1 {
                    assert(bytes >= EXACT * step / 2);
                    assert((bytes as nat / (step as nat)) * step > bytes - step)
                        by (nonlinear_arith)
                        requires
                            step > 0,
                    ;
                    assert(size >= bytes - step) by (nonlinear_arith)
                        requires
                            size == rounded * step,
                            rounded >= bytes as nat / (step as nat),
                            (bytes as nat / (step as nat)) * step > bytes - step,
                            step > 0,
                    ;
                }
            }
        }
        let mut s: String = crate::text::decimal_of(bytes);
        s.push_str(" ");
        s.push_str("B");
        return s;
    }
    let (unit_size, unit_name) = if size < 1024 * 1024 {
        (1024u128, "KiB")
    } else if size < 1024 * 1024 * 1024 {
        (1024 * 1024u128, "MiB")
    } else if size < 1024 * 1024 * 1024 * 1024 {
        (1024 * 1024 * 1024u128, "GiB")
    } else {
        (1024 * 1024 * 1024 * 1024u128, "TiB")
    };
    let tenths: u128 = to_nearest(10 * size, unit_size);
    assert(tenths <= 10 * size / 1024 + 1) by {
        assert((10 * size) / (unit_size as int) <= (10 * size) / 1024) by (nonlinear_arith)
            requires
                unit_size >= 1024,
                size >= 0,
        ;
    }
    let mut s: String = crate::text::decimal_of((tenths / 10) as u64);
    s.push_str(".");
    s.push((48 + (tenths % 10) as u8) as char);
    s.push_str(" ");
    s.push_str(unit_name);
    assert(s@ =~= size_text(bytes));
    s
}

/// A rate in words; nothing where nothing moves.
pub open spec fn rate_text(bytes_per_second: u64) -> Seq<char> {
    if bytes_per_second == 0 {
        Seq::empty()
    } else {
        size_text(bytes_per_second) + "/s"@
    }
}

pub fn format_rate(bytes_per_second: u64) -> (s: String)
    ensures
        s@ == rate_text(bytes_per_second),
{
    if bytes_per_second == 0 {
        let s: String = String::new();
        assert(s@ =~= Seq::<char>::empty());
        s
    } else {
        let mut s: String = format_bytes(bytes_per_second);
        s.push_str("/s");
        s
    }
}

// ---------------------------------------------------------------------------
// Times
// ---------------------------------------------------------------------------

/// A span of time in its two largest units; nothing where it is not known.
pub open spec fn uptime_text(seconds: u64, known: bool) -> Seq<char> {
    let minutes = (seconds / 60) as nat;
    let hours = minutes / 60;
    let days = hours / 24;
    if !known {
        Seq::empty()
    } else if minutes < 60 {
        decimal(minutes) + " min"@
    } else if hours < 24 {
        if minutes % 60 == 0 {
            decimal(hours) + " h"@
        } else {
            decimal(hours) + " h "@ + decimal(minutes % 60) + " min"@
        }
    } else if hours % 24 == 0 {
        decimal(days) + " d"@
    } else {
        decimal(days) + " d "@ + decimal(hours % 24) + " h"@
    }
}

pub fn format_uptime(seconds: u64, known: bool) -> (s: String)
    ensures
        s@ == uptime_text(seconds, known),
{
    if !known {
        let s: String = String::new();
        assert(s@ =~= Seq::<char>::empty());
        return s;
    }
    let minutes: u64 = seconds / 60;
    if minutes < 60 {
        let mut s: String = crate::text::decimal_of(minutes);
        s.push_str(" min");
        return s;
    }
    let hours: u64 = minutes / 60;
    let remaining_minutes: u64 = minutes % 60;
    if hours < 24 {
        let mut s: String = crate::text::decimal_of(hours);
        if remaining_minutes == 0 {
            s.push_str(" h");
        } else {
            s.push_str(" h ");
            push_decimal(&mut s, remaining_minutes);
            s.push_str(" min");
        }
        return s;
    }
    let days: u64 = hours / 24;
    let remaining_hours: u64 = hours % 24;
    let mut s: String = crate::text::decimal_of(days);
    if remaining_hours == 0 {
        s.push_str(" d");
    } else {
        s.push_str(" d ");
        push_decimal(&mut s, remaining_hours);
        s.push_str(" h");
    }
    s
}

/// How a time is written: year, month and day, hours, minutes and seconds.
pub const TIME_FORMAT: &'static str = "%Y-%m-%d %H:%M:%S UTC";

/// What `chrono` writes for a time in milliseconds since the Unix epoch, in UTC
/// and in a format. Nothing where the time is out of its range.
pub uninterp spec fn utc_text(ms: i64, format: Seq<char>) -> Option<Seq<char>>;

/// `chrono::DateTime::from_timestamp_millis`, and `format` of what it gives. Both
/// depend on the number and the format alone; the text is left to the name. A
/// format with an unknown specifier would panic: only one is admitted.
#[verifier::external_body]
fn utc_of(ms: i64, format: &str) -> (r: Option<String>)
    requires
        format@ == TIME_FORMAT@,
    ensures
        match r {
            Some(s) => utc_text(ms, format@) == Some(s@),
            None => utc_text(ms, format@) is None,
        },
{
    let time = chrono::DateTime::from_timestamp_millis(ms)?;
    Some(time.format(format).to_string())
}

/// The time of an event, from what it is written as.
pub fn time_or_nothing(written: Option<String>) -> (s: String)
    ensures
        s@ == (match written {
            Some(text) => text@,
            None => Seq::empty(),
        }),
{
    match written {
        Some(text) => text,
        None => {
            let s: String = String::new();
            assert(s@ =~= Seq::<char>::empty());
            s
        },
    }
}

/// The time of an event in words; nothing where it is out of range.
pub open spec fn time_text(ms: i64) -> Seq<char> {
    match utc_text(ms, TIME_FORMAT@) {
        Some(text) => text,
        None => Seq::empty(),
    }
}

pub fn format_time(ms: i64) -> (s: String)
    ensures
        s@ == time_text(ms),
{
    time_or_nothing(utc_of(ms, TIME_FORMAT))
}

// ---------------------------------------------------------------------------
// Names
// ---------------------------------------------------------------------------

/// Texts with a separator between them.
pub open spec fn joined(parts: Seq<Seq<char>>, separator: Seq<char>) -> Seq<char>
    decreases parts.len(),
{
    if parts.len() == 0 {
        Seq::empty()
    } else if parts.len() == 1 {
        parts[0]
    } else {
        joined(parts.drop_last(), separator) + separator + parts.last()
    }
}

pub open spec fn views(v: Seq<String>) -> Seq<Seq<char>> {
    Seq::new(v.len(), |i: int| v[i]@)
}

pub fn join(parts: &Vec<String>, separator: &str) -> (s: String)
    ensures
        s@ == joined(views(parts@), separator@),
{
    let mut s: String = String::new();
    assert(s@ =~= Seq::<char>::empty());
    let ghost all = views(parts@);
    assert(joined(all.take(0), separator@) =~= s@);
    let mut i: usize = 0;
    while i < parts.len()
        invariant
            i <= parts@.len(),
            all == views(parts@),
            s@ == joined(all.take(i as int), separator@),
        decreases parts@.len() - i,
    {
        assert(all.take(i + 1).drop_last() =~= all.take(i as int));
        assert(i == 0 ==> s@ =~= Seq::<char>::empty());
        if i > 0 {
            s.push_str(separator);
        }
        s.push_str(parts[i].as_str());
        i = i + 1;
        assert(s@ =~= joined(all.take(i as int), separator@));
    }
    assert(all.take(i as int) =~= all);
    s
}

/// The addresses of a peer, from their texts.
pub fn join_addresses(addresses: &Vec<String>) -> (s: String)
    ensures
        s@ == joined(views(addresses@), ", "@),
{
    join(addresses, ", ")
}

/// The kind of a file: what stands behind its last dot, in capitals.
pub open spec fn kind_of_name(name: Seq<char>) -> Seq<char> {
    let parts = split(name, '.');
    if parts.len() > 1 && parts.last().len() > 0 {
        upper(parts.last())
    } else {
        "File"@
    }
}

pub fn file_kind(name: &str) -> (s: String)
    ensures
        s@ == kind_of_name(name@),
{
    let parts: Vec<Vec<char>> = split_chars(chars_of(name).as_slice(), '.');
    let ghost models = split(name@, '.');
    assert(models.len() == parts@.len());
    assert(models.last() == parts@.last()@);
    if parts.len() > 1 && parts[parts.len() - 1].len() > 0 {
        string_of(upper_chars(parts[parts.len() - 1].as_slice()).as_slice())
    } else {
        "File".to_owned()
    }
}

/// Bytes in hexadecimal digits.
pub open spec fn hex_text(bytes: Seq<u8>) -> Seq<char>
    decreases bytes.len(),
{
    if bytes.len() == 0 {
        Seq::empty()
    } else {
        hex_text(bytes.drop_last()) + hex_byte(bytes.last())
    }
}

pub fn hex_of(bytes: &[u8]) -> (s: String)
    ensures
        s@ == hex_text(bytes@),
{
    let mut s: String = String::new();
    assert(s@ =~= Seq::<char>::empty());
    assert(bytes@.take(0) =~= Seq::<u8>::empty());
    let mut i: usize = 0;
    while i < bytes.len()
        invariant
            i <= bytes@.len(),
            s@ == hex_text(bytes@.take(i as int)),
        decreases bytes@.len() - i,
    {
        assert(bytes@.take(i + 1).drop_last() =~= bytes@.take(i as int));
        push_hex_byte(&mut s, bytes[i]);
        i = i + 1;
    }
    assert(bytes@.take(i as int) =~= bytes@);
    s
}

/// The commit of a peer's build.
pub fn format_peer_commit(commit: [u8; 8]) -> (s: String)
    ensures
        s@ == hex_text(commit@),
{
    hex_of(commit.as_slice())
}

pub open spec fn transport_text(transport: TransportLifecycle) -> Seq<char> {
    match transport {
        TransportLifecycle::Unavailable => "Unavailable"@,
        TransportLifecycle::Reconnecting => "Reconnecting"@,
        TransportLifecycle::Ready => "Ready"@,
    }
}

pub fn transport_label(transport: TransportLifecycle) -> (s: &'static str)
    ensures
        s@ == transport_text(transport),
{
    match transport {
        TransportLifecycle::Unavailable => "Unavailable",
        TransportLifecycle::Reconnecting => "Reconnecting",
        TransportLifecycle::Ready => "Ready",
    }
}

/// Stable identifier used for the health badge and its translation key.
pub open spec fn health_text(health: PluginHealth) -> Seq<char> {
    match health {
        PluginHealth::Disabled => "disabled"@,
        PluginHealth::NotInstalled => "not-installed"@,
        PluginHealth::Stopped => "stopped"@,
        PluginHealth::Starting => "starting"@,
        PluginHealth::Healthy => "healthy"@,
        PluginHealth::Unresponsive => "unresponsive"@,
        PluginHealth::Failed => "failed"@,
    }
}

pub fn plugin_health_id(health: PluginHealth) -> (s: &'static str)
    ensures
        s@ == health_text(health),
{
    match health {
        PluginHealth::Disabled => "disabled",
        PluginHealth::NotInstalled => "not-installed",
        PluginHealth::Stopped => "stopped",
        PluginHealth::Starting => "starting",
        PluginHealth::Healthy => "healthy",
        PluginHealth::Unresponsive => "unresponsive",
        PluginHealth::Failed => "failed",
    }
}

pub open spec fn origin_text(origin: Option<DaemonOrigin>) -> Seq<char> {
    match origin {
        Some(DaemonOrigin::Service) => "service"@,
        Some(DaemonOrigin::Dashboard) => "dashboard"@,
        Some(DaemonOrigin::Manual) => "manual"@,
        None => ""@,
    }
}

pub fn daemon_origin_id(origin: Option<DaemonOrigin>) -> (s: &'static str)
    ensures
        s@ == origin_text(origin),
{
    match origin {
        Some(DaemonOrigin::Service) => "service",
        Some(DaemonOrigin::Dashboard) => "dashboard",
        Some(DaemonOrigin::Manual) => "manual",
        None => "",
    }
}

pub open spec fn index_of_position(position: Position) -> i32 {
    match position {
        Position::Left => 0,
        Position::Right => 1,
        Position::Top => 2,
        Position::Bottom => 3,
    }
}

pub fn position_index(position: Position) -> (i: i32)
    ensures
        i == index_of_position(position),
{
    match position {
        Position::Left => 0,
        Position::Right => 1,
        Position::Top => 2,
        Position::Bottom => 3,
    }
}

// ---------------------------------------------------------------------------
// What was typed
// ---------------------------------------------------------------------------

/// A number with its sign.
pub open spec fn signed_decimal(n: int) -> Seq<char> {
    if n < 0 {
        "-"@ + decimal((-n) as nat)
    } else {
        decimal(n as nat)
    }
}

fn push_signed(s: &mut String, n: i32)
    ensures
        final(s)@ == old(s)@ + signed_decimal(n as int),
{
    let ghost before = s@;
    if n < 0 {
        s.push_str("-");
        push_decimal(s, (-(n as i64)) as u64);
    } else {
        push_decimal(s, n as u64);
    }
    assert(s@ =~= before + signed_decimal(n as int));
}

/// A result and what it should be: the value, or the text that says what is
/// wrong.
pub open spec fn reads<T>(r: Result<T, String>, value: Option<T>, wrong: Seq<char>) -> bool {
    match r {
        Ok(v) => value == Some(v),
        Err(text) => value is None && text@ == wrong,
    }
}

pub open spec fn handle_of(value: Seq<char>) -> Option<u64> {
    match number(value, u64::MAX as nat) {
        Some(n) => Some(n as u64),
        None => None,
    }
}

/// The number of a client.
pub fn parse_client_handle(value: &str) -> (r: Result<u64, String>)
    ensures
        reads(r, handle_of(value@), "Invalid client id: "@ + value@),
{
    match parse_number(value, u64::MAX) {
        Some(handle) => Ok(handle),
        None => {
            let mut text: String = "Invalid client id: ".to_owned();
            text.push_str(value);
            Err(text)
        },
    }
}

pub open spec fn port_of(value: i32) -> Option<u16> {
    if 0 < value <= 65535 {
        Some(value as u16)
    } else {
        None
    }
}

/// A port, which is not 0.
pub fn parse_port(value: i32) -> (r: Result<u16, String>)
    ensures
        reads(r, port_of(value), "Invalid port: "@ + signed_decimal(value as int)),
{
    if 0 < value && value <= 65535 {
        Ok(value as u16)
    } else {
        let mut text: String = "Invalid port: ".to_owned();
        push_signed(&mut text, value);
        Err(text)
    }
}

pub open spec fn position_of(value: i32) -> Option<Position> {
    if value == 0 {
        Some(Position::Left)
    } else if value == 1 {
        Some(Position::Right)
    } else if value == 2 {
        Some(Position::Top)
    } else if value == 3 {
        Some(Position::Bottom)
    } else {
        None
    }
}

/// The position of a client by its index.
pub fn parse_position(value: i32) -> (r: Result<Position, String>)
    ensures
        reads(r, position_of(value), "Invalid client position: "@ + signed_decimal(value as int)),
{
    if value == 0 {
        Ok(Position::Left)
    } else if value == 1 {
        Ok(Position::Right)
    } else if value == 2 {
        Ok(Position::Top)
    } else if value == 3 {
        Ok(Position::Bottom)
    } else {
        let mut text: String = "Invalid client position: ".to_owned();
        push_signed(&mut text, value);
        Err(text)
    }
}

/// Every position comes back from its index.
pub proof fn law_position_indices(position: Position)
    ensures
        position_of(index_of_position(position)) == Some(position),
{
}

/// A comma or a blank.
pub open spec fn separates(c: char) -> bool {
    c == ',' || whitespace(c)
}

/// A text cut at every comma and blank.
pub open spec fn cut(s: Seq<char>) -> Seq<Seq<char>>
    decreases s.len(),
{
    if s.len() == 0 {
        seq![Seq::empty()]
    } else {
        let parts = cut(s.drop_last());
        if separates(s.last()) {
            parts.push(Seq::empty())
        } else {
            parts.drop_last().push(parts.last().push(s.last()))
        }
    }
}

/// The texts that stand between commas and blanks.
pub open spec fn address_texts(s: Seq<char>) -> Seq<Seq<char>> {
    crate::text::nonempty(cut(s))
}

/// The texts that stand between commas and blanks.
pub fn address_parts(value: &str) -> (r: Vec<String>)
    ensures
        views(r@) == address_texts(value@),
{
    let v: Vec<char> = chars_of(value);
    let mut done: Vec<String> = Vec::new();
    let mut current: Vec<char> = Vec::new();
    let mut i: usize = 0;
    let ghost mut parts: Seq<Seq<char>> = Seq::empty();
    assert(parts.push(current@) =~= cut(v@.take(0)));
    assert(views(done@) =~= crate::text::nonempty(parts));
    while i < v.len()
        invariant
            i <= v@.len(),
            v@ == value@,
            parts.push(current@) == cut(v@.take(i as int)),
            views(done@) == crate::text::nonempty(parts),
        decreases v@.len() - i,
    {
        let c: char = v[i];
        let ghost before = parts.push(current@);
        assert(v@.take(i + 1).drop_last() =~= v@.take(i as int));
        if c == ',' || c.is_whitespace() {
            let ghost grown = parts.push(current@);
            assert(grown.drop_last() =~= parts);
            if current.len() > 0 {
                let ghost shown = views(done@);
                done.push(string_of(current.as_slice()));
                assert(views(done@) =~= shown.push(current@));
            }
            current = Vec::new();
            proof {
                parts = grown;
            }
            assert(parts.push(current@) =~= cut(v@.take(i + 1)));
        } else {
            current.push(c);
            assert(before.drop_last() =~= parts);
            assert(parts.push(current@) =~= cut(v@.take(i + 1)));
        }
        i = i + 1;
    }
    assert(v@.take(v@.len() as int) =~= v@);
    let ghost grown = parts.push(current@);
    assert(grown.drop_last() =~= parts);
    if current.len() > 0 {
        let ghost shown = views(done@);
        done.push(string_of(current.as_slice()));
        assert(views(done@) =~= shown.push(current@));
    }
    done
}

/// A text that is no address.
pub open spec fn is_unread(parts: Seq<(String, Option<IpAddr>)>) -> spec_fn(int) -> bool {
    |i: int| parts[i].1 is None
}

/// The first text that is no address, from what each was read as.
pub open spec fn first_unread(parts: Seq<(String, Option<IpAddr>)>) -> Option<int> {
    first_below(parts.len() as int, is_unread(parts))
}

/// What a list of addresses comes to.
pub open spec fn addresses_read(
    r: Result<Vec<IpAddr>, String>,
    parts: Seq<(String, Option<IpAddr>)>,
) -> bool {
    match r {
        Ok(addresses) => {
            &&& first_unread(parts) is None
            &&& addresses@ == Seq::new(parts.len(), |i: int| parts[i].1->Some_0)
        },
        Err(text) => {
            &&& first_unread(parts) is Some
            &&& text@ == "Invalid IP address: "@ + parts[first_unread(parts)->Some_0].0@
        },
    }
}

/// The addresses of some texts, from what each text was read as; the first that
/// is none is reported.
pub fn parse_addresses(parts: &Vec<(String, Option<IpAddr>)>) -> (r: Result<Vec<IpAddr>, String>)
    ensures
        addresses_read(r, parts@),
{
    let mut addresses: Vec<IpAddr> = Vec::new();
    let mut i: usize = 0;
    while i < parts.len()
        invariant
            i <= parts@.len(),
            first_below(i as int, is_unread(parts@)) is None,
            addresses@ == Seq::new(i as nat, |j: int| parts@[j].1->Some_0),
        decreases parts@.len() - i,
    {
        match parts[i].1 {
            Some(address) => {
                addresses.push(address);
                assert(addresses@ =~= Seq::new((i + 1) as nat, |j: int| parts@[j].1->Some_0));
            },
            None => {
                proof {
                    lemma_found(i + 1, parts@.len() as int, is_unread(parts@));
                }
                let mut text: String = "Invalid IP address: ".to_owned();
                text.push_str(parts[i].0.as_str());
                return Err(text);
            },
        }
        i = i + 1;
    }
    Ok(addresses)
}

} // verus!
