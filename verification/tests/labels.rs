//! Words for numbers, and numbers from words.
use syntra::api::{IpAddr, Position};
use syntra::ui::labels::{
    address_parts, file_kind, format_bytes, format_peer_commit, format_rate, format_time,
    format_uptime, join, parse_addresses, parse_client_handle, parse_port, parse_position,
    position_index, time_or_nothing,
};

/// A size in floating-point arithmetic.
fn floating(bytes: u64) -> String {
    let units = ["B", "KiB", "MiB", "GiB", "TiB"];
    let mut amount = bytes as f64;
    let mut unit = 0;
    while amount >= 1024.0 && unit + 1 < units.len() {
        amount /= 1024.0;
        unit += 1;
    }
    if unit == 0 {
        format!("{bytes} {}", units[unit])
    } else {
        format!("{amount:.1} {}", units[unit])
    }
}

#[test]
fn sizes_are_those_of_floating_point_arithmetic() {
    let mut sizes = vec![0, 1, 1023, 1024, 1075, 1280, 1536, 1024 * 1024 - 1, u64::MAX];
    for power in 0..64 {
        let base = 1u64 << power;
        for offset in [0, 1, 51, 52, 53, 255, 256, 257, 1023, 1024, 1025] {
            sizes.push(base.wrapping_add(offset));
            sizes.push(base.wrapping_sub(offset));
            sizes.push(base.wrapping_mul(5).wrapping_div(4).wrapping_add(offset));
        }
    }
    let mut random: u64 = 0x1234_5678_9abc_def1;
    for _ in 0..20_000 {
        random ^= random << 13;
        random ^= random >> 7;
        random ^= random << 17;
        sizes.push(random);
        sizes.push(random >> (random % 64));
    }
    for twentieth in 0..4000u64 {
        sizes.push(twentieth * 1024 / 20);
        sizes.push(twentieth * 1024 * 1024 / 20);
        sizes.push(twentieth * 256);
        sizes.push(twentieth * 256 * 1024);
    }
    for bytes in sizes {
        assert_eq!(format_bytes(bytes), floating(bytes), "{bytes}");
    }
}

#[test]
fn sizes_in_words() {
    assert_eq!(format_bytes(999), "999 B");
    assert_eq!(format_bytes(1536), "1.5 KiB");
    assert_eq!(format_bytes(1_073_741_824), "1.0 GiB");
    assert_eq!(format_rate(0), "");
    assert_eq!(format_rate(2048), "2.0 KiB/s");
}

#[test]
fn uptimes_in_words() {
    assert_eq!(format_uptime(5, false), "");
    assert_eq!(format_uptime(59, true), "0 min");
    assert_eq!(format_uptime(3600, true), "1 h");
    assert_eq!(format_uptime(3660, true), "1 h 1 min");
    assert_eq!(format_uptime(86_400, true), "1 d");
    assert_eq!(format_uptime(90_000, true), "1 d 1 h");
}

#[test]
fn times_in_words() {
    assert_eq!(format_time(0), "1970-01-01 00:00:00 UTC");
    assert_eq!(format_time(1_800_000_000_000), "2027-01-15 08:00:00 UTC");
    assert_eq!(format_time(i64::MAX), "");
    assert_eq!(time_or_nothing(None), "");
}

#[test]
fn names_in_words() {
    assert_eq!(file_kind("a.tar.gz"), "GZ");
    assert_eq!(file_kind("README"), "File");
    assert_eq!(file_kind("dot."), "File");
    assert_eq!(format_peer_commit(*b"\x00\x0f\xf0\xff\x01\x02\x03\x04"), "000ff0ff01020304");
    let parts = vec!["a".to_string(), "b".to_string()];
    assert_eq!(join(&parts, ", "), "a, b");
    assert_eq!(join(&vec![], ", "), "");
}

#[test]
fn typed_numbers_are_checked() {
    assert_eq!(parse_client_handle("7").unwrap(), 7);
    assert_eq!(parse_client_handle("+7").unwrap(), 7);
    assert_eq!(
        parse_client_handle("18446744073709551616").unwrap_err(),
        "Invalid client id: 18446744073709551616"
    );
    assert_eq!(parse_port(65535).unwrap(), 65535);
    assert_eq!(parse_port(0).unwrap_err(), "Invalid port: 0");
    assert_eq!(parse_port(-1).unwrap_err(), "Invalid port: -1");
    assert_eq!(parse_position(3).unwrap(), Position::Bottom);
    assert_eq!(parse_position(4).unwrap_err(), "Invalid client position: 4");
    for position in [Position::Left, Position::Right, Position::Top, Position::Bottom] {
        assert_eq!(parse_position(position_index(position)).unwrap(), position);
    }
}

#[test]
fn addresses_stand_between_commas_and_blanks() {
    let parts = address_parts(" 10.0.0.1,\t::1 ,, x");
    assert_eq!(parts, vec!["10.0.0.1", "::1", "x"]);
    let pairs = vec![
        (parts[0].clone(), Some(IpAddr::V4(0x0a00_0001))),
        (parts[1].clone(), Some(IpAddr::V6(1))),
        (parts[2].clone(), None),
    ];
    assert_eq!(parse_addresses(&pairs).unwrap_err(), "Invalid IP address: x");
    assert_eq!(
        parse_addresses(&pairs[..2].to_vec()).unwrap(),
        vec![IpAddr::V4(0x0a00_0001), IpAddr::V6(1)]
    );
}
