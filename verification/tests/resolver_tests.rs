use rusty_controller::setup::{find_matching_addr, find_matching_ip, format_ipv4};

#[test]
fn resolver_picks_subnet_member() {
    // subnet 192.168.1.0/255.255.255.0 against [10.0.0.5, 192.168.1.42]
    let addrs = vec![[10, 0, 0, 5], [192, 168, 1, 42]];
    let r = find_matching_addr(&addrs, [192, 168, 1, 0], [255, 255, 255, 0]);
    assert_eq!(r, Some([192, 168, 1, 42]));
}

#[test]
fn resolver_returns_first_match_in_order() {
    let addrs = vec![[192, 168, 1, 7], [192, 168, 1, 42]];
    let r = find_matching_addr(&addrs, [192, 168, 1, 0], [255, 255, 255, 0]);
    assert_eq!(r, Some([192, 168, 1, 7]));
}

#[test]
fn resolver_reports_not_found() {
    let addrs = vec![[10, 0, 0, 5], [172, 16, 3, 9]];
    let r = find_matching_addr(&addrs, [192, 168, 1, 0], [255, 255, 255, 0]);
    assert_eq!(r, None);
}

#[test]
fn resolver_applies_mask_not_equality() {
    // A /16 mask: the third octet may differ.
    let addrs = vec![[192, 168, 7, 1]];
    let r = find_matching_addr(&addrs, [192, 168, 1, 0], [255, 255, 0, 0]);
    assert_eq!(r, Some([192, 168, 7, 1]));
}

#[test]
fn resolver_with_zero_mask_takes_first_candidate() {
    let addrs = vec![[8, 8, 8, 8], [1, 1, 1, 1]];
    let r = find_matching_addr(&addrs, [0, 0, 0, 0], [0, 0, 0, 0]);
    assert_eq!(r, Some([8, 8, 8, 8]));
}

#[test]
fn resolver_empty_candidate_list() {
    let addrs: Vec<[u8; 4]> = vec![];
    assert_eq!(find_matching_addr(&addrs, [0, 0, 0, 0], [0, 0, 0, 0]), None);
}

#[test]
fn live_interface_enumeration_is_consistent() {
    // Machine-dependent: only check that a resolved address does
    // satisfy the mask it was resolved against.
    let subnet = [127, 0, 0, 0];
    let netmask = [255, 0, 0, 0];
    match find_matching_ip(subnet, netmask) {
        Ok(a) => assert_eq!(a[0] & netmask[0], subnet[0] & netmask[0]),
        Err(e) => assert_eq!(e, "No matching IP's found"),
    }
}

#[test]
fn formats_dotted_decimal() {
    assert_eq!(format_ipv4([192, 168, 1, 42]), "192.168.1.42");
    assert_eq!(format_ipv4([0, 0, 0, 0]), "0.0.0.0");
    assert_eq!(format_ipv4([255, 255, 255, 255]), "255.255.255.255");
    assert_eq!(format_ipv4([8, 0, 10, 100]), "8.0.10.100");
}
