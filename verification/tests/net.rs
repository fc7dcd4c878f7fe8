use nagent::net::{Endpoint, Ip};

fn v6(a: u16, b: u16, c: u16, d: u16, e: u16, f: u16, g: u16, h: u16) -> String {
    Ip::V6(a, b, c, d, e, f, g, h).to_text()
}

#[test]
fn octets_are_written_with_dots() {
    assert_eq!(Ip::V4(0, 0, 0, 0).to_text(), "0.0.0.0");
    assert_eq!(Ip::V4(203, 0, 113, 7).to_text(), "203.0.113.7");
    assert_eq!(Ip::V4(255, 255, 255, 255).to_text(), "255.255.255.255");
}

#[test]
fn the_longest_run_of_zeros_is_left_out() {
    assert_eq!(v6(0, 0, 0, 0, 0, 0, 0, 0), "::");
    assert_eq!(v6(0, 0, 0, 0, 0, 0, 0, 1), "::1");
    assert_eq!(v6(1, 0, 0, 0, 0, 0, 0, 0), "1::");
    assert_eq!(v6(0x2001, 0xdb8, 0, 0, 1, 0, 0, 1), "2001:db8::1:0:0:1");
    assert_eq!(v6(0x2001, 0, 0, 1, 0, 0, 0, 1), "2001:0:0:1::1");
    assert_eq!(v6(0, 0, 1, 2, 3, 4, 5, 6), "::1:2:3:4:5:6");
}

#[test]
fn one_zero_alone_is_written() {
    assert_eq!(v6(1, 0, 2, 3, 4, 5, 6, 7), "1:0:2:3:4:5:6:7");
    assert_eq!(v6(0xfe80, 1, 0xabc, 0xffff, 0x10, 5, 6, 0), "fe80:1:abc:ffff:10:5:6:0");
}

#[test]
fn mapped_addresses_keep_their_dots() {
    assert_eq!(v6(0, 0, 0, 0, 0, 0xffff, 0x0102, 0x0304), "::ffff:1.2.3.4");
    assert_eq!(v6(0, 0, 0, 0, 0, 0xffff, 0xc0a8, 0xff), "::ffff:192.168.0.255");
    assert_eq!(v6(0, 0, 0, 0, 0, 0, 0x0102, 0x0304), "::102:304");
}

#[test]
fn an_endpoint_is_an_address_and_a_port() {
    let four = Endpoint { ip: Ip::V4(10, 0, 0, 1), port: 80 };
    assert_eq!(four.to_text(), "10.0.0.1:80");
    let six = Endpoint { ip: Ip::V6(0, 0, 0, 0, 0, 0, 0, 1), port: 8080 };
    assert_eq!(six.to_text(), "[::1]:8080");
}
