use rustsocks::connect::{connect_accepted, connect_request, CONNECT_RESPONSE_LIMIT};
use rustsocks::endpoint::Endpoint;

fn request_text(target: Endpoint) -> String {
    String::from_utf8(connect_request(&target)).unwrap()
}

fn v6(groups: [u16; 8], port: u16) -> Endpoint {
    let mut addr: u128 = 0;
    for g in groups {
        addr = (addr << 16) | g as u128;
    }
    Endpoint::v6(addr, port, 0, 0)
}

#[test]
fn proxy_request_for_ipv4_target() {
    let target = Endpoint::v4(93, 184, 216, 34, 80);
    assert_eq!(
        connect_request(&target),
        b"CONNECT 93.184.216.34:80 HTTP/1.1\r\nHost: 93.184.216.34:80\r\n\r\n".to_vec()
    );
}

#[test]
fn request_digits_have_no_leading_zeros() {
    assert_eq!(
        request_text(Endpoint::v4(0, 10, 100, 255, 0)),
        "CONNECT 0.10.100.255:0 HTTP/1.1\r\nHost: 0.10.100.255:0\r\n\r\n"
    );
    assert_eq!(
        request_text(Endpoint::v4(127, 0, 0, 1, 65535)),
        "CONNECT 127.0.0.1:65535 HTTP/1.1\r\nHost: 127.0.0.1:65535\r\n\r\n"
    );
    assert_eq!(
        request_text(Endpoint::v4(9, 99, 109, 200, 10000)),
        "CONNECT 9.99.109.200:10000 HTTP/1.1\r\nHost: 9.99.109.200:10000\r\n\r\n"
    );
}

fn host_of(target: Endpoint) -> String {
    let text = request_text(target);
    let rest = text.strip_prefix("CONNECT ").unwrap();
    let authority = &rest[..rest.find(" HTTP/1.1\r\n").unwrap()];
    let host_line = format!("Host: {}\r\n\r\n", authority);
    assert!(text.ends_with(&host_line));
    let port = format!(":{}", target.port());
    String::from(authority.strip_suffix(&port).unwrap())
}

#[test]
fn request_for_ipv6_targets() {
    assert_eq!(host_of(v6([0, 0, 0, 0, 0, 0, 0, 0], 80)), "::");
    assert_eq!(host_of(v6([0, 0, 0, 0, 0, 0, 0, 1], 80)), "::1");
    assert_eq!(host_of(v6([0x2001, 0xdb8, 0, 0, 0, 0, 0, 1], 443)), "2001:db8::1");
    assert_eq!(host_of(v6([1, 2, 3, 4, 5, 6, 7, 8], 1)), "1:2:3:4:5:6:7:8");
    assert_eq!(host_of(v6([1, 0, 2, 3, 4, 5, 6, 7], 1)), "1:0:2:3:4:5:6:7");
    assert_eq!(host_of(v6([1, 0, 0, 2, 0, 0, 0, 3], 1)), "1:0:0:2::3");
    assert_eq!(host_of(v6([0, 0, 1, 0, 0, 1, 0, 0], 1)), "::1:0:0:1:0:0");
    assert_eq!(host_of(v6([1, 0, 0, 0, 0, 0, 0, 0], 1)), "1::");
    assert_eq!(host_of(v6([0xfe80, 0, 0, 0, 0xabcd, 0x10, 0xf, 0xffff], 1)), "fe80::abcd:10:f:ffff");
    assert_eq!(host_of(v6([0, 0, 0, 0, 0, 0xffff, 0x0102, 0x0304], 1)), "::ffff:1.2.3.4");
    assert_eq!(host_of(v6([0, 0, 0, 0, 0, 0, 0x0102, 0x0304], 1)), "::102:304");
    assert_eq!(host_of(v6([0, 0, 0, 0, 1, 0xffff, 0x0102, 0x0304], 1)), "::1:ffff:102:304");
}

#[test]
fn ipv6_request_is_written_without_brackets() {
    assert_eq!(
        request_text(v6([0x2001, 0xdb8, 0, 0, 0, 0, 0, 1], 8080)),
        "CONNECT 2001:db8::1:8080 HTTP/1.1\r\nHost: 2001:db8::1:8080\r\n\r\n"
    );
}

#[test]
fn proxy_answer_200_is_accepted() {
    assert!(connect_accepted(b"HTTP/1.1 200 OK\r\n\r\n"));
    assert!(connect_accepted(b"HTTP/1.1 200"));
    assert!(connect_accepted(b"HTTP/1.1 200 Connection established\r\n\r\n"));
}

#[test]
fn short_answer_is_a_failure() {
    assert!(!connect_accepted(b""));
    assert!(!connect_accepted(b"HTTP/1.1 20"));
    assert!(!connect_accepted(b"HTTP/1.1"));
}

#[test]
fn other_answers_are_failures() {
    assert!(!connect_accepted(b"HTTP/1.1 403 Forbidden\r\n\r\n"));
    assert!(!connect_accepted(b"HTTP/1.0 200 OK\r\n\r\n"));
    assert!(!connect_accepted(b"http/1.1 200 OK\r\n\r\n"));
    assert!(!connect_accepted(b" HTTP/1.1 200 OK\r\n\r\n"));
    assert!(!connect_accepted(b"HTTP/1.1 201 Created\r\n\r\n"));
    assert!(!connect_accepted(&[0xff; 64]));
}

#[test]
fn answer_is_read_up_to_a_limit() {
    assert_eq!(CONNECT_RESPONSE_LIMIT, 1024);
}
