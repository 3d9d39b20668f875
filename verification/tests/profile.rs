use crmonitor::profile::{get_network_profile_info, parse_profile, ProfileQuery};

fn ran(success: bool, stdout: &[u8]) -> ProfileQuery {
    ProfileQuery::Ran { success, stdout: stdout.to_vec() }
}

fn unavailable() -> (u32, String) {
    (0, "Network info not available".to_string())
}

#[test]
fn an_answer_is_read() {
    let query = ran(true, b"12;Home (Private): 192.168.0.5\r\n");
    assert_eq!(get_network_profile_info(query), (12, "Home (Private): 192.168.0.5".to_string()));
}

#[test]
fn white_space_around_the_parts_is_dropped() {
    let query = ran(true, b"\n 7 ; a;b \n");
    assert_eq!(get_network_profile_info(query), (7, "a;b".to_string()));
}

#[test]
fn bytes_that_are_no_text_are_replaced() {
    let query = ran(true, b"3;caf\xe9");
    assert_eq!(get_network_profile_info(query), (3, "caf\u{fffd}".to_string()));
    let query = ran(true, "3;caf\u{e9}".as_bytes());
    assert_eq!(get_network_profile_info(query), (3, "caf\u{e9}".to_string()));
}

#[test]
fn without_an_answer_there_is_no_network() {
    assert_eq!(get_network_profile_info(ProfileQuery::NotRun), unavailable());
    assert_eq!(get_network_profile_info(ran(false, b"12;Home")), unavailable());
    assert_eq!(get_network_profile_info(ran(true, b"")), unavailable());
    assert_eq!(get_network_profile_info(ran(true, b"12 Home")), unavailable());
    assert_eq!(get_network_profile_info(ran(true, b"x;Home")), unavailable());
    assert_eq!(
        get_network_profile_info(ProfileQuery::Unsupported),
        (0, "Network info not available on this OS".to_string())
    );
}

#[test]
fn texts_are_read() {
    assert_eq!(parse_profile("1;"), Some((1, String::new())));
    assert_eq!(parse_profile(";x"), None);
}
