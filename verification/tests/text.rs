use sozu::text::socket_text;

#[test]
fn ports_are_written_in_decimal() {
    for port in 0..=u16::MAX {
        assert_eq!(socket_text(&String::from("host"), port), format!("host:{}", port));
    }
}

#[test]
fn the_text_tells_host_and_port_apart() {
    let first = socket_text(&String::from("a:1"), 2);
    let second = socket_text(&String::from("a"), 12);
    assert_eq!(first, "a:1:2");
    assert_eq!(second, "a:12");
    assert_ne!(first, second);
}
