use redis_cluster::command::{cmd, Cmd};
use redis_cluster::routing::{Route, RoutingInfo, SingleNodeRoutingInfo, SlotAddr};
use redis_cluster::unpack::read_packed;

fn words_of(command: &Cmd) -> Vec<Vec<u8>> {
    let mut words = Vec::new();
    let mut i = 0;
    while let Some(word) = command.arg_idx(i) {
        words.push(word.to_vec());
        i += 1;
    }
    words
}

fn read(bytes: &[u8]) -> Option<Vec<Vec<u8>>> {
    read_packed(bytes).map(|command| words_of(&command))
}

#[test]
fn a_packed_command_is_read_back() {
    let mut get = cmd("GET");
    get.arg(b"key");
    let packed = get.get_packed_command();
    assert_eq!(packed, b"*2\r\n$3\r\nGET\r\n$3\r\nkey\r\n".to_vec());
    assert_eq!(read(&packed), Some(vec![b"GET".to_vec(), b"key".to_vec()]));
}

#[test]
fn a_command_read_back_is_routed_like_the_command_itself() {
    let mut set = cmd("SET");
    set.arg(b"key").arg(b"value");
    let read_back = read_packed(&set.get_packed_command()).unwrap();
    assert_eq!(
        RoutingInfo::for_routable(&read_back),
        RoutingInfo::for_routable(&set)
    );
    assert_eq!(
        RoutingInfo::for_routable(&read_back),
        Some(RoutingInfo::SingleNode(SingleNodeRoutingInfo::SpecificNode(
            Route(12539, SlotAddr::Master)
        )))
    );
}

#[test]
fn only_the_first_of_several_packed_commands_is_read() {
    let mut bytes = cmd("PING").get_packed_command();
    let mut get = cmd("GET");
    get.arg(b"key");
    bytes.extend(get.get_packed_command());
    assert_eq!(read(&bytes), Some(vec![b"PING".to_vec()]));
    assert_eq!(
        read(b"*1\r\n$4\r\nPING\r\nanything"),
        Some(vec![b"PING".to_vec()])
    );
}

#[test]
fn an_argument_may_hold_any_bytes() {
    let mut set = cmd("SET");
    set.arg(b"a\r\nb").arg(b"").arg(&[0u8, 255, 36, 42]);
    assert_eq!(
        read(&set.get_packed_command()),
        Some(vec![
            b"SET".to_vec(),
            b"a\r\nb".to_vec(),
            Vec::new(),
            vec![0u8, 255, 36, 42]
        ])
    );
}

#[test]
fn counts_of_several_digits_are_read() {
    let mut long = cmd("MGET");
    for _ in 0..11 {
        long.arg(b"0123456789ab");
    }
    let packed = long.get_packed_command();
    assert!(packed.starts_with(b"*12\r\n$4\r\nMGET\r\n$12\r\n0123456789ab\r\n"));
    let words = read(&packed).unwrap();
    assert_eq!(words.len(), 12);
    assert_eq!(words[0], b"MGET".to_vec());
    assert_eq!(words[11], b"0123456789ab".to_vec());
}

#[test]
fn a_command_without_arguments_is_read() {
    assert_eq!(Cmd::new().get_packed_command(), b"*0\r\n".to_vec());
    assert_eq!(read(b"*0\r\n"), Some(Vec::new()));
}

#[test]
fn bytes_that_begin_with_no_packed_command_are_refused() {
    assert_eq!(read(b""), None);
    assert_eq!(read(b"*"), None);
    assert_eq!(read(b"+OK\r\n"), None);
    assert_eq!(read(b"GET key\r\n"), None);
    assert_eq!(read(b"*1"), None);
    assert_eq!(read(b"*1\r"), None);
    assert_eq!(read(b"*1\n\r$4\r\nPING\r\n"), None);
    assert_eq!(read(b"*\r\n"), None);
    assert_eq!(read(b"*-1\r\n"), None);
    assert_eq!(read(b"*1\r\n"), None);
    assert_eq!(read(b"*1\r\n:4\r\n"), None);
    assert_eq!(read(b"*1\r\n$4\r\nPIN"), None);
    assert_eq!(read(b"*1\r\n$4\r\nPING"), None);
    assert_eq!(read(b"*1\r\n$4\r\nPING\r"), None);
    assert_eq!(read(b"*1\r\n$4\r\nPINGS\r\n"), None);
    assert_eq!(read(b"*1\r\n$5\r\nPING\r\n"), None);
    assert_eq!(read(b"*2\r\n$4\r\nPING\r\n"), None);
}

#[test]
fn a_numeral_with_a_leading_zero_is_refused() {
    assert_eq!(read(b"*01\r\n$4\r\nPING\r\n"), None);
    assert_eq!(read(b"*1\r\n$04\r\nPING\r\n"), None);
    assert_eq!(read(b"*00\r\n"), None);
    assert_eq!(read(b"*1\r\n$0\r\n\r\n"), Some(vec![Vec::new()]));
}

#[test]
fn a_number_beyond_the_bytes_at_hand_is_refused() {
    assert_eq!(read(b"*99999999999999999999999999999999999999999\r\n"), None);
    assert_eq!(
        read(b"*1\r\n$18446744073709551616\r\nPING\r\n"),
        None
    );
    assert_eq!(read(b"*1\r\n$18446744073709551615\r\nPING\r\n"), None);
}
