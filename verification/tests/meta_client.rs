use ethos_zero::meta_client::{frame_length, parse_arguments, socket_path};
use ethos_zero::nexus::MAX_FRAME_BYTES;

#[test]
fn accepts_exactly_one_non_flag_datom() {
    assert!(parse_arguments(&["Observe.Configuration".into()]).is_ok());
    assert!(parse_arguments(&[]).is_err());
    assert!(parse_arguments(&["--help".into()]).is_err());
    assert!(parse_arguments(&["Observe.Configuration".into(), "extra".into()]).is_err());
}

#[test]
fn rejects_oversized_frame_before_allocation() {
    assert!(frame_length((MAX_FRAME_BYTES as u32).to_le_bytes()).is_ok());
    assert!(frame_length(((MAX_FRAME_BYTES as u32) + 1).to_le_bytes()).is_err());
}

#[test]
fn parsed_argument_is_the_value_itself() {
    assert_eq!(
        parse_arguments(&["Observe.Configuration".into()]),
        Ok("Observe.Configuration".to_string())
    );
    assert_eq!(
        parse_arguments(&["-x".into()]),
        Err("accepts exactly one Datomic object and no flags".to_string())
    );
}

#[test]
fn frame_length_reads_little_endian() {
    assert_eq!(frame_length([1, 2, 0, 0]), Ok(513));
    assert_eq!(
        frame_length([0, 0, 0, 2]),
        Err("Nexus frame exceeds maximum length".to_string())
    );
}

#[test]
fn meta_socket_prefers_the_runtime_directory() {
    assert_eq!(
        socket_path(Some("/run/user/1".into()), Some("/state".into()), Some("/home/a".into())),
        Ok("/run/user/1/ethos-zero-nexus/meta-ethos-zero.sock".to_string())
    );
    assert_eq!(
        socket_path(None, Some("/state/".into()), None),
        Ok("/state/ethos-zero-nexus/meta-ethos-zero.sock".to_string())
    );
    assert_eq!(
        socket_path(None, None, Some("/home/a".into())),
        Ok("/home/a/.local/state/ethos-zero-nexus/meta-ethos-zero.sock".to_string())
    );
    assert_eq!(
        socket_path(None, None, None),
        Err("XDG_RUNTIME_DIR, XDG_STATE_HOME, or HOME is required".to_string())
    );
}
