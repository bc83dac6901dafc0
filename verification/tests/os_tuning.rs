use realm::addr::{new_sockaddr_v4, new_sockaddr_v6, IpAddr, SocketAddr};
use realm::tuning::{
    bind_to_device, get_nofile_limit, nofile_request, set_nofile_limit, set_pipe_cap, NofileReport,
    Platform, Tuning,
};

#[test]
fn pipe_capacity_is_set_where_the_platform_has_zero_copy() {
    let mut tuning = Tuning::new();
    assert_eq!(tuning, Tuning { pipe_cap: None });
    set_pipe_cap(&mut tuning, &Platform { zero_copy: true, bind_device: true }, 65536);
    assert_eq!(tuning, Tuning { pipe_cap: Some(65536) });
    set_pipe_cap(&mut tuning, &Platform { zero_copy: true, bind_device: false }, 1 << 20);
    assert_eq!(tuning, Tuning { pipe_cap: Some(1 << 20) });
}

#[test]
fn pipe_capacity_is_left_alone_elsewhere() {
    let mut tuning = Tuning::new();
    set_pipe_cap(&mut tuning, &Platform { zero_copy: false, bind_device: true }, 1 << 20);
    assert_eq!(tuning, Tuning { pipe_cap: None });
    let mut tuning = Tuning { pipe_cap: Some(65536) };
    set_pipe_cap(&mut tuning, &Platform { zero_copy: false, bind_device: true }, 1 << 20);
    assert_eq!(tuning, Tuning { pipe_cap: Some(65536) });
}

#[test]
fn nofile_request_sets_both_limits() {
    assert_eq!(nofile_request(4096), (4096, 4096));
    assert_eq!(nofile_request(u64::MAX), (u64::MAX, u64::MAX));
}

#[test]
fn nofile_limit_above_the_hard_ceiling_is_refused_and_the_old_one_stays() {
    let before = get_nofile_limit(0, 1024, 4096);
    assert_eq!(before, Some((1024, 4096)));
    let (after, report) = set_nofile_limit(before, 1 << 40, -1);
    assert_eq!(after, Some((1024, 4096)));
    assert_eq!(report, NofileReport::Refused);
    let (after, report) = set_nofile_limit(None, 1 << 40, -1);
    assert_eq!(after, None);
    assert_eq!(report, NofileReport::Refused);
}

#[test]
fn nofile_limit_that_is_taken_becomes_the_ceiling() {
    let (after, report) = set_nofile_limit(Some((1024, 4096)), 2048, 0);
    assert_eq!(after, Some((2048, 2048)));
    assert_eq!(report, NofileReport::Raised(2048));
}

#[test]
fn nofile_query_that_fails_gives_nothing() {
    assert_eq!(get_nofile_limit(-1, 1024, 4096), None);
    assert_eq!(get_nofile_limit(-1, 0, 0), None);
    assert_eq!(get_nofile_limit(0, 0, 0), Some((0, 0)));
}

#[test]
fn device_binding_hands_on_the_raw_error() {
    assert_eq!(bind_to_device(0, 0), Ok(()));
    assert_eq!(bind_to_device(0, 19), Ok(()));
    assert_eq!(bind_to_device(-1, 19), Err(19));
    assert_eq!(bind_to_device(-1, 1), Err(1));
}

#[test]
fn unspecified_addresses_have_port_zero() {
    assert_eq!(
        new_sockaddr_v4(),
        SocketAddr { ip: IpAddr::V4(0, 0, 0, 0), port: 0, scope_id: 0 }
    );
    assert_eq!(
        new_sockaddr_v6(),
        SocketAddr { ip: IpAddr::V6(0, 0, 0, 0, 0, 0, 0, 0), port: 0, scope_id: 0 }
    );
}
