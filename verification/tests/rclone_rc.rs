use lazymount::rclone_rc::{
    mount_stats, rc_error, transfer_stats, transfer_stats_of, vfs_stats, vfs_stats_of,
    RcloneRcClient,
};
use lazymount::types::{LazyMountError, MountStats};

fn body(s: &str) -> Vec<u8> {
    s.as_bytes().to_vec()
}

#[test]
fn commands_have_addresses() {
    let client = RcloneRcClient::new(5572).clone();
    assert_eq!(client.health_check_url(), "http://127.0.0.1:5572/rc/noop");
    assert_eq!(client.vfs_stats_url(), "http://127.0.0.1:5572/vfs/stats");
    assert_eq!(client.transfer_stats_url(), "http://127.0.0.1:5572/core/stats");
    assert_eq!(client.forget_cache_url(), "http://127.0.0.1:5572/vfs/forget");
    assert_eq!(client.unmount_url(), "http://127.0.0.1:5572/mount/unmount");
}

#[test]
fn cache_figures_are_read() {
    let answer = body(
        r#"{"diskCache":{"bytesUsed":1234,"uploadsInProgress":2,"uploadsQueued":3},"fs":"x"}"#,
    );
    assert_eq!(
        vfs_stats(&answer),
        Some(Ok(MountStats { cache_size_bytes: 1234, cached_files: 5, ..MountStats::default() }))
    );
}

#[test]
fn missing_cache_figures_are_zero() {
    for answer in ["{}", "[]", "null", "3", r#"{"diskCache":7}"#, r#"{"diskCache":{"bytesUsed":-1}}"#]
    {
        assert_eq!(vfs_stats(&body(answer)), Some(Ok(MountStats::default())));
    }
    let answer = body(r#"{"diskCache":{"bytesUsed":1.5,"uploadsQueued":4,"uploadsInProgress":"2"}}"#);
    assert_eq!(
        vfs_stats(&answer),
        Some(Ok(MountStats { cached_files: 4, ..MountStats::default() }))
    );
}

#[test]
fn too_many_files_give_no_figures() {
    let answer = body(
        r#"{"diskCache":{"uploadsInProgress":18446744073709551615,"uploadsQueued":1}}"#,
    );
    assert_eq!(vfs_stats(&answer), None);
    let answer = body(r#"{"diskCache":{"uploadsInProgress":18446744073709551615}}"#);
    assert_eq!(
        vfs_stats(&answer),
        Some(Ok(MountStats { cached_files: u64::MAX, ..MountStats::default() }))
    );
}

#[test]
fn unreadable_answers_are_errors() {
    for answer in ["", "{", "{} x", "nul"] {
        assert_eq!(
            vfs_stats(&body(answer)),
            Some(Err(LazyMountError::RcloneRc(
                "vfs/stats parse failed: error decoding response body".to_string()
            )))
        );
        assert_eq!(
            transfer_stats(&body(answer)),
            Err(LazyMountError::RcloneRc(
                "core/stats parse failed: error decoding response body".to_string()
            ))
        );
    }
}

#[test]
fn transfer_figures_are_read() {
    let answer = body(r#"{"bytes":987,"speed":12.25,"checks":0}"#);
    assert_eq!(
        transfer_stats(&answer),
        Ok(MountStats {
            bytes_transferred: 987,
            transfer_speed_bits: 12.25f64.to_bits(),
            ..MountStats::default()
        })
    );
    let answer = body(r#"{"bytes":-1,"speed":7}"#);
    assert_eq!(
        transfer_stats(&answer),
        Ok(MountStats { transfer_speed_bits: 7.0f64.to_bits(), ..MountStats::default() })
    );
    assert_eq!(transfer_stats(&body("{}")), Ok(MountStats::default()));
}

#[test]
fn figures_are_made_of_numbers() {
    assert_eq!(
        vfs_stats_of(Some(1), Some(2), Some(3)),
        MountStats { cache_size_bytes: 1, cached_files: 5, ..MountStats::default() }
    );
    assert_eq!(vfs_stats_of(None, None, None), MountStats::default());
    assert_eq!(
        transfer_stats_of(Some(1), Some(2)),
        MountStats { bytes_transferred: 1, transfer_speed_bits: 2, ..MountStats::default() }
    );
    assert_eq!(transfer_stats_of(None, None), MountStats::default());
}

#[test]
fn figures_of_cache_and_transfers_are_joined() {
    let vfs = MountStats {
        cache_size_bytes: 1,
        cached_files: 2,
        bytes_transferred: 3,
        transfer_speed_bits: 4,
    };
    let transfer = MountStats {
        cache_size_bytes: 5,
        cached_files: 6,
        bytes_transferred: 7,
        transfer_speed_bits: 8,
    };
    assert_eq!(
        mount_stats(vfs, transfer),
        MountStats {
            cache_size_bytes: 1,
            cached_files: 2,
            bytes_transferred: 7,
            transfer_speed_bits: 8,
        }
    );
}

#[test]
fn failures_are_worded() {
    assert_eq!(
        rc_error("vfs/stats request", "refused").message(),
        "rclone RC error: vfs/stats request failed: refused"
    );
}
