use stt::writer::{BufferedFileWriter, FLUSH_SIZE_THRESHOLD, FLUSH_TIME_THRESHOLD};

const SEC: u128 = 1_000_000_000;

#[test]
fn two_hundred_bytes_call_for_a_sync() {
    let mut writer = BufferedFileWriter::new(0);
    assert!(!writer.write(&"a".repeat(199), 1));
    assert!(writer.write("b", 1));
    writer.flush(2);
    assert!(!writer.write("c", 3));
}

#[test]
fn bytes_are_counted_not_characters() {
    let mut writer = BufferedFileWriter::new(0);
    assert!(!writer.write(&"\u{e9}".repeat(99), 0));
    assert!(writer.write("\u{e9}", 0));
}

#[test]
fn two_seconds_call_for_a_sync() {
    let mut writer = BufferedFileWriter::new(5 * SEC);
    assert!(!writer.write("a", 7 * SEC - 1));
    assert!(writer.write("", 7 * SEC));
    writer.flush(8 * SEC);
    assert!(!writer.write("a", 9 * SEC));
    assert!(writer.write("a", 10 * SEC));
}

#[test]
fn a_clock_that_runs_back_counts_as_no_time() {
    let mut writer = BufferedFileWriter::new(5 * SEC);
    assert!(!writer.write("a", 0));
}

#[test]
fn an_unheeded_sync_stays_due() {
    let mut writer = BufferedFileWriter::new(0);
    assert!(writer.write(&"a".repeat(200), 0));
    assert!(writer.write("", 0));
    assert!(writer.has_room("abc"));
}

#[test]
fn unsynced_bytes_stay_below_the_threshold() {
    let mut writer = BufferedFileWriter::new(0);
    let mut unsynced = 0;
    let mut last_sync = 0;
    let mut now = 0;
    for i in 0..1000usize {
        let data = "x".repeat(i * 7 % 60);
        now += (i as u128 * 31 % 11) * SEC / 20;
        unsynced += data.len();
        if writer.write(&data, now) {
            writer.flush(now);
            unsynced = 0;
            last_sync = now;
        }
        assert!(unsynced < FLUSH_SIZE_THRESHOLD);
        assert!(unsynced == 0 || now - last_sync < FLUSH_TIME_THRESHOLD);
    }
}

#[test]
fn a_flush_settles_the_account() {
    let mut writer = BufferedFileWriter::new(0);
    assert!(!writer.write(&"a".repeat(150), 1));
    writer.flush(SEC);
    assert!(!writer.write(&"b".repeat(199), 2 * SEC));
    assert!(writer.write("c", 2 * SEC));
}

#[test]
fn a_failed_sync_is_made_up_for() {
    let mut writer = BufferedFileWriter::new(0);
    assert!(writer.write(&"a".repeat(250), SEC));
    // That sync failed: nothing is noted, and the next write calls for one again.
    assert!(writer.write("b", SEC));
    writer.flush(SEC);
    assert!(!writer.write(&"c".repeat(199), SEC));
}
