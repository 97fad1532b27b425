use radon_core::fs::sfs::time_stamp::TimeStamp;
use radon_core::fs::types::{Time, Timespec};

#[test]
fn i64_conversion() {
    assert_eq!(0_i64, TimeStamp::from(0_i64).into());
    assert_eq!(1_000_000_i64, TimeStamp::from(1_000_000_i64).into());
    assert_eq!(-1_000_000_i64, TimeStamp::from(-1_000_000_i64).into());
}

#[test]
fn time_conversion() {
    const YEAR_2000_TIMESTAMP: i64 = 946_684_800;

    assert_eq!(
        TimeStamp::from(YEAR_2000_TIMESTAMP * 65536),
        (Timespec { tv_sec: Time(YEAR_2000_TIMESTAMP), tv_nsec: 0 }).try_into().unwrap()
    );
    assert_eq!(
        TimeStamp::from(YEAR_2000_TIMESTAMP * 65536 + 768),
        (Timespec {
            tv_sec: Time(YEAR_2000_TIMESTAMP),
            tv_nsec: u32::try_from((768 * 1_000_000_000_u64) / 65536_u64).unwrap()
        })
        .try_into()
        .unwrap()
    );

    assert_eq!(
        Timespec { tv_sec: Time(YEAR_2000_TIMESTAMP), tv_nsec: 0 },
        TimeStamp::from(YEAR_2000_TIMESTAMP * 65536).into()
    );
    assert_eq!(
        Timespec { tv_sec: Time(YEAR_2000_TIMESTAMP), tv_nsec: 123_456 - 1386 },
        TimeStamp::from(YEAR_2000_TIMESTAMP * 65536 + (123_456 * 65536) / 1_000_000_000).into()
    );
}

#[test]
fn now_conversion() {
    let timestamp_now = TimeStamp::now().unwrap();
    let timespec_now = Timespec::now().unwrap();
    assert!(
        timestamp_now <= TimeStamp::try_from(timespec_now).unwrap() + 1
            && TimeStamp::try_from(timespec_now).unwrap() <= timestamp_now + 1
    );
    assert!(
        (Timespec::now().unwrap() - Timespec { tv_sec: Time(0), tv_nsec: 15259 })
            <= Timespec::from(TimeStamp::now().unwrap())
            && Timespec::from(TimeStamp::now().unwrap()) <= Timespec::now().unwrap() + Time(1)
    );
}

#[test]
fn timestamp_roundtrip_through_timespec() {
    for v in [0_i64, 1, 65535, 65536, 123_456_789, 987_654_321] {
        let ts = TimeStamp::from(v);
        let back: TimeStamp = Timespec::from(ts).try_into().unwrap();
        assert!(back == ts || back == TimeStamp::from(v - 1));
    }
    let exact = TimeStamp::from(65536 * 7);
    let back: TimeStamp = Timespec::from(exact).try_into().unwrap();
    assert_eq!(back, exact);
}

#[test]
fn timestamp_arithmetic() {
    assert_eq!(TimeStamp::from(10) + 5, TimeStamp::from(15));
    assert_eq!(TimeStamp::from(10) - 15, TimeStamp::from(-5));
    assert_eq!(*TimeStamp::from(42), 42);
    assert_eq!(TimeStamp::from(42).value(), 42);
}

#[test]
fn timespec_roundtrip_through_timestamp() {
    for (sec, nsec) in [(0_i64, 0_u32), (0, 1), (0, 15_258), (0, 15_259), (1, 999_999_999), (1_700_000_000, 123_456_789)] {
        let ts = Timespec { tv_sec: Time(sec), tv_nsec: nsec };
        let back = Timespec::from(TimeStamp::try_from(ts).unwrap());
        let before = sec as i128 * 1_000_000_000 + nsec as i128;
        let after = back.tv_sec.0 as i128 * 1_000_000_000 + back.tv_nsec as i128;
        assert!(before - 15_259 <= after && after <= before);
    }
}
