use radon_core::fs::types::{Time, Timespec};

#[test]
fn time_ops_add() {
    assert_eq!(Time(100) + Time(100), Time(200));
    assert_eq!(Time(100) + 100, Time(200));

    let mut time = Time(100);
    time += Time(100);
    assert_eq!(time, Time(200));

    let mut time = Time(100);
    time += 100;
    assert_eq!(time, Time(200));
}

#[test]
fn time_ops_sub() {
    assert_eq!(Time(200) - Time(100), Time(100));
    assert_eq!(Time(200) - 100, Time(100));

    let mut time = Time(100);
    time -= Time(200);
    assert_eq!(time, Time(-100));

    let mut time = Time(100);
    time -= 200;
    assert_eq!(time, Time(-100));
}

#[test]
fn timespec_ops_add() {
    assert_eq!(
        Timespec { tv_sec: Time(100), tv_nsec: 12 } + Timespec { tv_sec: Time(200), tv_nsec: 40 },
        Timespec { tv_sec: Time(300), tv_nsec: 52 }
    );
    assert_eq!(
        Timespec { tv_sec: Time(100), tv_nsec: 123 } + Timespec { tv_sec: Time(200), tv_nsec: 999_999_998 },
        Timespec { tv_sec: Time(301), tv_nsec: 121 }
    );
    assert_eq!(
        Timespec { tv_sec: Time(100), tv_nsec: 12 } + Time(200),
        Timespec { tv_sec: Time(300), tv_nsec: 12 }
    );
}

#[test]
fn timespec_ops_sub() {
    assert_eq!(
        Timespec { tv_sec: Time(100), tv_nsec: 12 } - Timespec { tv_sec: Time(200), tv_nsec: 10 },
        Timespec { tv_sec: Time(-100), tv_nsec: 2 }
    );
    assert_eq!(
        Timespec { tv_sec: Time(200), tv_nsec: 123 } - Timespec { tv_sec: Time(100), tv_nsec: 125 },
        Timespec { tv_sec: Time(99), tv_nsec: 999_999_998 }
    );
    assert_eq!(
        Timespec { tv_sec: Time(100), tv_nsec: 12 } - Time(200),
        Timespec { tv_sec: Time(-100), tv_nsec: 12 }
    );
}

#[test]
fn timespec_add_then_sub() {
    let a = Timespec { tv_sec: Time(5), tv_nsec: 700_000_000 };
    let b = Timespec { tv_sec: Time(2), tv_nsec: 600_000_000 };
    assert_eq!((a + b) - b, a);
    assert_eq!(Timespec { tv_sec: Time(1), tv_nsec: 1_500_000_000 }.canonical(), Timespec { tv_sec: Time(2), tv_nsec: 500_000_000 });
    assert_eq!(Timespec::from_duration(3, 4), Some(Timespec { tv_sec: Time(3), tv_nsec: 4 }));
}
