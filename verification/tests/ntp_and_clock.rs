use sysdemo::clock::{
    clock_adjustment_ms, system_time, timeval, CalendarTime, OutputStandard, SystemTime, TimeVal,
    Weekday,
};
use sysdemo::ntp::{ntp_seconds, NTPMessage, NTPResult, NTPTimestamp, UtcTime, NTP_TO_UNIX_SECONDS};

fn at(secs: i64, nanos: u32) -> UtcTime {
    UtcTime { secs, nanos }
}

#[test]
fn client_message_is_version_3_mode_3() {
    let msg = NTPMessage::client();
    assert_eq!(msg.data[0], 0x1b);
    assert!(msg.data[1..].iter().all(|b| *b == 0));
    assert!(NTPMessage::new().data.iter().all(|b| *b == 0));
}

#[test]
fn timestamps_are_read_big_endian() {
    let mut msg = NTPMessage::new();
    msg.data[32..40].copy_from_slice(&[0xe8, 0x00, 0x00, 0x01, 0x80, 0x00, 0x00, 0x00]);
    msg.data[40..48].copy_from_slice(&[0x00, 0x00, 0x01, 0x02, 0xff, 0xff, 0xff, 0xff]);
    let rx = msg.rx_time().unwrap();
    assert_eq!((rx.seconds, rx.fraction), (0xe800_0001, 0x8000_0000));
    let tx = msg.tx_time().unwrap();
    assert_eq!((tx.seconds, tx.fraction), (0x0102, 0xffff_ffff));
    let at8 = msg.parse_timestamp(8).unwrap();
    assert_eq!((at8.seconds, at8.fraction), (0, 0));
}

#[test]
fn ntp_and_unix_seconds_convert_both_ways() {
    let t = NTPTimestamp { seconds: 3_913_056_000, fraction: 0 };
    assert_eq!(t.unix_seconds(), 3_913_056_000 - NTP_TO_UNIX_SECONDS);
    assert_eq!(ntp_seconds(t.unix_seconds()), t.seconds);
    assert_eq!(ntp_seconds(0), 2_208_988_800);
    assert_eq!(ntp_seconds(-NTP_TO_UNIX_SECONDS - 1), u32::MAX);
    for s in [0u32, 1, 2_208_988_800, u32::MAX] {
        let ts = NTPTimestamp { seconds: s, fraction: 7 };
        assert_eq!(ntp_seconds(ts.unix_seconds()), s);
    }
}

#[test]
fn offset_and_delay_of_an_exchange() {
    let r = NTPResult {
        t1: at(1_000, 0),
        t2: at(1_001, 500_000_000),
        t3: at(1_001, 600_000_000),
        t4: at(1_000, 200_000_000),
    };
    assert_eq!(r.offset(), 50);
    assert_eq!(r.delay(), 100);
}

#[test]
fn offset_rounds_toward_zero() {
    // (t2 - t1) + (t4 - t3) = -3.9 ms: -3 whole ms, halved to -1.
    let r = NTPResult {
        t1: at(10, 0),
        t2: at(9, 996_100_000),
        t3: at(10, 0),
        t4: at(10, 0),
    };
    assert_eq!(r.offset(), -1);
    assert_eq!(r.delay(), -3);
    let r = NTPResult {
        t1: at(-5, 999_999_999),
        t2: at(-5, 999_999_999),
        t3: at(-4, 0),
        t4: at(-4, 0),
    };
    assert_eq!(r.offset(), 0);
    assert_eq!(r.delay(), 0);
}

#[test]
fn output_standard_names() {
    assert_eq!(OutputStandard::Timestamp.to_string(), "Timestamp");
    assert_eq!(OutputStandard::Rfc2822.to_string(), "Rfc2822");
    assert_eq!(OutputStandard::Rfc3339.to_string(), "Rfc3339");
}

#[test]
fn system_time_fields() {
    let t = CalendarTime {
        year: 2024,
        month: 2,
        day: 29,
        weekday: Weekday::Sun,
        hour: 23,
        minute: 59,
        second: 59,
        nanosecond: 987_654_321,
    };
    assert_eq!(
        system_time(t),
        SystemTime {
            year: 2024,
            month: 2,
            day_of_week: 0,
            day: 29,
            hour: 23,
            minute: 59,
            second: 59,
            milliseconds: 987,
        }
    );
}

#[test]
fn system_time_leap_second_and_weekdays() {
    let mut t = CalendarTime {
        year: 2016,
        month: 12,
        day: 31,
        weekday: Weekday::Sat,
        hour: 23,
        minute: 59,
        second: 59,
        nanosecond: 1_500_000_000,
    };
    let st = system_time(t);
    assert_eq!(st.milliseconds, 500);
    assert_eq!(st.day_of_week, 6);
    t.nanosecond = 1_000_000_000;
    assert_eq!(system_time(t).milliseconds, 1000);
    t.weekday = Weekday::Mon;
    assert_eq!(system_time(t).day_of_week, 1);
}

#[test]
fn timeval_fields() {
    assert_eq!(timeval(1_700_000_000, 250_000), TimeVal { tv_sec: 1_700_000_000, tv_usec: 250_000 });
}

#[test]
fn adjustment_is_a_capped_fifth() {
    assert_eq!(clock_adjustment_ms(100), 20);
    assert_eq!(clock_adjustment_ms(-100), -20);
    assert_eq!(clock_adjustment_ms(3), 0);
    assert_eq!(clock_adjustment_ms(-7), -1);
    assert_eq!(clock_adjustment_ms(0), 0);
    assert_eq!(clock_adjustment_ms(1_000), 40);
    assert_eq!(clock_adjustment_ms(-1_000_000), -40);
    assert_eq!(clock_adjustment_ms(isize::MAX), 40);
}

#[test]
fn adjustment_agrees_with_signum_formula() {
    for offset in -1000isize..=1000 {
        let expected = offset.signum() * offset.abs().min(200) / 5;
        assert_eq!(clock_adjustment_ms(offset), expected as i64);
    }
}

fn chrono_time(t: UtcTime) -> chrono::DateTime<chrono::Utc> {
    chrono::DateTime::from_timestamp(t.secs, t.nanos).unwrap()
}

#[test]
fn offset_and_delay_agree_with_chrono() {
    let times = [
        at(0, 0),
        at(1, 1),
        at(-3, 999_999_999),
        at(1_700_000_000, 123_456_789),
        at(1_700_000_000, 987_654_321),
        at(-62_000_000_000, 5),
    ];
    for &t1 in &times {
        for &t2 in &times {
            for &t3 in &times {
                for &t4 in &times {
                    let r = NTPResult { t1, t2, t3, t4 };
                    let (c1, c2, c3, c4) = (chrono_time(t1), chrono_time(t2), chrono_time(t3), chrono_time(t4));
                    let offset = ((c2 - c1) + (c4 - c3)).num_milliseconds() / 2;
                    let delay = ((c4 - c1) - (c3 - c2)).num_milliseconds();
                    assert_eq!(r.offset(), offset);
                    assert_eq!(r.delay(), delay);
                }
            }
        }
    }
}
