use ws6in1_proto::calendar::wall_clock_timestamp;
use ws6in1_proto::parser::assembler::parse_message;
use ws6in1_proto::parser::{
    ReportOutcome, TokenIterator, Ws6in1Assembler, Ws6in1AssemblerHeapless, Ws6in1Data, Ws6in1ExtData,
};
use ws6in1_proto::protocol::{
    Ws6in1DataFrame, Ws6in1DataFrameHeapless, Ws6in1DataHeader, Ws6in1Payload,
    Ws6in1PayloadHeapless,
};
use ws6in1_proto::Error;

const TELEGRAM1: &str = "3 2020-01-17 17:30 20.4 49 6.0 60 0.0 0.0 0.0 0.0 129 \
            SE 1017 954 0 -1.2 --.- 27.3 57 33.4 40 --.- -- --.- -- --.- \
            -- --.- -- --.- --";

fn f(s: &str) -> f32 {
    s.parse::<f32>().unwrap()
}

fn ext(d: &Option<Ws6in1ExtData>) -> Option<(f32, u8)> {
    d.as_ref().map(|e| (f(&e.temperature), e.humidity))
}

fn check_telegram1(parsed: &Ws6in1Data) {
    assert_eq!(parsed.local_timestamp, 1579282200);
    assert_eq!(f(&parsed.indoor.temperature), 20.4);
    assert_eq!(parsed.indoor.humidity, 49);
    assert_eq!(parsed.indoor.baro_sea, 1017);
    assert_eq!(parsed.indoor.baro_absolute, 954);
    let o = parsed.outdoor.as_ref().unwrap();
    assert_eq!(f(&o.temperature), 6.0);
    assert_eq!(o.humidity, 60);
    assert_eq!(f(&o.rain_day), 0.0);
    assert_eq!(f(&o.rain_actual), 0.0);
    assert_eq!(f(&o.wind_actual), 0.0);
    assert_eq!(f(&o.wind_gust), 0.0);
    assert_eq!(o.wind_dir, 129);
    assert_eq!(f(&o.uv_index), 0.0);
    assert_eq!(f(&o.dew_point), -1.2);
    let expected_ext = [Some((27.3, 57)), Some((33.4, 40)), None, None, None, None, None];
    for i in 0..7 {
        assert_eq!(ext(&parsed.ext[i]), expected_ext[i]);
    }
}

#[test]
fn test_parse_data1() {
    match Ws6in1Data::parse(TELEGRAM1) {
        Ok(parsed) => check_telegram1(&parsed),
        Err(e) => panic!("Parsing Ws6in1Data failed: {e:?}"),
    }
}

#[test]
fn test_parse_data2() {
    let str = "100 2025-01-20 00:19 19.5 38 --.- -- 0.0 0.0 --.- --.- \
            --- --- 1014 954 -- --.- --.- 18.6 52 2.3 82 20.9 35 19.1 38 \
            22.3 41 --.- -- --.- --";
    match Ws6in1Data::parse(str) {
        Ok(parsed) => {
            assert_eq!(parsed.local_timestamp, 1737332340);
            assert_eq!(f(&parsed.indoor.temperature), 19.5);
            assert_eq!(parsed.indoor.humidity, 38);
            assert_eq!(parsed.indoor.baro_sea, 1014);
            assert_eq!(parsed.indoor.baro_absolute, 954);
            assert!(parsed.outdoor.is_none());
            let expected_ext = [
                Some((18.6, 52)),
                Some((2.3, 82)),
                Some((20.9, 35)),
                Some((19.1, 38)),
                Some((22.3, 41)),
                None,
                None,
            ];
            for i in 0..7 {
                assert_eq!(ext(&parsed.ext[i]), expected_ext[i]);
            }
        }
        Err(e) => panic!("Parsing Ws6in1Data failed: {e:?}"),
    }
}

fn frame(cnt: u8, idx: u8, text: &[u8]) -> Ws6in1DataFrameHeapless {
    Ws6in1DataFrameHeapless {
        hdr: Ws6in1DataHeader { frag_cnt: cnt, frag_idx: idx, ..Default::default() },
        payload: Ws6in1PayloadHeapless { data: heapless::Vec::from_slice(text).unwrap() },
    }
}

#[test]
fn test_good_data_assembly() {
    let mut assembler = Ws6in1AssemblerHeapless::default();
    let frame1 = frame(3, 1, b"3 2020-01-17 17:30 20.4 49 6.0 60 0.0 0.0 0.0 0.0 129 ");
    let frame2 = frame(3, 2, b"SE 1017 954 0 -1.2 --.- 27.3 57 33.4 40 --.- -- --.- -");
    let frame3 = frame(3, 3, b"- --.- -- --.- -- --.- --");

    assert!(assembler.parse(frame1).unwrap().is_none());
    assert!(assembler.parse(frame2).unwrap().is_none());
    let received = assembler.parse(frame3).unwrap().unwrap();

    check_telegram1(&received);
    assert_eq!(assembler.frag_idx(), 0);
    assert!(assembler.buffered().is_empty());
}

#[test]
fn test_bad_data_assembly() {
    let mut assembler = Ws6in1AssemblerHeapless::default();
    let frame1 = frame(3, 1, b"foo ");
    let frame2 = frame(3, 1, b"bar");

    assert!(assembler.parse(frame1).unwrap().is_none());
    assert_eq!(assembler.frag_idx(), 1);

    assembler.parse(frame2).expect_err("Invalid packet sequence did not trigger restart");
}

// Further cases.

#[test]
fn discard_reports_previous_index_and_recovers() {
    let mut assembler = Ws6in1Assembler::default();
    let first = Ws6in1DataFrame {
        hdr: Ws6in1DataHeader { frag_cnt: 3, frag_idx: 1, ..Default::default() },
        payload: Ws6in1Payload { data: b"foo ".to_vec() },
    };
    assert_eq!(assembler.parse(first.clone()), Ok(None));
    assert_eq!(assembler.parse(first.clone()), Err(Error::FragmentDiscarded { idx: 1 }));
    assert_eq!(assembler.frag_idx(), 0);
    assert!(assembler.buffered().is_empty());
    assert_eq!(assembler.parse(first), Ok(None));
    assert_eq!(assembler.frag_idx(), 1);
    assert_eq!(assembler.buffered(), b"foo ");
}

#[test]
fn out_of_order_fragment_is_discarded() {
    let mut assembler = Ws6in1AssemblerHeapless::default();
    assert_eq!(assembler.parse(frame(3, 2, b"x")), Err(Error::FragmentDiscarded { idx: 0 }));
    assert_eq!(assembler.parse(frame(3, 0, b"x")), Err(Error::FragmentDiscarded { idx: 0 }));
}

#[test]
fn assembled_message_must_be_utf8() {
    let mut assembler = Ws6in1AssemblerHeapless::default();
    assert_eq!(
        assembler.parse(frame(1, 1, b"ab\xffcd")),
        Err(Error::InvalidCharacter { idx: 2 })
    );
    assert_eq!(assembler.frag_idx(), 0);
    assert!(assembler.buffered().is_empty());
}

#[test]
fn failed_interpretation_resets_state() {
    let mut assembler = Ws6in1AssemblerHeapless::default();
    assert_eq!(assembler.parse(frame(1, 1, b"3 2020-01-17")), Err(Error::UnexpectedEnd { tpos: 2 }));
    assert_eq!(assembler.frag_idx(), 0);
    assert!(assembler.buffered().is_empty());
}

#[test]
fn bounded_assembler_refuses_long_message() {
    let mut assembler = Ws6in1AssemblerHeapless::default();
    let chunk = [b'a'; 54];
    for i in 1..=4u8 {
        assert_eq!(assembler.parse(frame(15, i, &chunk)), Ok(None));
    }
    assert_eq!(assembler.parse(frame(15, 5, &chunk)), Err(Error::MessageTooLarge { len: 270 }));
    assert_eq!(assembler.frag_idx(), 4);
    assert_eq!(assembler.buffered().len(), 216);
}

#[test]
fn feed_report_assembles_frames() {
    let mut assembler = Ws6in1Assembler::default();
    let text = TELEGRAM1.as_bytes();
    let parts: Vec<&[u8]> = text.chunks(54).collect();
    let n = parts.len() as u8;
    let mut result = None;
    for (i, part) in parts.iter().enumerate() {
        let msg = ws6in1_proto::protocol::AnyWs6in1Message::DataFrame(Ws6in1DataFrame {
            hdr: Ws6in1DataHeader { frag_cnt: n, frag_idx: i as u8 + 1, ..Default::default() },
            payload: Ws6in1Payload { data: part.to_vec() },
        });
        let report = msg.to_report().unwrap();
        let r = assembler.feed_report(&report[1..]).unwrap();
        if (i as u8) + 1 < n {
            assert_eq!(r, ReportOutcome::Pending);
        }
        result = Some(r);
    }
    match result.unwrap() {
        ReportOutcome::Complete(d) => check_telegram1(&d),
        other => panic!("no record: {other:?}"),
    }
    let command = [0xFC, 0x09, 0x11, 0x0A, 0x14, 0x00, 0x00, 0xFD];
    assert_eq!(assembler.feed_report(&command), Ok(ReportOutcome::NotData));
    assert_eq!(assembler.feed_report(&[0x01]), Err(Error::UnsupportedType { frame_type: 0x01 }));
}

#[test]
fn sentinels_are_absent_values() {
    let s = "3 2020-01-17 17:30 20.4 49 --.- -- --.- --.- --.- --.- -- -- 1017 954 --.- --.- \
             x --.- -- --.- -- --.- -- --.- -- --.- -- --.- -- --.- --";
    let d = Ws6in1Data::parse(s).unwrap();
    assert!(d.outdoor.is_none());
    assert!(d.ext.iter().all(|e| e.is_none()));
}

#[test]
fn one_outdoor_sentinel_drops_outdoor_record() {
    let s = TELEGRAM1.replacen("129", "--", 1);
    let d = Ws6in1Data::parse(&s).unwrap();
    assert!(d.outdoor.is_none());
    assert_eq!(ext(&d.ext[0]), Some((27.3, 57)));
}

#[test]
fn garbage_after_telegram() {
    let s = format!("{TELEGRAM1} xyz");
    assert_eq!(Ws6in1Data::parse(&s), Err(Error::GarbageEnd { char: b'x' }));
    let s = format!("{TELEGRAM1} \u{e9}t\u{e9}");
    assert_eq!(Ws6in1Data::parse(&s), Err(Error::GarbageEnd { char: 0xC3 }));
}

#[test]
fn mandatory_tokens_are_checked() {
    let bad_temp = TELEGRAM1.replacen("20.4", "--.-", 1);
    assert_eq!(Ws6in1Data::parse(&bad_temp), Err(Error::InvalidToken { tpos: 4 }));
    let bad_baro = TELEGRAM1.replacen("1017", "--", 1);
    assert_eq!(Ws6in1Data::parse(&bad_baro), Err(Error::InvalidToken { tpos: 14 }));
    let bad_date = TELEGRAM1.replacen("2020-01-17", "2019-02-29", 1);
    assert_eq!(Ws6in1Data::parse(&bad_date), Err(Error::InvalidToken { tpos: 2 }));
    let bad_time = TELEGRAM1.replacen("17:30", "24:00", 1);
    assert_eq!(Ws6in1Data::parse(&bad_time), Err(Error::InvalidToken { tpos: 3 }));
    assert_eq!(Ws6in1Data::parse("3 2020-01-17 17:30 20.4"), Err(Error::UnexpectedEnd { tpos: 4 }));
    assert_eq!(Ws6in1Data::parse(""), Err(Error::UnexpectedEnd { tpos: 0 }));
}

#[test]
fn leap_day_and_float_forms() {
    let s = TELEGRAM1.replacen("2020-01-17 17:30", "2020-02-29 00:00", 1).replacen("20.4", "+1E1", 1);
    let d = Ws6in1Data::parse(&s).unwrap();
    assert_eq!(d.local_timestamp, 1582934400);
    assert_eq!(f(&d.indoor.temperature), 10.0);
}

#[test]
fn token_iterator_counts_tokens() {
    let mut it = TokenIterator::new("  a\tbc \u{3000} d ");
    assert_eq!(it.next(), Ok("a"));
    assert_eq!(it.next(), Ok("bc"));
    assert_eq!(it.pos(), 2);
    assert_eq!(it.end(), Err(Error::GarbageEnd { char: b'd' }));
    assert_eq!(it.pos(), 2);
    assert_eq!(it.next(), Err(Error::UnexpectedEnd { tpos: 2 }));
    assert_eq!(it.end(), Ok(()));
}

fn days_from_civil(year: i64, month: i64, day: i64) -> i64 {
    let y = if month <= 2 { year - 1 } else { year };
    let m = if month > 2 { month - 3 } else { month + 9 };
    365 * y + y.div_euclid(4) - y.div_euclid(100) + y.div_euclid(400) + (153 * m + 2) / 5 + day
        - 1
        - 719468
}

#[test]
fn calendar_matches_days_from_civil() {
    assert_eq!(wall_clock_timestamp(1970, 1, 1, 0, 0), Some(0));
    assert_eq!(wall_clock_timestamp(2020, 1, 17, 17, 30), Some(1579282200));
    for year in (-9999..=9999).step_by(7) {
        for month in 1..=12u8 {
            for day in [1u8, 28, 29, 30, 31] {
                if let Some(t) = wall_clock_timestamp(year, month, day, 0, 0) {
                    assert_eq!(t, days_from_civil(year as i64, month as i64, day as i64) * 86400);
                }
            }
        }
    }
    assert_eq!(wall_clock_timestamp(2019, 2, 29, 0, 0), None);
    assert_eq!(wall_clock_timestamp(2000, 2, 29, 0, 0).is_some(), true);
    assert_eq!(wall_clock_timestamp(1900, 2, 29, 0, 0), None);
    assert_eq!(wall_clock_timestamp(10000, 1, 1, 0, 0), None);
    assert_eq!(wall_clock_timestamp(2020, 13, 1, 0, 0), None);
}

#[test]
fn ascii_message_decodes() {
    assert_eq!(parse_message(TELEGRAM1.as_bytes()).map(|d| d.local_timestamp), Ok(1579282200));
    assert_eq!(parse_message(b"1 2"), Err(Error::InvalidToken { tpos: 2 }));
}
