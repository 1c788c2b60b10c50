use sntp_client::address::is_valid_ip;
use sntp_client::calendar::{civil_time_of, format_date_in_portuguese, CivilTime};
use sntp_client::decode::{
    format_unix_seconds, parse_ntp_response, report_line, unix_seconds_of, DecodeError,
    NTP_TO_UNIX_SECONDS,
};
use sntp_client::packet::{build_request, read_be32_at, NtpPacket, CLIENT_FLAGS, PACKET_SIZE};

fn reply_with_seconds(s: u32) -> Vec<u8> {
    let mut buf = vec![0u8; 48];
    buf[40..44].copy_from_slice(&s.to_be_bytes());
    buf
}

#[test]
fn request_is_48_bytes_with_flags_first() {
    let r = build_request();
    assert_eq!(r.len(), PACKET_SIZE);
    assert_eq!(r[0], 0x1B);
    assert_eq!(CLIENT_FLAGS, 0x1B);
    assert!(r[1..40].iter().all(|&b| b == 0));
    assert!(r[40..48].iter().all(|&b| b == 0));
}

#[test]
fn new_packet_has_only_flags_set() {
    let p = NtpPacket::new();
    assert_eq!(p.li_vn_mode, 0x1B);
    assert_eq!(p.tx_tm_s, 0);
    assert_eq!(p.to_bytes(), build_request());
}

#[test]
fn encoding_is_big_endian_and_round_trips() {
    let mut p = NtpPacket::new();
    p.root_delay = 0x0102_0304;
    p.tx_tm_s = 0xE978_A080;
    p.tx_tm_f = 0xDEAD_BEEF;
    let b = p.to_bytes();
    assert_eq!(&b[4..8], &[1, 2, 3, 4]);
    assert_eq!(&b[40..44], &[0xE9, 0x78, 0xA0, 0x80]);
    assert_eq!(&b[44..48], &[0xDE, 0xAD, 0xBE, 0xEF]);
    assert_eq!(NtpPacket::from_bytes(&b), Some(p));
}

#[test]
fn from_bytes_rejects_short_and_ignores_trailing_bytes() {
    assert_eq!(NtpPacket::from_bytes(&[0u8; 47]), None);
    let mut long = reply_with_seconds(7);
    long.extend_from_slice(&[9, 9, 9]);
    assert_eq!(NtpPacket::from_bytes(&long).unwrap().tx_tm_s, 7);
}

#[test]
fn read_be32_reads_most_significant_first() {
    assert_eq!(read_be32_at(&[0, 0xE9, 0x3C, 0x7F, 0x00], 1), 3_913_056_000);
    assert_eq!(read_be32_at(&[0x12, 0x34, 0x56, 0x78], 0), 0x1234_5678);
}

#[test]
fn new_year_2024_scenario() {
    let buf = reply_with_seconds(3_913_056_000);
    assert_eq!(&buf[40..44], &[0xE9, 0x3C, 0x7F, 0x00]);
    assert_eq!(unix_seconds_of(&buf), Ok(1_704_067_200));
    assert_eq!(parse_ntp_response(&buf), Ok("Seg Jan 01 00:00:00 2024".to_string()));
    assert_eq!(report_line(Some(&buf)), "Data/hora: Seg Jan 01 00:00:00 2024");
}

#[test]
fn epoch_shift_at_and_around_the_boundary() {
    assert_eq!(NTP_TO_UNIX_SECONDS, 2_208_988_800);
    assert_eq!(unix_seconds_of(&reply_with_seconds(2_208_988_800)), Ok(0));
    assert_eq!(unix_seconds_of(&reply_with_seconds(2_208_988_801)), Ok(1));
    assert_eq!(unix_seconds_of(&reply_with_seconds(u32::MAX)), Ok(u32::MAX - 2_208_988_800));
    assert_eq!(
        unix_seconds_of(&reply_with_seconds(2_208_988_799)),
        Err(DecodeError::EpochUnderflow)
    );
    assert_eq!(unix_seconds_of(&reply_with_seconds(0)), Err(DecodeError::EpochUnderflow));
    assert_eq!(
        parse_ntp_response(&reply_with_seconds(2_208_988_800)),
        Ok("Qui Jan 01 00:00:00 1970".to_string())
    );
}

#[test]
fn largest_transmit_seconds_renders() {
    assert_eq!(
        parse_ntp_response(&reply_with_seconds(u32::MAX)),
        Ok("Qui Fev 07 06:28:15 2036".to_string())
    );
}

#[test]
fn fraction_field_is_discarded() {
    let mut buf = reply_with_seconds(3_913_056_000);
    buf[44..48].copy_from_slice(&[0xFF, 0xFF, 0xFF, 0xFF]);
    assert_eq!(parse_ntp_response(&buf), Ok("Seg Jan 01 00:00:00 2024".to_string()));
}

#[test]
fn short_reply_is_malformed_and_reported_as_no_contact() {
    for n in [0usize, 1, 40, 47] {
        let buf = vec![0xFFu8; n];
        assert_eq!(parse_ntp_response(&buf), Err(DecodeError::MalformedResponse));
        assert_eq!(report_line(Some(&buf)), "Data/hora: não foi possível contactar servidor");
    }
    assert_eq!(report_line(None), "Data/hora: não foi possível contactar servidor");
}

#[test]
fn pre_1970_reply_is_reported_as_uninterpretable() {
    let buf = reply_with_seconds(1);
    assert_eq!(parse_ntp_response(&buf), Err(DecodeError::EpochUnderflow));
    assert_eq!(report_line(Some(&buf)), "Data/hora: erro ao interpretar a resposta");
}

#[test]
fn oversized_reply_uses_first_48_bytes() {
    let mut buf = reply_with_seconds(3_913_056_000);
    buf.extend_from_slice(&[1, 2, 3, 4, 5]);
    assert_eq!(parse_ntp_response(&buf), Ok("Seg Jan 01 00:00:00 2024".to_string()));
}

#[test]
fn civil_time_fields_of_a_known_instant() {
    // 2000-02-29 13:05:09 UTC, a Tuesday
    let t = civil_time_of(951_829_509);
    assert_eq!(
        t,
        CivilTime { year: 2000, month: 2, day: 29, hour: 13, minute: 5, second: 9, weekday: 2 }
    );
    assert_eq!(format_date_in_portuguese(&t), "Ter Fev 29 13:05:09 2000");
}

#[test]
fn every_weekday_and_month_name() {
    let days = ["Dom", "Seg", "Ter", "Qua", "Qui", "Sex", "Sáb"];
    let months = ["Jan", "Fev", "Mar", "Abr", "Mai", "Jun", "Jul", "Ago", "Set", "Out", "Nov", "Dez"];
    for (w, d) in days.iter().enumerate() {
        for (m, mo) in months.iter().enumerate() {
            let t = CivilTime {
                year: 1999,
                month: m as u32 + 1,
                day: 3,
                hour: 4,
                minute: 10,
                second: 59,
                weekday: w as u32,
            };
            assert_eq!(format_date_in_portuguese(&t), format!("{} {} 03 04:10:59 1999", d, mo));
        }
    }
}

#[test]
fn negative_and_short_years_are_written_plainly() {
    let t = CivilTime { year: -44, month: 3, day: 15, hour: 0, minute: 0, second: 0, weekday: 6 };
    assert_eq!(format_date_in_portuguese(&t), "Sáb Mar 15 00:00:00 -44");
}

#[test]
fn formatting_is_repeatable() {
    let a = format_unix_seconds(1_704_067_200);
    let b = format_unix_seconds(1_704_067_200);
    assert_eq!(a, b);
    assert_eq!(a, "Seg Jan 01 00:00:00 2024");
    assert_eq!(format_unix_seconds(86_399), "Qui Jan 01 23:59:59 1970");
    assert_eq!(format_unix_seconds(86_400), "Sex Jan 02 00:00:00 1970");
}

#[test]
fn dotted_decimal_addresses() {
    assert!(is_valid_ip("0.0.0.0"));
    assert!(is_valid_ip("255.255.255.255"));
    assert!(is_valid_ip("192.168.1.1"));
    assert!(is_valid_ip("249.200.199.99"));
    assert!(is_valid_ip("001.02.3.010"));
    assert!(!is_valid_ip("256.1.1.1"));
    assert!(!is_valid_ip("1.1.1.300"));
    assert!(!is_valid_ip("1.1.1"));
    assert!(!is_valid_ip("1.1.1.1.1"));
    assert!(!is_valid_ip("1..1.1"));
    assert!(!is_valid_ip("1.1.1.1."));
    assert!(!is_valid_ip("1,1,1,1"));
    assert!(!is_valid_ip("1.1.1.0001"));
    assert!(!is_valid_ip(" 1.1.1.1"));
    assert!(!is_valid_ip(""));
}

#[test]
fn out_of_range_and_host_names_are_refused() {
    assert!(!is_valid_ip("999.1.1.1"));
    assert!(!is_valid_ip("pool.ntp.org"));
    assert!(!is_valid_ip("localhost"));
}

#[test]
fn full_colon_hex_addresses() {
    assert!(is_valid_ip("2001:0db8:85a3:0000:0000:8a2e:0370:7334"));
    assert!(is_valid_ip("2001:db8:0:0:0:0:0:1"));
    assert!(is_valid_ip("FFFF:ffff:AbCd:0:1:2:3:4"));
    assert!(!is_valid_ip("2001:db8::1"));
    assert!(!is_valid_ip("::1"));
    assert!(!is_valid_ip("::"));
    assert!(!is_valid_ip("2001:db8:0:0:0:0:0:1:2"));
    assert!(!is_valid_ip("2001:db8:0:0:0:0:1"));
    assert!(!is_valid_ip("12345:db8:0:0:0:0:0:1"));
    assert!(!is_valid_ip("g001:db8:0:0:0:0:0:1"));
    assert!(!is_valid_ip("::ffff:192.168.1.1"));
    assert!(!is_valid_ip("fe80:0:0:0:0:0:0:1%eth0"));
    assert!(!is_valid_ip("[2001:db8:0:0:0:0:0:1]"));
}

#[test]
fn agrees_with_the_address_patterns() {
    let v4 = regex::Regex::new(
        r"^((25[0-5]|2[0-4][0-9]|[01]?[0-9][0-9]?)\.){3}(25[0-5]|2[0-4][0-9]|[01]?[0-9][0-9]?)$",
    )
    .unwrap();
    let v6 = regex::Regex::new(r"^([0-9a-fA-F]{1,4}:){7}[0-9a-fA-F]{1,4}$").unwrap();
    let mut cases: Vec<String> = Vec::new();
    for a in ["0", "00", "000", "09", "099", "199", "200", "249", "250", "255", "256", "260", "300", "1000", "", "x"] {
        cases.push(format!("{a}.1.2.3"));
        cases.push(format!("1.2.3.{a}"));
        cases.push(format!("{a}:0:0:0:0:0:0:{a}"));
    }
    for s in ["1.2.3.4\n", "1:2:3:4:5:6:7:8", "abcd:ef01:2345:6789:ABCD:EF01:2345:6789", "1:2:3:4:5:6:7:", "1.2.3.4:5"] {
        cases.push(s.to_string());
    }
    for c in &cases {
        assert_eq!(is_valid_ip(c), v4.is_match(c) || v6.is_match(c), "{c:?}");
    }
}
