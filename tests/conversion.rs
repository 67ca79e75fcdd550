use std::io::Write;

use krc_to_lrc::{
    check_krc_file, decode_krc, get_file_name, krc_times_in_range, krc_to_lrc, replace_krc_raw,
    replace_krc_time, replace_krc_to_lrc, str_to_time, DecodeError, MyError,
};

const KEY: [u8; 16] = [64, 71, 97, 119, 94, 50, 116, 71, 81, 54, 49, 45, 206, 210, 110, 105];

fn zlib(data: &[u8]) -> Vec<u8> {
    let mut e = flate2::write::ZlibEncoder::new(Vec::new(), flate2::Compression::default());
    e.write_all(data).unwrap();
    e.finish().unwrap()
}

fn encipher(payload: &[u8]) -> Vec<u8> {
    let mut out = b"krc1".to_vec();
    for (i, b) in payload.iter().enumerate() {
        out.push(b ^ KEY[i % 16]);
    }
    out
}

#[test]
fn test_str_to_time() {
    assert_eq!(str_to_time(61234), "[01:01.23]");
    assert_eq!(str_to_time(52590), "[00:52.59]");
}

#[test]
fn test_replace_krc_time() {
    assert_eq!(
        replace_krc_time("[61234,2000]这里是歌词内容", 500),
        "[00:00.00]\n[01:01.23]这里是歌词内容\n"
    );
}

#[test]
fn timestamp_boundaries() {
    assert_eq!(str_to_time(0), "[00:00.00]");
    assert_eq!(str_to_time(59999), "[00:59.99]");
    assert_eq!(str_to_time(60000), "[01:00.00]");
    assert_eq!(str_to_time(9), "[00:00.00]");
    assert_eq!(str_to_time(6_000_000), "[100:00.00]");
}

#[test]
fn strip_removes_word_timings() {
    assert_eq!(
        replace_krc_raw("[1000,500]<0,100,0>这<100,200,0>里\n[2000,10]<0,1,0>a"),
        "[1000,500]这里\n[2000,10]a"
    );
    assert_eq!(replace_krc_raw(""), "");
    assert_eq!(replace_krc_raw("<1,2>x<,1,2>y<1,2,3"), "<1,2>x<,1,2>y<1,2,3");
}

#[test]
fn strip_twice_equals_once_on_plain_lyrics() {
    let once = replace_krc_raw("[0,1]<0,1,0>a<1,1,0>b <c>");
    assert_eq!(once, "[0,1]ab <c>");
    assert_eq!(replace_krc_raw(&once), once);
}

#[test]
fn strip_can_expose_a_new_annotation() {
    let once = replace_krc_raw("<1,<2,3,4>2,3>");
    assert_eq!(once, "<1,2,3>");
    assert_eq!(replace_krc_raw(&once), "");
}

#[test]
fn strip_agrees_with_regex_on_ascii() {
    let re = regex::Regex::new(r"<\d+,\d+,\d+>").unwrap();
    let samples = [
        "<1,2,3>abc<44,5,66>",
        "<<1,2,3>>",
        "x<1,2,3,4>y",
        "<1,<2,3,4>2,3>",
        "<12,34,56><7,8,9>z",
        "no markers here",
    ];
    for s in samples.iter() {
        assert_eq!(replace_krc_raw(s), re.replace_all(s, "").to_string());
    }
}

#[test]
fn filler_only_when_gap_exceeds_threshold() {
    assert_eq!(replace_krc_time("[500,100]a", 500), "[00:00.50]a\n");
    assert_eq!(replace_krc_time("[501,100]a", 500), "[00:00.00]\n[00:00.50]a\n");
    assert_eq!(replace_krc_time("[1,1]a", 0), "[00:00.00]\n[00:00.00]a\n");
    assert_eq!(replace_krc_time("[0,1]a", 0), "[00:00.00]a\n");
    assert_eq!(
        replace_krc_time("[0,1000]a\n[1500,100]b\n[1601,10]c", 500),
        "[00:00.00]a\n[00:01.50]b\n[00:01.60]c\n"
    );
    assert_eq!(
        replace_krc_time("[0,1000]a\n[1501,100]b", 500),
        "[00:00.00]a\n[00:01.00]\n[00:01.50]b\n"
    );
}

#[test]
fn negative_threshold_always_fills() {
    assert_eq!(replace_krc_time("[0,0]a", -1), "[00:00.00]\n[00:00.00]a\n");
}

#[test]
fn unmarked_lines_pass_through() {
    assert_eq!(
        replace_krc_time("[ti:歌名]\nplain <1,2,3>\r\n[x,1]y\n a[1,2]", 500),
        "[ti:歌名]\nplain <1,2,3>\n[x,1]y\n a[1,2]\n"
    );
    assert_eq!(replace_krc_time("", 500), "");
    assert_eq!(replace_krc_time("\n\n", 500), "\n\n");
}

#[test]
fn marker_only_at_line_start() {
    assert_eq!(replace_krc_time("[2000,10]", 5000), "[00:02.00]\n");
    assert_eq!(replace_krc_time("x[2000,10]", 0), "x[2000,10]\n");
}

#[test]
fn times_in_range_check() {
    assert!(krc_times_in_range("[4294967295,4294967295]a\nb"));
    assert!(!krc_times_in_range("a\n[4294967296,1]b"));
    assert!(krc_times_in_range(""));
}

#[test]
fn large_times_format_without_overflow() {
    assert_eq!(
        replace_krc_time("[4294967295,4294967295]a\n[0,0]b", 0),
        "[00:00.00]\n[71582:47.29]a\n[00:00.00]b\n"
    );
}

#[test]
fn decode_short_buffer_is_malformed() {
    assert!(matches!(decode_krc(vec![]), Err(DecodeError::MalformedInput)));
    assert!(matches!(decode_krc(b"krc".to_vec()), Err(DecodeError::MalformedInput)));
}

#[test]
fn decode_bad_stream_is_decompression_error() {
    assert!(matches!(decode_krc(b"krc1".to_vec()), Err(DecodeError::DecompressionError(_))));
    assert!(matches!(
        decode_krc(encipher(b"not a zlib stream")),
        Err(DecodeError::DecompressionError(_))
    ));
    let mut truncated = zlib("[0,1]abc".as_bytes());
    truncated.truncate(truncated.len() - 3);
    assert!(matches!(decode_krc(encipher(&truncated)), Err(DecodeError::DecompressionError(_))));
}

#[test]
fn decode_invalid_utf8_is_encoding_error() {
    let bytes = encipher(&zlib(&[0xff, 0xfe, 0x41]));
    assert!(matches!(decode_krc(bytes), Err(DecodeError::EncodingError)));
}

#[test]
fn decode_round_trip() {
    let text = "[id:$00000000]\n[1000,500]<0,250,0>张<250,250,0>三\n";
    let bytes = encipher(&zlib(text.as_bytes()));
    assert_eq!(decode_krc(bytes.clone()).unwrap(), text);
    assert_eq!(decode_krc(bytes.clone()).unwrap(), decode_krc(bytes).unwrap());
}

#[test]
fn end_to_end_conversion() {
    let text = "[ar:歌手]\r\n[1000,500]<0,250,0>张<250,250,0>三\r\n[2100,400]<0,400,0>李\r\n";
    let bytes = encipher(&zlib(text.as_bytes()));
    assert_eq!(
        krc_to_lrc(bytes, 500).unwrap(),
        "[ar:歌手]\n[00:00.00]\n[00:01.00]张三\n[00:01.50]\n[00:02.10]李\n"
    );
    assert_eq!(
        replace_krc_to_lrc(text.to_string(), 500),
        "[ar:歌手]\n[00:00.00]\n[00:01.00]张三\n[00:01.50]\n[00:02.10]李\n"
    );
}

#[test]
fn end_to_end_errors() {
    assert!(matches!(krc_to_lrc(vec![1, 2], 500), Err(DecodeError::MalformedInput)));
    let bytes = encipher(&zlib("[9999999999,1]a".as_bytes()));
    assert!(matches!(krc_to_lrc(bytes, 500), Err(DecodeError::TimeOutOfRange)));
}

#[test]
fn krc_tag_check() {
    assert!(check_krc_file("a.krc", &b"krc18xyz".to_vec()).is_ok());
    match check_krc_file("b.krc", &b"kr".to_vec()) {
        Err(MyError::NotKrcFile(name)) => assert_eq!(name, "b.krc"),
        Ok(()) => panic!("accepted a file without the tag"),
    }
    assert!(check_krc_file("c.krc", &b"KRC1".to_vec()).is_err());
}

#[test]
fn file_name_drops_krc_extension() {
    assert_eq!(get_file_name("music/song.krc"), "music/song");
    assert_eq!(get_file_name("SONG.KrC"), "SONG");
    assert_eq!(get_file_name("notes.txt"), "notes.txt");
    assert_eq!(get_file_name("krc"), "krc");
    assert_eq!(get_file_name("歌.krc"), "歌");
}
