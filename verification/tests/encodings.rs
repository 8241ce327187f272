use renderer::encoding::{
    bom_prefix, charset_from_content_type, decode_html, encode_form, encoding_name, meta_prescan,
    prescan_charset, sniff_encoding, try_decode_html, DecodeStep, MetaPrescan, ResponseDecoder,
};

fn sniffed(bytes: &[u8], content_type: Option<&str>, eof: bool) -> Option<(String, usize)> {
    sniff_encoding(bytes, content_type, eof).map(|(c, n)| (c.name().to_string(), n))
}

#[test]
fn labels_name_encodings() {
    assert_eq!(encoding_name(" utf8 ".into()), Some("UTF-8".to_string()));
    assert_eq!(encoding_name("latin1".into()), Some("windows-1252".to_string()));
    assert_eq!(encoding_name("bogus".into()), None);
}

#[test]
fn content_type_charsets() {
    let c = charset_from_content_type("text/html; charset=\"Shift_JIS\"").expect("charset");
    assert_eq!(c.name(), "Shift_JIS");
    assert!(charset_from_content_type("text/html").is_none());
    assert!(charset_from_content_type("charset=utf-8").is_none());
    let later = charset_from_content_type("text/html; foo=bar; CHARSET = utf-8").expect("charset");
    assert_eq!(later.name(), "UTF-8");
    assert!(charset_from_content_type("text/html; charset=nope").is_none());
}

#[test]
fn bom_prefixes() {
    assert!(bom_prefix(b""));
    assert!(bom_prefix(b"\xEF"));
    assert!(bom_prefix(b"\xEF\xBB"));
    assert!(bom_prefix(b"\xFE"));
    assert!(!bom_prefix(b"\xEF\xBB\xBF"));
    assert!(!bom_prefix(b"a"));
}

#[test]
fn meta_prescan_outcomes() {
    match meta_prescan(b"<html><META charset='ISO-8859-2'>") {
        MetaPrescan::Found(c) => assert_eq!(c.name(), "ISO-8859-2"),
        _ => panic!("expected a charset"),
    }
    match meta_prescan(b"<meta http-equiv=x content=\"text/html; charset=koi8-r\">") {
        MetaPrescan::Found(c) => assert_eq!(c.name(), "KOI8-R"),
        _ => panic!("expected a charset"),
    }
    assert!(matches!(meta_prescan(b"<p>no meta</p>"), MetaPrescan::Absent));
    assert!(matches!(meta_prescan(b"<meta name=x><meta charset=bogus>"), MetaPrescan::Absent));
    assert!(matches!(meta_prescan(b"<meta"), MetaPrescan::Overrun));
    assert!(matches!(meta_prescan(b"<meta charset=nope"), MetaPrescan::Overrun));
    match meta_prescan(b"<meta charset=utf-8") {
        MetaPrescan::Found(c) => assert_eq!(c.name(), "UTF-8"),
        _ => panic!("a label without a closing bracket still counts"),
    }
    assert_eq!(prescan_charset(b"<meta charset=\"windows-1251\">").map(|c| c.name()), Some("windows-1251"));
}

#[test]
fn prescan_reads_only_the_first_kilobyte() {
    let mut body = vec![b' '; 1024];
    body.extend_from_slice(b"<meta charset=utf-8>");
    assert!(matches!(meta_prescan(&body), MetaPrescan::Absent));
}

#[test]
fn sniffing_order() {
    assert_eq!(sniffed(b"\xEF\xBB\xBFhi", Some("text/html; charset=latin1"), false), Some(("UTF-8".into(), 3)));
    assert_eq!(sniffed(b"\xFF\xFEh\0", None, false), Some(("UTF-16LE".into(), 2)));
    assert_eq!(sniffed(b"\xEF\xBB", None, false), None);
    assert_eq!(sniffed(b"", None, false), None);
    assert_eq!(sniffed(b"\xEF\xBB", None, true), Some(("windows-1252".into(), 0)));
    assert_eq!(sniffed(b"abc", Some("text/html; charset=utf-8"), false), Some(("UTF-8".into(), 0)));
    assert_eq!(sniffed(b"<meta charset=utf-8>", None, false), Some(("UTF-8".into(), 0)));
    assert_eq!(sniffed(b"abc", None, false), None);
    assert_eq!(sniffed(b"abc", None, true), Some(("windows-1252".into(), 0)));
    assert_eq!(sniffed(&[b'a'; 1024], None, false), Some(("windows-1252".into(), 0)));
}

#[test]
fn whole_bodies_decode() {
    assert_eq!(decode_html(b"caf\xE9", None), "café");
    assert_eq!(decode_html(b"\xEF\xBB\xBFcaf\xC3\xA9", None), "café");
    assert_eq!(decode_html(b"caf\xC3\xA9", Some("text/html;charset=utf-8")), "café");
    assert_eq!(decode_html(b"<meta charset=utf-8>\xC3\xA9", None), "<meta charset=utf-8>é");
    assert_eq!(try_decode_html(b"<meta", None), None);
    assert_eq!(try_decode_html(b"<meta", Some("text/html; charset=utf-8")), None);
    assert_eq!(try_decode_html(b"ok", None), Some("ok".to_string()));
}

#[test]
fn form_encoding() {
    assert_eq!(encode_form("é".into(), "latin1".into()), "\u{e9}");
    assert_eq!(encode_form("é".into(), "bogus".into()), "\u{c3}\u{a9}");
    assert_eq!(encode_form("abc".into(), " UTF-8 ".into()), "abc");
}

fn step(s: DecodeStep) -> (u8, Option<String>, Vec<u8>) {
    match s {
        DecodeStep::Wait => (0, None, Vec::new()),
        DecodeStep::Start(c, b) => (1, Some(c.name().to_string()), b),
        DecodeStep::Continue(b) => (2, None, b),
        DecodeStep::Flush => (3, None, Vec::new()),
    }
}

#[test]
fn streamed_bodies_wait_for_the_encoding() {
    let mut d = ResponseDecoder::new(None);
    assert_eq!(step(d.push(b"\xEF")), (0, None, vec![]));
    assert_eq!(step(d.push(b"\xBB\xBFhi")), (1, Some("UTF-8".into()), b"hi".to_vec()));
    assert_eq!(step(d.push(b"x")), (2, None, b"x".to_vec()));
    assert_eq!(step(d.finish()), (3, None, vec![]));

    let mut d = ResponseDecoder::new(Some("text/html; charset=koi8-r".into()));
    assert_eq!(step(d.push(b"ab")), (1, Some("KOI8-R".into()), b"ab".to_vec()));

    let mut d = ResponseDecoder::new(None);
    assert_eq!(step(d.push(b"ab")), (0, None, vec![]));
    assert_eq!(step(d.finish()), (1, Some("windows-1252".into()), b"ab".to_vec()));
}

#[test]
fn streamed_bodies_refuse_an_overrunning_prescan() {
    let mut d = ResponseDecoder::new(None);
    assert!(d.try_push(b"<meta").is_none());
    let ok = d.try_push(b"<p>").expect("no meta");
    assert_eq!(step(ok), (0, None, vec![]));
    let d = ResponseDecoder::new(None);
    assert!(d.try_finish().is_some());
}
