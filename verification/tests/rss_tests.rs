use btboy::parser::parse_title;
use btboy::rss::{items_of, looks_like_torrent, magnet_from, magnet_plan, parse_rss_bytes, torrent_to_magnet, Entry, MagnetPlan};
use sha1::Digest;

/// A bangumi.moe feed with the three releases of one episode (ABEMA, CR and
/// Baha rips); each item offers only a `.torrent` enclosure.
const FIXTURE: &str = r#"<?xml version="1.0" encoding="UTF-8"?>
<rss version="2.0">
<channel>
<title>bangumi.moe</title>
<link>https://bangumi.moe/</link>
<description>bangumi.moe rss</description>
<item>
<title>[黒ネズミたち] 再見菈菈 / Sayonara Lara - 07 (ABEMA 1920x1080 AVC AAC MKV)</title>
<link>https://bangumi.moe/torrent/6700000000000000000000a1</link>
<guid isPermaLink="false">6700000000000000000000a1</guid>
<description><![CDATA[<p>Sayonara Lara 07</p>]]></description>
<enclosure url="https://bangumi.moe/download/torrent/6700000000000000000000a1/a1.torrent" length="0" type="application/x-bittorrent"/>
</item>
<item>
<title>[黒ネズミたち] 再見菈菈 / Sayonara Lara - 07 (CR 1920x1080 AVC AAC MKV)</title>
<link>https://bangumi.moe/torrent/6700000000000000000000a2</link>
<guid isPermaLink="false">6700000000000000000000a2</guid>
<description><![CDATA[<p>Sayonara Lara 07</p>]]></description>
<enclosure url="https://bangumi.moe/download/torrent/6700000000000000000000a2/a2.torrent" length="0" type="application/x-bittorrent"/>
</item>
<item>
<title>[黒ネズミたち] 再見菈菈 / Sayonara Lara - 07 (Baha 1920x1080 AVC AAC MP4)</title>
<link>https://bangumi.moe/torrent/6700000000000000000000a3</link>
<guid isPermaLink="false">6700000000000000000000a3</guid>
<description><![CDATA[<p>Sayonara Lara 07</p>]]></description>
<enclosure url="https://bangumi.moe/download/torrent/6700000000000000000000a3/a3.torrent" length="0" type="application/x-bittorrent"/>
</item>
</channel>
</rss>
"#;

fn sha1_digest(bytes: &[u8]) -> String {
    sha1::Sha1::digest(bytes)
        .iter()
        .map(|b| format!("{b:02x}"))
        .collect()
}

#[test]
fn parse_real_fixture_xml() {
    let items = parse_rss_bytes(FIXTURE.as_bytes()).unwrap();
    assert_eq!(items.len(), 3);
    let mut sources = vec![];
    for it in &items {
        let p = parse_title(&it.title);
        assert_eq!(p.episode, Some(7));
        assert_eq!(p.anime, "再見菈菈 / Sayonara Lara");
        assert_eq!(p.fansub.as_deref(), Some("黒ネズミたち"));
        sources.push(p.source.clone().unwrap());
    }
    assert_eq!(sources, vec!["ABEMA".to_string(), "CR".to_string(), "Baha".to_string()]);
}

#[test]
fn enclosure_is_torrent_not_magnet() {
    let items = parse_rss_bytes(FIXTURE.as_bytes()).unwrap();
    for it in &items {
        assert!(it.magnet.is_none());
        let u = it.enclosure_url.as_ref().unwrap();
        assert!(looks_like_torrent(u));
    }
}

#[test]
fn torrent_infohash_is_sha1_of_info() {
    let data = b"d4:infod4:name1:a6:lengthi5ee".to_vec();
    let magnet = torrent_to_magnet(&data).unwrap();
    let expected = sha1_digest(b"d4:name1:a6:lengthi5ee");
    assert_eq!(magnet, format!("magnet:?xt=urn:btih:{expected}"));
}

#[test]
fn magnet_carries_trackers_once() {
    let data = b"d8:announce10:udp://a:8013:announce-listll10:udp://a:80el6:http:/ee4:infod4:name1:aee".to_vec();
    let magnet = torrent_to_magnet(&data).unwrap();
    let expected = sha1_digest(b"d4:name1:ae");
    assert_eq!(
        magnet,
        format!("magnet:?xt=urn:btih:{expected}&tr=udp%3A%2F%2Fa%3A80&tr=http%3A%2F")
    );
}

#[test]
fn torrent_without_info_gives_no_magnet() {
    assert_eq!(torrent_to_magnet(b"d8:announce8:http://xe"), None);
    assert_eq!(torrent_to_magnet(b"not bencode"), None);
}

#[test]
fn magnet_in_description_or_enclosure() {
    let xml = r#"<?xml version="1.0"?><rss version="2.0"><channel><title>t</title><link>l</link><description>d</description>
<item><title>A</title><description><![CDATA[<a href="magnet:?xt=urn:btih:ABCDEF0123&amp;dn=x">m</a>]]></description></item>
<item><title>B</title><enclosure url="magnet:?xt=urn:btih:FFFF" length="0" type="application/x-bittorrent"/></item>
<item><title>C</title></item>
</channel></rss>"#;
    let items = parse_rss_bytes(xml.as_bytes()).unwrap();
    assert_eq!(items.len(), 3);
    assert_eq!(items[0].magnet.as_deref(), Some("magnet:?xt=urn:btih:ABCDEF0123&amp;dn=x"));
    assert_eq!(items[1].magnet.as_deref(), Some("magnet:?xt=urn:btih:FFFF"));
    assert_eq!(items[2].magnet, None);
    assert_eq!(items[2].link, "");
    assert!(matches!(magnet_plan(&items[1]), MagnetPlan::Ready(_)));
    assert!(matches!(magnet_plan(&items[2]), MagnetPlan::Unavailable));
}

#[test]
fn broken_feed_is_an_error() {
    assert!(parse_rss_bytes(b"<rss><channel>").is_err());
}

#[test]
fn torrent_links_are_recognised() {
    assert!(looks_like_torrent("https://mikanani.me/Download/20240101/abc.torrent"));
    assert!(!looks_like_torrent("magnet:?xt=urn:btih:abc&dn=x.torrent"));
    assert!(!looks_like_torrent("https://mikanani.me/Home/Episode/abc"));
}

fn some(s: &str) -> Option<String> {
    Some(s.to_string())
}

#[test]
fn entries_become_items() {
    let entries: Vec<Entry> = vec![
        (some("A"), some("http://l"), some("g1"), some("magnet:?xt=urn:btih:ABC"), some("application/x-bittorrent"), None),
        (
            some("B"),
            None,
            None,
            some("http://x/a.torrent"),
            some("application/x-bittorrent"),
            some("<a href=\"magnet:?xt=urn:btih:def123&dn=x\">m</a>"),
        ),
        (None, None, None, None, None, some("no link here")),
    ];
    let items = items_of(&entries);
    assert_eq!(items.len(), 3);
    assert_eq!(items[0].title, "A");
    assert_eq!(items[0].link, "http://l");
    assert_eq!(items[0].guid, "g1");
    assert_eq!(items[0].magnet.as_deref(), Some("magnet:?xt=urn:btih:ABC"));
    assert_eq!(items[1].magnet.as_deref(), Some("magnet:?xt=urn:btih:def123&dn=x"));
    assert_eq!(items[1].enclosure_url.as_deref(), Some("http://x/a.torrent"));
    assert_eq!(items[1].link, "");
    assert_eq!(items[2].title, "");
    assert_eq!(items[2].magnet, None);
}

#[test]
fn magnet_from_digest_and_trackers() {
    let digest: Vec<u8> = (0u8..20).collect();
    let m = magnet_from(&digest, &["http%3A%2F%2Ft%2Fa".to_string(), "udp%3A%2F%2Fu".to_string()]);
    assert_eq!(
        m,
        "magnet:?xt=urn:btih:000102030405060708090a0b0c0d0e0f10111213&tr=http%3A%2F%2Ft%2Fa&tr=udp%3A%2F%2Fu"
    );
    assert_eq!(magnet_from(&[0xab, 0x01], &[]), "magnet:?xt=urn:btih:ab01");
}
