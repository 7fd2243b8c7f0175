//! Feed items and magnet links: reading a feed's items (with the `rss`
//! crate), finding a magnet link in an item, and building a magnet link from
//! a `.torrent` file (infohash = SHA-1 of the encoded `info` dictionary, plus
//! the file's trackers).
use vstd::prelude::*;
use crate::bencode::{dict_get, dict_get_str, list_of_lists_strings, spec_dict_get, spec_dict_get_str, spec_list_of_lists_strings};
use crate::models::{RssItem, RssItemView};
use crate::parser::{find_text, opt_chars, trim_end_char};
use crate::pattern::{captures, groups_in_text};
use crate::text::{chars_of, contains, push_char, push_str, starts_with, str_contains, str_eq, str_starts_with};

verus! {

#[verifier::external_type_specification]
#[verifier::external_body]
pub struct ExRssError(rss::Error);

/// An item's fields as read from the feed: title, link, guid value,
/// enclosure url, enclosure type, description.
pub type EntryView = (
    Option<Seq<char>>,
    Option<Seq<char>>,
    Option<Seq<char>>,
    Option<Seq<char>>,
    Option<Seq<char>>,
    Option<Seq<char>>,
);

/// What `rss::Channel::read_from` reads from these bytes: the fields of each
/// item, or `None` when it fails.
pub uninterp spec fn spec_read_feed(bytes: Seq<u8>) -> Option<Seq<EntryView>>;

/// `rss::Channel::read_from` on the bytes, keeping of each item the title,
/// link, guid value, enclosure url and type, and description. The contract
/// names the result; how XML is read is not stated.
#[verifier::external_body]
fn read_feed(bytes: &[u8]) -> (r: Result<Vec<Entry>, rss::Error>)
    ensures
        r is Ok <==> spec_read_feed(bytes@) is Some,
        r matches Ok(v) ==> v.deep_view() == spec_read_feed(bytes@)->0,
{
    let ch = rss::Channel::read_from(bytes)?;
    Ok(ch.items().iter().map(|it| (
        it.title().map(|s| s.to_string()),
        it.link().map(|s| s.to_string()),
        it.guid().map(|g| g.value().to_string()),
        it.enclosure().map(|e| e.url().to_string()),
        it.enclosure().map(|e| e.mime_type().to_string()),
        it.description().map(|s| s.to_string()),
    )).collect())
}

/// Why a feed could not be read.
#[derive(Debug, Clone, Copy, PartialEq, Eq, Structural)]
pub enum FeedError {
    /// The bytes are not a readable RSS document.
    Xml,
}

/// A magnet link in text (such as an item's HTML description).
pub const PAT_MAGNET: &'static str = r#"magnet:\?xt=urn:btih:[a-zA-Z0-9]+[^\s"'<>]*"#;

/// The first magnet link in `s`, without trailing quotes.
pub open spec fn spec_extract_magnet(s: Seq<char>) -> Option<Seq<char>> {
    match find_text(PAT_MAGNET, s) {
        Some(t) => Some(trim_end_char(trim_end_char(t, '"'), '\'')),
        None => None,
    }
}

/// `text` or the empty text.
pub open spec fn or_empty(o: Option<Seq<char>>) -> Seq<char> {
    match o {
        Some(s) => s,
        None => seq![],
    }
}

/// An item's magnet link: its enclosure when that is a magnet link,
/// otherwise one found in its description.
pub open spec fn spec_item_magnet(e: EntryView) -> Option<Seq<char>> {
    match e.3 {
        Some(u) if starts_with(u, "magnet:"@) => Some(u),
        _ => match e.5 {
            Some(d) => spec_extract_magnet(d),
            None => None,
        },
    }
}

/// The item that a feed entry gives.
pub open spec fn spec_item_of(e: EntryView) -> RssItemView {
    RssItemView {
        title: or_empty(e.0),
        link: or_empty(e.1),
        magnet: spec_item_magnet(e),
        enclosure_url: e.3,
        enclosure_type: e.4,
        guid: or_empty(e.2),
    }
}

fn or_empty_string(o: &Option<String>) -> (r: String)
    ensures
        r@ == or_empty(o.deep_view()),
{
    match o {
        Some(s) => s.clone(),
        None => String::new(),
    }
}

/// Finds a magnet link in text.
fn extract_magnet_from_html(s: &str) -> (r: Option<String>)
    ensures
        r.deep_view() == spec_extract_magnet(s@),
{
    match captures(PAT_MAGNET, s) {
        Some(gs) => {
            assert(gs.deep_view()[0] == gs[0].deep_view());
            match &gs[0] {
                Some((_, m)) => {
                    let mv = chars_of(m.as_str());
                    let a = crate::parser::trim_end_char_of(mv.as_slice(), '"');
                    let b = crate::parser::trim_end_char_of(a.as_slice(), '\'');
                    Some(crate::text::string_of(b.as_slice()))
                },
                None => None,
            }
        },
        None => None,
    }
}

/// An item's fields as read from a feed: title, link, guid value, enclosure
/// url, enclosure type, description.
pub type Entry = (Option<String>, Option<String>, Option<String>, Option<String>, Option<String>, Option<String>);

/// The items for the entries read from a feed, with each item's magnet link
/// found in its enclosure or description.
pub fn items_of(entries: &Vec<Entry>) -> (r: Vec<RssItem>)
    ensures
        r.len() == entries.len(),
        forall|k: int| 0 <= k < r.len() ==> (#[trigger] r@[k])@ == spec_item_of(entries.deep_view()[k]),
{
    let ghost es = entries.deep_view();
    let mut items: Vec<RssItem> = Vec::new();
    let mut k: usize = 0;
    while k < entries.len()
        invariant
            k <= entries.len(),
            es == entries.deep_view(),
            items.len() == k,
            forall|j: int| 0 <= j < k ==> (#[trigger] items@[j])@ == spec_item_of(es[j]),
        decreases entries.len() - k,
    {
        let e = &entries[k];
        assert(es[k as int] == e.deep_view());
        let magnet = match &e.3 {
            Some(u) if str_starts_with(u.as_str(), "magnet:") => Some(u.clone()),
            _ => match &e.5 {
                Some(d) => extract_magnet_from_html(d.as_str()),
                None => None,
            },
        };
        let item = RssItem {
            title: or_empty_string(&e.0),
            link: or_empty_string(&e.1),
            magnet,
            enclosure_url: e.3.clone(),
            enclosure_type: e.4.clone(),
            guid: or_empty_string(&e.2),
        };
        assert(item@ == spec_item_of(es[k as int]));
        items.push(item);
        k = k + 1;
    }
    items
}

/// The items of a feed, with each item's magnet link found in its enclosure
/// or description.
pub fn parse_rss_bytes(bytes: &[u8]) -> (r: Result<Vec<RssItem>, FeedError>)
    ensures
        r is Ok <==> spec_read_feed(bytes@) is Some,
        r matches Ok(v) ==> {
            let es = spec_read_feed(bytes@)->0;
            &&& v.len() == es.len()
            &&& forall|k: int| 0 <= k < v.len() ==> (#[trigger] v@[k])@ == spec_item_of(es[k])
        },
{
    match read_feed(bytes) {
        Ok(entries) => Ok(items_of(&entries)),
        Err(_) => Err(FeedError::Xml),
    }
}


/// A `.torrent` download link (and no magnet link).
pub open spec fn spec_looks_like_torrent(u: Seq<char>) -> bool {
    !starts_with(u, "magnet:"@) && contains(u, ".torrent"@)
}

/// Whether a link points at a `.torrent` file.
pub fn looks_like_torrent(u: &str) -> (r: bool)
    ensures
        r == spec_looks_like_torrent(u@),
{
    !str_starts_with(u, "magnet:") && str_contains(u, ".torrent")
}

/// How to get an item's magnet link.
#[derive(Debug, Clone)]
pub enum MagnetPlan {
    /// The feed gave the magnet link.
    Ready(String),
    /// Download the `.torrent` at this address and build the link from it.
    Download(String),
    /// The item offers neither.
    Unavailable,
}

/// The plan as values.
pub enum MagnetPlanView {
    Ready(Seq<char>),
    Download(Seq<char>),
    Unavailable,
}

impl View for MagnetPlan {
    type V = MagnetPlanView;

    open spec fn view(&self) -> MagnetPlanView {
        match self {
            MagnetPlan::Ready(s) => MagnetPlanView::Ready(s@),
            MagnetPlan::Download(s) => MagnetPlanView::Download(s@),
            MagnetPlan::Unavailable => MagnetPlanView::Unavailable,
        }
    }
}

/// A magnet link from the feed is used as it is; otherwise a `.torrent`
/// enclosure is downloaded.
pub open spec fn spec_magnet_plan(item: RssItemView) -> MagnetPlanView {
    match item.magnet {
        Some(m) => MagnetPlanView::Ready(m),
        None => match item.enclosure_url {
            Some(u) => if spec_looks_like_torrent(u) {
                MagnetPlanView::Download(u)
            } else {
                MagnetPlanView::Unavailable
            },
            None => MagnetPlanView::Unavailable,
        },
    }
}

/// Decides how to get an item's magnet link.
pub fn magnet_plan(item: &RssItem) -> (r: MagnetPlan)
    ensures
        r@ == spec_magnet_plan(item@),
{
    match &item.magnet {
        Some(m) => MagnetPlan::Ready(m.clone()),
        None => match &item.enclosure_url {
            Some(u) => if looks_like_torrent(u.as_str()) {
                MagnetPlan::Download(u.clone())
            } else {
                MagnetPlan::Unavailable
            },
            None => MagnetPlan::Unavailable,
        },
    }
}

/// What SHA-1 gives for these bytes.
pub uninterp spec fn spec_sha1(data: Seq<u8>) -> Seq<u8>;

/// `sha1::Sha1::digest`: the SHA-1 hash of the bytes, 20 bytes long. The
/// contract names the hash and states its length.
#[verifier::external_body]
fn sha1_digest(data: &[u8]) -> (r: Vec<u8>)
    ensures
        r@ == spec_sha1(data@),
        r@.len() == 20,
{
    <sha1::Sha1 as sha1::Digest>::digest(data).to_vec()
}

/// An uppercase hex digit for `n < 16`.
pub open spec fn hex_upper_digit(n: int) -> char {
    if n < 10 {
        (48 + n) as char
    } else {
        (55 + n) as char
    }
}

/// How the form encoding writes one byte: ASCII letters, digits and `*-._`
/// as they are, a space as `+`, any other byte as `%` and two uppercase hex
/// digits.
pub open spec fn form_byte(b: u8) -> Seq<char> {
    if b == 42 || b == 45 || b == 46 || (48 <= b <= 57) || (65 <= b <= 90) || b == 95 || (97 <= b <= 122) {
        seq![b as char]
    } else if b == 32 {
        seq!['+']
    } else {
        seq!['%', hex_upper_digit((b / 16) as int), hex_upper_digit((b % 16) as int)]
    }
}

/// The form encoding of bytes, byte by byte.
pub open spec fn form_bytes(bs: Seq<u8>) -> Seq<char>
    decreases bs.len(),
{
    if bs.len() == 0 {
        seq![]
    } else {
        form_bytes(bs.drop_last()) + form_byte(bs.last())
    }
}

/// What `url::form_urlencoded::byte_serialize` gives for the UTF-8 bytes of
/// this text.
pub open spec fn spec_form_urlencode(s: Seq<char>) -> Seq<char> {
    form_bytes(vstd::utf8::encode_utf8(s))
}

/// `url::form_urlencoded::byte_serialize` on the text's UTF-8 bytes,
/// collected: the text encoded for a URL query, byte by byte as
/// `form_byte` says.
#[verifier::external_body]
pub(crate) fn form_urlencode(s: &str) -> (r: String)
    ensures
        r@ == spec_form_urlencode(s@),
{
    url::form_urlencoded::byte_serialize(s.as_bytes()).collect::<String>()
}

/// The lowercase hex digit for `n < 16`.
pub open spec fn hex_digit(n: int) -> char {
    if n < 10 {
        (48 + n) as char
    } else {
        (87 + n) as char
    }
}

/// Bytes in lowercase hex, two digits each.
pub open spec fn hex_lower(b: Seq<u8>) -> Seq<char>
    decreases b.len(),
{
    if b.len() == 0 {
        seq![]
    } else {
        hex_lower(b.drop_last()) + seq![hex_digit((b.last() / 16) as int), hex_digit((b.last() % 16) as int)]
    }
}

/// A lowercase hex digit.
pub open spec fn is_lower_hex(c: char) -> bool {
    (48 <= c as u32 <= 57) || (97 <= c as u32 <= 102)
}

proof fn lemma_hex_digit(n: int)
    requires
        0 <= n < 16,
    ensures
        is_lower_hex(hex_digit(n)),
{
    let x: int = if n < 10 { 48 + n } else { 87 + n };
    assert(0 <= x < 0xD800);
    assert((x as char) as u32 == x);
}

proof fn lemma_hex_lower(b: Seq<u8>)
    ensures
        hex_lower(b).len() == 2 * b.len(),
        forall|k: int| 0 <= k < hex_lower(b).len() ==> is_lower_hex(#[trigger] hex_lower(b)[k]),
    decreases b.len(),
{
    if b.len() > 0 {
        lemma_hex_lower(b.drop_last());
        lemma_hex_digit((b.last() / 16) as int);
        lemma_hex_digit((b.last() % 16) as int);
        let h = hex_lower(b);
        let p = hex_lower(b.drop_last());
        assert forall|k: int| 0 <= k < h.len() implies is_lower_hex(#[trigger] h[k]) by {
            if k < p.len() {
                assert(h[k] == p[k]);
            }
        }
    }
}

/// A magnet link by info hash: `magnet:?xt=urn:btih:` then forty lowercase
/// hex digits.
pub open spec fn is_btih_magnet(m: Seq<char>) -> bool {
    &&& m.len() >= 60
    &&& m.take(20) == "magnet:?xt=urn:btih:"@
    &&& forall|k: int| 20 <= k < 60 ==> is_lower_hex(#[trigger] m[k])
}

fn hex_char(n: u8) -> (c: char)
    requires
        n < 16,
    ensures
        c == hex_digit(n as int),
{
    if n < 10 {
        (48u8 + n) as char
    } else {
        (87u8 + n) as char
    }
}

/// Writes bytes in lowercase hex.
fn to_hex_lower(b: &[u8]) -> (r: String)
    ensures
        r@ == hex_lower(b@),
{
    let mut out = String::new();
    let mut k: usize = 0;
    while k < b.len()
        invariant
            k <= b.len(),
            out@ == hex_lower(b@.take(k as int)),
        decreases b.len() - k,
    {
        let x = b[k];
        push_char(&mut out, hex_char(x / 16));
        push_char(&mut out, hex_char(x % 16));
        proof {
            assert(b@.take(k + 1).drop_last() =~= b@.take(k as int));
        }
        k = k + 1;
    }
    assert(b@.take(k as int) =~= b@);
    out
}

/// The key `info`.
pub open spec fn key_info() -> Seq<u8> {
    seq![105u8, 110u8, 102u8, 111u8]
}

/// The key `announce`.
pub open spec fn key_announce() -> Seq<u8> {
    seq![97u8, 110u8, 110u8, 111u8, 117u8, 110u8, 99u8, 101u8]
}

/// The key `announce-list`.
pub open spec fn key_announce_list() -> Seq<u8> {
    key_announce() + seq![45u8, 108u8, 105u8, 115u8, 116u8]
}

fn bytes_from(v: &[u8]) -> (r: Vec<u8>)
    ensures
        r@ == v@,
{
    let mut r: Vec<u8> = Vec::new();
    let mut k: usize = 0;
    while k < v.len()
        invariant
            k <= v.len(),
            r@ == v@.take(k as int),
        decreases v.len() - k,
    {
        r.push(v[k]);
        k = k + 1;
        assert(r@ =~= v@.take(k as int));
    }
    assert(v@.take(k as int) =~= v@);
    r
}

/// Adds a tracker unless it is empty or already there.
pub open spec fn add_tracker(acc: Seq<Seq<char>>, t: Seq<char>) -> Seq<Seq<char>> {
    if t.len() == 0 || acc.contains(t) {
        acc
    } else {
        acc.push(t)
    }
}

/// Adds trackers in order.
pub open spec fn add_trackers(acc: Seq<Seq<char>>, ts: Seq<Seq<char>>) -> Seq<Seq<char>>
    decreases ts.len(),
{
    if ts.len() == 0 {
        acc
    } else {
        add_tracker(add_trackers(acc, ts.drop_last()), ts.last())
    }
}

/// The trackers of a torrent: `announce`, then the strings of
/// `announce-list`, each once, empty ones left out.
pub open spec fn spec_trackers(data: Seq<u8>) -> Seq<Seq<char>> {
    let first = match spec_dict_get_str(data, key_announce()) {
        Some(a) => seq![a],
        None => seq![],
    };
    let rest = match spec_dict_get(data, key_announce_list()) {
        Some(v) => match spec_list_of_lists_strings(v, 0) {
            Some(l) => l,
            None => seq![],
        },
        None => seq![],
    };
    add_trackers(seq![], first + rest)
}

/// `&tr=<tracker>` for each tracker, encoded for a URL.
pub open spec fn tracker_params(ts: Seq<Seq<char>>) -> Seq<char>
    decreases ts.len(),
{
    if ts.len() == 0 {
        seq![]
    } else {
        tracker_params(ts.drop_last()) + "&tr="@ + spec_form_urlencode(ts.last())
    }
}

/// The magnet link of a `.torrent` file: `magnet:?xt=urn:btih:` and the
/// lowercase hex SHA-1 of the encoded `info` dictionary, then its trackers.
pub open spec fn spec_torrent_to_magnet(data: Seq<u8>) -> Option<Seq<char>> {
    match spec_dict_get(data, key_info()) {
        Some(info) => Some("magnet:?xt=urn:btih:"@ + hex_lower(spec_sha1(info)) + tracker_params(
            spec_trackers(data),
        )),
        None => None,
    }
}

/// The trackers of a torrent.
fn trackers_of(data: &[u8]) -> (r: Vec<String>)
    ensures
        r.deep_view() == spec_trackers(data@),
{
    let ka = bytes_from(&[97u8, 110u8, 110u8, 111u8, 117u8, 110u8, 99u8, 101u8]);
    assert(ka@ =~= key_announce());
    let kl = bytes_from(&[97u8, 110u8, 110u8, 111u8, 117u8, 110u8, 99u8, 101u8, 45u8, 108u8, 105u8, 115u8, 116u8]);
    assert(kl@ =~= key_announce_list());
    let mut all: Vec<String> = Vec::new();
    match dict_get_str(data, ka.as_slice()) {
        Some(a) => {
            all.push(a.to_owned());
            assert(all.deep_view() =~= seq![a@]);
        },
        None => {
            assert(all.deep_view() =~= Seq::<Seq<char>>::empty());
        },
    }
    let ghost first = all.deep_view();
    let ghost first_spec = match spec_dict_get_str(data@, key_announce()) {
        Some(a) => seq![a],
        None => Seq::<Seq<char>>::empty(),
    };
    assert(first == first_spec);
    let ghost rest_spec = match spec_dict_get(data@, key_announce_list()) {
        Some(v) => match spec_list_of_lists_strings(v, 0) {
            Some(l) => l,
            None => Seq::<Seq<char>>::empty(),
        },
        None => Seq::<Seq<char>>::empty(),
    };
    match dict_get(data, kl.as_slice()) {
        Some(v) => match list_of_lists_strings(v, 0) {
            Some(l) => {
                let mut j: usize = 0;
                while j < l.len()
                    invariant
                        j <= l.len(),
                        all.deep_view() == first + l.deep_view().take(j as int),
                    decreases l.len() - j,
                {
                    let ghost before = all.deep_view();
                    all.push(l[j].clone());
                    assert(l.deep_view()[j as int] == l[j as int]@);
                    assert(all.deep_view() =~= before.push(l[j as int]@));
                    assert(l.deep_view().take(j + 1) =~= l.deep_view().take(j as int).push(l[j as int]@));
                    j = j + 1;
                }
                assert(l.deep_view().take(j as int) =~= l.deep_view());
            },
            None => {
                assert(all.deep_view() =~= first + Seq::<Seq<char>>::empty());
            },
        },
        None => {
            assert(all.deep_view() =~= first + Seq::<Seq<char>>::empty());
        },
    }
    let ghost ts = all.deep_view();
    assert(ts == first_spec + rest_spec);
    let mut out: Vec<String> = Vec::new();
    let mut k: usize = 0;
    assert(out.deep_view() =~= Seq::<Seq<char>>::empty());
    while k < all.len()
        invariant
            k <= all.len(),
            ts == all.deep_view(),
            out.deep_view() == add_trackers(seq![], ts.take(k as int)),
        decreases all.len() - k,
    {
        let t = &all[k];
        assert(ts[k as int] == t@);
        assert(ts.take(k + 1).drop_last() =~= ts.take(k as int));
        let mut seen = false;
        let mut m: usize = 0;
        while m < out.len()
            invariant
                m <= out.len(),
                seen == (exists|i: int| 0 <= i < m && out.deep_view()[i] == t@),
            decreases out.len() - m,
        {
            assert(out.deep_view()[m as int] == out[m as int]@);
            if str_eq(out[m].as_str(), t.as_str()) {
                seen = true;
            }
            m = m + 1;
        }
        proof {
            if seen {
                let i = choose|i: int| 0 <= i < m && out.deep_view()[i] == t@;
                assert(out.deep_view().contains(t@));
            } else {
                assert(!out.deep_view().contains(t@));
            }
        }
        if !t.as_str().is_empty() && !seen {
            let ghost before = out.deep_view();
            out.push(t.clone());
            assert(out.deep_view() =~= before.push(t@));
        }
        k = k + 1;
    }
    assert(ts.take(k as int) =~= ts);
    out
}

/// The tracker parameters of a magnet link from already encoded trackers:
/// `&tr=<encoded>` for each, in order.
pub open spec fn encoded_params(enc: Seq<Seq<char>>) -> Seq<char>
    decreases enc.len(),
{
    if enc.len() == 0 {
        seq![]
    } else {
        encoded_params(enc.drop_last()) + "&tr="@ + enc.last()
    }
}

proof fn lemma_encoded_params(ts: Seq<Seq<char>>)
    ensures
        tracker_params(ts) == encoded_params(ts.map_values(|t: Seq<char>| spec_form_urlencode(t))),
    decreases ts.len(),
{
    if ts.len() > 0 {
        lemma_encoded_params(ts.drop_last());
        assert(ts.map_values(|t: Seq<char>| spec_form_urlencode(t)).drop_last() =~= ts.drop_last().map_values(
            |t: Seq<char>| spec_form_urlencode(t),
        ));
    }
}

/// The magnet link for a SHA-1 digest of an `info` dictionary and the
/// encoded trackers: `magnet:?xt=urn:btih:`, the digest in lowercase hex,
/// then `&tr=<tracker>` for each tracker.
pub fn magnet_from(digest: &[u8], encoded: &[String]) -> (r: String)
    ensures
        r@ == "magnet:?xt=urn:btih:"@ + hex_lower(digest@) + encoded_params(encoded.deep_view()),
        digest.len() == 20 ==> is_btih_magnet(r@),
{
    let hex = to_hex_lower(digest);
    proof {
        lemma_hex_lower(digest@);
        reveal_strlit("magnet:?xt=urn:btih:");
    }
    let mut m = String::new();
    push_str(&mut m, "magnet:?xt=urn:btih:");
    push_str(&mut m, hex.as_str());
    let ghost base = m@;
    assert(digest.len() == 20 ==> is_btih_magnet(base)) by {
        if digest.len() == 20 {
            assert(base.take(20) =~= "magnet:?xt=urn:btih:"@);
            assert forall|k: int| 20 <= k < 60 implies is_lower_hex(#[trigger] base[k]) by {
                assert(base[k] == hex@[k - 20]);
            }
        }
    }
    let ghost ev = encoded.deep_view();
    let mut k: usize = 0;
    while k < encoded.len()
        invariant
            k <= encoded.len(),
            ev == encoded.deep_view(),
            m@ == base + encoded_params(ev.take(k as int)),
        decreases encoded.len() - k,
    {
        assert(ev[k as int] == encoded[k as int]@);
        assert(ev.take(k + 1).drop_last() =~= ev.take(k as int));
        push_str(&mut m, "&tr=");
        push_str(&mut m, encoded[k].as_str());
        k = k + 1;
    }
    assert(ev.take(k as int) =~= ev);
    assert(digest.len() == 20 ==> is_btih_magnet(m@)) by {
        if digest.len() == 20 {
            assert(m@.take(20) =~= base.take(20));
            assert forall|k: int| 20 <= k < 60 implies is_lower_hex(#[trigger] m@[k]) by {
                assert(m@[k] == base[k]);
            }
        }
    }
    m
}

/// Builds the magnet link of a `.torrent` file from its `info` dictionary
/// and trackers.
pub fn torrent_to_magnet(data: &[u8]) -> (r: Option<String>)
    ensures
        r.deep_view() == spec_torrent_to_magnet(data@),
        r matches Some(m) ==> is_btih_magnet(m@),
{
    let ki = bytes_from(&[105u8, 110u8, 102u8, 111u8]);
    assert(ki@ =~= key_info());
    let info = match dict_get(data, ki.as_slice()) {
        Some(v) => v,
        None => return None,
    };
    let hash = sha1_digest(info);
    let ts = trackers_of(data);
    let ghost tv = ts.deep_view();
    let mut enc: Vec<String> = Vec::new();
    let mut k: usize = 0;
    while k < ts.len()
        invariant
            k <= ts.len(),
            tv == ts.deep_view(),
            enc.deep_view() == tv.take(k as int).map_values(|t: Seq<char>| spec_form_urlencode(t)),
        decreases ts.len() - k,
    {
        assert(tv[k as int] == ts[k as int]@);
        let ghost before = enc.deep_view();
        let e = form_urlencode(ts[k].as_str());
        enc.push(e);
        assert(enc.deep_view() =~= before.push(spec_form_urlencode(tv[k as int])));
        assert(tv.take(k + 1).map_values(|t: Seq<char>| spec_form_urlencode(t)) =~= tv.take(k as int).map_values(
            |t: Seq<char>| spec_form_urlencode(t),
        ).push(spec_form_urlencode(tv[k as int])));
        k = k + 1;
    }
    assert(tv.take(k as int) =~= tv);
    proof {
        lemma_encoded_params(tv);
    }
    Some(magnet_from(hash.as_slice(), enc.as_slice()))
}

} // verus!
