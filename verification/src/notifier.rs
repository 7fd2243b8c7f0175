//! The texts that are sent: the channel push message and the lines that
//! describe candidates in a question.
use vstd::prelude::*;
use crate::models::{Candidate, SubRow, fmt_episode};
use crate::num::{decimal, decimal_chars, pad2};
use crate::text::{chars_of, find, find_chars, push_char, push_str, str_eq};

verus! {

/// The escape of one character for HTML text.
pub open spec fn escape_char(c: char) -> Seq<char> {
    if c == '&' {
        seq!['&', 'a', 'm', 'p', ';']
    } else if c == '<' {
        seq!['&', 'l', 't', ';']
    } else if c == '>' {
        seq!['&', 'g', 't', ';']
    } else {
        seq![c]
    }
}

/// `s` with `&`, `<` and `>` escaped.
pub open spec fn escape(s: Seq<char>) -> Seq<char>
    decreases s.len(),
{
    if s.len() == 0 {
        seq![]
    } else {
        escape(s.drop_last()) + escape_char(s.last())
    }
}

/// Appends the characters of `v`.
pub fn push_chars(s: &mut String, v: &[char])
    ensures
        final(s)@ == old(s)@ + v@,
{
    let ghost s0 = s@;
    let mut k: usize = 0;
    while k < v.len()
        invariant
            k <= v.len(),
            s@ == s0 + v@.take(k as int),
        decreases v.len() - k,
    {
        push_char(s, v[k]);
        k = k + 1;
        assert(s@ =~= s0 + v@.take(k as int));
    }
    assert(v@.take(k as int) =~= v@);
}

/// Escapes `&`, `<` and `>` for Telegram's HTML mode.
pub fn html_escape(s: &str) -> (r: String)
    ensures
        r@ == escape(s@),
{
    let v = chars_of(s);
    let mut out = String::new();
    let mut k: usize = 0;
    while k < v.len()
        invariant
            k <= v.len(),
            v@ == s@,
            out@ == escape(v@.take(k as int)),
        decreases v.len() - k,
    {
        let c = v[k];
        let ghost before = out@;
        if c == '&' {
            push_str(&mut out, "&amp;");
            proof { reveal_strlit("&amp;"); }
        } else if c == '<' {
            push_str(&mut out, "&lt;");
            proof { reveal_strlit("&lt;"); }
        } else if c == '>' {
            push_str(&mut out, "&gt;");
            proof { reveal_strlit("&gt;"); }
        } else {
            push_char(&mut out, c);
        }
        proof {
            assert(v@.take(k + 1).drop_last() =~= v@.take(k as int));
            assert(out@ =~= before + escape_char(c));
        }
        k = k + 1;
    }
    assert(v@.take(k as int) =~= v@);
    out
}

/// Escaped text holds no `<` and no `>`.
pub proof fn lemma_escape_no_angle(s: Seq<char>)
    ensures
        forall|k: int| 0 <= k < escape(s).len() ==> escape(s)[k] != '<' && escape(s)[k] != '>',
    decreases s.len(),
{
    if s.len() > 0 {
        lemma_escape_no_angle(s.drop_last());
        let a = escape(s.drop_last());
        let b = escape_char(s.last());
        assert forall|k: int| 0 <= k < escape(s).len() implies escape(s)[k] != '<' && escape(s)[k] != '>' by {
            if k < a.len() {
                assert(escape(s)[k] == a[k]);
            } else {
                assert(escape(s)[k] == b[k - a.len()]);
            }
        }
    }
}

/// HTML text read back: `&lt;`, `&gt;` and `&amp;` decoded from left to
/// right, every other character kept.
pub open spec fn unescape(t: Seq<char>) -> Seq<char>
    decreases t.len(),
{
    if t.len() == 0 {
        seq![]
    } else if t.len() >= 4 && t.take(4) == seq!['&', 'l', 't', ';'] {
        seq!['<'] + unescape(t.skip(4))
    } else if t.len() >= 4 && t.take(4) == seq!['&', 'g', 't', ';'] {
        seq!['>'] + unescape(t.skip(4))
    } else if t.len() >= 5 && t.take(5) == seq!['&', 'a', 'm', 'p', ';'] {
        seq!['&'] + unescape(t.skip(5))
    } else {
        seq![t[0]] + unescape(t.skip(1))
    }
}

proof fn lemma_escape_first(s: Seq<char>)
    requires
        s.len() > 0,
    ensures
        escape(s) == escape_char(s[0]) + escape(s.drop_first()),
    decreases s.len(),
{
    if s.len() > 1 {
        lemma_escape_first(s.drop_last());
        assert(s.drop_last().drop_first() =~= s.drop_first().drop_last());
        assert(s.drop_first().last() == s.last());
        assert(s.drop_last()[0] == s[0]);
    } else {
        assert(s.drop_first() =~= Seq::<char>::empty());
        assert(s.drop_last() =~= Seq::<char>::empty());
    }
}

proof fn lemma_unescape_char(c: char, rest: Seq<char>)
    ensures
        unescape(escape_char(c) + rest) == seq![c] + unescape(rest),
{
    let t = escape_char(c) + rest;
    if c == '&' {
        assert(t.take(4) != seq!['&', 'l', 't', ';']) by {
            assert(t.take(4)[1] == 'a');
        }
        assert(t.take(4) != seq!['&', 'g', 't', ';']) by {
            assert(t.take(4)[1] == 'a');
        }
        assert(t.take(5) =~= seq!['&', 'a', 'm', 'p', ';']);
        assert(t.skip(5) =~= rest);
    } else if c == '<' {
        assert(t.take(4) =~= seq!['&', 'l', 't', ';']);
        assert(t.skip(4) =~= rest);
    } else if c == '>' {
        assert(t.take(4) != seq!['&', 'l', 't', ';']) by {
            assert(t.take(4)[1] == 'g');
        }
        assert(t.take(4) =~= seq!['&', 'g', 't', ';']);
        assert(t.skip(4) =~= rest);
    } else {
        assert(t[0] == c);
        if t.len() >= 4 {
            assert(t.take(4)[0] != '&');
        }
        if t.len() >= 5 {
            assert(t.take(5)[0] != '&');
        }
        assert(t.skip(1) =~= rest);
    }
}

/// Escaping loses nothing: reading the escaped text back gives the text.
pub proof fn law_escape_read_back(s: Seq<char>)
    ensures
        unescape(escape(s)) == s,
    decreases s.len(),
{
    if s.len() > 0 {
        lemma_escape_first(s);
        lemma_unescape_char(s[0], escape(s.drop_first()));
        law_escape_read_back(s.drop_first());
        assert(seq![s[0]] + s.drop_first() =~= s);
    }
}

/// The parts joined with `sep` between them.
pub open spec fn join(parts: Seq<Seq<char>>, sep: Seq<char>) -> Seq<char>
    decreases parts.len(),
{
    if parts.len() == 0 {
        seq![]
    } else if parts.len() == 1 {
        parts[0]
    } else {
        join(parts.drop_last(), sep) + sep + parts.last()
    }
}

/// Joins the parts with `sep` between them.
pub fn join_chars(parts: &Vec<Vec<char>>, sep: &str) -> (r: String)
    ensures
        r@ == join(parts.deep_view(), sep@),
{
    let mut out = String::new();
    let ghost ps = parts.deep_view();
    let mut k: usize = 0;
    while k < parts.len()
        invariant
            k <= parts.len(),
            ps == parts.deep_view(),
            out@ == join(ps.take(k as int), sep@),
        decreases parts.len() - k,
    {
        assert(parts[k as int]@ == ps[k as int]);
        if k > 0 {
            push_str(&mut out, sep);
        }
        push_chars(&mut out, parts[k].as_slice());
        proof {
            assert(ps.take(k + 1).drop_last() =~= ps.take(k as int));
            if k == 0 {
                assert(out@ =~= ps.take(1)[0]);
            }
        }
        k = k + 1;
    }
    assert(ps.take(k as int) =~= ps);
    out
}

/// `[s]` for `Some(s)`, nothing for `None`.
pub open spec fn opt_part(o: Option<String>) -> Seq<Seq<char>> {
    match o {
        Some(s) => seq![s@],
        None => seq![],
    }
}

/// The language part of a candidate's description (none for an unknown language).
pub open spec fn lang_part(c: Candidate) -> Seq<Seq<char>> {
    if c.lang@ != "未知"@ {
        seq![c.lang@]
    } else {
        seq![]
    }
}

/// `v<n>`.
pub open spec fn version_text(v: u32) -> Seq<char> {
    seq!['v'] + decimal(v as nat)
}

/// The attributes shown in a push: fansub, quality, codec, language, and the
/// version when it is above 1.
pub open spec fn push_parts(c: Candidate) -> Seq<Seq<char>> {
    opt_part(c.fansub) + opt_part(c.quality) + opt_part(c.codec) + lang_part(c) + (if c.version > 1 {
        seq![version_text(c.version)]
    } else {
        seq![]
    })
}

/// The push message for candidate `c` of subscription `sub`.
pub open spec fn spec_format_push(sub: SubRow, c: Candidate) -> Seq<char> {
    let parts = push_parts(c);
    let attrs = if parts.len() == 0 {
        seq![]
    } else {
        "<i>["@ + join(parts, " · "@) + "]</i>"@
    };
    "<b>"@ + escape(sub.title@) + " 第"@ + pad2(c.episode as int) + "话</b>\n"@ + attrs + "\n\n"@
        + c.magnet@
}

/// Appends `[s]` for `Some(s)`.
pub fn push_opt(parts: &mut Vec<Vec<char>>, o: &Option<String>)
    ensures
        final(parts).deep_view() == old(parts).deep_view() + opt_part(*o),
{
    match o {
        Some(s) => {
            let v = chars_of(s.as_str());
            let ghost before = parts.deep_view();
            assert(v.deep_view() =~= v@);
            parts.push(v);
            assert(parts.deep_view() =~= before + seq![s@]);
        },
        None => {
            assert(parts.deep_view() =~= parts.deep_view() + Seq::<Seq<char>>::empty());
        },
    }
}

/// Appends one part.
pub fn push_part(parts: &mut Vec<Vec<char>>, v: Vec<char>)
    ensures
        final(parts).deep_view() == old(parts).deep_view().push(v@),
{
    let ghost before = parts.deep_view();
    assert(v.deep_view() =~= v@);
    parts.push(v);
    assert(parts.deep_view() =~= before.push(v@));
}

/// `v<n>`.
pub fn version_chars(v: u32) -> (r: Vec<char>)
    ensures
        r@ == version_text(v),
{
    let d = decimal_chars(v as u64);
    let mut r: Vec<char> = Vec::new();
    r.push('v');
    let mut k: usize = 0;
    while k < d.len()
        invariant
            k <= d.len(),
            r@ == seq!['v'] + d@.take(k as int),
        decreases d.len() - k,
    {
        r.push(d[k]);
        k = k + 1;
        assert(r@ =~= seq!['v'] + d@.take(k as int));
    }
    assert(d@.take(k as int) =~= d@);
    r
}

/// The channel message for one candidate:
/// `<b>title 第07话</b>`, then `<i>[fansub · 1080P · HEVC · 简中 · v2]</i>`
/// (when there are attributes), then the magnet link.
pub fn format_push(sub: &SubRow, c: &Candidate) -> (r: String)
    ensures
        r@ == spec_format_push(*sub, *c),
{
    let ep = fmt_episode(c.episode);
    let mut parts: Vec<Vec<char>> = Vec::new();
    push_opt(&mut parts, &c.fansub);
    push_opt(&mut parts, &c.quality);
    push_opt(&mut parts, &c.codec);
    let ghost p3 = parts.deep_view();
    if !str_eq(c.lang.as_str(), "未知") {
        push_part(&mut parts, chars_of(c.lang.as_str()));
    }
    assert(parts.deep_view() =~= p3 + lang_part(*c));
    let ghost p4 = parts.deep_view();
    if c.version > 1 {
        push_part(&mut parts, version_chars(c.version));
    }
    assert(parts.deep_view() =~= push_parts(*c));
    let mut attrs = String::new();
    if parts.len() > 0 {
        push_str(&mut attrs, "<i>[");
        let joined = join_chars(&parts, " · ");
        push_str(&mut attrs, joined.as_str());
        push_str(&mut attrs, "]</i>");
    }
    let mut out = String::new();
    push_str(&mut out, "<b>");
    let title = html_escape(sub.title.as_str());
    push_str(&mut out, title.as_str());
    push_str(&mut out, " 第");
    push_str(&mut out, ep.as_str());
    push_str(&mut out, "话</b>\n");
    push_str(&mut out, attrs.as_str());
    push_str(&mut out, "\n\n");
    push_str(&mut out, c.magnet.as_str());
    out
}

/// How many bytes `c` takes in UTF-8.
pub open spec fn utf8_width(c: char) -> nat {
    if (c as u32) < 0x80 {
        1
    } else if (c as u32) < 0x800 {
        2
    } else if (c as u32) < 0x10000 {
        3
    } else {
        4
    }
}

/// How many bytes `s` takes in UTF-8.
pub open spec fn utf8_len(s: Seq<char>) -> nat
    decreases s.len(),
{
    if s.len() == 0 {
        0
    } else {
        utf8_len(s.drop_last()) + utf8_width(s.last())
    }
}

/// The number of leading characters of `s` that take exactly `n` bytes, if
/// `n` falls on a character boundary within `s` (as `str::get(..n)` asks).
pub open spec fn prefix_of_bytes(s: Seq<char>, n: nat) -> Option<int> {
    if exists|k: int| 0 <= k <= s.len() && utf8_len(#[trigger] s.take(k)) == n {
        Some(choose|k: int| 0 <= k <= s.len() && utf8_len(#[trigger] s.take(k)) == n)
    } else {
        None
    }
}

/// The short hash shown for a candidate: the first 8 bytes after `btih:` in
/// its magnet link, or `????`.
pub open spec fn short_hash(magnet: Seq<char>) -> Seq<char> {
    match find(magnet, "btih:"@) {
        Some(i) => {
            let tail = magnet.skip(i + 5);
            match prefix_of_bytes(tail, 8) {
                Some(k) => tail.take(k),
                None => "????"@,
            }
        },
        None => "????"@,
    }
}

/// The attributes shown in a question: the version (`v1` at least), the
/// language, quality and codec.
pub open spec fn line_parts(c: Candidate) -> Seq<Seq<char>> {
    seq![if c.version > 1 { version_text(c.version) } else { seq!['v', '1'] }] + lang_part(c)
        + opt_part(c.quality) + opt_part(c.codec)
}

/// The line for the candidate at position `idx` in a question.
pub open spec fn spec_candidate_line(c: Candidate, idx: nat) -> Seq<char> {
    decimal(idx + 1) + " · "@ + join(line_parts(c), " · "@) + " · …"@ + short_hash(c.magnet@)
}

proof fn lemma_utf8_len_push(s: Seq<char>, c: char)
    ensures
        utf8_len(s.push(c)) == utf8_len(s) + utf8_width(c),
{
    assert(s.push(c).drop_last() =~= s);
}

proof fn lemma_utf8_len_mono(s: Seq<char>, a: int, b: int)
    requires
        0 <= a <= b <= s.len(),
    ensures
        utf8_len(s.take(a)) + (b - a) <= utf8_len(s.take(b)),
    decreases b - a,
{
    if a < b {
        lemma_utf8_len_mono(s, a, b - 1);
        assert(s.take(b).drop_last() =~= s.take(b - 1));
    }
}

/// The first 8 bytes of `t` as characters, when 8 falls on a character boundary.
fn take_bytes8(t: &[char]) -> (r: Option<usize>)
    ensures
        opt_usize(r) == prefix_of_bytes(t@, 8),
{
    let mut k: usize = 0;
    let mut n: u64 = 0;
    while k < t.len() && n < 8
        invariant
            k <= t.len(),
            n == utf8_len(t@.take(k as int)),
            n <= 12,
            forall|j: int| 0 <= j < k ==> utf8_len(#[trigger] t@.take(j)) < 8,
        decreases t.len() - k,
    {
        let u = t[k] as u32;
        let w: u64 = if u < 0x80 { 1 } else if u < 0x800 { 2 } else if u < 0x10000 { 3 } else { 4 };
        proof {
            assert(t@.take(k + 1) =~= t@.take(k as int).push(t@[k as int]));
            lemma_utf8_len_push(t@.take(k as int), t@[k as int]);
        }
        n = n + w;
        k = k + 1;
    }
    proof {
        assert forall|j: int| k < j <= t@.len() implies utf8_len(#[trigger] t@.take(j)) != 8 by {
            lemma_utf8_len_mono(t@, k as int, j);
        }
    }
    if n == 8 {
        Some(k)
    } else {
        proof {
            assert(!exists|j: int| 0 <= j <= t@.len() && utf8_len(#[trigger] t@.take(j)) == 8);
        }
        None
    }
}

pub open spec fn opt_usize(r: Option<usize>) -> Option<int> {
    match r {
        Some(x) => Some(x as int),
        None => None,
    }
}

/// One candidate in a conflict question: `1 · v2 · 简中 · 1080P · HEVC · …abcd1234`.
pub fn candidate_line(c: &Candidate, idx: usize) -> (r: String)
    requires
        idx < usize::MAX,
    ensures
        r@ == spec_candidate_line(*c, idx as nat),
{
    let mut parts: Vec<Vec<char>> = Vec::new();
    if c.version > 1 {
        push_part(&mut parts, version_chars(c.version));
    } else {
        let mut v1: Vec<char> = Vec::new();
        v1.push('v');
        v1.push('1');
        assert(v1@ =~= seq!['v', '1']);
        push_part(&mut parts, v1);
    }
    let ghost p1 = parts.deep_view();
    if !str_eq(c.lang.as_str(), "未知") {
        push_part(&mut parts, chars_of(c.lang.as_str()));
    }
    assert(parts.deep_view() =~= p1 + lang_part(*c));
    push_opt(&mut parts, &c.quality);
    push_opt(&mut parts, &c.codec);
    assert(parts.deep_view() =~= line_parts(*c));
    let mv = chars_of(c.magnet.as_str());
    let pat = chars_of("btih:");
    proof {
        reveal_strlit("btih:");
    }
    let mut hash = String::new();
    match find_chars(mv.as_slice(), pat.as_slice()) {
        Some(i) => {
            assert(pat@.len() == 5);
            assert(i + 5 <= mv.len());
            let mut tail: Vec<char> = Vec::new();
            let mut k: usize = i + 5;
            while k < mv.len()
                invariant
                    i + 5 <= k,
                    k <= mv.len(),
                    tail@ == mv@.subrange(i + 5, k as int),
                decreases mv.len() - k,
            {
                tail.push(mv[k]);
                k = k + 1;
                assert(tail@ =~= mv@.subrange(i + 5, k as int));
            }
            assert(tail@ =~= mv@.skip(i + 5));
            match take_bytes8(tail.as_slice()) {
                Some(n) => {
                    let mut j: usize = 0;
                    while j < n
                        invariant
                            j <= n <= tail.len(),
                            hash@ == tail@.take(j as int),
                        decreases n - j,
                    {
                        push_char(&mut hash, tail[j]);
                        j = j + 1;
                        assert(hash@ =~= tail@.take(j as int));
                    }
                },
                None => {
                    push_str(&mut hash, "????");
                },
            }
        },
        None => {
            push_str(&mut hash, "????");
        },
    }
    let mut out = String::new();
    let num = decimal_chars((idx + 1) as u64);
    push_chars(&mut out, num.as_slice());
    push_str(&mut out, " · ");
    let joined = join_chars(&parts, " · ");
    push_str(&mut out, joined.as_str());
    push_str(&mut out, " · …");
    push_str(&mut out, hash.as_str());
    out
}

} // verus!
