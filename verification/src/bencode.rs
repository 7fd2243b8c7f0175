//! A small bencode reader: finds a key of a top-level dictionary and hands
//! back the encoded bytes of its value (used to compute a torrent's infohash
//! from the `info` dictionary), without decoding the whole file.
use vstd::prelude::*;
use vstd::utf8::*;

verus! {

/// `Some(x as int)` for `Some(x)`.
pub open spec fn opt_int(r: Option<usize>) -> Option<int> {
    match r {
        Some(x) => Some(x as int),
        None => None,
    }
}

pub open spec fn is_digit(b: u8) -> bool {
    48 <= b <= 57
}

pub open spec fn all_digits(s: Seq<u8>) -> bool {
    forall|k: int| 0 <= k < s.len() ==> is_digit(#[trigger] s[k])
}

/// The value of a run of decimal digits.
pub open spec fn digits_value(s: Seq<u8>) -> nat
    decreases s.len(),
{
    if s.len() == 0 {
        0
    } else {
        digits_value(s.drop_last()) * 10 + (s.last() - 48) as nat
    }
}

/// What `usize::from_str` gives for these bytes read as text: an optional
/// `+`, then at least one decimal digit, and a value that fits in `usize`.
pub open spec fn spec_parse_usize(s: Seq<u8>) -> Option<nat> {
    let d = if s.len() > 0 && s[0] == 43u8 { s.drop_first() } else { s };
    if d.len() > 0 && all_digits(d) && digits_value(d) <= usize::MAX {
        Some(digits_value(d))
    } else {
        None
    }
}

/// The first position at or after `from` that holds `b`.
pub open spec fn find_byte(data: Seq<u8>, from: int, b: u8) -> Option<int>
    decreases data.len() - from,
{
    if from < 0 || from >= data.len() {
        None
    } else if data[from] == b {
        Some(from)
    } else {
        find_byte(data, from + 1, b)
    }
}

/// A bencode string `<len>:<bytes>` starting at `i`: the bounds
/// `(content start, end)` of its bytes.
pub open spec fn spec_parse_string(data: Seq<u8>, i: int) -> Option<(int, int)> {
    match find_byte(data, i, 58u8) {
        None => None,
        Some(c) => match spec_parse_usize(data.subrange(i, c)) {
            None => None,
            Some(n) => if c + 1 + n <= data.len() {
                Some((c + 1, c + 1 + n))
            } else {
                None
            },
        },
    }
}

/// The end of the bencode value starting at `i`: an integer runs to its `e`,
/// a list or a dictionary to the `e` after its items, anything else is read
/// as a string.
pub open spec fn spec_skip_value(data: Seq<u8>, i: int) -> Option<int>
    decreases data.len() - i, 0int,
{
    if i < 0 || i >= data.len() {
        None
    } else if data[i] == 105u8 {
        match find_byte(data, i, 101u8) {
            Some(e) => Some(e + 1),
            None => None,
        }
    } else if data[i] == 108u8 {
        spec_skip_list(data, i + 1)
    } else if data[i] == 100u8 {
        spec_skip_dict(data, i + 1)
    } else {
        match spec_parse_string(data, i) {
            Some((_, end)) => Some(end),
            None => None,
        }
    }
}

/// The end of the items of a list, from item position `j` on.
pub open spec fn spec_skip_list(data: Seq<u8>, j: int) -> Option<int>
    decreases data.len() - j, 1int,
{
    if j < 0 || j >= data.len() {
        None
    } else if data[j] == 101u8 {
        Some(j + 1)
    } else {
        match spec_skip_value(data, j) {
            Some(k) => if j < k <= data.len() {
                spec_skip_list(data, k)
            } else {
                None
            },
            None => None,
        }
    }
}

/// The end of the entries of a dictionary, from entry position `j` on.
pub open spec fn spec_skip_dict(data: Seq<u8>, j: int) -> Option<int>
    decreases data.len() - j, 1int,
{
    if j < 0 || j >= data.len() {
        None
    } else if data[j] == 101u8 {
        Some(j + 1)
    } else {
        match spec_parse_string(data, j) {
            None => None,
            Some((_, s)) => if j < s <= data.len() {
                match spec_skip_value(data, s) {
                    Some(k) => if s < k <= data.len() {
                        spec_skip_dict(data, k)
                    } else {
                        None
                    },
                    None => None,
                }
            } else {
                None
            },
        }
    }
}

proof fn lemma_find_byte(data: Seq<u8>, from: int, b: u8)
    ensures
        find_byte(data, from, b) matches Some(c) ==> {
            &&& from <= c < data.len()
            &&& data[c] == b
            &&& forall|k: int| from <= k < c ==> data[k] != b
        },
        find_byte(data, from, b) is None ==> forall|k: int|
            0 <= from <= k < data.len() ==> data[k] != b,
    decreases data.len() - from,
{
    if 0 <= from < data.len() && data[from] != b {
        lemma_find_byte(data, from + 1, b);
    }
}

proof fn lemma_parse_string_bounds(data: Seq<u8>, i: int)
    ensures
        spec_parse_string(data, i) matches Some((c, e)) ==> i < c <= e <= data.len(),
{
    lemma_find_byte(data, i, 58u8);
}

/// A value, a list tail or a dictionary tail ends after where it starts and
/// within the data.
proof fn lemma_skip_bounds(data: Seq<u8>, i: int)
    ensures
        spec_skip_value(data, i) matches Some(e) ==> i < e <= data.len(),
        spec_skip_list(data, i) matches Some(e) ==> i < e <= data.len(),
        spec_skip_dict(data, i) matches Some(e) ==> i < e <= data.len(),
    decreases data.len() - i,
{
    lemma_find_byte(data, i, 101u8);
    lemma_parse_string_bounds(data, i);
    if 0 <= i < data.len() {
        lemma_skip_bounds(data, i + 1);
        if let Some(k) = spec_skip_value(data, i) {
            if i < k <= data.len() {
                lemma_skip_bounds(data, k);
            }
        }
        if let Some((_, s)) = spec_parse_string(data, i) {
            if i < s <= data.len() {
                lemma_skip_bounds(data, s);
                if let Some(k) = spec_skip_value(data, s) {
                    if s < k <= data.len() {
                        lemma_skip_bounds(data, k);
                    }
                }
            }
        }
    }
}


proof fn lemma_digits_value_push(s: Seq<u8>, b: u8)
    ensures
        digits_value(s.push(b)) == digits_value(s) * 10 + (b - 48) as nat,
{
    assert(s.push(b).drop_last() =~= s);
}

proof fn lemma_digits_value_grows(s: Seq<u8>, k: int)
    requires
        0 <= k <= s.len(),
        all_digits(s),
    ensures
        digits_value(s.take(k)) <= digits_value(s),
    decreases s.len() - k,
{
    if k < s.len() {
        lemma_digits_value_grows(s, k + 1);
        assert(s.take(k + 1).drop_last() =~= s.take(k));
        assert(digits_value(s.take(k)) <= digits_value(s.take(k)) * 10) by (nonlinear_arith);
    } else {
        assert(s.take(k) =~= s);
    }
}

/// Reads `<digits>` (optionally after a `+`) as a `usize`, as
/// `std::str::from_utf8` followed by `usize::from_str` does.
fn parse_len(s: &[u8]) -> (r: Option<usize>)
    ensures
        opt_int(r) == match spec_parse_usize(s@) {
            Some(n) => Some(n as int),
            None => None,
        },
{
    let start: usize = if s.len() > 0 && s[0] == 43u8 { 1 } else { 0 };
    let ghost d = if s@.len() > 0 && s@[0] == 43u8 { s@.drop_first() } else { s@ };
    assert(d =~= s@.subrange(start as int, s@.len() as int));
    if start >= s.len() {
        return None;
    }
    let mut v: u128 = 0;
    let mut k: usize = start;
    while k < s.len()
        invariant
            start <= k <= s.len(),
            d =~= s@.subrange(start as int, s@.len() as int),
            d == (if s@.len() > 0 && s@[0] == 43u8 { s@.drop_first() } else { s@ }),
            d.len() > 0,
            all_digits(d.take(k - start)),
            v == digits_value(d.take(k - start)),
            v <= usize::MAX,
        decreases s.len() - k,
    {
        let b = s[k];
        assert(d[k - start] == b);
        if b < 48u8 || b > 57u8 {
            assert(!is_digit(d[k - start]));
            assert(!all_digits(d));
            return None;
        }
        proof {
            assert(d.take(k - start + 1) =~= d.take(k - start).push(b));
            lemma_digits_value_push(d.take(k - start), b);
            assert(v * 10 <= usize::MAX as u128 * 10) by (nonlinear_arith)
                requires v <= usize::MAX;
        }
        v = v * 10 + (b - 48u8) as u128;
        k = k + 1;
        if v > usize::MAX as u128 {
            proof {
                assert(all_digits(d.take(k - start)));
                if all_digits(d) {
                    lemma_digits_value_grows(d, k - start);
                    assert(digits_value(d) > usize::MAX);
                }
            }
            return None;
        }
    }
    assert(d.take(k - start) =~= d);
    Some(v as usize)
}

/// Reads the bencode string `<len>:<bytes>` at `i`: its end and its bytes.
fn parse_string(data: &[u8], i: usize) -> (r: Option<(usize, &[u8])>)
    requires
        i <= data.len(),
    ensures
        r is Some <==> spec_parse_string(data@, i as int) is Some,
        r matches Some((end, s)) ==> {
            let (c, e) = spec_parse_string(data@, i as int)->0;
            &&& end == e
            &&& s@ == data@.subrange(c, e)
        },
{
    proof {
        lemma_find_byte(data@, i as int, 58u8);
    }
    let mut k: usize = i;
    while k < data.len() && data[k] != 58u8
        invariant
            i <= k <= data.len(),
            forall|m: int| i <= m < k ==> data@[m] != 58u8,
        decreases data.len() - k,
    {
        k = k + 1;
    }
    if k >= data.len() {
        return None;
    }
    let colon = k;
    assert(find_byte(data@, i as int, 58u8) == Some(colon as int));
    let len = match parse_len(&data[i..colon]) {
        Some(n) => n,
        None => return None,
    };
    let content_start = colon + 1;
    let end = match content_start.checked_add(len) {
        Some(e) => e,
        None => return None,
    };
    if end > data.len() {
        return None;
    }
    Some((end, &data[content_start..end]))
}

/// The bounds `(start, end)` of the value at `i`.
fn value_bounds(data: &[u8], i: usize) -> (r: Option<(usize, usize)>)
    ensures
        r is Some <==> spec_skip_value(data@, i as int) is Some,
        r matches Some((s, e)) ==> s == i && Some(e as int) == spec_skip_value(data@, i as int),
{
    let end = match skip_value(data, i) {
        Some(e) => e,
        None => return None,
    };
    Some((i, end))
}

/// Skips the bencode value at `i` and returns where it ends.
fn skip_value(data: &[u8], i: usize) -> (r: Option<usize>)
    ensures
        opt_int(r) == spec_skip_value(data@, i as int),
    decreases data.len() - i,
{
    proof {
        lemma_skip_bounds(data@, i as int);
    }
    if i >= data.len() {
        return None;
    }
    let b = data[i];
    if b == 105u8 {
        proof {
            lemma_find_byte(data@, i as int, 101u8);
        }
        let mut k: usize = i;
        while k < data.len() && data[k] != 101u8
            invariant
                i <= k <= data.len(),
                forall|m: int| i <= m < k ==> data@[m] != 101u8,
            decreases data.len() - k,
        {
            k = k + 1;
        }
        if k >= data.len() {
            return None;
        }
        assert(find_byte(data@, i as int, 101u8) == Some(k as int));
        Some(k + 1)
    } else if b == 108u8 {
        let mut j: usize = i + 1;
        loop
            invariant
                i < j <= data.len(),
                spec_skip_value(data@, i as int) == spec_skip_list(data@, j as int),
            decreases data.len() - j,
        {
            proof {
                lemma_skip_bounds(data@, j as int);
            }
            if j >= data.len() {
                return None;
            }
            if data[j] == 101u8 {
                return Some(j + 1);
            }
            j = match skip_value(data, j) {
                Some(k) => k,
                None => return None,
            };
        }
    } else if b == 100u8 {
        let mut j: usize = i + 1;
        loop
            invariant
                i < j <= data.len(),
                spec_skip_value(data@, i as int) == spec_skip_dict(data@, j as int),
            decreases data.len() - j,
        {
            proof {
                lemma_skip_bounds(data@, j as int);
            }
            if j >= data.len() {
                return None;
            }
            if data[j] == 101u8 {
                return Some(j + 1);
            }
            let (slen, _) = match parse_string(data, j) {
                Some(p) => p,
                None => return None,
            };
            proof {
                lemma_parse_string_bounds(data@, j as int);
                lemma_skip_bounds(data@, slen as int);
            }
            j = match skip_value(data, slen) {
                Some(k) => k,
                None => return None,
            };
        }
    } else {
        match parse_string(data, i) {
            Some((end, _)) => Some(end),
            None => None,
        }
    }
}


/// Compares two byte strings.
fn bytes_eq(a: &[u8], b: &[u8]) -> (r: bool)
    ensures
        r == (a@ == b@),
{
    if a.len() != b.len() {
        return false;
    }
    let mut k: usize = 0;
    while k < a.len()
        invariant
            a.len() == b.len(),
            k <= a.len(),
            forall|m: int| 0 <= m < k ==> a@[m] == b@[m],
        decreases a.len() - k,
    {
        if a[k] != b[k] {
            return false;
        }
        k = k + 1;
    }
    assert(a@ =~= b@);
    true
}

/// `std::str::from_utf8`: the bytes read as text, when they are valid UTF-8.
#[verifier::external_body]
fn utf8_str(b: &[u8]) -> (r: Option<&str>)
    ensures
        r is Some <==> valid_utf8(b@),
        r matches Some(s) ==> s@ == decode_utf8(b@),
{
    std::str::from_utf8(b).ok()
}

/// Walks the entries of a dictionary from entry position `i`: the bounds of
/// the value of the first entry whose key is `key`.
pub open spec fn spec_dict_lookup(data: Seq<u8>, i: int, key: Seq<u8>) -> Option<(int, int)>
    decreases data.len() - i,
{
    if i < 0 || i >= data.len() {
        None
    } else {
        match spec_parse_string(data, i) {
            None => None,
            Some((c, s)) => match spec_skip_value(data, s) {
                None => None,
                Some(e) => if data.subrange(c, s) == key {
                    Some((s, e))
                } else if i < e <= data.len() {
                    spec_dict_lookup(data, e, key)
                } else {
                    None
                },
            },
        }
    }
}

/// The encoded value stored under `key` in the dictionary that `data` starts with.
pub open spec fn spec_dict_get(data: Seq<u8>, key: Seq<u8>) -> Option<Seq<u8>> {
    if data.len() == 0 || data[0] != 100u8 {
        None
    } else {
        match spec_dict_lookup(data, 1, key) {
            Some((s, e)) => Some(data.subrange(s, e)),
            None => None,
        }
    }
}

/// What a lookup finds is one whole encoded value as it lies in the data:
/// it starts after the key, and skipping one value from its start ends
/// exactly at its end.
pub proof fn law_lookup_is_whole_value(data: Seq<u8>, i: int, key: Seq<u8>)
    ensures
        spec_dict_lookup(data, i, key) matches Some((s, e)) ==> i < s < e <= data.len() && spec_skip_value(data, s)
            == Some(e),
    decreases data.len() - i,
{
    if 0 <= i < data.len() {
        lemma_parse_string_bounds(data, i);
        if let Some((c, s)) = spec_parse_string(data, i) {
            lemma_skip_bounds(data, s);
            if let Some(e) = spec_skip_value(data, s) {
                if data.subrange(c, s) != key && i < e <= data.len() {
                    law_lookup_is_whole_value(data, e, key);
                }
            }
        }
    }
}

/// Returns the encoded bytes of the value stored under `key` in the
/// top-level dictionary of `data`.
pub fn dict_get<'a>(data: &'a [u8], key: &[u8]) -> (r: Option<&'a [u8]>)
    ensures
        r is Some <==> spec_dict_get(data@, key@) is Some,
        r matches Some(v) ==> v@ == spec_dict_get(data@, key@)->0,
{
    if data.len() == 0 || data[0] != 100u8 {
        return None;
    }
    let mut i: usize = 1;
    while i < data.len()
        invariant
            1 <= i <= data.len(),
            data.len() > 0 && data@[0] == 100u8,
            spec_dict_lookup(data@, 1, key@) == spec_dict_lookup(data@, i as int, key@),
        decreases data.len() - i,
    {
        proof {
            lemma_parse_string_bounds(data@, i as int);
        }
        let (slen, sbytes) = match parse_string(data, i) {
            Some(p) => p,
            None => return None,
        };
        i = slen;
        proof {
            lemma_skip_bounds(data@, i as int);
        }
        let (vstart, vend) = match value_bounds(data, i) {
            Some(p) => p,
            None => return None,
        };
        if bytes_eq(sbytes, key) {
            return Some(&data[vstart..vend]);
        }
        i = vend;
    }
    None
}

/// Walks the entries of a dictionary from entry position `i`: the bytes of
/// the string stored under the first entry whose key is `key`.
pub open spec fn spec_dict_str_lookup(data: Seq<u8>, i: int, key: Seq<u8>) -> Option<Seq<u8>>
    decreases data.len() - i,
{
    if i < 0 || i >= data.len() {
        None
    } else {
        match spec_parse_string(data, i) {
            None => None,
            Some((c, s)) => if data.subrange(c, s) == key {
                match spec_parse_string(data, s) {
                    Some((c2, e2)) => Some(data.subrange(c2, e2)),
                    None => None,
                }
            } else {
                match spec_skip_value(data, s) {
                    None => None,
                    Some(e) => if i < e <= data.len() {
                        spec_dict_str_lookup(data, e, key)
                    } else {
                        None
                    },
                }
            },
        }
    }
}

/// The text of the string stored under `key` in the dictionary that `data`
/// starts with, when that string is valid UTF-8.
pub open spec fn spec_dict_get_str(data: Seq<u8>, key: Seq<u8>) -> Option<Seq<char>> {
    if data.len() == 0 || data[0] != 100u8 {
        None
    } else {
        match spec_dict_str_lookup(data, 1, key) {
            Some(b) => if valid_utf8(b) {
                Some(decode_utf8(b))
            } else {
                None
            },
            None => None,
        }
    }
}

proof fn lemma_string_is_value(data: Seq<u8>, s: int)
    ensures
        spec_parse_string(data, s) matches Some((c, e)) ==> spec_skip_value(data, s) == Some(e),
{
    lemma_find_byte(data, s, 58u8);
    if let Some((c, e)) = spec_parse_string(data, s) {
        let colon = find_byte(data, s, 58u8)->0;
        let d0 = data.subrange(s, colon);
        assert(d0.len() > 0);
        assert(d0[0] == data[s]);
        let d = if d0.len() > 0 && d0[0] == 43u8 { d0.drop_first() } else { d0 };
        if d0[0] != 43u8 {
            assert(is_digit(d[0]));
        }
    }
}

/// `v` is the encoding of the text `t` as a byte string: `<len>:<bytes>`,
/// the length being the number of bytes, and the bytes being `t` in UTF-8.
pub open spec fn string_value_of(v: Seq<u8>, t: Seq<char>) -> bool {
    exists|k: int|
        0 <= k < v.len() && v[k] == 58u8 && spec_parse_usize(#[trigger] v.take(k)) == Some((v.len() - k - 1) as nat)
            && valid_utf8(v.skip(k + 1)) && decode_utf8(v.skip(k + 1)) == t
}

proof fn lemma_str_lookup(data: Seq<u8>, i: int, key: Seq<u8>)
    ensures
        spec_dict_str_lookup(data, i, key) matches Some(b) ==> (match spec_dict_lookup(data, i, key) {
            Some((s, e)) => match spec_parse_string(data, s) {
                Some((c2, e2)) => e2 == e && b == data.subrange(c2, e),
                None => false,
            },
            None => false,
        }),
    decreases data.len() - i,
{
    if 0 <= i < data.len() {
        lemma_parse_string_bounds(data, i);
        if let Some((c, s)) = spec_parse_string(data, i) {
            lemma_string_is_value(data, s);
            if let Some(e) = spec_skip_value(data, s) {
                if data.subrange(c, s) != key && i < e <= data.len() {
                    lemma_str_lookup(data, e, key);
                }
            }
        }
    }
}

/// The text that `dict_get_str` reads under a key is the byte string that
/// `dict_get` returns for that key, decoded: that value is `<len>:<bytes>`,
/// where `len` is the number of bytes and the text is the bytes read as
/// UTF-8.
pub proof fn law_str_is_decoded_value(data: Seq<u8>, key: Seq<u8>)
    ensures
        (match spec_dict_get_str(data, key) {
            Some(t) => match spec_dict_get(data, key) {
                Some(v) => string_value_of(v, t),
                None => false,
            },
            None => true,
        }),
{
    if data.len() > 0 && data[0] == 100u8 {
        lemma_str_lookup(data, 1, key);
        if let Some(b) = spec_dict_str_lookup(data, 1, key) {
            let (s, e) = spec_dict_lookup(data, 1, key)->0;
            let (c2, e2) = spec_parse_string(data, s)->0;
            lemma_find_byte(data, s, 58u8);
            lemma_parse_string_bounds(data, s);
            law_lookup_is_whole_value(data, 1, key);
            let v = data.subrange(s, e);
            let k = c2 - 1 - s;
            assert(v[k] == data[c2 - 1]);
            assert(v.take(k) =~= data.subrange(s, c2 - 1));
            assert(v.skip(k + 1) =~= b);
            let colon = find_byte(data, s, 58u8)->0;
            assert(colon == c2 - 1);
            let n = spec_parse_usize(data.subrange(s, colon))->0;
            assert(e2 == c2 + n);
            assert(spec_parse_usize(v.take(k)) == Some((v.len() - k - 1) as nat));
            assert(spec_dict_get(data, key) == Some(v));
            if valid_utf8(b) {
                assert(spec_dict_get_str(data, key) == Some(decode_utf8(b)));
                assert(0 <= k < v.len() && v[k] == 58u8 && spec_parse_usize(v.take(k)) == Some((v.len() - k - 1) as nat)
                    && valid_utf8(v.skip(k + 1)) && decode_utf8(v.skip(k + 1)) == decode_utf8(b));
                assert(string_value_of(v, decode_utf8(b)));
            }
        }
    }
}

/// Returns the decoded text of the string value stored under `key` in the
/// top-level dictionary (such as `announce`).
pub fn dict_get_str<'a>(data: &'a [u8], key: &[u8]) -> (r: Option<&'a str>)
    ensures
        r is Some <==> spec_dict_get_str(data@, key@) is Some,
        r matches Some(v) ==> v@ == spec_dict_get_str(data@, key@)->0,
{
    if data.len() == 0 || data[0] != 100u8 {
        return None;
    }
    let mut i: usize = 1;
    while i < data.len()
        invariant
            1 <= i <= data.len(),
            data.len() > 0 && data@[0] == 100u8,
            spec_dict_str_lookup(data@, 1, key@) == spec_dict_str_lookup(data@, i as int, key@),
        decreases data.len() - i,
    {
        proof {
            lemma_parse_string_bounds(data@, i as int);
        }
        let (slen, sbytes) = match parse_string(data, i) {
            Some(p) => p,
            None => return None,
        };
        if bytes_eq(sbytes, key) {
            let (_, content) = match parse_string(data, slen) {
                Some(p) => p,
                None => return None,
            };
            return utf8_str(content);
        }
        i = slen;
        proof {
            lemma_skip_bounds(data@, i as int);
        }
        let (_, ve) = match value_bounds(data, i) {
            Some(p) => p,
            None => return None,
        };
        i = ve;
    }
    None
}


/// The strings of an inner list from position `k` on, up to its `e`: their
/// texts, and the position of that `e`.
pub open spec fn spec_inner_strings(data: Seq<u8>, k: int) -> Option<(Seq<Seq<char>>, int)>
    decreases data.len() - k,
{
    if 0 <= k < data.len() && data[k] == 101u8 {
        Some((seq![], k))
    } else {
        match spec_parse_string(data, k) {
            None => None,
            Some((c, e)) => if k < e <= data.len() && valid_utf8(data.subrange(c, e)) {
                match spec_inner_strings(data, e) {
                    Some((rest, end)) => Some((seq![decode_utf8(data.subrange(c, e))] + rest, end)),
                    None => None,
                }
            } else {
                None
            },
        }
    }
}

/// The strings of the inner lists of an outer list, from item position `j`
/// on; items that are not lists are skipped.
pub open spec fn spec_outer_strings(data: Seq<u8>, j: int) -> Option<Seq<Seq<char>>>
    decreases data.len() - j,
{
    if 0 <= j < data.len() && data[j] == 101u8 {
        Some(seq![])
    } else if 0 <= j < data.len() && data[j] == 108u8 {
        match spec_inner_strings(data, j + 1) {
            None => None,
            Some((strs, end)) => if j < end < data.len() {
                match spec_outer_strings(data, end + 1) {
                    Some(rest) => Some(strs + rest),
                    None => None,
                }
            } else {
                None
            },
        }
    } else {
        match spec_skip_value(data, j) {
            Some(k) => if j < k <= data.len() {
                spec_outer_strings(data, k)
            } else {
                None
            },
            None => None,
        }
    }
}

/// The strings of a list of lists of strings (such as `announce-list`) that starts at `i`.
pub open spec fn spec_list_of_lists_strings(data: Seq<u8>, i: int) -> Option<Seq<Seq<char>>> {
    if 0 <= i < data.len() && data[i] == 108u8 {
        spec_outer_strings(data, i + 1)
    } else {
        None
    }
}

proof fn lemma_inner_bounds(data: Seq<u8>, k: int)
    ensures
        spec_inner_strings(data, k) matches Some((_, end)) ==> k <= end < data.len() && data[end] == 101u8,
    decreases data.len() - k,
{
    if !(0 <= k < data.len() && data[k] == 101u8) {
        if let Some((c, e)) = spec_parse_string(data, k) {
            if k < e <= data.len() {
                lemma_inner_bounds(data, e);
            }
        }
    }
}

/// Reads a list of lists of strings (such as `announce-list`) whose outer
/// `l` is at `i`, and returns all inner strings in order.
pub fn list_of_lists_strings(data: &[u8], i: usize) -> (r: Option<Vec<String>>)
    ensures
        r is Some <==> spec_list_of_lists_strings(data@, i as int) is Some,
        r matches Some(v) ==> v.deep_view() == spec_list_of_lists_strings(data@, i as int)->0,
{
    if !(i < data.len() && data[i] == 108u8) {
        return None;
    }
    let mut j: usize = i + 1;
    let mut out: Vec<String> = Vec::new();
    let ghost total = spec_list_of_lists_strings(data@, i as int);
    loop
        invariant
            j <= data.len(),
            total == spec_list_of_lists_strings(data@, i as int),
            total is Some <==> spec_outer_strings(data@, j as int) is Some,
            total is Some ==> total->0 == out.deep_view() + spec_outer_strings(data@, j as int)->0,
        decreases data.len() - j,
    {
        if j < data.len() && data[j] == 101u8 {
            assert(out.deep_view() + seq![] =~= out.deep_view());
            return Some(out);
        }
        if j < data.len() && data[j] == 108u8 {
            let mut k: usize = j + 1;
            let ghost inner = spec_inner_strings(data@, j + 1);
            let ghost before = out.deep_view();
            loop
                invariant
                    j < k <= data.len(),
                    j < data.len() && data@[j as int] == 108u8,
                    inner == spec_inner_strings(data@, j + 1),
                    inner is Some <==> spec_inner_strings(data@, k as int) is Some,
                    inner is Some ==> {
                        &&& (inner->0).1 == (spec_inner_strings(data@, k as int)->0).1
                        &&& (inner->0).0 == out.deep_view().subrange(before.len() as int, out.deep_view().len() as int) + (spec_inner_strings(data@, k as int)->0).0
                    },
                    before.len() <= out.deep_view().len(),
                    before == out.deep_view().subrange(0, before.len() as int),
                    total == spec_list_of_lists_strings(data@, i as int),
                    total is Some <==> spec_outer_strings(data@, j as int) is Some,
                    total is Some ==> total->0 == before + spec_outer_strings(data@, j as int)->0,
                    j <= data.len(),
                ensures
                    k < data.len() && data@[k as int] == 101u8,
                decreases data.len() - k,
            {
                if k < data.len() && data[k] == 101u8 {
                    break;
                }
                proof {
                    lemma_parse_string_bounds(data@, k as int);
                }
                let (end, sb) = match parse_string(data, k) {
                    Some(p) => p,
                    None => return None,
                };
                let st = match utf8_str(sb) {
                    Some(t) => t,
                    None => return None,
                };
                let ghost prev = out.deep_view();
                out.push(st.to_owned());
                proof {
                    assert(out.deep_view() =~= prev.push(decode_utf8(sb@)));
                    assert(out.deep_view().subrange(before.len() as int, out.deep_view().len() as int)
                        =~= prev.subrange(before.len() as int, prev.len() as int).push(decode_utf8(sb@)));
                    assert(out.deep_view().subrange(0, before.len() as int)
                        =~= prev.subrange(0, before.len() as int));
                }
                k = end;
            }
            proof {
                lemma_inner_bounds(data@, (j + 1) as int);
            }
            j = k + 1;
            proof {
                if total is Some {
                    assert(out.deep_view() =~= before + (inner->0).0);
                }
            }
        } else {
            proof {
                lemma_skip_bounds(data@, j as int);
            }
            j = match skip_value(data, j) {
                Some(k) => k,
                None => return None,
            };
        }
    }
}

} // verus!
