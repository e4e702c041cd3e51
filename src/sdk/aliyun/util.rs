//! Request signing (ACS3-HMAC-SHA256) and response classification shared by
//! the Aliyun products.
use vstd::prelude::*;
use vstd::string::StringSliceAdditionalSpecFns;

use crate::util::{
    all_ascii, ascii_string, bytes_lt, compare_bytes, lemma_bytes_lt_irreflexive,
    lemma_bytes_lt_ne, lemma_bytes_lt_total, lemma_bytes_lt_transitive,
};

verus! {

broadcast use vstd::utf8::encode_utf8_decode_utf8;

/// API credentials.
#[derive(Debug)]
pub struct Secret {
    pub secret_id: String,
    pub secret_key: String,
}

/// Common response: the answer's fields beside its request id.
#[derive(Debug)]
pub struct CommonResponse<T> {
    pub request_id: String,
    pub response: T,
}

/// An empty answer.
#[derive(Debug)]
pub struct Empty {}

// ---------------------------------------------------------------------------
// Percent encoding
/// Letters, digits, `-`, `_`, `.` and `~` stand for themselves.
pub open spec fn is_unreserved(b: u8) -> bool {
    (65 <= b <= 90) || (97 <= b <= 122) || (48 <= b <= 57) || b == 45 || b == 95 || b == 46
        || b == 126
}

/// The uppercase hexadecimal digit of a value below 16, as a byte.
pub open spec fn hex_upper(d: int) -> u8 {
    if d < 10 {
        (48 + d) as u8
    } else {
        (55 + d) as u8
    }
}

/// One byte encoded: itself when unreserved, else `%` and two uppercase digits.
pub open spec fn percent_byte(b: u8) -> Seq<u8> {
    if is_unreserved(b) {
        seq![b]
    } else {
        seq![37u8, hex_upper(b as int / 16), hex_upper(b as int % 16)]
    }
}

/// A byte string encoded byte by byte.
pub open spec fn percent_encoded(s: Seq<u8>) -> Seq<u8>
    decreases s.len(),
{
    if s.len() == 0 {
        seq![]
    } else {
        percent_encoded(s.drop_last()) + percent_byte(s.last())
    }
}

/// Bytes read as characters, one each.
pub open spec fn byte_chars(b: Seq<u8>) -> Seq<char> {
    b.map_values(|x: u8| x as char)
}

proof fn lemma_percent_byte_ascii(b: u8)
    ensures
        all_ascii(percent_byte(b)),
{
}

proof fn lemma_percent_encoded_ascii(s: Seq<u8>)
    ensures
        all_ascii(percent_encoded(s)),
    decreases s.len(),
{
    if s.len() > 0 {
        lemma_percent_encoded_ascii(s.drop_last());
        lemma_percent_byte_ascii(s.last());
    }
}

/// Encoding distributes over concatenation.
pub proof fn lemma_percent_encoded_concat(a: Seq<u8>, b: Seq<u8>)
    ensures
        percent_encoded(a + b) == percent_encoded(a) + percent_encoded(b),
    decreases b.len(),
{
    if b.len() == 0 {
        assert(a + b =~= a);
        assert(percent_encoded(a) + percent_encoded(b) =~= percent_encoded(a));
    } else {
        assert((a + b).drop_last() =~= a + b.drop_last());
        lemma_percent_encoded_concat(a, b.drop_last());
        assert(percent_encoded(a + b) =~= percent_encoded(a) + percent_encoded(b));
    }
}

/// Each byte is encoded on its own: an unreserved byte is kept, every other
/// byte becomes `%` and two uppercase hexadecimal digits; and a string is
/// encoded as the concatenation of its bytes' encodings.
pub proof fn lemma_percent_code_exemption(b: u8, s: Seq<u8>, t: Seq<u8>)
    ensures
        is_unreserved(b) ==> percent_encoded(seq![b]) == seq![b],
        !is_unreserved(b) ==> percent_encoded(seq![b]) == seq![
            37u8,
            hex_upper(b as int / 16),
            hex_upper(b as int % 16),
        ],
        !is_unreserved(b) ==> 48 <= hex_upper(b as int / 16) <= 57 || 65 <= hex_upper(
            b as int / 16,
        ) <= 70,
        !is_unreserved(b) ==> 48 <= hex_upper(b as int % 16) <= 57 || 65 <= hex_upper(
            b as int % 16,
        ) <= 70,
        percent_encoded(s + t) == percent_encoded(s) + percent_encoded(t),
{
    lemma_percent_encoded_single(b);
    lemma_percent_encoded_concat(s, t);
}

proof fn lemma_percent_encoded_single(b: u8)
    ensures
        percent_encoded(seq![b]) == percent_byte(b),
{
    let s = seq![b];
    assert(s.drop_last() =~= Seq::<u8>::empty());
    assert(s.last() == b);
    assert(percent_encoded(s.drop_last()) == Seq::<u8>::empty());
    assert(percent_encoded(s) =~= percent_byte(b));
}

proof fn lemma_percent_encoded_first(s: Seq<u8>)
    requires
        s.len() > 0,
    ensures
        percent_encoded(s) == percent_byte(s[0]) + percent_encoded(s.drop_first()),
{
    assert(s =~= seq![s[0]] + s.drop_first());
    lemma_percent_encoded_concat(seq![s[0]], s.drop_first());
    lemma_percent_encoded_single(s[0]);
}

/// Different byte strings have different encodings.
pub proof fn lemma_percent_encoded_injective(a: Seq<u8>, b: Seq<u8>)
    requires
        percent_encoded(a) == percent_encoded(b),
    ensures
        a == b,
    decreases a.len(),
{
    if a.len() == 0 {
        if b.len() > 0 {
            lemma_percent_encoded_first(b);
            assert(percent_encoded(b).len() > 0);
        }
        assert(a =~= b);
    } else if b.len() == 0 {
        lemma_percent_encoded_first(a);
        assert(percent_encoded(a).len() > 0);
    } else {
        lemma_percent_encoded_first(a);
        lemma_percent_encoded_first(b);
        let ea = percent_encoded(a);
        let pa = percent_byte(a[0]);
        let pb = percent_byte(b[0]);
        assert(ea[0] == pa[0] && ea[0] == pb[0]);
        if is_unreserved(a[0]) {
            assert(a[0] == b[0]);
        } else {
            assert(ea[1] == pa[1] && ea[1] == pb[1]);
            assert(ea[2] == pa[2] && ea[2] == pb[2]);
            assert(a[0] == b[0]) by (nonlinear_arith)
                requires
                    hex_upper(a[0] as int / 16) == hex_upper(b[0] as int / 16),
                    hex_upper(a[0] as int % 16) == hex_upper(b[0] as int % 16),
                    0 <= a[0] < 256,
                    0 <= b[0] < 256,
            ;
        }
        assert(percent_encoded(a).skip(pa.len() as int) =~= percent_encoded(a.drop_first()));
        assert(percent_encoded(b).skip(pb.len() as int) =~= percent_encoded(b.drop_first()));
        lemma_percent_encoded_injective(a.drop_first(), b.drop_first());
        assert(a =~= seq![a[0]] + a.drop_first());
        assert(b =~= seq![b[0]] + b.drop_first());
    }
}

fn percent_bytes(s: &[u8]) -> (r: Vec<u8>)
    ensures
        r@ == percent_encoded(s@),
        all_ascii(r@),
{
    let mut r: Vec<u8> = Vec::new();
    let mut i: usize = 0;
    while i < s.len()
        invariant
            0 <= i <= s@.len(),
            r@ == percent_encoded(s@.take(i as int)),
        decreases s@.len() - i,
    {
        let b = s[i];
        assert(s@.take(i + 1).drop_last() =~= s@.take(i as int));
        if (65 <= b && b <= 90) || (97 <= b && b <= 122) || (48 <= b && b <= 57) || b == 45 || b
            == 95 || b == 46 || b == 126 {
            r.push(b);
        } else {
            let hi = b / 16;
            let lo = b % 16;
            r.push(37);
            r.push(
                if hi < 10 {
                    48 + hi
                } else {
                    55 + hi
                },
            );
            r.push(
                if lo < 10 {
                    48 + lo
                } else {
                    55 + lo
                },
            );
        }
        assert(r@ =~= percent_encoded(s@.take(i + 1)));
        i = i + 1;
    }
    assert(s@.take(s@.len() as int) =~= s@);
    proof {
        lemma_percent_encoded_ascii(s@);
    }
    r
}

/// Percent-encodes the UTF-8 bytes of `encode_str`: letters, digits, `-`,
/// `_`, `.` and `~` stay, every other byte becomes `%XX` with uppercase
/// hexadecimal digits (so a space becomes `%20`).
pub fn percent_code(encode_str: &str) -> (r: String)
    ensures
        r@ == byte_chars(percent_encoded(encode_str.spec_bytes())),
{
    let b = percent_bytes(encode_str.as_bytes());
    ascii_string(b)
}

} // verus!

verus! {

// ---------------------------------------------------------------------------
// Canonical query string
/// The parameters as text values.
pub open spec fn param_views(ps: Seq<(&str, &str)>) -> Seq<(Seq<char>, Seq<char>)> {
    ps.map_values(|p: (&str, &str)| (p.0@, p.1@))
}

/// Each key and value percent-encoded from its UTF-8 bytes.
pub open spec fn encoded_pairs(ps: Seq<(Seq<char>, Seq<char>)>) -> Seq<(Seq<u8>, Seq<u8>)> {
    ps.map_values(
        |p: (Seq<char>, Seq<char>)|
            (
                percent_encoded(vstd::utf8::encode_utf8(p.0)),
                percent_encoded(vstd::utf8::encode_utf8(p.1)),
            ),
    )
}

/// The pairs as a map; of two pairs with one key the later one counts.
pub open spec fn pairs_map(es: Seq<(Seq<u8>, Seq<u8>)>) -> Map<Seq<u8>, Seq<u8>>
    decreases es.len(),
{
    if es.len() == 0 {
        Map::empty()
    } else {
        pairs_map(es.drop_last()).insert(es.last().0, es.last().1)
    }
}

/// Keys strictly ascending.
pub open spec fn strictly_sorted(es: Seq<(Seq<u8>, Seq<u8>)>) -> bool {
    forall|i: int, j: int|
        0 <= i < j < es.len() ==> bytes_lt(#[trigger] es[i].0, #[trigger] es[j].0)
}

/// The pairs are exactly the entries of `m`.
pub open spec fn lists_map(es: Seq<(Seq<u8>, Seq<u8>)>, m: Map<Seq<u8>, Seq<u8>>) -> bool {
    &&& forall|i: int|
        0 <= i < es.len() ==> m.contains_key(#[trigger] es[i].0) && m[es[i].0] == es[i].1
    &&& forall|k: Seq<u8>|
        #[trigger] m.contains_key(k) ==> exists|i: int| 0 <= i < es.len() && (#[trigger] es[i]).0 == k
}

/// The entries of `m` by ascending key.
pub open spec fn sorted_entries(m: Map<Seq<u8>, Seq<u8>>) -> Seq<(Seq<u8>, Seq<u8>)> {
    choose|es: Seq<(Seq<u8>, Seq<u8>)>| strictly_sorted(es) && lists_map(es, m)
}

/// `key=value` for each pair, joined by `&`.
pub open spec fn joined_query(es: Seq<(Seq<u8>, Seq<u8>)>) -> Seq<u8>
    decreases es.len(),
{
    if es.len() == 0 {
        seq![]
    } else {
        let sep: Seq<u8> = if es.len() == 1 {
            seq![]
        } else {
            seq![38u8]
        };
        joined_query(es.drop_last()) + sep + es.last().0 + seq![61u8] + es.last().1
    }
}

/// The canonical query string of a parameter list: each key and value
/// percent-encoded, one pair per key (the last given), sorted by encoded
/// key, written `key=value` and joined by `&`.
pub open spec fn canonical_query(ps: Seq<(Seq<char>, Seq<char>)>) -> Seq<char> {
    byte_chars(joined_query(sorted_entries(pairs_map(encoded_pairs(ps)))))
}

/// Two sorted listings of one map are the same.
pub proof fn lemma_sorted_listing_unique(
    a: Seq<(Seq<u8>, Seq<u8>)>,
    b: Seq<(Seq<u8>, Seq<u8>)>,
    m: Map<Seq<u8>, Seq<u8>>,
)
    requires
        strictly_sorted(a),
        strictly_sorted(b),
        lists_map(a, m),
        lists_map(b, m),
    ensures
        a == b,
    decreases a.len(),
{
    if a.len() == 0 {
        if b.len() > 0 {
            assert(m.contains_key(b[0].0));
        }
        assert(a =~= b);
    } else if b.len() == 0 {
        assert(m.contains_key(a[0].0));
    } else {
        let ka = a[0].0;
        let kb = b[0].0;
        assert(m.contains_key(ka));
        assert(m.contains_key(kb));
        let j = choose|j: int| 0 <= j < b.len() && (#[trigger] b[j]).0 == ka;
        let i = choose|i: int| 0 <= i < a.len() && (#[trigger] a[i]).0 == kb;
        if ka != kb {
            assert(j != 0 && i != 0);
            assert(bytes_lt(b[0].0, b[j].0));
            assert(bytes_lt(a[0].0, a[i].0));
            lemma_bytes_lt_total(ka, kb);
        }
        assert(a[0] == b[0]);
        let m2 = m.remove(ka);
        let a2 = a.drop_first();
        let b2 = b.drop_first();
        assert forall|t: int| 0 <= t < a2.len() implies m2.contains_key(#[trigger] a2[t].0)
            && m2[a2[t].0] == a2[t].1 by {
            assert(a2[t] == a[t + 1]);
            assert(bytes_lt(a[0].0, a[t + 1].0));
            lemma_bytes_lt_ne(a[0].0, a[t + 1].0);
        }
        assert forall|k: Seq<u8>| #[trigger] m2.contains_key(k) implies exists|t: int|
            0 <= t < a2.len() && (#[trigger] a2[t]).0 == k by {
            assert(m.contains_key(k));
            let t = choose|t: int| 0 <= t < a.len() && (#[trigger] a[t]).0 == k;
            assert(t != 0);
            assert(a2[t - 1] == a[t]);
        }
        assert forall|t: int| 0 <= t < b2.len() implies m2.contains_key(#[trigger] b2[t].0)
            && m2[b2[t].0] == b2[t].1 by {
            assert(b2[t] == b[t + 1]);
            assert(bytes_lt(b[0].0, b[t + 1].0));
            lemma_bytes_lt_ne(b[0].0, b[t + 1].0);
        }
        assert forall|k: Seq<u8>| #[trigger] m2.contains_key(k) implies exists|t: int|
            0 <= t < b2.len() && (#[trigger] b2[t]).0 == k by {
            assert(m.contains_key(k));
            let t = choose|t: int| 0 <= t < b.len() && (#[trigger] b[t]).0 == k;
            assert(t != 0);
            assert(b2[t - 1] == b[t]);
        }
        assert forall|x: int, y: int| 0 <= x < y < a2.len() implies bytes_lt(
            #[trigger] a2[x].0,
            #[trigger] a2[y].0,
        ) by {
            assert(a2[x] == a[x + 1] && a2[y] == a[y + 1]);
        }
        assert forall|x: int, y: int| 0 <= x < y < b2.len() implies bytes_lt(
            #[trigger] b2[x].0,
            #[trigger] b2[y].0,
        ) by {
            assert(b2[x] == b[x + 1] && b2[y] == b[y + 1]);
        }
        lemma_sorted_listing_unique(a2, b2, m2);
        assert(a =~= seq![a[0]] + a2);
        assert(b =~= seq![b[0]] + b2);
    }
}

/// The views of the exec entries.
pub open spec fn entry_views(v: Seq<(Vec<u8>, Vec<u8>)>) -> Seq<(Seq<u8>, Seq<u8>)> {
    v.map_values(|e: (Vec<u8>, Vec<u8>)| (e.0@, e.1@))
}

/// The listing with `(k, v)` put at position `j`: replacing the entry
/// there when it has key `k`, else inserted before it.
pub open spec fn put_at(
    e: Seq<(Seq<u8>, Seq<u8>)>,
    k: Seq<u8>,
    v: Seq<u8>,
    j: int,
) -> Seq<(Seq<u8>, Seq<u8>)> {
    if j < e.len() && e[j].0 == k {
        e.update(j, (k, v))
    } else {
        e.insert(j, (k, v))
    }
}

/// Putting a pair at the place of its key keeps a listing sorted, lists the
/// map with that pair set, and adds no other pair.
proof fn lemma_put_at(e: Seq<(Seq<u8>, Seq<u8>)>, kv: Seq<u8>, vv: Seq<u8>, j: int)
    requires
        strictly_sorted(e),
        0 <= j <= e.len(),
        forall|t: int| 0 <= t < j ==> bytes_lt(#[trigger] e[t].0, kv),
        j < e.len() ==> !bytes_lt(e[j].0, kv),
    ensures
        strictly_sorted(put_at(e, kv, vv, j)),
        forall|m: Map<Seq<u8>, Seq<u8>>|
            lists_map(e, m) ==> lists_map(put_at(e, kv, vv, j), #[trigger] m.insert(kv, vv)),
        forall|t: int|
            0 <= t < put_at(e, kv, vv, j).len() ==> (#[trigger] put_at(e, kv, vv, j)[t] == (kv, vv)
                || exists|s: int| 0 <= s < e.len() && put_at(e, kv, vv, j)[t] == #[trigger] e[s]),
{
    let e2 = put_at(e, kv, vv, j);
    if j < e.len() && e[j].0 == kv {
        assert forall|m: Map<Seq<u8>, Seq<u8>>| lists_map(e, m) implies lists_map(
            e2,
            #[trigger] m.insert(kv, vv),
        ) by {
            assert forall|t: int| 0 <= t < e2.len() && t != j implies e2[t].0 != kv by {
                if t < j {
                    assert(bytes_lt(e[t].0, e[j].0));
                    lemma_bytes_lt_ne(e[t].0, e[j].0);
                } else {
                    assert(bytes_lt(e[j].0, e[t].0));
                    lemma_bytes_lt_ne(e[j].0, e[t].0);
                }
            }
            assert forall|key: Seq<u8>| #[trigger] m.insert(kv, vv).contains_key(key) implies exists|
                t: int,
            | 0 <= t < e2.len() && (#[trigger] e2[t]).0 == key by {
                if key == kv {
                    assert(e2[j].0 == key);
                } else {
                    assert(m.contains_key(key));
                    let t = choose|t: int| 0 <= t < e.len() && (#[trigger] e[t]).0 == key;
                    assert(e2[t].0 == key);
                }
            }
        }
        assert forall|x: int, y: int| 0 <= x < y < e2.len() implies bytes_lt(
            #[trigger] e2[x].0,
            #[trigger] e2[y].0,
        ) by {
            assert(bytes_lt(e[x].0, e[y].0));
        }
        assert forall|t: int| 0 <= t < e2.len() implies (#[trigger] e2[t] == (kv, vv) || exists|
            s: int,
        | 0 <= s < e.len() && e2[t] == #[trigger] e[s]) by {
            if t != j {
                assert(e2[t] == e[t]);
            }
        }
    } else {
        if j < e.len() {
            lemma_bytes_lt_total(e[j].0, kv);
        }
        assert forall|t: int| j < t < e2.len() implies bytes_lt(kv, #[trigger] e2[t].0) by {
            assert(e2[t] == e[t - 1]);
            if t - 1 > j {
                assert(bytes_lt(e[j].0, e[t - 1].0));
                lemma_bytes_lt_transitive(kv, e[j].0, e[t - 1].0);
            }
        }
        assert forall|x: int, y: int| 0 <= x < y < e2.len() implies bytes_lt(
            #[trigger] e2[x].0,
            #[trigger] e2[y].0,
        ) by {
            if y < j {
                assert(e2[x] == e[x] && e2[y] == e[y]);
            } else if y == j {
                assert(e2[x] == e[x]);
            } else if x < j {
                assert(e2[x] == e[x] && e2[y] == e[y - 1]);
                lemma_bytes_lt_transitive(e[x].0, kv, e[y - 1].0);
            } else if x == j {
            } else {
                assert(e2[x] == e[x - 1] && e2[y] == e[y - 1]);
            }
        }
        assert forall|m: Map<Seq<u8>, Seq<u8>>| lists_map(e, m) implies lists_map(
            e2,
            #[trigger] m.insert(kv, vv),
        ) by {
            assert forall|t: int| 0 <= t < e2.len() && t != j implies e2[t].0 != kv by {
                if t < j {
                    lemma_bytes_lt_ne(e2[t].0, kv);
                } else {
                    lemma_bytes_lt_ne(kv, e2[t].0);
                }
            }
            assert forall|t: int| 0 <= t < e2.len() && t != j implies e2[t] == (if t < j {
                e[t]
            } else {
                e[t - 1]
            }) by {}
            assert forall|key: Seq<u8>| #[trigger] m.insert(kv, vv).contains_key(key) implies exists|
                t: int,
            | 0 <= t < e2.len() && (#[trigger] e2[t]).0 == key by {
                if key == kv {
                    assert(e2[j].0 == key);
                } else {
                    assert(m.contains_key(key));
                    let t = choose|t: int| 0 <= t < e.len() && (#[trigger] e[t]).0 == key;
                    if t < j {
                        assert(e2[t].0 == key);
                    } else {
                        assert(e2[t + 1].0 == key);
                    }
                }
            }
        }
        assert forall|t: int| 0 <= t < e2.len() implies (#[trigger] e2[t] == (kv, vv) || exists|
            s: int,
        | 0 <= s < e.len() && e2[t] == #[trigger] e[s]) by {
            if t < j {
                assert(e2[t] == e[t]);
            } else if t > j {
                assert(e2[t] == e[t - 1]);
            }
        }
    }
}

/// Inserts one encoded pair into a sorted listing, replacing the value of an
/// equal key.
fn insert_sorted(entries: &mut Vec<(Vec<u8>, Vec<u8>)>, k: Vec<u8>, v: Vec<u8>)
    requires
        strictly_sorted(entry_views(old(entries)@)),
    ensures
        strictly_sorted(entry_views(final(entries)@)),
        forall|m: Map<Seq<u8>, Seq<u8>>|
            lists_map(entry_views(old(entries)@), m) ==> lists_map(
                entry_views(final(entries)@),
                #[trigger] m.insert(k@, v@),
            ),
        forall|t: int|
            0 <= t < final(entries)@.len() ==> (#[trigger] entry_views(final(entries)@)[t] == (
            k@,
            v@,
        ) || exists|s: int|
            0 <= s < old(entries)@.len() && entry_views(final(entries)@)[t] == #[trigger] entry_views(
                old(entries)@,
            )[s]),
{
    let ghost e = entry_views(entries@);
    let mut j: usize = 0;
    while j < entries.len() && compare_bytes(entries[j].0.as_slice(), k.as_slice()) < 0
        invariant
            0 <= j <= entries@.len(),
            e == entry_views(entries@),
            forall|t: int| 0 <= t < j ==> bytes_lt(#[trigger] e[t].0, k@),
        decreases entries@.len() - j,
    {
        j = j + 1;
    }
    let ghost kv = k@;
    let ghost vv = v@;
    proof {
        lemma_put_at(e, kv, vv, j as int);
    }
    if j < entries.len() && compare_bytes(entries[j].0.as_slice(), k.as_slice()) == 0 {
        entries.set(j, (k, v));
        assert(entry_views(entries@) =~= put_at(e, kv, vv, j as int));
    } else {
        entries.insert(j, (k, v));
        assert(entry_views(entries@) =~= put_at(e, kv, vv, j as int));
    }
}

} // verus!

verus! {

fn join_entries(entries: &Vec<(Vec<u8>, Vec<u8>)>) -> (r: Vec<u8>)
    requires
        forall|t: int|
            0 <= t < entries@.len() ==> all_ascii((#[trigger] entries@[t]).0@) && all_ascii(
                entries@[t].1@,
            ),
    ensures
        r@ == joined_query(entry_views(entries@)),
        all_ascii(r@),
{
    let ghost e = entry_views(entries@);
    let mut out: Vec<u8> = Vec::new();
    let mut i: usize = 0;
    while i < entries.len()
        invariant
            0 <= i <= entries@.len(),
            e == entry_views(entries@),
            out@ == joined_query(e.take(i as int)),
            all_ascii(out@),
            forall|t: int|
                0 <= t < entries@.len() ==> all_ascii((#[trigger] entries@[t]).0@) && all_ascii(
                    entries@[t].1@,
                ),
        decreases entries@.len() - i,
    {
        let ghost before = out@;
        if i > 0 {
            out.push(38);
        }
        let key = &entries[i].0;
        let value = &entries[i].1;
        let mut t: usize = 0;
        while t < key.len()
            invariant
                0 <= t <= key@.len(),
                out@ == (if i > 0 { before.push(38u8) } else { before }) + key@.take(t as int),
                all_ascii(out@),
                all_ascii(key@),
            decreases key@.len() - t,
        {
            out.push(key[t]);
            assert(out@ =~= (if i > 0 { before.push(38u8) } else { before }) + key@.take(t + 1));
            t = t + 1;
        }
        out.push(61);
        let ghost mid = out@;
        t = 0;
        while t < value.len()
            invariant
                0 <= t <= value@.len(),
                out@ == mid + value@.take(t as int),
                all_ascii(out@),
                all_ascii(value@),
            decreases value@.len() - t,
        {
            out.push(value[t]);
            assert(out@ =~= mid + value@.take(t + 1));
            t = t + 1;
        }
        assert(e.take(i + 1).drop_last() =~= e.take(i as int));
        assert(key@.take(key@.len() as int) =~= key@);
        assert(value@.take(value@.len() as int) =~= value@);
        assert(out@ =~= joined_query(e.take(i + 1)));
        i = i + 1;
    }
    assert(e.take(entries@.len() as int) =~= e);
    out
}

/// Builds the canonical query string of `query_params`: each key and value
/// percent-encoded (see [`percent_code`]), one pair per key (the last one
/// given), sorted by encoded key, written `key=value` and joined by `&`.
pub fn build_sored_encoded_query_string(query_params: &[(&str, &str)]) -> (r: String)
    ensures
        r@ == canonical_query(param_views(query_params@)),
{
    let ghost enc = encoded_pairs(param_views(query_params@));
    let mut entries: Vec<(Vec<u8>, Vec<u8>)> = Vec::new();
    let mut i: usize = 0;
    while i < query_params.len()
        invariant
            0 <= i <= query_params@.len(),
            enc == encoded_pairs(param_views(query_params@)),
            strictly_sorted(entry_views(entries@)),
            lists_map(entry_views(entries@), pairs_map(enc.take(i as int))),
            forall|t: int|
                0 <= t < entries@.len() ==> all_ascii((#[trigger] entries@[t]).0@) && all_ascii(
                    entries@[t].1@,
                ),
        decreases query_params@.len() - i,
    {
        let (key, value) = query_params[i];
        let k = percent_bytes(key.as_bytes());
        let v = percent_bytes(value.as_bytes());
        assert(enc.take(i + 1).drop_last() =~= enc.take(i as int));
        assert(enc.take(i + 1).last() == (k@, v@));
        let ghost old_entries = entries@;
        let ghost ka = k@;
        let ghost va = v@;
        insert_sorted(&mut entries, k, v);
        assert(pairs_map(enc.take(i + 1)) == pairs_map(enc.take(i as int)).insert(ka, va));
        assert forall|t: int| 0 <= t < entries@.len() implies all_ascii(
            (#[trigger] entries@[t]).0@,
        ) && all_ascii(entries@[t].1@) by {
            assert(entry_views(entries@)[t] == (entries@[t].0@, entries@[t].1@));
            if entry_views(entries@)[t] != (ka, va) {
                let s = choose|s: int|
                    0 <= s < old_entries.len() && entry_views(entries@)[t]
                        == #[trigger] entry_views(old_entries)[s];
                assert(entry_views(old_entries)[s] == (old_entries[s].0@, old_entries[s].1@));
            }
        }
        i = i + 1;
    }
    assert(enc.take(query_params@.len() as int) =~= enc);
    let ghost m = pairs_map(enc);
    proof {
        let es = entry_views(entries@);
        assert(strictly_sorted(es) && lists_map(es, m));
        let chosen = sorted_entries(m);
        assert(strictly_sorted(chosen) && lists_map(chosen, m));
        lemma_sorted_listing_unique(es, chosen, m);
    }
    let out = join_entries(&entries);
    ascii_string(out)
}

} // verus!

verus! {

/// No key appears twice.
pub open spec fn distinct_keys(ps: Seq<(Seq<char>, Seq<char>)>) -> bool {
    forall|i: int, j: int| 0 <= i < j < ps.len() ==> (#[trigger] ps[i]).0 != (#[trigger] ps[j]).0
}

proof fn lemma_pairs_map_distinct(es: Seq<(Seq<u8>, Seq<u8>)>)
    requires
        forall|i: int, j: int|
            0 <= i < j < es.len() ==> (#[trigger] es[i]).0 != (#[trigger] es[j]).0,
    ensures
        forall|k: Seq<u8>|
            #[trigger] pairs_map(es).contains_key(k) <==> exists|i: int|
                0 <= i < es.len() && (#[trigger] es[i]).0 == k,
        forall|i: int| 0 <= i < es.len() ==> pairs_map(es)[(#[trigger] es[i]).0] == es[i].1,
    decreases es.len(),
{
    if es.len() > 0 {
        let d = es.drop_last();
        assert forall|i: int, j: int| 0 <= i < j < d.len() implies (#[trigger] d[i]).0 != (
        #[trigger] d[j]).0 by {
            assert(d[i] == es[i] && d[j] == es[j]);
        }
        lemma_pairs_map_distinct(d);
        assert(pairs_map(es) == pairs_map(d).insert(es.last().0, es.last().1));
        assert forall|k: Seq<u8>| #[trigger] pairs_map(es).contains_key(k) <==> exists|i: int|
            0 <= i < es.len() && (#[trigger] es[i]).0 == k by {
            if pairs_map(es).contains_key(k) && k != es.last().0 {
                assert(pairs_map(d).contains_key(k));
                let i = choose|i: int| 0 <= i < d.len() && (#[trigger] d[i]).0 == k;
                assert(es[i] == d[i]);
            }
            if exists|i: int| 0 <= i < es.len() && (#[trigger] es[i]).0 == k {
                let i = choose|i: int| 0 <= i < es.len() && (#[trigger] es[i]).0 == k;
                if i < es.len() - 1 {
                    assert(d[i] == es[i]);
                }
            }
        }
        assert forall|i: int| 0 <= i < es.len() implies pairs_map(es)[(#[trigger] es[i]).0]
            == es[i].1 by {
            if i < es.len() - 1 {
                assert(d[i] == es[i]);
                assert(es[i].0 != es[es.len() - 1].0);
            }
        }
    }
}

/// Reordering the parameters leaves the canonical query string as it is:
/// two lists of the same (key, value) pairs, each without a repeated key,
/// give the same string.
pub proof fn lemma_query_string_order_free(
    p: Seq<(Seq<char>, Seq<char>)>,
    q: Seq<(Seq<char>, Seq<char>)>,
)
    requires
        distinct_keys(p),
        distinct_keys(q),
        p.to_set() == q.to_set(),
    ensures
        canonical_query(p) == canonical_query(q),
{
    let ep = encoded_pairs(p);
    let eq = encoded_pairs(q);
    assert forall|i: int, j: int| 0 <= i < j < ep.len() implies (#[trigger] ep[i]).0 != (
    #[trigger] ep[j]).0 by {
        assert(p[i].0 != p[j].0);
        assert(vstd::utf8::decode_utf8(vstd::utf8::encode_utf8(p[i].0)) == p[i].0);
        assert(vstd::utf8::decode_utf8(vstd::utf8::encode_utf8(p[j].0)) == p[j].0);
        if ep[i].0 == ep[j].0 {
            lemma_percent_encoded_injective(
                vstd::utf8::encode_utf8(p[i].0),
                vstd::utf8::encode_utf8(p[j].0),
            );
        }
    }
    assert forall|i: int, j: int| 0 <= i < j < eq.len() implies (#[trigger] eq[i]).0 != (
    #[trigger] eq[j]).0 by {
        assert(q[i].0 != q[j].0);
        assert(vstd::utf8::decode_utf8(vstd::utf8::encode_utf8(q[i].0)) == q[i].0);
        assert(vstd::utf8::decode_utf8(vstd::utf8::encode_utf8(q[j].0)) == q[j].0);
        if eq[i].0 == eq[j].0 {
            lemma_percent_encoded_injective(
                vstd::utf8::encode_utf8(q[i].0),
                vstd::utf8::encode_utf8(q[j].0),
            );
        }
    }
    lemma_pairs_map_distinct(ep);
    lemma_pairs_map_distinct(eq);
    let mp = pairs_map(ep);
    let mq = pairs_map(eq);
    assert forall|i: int| 0 <= i < p.len() implies exists|j: int|
        0 <= j < q.len() && q[j] == #[trigger] p[i] by {
        assert(p.contains(p[i]));
        assert(p.to_set().contains(p[i]));
        assert(q.contains(p[i]));
    }
    assert forall|j: int| 0 <= j < q.len() implies exists|i: int|
        0 <= i < p.len() && p[i] == #[trigger] q[j] by {
        assert(q.contains(q[j]));
        assert(q.to_set().contains(q[j]));
        assert(p.contains(q[j]));
    }
    assert forall|k: Seq<u8>| #[trigger] mp.contains_key(k) implies mq.contains_key(k) && mp[k]
        == mq[k] by {
        let i = choose|i: int| 0 <= i < ep.len() && (#[trigger] ep[i]).0 == k;
        let j = choose|j: int| 0 <= j < q.len() && q[j] == #[trigger] p[i];
        assert(eq[j] == ep[i]);
    }
    assert forall|k: Seq<u8>| #[trigger] mq.contains_key(k) implies mp.contains_key(k) by {
        let j = choose|j: int| 0 <= j < eq.len() && (#[trigger] eq[j]).0 == k;
        let i = choose|i: int| 0 <= i < p.len() && p[i] == #[trigger] q[j];
        assert(ep[i] == eq[j]);
    }
    assert(mp =~= mq);
}

} // verus!

verus! {

// ---------------------------------------------------------------------------
// Products and signing
/// Machine Type
#[derive(Debug, Clone, Copy, PartialEq, Eq, Structural)]
pub enum MachineType {
    /// SAS instance
    Sas,
    /// ECS instance
    Ecs,
}

/// The API host of a product in a region.
pub open spec fn service_host(mt: MachineType, region: Seq<char>) -> Seq<char> {
    match mt {
        MachineType::Sas => "swas."@ + region + ".aliyuncs.com"@,
        MachineType::Ecs => "ecs."@ + region + ".aliyuncs.com"@,
    }
}

/// The API version of a product.
pub open spec fn service_version(mt: MachineType) -> Seq<char> {
    match mt {
        MachineType::Sas => "2020-06-01"@,
        MachineType::Ecs => "2014-05-26"@,
    }
}

impl MachineType {
    /// Returns (endpoint, version)
    pub fn service_info(&self, region_id: &str) -> (r: (String, &'static str))
        ensures
            r.0@ == service_host(*self, region_id@),
            r.1@ == service_version(*self),
    {
        match self {
            MachineType::Sas => {
                let mut host = String::from_str("swas.");
                host.append(region_id);
                host.append(".aliyuncs.com");
                (host, "2020-06-01")
            },
            MachineType::Ecs => {
                let mut host = String::from_str("ecs.");
                host.append(region_id);
                host.append(".aliyuncs.com");
                (host, "2014-05-26")
            },
        }
    }
}

/// The names of the signed headers, joined by `;`.
pub const SIGNED_HEADERS: &'static str =
    "host;x-acs-action;x-acs-content-sha256;x-acs-date;x-acs-signature-nonce;x-acs-version";

/// The content type of every request.
pub const CONTENT_TYPE: &'static str = "application/json; charset=utf-8";

/// The canonical request that the signature covers.
pub open spec fn canonical_request(
    query: Seq<char>,
    host: Seq<char>,
    action: Seq<char>,
    hashed_payload: Seq<char>,
    date: Seq<char>,
    nonce: Seq<char>,
    version: Seq<char>,
) -> Seq<char> {
    "POST\n/\n"@ + query + "\n"@ + "host:"@ + host + "\nx-acs-action:"@ + action
        + "\nx-acs-content-sha256:"@ + hashed_payload + "\nx-acs-date:"@ + date
        + "\nx-acs-signature-nonce:"@ + nonce + "\nx-acs-version:"@ + version + "\n\n"@
        + SIGNED_HEADERS@ + "\n"@ + hashed_payload
}

/// The lowercase hexadecimal SHA-256 digest of the UTF-8 form of a text.
pub open spec fn sha256_hex_of(s: Seq<char>) -> Seq<char> {
    crate::util::hex_lower(crate::util::sha256_of(vstd::utf8::encode_utf8(s)))
}

/// The signature of a canonical request: hexadecimal HMAC-SHA256, under the
/// secret key, of `ACS3-HMAC-SHA256\n` and the canonical request's digest.
pub open spec fn signature(secret_key: Seq<char>, canonical: Seq<char>) -> Seq<char> {
    crate::util::hex_lower(
        crate::util::hmac_sha256_of(
            vstd::utf8::encode_utf8(secret_key),
            vstd::utf8::encode_utf8("ACS3-HMAC-SHA256\n"@ + sha256_hex_of(canonical)),
        ),
    )
}

/// The `Authorization` header value.
pub open spec fn authorization(secret_id: Seq<char>, sig: Seq<char>) -> Seq<char> {
    "ACS3-HMAC-SHA256 Credential="@ + secret_id + ",SignedHeaders="@ + SIGNED_HEADERS@
        + ",Signature="@ + sig
}

/// The headers of a signed request, in the order they are set.
pub open spec fn request_headers(
    mt: MachineType,
    region: Seq<char>,
    secret_id: Seq<char>,
    secret_key: Seq<char>,
    action: Seq<char>,
    params: Seq<(Seq<char>, Seq<char>)>,
    date: Seq<char>,
    nonce: Seq<char>,
) -> Seq<(Seq<char>, Seq<char>)> {
    let host = service_host(mt, region);
    let version = service_version(mt);
    let hashed = sha256_hex_of(""@);
    let canonical = canonical_request(canonical_query(params), host, action, hashed, date, nonce, version);
    seq![
        ("Host"@, host),
        ("Content-Type"@, CONTENT_TYPE@),
        ("x-acs-action"@, action),
        ("x-acs-version"@, version),
        ("x-acs-date"@, date),
        ("x-acs-signature-nonce"@, nonce),
        ("x-acs-content-sha256"@, hashed),
        ("Authorization"@, authorization(secret_id, signature(secret_key, canonical))),
    ]
}

/// `r` is the outcome of signing the request of `action` with `params`:
/// the signed `POST` request when the date exists and every header value is
/// accepted, else the error that says which failed.
pub open spec fn signed_as(
    r: Result<crate::sdk::request::SignedRequest, crate::sdk::request::RequestError>,
    mt: MachineType,
    region: Seq<char>,
    secret: Secret,
    action: Seq<char>,
    params: Seq<(Seq<char>, Seq<char>)>,
    body: Seq<char>,
    timestamp: i64,
    nonce: Seq<char>,
) -> bool {
    let date = crate::util::utc_format_of(timestamp as int, crate::util::DATE_TIME_PATTERN@);
    let headers = request_headers(
        mt,
        region,
        secret.secret_id@,
        secret.secret_key@,
        action,
        params,
        date->0,
        nonce,
    );
    match r {
        Ok(req) => {
            &&& date is Some
            &&& crate::sdk::request::headers_ok(headers)
            &&& req.method == crate::sdk::request::HttpMethod::Post
            &&& req.url@ == "https://"@ + service_host(mt, region) + "/"@
            &&& crate::util::pair_views(req.headers@) == headers
            &&& crate::util::pair_views(req.query@) == params
            &&& req.body@ == body
        },
        Err(e) => if date is None {
            e == crate::sdk::request::RequestError::TimestampOutOfRange
        } else {
            e == crate::sdk::request::RequestError::InvalidHeaderValue
                && !crate::sdk::request::headers_ok(headers)
        },
    }
}

/// What a request is made of.
#[derive(Debug)]
pub struct BasicRequest<'a> {
    pub machine_type: MachineType,
    pub region_id: &'a str,
    pub secret: &'a Secret,
    pub action: &'a str,
    pub params: &'a [(&'a str, &'a str)],
    pub body: &'a str,
}

fn owned_pairs(params: &[(&str, &str)]) -> (r: Vec<(String, String)>)
    ensures
        crate::util::pair_views(r@) == param_views(params@),
{
    let mut r: Vec<(String, String)> = Vec::new();
    let mut i: usize = 0;
    while i < params.len()
        invariant
            0 <= i <= params@.len(),
            crate::util::pair_views(r@) == param_views(params@).take(i as int),
        decreases params@.len() - i,
    {
        let ghost before = r@;
        let k = params[i].0.to_owned();
        let v = params[i].1.to_owned();
        assert((k@, v@) == param_views(params@)[i as int]);
        r.push((k, v));
        assert(crate::util::pair_views(r@) =~= crate::util::pair_views(before).push(
            param_views(params@)[i as int],
        ));
        assert(param_views(params@).take(i + 1) =~= param_views(params@).take(i as int).push(
            param_views(params@)[i as int],
        ));
        i = i + 1;
    }
    assert(param_views(params@).take(params@.len() as int) =~= param_views(params@));
    r
}

/// ### Sign a request (ACS3-HMAC-SHA256)
///
/// Builds the `POST https://{host}/` request of an action: the canonical
/// query string of the parameters, the date `timestamp` seconds after the
/// epoch, and `nonce` are signed with the secret key. Fails when chrono
/// cannot represent the timestamp, or when a header value holds a byte that
/// HTTP refuses.
pub fn request_builder(basic_request: BasicRequest<'_>, timestamp: i64, nonce: &str) -> (r: Result<
    crate::sdk::request::SignedRequest,
    crate::sdk::request::RequestError,
>)
    ensures
        signed_as(
            r,
            basic_request.machine_type,
            basic_request.region_id@,
            *basic_request.secret,
            basic_request.action@,
            param_views(basic_request.params@),
            basic_request.body@,
            timestamp,
            nonce@,
        ),
{
    let (host, version) = basic_request.machine_type.service_info(basic_request.region_id);
    let canonical_query_string = build_sored_encoded_query_string(basic_request.params);
    let hashed_request_payload = crate::util::sha256_hex("");
    let date = match crate::util::format_utc(timestamp, crate::util::DATE_TIME_PATTERN) {
        Some(d) => d,
        None => {
            return Err(crate::sdk::request::RequestError::TimestampOutOfRange);
        },
    };
    let mut canonical = String::from_str("POST\n/\n");
    canonical.append(canonical_query_string.as_str());
    canonical.append("\n");
    canonical.append("host:");
    canonical.append(host.as_str());
    canonical.append("\nx-acs-action:");
    canonical.append(basic_request.action);
    canonical.append("\nx-acs-content-sha256:");
    canonical.append(hashed_request_payload.as_str());
    canonical.append("\nx-acs-date:");
    canonical.append(date.as_str());
    canonical.append("\nx-acs-signature-nonce:");
    canonical.append(nonce);
    canonical.append("\nx-acs-version:");
    canonical.append(version);
    canonical.append("\n\n");
    canonical.append(SIGNED_HEADERS);
    canonical.append("\n");
    canonical.append(hashed_request_payload.as_str());

    let digest = crate::util::sha256_hex(canonical.as_str());
    let mut string_to_sign = String::from_str("ACS3-HMAC-SHA256\n");
    string_to_sign.append(digest.as_str());
    let code = crate::util::hmac256(
        basic_request.secret.secret_key.as_str().as_bytes(),
        string_to_sign.as_str(),
    );
    let data_sign = crate::util::hex_encode(code.as_slice());
    let mut auth_data = String::from_str("ACS3-HMAC-SHA256 Credential=");
    auth_data.append(basic_request.secret.secret_id.as_str());
    auth_data.append(",SignedHeaders=");
    auth_data.append(SIGNED_HEADERS);
    auth_data.append(",Signature=");
    auth_data.append(data_sign.as_str());

    let mut headers: Vec<(String, String)> = Vec::new();
    crate::sdk::request::push_header(&mut headers, "Host", host.as_str());
    crate::sdk::request::push_header(&mut headers, "Content-Type", CONTENT_TYPE);
    crate::sdk::request::push_header(&mut headers, "x-acs-action", basic_request.action);
    crate::sdk::request::push_header(&mut headers, "x-acs-version", version);
    crate::sdk::request::push_header(&mut headers, "x-acs-date", date.as_str());
    crate::sdk::request::push_header(&mut headers, "x-acs-signature-nonce", nonce);
    crate::sdk::request::push_header(
        &mut headers,
        "x-acs-content-sha256",
        hashed_request_payload.as_str(),
    );
    crate::sdk::request::push_header(&mut headers, "Authorization", auth_data.as_str());
    assert(crate::util::pair_views(headers@) =~= request_headers(
        basic_request.machine_type,
        basic_request.region_id@,
        basic_request.secret.secret_id@,
        basic_request.secret.secret_key@,
        basic_request.action@,
        param_views(basic_request.params@),
        date@,
        nonce@,
    ));
    if !crate::sdk::request::check_headers(&headers) {
        return Err(crate::sdk::request::RequestError::InvalidHeaderValue);
    }
    let mut url = String::from_str("https://");
    url.append(host.as_str());
    url.append("/");
    Ok(
        crate::sdk::request::SignedRequest {
            method: crate::sdk::request::HttpMethod::Post,
            url,
            headers,
            query: owned_pairs(basic_request.params),
            body: basic_request.body.to_owned(),
        },
    )
}

} // verus!

verus! {

/// A character of a signature nonce: an uppercase letter or a digit.
pub open spec fn is_nonce_char(c: char) -> bool {
    ('A' <= c && c <= 'Z') || ('0' <= c && c <= '9')
}

/// The nonce character of a drawn index below 36: `A` to `Z` for 0 to 25,
/// `0` to `9` for 26 to 35.
pub open spec fn nonce_char(k: int) -> char {
    if k < 26 {
        (65 + k) as char
    } else {
        (48 + (k - 26)) as char
    }
}

/// The nonce that drawn indices spell.
pub open spec fn nonce_text(draws: Seq<usize>) -> Seq<char> {
    draws.map_values(|k: usize| nonce_char(k as int))
}

/// Indices that a nonce may be drawn from: 32 of them, each below 36.
pub open spec fn admissible_draws(draws: Seq<usize>) -> bool {
    draws.len() == 32 && forall|i: int| 0 <= i < 32 ==> #[trigger] draws[i] < 36
}

/// The nonce spelled by 32 drawn indices below 36.
pub fn nonce_from_draws(draws: &[usize]) -> (r: String)
    requires
        admissible_draws(draws@),
    ensures
        r@ == nonce_text(draws@),
        r@.len() == 32,
        forall|i: int| 0 <= i < r@.len() ==> is_nonce_char(#[trigger] r@[i]),
{
    let mut b: Vec<u8> = Vec::new();
    let mut i: usize = 0;
    while i < 32
        invariant
            0 <= i <= 32,
            admissible_draws(draws@),
            b@.len() == i,
            forall|j: int| 0 <= j < i ==> (#[trigger] b@[j]) as char == nonce_char(draws@[j] as int),
            forall|j: int| 0 <= j < i ==> (65 <= #[trigger] b@[j] <= 90) || (48 <= b@[j] <= 57),
        decreases 32 - i,
    {
        let k = draws[i];
        assert(k < 36);
        if k < 26 {
            b.push(65 + k as u8);
        } else {
            b.push(48 + (k - 26) as u8);
        }
        i = i + 1;
    }
    let r = ascii_string(b);
    assert(r@ =~= nonce_text(draws@));
    r
}

/// A fresh random signature nonce: 32 indices below 36 drawn at random,
/// spelled as uppercase letters and digits.
pub fn generate_nonce() -> (r: String)
    ensures
        exists|draws: Seq<usize>| admissible_draws(draws) && r@ == nonce_text(draws),
        r@.len() == 32,
        forall|i: int| 0 <= i < r@.len() ==> is_nonce_char(#[trigger] r@[i]),
{
    let mut draws: Vec<usize> = Vec::new();
    let mut i: usize = 0;
    while i < 32
        invariant
            0 <= i <= 32,
            draws@.len() == i,
            forall|j: int| 0 <= j < i ==> #[trigger] draws@[j] < 36,
        decreases 32 - i,
    {
        draws.push(crate::util::random_below(36));
        i = i + 1;
    }
    nonce_from_draws(draws.as_slice())
}

} // verus!

verus! {

// ---------------------------------------------------------------------------
// Responses
/// An answer is an error when its `RequestId`, `Code` and `Message` are all
/// strings.
pub open spec fn error_fields(v: crate::json::JsonValue) -> Option<
    (Seq<char>, Seq<char>, Seq<char>),
> {
    match (
        crate::json::str_field(v, "RequestId"@),
        crate::json::str_field(v, "Code"@),
        crate::json::str_field(v, "Message"@),
    ) {
        (Some(id), Some(code), Some(message)) => Some((id, code, message)),
        _ => None,
    }
}

/// The error that an answer reports, if it reports one: when `RequestId`,
/// `Code` and `Message` are all strings, whatever else the answer holds.
pub fn to_error_response(response: &crate::json::JsonValue) -> (r: Option<crate::SdkError>)
    ensures
        match r {
            Some(e) => error_fields(*response) == Some((e.request_id@, e.code@, e.message@)),
            None => error_fields(*response) is None,
        },
{
    let request_id = match crate::json::get_str(response, "RequestId") {
        Some(s) => s,
        None => {
            return None;
        },
    };
    let code = match crate::json::get_str(response, "Code") {
        Some(s) => s,
        None => {
            return None;
        },
    };
    let message = match crate::json::get_str(response, "Message") {
        Some(s) => s,
        None => {
            return None;
        },
    };
    Some(crate::SdkError { request_id, code, message })
}

} // verus!

verus! {

/// Signing is reproducible: two requests signed from the same secret,
/// parameters, timestamp and nonce either both fail the same way or are
/// both built, with the same headers (so the same signature).
pub proof fn lemma_signing_reproducible(
    r1: Result<crate::sdk::request::SignedRequest, crate::sdk::request::RequestError>,
    r2: Result<crate::sdk::request::SignedRequest, crate::sdk::request::RequestError>,
    mt: MachineType,
    region: Seq<char>,
    secret: Secret,
    action: Seq<char>,
    params: Seq<(Seq<char>, Seq<char>)>,
    body: Seq<char>,
    timestamp: i64,
    nonce: Seq<char>,
)
    requires
        signed_as(r1, mt, region, secret, action, params, body, timestamp, nonce),
        signed_as(r2, mt, region, secret, action, params, body, timestamp, nonce),
    ensures
        r1 is Ok <==> r2 is Ok,
        r1 is Err ==> r1 == r2,
        r1 is Ok ==> crate::util::pair_views(r1->Ok_0.headers@) == crate::util::pair_views(
            r2->Ok_0.headers@,
        ),
{
}

} // verus!

verus! {

/// The first position whose key does not come before `k`.
pub open spec fn key_position(e: Seq<(Seq<u8>, Seq<u8>)>, k: Seq<u8>) -> int
    decreases e.len(),
{
    if e.len() == 0 {
        0
    } else if bytes_lt(e[0].0, k) {
        1 + key_position(e.drop_first(), k)
    } else {
        0
    }
}

proof fn lemma_key_position(e: Seq<(Seq<u8>, Seq<u8>)>, k: Seq<u8>)
    ensures
        0 <= key_position(e, k) <= e.len(),
        forall|t: int| 0 <= t < key_position(e, k) ==> bytes_lt(#[trigger] e[t].0, k),
        key_position(e, k) < e.len() ==> !bytes_lt(e[key_position(e, k)].0, k),
    decreases e.len(),
{
    if e.len() > 0 && bytes_lt(e[0].0, k) {
        let d = e.drop_first();
        lemma_key_position(d, k);
        assert forall|t: int| 0 <= t < key_position(e, k) implies bytes_lt(#[trigger] e[t].0, k) by {
            if t > 0 {
                assert(e[t] == d[t - 1]);
            }
        }
        if key_position(e, k) < e.len() {
            assert(e[key_position(e, k)] == d[key_position(d, k)]);
        }
    }
}

/// Every list of pairs has a sorted listing of its map.
proof fn lemma_listing_exists(es: Seq<(Seq<u8>, Seq<u8>)>)
    ensures
        exists|l: Seq<(Seq<u8>, Seq<u8>)>| strictly_sorted(l) && lists_map(l, pairs_map(es)),
    decreases es.len(),
{
    if es.len() == 0 {
        let l = Seq::<(Seq<u8>, Seq<u8>)>::empty();
        assert(strictly_sorted(l) && lists_map(l, pairs_map(es)));
    } else {
        lemma_listing_exists(es.drop_last());
        let l = choose|l: Seq<(Seq<u8>, Seq<u8>)>|
            strictly_sorted(l) && lists_map(l, pairs_map(es.drop_last()));
        let (k, v) = es.last();
        lemma_key_position(l, k);
        lemma_put_at(l, k, v, key_position(l, k));
        let l2 = put_at(l, k, v, key_position(l, k));
        assert(pairs_map(es) == pairs_map(es.drop_last()).insert(k, v));
        assert(strictly_sorted(l2) && lists_map(l2, pairs_map(es)));
    }
}

proof fn lemma_encoded_keys_distinct(p: Seq<(Seq<char>, Seq<char>)>)
    requires
        distinct_keys(p),
    ensures
        forall|i: int, j: int|
            0 <= i < j < encoded_pairs(p).len() ==> (#[trigger] encoded_pairs(p)[i]).0 != (
            #[trigger] encoded_pairs(p)[j]).0,
{
    let ep = encoded_pairs(p);
    assert forall|i: int, j: int| 0 <= i < j < ep.len() implies (#[trigger] ep[i]).0 != (
    #[trigger] ep[j]).0 by {
        assert(p[i].0 != p[j].0);
        assert(vstd::utf8::decode_utf8(vstd::utf8::encode_utf8(p[i].0)) == p[i].0);
        assert(vstd::utf8::decode_utf8(vstd::utf8::encode_utf8(p[j].0)) == p[j].0);
        if ep[i].0 == ep[j].0 {
            lemma_percent_encoded_injective(
                vstd::utf8::encode_utf8(p[i].0),
                vstd::utf8::encode_utf8(p[j].0),
            );
        }
    }
}

/// For parameters without a repeated key, the canonical query string is the
/// percent-encoded `key=value` of every parameter, joined by `&` in strictly
/// ascending order of encoded key: each parameter appears once, and nothing
/// else appears.
pub proof fn lemma_query_string_lists_each_pair(q: Seq<(Seq<char>, Seq<char>)>)
    requires
        distinct_keys(q),
    ensures
        ({
            let enc = encoded_pairs(q);
            let es = sorted_entries(pairs_map(enc));
            &&& strictly_sorted(es)
            &&& canonical_query(q) == byte_chars(joined_query(es))
            &&& forall|i: int|
                #![trigger enc[i]]
                0 <= i < enc.len() ==> exists|j: int| 0 <= j < es.len() && #[trigger] es[j] == enc[i]
            &&& forall|j: int|
                #![trigger es[j]]
                0 <= j < es.len() ==> exists|i: int| 0 <= i < enc.len() && es[j] == #[trigger] enc[i]
        }),
{
    let enc = encoded_pairs(q);
    let m = pairs_map(enc);
    let es = sorted_entries(m);
    assert(strictly_sorted(es) && lists_map(es, m)) by {
        lemma_listing_exists(enc);
    }
    assert(forall|i: int, j: int|
        0 <= i < j < enc.len() ==> (#[trigger] enc[i]).0 != (#[trigger] enc[j]).0) by {
        lemma_encoded_keys_distinct(q);
    }
    lemma_listing_is_pairs(enc, es);
}

proof fn lemma_listing_is_pairs(enc: Seq<(Seq<u8>, Seq<u8>)>, es: Seq<(Seq<u8>, Seq<u8>)>)
    requires
        forall|i: int, j: int|
            0 <= i < j < enc.len() ==> (#[trigger] enc[i]).0 != (#[trigger] enc[j]).0,
        lists_map(es, pairs_map(enc)),
    ensures
        forall|i: int|
            #![trigger enc[i]]
            0 <= i < enc.len() ==> exists|j: int| 0 <= j < es.len() && #[trigger] es[j] == enc[i],
        forall|j: int|
            #![trigger es[j]]
            0 <= j < es.len() ==> exists|i: int| 0 <= i < enc.len() && es[j] == #[trigger] enc[i],
{
    let m = pairs_map(enc);
    lemma_pairs_map_distinct(enc);
    assert forall|i: int| #![trigger enc[i]] 0 <= i < enc.len() implies exists|j: int|
        0 <= j < es.len() && #[trigger] es[j] == enc[i] by {
        assert(m.contains_key(enc[i].0));
        let j = choose|j: int| 0 <= j < es.len() && (#[trigger] es[j]).0 == enc[i].0;
        assert(es[j] == enc[i]);
    }
    assert forall|j: int| #![trigger es[j]] 0 <= j < es.len() implies exists|i: int|
        0 <= i < enc.len() && es[j] == #[trigger] enc[i] by {
        assert(m.contains_key(es[j].0));
        let i = choose|i: int| 0 <= i < enc.len() && (#[trigger] enc[i]).0 == es[j].0;
        assert(es[j] == enc[i]);
    }
}

} // verus!
