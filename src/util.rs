//! # Helpers shared by the providers
//!
//! String comparison and membership, and the hashing primitives that the
//! request signers are built from.
use vstd::prelude::*;
use vstd::string::StringSliceAdditionalSpecFns;

verus! {

broadcast use vstd::utf8::encode_utf8_decode_utf8;

/// Pairs of strings as text values.
pub open spec fn pair_views(h: Seq<(String, String)>) -> Seq<(Seq<char>, Seq<char>)> {
    h.map_values(|p: (String, String)| (p.0@, p.1@))
}

/// Whether `s` is one of `names`.
pub open spec fn names_contain(names: Seq<String>, s: Seq<char>) -> bool {
    exists|i: int| 0 <= i < names.len() && (#[trigger] names[i])@ == s
}

/// Compares two strings.
pub fn str_eq(a: &str, b: &str) -> (r: bool)
    ensures
        r == (a@ == b@),
{
    let x = a.as_bytes();
    let y = b.as_bytes();
    if x.len() != y.len() {
        return false;
    }
    let mut i: usize = 0;
    while i < x.len()
        invariant
            x@ == a.spec_bytes(),
            y@ == b.spec_bytes(),
            x@.len() == y@.len(),
            0 <= i <= x@.len(),
            forall|j: int| 0 <= j < i ==> x@[j] == y@[j],
        decreases x@.len() - i,
    {
        if x[i] != y[i] {
            return false;
        }
        i = i + 1;
    }
    assert(a.spec_bytes() =~= b.spec_bytes());
    assert(vstd::utf8::decode_utf8(a.spec_bytes()) == a@);
    assert(vstd::utf8::decode_utf8(b.spec_bytes()) == b@);
    true
}

/// Whether `s` is one of `names`.
pub fn contains_name(names: &[String], s: &str) -> (r: bool)
    ensures
        r == names_contain(names@, s@),
{
    let mut i: usize = 0;
    while i < names.len()
        invariant
            0 <= i <= names@.len(),
            forall|j: int| 0 <= j < i ==> (#[trigger] names@[j])@ != s@,
        decreases names@.len() - i,
    {
        if str_eq(names[i].as_str(), s) {
            return true;
        }
        i = i + 1;
    }
    false
}

} // verus!

verus! {

/// The set of text values that `names` holds.
pub open spec fn name_set(names: Seq<String>) -> Set<Seq<char>> {
    Set::new(|s: Seq<char>| names_contain(names, s))
}

/// A set of names, held in a `hashbrown::HashSet`.
#[verifier::external_body]
pub struct NameSet {
    inner: hashbrown::HashSet<String>,
}

/// The names that a set holds.
pub uninterp spec fn name_set_contents(s: NameSet) -> Set<Seq<char>>;

impl NameSet {
    /// Relies on `hashbrown::HashSet::new`: a new set is empty.
    #[verifier::external_body]
    fn new() -> (r: NameSet)
        ensures
            name_set_contents(r) == Set::<Seq<char>>::empty(),
    {
        NameSet { inner: hashbrown::HashSet::new() }
    }

    /// Relies on `hashbrown::HashSet::insert`: the name is in the set
    /// afterwards, and nothing else changed.
    #[verifier::external_body]
    fn insert(&mut self, name: &str)
        ensures
            name_set_contents(*final(self)) == name_set_contents(*old(self)).insert(name@),
    {
        self.inner.insert(name.to_owned());
    }

    /// Relies on `hashbrown::HashSet::contains`: whether the name is in the set.
    #[verifier::external_body]
    pub(crate) fn contains(&self, name: &str) -> (r: bool)
        ensures
            r == name_set_contents(*self).contains(name@),
    {
        self.inner.contains(name)
    }

    /// The set of the given names.
    pub fn from_names(names: &[String]) -> (r: NameSet)
        ensures
            name_set_contents(r) == name_set(names@),
    {
        let mut set = NameSet::new();
        let mut i: usize = 0;
        while i < names.len()
            invariant
                0 <= i <= names@.len(),
                name_set_contents(set) == Set::new(
                    |s: Seq<char>| exists|j: int| 0 <= j < i && (#[trigger] names@[j])@ == s,
                ),
            decreases names@.len() - i,
        {
            let ghost before = name_set_contents(set);
            set.insert(names[i].as_str());
            assert(name_set_contents(set) =~= Set::new(
                |s: Seq<char>| exists|j: int| 0 <= j < i + 1 && (#[trigger] names@[j])@ == s,
            )) by {
                assert forall|s: Seq<char>| name_set_contents(set).contains(s) implies (exists|
                    j: int,
                | 0 <= j < i + 1 && (#[trigger] names@[j])@ == s) by {
                    if s == names@[i as int]@ {
                    } else {
                        assert(before.contains(s));
                    }
                }
            }
            i = i + 1;
        }
        assert(name_set_contents(set) =~= name_set(names@));
        set
    }
}

} // verus!

verus! {

/// The lowercase hexadecimal digit of a value below 16.
pub open spec fn hex_digit(d: int) -> char {
    if d < 10 {
        (('0' as int) + d) as char
    } else {
        (('a' as int) + d - 10) as char
    }
}

/// Bytes written as lowercase hexadecimal, two digits per byte, high half first.
pub open spec fn hex_lower(b: Seq<u8>) -> Seq<char> {
    Seq::new(
        2 * b.len(),
        |i: int|
            if i % 2 == 0 {
                hex_digit(b[i / 2] as int / 16)
            } else {
                hex_digit(b[i / 2] as int % 16)
            },
    )
}

/// The SHA-256 digest of a byte sequence.
pub uninterp spec fn sha256_of(msg: Seq<u8>) -> Seq<u8>;

/// The HMAC-SHA256 code of a message under a key.
pub uninterp spec fn hmac_sha256_of(key: Seq<u8>, msg: Seq<u8>) -> Seq<u8>;

/// Relies on `sha2::Sha256::digest`: the SHA-256 digest of `msg`, 32 bytes.
#[verifier::external_body]
pub(crate) fn sha256(msg: &[u8]) -> (r: Vec<u8>)
    ensures
        r@ == sha256_of(msg@),
        r@.len() == 32,
{
    <sha2::Sha256 as sha2::Digest>::digest(msg).to_vec()
}

/// Relies on `hmac::Hmac::<Sha256>`: the HMAC-SHA256 code of `msg` under
/// `key`, 32 bytes. `new_from_slice` accepts keys of every length.
#[verifier::external_body]
pub(crate) fn hmac_sha256(key: &[u8], msg: &[u8]) -> (r: Vec<u8>)
    ensures
        r@ == hmac_sha256_of(key@, msg@),
        r@.len() == 32,
{
    let mut mac = <hmac::Hmac<sha2::Sha256> as hmac::Mac>::new_from_slice(key).expect("any key length");
    hmac::Mac::update(&mut mac, msg);
    hmac::Mac::finalize(mac).into_bytes().to_vec()
}

/// Relies on `hex::encode`: two lowercase digits per byte.
#[verifier::external_body]
pub(crate) fn hex_encode(b: &[u8]) -> (r: String)
    ensures
        r@ == hex_lower(b@),
{
    hex::encode(b)
}

/// A lowercase hexadecimal digit.
pub open spec fn is_lower_hex(c: char) -> bool {
    ('0' <= c && c <= '9') || ('a' <= c && c <= 'f')
}

/// The lowercase hexadecimal SHA-256 digest of the UTF-8 bytes of `message`:
/// 64 lowercase hexadecimal digits.
pub fn sha256_hex(message: &str) -> (r: String)
    ensures
        r@ == hex_lower(sha256_of(message.spec_bytes())),
        r@.len() == 64,
        forall|i: int| 0 <= i < r@.len() ==> is_lower_hex(#[trigger] r@[i]),
{
    let digest = sha256(message.as_bytes());
    let r = hex_encode(digest.as_slice());
    assert forall|i: int| 0 <= i < r@.len() implies is_lower_hex(#[trigger] r@[i]) by {
        let b = digest@[i / 2] as int;
        assert(0 <= b / 16 < 16 && 0 <= b % 16 < 16);
    }
    r
}

/// The HMAC-SHA256 code of the UTF-8 bytes of `message` under `key`.
pub fn hmac256(key: &[u8], message: &str) -> (r: Vec<u8>)
    ensures
        r@ == hmac_sha256_of(key@, message.spec_bytes()),
        r@.len() == 32,
{
    hmac_sha256(key, message.as_bytes())
}

/// The decimal digits of a natural number, without leading zeros ("0" for zero).
pub open spec fn decimal(n: nat) -> Seq<char>
    decreases n,
{
    if n < 10 {
        seq![(('0' as nat) + n) as char]
    } else {
        decimal(n / 10).push((('0' as nat) + n % 10) as char)
    }
}

/// Writes `n` in decimal.
pub fn to_decimal(n: u64) -> (r: String)
    ensures
        r@ == decimal(n as nat),
{
    let mut digits: Vec<u8> = Vec::new();
    let mut m: u64 = n;
    while m >= 10
        invariant
            forall|j: int| 0 <= j < digits@.len() ==> 48 <= #[trigger] digits@[j] <= 57,
            decimal(n as nat) == decimal(m as nat) + digits@.reverse().map_values(|b: u8| b as char),
        decreases m,
    {
        let ghost before = digits@;
        let d = (m % 10) as u8;
        digits.push(48 + d);
        assert(digits@.reverse() =~= seq![(48 + d) as u8] + before.reverse());
        assert(decimal(m as nat) == decimal((m / 10) as nat).push((('0' as nat) + (m % 10) as nat) as char));
        assert(decimal(m as nat) + before.reverse().map_values(|b: u8| b as char) =~= decimal(
            (m / 10) as nat,
        ) + digits@.reverse().map_values(|b: u8| b as char));
        m = m / 10;
    }
    digits.push(48 + (m as u8));
    let mut out: Vec<u8> = Vec::new();
    let mut i: usize = digits.len();
    while i > 0
        invariant
            i <= digits@.len(),
            out@ == digits@.reverse().take(digits@.len() - i),
        decreases i,
    {
        i = i - 1;
        out.push(digits[i]);
        assert(out@ =~= digits@.reverse().take(digits@.len() - i));
    }
    assert(out@ =~= digits@.reverse());
    ascii_string(out)
}

/// Whether every byte is ASCII.
pub open spec fn all_ascii(b: Seq<u8>) -> bool {
    forall|i: int| 0 <= i < b.len() ==> #[trigger] b[i] < 128
}

/// Relies on `String::from_utf8`: ASCII bytes are valid UTF-8, and each
/// byte is one character.
#[verifier::external_body]
pub(crate) fn ascii_string(b: Vec<u8>) -> (r: String)
    requires
        all_ascii(b@),
    ensures
        r@ == b@.map_values(|x: u8| x as char),
{
    String::from_utf8(b).expect("ASCII is valid UTF-8")
}

} // verus!

verus! {

/// Lexicographic order of byte strings: a proper prefix comes first.
pub open spec fn bytes_lt(a: Seq<u8>, b: Seq<u8>) -> bool
    decreases a.len(),
{
    if a.len() == 0 {
        b.len() > 0
    } else if b.len() == 0 {
        false
    } else if a[0] != b[0] {
        a[0] < b[0]
    } else {
        bytes_lt(a.drop_first(), b.drop_first())
    }
}

/// No byte string comes before itself.
pub proof fn lemma_bytes_lt_irreflexive(a: Seq<u8>)
    ensures
        !bytes_lt(a, a),
    decreases a.len(),
{
    if a.len() > 0 {
        lemma_bytes_lt_irreflexive(a.drop_first());
    }
}

/// Of two different byte strings exactly one comes first.
pub proof fn lemma_bytes_lt_total(a: Seq<u8>, b: Seq<u8>)
    ensures
        a != b ==> (bytes_lt(a, b) || bytes_lt(b, a)),
        !(bytes_lt(a, b) && bytes_lt(b, a)),
    decreases a.len(),
{
    if a.len() > 0 && b.len() > 0 && a[0] == b[0] {
        lemma_bytes_lt_total(a.drop_first(), b.drop_first());
        if a != b {
            assert(a =~= seq![a[0]] + a.drop_first());
            assert(b =~= seq![b[0]] + b.drop_first());
        }
    } else if a.len() == 0 && b.len() == 0 {
        assert(a =~= b);
    }
}

/// The order is transitive.
pub proof fn lemma_bytes_lt_transitive(a: Seq<u8>, b: Seq<u8>, c: Seq<u8>)
    requires
        bytes_lt(a, b),
        bytes_lt(b, c),
    ensures
        bytes_lt(a, c),
    decreases a.len(),
{
    if a.len() > 0 && b.len() > 0 && c.len() > 0 && a[0] == b[0] && b[0] == c[0] {
        lemma_bytes_lt_transitive(a.drop_first(), b.drop_first(), c.drop_first());
    }
}

/// Compares two byte strings: negative when `a` comes first, zero when they
/// are equal, positive when `b` comes first.
pub fn compare_bytes(a: &[u8], b: &[u8]) -> (r: i8)
    ensures
        (r < 0) == bytes_lt(a@, b@),
        (r == 0) == (a@ == b@),
        (r > 0) == bytes_lt(b@, a@),
{
    proof {
        lemma_bytes_lt_total(a@, b@);
        assert(a@.skip(0) =~= a@);
        assert(b@.skip(0) =~= b@);
    }
    let mut i: usize = 0;
    while i < a.len() && i < b.len()
        invariant
            0 <= i <= a@.len(),
            i <= b@.len(),
            a@.take(i as int) == b@.take(i as int),
            bytes_lt(a@, b@) == bytes_lt(a@.skip(i as int), b@.skip(i as int)),
            bytes_lt(b@, a@) == bytes_lt(b@.skip(i as int), a@.skip(i as int)),
        decreases a@.len() - i,
    {
        assert(a@.skip(i as int).drop_first() =~= a@.skip(i + 1));
        assert(b@.skip(i as int).drop_first() =~= b@.skip(i + 1));
        if a[i] != b[i] {
            if a[i] < b[i] {
                return -1;
            } else {
                assert(a@ != b@ && a@[i as int] != b@[i as int]);
                return 1;
            }
        }
        assert(a@.take(i + 1) =~= a@.take(i as int).push(a@[i as int]));
        assert(b@.take(i + 1) =~= b@.take(i as int).push(b@[i as int]));
        i = i + 1;
    }
    if a.len() < b.len() {
        assert(a@ != b@ && a@.len() != b@.len());
        -1
    } else if b.len() < a.len() {
        assert(a@ != b@ && a@.len() != b@.len());
        1
    } else {
        assert(a@ =~= a@.take(i as int));
        assert(b@ =~= b@.take(i as int));
        0
    }
}

} // verus!

verus! {

/// A byte string that comes first is not the other.
pub proof fn lemma_bytes_lt_ne(a: Seq<u8>, b: Seq<u8>)
    requires
        bytes_lt(a, b),
    ensures
        a != b,
{
    lemma_bytes_lt_irreflexive(a);
}

} // verus!

verus! {

/// A UTC time written by a strftime-style pattern; `None` when the time is
/// outside the calendar range.
pub uninterp spec fn utc_format_of(secs: int, pattern: Seq<char>) -> Option<Seq<char>>;

/// The pattern of an ISO-8601 UTC date and time, `YYYY-MM-DDTHH:MM:SSZ`.
pub const DATE_TIME_PATTERN: &'static str = "%Y-%m-%dT%H:%M:%SZ";

/// The pattern of a date, `YYYY-MM-DD`.
pub const DATE_PATTERN: &'static str = "%Y-%m-%d";

/// Relies on `chrono::DateTime::<Utc>::from_timestamp` and `format`: the
/// time `secs` seconds after the Unix epoch, written by `pattern`, or `None`
/// when chrono cannot represent it. Both accepted patterns are valid, so
/// writing never fails.
#[verifier::external_body]
pub(crate) fn format_utc(secs: i64, pattern: &str) -> (r: Option<String>)
    requires
        pattern@ == DATE_TIME_PATTERN@ || pattern@ == DATE_PATTERN@,
    ensures
        match r {
            Some(s) => utc_format_of(secs as int, pattern@) == Some(s@),
            None => utc_format_of(secs as int, pattern@) is None,
        },
{
    match chrono::DateTime::from_timestamp(secs, 0) {
        Some(t) => Some(t.format(pattern).to_string()),
        None => None,
    }
}

/// Relies on `rand::Rng::random_range` over the thread generator: a random
/// index below `n`.
#[verifier::external_body]
pub(crate) fn random_below(n: usize) -> (r: usize)
    requires
        n > 0,
    ensures
        r < n,
{
    rand::Rng::random_range(&mut rand::rng(), 0..n)
}

} // verus!

verus! {

/// The lowercase form of a text, as Rust's Unicode case mapping gives it.
pub uninterp spec fn lowercase_of(s: Seq<char>) -> Seq<char>;

/// Relies on `str::to_lowercase`: the result depends on the characters alone.
#[verifier::external_body]
pub(crate) fn to_lowercase(s: &str) -> (r: String)
    ensures
        r@ == lowercase_of(s@),
{
    s.to_lowercase()
}

} // verus!
