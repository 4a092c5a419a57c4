use crate::airplay::device_profile::{kind_friendly_name, kind_of_model, DeviceKind};
use crate::text::{chars_of, to_lowercase};
use vstd::prelude::*;
use vstd::utf8::*;

pub use crate::airplay::pairing::{detect_homepod_pairs, HomePodPair};

verus! {

/// One AirPlay receiver as advertised over Bonjour.
#[derive(Debug, Clone)]
pub struct AirPlayReceiver {
    pub id: String,
    pub name: String,
    pub model: String,
    pub port: u16,
    pub addresses: Vec<String>,
    pub source_version: String,
    pub features_raw: u64,
    pub supports_audio: bool,
    pub supports_airplay2: bool,
    pub supports_ptp: bool,
    pub supports_buffered_audio: bool,
    pub supports_transient_pairing: bool,
    pub requires_password: bool,
    pub group_id: Option<String>,
    pub is_group_leader: bool,
    pub group_public_name: Option<String>,
    pub group_contains_discoverable_leader: bool,
    pub parent_group_id: Option<String>,
    pub tight_sync_id: Option<String>,
}

/// The dot-separated parts of `s` (an empty string has one empty part).
pub open spec fn split_dots(s: Seq<char>) -> Seq<Seq<char>>
    decreases s.len(),
{
    if s.len() == 0 {
        seq![Seq::<char>::empty()]
    } else {
        let rest = split_dots(s.drop_first());
        if s[0] == '.' {
            seq![Seq::<char>::empty()] + rest
        } else {
            rest.update(0, seq![s[0]] + rest[0])
        }
    }
}

proof fn lemma_split_dots_nonempty(s: Seq<char>)
    ensures
        split_dots(s).len() >= 1,
    decreases s.len(),
{
    if s.len() > 0 {
        lemma_split_dots_nonempty(s.drop_first());
    }
}

pub open spec fn is_decimal_digit(c: char) -> bool {
    '0' <= c && c <= '9'
}

/// The decimal value of a string of digits.
pub open spec fn decimal_value(p: Seq<char>) -> int
    decreases p.len(),
{
    if p.len() == 0 {
        0
    } else {
        decimal_value(p.drop_last()) * 10 + (p.last() as int - '0' as int)
    }
}

/// One octet of a dotted-quad IPv4 address as Rust's address parser accepts
/// it: one to three decimal digits, no leading zero, a value up to 255.
pub open spec fn valid_octet(p: Seq<char>) -> bool {
    &&& 1 <= p.len() <= 3
    &&& forall|i: int| 0 <= i < p.len() ==> is_decimal_digit(#[trigger] p[i])
    &&& !(p.len() > 1 && p[0] == '0')
    &&& decimal_value(p) <= 255
}

/// Whether `s` is an address that `str::parse::<IpAddr>` reads as IPv4:
/// exactly four valid octets separated by dots.
pub open spec fn parses_as_ipv4(s: Seq<char>) -> bool {
    let parts = split_dots(s);
    &&& parts.len() == 4
    &&& forall|i: int| 0 <= i < 4 ==> valid_octet(#[trigger] parts[i])
}

fn split_dots_exec(s: &Vec<char>) -> (parts: Vec<Vec<char>>)
    ensures
        parts@.len() == split_dots(s@).len(),
        forall|i: int| 0 <= i < parts@.len() ==> #[trigger] parts@[i]@ == split_dots(s@)[i],
{
    let mut parts: Vec<Vec<char>> = Vec::new();
    parts.push(Vec::new());
    let mut i: usize = s.len();
    proof {
        assert(s@.skip(i as int) =~= Seq::<char>::empty());
    }
    while i > 0
        invariant
            i <= s@.len(),
            parts@.len() == split_dots(s@.skip(i as int)).len(),
            forall|k: int|
                0 <= k < parts@.len() ==> #[trigger] parts@[k]@ == split_dots(s@.skip(i as int))[k],
        decreases i,
    {
        let c = s[i - 1];
        proof {
            assert(s@.skip(i - 1).drop_first() =~= s@.skip(i as int));
            assert(s@.skip(i - 1)[0] == c);
            lemma_split_dots_nonempty(s@.skip(i as int));
        }
        if c == '.' {
            parts.insert(0, Vec::new());
        } else {
            let mut first = Vec::new();
            first.push(c);
            let mut j: usize = 0;
            while j < parts[0].len()
                invariant
                    parts@.len() >= 1,
                    j <= parts@[0]@.len(),
                    first@ == seq![c] + parts@[0]@.subrange(0, j as int),
                decreases parts@[0]@.len() - j,
            {
                first.push(parts[0][j]);
                proof {
                    assert(parts@[0]@.subrange(0, j + 1) =~= parts@[0]@.subrange(0, j as int).push(
                        parts@[0]@[j as int],
                    ));
                }
                j = j + 1;
            }
            proof {
                assert(parts@[0]@.subrange(0, j as int) =~= parts@[0]@);
            }
            parts.set(0, first);
        }
        i = i - 1;
        proof {
            let rest = split_dots(s@.skip(i + 1));
            if c == '.' {
                assert(split_dots(s@.skip(i as int)) =~= seq![Seq::<char>::empty()] + rest);
            } else {
                assert(split_dots(s@.skip(i as int)) =~= rest.update(0, seq![c] + rest[0]));
            }
        }
    }
    proof {
        assert(s@.skip(0) =~= s@);
    }
    parts
}

fn valid_octet_exec(p: &Vec<char>) -> (r: bool)
    ensures
        r == valid_octet(p@),
{
    if p.len() < 1 || p.len() > 3 {
        return false;
    }
    let mut value: u32 = 0;
    let mut i: usize = 0;
    while i < p.len()
        invariant
            1 <= p@.len() <= 3,
            i <= p@.len(),
            forall|k: int| 0 <= k < i ==> is_decimal_digit(#[trigger] p@[k]),
            value == decimal_value(p@.subrange(0, i as int)),
            i == 0 ==> value == 0,
            i == 1 ==> value < 10,
            i == 2 ==> value < 100,
            value < 1000,
        decreases p.len() - i,
    {
        let c = p[i];
        if !('0' <= c && c <= '9') {
            return false;
        }
        proof {
            assert(p@.subrange(0, i + 1).drop_last() =~= p@.subrange(0, i as int));
            assert(i < 3);
        }
        value = value * 10 + (c as u32 - '0' as u32);
        i = i + 1;
    }
    proof {
        assert(p@.subrange(0, p@.len() as int) =~= p@);
    }
    if p.len() > 1 && p[0] == '0' {
        return false;
    }
    value <= 255
}

/// Whether `s` is an IPv4 address in dotted-quad form.
pub fn is_ipv4_address(s: &str) -> (r: bool)
    ensures
        r == parses_as_ipv4(s@),
{
    let chars = chars_of(s);
    let parts = split_dots_exec(&chars);
    if parts.len() != 4 {
        return false;
    }
    let mut i: usize = 0;
    while i < 4
        invariant
            parts@.len() == 4,
            i <= 4,
            parts@.len() == split_dots(s@).len(),
            forall|k: int| 0 <= k < parts@.len() ==> #[trigger] parts@[k]@ == split_dots(s@)[k],
            forall|k: int| 0 <= k < i ==> valid_octet(#[trigger] split_dots(s@)[k]),
        decreases 4 - i,
    {
        if !valid_octet_exec(&parts[i]) {
            return false;
        }
        i = i + 1;
    }
    true
}

/// Index of the address to connect to: the first IPv4 address, else the
/// first address, else none.
pub open spec fn preferred_address_index(addresses: Seq<Seq<char>>) -> Option<int> {
    if exists|i: int| 0 <= i < addresses.len() && parses_as_ipv4(#[trigger] addresses[i]) {
        Some(
            choose|i: int|
                0 <= i < addresses.len() && parses_as_ipv4(addresses[i]) && forall|j: int|
                    0 <= j < i ==> !parses_as_ipv4(#[trigger] addresses[j]),
        )
    } else if addresses.len() > 0 {
        Some(0)
    } else {
        None
    }
}

/// The views of a list of strings.
pub open spec fn string_views(v: Seq<String>) -> Seq<Seq<char>> {
    v.map_values(|s: String| s@)
}

impl AirPlayReceiver {
    pub fn device_kind(&self) -> (k: DeviceKind)
        ensures
            k == kind_of_model(self.model@),
    {
        DeviceKind::from_model(self.model.as_str())
    }

    pub fn friendly_model_name(&self) -> (s: &'static str)
        ensures
            s@ == kind_friendly_name(kind_of_model(self.model@)),
    {
        self.device_kind().friendly_name()
    }

    pub fn preferred_address(&self) -> (r: Option<&str>)
        ensures
            match preferred_address_index(string_views(self.addresses@)) {
                Some(i) => r is Some && r->0@ == self.addresses@[i]@,
                None => r is None,
            },
    {
        match preferred_index(&self.addresses) {
            Some(i) => Some(self.addresses[i].as_str()),
            None => None,
        }
    }
}

/// Position of the address to connect to (see `preferred_address_index`).
pub fn preferred_index(addresses: &Vec<String>) -> (r: Option<usize>)
    ensures
        match preferred_address_index(string_views(addresses@)) {
            Some(i) => r is Some && r->0 as int == i && 0 <= i < addresses@.len(),
            None => r is None,
        },
{
    let ghost views = string_views(addresses@);
    let mut i: usize = 0;
    while i < addresses.len()
        invariant
            i <= addresses@.len(),
            views == string_views(addresses@),
            forall|j: int| 0 <= j < i ==> !parses_as_ipv4(#[trigger] views[j]),
        decreases addresses.len() - i,
    {
        if is_ipv4_address(addresses[i].as_str()) {
            proof {
                assert(parses_as_ipv4(views[i as int]));
                let c = choose|k: int|
                    0 <= k < views.len() && parses_as_ipv4(views[k]) && forall|j: int|
                        0 <= j < k ==> !parses_as_ipv4(#[trigger] views[j]);
                assert(0 <= i < views.len() && parses_as_ipv4(views[i as int]) && forall|j: int|
                    0 <= j < i ==> !parses_as_ipv4(#[trigger] views[j]));
                if c < i {
                } else if c > i {
                    assert(!parses_as_ipv4(views[i as int]));
                }
            }
            return Some(i);
        }
        i = i + 1;
    }
    proof {
        assert(!exists|k: int| 0 <= k < views.len() && parses_as_ipv4(#[trigger] views[k]));
    }
    if addresses.len() > 0 {
        Some(0)
    } else {
        None
    }
}

pub open spec fn is_ascii_digit(b: u8) -> bool {
    48 <= b <= 57
}

/// The value of a three-digit decimal escape such as `\195`.
pub open spec fn escape_code(b1: u8, b2: u8, b3: u8) -> int {
    (b1 - 48) * 100 + (b2 - 48) * 10 + (b3 - 48)
}

/// DNS-SD instance-name unescaping on bytes: `\DDD` with a value up to 255
/// stands for that byte, any other backslash escapes the byte after it, and
/// a lone trailing backslash stays as it is.
pub open spec fn dns_sd_unescape(b: Seq<u8>) -> Seq<u8>
    decreases b.len(),
{
    if b.len() == 0 {
        seq![]
    } else if b[0] == 92u8 && 1 < b.len() {
        if 3 < b.len() && is_ascii_digit(b[1]) && is_ascii_digit(b[2]) && is_ascii_digit(b[3])
            && escape_code(b[1], b[2], b[3]) <= 255 {
            seq![escape_code(b[1], b[2], b[3]) as u8] + dns_sd_unescape(b.skip(4))
        } else {
            seq![b[1]] + dns_sd_unescape(b.skip(2))
        }
    } else {
        seq![b[0]] + dns_sd_unescape(b.skip(1))
    }
}

/// Unescapes the bytes of a DNS-SD instance name.
pub fn unescape_dns_sd_bytes(bytes: &[u8]) -> (out: Vec<u8>)
    ensures
        out@ == dns_sd_unescape(bytes@),
{
    let mut out: Vec<u8> = Vec::with_capacity(bytes.len());
    let mut i: usize = 0;
    proof {
        assert(bytes@.skip(0) =~= bytes@);
    }
    while i < bytes.len()
        invariant
            i <= bytes@.len(),
            out@ + dns_sd_unescape(bytes@.skip(i as int)) == dns_sd_unescape(bytes@),
        decreases bytes.len() - i,
    {
        let ghost rest = bytes@.skip(i as int);
        if bytes[i] == 92u8 && i + 1 < bytes.len() {
            if bytes.len() - i > 3 && 48 <= bytes[i + 1] && bytes[i + 1] <= 57 && 48 <= bytes[i
                + 2] && bytes[i + 2] <= 57 && 48 <= bytes[i + 3] && bytes[i + 3] <= 57 {
                let code: u16 = ((bytes[i + 1] - 48) as u16) * 100 + ((bytes[i + 2] - 48) as u16)
                    * 10 + (bytes[i + 3] - 48) as u16;
                if code <= 255 {
                    out.push(code as u8);
                    proof {
                        assert(rest.skip(4) =~= bytes@.skip(i + 4));
                        assert(code == escape_code(rest[1], rest[2], rest[3]));
                        assert(out@ + dns_sd_unescape(bytes@.skip(i + 4)) =~= (out@.drop_last()
                            + dns_sd_unescape(rest)));
                    }
                    i = i + 4;
                    continue;
                }
            }
            out.push(bytes[i + 1]);
            proof {
                assert(rest.skip(2) =~= bytes@.skip(i + 2));
                assert(out@ + dns_sd_unescape(bytes@.skip(i + 2)) =~= (out@.drop_last()
                    + dns_sd_unescape(rest)));
            }
            i = i + 2;
            continue;
        }
        out.push(bytes[i]);
        proof {
            assert(rest.skip(1) =~= bytes@.skip(i + 1));
            assert(out@ + dns_sd_unescape(bytes@.skip(i + 1)) =~= (out@.drop_last()
                + dns_sd_unescape(rest)));
        }
        i = i + 1;
    }
    proof {
        assert(bytes@.skip(i as int).len() == 0);
        assert(out@ =~= out@ + dns_sd_unescape(bytes@.skip(i as int)));
    }
    out
}

/// Calls `String::from_utf8`: the bytes become a `String` when they are
/// valid UTF-8, and are handed back otherwise.
#[verifier::external_body]
fn string_from_utf8(bytes: Vec<u8>) -> (r: Result<String, Vec<u8>>)
    ensures
        r is Ok <==> valid_utf8(bytes@),
        r matches Ok(s) ==> s@ == decode_utf8(bytes@),
        r matches Err(b) ==> b@ == bytes@,
{
    String::from_utf8(bytes).map_err(|e| e.into_bytes())
}

/// What `String::from_utf8_lossy` makes of a byte string: invalid sequences
/// become U+FFFD replacement characters.
pub uninterp spec fn lossy_utf8(bytes: Seq<u8>) -> Seq<char>;

/// Calls `String::from_utf8_lossy` and takes the owned string. Claimed: the
/// result depends on the bytes alone, and valid UTF-8 comes back decoded.
#[verifier::external_body]
fn string_from_utf8_lossy(bytes: &[u8]) -> (s: String)
    ensures
        s@ == lossy_utf8(bytes@),
        valid_utf8(bytes@) ==> s@ == decode_utf8(bytes@),
{
    String::from_utf8_lossy(bytes).into_owned()
}

/// The display name of a DNS-SD instance name: its UTF-8 bytes unescaped,
/// then decoded (lossily, if the escapes produced invalid UTF-8).
pub open spec fn decoded_dns_sd_name(name: Seq<char>) -> Seq<char> {
    let u = dns_sd_unescape(encode_utf8(name));
    if valid_utf8(u) {
        decode_utf8(u)
    } else {
        lossy_utf8(u)
    }
}

/// Decodes a DNS-SD instance name, including escaped UTF-8 bytes such as
/// `\195\178` and escaped punctuation such as `\.`.
pub fn decode_dns_sd_name(input: &str) -> (r: String)
    ensures
        r@ == decoded_dns_sd_name(input@),
{
    let bytes = input.as_bytes();
    let out = unescape_dns_sd_bytes(bytes);
    match string_from_utf8(out) {
        Ok(s) => s,
        Err(raw) => string_from_utf8_lossy(raw.as_slice()),
    }
}

proof fn lemma_scalar_bytes_not_backslash(c: u32)
    requires
        is_scalar(c),
        c != 92,
    ensures
        forall|i: int| 0 <= i < encode_scalar(c).len() ==> #[trigger] encode_scalar(c)[i] != 92u8,
{
    if has_width_1_encoding(c) {
        assert((c & 0x7F) as u8 != 92u8) by (bit_vector)
            requires
                c <= 0x7F,
                c != 92,
        ;
    } else {
        assert((0xC0u8 | ((c >> 6u32) & 0x1Fu32) as u8) != 92u8) by (bit_vector);
        assert((0xE0u8 | ((c >> 12u32) & 0x0Fu32) as u8) != 92u8) by (bit_vector);
        assert((0xF0u8 | ((c >> 18u32) & 0x7u32) as u8) != 92u8) by (bit_vector);
        assert((0x80u8 | (c & 0x3Fu32) as u8) != 92u8) by (bit_vector);
        assert((0x80u8 | ((c >> 6u32) & 0x3Fu32) as u8) != 92u8) by (bit_vector);
        assert((0x80u8 | ((c >> 12u32) & 0x3Fu32) as u8) != 92u8) by (bit_vector);
    }
}

proof fn lemma_encode_has_no_backslash(s: Seq<char>)
    requires
        !s.contains('\\'),
    ensures
        forall|i: int| 0 <= i < encode_utf8(s).len() ==> #[trigger] encode_utf8(s)[i] != 92u8,
    decreases s.len(),
{
    if s.len() > 0 {
        assert(s[0] != '\\');
        char_is_scalar(s[0]);
        char_u32_cast(s[0], s[0] as u32);
        char_u32_cast('\\', 92u32);
        assert((s[0] as u32) != 92);
        lemma_scalar_bytes_not_backslash(s[0] as u32);
        assert(!s.drop_first().contains('\\')) by {
            if s.drop_first().contains('\\') {
                let k = choose|k: int| 0 <= k < s.drop_first().len() && s.drop_first()[k] == '\\';
                assert(s[k + 1] == '\\');
            }
        }
        lemma_encode_has_no_backslash(s.drop_first());
        let a = encode_scalar(s[0] as u32);
        let b = encode_utf8(s.drop_first());
        assert forall|i: int| 0 <= i < (a + b).len() implies #[trigger] (a + b)[i] != 92u8 by {
            if i < a.len() {
                assert((a + b)[i] == a[i]);
            } else {
                assert((a + b)[i] == b[i - a.len()]);
            }
        }
    }
}

proof fn lemma_unescape_identity(b: Seq<u8>)
    requires
        forall|i: int| 0 <= i < b.len() ==> #[trigger] b[i] != 92u8,
    ensures
        dns_sd_unescape(b) == b,
    decreases b.len(),
{
    if b.len() > 0 {
        assert(b[0] != 92u8);
        assert forall|i: int| 0 <= i < b.skip(1).len() implies #[trigger] b.skip(1)[i] != 92u8 by {
            assert(b.skip(1)[i] == b[i + 1]);
        }
        lemma_unescape_identity(b.skip(1));
        assert(seq![b[0]] + b.skip(1) =~= b);
    }
}

/// A name that holds no backslash is displayed exactly as advertised,
/// whatever non-ASCII characters it holds.
pub proof fn law_plain_names_are_unchanged(name: Seq<char>)
    requires
        !name.contains('\\'),
    ensures
        decoded_dns_sd_name(name) == name,
{
    broadcast use encode_utf8_valid_utf8, encode_utf8_decode_utf8;

    lemma_encode_has_no_backslash(name);
    lemma_unescape_identity(encode_utf8(name));
}

/// DNS-SD escapes: a backslash before any byte that is not a digit stands
/// for that byte (so `\.` is a dot and `\\` a backslash); a backslash
/// before three decimal digits whose value is at most 255 stands for the
/// byte of that value; and a trailing backslash stays.
pub proof fn law_dns_sd_escapes(c: u8, d1: u8, d2: u8, d3: u8, rest: Seq<u8>)
    ensures
        !(48 <= c <= 57) ==> dns_sd_unescape(seq![92u8, c] + rest) == seq![c] + dns_sd_unescape(rest),
        (48 <= d1 <= 57 && 48 <= d2 <= 57 && 48 <= d3 <= 57 && (d1 - 48) * 100 + (d2 - 48) * 10 + (d3
            - 48) <= 255) ==> dns_sd_unescape(seq![92u8, d1, d2, d3] + rest) == seq![((d1 - 48) * 100
            + (d2 - 48) * 10 + (d3 - 48)) as u8] + dns_sd_unescape(rest),
        dns_sd_unescape(seq![92u8]) == seq![92u8],
{
    let e = seq![92u8, c] + rest;
    assert(e.skip(2) =~= rest);
    let f = seq![92u8, d1, d2, d3] + rest;
    assert(f.skip(4) =~= rest);
    let g = seq![92u8];
    assert(g.skip(1) =~= Seq::<u8>::empty());
    assert(dns_sd_unescape(g.skip(1)) == Seq::<u8>::empty());
    assert(seq![g[0]] + dns_sd_unescape(g.skip(1)) =~= seq![92u8]);
}

proof fn lemma_first_ipv4_exists(a: Seq<Seq<char>>, k: int)
    requires
        0 <= k < a.len(),
        parses_as_ipv4(a[k]),
    ensures
        exists|m: int|
            0 <= m <= k && parses_as_ipv4(a[m]) && forall|j: int|
                0 <= j < m ==> !parses_as_ipv4(#[trigger] a[j]),
    decreases k,
{
    if exists|j: int| 0 <= j < k && parses_as_ipv4(#[trigger] a[j]) {
        let j = choose|j: int| 0 <= j < k && parses_as_ipv4(#[trigger] a[j]);
        lemma_first_ipv4_exists(a, j);
    } else {
        assert(0 <= k <= k && parses_as_ipv4(a[k]) && forall|j: int|
            0 <= j < k ==> !parses_as_ipv4(#[trigger] a[j]));
    }
}

/// The address used for a receiver is its first IPv4 address; without one,
/// its first address; without any, none.
pub proof fn law_preferred_address(a: Seq<Seq<char>>)
    ensures
        preferred_address_index(a) matches Some(i) ==> 0 <= i < a.len(),
        (exists|k: int| 0 <= k < a.len() && parses_as_ipv4(#[trigger] a[k])) ==> (
        preferred_address_index(a) matches Some(i) && parses_as_ipv4(a[i]) && forall|j: int|
            0 <= j < i ==> !parses_as_ipv4(#[trigger] a[j])),
        !(exists|k: int| 0 <= k < a.len() && parses_as_ipv4(#[trigger] a[k])) ==> preferred_address_index(a)
            == (if a.len() > 0 {
            Some(0int)
        } else {
            None
        }),
{
    if exists|k: int| 0 <= k < a.len() && parses_as_ipv4(#[trigger] a[k]) {
        let k = choose|k: int| 0 <= k < a.len() && parses_as_ipv4(#[trigger] a[k]);
        lemma_first_ipv4_exists(a, k);
    }
}

} // verus!
