//! Server settings read from text: blocked-traffic patterns, allowed origins
//! and CIDR blocks.

use crate::text::{
    chars_of, find_char, lemma_split_nonempty, lemma_split_once_at, lemma_split_once_none, piece_bounds,
    pieces_of, split_once, split_pieces, string_from_chars, terminated_pieces,
};
use vstd::prelude::*;
use vstd::string::StrSliceExecFns;

verus! {

/// Every comma-separated pattern of `s` has the form `HEADER=VALUE_ENV_VAR`.
pub open spec fn well_formed_patterns(s: Seq<char>) -> bool {
    forall|i: int| 0 <= i < terminated_pieces(s, ',').len() ==> (split_once(#[trigger] terminated_pieces(s, ',')[i], '=') is Some)
}

/// How many pieces `split_terminator` keeps of the pieces marked by `ranges`.
fn terminated_count(ranges: &Vec<(usize, usize)>) -> (n: usize)
    requires
        ranges@.len() >= 1,
        forall|j: int| 0 <= j < ranges@.len() ==> (#[trigger] ranges@[j]).0 <= ranges@[j].1,
    ensures
        n == if ranges@.last().0 == ranges@.last().1 { ranges@.len() - 1 } else { ranges@.len() as int },
{
    let last = ranges[ranges.len() - 1];
    if last.0 == last.1 {
        ranges.len() - 1
    } else {
        ranges.len()
    }
}

/// Splits a list of blocked-traffic patterns, `HEADER=VALUE_ENV_VAR` separated
/// by commas (a trailing comma is allowed), into header and variable name.
pub fn parse_traffic_patterns<'a>(patterns: &'a str) -> (r: Vec<(&'a str, &'a str)>)
    requires
        well_formed_patterns(patterns@),
    ensures
        r@.len() == terminated_pieces(patterns@, ',').len(),
        forall|i: int| 0 <= i < r@.len() ==>
            split_once(terminated_pieces(patterns@, ',')[i], '=') == Some(((#[trigger] r@[i]).0@, r@[i].1@)),
{
    let cs = chars_of(patterns);
    let ranges = piece_bounds(&cs, ',');
    proof {
        lemma_split_nonempty(cs@, ',');
    }
    let n = terminated_count(&ranges);
    let ghost pieces = terminated_pieces(patterns@, ',');
    proof {
        let all = pieces_of(cs@, ranges@);
        assert(all[all.len() - 1] == cs@.subrange(ranges@.last().0 as int, ranges@.last().1 as int));
        assert(pieces.len() == n);
        assert forall|j: int| 0 <= j < n implies #[trigger] pieces[j] == all[j] by {}
    }
    let mut out: Vec<(&'a str, &'a str)> = Vec::new();
    let mut j: usize = 0;
    while j < n
        invariant
            cs@ == patterns@,
            pieces == terminated_pieces(patterns@, ','),
            pieces.len() == n,
            n <= ranges@.len(),
            forall|k: int| 0 <= k < n ==> #[trigger] pieces[k] == cs@.subrange(ranges@[k].0 as int, ranges@[k].1 as int),
            forall|k: int| 0 <= k < ranges@.len() ==> (#[trigger] ranges@[k]).0 <= ranges@[k].1 <= cs@.len(),
            well_formed_patterns(patterns@),
            j <= n,
            out@.len() == j,
            forall|i: int| 0 <= i < j ==> split_once(pieces[i], '=') == Some(((#[trigger] out@[i]).0@, out@[i].1@)),
        decreases n - j,
    {
        let (a, b) = ranges[j];
        let ghost piece = pieces[j as int];
        assert(piece == cs@.subrange(a as int, b as int));
        match find_char(&cs, a, b, '=') {
            Some(k) => {
                let key = patterns.substring_char(a, k);
                let value = patterns.substring_char(k + 1, b);
                proof {
                    lemma_split_once_at(piece, '=', k - a);
                    assert(piece.take(k - a) =~= key@);
                    assert(piece.skip(k - a + 1) =~= value@);
                }
                out.push((key, value));
            },
            None => {
                proof {
                    assert forall|x: int| 0 <= x < piece.len() implies piece[x] != '=' by {
                        assert(piece[x] == cs@[a + x]);
                    }
                    lemma_split_once_none(piece, '=');
                    assert(split_once(pieces[j as int], '=') is Some);
                }
            },
        }
        j += 1;
    }
    out
}

/// Whether every comma-separated pattern of `patterns` has the form
/// `HEADER=VALUE_ENV_VAR`, as `parse_traffic_patterns` requires.
pub fn is_valid_traffic_patterns(patterns: &str) -> (r: bool)
    ensures
        r == well_formed_patterns(patterns@),
{
    let cs = chars_of(patterns);
    let ranges = piece_bounds(&cs, ',');
    proof {
        lemma_split_nonempty(cs@, ',');
    }
    let n = terminated_count(&ranges);
    let ghost pieces = terminated_pieces(patterns@, ',');
    proof {
        let all = pieces_of(cs@, ranges@);
        assert(all[all.len() - 1] == cs@.subrange(ranges@.last().0 as int, ranges@.last().1 as int));
        assert(pieces.len() == n);
        assert forall|j: int| 0 <= j < n implies #[trigger] pieces[j] == all[j] by {}
    }
    let mut j: usize = 0;
    while j < n
        invariant
            cs@ == patterns@,
            pieces == terminated_pieces(patterns@, ','),
            pieces.len() == n,
            n <= ranges@.len(),
            forall|k: int| 0 <= k < n ==> #[trigger] pieces[k] == cs@.subrange(ranges@[k].0 as int, ranges@[k].1 as int),
            forall|k: int| 0 <= k < ranges@.len() ==> (#[trigger] ranges@[k]).0 <= ranges@[k].1 <= cs@.len(),
            j <= n,
            forall|i: int| 0 <= i < j ==> (split_once(#[trigger] pieces[i], '=') is Some),
        decreases n - j,
    {
        let (a, b) = ranges[j];
        let ghost piece = pieces[j as int];
        match find_char(&cs, a, b, '=') {
            Some(k) => {
                proof {
                    lemma_split_once_at(piece, '=', k - a);
                }
            },
            None => {
                proof {
                    assert forall|x: int| 0 <= x < piece.len() implies piece[x] != '=' by {
                        assert(piece[x] == cs@[a + x]);
                    }
                    lemma_split_once_none(piece, '=');
                }
                return false;
            },
        }
        j += 1;
    }
    true
}

/// The pieces of a comma-separated list, as `str::split(',')` gives them.
pub fn comma_list(value: &str) -> (r: Vec<String>)
    ensures
        r@.map_values(|s: String| s@) == split_pieces(value@, ','),
{
    let cs = chars_of(value);
    let ranges = piece_bounds(&cs, ',');
    let mut items: Vec<String> = Vec::new();
    let mut j: usize = 0;
    while j < ranges.len()
        invariant
            cs@ == value@,
            pieces_of(cs@, ranges@) == split_pieces(value@, ','),
            forall|k: int| 0 <= k < ranges@.len() ==> (#[trigger] ranges@[k]).0 <= ranges@[k].1 <= cs@.len(),
            j <= ranges@.len(),
            items@.len() == j,
            forall|i: int| 0 <= i < j ==> (#[trigger] items@[i])@ == pieces_of(cs@, ranges@)[i],
        decreases ranges.len() - j,
    {
        let (a, b) = ranges[j];
        items.push(string_from_chars(&cs, a, b));
        j += 1;
    }
    assert(items@.map_values(|s: String| s@) =~= split_pieces(value@, ','));
    items
}

/// The origins from which cross-origin requests are allowed.
#[derive(Clone, Debug)]
pub struct AllowedOrigins(pub Vec<String>);

impl View for AllowedOrigins {
    type V = Seq<Seq<char>>;

    open spec fn view(&self) -> Seq<Seq<char>> {
        self.0@.map_values(|o: String| o@)
    }
}

impl Default for AllowedOrigins {
    fn default() -> (r: AllowedOrigins)
        ensures
            r@.len() == 0,
    {
        AllowedOrigins(Vec::new())
    }
}

/// Relies on `dotenvy::var`: the value of an environment variable (a `.env`
/// file is loaded first, once), if it is set and Unicode.
#[verifier::external_body]
fn env_var(key: &str) -> Option<String> {
    dotenvy::var(key).ok()
}

/// Whether `a` and `b` hold the same bytes.
fn same_bytes(a: &[u8], b: &[u8]) -> (r: bool)
    ensures
        r == (a@ == b@),
{
    if a.len() != b.len() {
        return false;
    }
    let mut i: usize = 0;
    while i < a.len()
        invariant
            a@.len() == b@.len(),
            i <= a@.len(),
            forall|j: int| 0 <= j < i ==> a@[j] == b@[j],
        decreases a.len() - i,
    {
        if a[i] != b[i] {
            return false;
        }
        i += 1;
    }
    assert(a@ =~= b@);
    true
}

impl AllowedOrigins {
    /// The origins of a comma-separated list; every piece counts, an empty one too.
    pub fn from_value(value: &str) -> (r: AllowedOrigins)
        ensures
            r@ == split_pieces(value@, ','),
    {
        AllowedOrigins(comma_list(value))
    }

    /// The origins listed, comma-separated, in the `WEB_ALLOWED_ORIGINS`
    /// environment variable; `None` when it is not set.
    pub fn from_default_env() -> (r: Option<AllowedOrigins>)
        ensures
            r matches Some(o) ==> exists|v: Seq<char>| o@ == split_pieces(v, ','),
    {
        match env_var("WEB_ALLOWED_ORIGINS") {
            Some(value) => Some(AllowedOrigins::from_value(value.as_str())),
            None => None,
        }
    }

    /// Whether `value` (the bytes of a header) is one of the origins.
    pub fn contains(&self, value: &[u8]) -> (r: bool)
        ensures
            r == exists|i: int| 0 <= i < self@.len() && vstd::utf8::encode_utf8(#[trigger] self@[i]) == value@,
    {
        let mut i: usize = 0;
        while i < self.0.len()
            invariant
                i <= self@.len(),
                self@.len() == self.0@.len(),
                forall|j: int| 0 <= j < i ==> vstd::utf8::encode_utf8(#[trigger] self@[j]) != value@,
            decreases self.0.len() - i,
        {
            let bytes = self.0[i].as_str().as_bytes();
            assert(self@[i as int] == self.0@[i as int]@);
            if same_bytes(bytes, value) {
                return true;
            }
            i += 1;
        }
        false
    }
}

#[verifier::external_type_specification]
#[verifier::external_body]
pub struct ExIpNetwork(ipnetwork::IpNetwork);

/// What `ipnetwork::IpNetwork`'s `FromStr` makes of `s`: whether the block is
/// IPv4, and its prefix length; `None` when `s` is not a CIDR block.
pub uninterp spec fn cidr_parts(s: Seq<char>) -> Option<(bool, u8)>;

/// Relies on `ipnetwork::IpNetwork`'s `FromStr`, `is_ipv4` and `prefix`: the
/// block that `s` denotes, whether it is IPv4, and its prefix length.
#[verifier::external_body]
fn parse_ip_network(s: &str) -> (r: Option<(ipnetwork::IpNetwork, bool, u8)>)
    ensures
        match r {
            Some((_, v4, prefix)) => cidr_parts(s@) == Some((v4, prefix)),
            None => cidr_parts(s@) is None,
        },
{
    match s.parse::<ipnetwork::IpNetwork>() {
        Ok(n) => Some((n, n.is_ipv4(), n.prefix())),
        Err(_) => None,
    }
}

/// Why a CIDR block was refused.
#[derive(Clone, Copy, Debug, PartialEq, Eq, Structural)]
pub enum CidrError {
    /// Not an IPv4 or IPv6 CIDR block.
    NotCidr,
    /// The host prefix is shorter than 16 bits (IPv4) or 64 bits (IPv6).
    PrefixTooShort,
}

impl CidrError {
    /// A description of the refusal.
    pub fn message(&self) -> &'static str {
        match self {
            CidrError::NotCidr => "WEB_PAGE_OFFSET_CIDR_BLOCKLIST must contain IPv4 or IPv6 CIDR blocks.",
            CidrError::PrefixTooShort => "WEB_PAGE_OFFSET_CIDR_BLOCKLIST only allows CIDR blocks with a host prefix of at least 16 bits (IPv4) or 64 bits (IPv6).",
        }
    }
}

/// The shortest host prefix allowed: 16 bits for IPv4, 64 for IPv6.
pub open spec fn min_host_prefix(v4: bool) -> u8 {
    if v4 { 16 } else { 64 }
}

/// Whether a block with this prefix is narrow enough to be blocked.
pub fn host_prefix_allowed(v4: bool, prefix: u8) -> (r: bool)
    ensures
        r == (prefix >= min_host_prefix(v4)),
{
    let min: u8 = if v4 { 16 } else { 64 };
    prefix >= min
}

/// Parses a CIDR block to be blocked, refusing those that cover too many
/// addresses: the host prefix must be at least 16 bits (IPv4) or 64 bits (IPv6).
pub fn parse_cidr_block(block: &str) -> (r: Result<ipnetwork::IpNetwork, CidrError>)
    ensures
        r is Ok <==> (cidr_parts(block@) matches Some((v4, prefix)) && prefix >= min_host_prefix(v4)),
        r == Err::<ipnetwork::IpNetwork, CidrError>(CidrError::NotCidr) <==> cidr_parts(block@) is None,
{
    match parse_ip_network(block) {
        None => Err(CidrError::NotCidr),
        Some((network, v4, prefix)) => {
            if host_prefix_allowed(v4, prefix) {
                Ok(network)
            } else {
                Err(CidrError::PrefixTooShort)
            }
        },
    }
}

} // verus!
