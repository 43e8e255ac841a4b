use vstd::prelude::*;

pub mod canon;
pub mod features;
pub mod laws;
pub mod model;
pub mod outside;
pub mod strutil;

use crate::canon::{canonical_chars, spec_canonical};
use crate::features::{build_feature_tokens, spec_feature_tokens};
use crate::model::{Product, OS, Device, CPU, Engine, ProductV, OSV, DeviceV, CPUV, EngineV,
    view_opt};
use crate::outside::{blake3_hex, blake3_hex_of, is_lower_hex_char, parse_cpu_raw,
    parse_device_raw, parse_engine_raw, parse_os_raw, parse_product_raw};
use crate::strutil::{chars_vec, join_chars, sort_tokens, spec_join, spec_sort, string_from_chars,
    views_of};

verus! {

/// A parsed and normalized view of one client request: its structured
/// attribute groups, the raw agent text, the source address, and the two
/// derived identifiers.
#[derive(Debug, Clone, PartialEq)]
pub struct UserAgent {
    pub ip: Option<String>,
    pub fingerprint: Option<String>,
    pub hash: Option<String>,
    pub product: Product,
    pub os: OS,
    pub device: Device,
    pub cpu: CPU,
    pub engine: Engine,
    pub user_agent: Option<String>,
}

pub ghost struct UserAgentV {
    pub ip: Option<Seq<char>>,
    pub fingerprint: Option<Seq<char>>,
    pub hash: Option<Seq<char>>,
    pub product: ProductV,
    pub os: OSV,
    pub device: DeviceV,
    pub cpu: CPUV,
    pub engine: EngineV,
    pub user_agent: Option<Seq<char>>,
}

impl UserAgentV {
    pub open spec fn empty() -> UserAgentV {
        UserAgentV {
            ip: None,
            fingerprint: None,
            hash: None,
            product: ProductV::empty(),
            os: OSV::empty(),
            device: DeviceV::empty(),
            cpu: CPUV::empty(),
            engine: EngineV::empty(),
            user_agent: None,
        }
    }
}

impl View for UserAgent {
    type V = UserAgentV;

    open spec fn view(&self) -> UserAgentV {
        UserAgentV {
            ip: view_opt(self.ip),
            fingerprint: view_opt(self.fingerprint),
            hash: view_opt(self.hash),
            product: self.product@,
            os: self.os@,
            device: self.device@,
            cpu: self.cpu@,
            engine: self.engine@,
            user_agent: view_opt(self.user_agent),
        }
    }
}

/// The raw agent text of a record, or the empty text when it is absent.
pub open spec fn spec_ua_text(v: UserAgentV) -> Seq<char> {
    match v.user_agent {
        Option::Some(s) => s,
        Option::None => Seq::empty(),
    }
}

/// The record's feature tokens after the deterministic lexicographic sort.
pub open spec fn spec_sorted_tokens(v: UserAgentV) -> Seq<Seq<char>> {
    spec_sort(
        spec_feature_tokens(v.product, v.os, v.device, v.cpu, v.engine, spec_ua_text(v), v.ip),
    )
}

/// The hashing input: the sorted feature tokens joined by the sentinel
/// separator.
pub open spec fn spec_feature_string(v: UserAgentV) -> Seq<char> {
    spec_join(spec_sorted_tokens(v), ("&%&")@)
}

/// The fingerprint: two rounds of hashing over the feature string, the
/// second round over the hexadecimal form of the first digest.
pub open spec fn spec_fingerprint_of(v: UserAgentV) -> Seq<char> {
    blake3_hex_of(blake3_hex_of(spec_feature_string(v)))
}

/// The record's canonical string.
pub open spec fn spec_canonical_of(v: UserAgentV) -> Seq<char> {
    spec_canonical(v.product, v.os, v.device, spec_ua_text(v))
}

/// The family hash: one hashing pass over the canonical string.
pub open spec fn spec_family_hash_of(v: UserAgentV) -> Seq<char> {
    blake3_hex_of(spec_canonical_of(v))
}

impl Default for UserAgent {
    fn default() -> (r: Self)
        ensures
            r@ == UserAgentV::empty(),
    {
        UserAgent {
            ip: None,
            fingerprint: None,
            hash: None,
            product: Product::default(),
            os: OS::default(),
            device: Device::default(),
            cpu: CPU::default(),
            engine: Engine::default(),
            user_agent: None,
        }
    }
}

impl UserAgent {
    /// Creates an empty record: every field absent.
    pub fn new() -> (r: Self)
        ensures
            r@ == UserAgentV::empty(),
    {
        Self::default()
    }

    fn sorted_tokens_chars(&self, ua_str: &str) -> (r: Vec<Vec<char>>)
        requires
            self@.user_agent == Some(ua_str@),
        ensures
            views_of(r@) == spec_sorted_tokens(self@),
    {
        let toks = build_feature_tokens(
            &self.product,
            &self.os,
            &self.device,
            &self.cpu,
            &self.engine,
            ua_str,
            &self.ip,
        );
        sort_tokens(&toks)
    }

    /// The sorted feature vector of the record, one `tag:value` token per
    /// contributing signal.
    pub fn build_features(&self) -> (r: Vec<String>)
        requires
            self@.user_agent is Some,
        ensures
            r@.map_values(|s: String| s@) == spec_sorted_tokens(self@),
    {
        let ua_str = match &self.user_agent {
            Option::Some(s) => s.as_str(),
            Option::None => "",
        };
        let sorted = self.sorted_tokens_chars(ua_str);
        let mut r: Vec<String> = Vec::new();
        let mut i: usize = 0;
        proof {
            assert(r@.map_values(|s: String| s@) =~= views_of(sorted@).subrange(0, 0));
        }
        while i < sorted.len()
            invariant
                i <= sorted@.len(),
                views_of(sorted@) == spec_sorted_tokens(self@),
                r@.map_values(|s: String| s@) == views_of(sorted@).subrange(0, i as int),
            decreases sorted@.len() - i,
        {
            let t = string_from_chars(&sorted[i]);
            proof {
                assert(t@ == views_of(sorted@)[i as int]);
            }
            let ghost prev = r@.map_values(|s: String| s@);
            r.push(t);
            i = i + 1;
            proof {
                assert(r@.map_values(|s: String| s@) =~= prev.push(t@));
                assert(prev.push(t@) =~= views_of(sorted@).subrange(0, i as int));
            }
        }
        proof {
            assert(views_of(sorted@).subrange(0, sorted@.len() as int) =~= views_of(sorted@));
        }
        r
    }

    /// Derives the fingerprint: the sorted feature vector is joined with
    /// the sentinel separator and hashed twice. Absent exactly when the
    /// raw agent text is absent.
    pub fn fingerprint(&self) -> (r: Option<String>)
        ensures
            match r {
                Option::None => self@.user_agent is None,
                Option::Some(s) => self@.user_agent is Some && s@ == spec_fingerprint_of(self@)
                    && s@.len() == 64 && (forall|i: int|
                    0 <= i < s@.len() ==> is_lower_hex_char(#[trigger] s@[i])),
            },
    {
        match &self.user_agent {
            Option::None => None,
            Option::Some(ua) => {
                let sorted = self.sorted_tokens_chars(ua.as_str());
                let sep = chars_vec("&%&");
                let joined = join_chars(&sorted, &sep);
                let feature_string = string_from_chars(&joined);
                let first = blake3_hex(feature_string.as_str());
                let second = blake3_hex(first.as_str());
                Some(second)
            },
        }
    }

    /// Derives the family hash: one hashing pass over the canonical
    /// string. Absent exactly when the raw agent text is absent.
    pub fn hash(&self) -> (r: Option<String>)
        ensures
            match r {
                Option::None => self@.user_agent is None,
                Option::Some(s) => self@.user_agent is Some && s@ == spec_family_hash_of(self@)
                    && s@.len() == 64 && (forall|i: int|
                    0 <= i < s@.len() ==> is_lower_hex_char(#[trigger] s@[i])),
            },
    {
        match &self.user_agent {
            Option::None => None,
            Option::Some(ua) => {
                let normalized = self.normalized_string_internal(ua.as_str());
                Some(blake3_hex(normalized.as_str()))
            },
        }
    }

    /// The canonical string of the record, when the raw agent text is
    /// present.
    pub fn normalized_string(&self) -> (r: Option<String>)
        ensures
            match r {
                Option::None => self@.user_agent is None,
                Option::Some(s) => self@.user_agent is Some && s@ == spec_canonical_of(self@),
            },
    {
        match &self.user_agent {
            Option::None => None,
            Option::Some(ua) => Some(self.normalized_string_internal(ua.as_str())),
        }
    }

    /// Builds the canonical string out of the structured groups and the
    /// given raw agent text.
    pub fn normalized_string_internal(&self, ua_string: &str) -> (r: String)
        ensures
            r@ == spec_canonical(self@.product, self@.os, self@.device, ua_string@),
    {
        let cs = canonical_chars(&self.product, &self.os, &self.device, ua_string);
        string_from_chars(&cs)
    }
}

/// Finalizes a record out of the parsed attribute groups, the raw agent
/// text and the source address: the empty agent text is normalized to
/// absence, and both identifiers are derived exactly when the text is
/// present.
pub fn build_record(
    product: Product,
    os: OS,
    device: Device,
    cpu: CPU,
    engine: Engine,
    agent: String,
    ip: String,
) -> (r: UserAgent)
    ensures
        r@.product == product@,
        r@.os == os@,
        r@.device == device@,
        r@.cpu == cpu@,
        r@.engine == engine@,
        r@.ip == Some(ip@),
        r@.user_agent == (if agent@.len() == 0 {
            Option::<Seq<char>>::None
        } else {
            Option::Some(agent@)
        }),
        r@.fingerprint == (if agent@.len() == 0 {
            Option::<Seq<char>>::None
        } else {
            Option::Some(spec_fingerprint_of(r@))
        }),
        r@.hash == (if agent@.len() == 0 {
            Option::<Seq<char>>::None
        } else {
            Option::Some(spec_family_hash_of(r@))
        }),
{
    let user_agent = if agent.as_str().is_empty() {
        Option::None
    } else {
        Option::Some(agent)
    };
    let mut rec = UserAgent {
        ip: Some(ip),
        fingerprint: None,
        hash: None,
        product,
        os,
        device,
        cpu,
        engine,
        user_agent,
    };
    let fp = rec.fingerprint();
    let fh = rec.hash();
    rec.fingerprint = fp;
    rec.hash = fh;
    rec
}

/// Parses an agent string and source address into a finalized record. The
/// attribute groups come from the given parser, so nothing is stated of
/// their values; the raw text, the address and both derived identifiers
/// are pinned down exactly.
pub fn parse(parser: &user_agent_parser::UserAgentParser, agent: &str, ip: &str) -> (r: UserAgent)
    ensures
        r@.ip == Some(ip@),
        r@.engine.patch_minor is None,
        r@.user_agent == (if agent@.len() == 0 {
            Option::<Seq<char>>::None
        } else {
            Option::Some(agent@)
        }),
        r@.fingerprint == (if agent@.len() == 0 {
            Option::<Seq<char>>::None
        } else {
            Option::Some(spec_fingerprint_of(r@))
        }),
        r@.hash == (if agent@.len() == 0 {
            Option::<Seq<char>>::None
        } else {
            Option::Some(spec_family_hash_of(r@))
        }),
{
    let product = parse_product_raw(parser, agent);
    let os = parse_os_raw(parser, agent);
    let device = parse_device_raw(parser, agent);
    let cpu = parse_cpu_raw(parser, agent);
    let engine = parse_engine_raw(parser, agent);
    build_record(product, os, device, cpu, engine, agent.to_owned(), ip.to_owned())
}

} // verus!
