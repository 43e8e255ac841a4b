use vstd::prelude::*;

use crate::canon::{sections_prefix, spec_sections};
use crate::features::{opt_flag, opt_tok, spec_browser_flag_tokens, spec_cpu_tokens,
    spec_device_tokens, spec_engine_tokens, spec_feature_tokens, spec_flag_tokens,
    spec_ip_tokens, spec_os_tokens, spec_platform_tokens, spec_product_tokens,
    spec_stat_tokens};
use crate::strutil::{lemma_sort_contains, spec_contains};
use crate::{UserAgentV, spec_canonical_of, spec_family_hash_of, spec_fingerprint_of,
    spec_sorted_tokens, spec_ua_text};

verus! {

/// Determinism: two records with the same attribute groups, the same raw
/// agent text and the same address derive the same fingerprint and the
/// same family hash.
pub proof fn lemma_derivations_deterministic(a: UserAgentV, b: UserAgentV)
    requires
        a.product == b.product,
        a.os == b.os,
        a.device == b.device,
        a.cpu == b.cpu,
        a.engine == b.engine,
        a.user_agent == b.user_agent,
        a.ip == b.ip,
    ensures
        spec_fingerprint_of(a) == spec_fingerprint_of(b),
        spec_family_hash_of(a) == spec_family_hash_of(b),
{
}

/// The canonical string always carries the raw agent text as its final
/// section, and is never empty when that text is non-empty.
pub proof fn lemma_canonical_ends_with_raw(v: UserAgentV)
    ensures
        spec_ua_text(v).is_suffix_of(spec_canonical_of(v)),
        spec_ua_text(v).len() > 0 ==> spec_canonical_of(v).len() > 0,
{
    let pre = sections_prefix(spec_sections(v.product, v.os, v.device));
    let ua = spec_ua_text(v);
    assert(spec_canonical_of(v) == pre + ua);
    assert((pre + ua).subrange(pre.len() as int, (pre + ua).len() as int) =~= ua);
}

/// The feature vector handed to the hasher is the record's token multiset
/// in lexicographic order: sorting loses nothing and orders everything.
pub proof fn lemma_feature_vector_sorted(v: UserAgentV)
    ensures
        vstd::relations::sorted_by(spec_sorted_tokens(v), crate::strutil::lex_leq_rel()),
        spec_sorted_tokens(v).to_multiset() == spec_feature_tokens(
            v.product,
            v.os,
            v.device,
            v.cpu,
            v.engine,
            spec_ua_text(v),
            v.ip,
        ).to_multiset(),
{
    let toks = spec_feature_tokens(v.product, v.os, v.device, v.cpu, v.engine, spec_ua_text(v), v.ip);
    crate::strutil::lemma_sort_sorted(toks);
    crate::strutil::lemma_sort_permutes(toks);
}

/// The value of a present optional text, or the empty text.
pub open spec fn opt_val(o: Option<Seq<char>>) -> Seq<char> {
    match o {
        Option::Some(v) => v,
        Option::None => Seq::empty(),
    }
}

/// Whether a token carries the operating-system major version tag.
pub open spec fn is_ov_token(t: Seq<char>) -> bool {
    t.len() >= 3 && t[0] == 'o' && t[1] == 'v' && t[2] == ':'
}

proof fn lemma_opt_tok_member(pre: Seq<char>, o: Option<Seq<char>>, t: Seq<char>)
    requires
        opt_tok(pre, o).contains(t),
    ensures
        o is Some,
        t == pre + opt_val(o),
{
}

proof fn lemma_product_token_head(p: crate::model::ProductV, t: Seq<char>)
    requires
        spec_product_tokens(p).contains(t),
    ensures
        t.len() >= 2,
        t[0] == 'b',
{
    broadcast use vstd::seq_lib::lemma_seq_concat_contains_all_elements;

    reveal_strlit("b:");
    reveal_strlit("bv:");
    reveal_strlit("bvm:");
}

proof fn lemma_os_token_shape(o: crate::model::OSV, t: Seq<char>)
    requires
        spec_os_tokens(o).contains(t),
    ensures
        t.len() >= 2,
        t[0] == 'o',
        is_ov_token(t) ==> o.major is Some && t == ("ov:")@ + opt_val(o.major),
{
    broadcast use vstd::seq_lib::lemma_seq_concat_contains_all_elements;

    reveal_strlit("o:");
    reveal_strlit("ov:");
    reveal_strlit("ovm:");
}

proof fn lemma_device_token_head(d: crate::model::DeviceV, t: Seq<char>)
    requires
        spec_device_tokens(d).contains(t),
    ensures
        t.len() >= 2,
        t[0] == 'd',
{
    broadcast use vstd::seq_lib::lemma_seq_concat_contains_all_elements;

    reveal_strlit("d:");
    reveal_strlit("db:");
    reveal_strlit("dm:");
    if opt_tok(("d:")@, d.name).contains(t) {
        lemma_opt_tok_member(("d:")@, d.name, t);
    } else if opt_tok(("db:")@, d.brand).contains(t) {
        lemma_opt_tok_member(("db:")@, d.brand, t);
    } else {
        lemma_opt_tok_member(("dm:")@, d.model, t);
    }
}

proof fn lemma_cpu_token_head(c: crate::model::CPUV, t: Seq<char>)
    requires
        spec_cpu_tokens(c).contains(t),
    ensures
        t.len() >= 2,
        t[0] == 'c',
{
    reveal_strlit("c:");
    lemma_opt_tok_member(("c:")@, c.architecture, t);
}

proof fn lemma_engine_token_head(e: crate::model::EngineV, t: Seq<char>)
    requires
        spec_engine_tokens(e).contains(t),
    ensures
        t.len() >= 2,
        t[0] == 'e',
{
    broadcast use vstd::seq_lib::lemma_seq_concat_contains_all_elements;

    reveal_strlit("e:");
    reveal_strlit("ev:");
    match e.name {
        Option::Some(n) => {
            if opt_tok(("ev:")@, e.major).contains(t) {
                lemma_opt_tok_member(("ev:")@, e.major, t);
            }
        },
        Option::None => {},
    }
}

proof fn lemma_stat_token_head(ua: Seq<char>, t: Seq<char>)
    requires
        spec_stat_tokens(ua).contains(t),
    ensures
        t.len() >= 2,
        t[0] == 'l' || t[0] == 'd' || t[0] == 's' || t[0] == 'w',
{
    reveal_strlit("l:");
    reveal_strlit("d:");
    reveal_strlit("s:");
    reveal_strlit("w:");
    let s = spec_stat_tokens(ua);
    let i = choose|i: int| 0 <= i < s.len() && s[i] == t;
    assert(i == 0 || i == 1 || i == 2 || i == 3);
}

proof fn lemma_opt_flag_member(cond: bool, tok: Seq<char>, t: Seq<char>)
    requires
        opt_flag(cond, tok).contains(t),
    ensures
        t == tok,
        cond,
{
}

proof fn lemma_flag_token_shape(ua: Seq<char>, t: Seq<char>)
    requires
        spec_flag_tokens(ua).contains(t),
    ensures
        t.len() >= 4,
        t[0] == 'f',
        t == ("fs:1")@ ==> spec_contains(ua, ("Safari")@) && !spec_contains(ua, ("Chrome")@),
{
    broadcast use vstd::seq_lib::lemma_seq_concat_contains_all_elements;

    reveal_strlit("fm:1");
    reveal_strlit("faw:1");
    reveal_strlit("fg:1");
    reveal_strlit("fc:1");
    reveal_strlit("fs:1");
    reveal_strlit("ff:1");
    reveal_strlit("fe:1");
    reveal_strlit("fi:1");
    reveal_strlit("fow:1");
    reveal_strlit("fom:1");
    reveal_strlit("fol:1");
    reveal_strlit("foa:1");
    reveal_strlit("foi:1");
    assert(("fm:1")@.index(1) == 'm');
    assert(("faw:1")@.index(1) == 'a');
    assert(("fg:1")@.index(1) == 'g');
    assert(("fc:1")@.index(1) == 'c');
    assert(("fs:1")@.index(1) == 's');
    assert(("ff:1")@.index(1) == 'f');
    assert(("fe:1")@.index(1) == 'e');
    assert(("fi:1")@.index(1) == 'i');
    assert(("fow:1")@.index(1) == 'o');
    assert(("fom:1")@.index(1) == 'o');
    assert(("fol:1")@.index(1) == 'o');
    assert(("foa:1")@.index(1) == 'o');
    assert(("foi:1")@.index(1) == 'o');
    if spec_browser_flag_tokens(ua).contains(t) {
        if opt_flag(spec_contains(ua, ("Mobile")@), ("fm:1")@).contains(t) {
            lemma_opt_flag_member(spec_contains(ua, ("Mobile")@), ("fm:1")@, t);
        } else if opt_flag(spec_contains(ua, ("AppleWebKit")@), ("faw:1")@).contains(t) {
            lemma_opt_flag_member(spec_contains(ua, ("AppleWebKit")@), ("faw:1")@, t);
        } else if opt_flag(spec_contains(ua, ("Gecko")@), ("fg:1")@).contains(t) {
            lemma_opt_flag_member(spec_contains(ua, ("Gecko")@), ("fg:1")@, t);
        } else if opt_flag(spec_contains(ua, ("Chrome")@), ("fc:1")@).contains(t) {
            lemma_opt_flag_member(spec_contains(ua, ("Chrome")@), ("fc:1")@, t);
        } else if opt_flag(
            spec_contains(ua, ("Safari")@) && !spec_contains(ua, ("Chrome")@),
            ("fs:1")@,
        ).contains(t) {
            lemma_opt_flag_member(
                spec_contains(ua, ("Safari")@) && !spec_contains(ua, ("Chrome")@),
                ("fs:1")@,
                t,
            );
        } else if opt_flag(spec_contains(ua, ("Firefox")@), ("ff:1")@).contains(t) {
            lemma_opt_flag_member(spec_contains(ua, ("Firefox")@), ("ff:1")@, t);
        } else if opt_flag(
            spec_contains(ua, ("Edge")@) || spec_contains(ua, ("Edg/")@),
            ("fe:1")@,
        ).contains(t) {
            lemma_opt_flag_member(
                spec_contains(ua, ("Edge")@) || spec_contains(ua, ("Edg/")@),
                ("fe:1")@,
                t,
            );
        } else {
            lemma_opt_flag_member(
                spec_contains(ua, ("MSIE")@) || spec_contains(ua, ("Trident")@),
                ("fi:1")@,
                t,
            );
        }
    } else {
        assert(spec_platform_tokens(ua).contains(t));
    }
}

proof fn lemma_ip_token_head(ip: Option<Seq<char>>, t: Seq<char>)
    requires
        spec_ip_tokens(ip).contains(t),
    ensures
        t.len() >= 4,
        t[0] == 'i',
{
    reveal_strlit("ip4:");
    reveal_strlit("ip6:");
}

proof fn lemma_feature_token_shape(
    p: crate::model::ProductV,
    o: crate::model::OSV,
    d: crate::model::DeviceV,
    c: crate::model::CPUV,
    e: crate::model::EngineV,
    ua: Seq<char>,
    ip: Option<Seq<char>>,
    t: Seq<char>,
)
    requires
        spec_feature_tokens(p, o, d, c, e, ua, ip).contains(t),
    ensures
        is_ov_token(t) ==> o.major is Some && t == ("ov:")@ + opt_val(o.major),
        t == ("fs:1")@ ==> spec_contains(ua, ("Safari")@) && !spec_contains(ua, ("Chrome")@),
{
    broadcast use vstd::seq_lib::lemma_seq_concat_contains_all_elements;

    reveal_strlit("fs:1");
    if spec_product_tokens(p).contains(t) {
        lemma_product_token_head(p, t);
    } else if spec_os_tokens(o).contains(t) {
        lemma_os_token_shape(o, t);
    } else if spec_device_tokens(d).contains(t) {
        lemma_device_token_head(d, t);
    } else if spec_cpu_tokens(c).contains(t) {
        lemma_cpu_token_head(c, t);
    } else if spec_engine_tokens(e).contains(t) {
        lemma_engine_token_head(e, t);
    } else if spec_stat_tokens(ua).contains(t) {
        lemma_stat_token_head(ua, t);
    } else if spec_flag_tokens(ua).contains(t) {
        lemma_flag_token_shape(ua, t);
    } else {
        lemma_ip_token_head(ip, t);
    }
}

/// Sensitivity: changing a present operating-system major version, while
/// every other contributing field and the raw agent text stay fixed,
/// changes the sorted feature token vector.
pub proof fn lemma_os_major_sensitivity(a: UserAgentV, b: UserAgentV)
    requires
        a.product == b.product,
        a.device == b.device,
        a.cpu == b.cpu,
        a.engine == b.engine,
        a.user_agent == b.user_agent,
        a.ip == b.ip,
        a.os.name == b.os.name,
        a.os.minor == b.os.minor,
        a.os.patch == b.os.patch,
        a.os.patch_minor == b.os.patch_minor,
        a.os.name is Some,
        a.os.major is Some,
        b.os.major is Some,
        a.os.major != b.os.major,
    ensures
        spec_sorted_tokens(a) != spec_sorted_tokens(b),
{
    broadcast use vstd::seq_lib::lemma_seq_concat_contains_all_elements;

    reveal_strlit("ov:");
    let ua = spec_ua_text(a);
    let ta = spec_feature_tokens(a.product, a.os, a.device, a.cpu, a.engine, ua, a.ip);
    let tb = spec_feature_tokens(b.product, b.os, b.device, b.cpu, b.engine, spec_ua_text(b), b.ip);
    let ma = opt_val(a.os.major);
    let mb = opt_val(b.os.major);
    let tok = ("ov:")@ + ma;
    assert(spec_os_tokens(a.os)[1] == tok);
    assert(spec_os_tokens(a.os).contains(tok));
    assert(ta.contains(tok));
    lemma_sort_contains(ta, tok);
    if spec_sorted_tokens(a) == spec_sorted_tokens(b) {
        lemma_sort_contains(tb, tok);
        assert(tb.contains(tok));
        lemma_feature_token_shape(b.product, b.os, b.device, b.cpu, b.engine, spec_ua_text(b), b.ip, tok);
        assert(is_ov_token(tok));
        assert(tok == ("ov:")@ + mb);
        assert(ma =~= tok.subrange(3, tok.len() as int));
        assert(mb =~= tok.subrange(3, tok.len() as int));
        assert(a.os.major == Some(ma));
        assert(b.os.major == Some(mb));
        assert(false);
    }
}

/// Priority of the browser-identity flags: raw agent text holding both the
/// Chrome and the Safari substrings emits the Chrome flag and never the
/// Safari-only flag.
pub proof fn lemma_browser_flag_priority(v: UserAgentV)
    requires
        spec_contains(spec_ua_text(v), ("Chrome")@),
        spec_contains(spec_ua_text(v), ("Safari")@),
    ensures
        spec_sorted_tokens(v).contains(("fc:1")@),
        !spec_sorted_tokens(v).contains(("fs:1")@),
{
    broadcast use vstd::seq_lib::lemma_seq_concat_contains_all_elements;

    let ua = spec_ua_text(v);
    let toks = spec_feature_tokens(v.product, v.os, v.device, v.cpu, v.engine, ua, v.ip);
    let fc = opt_flag(spec_contains(ua, ("Chrome")@), ("fc:1")@);
    assert(fc[0] == ("fc:1")@);
    assert(fc.contains(("fc:1")@));
    assert(spec_browser_flag_tokens(ua).contains(("fc:1")@));
    assert(toks.contains(("fc:1")@));
    lemma_sort_contains(toks, ("fc:1")@);
    if spec_sorted_tokens(v).contains(("fs:1")@) {
        lemma_sort_contains(toks, ("fs:1")@);
        lemma_feature_token_shape(v.product, v.os, v.device, v.cpu, v.engine, ua, v.ip, ("fs:1")@);
        assert(false);
    }
}

} // verus!
