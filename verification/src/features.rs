use vstd::prelude::*;

use crate::model::{Product, OS, Device, CPU, Engine, ProductV, OSV, DeviceV, CPUV, EngineV,
    view_opt};
use crate::outside::{char_is_alphanumeric, char_is_whitespace, is_alphanumeric_char,
    is_whitespace_char};
use crate::strutil::{append_str, chars_vec, contains_str, dec_chars, extend_tokens,
    find_char_from, spec_contains, spec_dec, spec_find, sub_chars, views_of};
use vstd::utf8::encode_utf8;

verus! {

/// A tagged token for one optional signal: one token when the value is
/// present, nothing otherwise.
pub open spec fn opt_tok(prefix: Seq<char>, o: Option<Seq<char>>) -> Seq<Seq<char>> {
    match o {
        Option::Some(v) => seq![prefix + v],
        Option::None => Seq::empty(),
    }
}

/// A fixed token gated by a condition.
pub open spec fn opt_flag(cond: bool, tok: Seq<char>) -> Seq<Seq<char>> {
    if cond {
        seq![tok]
    } else {
        Seq::empty()
    }
}

/// The product tokens: name, then major, then major.minor, each deeper
/// token gated on all shallower ones.
pub open spec fn spec_product_tokens(p: ProductV) -> Seq<Seq<char>> {
    match p.name {
        Option::None => Seq::empty(),
        Option::Some(n) => seq![("b:")@ + n] + (match p.major {
            Option::None => Seq::empty(),
            Option::Some(mj) => seq![("bv:")@ + mj] + (match p.minor {
                Option::None => Seq::empty(),
                Option::Some(mn) => seq![("bvm:")@ + mj + (".")@ + mn],
            }),
        }),
    }
}

/// The operating-system tokens, gated like the product tokens.
pub open spec fn spec_os_tokens(o: OSV) -> Seq<Seq<char>> {
    match o.name {
        Option::None => Seq::empty(),
        Option::Some(n) => seq![("o:")@ + n] + (match o.major {
            Option::None => Seq::empty(),
            Option::Some(mj) => seq![("ov:")@ + mj] + (match o.minor {
                Option::None => Seq::empty(),
                Option::Some(mn) => seq![("ovm:")@ + mj + (".")@ + mn],
            }),
        }),
    }
}

/// The device tokens: name, brand and model each contribute independently,
/// ungated on one another, unlike the chained product and system tokens.
pub open spec fn spec_device_tokens(d: DeviceV) -> Seq<Seq<char>> {
    opt_tok(("d:")@, d.name) + opt_tok(("db:")@, d.brand) + opt_tok(("dm:")@, d.model)
}

/// The processor token.
pub open spec fn spec_cpu_tokens(c: CPUV) -> Seq<Seq<char>> {
    opt_tok(("c:")@, c.architecture)
}

/// The engine tokens: the version is gated on the name.
pub open spec fn spec_engine_tokens(e: EngineV) -> Seq<Seq<char>> {
    match e.name {
        Option::None => Seq::empty(),
        Option::Some(n) => seq![("e:")@ + n] + opt_tok(("ev:")@, e.major),
    }
}

/// Whether a character is an ASCII decimal digit.
pub open spec fn spec_is_digit(c: char) -> bool {
    48 <= c as u32 && c as u32 <= 57
}

/// How many characters of the text are ASCII digits.
pub open spec fn count_digits(s: Seq<char>) -> nat
    decreases s.len(),
{
    if s.len() == 0 {
        0
    } else {
        count_digits(s.drop_last()) + (if spec_is_digit(s.last()) {
            1nat
        } else {
            0nat
        })
    }
}

/// How many characters of the text are not alphanumeric.
pub open spec fn count_symbols(s: Seq<char>) -> nat
    decreases s.len(),
{
    if s.len() == 0 {
        0
    } else {
        count_symbols(s.drop_last()) + (if !is_alphanumeric_char(s.last()) {
            1nat
        } else {
            0nat
        })
    }
}

/// How many whitespace-delimited words start in the text, scanning from the
/// left with `prev_ws` saying whether the previous character was whitespace.
pub open spec fn words_rec(s: Seq<char>, prev_ws: bool) -> nat
    decreases s.len(),
{
    if s.len() == 0 {
        0
    } else {
        (if prev_ws && !is_whitespace_char(s[0]) {
            1nat
        } else {
            0nat
        }) + words_rec(s.drop_first(), is_whitespace_char(s[0]))
    }
}

/// How many whitespace-delimited words the text holds.
pub open spec fn count_words(s: Seq<char>) -> nat {
    words_rec(s, true)
}

/// The structural-statistics tokens of the raw agent text: length, digit
/// count, non-alphanumeric count, and word count. The length statistic
/// counts the UTF-8 bytes of the text, not its characters; the two agree on
/// ASCII text, and the byte count is what keeps the hash input stable. The
/// digit-count tag deliberately coincides with the device-name tag: both
/// kinds of token coexist in the vector and feed the same hash input.
pub open spec fn spec_stat_tokens(ua: Seq<char>) -> Seq<Seq<char>> {
    seq![
        ("l:")@ + spec_dec(encode_utf8(ua).len()),
        ("d:")@ + spec_dec(count_digits(ua)),
        ("s:")@ + spec_dec(count_symbols(ua)),
        ("w:")@ + spec_dec(count_words(ua)),
    ]
}

/// The platform token: a mutually exclusive priority chain, first match
/// wins.
pub open spec fn spec_platform_tokens(ua: Seq<char>) -> Seq<Seq<char>> {
    if spec_contains(ua, ("Win")@) {
        seq![("fow:1")@]
    } else if spec_contains(ua, ("Mac")@) {
        seq![("fom:1")@]
    } else if spec_contains(ua, ("Linux")@) {
        seq![("fol:1")@]
    } else if spec_contains(ua, ("Android")@) {
        seq![("foa:1")@]
    } else if spec_contains(ua, ("iOS")@) || spec_contains(ua, ("iPhone")@) || spec_contains(
        ua,
        ("iPad")@,
    ) {
        seq![("foi:1")@]
    } else {
        Seq::empty()
    }
}

/// The capability-flag tokens of the raw agent text. The Safari flag fires
/// only when the Chrome substring is absent.
pub open spec fn spec_flag_tokens(ua: Seq<char>) -> Seq<Seq<char>> {
    spec_browser_flag_tokens(ua) + spec_platform_tokens(ua)
}

/// The network-prefix token of the source address: the first two
/// dot-segments of a dotted address, or the first four colon-segments of a
/// colon-separated one; anything else contributes nothing.
pub open spec fn spec_ip_tokens(ip: Option<Seq<char>>) -> Seq<Seq<char>> {
    match ip {
        Option::None => Seq::empty(),
        Option::Some(a) => {
            let j1 = spec_find(a, '.', 0);
            if j1 < a.len() {
                let j2 = spec_find(a, '.', j1 + 1);
                seq![("ip4:")@ + a.subrange(0, j1) + (".")@ + a.subrange(j1 + 1, j2)]
            } else {
                let k1 = spec_find(a, ':', 0);
                if k1 < a.len() {
                    let k2 = spec_find(a, ':', k1 + 1);
                    if k2 < a.len() {
                        let k3 = spec_find(a, ':', k2 + 1);
                        if k3 < a.len() {
                            let k4 = spec_find(a, ':', k3 + 1);
                            seq![("ip6:")@ + a.subrange(0, k4)]
                        } else {
                            Seq::empty()
                        }
                    } else {
                        Seq::empty()
                    }
                } else {
                    Seq::empty()
                }
            }
        },
    }
}

/// Every feature token of a record, in construction order, before sorting.
pub open spec fn spec_feature_tokens(
    p: ProductV,
    o: OSV,
    d: DeviceV,
    c: CPUV,
    e: EngineV,
    ua: Seq<char>,
    ip: Option<Seq<char>>,
) -> Seq<Seq<char>> {
    spec_product_tokens(p) + spec_os_tokens(o) + spec_device_tokens(d) + spec_cpu_tokens(c)
        + spec_engine_tokens(e) + spec_stat_tokens(ua) + spec_flag_tokens(ua) + spec_ip_tokens(ip)
}

fn make_token(prefix: &str, val: &str) -> (r: Vec<char>)
    ensures
        r@ == prefix@ + val@,
{
    let mut t = chars_vec(prefix);
    append_str(&mut t, val);
    t
}

fn product_tokens_vec(p: &Product) -> (r: Vec<Vec<char>>)
    ensures
        views_of(r@) == spec_product_tokens(p@),
{
    let mut r: Vec<Vec<char>> = Vec::new();
    match &p.name {
        Option::None => {},
        Option::Some(name) => {
            r.push(make_token("b:", name.as_str()));
            match &p.major {
                Option::None => {},
                Option::Some(mj) => {
                    r.push(make_token("bv:", mj.as_str()));
                    match &p.minor {
                        Option::None => {},
                        Option::Some(mn) => {
                            let mut t = make_token("bvm:", mj.as_str());
                            append_str(&mut t, ".");
                            append_str(&mut t, mn.as_str());
                            r.push(t);
                        },
                    }
                },
            }
        },
    }
    proof {
        assert(views_of(r@) =~~= spec_product_tokens(p@));
    }
    r
}

fn os_tokens_vec(o: &OS) -> (r: Vec<Vec<char>>)
    ensures
        views_of(r@) == spec_os_tokens(o@),
{
    let mut r: Vec<Vec<char>> = Vec::new();
    match &o.name {
        Option::None => {},
        Option::Some(name) => {
            r.push(make_token("o:", name.as_str()));
            match &o.major {
                Option::None => {},
                Option::Some(mj) => {
                    r.push(make_token("ov:", mj.as_str()));
                    match &o.minor {
                        Option::None => {},
                        Option::Some(mn) => {
                            let mut t = make_token("ovm:", mj.as_str());
                            append_str(&mut t, ".");
                            append_str(&mut t, mn.as_str());
                            r.push(t);
                        },
                    }
                },
            }
        },
    }
    proof {
        assert(views_of(r@) =~~= spec_os_tokens(o@));
    }
    r
}

fn device_tokens_vec(d: &Device) -> (r: Vec<Vec<char>>)
    ensures
        views_of(r@) == spec_device_tokens(d@),
{
    let mut r: Vec<Vec<char>> = Vec::new();
    match &d.name {
        Option::None => {},
        Option::Some(name) => {
            r.push(make_token("d:", name.as_str()));
        },
    }
    match &d.brand {
        Option::None => {},
        Option::Some(b) => {
            r.push(make_token("db:", b.as_str()));
        },
    }
    match &d.model {
        Option::None => {},
        Option::Some(m) => {
            r.push(make_token("dm:", m.as_str()));
        },
    }
    proof {
        assert(views_of(r@) =~~= spec_device_tokens(d@));
    }
    r
}

fn cpu_tokens_vec(c: &CPU) -> (r: Vec<Vec<char>>)
    ensures
        views_of(r@) == spec_cpu_tokens(c@),
{
    let mut r: Vec<Vec<char>> = Vec::new();
    match &c.architecture {
        Option::None => {},
        Option::Some(a) => {
            r.push(make_token("c:", a.as_str()));
        },
    }
    proof {
        assert(views_of(r@) =~~= spec_cpu_tokens(c@));
    }
    r
}

fn engine_tokens_vec(e: &Engine) -> (r: Vec<Vec<char>>)
    ensures
        views_of(r@) == spec_engine_tokens(e@),
{
    let mut r: Vec<Vec<char>> = Vec::new();
    match &e.name {
        Option::None => {},
        Option::Some(name) => {
            r.push(make_token("e:", name.as_str()));
            match &e.major {
                Option::None => {},
                Option::Some(mj) => {
                    r.push(make_token("ev:", mj.as_str()));
                },
            }
        },
    }
    proof {
        assert(views_of(r@) =~~= spec_engine_tokens(e@));
    }
    r
}

fn is_digit_ch(c: char) -> (r: bool)
    ensures
        r == spec_is_digit(c),
{
    let u = c as u32;
    48 <= u && u <= 57
}

fn count_digits_exec(s: &Vec<char>) -> (count: usize)
    ensures
        count as nat == count_digits(s@),
{
    let mut count: usize = 0;
    let mut i: usize = 0;
    proof {
        assert(s@.subrange(0, 0) =~= Seq::<char>::empty());
    }
    while i < s.len()
        invariant
            i <= s@.len(),
            count <= i,
            count as nat == count_digits(s@.subrange(0, i as int)),
        decreases s@.len() - i,
    {
        if is_digit_ch(s[i]) {
            count = count + 1;
        }
        i = i + 1;
        proof {
            let pre = s@.subrange(0, i - 1);
            let nxt = s@.subrange(0, i as int);
            assert(nxt.drop_last() =~= pre);
            assert(nxt.last() == s@[i - 1]);
        }
    }
    proof {
        assert(s@.subrange(0, s@.len() as int) =~= s@);
    }
    count
}

fn count_symbols_exec(s: &Vec<char>) -> (count: usize)
    ensures
        count as nat == count_symbols(s@),
{
    let mut count: usize = 0;
    let mut i: usize = 0;
    proof {
        assert(s@.subrange(0, 0) =~= Seq::<char>::empty());
    }
    while i < s.len()
        invariant
            i <= s@.len(),
            count <= i,
            count as nat == count_symbols(s@.subrange(0, i as int)),
        decreases s@.len() - i,
    {
        if !char_is_alphanumeric(s[i]) {
            count = count + 1;
        }
        i = i + 1;
        proof {
            let pre = s@.subrange(0, i - 1);
            let nxt = s@.subrange(0, i as int);
            assert(nxt.drop_last() =~= pre);
            assert(nxt.last() == s@[i - 1]);
        }
    }
    proof {
        assert(s@.subrange(0, s@.len() as int) =~= s@);
    }
    count
}

fn count_words_exec(s: &Vec<char>) -> (count: usize)
    ensures
        count as nat == count_words(s@),
{
    let mut count: usize = 0;
    let mut prev_ws = true;
    let mut i: usize = 0;
    proof {
        assert(s@.skip(0) =~= s@);
    }
    while i < s.len()
        invariant
            i <= s@.len(),
            count <= i,
            count_words(s@) == count + words_rec(s@.skip(i as int), prev_ws),
        decreases s@.len() - i,
    {
        let c = s[i];
        let ws = char_is_whitespace(c);
        proof {
            let rest = s@.skip(i as int);
            assert(rest[0] == s@[i as int]);
            assert(rest.drop_first() =~= s@.skip(i as int + 1));
        }
        if prev_ws && !ws {
            count = count + 1;
        }
        prev_ws = ws;
        i = i + 1;
    }
    proof {
        assert(s@.skip(s@.len() as int) =~= Seq::<char>::empty());
    }
    count
}

fn stat_tokens_vec(ua_str: &str, ua: &Vec<char>) -> (r: Vec<Vec<char>>)
    requires
        ua@ == ua_str@,
    ensures
        views_of(r@) == spec_stat_tokens(ua@),
{
    let mut r: Vec<Vec<char>> = Vec::new();
    let blen = ua_str.as_bytes().len();
    let mut tl = chars_vec("l:");
    let dl = dec_chars(blen as u64);
    crate::strutil::append_chars(&mut tl, &dl);
    r.push(tl);
    let digits = count_digits_exec(ua);
    let mut td = chars_vec("d:");
    let dd = dec_chars(digits as u64);
    crate::strutil::append_chars(&mut td, &dd);
    r.push(td);
    let symbols = count_symbols_exec(ua);
    let mut ts = chars_vec("s:");
    let ds = dec_chars(symbols as u64);
    crate::strutil::append_chars(&mut ts, &ds);
    r.push(ts);
    let words = count_words_exec(ua);
    let mut tw = chars_vec("w:");
    let dw = dec_chars(words as u64);
    crate::strutil::append_chars(&mut tw, &dw);
    r.push(tw);
    proof {
        assert(views_of(r@) =~~= spec_stat_tokens(ua@));
    }
    r
}

fn flag_tokens_vec(ua: &Vec<char>) -> (r: Vec<Vec<char>>)
    ensures
        views_of(r@) == spec_flag_tokens(ua@),
{
    let mut r = browser_flags_vec(ua);
    let plat = platform_flags_vec(ua);
    extend_tokens(&mut r, &plat);
    r
}

/// The capability flags before the platform chain.
pub open spec fn spec_browser_flag_tokens(ua: Seq<char>) -> Seq<Seq<char>> {
    opt_flag(spec_contains(ua, ("Mobile")@), ("fm:1")@) + opt_flag(
        spec_contains(ua, ("AppleWebKit")@),
        ("faw:1")@,
    ) + opt_flag(spec_contains(ua, ("Gecko")@), ("fg:1")@) + opt_flag(
        spec_contains(ua, ("Chrome")@),
        ("fc:1")@,
    ) + opt_flag(
        spec_contains(ua, ("Safari")@) && !spec_contains(ua, ("Chrome")@),
        ("fs:1")@,
    ) + opt_flag(spec_contains(ua, ("Firefox")@), ("ff:1")@) + opt_flag(
        spec_contains(ua, ("Edge")@) || spec_contains(ua, ("Edg/")@),
        ("fe:1")@,
    ) + opt_flag(
        spec_contains(ua, ("MSIE")@) || spec_contains(ua, ("Trident")@),
        ("fi:1")@,
    )
}

#[verifier::rlimit(80)]
fn browser_flags_vec(ua: &Vec<char>) -> (r: Vec<Vec<char>>)
    ensures
        views_of(r@) == spec_browser_flag_tokens(ua@),
{
    let ghost u = ua@;
    let mut r: Vec<Vec<char>> = Vec::new();
    let has_chrome = contains_str(ua, "Chrome");
    if contains_str(ua, "Mobile") {
        r.push(chars_vec("fm:1"));
    }
    let ghost a1 = opt_flag(spec_contains(u, ("Mobile")@), ("fm:1")@);
    proof {
        assert(views_of(r@) =~~= a1);
    }
    if contains_str(ua, "AppleWebKit") {
        r.push(chars_vec("faw:1"));
    }
    let ghost a2 = a1 + opt_flag(spec_contains(u, ("AppleWebKit")@), ("faw:1")@);
    proof {
        assert(views_of(r@) =~~= a2);
    }
    if contains_str(ua, "Gecko") {
        r.push(chars_vec("fg:1"));
    }
    let ghost a3 = a2 + opt_flag(spec_contains(u, ("Gecko")@), ("fg:1")@);
    proof {
        assert(views_of(r@) =~~= a3);
    }
    if has_chrome {
        r.push(chars_vec("fc:1"));
    }
    let ghost a4 = a3 + opt_flag(spec_contains(u, ("Chrome")@), ("fc:1")@);
    proof {
        assert(views_of(r@) =~~= a4);
    }
    if contains_str(ua, "Safari") && !has_chrome {
        r.push(chars_vec("fs:1"));
    }
    let ghost a5 = a4 + opt_flag(
        spec_contains(u, ("Safari")@) && !spec_contains(u, ("Chrome")@),
        ("fs:1")@,
    );
    proof {
        assert(views_of(r@) =~~= a5);
    }
    if contains_str(ua, "Firefox") {
        r.push(chars_vec("ff:1"));
    }
    let ghost a6 = a5 + opt_flag(spec_contains(u, ("Firefox")@), ("ff:1")@);
    proof {
        assert(views_of(r@) =~~= a6);
    }
    if contains_str(ua, "Edge") || contains_str(ua, "Edg/") {
        r.push(chars_vec("fe:1"));
    }
    let ghost a7 = a6 + opt_flag(spec_contains(u, ("Edge")@) || spec_contains(u, ("Edg/")@), ("fe:1")@);
    proof {
        assert(views_of(r@) =~~= a7);
    }
    if contains_str(ua, "MSIE") || contains_str(ua, "Trident") {
        r.push(chars_vec("fi:1"));
    }
    let ghost a8 = a7 + opt_flag(
        spec_contains(u, ("MSIE")@) || spec_contains(u, ("Trident")@),
        ("fi:1")@,
    );
    proof {
        assert(views_of(r@) =~~= a8);
        assert(a8 =~~= spec_browser_flag_tokens(u));
    }
    r
}

fn platform_flags_vec(ua: &Vec<char>) -> (r: Vec<Vec<char>>)
    ensures
        views_of(r@) == spec_platform_tokens(ua@),
{
    let mut r: Vec<Vec<char>> = Vec::new();
    if contains_str(ua, "Win") {
        r.push(chars_vec("fow:1"));
    } else if contains_str(ua, "Mac") {
        r.push(chars_vec("fom:1"));
    } else if contains_str(ua, "Linux") {
        r.push(chars_vec("fol:1"));
    } else if contains_str(ua, "Android") {
        r.push(chars_vec("foa:1"));
    } else if contains_str(ua, "iOS") || contains_str(ua, "iPhone") || contains_str(ua, "iPad") {
        r.push(chars_vec("foi:1"));
    }
    proof {
        assert(views_of(r@) =~~= spec_platform_tokens(ua@));
    }
    r
}

fn ip_tokens_vec(ip: &Option<String>) -> (r: Vec<Vec<char>>)
    ensures
        views_of(r@) == spec_ip_tokens(view_opt(*ip)),
{
    let mut r: Vec<Vec<char>> = Vec::new();
    match ip {
        Option::None => {},
        Option::Some(addr) => {
            let a = chars_vec(addr.as_str());
            let j1 = find_char_from(&a, '.', 0);
            if j1 < a.len() {
                let j2 = find_char_from(&a, '.', j1 + 1);
                let mut t = chars_vec("ip4:");
                let s1 = sub_chars(&a, 0, j1);
                crate::strutil::append_chars(&mut t, &s1);
                t.push('.');
                let s2 = sub_chars(&a, j1 + 1, j2);
                crate::strutil::append_chars(&mut t, &s2);
                proof {
                    reveal_strlit(".");
                    assert(t@ =~= ("ip4:")@ + a@.subrange(0, j1 as int) + (".")@ + a@.subrange(
                        j1 + 1,
                        j2 as int,
                    ));
                }
                r.push(t);
            } else {
                let k1 = find_char_from(&a, ':', 0);
                if k1 < a.len() {
                    let k2 = find_char_from(&a, ':', k1 + 1);
                    if k2 < a.len() {
                        let k3 = find_char_from(&a, ':', k2 + 1);
                        if k3 < a.len() {
                            let k4 = find_char_from(&a, ':', k3 + 1);
                            let mut t = chars_vec("ip6:");
                            let s1 = sub_chars(&a, 0, k4);
                            crate::strutil::append_chars(&mut t, &s1);
                            r.push(t);
                        }
                    }
                }
            }
        },
    }
    proof {
        assert(views_of(r@) =~~= spec_ip_tokens(view_opt(*ip)));
    }
    r
}

/// Builds the unsorted feature tokens of a record's signals, in
/// construction order.
pub fn build_feature_tokens(
    p: &Product,
    o: &OS,
    d: &Device,
    c: &CPU,
    e: &Engine,
    ua_str: &str,
    ip: &Option<String>,
) -> (r: Vec<Vec<char>>)
    ensures
        views_of(r@) == spec_feature_tokens(p@, o@, d@, c@, e@, ua_str@, view_opt(*ip)),
{
    let ua = chars_vec(ua_str);
    let mut r = product_tokens_vec(p);
    let t_os = os_tokens_vec(o);
    extend_tokens(&mut r, &t_os);
    let t_dev = device_tokens_vec(d);
    extend_tokens(&mut r, &t_dev);
    let t_cpu = cpu_tokens_vec(c);
    extend_tokens(&mut r, &t_cpu);
    let t_eng = engine_tokens_vec(e);
    extend_tokens(&mut r, &t_eng);
    let t_stat = stat_tokens_vec(ua_str, &ua);
    extend_tokens(&mut r, &t_stat);
    let t_flag = flag_tokens_vec(&ua);
    extend_tokens(&mut r, &t_flag);
    let t_ip = ip_tokens_vec(ip);
    extend_tokens(&mut r, &t_ip);
    proof {
        assert(views_of(r@) =~~= spec_feature_tokens(p@, o@, d@, c@, e@, ua_str@, view_opt(*ip)));
    }
    r
}

} // verus!
