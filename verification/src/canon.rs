use vstd::prelude::*;

use crate::model::{Product, OS, Device, ProductV, OSV, DeviceV, view_opt};
use crate::strutil::{append_chars, append_str, chars_vec, join_chars, spec_join, views_of};

verus! {

/// A present value as a one-element list, absence as the empty list.
pub open spec fn opt_one(o: Option<Seq<char>>) -> Seq<Seq<char>> {
    match o {
        Option::Some(v) => seq![v],
        Option::None => Seq::empty(),
    }
}

/// The present values of a list of optional fields, in order.
pub open spec fn opt_parts(parts: Seq<Option<Seq<char>>>) -> Seq<Seq<char>>
    decreases parts.len(),
{
    if parts.len() == 0 {
        Seq::empty()
    } else {
        opt_parts(parts.drop_last()) + opt_one(parts.last())
    }
}

/// The fields of the product group, in canonical order.
pub open spec fn product_fields(p: ProductV) -> Seq<Option<Seq<char>>> {
    seq![p.name, p.major, p.minor, p.patch]
}

/// The fields of the operating-system group, in canonical order.
pub open spec fn os_fields(o: OSV) -> Seq<Option<Seq<char>>> {
    seq![o.name, o.major, o.minor, o.patch, o.patch_minor]
}

/// The fields of the device group, in canonical order.
pub open spec fn device_fields(d: DeviceV) -> Seq<Option<Seq<char>>> {
    seq![d.name, d.brand, d.model]
}

/// A group's string: its present fields joined with dots.
pub open spec fn group_string(fields: Seq<Option<Seq<char>>>) -> Seq<char> {
    spec_join(opt_parts(fields), seq!['.'])
}

/// A group's string as a section list: kept only when non-empty.
pub open spec fn group_section(fields: Seq<Option<Seq<char>>>) -> Seq<Seq<char>> {
    if group_string(fields).len() > 0 {
        seq![group_string(fields)]
    } else {
        Seq::empty()
    }
}

/// The non-empty structured sections of the canonical string, in order:
/// product, operating system, device.
pub open spec fn spec_sections(p: ProductV, o: OSV, d: DeviceV) -> Seq<Seq<char>> {
    group_section(product_fields(p)) + group_section(os_fields(o)) + group_section(
        device_fields(d),
    )
}

/// The sections each followed by the section delimiter.
pub open spec fn sections_prefix(sections: Seq<Seq<char>>) -> Seq<char>
    decreases sections.len(),
{
    if sections.len() == 0 {
        Seq::empty()
    } else {
        sections_prefix(sections.drop_last()) + sections.last() + seq!['|']
    }
}

/// The canonical string: every non-empty structured group as a section,
/// then the raw agent text as the final section, all delimited by pipes.
pub open spec fn spec_canonical(p: ProductV, o: OSV, d: DeviceV, ua: Seq<char>) -> Seq<char> {
    sections_prefix(spec_sections(p, o, d)) + ua
}

/// Appends a field's characters to the part list when the field is present.
fn push_part(parts: &mut Vec<Vec<char>>, field: &Option<String>)
    ensures
        views_of(final(parts)@) == views_of(old(parts)@) + opt_one(view_opt(*field)),
{
    match field {
        Option::Some(s) => {
            let cs = chars_vec(s.as_str());
            parts.push(cs);
            proof {
                assert(views_of(parts@) =~= views_of(old(parts)@) + opt_one(view_opt(*field)));
            }
        },
        Option::None => {
            proof {
                assert(views_of(parts@) =~= views_of(old(parts)@) + opt_one(view_opt(*field)));
            }
        },
    }
}

/// Joins the present fields of the product group with dots.
pub fn product_group_chars(p: &Product) -> (r: Vec<char>)
    ensures
        r@ == group_string(product_fields(p@)),
{
    let mut parts: Vec<Vec<char>> = Vec::new();
    proof {
        assert(views_of(parts@) =~= Seq::<Seq<char>>::empty());
    }
    push_part(&mut parts, &p.name);
    push_part(&mut parts, &p.major);
    push_part(&mut parts, &p.minor);
    push_part(&mut parts, &p.patch);
    proof {
        reveal_with_fuel(opt_parts, 6);
        let fs = product_fields(p@);
        assert(fs.drop_last() =~= seq![p@.name, p@.major, p@.minor]);
        assert(fs.drop_last().drop_last() =~= seq![p@.name, p@.major]);
        assert(fs.drop_last().drop_last().drop_last() =~= seq![p@.name]);
        assert(seq![p@.name].drop_last() =~= Seq::<Option<Seq<char>>>::empty());
        assert(views_of(parts@) =~= opt_parts(fs));
    }
    let mut sep: Vec<char> = Vec::new();
    sep.push('.');
    proof {
        assert(sep@ =~= seq!['.']);
    }
    join_chars(&parts, &sep)
}

/// Joins the present fields of the operating-system group with dots.
pub fn os_group_chars(o: &OS) -> (r: Vec<char>)
    ensures
        r@ == group_string(os_fields(o@)),
{
    let mut parts: Vec<Vec<char>> = Vec::new();
    proof {
        assert(views_of(parts@) =~= Seq::<Seq<char>>::empty());
    }
    push_part(&mut parts, &o.name);
    push_part(&mut parts, &o.major);
    push_part(&mut parts, &o.minor);
    push_part(&mut parts, &o.patch);
    push_part(&mut parts, &o.patch_minor);
    proof {
        reveal_with_fuel(opt_parts, 7);
        let fs = os_fields(o@);
        assert(fs.drop_last() =~= seq![o@.name, o@.major, o@.minor, o@.patch]);
        assert(fs.drop_last().drop_last() =~= seq![o@.name, o@.major, o@.minor]);
        assert(fs.drop_last().drop_last().drop_last() =~= seq![o@.name, o@.major]);
        assert(fs.drop_last().drop_last().drop_last().drop_last() =~= seq![o@.name]);
        assert(seq![o@.name].drop_last() =~= Seq::<Option<Seq<char>>>::empty());
        assert(views_of(parts@) =~= opt_parts(fs));
    }
    let mut sep: Vec<char> = Vec::new();
    sep.push('.');
    proof {
        assert(sep@ =~= seq!['.']);
    }
    join_chars(&parts, &sep)
}

/// Joins the present fields of the device group with dots.
pub fn device_group_chars(d: &Device) -> (r: Vec<char>)
    ensures
        r@ == group_string(device_fields(d@)),
{
    let mut parts: Vec<Vec<char>> = Vec::new();
    proof {
        assert(views_of(parts@) =~= Seq::<Seq<char>>::empty());
    }
    push_part(&mut parts, &d.name);
    push_part(&mut parts, &d.brand);
    push_part(&mut parts, &d.model);
    proof {
        reveal_with_fuel(opt_parts, 5);
        let fs = device_fields(d@);
        assert(fs.drop_last() =~= seq![d@.name, d@.brand]);
        assert(fs.drop_last().drop_last() =~= seq![d@.name]);
        assert(seq![d@.name].drop_last() =~= Seq::<Option<Seq<char>>>::empty());
        assert(views_of(parts@) =~= opt_parts(fs));
    }
    let mut sep: Vec<char> = Vec::new();
    sep.push('.');
    proof {
        assert(sep@ =~= seq!['.']);
    }
    join_chars(&parts, &sep)
}

/// Builds the canonical string of a record's structured groups and raw
/// agent text, as characters.
pub fn canonical_chars(p: &Product, o: &OS, d: &Device, ua: &str) -> (r: Vec<char>)
    ensures
        r@ == spec_canonical(p@, o@, d@, ua@),
{
    let gp = product_group_chars(p);
    let go = os_group_chars(o);
    let gd = device_group_chars(d);
    let mut sections: Vec<Vec<char>> = Vec::new();
    proof {
        assert(views_of(sections@) =~= Seq::<Seq<char>>::empty());
    }
    if gp.len() > 0 {
        sections.push(gp);
    }
    proof {
        assert(views_of(sections@) =~= group_section(product_fields(p@)));
    }
    if go.len() > 0 {
        sections.push(go);
    }
    proof {
        assert(views_of(sections@) =~= group_section(product_fields(p@)) + group_section(
            os_fields(o@),
        ));
    }
    if gd.len() > 0 {
        sections.push(gd);
    }
    proof {
        assert(views_of(sections@) =~= spec_sections(p@, o@, d@));
    }
    let ghost secs = spec_sections(p@, o@, d@);
    let mut out: Vec<char> = Vec::new();
    let mut i: usize = 0;
    proof {
        assert(out@ =~= sections_prefix(secs.subrange(0, 0)));
    }
    while i < sections.len()
        invariant
            i <= sections@.len(),
            views_of(sections@) == secs,
            out@ == sections_prefix(secs.subrange(0, i as int)),
        decreases sections@.len() - i,
    {
        proof {
            assert(views_of(sections@)[i as int] == sections@[i as int]@);
        }
        append_chars(&mut out, &sections[i]);
        out.push('|');
        proof {
            let pre = secs.subrange(0, i as int);
            let nxt = secs.subrange(0, i + 1);
            assert(nxt.drop_last() =~= pre);
            assert(nxt.last() == secs[i as int]);
            assert(out@ =~= sections_prefix(pre) + secs[i as int] + seq!['|']);
        }
        i = i + 1;
    }
    proof {
        assert(secs.subrange(0, sections@.len() as int) =~= secs);
    }
    append_str(&mut out, ua);
    out
}

} // verus!
