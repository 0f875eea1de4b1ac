//! Service metadata taken from response headers.

use crate::text::{before_first, chars_of, find_char_from, first_index, string_of_range};
use vstd::prelude::*;

verus! {

/// Response headers that carry metadata; each is present or not.
#[derive(Debug, Clone)]
pub struct MetaHeaders {
    pub cf_meta_ip: Option<String>,
    pub cf_meta_colo: Option<String>,
    pub cf_meta_city: Option<String>,
    pub cf_meta_country: Option<String>,
    pub cf_meta_asn: Option<String>,
    pub cf_connecting_ip: Option<String>,
    pub cf_ray: Option<String>,
}

/// Metadata of the edge that answered.
#[derive(Debug, Clone)]
pub struct ServiceMeta {
    pub client_ip: Option<String>,
    pub colo: Option<String>,
    pub city: Option<String>,
    pub country: Option<String>,
    pub asn: Option<String>,
}

/// The data-center code of a ray id `<id>-<colo>`: the text between its first
/// and second `-`.
pub open spec fn colo_of_ray_spec(ray: Seq<char>) -> Option<Seq<char>> {
    match first_index(ray, '-') {
        Some(i) => Some(before_first(ray.skip(i + 1), '-')),
        None => None,
    }
}

/// The data-center code of a ray id.
pub fn colo_from_ray(ray: &str) -> (r: Option<String>)
    ensures
        match r {
            Some(c) => colo_of_ray_spec(ray@) == Some(c@),
            None => colo_of_ray_spec(ray@) is None,
        },
{
    let cs = chars_of(ray);
    let n = cs.len();
    assert(cs@.skip(0) =~= cs@);
    let i = match find_char_from(&cs, '-', 0) {
        Some(i) => i,
        None => {
            return None;
        },
    };
    let a = i + 1;
    let end = match find_char_from(&cs, '-', a) {
        Some(k) => k,
        None => n,
    };
    assert(before_first(cs@.skip(a as int), '-') =~= cs@.subrange(a as int, end as int));
    Some(string_of_range(ray, a, end))
}

fn copy_opt(o: &Option<String>) -> (r: Option<String>)
    ensures
        r == *o,
{
    match o {
        Some(s) => Some(s.clone()),
        None => None,
    }
}

impl ServiceMeta {
    /// Metadata from headers: the `cf-meta-*` headers first; without them the
    /// client address of `cf-connecting-ip` and the data center of `cf-ray`.
    pub fn from_headers(h: &MetaHeaders) -> (r: ServiceMeta)
        ensures
            r.client_ip == if h.cf_meta_ip is Some {
                h.cf_meta_ip
            } else {
                h.cf_connecting_ip
            },
            h.cf_meta_colo is Some ==> r.colo == h.cf_meta_colo,
            h.cf_meta_colo is None ==> match h.cf_ray {
                Some(ray) => match r.colo {
                    Some(c) => colo_of_ray_spec(ray@) == Some(c@),
                    None => colo_of_ray_spec(ray@) is None,
                },
                None => r.colo is None,
            },
            r.city == h.cf_meta_city,
            r.country == h.cf_meta_country,
            r.asn == h.cf_meta_asn,
    {
        let client_ip = if h.cf_meta_ip.is_some() {
            copy_opt(&h.cf_meta_ip)
        } else {
            copy_opt(&h.cf_connecting_ip)
        };
        let colo = if h.cf_meta_colo.is_some() {
            copy_opt(&h.cf_meta_colo)
        } else {
            match &h.cf_ray {
                Some(ray) => colo_from_ray(ray.as_str()),
                None => None,
            }
        };
        ServiceMeta {
            client_ip,
            colo,
            city: copy_opt(&h.cf_meta_city),
            country: copy_opt(&h.cf_meta_country),
            asn: copy_opt(&h.cf_meta_asn),
        }
    }

    /// Whether no field is known.
    pub fn is_empty(&self) -> (r: bool)
        ensures
            r == (self.client_ip is None && self.colo is None && self.city is None && self.country is None
                && self.asn is None),
    {
        self.client_ip.is_none() && self.colo.is_none() && self.city.is_none() && self.country.is_none()
            && self.asn.is_none()
    }
}


/// One object of the service's location list, with the string fields the label
/// is made of.
#[derive(Debug, Clone)]
pub struct LocationRecord {
    pub iata: Option<String>,
    pub colo: Option<String>,
    pub code: Option<String>,
    pub id: Option<String>,
    pub city: Option<String>,
    pub name: Option<String>,
    pub region: Option<String>,
    pub country: Option<String>,
    pub country_name: Option<String>,
}

pub open spec fn field_is(f: Option<String>, v: Seq<char>) -> bool {
    f matches Some(s) && s@ == v
}

/// The record names the data center `colo` under one of its code fields.
pub open spec fn names_colo(r: LocationRecord, colo: Seq<char>) -> bool {
    field_is(r.iata, colo) || field_is(r.colo, colo) || field_is(r.code, colo) || field_is(r.id, colo)
}

/// `i` is the first record that names `colo`.
pub open spec fn is_first_naming(recs: Seq<LocationRecord>, colo: Seq<char>, i: int) -> bool {
    &&& 0 <= i < recs.len()
    &&& names_colo(recs[i], colo)
    &&& forall|j: int| 0 <= j < i ==> !names_colo(#[trigger] recs[j], colo)
}

pub open spec fn or_else(a: Option<String>, b: Option<String>) -> Option<String> {
    if a is Some {
        a
    } else {
        b
    }
}

pub open spec fn then_part(acc: Seq<char>, part: Option<String>) -> Seq<char> {
    match part {
        Some(p) => acc + " - "@ + p@,
        None => acc,
    }
}

/// `colo`, then the city (or name), the region when there is no city, and the
/// country (or country name), joined by " - ".
pub open spec fn server_label_spec(r: LocationRecord, colo: Seq<char>) -> Seq<char> {
    let city = or_else(r.city, r.name);
    let region = if city is None {
        r.region
    } else {
        None
    };
    let country = or_else(r.country, r.country_name);
    then_part(then_part(then_part(colo, city), region), country)
}

/// The label of the server, from the first record naming `colo`.
pub open spec fn server_spec(recs: Seq<LocationRecord>, colo: Seq<char>) -> Option<Seq<char>> {
    if exists|i: int| is_first_naming(recs, colo, i) {
        Some(server_label_spec(recs[choose|i: int| is_first_naming(recs, colo, i)], colo))
    } else {
        None
    }
}

fn field_equals(f: &Option<String>, v: &str) -> (r: bool)
    ensures
        r == field_is(*f, v@),
{
    match f {
        Some(s) => {
            let a = chars_of(s.as_str());
            let b = chars_of(v);
            if a.len() != b.len() {
                return false;
            }
            let mut i: usize = 0;
            while i < a.len()
                invariant
                    *f == Some(*s),
                    a@ == s@,
                    b@ == v@,
                    a@.len() == b@.len(),
                    i <= a@.len(),
                    forall|j: int| 0 <= j < i ==> a@[j] == b@[j],
                decreases a@.len() - i,
            {
                if a[i] != b[i] {
                    assert(a@[i as int] != b@[i as int]);
                    assert(s@ != v@);
                    return false;
                }
                i = i + 1;
            }
            assert(a@ =~= b@);
            true
        },
        None => false,
    }
}

fn append_part(acc: &mut String, part: &Option<String>)
    ensures
        final(acc)@ == then_part(old(acc)@, *part),
{
    match part {
        Some(p) => {
            acc.append(" - ");
            acc.append(p.as_str());
            assert(final(acc)@ =~= old(acc)@ + " - "@ + p@);
        },
        None => {},
    }
}

fn first_of(a: &Option<String>, b: &Option<String>) -> (r: Option<String>)
    ensures
        r == or_else(*a, *b),
{
    if a.is_some() {
        copy_opt(a)
    } else {
        copy_opt(b)
    }
}

/// Display name of the server for the data center `colo`: the label of the first
/// location record that names it.
pub fn map_colo_to_server(records: &Vec<LocationRecord>, colo: &str) -> (r: Option<String>)
    ensures
        match r {
            Some(label) => server_spec(records@, colo@) == Some(label@),
            None => server_spec(records@, colo@) is None,
        },
{
    let mut i: usize = 0;
    while i < records.len()
        invariant
            i <= records@.len(),
            forall|j: int| 0 <= j < i ==> !names_colo(#[trigger] records@[j], colo@),
        decreases records@.len() - i,
    {
        let rec = &records[i];
        let hit = field_equals(&rec.iata, colo) || field_equals(&rec.colo, colo) || field_equals(
            &rec.code,
            colo,
        ) || field_equals(&rec.id, colo);
        if hit {
            proof {
                assert(is_first_naming(records@, colo@, i as int));
                assert forall|m: int| is_first_naming(records@, colo@, m) implies m == i by {
                    if m < i {
                        assert(!names_colo(records@[m], colo@));
                    } else if m > i {
                        assert(names_colo(records@[i as int], colo@));
                    }
                }
            }
            let city = first_of(&rec.city, &rec.name);
            let region = if city.is_none() {
                copy_opt(&rec.region)
            } else {
                None
            };
            let country = first_of(&rec.country, &rec.country_name);
            let mut label = String::from_str(colo);
            append_part(&mut label, &city);
            append_part(&mut label, &region);
            append_part(&mut label, &country);
            return Some(label);
        }
        i = i + 1;
    }
    assert forall|m: int| !is_first_naming(records@, colo@, m) by {
        if 0 <= m < records@.len() {
            assert(!names_colo(records@[m], colo@));
        }
    }
    None
}

} // verus!
