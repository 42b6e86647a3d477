//! Per-document semantic validation and the fold of many documents
//! into one combined document: version and name overwritten, services
//! always merged, the optional sections merged when both sides have
//! them.

use vstd::prelude::*;

use crate::eval::strs_model;
use crate::schema::{Compose, ConfigDef, Network, SecretDef, Service, Volume};

verus! {

/// The first position at or after `j` whose key reads `k`, or the
/// length when no key does.
pub open spec fn assoc_key_index_e<V>(a: Seq<(String, V)>, k: Seq<char>, j: int) -> int
    decreases a.len() - j,
{
    if j < 0 || j >= a.len() {
        a.len() as int
    } else if a[j].0@ == k {
        j
    } else {
        assoc_key_index_e(a, k, j + 1)
    }
}

/// The value under a key, by its first occurrence.
pub open spec fn assoc_get_e<V>(a: Seq<(String, V)>, k: Seq<char>) -> Option<V> {
    let i = assoc_key_index_e(a, k, 0);
    if i < a.len() {
        Option::Some(a[i].1)
    } else {
        Option::None
    }
}

/// Bind a key: replace the value in place when the key is present
/// (keeping its position), else append the pair.
pub open spec fn assoc_set_e<V>(a: Seq<(String, V)>, k: String, v: V) -> Seq<(String, V)> {
    let i = assoc_key_index_e(a, k@, 0);
    if i < a.len() {
        a.update(i, (a[i].0, v))
    } else {
        a.push((k, v))
    }
}

/// Fold the entries of `b` from `i` on into `a`, overwriting on key
/// collision.
pub open spec fn extend_assoc_e<V>(a: Seq<(String, V)>, b: Seq<(String, V)>, i: int) -> Seq<
    (String, V),
>
    decreases b.len() - i,
{
    if i < 0 || i >= b.len() {
        a
    } else {
        extend_assoc_e(assoc_set_e(a, b[i].0, b[i].1), b, i + 1)
    }
}

pub open spec fn opt_vec_view<V>(o: Option<Vec<(String, V)>>) -> Option<Seq<(String, V)>> {
    match o {
        Option::Some(v) => Option::Some(v@),
        Option::None => Option::None,
    }
}

/// An optional section after one merge step: both sides extend, one
/// side adopts, neither stays absent.
pub open spec fn merge_section_e<V>(a: Option<Seq<(String, V)>>, b: Option<Seq<(String, V)>>) -> Option<
    Seq<(String, V)>,
> {
    match b {
        Option::Some(y) => match a {
            Option::Some(x) => Option::Some(extend_assoc_e(x, y, 0)),
            Option::None => Option::Some(y),
        },
        Option::None => a,
    }
}

/// The combined accumulator, as sequences.
pub struct Combined {
    pub version: Option<String>,
    pub name: Option<String>,
    pub services: Seq<(String, Service)>,
    pub networks: Option<Seq<(String, Option<Network>)>>,
    pub volumes: Option<Seq<(String, Option<Volume>)>>,
    pub configs: Option<Seq<(String, ConfigDef)>>,
    pub secrets: Option<Seq<(String, SecretDef)>>,
}

pub open spec fn combined_of(c: Compose) -> Combined {
    Combined {
        version: c.version,
        name: c.name,
        services: c.services@,
        networks: opt_vec_view(c.networks),
        volumes: opt_vec_view(c.volumes),
        configs: opt_vec_view(c.configs),
        secrets: opt_vec_view(c.secrets),
    }
}

pub open spec fn empty_combined() -> Combined {
    Combined {
        version: Option::None,
        name: Option::None,
        services: Seq::empty(),
        networks: Option::None,
        volumes: Option::None,
        configs: Option::None,
        secrets: Option::None,
    }
}

/// One merge step: version and name overwritten by the newer document,
/// services always extended, each optional section merged.
pub open spec fn merge_doc_m(acc: Combined, d: Compose) -> Combined {
    Combined {
        version: d.version,
        name: d.name,
        services: extend_assoc_e(acc.services, d.services@, 0),
        networks: merge_section_e(acc.networks, opt_vec_view(d.networks)),
        volumes: merge_section_e(acc.volumes, opt_vec_view(d.volumes)),
        configs: merge_section_e(acc.configs, opt_vec_view(d.configs)),
        secrets: merge_section_e(acc.secrets, opt_vec_view(d.secrets)),
    }
}

pub open spec fn no_image_msg(id: Seq<char>, name: Seq<char>) -> Seq<char> {
    id + ": service \""@ + name + "\" has neither an image nor a build context specified"@
}

pub open spec fn host_ports_msg(id: Seq<char>, name: Seq<char>) -> Seq<char> {
    id + ": service \""@ + name + "\" cannot have port mappings due to host network mode"@
}

pub open spec fn conflict_msg(id: Seq<char>, kind: Seq<char>, name: Seq<char>) -> Seq<char> {
    id + ": conflicting parameters for "@ + kind + " \""@ + name + "\""@
}

/// The first constraint a service breaks: it must name an image or a
/// build context, and a host-network service must not map ports.
pub open spec fn service_violation_m(id: Seq<char>, name: Seq<char>, s: Service) -> Option<
    Seq<char>,
> {
    if s.build is None && s.image is None {
        Option::Some(no_image_msg(id, name))
    } else if (match s.network_mode {
        Option::Some(m) => m@ == "host"@,
        Option::None => false,
    }) && s.ports is Some {
        Option::Some(host_ports_msg(id, name))
    } else {
        Option::None
    }
}

pub open spec fn services_violation_m(id: Seq<char>, svcs: Seq<(String, Service)>, i: int) -> Option<
    Seq<char>,
>
    decreases svcs.len() - i,
{
    if i < 0 || i >= svcs.len() {
        Option::None
    } else {
        match service_violation_m(id, svcs[i].0@, svcs[i].1) {
            Option::Some(e) => Option::Some(e),
            Option::None => services_violation_m(id, svcs, i + 1),
        }
    }
}

/// An external network must not also configure itself.
pub open spec fn network_conflict(n: Network) -> bool {
    n.external == Option::Some(true) && (n.driver is Some || n.driver_opts is Some
        || n.enable_ipv6 is Some || n.ipam is Some || n.internal is Some || n.labels is Some)
}

pub open spec fn networks_violation_m(
    id: Seq<char>,
    nets: Seq<(String, Option<Network>)>,
    i: int,
) -> Option<Seq<char>>
    decreases nets.len() - i,
{
    if i < 0 || i >= nets.len() {
        Option::None
    } else {
        match nets[i].1 {
            Option::Some(n) => if network_conflict(n) {
                Option::Some(conflict_msg(id, "network"@, nets[i].0@))
            } else {
                networks_violation_m(id, nets, i + 1)
            },
            Option::None => networks_violation_m(id, nets, i + 1),
        }
    }
}

pub open spec fn volume_conflict(v: Volume) -> bool {
    v.external == Option::Some(true) && (v.driver is Some || v.driver_opts is Some
        || v.labels is Some)
}

pub open spec fn volumes_violation_m(
    id: Seq<char>,
    vols: Seq<(String, Option<Volume>)>,
    i: int,
) -> Option<Seq<char>>
    decreases vols.len() - i,
{
    if i < 0 || i >= vols.len() {
        Option::None
    } else {
        match vols[i].1 {
            Option::Some(v) => if volume_conflict(v) {
                Option::Some(conflict_msg(id, "volume"@, vols[i].0@))
            } else {
                volumes_violation_m(id, vols, i + 1)
            },
            Option::None => volumes_violation_m(id, vols, i + 1),
        }
    }
}

pub open spec fn config_conflict(c: ConfigDef) -> bool {
    c.external == Option::Some(true) && c.file is Some
}

pub open spec fn configs_violation_m(id: Seq<char>, cfgs: Seq<(String, ConfigDef)>, i: int) -> Option<
    Seq<char>,
>
    decreases cfgs.len() - i,
{
    if i < 0 || i >= cfgs.len() {
        Option::None
    } else {
        if config_conflict(cfgs[i].1) {
            Option::Some(conflict_msg(id, "config"@, cfgs[i].0@))
        } else {
            configs_violation_m(id, cfgs, i + 1)
        }
    }
}

pub open spec fn secret_conflict(c: SecretDef) -> bool {
    c.external == Option::Some(true) && (c.file is Some || c.environment is Some)
}

pub open spec fn secrets_violation_m(id: Seq<char>, secs: Seq<(String, SecretDef)>, i: int) -> Option<
    Seq<char>,
>
    decreases secs.len() - i,
{
    if i < 0 || i >= secs.len() {
        Option::None
    } else {
        if secret_conflict(secs[i].1) {
            Option::Some(conflict_msg(id, "secret"@, secs[i].0@))
        } else {
            secrets_violation_m(id, secs, i + 1)
        }
    }
}

/// The first constraint a document breaks, sections in order:
/// services, networks, volumes, configs, secrets.
pub open spec fn validate_doc_m(id: Seq<char>, d: Compose) -> Option<Seq<char>> {
    match services_violation_m(id, d.services@, 0) {
        Option::Some(e) => Option::Some(e),
        Option::None => match (match d.networks {
            Option::Some(v) => networks_violation_m(id, v@, 0),
            Option::None => Option::None,
        }) {
            Option::Some(e) => Option::Some(e),
            Option::None => match (match d.volumes {
                Option::Some(v) => volumes_violation_m(id, v@, 0),
                Option::None => Option::None,
            }) {
                Option::Some(e) => Option::Some(e),
                Option::None => match (match d.configs {
                    Option::Some(v) => configs_violation_m(id, v@, 0),
                    Option::None => Option::None,
                }) {
                    Option::Some(e) => Option::Some(e),
                    Option::None => match d.secrets {
                        Option::Some(v) => secrets_violation_m(id, v@, 0),
                        Option::None => Option::None,
                    },
                },
            },
        },
    }
}

/// The documents folded in order: each is validated, then merged; the
/// first violation fails the whole pipeline.
pub open spec fn merge_docs_m(docs: Seq<(String, Compose)>, i: int, acc: Combined) -> Result<
    Combined,
    Seq<char>,
>
    decreases docs.len() - i,
{
    if i < 0 || i >= docs.len() {
        Ok(acc)
    } else {
        match validate_doc_m(docs[i].0@, docs[i].1) {
            Option::Some(e) => Err(e),
            Option::None => merge_docs_m(docs, i + 1, merge_doc_m(acc, docs[i].1)),
        }
    }
}

fn str_field_is(v: &Option<String>, lit: &str) -> (b: bool)
    ensures
        b == match v {
            Option::Some(m) => m@ == lit@,
            Option::None => false,
        },
{
    match v {
        Option::Some(m) => m.eq(&String::from_str(lit)),
        Option::None => false,
    }
}

fn build_service_msg(id: &String, name: &String, tail: &str) -> (r: String)
    ensures
        r@ == id@ + ": service \""@ + name@ + tail@,
{
    let mut m = id.clone();
    m.append(": service \"");
    m.append(name.as_str());
    m.append(tail);
    proof {
        assert(m@ =~= id@ + ": service \""@ + name@ + tail@);
    }
    m
}

fn build_conflict_msg(id: &String, kind: &str, name: &String) -> (r: String)
    ensures
        r@ == conflict_msg(id@, kind@, name@),
{
    let mut m = id.clone();
    m.append(": conflicting parameters for ");
    m.append(kind);
    m.append(" \"");
    m.append(name.as_str());
    m.append("\"");
    proof {
        assert(m@ =~= conflict_msg(id@, kind@, name@));
    }
    m
}

fn validate_services(id: &String, svcs: &Vec<(String, Service)>) -> (r: Option<String>)
    ensures
        match r {
            Option::Some(e) => services_violation_m(id@, svcs@, 0) == Option::Some(e@),
            Option::None => services_violation_m(id@, svcs@, 0) is None,
        },
{
    let mut i: usize = 0;
    while i < svcs.len()
        invariant
            i <= svcs@.len(),
            services_violation_m(id@, svcs@, 0) == services_violation_m(id@, svcs@, i as int),
        decreases svcs@.len() - i,
    {
        let s = &svcs[i].1;
        if s.build.is_none() && s.image.is_none() {
            let e = build_service_msg(
                id,
                &svcs[i].0,
                "\" has neither an image nor a build context specified",
            );
            proof {
                assert(e@ =~= no_image_msg(id@, svcs@[i as int].0@));
            }
            return Some(e);
        }
        if str_field_is(&s.network_mode, "host") && s.ports.is_some() {
            let e = build_service_msg(
                id,
                &svcs[i].0,
                "\" cannot have port mappings due to host network mode",
            );
            proof {
                assert(e@ =~= host_ports_msg(id@, svcs@[i as int].0@));
            }
            return Some(e);
        }
        i = i + 1;
    }
    None
}

fn validate_networks(id: &String, nets: &Vec<(String, Option<Network>)>) -> (r: Option<String>)
    ensures
        match r {
            Option::Some(e) => networks_violation_m(id@, nets@, 0) == Option::Some(e@),
            Option::None => networks_violation_m(id@, nets@, 0) is None,
        },
{
    let mut i: usize = 0;
    while i < nets.len()
        invariant
            i <= nets@.len(),
            networks_violation_m(id@, nets@, 0) == networks_violation_m(id@, nets@, i as int),
        decreases nets@.len() - i,
    {
        match &nets[i].1 {
            Some(n) => {
                if (match &n.external {
                    Some(b) => *b,
                    None => false,
                }) && (n.driver.is_some() || n.driver_opts.is_some() || n.enable_ipv6.is_some()
                    || n.ipam.is_some() || n.internal.is_some() || n.labels.is_some()) {
                    return Some(build_conflict_msg(id, "network", &nets[i].0));
                }
            },
            None => {},
        }
        i = i + 1;
    }
    None
}

fn validate_volumes(id: &String, vols: &Vec<(String, Option<Volume>)>) -> (r: Option<String>)
    ensures
        match r {
            Option::Some(e) => volumes_violation_m(id@, vols@, 0) == Option::Some(e@),
            Option::None => volumes_violation_m(id@, vols@, 0) is None,
        },
{
    let mut i: usize = 0;
    while i < vols.len()
        invariant
            i <= vols@.len(),
            volumes_violation_m(id@, vols@, 0) == volumes_violation_m(id@, vols@, i as int),
        decreases vols@.len() - i,
    {
        match &vols[i].1 {
            Some(v) => {
                if (match &v.external {
                    Some(b) => *b,
                    None => false,
                }) && (v.driver.is_some() || v.driver_opts.is_some() || v.labels.is_some()) {
                    return Some(build_conflict_msg(id, "volume", &vols[i].0));
                }
            },
            None => {},
        }
        i = i + 1;
    }
    None
}

fn validate_configs(id: &String, cfgs: &Vec<(String, ConfigDef)>) -> (r: Option<String>)
    ensures
        match r {
            Option::Some(e) => configs_violation_m(id@, cfgs@, 0) == Option::Some(e@),
            Option::None => configs_violation_m(id@, cfgs@, 0) is None,
        },
{
    let mut i: usize = 0;
    while i < cfgs.len()
        invariant
            i <= cfgs@.len(),
            configs_violation_m(id@, cfgs@, 0) == configs_violation_m(id@, cfgs@, i as int),
        decreases cfgs@.len() - i,
    {
        let c = &cfgs[i].1;
        if (match &c.external {
            Some(b) => *b,
            None => false,
        }) && c.file.is_some() {
            return Some(build_conflict_msg(id, "config", &cfgs[i].0));
        }
        i = i + 1;
    }
    None
}

fn validate_secrets(id: &String, secs: &Vec<(String, SecretDef)>) -> (r: Option<String>)
    ensures
        match r {
            Option::Some(e) => secrets_violation_m(id@, secs@, 0) == Option::Some(e@),
            Option::None => secrets_violation_m(id@, secs@, 0) is None,
        },
{
    let mut i: usize = 0;
    while i < secs.len()
        invariant
            i <= secs@.len(),
            secrets_violation_m(id@, secs@, 0) == secrets_violation_m(id@, secs@, i as int),
        decreases secs@.len() - i,
    {
        let c = &secs[i].1;
        if (match &c.external {
            Some(b) => *b,
            None => false,
        }) && (c.file.is_some() || c.environment.is_some()) {
            return Some(build_conflict_msg(id, "secret", &secs[i].0));
        }
        i = i + 1;
    }
    None
}

/// The first constraint the document breaks, or nothing.
pub fn validate_document(id: &String, d: &Compose) -> (r: Option<String>)
    ensures
        match r {
            Option::Some(e) => validate_doc_m(id@, *d) == Option::Some(e@),
            Option::None => validate_doc_m(id@, *d) is None,
        },
{
    if let Some(e) = validate_services(id, &d.services) {
        return Some(e);
    }
    if let Some(nets) = &d.networks {
        if let Some(e) = validate_networks(id, nets) {
            return Some(e);
        }
    }
    if let Some(vols) = &d.volumes {
        if let Some(e) = validate_volumes(id, vols) {
            return Some(e);
        }
    }
    if let Some(cfgs) = &d.configs {
        if let Some(e) = validate_configs(id, cfgs) {
            return Some(e);
        }
    }
    if let Some(secs) = &d.secrets {
        if let Some(e) = validate_secrets(id, secs) {
            return Some(e);
        }
    }
    None
}

fn assoc_position<V>(a: &Vec<(String, V)>, k: &String) -> (r: usize)
    ensures
        r as int == assoc_key_index_e(a@, k@, 0),
        r <= a@.len(),
{
    let mut j: usize = 0;
    while j < a.len()
        invariant
            j <= a@.len(),
            assoc_key_index_e(a@, k@, 0) == assoc_key_index_e(a@, k@, j as int),
        decreases a@.len() - j,
    {
        if a[j].0.eq(k) {
            return j;
        }
        j = j + 1;
    }
    j
}

fn extend_assoc_vec<V>(a: Vec<(String, V)>, b: Vec<(String, V)>) -> (r: Vec<(String, V)>)
    ensures
        r@ == extend_assoc_e(a@, b@, 0),
{
    let ghost a0 = a@;
    let ghost b0 = b@;
    let mut a = a;
    let mut b = b;
    let ghost mut j: int = 0;
    while b.len() > 0
        invariant
            0 <= j <= b0.len(),
            b@ == b0.subrange(j, b0.len() as int),
            extend_assoc_e(a0, b0, 0) == extend_assoc_e(a@, b0, j),
        decreases b@.len(),
    {
        let kv = b.remove(0);
        proof {
            assert(b0[j] == kv);
        }
        let ghost a_pre = a@;
        let p = assoc_position(&a, &kv.0);
        if p < a.len() {
            let old_pair = a.remove(p);
            a.insert(p, (old_pair.0, kv.1));
            proof {
                assert(a@ =~= a_pre.update(p as int, (a_pre[p as int].0, b0[j].1)));
                assert(a@ == assoc_set_e(a_pre, b0[j].0, b0[j].1));
            }
        } else {
            a.push(kv);
            proof {
                assert(a@ == assoc_set_e(a_pre, b0[j].0, b0[j].1));
            }
        }
        proof {
            j = j + 1;
            assert(b@ =~= b0.subrange(j, b0.len() as int));
        }
    }
    proof {
        assert(b0.subrange(j, b0.len() as int).len() == 0);
    }
    a
}

fn merge_section_vec<V>(a: Option<Vec<(String, V)>>, b: Option<Vec<(String, V)>>) -> (r: Option<
    Vec<(String, V)>,
>)
    ensures
        opt_vec_view(r) == merge_section_e(opt_vec_view(a), opt_vec_view(b)),
{
    match b {
        Some(y) => match a {
            Some(x) => Some(extend_assoc_vec(x, y)),
            None => Some(y),
        },
        None => a,
    }
}

/// Merge one document into the accumulator: version and name are
/// overwritten, services extended, the optional sections merged.
pub fn merge_doc(acc: Compose, d: Compose) -> (r: Compose)
    ensures
        combined_of(r) == merge_doc_m(combined_of(acc), d),
{
    Compose {
        version: d.version,
        name: d.name,
        services: extend_assoc_vec(acc.services, d.services),
        networks: merge_section_vec(acc.networks, d.networks),
        volumes: merge_section_vec(acc.volumes, d.volumes),
        configs: merge_section_vec(acc.configs, d.configs),
        secrets: merge_section_vec(acc.secrets, d.secrets),
    }
}

/// Validate and fold the documents, in order, into one combined
/// document; the first violation fails the whole run with its message.
pub fn merge_documents(docs: Vec<(String, Compose)>) -> (r: Result<Compose, String>)
    ensures
        ({
            let m = merge_docs_m(docs@, 0, empty_combined());
            match r {
                Ok(c) => m == Ok::<Combined, Seq<char>>(combined_of(c)),
                Err(e) => m == Err::<Combined, Seq<char>>(e@),
            }
        }),
{
    let ghost docs0 = docs@;
    let mut docs = docs;
    let mut acc = Compose::new();
    proof {
        assert(combined_of(acc) == empty_combined());
    }
    let ghost mut j: int = 0;
    #[verifier::loop_isolation(false)]
    while docs.len() > 0
        invariant
            0 <= j <= docs0.len(),
            docs@ == docs0.subrange(j, docs0.len() as int),
            merge_docs_m(docs0, 0, empty_combined()) == merge_docs_m(docs0, j, combined_of(acc)),
        decreases docs@.len(),
    {
        let pair = docs.remove(0);
        proof {
            assert(docs0[j] == pair);
        }
        match validate_document(&pair.0, &pair.1) {
            Some(e) => {
                return Err(e);
            },
            None => {},
        }
        acc = merge_doc(acc, pair.1);
        proof {
            j = j + 1;
            assert(docs@ =~= docs0.subrange(j, docs0.len() as int));
        }
    }
    proof {
        assert(docs0.subrange(j, docs0.len() as int).len() == 0);
    }
    Ok(acc)
}

/// The keys of an association list, in order.
pub open spec fn keys_of<V>(s: Seq<(String, V)>) -> Seq<Seq<char>> {
    s.map_values(|p: (String, V)| p.0@)
}

/// The names of the services, in document order.
pub fn service_names(c: &Compose) -> (r: Vec<String>)
    ensures
        strs_model(r@) == keys_of(c.services@),
{
    let mut out: Vec<String> = Vec::new();
    let mut i: usize = 0;
    proof {
        assert(strs_model(out@) =~= keys_of(c.services@.take(0)));
    }
    while i < c.services.len()
        invariant
            i <= c.services@.len(),
            strs_model(out@) == keys_of(c.services@.take(i as int)),
        decreases c.services@.len() - i,
    {
        let ghost out_pre = out@;
        out.push(c.services[i].0.clone());
        proof {
            assert(strs_model(out@) =~= strs_model(out_pre).push(c.services@[i as int].0@));
            assert(keys_of(c.services@.take(i + 1)) =~= keys_of(c.services@.take(i as int)).push(
                c.services@[i as int].0@,
            ));
        }
        i = i + 1;
    }
    proof {
        assert(c.services@.take(c.services@.len() as int) =~= c.services@);
    }
    out
}

/// The names of the volumes section, in order; empty when the section
/// is absent.
pub fn volume_names(c: &Compose) -> (r: Vec<String>)
    ensures
        strs_model(r@) == match c.volumes {
            Option::Some(v) => keys_of(v@),
            Option::None => Seq::<Seq<char>>::empty(),
        },
{
    let mut out: Vec<String> = Vec::new();
    proof {
        assert(strs_model(out@) =~= Seq::<Seq<char>>::empty());
    }
    let vols = match &c.volumes {
        Some(v) => v,
        None => {
            return out;
        },
    };
    let mut i: usize = 0;
    proof {
        assert(strs_model(out@) =~= keys_of(vols@.take(0)));
    }
    while i < vols.len()
        invariant
            i <= vols@.len(),
            c.volumes == Option::Some(*vols),
            strs_model(out@) == keys_of(vols@.take(i as int)),
        decreases vols@.len() - i,
    {
        let ghost out_pre = out@;
        out.push(vols[i].0.clone());
        proof {
            assert(strs_model(out@) =~= strs_model(out_pre).push(vols@[i as int].0@));
            assert(keys_of(vols@.take(i + 1)) =~= keys_of(vols@.take(i as int)).push(
                vols@[i as int].0@,
            ));
        }
        i = i + 1;
    }
    proof {
        assert(vols@.take(vols@.len() as int) =~= vols@);
    }
    out
}

/// A name appended only when it is new.
pub open spec fn push_unique(acc: Seq<Seq<char>>, x: Seq<char>) -> Seq<Seq<char>> {
    if acc.contains(x) {
        acc
    } else {
        acc.push(x)
    }
}

pub open spec fn add_unique_all(acc: Seq<Seq<char>>, xs: Seq<Seq<char>>, i: int) -> Seq<Seq<char>>
    decreases xs.len() - i,
{
    if i < 0 || i >= xs.len() {
        acc
    } else {
        add_unique_all(push_unique(acc, xs[i]), xs, i + 1)
    }
}

/// Every service's profiles folded in order, duplicates dropped.
pub open spec fn all_profiles_m(svcs: Seq<(String, Service)>, i: int, acc: Seq<Seq<char>>) -> Seq<
    Seq<char>,
>
    decreases svcs.len() - i,
{
    if i < 0 || i >= svcs.len() {
        acc
    } else {
        all_profiles_m(svcs, i + 1, add_unique_all(acc, strs_model(svcs[i].1.profiles@), 0))
    }
}

fn contains_str(v: &Vec<String>, x: &String) -> (b: bool)
    ensures
        b == strs_model(v@).contains(x@),
{
    let mut i: usize = 0;
    while i < v.len()
        invariant
            i <= v@.len(),
            forall|k: int| 0 <= k < i ==> strs_model(v@)[k] != x@,
        decreases v@.len() - i,
    {
        if v[i].eq(x) {
            proof {
                assert(strs_model(v@)[i as int] == x@);
            }
            return true;
        }
        i = i + 1;
    }
    proof {
        assert(!strs_model(v@).contains(x@));
    }
    false
}

/// The profile names across all services, in insertion order, each
/// once.
pub fn profile_names(c: &Compose) -> (r: Vec<String>)
    ensures
        strs_model(r@) == all_profiles_m(c.services@, 0, Seq::empty()),
{
    let mut out: Vec<String> = Vec::new();
    proof {
        assert(strs_model(out@) =~= Seq::<Seq<char>>::empty());
    }
    let mut i: usize = 0;
    while i < c.services.len()
        invariant
            i <= c.services@.len(),
            all_profiles_m(c.services@, 0, Seq::empty()) == all_profiles_m(
                c.services@,
                i as int,
                strs_model(out@),
            ),
        decreases c.services@.len() - i,
    {
        let profs = &c.services[i].1.profiles;
        let ghost start = strs_model(out@);
        let mut jj: usize = 0;
        while jj < profs.len()
            invariant
                jj <= profs@.len(),
                profs == &c.services@[i as int].1.profiles,
                add_unique_all(start, strs_model(profs@), 0) == add_unique_all(
                    strs_model(out@),
                    strs_model(profs@),
                    jj as int,
                ),
            decreases profs@.len() - jj,
        {
            let p = &profs[jj];
            if !contains_str(&out, p) {
                let ghost out_pre = out@;
                out.push(p.clone());
                proof {
                    assert(strs_model(out@) =~= strs_model(out_pre).push(p@));
                }
            }
            jj = jj + 1;
        }
        i = i + 1;
    }
    out
}

/// Each service's image reference, in order, skipping services
/// without one.
pub open spec fn images_m(svcs: Seq<(String, Service)>, i: int, acc: Seq<Seq<char>>) -> Seq<
    Seq<char>,
>
    decreases svcs.len() - i,
{
    if i < 0 || i >= svcs.len() {
        acc
    } else {
        images_m(
            svcs,
            i + 1,
            match svcs[i].1.image {
                Option::Some(img) => acc.push(img@),
                Option::None => acc,
            },
        )
    }
}

pub fn image_names(c: &Compose) -> (r: Vec<String>)
    ensures
        strs_model(r@) == images_m(c.services@, 0, Seq::empty()),
{
    let mut out: Vec<String> = Vec::new();
    proof {
        assert(strs_model(out@) =~= Seq::<Seq<char>>::empty());
    }
    let mut i: usize = 0;
    while i < c.services.len()
        invariant
            i <= c.services@.len(),
            images_m(c.services@, 0, Seq::empty()) == images_m(
                c.services@,
                i as int,
                strs_model(out@),
            ),
        decreases c.services@.len() - i,
    {
        match &c.services[i].1.image {
            Some(img) => {
                let ghost out_pre = out@;
                out.push(img.clone());
                proof {
                    assert(strs_model(out@) =~= strs_model(out_pre).push(img@));
                }
            },
            None => {},
        }
        i = i + 1;
    }
    out
}


pub proof fn lemma_key_index_props<V>(a: Seq<(String, V)>, k: Seq<char>, j: int)
    requires
        0 <= j <= a.len(),
    ensures
        j <= assoc_key_index_e(a, k, j) <= a.len(),
        assoc_key_index_e(a, k, j) < a.len() ==> a[assoc_key_index_e(a, k, j)].0@ == k,
        forall|x: int| j <= x < assoc_key_index_e(a, k, j) ==> a[x].0@ != k,
    decreases a.len() - j,
{
    if j < a.len() && a[j].0@ != k {
        lemma_key_index_props(a, k, j + 1);
    }
}

proof fn lemma_key_index_same_keys<V>(a: Seq<(String, V)>, b: Seq<(String, V)>, k: Seq<char>, j: int)
    requires
        a.len() == b.len(),
        forall|x: int| 0 <= x < a.len() ==> a[x].0@ == b[x].0@,
    ensures
        assoc_key_index_e(a, k, j) == assoc_key_index_e(b, k, j),
    decreases a.len() - j,
{
    if 0 <= j && j < a.len() {
        lemma_key_index_same_keys(a, b, k, j + 1);
    }
}

proof fn lemma_key_index_push<V>(a: Seq<(String, V)>, p: (String, V), q: Seq<char>, j: int)
    requires
        0 <= j <= a.len(),
    ensures
        assoc_key_index_e(a.push(p), q, j) == if assoc_key_index_e(a, q, j) < a.len() {
            assoc_key_index_e(a, q, j)
        } else if p.0@ == q {
            a.len() as int
        } else {
            a.len() as int + 1
        },
    decreases a.len() - j,
{
    if j < a.len() {
        if a[j].0@ != q {
            lemma_key_index_push(a, p, q, j + 1);
        }
    } else {
        if p.0@ != q {
            assert(assoc_key_index_e(a.push(p), q, j + 1) == a.push(p).len() as int);
        }
    }
}

/// Binding a key changes what that key resolves to and nothing else.
pub proof fn lemma_set_get<V>(a: Seq<(String, V)>, k: String, v: V, q: Seq<char>)
    ensures
        assoc_get_e(assoc_set_e(a, k, v), q) == if q == k@ {
            Option::Some(v)
        } else {
            assoc_get_e(a, q)
        },
{
    let i = assoc_key_index_e(a, k@, 0);
    lemma_key_index_props(a, k@, 0);
    lemma_key_index_props(a, q, 0);
    if i < a.len() {
        let s = a.update(i, (a[i].0, v));
        lemma_key_index_same_keys(a, s, q, 0);
        lemma_key_index_same_keys(a, s, k@, 0);
        lemma_key_index_props(s, q, 0);
    } else {
        let s = a.push((k, v));
        lemma_key_index_push(a, (k, v), q, 0);
        lemma_key_index_props(s, q, 0);
    }
}

/// The newest binding of a key among the entries from `i` on.
pub open spec fn last_binding<V>(b: Seq<(String, V)>, k: Seq<char>, i: int) -> Option<V>
    decreases b.len() - i,
{
    if i < 0 || i >= b.len() {
        Option::None
    } else {
        let rest = last_binding(b, k, i + 1);
        if rest is Some {
            rest
        } else if b[i].0@ == k {
            Option::Some(b[i].1)
        } else {
            Option::None
        }
    }
}

/// Override law: after folding `b` into `a`, every key resolves to its
/// newest binding in `b`, and to its binding in `a` only when `b`
/// never binds it.
pub proof fn lemma_extend_assoc_overrides<V>(
    a: Seq<(String, V)>,
    b: Seq<(String, V)>,
    i: int,
    q: Seq<char>,
)
    ensures
        assoc_get_e(extend_assoc_e(a, b, i), q) == match last_binding(b, q, i) {
            Option::Some(v) => Option::Some(v),
            Option::None => assoc_get_e(a, q),
        },
    decreases b.len() - i,
{
    if 0 <= i && i < b.len() {
        lemma_set_get(a, b[i].0, b[i].1, q);
        lemma_extend_assoc_overrides(assoc_set_e(a, b[i].0, b[i].1), b, i + 1, q);
    }
}

/// Override law at the document level: a merged document's service
/// under a name is the newer document's definition when that document
/// defines the name, else the accumulator's.
pub proof fn lemma_merge_services_override(acc: Combined, d: Compose, q: Seq<char>)
    ensures
        assoc_get_e(merge_doc_m(acc, d).services, q) == match last_binding(d.services@, q, 0) {
            Option::Some(s) => Option::Some(s),
            Option::None => assoc_get_e(acc.services, q),
        },
{
    lemma_extend_assoc_overrides(acc.services, d.services@, 0, q);
}

} // verus!
