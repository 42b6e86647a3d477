//! Executable projection of a structured-value tree onto the typed
//! schema, recording the dotted path of every unrecognized field.

use vstd::prelude::*;

use crate::eval::strs_model;
use crate::merge::{combined_of, empty_combined};
use crate::schema::{
    bad_field_msg, compose_model, empty_compose_m, empty_config_m, empty_network_m,
    empty_secret_m, empty_service_m, empty_volume_m, network_model, project_config_m,
    project_configs_m, project_doc_m, project_network_m, project_networks_m, project_secret_m,
    project_secrets_m, project_service_m, project_services_m, project_top_m, project_volume_m,
    project_volumes_m, service_model, str_items_m, volume_model, Compose, ComposeModel, ConfigDef,
    ConfigDefModel, Network, NetworkModel, SecretDef, SecretDefModel, Service, ServiceModel,
    Volume, VolumeModel, configs_assoc_model, networks_assoc_model, secrets_assoc_model,
    services_assoc_model, volumes_assoc_model,
};
use crate::value::{
    clone_value, entries_model, lemma_entries_model_index, lemma_entries_model_len,
    lemma_values_model_index, lemma_values_model_len, value_model, values_model, Value,
    ValueModel,
};

verus! {

impl Compose {
    /// An empty document: no services, every section absent.
    pub fn new() -> (r: Compose)
        ensures
            compose_model(r) == empty_compose_m(),
            combined_of(r) == empty_combined(),
    {
        let r = Compose {
            version: None,
            name: None,
            services: Vec::new(),
            networks: None,
            volumes: None,
            configs: None,
            secrets: None,
        };
        proof {
            assert(services_assoc_model(r.services@) =~= Seq::<(Seq<char>, ServiceModel)>::empty());
            assert(r.services@ =~= Seq::<(String, Service)>::empty());
        }
        r
    }
}

fn key_is(key: &String, lit: &str) -> (b: bool)
    ensures
        b == (key@ == lit@),
{
    key.eq(&String::from_str(lit))
}

fn bad_field(path: String) -> (e: String)
    ensures
        e@ == bad_field_msg(path@),
{
    let mut m = String::from_str("invalid value for \"");
    m.append(path.as_str());
    m.append("\"");
    proof {
        assert(m@ =~= bad_field_msg(path@));
    }
    m
}

fn field_path(prefix: &String, key: &String) -> (p: String)
    ensures
        p@ == prefix@ + key@,
{
    prefix.clone().concat(key.as_str())
}

fn section_path(section: &str, name: &String) -> (p: String)
    ensures
        p@ == section@ + name@,
{
    String::from_str(section).concat(name.as_str())
}

fn entry_prefix(section: &str, name: &String) -> (p: String)
    ensures
        p@ == section@ + name@ + "."@,
{
    let p = String::from_str(section).concat(name.as_str()).concat(".");
    proof {
        assert(p@ =~= section@ + name@ + "."@);
    }
    p
}

fn str_items(items: &Vec<Value>) -> (r: Option<Vec<String>>)
    ensures
        match r {
            Some(v) => str_items_m(values_model(items@), 0, Seq::empty()) == Some(strs_model(v@)),
            None => str_items_m(values_model(items@), 0, Seq::empty()) is None,
        },
{
    proof {
        lemma_values_model_len(items@);
    }
    let mut acc: Vec<String> = Vec::new();
    let mut i: usize = 0;
    proof {
        assert(strs_model(acc@) =~= Seq::<Seq<char>>::empty());
    }
    while i < items.len()
        invariant
            i <= items@.len(),
            str_items_m(values_model(items@), 0, Seq::empty()) == str_items_m(
                values_model(items@),
                i as int,
                strs_model(acc@),
            ),
        decreases items@.len() - i,
    {
        proof {
            lemma_values_model_index(items@, i as int);
        }
        match &items[i] {
            Value::Str(s) => {
                let ghost acc_pre = acc@;
                acc.push(s.clone());
                proof {
                    assert(strs_model(acc@) =~= strs_model(acc_pre).push(s@));
                }
            },
            _ => {
                return None;
            },
        }
        i = i + 1;
    }
    Some(acc)
}

fn project_service(entries: &Vec<(String, Value)>, unk: Vec<String>, prefix: &String) -> (r:
    Result<(Service, Vec<String>), String>)
    ensures
        match r {
            Ok(p) => project_service_m(
                entries_model(entries@),
                0,
                empty_service_m(),
                strs_model(unk@),
                prefix@,
            ) == Ok::<(ServiceModel, Seq<Seq<char>>), Seq<char>>(
                (service_model(p.0), strs_model(p.1@)),
            ),
            Err(e) => project_service_m(
                entries_model(entries@),
                0,
                empty_service_m(),
                strs_model(unk@),
                prefix@,
            ) == Err::<(ServiceModel, Seq<Seq<char>>), Seq<char>>(e@),
        },
{
    proof {
        lemma_entries_model_len(entries@);
    }
    let ghost em = entries_model(entries@);
    let ghost unk0 = strs_model(unk@);
    let mut u = unk;
    let mut acc = Service {
        image: None,
        build: None,
        network_mode: None,
        ports: None,
        profiles: Vec::new(),
        environment: None,
        volumes: None,
        labels: None,
    };
    proof {
        assert(strs_model(acc.profiles@) =~= Seq::<Seq<char>>::empty());
        assert(service_model(acc) == empty_service_m());
    }
    let mut i: usize = 0;
    while i < entries.len()
        invariant
            i <= entries@.len(),
            em == entries_model(entries@),
            em.len() == entries@.len(),
            unk0 == strs_model(unk@),
            project_service_m(em, 0, empty_service_m(), unk0, prefix@) == project_service_m(
                em,
                i as int,
                service_model(acc),
                strs_model(u@),
                prefix@,
            ),
        decreases entries@.len() - i,
    {
        proof {
            lemma_entries_model_index(entries@, i as int);
        }
        let key = &entries[i].0;
        let val = &entries[i].1;
        if key_is(key, "image") {
            match val {
                Value::Str(s) => {
                    acc.image = Some(s.clone());
                },
                _ => {
                    return Err(bad_field(field_path(prefix, key)));
                },
            }
        } else if key_is(key, "build") {
            acc.build = Some(clone_value(val));
        } else if key_is(key, "network_mode") {
            match val {
                Value::Str(s) => {
                    acc.network_mode = Some(s.clone());
                },
                _ => {
                    return Err(bad_field(field_path(prefix, key)));
                },
            }
        } else if key_is(key, "ports") {
            acc.ports = Some(clone_value(val));
        } else if key_is(key, "profiles") {
            match val {
                Value::Sequence(items) => match str_items(items) {
                    Some(ps) => {
                        acc.profiles = ps;
                    },
                    None => {
                        return Err(bad_field(field_path(prefix, key)));
                    },
                },
                _ => {
                    return Err(bad_field(field_path(prefix, key)));
                },
            }
        } else if key_is(key, "environment") {
            acc.environment = Some(clone_value(val));
        } else if key_is(key, "volumes") {
            acc.volumes = Some(clone_value(val));
        } else if key_is(key, "labels") {
            acc.labels = Some(clone_value(val));
        } else {
            let ghost u_pre = u@;
            u.push(field_path(prefix, key));
            proof {
                assert(strs_model(u@) =~= strs_model(u_pre).push(prefix@ + key@));
            }
        }
        i = i + 1;
    }
    Ok((acc, u))
}

fn project_network(entries: &Vec<(String, Value)>, unk: Vec<String>, prefix: &String) -> (r:
    Result<(Network, Vec<String>), String>)
    ensures
        match r {
            Ok(p) => project_network_m(
                entries_model(entries@),
                0,
                empty_network_m(),
                strs_model(unk@),
                prefix@,
            ) == Ok::<(NetworkModel, Seq<Seq<char>>), Seq<char>>(
                (network_model(p.0), strs_model(p.1@)),
            ),
            Err(e) => project_network_m(
                entries_model(entries@),
                0,
                empty_network_m(),
                strs_model(unk@),
                prefix@,
            ) == Err::<(NetworkModel, Seq<Seq<char>>), Seq<char>>(e@),
        },
{
    proof {
        lemma_entries_model_len(entries@);
    }
    let ghost em = entries_model(entries@);
    let ghost unk0 = strs_model(unk@);
    let mut u = unk;
    let mut acc = Network {
        external: None,
        driver: None,
        driver_opts: None,
        enable_ipv6: None,
        ipam: None,
        internal: None,
        labels: None,
    };
    let mut i: usize = 0;
    while i < entries.len()
        invariant
            i <= entries@.len(),
            em == entries_model(entries@),
            em.len() == entries@.len(),
            unk0 == strs_model(unk@),
            project_network_m(em, 0, empty_network_m(), unk0, prefix@) == project_network_m(
                em,
                i as int,
                network_model(acc),
                strs_model(u@),
                prefix@,
            ),
        decreases entries@.len() - i,
    {
        proof {
            lemma_entries_model_index(entries@, i as int);
        }
        let key = &entries[i].0;
        let val = &entries[i].1;
        if key_is(key, "external") {
            match val {
                Value::Bool(b) => {
                    acc.external = Some(*b);
                },
                _ => {
                    return Err(bad_field(field_path(prefix, key)));
                },
            }
        } else if key_is(key, "driver") {
            match val {
                Value::Str(s) => {
                    acc.driver = Some(s.clone());
                },
                _ => {
                    return Err(bad_field(field_path(prefix, key)));
                },
            }
        } else if key_is(key, "driver_opts") {
            acc.driver_opts = Some(clone_value(val));
        } else if key_is(key, "enable_ipv6") {
            match val {
                Value::Bool(b) => {
                    acc.enable_ipv6 = Some(*b);
                },
                _ => {
                    return Err(bad_field(field_path(prefix, key)));
                },
            }
        } else if key_is(key, "ipam") {
            acc.ipam = Some(clone_value(val));
        } else if key_is(key, "internal") {
            match val {
                Value::Bool(b) => {
                    acc.internal = Some(*b);
                },
                _ => {
                    return Err(bad_field(field_path(prefix, key)));
                },
            }
        } else if key_is(key, "labels") {
            acc.labels = Some(clone_value(val));
        } else {
            let ghost u_pre = u@;
            u.push(field_path(prefix, key));
            proof {
                assert(strs_model(u@) =~= strs_model(u_pre).push(prefix@ + key@));
            }
        }
        i = i + 1;
    }
    Ok((acc, u))
}

fn project_volume(entries: &Vec<(String, Value)>, unk: Vec<String>, prefix: &String) -> (r: Result<
    (Volume, Vec<String>),
    String,
>)
    ensures
        match r {
            Ok(p) => project_volume_m(
                entries_model(entries@),
                0,
                empty_volume_m(),
                strs_model(unk@),
                prefix@,
            ) == Ok::<(VolumeModel, Seq<Seq<char>>), Seq<char>>(
                (volume_model(p.0), strs_model(p.1@)),
            ),
            Err(e) => project_volume_m(
                entries_model(entries@),
                0,
                empty_volume_m(),
                strs_model(unk@),
                prefix@,
            ) == Err::<(VolumeModel, Seq<Seq<char>>), Seq<char>>(e@),
        },
{
    proof {
        lemma_entries_model_len(entries@);
    }
    let ghost em = entries_model(entries@);
    let ghost unk0 = strs_model(unk@);
    let mut u = unk;
    let mut acc = Volume { external: None, driver: None, driver_opts: None, labels: None };
    let mut i: usize = 0;
    while i < entries.len()
        invariant
            i <= entries@.len(),
            em == entries_model(entries@),
            em.len() == entries@.len(),
            unk0 == strs_model(unk@),
            project_volume_m(em, 0, empty_volume_m(), unk0, prefix@) == project_volume_m(
                em,
                i as int,
                volume_model(acc),
                strs_model(u@),
                prefix@,
            ),
        decreases entries@.len() - i,
    {
        proof {
            lemma_entries_model_index(entries@, i as int);
        }
        let key = &entries[i].0;
        let val = &entries[i].1;
        if key_is(key, "external") {
            match val {
                Value::Bool(b) => {
                    acc.external = Some(*b);
                },
                _ => {
                    return Err(bad_field(field_path(prefix, key)));
                },
            }
        } else if key_is(key, "driver") {
            match val {
                Value::Str(s) => {
                    acc.driver = Some(s.clone());
                },
                _ => {
                    return Err(bad_field(field_path(prefix, key)));
                },
            }
        } else if key_is(key, "driver_opts") {
            acc.driver_opts = Some(clone_value(val));
        } else if key_is(key, "labels") {
            acc.labels = Some(clone_value(val));
        } else {
            let ghost u_pre = u@;
            u.push(field_path(prefix, key));
            proof {
                assert(strs_model(u@) =~= strs_model(u_pre).push(prefix@ + key@));
            }
        }
        i = i + 1;
    }
    Ok((acc, u))
}

fn project_config(entries: &Vec<(String, Value)>, unk: Vec<String>, prefix: &String) -> (r: Result<
    (ConfigDef, Vec<String>),
    String,
>)
    ensures
        match r {
            Ok(p) => project_config_m(
                entries_model(entries@),
                0,
                empty_config_m(),
                strs_model(unk@),
                prefix@,
            ) == Ok::<(ConfigDefModel, Seq<Seq<char>>), Seq<char>>(
                (crate::schema::config_model(p.0), strs_model(p.1@)),
            ),
            Err(e) => project_config_m(
                entries_model(entries@),
                0,
                empty_config_m(),
                strs_model(unk@),
                prefix@,
            ) == Err::<(ConfigDefModel, Seq<Seq<char>>), Seq<char>>(e@),
        },
{
    proof {
        lemma_entries_model_len(entries@);
    }
    let ghost em = entries_model(entries@);
    let ghost unk0 = strs_model(unk@);
    let mut u = unk;
    let mut acc = ConfigDef { external: None, file: None };
    let mut i: usize = 0;
    while i < entries.len()
        invariant
            i <= entries@.len(),
            em == entries_model(entries@),
            em.len() == entries@.len(),
            unk0 == strs_model(unk@),
            project_config_m(em, 0, empty_config_m(), unk0, prefix@) == project_config_m(
                em,
                i as int,
                crate::schema::config_model(acc),
                strs_model(u@),
                prefix@,
            ),
        decreases entries@.len() - i,
    {
        proof {
            lemma_entries_model_index(entries@, i as int);
        }
        let key = &entries[i].0;
        let val = &entries[i].1;
        if key_is(key, "external") {
            match val {
                Value::Bool(b) => {
                    acc.external = Some(*b);
                },
                _ => {
                    return Err(bad_field(field_path(prefix, key)));
                },
            }
        } else if key_is(key, "file") {
            match val {
                Value::Str(s) => {
                    acc.file = Some(s.clone());
                },
                _ => {
                    return Err(bad_field(field_path(prefix, key)));
                },
            }
        } else {
            let ghost u_pre = u@;
            u.push(field_path(prefix, key));
            proof {
                assert(strs_model(u@) =~= strs_model(u_pre).push(prefix@ + key@));
            }
        }
        i = i + 1;
    }
    Ok((acc, u))
}

fn project_secret(entries: &Vec<(String, Value)>, unk: Vec<String>, prefix: &String) -> (r: Result<
    (SecretDef, Vec<String>),
    String,
>)
    ensures
        match r {
            Ok(p) => project_secret_m(
                entries_model(entries@),
                0,
                empty_secret_m(),
                strs_model(unk@),
                prefix@,
            ) == Ok::<(SecretDefModel, Seq<Seq<char>>), Seq<char>>(
                (crate::schema::secret_model(p.0), strs_model(p.1@)),
            ),
            Err(e) => project_secret_m(
                entries_model(entries@),
                0,
                empty_secret_m(),
                strs_model(unk@),
                prefix@,
            ) == Err::<(SecretDefModel, Seq<Seq<char>>), Seq<char>>(e@),
        },
{
    proof {
        lemma_entries_model_len(entries@);
    }
    let ghost em = entries_model(entries@);
    let ghost unk0 = strs_model(unk@);
    let mut u = unk;
    let mut acc = SecretDef { external: None, file: None, environment: None };
    let mut i: usize = 0;
    while i < entries.len()
        invariant
            i <= entries@.len(),
            em == entries_model(entries@),
            em.len() == entries@.len(),
            unk0 == strs_model(unk@),
            project_secret_m(em, 0, empty_secret_m(), unk0, prefix@) == project_secret_m(
                em,
                i as int,
                crate::schema::secret_model(acc),
                strs_model(u@),
                prefix@,
            ),
        decreases entries@.len() - i,
    {
        proof {
            lemma_entries_model_index(entries@, i as int);
        }
        let key = &entries[i].0;
        let val = &entries[i].1;
        if key_is(key, "external") {
            match val {
                Value::Bool(b) => {
                    acc.external = Some(*b);
                },
                _ => {
                    return Err(bad_field(field_path(prefix, key)));
                },
            }
        } else if key_is(key, "file") {
            match val {
                Value::Str(s) => {
                    acc.file = Some(s.clone());
                },
                _ => {
                    return Err(bad_field(field_path(prefix, key)));
                },
            }
        } else if key_is(key, "environment") {
            match val {
                Value::Str(s) => {
                    acc.environment = Some(s.clone());
                },
                _ => {
                    return Err(bad_field(field_path(prefix, key)));
                },
            }
        } else {
            let ghost u_pre = u@;
            u.push(field_path(prefix, key));
            proof {
                assert(strs_model(u@) =~= strs_model(u_pre).push(prefix@ + key@));
            }
        }
        i = i + 1;
    }
    Ok((acc, u))
}

fn project_services(entries: &Vec<(String, Value)>, unk: Vec<String>) -> (r: Result<
    (Vec<(String, Service)>, Vec<String>),
    String,
>)
    ensures
        match r {
            Ok(p) => project_services_m(entries_model(entries@), 0, Seq::empty(), strs_model(unk@))
                == Ok::<(Seq<(Seq<char>, ServiceModel)>, Seq<Seq<char>>), Seq<char>>(
                (services_assoc_model(p.0@), strs_model(p.1@)),
            ),
            Err(e) => project_services_m(
                entries_model(entries@),
                0,
                Seq::empty(),
                strs_model(unk@),
            ) == Err::<(Seq<(Seq<char>, ServiceModel)>, Seq<Seq<char>>), Seq<char>>(e@),
        },
{
    proof {
        lemma_entries_model_len(entries@);
    }
    let ghost em = entries_model(entries@);
    let ghost unk0 = strs_model(unk@);
    let mut u = unk;
    let mut acc: Vec<(String, Service)> = Vec::new();
    proof {
        assert(services_assoc_model(acc@) =~= Seq::<(Seq<char>, ServiceModel)>::empty());
    }
    let mut i: usize = 0;
    while i < entries.len()
        invariant
            i <= entries@.len(),
            em == entries_model(entries@),
            em.len() == entries@.len(),
            unk0 == strs_model(unk@),
            project_services_m(em, 0, Seq::empty(), unk0) == project_services_m(
                em,
                i as int,
                services_assoc_model(acc@),
                strs_model(u@),
            ),
        decreases entries@.len() - i,
    {
        proof {
            lemma_entries_model_index(entries@, i as int);
        }
        let name = &entries[i].0;
        match &entries[i].1 {
            Value::Mapping(sub) => {
                let prefix = entry_prefix("services.", name);
                match project_service(sub, u, &prefix) {
                    Ok((svc, u2)) => {
                        let ghost acc_pre = acc@;
                        u = u2;
                        acc.push((name.clone(), svc));
                        proof {
                            assert(services_assoc_model(acc@) =~= services_assoc_model(
                                acc_pre,
                            ).push((name@, service_model(svc))));
                        }
                    },
                    Err(e) => {
                        return Err(e);
                    },
                }
            },
            _ => {
                return Err(bad_field(section_path("services.", name)));
            },
        }
        i = i + 1;
    }
    Ok((acc, u))
}

fn project_networks(entries: &Vec<(String, Value)>, unk: Vec<String>) -> (r: Result<
    (Vec<(String, Option<Network>)>, Vec<String>),
    String,
>)
    ensures
        match r {
            Ok(p) => project_networks_m(entries_model(entries@), 0, Seq::empty(), strs_model(unk@))
                == Ok::<(Seq<(Seq<char>, Option<NetworkModel>)>, Seq<Seq<char>>), Seq<char>>(
                (networks_assoc_model(p.0@), strs_model(p.1@)),
            ),
            Err(e) => project_networks_m(
                entries_model(entries@),
                0,
                Seq::empty(),
                strs_model(unk@),
            ) == Err::<(Seq<(Seq<char>, Option<NetworkModel>)>, Seq<Seq<char>>), Seq<char>>(e@),
        },
{
    proof {
        lemma_entries_model_len(entries@);
    }
    let ghost em = entries_model(entries@);
    let ghost unk0 = strs_model(unk@);
    let mut u = unk;
    let mut acc: Vec<(String, Option<Network>)> = Vec::new();
    proof {
        assert(networks_assoc_model(acc@) =~= Seq::<(Seq<char>, Option<NetworkModel>)>::empty());
    }
    let mut i: usize = 0;
    while i < entries.len()
        invariant
            i <= entries@.len(),
            em == entries_model(entries@),
            em.len() == entries@.len(),
            unk0 == strs_model(unk@),
            project_networks_m(em, 0, Seq::empty(), unk0) == project_networks_m(
                em,
                i as int,
                networks_assoc_model(acc@),
                strs_model(u@),
            ),
        decreases entries@.len() - i,
    {
        proof {
            lemma_entries_model_index(entries@, i as int);
        }
        let name = &entries[i].0;
        match &entries[i].1 {
            Value::Null => {
                let ghost acc_pre = acc@;
                acc.push((name.clone(), None));
                proof {
                    assert(networks_assoc_model(acc@) =~= networks_assoc_model(acc_pre).push(
                        (name@, Option::<NetworkModel>::None),
                    ));
                }
            },
            Value::Mapping(sub) => {
                let prefix = entry_prefix("networks.", name);
                match project_network(sub, u, &prefix) {
                    Ok((net, u2)) => {
                        let ghost acc_pre = acc@;
                        u = u2;
                        acc.push((name.clone(), Some(net)));
                        proof {
                            assert(networks_assoc_model(acc@) =~= networks_assoc_model(
                                acc_pre,
                            ).push((name@, Option::Some(network_model(net)))));
                        }
                    },
                    Err(e) => {
                        return Err(e);
                    },
                }
            },
            _ => {
                return Err(bad_field(section_path("networks.", name)));
            },
        }
        i = i + 1;
    }
    Ok((acc, u))
}

fn project_volumes(entries: &Vec<(String, Value)>, unk: Vec<String>) -> (r: Result<
    (Vec<(String, Option<Volume>)>, Vec<String>),
    String,
>)
    ensures
        match r {
            Ok(p) => project_volumes_m(entries_model(entries@), 0, Seq::empty(), strs_model(unk@))
                == Ok::<(Seq<(Seq<char>, Option<VolumeModel>)>, Seq<Seq<char>>), Seq<char>>(
                (volumes_assoc_model(p.0@), strs_model(p.1@)),
            ),
            Err(e) => project_volumes_m(entries_model(entries@), 0, Seq::empty(), strs_model(unk@))
                == Err::<(Seq<(Seq<char>, Option<VolumeModel>)>, Seq<Seq<char>>), Seq<char>>(e@),
        },
{
    proof {
        lemma_entries_model_len(entries@);
    }
    let ghost em = entries_model(entries@);
    let ghost unk0 = strs_model(unk@);
    let mut u = unk;
    let mut acc: Vec<(String, Option<Volume>)> = Vec::new();
    proof {
        assert(volumes_assoc_model(acc@) =~= Seq::<(Seq<char>, Option<VolumeModel>)>::empty());
    }
    let mut i: usize = 0;
    while i < entries.len()
        invariant
            i <= entries@.len(),
            em == entries_model(entries@),
            em.len() == entries@.len(),
            unk0 == strs_model(unk@),
            project_volumes_m(em, 0, Seq::empty(), unk0) == project_volumes_m(
                em,
                i as int,
                volumes_assoc_model(acc@),
                strs_model(u@),
            ),
        decreases entries@.len() - i,
    {
        proof {
            lemma_entries_model_index(entries@, i as int);
        }
        let name = &entries[i].0;
        match &entries[i].1 {
            Value::Null => {
                let ghost acc_pre = acc@;
                acc.push((name.clone(), None));
                proof {
                    assert(volumes_assoc_model(acc@) =~= volumes_assoc_model(acc_pre).push(
                        (name@, Option::<VolumeModel>::None),
                    ));
                }
            },
            Value::Mapping(sub) => {
                let prefix = entry_prefix("volumes.", name);
                match project_volume(sub, u, &prefix) {
                    Ok((vol, u2)) => {
                        let ghost acc_pre = acc@;
                        u = u2;
                        acc.push((name.clone(), Some(vol)));
                        proof {
                            assert(volumes_assoc_model(acc@) =~= volumes_assoc_model(acc_pre).push(
                                (name@, Option::Some(volume_model(vol))),
                            ));
                        }
                    },
                    Err(e) => {
                        return Err(e);
                    },
                }
            },
            _ => {
                return Err(bad_field(section_path("volumes.", name)));
            },
        }
        i = i + 1;
    }
    Ok((acc, u))
}

fn project_configs(entries: &Vec<(String, Value)>, unk: Vec<String>) -> (r: Result<
    (Vec<(String, ConfigDef)>, Vec<String>),
    String,
>)
    ensures
        match r {
            Ok(p) => project_configs_m(entries_model(entries@), 0, Seq::empty(), strs_model(unk@))
                == Ok::<(Seq<(Seq<char>, ConfigDefModel)>, Seq<Seq<char>>), Seq<char>>(
                (configs_assoc_model(p.0@), strs_model(p.1@)),
            ),
            Err(e) => project_configs_m(entries_model(entries@), 0, Seq::empty(), strs_model(unk@))
                == Err::<(Seq<(Seq<char>, ConfigDefModel)>, Seq<Seq<char>>), Seq<char>>(e@),
        },
{
    proof {
        lemma_entries_model_len(entries@);
    }
    let ghost em = entries_model(entries@);
    let ghost unk0 = strs_model(unk@);
    let mut u = unk;
    let mut acc: Vec<(String, ConfigDef)> = Vec::new();
    proof {
        assert(configs_assoc_model(acc@) =~= Seq::<(Seq<char>, ConfigDefModel)>::empty());
    }
    let mut i: usize = 0;
    while i < entries.len()
        invariant
            i <= entries@.len(),
            em == entries_model(entries@),
            em.len() == entries@.len(),
            unk0 == strs_model(unk@),
            project_configs_m(em, 0, Seq::empty(), unk0) == project_configs_m(
                em,
                i as int,
                configs_assoc_model(acc@),
                strs_model(u@),
            ),
        decreases entries@.len() - i,
    {
        proof {
            lemma_entries_model_index(entries@, i as int);
        }
        let name = &entries[i].0;
        match &entries[i].1 {
            Value::Mapping(sub) => {
                let prefix = entry_prefix("configs.", name);
                match project_config(sub, u, &prefix) {
                    Ok((c, u2)) => {
                        let ghost acc_pre = acc@;
                        u = u2;
                        acc.push((name.clone(), c));
                        proof {
                            assert(configs_assoc_model(acc@) =~= configs_assoc_model(acc_pre).push(
                                (name@, crate::schema::config_model(c)),
                            ));
                        }
                    },
                    Err(e) => {
                        return Err(e);
                    },
                }
            },
            _ => {
                return Err(bad_field(section_path("configs.", name)));
            },
        }
        i = i + 1;
    }
    Ok((acc, u))
}

fn project_secrets(entries: &Vec<(String, Value)>, unk: Vec<String>) -> (r: Result<
    (Vec<(String, SecretDef)>, Vec<String>),
    String,
>)
    ensures
        match r {
            Ok(p) => project_secrets_m(entries_model(entries@), 0, Seq::empty(), strs_model(unk@))
                == Ok::<(Seq<(Seq<char>, SecretDefModel)>, Seq<Seq<char>>), Seq<char>>(
                (secrets_assoc_model(p.0@), strs_model(p.1@)),
            ),
            Err(e) => project_secrets_m(entries_model(entries@), 0, Seq::empty(), strs_model(unk@))
                == Err::<(Seq<(Seq<char>, SecretDefModel)>, Seq<Seq<char>>), Seq<char>>(e@),
        },
{
    proof {
        lemma_entries_model_len(entries@);
    }
    let ghost em = entries_model(entries@);
    let ghost unk0 = strs_model(unk@);
    let mut u = unk;
    let mut acc: Vec<(String, SecretDef)> = Vec::new();
    proof {
        assert(secrets_assoc_model(acc@) =~= Seq::<(Seq<char>, SecretDefModel)>::empty());
    }
    let mut i: usize = 0;
    while i < entries.len()
        invariant
            i <= entries@.len(),
            em == entries_model(entries@),
            em.len() == entries@.len(),
            unk0 == strs_model(unk@),
            project_secrets_m(em, 0, Seq::empty(), unk0) == project_secrets_m(
                em,
                i as int,
                secrets_assoc_model(acc@),
                strs_model(u@),
            ),
        decreases entries@.len() - i,
    {
        proof {
            lemma_entries_model_index(entries@, i as int);
        }
        let name = &entries[i].0;
        match &entries[i].1 {
            Value::Mapping(sub) => {
                let prefix = entry_prefix("secrets.", name);
                match project_secret(sub, u, &prefix) {
                    Ok((c, u2)) => {
                        let ghost acc_pre = acc@;
                        u = u2;
                        acc.push((name.clone(), c));
                        proof {
                            assert(secrets_assoc_model(acc@) =~= secrets_assoc_model(acc_pre).push(
                                (name@, crate::schema::secret_model(c)),
                            ));
                        }
                    },
                    Err(e) => {
                        return Err(e);
                    },
                }
            },
            _ => {
                return Err(bad_field(section_path("secrets.", name)));
            },
        }
        i = i + 1;
    }
    Ok((acc, u))
}

/// Project a tree onto the typed schema. Succeeds exactly when the
/// root is a mapping and every recognized field carries a value of its
/// type; gives back the document and the dotted paths of the fields
/// the schema does not know, in document order.
pub fn project_document(root: &Value) -> (r: Result<(Compose, Vec<String>), String>)
    ensures
        match r {
            Ok(p) => project_doc_m(value_model(*root)) == Ok::<
                (ComposeModel, Seq<Seq<char>>),
                Seq<char>,
            >((compose_model(p.0), strs_model(p.1@))),
            Err(e) => project_doc_m(value_model(*root)) == Err::<
                (ComposeModel, Seq<Seq<char>>),
                Seq<char>,
            >(e@),
        },
{
    let entries = match root {
        Value::Mapping(entries) => {
            proof {
                assert(value_model(*root) == ValueModel::Mapping(entries_model(entries@)));
            }
            entries
        },
        _ => {
            return Err(String::from_str("the document is not a mapping"));
        },
    };
    proof {
        lemma_entries_model_len(entries@);
    }
    let ghost em = entries_model(entries@);
    let mut u: Vec<String> = Vec::new();
    let mut acc = Compose::new();
    proof {
        assert(strs_model(u@) =~= Seq::<Seq<char>>::empty());
    }
    let mut i: usize = 0;
    while i < entries.len()
        invariant
            i <= entries@.len(),
            em == entries_model(entries@),
            em.len() == entries@.len(),
            value_model(*root) == ValueModel::Mapping(em),
            project_top_m(em, 0, empty_compose_m(), Seq::empty()) == project_top_m(
                em,
                i as int,
                compose_model(acc),
                strs_model(u@),
            ),
        decreases entries@.len() - i,
    {
        proof {
            lemma_entries_model_index(entries@, i as int);
        }
        let key = &entries[i].0;
        let val = &entries[i].1;
        if key_is(key, "version") {
            match val {
                Value::Str(s) => {
                    acc.version = Some(s.clone());
                },
                _ => {
                    return Err(bad_field(key.clone()));
                },
            }
        } else if key_is(key, "name") {
            match val {
                Value::Str(s) => {
                    acc.name = Some(s.clone());
                },
                _ => {
                    return Err(bad_field(key.clone()));
                },
            }
        } else if key_is(key, "services") {
            match val {
                Value::Mapping(sub) => match project_services(sub, u) {
                    Ok((svcs, u2)) => {
                        u = u2;
                        acc.services = svcs;
                    },
                    Err(e) => {
                        return Err(e);
                    },
                },
                _ => {
                    return Err(bad_field(key.clone()));
                },
            }
        } else if key_is(key, "networks") {
            match val {
                Value::Mapping(sub) => match project_networks(sub, u) {
                    Ok((nets, u2)) => {
                        u = u2;
                        acc.networks = Some(nets);
                    },
                    Err(e) => {
                        return Err(e);
                    },
                },
                _ => {
                    return Err(bad_field(key.clone()));
                },
            }
        } else if key_is(key, "volumes") {
            match val {
                Value::Mapping(sub) => match project_volumes(sub, u) {
                    Ok((vols, u2)) => {
                        u = u2;
                        acc.volumes = Some(vols);
                    },
                    Err(e) => {
                        return Err(e);
                    },
                },
                _ => {
                    return Err(bad_field(key.clone()));
                },
            }
        } else if key_is(key, "configs") {
            match val {
                Value::Mapping(sub) => match project_configs(sub, u) {
                    Ok((cfgs, u2)) => {
                        u = u2;
                        acc.configs = Some(cfgs);
                    },
                    Err(e) => {
                        return Err(e);
                    },
                },
                _ => {
                    return Err(bad_field(key.clone()));
                },
            }
        } else if key_is(key, "secrets") {
            match val {
                Value::Mapping(sub) => match project_secrets(sub, u) {
                    Ok((secs, u2)) => {
                        u = u2;
                        acc.secrets = Some(secs);
                    },
                    Err(e) => {
                        return Err(e);
                    },
                },
                _ => {
                    return Err(bad_field(key.clone()));
                },
            }
        } else {
            let ghost u_pre = u@;
            u.push(key.clone());
            proof {
                assert(strs_model(u@) =~= strs_model(u_pre).push(key@));
            }
        }
        i = i + 1;
    }
    Ok((acc, u))
}

} // verus!
