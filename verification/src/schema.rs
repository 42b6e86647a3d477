//! The typed document schema: the projection of a structured-value
//! tree onto the fields the pipeline validates and merges, recording
//! the dotted path of every field the schema does not recognize.

use vstd::prelude::*;

use crate::eval::strs_model;
use crate::value::{
    entries_model, lemma_entries_model_index, lemma_entries_model_len, lemma_values_model_index,
    lemma_values_model_len, value_model, values_model, Value, ValueModel,
};

verus! {

/// One service of a document. Only the fields the pipeline reads are
/// typed; free-form fields keep their tree.
#[derive(Debug)]
pub struct Service {
    pub image: Option<String>,
    pub build: Option<Value>,
    pub network_mode: Option<String>,
    pub ports: Option<Value>,
    pub profiles: Vec<String>,
    pub environment: Option<Value>,
    pub volumes: Option<Value>,
    pub labels: Option<Value>,
}

#[derive(Debug)]
pub struct Network {
    pub external: Option<bool>,
    pub driver: Option<String>,
    pub driver_opts: Option<Value>,
    pub enable_ipv6: Option<bool>,
    pub ipam: Option<Value>,
    pub internal: Option<bool>,
    pub labels: Option<Value>,
}

#[derive(Debug)]
pub struct Volume {
    pub external: Option<bool>,
    pub driver: Option<String>,
    pub driver_opts: Option<Value>,
    pub labels: Option<Value>,
}

#[derive(Debug)]
pub struct ConfigDef {
    pub external: Option<bool>,
    pub file: Option<String>,
}

#[derive(Debug)]
pub struct SecretDef {
    pub external: Option<bool>,
    pub file: Option<String>,
    pub environment: Option<String>,
}

/// A typed document: named services, and the optional resource
/// sections. An absent section is distinct from an empty one.
#[derive(Debug)]
pub struct Compose {
    pub version: Option<String>,
    pub name: Option<String>,
    pub services: Vec<(String, Service)>,
    pub networks: Option<Vec<(String, Option<Network>)>>,
    pub volumes: Option<Vec<(String, Option<Volume>)>>,
    pub configs: Option<Vec<(String, ConfigDef)>>,
    pub secrets: Option<Vec<(String, SecretDef)>>,
}

pub struct ServiceModel {
    pub image: Option<Seq<char>>,
    pub build: Option<ValueModel>,
    pub network_mode: Option<Seq<char>>,
    pub ports: Option<ValueModel>,
    pub profiles: Seq<Seq<char>>,
    pub environment: Option<ValueModel>,
    pub volumes: Option<ValueModel>,
    pub labels: Option<ValueModel>,
}

pub struct NetworkModel {
    pub external: Option<bool>,
    pub driver: Option<Seq<char>>,
    pub driver_opts: Option<ValueModel>,
    pub enable_ipv6: Option<bool>,
    pub ipam: Option<ValueModel>,
    pub internal: Option<bool>,
    pub labels: Option<ValueModel>,
}

pub struct VolumeModel {
    pub external: Option<bool>,
    pub driver: Option<Seq<char>>,
    pub driver_opts: Option<ValueModel>,
    pub labels: Option<ValueModel>,
}

pub struct ConfigDefModel {
    pub external: Option<bool>,
    pub file: Option<Seq<char>>,
}

pub struct SecretDefModel {
    pub external: Option<bool>,
    pub file: Option<Seq<char>>,
    pub environment: Option<Seq<char>>,
}

pub struct ComposeModel {
    pub version: Option<Seq<char>>,
    pub name: Option<Seq<char>>,
    pub services: Seq<(Seq<char>, ServiceModel)>,
    pub networks: Option<Seq<(Seq<char>, Option<NetworkModel>)>>,
    pub volumes: Option<Seq<(Seq<char>, Option<VolumeModel>)>>,
    pub configs: Option<Seq<(Seq<char>, ConfigDefModel)>>,
    pub secrets: Option<Seq<(Seq<char>, SecretDefModel)>>,
}

pub open spec fn opt_str_m(o: Option<String>) -> Option<Seq<char>> {
    match o {
        Option::Some(s) => Option::Some(s@),
        Option::None => Option::None,
    }
}

pub open spec fn opt_value_m(o: Option<Value>) -> Option<ValueModel> {
    match o {
        Option::Some(v) => Option::Some(value_model(v)),
        Option::None => Option::None,
    }
}

pub open spec fn service_model(s: Service) -> ServiceModel {
    ServiceModel {
        image: opt_str_m(s.image),
        build: opt_value_m(s.build),
        network_mode: opt_str_m(s.network_mode),
        ports: opt_value_m(s.ports),
        profiles: strs_model(s.profiles@),
        environment: opt_value_m(s.environment),
        volumes: opt_value_m(s.volumes),
        labels: opt_value_m(s.labels),
    }
}

pub open spec fn network_model(n: Network) -> NetworkModel {
    NetworkModel {
        external: n.external,
        driver: opt_str_m(n.driver),
        driver_opts: opt_value_m(n.driver_opts),
        enable_ipv6: n.enable_ipv6,
        ipam: opt_value_m(n.ipam),
        internal: n.internal,
        labels: opt_value_m(n.labels),
    }
}

pub open spec fn volume_model(v: Volume) -> VolumeModel {
    VolumeModel {
        external: v.external,
        driver: opt_str_m(v.driver),
        driver_opts: opt_value_m(v.driver_opts),
        labels: opt_value_m(v.labels),
    }
}

pub open spec fn config_model(c: ConfigDef) -> ConfigDefModel {
    ConfigDefModel { external: c.external, file: opt_str_m(c.file) }
}

pub open spec fn secret_model(c: SecretDef) -> SecretDefModel {
    SecretDefModel { external: c.external, file: opt_str_m(c.file), environment: opt_str_m(c.environment) }
}

pub open spec fn services_assoc_model(s: Seq<(String, Service)>) -> Seq<(Seq<char>, ServiceModel)> {
    s.map_values(|p: (String, Service)| (p.0@, service_model(p.1)))
}

pub open spec fn networks_assoc_model(s: Seq<(String, Option<Network>)>) -> Seq<
    (Seq<char>, Option<NetworkModel>),
> {
    s.map_values(
        |p: (String, Option<Network>)|
            (
                p.0@,
                match p.1 {
                    Option::Some(n) => Option::Some(network_model(n)),
                    Option::None => Option::None,
                },
            ),
    )
}

pub open spec fn volumes_assoc_model(s: Seq<(String, Option<Volume>)>) -> Seq<
    (Seq<char>, Option<VolumeModel>),
> {
    s.map_values(
        |p: (String, Option<Volume>)|
            (
                p.0@,
                match p.1 {
                    Option::Some(n) => Option::Some(volume_model(n)),
                    Option::None => Option::None,
                },
            ),
    )
}

pub open spec fn configs_assoc_model(s: Seq<(String, ConfigDef)>) -> Seq<
    (Seq<char>, ConfigDefModel),
> {
    s.map_values(|p: (String, ConfigDef)| (p.0@, config_model(p.1)))
}

pub open spec fn secrets_assoc_model(s: Seq<(String, SecretDef)>) -> Seq<
    (Seq<char>, SecretDefModel),
> {
    s.map_values(|p: (String, SecretDef)| (p.0@, secret_model(p.1)))
}

pub open spec fn compose_model(c: Compose) -> ComposeModel {
    ComposeModel {
        version: opt_str_m(c.version),
        name: opt_str_m(c.name),
        services: services_assoc_model(c.services@),
        networks: match c.networks {
            Option::Some(v) => Option::Some(networks_assoc_model(v@)),
            Option::None => Option::None,
        },
        volumes: match c.volumes {
            Option::Some(v) => Option::Some(volumes_assoc_model(v@)),
            Option::None => Option::None,
        },
        configs: match c.configs {
            Option::Some(v) => Option::Some(configs_assoc_model(v@)),
            Option::None => Option::None,
        },
        secrets: match c.secrets {
            Option::Some(v) => Option::Some(secrets_assoc_model(v@)),
            Option::None => Option::None,
        },
    }
}

pub open spec fn empty_service_m() -> ServiceModel {
    ServiceModel {
        image: Option::None,
        build: Option::None,
        network_mode: Option::None,
        ports: Option::None,
        profiles: Seq::empty(),
        environment: Option::None,
        volumes: Option::None,
        labels: Option::None,
    }
}

pub open spec fn empty_network_m() -> NetworkModel {
    NetworkModel {
        external: Option::None,
        driver: Option::None,
        driver_opts: Option::None,
        enable_ipv6: Option::None,
        ipam: Option::None,
        internal: Option::None,
        labels: Option::None,
    }
}

pub open spec fn empty_volume_m() -> VolumeModel {
    VolumeModel {
        external: Option::None,
        driver: Option::None,
        driver_opts: Option::None,
        labels: Option::None,
    }
}

pub open spec fn empty_config_m() -> ConfigDefModel {
    ConfigDefModel { external: Option::None, file: Option::None }
}

pub open spec fn empty_secret_m() -> SecretDefModel {
    SecretDefModel { external: Option::None, file: Option::None, environment: Option::None }
}

pub open spec fn empty_compose_m() -> ComposeModel {
    ComposeModel {
        version: Option::None,
        name: Option::None,
        services: Seq::empty(),
        networks: Option::None,
        volumes: Option::None,
        configs: Option::None,
        secrets: Option::None,
    }
}

/// The message of a field whose value does not fit the schema.
pub open spec fn bad_field_msg(path: Seq<char>) -> Seq<char> {
    "invalid value for \""@ + path + "\""@
}

/// The elements of a sequence, which must all be text scalars.
pub open spec fn str_items_m(items: Seq<ValueModel>, i: int, acc: Seq<Seq<char>>) -> Option<
    Seq<Seq<char>>,
>
    decreases items.len() - i,
{
    if i < 0 || i >= items.len() {
        Option::Some(acc)
    } else {
        match items[i] {
            ValueModel::Str(s) => str_items_m(items, i + 1, acc.push(s)),
            _ => Option::None,
        }
    }
}

/// Fold one service mapping: known keys set typed fields, unknown keys
/// are recorded under `prefix`.
pub open spec fn project_service_m(
    entries: Seq<(Seq<char>, ValueModel)>,
    i: int,
    acc: ServiceModel,
    unk: Seq<Seq<char>>,
    prefix: Seq<char>,
) -> Result<(ServiceModel, Seq<Seq<char>>), Seq<char>>
    decreases entries.len() - i,
{
    if i < 0 || i >= entries.len() {
        Ok((acc, unk))
    } else {
        let k = entries[i].0;
        let v = entries[i].1;
        if k == "image"@ {
            match v {
                ValueModel::Str(s) => project_service_m(
                    entries,
                    i + 1,
                    ServiceModel { image: Option::Some(s), ..acc },
                    unk,
                    prefix,
                ),
                _ => Err(bad_field_msg(prefix + k)),
            }
        } else if k == "build"@ {
            project_service_m(
                entries,
                i + 1,
                ServiceModel { build: Option::Some(v), ..acc },
                unk,
                prefix,
            )
        } else if k == "network_mode"@ {
            match v {
                ValueModel::Str(s) => project_service_m(
                    entries,
                    i + 1,
                    ServiceModel { network_mode: Option::Some(s), ..acc },
                    unk,
                    prefix,
                ),
                _ => Err(bad_field_msg(prefix + k)),
            }
        } else if k == "ports"@ {
            project_service_m(
                entries,
                i + 1,
                ServiceModel { ports: Option::Some(v), ..acc },
                unk,
                prefix,
            )
        } else if k == "profiles"@ {
            match v {
                ValueModel::Sequence(items) => match str_items_m(items, 0, Seq::empty()) {
                    Option::Some(ps) => project_service_m(
                        entries,
                        i + 1,
                        ServiceModel { profiles: ps, ..acc },
                        unk,
                        prefix,
                    ),
                    Option::None => Err(bad_field_msg(prefix + k)),
                },
                _ => Err(bad_field_msg(prefix + k)),
            }
        } else if k == "environment"@ {
            project_service_m(
                entries,
                i + 1,
                ServiceModel { environment: Option::Some(v), ..acc },
                unk,
                prefix,
            )
        } else if k == "volumes"@ {
            project_service_m(
                entries,
                i + 1,
                ServiceModel { volumes: Option::Some(v), ..acc },
                unk,
                prefix,
            )
        } else if k == "labels"@ {
            project_service_m(
                entries,
                i + 1,
                ServiceModel { labels: Option::Some(v), ..acc },
                unk,
                prefix,
            )
        } else {
            project_service_m(entries, i + 1, acc, unk.push(prefix + k), prefix)
        }
    }
}

/// Fold the `services` section: every entry must be a mapping.
pub open spec fn project_services_m(
    entries: Seq<(Seq<char>, ValueModel)>,
    i: int,
    acc: Seq<(Seq<char>, ServiceModel)>,
    unk: Seq<Seq<char>>,
) -> Result<(Seq<(Seq<char>, ServiceModel)>, Seq<Seq<char>>), Seq<char>>
    decreases entries.len() - i,
{
    if i < 0 || i >= entries.len() {
        Ok((acc, unk))
    } else {
        let name = entries[i].0;
        match entries[i].1 {
            ValueModel::Mapping(sub) => match project_service_m(
                sub,
                0,
                empty_service_m(),
                unk,
                "services."@ + name + "."@,
            ) {
                Ok(r) => project_services_m(entries, i + 1, acc.push((name, r.0)), r.1),
                Err(e) => Err(e),
            },
            _ => Err(bad_field_msg("services."@ + name)),
        }
    }
}

pub open spec fn project_network_m(
    entries: Seq<(Seq<char>, ValueModel)>,
    i: int,
    acc: NetworkModel,
    unk: Seq<Seq<char>>,
    prefix: Seq<char>,
) -> Result<(NetworkModel, Seq<Seq<char>>), Seq<char>>
    decreases entries.len() - i,
{
    if i < 0 || i >= entries.len() {
        Ok((acc, unk))
    } else {
        let k = entries[i].0;
        let v = entries[i].1;
        if k == "external"@ {
            match v {
                ValueModel::Bool(b) => project_network_m(
                    entries,
                    i + 1,
                    NetworkModel { external: Option::Some(b), ..acc },
                    unk,
                    prefix,
                ),
                _ => Err(bad_field_msg(prefix + k)),
            }
        } else if k == "driver"@ {
            match v {
                ValueModel::Str(s) => project_network_m(
                    entries,
                    i + 1,
                    NetworkModel { driver: Option::Some(s), ..acc },
                    unk,
                    prefix,
                ),
                _ => Err(bad_field_msg(prefix + k)),
            }
        } else if k == "driver_opts"@ {
            project_network_m(
                entries,
                i + 1,
                NetworkModel { driver_opts: Option::Some(v), ..acc },
                unk,
                prefix,
            )
        } else if k == "enable_ipv6"@ {
            match v {
                ValueModel::Bool(b) => project_network_m(
                    entries,
                    i + 1,
                    NetworkModel { enable_ipv6: Option::Some(b), ..acc },
                    unk,
                    prefix,
                ),
                _ => Err(bad_field_msg(prefix + k)),
            }
        } else if k == "ipam"@ {
            project_network_m(
                entries,
                i + 1,
                NetworkModel { ipam: Option::Some(v), ..acc },
                unk,
                prefix,
            )
        } else if k == "internal"@ {
            match v {
                ValueModel::Bool(b) => project_network_m(
                    entries,
                    i + 1,
                    NetworkModel { internal: Option::Some(b), ..acc },
                    unk,
                    prefix,
                ),
                _ => Err(bad_field_msg(prefix + k)),
            }
        } else if k == "labels"@ {
            project_network_m(
                entries,
                i + 1,
                NetworkModel { labels: Option::Some(v), ..acc },
                unk,
                prefix,
            )
        } else {
            project_network_m(entries, i + 1, acc, unk.push(prefix + k), prefix)
        }
    }
}

pub open spec fn project_networks_m(
    entries: Seq<(Seq<char>, ValueModel)>,
    i: int,
    acc: Seq<(Seq<char>, Option<NetworkModel>)>,
    unk: Seq<Seq<char>>,
) -> Result<(Seq<(Seq<char>, Option<NetworkModel>)>, Seq<Seq<char>>), Seq<char>>
    decreases entries.len() - i,
{
    if i < 0 || i >= entries.len() {
        Ok((acc, unk))
    } else {
        let name = entries[i].0;
        match entries[i].1 {
            ValueModel::Null => project_networks_m(
                entries,
                i + 1,
                acc.push((name, Option::None)),
                unk,
            ),
            ValueModel::Mapping(sub) => match project_network_m(
                sub,
                0,
                empty_network_m(),
                unk,
                "networks."@ + name + "."@,
            ) {
                Ok(r) => project_networks_m(
                    entries,
                    i + 1,
                    acc.push((name, Option::Some(r.0))),
                    r.1,
                ),
                Err(e) => Err(e),
            },
            _ => Err(bad_field_msg("networks."@ + name)),
        }
    }
}

pub open spec fn project_volume_m(
    entries: Seq<(Seq<char>, ValueModel)>,
    i: int,
    acc: VolumeModel,
    unk: Seq<Seq<char>>,
    prefix: Seq<char>,
) -> Result<(VolumeModel, Seq<Seq<char>>), Seq<char>>
    decreases entries.len() - i,
{
    if i < 0 || i >= entries.len() {
        Ok((acc, unk))
    } else {
        let k = entries[i].0;
        let v = entries[i].1;
        if k == "external"@ {
            match v {
                ValueModel::Bool(b) => project_volume_m(
                    entries,
                    i + 1,
                    VolumeModel { external: Option::Some(b), ..acc },
                    unk,
                    prefix,
                ),
                _ => Err(bad_field_msg(prefix + k)),
            }
        } else if k == "driver"@ {
            match v {
                ValueModel::Str(s) => project_volume_m(
                    entries,
                    i + 1,
                    VolumeModel { driver: Option::Some(s), ..acc },
                    unk,
                    prefix,
                ),
                _ => Err(bad_field_msg(prefix + k)),
            }
        } else if k == "driver_opts"@ {
            project_volume_m(
                entries,
                i + 1,
                VolumeModel { driver_opts: Option::Some(v), ..acc },
                unk,
                prefix,
            )
        } else if k == "labels"@ {
            project_volume_m(
                entries,
                i + 1,
                VolumeModel { labels: Option::Some(v), ..acc },
                unk,
                prefix,
            )
        } else {
            project_volume_m(entries, i + 1, acc, unk.push(prefix + k), prefix)
        }
    }
}

pub open spec fn project_volumes_m(
    entries: Seq<(Seq<char>, ValueModel)>,
    i: int,
    acc: Seq<(Seq<char>, Option<VolumeModel>)>,
    unk: Seq<Seq<char>>,
) -> Result<(Seq<(Seq<char>, Option<VolumeModel>)>, Seq<Seq<char>>), Seq<char>>
    decreases entries.len() - i,
{
    if i < 0 || i >= entries.len() {
        Ok((acc, unk))
    } else {
        let name = entries[i].0;
        match entries[i].1 {
            ValueModel::Null => project_volumes_m(
                entries,
                i + 1,
                acc.push((name, Option::None)),
                unk,
            ),
            ValueModel::Mapping(sub) => match project_volume_m(
                sub,
                0,
                empty_volume_m(),
                unk,
                "volumes."@ + name + "."@,
            ) {
                Ok(r) => project_volumes_m(
                    entries,
                    i + 1,
                    acc.push((name, Option::Some(r.0))),
                    r.1,
                ),
                Err(e) => Err(e),
            },
            _ => Err(bad_field_msg("volumes."@ + name)),
        }
    }
}

pub open spec fn project_config_m(
    entries: Seq<(Seq<char>, ValueModel)>,
    i: int,
    acc: ConfigDefModel,
    unk: Seq<Seq<char>>,
    prefix: Seq<char>,
) -> Result<(ConfigDefModel, Seq<Seq<char>>), Seq<char>>
    decreases entries.len() - i,
{
    if i < 0 || i >= entries.len() {
        Ok((acc, unk))
    } else {
        let k = entries[i].0;
        let v = entries[i].1;
        if k == "external"@ {
            match v {
                ValueModel::Bool(b) => project_config_m(
                    entries,
                    i + 1,
                    ConfigDefModel { external: Option::Some(b), ..acc },
                    unk,
                    prefix,
                ),
                _ => Err(bad_field_msg(prefix + k)),
            }
        } else if k == "file"@ {
            match v {
                ValueModel::Str(s) => project_config_m(
                    entries,
                    i + 1,
                    ConfigDefModel { file: Option::Some(s), ..acc },
                    unk,
                    prefix,
                ),
                _ => Err(bad_field_msg(prefix + k)),
            }
        } else {
            project_config_m(entries, i + 1, acc, unk.push(prefix + k), prefix)
        }
    }
}

pub open spec fn project_configs_m(
    entries: Seq<(Seq<char>, ValueModel)>,
    i: int,
    acc: Seq<(Seq<char>, ConfigDefModel)>,
    unk: Seq<Seq<char>>,
) -> Result<(Seq<(Seq<char>, ConfigDefModel)>, Seq<Seq<char>>), Seq<char>>
    decreases entries.len() - i,
{
    if i < 0 || i >= entries.len() {
        Ok((acc, unk))
    } else {
        let name = entries[i].0;
        match entries[i].1 {
            ValueModel::Mapping(sub) => match project_config_m(
                sub,
                0,
                empty_config_m(),
                unk,
                "configs."@ + name + "."@,
            ) {
                Ok(r) => project_configs_m(entries, i + 1, acc.push((name, r.0)), r.1),
                Err(e) => Err(e),
            },
            _ => Err(bad_field_msg("configs."@ + name)),
        }
    }
}

pub open spec fn project_secret_m(
    entries: Seq<(Seq<char>, ValueModel)>,
    i: int,
    acc: SecretDefModel,
    unk: Seq<Seq<char>>,
    prefix: Seq<char>,
) -> Result<(SecretDefModel, Seq<Seq<char>>), Seq<char>>
    decreases entries.len() - i,
{
    if i < 0 || i >= entries.len() {
        Ok((acc, unk))
    } else {
        let k = entries[i].0;
        let v = entries[i].1;
        if k == "external"@ {
            match v {
                ValueModel::Bool(b) => project_secret_m(
                    entries,
                    i + 1,
                    SecretDefModel { external: Option::Some(b), ..acc },
                    unk,
                    prefix,
                ),
                _ => Err(bad_field_msg(prefix + k)),
            }
        } else if k == "file"@ {
            match v {
                ValueModel::Str(s) => project_secret_m(
                    entries,
                    i + 1,
                    SecretDefModel { file: Option::Some(s), ..acc },
                    unk,
                    prefix,
                ),
                _ => Err(bad_field_msg(prefix + k)),
            }
        } else if k == "environment"@ {
            match v {
                ValueModel::Str(s) => project_secret_m(
                    entries,
                    i + 1,
                    SecretDefModel { environment: Option::Some(s), ..acc },
                    unk,
                    prefix,
                ),
                _ => Err(bad_field_msg(prefix + k)),
            }
        } else {
            project_secret_m(entries, i + 1, acc, unk.push(prefix + k), prefix)
        }
    }
}

pub open spec fn project_secrets_m(
    entries: Seq<(Seq<char>, ValueModel)>,
    i: int,
    acc: Seq<(Seq<char>, SecretDefModel)>,
    unk: Seq<Seq<char>>,
) -> Result<(Seq<(Seq<char>, SecretDefModel)>, Seq<Seq<char>>), Seq<char>>
    decreases entries.len() - i,
{
    if i < 0 || i >= entries.len() {
        Ok((acc, unk))
    } else {
        let name = entries[i].0;
        match entries[i].1 {
            ValueModel::Mapping(sub) => match project_secret_m(
                sub,
                0,
                empty_secret_m(),
                unk,
                "secrets."@ + name + "."@,
            ) {
                Ok(r) => project_secrets_m(entries, i + 1, acc.push((name, r.0)), r.1),
                Err(e) => Err(e),
            },
            _ => Err(bad_field_msg("secrets."@ + name)),
        }
    }
}

/// Fold the top-level mapping of a document.
pub open spec fn project_top_m(
    entries: Seq<(Seq<char>, ValueModel)>,
    i: int,
    acc: ComposeModel,
    unk: Seq<Seq<char>>,
) -> Result<(ComposeModel, Seq<Seq<char>>), Seq<char>>
    decreases entries.len() - i,
{
    if i < 0 || i >= entries.len() {
        Ok((acc, unk))
    } else {
        let k = entries[i].0;
        let v = entries[i].1;
        if k == "version"@ {
            match v {
                ValueModel::Str(s) => project_top_m(
                    entries,
                    i + 1,
                    ComposeModel { version: Option::Some(s), ..acc },
                    unk,
                ),
                _ => Err(bad_field_msg(k)),
            }
        } else if k == "name"@ {
            match v {
                ValueModel::Str(s) => project_top_m(
                    entries,
                    i + 1,
                    ComposeModel { name: Option::Some(s), ..acc },
                    unk,
                ),
                _ => Err(bad_field_msg(k)),
            }
        } else if k == "services"@ {
            match v {
                ValueModel::Mapping(sub) => match project_services_m(sub, 0, Seq::empty(), unk) {
                    Ok(r) => project_top_m(
                        entries,
                        i + 1,
                        ComposeModel { services: r.0, ..acc },
                        r.1,
                    ),
                    Err(e) => Err(e),
                },
                _ => Err(bad_field_msg(k)),
            }
        } else if k == "networks"@ {
            match v {
                ValueModel::Mapping(sub) => match project_networks_m(sub, 0, Seq::empty(), unk) {
                    Ok(r) => project_top_m(
                        entries,
                        i + 1,
                        ComposeModel { networks: Option::Some(r.0), ..acc },
                        r.1,
                    ),
                    Err(e) => Err(e),
                },
                _ => Err(bad_field_msg(k)),
            }
        } else if k == "volumes"@ {
            match v {
                ValueModel::Mapping(sub) => match project_volumes_m(sub, 0, Seq::empty(), unk) {
                    Ok(r) => project_top_m(
                        entries,
                        i + 1,
                        ComposeModel { volumes: Option::Some(r.0), ..acc },
                        r.1,
                    ),
                    Err(e) => Err(e),
                },
                _ => Err(bad_field_msg(k)),
            }
        } else if k == "configs"@ {
            match v {
                ValueModel::Mapping(sub) => match project_configs_m(sub, 0, Seq::empty(), unk) {
                    Ok(r) => project_top_m(
                        entries,
                        i + 1,
                        ComposeModel { configs: Option::Some(r.0), ..acc },
                        r.1,
                    ),
                    Err(e) => Err(e),
                },
                _ => Err(bad_field_msg(k)),
            }
        } else if k == "secrets"@ {
            match v {
                ValueModel::Mapping(sub) => match project_secrets_m(sub, 0, Seq::empty(), unk) {
                    Ok(r) => project_top_m(
                        entries,
                        i + 1,
                        ComposeModel { secrets: Option::Some(r.0), ..acc },
                        r.1,
                    ),
                    Err(e) => Err(e),
                },
                _ => Err(bad_field_msg(k)),
            }
        } else {
            project_top_m(entries, i + 1, acc, unk.push(k))
        }
    }
}

/// A whole document: the tree's root must be a mapping.
pub open spec fn project_doc_m(root: ValueModel) -> Result<
    (ComposeModel, Seq<Seq<char>>),
    Seq<char>,
> {
    match root {
        ValueModel::Mapping(entries) => project_top_m(entries, 0, empty_compose_m(), Seq::empty()),
        _ => Err("the document is not a mapping"@),
    }
}

} // verus!
