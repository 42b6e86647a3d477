use compose::env::Env;
use compose::loader::{load_source, resolve_project_name};
use compose::merge::{image_names, merge_documents, profile_names, service_names, volume_names};
use compose::project::project_document;
use compose::schema::Compose;
use compose::value::Value;

fn svc(fields: Vec<(&str, Value)>) -> Value {
    Value::Mapping(
        fields
            .into_iter()
            .map(|(k, v)| (String::from(k), v))
            .collect(),
    )
}

fn s(text: &str) -> Value {
    Value::Str(String::from(text))
}

fn doc_with_service(name: &str, image: &str) -> Value {
    Value::Mapping(vec![(
        String::from("services"),
        Value::Mapping(vec![(String::from(name), svc(vec![("image", s(image))]))]),
    )])
}

fn load(id: &str, tree: Value) -> Result<(Compose, Vec<String>), String> {
    let mut env = Env::new();
    let mut warns: Vec<String> = Vec::new();
    load_source(
        &String::from(id),
        tree,
        &None,
        &String::from("fallbackdir"),
        true,
        &mut env,
        &mut warns,
    )
}

#[test]
fn merge_later_service_wins() {
    let (a, _) = load("a.yml", doc_with_service("web", "first:1")).unwrap();
    let (b, _) = load("b.yml", doc_with_service("web", "second:2")).unwrap();
    let combined =
        merge_documents(vec![(String::from("a.yml"), a), (String::from("b.yml"), b)]).unwrap();
    assert_eq!(combined.services.len(), 1);
    assert_eq!(combined.services[0].0, String::from("web"));
    assert_eq!(
        combined.services[0].1.image,
        Some(String::from("second:2"))
    );
}

#[test]
fn merge_keeps_networks_from_first() {
    let tree_a = Value::Mapping(vec![
        (
            String::from("services"),
            Value::Mapping(vec![(String::from("web"), svc(vec![("image", s("img"))]))]),
        ),
        (
            String::from("networks"),
            Value::Mapping(vec![(String::from("net1"), Value::Null)]),
        ),
    ]);
    let (a, _) = load("a.yml", tree_a).unwrap();
    let (b, _) = load("b.yml", doc_with_service("api", "img2")).unwrap();
    let combined =
        merge_documents(vec![(String::from("a.yml"), a), (String::from("b.yml"), b)]).unwrap();
    let nets = combined.networks.expect("networks kept");
    assert_eq!(nets.len(), 1);
    assert_eq!(nets[0].0, String::from("net1"));
    assert_eq!(combined.services.len(), 2);
}

#[test]
fn validation_requires_image_or_build() {
    let tree = Value::Mapping(vec![(
        String::from("services"),
        Value::Mapping(vec![(String::from("web"), svc(vec![("profiles", Value::Sequence(vec![]))]))]),
    )]);
    let (doc, _) = load("compose.yml", tree).unwrap();
    let err = merge_documents(vec![(String::from("compose.yml"), doc)]).unwrap_err();
    assert_eq!(
        err,
        String::from(
            "compose.yml: service \"web\" has neither an image nor a build context specified"
        )
    );
}

#[test]
fn validation_host_network_forbids_ports() {
    let tree = Value::Mapping(vec![(
        String::from("services"),
        Value::Mapping(vec![(
            String::from("web"),
            svc(vec![
                ("image", s("img")),
                ("network_mode", s("host")),
                ("ports", Value::Sequence(vec![s("80:80")])),
            ]),
        )]),
    )]);
    let (doc, _) = load("c.yml", tree).unwrap();
    let err = merge_documents(vec![(String::from("c.yml"), doc)]).unwrap_err();
    assert_eq!(
        err,
        String::from("c.yml: service \"web\" cannot have port mappings due to host network mode")
    );
}

#[test]
fn validation_external_network_conflict() {
    let tree = Value::Mapping(vec![
        (
            String::from("services"),
            Value::Mapping(vec![(String::from("web"), svc(vec![("image", s("img"))]))]),
        ),
        (
            String::from("networks"),
            Value::Mapping(vec![(
                String::from("net1"),
                Value::Mapping(vec![
                    (String::from("external"), Value::Bool(true)),
                    (String::from("driver"), s("bridge")),
                ]),
            )]),
        ),
    ]);
    let (doc, _) = load("d.yml", tree).unwrap();
    let err = merge_documents(vec![(String::from("d.yml"), doc)]).unwrap_err();
    assert_eq!(
        err,
        String::from("d.yml: conflicting parameters for network \"net1\"")
    );
}

#[test]
fn explicit_project_name_overrides() {
    let tree = Value::Mapping(vec![(String::from("name"), s("fromdoc"))]);
    let mut env = Env::new();
    let mut warns: Vec<String> = Vec::new();
    let out = resolve_project_name(
        tree,
        &Some(String::from("override")),
        &String::from("fallbackdir"),
        &mut env,
        &mut warns,
    )
    .unwrap();
    assert_eq!(
        out,
        Value::Mapping(vec![(String::from("name"), s("override"))])
    );
    assert_eq!(env.lookup(&String::from("COMPOSE_PROJECT_NAME")), None);
}

#[test]
fn numeric_project_name_coerced_and_published() {
    let tree = Value::Mapping(vec![(String::from("name"), Value::Int(5))]);
    let mut env = Env::new();
    let mut warns: Vec<String> = Vec::new();
    let out = resolve_project_name(
        tree,
        &None,
        &String::from("fallbackdir"),
        &mut env,
        &mut warns,
    )
    .unwrap();
    assert_eq!(
        out,
        Value::Mapping(vec![(String::from("name"), Value::Int(5))])
    );
    assert_eq!(
        env.lookup(&String::from("COMPOSE_PROJECT_NAME")),
        Some(String::from("5"))
    );
}

#[test]
fn document_name_interpolated_and_published() {
    let tree = Value::Mapping(vec![(String::from("name"), s("app-$SUFFIX"))]);
    let mut env = Env::new();
    env.set(String::from("SUFFIX"), String::from("dev"));
    let mut warns: Vec<String> = Vec::new();
    let out = resolve_project_name(
        tree,
        &None,
        &String::from("fallbackdir"),
        &mut env,
        &mut warns,
    )
    .unwrap();
    assert_eq!(
        out,
        Value::Mapping(vec![(String::from("name"), s("app-dev"))])
    );
    assert_eq!(
        env.lookup(&String::from("COMPOSE_PROJECT_NAME")),
        Some(String::from("app-dev"))
    );
}

#[test]
fn missing_name_takes_fallback() {
    let tree = Value::Mapping(vec![]);
    let mut env = Env::new();
    let mut warns: Vec<String> = Vec::new();
    let out = resolve_project_name(
        tree,
        &None,
        &String::from("mydir"),
        &mut env,
        &mut warns,
    )
    .unwrap();
    assert_eq!(out, Value::Mapping(vec![(String::from("name"), s("mydir"))]));
    assert_eq!(
        env.lookup(&String::from("COMPOSE_PROJECT_NAME")),
        Some(String::from("mydir"))
    );
}

#[test]
fn unknown_fields_are_recorded() {
    let tree = Value::Mapping(vec![
        (String::from("bogus"), s("x")),
        (
            String::from("services"),
            Value::Mapping(vec![(
                String::from("web"),
                svc(vec![("image", s("img")), ("mystery", Value::Int(1))]),
            )]),
        ),
    ]);
    let (_, unknown) = load("u.yml", tree).unwrap();
    assert_eq!(
        unknown,
        vec![String::from("bogus"), String::from("services.web.mystery")]
    );
}

#[test]
fn schema_error_names_the_source() {
    let tree = Value::Mapping(vec![(String::from("services"), s("oops"))]);
    let err = load("bad.yml", tree).unwrap_err();
    assert_eq!(
        err,
        String::from("bad.yml does not follow the Compose specification")
    );
}

#[test]
fn interpolation_error_is_path_qualified() {
    let tree = Value::Mapping(vec![(
        String::from("services"),
        Value::Mapping(vec![(
            String::from("web"),
            svc(vec![("image", s("${IMG?no image}"))]),
        )]),
    )]);
    let err = load("e.yml", tree).unwrap_err();
    assert_eq!(
        err,
        String::from(
            "services.web.image: Required variable \"IMG\" is missing a value: no image"
        )
    );
}

#[test]
fn interpolation_can_be_suppressed() {
    let tree = doc_with_service("web", "$IMG");
    let mut env = Env::new();
    env.set(String::from("IMG"), String::from("resolved"));
    let mut warns: Vec<String> = Vec::new();
    let (doc, _) = load_source(
        &String::from("n.yml"),
        tree,
        &None,
        &String::from("dir"),
        false,
        &mut env,
        &mut warns,
    )
    .unwrap();
    assert_eq!(doc.services[0].1.image, Some(String::from("$IMG")));
}

#[test]
fn extraction_helpers() {
    let tree = Value::Mapping(vec![
        (
            String::from("services"),
            Value::Mapping(vec![
                (
                    String::from("web"),
                    svc(vec![
                        ("image", s("img-a")),
                        (
                            "profiles",
                            Value::Sequence(vec![s("dev"), s("prod")]),
                        ),
                    ]),
                ),
                (
                    String::from("api"),
                    svc(vec![
                        ("build", s(".")),
                        (
                            "profiles",
                            Value::Sequence(vec![s("prod"), s("ci")]),
                        ),
                    ]),
                ),
            ]),
        ),
        (
            String::from("volumes"),
            Value::Mapping(vec![(String::from("data"), Value::Null)]),
        ),
    ]);
    let (doc, _) = load("x.yml", tree).unwrap();
    assert_eq!(
        service_names(&doc),
        vec![String::from("web"), String::from("api")]
    );
    assert_eq!(volume_names(&doc), vec![String::from("data")]);
    assert_eq!(
        profile_names(&doc),
        vec![String::from("dev"), String::from("prod"), String::from("ci")]
    );
    assert_eq!(image_names(&doc), vec![String::from("img-a")]);
}

#[test]
fn project_document_rejects_non_mapping() {
    let err = project_document(&Value::Sequence(vec![])).unwrap_err();
    assert_eq!(err, String::from("the document is not a mapping"));
}

#[test]
fn decimal_rendering() {
    assert_eq!(compose::text::u64_dec(0), String::from("0"));
    assert_eq!(compose::text::u64_dec(90210), String::from("90210"));
    assert_eq!(compose::text::i64_dec(-42), String::from("-42"));
    assert_eq!(compose::text::bool_dec(true), String::from("true"));
}

#[test]
fn env_last_binding_wins() {
    let mut env = Env::new();
    env.set(String::from("A"), String::from("one"));
    env.set(String::from("A"), String::from("two"));
    assert_eq!(env.lookup(&String::from("A")), Some(String::from("two")));
    assert_eq!(env.lookup(&String::from("B")), None);
}
