use swagterm::model::{ApiSpec, Info, Operation, Parameter, Response, Schema};
use swagterm::swagger::{
    openapi3_base_url_of, swagger2_base_url_of,
    OpenApi3, OpenApi3Components, OpenApi3MediaType, OpenApi3Operation, OpenApi3Parameter,
    OpenApi3RequestBody, OpenApi3Response, OpenApi3Server, SpecFormat, SpecVersion, Swagger2, Swagger2Operation,
    Swagger2Parameter, Swagger2Response, detect_version, format_for_extension, is_url,
};
use swagterm::validate::{check_refs, path_param_names, ref_name_of, validate, Warning};

fn s(x: &str) -> String {
    x.to_string()
}

fn schema() -> Schema {
    Schema {
        schema_type: None,
        properties: Vec::new(),
        reference: None,
        items: None,
        description: None,
        enum_values: Vec::new(),
        required: Vec::new(),
        format: None,
        example: None,
    }
}

fn typed(t: &str) -> Schema {
    Schema { schema_type: Some(s(t)), ..schema() }
}

fn reference(r: &str) -> Schema {
    Schema { reference: Some(s(r)), ..schema() }
}

fn info() -> Info {
    Info { title: s("Petstore"), version: s("1.0"), description: None }
}

fn param(name: &str, location: &str, param_type: Option<&str>) -> Parameter {
    Parameter {
        name: s(name),
        location: s(location),
        description: None,
        required: false,
        param_type: param_type.map(s),
        schema: None,
        enum_values: Vec::new(),
    }
}

fn operation(parameters: Vec<Parameter>, responses: Vec<(String, Response)>, id: Option<&str>) -> Operation {
    Operation {
        tags: vec![s("pet")],
        summary: None,
        description: None,
        operation_id: id.map(s),
        parameters,
        responses,
        consumes: Vec::new(),
        produces: Vec::new(),
    }
}

fn ok_response(schema: Option<Schema>) -> Vec<(String, Response)> {
    vec![(s("200"), Response { description: Some(s("ok")), schema })]
}

fn spec(paths: Vec<(String, Vec<(String, Operation)>)>, definitions: Vec<(String, Schema)>) -> ApiSpec {
    ApiSpec { info: info(), paths, definitions, base_url: String::new() }
}

fn messages(ws: &[Warning]) -> Vec<(String, String)> {
    ws.iter().map(|w| (w.path.clone(), w.message.clone())).collect()
}

#[test]
fn extension_picks_the_reader() {
    assert_eq!(format_for_extension("json"), Ok(SpecFormat::Json));
    assert_eq!(format_for_extension("yaml"), Ok(SpecFormat::Yaml));
    assert_eq!(format_for_extension("yml"), Ok(SpecFormat::Yaml));
    assert_eq!(format_for_extension("txt"), Err(s("Unsupported file extension: txt")));
    assert_eq!(format_for_extension(""), Err(s("Unsupported file extension: ")));
}

#[test]
fn version_detection() {
    assert_eq!(detect_version(true, true), Ok(SpecVersion::Swagger2));
    assert_eq!(detect_version(false, true), Ok(SpecVersion::OpenApi3));
    assert_eq!(
        detect_version(false, false),
        Err(s("Could not detect spec version. Expected 'swagger' or 'openapi' field."))
    );
}

#[test]
fn swagger2_conversion_keeps_everything_in_order() {
    let op = Swagger2Operation {
        tags: vec![s("pet")],
        summary: Some(s("Find pet")),
        description: None,
        operation_id: Some(s("getPet")),
        parameters: vec![Swagger2Parameter {
            name: s("petId"),
            location: s("path"),
            description: None,
            required: true,
            param_type: Some(s("integer")),
            schema: None,
            enum_values: vec![s("1"), s("2")],
        }],
        responses: vec![
            (s("200"), Swagger2Response { description: Some(s("ok")), schema: Some(reference("#/definitions/Pet")) }),
            (s("404"), Swagger2Response { description: Some(s("missing")), schema: None }),
        ],
        consumes: vec![s("application/json")],
        produces: vec![s("application/xml")],
    };
    let raw = Swagger2 {
        info: info(),
        host: None,
        base_path: None,
        schemes: Vec::new(),
        paths: vec![(s("/pet/{petId}"), vec![(s("get"), op)])],
        definitions: vec![(s("Pet"), typed("object"))],
    };
    let api = ApiSpec::from_swagger2(raw);
    assert_eq!(api.info.title, "Petstore");
    assert_eq!(api.base_url, "");
    assert_eq!(api.paths.len(), 1);
    assert_eq!(api.paths[0].0, "/pet/{petId}");
    let (method, op) = &api.paths[0].1[0];
    assert_eq!(method, "get");
    assert_eq!(op.operation_id.as_deref(), Some("getPet"));
    assert_eq!(op.parameters[0].name, "petId");
    assert_eq!(op.parameters[0].param_type.as_deref(), Some("integer"));
    assert!(op.parameters[0].required);
    assert_eq!(op.parameters[0].enum_values, vec![s("1"), s("2")]);
    assert_eq!(op.responses.len(), 2);
    assert_eq!(op.responses[1].0, "404");
    assert_eq!(
        op.responses[0].1.schema.as_ref().and_then(|x| x.reference.clone()),
        Some(s("#/definitions/Pet"))
    );
    assert_eq!(op.consumes, vec![s("application/json")]);
    assert_eq!(op.produces, vec![s("application/xml")]);
    assert_eq!(api.definitions[0].0, "Pet");
}

fn media(schema: Option<Schema>) -> OpenApi3MediaType {
    OpenApi3MediaType { schema }
}

#[test]
fn openapi3_request_body_becomes_a_body_parameter() {
    let op = OpenApi3Operation {
        tags: Vec::new(),
        summary: None,
        description: None,
        operation_id: None,
        parameters: vec![OpenApi3Parameter {
            name: s("limit"),
            location: s("query"),
            description: Some(s("max items")),
            required: false,
            schema: Some(Schema { enum_values: vec![s("10"), s("20")], ..typed("integer") }),
        }],
        request_body: Some(OpenApi3RequestBody {
            description: Some(s("the pet")),
            required: true,
            content: vec![
                (s("application/json"), media(Some(reference("#/components/schemas/Pet")))),
                (s("application/xml"), media(None)),
            ],
        }),
        responses: vec![
            (
                s("200"),
                OpenApi3Response {
                    description: Some(s("ok")),
                    content: Some(vec![
                        (s("application/json"), media(Some(typed("string")))),
                        (s("text/plain"), media(None)),
                    ]),
                },
            ),
            (
                s("400"),
                OpenApi3Response {
                    description: None,
                    content: Some(vec![(s("application/json"), media(None))]),
                },
            ),
            (s("500"), OpenApi3Response { description: Some(s("boom")), content: None }),
        ],
    };
    let raw = OpenApi3 {
        info: info(),
        servers: vec![OpenApi3Server { url: s("https://api.example.com/v3/") }, OpenApi3Server { url: s("http://other") }],
        paths: vec![(s("/pets"), vec![(s("post"), op)])],
        components: Some(OpenApi3Components { schemas: vec![(s("Pet"), typed("object"))] }),
    };
    let api = ApiSpec::from_openapi3(raw);
    assert_eq!(api.base_url, "https://api.example.com/v3");
    let op = &api.paths[0].1[0].1;
    assert_eq!(op.parameters.len(), 2);
    assert_eq!(op.parameters[0].param_type.as_deref(), Some("integer"));
    assert_eq!(op.parameters[0].enum_values, vec![s("10"), s("20")]);
    let body = &op.parameters[1];
    assert_eq!(body.name, "body");
    assert_eq!(body.location, "body");
    assert_eq!(body.description.as_deref(), Some("the pet"));
    assert!(body.required);
    assert_eq!(body.param_type, None);
    assert_eq!(
        body.schema.as_ref().and_then(|x| x.reference.clone()),
        Some(s("#/components/schemas/Pet"))
    );
    assert_eq!(op.consumes, vec![s("application/json"), s("application/xml")]);
    assert_eq!(op.produces, vec![s("application/json"), s("text/plain")]);
    assert_eq!(
        op.responses[0].1.schema.as_ref().and_then(|x| x.schema_type.clone()),
        Some(s("string"))
    );
    assert!(op.responses[1].1.schema.is_none());
    assert!(op.responses[2].1.schema.is_none());
    assert_eq!(api.definitions.len(), 1);
}

#[test]
fn openapi3_without_components_has_no_definitions() {
    let raw = OpenApi3 { info: info(), servers: Vec::new(), paths: Vec::new(), components: None };
    let api = ApiSpec::from_openapi3(raw);
    assert!(api.definitions.is_empty());
    assert!(api.paths.is_empty());
}

#[test]
fn reference_names() {
    assert_eq!(ref_name_of("#/definitions/Pet"), "Pet");
    assert_eq!(ref_name_of("#/components/schemas/Order"), "Order");
    assert_eq!(ref_name_of("Other"), "Other");
}

#[test]
fn path_parameters_of_a_template() {
    assert_eq!(path_param_names("/pet/{petId}/photo/{photoId}"), vec![s("petId"), s("photoId")]);
    assert_eq!(path_param_names("/pet/{}/x{y}"), vec![s("")]);
    assert!(path_param_names("/store").is_empty());
}

#[test]
fn check_refs_walks_items_and_properties() {
    let nested = Schema {
        schema_type: Some(s("object")),
        properties: vec![
            (s("owner"), reference("#/definitions/Owner")),
            (s("tag"), reference("#/definitions/Tag")),
        ],
        items: Some(Box::new(reference("#/definitions/Missing"))),
        ..schema()
    };
    let mut warnings = Vec::new();
    check_refs(&nested, &vec![s("Tag")], "GET /pet", &mut warnings);
    assert_eq!(
        messages(&warnings),
        vec![
            (s("GET /pet"), s("Unresolved $ref: #/definitions/Missing")),
            (s("GET /pet"), s("Unresolved $ref: #/definitions/Owner")),
        ]
    );
}

#[test]
fn validate_reports_each_kind_of_problem() {
    let get_pet = operation(
        vec![param("petId", "query", Some("integer")), param("filter", "query", None)],
        Vec::new(),
        Some("getPet"),
    );
    let del_pet = operation(
        vec![param("petId", "path", Some("integer")), Parameter {
            schema: Some(reference("#/definitions/Nope")),
            ..param("body", "body", None)
        }],
        ok_response(Some(reference("#/definitions/Pet"))),
        Some("getPet"),
    );
    let api = spec(
        vec![(s("/pet/{petId}"), vec![(s("get"), get_pet), (s("delete"), del_pet)])],
        vec![(s("Pet"), typed("object"))],
    );
    let ws = validate(&api);
    assert_eq!(
        messages(&ws),
        vec![
            (s("GET /pet/{petId}"), s("No responses defined")),
            (s("GET /pet/{petId}"), s("Path parameter 'petId' not defined in parameters")),
            (s("GET /pet/{petId}"), s("Parameter 'filter' has no type")),
            (s("DELETE /pet/{petId}"), s("Duplicate operationId 'getPet' (also in GET /pet/{petId})")),
            (s("DELETE /pet/{petId}"), s("Unresolved $ref: #/definitions/Nope")),
        ]
    );
}

#[test]
fn validate_accepts_a_clean_spec() {
    let op = operation(vec![param("id", "path", Some("string"))], ok_response(Some(reference("#/components/schemas/Pet"))), Some("a"));
    let api = spec(vec![(s("/x/{id}"), vec![(s("get"), op)])], vec![(s("Pet"), typed("object"))]);
    assert!(validate(&api).is_empty());
}

#[test]
fn urls_are_told_from_files() {
    assert!(is_url("https://petstore.swagger.io/v2/swagger.json"));
    assert!(is_url("http://localhost:8080/openapi.yaml"));
    assert!(!is_url("petstore.json"));
    assert!(!is_url("./http/spec.yaml"));
    assert!(!is_url("ftp://host/spec.json"));
}

#[test]
fn base_urls_come_from_the_document() {
    let schemes = vec![s("http"), s("https")];
    assert_eq!(swagger2_base_url_of(&Some(s("petstore.swagger.io")), &Some(s("/v2")), &schemes), "http://petstore.swagger.io/v2");
    assert_eq!(swagger2_base_url_of(&Some(s("api.test")), &Some(s("/")), &Vec::new()), "https://api.test");
    assert_eq!(swagger2_base_url_of(&Some(s("api.test")), &None, &Vec::new()), "https://api.test");
    assert_eq!(swagger2_base_url_of(&None, &Some(s("/v1")), &schemes), "/v1");
    assert_eq!(swagger2_base_url_of(&None, &None, &schemes), "");
    assert_eq!(openapi3_base_url_of(&vec![OpenApi3Server { url: s("https://petstore3.swagger.io/api/v3") }]), "https://petstore3.swagger.io/api/v3");
    assert_eq!(openapi3_base_url_of(&vec![OpenApi3Server { url: s("/") }]), "");
    assert_eq!(openapi3_base_url_of(&Vec::new()), "");
}

#[test]
fn more_definitions_never_add_reference_warnings() {
    let nested = Schema {
        properties: vec![
            (s("a"), reference("#/definitions/A")),
            (s("b"), Schema { items: Some(Box::new(reference("#/components/schemas/B"))), ..typed("array") }),
            (s("c"), reference("#/definitions/C")),
        ],
        ..typed("object")
    };
    let run = |defs: Vec<String>| {
        let mut ws = Vec::new();
        check_refs(&nested, &defs, "GET /x", &mut ws);
        messages(&ws)
    };
    let none = run(Vec::new());
    assert_eq!(none.len(), 3);
    let some = run(vec![s("B")]);
    assert_eq!(some, vec![none[0].clone(), none[2].clone()]);
    assert!(run(vec![s("A"), s("B"), s("C")]).is_empty());
}
