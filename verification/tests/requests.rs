use graphql_lambda::dispatch::{dispatch, error_envelope, Method, Outcome, RawRequest};
use graphql_lambda::doc::Doc;
use graphql_lambda::extract::{extract_get, extract_multipart, extract_post, ReqBody};
use graphql_lambda::json::{Json, UploadValue};
use graphql_lambda::multipart::{boundary_of, parse_multipart};
use graphql_lambda::ExtractError;

fn obj(entries: Vec<(&str, Json)>) -> Json {
    Json::Obj(entries.into_iter().map(|(k, v)| (k.as_bytes().to_vec(), v)).collect())
}

fn get_key<'a>(j: &'a Json, key: &str) -> &'a Json {
    match j {
        Json::Obj(fields) => {
            for (k, v) in fields {
                if k.as_slice() == key.as_bytes() {
                    return v;
                }
            }
            panic!("key {} not found", key);
        }
        _ => panic!("not an object"),
    }
}

fn multipart_body(boundary: &str, parts: &[(&str, Option<&str>, Option<&str>, &[u8])]) -> Vec<u8> {
    // parts: (name, filename, content type, payload)
    let mut out: Vec<u8> = Vec::new();
    for (name, filename, ctype, payload) in parts {
        out.extend_from_slice(format!("--{}\r\n", boundary).as_bytes());
        let mut disp = format!("Content-Disposition: form-data; name=\"{}\"", name);
        if let Some(f) = filename {
            disp.push_str(&format!("; filename=\"{}\"", f));
        }
        out.extend_from_slice(disp.as_bytes());
        out.extend_from_slice(b"\r\n");
        if let Some(c) = ctype {
            out.extend_from_slice(format!("Content-Type: {}\r\n", c).as_bytes());
        }
        out.extend_from_slice(b"\r\n");
        out.extend_from_slice(payload);
        out.extend_from_slice(b"\r\n");
    }
    out.extend_from_slice(format!("--{}--", boundary).as_bytes());
    out
}

#[test]
fn post_text_round_trip() {
    let body = ReqBody::Text(
        br#"{"query":"{users{id, name}}","operationName":"Q","variables":{"a":1,"b":"x"}}"#
            .to_vec(),
    );
    let doc = extract_post(&None, &body).expect("should extract");
    assert_eq!(doc.query, b"{users{id, name}}".to_vec());
    assert_eq!(doc.operation_name, Some(b"Q".to_vec()));
    assert_eq!(
        doc.variables,
        obj(vec![
            ("a", Json::Num(b"1".to_vec())),
            ("b", Json::Str(b"x".to_vec())),
        ])
    );
}

#[test]
fn post_binary_round_trip() {
    let body = ReqBody::Binary(br#"{"query":"{users}"}"#.to_vec());
    let ct = Some(b"application/json".to_vec());
    let doc = extract_post(&ct, &body).expect("should extract");
    assert_eq!(doc.query, b"{users}".to_vec());
    assert_eq!(doc.operation_name, None);
    assert_eq!(doc.variables, obj(vec![]));
}

#[test]
fn post_text_malformed_json_is_deserialization_error() {
    let body = ReqBody::Text(b"{not json".to_vec());
    assert_eq!(extract_post(&None, &body), Err(ExtractError::Deserialization));
}

#[test]
fn post_text_missing_query_is_deserialization_error() {
    let body = ReqBody::Text(br#"{"operationName":"Q"}"#.to_vec());
    assert_eq!(extract_post(&None, &body), Err(ExtractError::Deserialization));
}

#[test]
fn post_empty_body_fails() {
    assert_eq!(
        extract_post(&None, &ReqBody::Empty),
        Err(ExtractError::EmptyBody)
    );
    let req = RawRequest {
        method: Method::Post,
        path: b"/graphql".to_vec(),
        content_type: None,
        params: vec![],
        body: ReqBody::Empty,
    };
    assert_eq!(dispatch(req), Outcome::BadRequest(ExtractError::EmptyBody));
}

#[test]
fn post_binary_without_content_type_fails() {
    let body = ReqBody::Binary(br#"{"query":"{u}"}"#.to_vec());
    assert_eq!(
        extract_post(&None, &body),
        Err(ExtractError::MissingContentType)
    );
}

#[test]
fn post_binary_non_text_header_fails() {
    let body = ReqBody::Binary(br#"{"query":"{u}"}"#.to_vec());
    let ct = Some(vec![0xffu8, 0x01]);
    assert_eq!(extract_post(&ct, &body), Err(ExtractError::InvalidData));
}

#[test]
fn get_extracts_query_and_operation_name() {
    let params: Vec<(Vec<u8>, Vec<u8>)> = vec![
        (b"query".to_vec(), b"{users{id}}".to_vec()),
        (b"operationName".to_vec(), b"Q".to_vec()),
        (b"variables".to_vec(), br#"{"a":true}"#.to_vec()),
    ];
    let doc = extract_get(&params).expect("should extract");
    assert_eq!(doc.query, b"{users{id}}".to_vec());
    assert_eq!(doc.operation_name, Some(b"Q".to_vec()));
    assert_eq!(doc.variables, obj(vec![("a", Json::Bool(true))]));
}

#[test]
fn get_without_query_fails() {
    let params: Vec<(Vec<u8>, Vec<u8>)> = vec![(b"operationName".to_vec(), b"Q".to_vec())];
    assert_eq!(extract_get(&params), Err(ExtractError::MissingQuery));
}

#[test]
fn get_unparseable_variables_falls_back_to_empty() {
    let params: Vec<(Vec<u8>, Vec<u8>)> = vec![
        (b"query".to_vec(), b"{users}".to_vec()),
        (b"variables".to_vec(), b"%%%not-json".to_vec()),
    ];
    let doc = extract_get(&params).expect("fallback, not an error");
    assert_eq!(doc.variables, obj(vec![]));
}

#[test]
fn get_non_object_variables_falls_back_to_empty() {
    let params: Vec<(Vec<u8>, Vec<u8>)> = vec![
        (b"query".to_vec(), b"{users}".to_vec()),
        (b"variables".to_vec(), b"42".to_vec()),
    ];
    let doc = extract_get(&params).expect("fallback, not an error");
    assert_eq!(doc.variables, obj(vec![]));
}

#[test]
fn boundary_extracted_from_header() {
    let b = boundary_of(b"multipart/form-data; boundary=XYZ").expect("has boundary");
    assert_eq!(b, b"XYZ".to_vec());
    let b = boundary_of(b"multipart/form-data;  boundary= abc ").expect("has boundary");
    assert_eq!(b, b"abc".to_vec());
}

#[test]
fn boundary_takes_second_equals_token() {
    // the token between the first and second `=`, as the header contract says
    let b = boundary_of(b"multipart/form-data; boundary=ab==cd").expect("has boundary");
    assert_eq!(b, b"ab".to_vec());
}

#[test]
fn boundary_absent_is_none() {
    assert_eq!(boundary_of(b"multipart/form-data; charset=utf-8"), None);
}

#[test]
fn multipart_without_boundary_parameter_fails() {
    let body = ReqBody::Binary(multipart_body("B", &[]));
    let ct = Some(b"multipart/form-data".to_vec());
    assert_eq!(extract_post(&ct, &body), Err(ExtractError::InvalidData));
}

#[test]
fn multipart_fields_parsed_in_arrival_order() {
    let body = multipart_body(
        "BND",
        &[
            ("first", None, None, b"hello"),
            ("second", Some("f.bin"), Some("application/octet-stream"), &[0u8, 1, 2]),
        ],
    );
    let fields = parse_multipart(&body, b"BND").expect("well-formed");
    assert_eq!(fields.len(), 2);
    assert_eq!(fields[0].name, Some(b"first".to_vec()));
    assert_eq!(fields[0].filename, None);
    assert_eq!(fields[0].content_type, None);
    assert_eq!(fields[0].data, b"hello".to_vec());
    assert_eq!(fields[1].name, Some(b"second".to_vec()));
    assert_eq!(fields[1].filename, Some(b"f.bin".to_vec()));
    assert_eq!(
        fields[1].content_type,
        Some(b"application/octet-stream".to_vec())
    );
    assert_eq!(fields[1].data, vec![0u8, 1, 2]);
}

#[test]
fn multipart_malformed_framing_fails() {
    let body = b"--BND\rrubbish".to_vec();
    assert_eq!(parse_multipart(&body, b"BND"), None);
    let ct = Some(b"multipart/form-data; boundary=BND".to_vec());
    assert_eq!(
        extract_post(&ct, &ReqBody::Binary(body)),
        Err(ExtractError::InvalidData)
    );
}

#[test]
fn multipart_uploads_substituted_once_each() {
    let ops = br#"{"query":"mutation{createUser(name:\"Alex\"){name}}","variables":{"image":null,"image2":null}}"#;
    let map = br#"{"0":["variables.image"],"1":["variables.image2"]}"#;
    let body = multipart_body(
        "BND",
        &[
            ("operations", None, None, ops),
            ("map", None, None, map),
            ("0", Some("a.png"), Some("image/png"), b"IMGDATA0"),
            ("1", None, None, b"IMGDATA1"),
        ],
    );
    let doc = extract_multipart(&body, b"BND").expect("should extract");
    assert_eq!(
        doc.query,
        br#"mutation{createUser(name:"Alex"){name}}"#.to_vec()
    );
    let img = get_key(&doc.variables, "image");
    assert_eq!(
        img,
        &Json::Upload(UploadValue {
            filename: b"a.png".to_vec(),
            content_type: Some(b"image/png".to_vec()),
            content: b"IMGDATA0".to_vec(),
        })
    );
    let img2 = get_key(&doc.variables, "image2");
    assert_eq!(
        img2,
        &Json::Upload(UploadValue {
            filename: b"default_filename".to_vec(),
            content_type: None,
            content: b"IMGDATA1".to_vec(),
        })
    );
}

#[test]
fn multipart_broadcasts_one_upload_to_all_paths() {
    let ops = br#"{"query":"m","variables":{"a":null,"b":null}}"#;
    let map = br#"{"0":["variables.a","variables.b"]}"#;
    let body = multipart_body(
        "BND",
        &[
            ("operations", None, None, ops),
            ("map", None, None, map),
            ("0", Some("x.txt"), None, b"PAYLOAD"),
        ],
    );
    let doc = extract_multipart(&body, b"BND").expect("should extract");
    let expected = Json::Upload(UploadValue {
        filename: b"x.txt".to_vec(),
        content_type: None,
        content: b"PAYLOAD".to_vec(),
    });
    assert_eq!(get_key(&doc.variables, "a"), &expected);
    assert_eq!(get_key(&doc.variables, "b"), &expected);
}

#[test]
fn multipart_array_index_path() {
    let ops = br#"{"query":"m","variables":{"files":[null,null]}}"#;
    let map = br#"{"0":["variables.files.1"]}"#;
    let body = multipart_body(
        "BND",
        &[
            ("operations", None, None, ops),
            ("map", None, None, map),
            ("0", None, None, b"X"),
        ],
    );
    let doc = extract_multipart(&body, b"BND").expect("should extract");
    match get_key(&doc.variables, "files") {
        Json::Arr(files) => {
            assert_eq!(files[0], Json::Null);
            assert_eq!(
                files[1],
                Json::Upload(UploadValue {
                    filename: b"default_filename".to_vec(),
                    content_type: None,
                    content: b"X".to_vec(),
                })
            );
        }
        other => panic!("files is not an array: {:?}", other),
    }
}

#[test]
fn multipart_missing_operations_fails_with_missing_query() {
    let map = br#"{"0":["variables.image"]}"#;
    let body = multipart_body(
        "BND",
        &[("map", None, None, map), ("0", None, None, b"DATA")],
    );
    assert_eq!(
        extract_multipart(&body, b"BND"),
        Err(ExtractError::MissingQuery)
    );
}

#[test]
fn multipart_malformed_map_degrades_to_no_uploads() {
    let ops = br#"{"query":"m","variables":{"a":null}}"#;
    let body = multipart_body(
        "BND",
        &[
            ("operations", None, None, ops),
            ("map", None, None, b"[not an object]"),
            ("0", None, None, b"DATA"),
        ],
    );
    let doc = extract_multipart(&body, b"BND").expect("should extract");
    assert_eq!(get_key(&doc.variables, "a"), &Json::Null);
}

#[test]
fn multipart_unknown_fields_ignored() {
    let ops = br#"{"query":"m"}"#;
    let body = multipart_body(
        "BND",
        &[
            ("operations", None, None, ops),
            ("stray", None, None, b"ignored"),
        ],
    );
    let doc = extract_multipart(&body, b"BND").expect("should extract");
    assert_eq!(doc.query, b"m".to_vec());
}

#[test]
fn dispatch_playground_serves_html() {
    let req = RawRequest {
        method: Method::Get,
        path: b"/playground".to_vec(),
        content_type: None,
        params: vec![(b"ignored".to_vec(), b"yes".to_vec())],
        body: ReqBody::Empty,
    };
    match dispatch(req) {
        Outcome::Playground(html) => {
            let html = String::from_utf8(html).expect("playground page is UTF-8");
            assert!(html.contains("http://localhost:9000/graphql"));
            assert!(html.to_ascii_lowercase().contains("<!doctype html>"));
        }
        other => panic!("expected the playground page, got {:?}", other),
    }
}

#[test]
fn dispatch_routes_graphql_get() {
    let req = RawRequest {
        method: Method::Get,
        path: b"/graphql".to_vec(),
        content_type: None,
        params: vec![(b"query".to_vec(), b"{users}".to_vec())],
        body: ReqBody::Empty,
    };
    match dispatch(req) {
        Outcome::Execute(doc) => assert_eq!(doc.query, b"{users}".to_vec()),
        other => panic!("expected execution, got {:?}", other),
    }
}

#[test]
fn dispatch_rejects_other_routes() {
    let cases: Vec<(Method, &[u8])> = vec![
        (Method::Post, b"/playground"),
        (Method::Get, b"/elsewhere"),
        (Method::Other, b"/graphql"),
        (Method::Other, b"/playground"),
        (Method::Post, b"/"),
    ];
    for (method, path) in cases {
        let req = RawRequest {
            method,
            path: path.to_vec(),
            content_type: None,
            params: vec![],
            body: ReqBody::Empty,
        };
        assert_eq!(dispatch(req), Outcome::MethodNotAllowed);
    }
}

#[test]
fn error_envelope_shape() {
    let env = error_envelope(ExtractError::MissingQuery);
    assert_eq!(get_key(&env, "data"), &Json::Null);
    match get_key(&env, "errors") {
        Json::Arr(errs) => {
            assert_eq!(errs.len(), 1);
            assert_eq!(
                get_key(&errs[0], "message"),
                &Json::Str(b"Missing query".to_vec())
            );
        }
        other => panic!("errors is not an array: {:?}", other),
    }
}

#[test]
fn error_messages() {
    assert_eq!(ExtractError::EmptyBody.message(), "Empty body");
    assert_eq!(ExtractError::MethodNotAllowed.message(), "Method not allowed");
}

#[test]
fn multipart_header_names_are_case_insensitive() {
    let boundary = "BND";
    let mut body: Vec<u8> = Vec::new();
    body.extend_from_slice(b"--BND\r\n");
    body.extend_from_slice(b"CONTENT-DISPOSITION: form-data; NAME = \"spaced\"\r\n");
    body.extend_from_slice(b"Content-TYPE: text/plain\r\n");
    body.extend_from_slice(b"\r\npayload\r\n");
    body.extend_from_slice(b"--BND--");
    let fields = parse_multipart(&body, boundary.as_bytes()).expect("well-formed");
    assert_eq!(fields.len(), 1);
    assert_eq!(fields[0].name, Some(b"spaced".to_vec()));
    assert_eq!(fields[0].content_type, Some(b"text/plain".to_vec()));
    assert_eq!(fields[0].data, b"payload".to_vec());
}

#[test]
fn multipart_map_seen_after_file_part_declares_nothing_for_it() {
    // a part named in the map is recorded only once the map has been read
    let ops = br#"{"query":"m","variables":{"a":null}}"#;
    let map = br#"{"0":["variables.a"]}"#;
    let body = multipart_body(
        "BND",
        &[
            ("operations", None, None, ops),
            ("0", None, None, b"EARLY"),
            ("map", None, None, map),
        ],
    );
    let doc = extract_multipart(&body, b"BND").expect("should extract");
    assert_eq!(get_key(&doc.variables, "a"), &Json::Null);
}

#[test]
fn multipart_unresolvable_path_leaves_variables_unchanged() {
    let ops = br#"{"query":"m","variables":{"a":null}}"#;
    let map = br#"{"0":["variables.missing"],"1":["nonsense"]}"#;
    let body = multipart_body(
        "BND",
        &[
            ("operations", None, None, ops),
            ("map", None, None, map),
            ("0", None, None, b"X"),
            ("1", None, None, b"Y"),
        ],
    );
    let doc = extract_multipart(&body, b"BND").expect("should extract");
    assert_eq!(
        doc.variables,
        obj(vec![("a", Json::Null)])
    );
}

#[test]
fn get_without_operation_name_leaves_it_absent() {
    let params: Vec<(Vec<u8>, Vec<u8>)> = vec![(b"query".to_vec(), b"{users}".to_vec())];
    let doc = extract_get(&params).expect("should extract");
    assert_eq!(doc.operation_name, None);
    assert_eq!(doc.variables, obj(vec![]));
}

#[test]
fn get_takes_first_of_repeated_parameters() {
    let params: Vec<(Vec<u8>, Vec<u8>)> = vec![
        (b"query".to_vec(), b"first".to_vec()),
        (b"query".to_vec(), b"second".to_vec()),
    ];
    let doc = extract_get(&params).expect("should extract");
    assert_eq!(doc.query, b"first".to_vec());
}
