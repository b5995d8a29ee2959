use localhost::http::body::{Body, JsonValue};
use localhost::http::header::{ContentType, Header, HeaderName, HeaderParsedValue, HeaderValue};
use localhost::http::request::{parse_request, HttpMethod, Request};
use localhost::http::response::Response;
use localhost::http::status::HttpStatusCode;

fn json_text(key: &str, value: &str) -> String {
    let mut m = serde_json::Map::new();
    m.insert(key.to_string(), serde_json::Value::String(value.to_string()));
    serde_json::Value::Object(m).to_string()
}

#[test]
fn test_create_request() {
    let headers = Vec::new();
    let request = Request::new(
        HttpMethod::GET,
        "/test".to_string(),
        "HTTP/1.1".to_string(),
        headers,
        None,
    );

    assert_eq!(request.uri, "/test");
    assert_eq!(request.version, "HTTP/1.1");
    assert!(matches!(request.method, HttpMethod::GET));
}

#[test]
fn test_create_response() {
    let mut headers = Vec::new();
    headers.push(Header {
        name: HeaderName::ContentType,
        value: HeaderValue {
            value: "application/json".to_string(),
            parsed_value: Some(HeaderParsedValue::ContentType(ContentType::ApplicationJson)),
        },
    });

    let response = Response::new(
        HttpStatusCode::OK,
        headers.clone(),
        Some(Body::json(JsonValue::from_serialized(json_text("message", "test")))),
    );

    assert_eq!(response.version, "HTTP/1.1");
    assert!(matches!(response.status_code, HttpStatusCode::OK));
    assert_eq!(response.headers.len(), 1);
}

#[test]
fn test_parse_request() {
    let request_str = "GET /test HTTP/1.1\r\nHost: localhost:8080\r\n\r\n";
    let request = parse_request(request_str.as_bytes());

    assert!(request.is_some());
    let request = request.unwrap();
    assert_eq!(request.uri, "/test");
    assert!(matches!(request.method, HttpMethod::GET));
}

#[test]
fn test_response_to_string() {
    let mut headers = Vec::new();
    headers.push(Header {
        name: HeaderName::ContentType,
        value: HeaderValue {
            value: "text/plain".to_string(),
            parsed_value: Some(HeaderParsedValue::ContentType(ContentType::TextPlain)),
        },
    });

    let response = Response::new(HttpStatusCode::OK, headers, Some(Body::text("Hello")));

    let response_str = response.to_string();
    assert!(response_str.contains("HTTP/1.1 200"));
    assert!(response_str.contains("Content-Type: text/plain"));
    assert!(response_str.contains("Hello"));
}
