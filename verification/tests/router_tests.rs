use oas_middleware::document::{Document, Operation, PathItem, Route, Server, ServerVariable};
use oas_middleware::error::E;
use oas_middleware::matcher::match_from;
use oas_middleware::path_finder::{PathFinder, PathMatch};
use oas_middleware::pattern::{compile_template, count_captures, names_of_captures, Token};
use oas_middleware::request::{path_variables, query_variables, Attribute, RequestParts};
use oas_middleware::server::trimmed;

fn empty_item() -> PathItem {
    PathItem {
        get: None,
        put: None,
        post: None,
        delete: None,
        options: None,
        head: None,
        patch: None,
        trace: None,
        parameters: Vec::new(),
    }
}

fn item_with_get() -> PathItem {
    let mut item = empty_item();
    item.get = Some(Operation { parameters: Vec::new(), request_body: None, responses: Vec::new() });
    item
}

fn document(servers: Vec<Server>, templates: Vec<&str>) -> Document {
    Document {
        servers,
        paths: templates
            .into_iter()
            .map(|template| Route { template: template.to_string(), item: item_with_get() })
            .collect(),
        components: None,
    }
}

fn finder(templates: Vec<&str>) -> PathFinder {
    PathFinder::with_base(document(Vec::new(), templates), "")
}

fn route(template: &str) -> PathMatch {
    PathMatch {
        template: template.to_string(),
        pattern: compile_template(template),
        path: empty_item(),
    }
}

fn literal(text: &str) -> Vec<Token> {
    text.chars().map(Token::Literal).collect()
}

fn attributes(pairs: Vec<(&str, &str)>) -> Vec<Attribute> {
    pairs.into_iter().map(|(name, value)| Attribute::new(name, value)).collect()
}

#[test]
fn template_is_read_as_literals_and_captures() {
    let mut expected = literal("/study/");
    expected.push(Token::Capture("uuid".to_string()));
    expected.extend(literal("/test"));
    assert_eq!(compile_template("/study/{uuid}/test"), expected);
    assert_eq!(count_captures(&expected), 1);
    assert_eq!(names_of_captures(&expected), vec!["uuid".to_string()]);
}

#[test]
fn braces_that_do_not_pair_stand_for_themselves() {
    assert_eq!(compile_template("/a{b"), literal("/a{b"));
    assert_eq!(compile_template("/a}b"), literal("/a}b"));
    assert_eq!(compile_template(""), Vec::new());
    assert_eq!(
        compile_template("{}{x}}"),
        vec![Token::Capture(String::new()), Token::Capture("x".to_string()), Token::Literal('}')]
    );
}

#[test]
fn more_specific_route_is_chosen() {
    let finder = finder(vec!["/users/{id}", "/users/copy"]);
    assert_eq!(finder.find_index("/users/copy"), Ok(1));
    assert_eq!(finder.find("/users/copy").unwrap().template, "/users/copy");
    assert_eq!(finder.find("/users/copy").unwrap().captures_len(), 0);
    assert_eq!(finder.find_index("/users/42"), Ok(0));
    let turned = PathFinder::with_base(document(Vec::new(), vec!["/users/copy", "/users/{id}"]), "");
    assert_eq!(turned.find_index("/users/copy"), Ok(0));
    assert_eq!(turned.find_index("/users/42"), Ok(1));
}

#[test]
fn first_of_equally_specific_routes_is_chosen() {
    let finder = finder(vec!["/{a}/x", "/{b}/{c}", "/y/{d}", "/{e}/x"]);
    assert_eq!(finder.find_index("/y/x"), Ok(0));
    assert_eq!(finder.find_index("/y/z"), Ok(2));
    assert_eq!(finder.find_index("/q/z"), Ok(1));
}

#[test]
fn path_that_no_route_matches_is_not_described() {
    let finder = finder(vec!["/users/{id}", "/users/copy"]);
    assert_eq!(finder.find_index("/unknown/42"), Err(E::PathError("/unknown/42".to_string())));
    assert_eq!(finder.find("/users").map(|_| ()), Err(E::PathError("/users".to_string())));
    assert_eq!(finder.find("/users/").map(|_| ()), Err(E::PathError("/users/".to_string())));
    assert_eq!(finder.find("/users/1/2").map(|_| ()), Err(E::PathError("/users/1/2".to_string())));
    assert_eq!(finder.find("x/users/1").map(|_| ()), Err(E::PathError("x/users/1".to_string())));
}

#[test]
fn whole_path_must_match() {
    let users = route("/users/{id}");
    assert!(users.is_match("/users/42"));
    assert!(!users.is_match("/users/42/"));
    assert!(!users.is_match("/users/"));
    assert!(!users.is_match("/api/users/42"));
    assert!(!users.is_match("/users/4/2"));
    assert!(!users.is_match(""));
    assert!(route("").is_match(""));
    assert!(!route("").is_match("/"));
}

#[test]
fn literal_characters_stand_for_themselves() {
    let dotted = route("/a.b/(x)+");
    assert!(dotted.is_match("/a.b/(x)+"));
    assert!(!dotted.is_match("/aXb/(x)+"));
    assert!(!dotted.is_match("/a.b/x"));
}

#[test]
fn captures_hold_what_was_put_into_the_template() {
    let route = route("/shops/{shop}/items/{item}");
    assert_eq!(
        route.captures("/shops/north/items/42"),
        Some(vec!["north".to_string(), "42".to_string()])
    );
    assert_eq!(
        path_variables(&route, "/shops/north/items/42"),
        attributes(vec![("shop", "north"), ("item", "42")])
    );
    assert_eq!(route.captures("/shops//items/42"), None);
    assert_eq!(path_variables(&route, "/shops//items/42"), Vec::new());
    assert_eq!(path_variables(&route, "/elsewhere"), Vec::new());
}

#[test]
fn one_capture_in_a_segment_holds_what_was_put_in() {
    assert_eq!(route("/f/{n}.json").captures("/f/a.b.json"), Some(vec!["a.b".to_string()]));
    assert_eq!(
        route("/files/{name}.json/v{major}").captures("/files/x.json.json/v12"),
        Some(vec!["x.json".to_string(), "12".to_string()])
    );
    assert_eq!(route("/f/{n}.json").captures("/f/.json"), None);
    assert_eq!(route("/f/{n}.json").captures("/f/a.jso"), None);
}

#[test]
fn captures_take_as_much_as_they_can() {
    assert_eq!(
        route("/{a}{b}").captures("/xyz"),
        Some(vec!["xy".to_string(), "z".to_string()])
    );
    assert_eq!(
        route("/{a}-{b}").captures("/x-y-z"),
        Some(vec!["x-y".to_string(), "z".to_string()])
    );
    assert_eq!(
        route("/files/{name}.{ext}").captures("/files/a.tar.gz"),
        Some(vec!["a.tar".to_string(), "gz".to_string()])
    );
    assert_eq!(route("/{a}{b}").captures("/x"), None);
    assert_eq!(route("/{a}x").captures("/xx"), Some(vec!["x".to_string()]));
    assert_eq!(route("/{a}x").captures("/yx/"), None);
}

#[test]
fn captures_of_text_beyond_ascii() {
    assert_eq!(
        route("/caf\u{e9}/{name}/x").captures("/caf\u{e9}/\u{fc}ber/x"),
        Some(vec!["\u{fc}ber".to_string()])
    );
}

#[test]
fn spans_are_left_alone_where_nothing_matches() {
    let tokens = compile_template("/{a}/b");
    let chars: Vec<char> = "/x/c".chars().collect();
    let mut spans = vec![(0, 1)];
    assert!(!match_from(&tokens, 0, &chars, 0, &mut spans));
    assert_eq!(spans, vec![(0, 1)]);
    let chars: Vec<char> = "/x/b".chars().collect();
    assert!(match_from(&tokens, 0, &chars, 0, &mut spans));
    assert_eq!(spans, vec![(0, 1), (1, 2)]);
}

#[test]
fn query_is_split_at_ampersands_and_first_equals() {
    assert_eq!(
        query_variables(&Some("user=me&role=root")),
        attributes(vec![("user", "me"), ("role", "root")])
    );
    assert_eq!(query_variables(&None), Vec::new());
    assert_eq!(query_variables(&Some("")), Vec::new());
    assert_eq!(query_variables(&Some("flag")), Vec::new());
    assert_eq!(
        query_variables(&Some("a=1&flag&b=2&")),
        attributes(vec![("a", "1"), ("b", "2")])
    );
    assert_eq!(
        query_variables(&Some("a=b=c&=x&y=&&a=2")),
        attributes(vec![("a", "b=c"), ("", "x"), ("y", ""), ("a", "2")])
    );
}

#[test]
fn query_values_are_not_decoded() {
    assert_eq!(
        query_variables(&Some("q=hello%20world+x")),
        attributes(vec![("q", "hello%20world+x")])
    );
}

#[test]
fn request_parts_hold_both_groups() {
    let route = route("/items/{id}");
    let parts = RequestParts::new(&route, "/items/42", &Some("active=true"));
    assert_eq!(parts.path_variables, attributes(vec![("id", "42")]));
    assert_eq!(parts.query_variables, attributes(vec![("active", "true")]));
}

#[test]
fn base_path_of_the_first_server_stands_before_every_template() {
    let servers = vec![
        Server { url: "http://localhost:3000/api/v1/".to_string(), variables: None },
        Server { url: "http://other/ignored".to_string(), variables: None },
    ];
    let finder = PathFinder::new(document(servers, vec!["/items/{id}"]));
    assert_eq!(finder.path_matches[0].template, "/api/v1/items/{id}");
    assert_eq!(finder.find_index("/api/v1/items/42"), Ok(0));
    assert_eq!(finder.find_index("/items/42"), Err(E::PathError("/items/42".to_string())));
}

#[test]
fn document_without_servers_has_no_base_path() {
    let finder = PathFinder::new(document(Vec::new(), vec!["/items/{id}"]));
    assert_eq!(finder.path_matches[0].template, "/items/{id}");
    assert_eq!(finder.find_index("/items/42"), Ok(0));
}

#[test]
fn base_path_comes_from_the_variable_where_there_are_variables() {
    let variable = |name: &str, default: &str| ServerVariable {
        name: name.to_string(),
        default: default.to_string(),
    };
    let with = Server {
        url: "http://{host}/{basePath}".to_string(),
        variables: Some(vec![variable("host", "h"), variable("basePath", "/v2/")]),
    };
    assert_eq!(with.base_path(), "/v2");
    let without = Server {
        url: "http://localhost/ignored".to_string(),
        variables: Some(vec![variable("host", "h")]),
    };
    assert_eq!(without.base_path(), "");
    let empty = Server {
        url: "http://localhost/ignored".to_string(),
        variables: Some(vec![variable("basePath", "")]),
    };
    assert_eq!(empty.base_path(), "");
}

#[test]
fn base_path_comes_from_the_address_where_there_are_no_variables() {
    let server = |url: &str| Server { url: url.to_string(), variables: None };
    assert_eq!(server("http://localhost:3000/api").base_path(), "/api");
    assert_eq!(server("http://localhost:3000/api/").base_path(), "/api");
    assert_eq!(server("http://localhost:3000/").base_path(), "");
    assert_eq!(server("/v1").base_path(), "/v1");
    assert_eq!(server("not a uri").base_path(), "");
    assert_eq!(server("").base_path(), "");
    assert_eq!(server("/v1").base_path_with(Some("/other/".to_string())), "/other");
    assert_eq!(server("/v1").base_path_with(None), "");
}

#[test]
fn trailing_slash_is_trimmed_once() {
    assert_eq!(trimmed("/a/"), "/a");
    assert_eq!(trimmed("/a//"), "/a/");
    assert_eq!(trimmed("/"), "");
    assert_eq!(trimmed(""), "");
    assert_eq!(trimmed("/a"), "/a");
}
