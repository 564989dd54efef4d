use interceptor::interceptor::{Dispatch, Interceptor, InterceptorService};
use interceptor::mount::{Mount, Routed};
use interceptor::paths::strip_prefix;

type Text = &'static str;

/// The routes of a plain sub-tree: exact path to response text.
type Routes = Vec<(Text, Text)>;

fn serve(routes: &Routes, path: &str) -> String {
    for (route, text) in routes {
        if *route == path {
            return text.to_string();
        }
    }
    String::from("not found")
}

/// A tree with one table at the root, a service composed by value under
/// `/nest-service`, a layered sub-tree under `/nest-router`, and a plain
/// route `/regular`.
struct Site {
    root: InterceptorService<Text, Routes>,
    nest_service: Mount<Text, Text>,
    nest_router: Mount<Text, Routes>,
}

fn site() -> Site {
    let nest_service = Interceptor::with_name("service")
        .intercept("/intercept-service", "intercept_service")
        .into_service("fallback");
    let nested = Interceptor::with_name("nested").intercept("/intercept-nest", "intercept_nest");
    let nest_router = nested.layer(vec![("/regular", "regular")]);
    let root = Interceptor::with_name("root")
        .intercept("/intercept-root", "intercept_root")
        .layer(vec![("/regular", "regular")]);
    Site {
        root,
        nest_service: Mount::new("/nest-service", nest_service),
        nest_router: Mount::new("/nest-router", nest_router),
    }
}

fn get(url: &str) -> String {
    let site = site();
    let path = url.parse::<http::Uri>().unwrap().path().to_string();
    match site.root.call_target(url).unwrap() {
        Dispatch::Intercepted(h) => h.to_string(),
        Dispatch::Forwarded(routes) => {
            if let Some(Routed { dispatch, .. }) = site.nest_service.call(&path) {
                return match dispatch {
                    Dispatch::Intercepted(h) => h.to_string(),
                    Dispatch::Forwarded(n) => n.to_string(),
                };
            }
            if let Some(Routed { path: inner, dispatch }) = site.nest_router.call(&path) {
                return match dispatch {
                    Dispatch::Intercepted(h) => h.to_string(),
                    Dispatch::Forwarded(n) => serve(&n, &inner),
                };
            }
            serve(&routes, &path)
        }
    }
}

#[test]
fn test_root_interceptor() {
    let response = get("http://localhost:3000/intercept-root");
    assert_eq!(response, "intercept_root");
}

#[test]
fn test_nested_service_interceptor() {
    let response = get("http://localhost:3000/nest-service/intercept-service");
    assert_eq!(response, "intercept_service");
}

#[test]
fn test_nested_router_interceptor() {
    let response = get("http://localhost:3000/nest-router/intercept-nest");
    assert_eq!(response, "intercept_nest");
}

#[test]
fn test_nested_router_regular() {
    let response = get("http://localhost:3000/nest-router/regular");
    assert_eq!(response, "regular");
}

#[test]
fn test_root_regular() {
    let response = get("http://localhost:3000/regular");
    assert_eq!(response, "regular");
}

#[test]
fn nested_table_does_not_see_the_full_path() {
    assert_eq!(get("http://localhost:3000/intercept-nest"), "not found");
    assert_eq!(get("http://localhost:3000/nest-router/nest-router/intercept-nest"), "not found");
    assert_eq!(get("http://localhost:3000/nest-service/other"), "fallback");
    assert_eq!(get("http://localhost:3000/nest-router/intercept-nest?debug=1"), "intercept_nest");
}

#[test]
fn strip_prefix_covers_the_prefix_and_what_continues_it() {
    let some = |s: &str| Some(String::from(s));
    assert_eq!(strip_prefix("/nest", "/nest"), some("/"));
    assert_eq!(strip_prefix("/nest", "/nest/"), some("/"));
    assert_eq!(strip_prefix("/nest", "/nest/a"), some("/a"));
    assert_eq!(strip_prefix("/nest", "/nest/a/b"), some("/a/b"));
    assert_eq!(strip_prefix("/nest", "/nest//a"), some("//a"));
    assert_eq!(strip_prefix("", "/a"), some("/a"));
    assert_eq!(strip_prefix("", ""), some("/"));
    assert_eq!(strip_prefix("/é", "/é/ü"), some("/ü"));
}

#[test]
fn strip_prefix_refuses_what_lies_outside() {
    assert_eq!(strip_prefix("/nest", "/nestor"), None);
    assert_eq!(strip_prefix("/nest", "/nes"), None);
    assert_eq!(strip_prefix("/nest", "/other/nest"), None);
    assert_eq!(strip_prefix("/nest", "/Nest/a"), None);
    assert_eq!(strip_prefix("/nest", ""), None);
    assert_eq!(strip_prefix("/nest/", "/nest/a"), None);
    assert_eq!(strip_prefix("", "a"), None);
}

#[test]
fn mount_hands_the_stripped_path_on() {
    let svc: InterceptorService<Text, Text> =
        Interceptor::with_name("m").intercept("/hit", "H").into_service("down");
    let mount = Mount::new("/api", svc);

    let hit = mount.call("/api/hit").unwrap();
    assert_eq!(hit.path, "/hit");
    assert!(matches!(hit.dispatch, Dispatch::Intercepted(h) if *h == "H"));

    let miss = mount.call("/api/miss/deeper").unwrap();
    assert_eq!(miss.path, "/miss/deeper");
    assert!(matches!(miss.dispatch, Dispatch::Forwarded(n) if *n == "down"));

    let bare = mount.call("/api").unwrap();
    assert_eq!(bare.path, "/");
    assert!(matches!(bare.dispatch, Dispatch::Forwarded(n) if *n == "down"));

    assert!(mount.call("/apix/hit").is_none());
    assert!(mount.call("/hit").is_none());
}

#[test]
fn mount_targets_go_by_their_path_component() {
    let svc: InterceptorService<Text, Text> =
        Interceptor::with_name("m").intercept("/hit", "H").into_service("down");
    let mount = Mount::new("/api", svc);

    let hit = mount.call_target("/api/hit?k=v").unwrap();
    assert_eq!(hit.path, "/hit");
    assert!(matches!(hit.dispatch, Dispatch::Intercepted(h) if *h == "H"));
    assert!(mount.call_target("/other?k=/api/hit").is_none());
    assert!(mount.call_target("").is_none());
}

#[test]
fn layered_mount_leaves_sibling_routes_alone() {
    let routes: Routes = vec![("/regular", "regular"), ("/other", "other")];
    let layered = Mount::new(
        "/nest-router",
        Interceptor::with_name("nested")
            .intercept("/intercept-nest", "intercept_nest")
            .layer(routes.clone()),
    );
    let plain: Mount<Text, Routes> =
        Mount::new("/nest-router", Interceptor::with_name("none").layer(routes));
    for path in ["/nest-router/regular", "/nest-router/other", "/nest-router", "/nest-router/x"] {
        let a = layered.call(path).unwrap();
        let b = plain.call(path).unwrap();
        assert_eq!(a.path, b.path);
        match (a.dispatch, b.dispatch) {
            (Dispatch::Forwarded(x), Dispatch::Forwarded(y)) => {
                assert_eq!(serve(&x, &a.path), serve(&y, &b.path))
            }
            _ => panic!("a sibling route must be forwarded"),
        }
    }
    let regular = layered.call("/nest-router/regular").unwrap();
    match regular.dispatch {
        Dispatch::Forwarded(n) => assert_eq!(serve(&n, &regular.path), "regular"),
        Dispatch::Intercepted(_) => panic!("a sibling route must be forwarded"),
    }
}
