use web_server_core::http_server::HttpMethod;
use web_server_core::http_server::Router;
use web_server_core::http_server::ServerBuilder;

fn router() -> Router<u32> {
    Router::new().add_route(HttpMethod::get("/home"), 1)
}

fn error_of(builder: ServerBuilder<u32>) -> String {
    match builder.build() {
        Ok(_) => panic!("expected an error"),
        Err(e) => e.to_string(),
    }
}

#[test]
fn builder_defaults_need_only_a_router() {
    let config = ServerBuilder::new().router(router()).build().ok().expect("a configuration");
    assert_eq!(config.address, "127.0.0.1:8000");
    assert_eq!(config.thread_count, 2);
    assert_eq!(config.router.len(), 1);
    assert_eq!(config.router.route(HttpMethod::GET, "/home"), Some(&1));
}

#[test]
fn builder_takes_address_and_thread_count() {
    let config = ServerBuilder::new()
        .address("0.0.0.0:8080")
        .thread_count(4)
        .router(router())
        .build()
        .ok()
        .expect("a configuration");
    assert_eq!(config.address, "0.0.0.0:8080");
    assert_eq!(config.thread_count, 4);
}

#[test]
fn builder_without_router_fails() {
    assert_eq!(error_of(ServerBuilder::new()), "Router is missing");
    assert_eq!(error_of(ServerBuilder::new().address("x").thread_count(3)), "Router is missing");
}

#[test]
fn builder_refuses_a_pool_without_workers() {
    assert_eq!(
        error_of(ServerBuilder::new().thread_count(0).router(router())),
        "Thread count must be at least one"
    );
    assert_eq!(error_of(ServerBuilder::new().thread_count(0)), "Router is missing");
}
