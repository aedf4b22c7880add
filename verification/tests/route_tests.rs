use blog_api::routes::{comment_routes, get_auth_routes, posts_routes, Endpoint, Method};

#[test]
fn auth_routes_table() {
    let r = get_auth_routes();
    assert_eq!(r.len(), 2);
    assert_eq!(r[0].method, Method::Post);
    assert_eq!(r[0].path, "/sign-in");
    assert_eq!(r[0].endpoint, Endpoint::SignIn);
    assert_eq!(r[1].method, Method::Post);
    assert_eq!(r[1].path, "/sign-up");
    assert_eq!(r[1].endpoint, Endpoint::SignUp);
}

#[test]
fn comment_routes_table() {
    let r = comment_routes();
    assert_eq!(r.len(), 4);
    assert_eq!(r[0].method, Method::Post);
    assert_eq!(r[0].path, "/comment/<post_id>");
    assert_eq!(r[1].method, Method::Delete);
    assert_eq!(r[2].method, Method::Get);
    assert_eq!(r[3].method, Method::Put);
    assert_eq!(r[3].path, "/post/<post_id>/comment/<comment_id>");
    assert_eq!(r[3].endpoint, Endpoint::UpdateComment);
}

#[test]
fn post_routes_table() {
    let r = posts_routes();
    assert_eq!(r.len(), 5);
    assert_eq!(r[0].method, Method::Post);
    assert_eq!(r[0].path, "/post");
    assert_eq!(r[0].endpoint, Endpoint::CreatePost);
    assert_eq!(r[1].method, Method::Delete);
    assert_eq!(r[2].method, Method::Get);
    assert_eq!(r[3].method, Method::Put);
    assert_eq!(r[4].method, Method::Get);
    assert_eq!(r[4].endpoint, Endpoint::GetPosts);
}
