//! The route tables: which HTTP method and path reach which endpoint.
//! The HTTP layer itself lives outside; these functions state the wiring
//! as data, so that the mapping from paths to endpoints is part of the
//! library's contract.

use vstd::prelude::*;

verus! {

/// An HTTP method.
#[derive(Clone, Copy, PartialEq, Eq, Structural, Debug)]
pub enum Method {
    Get,
    Post,
    Put,
    Delete,
}

/// The operations the back-end serves.
#[derive(Clone, Copy, PartialEq, Eq, Structural, Debug)]
pub enum Endpoint {
    SignIn,
    SignUp,
    GetComment,
    CreateComment,
    UpdateComment,
    DeleteComment,
    CreatePost,
    GetPost,
    UpdatePost,
    DeletePost,
    GetPosts,
}

/// One route: a method, a path pattern, and the endpoint it reaches.
/// Path segments in angle brackets are parameters.
#[derive(Clone, Debug)]
pub struct RouteDef {
    pub method: Method,
    pub path: String,
    pub endpoint: Endpoint,
}

fn route(method: Method, path: &str, endpoint: Endpoint) -> (r: RouteDef)
    ensures
        r.method == method,
        r.path@ == path@,
        r.endpoint == endpoint,
{
    RouteDef { method, path: <String as vstd::string::StringExecFns>::from_str(path), endpoint }
}

/// The authentication routes: sign-in and sign-up.
pub fn get_auth_routes() -> (r: Vec<RouteDef>)
    ensures
        r@.len() == 2,
        r@[0].method == Method::Post && r@[0].path@ == "/sign-in"@ && r@[0].endpoint
            == Endpoint::SignIn,
        r@[1].method == Method::Post && r@[1].path@ == "/sign-up"@ && r@[1].endpoint
            == Endpoint::SignUp,
{
    let mut v: Vec<RouteDef> = Vec::new();
    v.push(route(Method::Post, "/sign-in", Endpoint::SignIn));
    v.push(route(Method::Post, "/sign-up", Endpoint::SignUp));
    v
}

/// The comment routes: create, delete, read, update.
pub fn comment_routes() -> (r: Vec<RouteDef>)
    ensures
        r@.len() == 4,
        r@[0].method == Method::Post && r@[0].path@ == "/comment/<post_id>"@ && r@[0].endpoint
            == Endpoint::CreateComment,
        r@[1].method == Method::Delete && r@[1].path@ == "/comment/<comment_id>"@
            && r@[1].endpoint == Endpoint::DeleteComment,
        r@[2].method == Method::Get && r@[2].path@ == "/comment/<post_id>"@ && r@[2].endpoint
            == Endpoint::GetComment,
        r@[3].method == Method::Put && r@[3].path@ == "/post/<post_id>/comment/<comment_id>"@
            && r@[3].endpoint == Endpoint::UpdateComment,
{
    let mut v: Vec<RouteDef> = Vec::new();
    v.push(route(Method::Post, "/comment/<post_id>", Endpoint::CreateComment));
    v.push(route(Method::Delete, "/comment/<comment_id>", Endpoint::DeleteComment));
    v.push(route(Method::Get, "/comment/<post_id>", Endpoint::GetComment));
    v.push(route(Method::Put, "/post/<post_id>/comment/<comment_id>", Endpoint::UpdateComment));
    v
}

/// The post routes: create, delete, read, update, list.
pub fn posts_routes() -> (r: Vec<RouteDef>)
    ensures
        r@.len() == 5,
        r@[0].method == Method::Post && r@[0].path@ == "/post"@ && r@[0].endpoint
            == Endpoint::CreatePost,
        r@[1].method == Method::Delete && r@[1].path@ == "/post/<id>"@ && r@[1].endpoint
            == Endpoint::DeletePost,
        r@[2].method == Method::Get && r@[2].path@ == "/post/<id>"@ && r@[2].endpoint
            == Endpoint::GetPost,
        r@[3].method == Method::Put && r@[3].path@ == "/post/<id>"@ && r@[3].endpoint
            == Endpoint::UpdatePost,
        r@[4].method == Method::Get && r@[4].path@ == "/post"@ && r@[4].endpoint
            == Endpoint::GetPosts,
{
    let mut v: Vec<RouteDef> = Vec::new();
    v.push(route(Method::Post, "/post", Endpoint::CreatePost));
    v.push(route(Method::Delete, "/post/<id>", Endpoint::DeletePost));
    v.push(route(Method::Get, "/post/<id>", Endpoint::GetPost));
    v.push(route(Method::Put, "/post/<id>", Endpoint::UpdatePost));
    v.push(route(Method::Get, "/post", Endpoint::GetPosts));
    v
}

} // verus!
